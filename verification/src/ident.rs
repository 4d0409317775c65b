//! Identifiers: a 64-bit digest of an item's fields, written as sixteen
//! hexadecimal digits.

use vstd::prelude::*;
use vstd::std_specs::hash::*;
use vstd::utf8::*;
use std::collections::hash_map::DefaultHasher;
use std::hash::Hasher;
use crate::tackables::{Fields, Tacked};
use crate::text::{clip, clipped, lemma_position_unique};

verus! {

/// The number of characters of an identifier.
pub const ID_WIDTH: usize = 16;

/// The number of characters of an identifier's short form.
pub const SHORT_WIDTH: usize = 8;

/// The byte that ends a text in the hash input. No UTF-8 text holds it.
pub const TEXT_END: u8 = 0xFF;

/// The digit that stands for `d` in base sixteen, for `d` from 0 to 15.
pub open spec fn hex_digit(d: int) -> char {
    "0123456789abcdef"@[d]
}

/// The last `width` base-sixteen digits of `value`, the most significant
/// first, with leading zeros.
pub open spec fn hex_text(value: nat, width: nat) -> Seq<char>
    decreases width,
{
    if width == 0 {
        Seq::empty()
    } else {
        hex_text(value / 16, (width - 1) as nat).push(hex_digit((value % 16) as int))
    }
}

/// Sixteen to the power `n`.
pub open spec fn pow16(n: nat) -> nat
    decreases n,
{
    if n == 0 {
        1
    } else {
        16 * pow16((n - 1) as nat)
    }
}

/// The byte that stands for a priority: its two's complement.
pub open spec fn priority_byte(priority: i8) -> u8 {
    if priority >= 0 {
        priority as u8
    } else {
        (priority + 256) as u8
    }
}

/// The bytes that stand for a text in the hash input: its UTF-8 bytes, then
/// the byte that ends a text.
pub open spec fn text_bytes(text: Seq<char>) -> Seq<u8> {
    encode_utf8(text).push(TEXT_END)
}

/// The bytes that stand for an optional path in the hash input: 0 for none,
/// else 1 and the bytes of the text.
pub open spec fn on_bytes(on: Option<Seq<char>>) -> Seq<u8> {
    match on {
        None => seq![0u8],
        Some(path) => seq![1u8] + text_bytes(path),
    }
}

/// The bytes that stand for the to-do part of an item in the hash input: 0
/// for a note, else 1, the priority, and 1 or 0 for complete or not.
pub open spec fn todo_bytes(todo: Option<(i8, bool)>) -> Seq<u8> {
    match todo {
        None => seq![0u8],
        Some((priority, complete)) => seq![
            1u8,
            priority_byte(priority),
            if complete { 1u8 } else { 0u8 },
        ],
    }
}

/// The bytes that are hashed for an item: its content, its path, its
/// timestamp and its to-do part, one after another.
pub open spec fn hash_bytes(item: Fields) -> Seq<u8> {
    text_bytes(item.content) + on_bytes(item.on) + text_bytes(item.datetime) + todo_bytes(
        item.todo,
    )
}

/// The digest of an item: what the hasher makes of `hash_bytes`, fed to it
/// in one write.
pub open spec fn digest(item: Fields) -> u64 {
    DefaultHasher::spec_finish(seq![hash_bytes(item)])
}

/// The identifier of an item: its digest, as sixteen hexadecimal digits.
pub open spec fn id_of(item: Fields) -> Seq<char> {
    hex_text(digest(item) as nat, ID_WIDTH as nat)
}

/// The short form of an identifier: its first eight characters, or all of it
/// where it has fewer.
pub open spec fn short_form(id: Seq<char>) -> Seq<char> {
    clipped(id, SHORT_WIDTH as int)
}

/// Writes the last `width` hexadecimal digits of `value`.
pub fn hex(value: u64, width: usize) -> (out: String)
    ensures
        out@ == hex_text(value as nat, width as nat),
    decreases width,
{
    if width == 0 {
        String::new()
    } else {
        let mut out = hex(value / 16, width - 1);
        let d: usize = (value % 16) as usize;
        proof {
            reveal_strlit("0123456789abcdef");
        }
        let digit = "0123456789abcdef".substring_char(d, d + 1);
        assert(digit@ =~= seq![hex_digit(d as int)]);
        out.append(digit);
        out
    }
}

/// Appends the bytes that stand for `text`.
fn push_text(bytes: &mut Vec<u8>, text: &str)
    ensures
        final(bytes)@ == old(bytes)@ + text_bytes(text@),
{
    let more = text.as_bytes();
    let mut i: usize = 0;
    while i < more.len()
        invariant
            i <= more.len(),
            more@ == encode_utf8(text@),
            bytes@ == old(bytes)@ + more@.take(i as int),
        decreases more.len() - i,
    {
        bytes.push(more[i]);
        assert(bytes@ =~= old(bytes)@ + more@.take(i + 1));
        i += 1;
    }
    bytes.push(TEXT_END);
    assert(bytes@ =~= old(bytes)@ + text_bytes(text@));
}

/// Computes the identifier of the item with the given fields.
pub fn identify(content: &str, on: &Option<String>, datetime: &str, todo: Option<(i8, bool)>) -> (id:
    String)
    ensures
        id@ == id_of((Fields { content: content@, on: on.deep_view(), datetime: datetime@, todo })),
        id@.len() == ID_WIDTH,
{
    let ghost item = Fields { content: content@, on: on.deep_view(), datetime: datetime@, todo };
    let mut bytes: Vec<u8> = Vec::new();
    push_text(&mut bytes, content);
    match on {
        None => {
            bytes.push(0);
        },
        Some(path) => {
            bytes.push(1);
            push_text(&mut bytes, path.as_str());
        },
    }
    assert(bytes@ =~= text_bytes(item.content) + on_bytes(item.on));
    push_text(&mut bytes, datetime);
    match todo {
        None => {
            bytes.push(0);
        },
        Some((priority, complete)) => {
            let byte: u8 = if priority >= 0 {
                priority as u8
            } else {
                (priority as i16 + 256) as u8
            };
            bytes.push(1);
            bytes.push(byte);
            bytes.push(if complete { 1 } else { 0 });
        },
    }
    assert(bytes@ =~= hash_bytes(item));
    let mut state = DefaultHasher::new();
    state.write(bytes.as_slice());
    assert(state@ =~= seq![hash_bytes(item)]);
    proof {
        lemma_hex_len(digest(item) as nat, ID_WIDTH as nat);
    }
    hex(state.finish(), ID_WIDTH)
}

/// The short form of `id`.
pub fn short_id(id: &str) -> (out: &str)
    ensures
        out@ == short_form(id@),
{
    clip(id, SHORT_WIDTH)
}

/// `hex_text` has as many digits as were asked for.
pub proof fn lemma_hex_len(value: nat, width: nat)
    ensures
        hex_text(value, width).len() == width,
    decreases width,
{
    if width > 0 {
        lemma_hex_len(value / 16, (width - 1) as nat);
    }
}

/// Different values below sixteen have different digits.
pub proof fn lemma_hex_digit_injective(a: int, b: int)
    requires
        0 <= a < 16,
        0 <= b < 16,
        hex_digit(a) == hex_digit(b),
    ensures
        a == b,
{
    reveal_strlit("0123456789abcdef");
}

/// Values that `width` digits can tell apart are written differently: two
/// values below sixteen to the `width` with the same digits are equal.
pub proof fn lemma_hex_injective(a: nat, b: nat, width: nat)
    requires
        a < pow16(width),
        b < pow16(width),
        hex_text(a, width) == hex_text(b, width),
    ensures
        a == b,
    decreases width,
{
    if width > 0 {
        let shorter = (width - 1) as nat;
        assert(hex_text(a, width).last() == hex_digit((a % 16) as int));
        assert(hex_text(b, width).last() == hex_digit((b % 16) as int));
        assert(hex_text(a, width).drop_last() =~= hex_text(a / 16, shorter));
        assert(hex_text(b, width).drop_last() =~= hex_text(b / 16, shorter));
        lemma_hex_digit_injective((a % 16) as int, (b % 16) as int);
        lemma_hex_injective(a / 16, b / 16, shorter);
    }
}

/// Identifiers written from different digests are different.
pub proof fn lemma_id_tells_digests_apart(a: u64, b: u64)
    requires
        hex_text(a as nat, ID_WIDTH as nat) == hex_text(b as nat, ID_WIDTH as nat),
    ensures
        a == b,
{
    assert(pow16(16) == 0x1_0000_0000_0000_0000) by {
        reveal_with_fuel(pow16, 17);
    }
    lemma_hex_injective(a as nat, b as nat, ID_WIDTH as nat);
}

/// No byte of the UTF-8 form of a character ends a text.
proof fn lemma_scalar_bytes(scalar: u32)
    ensures
        forall|i: int| 0 <= i < encode_scalar(scalar).len() ==> encode_scalar(scalar)[i] != TEXT_END,
{
    assert((scalar & 0x7F) as u8 != 0xFF) by (bit_vector);
    assert(0xC0 | ((scalar >> 6) & 0x1F) as u8 != 0xFF) by (bit_vector);
    assert(0xE0 | ((scalar >> 12) & 0x0F) as u8 != 0xFF) by (bit_vector);
    assert(0xF0 | ((scalar >> 18) & 0x7) as u8 != 0xFF) by (bit_vector);
    assert(0x80 | (scalar & 0x3F) as u8 != 0xFF) by (bit_vector);
    assert(0x80 | ((scalar >> 6) & 0x3F) as u8 != 0xFF) by (bit_vector);
    assert(0x80 | ((scalar >> 12) & 0x3F) as u8 != 0xFF) by (bit_vector);
}

/// No byte of the UTF-8 form of a text ends a text.
proof fn lemma_text_has_no_end(text: Seq<char>)
    ensures
        forall|i: int| 0 <= i < encode_utf8(text).len() ==> encode_utf8(text)[i] != TEXT_END,
    decreases text.len(),
{
    if text.len() > 0 {
        let head = encode_scalar(text[0] as u32);
        let tail = encode_utf8(text.drop_first());
        lemma_scalar_bytes(text[0] as u32);
        lemma_text_has_no_end(text.drop_first());
        assert(encode_utf8(text) == head + tail);
        assert forall|i: int| 0 <= i < encode_utf8(text).len() implies encode_utf8(text)[i]
            != TEXT_END by {
            if i < head.len() {
                assert(encode_utf8(text)[i] == head[i]);
            } else {
                assert(encode_utf8(text)[i] == tail[i - head.len()]);
            }
        }
    }
}

/// Texts with the same UTF-8 bytes are the same text.
proof fn lemma_utf8_injective(a: Seq<char>, b: Seq<char>)
    requires
        encode_utf8(a) == encode_utf8(b),
    ensures
        a == b,
{
    encode_utf8_decode_utf8(a);
    encode_utf8_decode_utf8(b);
}

/// The bytes of a text can be told from what follows them: where two texts,
/// each followed by more bytes, make the same bytes, the texts are the same
/// and so is what follows.
proof fn lemma_text_bytes_split(a: Seq<char>, after_a: Seq<u8>, b: Seq<char>, after_b: Seq<u8>)
    requires
        text_bytes(a) + after_a == text_bytes(b) + after_b,
    ensures
        a == b,
        after_a == after_b,
{
    let whole = text_bytes(a) + after_a;
    let ea = encode_utf8(a);
    let eb = encode_utf8(b);
    lemma_text_has_no_end(a);
    lemma_text_has_no_end(b);
    assert forall|j: int| 0 <= j < ea.len() implies whole[j] != TEXT_END by {
        assert(whole[j] == ea[j]);
    }
    assert(whole[ea.len() as int] == TEXT_END);
    lemma_position_unique(whole, TEXT_END, ea.len() as int);
    let other = text_bytes(b) + after_b;
    assert forall|j: int| 0 <= j < eb.len() implies other[j] != TEXT_END by {
        assert(other[j] == eb[j]);
    }
    assert(other[eb.len() as int] == TEXT_END);
    lemma_position_unique(other, TEXT_END, eb.len() as int);
    assert(ea =~= whole.take(ea.len() as int));
    assert(eb =~= other.take(eb.len() as int));
    lemma_utf8_injective(a, b);
    assert(after_a =~= whole.skip(ea.len() as int + 1));
    assert(after_b =~= other.skip(eb.len() as int + 1));
}

/// No two items are hashed from the same bytes: items whose hash bytes are
/// equal are equal field for field.
pub proof fn lemma_hash_bytes_injective(a: Fields, b: Fields)
    requires
        hash_bytes(a) == hash_bytes(b),
    ensures
        a == b,
{
    let rest_a = on_bytes(a.on) + text_bytes(a.datetime) + todo_bytes(a.todo);
    let rest_b = on_bytes(b.on) + text_bytes(b.datetime) + todo_bytes(b.todo);
    assert(hash_bytes(a) =~= text_bytes(a.content) + rest_a);
    assert(hash_bytes(b) =~= text_bytes(b.content) + rest_b);
    lemma_text_bytes_split(a.content, rest_a, b.content, rest_b);
    let tail_a = text_bytes(a.datetime) + todo_bytes(a.todo);
    let tail_b = text_bytes(b.datetime) + todo_bytes(b.todo);
    assert(rest_a[0] == rest_b[0]);
    match (a.on, b.on) {
        (Some(p), Some(q)) => {
            assert(rest_a =~= seq![1u8] + (text_bytes(p) + tail_a));
            assert(rest_b =~= seq![1u8] + (text_bytes(q) + tail_b));
            assert(text_bytes(p) + tail_a =~= rest_a.skip(1));
            assert(text_bytes(q) + tail_b =~= rest_b.skip(1));
            lemma_text_bytes_split(p, tail_a, q, tail_b);
        },
        (None, None) => {
            assert(tail_a =~= rest_a.skip(1));
            assert(tail_b =~= rest_b.skip(1));
        },
        (Some(p), None) => {
            assert(rest_a[0] == 1u8);
            assert(rest_b[0] == 0u8);
        },
        (None, Some(q)) => {
            assert(rest_a[0] == 0u8);
            assert(rest_b[0] == 1u8);
        },
    }
    assert(tail_a == tail_b);
    lemma_text_bytes_split(a.datetime, todo_bytes(a.todo), b.datetime, todo_bytes(b.todo));
    let ta = todo_bytes(a.todo);
    let tb = todo_bytes(b.todo);
    assert(ta.len() == tb.len());
    match (a.todo, b.todo) {
        (Some((p, c)), Some((q, d))) => {
            assert(ta[1] == tb[1]);
            assert(ta[2] == tb[2]);
        },
        _ => {},
    }
}

/// Items with the same fields have the same identifier.
pub proof fn lemma_same_fields_same_id(a: Tacked, b: Tacked)
    requires
        a@ == b@,
    ensures
        id_of(a@) == id_of(b@),
{
}

/// Items that differ in any field are hashed from different bytes, and have
/// different identifiers unless the hasher gives those bytes the same digest.
pub proof fn lemma_ids_differ(a: Fields, b: Fields)
    requires
        a != b,
    ensures
        hash_bytes(a) != hash_bytes(b),
        digest(a) != digest(b) ==> id_of(a) != id_of(b),
{
    if hash_bytes(a) == hash_bytes(b) {
        lemma_hash_bytes_injective(a, b);
    }
    if id_of(a) == id_of(b) {
        lemma_id_tells_digests_apart(digest(a), digest(b));
    }
}

} // verus!
