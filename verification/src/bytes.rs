//! Byte sequences: where a byte first occurs, and what text the bytes spell.
use vstd::prelude::*;
use vstd::slice::slice_subrange;
use vstd::string::StringSliceAdditionalSpecFns;
use vstd::utf8::*;

verus! {

/// `at` is the place of the first `byte` in `bytes`, or the length of
/// `bytes` where `byte` does not occur.
pub open spec fn found_at(bytes: Seq<u8>, byte: u8, at: int) -> bool {
    &&& 0 <= at <= bytes.len()
    &&& forall|j: int| 0 <= j < at ==> bytes[j] != byte
    &&& at < bytes.len() ==> bytes[at] == byte
}

/// The place of the first `byte` in `bytes`, or the length of `bytes`
/// where `byte` does not occur.
pub open spec fn first_index(bytes: Seq<u8>, byte: u8) -> int
    decreases bytes.len(),
{
    if bytes.len() == 0 || bytes[0] == byte {
        0
    } else {
        1 + first_index(bytes.drop_first(), byte)
    }
}

/// `first_index` finds the first occurrence.
pub proof fn lemma_first_index(bytes: Seq<u8>, byte: u8)
    ensures
        found_at(bytes, byte, first_index(bytes, byte)),
    decreases bytes.len(),
{
    if !(bytes.len() == 0 || bytes[0] == byte) {
        let rest = bytes.drop_first();
        lemma_first_index(rest, byte);
        let at = first_index(bytes, byte);
        assert forall|j: int| 0 <= j < at implies bytes[j] != byte by {
            if j > 0 {
                assert(rest[j - 1] == bytes[j]);
            }
        }
        if at < bytes.len() {
            assert(rest[at - 1] == bytes[at]);
        }
    }
}

/// Only one index is the place of the first occurrence.
pub proof fn lemma_first_index_unique(bytes: Seq<u8>, byte: u8, at: int)
    requires
        found_at(bytes, byte, at),
    ensures
        first_index(bytes, byte) == at,
    decreases bytes.len(),
{
    if at > 0 {
        let rest = bytes.drop_first();
        assert forall|j: int| 0 <= j < at - 1 implies rest[j] != byte by {
            assert(rest[j] == bytes[j + 1]);
        }
        lemma_first_index_unique(rest, byte, at - 1);
    }
}

/// The place of the first `byte` in `bytes`, or `bytes.len()`.
pub fn find_byte(bytes: &[u8], byte: u8) -> (at: usize)
    ensures
        at == first_index(bytes@, byte),
{
    let mut i: usize = 0;
    while i < bytes.len() && bytes[i] != byte
        invariant
            i <= bytes.len(),
            forall|j: int| 0 <= j < i ==> bytes@[j] != byte,
        decreases bytes.len() - i,
    {
        i += 1;
    }
    proof {
        lemma_first_index_unique(bytes@, byte, i as int);
    }
    i
}

/// What stands before the first `byte` in `bytes` and what stands after it;
/// nothing where `byte` does not occur.
pub open spec fn split_first(bytes: Seq<u8>, byte: u8) -> Option<(Seq<u8>, Seq<u8>)> {
    let at = first_index(bytes, byte);
    if at < bytes.len() {
        Some((bytes.take(at), bytes.skip(at + 1)))
    } else {
        None
    }
}

/// The two parts of `bytes` around the first `byte`, or nothing where
/// `byte` does not occur.
pub fn split_at_first<'a>(bytes: &'a [u8], byte: u8) -> (r: Option<(&'a [u8], &'a [u8])>)
    ensures
        match split_first(bytes@, byte) {
            Some((before, after)) => r matches Some((x, y)) && x@ == before && y@ == after,
            None => r is None,
        },
{
    let at: usize = find_byte(bytes, byte);
    proof {
        lemma_first_index(bytes@, byte);
    }
    if at < bytes.len() {
        let before = slice_subrange(bytes, 0, at);
        let after = slice_subrange(bytes, at + 1, bytes.len());
        Some((before, after))
    } else {
        None
    }
}

/// The first `n` bytes of `bytes` are valid UTF-8, and no longer part
/// from the start is.
pub open spec fn text_ends_at(bytes: Seq<u8>, n: int) -> bool {
    &&& 0 <= n <= bytes.len()
    &&& valid_utf8(bytes.take(n))
    &&& forall|k: int| n < k <= bytes.len() ==> !valid_utf8(#[trigger] bytes.take(k))
}

/// The characters that `bytes` spell in UTF-8: those of the longest part
/// from the start that is valid UTF-8. Bytes that are valid as a whole
/// spell all their characters; where the last character is cut short, the
/// text ends before it.
pub open spec fn text_of(bytes: Seq<u8>) -> Seq<char> {
    decode_utf8(bytes.take(choose|n: int| text_ends_at(bytes, n)))
}

/// Only one part from the start is the longest that is valid.
pub proof fn lemma_text_ends_at(bytes: Seq<u8>, n: int)
    requires
        text_ends_at(bytes, n),
    ensures
        text_of(bytes) == decode_utf8(bytes.take(n)),
{
    let m = choose|m: int| text_ends_at(bytes, m);
    if m < n {
        assert(!valid_utf8(bytes.take(n)));
    }
    if n < m {
        assert(!valid_utf8(bytes.take(m)));
    }
}

/// Valid UTF-8 spells all its characters.
pub proof fn lemma_text_of_valid(bytes: Seq<u8>)
    requires
        valid_utf8(bytes),
    ensures
        text_of(bytes) == decode_utf8(bytes),
{
    assert(bytes.take(bytes.len() as int) =~= bytes);
    lemma_text_ends_at(bytes, bytes.len() as int);
}

/// The text that `bytes` spell, as a string slice over their start.
pub fn text_in<'a>(bytes: &'a [u8]) -> (s: &'a str)
    ensures
        s@ == text_of(bytes@),
{
    let mut n: usize = bytes.len();
    while n > 0
        invariant
            n <= bytes.len(),
            forall|k: int| n < k <= bytes.len() ==> !valid_utf8(#[trigger] bytes@.take(k)),
        decreases n,
    {
        match utf8_text(slice_subrange(bytes, 0, n)) {
            Some(s) => {
                proof {
                    encode_utf8_decode_utf8(s@);
                    lemma_text_ends_at(bytes@, n as int);
                }
                return s;
            },
            None => {},
        }
        n -= 1;
    }
    proof {
        reveal_strlit("");
        assert(bytes@.take(0) =~= Seq::<u8>::empty());
        lemma_text_ends_at(bytes@, 0);
    }
    ""
}

/// `core::str::from_utf8`: the string slice over `bytes` when they are
/// valid UTF-8, as the standard library checks it, and nothing otherwise.
/// The slice covers exactly the given bytes.
#[verifier::external_body]
fn utf8_text<'a>(bytes: &'a [u8]) -> (r: Option<&'a str>)
    ensures
        r is Some <==> valid_utf8(bytes@),
        r matches Some(s) ==> s.spec_bytes() == bytes@,
{
    core::str::from_utf8(bytes).ok()
}

/// No byte of valid UTF-8 is above `0xf7`.
pub proof fn lemma_utf8_byte_range(bytes: Seq<u8>)
    requires
        valid_utf8(bytes),
    ensures
        forall|i: int| 0 <= i < bytes.len() ==> bytes[i] <= 0xf7,
    decreases bytes.len(),
{
    if bytes.len() != 0 {
        let n = length_of_first_scalar(bytes);
        let rest = pop_first_scalar(bytes);
        lemma_utf8_byte_range(rest);
        assert forall|i: int| 0 <= i < bytes.len() implies bytes[i] <= 0xf7 by {
            if i >= n {
                assert(rest[i - n] == bytes[i]);
            }
        }
    }
}

/// Encoding a concatenation gives the concatenation of the encodings.
pub proof fn lemma_encode_concat(a: Seq<char>, b: Seq<char>)
    ensures
        encode_utf8(a + b) == encode_utf8(a) + encode_utf8(b),
    decreases a.len(),
{
    if a.len() == 0 {
        assert(a + b =~= b);
        assert(encode_utf8(a) + encode_utf8(b) =~= encode_utf8(b));
    } else {
        lemma_encode_concat(a.drop_first(), b);
        assert((a + b).drop_first() =~= a.drop_first() + b);
        assert(encode_utf8(a + b) =~= encode_utf8(a) + encode_utf8(b));
    }
}

/// The UTF-8 bytes of one character hold the ASCII byte `byte` exactly
/// when the character is that ASCII character.
proof fn lemma_ascii_in_scalar(c: char, byte: u8)
    requires
        byte <= 0x7f,
    ensures
        encode_scalar(c as u32).contains(byte) <==> c as u32 == byte as u32,
{
    let s = c as u32;
    let bytes = encode_scalar(s);
    char_is_scalar(c);
    assert(has_width_1_encoding(s) ==> ((s & 0x7F) as u8) as u32 == s) by (bit_vector);
    assert((0xC0u8 | ((s >> 6) & 0x1F) as u8) >= 0x80u8) by (bit_vector);
    assert((0xE0u8 | ((s >> 12) & 0x0F) as u8) >= 0x80u8) by (bit_vector);
    assert((0xF0u8 | ((s >> 18) & 0x7) as u8) >= 0x80u8) by (bit_vector);
    assert((0x80u8 | (s & 0x3F) as u8) >= 0x80u8) by (bit_vector);
    assert((0x80u8 | ((s >> 6) & 0x3F) as u8) >= 0x80u8) by (bit_vector);
    assert((0x80u8 | ((s >> 12) & 0x3F) as u8) >= 0x80u8) by (bit_vector);
    if bytes.contains(byte) {
        let i = choose|i: int| 0 <= i < bytes.len() && bytes[i] == byte;
        assert(bytes[i] == byte);
    }
    if s == byte as u32 {
        assert(bytes[0] == byte);
    }
}

/// The UTF-8 bytes of a text hold the ASCII byte `byte` exactly when the
/// text holds that ASCII character.
pub proof fn lemma_ascii_in_text(text: Seq<char>, c: char, byte: u8)
    requires
        byte <= 0x7f,
        c as u32 == byte as u32,
    ensures
        encode_utf8(text).contains(byte) <==> text.contains(c),
    decreases text.len(),
{
    if text.len() == 0 {
        assert(!encode_utf8(text).contains(byte));
        assert(!text.contains(c));
    } else {
        let all = encode_utf8(text);
        let head = encode_scalar(text[0] as u32);
        let rest = text.drop_first();
        let tail = encode_utf8(rest);
        lemma_ascii_in_scalar(text[0], byte);
        lemma_ascii_in_text(rest, c, byte);
        char_u32_cast(text[0], text[0] as u32);
        char_u32_cast(c, c as u32);
        assert(all == head + tail);
        if all.contains(byte) {
            let i = choose|i: int| 0 <= i < all.len() && all[i] == byte;
            if i < head.len() {
                assert(head[i] == byte);
                assert(head.contains(byte));
                assert(text[0] == c);
            } else {
                assert(tail[i - head.len()] == byte);
                assert(tail.contains(byte));
                let k = choose|k: int| 0 <= k < rest.len() && rest[k] == c;
                assert(text[k + 1] == c);
            }
        }
        if text.contains(c) {
            let k = choose|k: int| 0 <= k < text.len() && text[k] == c;
            if k == 0 {
                let i = choose|i: int| 0 <= i < head.len() && head[i] == byte;
                assert(all[i] == byte);
            } else {
                assert(rest[k - 1] == c);
                assert(rest.contains(c));
                let i = choose|i: int| 0 <= i < tail.len() && tail[i] == byte;
                assert(all[head.len() + i] == byte);
            }
        }
    }
}

} // verus!
