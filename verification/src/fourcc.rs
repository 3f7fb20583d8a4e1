//! The four-character-code (FourCC) key codec.
//!
//! SMC keys and data-type tags are 32-bit identifiers made of four ASCII
//! bytes, most-significant byte first.  A key name is validated by its
//! byte length — exactly four UTF-8 bytes — and encoded by folding those
//! bytes; the 4-character string form of a 32-bit key reads each byte as
//! one character.  For ASCII names (the FourCC data model) the two
//! directions are proved to round-trip.

use vstd::prelude::*;

verus! {

/// The UTF-8 bytes of a key name.
pub open spec fn key_bytes(s: Seq<char>) -> Seq<u8> {
    vstd::utf8::encode_utf8(s)
}

/// A well-formed key name: exactly four bytes.
pub open spec fn is_valid_key(b: Seq<u8>) -> bool {
    b.len() == 4
}

/// The 32-bit value of a four-byte key name: the bytes packed
/// most-significant first.
pub open spec fn fourcc_val(b: Seq<u8>) -> u32
    recommends
        is_valid_key(b),
{
    ((b[0] as u32) << 24) | ((b[1] as u32) << 16) | ((b[2] as u32) << 8) | (b[3] as u32)
}

/// The four bytes of a 32-bit key, most-significant first.
pub open spec fn fourcc_bytes(k: u32) -> Seq<u8> {
    seq![(k >> 24) as u8, (k >> 16) as u8, (k >> 8) as u8, k as u8]
}

/// The character form of a 32-bit key: each byte read as one character.
pub open spec fn fourcc_chars(k: u32) -> Seq<char> {
    fourcc_bytes(k).map_values(|b: u8| b as char)
}

/// Encodes a key name to its 32-bit value.  Returns `None` exactly when
/// the name is not four bytes long.
pub fn fourcc_encode(s: &str) -> (r: Option<u32>)
    ensures
        match r {
            Some(k) => is_valid_key(key_bytes(s@)) && k == fourcc_val(key_bytes(s@)),
            None => !is_valid_key(key_bytes(s@)),
        },
{
    let bytes: &[u8] = s.as_bytes();
    proof {
        assert(bytes@ == key_bytes(s@));
    }
    if bytes.len() != 4 {
        return None;
    }
    Some(
        ((bytes[0] as u32) << 24) | ((bytes[1] as u32) << 16) | ((bytes[2] as u32) << 8) | (
        bytes[3] as u32),
    )
}

/// Relies on `String::push`: appends exactly the given character.
#[verifier::external_body]
fn push_char(s: &mut String, c: char)
    ensures
        final(s)@ == old(s)@.push(c),
{
    s.push(c);
}

/// Decodes a 32-bit key to its 4-character string form, most-significant
/// byte first.
pub fn fourcc_decode(k: u32) -> (r: String)
    ensures
        r@ == fourcc_chars(k),
        r@.len() == 4,
{
    let mut s = String::new();
    push_char(&mut s, ((k >> 24) as u8) as char);
    push_char(&mut s, ((k >> 16) as u8) as char);
    push_char(&mut s, ((k >> 8) as u8) as char);
    push_char(&mut s, (k as u8) as char);
    proof {
        assert(s@ =~= fourcc_chars(k));
    }
    s
}

/// Every character of a decoded key is a byte value: the string form of a
/// 32-bit key has exactly four characters, each with a code below 256.
pub proof fn lemma_fourcc_chars_byte_range(k: u32)
    ensures
        fourcc_chars(k).len() == 4,
        forall|i: int| 0 <= i < 4 ==> ((#[trigger] fourcc_chars(k)[i]) as u32) < 256,
{
    assert forall|i: int| 0 <= i < 4 implies ((#[trigger] fourcc_chars(k)[i]) as u32) < 256 by {
        let b = fourcc_bytes(k)[i];
        assert(fourcc_chars(k)[i] == b as char);
        assert((b as char) as u32 == b as u32);
    }
}

/// Round trip on bytes: packing any four bytes into a 32-bit key and
/// reading its big-endian bytes back gives the same four bytes.
pub proof fn lemma_fourcc_bytes_round_trip(b: Seq<u8>)
    requires
        is_valid_key(b),
    ensures
        fourcc_bytes(fourcc_val(b)) == b,
{
    let x0 = b[0] as u32;
    let x1 = b[1] as u32;
    let x2 = b[2] as u32;
    let x3 = b[3] as u32;
    let k = fourcc_val(b);
    assert(x0 < 256 && x1 < 256 && x2 < 256 && x3 < 256);
    assert((((x0 << 24) | (x1 << 16) | (x2 << 8) | x3) >> 24) as u8 == x0 as u8) by (bit_vector)
        requires
            x0 < 256 && x1 < 256 && x2 < 256 && x3 < 256,
    ;
    assert((((x0 << 24) | (x1 << 16) | (x2 << 8) | x3) >> 16) as u8 == x1 as u8) by (bit_vector)
        requires
            x0 < 256 && x1 < 256 && x2 < 256 && x3 < 256,
    ;
    assert((((x0 << 24) | (x1 << 16) | (x2 << 8) | x3) >> 8) as u8 == x2 as u8) by (bit_vector)
        requires
            x0 < 256 && x1 < 256 && x2 < 256 && x3 < 256,
    ;
    assert(((x0 << 24) | (x1 << 16) | (x2 << 8) | x3) as u8 == x3 as u8) by (bit_vector)
        requires
            x0 < 256 && x1 < 256 && x2 < 256 && x3 < 256,
    ;
    assert(fourcc_bytes(k) =~= b);
}

/// Round trip on names: encoding a 4-character ASCII key name and
/// decoding the 32-bit value by its big-endian bytes gives the name back
/// unchanged.
pub proof fn lemma_fourcc_round_trip(s: Seq<char>)
    requires
        s.len() == 4,
        vstd::utf8::is_ascii_chars(s),
    ensures
        is_valid_key(key_bytes(s)),
        fourcc_chars(fourcc_val(key_bytes(s))) == s,
{
    vstd::utf8::is_ascii_chars_encode_utf8(s);
    let b = key_bytes(s);
    lemma_fourcc_bytes_round_trip(b);
    let k = fourcc_val(b);
    assert forall|i: int| 0 <= i < 4 implies #[trigger] fourcc_chars(k)[i] == s[i] by {
        assert(fourcc_bytes(k)[i] == b[i]);
        assert(b[i] == s[i] as u8);
        let c = s[i] as u32;
        assert(c < 128);
        assert(c as u8 as u32 == c) by (bit_vector)
            requires
                c < 128,
        ;
        vstd::utf8::char_u32_cast(s[i], c);
        assert(fourcc_chars(k)[i] == (s[i] as u8) as char);
    }
    assert(fourcc_chars(k) =~= s);
}

/// Round trip on values: reading the four big-endian bytes of any 32-bit
/// key and packing them again gives the same 32-bit key.
pub proof fn lemma_fourcc_val_round_trip(k: u32)
    ensures
        fourcc_val(fourcc_bytes(k)) == k,
{
    assert((((k >> 24) as u8 as u32) << 24) | (((k >> 16) as u8 as u32) << 16) | (((k >> 8)
        as u8 as u32) << 8) | (k as u8 as u32) == k) by (bit_vector);
    assert(fourcc_bytes(k)[0] == (k >> 24) as u8);
    assert(fourcc_bytes(k)[1] == (k >> 16) as u8);
    assert(fourcc_bytes(k)[2] == (k >> 8) as u8);
    assert(fourcc_bytes(k)[3] == k as u8);
}

} // verus!
