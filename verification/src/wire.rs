//! Shared primitives of the binary wire encoding: little-endian integers
//! and length-prefixed UTF-8 strings, with their parsing specifications
//! and round-trip facts.

use vstd::prelude::*;
use vstd::bytes::{
    lemma_auto_spec_u64_to_from_le_bytes, spec_u64_from_le_bytes, spec_u64_to_le_bytes,
    u64_from_le_bytes, u64_to_le_bytes,
};
use vstd::slice::slice_subrange;
use vstd::utf8::{decode_utf8, encode_utf8, encode_utf8_decode_utf8, encode_utf8_valid_utf8, valid_utf8};
use vstd::string::StringSliceAdditionalSpecFns;

verus! {

/// The `Utf8Error` of std, opaque to this crate: only its presence in the
/// `from_utf8` result matters.
#[verifier::external_type_specification]
#[verifier::external_body]
pub struct ExUtf8Error(core::str::Utf8Error);

/// Relies on std's `str::from_utf8`: converting bytes to a string slice
/// succeeds on every valid UTF-8 encoding, and the resulting slice holds
/// exactly the given bytes.
pub assume_specification<'a>[ core::str::from_utf8 ](v: &'a [u8]) -> (r: Result<&'a str, core::str::Utf8Error>)
    ensures
        valid_utf8(v@) ==> r is Ok,
        r matches Ok(s) ==> s.spec_bytes() == v@,
;

/// The wire form of a 64-bit integer: eight little-endian bytes.
pub open spec fn spec_enc_u64(x: u64) -> Seq<u8> {
    spec_u64_to_le_bytes(x)
}

/// The wire form of a string: its UTF-8 byte length, then its UTF-8 bytes.
pub open spec fn spec_enc_str(s: Seq<char>) -> Seq<u8> {
    spec_enc_u64(encode_utf8(s).len() as u64) + encode_utf8(s)
}

/// A string's wire form fits only while its byte length fits in 64 bits;
/// every string held in memory does.
pub open spec fn str_fits(s: Seq<char>) -> bool {
    encode_utf8(s).len() <= u64::MAX
}

/// Parse a 64-bit integer at `i`: the next eight bytes, little-endian.
pub open spec fn sd_u64(b: Seq<u8>, i: int) -> Option<(u64, int)> {
    if 0 <= i && i + 8 <= b.len() {
        Some((spec_u64_from_le_bytes(b.subrange(i, i + 8)), i + 8))
    } else {
        None
    }
}

/// Parse one byte at `i`.
pub open spec fn sd_u8(b: Seq<u8>, i: int) -> Option<(u8, int)> {
    if 0 <= i < b.len() {
        Some((b[i], i + 1))
    } else {
        None
    }
}

/// Parse a length-prefixed UTF-8 string at `i`.
pub open spec fn sd_str(b: Seq<u8>, i: int) -> Option<(Seq<char>, int)> {
    match sd_u64(b, i) {
        None => None,
        Some((n, j)) => if j + n <= b.len() && valid_utf8(b.subrange(j, j + n)) {
            Some((decode_utf8(b.subrange(j, j + n)), j + n))
        } else {
            None
        },
    }
}

/// Parsing an encoded integer inside a larger buffer yields the integer
/// back and stops right after it.
pub proof fn lemma_rt_u64(b: Seq<u8>, i: int, x: u64)
    requires
        0 <= i,
        i + 8 <= b.len(),
        b.subrange(i, i + 8) == spec_enc_u64(x),
    ensures
        sd_u64(b, i) == Some((x, i + 8)),
{
    lemma_auto_spec_u64_to_from_le_bytes();
}

/// Parsing an encoded string inside a larger buffer yields the string
/// back and stops right after it.
pub proof fn lemma_rt_str(b: Seq<u8>, i: int, s: Seq<char>)
    requires
        0 <= i,
        str_fits(s),
        i + spec_enc_str(s).len() <= b.len(),
        b.subrange(i, i + spec_enc_str(s).len()) == spec_enc_str(s),
    ensures
        sd_str(b, i) == Some((s, i + spec_enc_str(s).len())),
{
    lemma_auto_spec_u64_to_from_le_bytes();
    let bytes = encode_utf8(s);
    let n = bytes.len() as int;
    let whole = b.subrange(i, i + spec_enc_str(s).len());
    assert(spec_enc_str(s).len() == 8 + n);
    assert forall|k: int| 0 <= k < 8 + n implies b[i + k] == spec_enc_str(s)[k] by {
        assert(whole[k] == b[i + k]);
    }
    assert(b.subrange(i, i + 8) =~= spec_enc_u64(n as u64));
    lemma_rt_u64(b, i, n as u64);
    assert forall|k: int| 0 <= k < n implies b.subrange(i + 8, i + 8 + n)[k] == bytes[k] by {
        let k2 = 8 + k;
        assert(whole[k2] == b[i + k2]);
        assert(spec_enc_str(s)[k2] == bytes[k]);
    }
    assert(b.subrange(i + 8, i + 8 + n) =~= bytes);
    encode_utf8_valid_utf8(s);
    encode_utf8_decode_utf8(s);
}

/// Read eight little-endian bytes at `at`.
pub fn read_u64(data: &[u8], at: usize) -> (r: u64)
    requires
        at + 8 <= data@.len(),
    ensures
        sd_u64(data@, at as int) == Some((r, at as int + 8)),
{
    let len = data.len();
    let piece = slice_subrange(data, at, at + 8);
    u64_from_le_bytes(piece)
}

/// Read a length-prefixed UTF-8 string at `at`, yielding the string and
/// the position after it; `None` when the buffer is short or the bytes
/// are not valid UTF-8.
pub fn read_str(data: &[u8], at: usize) -> (r: Option<(String, usize)>)
    requires
        at + 8 <= data@.len(),
        data@.len() <= u64::MAX,
    ensures
        match r {
            Some((s, j)) => sd_str(data@, at as int) == Some((s@, j as int)),
            None => sd_str(data@, at as int) is None,
        },
{
    let len = data.len();
    let n = read_u64(data, at);
    let j = at + 8;
    if n > (len - j) as u64 {
        return None;
    }
    let n_usize = n as usize;
    let piece = slice_subrange(data, j, j + n_usize);
    match core::str::from_utf8(piece) {
        Ok(text) => {
            proof {
                encode_utf8_valid_utf8(text@);
                encode_utf8_decode_utf8(text@);
            }
            Some((text.to_owned(), j + n_usize))
        },
        Err(_) => {
            proof {
                assert(!valid_utf8(data@.subrange(j as int, j + n as int)));
            }
            None
        },
    }
}

/// Append the wire form of a 64-bit integer.
pub fn write_u64(out: &mut Vec<u8>, x: u64)
    ensures
        final(out)@ == old(out)@ + spec_enc_u64(x),
{
    let mut piece = u64_to_le_bytes(x);
    out.append(&mut piece);
}

/// Append the wire form of a string.
pub fn write_str(out: &mut Vec<u8>, s: &str)
    ensures
        final(out)@ == old(out)@ + spec_enc_str(s@),
{
    let bytes = s.as_bytes();
    write_u64(out, bytes.len() as u64);
    let mut piece = vstd::slice::slice_to_vec(bytes);
    out.append(&mut piece);
    proof {
        assert(final(out)@ =~= old(out)@ + spec_enc_str(s@));
    }
}

/// A piece of an encoding placed inside a larger buffer is found at its
/// offset.
pub proof fn lemma_piece<T>(b: Seq<T>, i: int, whole: Seq<T>, off: int, piece: Seq<T>)
    requires
        0 <= i,
        i + whole.len() <= b.len(),
        b.subrange(i, i + whole.len()) == whole,
        0 <= off,
        off + piece.len() <= whole.len(),
        whole.subrange(off, off + piece.len()) == piece,
    ensures
        b.subrange(i + off, i + off + piece.len()) == piece,
{
    assert forall|k: int| 0 <= k < piece.len() implies b.subrange(
        i + off,
        i + off + piece.len(),
    )[k] == piece[k] by {
        assert(b.subrange(i, i + whole.len())[off + k] == b[i + off + k]);
        assert(whole.subrange(off, off + piece.len())[k] == piece[k]);
    }
    assert(b.subrange(i + off, i + off + piece.len()) =~= piece);
}

/// What an integer parse accepts is exactly an encoded integer: a parsed
/// value re-encodes to the very bytes it was read from.
pub proof fn lemma_sound_u64(b: Seq<u8>, i: int, x: u64, j: int)
    requires
        sd_u64(b, i) == Some((x, j)),
    ensures
        j == i + 8,
        i + 8 <= b.len(),
        b.subrange(i, i + 8) == spec_enc_u64(x),
{
    lemma_auto_spec_u64_to_from_le_bytes();
    assert(spec_u64_to_le_bytes(spec_u64_from_le_bytes(b.subrange(i, i + 8))) == b.subrange(
        i,
        i + 8,
    ));
}

/// What a string parse accepts is exactly an encoded string: a parsed
/// string re-encodes to the very bytes it was read from.
pub proof fn lemma_sound_str(b: Seq<u8>, i: int, s: Seq<char>, j: int)
    requires
        sd_str(b, i) == Some((s, j)),
    ensures
        str_fits(s),
        0 <= i,
        j == i + spec_enc_str(s).len(),
        j <= b.len(),
        b.subrange(i, j) == spec_enc_str(s),
{
    lemma_auto_spec_u64_to_from_le_bytes();
    let n = spec_u64_from_le_bytes(b.subrange(i, i + 8));
    let sub = b.subrange(i + 8, i + 8 + n);
    vstd::utf8::decode_utf8_encode_utf8(sub);
    assert(encode_utf8(s) == sub);
    lemma_sound_u64(b, i, n, i + 8);
    assert(b.subrange(i, i + 8 + n) =~= b.subrange(i, i + 8) + sub);
}

} // verus!
