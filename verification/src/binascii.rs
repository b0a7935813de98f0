use vstd::prelude::*;

use vstd::arithmetic::div_mod::lemma_fundamental_div_mod_converse;
use vstd::slice::{slice_index_get, slice_subrange};

use crc::Hasher32;

use crate::byteslike::{BytesCow, PyAsciiBytesLike, PyBytesLike};
use crate::object::{Heap, PyErr};

verus! {

/// The lowercase hexadecimal digit for the nibble `n` (`n < 16`).
pub open spec fn hex_digit(n: u8) -> u8 {
    if n < 10 {
        (0x30 + n) as u8
    } else {
        (0x57 + n) as u8
    }
}

/// Hex encoding of a byte sequence: two digits per byte, high nibble first.
pub open spec fn hex_encoding(b: Seq<u8>) -> Seq<u8> {
    Seq::new(
        2 * b.len(),
        |i: int|
            if i % 2 == 0 {
                hex_digit(b[i / 2] >> 4)
            } else {
                hex_digit(b[i / 2] & 0xf)
            },
    )
}

/// The nibble value of one hex digit byte, case-insensitive; `None` for a
/// byte outside the hexadecimal alphabet.
pub open spec fn unhex_digit(c: u8) -> Option<u8> {
    if 0x30 <= c <= 0x39 {
        Some((c - 0x30) as u8)
    } else if 0x61 <= c <= 0x66 {
        Some((c - 0x57) as u8)
    } else if 0x41 <= c <= 0x46 {
        Some((c - 0x37) as u8)
    } else {
        None
    }
}

pub open spec fn is_hex_digit(c: u8) -> bool {
    unhex_digit(c) is Some
}

/// The nibble value of a hex digit byte, zero for a non-digit.
pub open spec fn unhex_val(c: u8) -> u8 {
    match unhex_digit(c) {
        Some(v) => v,
        None => 0,
    }
}

/// Every byte of `s` maps through the inverse alphabet.
pub open spec fn all_hex(s: Seq<u8>) -> bool {
    forall|i: int| 0 <= i < s.len() ==> is_hex_digit(#[trigger] s[i])
}

/// The bytes decoded from an (even-length, all-digit) hex sequence: each
/// adjacent digit pair yields one byte, high nibble first.
pub open spec fn hex_decoding(s: Seq<u8>) -> Seq<u8> {
    Seq::new(s.len() / 2, |k: int| (unhex_val(s[2 * k]) << 4) | unhex_val(s[2 * k + 1]))
}

/// The symbol for one nibble.
pub fn hex_nibble(n: u8) -> (r: u8)
    requires
        n < 16,
    ensures
        r == hex_digit(n),
{
    if n < 10 {
        0x30 + n
    } else {
        0x57 + n
    }
}

/// The nibble of one symbol, or `None` outside the alphabet.
pub fn unhex_nibble(c: u8) -> (r: Option<u8>)
    ensures
        r == unhex_digit(c),
{
    if 0x30 <= c && c <= 0x39 {
        Some(c - 0x30)
    } else if 0x61 <= c && c <= 0x66 {
        Some(c - 0x57)
    } else if 0x41 <= c && c <= 0x46 {
        Some(c - 0x37)
    } else {
        None
    }
}

/// Hex-encode a byte slice.
fn hex_encode_slice(bytes: &[u8]) -> (out: Vec<u8>)
    ensures
        out@ == hex_encoding(bytes@),
{
    let n = bytes.len();
    let mut out: Vec<u8> = Vec::new();
    let mut k: usize = 0;
    while k < n
        invariant
            n == bytes@.len(),
            0 <= k <= n,
            out@.len() == 2 * k,
            forall|i: int| 0 <= i < 2 * k ==> out@[i] == hex_encoding(bytes@)[i],
        decreases n - k,
    {
        let b = *slice_index_get(bytes, k);
        proof {
            lemma_fundamental_div_mod_converse(2 * k, 2, k as int, 0);
            lemma_fundamental_div_mod_converse(2 * k + 1, 2, k as int, 1);
            lemma_nibble_bounds(b);
        }
        out.push(hex_nibble(b >> 4));
        out.push(hex_nibble(b & 0xf));
        k += 1;
    }
    proof {
        assert(out@ =~= hex_encoding(bytes@));
    }
    out
}

/// Hex encode: two output bytes from the lowercase alphabet for each input
/// byte, via scoped read access; the output is twice the input's length.
pub fn hexlify(data: &PyBytesLike, heap: &Heap) -> (r: Vec<u8>)
    requires
        data.wf(*heap),
    ensures
        r@ == hex_encoding(data.bytes(*heap)),
{
    data.with_ref(heap, hex_encode_slice)
}

/// Hex decode a byte slice: an odd-length input is rejected, then any byte
/// outside the hexadecimal alphabet is rejected, else each digit pair yields
/// one output byte.
pub fn unhexlify_internal(hex_bytes: &[u8]) -> (r: Result<Vec<u8>, PyErr>)
    ensures
        hex_bytes@.len() % 2 != 0 ==> r == Err::<Vec<u8>, PyErr>(PyErr::OddLength),
        hex_bytes@.len() % 2 == 0 && !all_hex(hex_bytes@) ==> r == Err::<Vec<u8>, PyErr>(
            PyErr::NonHexDigit,
        ),
        hex_bytes@.len() % 2 == 0 && all_hex(hex_bytes@) ==> (r matches Ok(v) && v@
            == hex_decoding(hex_bytes@)),
{
    let n = hex_bytes.len();
    if n % 2 != 0 {
        return Err(PyErr::OddLength);
    }
    let half = n / 2;
    let mut out: Vec<u8> = Vec::new();
    let mut k: usize = 0;
    while k < half
        invariant
            n == hex_bytes@.len(),
            n % 2 == 0,
            half == n / 2,
            0 <= k <= half,
            out@.len() == k,
            forall|i: int| 0 <= i < 2 * k ==> is_hex_digit(#[trigger] hex_bytes@[i]),
            forall|i: int| 0 <= i < k ==> out@[i] == hex_decoding(hex_bytes@)[i],
        decreases half - k,
    {
        let c1 = *slice_index_get(hex_bytes, 2 * k);
        let c2 = *slice_index_get(hex_bytes, 2 * k + 1);
        let n1 = unhex_nibble(c1);
        let n2 = unhex_nibble(c2);
        match (n1, n2) {
            (Some(a), Some(b)) => {
                proof {
                    assert(a < 16 && b < 16);
                }
                out.push((a << 4) | b);
            },
            _ => {
                return Err(PyErr::NonHexDigit);
            },
        }
        k += 1;
    }
    proof {
        assert(forall|i: int| 0 <= i < n ==> is_hex_digit(#[trigger] hex_bytes@[i]));
        assert(out@ =~= hex_decoding(hex_bytes@));
    }
    Ok(out)
}

/// Hex decode from the text-coercible read view.
pub fn a2b_hex(data: &PyAsciiBytesLike, heap: &Heap) -> (r: Result<Vec<u8>, PyErr>)
    requires
        data.wf(*heap),
    ensures
        data.bytes(*heap).len() % 2 != 0 ==> r == Err::<Vec<u8>, PyErr>(PyErr::OddLength),
        data.bytes(*heap).len() % 2 == 0 && !all_hex(data.bytes(*heap)) ==> r == Err::<
            Vec<u8>,
            PyErr,
        >(PyErr::NonHexDigit),
        data.bytes(*heap).len() % 2 == 0 && all_hex(data.bytes(*heap)) ==> (r matches Ok(v) && v@
            == hex_decoding(data.bytes(*heap))),
{
    data.with_ref(heap, unhexlify_internal)
}

/// Hex decode from the plain read view.
pub fn unhexlify(data: &PyBytesLike, heap: &Heap) -> (r: Result<Vec<u8>, PyErr>)
    requires
        data.wf(*heap),
    ensures
        data.bytes(*heap).len() % 2 != 0 ==> r == Err::<Vec<u8>, PyErr>(PyErr::OddLength),
        data.bytes(*heap).len() % 2 == 0 && !all_hex(data.bytes(*heap)) ==> r == Err::<
            Vec<u8>,
            PyErr,
        >(PyErr::NonHexDigit),
        data.bytes(*heap).len() % 2 == 0 && all_hex(data.bytes(*heap)) ==> (r matches Ok(v) && v@
            == hex_decoding(data.bytes(*heap))),
{
    data.with_ref(heap, unhexlify_internal)
}

/// Law: hex decoding inverts hex encoding.  For every byte sequence, the
/// encoding has even length, consists of hex digits only, and decodes to the
/// original sequence.
pub proof fn lemma_hex_round_trip(b: Seq<u8>)
    ensures
        hex_encoding(b).len() == 2 * b.len(),
        hex_encoding(b).len() % 2 == 0,
        all_hex(hex_encoding(b)),
        hex_decoding(hex_encoding(b)) == b,
{
    let e = hex_encoding(b);
    lemma_fundamental_div_mod_converse(2 * b.len() as int, 2, b.len() as int, 0);
    assert forall|i: int| 0 <= i < e.len() implies is_hex_digit(#[trigger] e[i]) by {
        let k = i / 2;
        vstd::arithmetic::div_mod::lemma_fundamental_div_mod(i, 2);
        lemma_nibble_bounds(b[k]);
        if i % 2 == 0 {
            lemma_nibble_round_trip(b[k] >> 4);
        } else {
            lemma_nibble_round_trip(b[k] & 0xf);
        }
    }
    assert forall|k: int| 0 <= k < b.len() implies hex_decoding(e)[k] == b[k] by {
        lemma_fundamental_div_mod_converse(2 * k, 2, k, 0);
        lemma_fundamental_div_mod_converse(2 * k + 1, 2, k, 1);
        let hi = b[k] >> 4;
        let lo = b[k] & 0xf;
        lemma_nibble_bounds(b[k]);
        lemma_nibble_round_trip(hi);
        lemma_nibble_round_trip(lo);
        assert(e[2 * k] == hex_digit(hi) && e[2 * k + 1] == hex_digit(lo));
        assert(hex_decoding(e)[k] == (hi << 4) | lo);
        let v = b[k];
        assert(((v >> 4) << 4) | (v & 0xf) == v) by (bit_vector);
    }
    assert(hex_decoding(e) =~= b);
}

/// The IEEE CRC-32 running value over the bytes `b`, continued from `seed`.
pub uninterp spec fn crc32_of(seed: u32, b: Seq<u8>) -> u32;

/// The seed actually used: the caller's running value, or zero.
pub open spec fn crc_seed(value: Option<u32>) -> u32 {
    match value {
        Some(v) => v,
        None => 0,
    }
}

/// Relies on the `crc` crate's IEEE CRC-32 digest
/// (`crc32::Digest::new_with_initial`, `Hasher32::write`, `sum32`): the sum
/// is a function of the initial value and the bytes alone; a digest over no
/// bytes returns its initial value unchanged; and a digest initialised with
/// the sum over some earlier bytes equals the sum over the concatenation.
#[verifier::external_body]
fn crc32_digest(seed: u32, bytes: &[u8]) -> (r: u32)
    ensures
        r == crc32_of(seed, bytes@),
        bytes@.len() == 0 ==> r == seed,
        forall|p: Seq<u8>| #[trigger] crc32_of(0, p) == seed ==> r == crc32_of(0, p + bytes@),
{
    let mut digest = crc::crc32::Digest::new_with_initial(crc::crc32::IEEE, seed);
    digest.write(bytes);
    digest.sum32()
}

/// CRC-32 of the view's bytes, seeded from an optional running value
/// (default zero); each call's output can seed the next, so that successive
/// calls checksum the concatenation of their inputs.
pub fn crc32(data: &PyBytesLike, heap: &Heap, value: Option<u32>) -> (r: u32)
    requires
        data.wf(*heap),
    ensures
        r == crc32_of(crc_seed(value), data.bytes(*heap)),
        data.bytes(*heap).len() == 0 ==> r == crc_seed(value),
        forall|p: Seq<u8>| #[trigger] crc32_of(0, p) == crc_seed(value) ==> r == crc32_of(
            0,
            p + data.bytes(*heap),
        ),
{
    let seed = match value {
        Some(v) => v,
        None => 0,
    };
    let cow = data.to_cow(heap);
    match cow {
        BytesCow::Borrowed(s) => crc32_digest(seed, s),
        BytesCow::Owned(v) => crc32_digest(seed, v.as_slice()),
    }
}

/// The base64 (standard alphabet, padded) encoding of a byte sequence.
pub uninterp spec fn b64_encoding(b: Seq<u8>) -> Seq<u8>;

/// The base64 decoding of a byte sequence: the decoded bytes, or `None` when
/// the input is not well-formed base64.
pub uninterp spec fn b64_decoding(s: Seq<u8>) -> Option<Seq<u8>>;

/// `b` with one trailing line-terminator byte stripped, if present.
pub open spec fn trim_newline_spec(b: Seq<u8>) -> Seq<u8> {
    if b.len() > 0 && b[b.len() - 1] == 10 {
        b.drop_last()
    } else {
        b
    }
}

/// Trim one line-terminator byte from the end of the bytestring, if it exists.
pub fn trim_newline(b: &[u8]) -> (r: &[u8])
    ensures
        r@ == trim_newline_spec(b@),
{
    let n = b.len();
    if n > 0 && *slice_index_get(b, n - 1) == 10u8 {
        let r = slice_subrange(b, 0, n - 1);
        proof {
            assert(r@ =~= trim_newline_spec(b@));
        }
        r
    } else {
        b
    }
}

/// Relies on `base64::encode` (RFC 4648 standard alphabet, with padding):
/// the output is a function of the input bytes alone, contains only alphabet
/// and padding bytes -- never a line terminator -- and `base64::decode`
/// recovers the input from it.
#[verifier::external_body]
fn b64_encode(bytes: &[u8]) -> (r: Vec<u8>)
    ensures
        r@ == b64_encoding(bytes@),
        b64_decoding(r@) == Some(bytes@),
        forall|i: int| 0 <= i < r@.len() ==> r@[i] != 10,
{
    base64::encode(bytes).into_bytes()
}

/// Relies on `base64::decode` (standard alphabet, padding required): success
/// and the decoded bytes are a function of the input alone; on failure the
/// error's display text is handed back.
#[verifier::external_body]
fn b64_decode(s: &[u8]) -> (r: Result<Vec<u8>, String>)
    ensures
        r matches Ok(v) ==> b64_decoding(s@) == Some(v@),
        r is Ok <==> b64_decoding(s@) is Some,
{
    base64::decode(s).map_err(|e| format!("error decoding base64: {}", e))
}

/// Strip one trailing line terminator, then decode base64.
fn b64_decode_trimmed(bs: &[u8]) -> (r: Result<Vec<u8>, PyErr>)
    ensures
        r matches Ok(v) ==> b64_decoding(trim_newline_spec(bs@)) == Some(v@),
        r matches Err(e) ==> e matches PyErr::Base64(_),
        r is Ok <==> b64_decoding(trim_newline_spec(bs@)) is Some,
{
    let t = trim_newline(bs);
    match b64_decode(t) {
        Ok(v) => Ok(v),
        Err(msg) => Err(PyErr::Base64(msg)),
    }
}

/// Base64 decode from the text-coercible read view: a single trailing
/// line-terminator byte, if present, is stripped before decoding, and a
/// malformed payload is reported with the decoder's detail text.
pub fn a2b_base64(s: &PyAsciiBytesLike, heap: &Heap) -> (r: Result<Vec<u8>, PyErr>)
    requires
        s.wf(*heap),
    ensures
        r matches Ok(v) ==> b64_decoding(trim_newline_spec(s.bytes(*heap))) == Some(v@),
        r matches Err(e) ==> e matches PyErr::Base64(_),
        r is Ok <==> b64_decoding(trim_newline_spec(s.bytes(*heap))) is Some,
{
    s.with_ref(heap, b64_decode_trimmed)
}

/// Base64 encode via scoped read access; when `newline` holds (the caller's
/// default) one line-terminator byte is appended.  Decoding the output,
/// after stripping the optional terminator, recovers the input bytes.
pub fn b2a_base64(data: &PyBytesLike, heap: &Heap, newline: bool) -> (r: Vec<u8>)
    requires
        data.wf(*heap),
    ensures
        newline ==> r@ == b64_encoding(data.bytes(*heap)).push(10),
        !newline ==> r@ == b64_encoding(data.bytes(*heap)),
        b64_decoding(trim_newline_spec(r@)) == Some(data.bytes(*heap)),
        !newline ==> (r@.len() == 0 || r@[r@.len() - 1] != 10),
        newline ==> r@.len() > 0 && r@[r@.len() - 1] == 10,
{
    let mut encoded = data.with_ref(heap, b64_encode);
    proof {
        let bs = choose|bs: &[u8]|
            bs@ == data.bytes(*heap) && call_ensures(b64_encode, (bs,), encoded);
        assert(encoded@ == b64_encoding(data.bytes(*heap)));
    }
    if newline {
        let ghost before = encoded@;
        encoded.push(10u8);
        proof {
            assert(trim_newline_spec(encoded@) =~= before);
        }
    }
    encoded
}

/// Both nibbles of a byte are below sixteen.
proof fn lemma_nibble_bounds(v: u8)
    ensures
        v >> 4 < 16,
        v & 0xf < 16,
{
    assert(v >> 4 < 16 && v & 0xf < 16) by (bit_vector);
}

/// Each nibble's digit maps back to the nibble through the inverse alphabet.
proof fn lemma_nibble_round_trip(n: u8)
    requires
        n < 16,
    ensures
        is_hex_digit(hex_digit(n)),
        unhex_val(hex_digit(n)) == n,
        unhex_digit(hex_digit(n)) == Some(n),
{
}

} // verus!
