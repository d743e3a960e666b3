//! The deterministic binary layout of persisted records: integers are fixed
//! width little-endian, strings are a 4-byte little-endian byte length
//! followed by the UTF-8 bytes, and a record is its fields in declaration
//! order with nothing in between.

use vstd::prelude::*;
use vstd::string::StrSliceExecFns;
use vstd::utf8::{decode_utf8, encode_utf8, valid_utf8};

verus! {

/// The persisted bytes do not match the schema being read: they are truncated,
/// carry trailing bytes, or hold a string field that is not valid UTF-8.
#[derive(Clone, Copy, Debug, PartialEq, Eq, Structural)]
pub struct DecodeError;

/// 256 to the power `k`: the number of values a `k`-byte field can hold.
pub open spec fn pow256(k: nat) -> nat
    decreases k,
{
    if k == 0 {
        1
    } else {
        256 * pow256((k - 1) as nat)
    }
}

/// The `width` little-endian bytes of `n`, low byte first.
pub open spec fn le_bytes(n: nat, width: nat) -> Seq<u8>
    decreases width,
{
    if width == 0 {
        Seq::empty()
    } else {
        seq![(n % 256) as u8] + le_bytes(n / 256, (width - 1) as nat)
    }
}

/// The value a little-endian byte sequence stands for.
pub open spec fn le_value(b: Seq<u8>) -> nat
    decreases b.len(),
{
    if b.len() == 0 {
        0
    } else {
        (b[0] as nat) + 256 * le_value(b.drop_first())
    }
}

pub proof fn lemma_pow256_values()
    ensures
        pow256(4) == 0x1_0000_0000,
        pow256(8) == 0x1_0000_0000_0000_0000,
{
    assert(pow256(0) == 1);
    assert(pow256(1) == 256);
    assert(pow256(2) == 0x1_0000);
    assert(pow256(3) == 0x100_0000);
    assert(pow256(4) == 0x1_0000_0000);
    assert(pow256(5) == 0x100_0000_0000);
    assert(pow256(6) == 0x1_0000_0000_0000);
    assert(pow256(7) == 0x100_0000_0000_0000);
    assert(pow256(8) == 0x1_0000_0000_0000_0000);
}

pub proof fn lemma_le_bytes_len(n: nat, width: nat)
    ensures
        le_bytes(n, width).len() == width,
    decreases width,
{
    if width > 0 {
        lemma_le_bytes_len(n / 256, (width - 1) as nat);
    }
}

pub proof fn lemma_le_value_bound(b: Seq<u8>)
    ensures
        le_value(b) < pow256(b.len()),
    decreases b.len(),
{
    if b.len() > 0 {
        lemma_le_value_bound(b.drop_first());
    }
}

/// Reading back the little-endian bytes of a value that fits the width
/// yields that value.
pub proof fn lemma_le_round_trip(n: nat, width: nat)
    requires
        n < pow256(width),
    ensures
        le_value(le_bytes(n, width)) == n,
    decreases width,
{
    if width > 0 {
        let rest = le_bytes(n / 256, (width - 1) as nat);
        lemma_le_bytes_len(n / 256, (width - 1) as nat);
        assert(le_bytes(n, width).drop_first() =~= rest);
        assert(n / 256 < pow256((width - 1) as nat)) by {
            if n / 256 >= pow256((width - 1) as nat) {
                assert(n >= 256 * (n / 256)) by (nonlinear_arith);
                assert(256 * (n / 256) >= 256 * pow256((width - 1) as nat)) by (nonlinear_arith)
                    requires
                        n / 256 >= pow256((width - 1) as nat),
                ;
            }
        }
        lemma_le_round_trip(n / 256, (width - 1) as nat);
        assert(n == n % 256 + 256 * (n / 256)) by (nonlinear_arith);
    }
}

/// Append the `width`-byte little-endian encoding of `n` to `out`.
pub fn push_le_bytes(out: &mut Vec<u8>, n: u64, width: usize)
    requires
        width <= 8,
        (n as nat) < pow256(width as nat),
    ensures
        final(out)@ == old(out)@ + le_bytes(n as nat, width as nat),
{
    let ghost start = out@;
    let mut cur: u64 = n;
    let mut j: usize = 0;
    while j < width
        invariant
            j <= width,
            out@ + le_bytes(cur as nat, (width - j) as nat) == start + le_bytes(
                n as nat,
                width as nat,
            ),
        decreases width - j,
    {
        proof {
            assert(le_bytes(cur as nat, (width - j) as nat) == seq![(cur as nat % 256) as u8]
                + le_bytes(cur as nat / 256, (width - j - 1) as nat));
            assert(out@.push((cur % 256) as u8) + le_bytes(cur as nat / 256, (width - j - 1) as nat)
                =~= out@ + le_bytes(cur as nat, (width - j) as nat));
        }
        out.push((cur % 256) as u8);
        cur = cur / 256;
        j = j + 1;
    }
    proof {
        assert(out@ + le_bytes(cur as nat, 0) =~= out@);
    }
}

/// Read the `width`-byte little-endian value stored in `b` at position `i`.
pub fn read_le_bytes(b: &Vec<u8>, i: usize, width: usize) -> (r: u64)
    requires
        width <= 8,
        i + width <= b@.len(),
    ensures
        r as nat == le_value(b@.subrange(i as int, i + width)),
{
    let blen: usize = b.len();
    let mut r: u64 = 0;
    let mut j: usize = width;
    while j > 0
        invariant
            j <= width <= 8,
            i + width <= blen == b@.len(),
            r as nat == le_value(b@.subrange(i + j, i + width)),
            (r as nat) < pow256((width - j) as nat),
        decreases j,
    {
        j = j - 1;
        proof {
            let tail = b@.subrange(i + j, i + width);
            assert(tail.drop_first() =~= b@.subrange(i + j + 1, i + width));
            assert(le_value(tail) == (b@[i + j] as nat) + 256 * le_value(tail.drop_first()));
            lemma_pow256_values();
            assert(pow256((width - j) as nat) == 256 * pow256((width - j - 1) as nat));
            assert(pow256((width - j) as nat) <= pow256(8)) by {
                lemma_pow256_increases((width - j) as nat, 8);
            }
        }
        r = r * 256 + (b[i + j] as u64);
    }
    r
}

pub proof fn lemma_pow256_increases(k1: nat, k2: nat)
    requires
        k1 <= k2,
    ensures
        pow256(k1) <= pow256(k2),
    decreases k2,
{
    if k1 < k2 {
        lemma_pow256_increases(k1, (k2 - 1) as nat);
    }
}

/// Append every byte of `b` to `out`.
pub fn push_bytes(out: &mut Vec<u8>, b: &Vec<u8>)
    ensures
        final(out)@ == old(out)@ + b@,
{
    let mut k: usize = 0;
    while k < b.len()
        invariant
            k <= b@.len(),
            out@ == old(out)@ + b@.subrange(0, k as int),
        decreases b@.len() - k,
    {
        proof {
            assert((old(out)@ + b@.subrange(0, k as int)).push(b@[k as int]) =~= old(out)@
                + b@.subrange(0, k + 1));
        }
        out.push(b[k]);
        k = k + 1;
    }
    proof {
        assert(b@.subrange(0, b@.len() as int) =~= b@);
    }
}

/// A length-prefixed byte string: 4-byte little-endian length, then the bytes.
pub open spec fn spec_encode_bytes(s: Seq<u8>) -> Seq<u8> {
    le_bytes(s.len(), 4) + s
}

/// Parse a length-prefixed byte string in `b` at `i`; `None` when it would
/// run past the end of `b`.
pub open spec fn spec_parse_bytes(b: Seq<u8>, i: int) -> Option<(Seq<u8>, int)>
    recommends
        0 <= i,
{
    if i + 4 > b.len() {
        None
    } else {
        let n = le_value(b.subrange(i, i + 4)) as int;
        if i + 4 + n > b.len() {
            None
        } else {
            Some((b.subrange(i + 4, i + 4 + n), i + 4 + n))
        }
    }
}

/// A string: its UTF-8 bytes, length-prefixed.
pub open spec fn spec_encode_string(s: Seq<char>) -> Seq<u8> {
    spec_encode_bytes(encode_utf8(s))
}

/// Parse a string in `b` at `i`: a length-prefixed byte string whose bytes
/// must be valid UTF-8.
pub open spec fn spec_parse_string(b: Seq<u8>, i: int) -> Option<(Seq<char>, int)>
    recommends
        0 <= i,
{
    match spec_parse_bytes(b, i) {
        None => None,
        Some((s, j)) => if valid_utf8(s) {
            Some((decode_utf8(s), j))
        } else {
            None
        },
    }
}

/// Parsing at the start of an encoded byte string yields exactly that string,
/// whatever stands before or after it.
pub proof fn lemma_parse_encoded_bytes(prefix: Seq<u8>, s: Seq<u8>, suffix: Seq<u8>)
    requires
        s.len() < pow256(4),
    ensures
        spec_parse_bytes(prefix + spec_encode_bytes(s) + suffix, prefix.len() as int) == Some(
            (s, prefix.len() + 4 + s.len() as int),
        ),
{
    let b = prefix + spec_encode_bytes(s) + suffix;
    let i = prefix.len() as int;
    lemma_le_bytes_len(s.len(), 4);
    assert(b.subrange(i, i + 4) =~= le_bytes(s.len(), 4));
    lemma_le_round_trip(s.len(), 4);
    assert(b.subrange(i + 4, i + 4 + s.len()) =~= s);
}

/// The string form of the lemma above: parsing an encoded string in place
/// yields the characters that were encoded.
pub proof fn lemma_parse_encoded_string(prefix: Seq<u8>, s: Seq<char>, suffix: Seq<u8>)
    requires
        encode_utf8(s).len() < pow256(4),
    ensures
        spec_parse_string(prefix + spec_encode_string(s) + suffix, prefix.len() as int) == Some(
            (s, prefix.len() + 4 + encode_utf8(s).len() as int),
        ),
{
    broadcast use vstd::utf8::encode_utf8_valid_utf8, vstd::utf8::encode_utf8_decode_utf8;

    lemma_parse_encoded_bytes(prefix, encode_utf8(s), suffix);
}

/// Relies on `String::from_utf8`: it returns `Ok` exactly when the bytes are
/// valid UTF-8, and the string it returns is their UTF-8 decoding (vstd's
/// `valid_utf8` and `decode_utf8` model standard UTF-8).
#[verifier::external_body]
fn utf8_to_string(bytes: Vec<u8>) -> (r: Option<String>)
    ensures
        r is Some <==> valid_utf8(bytes@),
        r matches Some(s) ==> s@ == decode_utf8(bytes@),
{
    String::from_utf8(bytes).ok()
}

/// Read a length-prefixed byte string out of `b` at position `i`, returning
/// the bytes and the position just past them.
pub fn read_bytes(b: &Vec<u8>, i: usize) -> (r: Result<(Vec<u8>, usize), DecodeError>)
    requires
        i <= b@.len(),
    ensures
        match spec_parse_bytes(b@, i as int) {
            Some((s, j)) => r matches Ok(p) && p.0@ == s && p.1 == j,
            None => r is Err,
        },
{
    let blen: usize = b.len();
    if blen - i < 4 {
        return Err(DecodeError);
    }
    let n64: u64 = read_le_bytes(b, i, 4);
    proof {
        lemma_le_value_bound(b@.subrange(i as int, i + 4));
        lemma_pow256_values();
    }
    if ((blen - i) as u64) - 4 < n64 {
        return Err(DecodeError);
    }
    let n: usize = n64 as usize;
    let mut v: Vec<u8> = Vec::new();
    let mut k: usize = 0;
    while k < n
        invariant
            k <= n,
            i + 4 + n <= blen == b@.len(),
            v@ == b@.subrange(i as int + 4, i + 4 + k),
        decreases n - k,
    {
        proof {
            assert(b@.subrange(i as int + 4, i + 4 + k).push(b@[i + 4 + k]) =~= b@.subrange(
                i as int + 4,
                i + 4 + (k + 1),
            ));
        }
        v.push(b[i + 4 + k]);
        k = k + 1;
    }
    Ok((v, i + 4 + n))
}

/// Read a string out of `b` at position `i`: its bytes must be valid UTF-8.
pub fn read_string(b: &Vec<u8>, i: usize) -> (r: Result<(String, usize), DecodeError>)
    requires
        i <= b@.len(),
    ensures
        match spec_parse_string(b@, i as int) {
            Some((s, j)) => r matches Ok(p) && p.0@ == s && p.1 == j,
            None => r is Err,
        },
{
    match read_bytes(b, i) {
        Err(e) => Err(e),
        Ok((bytes, j)) => match utf8_to_string(bytes) {
            None => Err(DecodeError),
            Some(s) => Ok((s, j)),
        },
    }
}

/// Append the encoding of `s` to `out`. Returns `false`, leaving `out`
/// unchanged, exactly when the UTF-8 length of `s` does not fit the 4-byte
/// length prefix.
pub fn write_string(out: &mut Vec<u8>, s: &String) -> (r: bool)
    ensures
        r <==> encode_utf8(s@).len() < pow256(4),
        r ==> final(out)@ == old(out)@ + spec_encode_string(s@),
        !r ==> final(out)@ == old(out)@,
{
    let bytes: Vec<u8> = s.as_str().as_bytes_vec();
    proof {
        lemma_pow256_values();
    }
    if bytes.len() as u64 >= 0x1_0000_0000u64 {
        return false;
    }
    push_le_bytes(out, bytes.len() as u64, 4);
    push_bytes(out, &bytes);
    proof {
        assert(old(out)@ + le_bytes(encode_utf8(s@).len(), 4) + encode_utf8(s@) =~= old(out)@
            + spec_encode_string(s@));
    }
    true
}

} // verus!
