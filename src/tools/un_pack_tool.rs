use vstd::prelude::*;
use vstd::slice::slice_subrange;
use vstd::utf8::{encode_utf8, decode_utf8, valid_utf8, encode_utf8_valid_utf8, encode_utf8_decode_utf8};
use crate::tools::pack_tool::{spec_vli, spec_short, spec_long, spec_str, str_fits, MAX_REMAINING_LENGTH};

verus! {

/// A parse result with its remaining input as a sequence.
pub open spec fn parsed<T>(r: Option<(T, &[u8])>) -> Option<(T, Seq<u8>)> {
    match r {
        Some((v, rest)) => Some((v, rest@)),
        None => None,
    }
}

/// A string parse result, the string as its characters.
pub open spec fn parsed_str(r: Option<(String, &[u8])>) -> Option<(Seq<char>, Seq<u8>)> {
    match r {
        Some((v, rest)) => Some((v@, rest@)),
        None => None,
    }
}

pub open spec fn spec_parse_byte(s: Seq<u8>) -> Option<(u8, Seq<u8>)> {
    if s.len() >= 1 {
        Some((s[0], s.subrange(1, s.len() as int)))
    } else {
        None
    }
}

pub open spec fn spec_parse_short(s: Seq<u8>) -> Option<(u16, Seq<u8>)> {
    if s.len() >= 2 {
        Some(((s[0] * 256 + s[1]) as u16, s.subrange(2, s.len() as int)))
    } else {
        None
    }
}

pub open spec fn spec_parse_long(s: Seq<u8>) -> Option<(u32, Seq<u8>)> {
    if s.len() >= 4 {
        Some(
            (
                (s[0] * 16777216 + s[1] * 65536 + s[2] * 256 + s[3]) as u32,
                s.subrange(4, s.len() as int),
            ),
        )
    } else {
        None
    }
}

/// A length-prefixed string; fails on a short input or on bytes that are not UTF-8.
#[verifier::opaque]
pub open spec fn spec_parse_str(s: Seq<u8>) -> Option<(Seq<char>, Seq<u8>)> {
    match spec_parse_short(s) {
        Some((n, r)) => if r.len() >= n && valid_utf8(r.subrange(0, n as int)) {
            Some((decode_utf8(r.subrange(0, n as int)), r.subrange(n as int, r.len() as int)))
        } else {
            None
        },
        None => None,
    }
}

/// A variable-length integer of at most `k` bytes.
pub open spec fn spec_vli_digits(s: Seq<u8>, k: nat) -> Option<(nat, Seq<u8>)>
    decreases k,
{
    if k == 0 || s.len() == 0 {
        None
    } else if s[0] < 128 {
        Some((s[0] as nat, s.subrange(1, s.len() as int)))
    } else {
        match spec_vli_digits(s.subrange(1, s.len() as int), (k - 1) as nat) {
            Some((v, rest)) => Some((((s[0] - 128) + 128 * v) as nat, rest)),
            None => None,
        }
    }
}

/// A variable-length integer: at most four bytes, so a fifth continuation byte fails.
pub open spec fn spec_parse_vli(s: Seq<u8>) -> Option<(nat, Seq<u8>)> {
    spec_vli_digits(s, 4)
}

pub open spec fn pow128(k: nat) -> nat
    decreases k,
{
    if k == 0 {
        1
    } else {
        128 * pow128((k - 1) as nat)
    }
}

proof fn lemma_pow128_pos(k: nat)
    ensures
        pow128(k) >= 1,
    decreases k,
{
    if k > 0 {
        lemma_pow128_pos((k - 1) as nat);
    }
}

pub proof fn lemma_vli_digits_bound(s: Seq<u8>, k: nat)
    ensures
        spec_vli_digits(s, k) matches Some((v, rest)) ==> v < pow128(k) && rest.len() < s.len() && rest
            == s.subrange(s.len() - rest.len(), s.len() as int),
    decreases k,
{
    if k > 0 {
        lemma_pow128_pos((k - 1) as nat);
    }
    if k > 0 && s.len() > 0 && s[0] >= 128 {
        let t = s.subrange(1, s.len() as int);
        lemma_vli_digits_bound(t, (k - 1) as nat);
        if let Some((w, rest)) = spec_vli_digits(t, (k - 1) as nat) {
            assert(t.subrange(t.len() - rest.len(), t.len() as int) =~= s.subrange(s.len() - rest.len(), s.len() as int));
            let p = pow128((k - 1) as nat);
            let d = s[0] - 128;
            assert(d + 128 * w < 128 * p) by (nonlinear_arith)
                requires
                    0 <= d < 128,
                    w < p,
            ;
        }
    }
}

/// Relies on String::from_utf8: it succeeds exactly on valid UTF-8, and the string then holds
/// the characters those bytes encode.
#[verifier::external_body]
fn utf8_string(b: &[u8]) -> (r: Option<String>)
    ensures
        r is Some <==> valid_utf8(b@),
        r matches Some(s) ==> s@ == decode_utf8(b@),
{
    String::from_utf8(b.to_vec()).ok()
}

pub fn parse_byte(data: &[u8]) -> (r: Option<(u8, &[u8])>)
    ensures
        parsed(r) == spec_parse_byte(data@),
{
    if data.len() < 1 {
        return None;
    }
    Some((data[0], slice_subrange(data, 1, data.len())))
}

pub fn parse_short_int(data: &[u8]) -> (r: Option<(u16, &[u8])>)
    ensures
        parsed(r) == spec_parse_short(data@),
{
    if data.len() < 2 {
        return None;
    }
    let v: u16 = data[0] as u16 * 256 + data[1] as u16;
    Some((v, slice_subrange(data, 2, data.len())))
}

pub fn parse_long_int(data: &[u8]) -> (r: Option<(u32, &[u8])>)
    ensures
        parsed(r) == spec_parse_long(data@),
{
    if data.len() < 4 {
        return None;
    }
    let v: u32 = data[0] as u32 * 16777216 + data[1] as u32 * 65536 + data[2] as u32 * 256
        + data[3] as u32;
    Some((v, slice_subrange(data, 4, data.len())))
}

pub fn parse_string(data: &[u8]) -> (r: Option<(String, &[u8])>)
    ensures
        parsed_str(r) == spec_parse_str(data@),
{
    reveal(spec_parse_str);
    let (n, rest) = match parse_short_int(data) {
        Some(p) => p,
        None => return None,
    };
    let n = n as usize;
    if rest.len() < n {
        return None;
    }
    let bytes = slice_subrange(rest, 0, n);
    match utf8_string(bytes) {
        Some(s) => Some((s, slice_subrange(rest, n, rest.len()))),
        None => None,
    }
}

fn vli_digits(s: &[u8], k: usize) -> (r: Option<(u32, &[u8])>)
    requires
        k <= 4,
    ensures
        r matches Some((v, rest)) ==> spec_vli_digits(s@, k as nat) == Some((v as nat, rest@)),
        r is None ==> spec_vli_digits(s@, k as nat) is None,
    decreases k,
{
    if k == 0 || s.len() == 0 {
        return None;
    }
    let d = s[0];
    if d < 128 {
        return Some((d as u32, slice_subrange(s, 1, s.len())));
    }
    let tail = slice_subrange(s, 1, s.len());
    match vli_digits(tail, k - 1) {
        Some((v, rest)) => {
            proof {
                lemma_vli_digits_bound(tail@, (k - 1) as nat);
                reveal_with_fuel(pow128, 4);
                assert(v < 2097152);
            }
            Some(((d - 128) as u32 + 128 * v, rest))
        },
        None => None,
    }
}

/// Reads a variable-length integer from the start of `data`: its value and the bytes after it.
pub fn get_remaining_length(data: &[u8]) -> (r: Option<(usize, &[u8])>)
    ensures
        r matches Some((v, rest)) ==> spec_parse_vli(data@) == Some((v as nat, rest@)) && v
            <= MAX_REMAINING_LENGTH,
        r is None ==> spec_parse_vli(data@) is None,
{
    match vli_digits(data, 4) {
        Some((v, rest)) => {
            proof {
                lemma_vli_digits_bound(data@, 4);
                reveal_with_fuel(pow128, 5);
            }
            Some((v as usize, rest))
        },
        None => None,
    }
}

pub proof fn lemma_short_round_trip(n: u16, rest: Seq<u8>)
    ensures
        spec_parse_short(spec_short(n as nat) + rest) == Some((n, rest)),
{
    let s = spec_short(n as nat) + rest;
    assert(s.subrange(2, s.len() as int) =~= rest);
}

pub proof fn lemma_long_round_trip(n: u32, rest: Seq<u8>)
    ensures
        spec_parse_long(spec_long(n as nat) + rest) == Some((n, rest)),
{
    let s = spec_long(n as nat) + rest;
    assert(s.subrange(4, s.len() as int) =~= rest);
}

pub proof fn lemma_byte_round_trip(b: u8, rest: Seq<u8>)
    ensures
        spec_parse_byte(seq![b] + rest) == Some((b, rest)),
{
    let s = seq![b] + rest;
    assert(s.subrange(1, s.len() as int) =~= rest);
}

pub proof fn lemma_str_round_trip(c: Seq<char>, rest: Seq<u8>)
    requires
        str_fits(c),
    ensures
        spec_parse_str(spec_str(c) + rest) == Some((c, rest)),
{
    reveal(spec_str);
    reveal(spec_parse_str);
    let b = encode_utf8(c);
    let n = b.len();
    let s = spec_str(c) + rest;
    assert(s =~= spec_short(n) + (b + rest));
    lemma_short_round_trip(n as u16, b + rest);
    let r = b + rest;
    assert(r.subrange(0, n as int) =~= b);
    assert(r.subrange(n as int, r.len() as int) =~= rest);
    encode_utf8_valid_utf8(c);
    encode_utf8_decode_utf8(c);
}

proof fn lemma_vli_digits_round_trip(n: nat, rest: Seq<u8>, k: nat)
    requires
        n < pow128(k),
        k >= 1,
    ensures
        spec_vli_digits(spec_vli(n) + rest, k) == Some((n, rest)),
    decreases k,
{
    let s = spec_vli(n) + rest;
    if n < 128 {
        assert(s.subrange(1, s.len() as int) =~= rest);
    } else {
        assert(s.subrange(1, s.len() as int) =~= spec_vli(n / 128) + rest);
        let p = pow128((k - 1) as nat);
        assert(n / 128 < p) by (nonlinear_arith)
            requires
                n < 128 * p,
        ;
        assert(k >= 2) by {
            if k == 1 {
                assert(pow128(0) == 1);
            }
        }
        assert((n % 128 + 128) as u8 - 128 + 128 * (n / 128) == n) by (nonlinear_arith);
        lemma_vli_digits_round_trip(n / 128, rest, (k - 1) as nat);
    }
}

/// Decoding an encoded variable-length integer gives the value back and leaves what follows.
pub proof fn lemma_vli_round_trip(n: nat, rest: Seq<u8>)
    requires
        n <= MAX_REMAINING_LENGTH,
    ensures
        spec_parse_vli(spec_vli(n) + rest) == Some((n, rest)),
{
    reveal_with_fuel(pow128, 5);
    lemma_vli_digits_round_trip(n, rest, 4);
}

} // verus!
