//! Netstring framing: `<decimal length>:<payload>,`.

use crate::text::{
    find_byte, first_index, is_utf8, lemma_first_index, lemma_first_index_bounds,
};
use vstd::prelude::*;
use vstd::slice::{slice_subrange, slice_to_vec};
use vstd::utf8::valid_utf8;

verus! {

/// The decimal digits `0` to `9`.
pub open spec fn is_digit(b: u8) -> bool {
    0x30 <= b <= 0x39
}

/// The decimal digits of `n`, without leading zeros.
pub open spec fn decimal(n: nat) -> Seq<u8>
    decreases n,
{
    if n < 10 {
        seq![(0x30 + n) as u8]
    } else {
        decimal(n / 10).push((0x30 + n % 10) as u8)
    }
}

/// The number that a string of decimal digits denotes.
pub open spec fn decimal_value(digits: Seq<u8>) -> nat
    decreases digits.len(),
{
    if digits.len() == 0 {
        0
    } else {
        decimal_value(digits.drop_last()) * 10 + (digits.last() - 0x30) as nat
    }
}

/// Whether every byte of `s` is a decimal digit.
pub open spec fn all_digits(s: Seq<u8>) -> bool {
    forall|i: int| 0 <= i < s.len() ==> is_digit(#[trigger] s[i])
}

/// A length field is one or more decimal digits, and nothing else: no
/// sign, no white space.
pub open spec fn is_length_field(field: Seq<u8>) -> bool {
    field.len() > 0 && all_digits(field)
}

/// The frame around `data`.
pub open spec fn netstring(data: Seq<u8>) -> Seq<u8> {
    decimal(data.len()) + seq![0x3Au8] + data + seq![0x2Cu8]
}

/// The payload of the frame at the start of `input`, if there is one.
///
/// The length field ends at the first `:`. The `,` that closes the frame
/// has to lie inside `input`; what follows it is ignored. The payload is
/// text: bytes that are not UTF-8 are no payload.
pub open spec fn netstring_payload(input: Seq<u8>) -> Option<Seq<u8>> {
    let colon = first_index(input, 0x3A);
    let field = input.take(colon);
    let start = colon + 1;
    let end = start + decimal_value(field);
    if colon < input.len() && is_length_field(field) && end < input.len() && input[end] == 0x2C
        && valid_utf8(input.subrange(start, end)) {
        Some(input.subrange(start, end))
    } else {
        None
    }
}

/// Only digits make a length: where `input` has a payload, every byte
/// before its first `:` is a decimal digit, and there is at least one.
pub proof fn lemma_payload_has_decimal_length(input: Seq<u8>)
    requires
        netstring_payload(input) is Some,
    ensures
        0 < first_index(input, 0x3A) < input.len(),
        forall|i: int| 0 <= i < first_index(input, 0x3A) ==> is_digit(#[trigger] input[i]),
{
    let colon = first_index(input, 0x3A);
    let field = input.take(colon);
    lemma_first_index_bounds(input, 0x3A);
    assert(field.len() == colon);
    assert forall|i: int| 0 <= i < colon implies is_digit(#[trigger] input[i]) by {
        assert(field[i] == input[i]);
    }
}

/// Appending a digit to a string of digits cannot make the number smaller.
pub proof fn lemma_decimal_value_prefix(digits: Seq<u8>, k: int)
    requires
        all_digits(digits),
        0 <= k <= digits.len(),
    ensures
        decimal_value(digits.take(k)) <= decimal_value(digits),
    decreases digits.len() - k,
{
    if k < digits.len() {
        let longer = digits.take(k + 1);
        assert(longer.drop_last() == digits.take(k));
        assert(is_digit(digits[k]));
        assert(longer.last() == digits[k]);
        lemma_decimal_value_prefix(digits, k + 1);
    } else {
        assert(digits.take(k) == digits);
    }
}

/// The digits of a number are digits, and denote that number.
pub proof fn lemma_decimal_digits(n: nat)
    ensures
        decimal(n).len() > 0,
        all_digits(decimal(n)),
        decimal_value(decimal(n)) == n,
    decreases n,
{
    if n < 10 {
        let d = decimal(n);
        assert(d.drop_last() =~= Seq::<u8>::empty());
        assert(decimal_value(d.drop_last()) == 0);
    } else {
        lemma_decimal_digits(n / 10);
        let d = decimal(n);
        assert(d.drop_last() =~= decimal(n / 10));
        assert forall|i: int| 0 <= i < d.len() implies is_digit(#[trigger] d[i]) by {
            if i < d.len() - 1 {
                assert(d[i] == decimal(n / 10)[i]);
            }
        }
    }
}

/// Round trip: decoding the frame around any text gives the text back,
/// whatever bytes follow the frame.
pub proof fn lemma_netstring_round_trip(data: Seq<u8>, rest: Seq<u8>)
    requires
        valid_utf8(data),
    ensures
        netstring_payload(netstring(data) + rest) == Some(data),
        netstring_payload(netstring(data)) == Some(data),
{
    let digits = decimal(data.len());
    lemma_decimal_digits(data.len());
    let colon = digits.len() as int;
    assert forall|tail: Seq<u8>| #[trigger]
        netstring_payload(netstring(data) + tail) == Some(data) by {
        let input = netstring(data) + tail;
        assert forall|j: int| 0 <= j < colon implies input[j] != 0x3A by {
            assert(input[j] == digits[j]);
            assert(is_digit(digits[j]));
        }
        assert(input[colon] == 0x3A);
        lemma_first_index(input, 0x3A, colon);
        assert(input.take(colon) =~= digits);
        let start = colon + 1;
        let end = start + data.len();
        assert(input[end] == 0x2C);
        assert(input.subrange(start, end) =~= data);
    }
    assert(netstring(data) + Seq::<u8>::empty() =~= netstring(data));
}

/// Appends the decimal digits of `n` to `out`.
pub(crate) fn push_decimal(n: usize, out: &mut Vec<u8>)
    ensures
        final(out)@ == old(out)@ + decimal(n as nat),
    decreases n,
{
    if n >= 10 {
        push_decimal(n / 10, out);
    }
    out.push(0x30 + (n % 10) as u8);
}

/// Frames `data` as a netstring.
pub fn encode_netstring(data: &[u8]) -> (out: Vec<u8>)
    ensures
        out@ == netstring(data@),
{
    let mut out: Vec<u8> = Vec::new();
    push_decimal(data.len(), &mut out);
    out.push(0x3A);
    out.extend_from_slice(data);
    out.push(0x2C);
    out
}

/// Reads the number that the length field `input[from..to]` denotes,
/// or `None` where the field holds something other than digits or the
/// number is larger than `input.len()`.
fn parse_length(input: &[u8], from: usize, to: usize) -> (r: Option<usize>)
    requires
        from <= to <= input.len(),
    ensures
        match r {
            Some(n) => all_digits(input@.subrange(from as int, to as int)) && n == decimal_value(
                input@.subrange(from as int, to as int),
            ) && n <= input.len(),
            None => !all_digits(input@.subrange(from as int, to as int)) || decimal_value(
                input@.subrange(from as int, to as int),
            ) > input.len(),
        },
{
    let ghost digits = input@.subrange(from as int, to as int);
    let mut acc: usize = 0;
    let mut k: usize = from;
    while k < to
        invariant
            from <= k <= to <= input.len(),
            digits == input@.subrange(from as int, to as int),
            all_digits(digits.take(k - from)),
            acc == decimal_value(digits.take(k - from)),
            acc <= input.len(),
        decreases to - k,
    {
        let b: u8 = input[k];
        assert(digits[k - from] == b);
        if !(0x30 <= b && b <= 0x39) {
            return None;
        }
        let next: u128 = (acc as u128) * 10 + ((b - 0x30) as u128);
        proof {
            let longer = digits.take(k + 1 - from);
            assert(longer.drop_last() == digits.take(k - from));
            assert(longer.last() == b);
            assert(all_digits(longer)) by {
                assert forall|i: int| 0 <= i < longer.len() implies is_digit(#[trigger] longer[i]) by {
                    if i < k - from {
                        assert(longer[i] == digits.take(k - from)[i]);
                    }
                }
            }
            assert(next == decimal_value(longer));
            if all_digits(digits) {
                lemma_decimal_value_prefix(digits, k + 1 - from);
            }
        }
        if next > input.len() as u128 {
            return None;
        }
        acc = next as usize;
        k = k + 1;
    }
    assert(digits.take(to - from) == digits);
    Some(acc)
}

/// Takes the payload out of the netstring at the start of `input`.
pub fn decode_netstring(input: &[u8]) -> (r: Option<Vec<u8>>)
    ensures
        match r {
            Some(payload) => netstring_payload(input@) == Some(payload@),
            None => netstring_payload(input@) is None,
        },
{
    let colon = find_byte(input, 0x3A);
    if colon == input.len() {
        return None;
    }
    if colon == 0 {
        return None;
    }
    assert(input@.take(colon as int) == input@.subrange(0, colon as int));
    match parse_length(input, 0, colon) {
        None => None,
        Some(length) => {
            let start: usize = colon + 1;
            if length >= input.len() - start {
                return None;
            }
            let end: usize = start + length;
            if input[end] != 0x2C {
                return None;
            }
            let payload = slice_subrange(input, start, end);
            if !is_utf8(payload) {
                return None;
            }
            Some(slice_to_vec(payload))
        },
    }
}

} // verus!
