//! Percent-encoding of response text as Postfix expects it.
//!
//! Letters, digits and the bytes `- . _ ~ @ : !` stay as they are; every
//! other byte becomes `%` followed by two upper-case hexadecimal digits.

use crate::text::{is_ascii_text, text_views};
use vstd::prelude::*;

verus! {

/// The bytes that are written unchanged.
pub open spec fn is_literal(b: u8) -> bool {
    ||| 0x30 <= b <= 0x39
    ||| 0x41 <= b <= 0x5A
    ||| 0x61 <= b <= 0x7A
    ||| b == 0x2D
    ||| b == 0x2E
    ||| b == 0x5F
    ||| b == 0x7E
    ||| b == 0x40
    ||| b == 0x3A
    ||| b == 0x21
}

/// The upper-case hexadecimal digit of a value below 16.
pub open spec fn hex_digit(n: int) -> u8 {
    if n < 10 {
        (0x30 + n) as u8
    } else {
        (0x37 + n) as u8
    }
}

/// `%XX` for one byte.
pub open spec fn escaped(b: u8) -> Seq<u8> {
    seq![0x25u8, hex_digit(b as int / 16), hex_digit(b as int % 16)]
}

/// What one byte of the input contributes to the output.
pub open spec fn encoded_byte(b: u8) -> Seq<u8> {
    if is_literal(b) {
        seq![b]
    } else {
        escaped(b)
    }
}

/// The percent-encoding of a byte string.
pub open spec fn percent_encoded(s: Seq<u8>) -> Seq<u8>
    decreases s.len(),
{
    if s.len() == 0 {
        Seq::empty()
    } else {
        percent_encoded(s.drop_last()) + encoded_byte(s.last())
    }
}

/// The value of a hexadecimal digit.
pub open spec fn hex_value(d: u8) -> int {
    if 0x30 <= d <= 0x39 {
        d - 0x30
    } else {
        d - 0x37
    }
}

/// An escape is `%` and two digits, `0` to `9` or `A` to `F`, that spell
/// the byte.
pub proof fn lemma_escaped_form(b: u8)
    ensures
        escaped(b).len() == 3,
        escaped(b)[0] == 0x25,
        (0x30 <= escaped(b)[1] <= 0x39) || (0x41 <= escaped(b)[1] <= 0x46),
        (0x30 <= escaped(b)[2] <= 0x39) || (0x41 <= escaped(b)[2] <= 0x46),
        hex_value(escaped(b)[1]) * 16 + hex_value(escaped(b)[2]) == b,
{
}

/// Encoding goes byte by byte: the encoding of two texts, one after the
/// other, is the encoding of the first and then that of the second.
pub proof fn lemma_percent_encoded_concat(a: Seq<u8>, b: Seq<u8>)
    ensures
        percent_encoded(a + b) == percent_encoded(a) + percent_encoded(b),
    decreases b.len(),
{
    if b.len() == 0 {
        assert(a + b =~= a);
        assert(percent_encoded(a) + percent_encoded(b) =~= percent_encoded(a));
    } else {
        assert((a + b).drop_last() =~= a + b.drop_last());
        assert((a + b).last() == b.last());
        lemma_percent_encoded_concat(a, b.drop_last());
        assert(percent_encoded(a + b) =~= percent_encoded(a) + percent_encoded(b));
    }
}

/// A text of letters, digits and `- . _ ~ @ : !` alone is its own
/// encoding.
pub proof fn lemma_literal_text_unchanged(s: Seq<u8>)
    requires
        forall|i: int| 0 <= i < s.len() ==> is_literal(#[trigger] s[i]),
    ensures
        percent_encoded(s) == s,
    decreases s.len(),
{
    if s.len() > 0 {
        assert(is_literal(s.last()));
        lemma_literal_text_unchanged(s.drop_last());
        assert(percent_encoded(s) =~= s);
    }
}

/// Every byte of an encoding is one of those that are written unchanged,
/// or `%`: no other byte is left in it.
pub proof fn lemma_percent_encoded_alphabet(s: Seq<u8>)
    ensures
        forall|i: int|
            0 <= i < percent_encoded(s).len() ==> is_literal(#[trigger] percent_encoded(s)[i])
                || percent_encoded(s)[i] == 0x25,
    decreases s.len(),
{
    if s.len() > 0 {
        lemma_percent_encoded_alphabet(s.drop_last());
        lemma_escaped_form(s.last());
        let head = percent_encoded(s.drop_last());
        let tail = encoded_byte(s.last());
        assert forall|i: int| 0 <= i < percent_encoded(s).len() implies is_literal(
            #[trigger] percent_encoded(s)[i],
        ) || percent_encoded(s)[i] == 0x25 by {
            if i < head.len() {
                assert(percent_encoded(s)[i] == head[i]);
            } else {
                assert(percent_encoded(s)[i] == tail[i - head.len()]);
            }
        }
    }
}

/// Calls `percent_encoding::percent_encode_byte`, which looks the byte up in
/// a table of the 256 three-byte strings `%00` to `%FF`, written with
/// upper-case digits. The contract states that entry.
#[verifier::external_body]
fn escape_byte(b: u8) -> (out: &'static [u8])
    ensures
        out@ == escaped(b),
{
    percent_encoding::percent_encode_byte(b).as_bytes()
}

/// Whether a byte is written unchanged.
pub fn keeps_byte(b: u8) -> (r: bool)
    ensures
        r == is_literal(b),
{
    (0x30 <= b && b <= 0x39) || (0x41 <= b && b <= 0x5A) || (0x61 <= b && b <= 0x7A) || b == 0x2D
        || b == 0x2E || b == 0x5F || b == 0x7E || b == 0x40 || b == 0x3A || b == 0x21
}

/// Percent-encodes `data`.
pub fn encode_response(data: &[u8]) -> (out: Vec<u8>)
    ensures
        out@ == percent_encoded(data@),
{
    let mut out: Vec<u8> = Vec::new();
    let mut i: usize = 0;
    while i < data.len()
        invariant
            i <= data.len(),
            out@ == percent_encoded(data@.take(i as int)),
        decreases data.len() - i,
    {
        let b: u8 = data[i];
        proof {
            assert(data@.take(i + 1).drop_last() == data@.take(i as int));
            assert(data@.take(i + 1).last() == b);
        }
        if keeps_byte(b) {
            out.push(b);
        } else {
            let esc = escape_byte(b);
            let mut j: usize = 0;
            while j < 3
                invariant
                    j <= 3,
                    esc@ == escaped(b),
                    out@ == percent_encoded(data@.take(i as int)) + escaped(b).take(j as int),
                decreases 3 - j,
            {
                out.push(esc[j]);
                assert(escaped(b).take(j + 1) == escaped(b).take(j as int).push(escaped(b)[j as int]));
                j = j + 1;
            }
            assert(escaped(b).take(3) == escaped(b));
        }
        i = i + 1;
    }
    assert(data@.take(data.len() as int) == data@);
    out
}

/// The percent-encodings of `values`, with a comma between each two. The
/// commas themselves are not encoded.
pub open spec fn encoded_list(values: Seq<Seq<u8>>) -> Seq<u8>
    decreases values.len(),
{
    if values.len() == 0 {
        Seq::empty()
    } else if values.len() == 1 {
        percent_encoded(values[0])
    } else {
        encoded_list(values.drop_last()) + seq![0x2Cu8] + percent_encoded(values.last())
    }
}

/// A list of encoded values is ASCII text.
pub proof fn lemma_encoded_list_is_ascii(values: Seq<Seq<u8>>)
    ensures
        is_ascii_text(encoded_list(values)),
    decreases values.len(),
{
    if values.len() > 0 {
        let last = percent_encoded(values.last());
        lemma_percent_encoded_alphabet(values.last());
        if values.len() == 1 {
            assert(values[0] == values.last());
        } else {
            lemma_encoded_list_is_ascii(values.drop_last());
            let head = encoded_list(values.drop_last());
            let all = encoded_list(values);
            assert forall|i: int| 0 <= i < all.len() implies #[trigger] all[i] <= 0x7F by {
                if i < head.len() {
                    assert(all[i] == head[i]);
                } else if i == head.len() {
                    assert(all[i] == 0x2C);
                } else {
                    assert(all[i] == last[i - head.len() - 1]);
                }
            }
        }
    }
}

/// Percent-encodes each value and joins them with commas.
pub fn encode_list(values: &Vec<Vec<u8>>) -> (out: Vec<u8>)
    ensures
        out@ == encoded_list(text_views(values@)),
{
    let ghost all = text_views(values@);
    let mut out: Vec<u8> = Vec::new();
    let mut i: usize = 0;
    while i < values.len()
        invariant
            i <= values.len(),
            all == text_views(values@),
            out@ == encoded_list(all.take(i as int)),
        decreases values.len() - i,
    {
        proof {
            assert(all.take(i + 1).drop_last() == all.take(i as int));
            assert(all.take(i + 1).last() == values@[i as int]@);
            if i == 0 {
                assert(all.take(1)[0] == values@[0]@);
            }
        }
        if i > 0 {
            out.push(0x2C);
        }
        let mut piece = encode_response(values[i].as_slice());
        out.append(&mut piece);
        i = i + 1;
    }
    assert(all.take(values.len() as int) == all);
    out
}

} // verus!
