//! White space in UTF-8 text: tokens and trimming.
//!
//! White space is the set of characters with Unicode's `White_Space`
//! property, recognised by their UTF-8 encodings.

use vstd::prelude::*;
use vstd::utf8::{
    is_leading_byte_width_1, partial_valid_utf8, partial_valid_utf8_extend_ascii_block, valid_utf8,
};

verus! {

/// The byte strings that a vector of texts holds.
pub open spec fn text_views(values: Seq<Vec<u8>>) -> Seq<Seq<u8>> {
    Seq::new(values.len(), |i: int| values[i]@)
}

/// One-byte white space: tab, line feed, vertical tab, form feed,
/// carriage return and space.
pub open spec fn is_space_1(a: u8) -> bool {
    (0x09 <= a <= 0x0D) || a == 0x20
}

/// Two-byte white space: U+0085 and U+00A0.
pub open spec fn is_space_2(a: u8, b: u8) -> bool {
    a == 0xC2 && (b == 0x85 || b == 0xA0)
}

/// Three-byte white space: U+1680, U+2000 to U+200A, U+2028, U+2029,
/// U+202F, U+205F and U+3000.
pub open spec fn is_space_3(a: u8, b: u8, c: u8) -> bool {
    ||| a == 0xE1 && b == 0x9A && c == 0x80
    ||| a == 0xE2 && b == 0x80 && (0x80 <= c <= 0x8A || c == 0xA8 || c == 0xA9 || c == 0xAF)
    ||| a == 0xE2 && b == 0x81 && c == 0x9F
    ||| a == 0xE3 && b == 0x80 && c == 0x80
}

/// The length in bytes of the white-space character that starts at `i`,
/// or 0 where none starts there.
pub open spec fn space_width(s: Seq<u8>, i: int) -> int {
    if 0 <= i < s.len() && is_space_1(s[i]) {
        1
    } else if 0 <= i && i + 1 < s.len() && is_space_2(s[i], s[i + 1]) {
        2
    } else if 0 <= i && i + 2 < s.len() && is_space_3(s[i], s[i + 1], s[i + 2]) {
        3
    } else {
        0
    }
}

/// The length in bytes of the white-space character that ends just before
/// `e` and starts at `lo` or later, or 0 where there is none.
pub open spec fn space_width_before(s: Seq<u8>, lo: int, e: int) -> int {
    if 0 <= lo <= e - 1 && e <= s.len() && is_space_1(s[e - 1]) {
        1
    } else if 0 <= lo <= e - 2 && e <= s.len() && is_space_2(s[e - 2], s[e - 1]) {
        2
    } else if 0 <= lo <= e - 3 && e <= s.len() && is_space_3(s[e - 3], s[e - 2], s[e - 1]) {
        3
    } else {
        0
    }
}

/// The first position at or after `i` where no white space starts.
pub open spec fn skip_space(s: Seq<u8>, i: int) -> int
    decreases s.len() - i,
{
    if space_width(s, i) > 0 {
        skip_space(s, i + space_width(s, i))
    } else {
        i
    }
}

/// The first position at or after `i` where white space starts, or the
/// end of `s`.
pub open spec fn token_end(s: Seq<u8>, i: int) -> int
    decreases s.len() - i,
{
    if 0 <= i < s.len() && space_width(s, i) == 0 {
        token_end(s, i + 1)
    } else {
        i
    }
}

/// The position where the text ends once the white space before `e`, back
/// to `lo`, is taken away.
pub open spec fn trim_end(s: Seq<u8>, lo: int, e: int) -> int
    decreases e,
{
    if space_width_before(s, lo, e) > 0 {
        trim_end(s, lo, e - space_width_before(s, lo, e))
    } else {
        e
    }
}

/// `s` without the white space at its start and at its end.
pub open spec fn trimmed(s: Seq<u8>) -> Seq<u8> {
    let a = skip_space(s, 0);
    s.subrange(a, trim_end(s, a, s.len() as int))
}

/// Whether `s` begins with `prefix`.
pub open spec fn starts_with(s: Seq<u8>, prefix: Seq<u8>) -> bool {
    prefix.len() <= s.len() && s.take(prefix.len() as int) == prefix
}

/// The length of the white-space character that starts at `i`, or 0.
pub fn space_width_at(s: &[u8], i: usize) -> (w: usize)
    ensures
        w == space_width(s@, i as int),
        w <= 3,
        i + w <= s.len() || w == 0,
{
    let n = s.len();
    if i < n && ((0x09 <= s[i] && s[i] <= 0x0D) || s[i] == 0x20) {
        1
    } else if i < n && n - i > 1 && s[i] == 0xC2 && (s[i + 1] == 0x85 || s[i + 1] == 0xA0) {
        2
    } else if i < n && n - i > 2 && ((s[i] == 0xE1 && s[i + 1] == 0x9A && s[i + 2] == 0x80) || (s[i]
        == 0xE2 && s[i + 1] == 0x80 && ((0x80 <= s[i + 2] && s[i + 2] <= 0x8A) || s[i + 2] == 0xA8
        || s[i + 2] == 0xA9 || s[i + 2] == 0xAF)) || (s[i] == 0xE2 && s[i + 1] == 0x81 && s[i + 2]
        == 0x9F) || (s[i] == 0xE3 && s[i + 1] == 0x80 && s[i + 2] == 0x80)) {
        3
    } else {
        0
    }
}

/// The length of the white-space character that ends just before `e` and
/// starts at `lo` or later, or 0.
pub fn space_width_ending_at(s: &[u8], lo: usize, e: usize) -> (w: usize)
    ensures
        w == space_width_before(s@, lo as int, e as int),
        w <= 3,
        lo + w <= e || w == 0,
{
    if e > s.len() {
        0
    } else if e >= 1 && lo <= e - 1 && ((0x09 <= s[e - 1] && s[e - 1] <= 0x0D) || s[e - 1] == 0x20) {
        1
    } else if e >= 2 && lo <= e - 2 && s[e - 2] == 0xC2 && (s[e - 1] == 0x85 || s[e - 1] == 0xA0) {
        2
    } else if e >= 3 && lo <= e - 3 && ((s[e - 3] == 0xE1 && s[e - 2] == 0x9A && s[e - 1] == 0x80)
        || (s[e - 3] == 0xE2 && s[e - 2] == 0x80 && ((0x80 <= s[e - 1] && s[e - 1] <= 0x8A) || s[e
        - 1] == 0xA8 || s[e - 1] == 0xA9 || s[e - 1] == 0xAF)) || (s[e - 3] == 0xE2 && s[e - 2]
        == 0x81 && s[e - 1] == 0x9F) || (s[e - 3] == 0xE3 && s[e - 2] == 0x80 && s[e - 1]
        == 0x80)) {
        3
    } else {
        0
    }
}

/// Skips the white space that starts at `i`.
pub fn skip_spaces(s: &[u8], i: usize) -> (r: usize)
    ensures
        r == skip_space(s@, i as int),
        i <= r,
        i <= s.len() ==> r <= s.len(),
{
    if i >= s.len() {
        return i;
    }
    let mut k: usize = i;
    loop
        invariant
            i <= k <= s.len(),
            skip_space(s@, k as int) == skip_space(s@, i as int),
        ensures
            k == skip_space(s@, i as int),
        decreases s.len() - k,
    {
        let w = space_width_at(s, k);
        if w == 0 {
            break;
        }
        k = k + w;
    }
    k
}

/// Finds the end of the token that starts at `i`.
pub fn find_token_end(s: &[u8], i: usize) -> (r: usize)
    ensures
        r == token_end(s@, i as int),
        i <= r,
        i <= s.len() ==> r <= s.len(),
{
    if i >= s.len() {
        return i;
    }
    let mut k: usize = i;
    while k < s.len() && space_width_at(s, k) == 0
        invariant
            i <= k <= s.len(),
            token_end(s@, k as int) == token_end(s@, i as int),
        decreases s.len() - k,
    {
        k = k + 1;
    }
    k
}

/// The bounds of `s` without the white space at its start and its end.
pub fn trim_bounds(s: &[u8]) -> (r: (usize, usize))
    ensures
        r.0 == skip_space(s@, 0),
        r.1 == trim_end(s@, r.0 as int, s.len() as int),
        r.0 <= r.1 <= s.len(),
        s@.subrange(r.0 as int, r.1 as int) == trimmed(s@),
{
    let a = skip_spaces(s, 0);
    let mut e: usize = s.len();
    loop
        invariant
            a <= e <= s.len(),
            trim_end(s@, a as int, e as int) == trim_end(s@, a as int, s.len() as int),
        ensures
            a <= e <= s.len(),
            e == trim_end(s@, a as int, s.len() as int),
        decreases e,
    {
        let w = space_width_ending_at(s, a, e);
        if w == 0 {
            break;
        }
        e = e - w;
    }
    (a, e)
}

/// Whether `s` begins with `prefix`.
pub fn has_prefix(s: &[u8], prefix: &[u8]) -> (r: bool)
    ensures
        r == starts_with(s@, prefix@),
{
    if prefix.len() > s.len() {
        return false;
    }
    let mut i: usize = 0;
    while i < prefix.len()
        invariant
            i <= prefix.len() <= s.len(),
            s@.take(i as int) == prefix@.take(i as int),
        decreases prefix.len() - i,
    {
        if s[i] != prefix[i] {
            assert(s@.take(prefix.len() as int)[i as int] != prefix@[i as int]);
            return false;
        }
        assert(s@.take(i + 1) == s@.take(i as int).push(s@[i as int]));
        assert(prefix@.take(i + 1) == prefix@.take(i as int).push(prefix@[i as int]));
        i = i + 1;
    }
    assert(prefix@.take(prefix.len() as int) == prefix@);
    true
}

/// The index of the first `b` in `s`, or the length of `s` where it has
/// none.
pub open spec fn first_index(s: Seq<u8>, b: u8) -> int
    decreases s.len(),
{
    if s.len() == 0 || s[0] == b {
        0
    } else {
        1 + first_index(s.drop_first(), b)
    }
}

/// Where `s` has no `b` before `i`, and has one at `i` or ends there, the
/// first `b` is at `i`.
pub proof fn lemma_first_index(s: Seq<u8>, b: u8, i: int)
    requires
        0 <= i <= s.len(),
        forall|j: int| 0 <= j < i ==> s[j] != b,
        i < s.len() ==> s[i] == b,
    ensures
        first_index(s, b) == i,
    decreases i,
{
    if i > 0 {
        let rest = s.drop_first();
        assert forall|j: int| 0 <= j < i - 1 implies rest[j] != b by {
            assert(rest[j] == s[j + 1]);
        }
        lemma_first_index(rest, b, i - 1);
    }
}

/// The first index lies within `s`, or is its length.
pub proof fn lemma_first_index_bounds(s: Seq<u8>, b: u8)
    ensures
        0 <= first_index(s, b) <= s.len(),
    decreases s.len(),
{
    if !(s.len() == 0 || s[0] == b) {
        lemma_first_index_bounds(s.drop_first(), b);
    }
}

/// Finds the first `b` in `s`.
pub fn find_byte(s: &[u8], b: u8) -> (i: usize)
    ensures
        i == first_index(s@, b),
        i <= s.len(),
        i < s.len() ==> s@[i as int] == b,
        forall|j: int| 0 <= j < i ==> s@[j] != b,
{
    let mut i: usize = 0;
    while i < s.len() && s[i] != b
        invariant
            i <= s.len(),
            forall|j: int| 0 <= j < i ==> s@[j] != b,
        decreases s.len() - i,
    {
        i = i + 1;
    }
    proof {
        lemma_first_index(s@, b, i as int);
    }
    i
}

/// Whether every byte of `s` is an ASCII character.
pub open spec fn is_ascii_text(s: Seq<u8>) -> bool {
    forall|i: int| 0 <= i < s.len() ==> #[trigger] s[i] <= 0x7F
}

/// ASCII text is UTF-8.
pub proof fn lemma_ascii_is_utf8(s: Seq<u8>)
    requires
        is_ascii_text(s),
    ensures
        valid_utf8(s),
{
    assert(s.subrange(0, 0) =~= Seq::<u8>::empty());
    assert(partial_valid_utf8(s, 0));
    assert forall|i: int| 0 <= i < s.len() implies #[trigger] is_leading_byte_width_1(s[i]) by {
        assert(s[i] <= 0x7F);
    }
    partial_valid_utf8_extend_ascii_block(s, 0, s.len() as int);
    assert(s.subrange(0, s.len() as int) =~= s);
}

/// Calls `std::str::from_utf8`, which accepts the byte strings that are
/// UTF-8 and no others.
#[verifier::external_body]
pub(crate) fn is_utf8(bytes: &[u8]) -> (r: bool)
    ensures
        r == valid_utf8(bytes@),
{
    std::str::from_utf8(bytes).is_ok()
}

/// The UTF-8 text that `String::from_utf8_lossy` makes of `bytes`.
pub uninterp spec fn lossy_utf8(bytes: Seq<u8>) -> Seq<u8>;

/// Calls `String::from_utf8_lossy`, which keeps valid UTF-8 as it is and
/// puts U+FFFD in the place of whatever is not. The contract names the
/// result and states the first half.
#[verifier::external_body]
pub(crate) fn decode_lossy(bytes: &[u8]) -> (out: Vec<u8>)
    ensures
        out@ == lossy_utf8(bytes@),
        valid_utf8(bytes@) ==> out@ == bytes@,
{
    String::from_utf8_lossy(bytes).into_owned().into_bytes()
}

} // verus!
