//! Byte strings: white space, trimming, searching and comparing.
//!
//! Everything the server reads off the wire is kept as the bytes that
//! arrived, and text is read as UTF-8. White space is what Unicode calls so:
//! the characters U+0009 to U+000D, U+0020, U+0085, U+00A0, U+1680, U+2000
//! to U+200A, U+2028, U+2029, U+202F, U+205F and U+3000.

use vstd::prelude::*;
use vstd::slice::slice_subrange;
use vstd::slice::slice_to_vec;

verus! {

/// The byte is a white-space character of ASCII: U+0009 to U+000D, or
/// U+0020.
pub open spec fn is_ascii_space(a: u8) -> bool {
    a == 0x20 || (0x09 <= a && a <= 0x0d)
}

/// The two bytes encode U+0085 or U+00A0.
pub open spec fn is_narrow_space(a: u8, b: u8) -> bool {
    a == 0xc2 && (b == 0x85 || b == 0xa0)
}

/// The three bytes encode U+1680, one of U+2000 to U+200A, U+2028, U+2029,
/// U+202F, U+205F or U+3000.
pub open spec fn is_wide_space(a: u8, b: u8, c: u8) -> bool {
    ||| a == 0xe1 && b == 0x9a && c == 0x80
    ||| a == 0xe2 && b == 0x80 && ((0x80 <= c && c <= 0x8a) || c == 0xa8 || c == 0xa9 || c == 0xaf)
    ||| a == 0xe2 && b == 0x81 && c == 0x9f
    ||| a == 0xe3 && b == 0x80 && c == 0x80
}

/// The number of bytes of the white-space character that stands at index
/// `i` of `s`; 0 where none stands there.
pub open spec fn space_len(s: Seq<u8>, i: int) -> int {
    if 0 <= i < s.len() && is_ascii_space(s[i]) {
        1
    } else if 0 <= i && i + 1 < s.len() && is_narrow_space(s[i], s[i + 1]) {
        2
    } else if 0 <= i && i + 2 < s.len() && is_wide_space(s[i], s[i + 1], s[i + 2]) {
        3
    } else {
        0
    }
}

/// The number of bytes of the white-space character that ends just before
/// index `j` of `s`; 0 where none ends there.
pub open spec fn space_len_before(s: Seq<u8>, j: int) -> int {
    if space_len(s, j - 1) == 1 {
        1
    } else if space_len(s, j - 2) == 2 {
        2
    } else if space_len(s, j - 3) == 3 {
        3
    } else {
        0
    }
}

/// The first index that is reached from `i` by passing over white space;
/// `i` itself where no white space stands at `i`.
pub open spec fn after_spaces(s: Seq<u8>, i: int) -> int
    decreases s.len() - i,
{
    if space_len(s, i) > 0 {
        after_spaces(s, i + space_len(s, i))
    } else {
        i
    }
}

/// The first index at or after `i` at which white space stands; `i` itself
/// where `i` is outside `s`.
pub open spec fn word_end(s: Seq<u8>, i: int) -> int
    decreases s.len() - i,
{
    if 0 <= i < s.len() && space_len(s, i) == 0 {
        word_end(s, i + 1)
    } else {
        i
    }
}

/// The index that is reached from `j` by passing back over white space; `j`
/// itself where no white space ends at `j`.
pub open spec fn before_spaces(s: Seq<u8>, j: int) -> int
    decreases j,
{
    if space_len_before(s, j) > 0 {
        before_spaces(s, j - space_len_before(s, j))
    } else {
        j
    }
}

/// `s` without its leading and trailing white space.
pub open spec fn trimmed(s: Seq<u8>) -> Seq<u8> {
    let a = after_spaces(s, 0);
    let b = before_spaces(s, s.len() as int);
    if a < b {
        s.subrange(a, b)
    } else {
        Seq::empty()
    }
}

/// The first index at or after `i` that holds `b`, or the length of `s`
/// where there is none.
pub open spec fn first_index_of(s: Seq<u8>, b: u8, i: int) -> int
    decreases s.len() - i,
{
    if 0 <= i < s.len() {
        if s[i] == b {
            i
        } else {
            first_index_of(s, b, i + 1)
        }
    } else {
        s.len() as int
    }
}

/// `pat` stands in `s` at index `i`.
pub open spec fn has_at(s: Seq<u8>, pat: Seq<u8>, i: int) -> bool {
    0 <= i && i + pat.len() <= s.len() && s.subrange(i, i + pat.len()) == pat
}

/// `s` begins with `pat`.
pub open spec fn has_prefix(s: Seq<u8>, pat: Seq<u8>) -> bool {
    has_at(s, pat, 0)
}

/// `pat` stands somewhere in `s`.
pub open spec fn has_infix(s: Seq<u8>, pat: Seq<u8>) -> bool {
    exists|i: int| has_at(s, pat, i)
}

/// `after_spaces` stays inside `s` and stops where no white space stands.
pub proof fn lemma_after_spaces(s: Seq<u8>, i: int)
    requires
        0 <= i <= s.len(),
    ensures
        i <= after_spaces(s, i) <= s.len(),
        space_len(s, after_spaces(s, i)) == 0,
    decreases s.len() - i,
{
    if space_len(s, i) > 0 {
        lemma_after_spaces(s, i + space_len(s, i));
    }
}

/// `word_end` stays inside `s`, passes over no white space, and stops at the
/// first.
pub proof fn lemma_word_end(s: Seq<u8>, i: int)
    requires
        0 <= i <= s.len(),
    ensures
        i <= word_end(s, i) <= s.len(),
        forall|k: int| i <= k < word_end(s, i) ==> #[trigger] space_len(s, k) == 0,
        word_end(s, i) < s.len() ==> space_len(s, word_end(s, i)) > 0,
    decreases s.len() - i,
{
    if i < s.len() && space_len(s, i) == 0 {
        lemma_word_end(s, i + 1);
    }
}

/// `before_spaces` stays inside `s` and stops where no white space ends.
pub proof fn lemma_before_spaces(s: Seq<u8>, j: int)
    requires
        0 <= j <= s.len(),
    ensures
        0 <= before_spaces(s, j) <= j,
        space_len_before(s, before_spaces(s, j)) == 0,
    decreases j,
{
    if space_len_before(s, j) > 0 {
        lemma_before_spaces(s, j - space_len_before(s, j));
    }
}

/// `first_index_of` finds the first occurrence at or after `i`, and answers
/// with the length of `s` exactly when there is none.
pub proof fn lemma_first_index_of(s: Seq<u8>, b: u8, i: int)
    requires
        0 <= i <= s.len(),
    ensures
        i <= first_index_of(s, b, i) <= s.len(),
        forall|k: int| i <= k < first_index_of(s, b, i) ==> #[trigger] s[k] != b,
        first_index_of(s, b, i) < s.len() ==> s[first_index_of(s, b, i)] == b,
    decreases s.len() - i,
{
    if i < s.len() && s[i] != b {
        lemma_first_index_of(s, b, i + 1);
    }
}

/// What is left after trimming is a part of the text that neither begins
/// nor ends with white space, so that trimming it again changes nothing.
pub proof fn law_trimmed(s: Seq<u8>)
    ensures
        exists|a: int, b: int| 0 <= a <= b <= s.len() && #[trigger] s.subrange(a, b) == trimmed(s),
        space_len(trimmed(s), 0) == 0,
        space_len_before(trimmed(s), trimmed(s).len() as int) == 0,
        trimmed(trimmed(s)) == trimmed(s),
{
    let a = after_spaces(s, 0);
    let b = before_spaces(s, s.len() as int);
    lemma_after_spaces(s, 0);
    lemma_before_spaces(s, s.len() as int);
    let t = trimmed(s);
    if a < b {
        assert(s.subrange(a, b) == t);
        assert(space_len(t, 0) == 0) by {
            if space_len(t, 0) > 0 {
                assert(t[0] == s[a]);
                if t.len() > 1 {
                    assert(t[1] == s[a + 1]);
                }
                if t.len() > 2 {
                    assert(t[2] == s[a + 2]);
                }
            }
        }
        assert(space_len_before(t, t.len() as int) == 0) by {
            let n = t.len() as int;
            assert(t[n - 1] == s[b - 1]);
            if n > 1 {
                assert(t[n - 2] == s[b - 2]);
            }
            if n > 2 {
                assert(t[n - 3] == s[b - 3]);
            }
        }
        assert(t.subrange(0, t.len() as int) =~= t);
    } else {
        assert(s.subrange(a, a) =~= t);
    }
}

/// The number of bytes of the white-space character that stands at index
/// `i` of `s`; 0 where none stands there.
pub fn space_at(s: &[u8], i: usize) -> (r: usize)
    ensures
        r == space_len(s@, i as int),
{
    if i >= s.len() {
        return 0;
    }
    let a = s[i];
    let left = s.len() - i;
    if a == 0x20 || (0x09 <= a && a <= 0x0d) {
        1
    } else if left >= 2 && a == 0xc2 && (s[i + 1] == 0x85 || s[i + 1] == 0xa0) {
        2
    } else if left >= 3 && is_wide_space_bytes(a, s[i + 1], s[i + 2]) {
        3
    } else {
        0
    }
}

/// Whether the three bytes encode a white-space character.
pub fn is_wide_space_bytes(a: u8, b: u8, c: u8) -> (r: bool)
    ensures
        r == is_wide_space(a, b, c),
{
    (a == 0xe1 && b == 0x9a && c == 0x80) || (a == 0xe2 && b == 0x80 && ((0x80 <= c && c <= 0x8a)
        || c == 0xa8 || c == 0xa9 || c == 0xaf)) || (a == 0xe2 && b == 0x81 && c == 0x9f) || (a
        == 0xe3 && b == 0x80 && c == 0x80)
}

/// The number of bytes of the white-space character that ends just before
/// index `j` of `s`; 0 where none ends there.
pub fn space_before(s: &[u8], j: usize) -> (r: usize)
    ensures
        r == space_len_before(s@, j as int),
{
    if j >= 1 && space_at(s, j - 1) == 1 {
        1
    } else if j >= 2 && space_at(s, j - 2) == 2 {
        2
    } else if j >= 3 && space_at(s, j - 3) == 3 {
        3
    } else {
        0
    }
}

/// Copies `s[from..to]`.
pub fn copy_range(s: &[u8], from: usize, to: usize) -> (r: Vec<u8>)
    requires
        from <= to <= s.len(),
    ensures
        r@ == s@.subrange(from as int, to as int),
{
    slice_to_vec(slice_subrange(s, from, to))
}

/// Copies the bytes of `s`.
pub fn copy_bytes(s: &[u8]) -> (r: Vec<u8>)
    ensures
        r@ == s@,
{
    slice_to_vec(s)
}

/// Passes over the white space that stands at `from`.
pub fn skip_spaces(s: &[u8], from: usize) -> (r: usize)
    ensures
        r == after_spaces(s@, from as int),
{
    let mut i = from;
    let mut width = space_at(s, i);
    while width > 0
        invariant
            width == space_len(s@, i as int),
            after_spaces(s@, from as int) == after_spaces(s@, i as int),
        decreases s.len() - i,
    {
        i += width;
        width = space_at(s, i);
    }
    i
}

/// Passes over what stands at `from` up to the next white space.
pub fn skip_word(s: &[u8], from: usize) -> (r: usize)
    ensures
        r == word_end(s@, from as int),
{
    let mut i = from;
    while i < s.len() && space_at(s, i) == 0
        invariant
            word_end(s@, from as int) == word_end(s@, i as int),
        decreases s.len() - i,
    {
        i += 1;
    }
    i
}

/// `s` without its leading and trailing white space.
pub fn trim(s: &[u8]) -> (r: Vec<u8>)
    ensures
        r@ == trimmed(s@),
{
    let a = skip_spaces(s, 0);
    proof {
        lemma_after_spaces(s@, 0);
    }
    let mut j = s.len();
    let mut width = space_before(s, j);
    while width > 0
        invariant
            j <= s.len(),
            width == space_len_before(s@, j as int),
            before_spaces(s@, s@.len() as int) == before_spaces(s@, j as int),
        decreases j,
    {
        j -= width;
        width = space_before(s, j);
    }
    if a < j {
        copy_range(s, a, j)
    } else {
        Vec::new()
    }
}

/// The first index at or after `from` that holds `b`, or the length of `s`.
pub fn find_byte(s: &[u8], b: u8, from: usize) -> (r: usize)
    ensures
        r == first_index_of(s@, b, from as int),
{
    let mut i = from;
    while i < s.len() && s[i] != b
        invariant
            from <= i,
            first_index_of(s@, b, from as int) == first_index_of(s@, b, i as int),
        decreases s.len() - i,
    {
        i += 1;
    }
    if i < s.len() {
        i
    } else {
        s.len()
    }
}

/// Whether `a` and `b` hold the same bytes.
pub fn equal(a: &[u8], b: &[u8]) -> (r: bool)
    ensures
        r == (a@ == b@),
{
    if a.len() != b.len() {
        return false;
    }
    let mut i: usize = 0;
    while i < a.len()
        invariant
            a.len() == b.len(),
            i <= a.len(),
            forall|k: int| 0 <= k < i ==> a@[k] == b@[k],
        decreases a.len() - i,
    {
        if a[i] != b[i] {
            return false;
        }
        i += 1;
    }
    assert(a@ =~= b@);
    true
}

/// Whether `pat` stands in `s` at index `at`.
pub fn matches_at(s: &[u8], pat: &[u8], at: usize) -> (r: bool)
    ensures
        r == has_at(s@, pat@, at as int),
{
    if at > s.len() || pat.len() > s.len() - at {
        return false;
    }
    let mut i: usize = 0;
    while i < pat.len()
        invariant
            at + pat.len() <= s.len(),
            i <= pat.len(),
            forall|k: int| 0 <= k < i ==> s@[at + k] == pat@[k],
        decreases pat.len() - i,
    {
        if s[at + i] != pat[i] {
            assert(s@.subrange(at as int, at + pat@.len())[i as int] != pat@[i as int]);
            return false;
        }
        i += 1;
    }
    assert(s@.subrange(at as int, at + pat@.len()) =~= pat@);
    true
}

/// Whether `s` begins with `pat`.
pub fn starts_with(s: &[u8], pat: &[u8]) -> (r: bool)
    ensures
        r == has_prefix(s@, pat@),
{
    matches_at(s, pat, 0)
}

/// Whether `pat` stands somewhere in `s`.
pub fn contains(s: &[u8], pat: &[u8]) -> (r: bool)
    ensures
        r == has_infix(s@, pat@),
{
    if pat.len() > s.len() {
        return false;
    }
    let last = s.len() - pat.len();
    let mut i: usize = 0;
    while i < last
        invariant
            last == s.len() - pat.len(),
            i <= last,
            forall|k: int| 0 <= k < i ==> !has_at(s@, pat@, k),
        decreases last - i,
    {
        if matches_at(s, pat, i) {
            return true;
        }
        i += 1;
    }
    matches_at(s, pat, last)
}

} // verus!
