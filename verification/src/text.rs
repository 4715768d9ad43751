//! Character-wise comparisons of strings.

use vstd::prelude::*;

verus! {

/// `c` with an upper-case ASCII letter turned into its lower-case letter.
pub open spec fn ascii_lower(c: char) -> char {
    if 'A' <= c && c <= 'Z' {
        (c as nat + 32) as char
    } else {
        c
    }
}

/// `s` with every upper-case ASCII letter turned into lower case.
pub open spec fn ascii_lowered(s: Seq<char>) -> Seq<char> {
    s.map_values(|c: char| ascii_lower(c))
}

/// Lowering keeps the length, turns each upper-case ASCII letter into the
/// letter 32 codes above it, and leaves every other character unchanged.
pub proof fn lemma_ascii_lowered_chars(s: Seq<char>, i: int)
    requires
        0 <= i < s.len(),
    ensures
        ascii_lowered(s).len() == s.len(),
        65 <= s[i] as nat <= 90 ==> ascii_lowered(s)[i] as nat == s[i] as nat + 32,
        !(65 <= s[i] as nat <= 90) ==> ascii_lowered(s)[i] == s[i],
{
}

/// Whether every character of `s` is a lower-case ASCII letter.
pub open spec fn all_lower_ascii_letters(s: Seq<char>) -> bool {
    forall|i: int| 0 <= i < s.len() ==> 'a' <= #[trigger] s[i] && s[i] <= 'z'
}

/// Whether `a` and `b` hold the same characters.
pub fn same_text(a: &str, b: &str) -> (same: bool)
    ensures
        same == (a@ == b@),
{
    let n = a.unicode_len();
    if n != b.unicode_len() {
        return false;
    }
    let mut i: usize = 0;
    while i < n
        invariant
            n == a@.len(),
            n == b@.len(),
            i <= n,
            forall|j: int| 0 <= j < i ==> a@[j] == b@[j],
        decreases n - i,
    {
        if a.get_char(i) != b.get_char(i) {
            return false;
        }
        i = i + 1;
    }
    assert(a@ =~= b@);
    true
}

/// Whether `a`, with its ASCII letters taken in lower case, is `lower`
/// (a word of lower-case ASCII letters).
pub fn same_text_ignoring_ascii_case(a: &str, lower: &str) -> (same: bool)
    requires
        all_lower_ascii_letters(lower@),
    ensures
        same == (ascii_lowered(a@) == lower@),
{
    let n = a.unicode_len();
    if n != lower.unicode_len() {
        assert(ascii_lowered(a@).len() != lower@.len());
        return false;
    }
    let mut i: usize = 0;
    while i < n
        invariant
            n == a@.len(),
            n == lower@.len(),
            i <= n,
            all_lower_ascii_letters(lower@),
            forall|j: int| 0 <= j < i ==> ascii_lower(a@[j]) == lower@[j],
        decreases n - i,
    {
        let c = a.get_char(i);
        let t = lower.get_char(i);
        assert('a' <= lower@[i as int] && lower@[i as int] <= 'z');
        let upper_match = 'A' <= c && c <= 'Z' && (c as u32) + 32 == (t as u32);
        if c != t && !upper_match {
            assert(ascii_lowered(a@)[i as int] == ascii_lower(a@[i as int]));
            return false;
        }
        i = i + 1;
    }
    assert(ascii_lowered(a@) =~= lower@);
    true
}

} // verus!
