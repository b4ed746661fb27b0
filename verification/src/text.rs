//! String helpers over character sequences: suffix tests, suffix removal,
//! trimming of trailing white space, and version normalisation.

use vstd::prelude::*;
use vstd::string::*;

verus! {

/// `s` ends with the characters of `suffix`.
pub open spec fn ends_with(s: Seq<char>, suffix: Seq<char>) -> bool {
    suffix.len() <= s.len() && s.subrange(s.len() - suffix.len(), s.len() as int) == suffix
}

/// `s` without `suffix` at its end, or `s` itself where it does not end with it.
pub open spec fn without_suffix(s: Seq<char>, suffix: Seq<char>) -> Seq<char> {
    if ends_with(s, suffix) {
        s.take(s.len() - suffix.len())
    } else {
        s
    }
}

/// `c` is a white-space character: a tab, a line feed, a vertical tab, a
/// form feed, a carriage return, a space, or one of the other characters
/// that Unicode marks as white space. These are dropped from the end of
/// release notes.
pub open spec fn is_trailing_blank(c: char) -> bool {
    let n = c as u32;
    ||| 0x09 <= n <= 0x0D
    ||| n == 0x20
    ||| n == 0x85
    ||| n == 0xA0
    ||| n == 0x1680
    ||| 0x2000 <= n <= 0x200A
    ||| n == 0x2028
    ||| n == 0x2029
    ||| n == 0x202F
    ||| n == 0x205F
    ||| n == 0x3000
}

/// Length of the longest prefix of `s` that does not end in a trailing blank.
pub open spec fn trimmed_len(s: Seq<char>) -> nat
    decreases s.len(),
{
    if s.len() > 0 && is_trailing_blank(s.last()) {
        trimmed_len(s.drop_last())
    } else {
        s.len()
    }
}

/// `s` without the white space at its end.
pub open spec fn trim_end(s: Seq<char>) -> Seq<char> {
    s.take(trimmed_len(s) as int)
}

/// A version with one leading `v` removed, if it has one.
pub open spec fn normalized_version(v: Seq<char>) -> Seq<char> {
    if v.len() > 0 && v[0] == 'v' {
        v.subrange(1, v.len() as int)
    } else {
        v
    }
}

/// The trimmed length never exceeds the length.
pub proof fn lemma_trimmed_len_bound(s: Seq<char>)
    ensures
        trimmed_len(s) <= s.len(),
    decreases s.len(),
{
    if s.len() > 0 && is_trailing_blank(s.last()) {
        lemma_trimmed_len_bound(s.drop_last());
    }
}

/// Trimming leaves a prefix of the text that is empty or ends in a character
/// that is no trailing blank, and every character cut off is a trailing blank.
pub proof fn lemma_trim_end_shape(s: Seq<char>)
    ensures
        trimmed_len(s) <= s.len(),
        trim_end(s) == s.take(trimmed_len(s) as int),
        trim_end(s).len() == 0 || !is_trailing_blank(trim_end(s).last()),
        forall|i: int| trimmed_len(s) <= i < s.len() ==> is_trailing_blank(#[trigger] s[i]),
    decreases s.len(),
{
    if s.len() > 0 && is_trailing_blank(s.last()) {
        let t = s.drop_last();
        lemma_trim_end_shape(t);
        assert(trim_end(s) =~= trim_end(t));
        assert forall|i: int| trimmed_len(s) <= i < s.len() implies is_trailing_blank(
            #[trigger] s[i],
        ) by {
            if i < t.len() {
                assert(s[i] == t[i]);
            }
        }
    } else {
        assert(s.take(s.len() as int) =~= s);
    }
}

/// Whether `s` ends with `suffix`.
pub fn has_suffix(s: &str, suffix: &str) -> (r: bool)
    ensures
        r == ends_with(s@, suffix@),
{
    let n: usize = s.unicode_len();
    let k: usize = suffix.unicode_len();
    if k > n {
        return false;
    }
    let start: usize = n - k;
    let mut i: usize = 0;
    while i < k
        invariant
            n == s@.len(),
            k == suffix@.len(),
            k <= n,
            start == n - k,
            i <= k,
            forall|j: int| 0 <= j < i ==> s@[start + j] == suffix@[j],
        decreases k - i,
    {
        if s.get_char(start + i) != suffix.get_char(i) {
            proof {
                assert(s@.subrange(start as int, n as int)[i as int] == s@[start + i]);
            }
            return false;
        }
        i += 1;
    }
    proof {
        assert(s@.subrange(start as int, n as int) =~= suffix@);
    }
    true
}

/// Removes `suffix` from the end of `s` where `s` ends with it.
pub fn remove_suffix<'a>(s: &'a str, suffix: &str) -> (r: &'a str)
    ensures
        r@ == without_suffix(s@, suffix@),
{
    if has_suffix(s, suffix) {
        let n: usize = s.unicode_len();
        let k: usize = suffix.unicode_len();
        s.substring_char(0, n - k)
    } else {
        s
    }
}

/// Whether `c` is a white-space character.
pub fn trailing_blank(c: char) -> (r: bool)
    ensures
        r == is_trailing_blank(c),
{
    let n: u32 = c as u32;
    (0x09 <= n && n <= 0x0D) || n == 0x20 || n == 0x85 || n == 0xA0 || n == 0x1680 || (0x2000 <= n
        && n <= 0x200A) || n == 0x2028 || n == 0x2029 || n == 0x202F || n == 0x205F || n == 0x3000
}

/// Removes the white space at the end of `s`.
pub fn trim_line_end<'a>(s: &'a str) -> (r: &'a str)
    ensures
        r@ == trim_end(s@),
        r@.len() == 0 || !is_trailing_blank(r@.last()),
{
    let mut n: usize = s.unicode_len();
    proof {
        assert(s@.take(n as int) =~= s@);
    }
    while n > 0 && trailing_blank(s.get_char(n - 1))
        invariant
            n <= s@.len(),
            trimmed_len(s@) == trimmed_len(s@.take(n as int)),
        decreases n,
    {
        proof {
            assert(s@.take(n as int).last() == s@[n - 1]);
            assert(s@.take(n as int).drop_last() =~= s@.take(n - 1));
        }
        n -= 1;
    }
    proof {
        if n > 0 {
            assert(s@.take(n as int).last() == s@[n - 1]);
        }
        assert(trimmed_len(s@) == n);
        lemma_trim_end_shape(s@);
    }
    s.substring_char(0, n)
}

/// Removes one leading `v` from a version.
pub fn strip_version_prefix<'a>(v: &'a str) -> (r: &'a str)
    ensures
        r@ == normalized_version(v@),
{
    let n: usize = v.unicode_len();
    if n > 0 && v.get_char(0) == 'v' {
        v.substring_char(1, n)
    } else {
        v
    }
}

/// Whether two strings hold the same characters.
pub fn same_text(a: &str, b: &str) -> (r: bool)
    ensures
        r == (a@ == b@),
{
    let n: usize = a.unicode_len();
    if n != b.unicode_len() {
        return false;
    }
    let mut i: usize = 0;
    while i < n
        invariant
            n == a@.len(),
            n == b@.len(),
            i <= n,
            forall|j: int| 0 <= j < i ==> a@[j] == b@[j],
        decreases n - i,
    {
        if a.get_char(i) != b.get_char(i) {
            return false;
        }
        i += 1;
    }
    proof {
        assert(a@ =~= b@);
    }
    true
}

} // verus!
