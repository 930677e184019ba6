//! Character-level helpers for procedure paths and instruction names.
use vstd::prelude::*;

verus! {

/// The path separator `::` as a character sequence.
pub open spec fn separator() -> Seq<char> {
    seq![':', ':']
}

/// `s` with every leading `::` removed, as `str::trim_start_matches("::")` does.
pub open spec fn trim_separators(s: Seq<char>) -> Seq<char>
    decreases s.len(),
{
    if s.len() >= 2 && s[0] == ':' && s[1] == ':' {
        trim_separators(s.subrange(2, s.len() as int))
    } else {
        s
    }
}

/// `prefix` is a prefix of `s`.
pub open spec fn starts_with(s: Seq<char>, prefix: Seq<char>) -> bool {
    prefix.len() <= s.len() && s.subrange(0, prefix.len() as int) == prefix
}

/// The part of `s` before its first `.`, or all of `s` when it holds none.
pub open spec fn before_first_dot(s: Seq<char>) -> Seq<char>
    decreases s.len(),
{
    if s.len() == 0 {
        s
    } else if s[0] == '.' {
        Seq::empty()
    } else {
        seq![s[0]] + before_first_dot(s.drop_first())
    }
}

proof fn lemma_trim_step(s: Seq<char>, i: int)
    requires
        0 <= i,
        i % 2 == 0,
        i <= s.len(),
        forall|k: int| 0 <= k < i ==> s[k] == ':',
    ensures
        trim_separators(s) == trim_separators(s.subrange(i, s.len() as int)),
    decreases i,
{
    if i >= 2 {
        let t = s.subrange(2, s.len() as int);
        assert(s[0] == ':' && s[1] == ':');
        assert forall|k: int| 0 <= k < i - 2 implies t[k] == ':' by {
            assert(t[k] == s[k + 2]);
        }
        lemma_trim_step(t, i - 2);
        assert(t.subrange(i - 2, t.len() as int) =~= s.subrange(i, s.len() as int));
    } else {
        assert(s.subrange(0, s.len() as int) =~= s);
    }
}

proof fn lemma_before_first_dot_step(s: Seq<char>, i: int)
    requires
        0 <= i <= s.len(),
        forall|k: int| 0 <= k < i ==> s[k] != '.',
    ensures
        before_first_dot(s) == s.subrange(0, i) + before_first_dot(s.subrange(i, s.len() as int)),
    decreases i,
{
    if i > 0 {
        let t = s.drop_first();
        assert forall|k: int| 0 <= k < i - 1 implies t[k] != '.' by {
            assert(t[k] == s[k + 1]);
        }
        lemma_before_first_dot_step(t, i - 1);
        assert(t.subrange(i - 1, t.len() as int) =~= s.subrange(i, s.len() as int));
        assert(seq![s[0]] + t.subrange(0, i - 1) =~= s.subrange(0, i));
    } else {
        assert(s.subrange(0, s.len() as int) =~= s);
        assert(s.subrange(0, 0) + before_first_dot(s) =~= before_first_dot(s));
    }
}

/// Return `s` without its leading `::` separators.
pub fn trim_leading_separators(s: &str) -> (r: &str)
    ensures
        r@ == trim_separators(s@),
{
    let n = s.unicode_len();
    let mut i: usize = 0;
    while i + 1 < n && s.get_char(i) == ':' && s.get_char(i + 1) == ':'
        invariant
            n == s@.len(),
            i <= n,
            i % 2 == 0,
            forall|k: int| 0 <= k < i ==> s@[k] == ':',
        decreases n - i,
    {
        i = i + 2;
    }
    proof {
        lemma_trim_step(s@, i as int);
        let t = s@.subrange(i as int, s@.len() as int);
        if t.len() >= 2 {
            assert(t[0] == s@[i as int] && t[1] == s@[i + 1]);
        }
    }
    s.substring_char(i, n)
}

/// Return whether two strings hold the same characters.
pub fn str_equal(a: &str, b: &str) -> (r: bool)
    ensures
        r == (a@ == b@),
{
    let n = a.unicode_len();
    let m = b.unicode_len();
    if n != m {
        return false;
    }
    let mut i: usize = 0;
    while i < n
        invariant
            n == a@.len(),
            m == b@.len(),
            n == m,
            i <= n,
            forall|k: int| 0 <= k < i ==> a@[k] == b@[k],
        decreases n - i,
    {
        if a.get_char(i) != b.get_char(i) {
            return false;
        }
        i = i + 1;
    }
    assert(a@ =~= b@);
    true
}

/// Return whether `s` begins with `prefix`.
pub fn str_starts_with(s: &str, prefix: &str) -> (r: bool)
    ensures
        r == starts_with(s@, prefix@),
{
    let n = s.unicode_len();
    let m = prefix.unicode_len();
    if m > n {
        return false;
    }
    let mut i: usize = 0;
    while i < m
        invariant
            n == s@.len(),
            m == prefix@.len(),
            m <= n,
            i <= m,
            forall|k: int| 0 <= k < i ==> s@[k] == prefix@[k],
        decreases m - i,
    {
        if s.get_char(i) != prefix.get_char(i) {
            assert(s@.subrange(0, m as int)[i as int] == s@[i as int]);
            return false;
        }
        i = i + 1;
    }
    assert(s@.subrange(0, m as int) =~= prefix@);
    true
}

/// Return the part of `s` before its first `.`.
pub fn str_before_first_dot(s: &str) -> (r: &str)
    ensures
        r@ == before_first_dot(s@),
{
    let n = s.unicode_len();
    let mut i: usize = 0;
    while i < n && s.get_char(i) != '.'
        invariant
            n == s@.len(),
            i <= n,
            forall|k: int| 0 <= k < i ==> s@[k] != '.',
        decreases n - i,
    {
        i = i + 1;
    }
    proof {
        lemma_before_first_dot_step(s@, i as int);
        let t = s@.subrange(i as int, s@.len() as int);
        if t.len() > 0 {
            assert(t[0] == s@[i as int]);
        }
        assert(s@.subrange(0, i as int) + before_first_dot(t) =~= s@.subrange(0, i as int));
    }
    s.substring_char(0, i)
}

} // verus!
