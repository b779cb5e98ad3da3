use vstd::prelude::*;
use crate::error::RimError;

verus! {

/// `s` without its leading and trailing slashes.
pub open spec fn trimmed(s: Seq<char>) -> Seq<char>
    decreases s.len(),
{
    if s.len() > 0 && s[0] == '/' {
        trimmed(s.drop_first())
    } else if s.len() > 0 && s.last() == '/' {
        trimmed(s.drop_last())
    } else {
        s
    }
}

/// Whether a component of `t` begins at index `i`.
pub open spec fn starts_component(t: Seq<char>, i: int) -> bool {
    i == 0 || t[i - 1] == '/'
}

/// Whether a component of `t` ends just before index `j`.
pub open spec fn ends_component(t: Seq<char>, j: int) -> bool {
    j == t.len() || t[j] == '/'
}

/// Whether the component that begins at `i` is empty, `.` or `..`.
pub open spec fn bad_component_at(t: Seq<char>, i: int) -> bool {
    &&& starts_component(t, i)
    &&& {
        ||| ends_component(t, i)
        ||| (i < t.len() && t[i] == '.' && ends_component(t, i + 1))
        ||| (i + 1 < t.len() && t[i] == '.' && t[i + 1] == '.' && ends_component(t, i + 2))
    }
}

/// Whether a trimmed path is a usable blob path: not empty, and none of its
/// slash-separated components is empty, `.` or `..`.
pub open spec fn valid_trimmed_path(t: Seq<char>) -> bool {
    t.len() > 0 && forall|i: int| 0 <= i <= t.len() ==> !#[trigger] bad_component_at(t, i)
}

proof fn lemma_trimmed_drop_first(s: Seq<char>, i: int)
    requires
        0 <= i < s.len(),
        s[i] == '/',
    ensures
        trimmed(s.subrange(i, s.len() as int)) == trimmed(s.subrange(i + 1, s.len() as int)),
{
    let a = s.subrange(i, s.len() as int);
    assert(a.drop_first() =~= s.subrange(i + 1, s.len() as int));
}

proof fn lemma_trimmed_drop_last(s: Seq<char>, i: int, j: int)
    requires
        0 <= i < j <= s.len(),
        s[i] != '/',
        s[j - 1] == '/',
    ensures
        trimmed(s.subrange(i, j)) == trimmed(s.subrange(i, j - 1)),
{
    let a = s.subrange(i, j);
    assert(a.drop_last() =~= s.subrange(i, j - 1));
}

/// Normalise a blob path: strip leading and trailing slashes, and refuse a
/// path that is then empty or holds an empty, `.` or `..` component.
pub fn normalize_blob_path(path: &str) -> (r: Result<String, RimError>)
    ensures
        r is Ok <==> valid_trimmed_path(trimmed(path@)),
        r is Ok ==> r->Ok_0@ == trimmed(path@),
        r is Err ==> r->Err_0 is InvalidRequest,
{
    let ghost s = path@;
    let n = path.unicode_len();
    let mut lo: usize = 0;
    assert(s.subrange(0, n as int) =~= s);
    while lo < n && path.get_char(lo) == '/'
        invariant
            lo <= n == s.len(),
            s == path@,
            trimmed(s) == trimmed(s.subrange(lo as int, n as int)),
        decreases n - lo,
    {
        proof {
            lemma_trimmed_drop_first(s, lo as int);
        }
        lo = lo + 1;
    }
    let mut hi: usize = n;
    while hi > lo && path.get_char(hi - 1) == '/'
        invariant
            lo <= hi <= n == s.len(),
            s == path@,
            lo < n ==> s[lo as int] != '/',
            trimmed(s) == trimmed(s.subrange(lo as int, hi as int)),
        decreases hi - lo,
    {
        proof {
            lemma_trimmed_drop_last(s, lo as int, hi as int);
        }
        hi = hi - 1;
    }
    let trimmed_str = path.substring_char(lo, hi);
    let ghost t = trimmed_str@;
    proof {
        assert(t == s.subrange(lo as int, hi as int));
        if t.len() > 0 {
            assert(t[0] == s[lo as int]);
            assert(t.last() == s[hi - 1]);
        }
        assert(trimmed(t) == t);
    }
    let m = hi - lo;
    if m == 0 {
        return Err(RimError::InvalidRequest(String::from_str("blob path cannot be empty")));
    }
    assert(t[m - 1] != '/');
    let mut i: usize = 0;
    while i < m
        invariant
            m == t.len(),
            m > 0,
            t[m - 1] != '/',
            t == trimmed_str@,
            t == trimmed(s),
            s == path@,
            forall|k: int| 0 <= k < i ==> !#[trigger] bad_component_at(t, k),
        decreases m - i,
    {
        let starts = i == 0 || trimmed_str.get_char(i - 1) == '/';
        if starts {
            let ends0 = i == m || trimmed_str.get_char(i) == '/';
            let dot = trimmed_str.get_char(i) == '.' && (m - i == 1 || trimmed_str.get_char(i + 1) == '/');
            let dotdot = m - i >= 2 && trimmed_str.get_char(i) == '.' && trimmed_str.get_char(i + 1) == '.' && (m - i == 2
                || trimmed_str.get_char(i + 2) == '/');
            if ends0 || dot || dotdot {
                proof {
                    assert(bad_component_at(t, i as int));
                    assert(!valid_trimmed_path(t));
                    assert(t == trimmed(path@));
                }
                return Err(RimError::InvalidRequest(String::from_str("invalid blob path component")));
            }
        }
        assert(!bad_component_at(t, i as int));
        i = i + 1;
    }
    assert(!bad_component_at(t, m as int));
    Ok(String::from_str(trimmed_str))
}

/// Normalise a path read from an import feed; the same rule as
/// `normalize_blob_path`.
pub fn normalize_scan_path(path: &str) -> (r: Result<String, RimError>)
    ensures
        r is Ok <==> valid_trimmed_path(trimmed(path@)),
        r is Ok ==> r->Ok_0@ == trimmed(path@),
        r is Err ==> r->Err_0 is InvalidRequest,
{
    normalize_blob_path(path)
}

} // verus!
