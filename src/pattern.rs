//! Glob-like model-name patterns: `X`, `X*`, `*X` and `*X*`.
use vstd::prelude::*;
use vstd::string::*;

verus! {

/// `p` is a prefix of `s`.
pub open spec fn has_prefix(s: Seq<char>, p: Seq<char>) -> bool {
    p.len() <= s.len() && s.subrange(0, p.len() as int) == p
}

/// `p` is a suffix of `s`.
pub open spec fn has_suffix(s: Seq<char>, p: Seq<char>) -> bool {
    p.len() <= s.len() && s.subrange(s.len() - p.len(), s.len() as int) == p
}

/// `x` occurs in `s` starting at position `i`.
pub open spec fn occurs_at(s: Seq<char>, x: Seq<char>, i: int) -> bool {
    0 <= i && i + x.len() <= s.len() && s.subrange(i, i + x.len()) == x
}

/// `x` occurs somewhere in `s`.
pub open spec fn has_infix(s: Seq<char>, x: Seq<char>) -> bool {
    exists|i: int| occurs_at(s, x, i)
}

/// Whether `model` matches `pattern`:
/// `*X*` asks that the model contain `X`, `*X` that it end with `X`,
/// `X*` that it start with `X`, and a pattern without a leading or trailing
/// `*` asks for equality. There is no other wildcard and no case folding;
/// a lone `*` matches every model.
pub open spec fn matches_pattern(model: Seq<char>, pattern: Seq<char>) -> bool {
    let n = pattern.len();
    if n >= 2 && pattern[0] == '*' && pattern[n - 1] == '*' {
        has_infix(model, pattern.subrange(1, n - 1))
    } else if n >= 1 && pattern[0] == '*' {
        has_suffix(model, pattern.subrange(1, n as int))
    } else if n >= 1 && pattern[n - 1] == '*' {
        has_prefix(model, pattern.subrange(0, n - 1))
    } else {
        model == pattern
    }
}

/// The characters of `s`, one by one.
pub fn chars_of(s: &str) -> (r: Vec<char>)
    ensures
        r@ == s@,
{
    let n = s.unicode_len();
    let mut r: Vec<char> = Vec::new();
    let mut i: usize = 0;
    while i < n
        invariant
            n == s@.len(),
            i <= n,
            r@ == s@.subrange(0, i as int),
        decreases n - i,
    {
        r.push(s.get_char(i));
        i = i + 1;
    }
    assert(r@ =~= s@);
    r
}

/// Whether `x` occurs in `s` at position `i`.
fn matches_at(s: &Vec<char>, x: &Vec<char>, i: usize) -> (r: bool)
    requires
        i + x@.len() <= s@.len(),
    ensures
        r == occurs_at(s@, x@, i as int),
{
    let n = s.len();
    let mut j: usize = 0;
    while j < x.len()
        invariant
            n == s@.len(),
            i + x@.len() <= s@.len(),
            j <= x@.len(),
            forall|k: int| 0 <= k < j ==> s@[i + k] == x@[k],
        decreases x@.len() - j,
    {
        assert(i + j < s@.len());
        if s[i + j] != x[j] {
            assert(s@.subrange(i as int, i + x@.len())[j as int] != x@[j as int]);
            return false;
        }
        j = j + 1;
    }
    assert(s@.subrange(i as int, i + x@.len()) =~= x@);
    true
}

/// Whether `p` is a prefix of `s`.
pub fn starts_with_chars(s: &Vec<char>, p: &Vec<char>) -> (r: bool)
    ensures
        r == has_prefix(s@, p@),
{
    p.len() <= s.len() && matches_at(s, p, 0)
}

/// Whether `p` is a suffix of `s`.
pub fn ends_with_chars(s: &Vec<char>, p: &Vec<char>) -> (r: bool)
    ensures
        r == has_suffix(s@, p@),
{
    p.len() <= s.len() && matches_at(s, p, s.len() - p.len())
}

/// Whether `x` occurs somewhere in `s`.
pub fn contains_chars(s: &Vec<char>, x: &Vec<char>) -> (r: bool)
    ensures
        r == has_infix(s@, x@),
{
    if x.len() > s.len() {
        assert forall|i: int| !occurs_at(s@, x@, i) by {}
        return false;
    }
    let last = s.len() - x.len();
    let mut i: usize = 0;
    loop
        invariant
            last == s@.len() - x@.len(),
            i <= last,
            forall|k: int| 0 <= k < i ==> !occurs_at(s@, x@, k),
        decreases last - i,
    {
        if matches_at(s, x, i) {
            return true;
        }
        if i == last {
            assert forall|k: int| !occurs_at(s@, x@, k) by {
                if 0 <= k < i {
                }
            }
            return false;
        }
        i = i + 1;
    }
}

/// The characters of `s` from `from` up to `to`.
pub fn slice_chars(s: &Vec<char>, from: usize, to: usize) -> (r: Vec<char>)
    requires
        from <= to <= s@.len(),
    ensures
        r@ == s@.subrange(from as int, to as int),
{
    let mut r: Vec<char> = Vec::new();
    let mut i: usize = from;
    while i < to
        invariant
            from <= i <= to <= s@.len(),
            r@ == s@.subrange(from as int, i as int),
        decreases to - i,
    {
        r.push(s[i]);
        i = i + 1;
        assert(r@ =~= s@.subrange(from as int, i as int));
    }
    r
}

/// Whether two character sequences are equal.
pub fn equal_chars(a: &Vec<char>, b: &Vec<char>) -> (r: bool)
    ensures
        r == (a@ == b@),
{
    if a.len() != b.len() {
        return false;
    }
    let r = matches_at(a, b, 0);
    proof {
        if r {
            assert(a@ =~= a@.subrange(0, b@.len() as int));
        }
        if a@ == b@ {
            assert(a@.subrange(0, b@.len() as int) =~= b@);
        }
    }
    r
}

/// Whether `model` matches `pattern` (see [`matches_pattern`]).
pub fn model_matches_pattern(model: &str, pattern: &str) -> (r: bool)
    ensures
        r == matches_pattern(model@, pattern@),
{
    let m = chars_of(model);
    let p = chars_of(pattern);
    let n = p.len();
    if n >= 2 && p[0] == '*' && p[n - 1] == '*' {
        contains_chars(&m, &slice_chars(&p, 1, n - 1))
    } else if n >= 1 && p[0] == '*' {
        ends_with_chars(&m, &slice_chars(&p, 1, n))
    } else if n >= 1 && p[n - 1] == '*' {
        starts_with_chars(&m, &slice_chars(&p, 0, n - 1))
    } else {
        equal_chars(&m, &p)
    }
}

} // verus!
