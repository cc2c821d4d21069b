//! Small verified operations on text, stated over sequences of characters.

use vstd::prelude::*;
use vstd::string::*;

verus! {

/// `p` is a prefix of `s`.
pub open spec fn is_prefix(p: Seq<char>, s: Seq<char>) -> bool {
    p.len() <= s.len() && s.subrange(0, p.len() as int) == p
}

/// `x` is a suffix of `s`.
pub open spec fn is_suffix(x: Seq<char>, s: Seq<char>) -> bool {
    x.len() <= s.len() && s.subrange(s.len() - x.len(), s.len() as int) == x
}

/// `s` without the suffix `x` when it ends with it, else `s` itself.
pub open spec fn without_suffix(s: Seq<char>, x: Seq<char>) -> Seq<char> {
    if is_suffix(x, s) {
        s.subrange(0, s.len() - x.len())
    } else {
        s
    }
}

/// Whether the characters of `a` from `at` on start with `b`.
pub fn matches_at(a: &str, at: usize, b: &str) -> (r: bool)
    ensures
        r == (at + b@.len() <= a@.len() && a@.subrange(at as int, at + b@.len()) == b@),
{
    let n: usize = a.unicode_len();
    let m: usize = b.unicode_len();
    if at > n || m > n - at {
        return false;
    }
    let mut i: usize = 0;
    while i < m
        invariant
            i <= m,
            at + m <= n,
            n == a@.len(),
            m == b@.len(),
            a@.subrange(at as int, at + i) == b@.subrange(0, i as int),
        decreases m - i,
    {
        if a.get_char(at + i) != b.get_char(i) {
            proof {
                let w = a@.subrange(at as int, at + m);
                if w == b@ {
                    assert(w[i as int] == b@[i as int]);
                }
            }
            return false;
        }
        proof {
            assert(a@.subrange(at as int, at + i + 1) =~= a@.subrange(at as int, at + i).push(
                a@[at + i],
            ));
            assert(b@.subrange(0, i + 1) =~= b@.subrange(0, i as int).push(b@[i as int]));
        }
        i = i + 1;
    }
    proof {
        assert(b@.subrange(0, m as int) =~= b@);
    }
    true
}

/// Equality of two texts, character by character.
pub fn same_text(a: &str, b: &str) -> (r: bool)
    ensures
        r == (a@ == b@),
{
    let n: usize = a.unicode_len();
    let m: usize = b.unicode_len();
    if n != m {
        return false;
    }
    let r = matches_at(a, 0, b);
    proof {
        assert(a@.subrange(0, n as int) =~= a@);
    }
    r
}

/// Whether `s` starts with `p`.
pub fn starts_with(s: &str, p: &str) -> (r: bool)
    ensures
        r == is_prefix(p@, s@),
{
    matches_at(s, 0, p)
}

/// Whether `s` ends with `x`.
pub fn ends_with(s: &str, x: &str) -> (r: bool)
    ensures
        r == is_suffix(x@, s@),
{
    let n: usize = s.unicode_len();
    let m: usize = x.unicode_len();
    if m > n {
        return false;
    }
    matches_at(s, n - m, x)
}

/// Removes one trailing `x` from `s`, if `s` ends with it.
pub fn strip_suffix(s: &str, x: &str) -> (r: String)
    ensures
        r@ == without_suffix(s@, x@),
{
    if ends_with(s, x) {
        let n: usize = s.unicode_len();
        let m: usize = x.unicode_len();
        s.substring_char(0, n - m).to_owned()
    } else {
        s.to_owned()
    }
}

/// The characters of an optional text.
pub open spec fn opt_text(o: Option<String>) -> Option<Seq<char>> {
    match o {
        Some(s) => Some(s@),
        None => None,
    }
}

/// The characters of each text of a list, in order.
pub open spec fn texts(v: Seq<String>) -> Seq<Seq<char>> {
    Seq::new(v.len(), |i: int| v[i]@)
}

/// The characters of each text of an optional list.
pub open spec fn opt_texts(o: Option<Vec<String>>) -> Option<Seq<Seq<char>>> {
    match o {
        Some(v) => Some(texts(v@)),
        None => None,
    }
}

/// A copy of an optional text.
pub fn copy_opt_text(o: &Option<String>) -> (r: Option<String>)
    ensures
        opt_text(r) == opt_text(*o),
{
    match o {
        Some(s) => Some(s.clone()),
        None => None,
    }
}

/// A copy of a list of texts.
pub fn copy_texts(v: &Vec<String>) -> (r: Vec<String>)
    ensures
        texts(r@) == texts(v@),
{
    let mut r: Vec<String> = Vec::new();
    let mut i: usize = 0;
    while i < v.len()
        invariant
            i <= v.len(),
            r@.len() == i,
            forall|j: int| 0 <= j < i ==> r@[j]@ == v@[j]@,
        decreases v.len() - i,
    {
        r.push(v[i].clone());
        i = i + 1;
    }
    assert(texts(r@) =~= texts(v@));
    r
}

/// A copy of an optional list of texts.
pub fn copy_opt_texts(o: &Option<Vec<String>>) -> (r: Option<Vec<String>>)
    ensures
        opt_texts(r) == opt_texts(*o),
{
    match o {
        Some(v) => Some(copy_texts(v)),
        None => None,
    }
}

/// `s` with each occurrence of `pattern` replaced by `with`: the
/// occurrences are taken from left to right and do not overlap. An empty
/// pattern occurs nowhere.
pub open spec fn replaced(s: Seq<char>, pattern: Seq<char>, with: Seq<char>) -> Seq<char>
    decreases s.len(),
{
    if s.len() == 0 {
        s
    } else if pattern.len() > 0 && is_prefix(pattern, s) {
        with + replaced(s.skip(pattern.len() as int), pattern, with)
    } else {
        seq![s[0]] + replaced(s.skip(1), pattern, with)
    }
}

/// Replaces each occurrence of `pattern` in `s` by `with`.
pub fn replace_each(s: &str, pattern: &str, with: &str) -> (r: String)
    ensures
        r@ == replaced(s@, pattern@, with@),
{
    let n: usize = s.unicode_len();
    let m: usize = pattern.unicode_len();
    let mut out: String = String::new();
    let mut i: usize = 0;
    proof {
        assert(s@.skip(0) =~= s@);
        assert(out@ + replaced(s@, pattern@, with@) =~= replaced(s@, pattern@, with@));
    }
    while i < n
        invariant
            i <= n,
            n == s@.len(),
            m == pattern@.len(),
            out@ + replaced(s@.skip(i as int), pattern@, with@) == replaced(s@, pattern@, with@),
        decreases n - i,
    {
        let ghost rest = s@.skip(i as int);
        let ghost before = out@;
        if m > 0 && matches_at(s, i, pattern) {
            proof {
                assert(rest.subrange(0, m as int) =~= s@.subrange(i as int, i + m));
                assert(rest.skip(m as int) =~= s@.skip(i + m));
                assert(before + (with@ + replaced(rest.skip(m as int), pattern@, with@)) =~= (
                before + with@) + replaced(rest.skip(m as int), pattern@, with@));
            }
            out.append(with);
            i = i + m;
        } else {
            proof {
                if m > 0 && i + m <= n {
                    assert(rest.subrange(0, m as int) =~= s@.subrange(i as int, i + m));
                }
                assert(rest.skip(1) =~= s@.skip(i + 1));
                assert(seq![rest[0]] =~= s@.subrange(i as int, i + 1));
                assert(before + (seq![rest[0]] + replaced(rest.skip(1), pattern@, with@)) =~= (
                before + seq![rest[0]]) + replaced(rest.skip(1), pattern@, with@));
            }
            out.append(s.substring_char(i, i + 1));
            i = i + 1;
        }
    }
    proof {
        assert(s@.skip(n as int) =~= Seq::<char>::empty());
        assert(out@ + Seq::<char>::empty() =~= out@);
    }
    out
}

} // verus!
