//! Character-sequence utilities the rest of the crate builds on:
//! substring matching, prefix/suffix tests, first-occurrence search and
//! non-overlapping substring replacement, each specified over `Seq<char>`.

use vstd::prelude::*;
use vstd::string::*;

verus! {

/// `p` occurs in `t` starting at position `i`.
pub open spec fn match_at(t: Seq<char>, p: Seq<char>, i: int) -> bool {
    0 <= i && i + p.len() <= t.len() && t.subrange(i, i + p.len() as int) == p
}

/// `p` is a prefix of `s`.
pub open spec fn has_prefix_spec(s: Seq<char>, p: Seq<char>) -> bool {
    p.len() <= s.len() && s.subrange(0, p.len() as int) == p
}

/// `p` is a suffix of `s`.
pub open spec fn has_suffix_spec(s: Seq<char>, p: Seq<char>) -> bool {
    p.len() <= s.len() && s.subrange(s.len() - p.len(), s.len() as int) == p
}

/// Matching `p` inside `t` at position `i` is the same as matching it at the
/// front of the tail of `t` that starts at `i`.
pub proof fn lemma_match_at_skip(t: Seq<char>, p: Seq<char>, i: int)
    requires
        0 <= i <= t.len(),
    ensures
        match_at(t, p, i) == match_at(t.skip(i), p, 0),
{
    if i + p.len() <= t.len() {
        assert(t.skip(i).subrange(0, p.len() as int) =~= t.subrange(i, i + p.len() as int));
    }
}

/// Matching `p` inside `t` at position `i` is the same as matching it in
/// the tail of `t` that starts at `k`, shifted by `k`.
pub proof fn lemma_match_at_shift(t: Seq<char>, p: Seq<char>, k: int, i: int)
    requires
        0 <= k <= t.len(),
        k <= i,
    ensures
        match_at(t, p, i) == match_at(t.skip(k), p, i - k),
{
    if i + p.len() <= t.len() {
        assert(t.skip(k).subrange(i - k, i - k + p.len() as int) =~= t.subrange(
            i,
            i + p.len() as int,
        ));
    }
}

/// Relies on std's `String::push`: it appends the one character to the end
/// of the string. `vstd` specifies appending a `&str` but not a `char`.
#[verifier::external_body]
pub fn push_char(s: &mut String, c: char)
    ensures
        final(s)@ == old(s)@.push(c),
{
    s.push(c)
}

/// Character-by-character string equality.
pub fn str_eq(a: &str, b: &str) -> (r: bool)
    ensures
        r == (a@ == b@),
{
    let an = a.unicode_len();
    let bn = b.unicode_len();
    if an != bn {
        return false;
    }
    let mut i: usize = 0;
    while i < an
        invariant
            i <= an,
            an == a@.len(),
            an == b@.len(),
            forall|j: int| 0 <= j < i ==> a@[j] == b@[j],
        decreases an - i,
    {
        if a.get_char(i) != b.get_char(i) {
            return false;
        }
        i += 1;
    }
    proof {
        assert(a@ =~= b@);
    }
    true
}

/// Does `p` occur in `s` at position `i`?
pub fn match_at_exec(s: &str, p: &str, i: usize) -> (r: bool)
    ensures
        r == match_at(s@, p@, i as int),
{
    let sn = s.unicode_len();
    let pn = p.unicode_len();
    if pn > sn || i > sn - pn {
        return false;
    }
    let mut j: usize = 0;
    while j < pn
        invariant
            j <= pn,
            sn == s@.len(),
            pn == p@.len(),
            i + pn <= sn,
            forall|k: int| 0 <= k < j ==> s@[i + k] == p@[k],
        decreases pn - j,
    {
        if s.get_char(i + j) != p.get_char(j) {
            proof {
                assert(s@.subrange(i as int, i + pn as int)[j as int] == s@[i + j]);
            }
            return false;
        }
        j += 1;
    }
    proof {
        assert(s@.subrange(i as int, i + pn as int) =~= p@);
    }
    true
}

/// Does `s` begin with `p`?
pub fn has_prefix(s: &str, p: &str) -> (r: bool)
    ensures
        r == has_prefix_spec(s@, p@),
{
    let r = match_at_exec(s, p, 0);
    proof {
        assert(match_at(s@, p@, 0) == has_prefix_spec(s@, p@));
    }
    r
}

/// Does `s` end with `p`?
pub fn has_suffix(s: &str, p: &str) -> (r: bool)
    ensures
        r == has_suffix_spec(s@, p@),
{
    let sn = s.unicode_len();
    let pn = p.unicode_len();
    if pn > sn {
        return false;
    }
    let r = match_at_exec(s, p, sn - pn);
    proof {
        assert(match_at(s@, p@, s@.len() - p@.len()) == has_suffix_spec(s@, p@));
    }
    r
}

/// Position of the first occurrence of `p` in `s`, if any.
pub fn find_first(s: &str, p: &str) -> (r: Option<usize>)
    requires
        p@.len() > 0,
    ensures
        (match r {
            Some(i) => match_at(s@, p@, i as int) && (forall|j: int|
                0 <= j < i ==> !match_at(s@, p@, j)),
            None => forall|j: int| !match_at(s@, p@, j),
        }),
{
    let n = s.unicode_len();
    let mut i: usize = 0;
    while i < n
        invariant
            i <= n,
            n == s@.len(),
            p@.len() > 0,
            forall|j: int| 0 <= j < i ==> !match_at(s@, p@, j),
        decreases n - i,
    {
        if match_at_exec(s, p, i) {
            return Some(i);
        }
        i += 1;
    }
    proof {
        assert(forall|j: int| j >= n ==> !match_at(s@, p@, j));
    }
    None
}

/// Every occurrence of `p` in `t` replaced by `r`, scanning left to right
/// without overlap, the way std's `str::replace` substitutes.
pub open spec fn replace_all(t: Seq<char>, p: Seq<char>, r: Seq<char>) -> Seq<char>
    decreases t.len(),
{
    if p.len() == 0 || t.len() == 0 {
        t
    } else if match_at(t, p, 0) {
        r + replace_all(t.skip(p.len() as int), p, r)
    } else {
        seq![t[0]] + replace_all(t.skip(1), p, r)
    }
}

/// Replace every occurrence of `p` in `t` by `rep`.
pub fn replace_all_str(t: &str, p: &str, rep: &str) -> (out: String)
    requires
        p@.len() > 0,
    ensures
        out@ == replace_all(t@, p@, rep@),
{
    let n = t.unicode_len();
    let pn = p.unicode_len();
    let mut out = String::new();
    let mut i: usize = 0;
    proof {
        assert(t@.skip(0) =~= t@);
        assert(Seq::<char>::empty() + replace_all(t@, p@, rep@) =~= replace_all(t@, p@, rep@));
    }
    while i < n
        invariant
            i <= n,
            n == t@.len(),
            pn == p@.len(),
            p@.len() > 0,
            replace_all(t@, p@, rep@) == out@ + replace_all(t@.skip(i as int), p@, rep@),
        decreases n - i,
    {
        proof {
            lemma_match_at_skip(t@, p@, i as int);
        }
        let ghost prev = out@;
        let ghost tail = t@.skip(i as int);
        if match_at_exec(t, p, i) {
            out.append(rep);
            proof {
                assert(tail.skip(pn as int) =~= t@.skip(i + pn));
                assert(replace_all(tail, p@, rep@) == rep@ + replace_all(
                    t@.skip(i + pn),
                    p@,
                    rep@,
                ));
                assert(prev + replace_all(tail, p@, rep@) == out@ + replace_all(
                    t@.skip(i + pn),
                    p@,
                    rep@,
                )) by {
                    assert(prev + (rep@ + replace_all(t@.skip(i + pn), p@, rep@)) =~= (prev + rep@)
                        + replace_all(t@.skip(i + pn), p@, rep@));
                }
            }
            i += pn;
        } else {
            let c = t.get_char(i);
            push_char(&mut out, c);
            proof {
                assert(tail[0] == t@[i as int]);
                assert(tail.skip(1) =~= t@.skip(i + 1));
                assert(replace_all(tail, p@, rep@) == seq![t@[i as int]] + replace_all(
                    t@.skip(i + 1),
                    p@,
                    rep@,
                ));
                assert(prev + replace_all(tail, p@, rep@) == out@ + replace_all(
                    t@.skip(i + 1),
                    p@,
                    rep@,
                )) by {
                    assert(prev.push(c) =~= prev + seq![c]);
                    assert(prev + (seq![c] + replace_all(t@.skip(i + 1), p@, rep@)) =~= (prev
                        + seq![c]) + replace_all(t@.skip(i + 1), p@, rep@));
                }
            }
            i += 1;
        }
    }
    proof {
        assert(t@.skip(n as int) =~= Seq::<char>::empty());
        assert(out@ + replace_all(t@.skip(n as int), p@, rep@) =~= out@);
    }
    out
}

} // verus!
