//! Typo-tolerant matching: Levenshtein distance of at most one between words.
use vstd::prelude::*;
use crate::text::{is_ws, char_is_whitespace, sub_chars};

verus! {

/// `a` and `b` are at Levenshtein distance at most one: equal, or one
/// substitution, one deletion or one insertion apart.
pub open spec fn within_one_edit(a: Seq<char>, b: Seq<char>) -> bool {
    ||| a == b
    ||| (a.len() == b.len() && exists|i: int| 0 <= i < a.len() && #[trigger] a.update(i, b[i]) == b)
    ||| (a.len() == b.len() + 1 && exists|i: int| 0 <= i < a.len() && #[trigger] a.remove(i) == b)
    ||| (b.len() == a.len() + 1 && exists|i: int| 0 <= i < b.len() && #[trigger] b.remove(i) == a)
}

/// `[a, b)` is a word of `s`: a maximal non-empty run of non-whitespace characters.
pub open spec fn is_word_span(s: Seq<char>, a: int, b: int) -> bool {
    &&& 0 <= a < b <= s.len()
    &&& forall|k: int| a <= k < b ==> !is_ws(#[trigger] s[k])
    &&& (a == 0 || is_ws(s[a - 1]))
    &&& (b == s.len() || is_ws(s[b]))
}

/// Some word of `query` is within one edit of some word of `text`.
pub open spec fn some_word_within_one_edit(text: Seq<char>, query: Seq<char>) -> bool {
    exists|qa: int, qb: int, ta: int, tb: int|
        #![trigger is_word_span(query, qa, qb), is_word_span(text, ta, tb)]
        is_word_span(query, qa, qb) && is_word_span(text, ta, tb) && within_one_edit(
            query.subrange(qa, qb),
            text.subrange(ta, tb),
        )
}

/// Index of the first position below `len` where `a` and `b` differ, or `len`.
fn first_mismatch(a: &Vec<char>, b: &Vec<char>, ao: usize, len: usize) -> (p: usize)
    requires
        ao <= 1,
        len <= b.len(),
        len + ao <= a.len(),
    ensures
        p <= len,
        forall|k: int| 0 <= k < p ==> a@[k] == b@[k],
        p < len ==> a@[p as int] != b@[p as int],
{
    let mut p: usize = 0;
    while p < len && a[p] == b[p]
        invariant
            p <= len <= b.len(),
            len + ao <= a.len(),
            forall|k: int| 0 <= k < p ==> a@[k] == b@[k],
        decreases len - p,
    {
        p = p + 1;
    }
    p
}

/// Whether `a[k + ao] == b[k]` for every `k` in `[from, len)`, and if not, a witness.
fn shifted_equal_from(a: &Vec<char>, b: &Vec<char>, ao: usize, from: usize, len: usize) -> (r: Option<usize>)
    requires
        ao <= 1,
        from <= len <= b.len(),
        len + ao <= a.len(),
    ensures
        match r {
            None => forall|k: int| from <= k < len ==> a@[k + ao] == b@[k],
            Some(q) => from <= q < len && a@[q + ao] != b@[q as int],
        },
{
    let mut k = from;
    while k < len
        invariant
            from <= k <= len <= b.len(),
            len + ao <= a.len(),
            forall|j: int| from <= j < k ==> a@[j + ao] == b@[j],
        decreases len - k,
    {
        if a[k + ao] != b[k] {
            return Some(k);
        }
        k = k + 1;
    }
    None
}

/// Whether the longer `a` becomes `b` after deleting one character.
fn one_deletion(a: &Vec<char>, b: &Vec<char>) -> (r: bool)
    requires
        a.len() == b.len() + 1,
    ensures
        r == exists|i: int| 0 <= i < a.len() && #[trigger] a@.remove(i) == b@,
{
    let n = b.len();
    let p = first_mismatch(a, b, 1, n);
    match shifted_equal_from(a, b, 1, p, n) {
        None => {
            assert(a@.remove(p as int) =~= b@);
            true
        },
        Some(q) => {
            assert forall|i: int| 0 <= i < a.len() implies #[trigger] a@.remove(i) != b@ by {
                if i <= q {
                    assert(a@.remove(i)[q as int] == a@[q + 1]);
                } else {
                    assert(a@.remove(i)[p as int] == a@[p as int]);
                }
            }
            false
        },
    }
}

/// Whether `a` becomes `b` after substituting one character (equal lengths).
fn one_substitution(a: &Vec<char>, b: &Vec<char>) -> (r: bool)
    requires
        a.len() == b.len(),
    ensures
        r == (a@ == b@ || exists|i: int| 0 <= i < a.len() && #[trigger] a@.update(i, b@[i]) == b@),
{
    let n = b.len();
    let p = first_mismatch(a, b, 0, n);
    if p == n {
        assert(a@ =~= b@);
        return true;
    }
    match shifted_equal_from(a, b, 0, p + 1, n) {
        None => {
            assert(a@.update(p as int, b@[p as int]) =~= b@);
            true
        },
        Some(q) => {
            assert forall|i: int| 0 <= i < a.len() implies #[trigger] a@.update(i, b@[i]) != b@ by {
                if i == p {
                    assert(a@.update(i, b@[i])[q as int] == a@[q as int]);
                } else {
                    assert(a@.update(i, b@[i])[p as int] == a@[p as int]);
                }
            }
            assert(a@ != b@ ) by {
                assert(a@[p as int] != b@[p as int]);
            }
            false
        },
    }
}

/// Whether `a` and `b` are at Levenshtein distance at most one.
pub fn within_one_edit_chars(a: &Vec<char>, b: &Vec<char>) -> (r: bool)
    ensures
        r == within_one_edit(a@, b@),
{
    if a.len() == b.len() {
        one_substitution(a, b)
    } else if b.len() < a.len() && a.len() - b.len() == 1 {
        one_deletion(a, b)
    } else if a.len() < b.len() && b.len() - a.len() == 1 {
        one_deletion(b, a)
    } else {
        assert(a@ != b@ ) by {
            assert(a@.len() != b@.len());
        }
        false
    }
}

/// Index of the first whitespace character at or after `from`, or the length.
fn word_end(s: &Vec<char>, from: usize) -> (e: usize)
    requires
        from <= s.len(),
    ensures
        from <= e <= s.len(),
        forall|k: int| from <= k < e ==> !is_ws(#[trigger] s@[k]),
        e == s.len() || is_ws(s@[e as int]),
{
    let mut e = from;
    while e < s.len() && !char_is_whitespace(s[e])
        invariant
            from <= e <= s.len(),
            forall|k: int| from <= k < e ==> !is_ws(#[trigger] s@[k]),
        decreases s.len() - e,
    {
        e = e + 1;
    }
    e
}

/// All word spans of `s`, in order of their start.
pub fn word_spans(s: &Vec<char>) -> (r: Vec<(usize, usize)>)
    ensures
        forall|k: int| 0 <= k < r.len() ==> is_word_span(s@, #[trigger] r@[k].0 as int, r@[k].1 as int),
        forall|a: int, b: int|
            is_word_span(s@, a, b) ==> exists|k: int| 0 <= k < r.len() && #[trigger] r@[k] == (a as usize, b as usize),
{
    let mut r: Vec<(usize, usize)> = Vec::new();
    let mut i: usize = 0;
    while i < s.len()
        invariant
            i <= s.len(),
            forall|k: int| 0 <= k < r.len() ==> is_word_span(s@, #[trigger] r@[k].0 as int, r@[k].1 as int),
            forall|a: int, b: int|
                a < i && is_word_span(s@, a, b) ==> exists|k: int| 0 <= k < r.len() && #[trigger] r@[k] == (a as usize, b as usize),
        decreases s.len() - i,
    {
        if !char_is_whitespace(s[i]) && (i == 0 || char_is_whitespace(s[i - 1])) {
            let e = word_end(s, i);
            let ghost old_r = r@;
            r.push((i, e));
            assert(is_word_span(s@, i as int, e as int));
            assert forall|a: int, b: int|
                a < i + 1 && is_word_span(s@, a, b) implies exists|k: int| 0 <= k < r.len() && #[trigger] r@[k] == (a as usize, b as usize) by {
                if a < i {
                    let k = choose|k: int| 0 <= k < old_r.len() && #[trigger] old_r[k] == (a as usize, b as usize);
                    assert(r@[k] == old_r[k]);
                } else {
                    if b < e {
                        assert(!is_ws(s@[b]));
                    } else if b > e {
                        assert(!is_ws(s@[e as int]));
                    }
                    assert(r@[r.len() - 1] == (a as usize, b as usize));
                }
            }
        } else {
            assert forall|a: int, b: int|
                a < i + 1 && is_word_span(s@, a, b) implies exists|k: int| 0 <= k < r.len() && #[trigger] r@[k] == (a as usize, b as usize) by {
                if a == i {
                    assert(!is_ws(s@[a]));
                }
            }
        }
        i = i + 1;
    }
    r
}

/// Whether some word of `query` is within one edit of some word of `text`.
pub fn some_word_within_one_edit_chars(text: &Vec<char>, query: &Vec<char>) -> (r: bool)
    ensures
        r == some_word_within_one_edit(text@, query@),
{
    let qs = word_spans(query);
    let ts = word_spans(text);
    let mut i: usize = 0;
    while i < qs.len()
        invariant
            i <= qs.len(),
            forall|k: int| 0 <= k < qs.len() ==> is_word_span(query@, #[trigger] qs@[k].0 as int, qs@[k].1 as int),
            forall|k: int| 0 <= k < ts.len() ==> is_word_span(text@, #[trigger] ts@[k].0 as int, ts@[k].1 as int),
            forall|m: int, n: int|
                0 <= m < i && 0 <= n < ts.len() ==> !within_one_edit(
                    query@.subrange(#[trigger] qs@[m].0 as int, qs@[m].1 as int),
                    text@.subrange(#[trigger] ts@[n].0 as int, ts@[n].1 as int),
                ),
        decreases qs.len() - i,
    {
        let (qa, qb) = qs[i];
        let qw = sub_chars(query, qa, qb);
        let mut j: usize = 0;
        while j < ts.len()
            invariant
                i < qs.len(),
                (qa, qb) == qs@[i as int],
                qa <= qb <= query.len(),
                qw@ == query@.subrange(qa as int, qb as int),
                j <= ts.len(),
                forall|k: int| 0 <= k < qs.len() ==> is_word_span(query@, #[trigger] qs@[k].0 as int, qs@[k].1 as int),
                forall|k: int| 0 <= k < ts.len() ==> is_word_span(text@, #[trigger] ts@[k].0 as int, ts@[k].1 as int),
                forall|m: int, n: int|
                    0 <= m < i && 0 <= n < ts.len() ==> !within_one_edit(
                        query@.subrange(#[trigger] qs@[m].0 as int, qs@[m].1 as int),
                        text@.subrange(#[trigger] ts@[n].0 as int, ts@[n].1 as int),
                    ),
                forall|n: int|
                    0 <= n < j ==> !within_one_edit(
                        query@.subrange(qa as int, qb as int),
                        text@.subrange(#[trigger] ts@[n].0 as int, ts@[n].1 as int),
                    ),
            decreases ts.len() - j,
        {
            let (ta, tb) = ts[j];
            let tw = sub_chars(text, ta, tb);
            if within_one_edit_chars(&qw, &tw) {
                assert(is_word_span(query@, qs@[i as int].0 as int, qs@[i as int].1 as int));
                assert(is_word_span(text@, ts@[j as int].0 as int, ts@[j as int].1 as int));
                return true;
            }
            j = j + 1;
        }
        i = i + 1;
    }
    assert forall|qa: int, qb: int, ta: int, tb: int|
        is_word_span(query@, qa, qb) && is_word_span(text@, ta, tb) implies !within_one_edit(
        query@.subrange(qa, qb),
        text@.subrange(ta, tb),
    ) by {
        assert(exists|k: int| 0 <= k < qs.len() && #[trigger] qs@[k] == (qa as usize, qb as usize));
        assert(exists|k: int| 0 <= k < ts.len() && #[trigger] ts@[k] == (ta as usize, tb as usize));
        let m = choose|k: int| 0 <= k < qs.len() && #[trigger] qs@[k] == (qa as usize, qb as usize);
        let n = choose|k: int| 0 <= k < ts.len() && #[trigger] ts@[k] == (ta as usize, tb as usize);
        assert(query@.len() == query.len() && text@.len() == text.len());
        assert(0 <= qa < qb <= usize::MAX && 0 <= ta < tb <= usize::MAX);
        assert(qs@[m].0 as int == qa && qs@[m].1 as int == qb);
        assert(ts@[n].0 as int == ta && ts@[n].1 as int == tb);
    }
    false
}

} // verus!
