//! Normalized record sets.
//!
//! Every historical data source hands its raw records over as a flat list
//! of strings; the aggregation driver only ever sees the normalized form:
//! a list with no duplicate entries, in lexicographic order. Sorting plus
//! strictness of the order make the form canonical, so output is
//! reproducible regardless of the order a source returned its records in.

use vstd::prelude::*;

use crate::order::chars_lt;
use crate::order::lemma_chars_lt_asymmetric;
use crate::order::lemma_chars_lt_total;
use crate::order::lemma_chars_lt_transitive;
use crate::order::str_lt;

verus! {

/// A sequence of strings in strictly increasing lexicographic order:
/// sorted, and therefore free of duplicates.
pub open spec fn strictly_sorted(s: Seq<Seq<char>>) -> bool {
    forall|i: int, j: int| 0 <= i < j < s.len() ==> chars_lt(s[i], s[j])
}

/// A strictly sorted sequence holds no entry twice.
pub proof fn lemma_strictly_sorted_distinct(s: Seq<Seq<char>>)
    requires
        strictly_sorted(s),
    ensures
        forall|i: int, j: int| 0 <= i < j < s.len() ==> s[i] != s[j],
{
    assert forall|i: int, j: int| 0 <= i < j < s.len() implies s[i] != s[j] by {
        lemma_chars_lt_asymmetric(s[i], s[j]);
    }
}

/// Inserting into a sequence adds exactly one element to its set of
/// entries.
proof fn lemma_insert_to_set<A>(s: Seq<A>, p: int, x: A)
    requires
        0 <= p <= s.len(),
    ensures
        s.insert(p, x).to_set() == s.to_set().insert(x),
{
    let t = s.insert(p, x);
    s.insert_ensures(p, x);
    assert forall|y: A| t.to_set().contains(y) implies s.to_set().insert(x).contains(y) by {
        let k = choose|k: int| 0 <= k < t.len() && t[k] == y;
        if k < p {
            assert(s[k] == y);
        } else if k == p {
            assert(y == x);
        } else {
            assert(s[k - 1] == y);
        }
    }
    assert forall|y: A| s.to_set().insert(x).contains(y) implies t.to_set().contains(y) by {
        if y == x {
            assert(t[p] == y);
        } else {
            let k = choose|k: int| 0 <= k < s.len() && s[k] == y;
            if k < p {
                assert(t[k] == y);
            } else {
                assert(t[k + 1] == y);
            }
        }
    }
    assert(t.to_set() =~= s.to_set().insert(x));
}

/// Place one string into an already strictly sorted list, keeping the
/// order and dropping it if it is already present.
pub fn insert_sorted(v: Vec<String>, s: String) -> (out: Vec<String>)
    requires
        strictly_sorted(v.deep_view()),
    ensures
        strictly_sorted(out.deep_view()),
        out.deep_view().to_set() == v.deep_view().to_set().insert(s@),
{
    let mut v = v;
    let ghost dv = v.deep_view();
    let mut p: usize = 0;
    while p < v.len() && str_lt(v[p].as_str(), s.as_str())
        invariant
            v.deep_view() == dv,
            strictly_sorted(dv),
            p <= v.len(),
            v.len() == dv.len(),
            forall|j: int| 0 <= j < p ==> chars_lt(dv[j], s@),
        decreases v.len() - p,
    {
        proof {
            assert(dv[p as int] == v@[p as int]@);
        }
        p = p + 1;
    }
    proof {
        if p < v.len() {
            assert(dv[p as int] == v@[p as int]@);
        }
    }
    if p < v.len() && !str_lt(s.as_str(), v[p].as_str()) {
        // Neither of the two orders holds, so the entry is already there.
        proof {
            lemma_chars_lt_total(s@, dv[p as int]);
            assert(dv.contains(s@)) by {
                assert(dv[p as int] == s@);
            }
            assert(dv.to_set().insert(s@) =~= dv.to_set());
        }
        return v;
    }
    let ghost ov = v@;
    v.insert(p, s);
    proof {
        let nv = dv.insert(p as int, s@);
        ov.insert_ensures(p as int, v@[p as int]);
        dv.insert_ensures(p as int, s@);
        assert forall|k: int| 0 <= k < v.deep_view().len() implies v.deep_view()[k] == nv[k] by {
            assert(v.deep_view()[k] == v@[k]@);
            if k < p {
                assert(v@[k] == ov[k]);
            } else if k > p {
                assert(v@[k] == ov[k - 1]);
            }
        }
        assert(v.deep_view() =~= nv);
        assert forall|i: int, j: int| 0 <= i < j < nv.len() implies chars_lt(nv[i], nv[j]) by {
            if j < p {
                assert(chars_lt(dv[i], dv[j]));
            } else if j == p {
                assert(chars_lt(dv[i], s@));
            } else {
                assert(chars_lt(s@, dv[j - 1])) by {
                    if p < j - 1 {
                        lemma_chars_lt_transitive(s@, dv[p as int], dv[j - 1]);
                    }
                }
                if i < p {
                    lemma_chars_lt_transitive(dv[i], s@, dv[j - 1]);
                } else if i > p {
                    assert(chars_lt(dv[i - 1], dv[j - 1]));
                }
            }
        }
        lemma_insert_to_set(dv, p as int, s@);
    }
    v
}

/// Normalize a source's records: the result holds exactly the entries of
/// the input, each once, in lexicographic order — whatever order and
/// duplication the raw payload had.
pub fn normalize(records: Vec<String>) -> (out: Vec<String>)
    ensures
        strictly_sorted(out.deep_view()),
        forall|i: int, j: int|
            0 <= i < j < out.deep_view().len() ==> out.deep_view()[i] != out.deep_view()[j],
        out.deep_view().to_set() == records.deep_view().to_set(),
{
    let ghost rdv = records.deep_view();
    let mut out: Vec<String> = Vec::new();
    let mut i: usize = 0;
    while i < records.len()
        invariant
            i <= records.len(),
            records.deep_view() == rdv,
            records.len() == rdv.len(),
            strictly_sorted(out.deep_view()),
            out.deep_view().to_set() == rdv.take(i as int).to_set(),
        decreases records.len() - i,
    {
        let s = records[i].clone();
        proof {
            assert(rdv[i as int] == records@[i as int]@);
        }
        out = insert_sorted(out, s);
        proof {
            lemma_insert_to_set(rdv.take(i as int), i as int, rdv[i as int]);
            rdv.take(i as int).insert_ensures(i as int, rdv[i as int]);
            assert(rdv.take(i as int + 1) =~= rdv.take(i as int).insert(i as int, rdv[i as int]));
            assert(out.deep_view().to_set() == rdv.take(i as int + 1).to_set());
        }
        i = i + 1;
    }
    proof {
        assert(rdv.take(records.len() as int) =~= rdv);
        lemma_strictly_sorted_distinct(out.deep_view());
    }
    out
}

/// Two strictly sorted lists with the same entries are the same list: the
/// normalized form is canonical, so it does not depend on the order or
/// duplication of the raw records.
pub proof fn lemma_sorted_set_canonical(a: Seq<Seq<char>>, b: Seq<Seq<char>>)
    requires
        strictly_sorted(a),
        strictly_sorted(b),
        a.to_set() == b.to_set(),
    ensures
        a == b,
    decreases a.len(),
{
    if a.len() == 0 {
        if b.len() > 0 {
            assert(b.to_set().contains(b[0]));
            assert(a.contains(b[0]));
        }
        assert(a =~= b);
    } else if b.len() == 0 {
        assert(a.to_set().contains(a[0]));
        assert(b.contains(a[0]));
    } else {
        // The heads are both the least entry of the common set, so they
        // are equal.
        assert(a.to_set().contains(a[0]));
        assert(b.contains(a[0]));
        let i = choose|i: int| 0 <= i < b.len() && b[i] == a[0];
        assert(b.to_set().contains(b[0]));
        assert(a.contains(b[0]));
        let j = choose|j: int| 0 <= j < a.len() && a[j] == b[0];
        if i > 0 {
            assert(chars_lt(b[0], a[0]));
            if j > 0 {
                assert(chars_lt(a[0], a[j]));
                lemma_chars_lt_transitive(a[0], b[0], a[0]);
                lemma_chars_lt_asymmetric(a[0], a[0]);
            } else {
                lemma_chars_lt_asymmetric(b[0], a[0]);
            }
        }
        assert(a[0] == b[0]);
        // The heads do not appear in the tails, so the tails carry the
        // same set and the induction goes through.
        let at = a.drop_first();
        let bt = b.drop_first();
        assert(strictly_sorted(at)) by {
            assert forall|x: int, y: int| 0 <= x < y < at.len() implies chars_lt(at[x], at[y]) by {
                assert(at[x] == a[x + 1]);
                assert(at[y] == a[y + 1]);
            }
        }
        assert(strictly_sorted(bt)) by {
            assert forall|x: int, y: int| 0 <= x < y < bt.len() implies chars_lt(bt[x], bt[y]) by {
                assert(bt[x] == b[x + 1]);
                assert(bt[y] == b[y + 1]);
            }
        }
        assert(at.to_set() =~= bt.to_set()) by {
            assert forall|y: Seq<char>| at.to_set().contains(y) implies bt.to_set().contains(y) by {
                let k = choose|k: int| 0 <= k < at.len() && at[k] == y;
                assert(a[k + 1] == y);
                assert(a.to_set().contains(y)) by {
                    assert(a[k + 1] == y);
                }
                assert(b.contains(y));
                let m = choose|m: int| 0 <= m < b.len() && b[m] == y;
                if m == 0 {
                    assert(chars_lt(a[0], a[k + 1]));
                    lemma_chars_lt_asymmetric(a[0], a[k + 1]);
                }
                assert(bt[m - 1] == y);
            }
            assert forall|y: Seq<char>| bt.to_set().contains(y) implies at.to_set().contains(y) by {
                let k = choose|k: int| 0 <= k < bt.len() && bt[k] == y;
                assert(b[k + 1] == y);
                assert(b.to_set().contains(y)) by {
                    assert(b[k + 1] == y);
                }
                assert(a.contains(y));
                let m = choose|m: int| 0 <= m < a.len() && a[m] == y;
                if m == 0 {
                    assert(chars_lt(b[0], b[k + 1]));
                    lemma_chars_lt_asymmetric(b[0], b[k + 1]);
                }
                assert(at[m - 1] == y);
            }
        }
        lemma_sorted_set_canonical(at, bt);
        assert forall|k: int| 0 <= k < a.len() implies a[k] == b[k] by {
            if k > 0 {
                assert(a[k] == at[k - 1]);
                assert(b[k] == bt[k - 1]);
            }
        }
        assert(a =~= b);
    }
}

} // verus!
