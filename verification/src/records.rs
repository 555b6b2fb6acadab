//! Per-source record processing.
//!
//! Each certificate-transparency source delivers raw names that still
//! have to be filtered to the query domain, deduplicated and sorted
//! before they become a normalized record set. The crt.sh entries
//! additionally pack several subject names into one newline-delimited
//! field, each of which is split out and trimmed first.

use vstd::prelude::*;

use crate::normalize::insert_sorted;
use crate::normalize::strictly_sorted;
use crate::text::is_substring_of;
use crate::text::split_chars;
use crate::text::split_on_char;
use crate::text::str_contains;
use crate::text::trim_spaces;
use crate::text::trimmed;

verus! {

/// The names among `names` that mention the query domain.
pub open spec fn matching_set(names: Seq<Seq<char>>, domain: Seq<char>) -> Set<Seq<char>> {
    Set::new(|x: Seq<char>| names.contains(x) && is_substring_of(domain, x))
}

/// Filter one source's DNS names to those mentioning the query domain,
/// deduplicate, and sort: the result holds exactly the matching names,
/// each once, in lexicographic order.
pub fn process_cert_names(names: &Vec<String>, domain: &str) -> (out: Vec<String>)
    ensures
        strictly_sorted(out.deep_view()),
        out.deep_view().to_set() == matching_set(names.deep_view(), domain@),
{
    broadcast use vstd::seq_lib::lemma_seq_contains_after_push;

    let ghost ndv = names.deep_view();
    let mut out: Vec<String> = Vec::new();
    let mut i: usize = 0;
    proof {
        assert(out.deep_view().to_set() =~= matching_set(ndv.take(0), domain@)) by {
            assert(ndv.take(0) =~= Seq::<Seq<char>>::empty());
        }
    }
    while i < names.len()
        invariant
            i <= names.len(),
            ndv == names.deep_view(),
            ndv.len() == names.len(),
            strictly_sorted(out.deep_view()),
            out.deep_view().to_set() == matching_set(ndv.take(i as int), domain@),
        decreases names.len() - i,
    {
        let ghost pre = out.deep_view().to_set();
        proof {
            assert(ndv[i as int] == names@[i as int]@);
        }
        let matched = str_contains(names[i].as_str(), domain);
        if matched {
            let name = names[i].clone();
            out = insert_sorted(out, name);
        }
        proof {
            let v = ndv[i as int];
            assert(ndv.take(i as int + 1) =~= ndv.take(i as int).push(v));
            assert(out.deep_view().to_set() =~= matching_set(ndv.take(i as int + 1), domain@)) by {
                assert forall|x: Seq<char>| #[trigger]
                    out.deep_view().to_set().contains(x) implies matching_set(
                    ndv.take(i as int + 1),
                    domain@,
                ).contains(x) by {
                    vstd::seq_lib::lemma_seq_contains_after_push(ndv.take(i as int), v, x);
                    if matched && x == v {
                        assert(is_substring_of(domain@, v));
                        assert(ndv.take(i as int).push(v).contains(x));
                    } else {
                        assert(pre.contains(x));
                        assert(matching_set(ndv.take(i as int), domain@).contains(x));
                        assert(ndv.take(i as int).contains(x));
                        assert(ndv.take(i as int).push(v).contains(x));
                    }
                }
                assert forall|x: Seq<char>|
                    matching_set(ndv.take(i as int + 1), domain@).contains(
                        x,
                    ) implies #[trigger] out.deep_view().to_set().contains(x) by {
                    vstd::seq_lib::lemma_seq_contains_after_push(ndv.take(i as int), v, x);
                    assert(ndv.take(i as int).push(v).contains(x));
                    if x == v {
                        assert(matched);
                    } else {
                        assert(ndv.take(i as int).contains(x));
                        assert(matching_set(ndv.take(i as int), domain@).contains(x));
                        assert(pre.contains(x));
                    }
                }
            }
        }
        i = i + 1;
    }
    proof {
        assert(ndv.take(names.len() as int) =~= ndv);
    }
    out
}

/// Every whitespace-trimmed, newline-delimited piece of any of the
/// entries that mentions the query domain.
pub open spec fn crtsh_name_set(entries: Seq<Seq<char>>, domain: Seq<char>) -> Set<Seq<char>> {
    Set::new(
        |x: Seq<char>|
            is_substring_of(domain, x) && exists|i: int, j: int|
                0 <= i < entries.len() && 0 <= j < split_chars(entries[i], '\n').len() && x
                    == trimmed(#[trigger] split_chars(entries[i], '\n')[j]),
    )
}

/// crt.sh: each certificate entry packs its subject names into one
/// newline-delimited field. Split them out, trim them, keep those that
/// mention the query domain, deduplicate, sort: the result holds exactly
/// [`crtsh_name_set`], in lexicographic order.
pub fn process_crtsh_entries(entries: &Vec<String>, domain: &str) -> (out: Vec<String>)
    ensures
        strictly_sorted(out.deep_view()),
        out.deep_view().to_set() == crtsh_name_set(entries.deep_view(), domain@),
{
    let ghost edv = entries.deep_view();
    let mut out: Vec<String> = Vec::new();
    let mut i: usize = 0;
    proof {
        assert(out.deep_view().to_set() =~= crtsh_name_set(edv.take(0), domain@)) by {
            assert forall|x: Seq<char>|
                crtsh_name_set(edv.take(0), domain@).contains(x) implies false by {
                let (a, b): (int, int) = choose|a: int, b: int|
                    0 <= a < edv.take(0).len() && 0 <= b < split_chars(
                        edv.take(0)[a],
                        '\n',
                    ).len() && x == trimmed(#[trigger] split_chars(edv.take(0)[a], '\n')[b]);
            }
        }
    }
    while i < entries.len()
        invariant
            i <= entries.len(),
            edv == entries.deep_view(),
            edv.len() == entries.len(),
            strictly_sorted(out.deep_view()),
            out.deep_view().to_set() == crtsh_name_set(edv.take(i as int), domain@),
        decreases entries.len() - i,
    {
        proof {
            assert(edv[i as int] == entries@[i as int]@);
        }
        let parts = split_on_char(entries[i].as_str(), '\n');
        let ghost pieces = split_chars(edv[i as int], '\n');
        let mut j: usize = 0;
        while j < parts.len()
            invariant
                i < entries.len(),
                j <= parts.len(),
                edv == entries.deep_view(),
                edv.len() == entries.len(),
                parts.deep_view() == pieces,
                pieces == split_chars(edv[i as int], '\n'),
                parts.deep_view().len() == parts.len(),
                strictly_sorted(out.deep_view()),
                forall|x: Seq<char>|
                    #[trigger] out.deep_view().to_set().contains(x) <==> (crtsh_name_set(
                        edv.take(i as int),
                        domain@,
                    ).contains(x) || (is_substring_of(domain@, x) && exists|b: int|
                        0 <= b < j && x == trimmed(#[trigger] pieces[b]))),
            decreases parts.len() - j,
        {
            let ghost pre = out.deep_view().to_set();
            proof {
                assert(parts.deep_view()[j as int] == parts@[j as int]@);
            }
            let t = trim_spaces(parts[j].as_str());
            let matched = str_contains(t.as_str(), domain);
            let ghost tv = t@;
            if matched {
                out = insert_sorted(out, t);
            }
            proof {
                assert(tv == trimmed(pieces[j as int]));
                if matched {
                    assert forall|x: Seq<char>| #[trigger]
                        out.deep_view().to_set().contains(x) implies (crtsh_name_set(
                        edv.take(i as int),
                        domain@,
                    ).contains(x) || (is_substring_of(domain@, x) && exists|b: int|
                        0 <= b < j + 1 && x == trimmed(#[trigger] pieces[b]))) by {
                        if x == tv {
                            assert(x == trimmed(pieces[j as int]));
                        }
                    }
                    assert forall|x: Seq<char>|
                        (crtsh_name_set(edv.take(i as int), domain@).contains(x) || (
                        is_substring_of(domain@, x) && exists|b: int|
                            0 <= b < j + 1 && x == trimmed(
                                #[trigger] pieces[b],
                            ))) implies #[trigger] out.deep_view().to_set().contains(x) by {
                        if !pre.contains(x) && x != tv {
                            let b = choose|b: int|
                                0 <= b < j + 1 && x == trimmed(#[trigger] pieces[b]);
                            assert(b < j);
                            assert(pre.contains(x));
                        }
                    }
                } else {
                    assert forall|x: Seq<char>|
                        (crtsh_name_set(edv.take(i as int), domain@).contains(x) || (
                        is_substring_of(domain@, x) && exists|b: int|
                            0 <= b < j + 1 && x == trimmed(
                                #[trigger] pieces[b],
                            ))) implies #[trigger] out.deep_view().to_set().contains(x) by {
                        if !pre.contains(x) {
                            let b = choose|b: int|
                                0 <= b < j + 1 && x == trimmed(#[trigger] pieces[b]);
                            if b == j {
                                assert(x == tv);
                                assert(is_substring_of(domain@, tv));
                                assert(false);
                            }
                            assert(pre.contains(x));
                        }
                    }
                }
            }
            j = j + 1;
        }
        proof {
            assert(edv.take(i as int + 1) =~= edv.take(i as int).push(edv[i as int]));
            assert(out.deep_view().to_set() =~= crtsh_name_set(edv.take(i as int + 1), domain@))
                by {
                assert forall|x: Seq<char>| #[trigger]
                    out.deep_view().to_set().contains(x) implies crtsh_name_set(
                    edv.take(i as int + 1),
                    domain@,
                ).contains(x) by {
                    if crtsh_name_set(edv.take(i as int), domain@).contains(x) {
                        let (a, b): (int, int) = choose|a: int, b: int|
                            0 <= a < edv.take(i as int).len() && 0 <= b < split_chars(
                                edv.take(i as int)[a],
                                '\n',
                            ).len() && x == trimmed(
                                #[trigger] split_chars(edv.take(i as int)[a], '\n')[b],
                            );
                        assert(edv.take(i as int + 1)[a] == edv.take(i as int)[a]);
                        assert(x == trimmed(split_chars(edv.take(i as int + 1)[a], '\n')[b]));
                    } else {
                        let b = choose|b: int|
                            0 <= b < parts.deep_view().len() && x == trimmed(#[trigger] pieces[b]);
                        assert(edv.take(i as int + 1)[i as int] == edv[i as int]);
                        assert(x == trimmed(split_chars(edv.take(i as int + 1)[i as int], '\n')[b]));
                    }
                }
                assert forall|x: Seq<char>|
                    crtsh_name_set(edv.take(i as int + 1), domain@).contains(
                        x,
                    ) implies #[trigger] out.deep_view().to_set().contains(x) by {
                    let (a, b): (int, int) = choose|a: int, b: int|
                        0 <= a < edv.take(i as int + 1).len() && 0 <= b < split_chars(
                            edv.take(i as int + 1)[a],
                            '\n',
                        ).len() && x == trimmed(
                            #[trigger] split_chars(edv.take(i as int + 1)[a], '\n')[b],
                        );
                    if a < i {
                        assert(edv.take(i as int + 1)[a] == edv.take(i as int)[a]);
                        assert(x == trimmed(split_chars(edv.take(i as int)[a], '\n')[b]));
                        assert(crtsh_name_set(edv.take(i as int), domain@).contains(x));
                    } else {
                        assert(edv.take(i as int + 1)[a] == edv[i as int]);
                        assert(x == trimmed(pieces[b]));
                    }
                }
            }
        }
        i = i + 1;
    }
    proof {
        assert(edv.take(entries.len() as int) =~= edv);
    }
    out
}

} // verus!
