//! The list of system font families offered to the user.

use vstd::prelude::*;
use crate::instance::views;
use crate::versions::{lemma_text_lt_total, lemma_text_lt_trans, text_less, text_lt};

verus! {

/// Every name comes strictly before the next one.
pub open spec fn strictly_sorted(s: Seq<Seq<char>>) -> bool {
    forall|a: int, b: int| 0 <= a < b < s.len() ==> text_lt(#[trigger] s[a], #[trigger] s[b])
}

/// The family names, each once, in the order of their characters.
pub fn sorted_font_names(families: &Vec<String>) -> (r: Vec<String>)
    ensures
        strictly_sorted(views(r@)),
        views(r@).to_set() == views(families@).to_set(),
{
    let mut out: Vec<String> = Vec::new();
    let mut i: usize = 0;
    while i < families.len()
        invariant
            i <= families@.len(),
            strictly_sorted(views(out@)),
            views(out@).to_set() == views(families@.subrange(0, i as int)).to_set(),
        decreases families.len() - i,
    {
        let name = &families[i];
        let ghost s = views(out@);
        let mut j: usize = 0;
        while j < out.len() && text_less(out[j].as_str(), name.as_str())
            invariant
                j <= out@.len(),
                s == views(out@),
                forall|m: int| 0 <= m < j ==> text_lt(#[trigger] s[m], name@),
            decreases out.len() - j,
        {
            assert(s[j as int] == out@[j as int]@);
            j = j + 1;
        }
        assert(views(families@.subrange(0, i + 1)) =~= views(families@.subrange(0, i as int)).push(name@));
        proof {
            views(families@.subrange(0, i as int)).lemma_push_to_set_commute(name@);
        }
        if j < out.len() && out[j] == *name {
            assert(s[j as int] == name@);
            assert(views(out@).to_set() =~= views(out@).to_set().insert(name@));
        } else {
            proof {
                if j < s.len() {
                    lemma_text_lt_total(s[j as int], name@);
                }
            }
            let ghost ns = s.insert(j as int, name@);
            out.insert(j, name.clone());
            assert(views(out@) =~= ns);
            assert forall|a: int, b: int| 0 <= a < b < ns.len() implies text_lt(#[trigger] ns[a], #[trigger] ns[b]) by {
                if b < j {
                } else if b == j {
                } else if a < j {
                    assert(ns[b] == s[b - 1]);
                    if b - 1 > j {
                        lemma_text_lt_trans(name@, s[j as int], s[b - 1]);
                    }
                    lemma_text_lt_trans(ns[a], name@, ns[b]);
                } else if a == j {
                    assert(ns[b] == s[b - 1]);
                    if b - 1 > j {
                        lemma_text_lt_trans(name@, s[j as int], s[b - 1]);
                    }
                } else {
                    assert(ns[a] == s[a - 1]);
                    assert(ns[b] == s[b - 1]);
                }
            }
            assert(ns.to_set() =~= s.to_set().insert(name@)) by {
                assert forall|x: Seq<char>| ns.to_set().contains(x) <==> s.to_set().insert(name@).contains(x) by {
                    if ns.contains(x) {
                        let q = choose|q: int| 0 <= q < ns.len() && ns[q] == x;
                        if q < j {
                            assert(s[q] == x);
                        } else if q > j {
                            assert(s[q - 1] == x);
                        }
                    }
                    if s.contains(x) {
                        let q = choose|q: int| 0 <= q < s.len() && s[q] == x;
                        if q < j {
                            assert(ns[q] == x);
                        } else {
                            assert(ns[q + 1] == x);
                        }
                    }
                    if x == name@ {
                        assert(ns[j as int] == x);
                    }
                }
            }
        }
        i = i + 1;
    }
    assert(families@.subrange(0, families@.len() as int) =~= families@);
    out
}

} // verus!
