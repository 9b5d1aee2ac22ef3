//! Field names as a set, written down as a list: every name once, in the
//! order of [`text_before`].
use crate::huml::text_order::{
    compare_text, lemma_text_asymmetric, lemma_text_irreflexive, lemma_text_transitive,
    text_before, TextOrder,
};
use vstd::prelude::*;

verus! {

/// The texts that a list of strings holds.
pub open spec fn texts(names: Seq<String>) -> Seq<Seq<char>> {
    names.map_values(|name: String| name@)
}

/// Each entry comes strictly before every later one: the list is sorted and
/// holds nothing twice.
pub open spec fn strictly_sorted(listing: Seq<Seq<char>>) -> bool {
    forall|i: int, j: int| 0 <= i < j < listing.len() ==> text_before(listing[i], listing[j])
}

/// `listing` is the sorted, duplicate-free list of the texts that occur in
/// `source`.
pub open spec fn is_sorted_union(listing: Seq<Seq<char>>, source: Seq<Seq<char>>) -> bool {
    &&& strictly_sorted(listing)
    &&& forall|t: Seq<char>| listing.contains(t) <==> source.contains(t)
}

/// Puts `name` at its place in a sorted, duplicate-free list, unless the list
/// holds it already.
pub fn insert_sorted(list: &mut Vec<String>, name: String)
    requires
        strictly_sorted(texts(old(list)@)),
    ensures
        strictly_sorted(texts(final(list)@)),
        forall|t: Seq<char>|
            texts(final(list)@).contains(t) <==> (texts(old(list)@).contains(t) || t == name@),
{
    let ghost before = texts(list@);
    let mut i: usize = 0;
    while i < list.len()
        invariant
            i <= list@.len(),
            *list == *old(list),
            before == texts(list@),
            strictly_sorted(before),
            forall|j: int| 0 <= j < i ==> text_before(#[trigger] before[j], name@),
        ensures
            i < list@.len() ==> text_before(name@, before[i as int]),
        decreases list@.len() - i,
    {
        match compare_text(list[i].as_str(), name.as_str()) {
            TextOrder::Before => {},
            TextOrder::Same => {
                proof {
                    assert(before[i as int] == name@);
                    assert(before.contains(name@));
                }
                return ;
            },
            TextOrder::After => {
                break ;
            },
        }
        i += 1;
    }
    proof {
        assert forall|k: int| i <= k < before.len() implies text_before(
            name@,
            #[trigger] before[k],
        ) by {
            if k > i {
                lemma_text_transitive(name@, before[i as int], before[k]);
            }
        }
    }
    list.insert(i, name);
    proof {
        let after = texts(list@);
        assert(after =~= before.insert(i as int, name@));
        assert forall|p: int, q: int| 0 <= p < q < after.len() implies text_before(
            after[p],
            after[q],
        ) by {
            if q < i {
            } else if q == i {
            } else if p < i {
                lemma_text_transitive(before[p], name@, before[q - 1]);
            } else if p == i {
            } else {
            }
        }
        assert forall|t: Seq<char>| after.contains(t) <==> (before.contains(t) || t == name@) by {
            if after.contains(t) {
                let p = choose|p: int| 0 <= p < after.len() && after[p] == t;
                if p < i {
                    assert(before[p] == t);
                } else if p > i {
                    assert(before[p - 1] == t);
                }
            }
            if before.contains(t) {
                let p = choose|p: int| 0 <= p < before.len() && before[p] == t;
                if p < i {
                    assert(after[p] == t);
                } else {
                    assert(after[p + 1] == t);
                }
            }
            if t == name@ {
                assert(after[i as int] == t);
            }
        }
    }
}

/// The sorted, duplicate-free list of the names in `names`.
pub fn sorted_distinct(names: &[String]) -> (listing: Vec<String>)
    ensures
        is_sorted_union(texts(listing@), texts(names@)),
{
    let mut listing: Vec<String> = Vec::new();
    let mut i: usize = 0;
    while i < names.len()
        invariant
            i <= names@.len(),
            is_sorted_union(texts(listing@), texts(names@.take(i as int))),
        decreases names@.len() - i,
    {
        let ghost done = texts(names@.take(i as int));
        let ghost next = texts(names@.take(i + 1));
        let name = names[i].clone();
        insert_sorted(&mut listing, name);
        proof {
            assert(next =~= done.push(names@[i as int]@));
            assert forall|t: Seq<char>| next.contains(t) <==> (done.contains(t) || t
                == names@[i as int]@) by {
                if next.contains(t) {
                    let p = choose|p: int| 0 <= p < next.len() && next[p] == t;
                    if p < i {
                        assert(done[p] == t);
                    }
                }
                if done.contains(t) {
                    let p = choose|p: int| 0 <= p < done.len() && done[p] == t;
                    assert(next[p] == t);
                }
                if t == names@[i as int]@ {
                    assert(next[i as int] == t);
                }
            }
        }
        i += 1;
    }
    proof {
        assert(names@.take(i as int) =~= names@);
    }
    listing
}

/// Two sorted, duplicate-free lists that hold the same texts are the same
/// list.
pub proof fn lemma_sorted_listing_unique(a: Seq<Seq<char>>, b: Seq<Seq<char>>)
    requires
        strictly_sorted(a),
        strictly_sorted(b),
        forall|t: Seq<char>| a.contains(t) <==> b.contains(t),
    ensures
        a == b,
    decreases a.len(),
{
    if a.len() == 0 {
        if b.len() > 0 {
            assert(b.contains(b[0]));
        }
        assert(a =~= b);
    } else {
        assert(a.contains(a.last()));
        let la = a.last();
        let lb = b.last();
        assert(b.contains(lb));
        let q = choose|q: int| 0 <= q < b.len() && b[q] == la;
        let p = choose|p: int| 0 <= p < a.len() && a[p] == lb;
        lemma_text_asymmetric(la, lb);
        assert(la == lb);
        let a1 = a.drop_last();
        let b1 = b.drop_last();
        assert forall|t: Seq<char>| a1.contains(t) <==> b1.contains(t) by {
            lemma_text_irreflexive(la);
            if a1.contains(t) {
                let i = choose|i: int| 0 <= i < a1.len() && a1[i] == t;
                assert(text_before(a[i], la));
                assert(a.contains(t));
                let j = choose|j: int| 0 <= j < b.len() && b[j] == t;
                assert(b1[j] == t);
            }
            if b1.contains(t) {
                let j = choose|j: int| 0 <= j < b1.len() && b1[j] == t;
                assert(text_before(b[j], lb));
                assert(b.contains(t));
                let i = choose|i: int| 0 <= i < a.len() && a[i] == t;
                assert(a1[i] == t);
            }
        }
        lemma_sorted_listing_unique(a1, b1);
        assert(a =~= a1.push(la));
        assert(b =~= b1.push(lb));
    }
}

/// The sorted, duplicate-free list of the texts of a source is determined by
/// the source.
pub proof fn lemma_sorted_union_unique(
    a: Seq<Seq<char>>,
    b: Seq<Seq<char>>,
    source: Seq<Seq<char>>,
)
    requires
        is_sorted_union(a, source),
        is_sorted_union(b, source),
    ensures
        a == b,
{
    lemma_sorted_listing_unique(a, b);
}

} // verus!
