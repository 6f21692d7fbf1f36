//! The tags of a directory in the order in which a file lists them.

use vstd::prelude::*;

use std::collections::BTreeMap;
use vstd::std_specs::cmp::OrdSpec;
use vstd::std_specs::iter::IteratorSpec;

verus! {

broadcast use {vstd::std_specs::btree::group_btree_axioms, vstd::laws_cmp::group_laws_cmp};

/// The tags of `tags` below `limit`, in increasing order.
pub open spec fn tags_below(tags: Set<u16>, limit: int) -> Seq<u16>
    decreases limit,
{
    if limit <= 0 {
        Seq::empty()
    } else if tags.contains((limit - 1) as u16) {
        tags_below(tags, limit - 1).push((limit - 1) as u16)
    } else {
        tags_below(tags, limit - 1)
    }
}

/// The tags of `tags` in increasing order.
pub open spec fn sorted_tags(tags: Set<u16>) -> Seq<u16> {
    tags_below(tags, 0x1_0000)
}

/// Whether `ks` is strictly increasing.
pub open spec fn increasing(ks: Seq<u16>) -> bool {
    forall|i: int, j: int| 0 <= i < j < ks.len() ==> ks[i] < ks[j]
}

pub proof fn lemma_tags_below(tags: Set<u16>, limit: int)
    requires
        0 <= limit <= 0x1_0000,
    ensures
        increasing(tags_below(tags, limit)),
        forall|t: u16| #[trigger]
            tags_below(tags, limit).contains(t) <==> tags.contains(t) && t < limit,
    decreases limit,
{
    if limit > 0 {
        lemma_tags_below(tags, limit - 1);
        let less = tags_below(tags, limit - 1);
        let last = (limit - 1) as u16;
        let all = tags_below(tags, limit);
        if tags.contains(last) {
            assert forall|i: int| 0 <= i < less.len() implies #[trigger] less[i] < last by {
                assert(less.contains(less[i]));
            }
            assert forall|t: u16| #[trigger] all.contains(t) <==> tags.contains(t) && t < limit by {
                if tags.contains(t) && t < limit {
                    if t == last {
                        assert(all[less.len() as int] == t);
                    } else {
                        assert(less.contains(t));
                        let i = choose|i: int| 0 <= i < less.len() && less[i] == t;
                        assert(all[i] == t);
                    }
                }
                if all.contains(t) {
                    let i = choose|i: int| 0 <= i < all.len() && all[i] == t;
                    if i < less.len() {
                        assert(less[i] == t);
                        assert(less.contains(t));
                    }
                }
            }
        }
    }
}

/// Of the increasing sequences, one alone holds the given tags.
pub proof fn lemma_increasing_unique(a: Seq<u16>, b: Seq<u16>)
    requires
        increasing(a),
        increasing(b),
        forall|t: u16| #[trigger] a.contains(t) <==> b.contains(t),
    ensures
        a == b,
    decreases a.len(),
{
    if a.len() == 0 {
        if b.len() > 0 {
            assert(b.contains(b[0]));
            assert(a.contains(b[0]));
        }
        assert(a =~= b);
    } else if b.len() == 0 {
        assert(a.contains(a[0]));
        assert(b.contains(a[0]));
    } else {
        let x = a.last();
        let y = b.last();
        assert(a.contains(x));
        assert(b.contains(y));
        assert(b.contains(x) && a.contains(y));
        let i = choose|i: int| 0 <= i < b.len() && b[i] == x;
        let j = choose|j: int| 0 <= j < a.len() && a[j] == y;
        assert(x <= y);
        assert(y <= x);
        let a1 = a.drop_last();
        let b1 = b.drop_last();
        assert forall|t: u16| #[trigger] a1.contains(t) <==> b1.contains(t) by {
            if a1.contains(t) {
                let k = choose|k: int| 0 <= k < a1.len() && a1[k] == t;
                assert(a[k] == t && t < x);
                assert(a.contains(t));
                let m = choose|m: int| 0 <= m < b.len() && b[m] == t;
                assert(b1[m] == t);
            }
            if b1.contains(t) {
                let k = choose|k: int| 0 <= k < b1.len() && b1[k] == t;
                assert(b[k] == t && t < y);
                assert(b.contains(t));
                assert(a.contains(t));
                let m = choose|m: int| 0 <= m < a.len() && a[m] == t;
                assert(a1[m] == t);
            }
        }
        lemma_increasing_unique(a1, b1);
        assert(a =~= a1.push(x));
        assert(b =~= b1.push(y));
    }
}

/// The increasing sequence of a set of tags.
pub proof fn lemma_sorted_tags(tags: Set<u16>)
    ensures
        increasing(sorted_tags(tags)),
        sorted_tags(tags).no_duplicates(),
        sorted_tags(tags).len() <= 0x1_0000,
        forall|t: u16| #[trigger] sorted_tags(tags).contains(t) <==> tags.contains(t),
{
    lemma_tags_below(tags, 0x1_0000);
    lemma_tags_below_len(tags, 0x1_0000);
}

proof fn lemma_tags_below_len(tags: Set<u16>, limit: int)
    requires
        0 <= limit,
    ensures
        tags_below(tags, limit).len() <= limit,
    decreases limit,
{
    if limit > 0 {
        lemma_tags_below_len(tags, limit - 1);
    }
}

/// The keys of a map, in increasing order.
pub(crate) fn sorted_keys<V>(m: &BTreeMap<u16, V>) -> (r: Vec<u16>)
    ensures
        r@ == sorted_tags(m@.dom()),
{
    let mut keys: Vec<u16> = Vec::new();
    let items = m.iter();
    let ghost all = items.remaining();
    let ghost all_keys = all.map_values(|kv: (&u16, &V)| *kv.0);
    for kv in it: items
        invariant
            keys@ == all_keys.take(it.index()),
            it.seq() == all,
            all_keys == all.map_values(|kv: (&u16, &V)| *kv.0),
    {
        keys.push(*kv.0);
        assert(keys@ =~= all_keys.take(it.index() + 1));
    }
    proof {
        lemma_sorted_tags(m@.dom());
        assert(keys@ =~= all_keys);
        assert forall|i: int, j: int| 0 <= i < j < keys@.len() implies keys@[i] < keys@[j] by {
            assert(all_keys[i].cmp_spec(&all_keys[j]) is Less);
        }
        assert forall|t: u16| #[trigger] keys@.contains(t) <==> sorted_tags(m@.dom()).contains(
            t,
        ) by {
            if keys@.contains(t) {
                let i = choose|i: int| 0 <= i < keys@.len() && keys@[i] == t;
                assert(m@.contains_key(*all[i].0));
            }
            if m@.contains_key(t) {
                assert(all.contains((&t, &m@[t])));
                let i = choose|i: int| 0 <= i < all.len() && all[i] == (&t, &m@[t]);
                assert(keys@[i] == t);
            }
        }
        lemma_increasing_unique(keys@, sorted_tags(m@.dom()));
    }
    keys
}

} // verus!
