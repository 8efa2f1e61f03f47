//! Key/value pairs read as a map, later pairs replacing earlier ones.
use vstd::prelude::*;
use crate::text::str_eq;

verus! {

/// Key/value pairs as character sequences.
pub type Pairs = Seq<(Seq<char>, Seq<char>)>;

/// The map that inserting the pairs one after the other builds: a later
/// pair replaces an earlier one with the same key.
pub open spec fn pairs_map(es: Pairs) -> Map<Seq<char>, Seq<char>>
    decreases es.len(),
{
    if es.len() == 0 {
        Map::empty()
    } else {
        pairs_map(es.drop_last()).insert(es.last().0, es.last().1)
    }
}

/// No key occurs twice.
pub open spec fn distinct_keys(es: Pairs) -> bool {
    forall|i: int, j: int| 0 <= i < es.len() && 0 <= j < es.len() && i != j ==> #[trigger] es[i].0 != #[trigger] es[j].0
}

/// A key that no pair holds is not in the map.
pub proof fn lemma_pairs_map_absent(es: Pairs, k: Seq<char>)
    requires
        forall|i: int| 0 <= i < es.len() ==> #[trigger] es[i].0 != k,
    ensures
        !pairs_map(es).dom().contains(k),
    decreases es.len(),
{
    if es.len() > 0 {
        let init = es.drop_last();
        assert forall|i: int| 0 <= i < init.len() implies #[trigger] init[i].0 != k by {
            assert(init[i] == es[i]);
        }
        lemma_pairs_map_absent(init, k);
    }
}

/// With distinct keys, the map holds each pair.
pub proof fn lemma_pairs_map_at(es: Pairs, i: int)
    requires
        distinct_keys(es),
        0 <= i < es.len(),
    ensures
        pairs_map(es).dom().contains(es[i].0),
        pairs_map(es)[es[i].0] == es[i].1,
    decreases es.len(),
{
    let init = es.drop_last();
    if i < es.len() - 1 {
        assert(distinct_keys(init)) by {
            assert forall|a: int, b: int| 0 <= a < init.len() && 0 <= b < init.len() && a != b implies #[trigger] init[a].0 != #[trigger] init[b].0 by {
                assert(init[a] == es[a] && init[b] == es[b]);
            }
        }
        assert(init[i] == es[i]);
        lemma_pairs_map_at(init, i);
        assert(es[es.len() - 1].0 != es[i].0);
    }
}

/// Replacing the value of a pair with distinct keys replaces it in the map.
pub proof fn lemma_pairs_map_update(es: Pairs, i: int, v: Seq<char>)
    requires
        distinct_keys(es),
        0 <= i < es.len(),
    ensures
        pairs_map(es.update(i, (es[i].0, v))) == pairs_map(es).insert(es[i].0, v),
        distinct_keys(es.update(i, (es[i].0, v))),
    decreases es.len(),
{
    let k = es[i].0;
    let u = es.update(i, (k, v));
    let init = es.drop_last();
    assert(distinct_keys(u)) by {
        assert forall|a: int, b: int| 0 <= a < u.len() && 0 <= b < u.len() && a != b implies #[trigger] u[a].0 != #[trigger] u[b].0 by {
            assert(u[a].0 == es[a].0 && u[b].0 == es[b].0);
        }
    }
    assert(distinct_keys(init)) by {
        assert forall|a: int, b: int| 0 <= a < init.len() && 0 <= b < init.len() && a != b implies #[trigger] init[a].0 != #[trigger] init[b].0 by {
            assert(init[a] == es[a] && init[b] == es[b]);
        }
    }
    if i == es.len() - 1 {
        assert(u.drop_last() =~= init);
        assert(pairs_map(u) =~= pairs_map(es).insert(k, v));
    } else {
        assert(init[i] == es[i]);
        lemma_pairs_map_update(init, i, v);
        assert(u.drop_last() =~= init.update(i, (k, v)));
        assert(es.last().0 != k);
        assert(u.last() == es.last());
        assert(pairs_map(u) =~= pairs_map(es).insert(k, v));
    }
}

/// Dropping a pair with distinct keys drops its key from the map.
pub proof fn lemma_pairs_map_remove(es: Pairs, i: int)
    requires
        distinct_keys(es),
        0 <= i < es.len(),
    ensures
        pairs_map(es.remove(i)) == pairs_map(es).remove(es[i].0),
        distinct_keys(es.remove(i)),
    decreases es.len(),
{
    let k = es[i].0;
    let r = es.remove(i);
    let init = es.drop_last();
    assert(distinct_keys(r)) by {
        assert forall|a: int, b: int| 0 <= a < r.len() && 0 <= b < r.len() && a != b implies #[trigger] r[a].0 != #[trigger] r[b].0 by {
            let a2 = if a < i { a } else { a + 1 };
            let b2 = if b < i { b } else { b + 1 };
            assert(r[a] == es[a2] && r[b] == es[b2]);
        }
    }
    assert(distinct_keys(init)) by {
        assert forall|a: int, b: int| 0 <= a < init.len() && 0 <= b < init.len() && a != b implies #[trigger] init[a].0 != #[trigger] init[b].0 by {
            assert(init[a] == es[a] && init[b] == es[b]);
        }
    }
    if i == es.len() - 1 {
        assert(r =~= init);
        assert forall|j: int| 0 <= j < init.len() implies #[trigger] init[j].0 != k by {
            assert(init[j] == es[j]);
        }
        lemma_pairs_map_absent(init, k);
        assert(pairs_map(r) =~= pairs_map(es).remove(k));
    } else {
        assert(init[i] == es[i]);
        lemma_pairs_map_remove(init, i);
        assert(r.drop_last() =~= init.remove(i));
        assert(r.last() == es.last());
        assert(es.last().0 != k);
        assert(pairs_map(r) =~= pairs_map(es).remove(k));
    }
}


/// The value that the pairs give `k`, if any.
pub open spec fn pairs_lookup(es: Pairs, k: Seq<char>) -> Option<Seq<char>> {
    if pairs_map(es).dom().contains(k) {
        Some(pairs_map(es)[k])
    } else {
        None
    }
}

/// The last pair with key `k` gives the map's value of `k`.
pub proof fn lemma_pairs_map_last(es: Pairs, i: int)
    requires
        0 <= i < es.len(),
        forall|j: int| i < j < es.len() ==> #[trigger] es[j].0 != es[i].0,
    ensures
        pairs_map(es).dom().contains(es[i].0),
        pairs_map(es)[es[i].0] == es[i].1,
    decreases es.len(),
{
    if i < es.len() - 1 {
        let init = es.drop_last();
        assert forall|j: int| i < j < init.len() implies #[trigger] init[j].0 != init[i].0 by {
            assert(init[j] == es[j]);
        }
        lemma_pairs_map_last(init, i);
        assert(es[es.len() - 1].0 != es[i].0);
    }
}

/// Where the map gets its value of `key` from: the last pair with that key.
pub fn last_position(values: &Vec<(String, String)>, key: &str) -> (r: Option<usize>)
    ensures
        match r {
            Some(i) => i < values.len() && values.deep_view()[i as int].0 == key@
                && pairs_lookup(values.deep_view(), key@) == Some(values.deep_view()[i as int].1),
            None => pairs_lookup(values.deep_view(), key@) is None,
        },
{
    let ghost es = values.deep_view();
    let mut i: usize = values.len();
    while i > 0
        invariant
            es == values.deep_view(),
            i <= values.len(),
            forall|j: int| i <= j < es.len() ==> #[trigger] es[j].0 != key@,
        decreases i,
    {
        assert(es[i - 1] == (values[i - 1].0@, values[i - 1].1@));
        if str_eq(values[i - 1].0.as_str(), key) {
            proof {
                lemma_pairs_map_last(es, i - 1);
            }
            return Some(i - 1);
        }
        i = i - 1;
    }
    proof {
        lemma_pairs_map_absent(es, key@);
    }
    None
}

/// The value stored under `key`: that of the last pair with this key.
pub fn lookup_value<'a>(values: &'a Vec<(String, String)>, key: &str) -> (r: Option<&'a String>)
    ensures
        match pairs_lookup(values.deep_view(), key@) {
            Some(v) => r matches Some(s) && s@ == v,
            None => r is None,
        },
{
    match last_position(values, key) {
        Some(i) => {
            assert(values.deep_view()[i as int].1 == values[i as int].1@);
            Some(&values[i].1)
        },
        None => None,
    }
}

} // verus!
