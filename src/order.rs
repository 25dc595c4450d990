//! Newest-first ordering of thread rows by their last-update time.

use std::cmp::Ordering;
use itertools::Itertools;
use vstd::prelude::*;

verus! {

/// A point in time, in microseconds since 1970-01-01 00:00:00 UTC.
#[derive(Clone, Copy, Debug, PartialEq, Eq, Structural)]
pub struct Timestamp {
    pub micros: i64,
}

/// One thread as the data source hands it over, with its comment count.
#[derive(Clone, Debug)]
pub struct ThreadRow {
    pub thread_id: String,
    pub user_id: String,
    pub created: Timestamp,
    pub last_updated: Timestamp,
    pub title: String,
    pub content: String,
    pub num_comments: i32,
}

/// Position `i` occurs somewhere in `order`.
pub open spec fn lists(order: Seq<int>, i: int) -> bool {
    exists|k: int| 0 <= k < order.len() && order[k] == i
}

/// Position `i` occurs in `order` at exactly one place.
pub open spec fn lists_once(order: Seq<int>, i: int) -> bool {
    exists|k: int|
        0 <= k < order.len() && order[k] == i && forall|m: int|
            0 <= m < order.len() && m != k ==> order[m] != i
}

/// `order` lists every position of `rows` exactly once, most recently updated
/// first; rows updated at the same instant keep their input order.
pub open spec fn is_newest_first(rows: Seq<ThreadRow>, order: Seq<int>) -> bool {
    &&& order.len() == rows.len()
    &&& forall|k: int| 0 <= k < order.len() ==> 0 <= #[trigger] order[k] < rows.len()
    &&& forall|i: int| 0 <= i < rows.len() ==> #[trigger] lists(order, i)
    &&& forall|a: int, b: int|
        0 <= a < b < order.len() ==> {
            let ta = rows[#[trigger] order[a]].last_updated.micros;
            let tb = rows[#[trigger] order[b]].last_updated.micros;
            ta > tb || (ta == tb && order[a] < order[b])
        }
}

/// When no two rows share an update time, a newest-first order lists them
/// in strictly descending update time.
pub proof fn newest_first_strictly_descends(rows: Seq<ThreadRow>, order: Seq<int>)
    requires
        is_newest_first(rows, order),
        forall|i: int, j: int|
            0 <= i < j < rows.len() ==> (#[trigger] rows[i]).last_updated.micros
                != (#[trigger] rows[j]).last_updated.micros,
    ensures
        forall|a: int, b: int|
            0 <= a < b < order.len() ==> rows[#[trigger] order[a]].last_updated.micros > rows[#[trigger] order[b]].last_updated.micros,
{
    assert forall|a: int, b: int| 0 <= a < b < order.len() implies rows[#[trigger] order[a]].last_updated.micros > rows[#[trigger] order[b]].last_updated.micros by {
        let (x, y) = (order[a], order[b]);
        if x < y {
            assert(rows[x].last_updated.micros != rows[y].last_updated.micros);
        }
    }
}

/// A newest-first order holds every position of the rows exactly once:
/// no row is dropped and none is repeated.
pub proof fn newest_first_is_permutation(rows: Seq<ThreadRow>, order: Seq<int>)
    requires
        is_newest_first(rows, order),
    ensures
        order.len() == rows.len(),
        forall|i: int| 0 <= i < rows.len() ==> #[trigger] lists_once(order, i),
{
    assert forall|i: int| 0 <= i < rows.len() implies #[trigger] lists_once(order, i) by {
        assert(lists(order, i));
        let k = choose|k: int| 0 <= k < order.len() && order[k] == i;
        assert forall|m: int| 0 <= m < order.len() && m != k implies order[m] != i by {
            if m < k {
                assert(rows[order[m]].last_updated.micros > rows[order[k]].last_updated.micros
                    || order[m] < order[k]);
            } else {
                assert(rows[order[k]].last_updated.micros > rows[order[m]].last_updated.micros
                    || order[k] < order[m]);
            }
        }
    }
}

/// Compares two (update time, position) keys so that the later time comes
/// first; equal times compare equal.
pub fn cmp_newer_first(a: &(i64, usize), b: &(i64, usize)) -> (r: Ordering)
    ensures
        (r == Ordering::Less) == (a.0 > b.0),
        (r == Ordering::Equal) == (a.0 == b.0),
        (r == Ordering::Greater) == (a.0 < b.0),
{
    if a.0 > b.0 {
        Ordering::Less
    } else if a.0 < b.0 {
        Ordering::Greater
    } else {
        Ordering::Equal
    }
}

/// Relies on itertools' `Itertools::sorted_by`: a stable sort of all items
/// (by `slice::sort_by`) under `cmp_newer_first`. The keys come in with their
/// own positions, so stability puts equal times in ascending position.
#[verifier::external_body]
fn sort_keys_newer_first(keys: Vec<(i64, usize)>) -> (r: Vec<(i64, usize)>)
    requires
        forall|i: int| 0 <= i < keys@.len() ==> #[trigger] keys@[i].1 == i,
    ensures
        r@.to_multiset() == keys@.to_multiset(),
        forall|a: int, b: int|
            0 <= a < b < r@.len() ==> (#[trigger] r@[a]).0 > (#[trigger] r@[b]).0 || (r@[a].0
                == r@[b].0 && r@[a].1 < r@[b].1),
{
    keys.into_iter().sorted_by(|a, b| cmp_newer_first(a, b)).collect()
}

/// The positions of `rows`, most recently updated first, ties in input order.
pub fn newest_first(rows: &Vec<ThreadRow>) -> (order: Vec<usize>)
    ensures
        is_newest_first(rows@, order@.map_values(|k: usize| k as int)),
{
    let mut keys: Vec<(i64, usize)> = Vec::new();
    let mut i: usize = 0;
    while i < rows.len()
        invariant
            i <= rows@.len(),
            keys@.len() == i,
            forall|j: int| 0 <= j < i ==> #[trigger] keys@[j] == (rows@[j].last_updated.micros, j as usize),
        decreases rows@.len() - i,
    {
        keys.push((rows[i].last_updated.micros, i));
        i += 1;
    }
    let ghost before = keys@;
    let sorted = sort_keys_newer_first(keys);
    proof {
        assert forall|k: int| 0 <= k < sorted@.len() implies #[trigger] sorted@[k] == before[sorted@[k].1 as int]
            && sorted@[k].1 < rows@.len() by {
            assert(sorted@.contains(sorted@[k]));
            vstd::seq_lib::to_multiset_contains(sorted@, sorted@[k]);
            vstd::seq_lib::to_multiset_contains(before, sorted@[k]);
            assert(before.contains(sorted@[k]));
        }
    }
    let mut order: Vec<usize> = Vec::new();
    let mut k: usize = 0;
    while k < sorted.len()
        invariant
            k <= sorted@.len(),
            order@.len() == k,
            forall|j: int| 0 <= j < k ==> #[trigger] order@[j] == sorted@[j].1,
        decreases sorted@.len() - k,
    {
        order.push(sorted[k].1);
        k += 1;
    }
    proof {
        let o = order@.map_values(|k: usize| k as int);
        sorted@.to_multiset_ensures();
        before.to_multiset_ensures();
        assert(o.len() == rows@.len());
        assert forall|k: int| 0 <= k < o.len() implies #[trigger] o[k] == sorted@[k].1 as int
            && rows@[o[k]].last_updated.micros == sorted@[k].0 by {
            assert(sorted@[k] == before[sorted@[k].1 as int]);
        }
        assert forall|a: int, b: int| 0 <= a < b < o.len() implies ({
            let ta = rows@[#[trigger] o[a]].last_updated.micros;
            let tb = rows@[#[trigger] o[b]].last_updated.micros;
            ta > tb || (ta == tb && o[a] < o[b])
        }) by {
            assert(o[a] == sorted@[a].1 as int);
            assert(o[b] == sorted@[b].1 as int);
        }
        assert forall|i: int| 0 <= i < rows@.len() implies #[trigger] lists(o, i) by {
            assert(before.contains(before[i]));
            vstd::seq_lib::to_multiset_contains(sorted@, before[i]);
            vstd::seq_lib::to_multiset_contains(before, before[i]);
            assert(sorted@.contains(before[i]));
            let k = choose|k: int| 0 <= k < sorted@.len() && sorted@[k] == before[i];
            assert(o[k] == i);
        }
    }
    order
}

} // verus!
