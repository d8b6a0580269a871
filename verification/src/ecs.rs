//! A small entity component store: archetypes keep one column per component next to a
//! column of entity ids, and every entity is one row across them.

use vstd::prelude::*;
use vstd::multiset::Multiset;
use vstd::relations::{sorted_by, total_ordering};
use crate::math::Mat4x4;
use crate::model::DeviceModel;
use crate::pipeline::Pipeline;
use crate::tech::TechniqueContainer;

verus! {

broadcast use vstd::seq_lib::group_to_multiset_ensures;

/// Access to the column of components of type `T` of an archetype. An archetype implements
/// it once per column.
pub trait ComponentAccess<T>: Sized {
    /// The column of components of type `T`.
    spec fn components(&self) -> Vec<T>;

    /// The archetype with its column of type `T` replaced by `column`, all else as it is.
    spec fn with_components(&self, column: Vec<T>) -> Self;

    /// The column.
    fn get_components(&self) -> (r: &Vec<T>)
        ensures
            *r == self.components();

    /// The column, to change in place; the archetype ends up with what the column ends up
    /// holding, all else as it was.
    fn get_components_mut(&mut self) -> (r: &mut Vec<T>)
        ensures
            *r == old(self).components(),
            *final(self) == old(self).with_components(*final(r));
}

/// Access to the archetype of type `T` of a storage.
pub trait ArchetypeAccess<T>: Sized {
    /// The archetype of type `T`.
    spec fn archetype(&self) -> T;

    /// The storage with its archetype of type `T` replaced by `archetype`, all else as it is.
    spec fn with_archetype(&self, archetype: T) -> Self;

    /// The archetype.
    fn get_archetype(&self) -> (r: &T)
        ensures
            *r == self.archetype();

    /// The archetype, to change in place; the storage ends up with what the archetype ends
    /// up holding, all else as it was.
    fn get_archetype_mut(&mut self) -> (r: &mut T)
        ensures
            *r == old(self).archetype(),
            *final(self) == old(self).with_archetype(*final(r));
}

/// The columns of an archetype that a query reads (`T`) or writes (`M`).
pub trait EntityQueryAccess<'a, T, M> {
    fn get_query(&'a self) -> T;

    fn get_query_mut(&'a mut self) -> M;
}

/// The queries of all archetypes of a storage that hold the columns read (`T`) or
/// written (`M`).
pub trait EntityChunkAccess<'a, T, M>: Sized {
    /// The read-only queries of the storage, one per archetype that holds the columns.
    spec fn chunks(&'a self) -> Seq<T>;

    /// `r` holds the writable queries of the storage `old`, and `new` keeps all of `old`
    /// that those queries do not reach. Each impl adds that the columns they reach end up
    /// holding what the queries leave in them.
    spec fn chunks_taken(old: Self, new: Self, r: Seq<M>) -> bool;

    /// The read-only queries.
    fn get_chunks(&'a self) -> (r: Vec<T>)
        ensures
            r@ == self.chunks();

    /// The writable queries.
    fn get_chunks_mut(&'a mut self) -> (r: Vec<M>)
        ensures
            Self::chunks_taken(*old(self), *final(self), r@);
}

/// `id` has the version and variant bits of a random (version 4) UUID.
pub open spec fn is_version4_id(id: u128) -> bool {
    &&& (id >> 76u128) & 0xFu128 == 4u128
    &&& (id >> 62u128) & 0x3u128 == 2u128
}

/// A fresh random entity id: calls `uuid::Uuid::new_v4` and returns the UUID as a `u128`
/// (`Uuid::as_u128`). The crate masks its random bits so that the version is 4 and the
/// variant is RFC 4122; nothing else is known of the value.
#[verifier::external_body]
fn new_entity_id() -> (id: u128)
    ensures
        is_version4_id(id),
{
    uuid::Uuid::new_v4().as_u128()
}

/// `i` is the first position of `id` in `ids`.
pub open spec fn is_first_position(ids: Seq<u128>, id: u128, i: int) -> bool {
    &&& 0 <= i < ids.len()
    &&& ids[i] == id
    &&& forall|j: int| 0 <= j < i ==> ids[j] != id
}

/// The first position of `id` in `ids` (meaningful when `ids` holds `id`).
pub open spec fn first_position(ids: Seq<u128>, id: u128) -> usize {
    choose|i: usize| is_first_position(ids, id, i as int)
}

/// The order "greater or equal" on positions.
pub open spec fn descending() -> spec_fn(usize, usize) -> bool {
    |a: usize, b: usize| a >= b
}

/// The rows that removing the entities `uuids` deletes, largest position first.
pub open spec fn removal_order(ids: Seq<u128>, uuids: Seq<u128>) -> Seq<usize> {
    uuids.map_values(|u: u128| first_position(ids, u)).sort_by(descending())
}

/// Every entity of `uuids` is in `ids`.
pub open spec fn all_present(ids: Seq<u128>, uuids: Seq<u128>) -> bool {
    forall|k: int| 0 <= k < uuids.len() ==> ids.contains(#[trigger] uuids[k])
}

/// Removing the rows `order`, one after the other, from a column of `len` rows never
/// removes a row past the end.
pub open spec fn removable(len: int, order: Seq<usize>) -> bool {
    forall|k: int| 0 <= k < order.len() ==> #[trigger] order[k] < len - k
}

/// `s` with its element at `i` replaced by its last element, and its last element dropped.
pub open spec fn swap_removed<T>(s: Seq<T>, i: int) -> Seq<T> {
    s.update(i, s.last()).drop_last()
}

/// `s` after removing, in turn, the elements at the positions `order` as `swap_removed` does.
pub open spec fn swap_remove_all<T>(s: Seq<T>, order: Seq<usize>) -> Seq<T>
    decreases order.len(),
{
    if order.len() == 0 {
        s
    } else {
        swap_remove_all(swap_removed(s, order[0] as int), order.drop_first())
    }
}

proof fn lemma_descending_total()
    ensures
        total_ordering(descending()),
{
}

fn position_of(ids: &Vec<u128>, id: u128) -> (r: usize)
    requires
        ids@.contains(id),
    ensures
        is_first_position(ids@, id, r as int),
        r == first_position(ids@, id),
{
    let n = ids.len();
    let mut i: usize = 0;
    while i < n
        invariant
            n == ids@.len(),
            i <= n,
            ids@.contains(id),
            forall|j: int| 0 <= j < i ==> ids@[j] != id,
        decreases n - i,
    {
        if ids[i] == id {
            proof {
                assert(is_first_position(ids@, id, i as int));
                let c = first_position(ids@, id);
                assert(is_first_position(ids@, id, c as int));
                if (c as int) < (i as int) {
                    assert(ids@[c as int] != id);
                } else if (i as int) < (c as int) {
                    assert(ids@[i as int] != id);
                }
            }
            return i;
        }
        i += 1;
    }
    proof {
        let j = choose|j: int| 0 <= j < ids@.len() && ids@[j] == id;
        assert(ids@[j] != id);
    }
    0
}

/// Sorts `v` from the largest value to the smallest.
fn sort_descending(v: &mut Vec<usize>)
    ensures
        sorted_by(final(v)@, descending()),
        final(v)@.to_multiset() == old(v)@.to_multiset(),
        final(v)@.len() == old(v)@.len(),
{
    let n = v.len();
    if n == 0 {
        return;
    }
    let mut i: usize = 1;
    while i < n
        invariant
            n == v@.len(),
            1 <= i <= n,
            v@.to_multiset() == old(v)@.to_multiset(),
            forall|a: int, b: int| 0 <= a < b < i ==> v@[a] >= v@[b],
        decreases n - i,
    {
        let mut j: usize = i;
        while j > 0 && v[j - 1] < v[j]
            invariant
                n == v@.len(),
                1 <= i < n,
                j <= i,
                v@.to_multiset() == old(v)@.to_multiset(),
                forall|a: int, b: int| 0 <= a < b < j ==> v@[a] >= v@[b],
                forall|a: int, b: int| j <= a < b <= i ==> v@[a] >= v@[b],
                forall|a: int, b: int| 0 <= a < j && j < b <= i ==> v@[a] >= v@[b],
            decreases j,
        {
            let x = v[j - 1];
            let y = v[j];
            let ghost before = v@;
            v.set(j - 1, y);
            v.set(j, x);
            proof {
                assert(v@ == before.update(j - 1, y).update(j as int, x));
                assert(before.update(j - 1, y).to_multiset() == before.to_multiset().insert(y).remove(x));
                assert(before.update(j - 1, y)[j as int] == y);
                assert(v@.to_multiset() == before.update(j - 1, y).to_multiset().insert(x).remove(y));
                assert(v@.to_multiset() =~= before.to_multiset());
            }
            j -= 1;
        }
        i += 1;
    }
    proof {
        assert forall|a: int, b: int| 0 <= a < b < v@.len() implies #[trigger] descending()(v@[a], v@[b]) by {}
    }
}

/// The rows to delete for the entities `uuids`, largest position first.
fn removal_rows(ids: &Vec<u128>, uuids: &[u128]) -> (r: Vec<usize>)
    requires
        all_present(ids@, uuids@),
    ensures
        r@ == removal_order(ids@, uuids@),
{
    let ghost positions = uuids@.map_values(|u: u128| first_position(ids@, u));
    let mut rows: Vec<usize> = Vec::new();
    let n = uuids.len();
    let mut k: usize = 0;
    while k < n
        invariant
            n == uuids@.len(),
            k <= n,
            all_present(ids@, uuids@),
            positions == uuids@.map_values(|u: u128| first_position(ids@, u)),
            rows@ == positions.take(k as int),
        decreases n - k,
    {
        assert(ids@.contains(uuids@[k as int]));
        let p = position_of(ids, uuids[k]);
        rows.push(p);
        assert(positions.take(k + 1) =~= positions.take(k as int).push(p));
        k += 1;
    }
    assert(positions.take(n as int) =~= positions);
    let ghost unsorted = rows@;
    sort_descending(&mut rows);
    proof {
        lemma_descending_total();
        positions.lemma_sort_by_ensures(descending());
        vstd::seq_lib::lemma_sorted_unique(rows@, positions.sort_by(descending()), descending());
    }
    rows
}

/// Removes the rows `order`, in turn, from `column` as `Vec::swap_remove` does.
fn swap_remove_rows<T>(column: &mut Vec<T>, order: &Vec<usize>)
    requires
        removable(old(column)@.len() as int, order@),
    ensures
        final(column)@ == swap_remove_all(old(column)@, order@),
{
    let n = order.len();
    let mut k: usize = 0;
    assert(order@.skip(0) =~= order@);
    while k < n
        invariant
            n == order@.len(),
            k <= n,
            removable(old(column)@.len() as int, order@),
            column@.len() == old(column)@.len() - k,
            swap_remove_all(column@, order@.skip(k as int)) == swap_remove_all(old(column)@, order@),
        decreases n - k,
    {
        let ghost before = column@;
        assert(order@[k as int] < old(column)@.len() - k);
        column.swap_remove(order[k]);
        proof {
            assert(order@.skip(k as int)[0] == order@[k as int]);
            assert(order@.skip(k as int).drop_first() =~= order@.skip(k + 1));
            assert(column@ == swap_removed(before, order@[k as int] as int));
        }
        k += 1;
    }
    assert(order@.skip(n as int) =~= Seq::<usize>::empty());
}


/// The rows of a column of `len` rows that survive removing the rows `order`, in the
/// order they end up in.
pub open spec fn surviving_rows(len: nat, order: Seq<usize>) -> Seq<usize> {
    swap_remove_all(Seq::new(len, |i: int| i as usize), order)
}

proof fn lemma_swap_remove_all_reads<T>(s: Seq<T>, rows: Seq<usize>, order: Seq<usize>)
    requires
        forall|r: int| 0 <= r < rows.len() ==> #[trigger] rows[r] < s.len(),
        removable(rows.len() as int, order),
    ensures
        swap_remove_all(rows.map_values(|i: usize| s[i as int]), order) == swap_remove_all(rows, order).map_values(
            |i: usize| s[i as int],
        ),
        forall|r: int| 0 <= r < swap_remove_all(rows, order).len() ==> #[trigger] swap_remove_all(rows, order)[r] < s.len(),
        swap_remove_all(rows, order).len() == rows.len() - order.len(),
    decreases order.len(),
{
    if order.len() > 0 {
        let p = order[0] as int;
        assert(p < rows.len());
        let rows2 = swap_removed(rows, p);
        let vals = rows.map_values(|i: usize| s[i as int]);
        assert(swap_removed(vals, p) =~= rows2.map_values(|i: usize| s[i as int]));
        assert forall|k: int| 0 <= k < order.drop_first().len() implies #[trigger] order.drop_first()[k] < rows2.len() - k by {
            assert(order[k + 1] < rows.len() - (k + 1));
        }
        lemma_swap_remove_all_reads(s, rows2, order.drop_first());
    }
}

/// Removing rows keeps each entity's components together: every column, after removing the
/// rows `order`, holds at each row what it held at the same surviving row before.
pub proof fn lemma_rows_stay_together<T>(column: Seq<T>, order: Seq<usize>)
    requires
        column.len() <= usize::MAX,
        removable(column.len() as int, order),
    ensures
        swap_remove_all(column, order) == surviving_rows(column.len(), order).map_values(|i: usize| column[i as int]),
        surviving_rows(column.len(), order).len() == column.len() - order.len(),
{
    let rows = Seq::new(column.len(), |i: int| i as usize);
    assert(rows.map_values(|i: usize| column[i as int]) =~= column);
    lemma_swap_remove_all_reads(column, rows, order);
}

proof fn lemma_map_multiset<A, B>(x: Seq<A>, y: Seq<A>, f: spec_fn(A) -> B)
    requires
        x.to_multiset() == y.to_multiset(),
    ensures
        x.map_values(f).to_multiset() == y.map_values(f).to_multiset(),
    decreases x.len(),
{
    assert(x.to_multiset().len() == x.len());
    assert(y.to_multiset().len() == y.len());
    if x.len() == 0 {
        assert(y.len() == 0);
        assert(x.map_values(f) =~= y.map_values(f));
    } else {
        let a = x.last();
        assert(x.to_multiset().count(a) > 0) by {
            assert(x.contains(a)) by { assert(x[x.len() - 1] == a); }
        }
        assert(y.contains(a));
        let i = choose|i: int| 0 <= i < y.len() && y[i] == a;
        let y2 = y.remove(i);
        assert(x.drop_last().push(a) =~= x);
        assert(x.drop_last().to_multiset() =~= y2.to_multiset()) by {
            assert(x.to_multiset() == x.drop_last().to_multiset().insert(a));
            assert(y2.to_multiset() == y.to_multiset().remove(a));
        }
        lemma_map_multiset(x.drop_last(), y2, f);
        let fy = y.map_values(f);
        assert(fy.remove(i) =~= y2.map_values(f));
        assert(fy[i] == f(a));
        assert(x.map_values(f) =~= x.drop_last().map_values(f).push(f(a)));
        assert(fy.to_multiset().count(f(a)) > 0) by {
            assert(fy.contains(f(a)));
        }
        assert(fy.remove(i).to_multiset() == fy.to_multiset().remove(f(a)));
        assert(fy.to_multiset() =~= fy.remove(i).to_multiset().insert(f(a)));
    }
}

/// The values of `s` at the positions `order`.
pub open spec fn values_at<T>(s: Seq<T>, order: Seq<usize>) -> Seq<T> {
    order.map_values(|p: usize| s[p as int])
}

proof fn lemma_strictly_descending_removal<T>(s: Seq<T>, order: Seq<usize>)
    requires
        forall|a: int, b: int| 0 <= a < b < order.len() ==> order[a] > order[b],
        order.len() > 0 ==> order[0] < s.len(),
    ensures
        swap_remove_all(s, order).to_multiset().add(values_at(s, order).to_multiset()) == s.to_multiset(),
    decreases order.len(),
{
    if order.len() == 0 {
        assert(values_at(s, order) =~= Seq::<T>::empty());
        assert(swap_remove_all(s, order).to_multiset().add(Multiset::empty()) =~= s.to_multiset());
    } else {
        let p = order[0] as int;
        let s2 = swap_removed(s, p);
        let rest = order.drop_first();
        assert(s2.len() == s.len() - 1);
        assert(rest.len() > 0 ==> rest[0] < s2.len()) by {
            if rest.len() > 0 {
                assert(order[1] < order[0]);
            }
        }
        lemma_strictly_descending_removal(s2, rest);
        assert(values_at(s2, rest) =~= values_at(s, rest)) by {
            assert forall|k: int| 0 <= k < rest.len() implies values_at(s2, rest)[k] == values_at(s, rest)[k] by {
                assert(order[k + 1] < order[0]);
            }
        }
        assert(values_at(s, order) =~= seq![s[p]] + values_at(s, rest));
        vstd::seq_lib::lemma_multiset_commutative(seq![s[p]], values_at(s, rest));
        assert(seq![s[p]].to_multiset() =~= Multiset::singleton(s[p])) by {
            assert(seq![s[p]] =~= Seq::<T>::empty().push(s[p]));
        }
        let u = s.update(p, s.last());
        let lastv = s.last();
        assert(u.to_multiset() == s.to_multiset().insert(lastv).remove(s[p]));
        assert(u.last() == lastv);
        assert(s2.push(lastv) =~= u);
        assert(s2.to_multiset().insert(lastv) == u.to_multiset());
        assert(s.to_multiset().count(s[p]) > 0) by { assert(s.contains(s[p])); }
        assert forall|v: T| #[trigger] s2.to_multiset().insert(s[p]).count(v) == s.to_multiset().count(v) by {
            assert(s2.to_multiset().insert(lastv).count(v) == s.to_multiset().insert(lastv).remove(s[p]).count(v));
        }
        assert(s2.to_multiset().insert(s[p]) =~= s.to_multiset());
        assert(swap_remove_all(s, order) == swap_remove_all(s2, rest));
        assert(swap_remove_all(s, order).to_multiset().add(values_at(s, order).to_multiset()) =~= s.to_multiset());
    }
}

/// Removing entities whose ids are distinct and present deletes exactly their rows: the ids
/// that remain, together with the removed ones, are the ids that were there.
pub proof fn lemma_remove_deletes_exactly(ids: Seq<u128>, uuids: Seq<u128>)
    requires
        ids.len() <= usize::MAX,
        all_present(ids, uuids),
        uuids.no_duplicates(),
    ensures
        removable(ids.len() as int, removal_order(ids, uuids)),
        swap_remove_all(ids, removal_order(ids, uuids)).to_multiset().add(uuids.to_multiset()) == ids.to_multiset(),
{
    let positions = uuids.map_values(|u: u128| first_position(ids, u));
    let order = removal_order(ids, uuids);
    assert forall|k: int| 0 <= k < uuids.len() implies is_first_position(ids, uuids[k], #[trigger] positions[k] as int) by {
        assert(ids.contains(uuids[k]));
        let j = choose|j: int| 0 <= j < ids.len() && ids[j] == uuids[k];
        assert(exists|i: usize| is_first_position(ids, uuids[k], i as int)) by {
            lemma_first_occurrence_exists(ids, uuids[k], j);
        }
    }
    lemma_descending_total();
    positions.lemma_sort_by_ensures(descending());
    assert(positions.no_duplicates()) by {
        assert forall|a: int, b: int| 0 <= a < positions.len() && 0 <= b < positions.len() && a != b implies positions[a] != positions[b] by {
            assert(ids[positions[a] as int] == uuids[a]);
            assert(ids[positions[b] as int] == uuids[b]);
        }
    }
    assert forall|a: int, b: int| 0 <= a < b < order.len() implies order[a] > order[b] by {
        assert(descending()(order[a], order[b]));
        lemma_sorted_duplicate(positions, order, a, b);
    }
    assert forall|k: int| 0 <= k < order.len() implies #[trigger] order[k] < ids.len() - k by {
        lemma_order_bound(ids, positions, order, k);
    }
    lemma_strictly_descending_removal(ids, order);
    lemma_map_multiset(order, positions, |p: usize| ids[p as int]);
    assert(positions.map_values(|p: usize| ids[p as int]) =~= uuids);
}

proof fn lemma_first_occurrence_exists(ids: Seq<u128>, id: u128, j: int)
    requires
        ids.len() <= usize::MAX,
        0 <= j < ids.len(),
        ids[j] == id,
    ensures
        exists|i: usize| is_first_position(ids, id, i as int),
    decreases j,
{
    if exists|q: int| 0 <= q < j && ids[q] == id {
        let q = choose|q: int| 0 <= q < j && ids[q] == id;
        lemma_first_occurrence_exists(ids, id, q);
    } else {
        assert(is_first_position(ids, id, (j as usize) as int));
    }
}

proof fn lemma_sorted_duplicate(positions: Seq<usize>, order: Seq<usize>, a: int, b: int)
    requires
        positions.no_duplicates(),
        order.to_multiset() == positions.to_multiset(),
        0 <= a < b < order.len(),
    ensures
        order[a] != order[b],
{
    if order[a] != order[b] {
        return;
    }
    let x = order[a];
    assert(order.remove(b).to_multiset() == order.to_multiset().remove(x));
    assert(order.remove(b).contains(x)) by {
        assert(order.remove(b)[a] == x);
    }
    assert(order.to_multiset().count(x) >= 2) by {
        assert(order.remove(b).to_multiset().count(x) > 0);
    }
    positions.lemma_multiset_has_no_duplicates();
}

proof fn lemma_order_bound(ids: Seq<u128>, positions: Seq<usize>, order: Seq<usize>, k: int)
    requires
        order.to_multiset() == positions.to_multiset(),
        forall|q: int| 0 <= q < positions.len() ==> #[trigger] positions[q] < ids.len(),
        forall|a: int, b: int| 0 <= a < b < order.len() ==> order[a] > order[b],
        0 <= k < order.len(),
    ensures
        order[k] < ids.len() - k,
    decreases k,
{
    assert(order.contains(order[0]));
    assert(order.to_multiset().count(order[0]) > 0);
    assert(positions.to_multiset().count(order[0]) > 0);
    assert(positions.contains(order[0]));
    let q = choose|q: int| 0 <= q < positions.len() && positions[q] == order[0];
    assert(positions[q] < ids.len());
    if k > 0 {
        lemma_order_bound(ids, positions, order, k - 1);
        assert(order[k] < order[k - 1]);
    }
}


proof fn lemma_single_removal_order(ids: Seq<u128>, id: u128)
    requires
        ids.len() < usize::MAX,
        !ids.contains(id),
    ensures
        removal_order(ids.push(id), seq![id]) == seq![ids.len() as usize],
{
    let all = ids.push(id);
    let n = ids.len() as usize;
    assert(is_first_position(all, id, n as int)) by {
        assert forall|j: int| 0 <= j < n implies all[j] != id by {
            assert(all[j] == ids[j]);
        }
    }
    let c = first_position(all, id);
    assert(is_first_position(all, id, c as int));
    assert(c == n) by {
        if (c as int) < (n as int) {
            assert(all[c as int] == ids[c as int]);
        }
    }
    let positions = seq![id].map_values(|u: u128| first_position(all, u));
    assert(positions =~= seq![n]);
    lemma_descending_total();
    positions.lemma_sort_by_ensures(descending());
    let sorted = positions.sort_by(descending());
    assert(sorted.len() == 1) by {
        assert(sorted.to_multiset().len() == sorted.len());
        assert(positions.to_multiset().len() == positions.len());
    }
    vstd::seq_lib::lemma_sorted_unique(sorted, positions, descending());
}

/// Removing the entity just added gives back every column as it was, when its id was new.
pub proof fn lemma_remove_after_add<T>(ids: Seq<u128>, id: u128, column: Seq<T>, x: T)
    requires
        ids.len() < usize::MAX,
        !ids.contains(id),
        column.len() == ids.len(),
    ensures
        all_present(ids.push(id), seq![id]),
        removable(ids.len() + 1int, removal_order(ids.push(id), seq![id])),
        swap_remove_all(ids.push(id), removal_order(ids.push(id), seq![id])) == ids,
        swap_remove_all(column.push(x), removal_order(ids.push(id), seq![id])) == column,
{
    lemma_single_removal_order(ids, id);
    assert(ids.push(id)[ids.len() as int] == id);
    let order = seq![ids.len() as usize];
    assert(order.drop_first() =~= Seq::<usize>::empty());
    assert(swap_removed(ids.push(id), ids.len() as int) =~= ids);
    assert(swap_removed(column.push(x), column.len() as int) =~= column);
    assert(swap_remove_all(ids, Seq::<usize>::empty()) == ids);
    assert(swap_remove_all(column, Seq::<usize>::empty()) == column);
    assert(swap_remove_all(ids.push(id), order) == swap_remove_all(ids, order.drop_first()));
    assert(swap_remove_all(column.push(x), order) == swap_remove_all(column, order.drop_first()));
}

/// The renderable assets: a model and its transform per entity.
pub struct Asset<F> {
    pub ids: Vec<u128>,
    pub models: Vec<DeviceModel<F>>,
    pub transforms: Vec<Mat4x4<F>>,
}

impl<F> ComponentAccess<DeviceModel<F>> for Asset<F> {
    open spec fn components(&self) -> Vec<DeviceModel<F>> {
        self.models
    }

    open spec fn with_components(&self, column: Vec<DeviceModel<F>>) -> Self {
        Asset { ids: self.ids, models: column, transforms: self.transforms }
    }

    fn get_components(&self) -> &Vec<DeviceModel<F>> {
        &self.models
    }

    fn get_components_mut(&mut self) -> &mut Vec<DeviceModel<F>> {
        &mut self.models
    }
}

impl<F> ComponentAccess<Mat4x4<F>> for Asset<F> {
    open spec fn components(&self) -> Vec<Mat4x4<F>> {
        self.transforms
    }

    open spec fn with_components(&self, column: Vec<Mat4x4<F>>) -> Self {
        Asset { ids: self.ids, models: self.models, transforms: column }
    }

    fn get_components(&self) -> &Vec<Mat4x4<F>> {
        &self.transforms
    }

    fn get_components_mut(&mut self) -> &mut Vec<Mat4x4<F>> {
        &mut self.transforms
    }
}

impl<F> Asset<F> {
    /// An archetype without entities.
    pub fn new() -> (r: Asset<F>)
        ensures
            r.ids@.len() == 0,
            r.models@.len() == 0,
            r.transforms@.len() == 0,
    {
        Asset { ids: Vec::new(), models: Vec::new(), transforms: Vec::new() }
    }

    /// Adds an entity with a fresh random id.
    pub fn add(&mut self, models: DeviceModel<F>, transforms: Mat4x4<F>)
        ensures
            final(self).ids@.len() == old(self).ids@.len() + 1,
            final(self).ids@.drop_last() == old(self).ids@,
            is_version4_id(final(self).ids@.last()),
            final(self).models@ == old(self).models@.push(models),
            final(self).transforms@ == old(self).transforms@.push(transforms),
    {
        let id = new_entity_id();
        self.ids.push(id);
        self.models.push(models);
        self.transforms.push(transforms);
        assert(self.ids@.drop_last() =~= old(self).ids@);
    }

    /// Removes the entities `uuids`: their rows are deleted from the largest position down,
    /// each by moving the last row into its place.
    pub fn remove(&mut self, uuids: &[u128])
        requires
            all_present(old(self).ids@, uuids@),
            removable(old(self).ids@.len() as int, removal_order(old(self).ids@, uuids@)),
            removable(old(self).models@.len() as int, removal_order(old(self).ids@, uuids@)),
            removable(old(self).transforms@.len() as int, removal_order(old(self).ids@, uuids@)),
        ensures
            final(self).ids@ == swap_remove_all(old(self).ids@, removal_order(old(self).ids@, uuids@)),
            final(self).models@ == swap_remove_all(old(self).models@, removal_order(old(self).ids@, uuids@)),
            final(self).transforms@ == swap_remove_all(
                old(self).transforms@,
                removal_order(old(self).ids@, uuids@),
            ),
    {
        let order = removal_rows(&self.ids, uuids);
        swap_remove_rows(&mut self.ids, &order);
        swap_remove_rows(&mut self.models, &order);
        swap_remove_rows(&mut self.transforms, &order);
    }
}

impl<'a, F> EntityQueryAccess<
    'a,
    (&'a Vec<DeviceModel<F>>, &'a Vec<Mat4x4<F>>),
    (&'a mut Vec<DeviceModel<F>>, &'a mut Vec<Mat4x4<F>>),
> for Asset<F> {
    fn get_query(&'a self) -> (r: (&'a Vec<DeviceModel<F>>, &'a Vec<Mat4x4<F>>))
        ensures
            *r.0 == self.models,
            *r.1 == self.transforms,
    {
        (&self.models, &self.transforms)
    }

    fn get_query_mut(&'a mut self) -> (r: (&'a mut Vec<DeviceModel<F>>, &'a mut Vec<Mat4x4<F>>))
        ensures
            *r.0 == old(self).models,
            *r.1 == old(self).transforms,
            final(self).models == *final(r.0),
            final(self).transforms == *final(r.1),
            final(self).ids == old(self).ids,
    {
        (&mut self.models, &mut self.transforms)
    }
}

/// The application entities, with components of the program's own types: its window
/// (`A`), its input state (`I`), its editor (`E`) and its camera (`C`).
pub struct Application<A, I, E, C> {
    pub ids: Vec<u128>,
    pub apps: Vec<A>,
    pub inputs: Vec<I>,
    pub ui_editor: Vec<E>,
    pub cameras: Vec<C>,
}

impl<A, I, E, C> Application<A, I, E, C> {
    /// An archetype without entities.
    pub fn new() -> (r: Application<A, I, E, C>)
        ensures
            r.ids@.len() == 0,
            r.apps@.len() == 0,
            r.inputs@.len() == 0,
            r.ui_editor@.len() == 0,
            r.cameras@.len() == 0,
    {
        Application { ids: Vec::new(), apps: Vec::new(), inputs: Vec::new(), ui_editor: Vec::new(), cameras: Vec::new() }
    }

    /// Adds an entity with a fresh random id.
    pub fn add(&mut self, apps: A, inputs: I, ui_editor: E, cameras: C)
        ensures
            final(self).ids@.len() == old(self).ids@.len() + 1,
            final(self).ids@.drop_last() == old(self).ids@,
            is_version4_id(final(self).ids@.last()),
            final(self).apps@ == old(self).apps@.push(apps),
            final(self).inputs@ == old(self).inputs@.push(inputs),
            final(self).ui_editor@ == old(self).ui_editor@.push(ui_editor),
            final(self).cameras@ == old(self).cameras@.push(cameras),
    {
        let id = new_entity_id();
        self.ids.push(id);
        self.apps.push(apps);
        self.inputs.push(inputs);
        self.ui_editor.push(ui_editor);
        self.cameras.push(cameras);
        assert(self.ids@.drop_last() =~= old(self).ids@);
    }

    /// Removes the entities `uuids` as `Asset::remove` does.
    pub fn remove(&mut self, uuids: &[u128])
        requires
            all_present(old(self).ids@, uuids@),
            removable(old(self).ids@.len() as int, removal_order(old(self).ids@, uuids@)),
            removable(old(self).apps@.len() as int, removal_order(old(self).ids@, uuids@)),
            removable(old(self).inputs@.len() as int, removal_order(old(self).ids@, uuids@)),
            removable(old(self).ui_editor@.len() as int, removal_order(old(self).ids@, uuids@)),
            removable(old(self).cameras@.len() as int, removal_order(old(self).ids@, uuids@)),
        ensures
            final(self).ids@ == swap_remove_all(old(self).ids@, removal_order(old(self).ids@, uuids@)),
            final(self).apps@ == swap_remove_all(old(self).apps@, removal_order(old(self).ids@, uuids@)),
            final(self).inputs@ == swap_remove_all(old(self).inputs@, removal_order(old(self).ids@, uuids@)),
            final(self).ui_editor@ == swap_remove_all(old(self).ui_editor@, removal_order(old(self).ids@, uuids@)),
            final(self).cameras@ == swap_remove_all(old(self).cameras@, removal_order(old(self).ids@, uuids@)),
    {
        let order = removal_rows(&self.ids, uuids);
        swap_remove_rows(&mut self.ids, &order);
        swap_remove_rows(&mut self.apps, &order);
        swap_remove_rows(&mut self.inputs, &order);
        swap_remove_rows(&mut self.ui_editor, &order);
        swap_remove_rows(&mut self.cameras, &order);
    }
}

impl<'a, A, I, E, C> EntityQueryAccess<
    'a,
    (&'a Vec<A>, &'a Vec<I>, &'a Vec<C>),
    (&'a mut Vec<A>, &'a mut Vec<I>, &'a mut Vec<C>),
> for Application<A, I, E, C> {
    fn get_query(&'a self) -> (r: (&'a Vec<A>, &'a Vec<I>, &'a Vec<C>))
        ensures
            *r.0 == self.apps,
            *r.1 == self.inputs,
            *r.2 == self.cameras,
    {
        (&self.apps, &self.inputs, &self.cameras)
    }

    fn get_query_mut(&'a mut self) -> (r: (&'a mut Vec<A>, &'a mut Vec<I>, &'a mut Vec<C>))
        ensures
            *r.0 == old(self).apps,
            *r.1 == old(self).inputs,
            *r.2 == old(self).cameras,
            final(self).apps == *final(r.0),
            final(self).inputs == *final(r.1),
            final(self).cameras == *final(r.2),
            final(self).ids == old(self).ids,
            final(self).ui_editor == old(self).ui_editor,
    {
        (&mut self.apps, &mut self.inputs, &mut self.cameras)
    }
}


/// The renderers: a technique container and a pipeline per entity.
pub struct Renderer<F> {
    pub ids: Vec<u128>,
    pub techniques: Vec<TechniqueContainer<F>>,
    pub pipelines: Vec<Pipeline<F>>,
}

impl<F> ComponentAccess<TechniqueContainer<F>> for Renderer<F> {
    open spec fn components(&self) -> Vec<TechniqueContainer<F>> {
        self.techniques
    }

    open spec fn with_components(&self, column: Vec<TechniqueContainer<F>>) -> Self {
        Renderer { ids: self.ids, techniques: column, pipelines: self.pipelines }
    }

    fn get_components(&self) -> &Vec<TechniqueContainer<F>> {
        &self.techniques
    }

    fn get_components_mut(&mut self) -> &mut Vec<TechniqueContainer<F>> {
        &mut self.techniques
    }
}

impl<F> ComponentAccess<Pipeline<F>> for Renderer<F> {
    open spec fn components(&self) -> Vec<Pipeline<F>> {
        self.pipelines
    }

    open spec fn with_components(&self, column: Vec<Pipeline<F>>) -> Self {
        Renderer { ids: self.ids, techniques: self.techniques, pipelines: column }
    }

    fn get_components(&self) -> &Vec<Pipeline<F>> {
        &self.pipelines
    }

    fn get_components_mut(&mut self) -> &mut Vec<Pipeline<F>> {
        &mut self.pipelines
    }
}

impl<F> Renderer<F> {
    /// An archetype without entities.
    pub fn new() -> (r: Renderer<F>)
        ensures
            r.ids@.len() == 0,
            r.techniques@.len() == 0,
            r.pipelines@.len() == 0,
    {
        Renderer { ids: Vec::new(), techniques: Vec::new(), pipelines: Vec::new() }
    }

    /// Adds an entity with a fresh random id.
    pub fn add(&mut self, techniques: TechniqueContainer<F>, pipelines: Pipeline<F>)
        ensures
            final(self).ids@.len() == old(self).ids@.len() + 1,
            final(self).ids@.drop_last() == old(self).ids@,
            is_version4_id(final(self).ids@.last()),
            final(self).techniques@ == old(self).techniques@.push(techniques),
            final(self).pipelines@ == old(self).pipelines@.push(pipelines),
    {
        let id = new_entity_id();
        self.ids.push(id);
        self.techniques.push(techniques);
        self.pipelines.push(pipelines);
        assert(self.ids@.drop_last() =~= old(self).ids@);
    }

    /// Removes the entities `uuids` as `Asset::remove` does.
    pub fn remove(&mut self, uuids: &[u128])
        requires
            all_present(old(self).ids@, uuids@),
            removable(old(self).ids@.len() as int, removal_order(old(self).ids@, uuids@)),
            removable(old(self).techniques@.len() as int, removal_order(old(self).ids@, uuids@)),
            removable(old(self).pipelines@.len() as int, removal_order(old(self).ids@, uuids@)),
        ensures
            final(self).ids@ == swap_remove_all(old(self).ids@, removal_order(old(self).ids@, uuids@)),
            final(self).techniques@ == swap_remove_all(old(self).techniques@, removal_order(old(self).ids@, uuids@)),
            final(self).pipelines@ == swap_remove_all(old(self).pipelines@, removal_order(old(self).ids@, uuids@)),
    {
        let order = removal_rows(&self.ids, uuids);
        swap_remove_rows(&mut self.ids, &order);
        swap_remove_rows(&mut self.techniques, &order);
        swap_remove_rows(&mut self.pipelines, &order);
    }
}

impl<'a, F> EntityQueryAccess<
    'a,
    (&'a Vec<TechniqueContainer<F>>, &'a Vec<Pipeline<F>>),
    (&'a mut Vec<TechniqueContainer<F>>, &'a mut Vec<Pipeline<F>>),
> for Renderer<F> {
    fn get_query(&'a self) -> (r: (&'a Vec<TechniqueContainer<F>>, &'a Vec<Pipeline<F>>))
        ensures
            *r.0 == self.techniques,
            *r.1 == self.pipelines,
    {
        (&self.techniques, &self.pipelines)
    }

    fn get_query_mut(&'a mut self) -> (r: (&'a mut Vec<TechniqueContainer<F>>, &'a mut Vec<Pipeline<F>>))
        ensures
            *r.0 == old(self).techniques,
            *r.1 == old(self).pipelines,
            final(self).techniques == *final(r.0),
            final(self).pipelines == *final(r.1),
            final(self).ids == old(self).ids,
    {
        (&mut self.techniques, &mut self.pipelines)
    }
}

/// All archetypes of the program.
pub struct ArchetypeStorage<F, A, I, E, C> {
    pub application: Application<A, I, E, C>,
    pub renderer: Renderer<F>,
    pub assets: Asset<F>,
}

impl<F, A, I, E, C> ArchetypeAccess<Application<A, I, E, C>> for ArchetypeStorage<F, A, I, E, C> {
    open spec fn archetype(&self) -> Application<A, I, E, C> {
        self.application
    }

    open spec fn with_archetype(&self, archetype: Application<A, I, E, C>) -> Self {
        ArchetypeStorage { application: archetype, renderer: self.renderer, assets: self.assets }
    }

    fn get_archetype(&self) -> &Application<A, I, E, C> {
        &self.application
    }

    fn get_archetype_mut(&mut self) -> &mut Application<A, I, E, C> {
        &mut self.application
    }
}

impl<F, A, I, E, C> ArchetypeAccess<Renderer<F>> for ArchetypeStorage<F, A, I, E, C> {
    open spec fn archetype(&self) -> Renderer<F> {
        self.renderer
    }

    open spec fn with_archetype(&self, archetype: Renderer<F>) -> Self {
        ArchetypeStorage { application: self.application, renderer: archetype, assets: self.assets }
    }

    fn get_archetype(&self) -> &Renderer<F> {
        &self.renderer
    }

    fn get_archetype_mut(&mut self) -> &mut Renderer<F> {
        &mut self.renderer
    }
}

impl<F, A, I, E, C> ArchetypeAccess<Asset<F>> for ArchetypeStorage<F, A, I, E, C> {
    open spec fn archetype(&self) -> Asset<F> {
        self.assets
    }

    open spec fn with_archetype(&self, archetype: Asset<F>) -> Self {
        ArchetypeStorage { application: self.application, renderer: self.renderer, assets: archetype }
    }

    fn get_archetype(&self) -> &Asset<F> {
        &self.assets
    }

    fn get_archetype_mut(&mut self) -> &mut Asset<F> {
        &mut self.assets
    }
}

impl<F, A, I, E, C> ArchetypeStorage<F, A, I, E, C> {
    /// A storage whose archetypes have no entities.
    pub fn new() -> (r: ArchetypeStorage<F, A, I, E, C>)
        ensures
            r.application.ids@.len() == 0,
            r.application.apps@.len() == 0,
            r.application.inputs@.len() == 0,
            r.application.ui_editor@.len() == 0,
            r.application.cameras@.len() == 0,
            r.renderer.ids@.len() == 0,
            r.renderer.techniques@.len() == 0,
            r.renderer.pipelines@.len() == 0,
            r.assets.ids@.len() == 0,
            r.assets.models@.len() == 0,
            r.assets.transforms@.len() == 0,
    {
        ArchetypeStorage { application: Application::new(), renderer: Renderer::new(), assets: Asset::new() }
    }
}

impl<'a, F, A, I, E, C> EntityChunkAccess<
    'a,
    (&'a Vec<DeviceModel<F>>, &'a Vec<Mat4x4<F>>),
    (&'a mut Vec<DeviceModel<F>>, &'a mut Vec<Mat4x4<F>>),
> for ArchetypeStorage<F, A, I, E, C> {
    open spec fn chunks(&'a self) -> Seq<(&'a Vec<DeviceModel<F>>, &'a Vec<Mat4x4<F>>)> {
        seq![(&self.assets.models, &self.assets.transforms)]
    }

    open spec fn chunks_taken(
        old: Self,
        new: Self,
        r: Seq<(&'a mut Vec<DeviceModel<F>>, &'a mut Vec<Mat4x4<F>>)>,
    ) -> bool {
        &&& r.len() == 1
        &&& *r[0].0 == old.assets.models
        &&& *r[0].1 == old.assets.transforms
        &&& new.assets.ids == old.assets.ids
        &&& new.application == old.application
        &&& new.renderer == old.renderer
    }

    fn get_chunks(&'a self) -> Vec<(&'a Vec<DeviceModel<F>>, &'a Vec<Mat4x4<F>>)> {
        vec![self.assets.get_query()]
    }

    fn get_chunks_mut(&'a mut self) -> (r: Vec<(&'a mut Vec<DeviceModel<F>>, &'a mut Vec<Mat4x4<F>>)>)
        ensures
            ({
                let q: Seq<(&'a mut Vec<DeviceModel<F>>, &'a mut Vec<Mat4x4<F>>)> = r@;
                &&& final(self).assets.models == *final(q[0].0)
                &&& final(self).assets.transforms == *final(q[0].1)
            }),
    {
        vec![self.assets.get_query_mut()]
    }
}

impl<'a, F, A, I, E, C> EntityChunkAccess<
    'a,
    (&'a Vec<A>, &'a Vec<I>, &'a Vec<C>),
    (&'a mut Vec<A>, &'a mut Vec<I>, &'a mut Vec<C>),
> for ArchetypeStorage<F, A, I, E, C> {
    open spec fn chunks(&'a self) -> Seq<(&'a Vec<A>, &'a Vec<I>, &'a Vec<C>)> {
        seq![(&self.application.apps, &self.application.inputs, &self.application.cameras)]
    }

    open spec fn chunks_taken(
        old: Self,
        new: Self,
        r: Seq<(&'a mut Vec<A>, &'a mut Vec<I>, &'a mut Vec<C>)>,
    ) -> bool {
        &&& r.len() == 1
        &&& *r[0].0 == old.application.apps
        &&& *r[0].1 == old.application.inputs
        &&& *r[0].2 == old.application.cameras
        &&& new.application.ids == old.application.ids
        &&& new.application.ui_editor == old.application.ui_editor
        &&& new.renderer == old.renderer
        &&& new.assets == old.assets
    }

    fn get_chunks(&'a self) -> Vec<(&'a Vec<A>, &'a Vec<I>, &'a Vec<C>)> {
        vec![self.application.get_query()]
    }

    fn get_chunks_mut(&'a mut self) -> (r: Vec<(&'a mut Vec<A>, &'a mut Vec<I>, &'a mut Vec<C>)>)
        ensures
            ({
                let q: Seq<(&'a mut Vec<A>, &'a mut Vec<I>, &'a mut Vec<C>)> = r@;
                &&& final(self).application.apps == *final(q[0].0)
                &&& final(self).application.inputs == *final(q[0].1)
                &&& final(self).application.cameras == *final(q[0].2)
            }),
    {
        vec![self.application.get_query_mut()]
    }
}

} // verus!
