//! A table of records with a primary key, kept in the order of insertion.

use vstd::prelude::*;

use crate::text::{lemma_text_le_total, lemma_text_le_transitive, not_after, same_text, text_le};

verus! {

/// The model of a record: a row with a key and the time of its creation.
pub trait Keyed: Sized {
    /// The primary key.
    spec fn key(self) -> Seq<char>;

    /// The time of creation, as text.
    spec fn stamp(self) -> Seq<char>;
}

/// A record that a table holds.
pub trait Record: Sized {
    type Model: Keyed;

    /// What the record stands for.
    spec fn model(&self) -> Self::Model;

    /// The primary key.
    fn key(&self) -> (r: &str)
        ensures
            r@ == self.model().key(),
    ;

    /// The time of creation, as text.
    fn stamp(&self) -> (r: &str)
        ensures
            r@ == self.model().stamp(),
    ;
}

// ---- lookup and change ---------------------------------------------------

/// The first position, at or after `i`, of the row with a key.
pub open spec fn place_from<M: Keyed>(rows: Seq<M>, key: Seq<char>, i: int) -> Option<int>
    decreases rows.len() - i,
{
    if i < 0 || i >= rows.len() {
        None
    } else if rows[i].key() == key {
        Some(i)
    } else {
        place_from(rows, key, i + 1)
    }
}

/// The position of the row with a key.
pub open spec fn place<M: Keyed>(rows: Seq<M>, key: Seq<char>) -> Option<int> {
    place_from(rows, key, 0)
}

/// The row with a key.
pub open spec fn found<M: Keyed>(rows: Seq<M>, key: Seq<char>) -> Option<M> {
    match place(rows, key) {
        Some(i) => Some(rows[i]),
        None => None,
    }
}

/// The rows with one more, or with the row of the same key replaced where it stood.
pub open spec fn with_row<M: Keyed>(rows: Seq<M>, row: M) -> Seq<M> {
    match place(rows, row.key()) {
        Some(i) => rows.update(i, row),
        None => rows.push(row),
    }
}

/// The rows without the one that has a key.
pub open spec fn without<M: Keyed>(rows: Seq<M>, key: Seq<char>) -> Seq<M> {
    match place(rows, key) {
        Some(i) => rows.remove(i),
        None => rows,
    }
}

/// Whether no two rows have the same key.
pub open spec fn unique<M: Keyed>(rows: Seq<M>) -> bool {
    forall|i: int, j: int|
        0 <= i < j < rows.len() ==> (#[trigger] rows[i]).key() != (#[trigger] rows[j]).key()
}

/// A position that was found holds the key, and no position before it does.
pub proof fn lemma_place_from<M: Keyed>(rows: Seq<M>, key: Seq<char>, i: int)
    requires
        0 <= i,
    ensures
        match place_from(rows, key, i) {
            Some(p) => i <= p < rows.len() && rows[p].key() == key && forall|j: int|
                i <= j < p ==> (#[trigger] rows[j]).key() != key,
            None => forall|j: int| i <= j < rows.len() ==> (#[trigger] rows[j]).key() != key,
        },
    decreases rows.len() - i,
{
    if i < rows.len() && rows[i].key() != key {
        lemma_place_from(rows, key, i + 1);
    }
}

/// The position of a key is where it first stands.
pub proof fn lemma_place_at<M: Keyed>(rows: Seq<M>, key: Seq<char>, p: int)
    requires
        0 <= p < rows.len(),
        rows[p].key() == key,
        forall|j: int| 0 <= j < p ==> (#[trigger] rows[j]).key() != key,
    ensures
        place(rows, key) == Some(p),
{
    lemma_place_from(rows, key, 0);
    let q = place(rows, key).unwrap();
    if q < p {
        assert(rows[q].key() != key);
    }
}

/// What was put is what is found.
pub proof fn law_put_is_found<M: Keyed>(rows: Seq<M>, row: M)
    ensures
        found(with_row(rows, row), row.key()) == Some(row),
{
    lemma_place_from(rows, row.key(), 0);
    let next = with_row(rows, row);
    match place(rows, row.key()) {
        Some(p) => {
            assert forall|j: int| 0 <= j < p implies (#[trigger] next[j]).key() != row.key() by {
                assert(next[j] == rows[j]);
            }
            lemma_place_at(next, row.key(), p);
        },
        None => {
            let p = rows.len() as int;
            assert forall|j: int| 0 <= j < p implies (#[trigger] next[j]).key() != row.key() by {
                assert(next[j] == rows[j]);
            }
            lemma_place_at(next, row.key(), p);
        },
    }
}

/// Putting a row leaves what is found under every other key.
pub proof fn law_put_leaves_others<M: Keyed>(rows: Seq<M>, row: M, key: Seq<char>)
    requires
        key != row.key(),
    ensures
        found(with_row(rows, row), key) == found(rows, key),
{
    lemma_place_from(rows, row.key(), 0);
    lemma_place_from(rows, key, 0);
    let next = with_row(rows, row);
    lemma_place_from(next, key, 0);
    match place(rows, key) {
        Some(p) => {
            assert(next[p] == rows[p]);
            assert forall|j: int| 0 <= j < p implies (#[trigger] next[j]).key() != key by {
                assert(rows[j].key() != key);
            }
            lemma_place_at(next, key, p);
        },
        None => {
            match place(next, key) {
                Some(q) => {
                    assert(next[q] == row || next[q] == rows[q]);
                },
                None => {},
            }
        },
    }
}

/// Putting a row keeps the keys apart.
pub proof fn law_put_keeps_keys_unique<M: Keyed>(rows: Seq<M>, row: M)
    requires
        unique(rows),
    ensures
        unique(with_row(rows, row)),
{
    lemma_place_from(rows, row.key(), 0);
    let next = with_row(rows, row);
    assert forall|i: int, j: int| 0 <= i < j < next.len() implies (#[trigger] next[i]).key() != (
    #[trigger] next[j]).key() by {
        match place(rows, row.key()) {
            Some(p) => {
                assert(rows[i].key() != rows[j].key());
                assert(rows[p].key() == row.key());
                assert(next[i].key() == rows[i].key());
                assert(next[j].key() == rows[j].key());
            },
            None => {
                assert(next[i] == rows[i]);
                if j < rows.len() {
                    assert(next[j] == rows[j]);
                }
            },
        }
    }
}

/// What was removed is not found.
pub proof fn law_removed_is_not_found<M: Keyed>(rows: Seq<M>, key: Seq<char>)
    requires
        unique(rows),
    ensures
        found(without(rows, key), key) is None,
{
    lemma_place_from(rows, key, 0);
    let next = without(rows, key);
    lemma_place_from(next, key, 0);
    match (place(rows, key), place(next, key)) {
        (Some(p), Some(q)) => {
            let from = if q < p {
                q
            } else {
                q + 1
            };
            assert(next[q] == rows[from]);
            assert(rows[p].key() == rows[from].key());
        },
        _ => {},
    }
}

/// Removing a key leaves what is found under every other key.
pub proof fn law_removal_leaves_others<M: Keyed>(rows: Seq<M>, removed: Seq<char>, key: Seq<char>)
    requires
        key != removed,
    ensures
        found(without(rows, removed), key) == found(rows, key),
{
    lemma_place_from(rows, removed, 0);
    lemma_place_from(rows, key, 0);
    let next = without(rows, removed);
    lemma_place_from(next, key, 0);
    match place(rows, removed) {
        Some(d) => {
            match place(rows, key) {
                Some(p) => {
                    let to = if p < d {
                        p
                    } else {
                        p - 1
                    };
                    assert(next[to] == rows[p]);
                    assert forall|j: int| 0 <= j < to implies (#[trigger] next[j]).key() != key by {
                        let from = if j < d {
                            j
                        } else {
                            j + 1
                        };
                        assert(next[j] == rows[from]);
                        assert(rows[from].key() != key);
                    }
                    lemma_place_at(next, key, to);
                },
                None => {
                    match place(next, key) {
                        Some(q) => {
                            let from = if q < d {
                                q
                            } else {
                                q + 1
                            };
                            assert(next[q] == rows[from]);
                            assert(rows[from].key() != key);
                        },
                        None => {},
                    }
                },
            }
        },
        None => {},
    }
}

/// What is left after a removal was there before.
pub proof fn lemma_left_was_there<M: Keyed>(rows: Seq<M>, key: Seq<char>, i: int)
    requires
        0 <= i < without(rows, key).len(),
    ensures
        exists|k: int| 0 <= k < rows.len() && without(rows, key)[i] == #[trigger] rows[k],
{
    lemma_place_from(rows, key, 0);
    match place(rows, key) {
        Some(p) => {
            let from = if i < p {
                i
            } else {
                i + 1
            };
            assert(without(rows, key)[i] == rows[from]);
        },
        None => {
            assert(without(rows, key)[i] == rows[i]);
        },
    }
}

/// Removing a key keeps the keys apart.
pub proof fn law_removal_keeps_keys_unique<M: Keyed>(rows: Seq<M>, key: Seq<char>)
    requires
        unique(rows),
    ensures
        unique(without(rows, key)),
{
    lemma_place_from(rows, key, 0);
    match place(rows, key) {
        Some(p) => {
            let next = without(rows, key);
            assert forall|i: int, j: int| 0 <= i < j < next.len() implies (
            #[trigger] next[i]).key() != (#[trigger] next[j]).key() by {
                let a = if i < p {
                    i
                } else {
                    i + 1
                };
                let b = if j < p {
                    j
                } else {
                    j + 1
                };
                assert(next[i] == rows[a]);
                assert(next[j] == rows[b]);
                assert(rows[a].key() != rows[b].key());
            }
        },
        None => {},
    }
}

// ---- creation order ------------------------------------------------------

/// Sorted rows with one more, which stands after all rows that are not newer.
pub open spec fn sorted_in<M: Keyed>(sorted: Seq<M>, row: M) -> Seq<M>
    decreases sorted.len(),
{
    if sorted.len() == 0 || text_le(sorted.last().stamp(), row.stamp()) {
        sorted.push(row)
    } else {
        sorted_in(sorted.drop_last(), row).push(sorted.last())
    }
}

/// The rows by the time of their creation, the oldest first; rows of one time keep their
/// order.
pub open spec fn by_creation<M: Keyed>(rows: Seq<M>) -> Seq<M>
    decreases rows.len(),
{
    if rows.len() == 0 {
        Seq::empty()
    } else {
        sorted_in(by_creation(rows.drop_last()), rows.last())
    }
}

/// Whether rows stand with the oldest first.
pub open spec fn oldest_first<M: Keyed>(rows: Seq<M>) -> bool {
    forall|i: int, j: int|
        0 <= i <= j < rows.len() ==> text_le((#[trigger] rows[i]).stamp(), (
        #[trigger] rows[j]).stamp())
}

proof fn lemma_sorted_in<M: Keyed>(sorted: Seq<M>, row: M)
    requires
        oldest_first(sorted),
    ensures
        oldest_first(sorted_in(sorted, row)),
        sorted_in(sorted, row).to_multiset() == sorted.to_multiset().insert(row),
    decreases sorted.len(),
{
    broadcast use vstd::seq_lib::group_to_multiset_ensures;

    let next = sorted_in(sorted, row);
    lemma_text_le_total(row.stamp(), row.stamp());
    if sorted.len() == 0 || text_le(sorted.last().stamp(), row.stamp()) {
        assert forall|i: int, j: int| 0 <= i <= j < next.len() implies text_le(
            (#[trigger] next[i]).stamp(),
            (#[trigger] next[j]).stamp(),
        ) by {
            if i < sorted.len() {
                assert(next[i] == sorted[i]);
                if j < sorted.len() {
                    assert(next[j] == sorted[j]);
                } else {
                    assert(text_le(sorted[i].stamp(), sorted[sorted.len() - 1].stamp()));
                    lemma_text_le_transitive(
                        sorted[i].stamp(),
                        sorted.last().stamp(),
                        row.stamp(),
                    );
                }
            }
        }
    } else {
        let rest = sorted.drop_last();
        assert(oldest_first(rest)) by {
            assert forall|i: int, j: int| 0 <= i <= j < rest.len() implies text_le(
                (#[trigger] rest[i]).stamp(),
                (#[trigger] rest[j]).stamp(),
            ) by {
                assert(rest[i] == sorted[i] && rest[j] == sorted[j]);
            }
        }
        lemma_sorted_in(rest, row);
        let head = sorted_in(rest, row);
        let newest = sorted.last();
        lemma_text_le_total(newest.stamp(), row.stamp());
        lemma_text_le_total(newest.stamp(), newest.stamp());
        assert(rest.push(newest) =~= sorted);
        assert(next.to_multiset() == head.to_multiset().insert(newest));
        assert(sorted.to_multiset() == rest.to_multiset().insert(newest));
        assert(next.to_multiset() =~= sorted.to_multiset().insert(row));
        assert forall|i: int, j: int| 0 <= i <= j < next.len() implies text_le(
            (#[trigger] next[i]).stamp(),
            (#[trigger] next[j]).stamp(),
        ) by {
            if i < head.len() {
                assert(next[i] == head[i]);
                if j < head.len() {
                    assert(next[j] == head[j]);
                } else {
                    lemma_members(rest, row, i);
                    if head[i] != row {
                        let k = choose|k: int| 0 <= k < rest.len() && head[i] == rest[k];
                        assert(text_le(sorted[k].stamp(), sorted[sorted.len() - 1].stamp()));
                    }
                }
            }
        }
    }
}

proof fn lemma_members<M: Keyed>(sorted: Seq<M>, row: M, i: int)
    requires
        0 <= i < sorted_in(sorted, row).len(),
    ensures
        sorted_in(sorted, row)[i] == row || exists|k: int|
            0 <= k < sorted.len() && sorted_in(sorted, row)[i] == sorted[k],
        sorted_in(sorted, row).len() == sorted.len() + 1,
    decreases sorted.len(),
{
    let next = sorted_in(sorted, row);
    if sorted.len() == 0 || text_le(sorted.last().stamp(), row.stamp()) {
        if i < sorted.len() {
            assert(next[i] == sorted[i]);
        }
    } else {
        let rest = sorted.drop_last();
        let head = sorted_in(rest, row);
        lemma_members(rest, row, 0);
        if i < head.len() {
            lemma_members(rest, row, i);
            assert(next[i] == head[i]);
            if head[i] != row {
                let k = choose|k: int| 0 <= k < rest.len() && head[i] == rest[k];
                assert(sorted[k] == rest[k]);
            }
        } else {
            assert(next[i] == sorted[sorted.len() - 1]);
        }
    }
}

/// Ordering by creation puts the oldest first, and loses, adds and doubles no row.
pub proof fn law_by_creation_sorts<M: Keyed>(rows: Seq<M>)
    ensures
        oldest_first(by_creation(rows)),
        by_creation(rows).to_multiset() == rows.to_multiset(),
    decreases rows.len(),
{
    broadcast use vstd::seq_lib::group_to_multiset_ensures;

    if rows.len() > 0 {
        law_by_creation_sorts(rows.drop_last());
        lemma_sorted_in(by_creation(rows.drop_last()), rows.last());
        assert(rows.drop_last().push(rows.last()) =~= rows);
    }
}

// ---- the table -----------------------------------------------------------

/// Records in the order of their insertion.
#[derive(Debug)]
pub struct Table<R: Record> {
    pub rows: Vec<R>,
}

/// What records stand for.
pub open spec fn models<R: Record>(rows: Seq<R>) -> Seq<R::Model> {
    Seq::new(rows.len(), |i: int| rows[i].model())
}

/// What the records at some positions stand for.
pub open spec fn models_at<M>(rows: Seq<M>, order: Seq<usize>) -> Seq<M> {
    Seq::new(order.len(), |i: int| rows[order[i] as int])
}

impl<R: Record> View for Table<R> {
    type V = Seq<R::Model>;

    open spec fn view(&self) -> Seq<R::Model> {
        models(self.rows@)
    }
}

impl<R: Record> Table<R> {
    /// An empty table.
    pub fn new() -> (r: Table<R>)
        ensures
            r@ == Seq::<R::Model>::empty(),
    {
        let rows: Vec<R> = Vec::new();
        let table = Table { rows };
        assert(table@ =~= Seq::<R::Model>::empty());
        table
    }

    /// The position of the record with a key.
    pub fn position(&self, key: &str) -> (r: Option<usize>)
        ensures
            match r {
                Some(i) => place(self@, key@) == Some(i as int) && i < self.rows@.len(),
                None => place(self@, key@) is None,
            },
    {
        let mut i: usize = 0;
        while i < self.rows.len()
            invariant
                0 <= i <= self.rows@.len(),
                place(self@, key@) == place_from(self@, key@, i as int),
            decreases self.rows@.len() - i,
        {
            if same_text(self.rows[i].key(), key) {
                return Some(i);
            }
            i = i + 1;
        }
        None
    }

    /// The record with a key.
    pub fn get(&self, key: &str) -> (r: Option<&R>)
        ensures
            match r {
                Some(row) => found(self@, key@) == Some(row.model()),
                None => found(self@, key@) is None,
            },
    {
        match self.position(key) {
            Some(i) => Some(&self.rows[i]),
            None => None,
        }
    }

    /// Whether no two records have the same key.
    pub fn has_unique_keys(&self) -> (r: bool)
        ensures
            r == unique(self@),
    {
        for i in 0..self.rows.len()
            invariant
                forall|p: int, q: int|
                    0 <= p < q < i ==> (#[trigger] self@[p]).key() != (#[trigger] self@[q]).key(),
        {
            let first = self.position(self.rows[i].key());
            let ghost key = self@[i as int].key();
            proof {
                lemma_place_from(self@, key, 0);
            }
            match first {
                Some(p) => {
                    if p < i {
                        assert(self@[p as int].key() == self@[i as int].key());
                        return false;
                    }
                    assert forall|j: int| 0 <= j < i implies (#[trigger] self@[j]).key() != key by {
                        assert(j < p);
                    }
                },
                None => {},
            }
        }
        true
    }

    /// Puts a record: in the place of the one with its key, or at the end.
    pub fn put(&mut self, row: R)
        ensures
            final(self)@ == with_row(old(self)@, row.model()),
    {
        let at = self.position(row.key());
        let ghost before = self@;
        let ghost model = row.model();
        match at {
            Some(i) => {
                self.rows.set(i, row);
                assert(self@ =~= before.update(i as int, model));
            },
            None => {
                self.rows.push(row);
                assert(self@ =~= before.push(model));
            },
        }
    }

    /// Removes the record with a key, and says whether there was one.
    pub fn remove(&mut self, key: &str) -> (r: bool)
        ensures
            final(self)@ == without(old(self)@, key@),
            r == (found(old(self)@, key@) is Some),
    {
        let ghost before = self@;
        match self.position(key) {
            Some(i) => {
                self.rows.remove(i);
                assert(self@ =~= before.remove(i as int));
                true
            },
            None => false,
        }
    }

    /// The positions of the records by the time of their creation.
    pub fn creation_order(&self) -> (r: Vec<usize>)
        ensures
            forall|i: int| 0 <= i < r@.len() ==> #[trigger] r@[i] < self.rows@.len(),
            models_at(self@, r@) == by_creation(self@),
    {
        let mut order: Vec<usize> = Vec::new();
        let ghost all = self@;
        assert(all.take(0) =~= Seq::<R::Model>::empty());
        assert(models_at(all, order@) =~= Seq::<R::Model>::empty());
        for i in 0..self.rows.len()
            invariant
                all == self@,
                all.len() == self.rows@.len(),
                forall|j: int| 0 <= j < order@.len() ==> #[trigger] order@[j] < i,
                models_at(all, order@) == by_creation(all.take(i as int)),
        {
            assert(all.take(i + 1).drop_last() =~= all.take(i as int));
            let ghost sorted = models_at(all, order@);
            let ghost row = all[i as int];
            let mut p: usize = order.len();
            assert(sorted.take(p as int) =~= sorted);
            assert(sorted.skip(p as int) =~= Seq::<R::Model>::empty());
            assert(sorted_in(sorted.take(p as int), row) + sorted.skip(p as int) =~= sorted_in(
                sorted,
                row,
            ));
            while p > 0 && !not_after(self.rows[order[p - 1]].stamp(), self.rows[i].stamp())
                invariant
                    i < self.rows@.len(),
                    all == self@,
                    row == all[i as int],
                    p <= order@.len(),
                    sorted == models_at(all, order@),
                    forall|j: int| 0 <= j < order@.len() ==> #[trigger] order@[j] < i,
                    sorted_in(sorted.take(p as int), row) + sorted.skip(p as int) == sorted_in(
                        sorted,
                        row,
                    ),
                decreases p,
            {
                let ghost head = sorted.take(p as int);
                assert(head.drop_last() =~= sorted.take(p - 1));
                assert(head.last() == all[order@[p - 1] as int]);
                p = p - 1;
                assert(sorted_in(sorted.take(p as int), row).push(sorted[p as int]) + sorted.skip(
                    p + 1,
                ) =~= sorted_in(sorted.take(p as int), row) + sorted.skip(p as int));
            }
            proof {
                let head = sorted.take(p as int);
                if p > 0 {
                    assert(head.last() == all[order@[p - 1] as int]);
                }
                assert(sorted_in(head, row) == head.push(row));
            }
            let ghost before = order@;
            order.insert(p, i);
            assert(models_at(all, order@) =~= sorted.take(p as int).push(row) + sorted.skip(
                p as int,
            ));
            assert forall|j: int| 0 <= j < order@.len() implies #[trigger] order@[j] < i + 1 by {
                if j < p {
                    assert(order@[j] == before[j]);
                } else if j > p {
                    assert(order@[j] == before[j - 1]);
                }
            }
        }
        assert(all.take(all.len() as int) =~= all);
        order
    }
}

} // verus!
