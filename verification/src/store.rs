//! The ledger store: a table of session rows keyed by a store-assigned id.
//!
//! The store itself validates nothing beyond the shape the caller owes it
//! (`record_valid`); business rules live with the callers. Ids are assigned
//! in insertion order, so they increase strictly along the table. Deletes
//! are unconditional and deleting an absent row succeeds.

use vstd::prelude::*;
use crate::dates::{DateTime, datetime_valid};
use crate::order::str_eq;
use crate::records::{GameInstance, StoreError, record_valid, is_open, session_coherent};
use crate::sorting::{lemma_filter_take_step, lemma_filter_is_subset};

verus! {

/// The session ledger: rows in insertion order, plus the next id to assign.
pub struct Database {
    records: Vec<GameInstance>,
    next_id: i16,
}

impl View for Database {
    type V = Seq<GameInstance>;

    closed spec fn view(&self) -> Seq<GameInstance> {
        self.records@
    }
}

/// The predicate selecting the rows that survive a delete by id.
pub open spec fn keeps_id(id: i16) -> spec_fn(GameInstance) -> bool {
    |g: GameInstance| g.id != id
}

/// The predicate selecting the rows that survive a delete by pair.
pub open spec fn keeps_pair(c: Seq<char>, n: Seq<char>) -> spec_fn(GameInstance) -> bool {
    |g: GameInstance| !(g.category_name@ == c && g.instance_name@ == n)
}

/// The row that an insert with these values appends.
pub open spec fn row(
    id: i16,
    category_name: String,
    instance_name: String,
    price_per_hour: u64,
    elapsed_time: Option<i64>,
    total_cost: u64,
    start_time: DateTime,
    end_time: Option<DateTime>,
) -> GameInstance {
    GameInstance {
        id,
        category_name,
        instance_name,
        price_per_hour,
        elapsed_time,
        total_cost,
        start_time,
        end_time,
    }
}

impl Database {
    pub closed spec fn spec_next_id(&self) -> i16 {
        self.next_id
    }

    /// Store invariant: ids are at least 1, strictly increasing along the
    /// table, below the next id to assign, and every row is well shaped.
    pub open spec fn wf(&self) -> bool {
        &&& self.spec_next_id() >= 1
        &&& forall|i: int, j: int|
            0 <= i < j < self@.len() ==> #[trigger] self@[i].id < #[trigger] self@[j].id
        &&& forall|i: int| 0 <= i < self@.len() ==> 1 <= (#[trigger] self@[i]).id
        &&& forall|i: int| 0 <= i < self@.len() ==> (#[trigger] self@[i]).id < self.spec_next_id()
        &&& forall|i: int| 0 <= i < self@.len() ==> record_valid(#[trigger] self@[i])
    }

    /// An empty ledger.
    pub fn new() -> (db: Database)
        ensures
            db.wf(),
            db@ == Seq::<GameInstance>::empty(),
            db.spec_next_id() == 1,
    {
        let db = Database { records: Vec::new(), next_id: 1 };
        proof {
            assert(db@ =~= Seq::<GameInstance>::empty());
        }
        db
    }

    /// Append one row exactly as given, under a fresh id. Fails only when
    /// the id space is exhausted.
    pub fn insert_game(
        &mut self,
        category_name: String,
        instance_name: String,
        price_per_hour: u64,
        elapsed_time: Option<i64>,
        total_cost: u64,
        start_time: DateTime,
        end_time: Option<DateTime>,
    ) -> (r: Result<i16, StoreError>)
        requires
            old(self).wf(),
            category_name@.len() > 0,
            instance_name@.len() > 0,
            price_per_hour > 0,
            datetime_valid(start_time),
            end_time matches Some(t) ==> datetime_valid(t),
        ensures
            final(self).wf(),
            r is Err <==> old(self).spec_next_id() == i16::MAX,
            r matches Err(e) ==> e == StoreError::IdSpaceExhausted && *final(self) == *old(self),
            r matches Ok(id) ==> {
                &&& id == old(self).spec_next_id()
                &&& final(self).spec_next_id() == old(self).spec_next_id() + 1
                &&& final(self)@ == old(self)@.push(
                    row(
                        id,
                        category_name,
                        instance_name,
                        price_per_hour,
                        elapsed_time,
                        total_cost,
                        start_time,
                        end_time,
                    ),
                )
            },
    {
        if self.next_id == i16::MAX {
            return Err(StoreError::IdSpaceExhausted);
        }
        let id = self.next_id;
        self.next_id = self.next_id + 1;
        let rec = GameInstance {
            id,
            category_name,
            instance_name,
            price_per_hour,
            elapsed_time,
            total_cost,
            start_time,
            end_time,
        };
        self.records.push(rec);
        Ok(id)
    }

    /// Open a session: a fresh row with zero cost, no elapsed time and no
    /// end timestamp.
    pub fn open_session(
        &mut self,
        category_name: String,
        instance_name: String,
        price_per_hour: u64,
        start_time: DateTime,
    ) -> (r: Result<i16, StoreError>)
        requires
            old(self).wf(),
            category_name@.len() > 0,
            instance_name@.len() > 0,
            price_per_hour > 0,
            datetime_valid(start_time),
        ensures
            final(self).wf(),
            r is Err <==> old(self).spec_next_id() == i16::MAX,
            r matches Err(e) ==> e == StoreError::IdSpaceExhausted && *final(self) == *old(self),
            r matches Ok(id) ==> {
                &&& id == old(self).spec_next_id()
                &&& final(self).spec_next_id() == old(self).spec_next_id() + 1
                &&& final(self)@ == old(self)@.push(
                    row(id, category_name, instance_name, price_per_hour, None, 0, start_time, None),
                )
                &&& is_open(final(self)@.last())
                &&& session_coherent(final(self)@.last())
            },
    {
        self.insert_game(category_name, instance_name, price_per_hour, None, 0, start_time, None)
    }

    /// Close a session: a second row for the same logical session, carrying
    /// the final elapsed time, a positive cost, and the end timestamp.
    pub fn close_session(
        &mut self,
        category_name: String,
        instance_name: String,
        price_per_hour: u64,
        elapsed_time: Option<i64>,
        total_cost: u64,
        start_time: DateTime,
        end_time: DateTime,
    ) -> (r: Result<i16, StoreError>)
        requires
            old(self).wf(),
            category_name@.len() > 0,
            instance_name@.len() > 0,
            price_per_hour > 0,
            total_cost > 0,
            datetime_valid(start_time),
            datetime_valid(end_time),
        ensures
            final(self).wf(),
            r is Err <==> old(self).spec_next_id() == i16::MAX,
            r matches Err(e) ==> e == StoreError::IdSpaceExhausted && *final(self) == *old(self),
            r matches Ok(id) ==> {
                &&& id == old(self).spec_next_id()
                &&& final(self).spec_next_id() == old(self).spec_next_id() + 1
                &&& final(self)@ == old(self)@.push(
                    row(
                        id,
                        category_name,
                        instance_name,
                        price_per_hour,
                        elapsed_time,
                        total_cost,
                        start_time,
                        Some(end_time),
                    ),
                )
                &&& !is_open(final(self)@.last())
                &&& session_coherent(final(self)@.last())
            },
    {
        self.insert_game(
            category_name,
            instance_name,
            price_per_hour,
            elapsed_time,
            total_cost,
            start_time,
            Some(end_time),
        )
    }

    /// Remove the row with this id, if any; removing an absent id succeeds.
    pub fn delete_game_by_id(&mut self, id: i16) -> (r: Result<(), StoreError>)
        requires
            old(self).wf(),
        ensures
            final(self).wf(),
            r is Ok,
            final(self).spec_next_id() == old(self).spec_next_id(),
            final(self)@ == old(self)@.filter(keeps_id(id)),
    {
        let ghost orig = self.records@;
        let ghost pred = keeps_id(id);
        let mut kept: Vec<GameInstance> = Vec::new();
        let mut i: usize = 0;
        proof {
            assert(orig.take(0) =~= Seq::<GameInstance>::empty());
            reveal(Seq::filter);
        }
        while i < self.records.len()
            invariant
                orig == self@,
                self.wf(),
                0 <= i <= orig.len(),
                kept@ == orig.take(i as int).filter(pred),
                pred == keeps_id(id),
            decreases orig.len() - i,
        {
            proof {
                lemma_filter_take_step(orig, i as int, pred);
            }
            if self.records[i].id != id {
                let g = self.records[i].clone();
                kept.push(g);
            }
            i = i + 1;
        }
        proof {
            assert(orig.take(orig.len() as int) =~= orig);
            lemma_filter_keeps_store_shape(orig, pred, self.spec_next_id());
        }
        self.records = kept;
        Ok(())
    }

    /// Remove every row of this category and instance pair; removing an
    /// absent pair succeeds.
    pub fn delete_game_by_category_and_instance(
        &mut self,
        category_name: &str,
        instance_name: &str,
    ) -> (r: Result<(), StoreError>)
        requires
            old(self).wf(),
        ensures
            final(self).wf(),
            r is Ok,
            final(self).spec_next_id() == old(self).spec_next_id(),
            final(self)@ == old(self)@.filter(keeps_pair(category_name@, instance_name@)),
    {
        let ghost orig = self.records@;
        let ghost pred = keeps_pair(category_name@, instance_name@);
        let mut kept: Vec<GameInstance> = Vec::new();
        let mut i: usize = 0;
        proof {
            assert(orig.take(0) =~= Seq::<GameInstance>::empty());
            reveal(Seq::filter);
        }
        while i < self.records.len()
            invariant
                orig == self@,
                self.wf(),
                0 <= i <= orig.len(),
                kept@ == orig.take(i as int).filter(pred),
                pred == keeps_pair(category_name@, instance_name@),
            decreases orig.len() - i,
        {
            proof {
                lemma_filter_take_step(orig, i as int, pred);
            }
            let same_cat = str_eq(self.records[i].category_name.as_str(), category_name);
            let same_inst = str_eq(self.records[i].instance_name.as_str(), instance_name);
            if !(same_cat && same_inst) {
                let g = self.records[i].clone();
                kept.push(g);
            }
            i = i + 1;
        }
        proof {
            assert(orig.take(orig.len() as int) =~= orig);
            lemma_filter_keeps_store_shape(orig, pred, self.spec_next_id());
        }
        self.records = kept;
        Ok(())
    }

    /// The rows of the ledger, in insertion order.
    pub fn rows(&self) -> (r: &Vec<GameInstance>)
        ensures
            r@ == self@,
    {
        &self.records
    }
}

/// Filtering keeps the relative order of rows, so a filtered ledger still
/// has strictly increasing ids, and keeps every per-row condition.
proof fn lemma_filter_increasing(s: Seq<GameInstance>, pred: spec_fn(GameInstance) -> bool)
    requires
        forall|i: int, j: int| 0 <= i < j < s.len() ==> #[trigger] s[i].id < #[trigger] s[j].id,
    ensures
        forall|i: int, j: int|
            0 <= i < j < s.filter(pred).len() ==> #[trigger] s.filter(pred)[i].id
                < #[trigger] s.filter(pred)[j].id,
    decreases s.len(),
{
    reveal(Seq::filter);
    if s.len() > 0 {
        let sub = s.drop_last();
        assert(forall|i: int| 0 <= i < sub.len() ==> sub[i] == s[i]);
        lemma_filter_increasing(sub, pred);
        lemma_filter_is_subset(sub, pred);
        let f = s.filter(pred);
        if pred(s.last()) {
            assert(f == sub.filter(pred).push(s.last()));
            assert forall|i: int, j: int| 0 <= i < j < f.len() implies #[trigger] f[i].id
                < #[trigger] f[j].id by {
                if j == f.len() - 1 {
                    assert(sub.filter(pred).contains(f[i]));
                    assert(sub.contains(f[i]));
                    let k = choose|k: int| 0 <= k < sub.len() && sub[k] == f[i];
                    assert(s[k].id < s.last().id);
                }
            }
        }
    }
}

proof fn lemma_filter_keeps_store_shape(
    s: Seq<GameInstance>,
    pred: spec_fn(GameInstance) -> bool,
    next: i16,
)
    requires
        forall|i: int, j: int| 0 <= i < j < s.len() ==> #[trigger] s[i].id < #[trigger] s[j].id,
        forall|i: int| 0 <= i < s.len() ==> 1 <= (#[trigger] s[i]).id,
        forall|i: int| 0 <= i < s.len() ==> (#[trigger] s[i]).id < next,
        forall|i: int| 0 <= i < s.len() ==> record_valid(#[trigger] s[i]),
    ensures
        forall|i: int, j: int|
            0 <= i < j < s.filter(pred).len() ==> #[trigger] s.filter(pred)[i].id
                < #[trigger] s.filter(pred)[j].id,
        forall|i: int| 0 <= i < s.filter(pred).len() ==> 1 <= (#[trigger] s.filter(pred)[i]).id,
        forall|i: int|
            0 <= i < s.filter(pred).len() ==> (#[trigger] s.filter(pred)[i]).id < next,
        forall|i: int| 0 <= i < s.filter(pred).len() ==> record_valid(#[trigger] s.filter(pred)[i]),
{
    lemma_filter_increasing(s, pred);
    lemma_filter_is_subset(s, pred);
    let f = s.filter(pred);
    assert forall|i: int|
        0 <= i < f.len() implies 1 <= (#[trigger] f[i]).id < next && record_valid(f[i]) by {
        assert(f.contains(f[i]));
        assert(s.contains(f[i]));
        let k = choose|k: int| 0 <= k < s.len() && s[k] == f[i];
        assert(1 <= s[k].id < next && record_valid(s[k]));
    }
}

} // verus!
