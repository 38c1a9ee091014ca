//! The currently-active view of the ledger.
//!
//! For every distinct instance name that has an open row, the view surfaces
//! the open row with the latest start timestamp; among open rows that share
//! that timestamp the one inserted last (the highest id) stands. Instance
//! names group across categories, so an instance name is a cross-category
//! key for current activity. The list is ordered by category, instance,
//! then id.

use vstd::prelude::*;
use vstd::relations::sorted_by;
use crate::dates::{datetime_le, datetime_le_exec, lemma_datetime_le_total,
    lemma_datetime_le_trans};
use crate::records::{GameInstance, is_open};
use crate::sorting::{sort_records, record_leq};
use crate::store::Database;
use crate::order::str_eq;

verus! {

/// `b` is at least as current as `a`: a later start timestamp, or the same
/// timestamp and an id at least as high.
pub open spec fn at_most_as_current(a: GameInstance, b: GameInstance) -> bool {
    &&& datetime_le(a.start_time, b.start_time)
    &&& (a.start_time == b.start_time ==> a.id <= b.id)
}

impl Database {
    /// One row per instance name that has an open session: its most recent
    /// open row, in report order.
    pub fn get_game_instances(&self) -> (r: Vec<GameInstance>)
        requires
            self.wf(),
        ensures
            sorted_by(r@, record_leq()),
            forall|i: int|
                0 <= i < r@.len() ==> is_open(#[trigger] r@[i]) && self@.contains(r@[i]),
            forall|i: int, j: int|
                0 <= i < r@.len() && 0 <= j < r@.len() && i != j ==> r@[i].instance_name@
                    != r@[j].instance_name@,
            forall|i: int, k: int|
                0 <= i < r@.len() && 0 <= k < self@.len() && is_open(#[trigger] self@[k])
                    && self@[k].instance_name@ == (#[trigger] r@[i]).instance_name@
                    ==> at_most_as_current(self@[k], r@[i]),
            forall|k: int|
                0 <= k < self@.len() && is_open(#[trigger] self@[k]) ==> exists|i: int|
                    0 <= i < r@.len() && r@[i].instance_name@ == self@[k].instance_name@,
    {
        let rows = self.rows();
        let mut acc: Vec<GameInstance> = Vec::new();
        let mut i: usize = 0;
        while i < rows.len()
            invariant
                rows@ == self@,
                self.wf(),
                0 <= i <= self@.len(),
                forall|a: int|
                    0 <= a < acc@.len() ==> is_open(#[trigger] acc@[a]) && self@.take(
                        i as int,
                    ).contains(acc@[a]),
                forall|a: int, b: int|
                    0 <= a < acc@.len() && 0 <= b < acc@.len() && a != b ==> acc@[a].instance_name@
                        != acc@[b].instance_name@,
                forall|a: int, k: int|
                    0 <= a < acc@.len() && 0 <= k < i && is_open(#[trigger] self@[k])
                        && self@[k].instance_name@ == (#[trigger] acc@[a]).instance_name@
                        ==> at_most_as_current(self@[k], acc@[a]),
                forall|k: int|
                    0 <= k < i && is_open(#[trigger] self@[k]) ==> exists|a: int|
                        0 <= a < acc@.len() && acc@[a].instance_name@
                            == self@[k].instance_name@,
            decreases self@.len() - i,
        {
            let ghost prev = acc@;
            let g = &rows[i];
            proof {
                assert(self@.take(i as int + 1)[i as int] == self@[i as int]);
                assert forall|x: GameInstance|
                    self@.take(i as int).contains(x) implies self@.take(i as int + 1).contains(
                    x,
                ) by {
                    let k = choose|k: int|
                        0 <= k < self@.take(i as int).len() && self@.take(i as int)[k] == x;
                    assert(self@.take(i as int + 1)[k] == x);
                }
            }
            if g.total_cost == 0 {
                let mut j: usize = 0;
                let mut found: bool = false;
                let mut at: usize = 0;
                while j < acc.len() && !found
                    invariant
                        rows@ == self@,
                        0 <= i < self@.len(),
                        acc@ == prev,
                        0 <= j <= acc@.len(),
                        !found ==> forall|n: int|
                            0 <= n < j ==> (#[trigger] acc@[n]).instance_name@
                                != self@[i as int].instance_name@,
                        found ==> at < acc@.len() && acc@[at as int].instance_name@
                            == self@[i as int].instance_name@,
                    decreases acc@.len() - j, (if found { 0int } else { 1int }),
                {
                    if str_eq(acc[j].instance_name.as_str(), rows[i].instance_name.as_str()) {
                        found = true;
                        at = j;
                    } else {
                        j = j + 1;
                    }
                }
                if found {
                    let keep_new = datetime_le_exec(&acc[at].start_time, &rows[i].start_time);
                    if keep_new {
                        let newg = rows[i].clone();
                        acc[at] = newg;
                        proof {
                            let gi = self@[i as int];
                            assert(acc@ =~= prev.update(at as int, gi));
                            assert forall|a: int, k: int|
                                0 <= a < acc@.len() && 0 <= k < i + 1 && is_open(
                                    #[trigger] self@[k],
                                ) && self@[k].instance_name@
                                    == (#[trigger] acc@[a]).instance_name@ implies at_most_as_current(
                                self@[k],
                                acc@[a],
                            ) by {
                                if a == at {
                                    if k < i {
                                        assert(at_most_as_current(self@[k], prev[at as int]));
                                        lemma_datetime_le_trans(
                                            self@[k].start_time,
                                            prev[at as int].start_time,
                                            gi.start_time,
                                        );
                                        assert(self@[k].id < gi.id);
                                    }
                                } else {
                                    if k == i {
                                        assert(acc@[a].instance_name@ != gi.instance_name@);
                                    }
                                }
                            }
                            assert forall|k: int|
                                0 <= k < i + 1 && is_open(#[trigger] self@[k]) implies exists|a: int|
                                0 <= a < acc@.len() && acc@[a].instance_name@
                                    == self@[k].instance_name@ by {
                                if k < i {
                                    let a = choose|a: int|
                                        0 <= a < prev.len() && prev[a].instance_name@
                                            == self@[k].instance_name@;
                                    assert(acc@[a].instance_name@ == self@[k].instance_name@);
                                } else {
                                    assert(acc@[at as int].instance_name@
                                        == self@[k].instance_name@);
                                }
                            }
                        }
                    } else {
                        proof {
                            let gi = self@[i as int];
                            lemma_datetime_le_total(
                                prev[at as int].start_time,
                                gi.start_time,
                            );
                            assert forall|a: int, k: int|
                                0 <= a < acc@.len() && 0 <= k < i + 1 && is_open(
                                    #[trigger] self@[k],
                                ) && self@[k].instance_name@
                                    == (#[trigger] acc@[a]).instance_name@ implies at_most_as_current(
                                self@[k],
                                acc@[a],
                            ) by {
                                if k == i && a == at as int {
                                    assert(datetime_le(gi.start_time, prev[at as int].start_time));
                                    assert(gi.start_time != prev[at as int].start_time);
                                }
                            }
                            assert forall|k: int|
                                0 <= k < i + 1 && is_open(#[trigger] self@[k]) implies exists|a: int|
                                0 <= a < acc@.len() && acc@[a].instance_name@
                                    == self@[k].instance_name@ by {
                                if k == i {
                                    assert(acc@[at as int].instance_name@
                                        == self@[k].instance_name@);
                                }
                            }
                        }
                    }
                } else {
                    let newg = rows[i].clone();
                    acc.push(newg);
                    proof {
                        let gi = self@[i as int];
                        assert(acc@ =~= prev.push(gi));
                        assert forall|a: int, k: int|
                            0 <= a < acc@.len() && 0 <= k < i + 1 && is_open(#[trigger] self@[k])
                                && self@[k].instance_name@
                                == (#[trigger] acc@[a]).instance_name@ implies at_most_as_current(
                            self@[k],
                            acc@[a],
                        ) by {
                            if a == acc@.len() - 1 {
                                if k < i {
                                    assert(exists|b: int|
                                        0 <= b < prev.len() && prev[b].instance_name@
                                            == self@[k].instance_name@);
                                }
                            }
                        }
                        assert forall|k: int|
                            0 <= k < i + 1 && is_open(#[trigger] self@[k]) implies exists|a: int|
                            0 <= a < acc@.len() && acc@[a].instance_name@
                                == self@[k].instance_name@ by {
                            if k < i {
                                let a = choose|a: int|
                                    0 <= a < prev.len() && prev[a].instance_name@
                                        == self@[k].instance_name@;
                                assert(acc@[a].instance_name@ == self@[k].instance_name@);
                            } else {
                                assert(acc@[acc@.len() - 1].instance_name@
                                    == self@[k].instance_name@);
                            }
                        }
                    }
                }
            }
            i = i + 1;
        }
        proof {
            assert(self@.take(self@.len() as int) =~= self@);
        }
        let ghost final_acc = acc@;
        let r = sort_records(acc);
        proof {
            broadcast use vstd::seq_lib::group_to_multiset_ensures;

            assert(final_acc.no_duplicates()) by {
                assert forall|a: int, b: int|
                    0 <= a < final_acc.len() && 0 <= b < final_acc.len() && a != b implies
                    final_acc[a] != final_acc[b] by {
                    assert(final_acc[a].instance_name@ != final_acc[b].instance_name@);
                }
            }
            final_acc.lemma_multiset_has_no_duplicates();
            r@.lemma_multiset_has_no_duplicates_conv();
            assert forall|i0: int|
                0 <= i0 < r@.len() implies is_open(#[trigger] r@[i0]) && self@.contains(r@[i0]) by {
                assert(r@.contains(r@[i0]));
                assert(r@.to_multiset().count(r@[i0]) > 0);
                assert(final_acc.to_multiset().count(r@[i0]) > 0);
                assert(final_acc.contains(r@[i0]));
            }
            assert forall|i0: int, j0: int|
                0 <= i0 < r@.len() && 0 <= j0 < r@.len() && i0 != j0 implies r@[i0].instance_name@
                != r@[j0].instance_name@ by {
                assert(r@[i0] != r@[j0]);
                assert(r@.contains(r@[i0]));
                assert(r@.contains(r@[j0]));
                assert(r@.to_multiset().count(r@[i0]) > 0);
                assert(r@.to_multiset().count(r@[j0]) > 0);
                assert(final_acc.to_multiset().count(r@[i0]) > 0);
                assert(final_acc.to_multiset().count(r@[j0]) > 0);
                assert(final_acc.contains(r@[i0]));
                assert(final_acc.contains(r@[j0]));
                let a = choose|a: int| 0 <= a < final_acc.len() && final_acc[a] == r@[i0];
                let b = choose|b: int| 0 <= b < final_acc.len() && final_acc[b] == r@[j0];
                assert(a != b);
            }
            assert forall|i0: int, k: int|
                0 <= i0 < r@.len() && 0 <= k < self@.len() && is_open(#[trigger] self@[k])
                    && self@[k].instance_name@ == (#[trigger] r@[i0]).instance_name@ implies
                at_most_as_current(self@[k], r@[i0]) by {
                assert(r@.contains(r@[i0]));
                assert(r@.to_multiset().count(r@[i0]) > 0);
                assert(final_acc.to_multiset().count(r@[i0]) > 0);
                assert(final_acc.contains(r@[i0]));
                let a = choose|a: int| 0 <= a < final_acc.len() && final_acc[a] == r@[i0];
            }
            assert forall|k: int|
                0 <= k < self@.len() && is_open(#[trigger] self@[k]) implies exists|i0: int|
                0 <= i0 < r@.len() && r@[i0].instance_name@ == self@[k].instance_name@ by {
                let a = choose|a: int|
                    0 <= a < final_acc.len() && final_acc[a].instance_name@
                        == self@[k].instance_name@;
                assert(final_acc.contains(final_acc[a]));
                assert(final_acc.to_multiset().count(final_acc[a]) > 0);
                assert(r@.to_multiset().count(final_acc[a]) > 0);
                assert(r@.contains(final_acc[a]));
                let i0 = choose|i0: int| 0 <= i0 < r@.len() && r@[i0] == final_acc[a];
                assert(r@[i0].instance_name@ == self@[k].instance_name@);
            }
        }
        r
    }
}

} // verus!
