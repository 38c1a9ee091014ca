//! Catalog projections over the whole ledger.
//!
//! Distinct categories, distinct instance names, and the distinct
//! `(category, instance)` pairs ever observed, open and closed rows alike.
//! The projections promise uniqueness and exactly the values present in the
//! current ledger; they promise no order.

use vstd::prelude::*;
use crate::records::{GameInstance, CategoryInstance};
use crate::store::Database;
use crate::order::str_eq;

verus! {

/// Some row of the ledger carries this category name.
pub open spec fn has_category(ledger: Seq<GameInstance>, name: Seq<char>) -> bool {
    exists|k: int| 0 <= k < ledger.len() && (#[trigger] ledger[k]).category_name@ == name
}

/// Some row of the ledger carries this instance name.
pub open spec fn has_instance(ledger: Seq<GameInstance>, name: Seq<char>) -> bool {
    exists|k: int| 0 <= k < ledger.len() && (#[trigger] ledger[k]).instance_name@ == name
}

/// Some row of the ledger carries this category and instance pair.
pub open spec fn has_pair(ledger: Seq<GameInstance>, c: Seq<char>, n: Seq<char>) -> bool {
    exists|k: int|
        0 <= k < ledger.len() && (#[trigger] ledger[k]).category_name@ == c
            && ledger[k].instance_name@ == n
}

/// The name stands somewhere in the listing.
pub open spec fn lists_name(names: Seq<String>, name: Seq<char>) -> bool {
    exists|a: int| 0 <= a < names.len() && (#[trigger] names[a])@ == name
}

/// The pair stands somewhere in the listing.
pub open spec fn lists_pair(pairs: Seq<CategoryInstance>, c: Seq<char>, n: Seq<char>) -> bool {
    exists|a: int|
        0 <= a < pairs.len() && (#[trigger] pairs[a]).category_name@ == c
            && pairs[a].instance_name@ == n
}

impl Database {
    /// Every category name in the ledger, each exactly once.
    pub fn get_distinct_categories(&self) -> (r: Vec<String>)
        ensures
            forall|a: int, b: int|
                0 <= a < r@.len() && 0 <= b < r@.len() && a != b ==> r@[a]@ != r@[b]@,
            forall|a: int| 0 <= a < r@.len() ==> has_category(self@, (#[trigger] r@[a])@),
            forall|k: int|
                0 <= k < self@.len() ==> lists_name(r@, (#[trigger] self@[k]).category_name@),
    {
        let rows = self.rows();
        let mut r: Vec<String> = Vec::new();
        let mut i: usize = 0;
        while i < rows.len()
            invariant
                rows@ == self@,
                0 <= i <= self@.len(),
                forall|a: int, b: int|
                    0 <= a < r@.len() && 0 <= b < r@.len() && a != b ==> r@[a]@ != r@[b]@,
                forall|a: int| 0 <= a < r@.len() ==> has_category(self@, (#[trigger] r@[a])@),
                forall|k: int|
                    0 <= k < i ==> lists_name(r@, (#[trigger] self@[k]).category_name@),
            decreases self@.len() - i,
        {
            let ghost prev = r@;
            let mut j: usize = 0;
            let mut seen: bool = false;
            while j < r.len() && !seen
                invariant
                    rows@ == self@,
                    0 <= i < self@.len(),
                    r@ == prev,
                    0 <= j <= r@.len(),
                    !seen ==> forall|n: int|
                        0 <= n < j ==> (#[trigger] r@[n])@ != self@[i as int].category_name@,
                    seen ==> lists_name(r@, self@[i as int].category_name@),
                decreases r@.len() - j, (if seen { 0int } else { 1int }),
            {
                if str_eq(r[j].as_str(), rows[i].category_name.as_str()) {
                    proof {
                        assert((r@[j as int])@ == self@[i as int].category_name@);
                    }
                    seen = true;
                } else {
                    j = j + 1;
                }
            }
            if !seen {
                let name = rows[i].category_name.clone();
                r.push(name);
                proof {
                    assert(r@ =~= prev.push(self@[i as int].category_name));
                    assert((r@[r@.len() - 1])@ == self@[i as int].category_name@);
                    assert(has_category(self@, (r@[r@.len() - 1])@)) by {
                        assert(self@[i as int].category_name@ == (r@[r@.len() - 1])@);
                    }
                }
            }
            proof {
                assert forall|k: int|
                    0 <= k < i + 1 implies lists_name(
                    r@,
                    (#[trigger] self@[k]).category_name@,
                ) by {
                    if k < i {
                        let a = choose|a: int|
                            0 <= a < prev.len() && (#[trigger] prev[a])@
                                == self@[k].category_name@;
                        assert((r@[a])@ == self@[k].category_name@);
                    } else if !seen {
                        assert((r@[r@.len() - 1])@ == self@[k].category_name@);
                    }
                }
            }
            i = i + 1;
        }
        r
    }

    /// Every instance name in the ledger, each exactly once.
    pub fn get_distinct_instances(&self) -> (r: Vec<String>)
        ensures
            forall|a: int, b: int|
                0 <= a < r@.len() && 0 <= b < r@.len() && a != b ==> r@[a]@ != r@[b]@,
            forall|a: int| 0 <= a < r@.len() ==> has_instance(self@, (#[trigger] r@[a])@),
            forall|k: int|
                0 <= k < self@.len() ==> lists_name(r@, (#[trigger] self@[k]).instance_name@),
    {
        let rows = self.rows();
        let mut r: Vec<String> = Vec::new();
        let mut i: usize = 0;
        while i < rows.len()
            invariant
                rows@ == self@,
                0 <= i <= self@.len(),
                forall|a: int, b: int|
                    0 <= a < r@.len() && 0 <= b < r@.len() && a != b ==> r@[a]@ != r@[b]@,
                forall|a: int| 0 <= a < r@.len() ==> has_instance(self@, (#[trigger] r@[a])@),
                forall|k: int|
                    0 <= k < i ==> lists_name(r@, (#[trigger] self@[k]).instance_name@),
            decreases self@.len() - i,
        {
            let ghost prev = r@;
            let mut j: usize = 0;
            let mut seen: bool = false;
            while j < r.len() && !seen
                invariant
                    rows@ == self@,
                    0 <= i < self@.len(),
                    r@ == prev,
                    0 <= j <= r@.len(),
                    !seen ==> forall|n: int|
                        0 <= n < j ==> (#[trigger] r@[n])@ != self@[i as int].instance_name@,
                    seen ==> lists_name(r@, self@[i as int].instance_name@),
                decreases r@.len() - j, (if seen { 0int } else { 1int }),
            {
                if str_eq(r[j].as_str(), rows[i].instance_name.as_str()) {
                    proof {
                        assert((r@[j as int])@ == self@[i as int].instance_name@);
                    }
                    seen = true;
                } else {
                    j = j + 1;
                }
            }
            if !seen {
                let name = rows[i].instance_name.clone();
                r.push(name);
                proof {
                    assert(r@ =~= prev.push(self@[i as int].instance_name));
                    assert((r@[r@.len() - 1])@ == self@[i as int].instance_name@);
                    assert(has_instance(self@, (r@[r@.len() - 1])@)) by {
                        assert(self@[i as int].instance_name@ == (r@[r@.len() - 1])@);
                    }
                }
            }
            proof {
                assert forall|k: int|
                    0 <= k < i + 1 implies lists_name(
                    r@,
                    (#[trigger] self@[k]).instance_name@,
                ) by {
                    if k < i {
                        let a = choose|a: int|
                            0 <= a < prev.len() && (#[trigger] prev[a])@
                                == self@[k].instance_name@;
                        assert((r@[a])@ == self@[k].instance_name@);
                    } else if !seen {
                        assert((r@[r@.len() - 1])@ == self@[k].instance_name@);
                    }
                }
            }
            i = i + 1;
        }
        r
    }

    /// Every `(category, instance)` pair in the ledger, each exactly once.
    pub fn get_category_instance_combinations(&self) -> (r: Vec<CategoryInstance>)
        ensures
            forall|a: int, b: int|
                0 <= a < r@.len() && 0 <= b < r@.len() && a != b ==> !((#[trigger] r@[a])
                    .category_name@ == (#[trigger] r@[b]).category_name@ && r@[a].instance_name@
                    == r@[b].instance_name@),
            forall|a: int|
                0 <= a < r@.len() ==> has_pair(
                    self@,
                    (#[trigger] r@[a]).category_name@,
                    r@[a].instance_name@,
                ),
            forall|k: int|
                0 <= k < self@.len() ==> lists_pair(
                    r@,
                    (#[trigger] self@[k]).category_name@,
                    self@[k].instance_name@,
                ),
    {
        let rows = self.rows();
        let mut r: Vec<CategoryInstance> = Vec::new();
        let mut i: usize = 0;
        while i < rows.len()
            invariant
                rows@ == self@,
                0 <= i <= self@.len(),
                forall|a: int, b: int|
                    0 <= a < r@.len() && 0 <= b < r@.len() && a != b ==> !((#[trigger] r@[a])
                        .category_name@ == (#[trigger] r@[b]).category_name@ && r@[a].instance_name@
                        == r@[b].instance_name@),
                forall|a: int|
                    0 <= a < r@.len() ==> has_pair(
                        self@,
                        (#[trigger] r@[a]).category_name@,
                        r@[a].instance_name@,
                    ),
                forall|k: int|
                    0 <= k < i ==> lists_pair(
                        r@,
                        (#[trigger] self@[k]).category_name@,
                        self@[k].instance_name@,
                    ),
            decreases self@.len() - i,
        {
            let ghost prev = r@;
            let mut j: usize = 0;
            let mut seen: bool = false;
            while j < r.len() && !seen
                invariant
                    rows@ == self@,
                    0 <= i < self@.len(),
                    r@ == prev,
                    0 <= j <= r@.len(),
                    !seen ==> forall|n: int|
                        0 <= n < j ==> !((#[trigger] r@[n]).category_name@
                            == self@[i as int].category_name@ && r@[n].instance_name@
                            == self@[i as int].instance_name@),
                    seen ==> lists_pair(
                        r@,
                        self@[i as int].category_name@,
                        self@[i as int].instance_name@,
                    ),
                decreases r@.len() - j, (if seen { 0int } else { 1int }),
            {
                let same_cat = str_eq(r[j].category_name.as_str(), rows[i].category_name.as_str());
                let same_inst = str_eq(
                    r[j].instance_name.as_str(),
                    rows[i].instance_name.as_str(),
                );
                if same_cat && same_inst {
                    proof {
                        assert((r@[j as int]).category_name@ == self@[i as int].category_name@
                            && (r@[j as int]).instance_name@ == self@[i as int].instance_name@);
                    }
                    seen = true;
                } else {
                    j = j + 1;
                }
            }
            if !seen {
                let pair = CategoryInstance {
                    category_name: rows[i].category_name.clone(),
                    instance_name: rows[i].instance_name.clone(),
                };
                r.push(pair);
                proof {
                    assert((r@[r@.len() - 1]).category_name@ == self@[i as int].category_name@);
                    assert((r@[r@.len() - 1]).instance_name@ == self@[i as int].instance_name@);
                    assert(has_pair(
                        self@,
                        (r@[r@.len() - 1]).category_name@,
                        (r@[r@.len() - 1]).instance_name@,
                    )) by {
                        assert(self@[i as int].category_name@ == (r@[r@.len() - 1]).category_name@);
                    }
                }
            }
            proof {
                assert forall|k: int|
                    0 <= k < i + 1 implies lists_pair(
                    r@,
                    (#[trigger] self@[k]).category_name@,
                    self@[k].instance_name@,
                ) by {
                    if k < i {
                        let a = choose|a: int|
                            0 <= a < prev.len() && (#[trigger] prev[a]).category_name@
                                == self@[k].category_name@ && prev[a].instance_name@
                                == self@[k].instance_name@;
                        assert((r@[a]).category_name@ == self@[k].category_name@
                            && (r@[a]).instance_name@ == self@[k].instance_name@);
                    } else if !seen {
                        assert((r@[r@.len() - 1]).category_name@ == self@[k].category_name@
                            && (r@[r@.len() - 1]).instance_name@ == self@[k].instance_name@);
                    }
                }
            }
            i = i + 1;
        }
        r
    }
}

} // verus!
