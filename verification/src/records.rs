//! Session records and their ordering.
//!
//! A record is one ledger row: one rental interval for an instance within a
//! category. Money amounts are integer cents. A record is *open* exactly
//! while its total cost is zero; closing a session is a second insert that
//! carries the final elapsed time, cost and end timestamp.

use vstd::prelude::*;
use crate::dates::{DateTime, datetime_valid};
use crate::order::{bytes_lt, lemma_bytes_lt_asym, lemma_bytes_lt_trans, lemma_bytes_trichotomy};

verus! {

/// One session row of the ledger.
///
/// `price_per_hour` and `total_cost` are in cents. `total_cost == 0` is the
/// sentinel that marks a record open; a closed record carries a positive
/// cost and an end timestamp.
#[derive(Debug)]
pub struct GameInstance {
    pub id: i16,
    pub category_name: String,
    pub instance_name: String,
    pub price_per_hour: u64,
    pub elapsed_time: Option<i64>,
    pub total_cost: u64,
    pub start_time: DateTime,
    pub end_time: Option<DateTime>,
}

impl Clone for GameInstance {
    fn clone(&self) -> (r: Self)
        ensures
            r == *self,
    {
        GameInstance {
            id: self.id,
            category_name: self.category_name.clone(),
            instance_name: self.instance_name.clone(),
            price_per_hour: self.price_per_hour,
            elapsed_time: self.elapsed_time,
            total_cost: self.total_cost,
            start_time: self.start_time,
            end_time: self.end_time,
        }
    }
}

/// A distinct `(category, instance)` pair observed in the ledger.
#[derive(Debug)]
pub struct CategoryInstance {
    pub category_name: String,
    pub instance_name: String,
}

impl Clone for CategoryInstance {
    fn clone(&self) -> (r: Self)
        ensures
            r == *self,
    {
        CategoryInstance {
            category_name: self.category_name.clone(),
            instance_name: self.instance_name.clone(),
        }
    }
}

/// A failure of the ledger store.
#[derive(Clone, Copy, PartialEq, Eq, Structural, Debug)]
pub enum StoreError {
    /// The store has no identifier left to assign.
    IdSpaceExhausted,
}

/// The UTF-8 bytes of a text column, the key by which it is ordered.
pub open spec fn chars_bytes(s: Seq<char>) -> Seq<u8> {
    vstd::utf8::encode_utf8(s)
}

/// A record is open exactly while no cost has been finalized.
pub open spec fn is_open(g: GameInstance) -> bool {
    g.total_cost == 0
}

/// Shape of a record the caller is responsible for: non-empty names, a
/// positive rate, and well-formed timestamps.
pub open spec fn record_valid(g: GameInstance) -> bool {
    &&& g.category_name@.len() > 0
    &&& g.instance_name@.len() > 0
    &&& g.price_per_hour > 0
    &&& datetime_valid(g.start_time)
    &&& match g.end_time {
        Some(t) => datetime_valid(t),
        None => true,
    }
}

/// The open-session invariant: zero cost exactly when no end timestamp.
pub open spec fn session_coherent(g: GameInstance) -> bool {
    is_open(g) <==> g.end_time is None
}

/// A coherent record is either open, with zero cost and no end timestamp,
/// or closed, with a positive cost and an end timestamp present.
pub proof fn lemma_open_closed_dichotomy(g: GameInstance)
    requires
        session_coherent(g),
    ensures
        is_open(g) ==> g.total_cost == 0 && g.end_time is None,
        !is_open(g) ==> g.total_cost > 0 && g.end_time is Some,
{
}

/// Report order on records: category, then instance, then id.
pub open spec fn record_le(a: GameInstance, b: GameInstance) -> bool {
    let ac = chars_bytes(a.category_name@);
    let bc = chars_bytes(b.category_name@);
    if ac != bc {
        bytes_lt(ac, bc)
    } else {
        let ai = chars_bytes(a.instance_name@);
        let bi = chars_bytes(b.instance_name@);
        if ai != bi {
            bytes_lt(ai, bi)
        } else {
            a.id <= b.id
        }
    }
}

pub proof fn lemma_record_le_total(a: GameInstance, b: GameInstance)
    ensures
        record_le(a, b) || record_le(b, a),
{
    let ac = chars_bytes(a.category_name@);
    let bc = chars_bytes(b.category_name@);
    lemma_bytes_trichotomy(ac, bc);
    if ac == bc {
        let ai = chars_bytes(a.instance_name@);
        let bi = chars_bytes(b.instance_name@);
        lemma_bytes_trichotomy(ai, bi);
    }
}

pub proof fn lemma_record_le_trans(a: GameInstance, b: GameInstance, c: GameInstance)
    requires
        record_le(a, b),
        record_le(b, c),
    ensures
        record_le(a, c),
{
    let ac = chars_bytes(a.category_name@);
    let bc = chars_bytes(b.category_name@);
    let cc = chars_bytes(c.category_name@);
    if ac != bc && bc != cc {
        lemma_bytes_lt_trans(ac, bc, cc);
        lemma_bytes_lt_asym(ac, cc);
    } else if ac != bc && bc == cc {
        lemma_bytes_lt_asym(ac, bc);
    } else if ac == bc && bc != cc {
        lemma_bytes_lt_asym(bc, cc);
    } else {
        let ai = chars_bytes(a.instance_name@);
        let bi = chars_bytes(b.instance_name@);
        let ci = chars_bytes(c.instance_name@);
        if ai != bi && bi != ci {
            lemma_bytes_lt_trans(ai, bi, ci);
            lemma_bytes_lt_asym(ai, ci);
        } else if ai != bi && bi == ci {
            lemma_bytes_lt_asym(ai, bi);
        } else if ai == bi && bi != ci {
            lemma_bytes_lt_asym(bi, ci);
        }
    }
}

/// Executable comparison deciding `record_le`.
pub fn record_le_exec(a: &GameInstance, b: &GameInstance) -> (r: bool)
    ensures
        r == record_le(*a, *b),
{
    let c = crate::order::str_cmp(a.category_name.as_str(), b.category_name.as_str());
    if c == 0 {
        proof {
            lemma_bytes_lt_asym(chars_bytes(a.category_name@), chars_bytes(b.category_name@));
        }
        true
    } else if c == 2 {
        proof {
            lemma_bytes_lt_asym(chars_bytes(b.category_name@), chars_bytes(a.category_name@));
        }
        false
    } else {
        let ic = crate::order::str_cmp(a.instance_name.as_str(), b.instance_name.as_str());
        if ic == 0 {
            proof {
                lemma_bytes_lt_asym(chars_bytes(a.instance_name@), chars_bytes(b.instance_name@));
            }
            true
        } else if ic == 2 {
            proof {
                lemma_bytes_lt_asym(chars_bytes(b.instance_name@), chars_bytes(a.instance_name@));
            }
            false
        } else {
            a.id <= b.id
        }
    }
}

} // verus!
