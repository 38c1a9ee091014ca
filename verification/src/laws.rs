//! Ledger-wide laws relating the queries to each other.

use vstd::prelude::*;
use vstd::arithmetic::div_mod::lemma_div_is_ordered_by_denominator;
use crate::dates::{Date, date_valid, day_number, sunday_on_or_after};
use crate::records::GameInstance;
use crate::reports::{ReportWindow, daily_window, filter_match, report_pred, report_population,
    weekly_window, window_contains};
use crate::sorting::lemma_filter_is_subset;
use crate::store::{keeps_id, keeps_pair};
use crate::catalog::has_pair;

verus! {

/// A row dated exactly the reference date belongs to that day's report
/// population whenever it is completed and passes the name filters; a row
/// dated any later day never does.
pub proof fn lemma_daily_window_boundaries(
    now: Date,
    g: GameInstance,
    cat: Option<Seq<char>>,
    inst: Option<Seq<char>>,
)
    ensures
        g.total_cost > 0 && g.start_time.date == now && filter_match(cat, g.category_name@)
            && filter_match(inst, g.instance_name@) ==> report_pred(daily_window(now), cat, inst)(
            g,
        ),
        day_number(g.start_time.date) > day_number(now) ==> !report_pred(
            daily_window(now),
            cat,
            inst,
        )(g),
{
    if day_number(g.start_time.date) > day_number(now) {
        assert(g.start_time.date != now);
    }
}

/// A valid date never lies before the first day, so its day number is not
/// negative.
pub proof fn lemma_day_number_nonnegative(d: Date)
    requires
        date_valid(d),
    ensures
        day_number(d) >= 0,
{
    lemma_div_is_ordered_by_denominator(d.year - 1, 4, 100);
}

/// The weekly window of a reference date holds exactly the valid dates from
/// seven days before the next Sunday on or after it, through that Sunday.
pub proof fn lemma_weekly_window_membership(now: Date, d: Date)
    requires
        date_valid(now),
        date_valid(d),
    ensures
        window_contains(weekly_window(now), d) <==> (sunday_on_or_after(now) - 7 <= day_number(d)
            <= sunday_on_or_after(now)),
{
    lemma_day_number_nonnegative(now);
    lemma_day_number_nonnegative(d);
}

/// A report without a category filter returns every row that the same
/// report with any single category filter returns.
pub proof fn lemma_unfiltered_report_superset(
    ledger: Seq<GameInstance>,
    w: ReportWindow,
    cat: Seq<char>,
    inst: Option<Seq<char>>,
)
    ensures
        forall|g: GameInstance|
            #[trigger] report_population(ledger, w, Some(cat), inst).contains(g)
                ==> report_population(ledger, w, None, inst).contains(g),
{
    let p_some = report_pred(w, Some(cat), inst);
    let p_none = report_pred(w, None, inst);
    assert forall|g: GameInstance|
        #[trigger] report_population(ledger, w, Some(cat), inst).contains(g) implies
        report_population(ledger, w, None, inst).contains(g) by {
        let f = ledger.filter(p_some);
        let idx = choose|idx: int| 0 <= idx < f.len() && f[idx] == g;
        ledger.lemma_filter_pred(p_some, idx);
        lemma_filter_is_subset(ledger, p_some);
        assert(ledger.contains(g));
        let k = choose|k: int| 0 <= k < ledger.len() && ledger[k] == g;
        ledger.lemma_filter_contains(p_none, k);
    }
}

/// After a delete by pair, no surviving row carries the pair, so it also
/// vanishes from the pair projection of the resulting ledger.
pub proof fn lemma_deleted_pair_gone(ledger: Seq<GameInstance>, c: Seq<char>, n: Seq<char>)
    ensures
        forall|k: int|
            0 <= k < ledger.filter(keeps_pair(c, n)).len()
                ==> !((#[trigger] ledger.filter(keeps_pair(c, n))[k]).category_name@ == c
                && ledger.filter(keeps_pair(c, n))[k].instance_name@ == n),
        !has_pair(ledger.filter(keeps_pair(c, n)), c, n),
{
    let kept = ledger.filter(keeps_pair(c, n));
    assert forall|k: int|
        0 <= k < kept.len() implies !((#[trigger] kept[k]).category_name@ == c
        && kept[k].instance_name@ == n) by {
        ledger.lemma_filter_pred(keeps_pair(c, n), k);
    }
}

/// After a delete by id, no surviving row carries the id.
pub proof fn lemma_deleted_id_gone(ledger: Seq<GameInstance>, id: i16)
    ensures
        forall|k: int|
            0 <= k < ledger.filter(keeps_id(id)).len()
                ==> (#[trigger] ledger.filter(keeps_id(id))[k]).id != id,
{
    assert forall|k: int|
        0 <= k < ledger.filter(keeps_id(id)).len() implies (#[trigger] ledger.filter(
        keeps_id(id),
    )[k]).id != id by {
        ledger.lemma_filter_pred(keeps_id(id), k);
    }
}

} // verus!
