//! The reporting engine.
//!
//! Every report selects completed rows (`total_cost > 0`) whose start date
//! lies in a resolved window, optionally filtered by category and instance
//! name (an absent filter matches everything), and orders them by category,
//! instance, then id. The average variants take an explicit period instead
//! of a reference date; selecting the population is their whole contract,
//! and averaging over it is the caller's.

use vstd::prelude::*;
use vstd::relations::sorted_by;
use crate::dates::{Date, date_valid, date_le, day_number, sunday_on_or_after, day_number_exec,
    weekday_exec, date_le_exec};
use crate::records::GameInstance;
use crate::sorting::{sort_records, record_leq, lemma_filter_take_step};
use crate::store::Database;
use crate::order::str_eq;

verus! {

/// A resolved reporting window over calendar dates.
#[derive(Clone, Copy, PartialEq, Eq, Structural, Debug)]
pub enum ReportWindow {
    /// Exactly one calendar day.
    Day { date: Date },
    /// An inclusive range of day numbers.
    DayNumbers { first: u64, last: u64 },
    /// One calendar month.
    Month { year: u32, month: u32 },
    /// One calendar year.
    Year { year: u32 },
    /// An inclusive date range; an inverted range holds no date.
    Dates { first: Date, last: Date },
}

/// Whether the date portion of a start timestamp falls in the window.
pub open spec fn window_contains(w: ReportWindow, d: Date) -> bool {
    match w {
        ReportWindow::Day { date } => d == date,
        ReportWindow::DayNumbers { first, last } => first <= day_number(d) <= last,
        ReportWindow::Month { year, month } => d.year == year && d.month == month,
        ReportWindow::Year { year } => d.year == year,
        ReportWindow::Dates { first, last } => date_le(first, d) && date_le(d, last),
    }
}

pub fn window_contains_exec(w: &ReportWindow, d: &Date) -> (r: bool)
    requires
        date_valid(*d),
    ensures
        r == window_contains(*w, *d),
{
    match w {
        ReportWindow::Day { date } => *d == *date,
        ReportWindow::DayNumbers { first, last } => {
            let n = day_number_exec(d);
            *first <= n && n <= *last
        },
        ReportWindow::Month { year, month } => d.year == *year && d.month == *month,
        ReportWindow::Year { year } => d.year == *year,
        ReportWindow::Dates { first, last } => date_le_exec(first, d) && date_le_exec(d, last),
    }
}

/// The view of an optional name filter.
pub open spec fn opt_view(f: Option<&str>) -> Option<Seq<char>> {
    match f {
        None => None,
        Some(t) => Some(t@),
    }
}

/// An absent filter matches every name; a present one matches equal names.
pub open spec fn filter_match(f: Option<Seq<char>>, s: Seq<char>) -> bool {
    match f {
        None => true,
        Some(t) => t == s,
    }
}

/// The row predicate of a report: completed, inside the window, and through
/// both name filters.
pub open spec fn report_pred(
    w: ReportWindow,
    cat: Option<Seq<char>>,
    inst: Option<Seq<char>>,
) -> spec_fn(GameInstance) -> bool {
    |g: GameInstance|
        g.total_cost > 0 && window_contains(w, g.start_time.date) && filter_match(
            cat,
            g.category_name@,
        ) && filter_match(inst, g.instance_name@)
}

/// The rows a report returns, before ordering.
pub open spec fn report_population(
    ledger: Seq<GameInstance>,
    w: ReportWindow,
    cat: Option<Seq<char>>,
    inst: Option<Seq<char>>,
) -> Seq<GameInstance> {
    ledger.filter(report_pred(w, cat, inst))
}

/// Select and order the rows of one report window.
fn fetch_window(
    db: &Database,
    w: &ReportWindow,
    category_name: Option<&str>,
    instance_name: Option<&str>,
) -> (r: Vec<GameInstance>)
    requires
        db.wf(),
    ensures
        r@.to_multiset() == report_population(
            db@,
            *w,
            opt_view(category_name),
            opt_view(instance_name),
        ).to_multiset(),
        sorted_by(r@, record_leq()),
        forall|i: int|
            0 <= i < r@.len() ==> #[trigger] report_pred(
                *w,
                opt_view(category_name),
                opt_view(instance_name),
            )(r@[i]),
{
    let ghost pred = report_pred(*w, opt_view(category_name), opt_view(instance_name));
    let rows = db.rows();
    let mut picked: Vec<GameInstance> = Vec::new();
    let mut i: usize = 0;
    proof {
        assert(db@.take(0).filter(pred) =~= Seq::<GameInstance>::empty()) by {
            reveal(Seq::filter);
            assert(db@.take(0) =~= Seq::<GameInstance>::empty());
        }
    }
    while i < rows.len()
        invariant
            rows@ == db@,
            db.wf(),
            pred == report_pred(*w, opt_view(category_name), opt_view(instance_name)),
            0 <= i <= db@.len(),
            picked@ == db@.take(i as int).filter(pred),
        decreases db@.len() - i,
    {
        proof {
            lemma_filter_take_step(db@, i as int, pred);
            assert(crate::records::record_valid(db@[i as int]));
        }
        let g = &rows[i];
        let cost_pos = g.total_cost > 0;
        let in_window = window_contains_exec(w, &g.start_time.date);
        let cat_ok = match category_name {
            None => true,
            Some(c) => str_eq(g.category_name.as_str(), c),
        };
        let inst_ok = match instance_name {
            None => true,
            Some(c) => str_eq(g.instance_name.as_str(), c),
        };
        if cost_pos && in_window && cat_ok && inst_ok {
            let picked_row = g.clone();
            picked.push(picked_row);
        }
        i = i + 1;
    }
    proof {
        assert(db@.take(db@.len() as int) =~= db@);
    }
    let r = sort_records(picked);
    proof {
        broadcast use vstd::seq_lib::group_to_multiset_ensures;

        assert forall|k: int| 0 <= k < r@.len() implies #[trigger] pred(r@[k]) by {
            assert(r@.contains(r@[k]));
            assert(r@.to_multiset().count(r@[k]) > 0);
            assert(report_population(db@, *w, opt_view(category_name), opt_view(instance_name))
                .contains(r@[k]));
            let f = db@.filter(pred);
            let j = choose|j: int| 0 <= j < f.len() && f[j] == r@[k];
            db@.lemma_filter_pred(pred, j);
        }
    }
    r
}

/// The window of the daily report: exactly the reference date.
pub open spec fn daily_window(now: Date) -> ReportWindow {
    ReportWindow::Day { date: now }
}

/// The window of the weekly report: the eight days that end on the next
/// Sunday on or after the reference date.
pub open spec fn weekly_window(now: Date) -> ReportWindow {
    let s = sunday_on_or_after(now);
    ReportWindow::DayNumbers {
        first: if s >= 7 {
            (s - 7) as u64
        } else {
            0
        },
        last: s as u64,
    }
}

/// The window of the monthly report: the reference date's calendar month.
pub open spec fn monthly_window(now: Date) -> ReportWindow {
    ReportWindow::Month { year: now.year, month: now.month }
}

/// The window of the yearly report: the reference date's calendar year.
pub open spec fn yearly_window(now: Date) -> ReportWindow {
    ReportWindow::Year { year: now.year }
}

/// What a report's contract states: the result is the report population in
/// report order, and every row satisfies the report predicate.
pub open spec fn report_ensures(
    ledger: Seq<GameInstance>,
    w: ReportWindow,
    cat: Option<Seq<char>>,
    inst: Option<Seq<char>>,
    r: Seq<GameInstance>,
) -> bool {
    &&& r.to_multiset() == report_population(ledger, w, cat, inst).to_multiset()
    &&& sorted_by(r, record_leq())
    &&& forall|i: int| 0 <= i < r.len() ==> #[trigger] report_pred(w, cat, inst)(r[i])
}

impl Database {
    /// Completed rows whose start date is the reference date.
    pub fn fetch_daily_data(
        &self,
        now: &Date,
        category_name: Option<&str>,
        instance_name: Option<&str>,
    ) -> (r: Vec<GameInstance>)
        requires
            self.wf(),
        ensures
            report_ensures(
                self@,
                daily_window(*now),
                opt_view(category_name),
                opt_view(instance_name),
                r@,
            ),
    {
        let w = ReportWindow::Day { date: *now };
        fetch_window(self, &w, category_name, instance_name)
    }

    /// Completed rows of the week of the reference date: start dates from
    /// seven days before the next Sunday on or after it, through that Sunday.
    pub fn fetch_weekly_data(
        &self,
        now: &Date,
        category_name: Option<&str>,
        instance_name: Option<&str>,
    ) -> (r: Vec<GameInstance>)
        requires
            self.wf(),
            date_valid(*now),
        ensures
            report_ensures(
                self@,
                weekly_window(*now),
                opt_view(category_name),
                opt_view(instance_name),
                r@,
            ),
    {
        let n = day_number_exec(now);
        let wd = weekday_exec(now);
        let s = n + (7 - wd) % 7;
        let first = if s >= 7 {
            s - 7
        } else {
            0
        };
        let w = ReportWindow::DayNumbers { first, last: s };
        fetch_window(self, &w, category_name, instance_name)
    }

    /// Completed rows of the reference date's calendar month.
    pub fn fetch_monthly_data(
        &self,
        now: &Date,
        category_name: Option<&str>,
        instance_name: Option<&str>,
    ) -> (r: Vec<GameInstance>)
        requires
            self.wf(),
        ensures
            report_ensures(
                self@,
                monthly_window(*now),
                opt_view(category_name),
                opt_view(instance_name),
                r@,
            ),
    {
        let w = ReportWindow::Month { year: now.year, month: now.month };
        fetch_window(self, &w, category_name, instance_name)
    }

    /// Completed rows of the reference date's calendar year.
    pub fn fetch_yearly_data(
        &self,
        now: &Date,
        category_name: Option<&str>,
        instance_name: Option<&str>,
    ) -> (r: Vec<GameInstance>)
        requires
            self.wf(),
        ensures
            report_ensures(
                self@,
                yearly_window(*now),
                opt_view(category_name),
                opt_view(instance_name),
                r@,
            ),
    {
        let w = ReportWindow::Year { year: now.year };
        fetch_window(self, &w, category_name, instance_name)
    }

    /// Completed rows whose start date lies in the inclusive range. An
    /// inverted range yields an empty result, not an error.
    pub fn fetch_custom_data(
        &self,
        category_name: Option<&str>,
        instance_name: Option<&str>,
        start_date: &Date,
        end_date: &Date,
    ) -> (r: Vec<GameInstance>)
        requires
            self.wf(),
        ensures
            report_ensures(
                self@,
                ReportWindow::Dates { first: *start_date, last: *end_date },
                opt_view(category_name),
                opt_view(instance_name),
                r@,
            ),
            !date_le(*start_date, *end_date) ==> r@ == Seq::<GameInstance>::empty(),
    {
        let w = ReportWindow::Dates { first: *start_date, last: *end_date };
        let r = fetch_window(self, &w, category_name, instance_name);
        proof {
            if !date_le(*start_date, *end_date) {
                broadcast use vstd::seq_lib::group_to_multiset_ensures;

                if r@.len() > 0 {
                    assert(report_pred(w, opt_view(category_name), opt_view(instance_name))(
                        r@[0],
                    ));
                }
                assert(r@ =~= Seq::<GameInstance>::empty());
            }
        }
        r
    }

    /// The population of the monthly average for an explicit month token.
    pub fn fetch_monthly_average(
        &self,
        category_name: Option<&str>,
        instance_name: Option<&str>,
        year: u32,
        month: u32,
    ) -> (r: Vec<GameInstance>)
        requires
            self.wf(),
        ensures
            report_ensures(
                self@,
                ReportWindow::Month { year, month },
                opt_view(category_name),
                opt_view(instance_name),
                r@,
            ),
    {
        let w = ReportWindow::Month { year, month };
        fetch_window(self, &w, category_name, instance_name)
    }

    /// The population of the yearly average for an explicit year token.
    pub fn fetch_yearly_average(
        &self,
        category_name: Option<&str>,
        instance_name: Option<&str>,
        year: u32,
    ) -> (r: Vec<GameInstance>)
        requires
            self.wf(),
        ensures
            report_ensures(
                self@,
                ReportWindow::Year { year },
                opt_view(category_name),
                opt_view(instance_name),
                r@,
            ),
    {
        let w = ReportWindow::Year { year };
        fetch_window(self, &w, category_name, instance_name)
    }
}

} // verus!
