//! The catalog tree: months and the days found under them.
//!
//! A month is named by its year and month number and lists its days in the
//! order in which they were first seen. Adding a day whose number the month
//! already lists changes nothing, so crawling a month again never duplicates
//! or reorders what is there.

use vstd::prelude::*;
use crate::error::{IdentifierFault, MalformedIdentifier};
use crate::identifier::{day_key, month_key, parse_day_key, parse_month_key};
use crate::text::chars_of;

verus! {

/// One day of a month, and the URL of the first page of its listing.
#[derive(Clone, Debug, PartialEq, Eq)]
pub struct DailyRoot {
    pub day: u32,
    pub url: String,
}

/// One month of the catalog, the URL of its index and the days known so far.
#[derive(Debug, PartialEq, Eq)]
pub struct MonthlyRoot {
    pub year: u32,
    pub month: u32,
    pub url: String,
    pub products: Vec<DailyRoot>,
}

/// A day as contracts see it.
pub struct DayView {
    pub day: u32,
    pub url: Seq<char>,
}

/// A month as contracts see it.
pub struct MonthView {
    pub year: u32,
    pub month: u32,
    pub url: Seq<char>,
    pub days: Seq<DayView>,
}

impl View for DailyRoot {
    type V = DayView;

    open spec fn view(&self) -> DayView {
        DayView { day: self.day, url: self.url@ }
    }
}

impl View for MonthlyRoot {
    type V = MonthView;

    open spec fn view(&self) -> MonthView {
        MonthView {
            year: self.year,
            month: self.month,
            url: self.url@,
            days: day_views(self.products@),
        }
    }
}

/// The views of a run of days, in order.
pub open spec fn day_views(days: Seq<DailyRoot>) -> Seq<DayView> {
    days.map_values(|d: DailyRoot| d@)
}

/// The views of a catalog's months, in order.
pub open spec fn month_views(months: Seq<MonthlyRoot>) -> Seq<MonthView> {
    months.map_values(|m: MonthlyRoot| m@)
}

/// Some day of `days` has the number `day`.
pub open spec fn lists_day(days: Seq<DayView>, day: u32) -> bool {
    exists|i: int| 0 <= i < days.len() && (#[trigger] days[i]).day == day
}

/// No two days of `days` share a number.
pub open spec fn distinct_days(days: Seq<DayView>) -> bool {
    forall|i: int, j: int|
        0 <= i < j < days.len() ==> (#[trigger] days[i]).day != (#[trigger] days[j]).day
}

/// `days` after merging `day` into it: unchanged where the number is already
/// listed, else with `day` appended.
pub open spec fn merged(days: Seq<DayView>, day: DayView) -> Seq<DayView> {
    if lists_day(days, day.day) {
        days
    } else {
        days.push(day)
    }
}

/// `days` after merging each of `found` into it, first to last.
pub open spec fn merged_all(days: Seq<DayView>, found: Seq<DayView>) -> Seq<DayView>
    decreases found.len(),
{
    if found.len() == 0 {
        days
    } else {
        merged(merged_all(days, found.drop_last()), found.last())
    }
}

impl DailyRoot {
    /// Reads a day out of the URL of the first page of its listing.
    ///
    /// The day is the numeral in the seventh and eighth character of the
    /// URL's tail, and is at least one. The URL is kept as given.
    pub fn from_url(url: String) -> (made: Result<DailyRoot, MalformedIdentifier>)
        ensures
            match made {
                Ok(day) => day_key(url@) == Ok::<u32, IdentifierFault>(day.day) && day.url@ == url@,
                Err(e) => day_key(url@) == Err::<u32, IdentifierFault>(e.fault) && e.url@ == url@,
            },
    {
        let chars = chars_of(url.as_str());
        match parse_day_key(&chars) {
            Ok(day) => Ok(DailyRoot { day, url }),
            Err(fault) => Err(MalformedIdentifier { url, fault }),
        }
    }
}

impl MonthlyRoot {
    /// Reads a month out of the URL of its index. The month starts without
    /// days.
    ///
    /// The tail of the URL must be exactly six characters: a four-character
    /// numeral for the year, then a two-character numeral for the month,
    /// each at least one. The URL is kept as given.
    pub fn from_url(url: String) -> (made: Result<MonthlyRoot, MalformedIdentifier>)
        ensures
            match made {
                Ok(m) => month_key(url@) == Ok::<(u32, u32), IdentifierFault>((m.year, m.month))
                    && m.url@ == url@ && m.products@.len() == 0,
                Err(e) => month_key(url@) == Err::<(u32, u32), IdentifierFault>(e.fault) && e.url@
                    == url@,
            },
    {
        let chars = chars_of(url.as_str());
        match parse_month_key(&chars) {
            Ok((year, month)) => Ok(MonthlyRoot { year, month, url, products: Vec::new() }),
            Err(fault) => Err(MalformedIdentifier { url, fault }),
        }
    }

    /// No two days of this month share a number.
    pub open spec fn well_formed(&self) -> bool {
        distinct_days(self@.days)
    }

    /// Whether the month already lists a day with this number.
    pub fn has_day(&self, day: u32) -> (listed: bool)
        ensures
            listed == lists_day(self@.days, day),
    {
        let mut i: usize = 0;
        while i < self.products.len()
            invariant
                i <= self.products@.len(),
                forall|j: int| 0 <= j < i ==> (#[trigger] self@.days[j]).day != day,
            decreases self.products.len() - i,
        {
            if self.products[i].day == day {
                assert(self@.days[i as int].day == day);
                return true;
            }
            i = i + 1;
        }
        false
    }

    /// Merges `day` into the month: appends it unless a day with the same
    /// number is already listed; then nothing changes. Says whether
    /// the day was appended.
    pub fn merge_day(&mut self, day: DailyRoot) -> (added: bool)
        ensures
            final(self)@.days == merged(old(self)@.days, day@),
            added == !lists_day(old(self)@.days, day.day),
            final(self).year == old(self).year,
            final(self).month == old(self).month,
            final(self).url == old(self).url,
            !added ==> final(self).products == old(self).products,
            old(self).well_formed() ==> final(self).well_formed(),
    {
        if self.has_day(day.day) {
            return false;
        }
        proof {
            if self.well_formed() {
                lemma_merge_keeps_distinct(self@.days, day@);
            }
            assert(day_views(self.products@.push(day)) == day_views(self.products@).push(day@));
        }
        self.products.push(day);
        true
    }
}

/// Merging keeps the days that were there, in their places.
pub proof fn lemma_merge_keeps_prefix(days: Seq<DayView>, day: DayView)
    ensures
        merged(days, day).len() >= days.len(),
        merged(days, day).take(days.len() as int) == days,
{
}

/// After a merge the day's number is listed.
pub proof fn lemma_merge_lists_day(days: Seq<DayView>, day: DayView)
    ensures
        lists_day(merged(days, day), day.day),
        forall|k: u32| lists_day(days, k) ==> lists_day(merged(days, day), k),
{
    let after = merged(days, day);
    if !lists_day(days, day.day) {
        assert(after[days.len() as int].day == day.day);
    }
    assert forall|k: u32| lists_day(days, k) implies lists_day(after, k) by {
        let i = choose|i: int| 0 <= i < days.len() && (#[trigger] days[i]).day == k;
        assert(after[i].day == k);
    }
}

/// Merging into a month without repeated numbers leaves it without any.
pub proof fn lemma_merge_keeps_distinct(days: Seq<DayView>, day: DayView)
    requires
        distinct_days(days),
    ensures
        distinct_days(merged(days, day)),
{
    let after = merged(days, day);
    assert forall|i: int, j: int| 0 <= i < j < after.len() implies (#[trigger] after[i]).day != (
    #[trigger] after[j]).day by {
        if j < days.len() {
            assert(after[i] == days[i]);
            assert(after[j] == days[j]);
        } else {
            assert(after[i] == days[i]);
        }
    }
}

/// Merging the same day a second time changes nothing, and in a month
/// without repeated numbers the day's number is then held by exactly one
/// child, with every earlier child where it was.
pub proof fn lemma_merge_twice(days: Seq<DayView>, day: DayView)
    requires
        distinct_days(days),
    ensures
        merged(merged(days, day), day) == merged(days, day),
        merged(days, day).take(days.len() as int) == days,
        exists|i: int|
            0 <= i < merged(days, day).len() && (#[trigger] merged(days, day)[i]).day == day.day
                && forall|j: int|
                0 <= j < merged(days, day).len() && j != i ==> (#[trigger] merged(
                    days,
                    day,
                )[j]).day != day.day,
{
    let after = merged(days, day);
    lemma_merge_lists_day(days, day);
    lemma_merge_keeps_distinct(days, day);
    let i = choose|i: int| 0 <= i < after.len() && (#[trigger] after[i]).day == day.day;
    assert forall|j: int| 0 <= j < after.len() && j != i implies (#[trigger] after[j]).day
        != day.day by {
        if j < i {
            assert(after[j].day != after[i].day);
        } else {
            assert(after[i].day != after[j].day);
        }
    }
}

/// Merging a run of days keeps what was there in place, keeps a month free
/// of repeated numbers so, and lists every number that was listed or merged.
pub proof fn lemma_merge_all(days: Seq<DayView>, found: Seq<DayView>)
    ensures
        merged_all(days, found).len() >= days.len(),
        merged_all(days, found).take(days.len() as int) == days,
        distinct_days(days) ==> distinct_days(merged_all(days, found)),
        forall|k: u32| lists_day(days, k) ==> lists_day(merged_all(days, found), k),
        forall|i: int|
            0 <= i < found.len() ==> lists_day(merged_all(days, found), (#[trigger] found[i]).day),
    decreases found.len(),
{
    if found.len() > 0 {
        let before = merged_all(days, found.drop_last());
        let after = merged(before, found.last());
        lemma_merge_all(days, found.drop_last());
        lemma_merge_lists_day(before, found.last());
        assert(after.take(days.len() as int) == before.take(days.len() as int));
        if distinct_days(days) {
            lemma_merge_keeps_distinct(before, found.last());
        }
        assert forall|i: int| 0 <= i < found.len() implies lists_day(
            after,
            (#[trigger] found[i]).day,
        ) by {
            if i < found.len() - 1 {
                assert(found.drop_last()[i] == found[i]);
            }
        }
    }
}

/// Merging days whose numbers are all listed already changes nothing.
pub proof fn lemma_merge_all_known(days: Seq<DayView>, found: Seq<DayView>)
    requires
        forall|i: int| 0 <= i < found.len() ==> lists_day(days, (#[trigger] found[i]).day),
    ensures
        merged_all(days, found) == days,
    decreases found.len(),
{
    if found.len() > 0 {
        assert forall|i: int| 0 <= i < found.drop_last().len() implies lists_day(
            days,
            (#[trigger] found.drop_last()[i]).day,
        ) by {
            assert(found.drop_last()[i] == found[i]);
        }
        lemma_merge_all_known(days, found.drop_last());
        assert(lists_day(days, found.last().day)) by {
            assert(found[found.len() - 1] == found.last());
        }
    }
}

/// Merging the same run of days again, any number of times, gives what the
/// first merge gave: crawling an unchanged month index leaves the month as
/// it is.
pub proof fn lemma_merge_all_idempotent(days: Seq<DayView>, found: Seq<DayView>)
    ensures
        merged_all(merged_all(days, found), found) == merged_all(days, found),
{
    lemma_merge_all(days, found);
    lemma_merge_all_known(merged_all(days, found), found);
}

/// The order in which two days are merged does not change which numbers the
/// month lists afterwards.
pub proof fn lemma_merge_commutes(days: Seq<DayView>, a: DayView, b: DayView, k: u32)
    ensures
        lists_day(merged(merged(days, a), b), k) == lists_day(merged(merged(days, b), a), k),
        merged(merged(days, a), b).len() == merged(merged(days, b), a).len(),
{
    let ab = merged(merged(days, a), b);
    let ba = merged(merged(days, b), a);
    lemma_merge_lists_day(days, a);
    lemma_merge_lists_day(days, b);
    lemma_merge_lists_day(merged(days, a), b);
    lemma_merge_lists_day(merged(days, b), a);
    lemma_listed_after_merge(days, a, k);
    lemma_listed_after_merge(days, b, k);
    lemma_listed_after_merge(merged(days, a), b, k);
    lemma_listed_after_merge(merged(days, b), a, k);
    lemma_listed_after_merge(days, a, b.day);
    lemma_listed_after_merge(days, b, a.day);
}

/// A number is listed after a merge exactly if it was listed before or is
/// the number of the merged day.
pub proof fn lemma_listed_after_merge(days: Seq<DayView>, day: DayView, k: u32)
    ensures
        lists_day(merged(days, day), k) <==> lists_day(days, k) || k == day.day,
{
    let after = merged(days, day);
    lemma_merge_lists_day(days, day);
    if lists_day(after, k) && k != day.day {
        let i = choose|i: int| 0 <= i < after.len() && (#[trigger] after[i]).day == k;
        assert(i < days.len());
        assert(days[i].day == k);
    }
}

} // verus!
