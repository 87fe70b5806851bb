use vstd::prelude::*;

use crate::date::Date;

verus! {

/// The quarter (1 through 4) that a month (1 through 12) falls in.
pub open spec fn quarter_of_month(month: int) -> int {
    (month - 1) / 3 + 1
}

/// A year-scoped reporting quarter: one of the four three-month
/// windows of `year`.
#[derive(Debug, Clone)]
pub struct Quarter {
    pub year: i32,
    pub quarter: u8,
    pub display: String,
}

impl Quarter {
    /// True when `date` falls inside this quarter: same year, and the
    /// date's month maps to this quarter's number.
    pub open spec fn spec_contains(self, date: Date) -> bool {
        date.year == self.year && quarter_of_month(date.month as int) == self.quarter as int
    }

    /// Membership test: `date` belongs to this quarter exactly when its
    /// year matches and `(month - 1) / 3 + 1` equals the quarter number.
    pub fn contains_date(&self, date: Date) -> (r: bool)
        requires
            date.valid(),
        ensures
            r == self.spec_contains(date),
    {
        if date.year != self.year {
            return false;
        }
        let q: u32 = ((date.month as u32) - 1) / 3 + 1;
        q == self.quarter as u32
    }

    /// A well-formed quarter number: one of the four windows of a year.
    pub open spec fn wf(self) -> bool {
        1 <= self.quarter <= 4
    }

    /// Two quarters denote the same reporting window exactly when year
    /// and quarter number match; the display label plays no part.
    pub fn same_period(&self, other: &Quarter) -> (r: bool)
        ensures
            r == (self.year == other.year && self.quarter == other.quarter),
    {
        self.year == other.year && self.quarter == other.quarter
    }

    /// The label this quarter was built with, for callers that show it.
    pub fn display_string(&self) -> (r: String)
        ensures
            r@ == self.display@,
    {
        self.display.clone()
    }
}

/// The four quarters of a year partition its months: every valid date
/// maps to a quarter number between 1 and 4, and two quarters that both
/// contain it are the same window.
pub proof fn lemma_quarter_partition(d: Date, q1: Quarter, q2: Quarter)
    requires
        d.valid(),
    ensures
        1 <= quarter_of_month(d.month as int) <= 4,
        q1.spec_contains(d) && q2.spec_contains(d) ==> q1.year == q2.year && q1.quarter
            == q2.quarter,
{
}

} // verus!
