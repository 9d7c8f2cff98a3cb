//! Units of time.

use crate::text::to_chars;
use crate::units::{find_suffix, lookup_suffix, table_view};
use vstd::prelude::*;

verus! {

/// A unit of time.
#[derive(Debug, Clone, Copy, PartialEq, Eq)]
pub enum TimeUnit {
    Nanosecond,
    Microsecond,
    Millisecond,
    Second,
    Minute,
    Hour,
    Day,
    Week,
    Month,
    Year,
}

impl TimeUnit {
    /// The suffixes of the family, longest first.
    pub open spec fn suffix_table() -> Seq<(Seq<char>, TimeUnit)> {
        seq![
            ("month"@, TimeUnit::Month),
            ("hour"@, TimeUnit::Hour),
            ("week"@, TimeUnit::Week),
            ("year"@, TimeUnit::Year),
            ("sec"@, TimeUnit::Second),
            ("min"@, TimeUnit::Minute),
            ("day"@, TimeUnit::Day),
            ("ns"@, TimeUnit::Nanosecond),
            ("\u{3bc}s"@, TimeUnit::Microsecond),
            ("us"@, TimeUnit::Microsecond),
            ("ms"@, TimeUnit::Millisecond),
            ("s"@, TimeUnit::Second),
            ("h"@, TimeUnit::Hour),
            ("d"@, TimeUnit::Day),
            ("w"@, TimeUnit::Week),
            ("y"@, TimeUnit::Year),
        ]
    }

    /// The unit that `suffix` names.
    pub open spec fn lookup(suffix: Seq<char>) -> Option<TimeUnit> {
        find_suffix(Self::suffix_table(), suffix, 0)
    }

    /// The suffixes of the family, longest first.
    pub fn suffixes() -> (table: Vec<(Vec<char>, TimeUnit)>)
        ensures
            table_view(table@) == Self::suffix_table(),
    {
        let mut table: Vec<(Vec<char>, TimeUnit)> = Vec::new();
        table.push((to_chars("month"), TimeUnit::Month));
        table.push((to_chars("hour"), TimeUnit::Hour));
        table.push((to_chars("week"), TimeUnit::Week));
        table.push((to_chars("year"), TimeUnit::Year));
        table.push((to_chars("sec"), TimeUnit::Second));
        table.push((to_chars("min"), TimeUnit::Minute));
        table.push((to_chars("day"), TimeUnit::Day));
        table.push((to_chars("ns"), TimeUnit::Nanosecond));
        table.push((to_chars("\u{3bc}s"), TimeUnit::Microsecond));
        table.push((to_chars("us"), TimeUnit::Microsecond));
        table.push((to_chars("ms"), TimeUnit::Millisecond));
        table.push((to_chars("s"), TimeUnit::Second));
        table.push((to_chars("h"), TimeUnit::Hour));
        table.push((to_chars("d"), TimeUnit::Day));
        table.push((to_chars("w"), TimeUnit::Week));
        table.push((to_chars("y"), TimeUnit::Year));
        assert(table_view(table@) =~= Self::suffix_table());
        table
    }

    /// The unit that `suffix` names, by exact comparison.
    pub fn from_suffix(suffix: &str) -> (r: Option<Self>)
        ensures
            r == Self::lookup(suffix@),
    {
        let table = Self::suffixes();
        let wanted = to_chars(suffix);
        lookup_suffix(&table, &wanted)
    }
}

} // verus!
