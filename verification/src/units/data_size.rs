//! Units of data size.

use crate::text::to_chars;
use crate::units::{find_suffix, lookup_suffix, table_view};
use vstd::prelude::*;

verus! {

/// A unit of data size.
#[derive(Debug, Clone, Copy, PartialEq, Eq)]
pub enum DataSizeUnit {
    Kilobyte,
    Megabyte,
    Gigabyte,
    Terabyte,
}

impl DataSizeUnit {
    /// The suffixes of the family, longest first.
    pub open spec fn suffix_table() -> Seq<(Seq<char>, DataSizeUnit)> {
        seq![
            ("KB"@, DataSizeUnit::Kilobyte),
            ("Kb"@, DataSizeUnit::Kilobyte),
            ("kb"@, DataSizeUnit::Kilobyte),
            ("MB"@, DataSizeUnit::Megabyte),
            ("Mb"@, DataSizeUnit::Megabyte),
            ("mb"@, DataSizeUnit::Megabyte),
            ("GB"@, DataSizeUnit::Gigabyte),
            ("Gb"@, DataSizeUnit::Gigabyte),
            ("gb"@, DataSizeUnit::Gigabyte),
            ("TB"@, DataSizeUnit::Terabyte),
            ("Tb"@, DataSizeUnit::Terabyte),
            ("tb"@, DataSizeUnit::Terabyte),
        ]
    }

    /// The unit that `suffix` names.
    pub open spec fn lookup(suffix: Seq<char>) -> Option<DataSizeUnit> {
        find_suffix(Self::suffix_table(), suffix, 0)
    }

    /// The suffixes of the family, longest first.
    pub fn suffixes() -> (table: Vec<(Vec<char>, DataSizeUnit)>)
        ensures
            table_view(table@) == Self::suffix_table(),
    {
        let mut table: Vec<(Vec<char>, DataSizeUnit)> = Vec::new();
        table.push((to_chars("KB"), DataSizeUnit::Kilobyte));
        table.push((to_chars("Kb"), DataSizeUnit::Kilobyte));
        table.push((to_chars("kb"), DataSizeUnit::Kilobyte));
        table.push((to_chars("MB"), DataSizeUnit::Megabyte));
        table.push((to_chars("Mb"), DataSizeUnit::Megabyte));
        table.push((to_chars("mb"), DataSizeUnit::Megabyte));
        table.push((to_chars("GB"), DataSizeUnit::Gigabyte));
        table.push((to_chars("Gb"), DataSizeUnit::Gigabyte));
        table.push((to_chars("gb"), DataSizeUnit::Gigabyte));
        table.push((to_chars("TB"), DataSizeUnit::Terabyte));
        table.push((to_chars("Tb"), DataSizeUnit::Terabyte));
        table.push((to_chars("tb"), DataSizeUnit::Terabyte));
        assert(table_view(table@) =~= Self::suffix_table());
        table
    }

    /// The unit that `suffix` names, by exact comparison.
    pub fn from_suffix(suffix: &str) -> (r: Option<Self>)
        ensures
            r == Self::lookup(suffix@),
    {
        let table = Self::suffixes();
        let wanted = to_chars(suffix);
        lookup_suffix(&table, &wanted)
    }
}

} // verus!
