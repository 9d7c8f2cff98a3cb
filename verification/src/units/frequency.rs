//! Units of frequency.

use crate::text::to_chars;
use crate::units::{find_suffix, lookup_suffix, table_view};
use vstd::prelude::*;

verus! {

/// A unit of frequency.
#[derive(Debug, Clone, Copy, PartialEq, Eq)]
pub enum FrequencyUnit {
    Hertz,
    Kilohertz,
    Megahertz,
    Gigahertz,
    Terahertz,
}

impl FrequencyUnit {
    /// The suffixes of the family, longest first.
    pub open spec fn suffix_table() -> Seq<(Seq<char>, FrequencyUnit)> {
        seq![
            ("kHz"@, FrequencyUnit::Kilohertz),
            ("khz"@, FrequencyUnit::Kilohertz),
            ("MHz"@, FrequencyUnit::Megahertz),
            ("mhz"@, FrequencyUnit::Megahertz),
            ("GHz"@, FrequencyUnit::Gigahertz),
            ("ghz"@, FrequencyUnit::Gigahertz),
            ("THz"@, FrequencyUnit::Terahertz),
            ("thz"@, FrequencyUnit::Terahertz),
            ("Hz"@, FrequencyUnit::Hertz),
            ("hz"@, FrequencyUnit::Hertz),
        ]
    }

    /// The unit that `suffix` names.
    pub open spec fn lookup(suffix: Seq<char>) -> Option<FrequencyUnit> {
        find_suffix(Self::suffix_table(), suffix, 0)
    }

    /// The suffixes of the family, longest first.
    pub fn suffixes() -> (table: Vec<(Vec<char>, FrequencyUnit)>)
        ensures
            table_view(table@) == Self::suffix_table(),
    {
        let mut table: Vec<(Vec<char>, FrequencyUnit)> = Vec::new();
        table.push((to_chars("kHz"), FrequencyUnit::Kilohertz));
        table.push((to_chars("khz"), FrequencyUnit::Kilohertz));
        table.push((to_chars("MHz"), FrequencyUnit::Megahertz));
        table.push((to_chars("mhz"), FrequencyUnit::Megahertz));
        table.push((to_chars("GHz"), FrequencyUnit::Gigahertz));
        table.push((to_chars("ghz"), FrequencyUnit::Gigahertz));
        table.push((to_chars("THz"), FrequencyUnit::Terahertz));
        table.push((to_chars("thz"), FrequencyUnit::Terahertz));
        table.push((to_chars("Hz"), FrequencyUnit::Hertz));
        table.push((to_chars("hz"), FrequencyUnit::Hertz));
        assert(table_view(table@) =~= Self::suffix_table());
        table
    }

    /// The unit that `suffix` names, by exact comparison.
    pub fn from_suffix(suffix: &str) -> (r: Option<Self>)
        ensures
            r == Self::lookup(suffix@),
    {
        let table = Self::suffixes();
        let wanted = to_chars(suffix);
        lookup_suffix(&table, &wanted)
    }
}

} // verus!
