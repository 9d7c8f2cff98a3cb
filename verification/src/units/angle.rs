//! Angular units.

use crate::text::to_chars;
use crate::units::{find_suffix, lookup_suffix, table_view, Scale};
use vstd::prelude::*;

verus! {

/// An angular unit.
#[derive(Debug, Clone, Copy, PartialEq, Eq)]
pub enum AngleUnit {
    Degree,
    Radian,
}

impl AngleUnit {
    /// The suffixes of the family, longest first.
    pub open spec fn suffix_table() -> Seq<(Seq<char>, AngleUnit)> {
        seq![
            ("deg"@, AngleUnit::Degree),
            ("rad"@, AngleUnit::Radian),
        ]
    }

    /// The unit that `suffix` names.
    pub open spec fn lookup(suffix: Seq<char>) -> Option<AngleUnit> {
        find_suffix(Self::suffix_table(), suffix, 0)
    }

    /// The suffixes of the family, longest first.
    pub fn suffixes() -> (table: Vec<(Vec<char>, AngleUnit)>)
        ensures
            table_view(table@) == Self::suffix_table(),
    {
        let mut table: Vec<(Vec<char>, AngleUnit)> = Vec::new();
        table.push((to_chars("deg"), AngleUnit::Degree));
        table.push((to_chars("rad"), AngleUnit::Radian));
        assert(table_view(table@) =~= Self::suffix_table());
        table
    }

    /// The unit that `suffix` names, by exact comparison.
    pub fn from_suffix(suffix: &str) -> (r: Option<Self>)
        ensures
            r == Self::lookup(suffix@),
    {
        let table = Self::suffixes();
        let wanted = to_chars(suffix);
        lookup_suffix(&table, &wanted)
    }

    /// The scale from this unit to radians: a degree is the half turn,
    /// written to the precision of a double, over 180.
    pub open spec fn radian_scale(&self) -> (Seq<char>, Seq<char>) {
        match self {
            AngleUnit::Radian => ("1"@, "1"@),
            AngleUnit::Degree => ("3.141592653589793"@, "180"@),
        }
    }

    /// The scale from this unit to degrees.
    pub open spec fn degree_scale(&self) -> (Seq<char>, Seq<char>) {
        match self {
            AngleUnit::Degree => ("1"@, "1"@),
            AngleUnit::Radian => ("180"@, "3.141592653589793"@),
        }
    }

    /// The scale from this unit to radians.
    pub fn to_radians(&self) -> (r: Scale)
        ensures
            r@ == self.radian_scale(),
    {
        match self {
            AngleUnit::Radian => Scale { multiply: "1", divide: "1" },
            AngleUnit::Degree => Scale { multiply: "3.141592653589793", divide: "180" },
        }
    }

    /// The scale from this unit to degrees.
    pub fn to_degrees(&self) -> (r: Scale)
        ensures
            r@ == self.degree_scale(),
    {
        match self {
            AngleUnit::Degree => Scale { multiply: "1", divide: "1" },
            AngleUnit::Radian => Scale { multiply: "180", divide: "3.141592653589793" },
        }
    }
}

} // verus!
