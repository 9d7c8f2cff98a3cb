//! Units of length.

use crate::text::to_chars;
use crate::units::{find_suffix, lookup_suffix, table_view, Scale};
use vstd::prelude::*;

verus! {

/// A unit of length.
#[derive(Debug, Clone, Copy, PartialEq, Eq)]
pub enum LengthUnit {
    Micrometer,
    Nanometer,
    Millimeter,
    Centimeter,
    Meter,
    Kilometer,
    Megameter,
    Mile,
    Em,
    Rem,
    Point,
    Inch,
    Pixel,
}

impl LengthUnit {
    /// The suffixes of the family, longest first.
    pub open spec fn suffix_table() -> Seq<(Seq<char>, LengthUnit)> {
        seq![
            ("rem"@, LengthUnit::Rem),
            ("\u{b5}m"@, LengthUnit::Micrometer),
            ("um"@, LengthUnit::Micrometer),
            ("nm"@, LengthUnit::Nanometer),
            ("mm"@, LengthUnit::Millimeter),
            ("cm"@, LengthUnit::Centimeter),
            ("km"@, LengthUnit::Kilometer),
            ("Mm"@, LengthUnit::Megameter),
            ("mi"@, LengthUnit::Mile),
            ("em"@, LengthUnit::Em),
            ("pt"@, LengthUnit::Point),
            ("in"@, LengthUnit::Inch),
            ("px"@, LengthUnit::Pixel),
            ("m"@, LengthUnit::Meter),
        ]
    }

    /// The unit that `suffix` names.
    pub open spec fn lookup(suffix: Seq<char>) -> Option<LengthUnit> {
        find_suffix(Self::suffix_table(), suffix, 0)
    }

    /// The suffixes of the family, longest first.
    pub fn suffixes() -> (table: Vec<(Vec<char>, LengthUnit)>)
        ensures
            table_view(table@) == Self::suffix_table(),
    {
        let mut table: Vec<(Vec<char>, LengthUnit)> = Vec::new();
        table.push((to_chars("rem"), LengthUnit::Rem));
        table.push((to_chars("\u{b5}m"), LengthUnit::Micrometer));
        table.push((to_chars("um"), LengthUnit::Micrometer));
        table.push((to_chars("nm"), LengthUnit::Nanometer));
        table.push((to_chars("mm"), LengthUnit::Millimeter));
        table.push((to_chars("cm"), LengthUnit::Centimeter));
        table.push((to_chars("km"), LengthUnit::Kilometer));
        table.push((to_chars("Mm"), LengthUnit::Megameter));
        table.push((to_chars("mi"), LengthUnit::Mile));
        table.push((to_chars("em"), LengthUnit::Em));
        table.push((to_chars("pt"), LengthUnit::Point));
        table.push((to_chars("in"), LengthUnit::Inch));
        table.push((to_chars("px"), LengthUnit::Pixel));
        table.push((to_chars("m"), LengthUnit::Meter));
        assert(table_view(table@) =~= Self::suffix_table());
        table
    }

    /// The unit that `suffix` names, by exact comparison.
    pub fn from_suffix(suffix: &str) -> (r: Option<Self>)
        ensures
            r == Self::lookup(suffix@),
    {
        let table = Self::suffixes();
        let wanted = to_chars(suffix);
        lookup_suffix(&table, &wanted)
    }

    /// The scale from this unit to pixels, at 96 pixels to the inch. A unit
    /// without a fixed size in pixels has the scale of one to one.
    pub open spec fn pixel_scale(&self) -> (Seq<char>, Seq<char>) {
        match self {
            LengthUnit::Inch => ("96"@, "1"@),
            LengthUnit::Point => ("96"@, "72"@),
            LengthUnit::Centimeter => ("96"@, "2.54"@),
            LengthUnit::Millimeter => ("96"@, "25.4"@),
            _ => ("1"@, "1"@),
        }
    }

    /// The scale from this unit to meters. A unit without a fixed size in
    /// meters has the scale of one to one.
    pub open spec fn meter_scale(&self) -> (Seq<char>, Seq<char>) {
        match self {
            LengthUnit::Kilometer => ("1000"@, "1"@),
            LengthUnit::Centimeter => ("1"@, "100"@),
            LengthUnit::Millimeter => ("1"@, "1000"@),
            LengthUnit::Nanometer => ("1"@, "1000000000"@),
            LengthUnit::Mile => ("1609.344"@, "1"@),
            LengthUnit::Inch => ("0.0254"@, "1"@),
            _ => ("1"@, "1"@),
        }
    }

    /// The scale from this unit to pixels.
    pub fn to_pixels(&self) -> (r: Scale)
        ensures
            r@ == self.pixel_scale(),
    {
        match self {
            LengthUnit::Inch => Scale { multiply: "96", divide: "1" },
            LengthUnit::Point => Scale { multiply: "96", divide: "72" },
            LengthUnit::Centimeter => Scale { multiply: "96", divide: "2.54" },
            LengthUnit::Millimeter => Scale { multiply: "96", divide: "25.4" },
            _ => Scale { multiply: "1", divide: "1" },
        }
    }

    /// The scale from this unit to meters.
    pub fn to_meters(&self) -> (r: Scale)
        ensures
            r@ == self.meter_scale(),
    {
        match self {
            LengthUnit::Kilometer => Scale { multiply: "1000", divide: "1" },
            LengthUnit::Centimeter => Scale { multiply: "1", divide: "100" },
            LengthUnit::Millimeter => Scale { multiply: "1", divide: "1000" },
            LengthUnit::Nanometer => Scale { multiply: "1", divide: "1000000000" },
            LengthUnit::Mile => Scale { multiply: "1609.344", divide: "1" },
            LengthUnit::Inch => Scale { multiply: "0.0254", divide: "1" },
            _ => Scale { multiply: "1", divide: "1" },
        }
    }
}

} // verus!
