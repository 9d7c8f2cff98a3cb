//! Unit families and their suffix tables.
//!
//! Each family lists its suffixes from the longest to the shortest, every
//! suffix once, and maps each to one unit. A suffix is found by exact
//! comparison; a number with a unit is a decimal number that a finite double
//! can stand for, followed by a suffix of the table.

use crate::numeral::{check_finite_literal, is_finite_literal};
use crate::text::{has_suffix, same_chars, slice};
use vstd::prelude::*;

pub mod angle;
pub mod data_size;
pub mod frequency;
pub mod length;
pub mod time;

pub use angle::AngleUnit;
pub use data_size::DataSizeUnit;
pub use frequency::FrequencyUnit;
pub use length::LengthUnit;
pub use time::TimeUnit;

verus! {

/// How a value in one unit is brought to another: it is multiplied by the
/// first number and divided by the second. Both are decimal numbers, kept
/// as they are written, so that no rounding is decided here.
#[derive(Debug, Clone, Copy, PartialEq, Eq)]
pub struct Scale {
    pub multiply: &'static str,
    pub divide: &'static str,
}

impl View for Scale {
    type V = (Seq<char>, Seq<char>);

    open spec fn view(&self) -> (Seq<char>, Seq<char>) {
        (self.multiply@, self.divide@)
    }
}

/// What a table of suffixes looks like to a specification.
pub open spec fn table_view<U>(table: Seq<(Vec<char>, U)>) -> Seq<(Seq<char>, U)> {
    Seq::new(table.len(), |i: int| (table[i].0@, table[i].1))
}

/// The unit of the first entry at or after `k` whose suffix is `suffix`.
pub open spec fn find_suffix<U>(table: Seq<(Seq<char>, U)>, suffix: Seq<char>, k: int) -> Option<U>
    decreases table.len() - k,
{
    if k < 0 || k >= table.len() {
        None
    } else if table[k].0 == suffix {
        Some(table[k].1)
    } else {
        find_suffix(table, suffix, k + 1)
    }
}

/// Whether `text` is a finite decimal number followed by the suffix of
/// entry `k`.
pub open spec fn entry_matches<U>(table: Seq<(Seq<char>, U)>, text: Seq<char>, k: int) -> bool {
    let suffix = table[k].0;
    suffix.len() <= text.len() && text.subrange(text.len() - suffix.len(), text.len() as int)
        == suffix && is_finite_literal(text.subrange(0, text.len() - suffix.len()))
}

/// The number and the unit that the first matching entry at or after `k`
/// gives to `text`.
pub open spec fn first_match<U>(table: Seq<(Seq<char>, U)>, text: Seq<char>, k: int) -> Option<
    (Seq<char>, U),
>
    decreases table.len() - k,
{
    if k < 0 || k >= table.len() {
        None
    } else if entry_matches(table, text, k) {
        Some((text.subrange(0, text.len() - table[k].0.len()), table[k].1))
    } else {
        first_match(table, text, k + 1)
    }
}

/// The unit that the table gives to `suffix`.
pub fn lookup_suffix<U: Copy>(table: &Vec<(Vec<char>, U)>, suffix: &Vec<char>) -> (r: Option<U>)
    ensures
        r == find_suffix(table_view(table@), suffix@, 0),
{
    let mut k: usize = 0;
    while k < table.len()
        invariant
            k <= table.len(),
            find_suffix(table_view(table@), suffix@, k as int) == find_suffix(
                table_view(table@),
                suffix@,
                0,
            ),
        decreases table.len() - k,
    {
        if same_chars(&table[k].0, suffix) {
            return Some(table[k].1);
        }
        k += 1;
    }
    None
}

/// The number and the unit that the table gives to `text`: those of the
/// first entry whose suffix ends the text after a finite decimal number.
pub fn match_suffix<U: Copy>(table: &Vec<(Vec<char>, U)>, text: &Vec<char>) -> (r: Option<
    (Vec<char>, U),
>)
    ensures
        match r {
            Some((number, unit)) => first_match(table_view(table@), text@, 0) == Some(
                (number@, unit),
            ) && is_finite_literal(number@),
            None => first_match(table_view(table@), text@, 0) is None,
        },
{
    let mut k: usize = 0;
    while k < table.len()
        invariant
            k <= table.len(),
            first_match(table_view(table@), text@, k as int) == first_match(
                table_view(table@),
                text@,
                0,
            ),
        decreases table.len() - k,
    {
        if has_suffix(text, &table[k].0) {
            let number = slice(text, 0, text.len() - table[k].0.len());
            if check_finite_literal(&number) {
                return Some((number, table[k].1));
            }
        }
        k += 1;
    }
    None
}

} // verus!
