//! Typed scalars: from a bare token to a value.
//!
//! A token is read, after trimming, as the first of these that fits: one of
//! the keywords `auto`, `none`, `true` and `false`, in any ASCII case; a
//! finite decimal number followed by a unit suffix, the families tried in
//! the order length, angle, time, data size, frequency, percentage,
//! fraction; a signed 64-bit integer; a floating-point literal. A token that
//! is none of these has no typed value and stands for itself as a text.

use crate::numeral::{integer_value, is_float_literal, parse_integer, Numeral};
use crate::text::{ascii_lowercase, lowercase_is, to_chars, trim, trim_chars};
use crate::units::{
    first_match, match_suffix, table_view, AngleUnit, DataSizeUnit, FrequencyUnit, LengthUnit,
    TimeUnit,
};
use crate::value::{option_view, LaCoNValue, ValueView};
use vstd::prelude::*;

verus! {

/// The one suffix of a percentage.
pub open spec fn percentage_table() -> Seq<(Seq<char>, ())> {
    seq![("%"@, ())]
}

/// The one suffix of a fraction.
pub open spec fn fraction_table() -> Seq<(Seq<char>, ())> {
    seq![("fr"@, ())]
}

/// The length that a trimmed token denotes.
pub open spec fn length_value(t: Seq<char>) -> Option<ValueView> {
    match first_match(LengthUnit::suffix_table(), t, 0) {
        Some((n, u)) => Some(ValueView::Length(n, u)),
        None => None,
    }
}

/// The angle that a trimmed token denotes.
pub open spec fn angle_value(t: Seq<char>) -> Option<ValueView> {
    match first_match(AngleUnit::suffix_table(), t, 0) {
        Some((n, u)) => Some(ValueView::Angle(n, u)),
        None => None,
    }
}

/// The duration that a trimmed token denotes.
pub open spec fn time_value(t: Seq<char>) -> Option<ValueView> {
    match first_match(TimeUnit::suffix_table(), t, 0) {
        Some((n, u)) => Some(ValueView::Time(n, u)),
        None => None,
    }
}

/// The data size that a trimmed token denotes.
pub open spec fn data_size_value(t: Seq<char>) -> Option<ValueView> {
    match first_match(DataSizeUnit::suffix_table(), t, 0) {
        Some((n, u)) => Some(ValueView::DataSize(n, u)),
        None => None,
    }
}

/// The frequency that a trimmed token denotes.
pub open spec fn frequency_value(t: Seq<char>) -> Option<ValueView> {
    match first_match(FrequencyUnit::suffix_table(), t, 0) {
        Some((n, u)) => Some(ValueView::Frequency(n, u)),
        None => None,
    }
}

/// The percentage that a trimmed token denotes.
pub open spec fn percentage_value(t: Seq<char>) -> Option<ValueView> {
    match first_match(percentage_table(), t, 0) {
        Some((n, u)) => Some(ValueView::Percentage(n)),
        None => None,
    }
}

/// The fraction that a trimmed token denotes.
pub open spec fn fraction_value(t: Seq<char>) -> Option<ValueView> {
    match first_match(fraction_table(), t, 0) {
        Some((n, u)) => Some(ValueView::Fraction(n)),
        None => None,
    }
}

/// The keyword that a trimmed token spells, in any ASCII case.
pub open spec fn keyword_value(t: Seq<char>) -> Option<ValueView> {
    let word = ascii_lowercase(t);
    if word == "auto"@ {
        Some(ValueView::Auto)
    } else if word == "none"@ {
        Some(ValueView::Nothing)
    } else if word == "true"@ {
        Some(ValueView::Bool(true))
    } else if word == "false"@ {
        Some(ValueView::Bool(false))
    } else {
        None
    }
}

/// The scalar with a unit that a trimmed token denotes: that of the first
/// family that reads it.
pub open spec fn unit_value(t: Seq<char>) -> Option<ValueView> {
    if length_value(t) is Some {
        length_value(t)
    } else if angle_value(t) is Some {
        angle_value(t)
    } else if time_value(t) is Some {
        time_value(t)
    } else if data_size_value(t) is Some {
        data_size_value(t)
    } else if frequency_value(t) is Some {
        frequency_value(t)
    } else if percentage_value(t) is Some {
        percentage_value(t)
    } else {
        fraction_value(t)
    }
}

/// The plain number that a trimmed token denotes: an integer where it is
/// one, else a floating-point literal.
pub open spec fn number_value(t: Seq<char>) -> Option<ValueView> {
    match integer_value(t) {
        Some(i) => Some(ValueView::Int(i)),
        None => if is_float_literal(t) {
            Some(ValueView::Float(t))
        } else {
            None
        },
    }
}

/// The typed value of a token, if it has one.
pub open spec fn typed_value(input: Seq<char>) -> Option<ValueView> {
    let t = trim(input);
    if keyword_value(t) is Some {
        keyword_value(t)
    } else if unit_value(t) is Some {
        unit_value(t)
    } else {
        number_value(t)
    }
}

/// The value of a token: its typed value, or the token itself as a text.
pub open spec fn plain_value(input: Seq<char>) -> ValueView {
    match typed_value(input) {
        Some(v) => v,
        None => ValueView::String(input),
    }
}

fn length_of(t: &Vec<char>) -> (r: Option<LaCoNValue>)
    ensures
        option_view(r) == length_value(t@),
{
    let table = LengthUnit::suffixes();
    match match_suffix(&table, t) {
        Some((number, unit)) => Some(LaCoNValue::Length(Numeral::of_decimal(&number), unit)),
        None => None,
    }
}

fn angle_of(t: &Vec<char>) -> (r: Option<LaCoNValue>)
    ensures
        option_view(r) == angle_value(t@),
{
    let table = AngleUnit::suffixes();
    match match_suffix(&table, t) {
        Some((number, unit)) => Some(LaCoNValue::Angle(Numeral::of_decimal(&number), unit)),
        None => None,
    }
}

fn time_of(t: &Vec<char>) -> (r: Option<LaCoNValue>)
    ensures
        option_view(r) == time_value(t@),
{
    let table = TimeUnit::suffixes();
    match match_suffix(&table, t) {
        Some((number, unit)) => Some(LaCoNValue::Time(Numeral::of_decimal(&number), unit)),
        None => None,
    }
}

fn data_size_of(t: &Vec<char>) -> (r: Option<LaCoNValue>)
    ensures
        option_view(r) == data_size_value(t@),
{
    let table = DataSizeUnit::suffixes();
    match match_suffix(&table, t) {
        Some((number, unit)) => Some(LaCoNValue::DataSize(Numeral::of_decimal(&number), unit)),
        None => None,
    }
}

fn frequency_of(t: &Vec<char>) -> (r: Option<LaCoNValue>)
    ensures
        option_view(r) == frequency_value(t@),
{
    let table = FrequencyUnit::suffixes();
    match match_suffix(&table, t) {
        Some((number, unit)) => Some(LaCoNValue::Frequency(Numeral::of_decimal(&number), unit)),
        None => None,
    }
}

fn percentage_of(t: &Vec<char>) -> (r: Option<LaCoNValue>)
    ensures
        option_view(r) == percentage_value(t@),
{
    let mut table: Vec<(Vec<char>, ())> = Vec::new();
    table.push((to_chars("%"), ()));
    assert(table_view(table@) =~= percentage_table());
    match match_suffix(&table, t) {
        Some((number, unit)) => Some(LaCoNValue::Percentage(Numeral::of_decimal(&number))),
        None => None,
    }
}

fn fraction_of(t: &Vec<char>) -> (r: Option<LaCoNValue>)
    ensures
        option_view(r) == fraction_value(t@),
{
    let mut table: Vec<(Vec<char>, ())> = Vec::new();
    table.push((to_chars("fr"), ()));
    assert(table_view(table@) =~= fraction_table());
    match match_suffix(&table, t) {
        Some((number, unit)) => Some(LaCoNValue::Fraction(Numeral::of_decimal(&number))),
        None => None,
    }
}

fn keyword_of(t: &Vec<char>) -> (r: Option<LaCoNValue>)
    ensures
        option_view(r) == keyword_value(t@),
{
    if lowercase_is(t, &to_chars("auto")) {
        Some(LaCoNValue::Auto)
    } else if lowercase_is(t, &to_chars("none")) {
        Some(LaCoNValue::Nothing)
    } else if lowercase_is(t, &to_chars("true")) {
        Some(LaCoNValue::Bool(true))
    } else if lowercase_is(t, &to_chars("false")) {
        Some(LaCoNValue::Bool(false))
    } else {
        None
    }
}

fn unit_of(t: &Vec<char>) -> (r: Option<LaCoNValue>)
    ensures
        option_view(r) == unit_value(t@),
{
    if let Some(v) = length_of(t) {
        return Some(v);
    }
    if let Some(v) = angle_of(t) {
        return Some(v);
    }
    if let Some(v) = time_of(t) {
        return Some(v);
    }
    if let Some(v) = data_size_of(t) {
        return Some(v);
    }
    if let Some(v) = frequency_of(t) {
        return Some(v);
    }
    if let Some(v) = percentage_of(t) {
        return Some(v);
    }
    fraction_of(t)
}

fn number_of(t: &Vec<char>) -> (r: Option<LaCoNValue>)
    ensures
        option_view(r) == number_value(t@),
{
    match parse_integer(t) {
        Some(i) => Some(LaCoNValue::Int(i)),
        None => match Numeral::from_chars(t) {
            Some(n) => Some(LaCoNValue::Float(n)),
            None => None,
        },
    }
}

/// The quoted text `input`, kept word for word and never read as a scalar.
pub fn parse_string_literal(input: &str) -> (r: LaCoNValue)
    ensures
        r@ == ValueView::StringLiteral(input@),
{
    LaCoNValue::StringLiteral(input.to_owned())
}

/// The typed value of the token `input`, if it has one.
pub fn parse_typed_value(input: &str) -> (r: Option<LaCoNValue>)
    ensures
        option_view(r) == typed_value(input@),
{
    let t = trim_chars(&to_chars(input));
    if let Some(v) = keyword_of(&t) {
        return Some(v);
    }
    if let Some(v) = unit_of(&t) {
        return Some(v);
    }
    number_of(&t)
}

/// The value of the token `input`: its typed value, or the token itself as
/// a text. There always is one.
pub fn parse_value(input: &str) -> (r: Option<LaCoNValue>)
    ensures
        r is Some,
        r->0@ == plain_value(input@),
        typed_value(input@) is Some ==> option_view(r) == typed_value(input@),
        typed_value(input@) is None ==> r->0@ == ValueView::String(input@),
{
    match parse_typed_value(input) {
        Some(v) => Some(v),
        None => Some(LaCoNValue::String(input.to_owned())),
    }
}

/// The length that `input` denotes: a decimal number and a suffix of
/// [`LengthUnit`].
pub fn parse_length(input: &str) -> (r: Option<LaCoNValue>)
    ensures
        option_view(r) == length_value(trim(input@)),
{
    length_of(&trim_chars(&to_chars(input)))
}

/// The angle that `input` denotes: a decimal number and a suffix of
/// [`AngleUnit`].
pub fn parse_angle(input: &str) -> (r: Option<LaCoNValue>)
    ensures
        option_view(r) == angle_value(trim(input@)),
{
    angle_of(&trim_chars(&to_chars(input)))
}

/// The duration that `input` denotes: a decimal number and a suffix of
/// [`TimeUnit`].
pub fn parse_time(input: &str) -> (r: Option<LaCoNValue>)
    ensures
        option_view(r) == time_value(trim(input@)),
{
    time_of(&trim_chars(&to_chars(input)))
}

/// The data size that `input` denotes: a decimal number and a suffix of
/// [`DataSizeUnit`].
pub fn parse_data_size(input: &str) -> (r: Option<LaCoNValue>)
    ensures
        option_view(r) == data_size_value(trim(input@)),
{
    data_size_of(&trim_chars(&to_chars(input)))
}

/// The frequency that `input` denotes: a decimal number and a suffix of
/// [`FrequencyUnit`].
pub fn parse_frequency(input: &str) -> (r: Option<LaCoNValue>)
    ensures
        option_view(r) == frequency_value(trim(input@)),
{
    frequency_of(&trim_chars(&to_chars(input)))
}

/// The percentage that `input` denotes: a decimal number and `%`.
pub fn parse_percentage(input: &str) -> (r: Option<LaCoNValue>)
    ensures
        option_view(r) == percentage_value(trim(input@)),
{
    percentage_of(&trim_chars(&to_chars(input)))
}

/// The fraction that `input` denotes: a decimal number and `fr`.
pub fn parse_fraction(input: &str) -> (r: Option<LaCoNValue>)
    ensures
        option_view(r) == fraction_value(trim(input@)),
{
    fraction_of(&trim_chars(&to_chars(input)))
}

} // verus!
