//! What holds of every token.
//!
//! A finite decimal number followed by a suffix of a unit family is that
//! number with that unit, whatever the number and the suffix are; a decimal
//! number alone is a plain number; a keyword is a keyword in any ASCII case;
//! and no token has a text as its typed value.

use crate::numeral::{
    digits_end, integer_value, is_decimal_literal, is_digit, is_exponent_at, is_finite_literal,
    is_sign, lemma_digits_end_bounds, unsigned_part,
};
use crate::parser::{
    fraction_table, keyword_value, number_value, percentage_table, plain_value, typed_value,
    unit_value,
};
use crate::text::{
    ascii_lower, ascii_lowercase, is_whitespace, skip_whitespace, skip_whitespace_back, trim,
};
use crate::units::{
    entry_matches, find_suffix, first_match, AngleUnit, DataSizeUnit, FrequencyUnit, LengthUnit,
    TimeUnit,
};
use crate::value::ValueView;
use vstd::prelude::*;

verus! {

/// Whether `c` can stand in a suffix: it is no digit, no point and no
/// whitespace.
pub open spec fn is_suffix_char(c: char) -> bool {
    !is_digit(c) && c != '.' && !is_whitespace(c)
}

/// Whether every character of `s` can stand in a suffix.
pub open spec fn clean_suffix(s: Seq<char>) -> bool {
    forall|i: int| 0 <= i < s.len() ==> is_suffix_char(#[trigger] s[i])
}

/// Whether every suffix of the table has at least one character, and only
/// characters that can stand in a suffix.
pub open spec fn clean_table<U>(table: Seq<(Seq<char>, U)>) -> bool {
    forall|k: int|
        0 <= k < table.len() ==> (#[trigger] table[k]).0.len() > 0 && clean_suffix(table[k].0)
}

/// A decimal number begins with a sign, a digit or a point, and ends with a
/// digit or a point.
pub proof fn lemma_decimal_literal_shape(n: Seq<char>)
    requires
        is_decimal_literal(n),
    ensures
        n.len() >= 1,
        is_sign(n[0]) || is_digit(n[0]) || n[0] == '.',
        is_digit(n.last()) || n.last() == '.',
{
    let b = unsigned_part(n);
    let i = digits_end(b, 0);
    lemma_digits_end_bounds(b, 0);
    let has_point = i < b.len() && b[i] == '.';
    if has_point {
        lemma_digits_end_bounds(b, i + 1);
    }
    let j = if has_point {
        digits_end(b, i + 1)
    } else {
        i
    };
    assert(b.len() >= 1);
    assert(is_digit(b[0]) || b[0] == '.');
    if j == b.len() {
        if has_point && j == i + 1 {
            assert(b.last() == '.');
        } else {
            assert(is_digit(b[j - 1]));
        }
    } else {
        assert(is_exponent_at(b, j));
        let k = if j + 1 < b.len() && is_sign(b[j + 1]) {
            j + 2
        } else {
            j + 1
        };
        lemma_digits_end_bounds(b, k);
        assert(is_digit(b[b.len() - 1]));
    }
    assert(b.last() == n.last());
}

/// A text that neither begins nor ends with whitespace is its own trimmed
/// form.
pub proof fn lemma_trim_of_solid(t: Seq<char>)
    requires
        t.len() >= 1,
        !is_whitespace(t[0]),
        !is_whitespace(t.last()),
    ensures
        trim(t) == t,
{
    assert(skip_whitespace(t, 0) == 0);
    assert(skip_whitespace_back(t, t.len() as int) == t.len());
    assert(t.subrange(0, t.len() as int) == t);
}

/// What a table makes of a decimal number followed by a clean suffix is
/// what it gives to the suffix: the number with that unit where the number
/// is finite, and else nothing.
pub proof fn lemma_first_match_by_lookup<U>(
    table: Seq<(Seq<char>, U)>,
    number: Seq<char>,
    suffix: Seq<char>,
    k: int,
)
    requires
        clean_table(table),
        clean_suffix(suffix),
        is_decimal_literal(number),
        0 <= k <= table.len(),
    ensures
        first_match(table, number + suffix, k) == match find_suffix(table, suffix, k) {
            Some(unit) => if is_finite_literal(number) {
                Some((number, unit))
            } else {
                None
            },
            None => None,
        },
    decreases table.len() - k,
{
    let t = number + suffix;
    if k < table.len() {
        let s = table[k].0;
        lemma_first_match_by_lookup(table, number, suffix, k + 1);
        if s == suffix {
            assert(t.subrange(t.len() - s.len(), t.len() as int) == s);
            assert(t.subrange(0, t.len() - s.len()) == number);
        } else if entry_matches(table, t, k) {
            let rest = t.subrange(0, t.len() - s.len());
            lemma_decimal_literal_shape(rest);
            lemma_decimal_literal_shape(number);
            assert(t.subrange(t.len() - s.len(), t.len() as int) == s);
            if s.len() == suffix.len() {
                assert(t.subrange(t.len() - s.len(), t.len() as int) == suffix);
            } else if s.len() < suffix.len() {
                let at = suffix.len() - s.len() - 1;
                assert(rest.last() == suffix[at]);
                assert(is_suffix_char(suffix[at]));
            } else {
                let at = s.len() - suffix.len() - 1;
                assert(number.last() == t[number.len() - 1]);
                assert(t[number.len() - 1] == t.subrange(t.len() - s.len(), t.len() as int)[at]);
                assert(is_suffix_char(s[at]));
            }
        }
    }
}

/// A decimal number followed by a clean suffix is no keyword, and trimming
/// leaves it as it is.
pub proof fn lemma_number_is_no_keyword(number: Seq<char>, suffix: Seq<char>)
    requires
        is_decimal_literal(number),
        clean_suffix(suffix),
    ensures
        trim(number + suffix) == number + suffix,
        keyword_value(number + suffix) is None,
{
    let t = number + suffix;
    lemma_decimal_literal_shape(number);
    assert(t[0] == number[0]);
    if suffix.len() > 0 {
        assert(t.last() == suffix[suffix.len() - 1]);
        assert(is_suffix_char(suffix[suffix.len() - 1]));
    } else {
        assert(t.last() == number.last());
    }
    lemma_trim_of_solid(t);
    let word = ascii_lowercase(t);
    assert(word[0] == ascii_lower(t[0]));
    assert(word[0] == t[0]);
    reveal_strlit("auto");
    reveal_strlit("none");
    reveal_strlit("true");
    reveal_strlit("false");
    assert("auto"@[0] == 'a');
    assert("none"@[0] == 'n');
    assert("true"@[0] == 't');
    assert("false"@[0] == 'f');
}

/// The suffixes of the length family are clean.
pub proof fn lemma_length_table_is_clean()
    ensures
        clean_table(LengthUnit::suffix_table()),
{
    reveal_strlit("rem");
    reveal_strlit("\u{b5}m");
    reveal_strlit("um");
    reveal_strlit("nm");
    reveal_strlit("mm");
    reveal_strlit("cm");
    reveal_strlit("km");
    reveal_strlit("Mm");
    reveal_strlit("mi");
    reveal_strlit("em");
    reveal_strlit("pt");
    reveal_strlit("in");
    reveal_strlit("px");
    reveal_strlit("m");
    let table = LengthUnit::suffix_table();
    assert forall|k: int| 0 <= k < table.len() implies (#[trigger] table[k]).0.len() > 0
        && clean_suffix(table[k].0) by {
        if k == 0 {
            assert(table[k].0 == "rem"@);
        } else if k == 1 {
            assert(table[k].0 == "\u{b5}m"@);
        } else if k == 2 {
            assert(table[k].0 == "um"@);
        } else if k == 3 {
            assert(table[k].0 == "nm"@);
        } else if k == 4 {
            assert(table[k].0 == "mm"@);
        } else if k == 5 {
            assert(table[k].0 == "cm"@);
        } else if k == 6 {
            assert(table[k].0 == "km"@);
        } else if k == 7 {
            assert(table[k].0 == "Mm"@);
        } else if k == 8 {
            assert(table[k].0 == "mi"@);
        } else if k == 9 {
            assert(table[k].0 == "em"@);
        } else if k == 10 {
            assert(table[k].0 == "pt"@);
        } else if k == 11 {
            assert(table[k].0 == "in"@);
        } else if k == 12 {
            assert(table[k].0 == "px"@);
        } else if k == 13 {
            assert(table[k].0 == "m"@);
        }
    }
}

/// The suffixes of the angle family are clean.
pub proof fn lemma_angle_table_is_clean()
    ensures
        clean_table(AngleUnit::suffix_table()),
{
    reveal_strlit("deg");
    reveal_strlit("rad");
    let table = AngleUnit::suffix_table();
    assert forall|k: int| 0 <= k < table.len() implies (#[trigger] table[k]).0.len() > 0
        && clean_suffix(table[k].0) by {
        if k == 0 {
            assert(table[k].0 == "deg"@);
        } else if k == 1 {
            assert(table[k].0 == "rad"@);
        }
    }
}

/// The suffixes of the time family are clean.
pub proof fn lemma_time_table_is_clean()
    ensures
        clean_table(TimeUnit::suffix_table()),
{
    reveal_strlit("month");
    reveal_strlit("hour");
    reveal_strlit("week");
    reveal_strlit("year");
    reveal_strlit("sec");
    reveal_strlit("min");
    reveal_strlit("day");
    reveal_strlit("ns");
    reveal_strlit("\u{3bc}s");
    reveal_strlit("us");
    reveal_strlit("ms");
    reveal_strlit("s");
    reveal_strlit("h");
    reveal_strlit("d");
    reveal_strlit("w");
    reveal_strlit("y");
    let table = TimeUnit::suffix_table();
    assert forall|k: int| 0 <= k < table.len() implies (#[trigger] table[k]).0.len() > 0
        && clean_suffix(table[k].0) by {
        if k == 0 {
            assert(table[k].0 == "month"@);
        } else if k == 1 {
            assert(table[k].0 == "hour"@);
        } else if k == 2 {
            assert(table[k].0 == "week"@);
        } else if k == 3 {
            assert(table[k].0 == "year"@);
        } else if k == 4 {
            assert(table[k].0 == "sec"@);
        } else if k == 5 {
            assert(table[k].0 == "min"@);
        } else if k == 6 {
            assert(table[k].0 == "day"@);
        } else if k == 7 {
            assert(table[k].0 == "ns"@);
        } else if k == 8 {
            assert(table[k].0 == "\u{3bc}s"@);
        } else if k == 9 {
            assert(table[k].0 == "us"@);
        } else if k == 10 {
            assert(table[k].0 == "ms"@);
        } else if k == 11 {
            assert(table[k].0 == "s"@);
        } else if k == 12 {
            assert(table[k].0 == "h"@);
        } else if k == 13 {
            assert(table[k].0 == "d"@);
        } else if k == 14 {
            assert(table[k].0 == "w"@);
        } else if k == 15 {
            assert(table[k].0 == "y"@);
        }
    }
}

/// The suffixes of the data size family are clean.
pub proof fn lemma_data_size_table_is_clean()
    ensures
        clean_table(DataSizeUnit::suffix_table()),
{
    reveal_strlit("KB");
    reveal_strlit("Kb");
    reveal_strlit("kb");
    reveal_strlit("MB");
    reveal_strlit("Mb");
    reveal_strlit("mb");
    reveal_strlit("GB");
    reveal_strlit("Gb");
    reveal_strlit("gb");
    reveal_strlit("TB");
    reveal_strlit("Tb");
    reveal_strlit("tb");
    let table = DataSizeUnit::suffix_table();
    assert forall|k: int| 0 <= k < table.len() implies (#[trigger] table[k]).0.len() > 0
        && clean_suffix(table[k].0) by {
        if k == 0 {
            assert(table[k].0 == "KB"@);
        } else if k == 1 {
            assert(table[k].0 == "Kb"@);
        } else if k == 2 {
            assert(table[k].0 == "kb"@);
        } else if k == 3 {
            assert(table[k].0 == "MB"@);
        } else if k == 4 {
            assert(table[k].0 == "Mb"@);
        } else if k == 5 {
            assert(table[k].0 == "mb"@);
        } else if k == 6 {
            assert(table[k].0 == "GB"@);
        } else if k == 7 {
            assert(table[k].0 == "Gb"@);
        } else if k == 8 {
            assert(table[k].0 == "gb"@);
        } else if k == 9 {
            assert(table[k].0 == "TB"@);
        } else if k == 10 {
            assert(table[k].0 == "Tb"@);
        } else if k == 11 {
            assert(table[k].0 == "tb"@);
        }
    }
}

/// The suffixes of the frequency family are clean.
pub proof fn lemma_frequency_table_is_clean()
    ensures
        clean_table(FrequencyUnit::suffix_table()),
{
    reveal_strlit("kHz");
    reveal_strlit("khz");
    reveal_strlit("MHz");
    reveal_strlit("mhz");
    reveal_strlit("GHz");
    reveal_strlit("ghz");
    reveal_strlit("THz");
    reveal_strlit("thz");
    reveal_strlit("Hz");
    reveal_strlit("hz");
    let table = FrequencyUnit::suffix_table();
    assert forall|k: int| 0 <= k < table.len() implies (#[trigger] table[k]).0.len() > 0
        && clean_suffix(table[k].0) by {
        if k == 0 {
            assert(table[k].0 == "kHz"@);
        } else if k == 1 {
            assert(table[k].0 == "khz"@);
        } else if k == 2 {
            assert(table[k].0 == "MHz"@);
        } else if k == 3 {
            assert(table[k].0 == "mhz"@);
        } else if k == 4 {
            assert(table[k].0 == "GHz"@);
        } else if k == 5 {
            assert(table[k].0 == "ghz"@);
        } else if k == 6 {
            assert(table[k].0 == "THz"@);
        } else if k == 7 {
            assert(table[k].0 == "thz"@);
        } else if k == 8 {
            assert(table[k].0 == "Hz"@);
        } else if k == 9 {
            assert(table[k].0 == "hz"@);
        }
    }
}

/// The suffix of a percentage is clean.
pub proof fn lemma_percentage_table_is_clean()
    ensures
        clean_table(percentage_table()),
{
    reveal_strlit("%");
    assert(percentage_table()[0].0 == "%"@);
}

/// The suffix of a fraction is clean.
pub proof fn lemma_fraction_table_is_clean()
    ensures
        clean_table(fraction_table()),
{
    reveal_strlit("fr");
    assert(fraction_table()[0].0 == "fr"@);
}

/// A suffix that a clean table knows is clean.
pub proof fn lemma_known_suffix_is_clean<U>(table: Seq<(Seq<char>, U)>, suffix: Seq<char>, k: int)
    requires
        clean_table(table),
        0 <= k <= table.len(),
        find_suffix(table, suffix, k) is Some,
    ensures
        clean_suffix(suffix),
        suffix.len() > 0,
    decreases table.len() - k,
{
    if k < table.len() && table[k].0 != suffix {
        lemma_known_suffix_is_clean(table, suffix, k + 1);
    }
}

/// What the unit families make of a number with a suffix: the first family
/// that knows the suffix gives the unit.
pub open spec fn suffix_value(number: Seq<char>, suffix: Seq<char>) -> Option<ValueView> {
    if LengthUnit::lookup(suffix) is Some {
        Some(ValueView::Length(number, LengthUnit::lookup(suffix)->0))
    } else if AngleUnit::lookup(suffix) is Some {
        Some(ValueView::Angle(number, AngleUnit::lookup(suffix)->0))
    } else if TimeUnit::lookup(suffix) is Some {
        Some(ValueView::Time(number, TimeUnit::lookup(suffix)->0))
    } else if DataSizeUnit::lookup(suffix) is Some {
        Some(ValueView::DataSize(number, DataSizeUnit::lookup(suffix)->0))
    } else if FrequencyUnit::lookup(suffix) is Some {
        Some(ValueView::Frequency(number, FrequencyUnit::lookup(suffix)->0))
    } else if suffix == "%"@ {
        Some(ValueView::Percentage(number))
    } else if suffix == "fr"@ {
        Some(ValueView::Fraction(number))
    } else {
        None
    }
}

/// What the unit families make of a decimal number followed by a clean
/// suffix is what they make of the suffix where the number is finite, and
/// else nothing.
pub proof fn lemma_unit_value_by_lookup(number: Seq<char>, suffix: Seq<char>)
    requires
        is_decimal_literal(number),
        clean_suffix(suffix),
    ensures
        unit_value(number + suffix) == if is_finite_literal(number) {
            suffix_value(number, suffix)
        } else {
            None
        },
{
    lemma_length_table_is_clean();
    lemma_angle_table_is_clean();
    lemma_time_table_is_clean();
    lemma_data_size_table_is_clean();
    lemma_frequency_table_is_clean();
    lemma_percentage_table_is_clean();
    lemma_fraction_table_is_clean();
    lemma_first_match_by_lookup(LengthUnit::suffix_table(), number, suffix, 0);
    lemma_first_match_by_lookup(AngleUnit::suffix_table(), number, suffix, 0);
    lemma_first_match_by_lookup(TimeUnit::suffix_table(), number, suffix, 0);
    lemma_first_match_by_lookup(DataSizeUnit::suffix_table(), number, suffix, 0);
    lemma_first_match_by_lookup(FrequencyUnit::suffix_table(), number, suffix, 0);
    lemma_first_match_by_lookup(percentage_table(), number, suffix, 0);
    lemma_first_match_by_lookup(fraction_table(), number, suffix, 0);
    assert(find_suffix(percentage_table(), suffix, 0) is Some <==> suffix == "%"@) by {
        assert(find_suffix(percentage_table(), suffix, 1) is None);
    }
    assert(find_suffix(fraction_table(), suffix, 0) is Some <==> suffix == "fr"@) by {
        assert(find_suffix(fraction_table(), suffix, 1) is None);
    }
}

/// A finite decimal number followed by a suffix of a unit family is that
/// number with the unit of the suffix, whatever the number and the suffix
/// are.
pub proof fn law_number_with_unit(number: Seq<char>, suffix: Seq<char>)
    requires
        is_finite_literal(number),
        suffix_value(number, suffix) is Some,
    ensures
        typed_value(number + suffix) == suffix_value(number, suffix),
        plain_value(number + suffix) == suffix_value(number, suffix)->0,
{
    lemma_length_table_is_clean();
    lemma_angle_table_is_clean();
    lemma_time_table_is_clean();
    lemma_data_size_table_is_clean();
    lemma_frequency_table_is_clean();
    if LengthUnit::lookup(suffix) is Some {
        lemma_known_suffix_is_clean(LengthUnit::suffix_table(), suffix, 0);
    } else if AngleUnit::lookup(suffix) is Some {
        lemma_known_suffix_is_clean(AngleUnit::suffix_table(), suffix, 0);
    } else if TimeUnit::lookup(suffix) is Some {
        lemma_known_suffix_is_clean(TimeUnit::suffix_table(), suffix, 0);
    } else if DataSizeUnit::lookup(suffix) is Some {
        lemma_known_suffix_is_clean(DataSizeUnit::suffix_table(), suffix, 0);
    } else if FrequencyUnit::lookup(suffix) is Some {
        lemma_known_suffix_is_clean(FrequencyUnit::suffix_table(), suffix, 0);
    } else if suffix == "%"@ {
        reveal_strlit("%");
    } else {
        reveal_strlit("fr");
    }
    lemma_number_is_no_keyword(number, suffix);
    lemma_unit_value_by_lookup(number, suffix);
}

/// A decimal number alone is a plain number: an integer where a signed
/// 64-bit integer can hold it, and else a number with a fraction.
pub proof fn law_bare_number(number: Seq<char>)
    requires
        is_decimal_literal(number),
    ensures
        typed_value(number) == number_value(number),
        typed_value(number) == match integer_value(number) {
            Some(i) => Some(ValueView::Int(i)),
            None => Some(ValueView::Float(number)),
        },
{
    let none = Seq::<char>::empty();
    assert(number + none == number);
    lemma_number_is_no_keyword(number, none);
    lemma_unit_value_by_lookup(number, none);
    lemma_length_table_is_clean();
    lemma_angle_table_is_clean();
    lemma_time_table_is_clean();
    lemma_data_size_table_is_clean();
    lemma_frequency_table_is_clean();
    if LengthUnit::lookup(none) is Some {
        lemma_known_suffix_is_clean(LengthUnit::suffix_table(), none, 0);
    }
    if AngleUnit::lookup(none) is Some {
        lemma_known_suffix_is_clean(AngleUnit::suffix_table(), none, 0);
    }
    if TimeUnit::lookup(none) is Some {
        lemma_known_suffix_is_clean(TimeUnit::suffix_table(), none, 0);
    }
    if DataSizeUnit::lookup(none) is Some {
        lemma_known_suffix_is_clean(DataSizeUnit::suffix_table(), none, 0);
    }
    if FrequencyUnit::lookup(none) is Some {
        lemma_known_suffix_is_clean(FrequencyUnit::suffix_table(), none, 0);
    }
    reveal_strlit("%");
    reveal_strlit("fr");
}

/// A keyword is read as a keyword in any ASCII case and with whitespace
/// around it, before any other reading is tried.
pub proof fn law_keyword_precedence(input: Seq<char>)
    ensures
        ascii_lowercase(trim(input)) == "auto"@ ==> typed_value(input) == Some(ValueView::Auto),
        ascii_lowercase(trim(input)) == "none"@ ==> typed_value(input) == Some(
            ValueView::Nothing,
        ),
        ascii_lowercase(trim(input)) == "true"@ ==> typed_value(input) == Some(
            ValueView::Bool(true),
        ),
        ascii_lowercase(trim(input)) == "false"@ ==> typed_value(input) == Some(
            ValueView::Bool(false),
        ),
{
    reveal_strlit("auto");
    reveal_strlit("none");
    reveal_strlit("true");
    reveal_strlit("false");
    assert("auto"@[0] == 'a');
    assert("none"@[0] == 'n');
    assert("true"@[0] == 't');
    assert("false"@[0] == 'f');
}

/// No token has a text, a quoted text, an array or an object as its typed
/// value: a quoted text is never what a bare token is read as.
pub proof fn law_typed_value_is_a_scalar(input: Seq<char>)
    ensures
        typed_value(input) matches Some(v) ==> !(v is String) && !(v is StringLiteral) && !(v is Array)
            && !(v is Dictionary),
        forall|s: Seq<char>| typed_value(input) != Some(ValueView::StringLiteral(s)),
{
}

/// Every token has a value: its typed value where it has one, and else the
/// token itself as a text.
pub proof fn law_value_is_total(input: Seq<char>)
    ensures
        typed_value(input) is Some ==> Some(plain_value(input)) == typed_value(input),
        typed_value(input) is None ==> plain_value(input) == ValueView::String(input),
{
}

} // verus!
