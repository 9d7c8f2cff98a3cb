//! The forms of a line.
//!
//! A line, once trimmed, is the first of these that fits: blank or a
//! comment; the declaration of a variable; an import directive; the start
//! of a multi-line block; a key with a value; a key alone. Declarations and
//! block starts are told by two regular expressions, which the `regex`
//! crate matches; what is made of a match is decided here.

use crate::text::{
    find_char, find_from, has_prefix, slice, starts_with, to_chars, to_text, trim, trim_chars,
    unquote, unquote_chars,
};
use vstd::prelude::*;

verus! {

/// The groups that the leftmost match of the regular expression `pattern`
/// captures in `text`, in the syntax and with the matching rules of the
/// `regex` crate: group 0 is the whole match, and a group that took no part
/// in the match is `None`. Without a match, or where `pattern` is no
/// regular expression, there are no groups.
pub uninterp spec fn capture_groups_of(pattern: Seq<char>, text: Seq<char>) -> Option<
    Seq<Option<Seq<char>>>,
>;

/// What captured groups are to a specification.
pub open spec fn groups_view(groups: Option<Vec<Option<String>>>) -> Option<
    Seq<Option<Seq<char>>>,
> {
    match groups {
        Some(g) => Some(
            Seq::new(
                g@.len(),
                |i: int|
                    match g@[i] {
                        Some(s) => Some(s@),
                        None => None,
                    },
            ),
        ),
        None => None,
    }
}

/// Compiles `pattern` with `regex::Regex::new` and searches `text` with
/// `Regex::captures`; the groups of the match are copied out in their
/// order. Both calls depend on nothing but their arguments, so the result is
/// [`capture_groups_of`] of the two texts; no more is claimed of it.
#[verifier::external_body]
fn capture_groups(pattern: &str, text: &str) -> (r: Option<Vec<Option<String>>>)
    ensures
        groups_view(r) == capture_groups_of(pattern@, text@),
{
    match regex::Regex::new(pattern) {
        Ok(re) => re.captures(text).map(
            |found| found.iter().map(|group| group.map(|m| m.as_str().to_string())).collect(),
        ),
        Err(_) => None,
    }
}

/// The declaration of a variable: a dollar sign, a name of letters, digits,
/// points, underscores and hyphens, an optional equals sign, and a value.
pub open spec fn variable_pattern() -> Seq<char> {
    "(?u)^\\s*\\$([\\p{L}\\d._-]+)\\s*=?\\s*(.+)$"@
}

/// The start of a block: a key, an optional equals sign, and an opening
/// parenthesis, which an at sign before it makes raw.
pub open spec fn block_pattern() -> Seq<char> {
    "(?u)^\\s*([\\p{L}\\d._-]+)\\s*=?\\s*(@?\\()\\s*$"@
}

/// The first and the second group of a match, where both took part in it.
pub open spec fn two_groups(groups: Option<Seq<Option<Seq<char>>>>) -> Option<
    (Seq<char>, Seq<char>),
> {
    match groups {
        Some(g) => if g.len() >= 3 && g[1] is Some && g[2] is Some {
            Some((g[1]->0, g[2]->0))
        } else {
            None
        },
        None => None,
    }
}

/// The name and the replacement text that a matched declaration gives: the
/// first group, and the second trimmed and without its quotes.
pub open spec fn variable_of(groups: Option<Seq<Option<Seq<char>>>>) -> Option<
    (Seq<char>, Seq<char>),
> {
    match two_groups(groups) {
        Some((name, value)) => Some((name, unquote(trim(value)))),
        None => None,
    }
}

/// The key of a matched block start, and whether the block is raw: the
/// first group, and whether the second begins with an at sign.
pub open spec fn block_of(groups: Option<Seq<Option<Seq<char>>>>) -> Option<(Seq<char>, bool)> {
    match two_groups(groups) {
        Some((key, marker)) => Some((key, marker.len() > 0 && marker[0] == '@')),
        None => None,
    }
}

/// A line of a document, told by its form.
#[derive(Debug, PartialEq, Eq)]
pub enum Line {
    /// An empty line or a comment.
    Blank,
    /// A variable with its replacement text.
    Variable { name: String, value: String },
    /// A file to import, by its path as written.
    Import { path: String },
    /// The start of a multi-line block.
    BlockStart { key: String, raw: bool },
    /// A key with the text of its value.
    Pair { key: String, value: String },
    /// A key alone.
    Flag { key: String },
}

/// What a line is to a specification.
pub enum LineView {
    Blank,
    Variable { name: Seq<char>, value: Seq<char> },
    Import { path: Seq<char> },
    BlockStart { key: Seq<char>, raw: bool },
    Pair { key: Seq<char>, value: Seq<char> },
    Flag { key: Seq<char> },
}

impl View for Line {
    type V = LineView;

    open spec fn view(&self) -> LineView {
        match self {
            Line::Blank => LineView::Blank,
            Line::Variable { name, value } => LineView::Variable { name: name@, value: value@ },
            Line::Import { path } => LineView::Import { path: path@ },
            Line::BlockStart { key, raw } => LineView::BlockStart { key: key@, raw: *raw },
            Line::Pair { key, value } => LineView::Pair { key: key@, value: value@ },
            Line::Flag { key } => LineView::Flag { key: key@ },
        }
    }
}

/// The key and the value of a trimmed line that is neither a declaration,
/// an import nor a block start. The first equals sign parts them; without
/// one, the first space does; without either, the line is a key alone.
pub open spec fn pair_form(t: Seq<char>) -> LineView {
    let eq = find_from(t, '=', 0);
    let sp = find_from(t, ' ', 0);
    if eq < t.len() {
        LineView::Pair {
            key: trim(t.subrange(0, eq)),
            value: trim(t.subrange(eq + 1, t.len() as int)),
        }
    } else if sp < t.len() {
        LineView::Pair {
            key: trim(t.subrange(0, sp)),
            value: trim(t.subrange(sp + 1, t.len() as int)),
        }
    } else {
        LineView::Flag { key: t }
    }
}

/// The form of the trimmed line `t`, given what the two regular expressions
/// capture in it.
pub open spec fn line_form_with(
    t: Seq<char>,
    variable_groups: Option<Seq<Option<Seq<char>>>>,
    block_groups: Option<Seq<Option<Seq<char>>>>,
) -> LineView {
    if t.len() == 0 || starts_with(t, "//"@) {
        LineView::Blank
    } else {
        match variable_of(variable_groups) {
            Some((name, value)) => LineView::Variable { name, value },
            None => if starts_with(t, "@import"@) {
                LineView::Import { path: unquote(trim(t.skip("@import"@.len() as int))) }
            } else {
                match block_of(block_groups) {
                    Some((key, raw)) => LineView::BlockStart { key, raw },
                    None => pair_form(t),
                }
            },
        }
    }
}

/// The form of a line.
pub open spec fn line_form(line: Seq<char>) -> LineView {
    let t = trim(line);
    line_form_with(
        t,
        capture_groups_of(variable_pattern(), t),
        capture_groups_of(block_pattern(), t),
    )
}

/// The first and the second captured group, where both took part.
fn first_two(groups: &Option<Vec<Option<String>>>) -> (r: Option<(&String, &String)>)
    ensures
        match r {
            Some((a, b)) => two_groups(groups_view(*groups)) == Some((a@, b@)),
            None => two_groups(groups_view(*groups)) is None,
        },
{
    match groups {
        Some(g) => {
            if g.len() >= 3 {
                match (&g[1], &g[2]) {
                    (Some(a), Some(b)) => Some((a, b)),
                    _ => None,
                }
            } else {
                None
            }
        },
        None => None,
    }
}

/// The name and the replacement text of a declaration, from the groups
/// that [`variable_pattern`] captured in the line.
pub fn variable_declaration(groups: &Option<Vec<Option<String>>>) -> (r: Option<(String, String)>)
    ensures
        match r {
            Some((name, value)) => variable_of(groups_view(*groups)) == Some((name@, value@)),
            None => variable_of(groups_view(*groups)) is None,
        },
{
    match first_two(groups) {
        Some((name, value)) => {
            let text = unquote_chars(&trim_chars(&to_chars(value.as_str())));
            Some((name.clone(), to_text(&text)))
        },
        None => None,
    }
}

/// The key of a block and whether it is raw, from the groups that
/// [`block_pattern`] captured in the line.
pub fn block_start(groups: &Option<Vec<Option<String>>>) -> (r: Option<(String, bool)>)
    ensures
        match r {
            Some((key, raw)) => block_of(groups_view(*groups)) == Some((key@, raw)),
            None => block_of(groups_view(*groups)) is None,
        },
{
    match first_two(groups) {
        Some((key, marker)) => {
            let m = to_chars(marker.as_str());
            Some((key.clone(), m.len() > 0 && m[0] == '@'))
        },
        None => None,
    }
}

/// The key and the value of a trimmed line that has no other form.
pub fn split_pair(t: &Vec<char>) -> (r: Line)
    ensures
        r@ == pair_form(t@),
{
    let n = t.len();
    let eq = find_char(t, '=', 0);
    let at = if eq < n {
        eq
    } else {
        find_char(t, ' ', 0)
    };
    if at < n {
        let key = trim_chars(&slice(t, 0, at));
        let value = trim_chars(&slice(t, at + 1, n));
        Line::Pair { key: to_text(&key), value: to_text(&value) }
    } else {
        Line::Flag { key: to_text(t) }
    }
}

/// The form of the trimmed line `t`, given what the two regular expressions
/// captured in it.
pub fn classify_with(
    t: &str,
    variable_groups: &Option<Vec<Option<String>>>,
    block_groups: &Option<Vec<Option<String>>>,
) -> (r: Line)
    ensures
        r@ == line_form_with(t@, groups_view(*variable_groups), groups_view(*block_groups)),
{
    let chars = to_chars(t);
    if chars.len() == 0 || has_prefix(&chars, &to_chars("//")) {
        return Line::Blank;
    }
    if let Some((name, value)) = variable_declaration(variable_groups) {
        return Line::Variable { name, value };
    }
    let directive = to_chars("@import");
    if has_prefix(&chars, &directive) {
        let rest = slice(&chars, directive.len(), chars.len());
        assert(rest@ == chars@.skip(directive@.len() as int));
        let path = unquote_chars(&trim_chars(&rest));
        return Line::Import { path: to_text(&path) };
    }
    if let Some((key, raw)) = block_start(block_groups) {
        return Line::BlockStart { key, raw };
    }
    split_pair(&chars)
}

/// The form of a line.
pub fn classify_line(line: &Vec<char>) -> (r: Line)
    ensures
        r@ == line_form(line@),
{
    let t = to_text(&trim_chars(line));
    let variable_groups = capture_groups("(?u)^\\s*\\$([\\p{L}\\d._-]+)\\s*=?\\s*(.+)$", t.as_str());
    let block_groups = capture_groups(
        "(?u)^\\s*([\\p{L}\\d._-]+)\\s*=?\\s*(@?\\()\\s*$",
        t.as_str(),
    );
    classify_with(t.as_str(), &variable_groups, &block_groups)
}

} // verus!
