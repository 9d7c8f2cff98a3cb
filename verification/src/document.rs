//! The parse of one document.
//!
//! A document is read line by line into an object. A declaration adds a
//! variable for the lines after it; a block stores the lines up to its
//! closing parenthesis as one text; a key with a value stores the value of
//! the text once its variables are replaced; a key alone stores `true`. At
//! an import directive the parse stops and hands out the path: the caller
//! has the file read and parsed, merges its object in, and goes on.

use crate::assoc::{inserted, merged};
use crate::context::{ParserContext, VariableRegistry};
use crate::line::{classify_line, line_form, Line, LineView};
use crate::parser::{parse_value, plain_value};
use crate::text::{
    append, join_first, join_lines, replace_all, replace_chars, same_chars, split_into_lines,
    split_lines, to_chars, to_text, trim, trim_chars, trim_trailing_commas,
    trim_trailing_commas_chars, unquote, unquote_chars,
};
use crate::value::{Dictionary, LaCoNValue, ValueView};
use vstd::prelude::*;

verus! {

/// What a list of lines is to a specification.
pub open spec fn rows(lines: Seq<Vec<char>>) -> Seq<Seq<char>> {
    Seq::new(lines.len(), |i: int| lines[i]@)
}

/// What a list of string slices is to a specification.
pub open spec fn slices_view(lines: Seq<&str>) -> Seq<Seq<char>> {
    Seq::new(lines.len(), |i: int| lines[i]@)
}

/// The text that stands for the variable `name` in a value.
pub open spec fn variable_target(name: Seq<char>) -> Seq<char> {
    seq!['$'] + name
}

/// `text` after the first `n` variables are replaced, one after the other,
/// each wherever its name stands behind a dollar sign.
pub open spec fn resolved_first(text: Seq<char>, vars: Seq<(Seq<char>, Seq<char>)>, n: int) -> Seq<
    char,
>
    decreases n,
{
    if n <= 0 || n > vars.len() {
        text
    } else {
        replace_all(resolved_first(text, vars, n - 1), variable_target(vars[n - 1].0), vars[n - 1].1)
    }
}

/// `text` after every variable is replaced, in the order of their
/// declaration. What a replacement puts in is not looked through again for
/// the same variable, only for the later ones.
pub open spec fn resolved(text: Seq<char>, vars: Seq<(Seq<char>, Seq<char>)>) -> Seq<char> {
    resolved_first(text, vars, vars.len() as int)
}

/// The value of the text of a pair: that of the text once its variables are
/// replaced.
pub open spec fn single_value(text: Seq<char>, vars: Seq<(Seq<char>, Seq<char>)>) -> ValueView {
    plain_value(resolved(text, vars))
}

/// The content of a raw block: its lines as they are, joined by line feeds,
/// and the whole trimmed.
pub open spec fn raw_block(lines: Seq<Seq<char>>) -> Seq<char> {
    trim(join_lines(lines))
}

/// A line of a quoted block: trimmed, without its trailing commas and
/// without its quotes.
pub open spec fn quoted_line(line: Seq<char>) -> Seq<char> {
    unquote(trim_trailing_commas(trim(line)))
}

/// The content of a quoted block: its lines, each taken by itself, joined
/// by line feeds.
pub open spec fn quoted_block(lines: Seq<Seq<char>>) -> Seq<char> {
    join_lines(Seq::new(lines.len(), |i: int| quoted_line(lines[i])))
}

/// The number of lines from line `j` up to the next line that, trimmed, is
/// a closing parenthesis, or up to the end.
pub open spec fn block_len(lines: Seq<Seq<char>>, j: int) -> nat
    decreases lines.len() - j,
{
    if 0 <= j < lines.len() && trim(lines[j]) != ")"@ {
        1 + block_len(lines, j + 1)
    } else {
        0
    }
}

/// Where a parse stands when it stops.
pub struct RunState {
    /// The index of the line to go on with.
    pub cursor: int,
    /// The entries read so far.
    pub root: Seq<(Seq<char>, ValueView)>,
    /// The variables declared so far.
    pub vars: Seq<(Seq<char>, Seq<char>)>,
    /// The path of the import at which the parse stopped, or `None` at the
    /// end of the document.
    pub import: Option<Seq<char>>,
}

/// The parse of `lines` from line `i` on, with the entries and variables
/// read before it, up to the next import directive or to the end.
pub open spec fn run(
    lines: Seq<Seq<char>>,
    i: int,
    root: Seq<(Seq<char>, ValueView)>,
    vars: Seq<(Seq<char>, Seq<char>)>,
) -> RunState
    decreases lines.len() - i,
{
    if i < 0 || i >= lines.len() {
        RunState { cursor: i, root, vars, import: None }
    } else {
        match line_form(lines[i]) {
            LineView::Blank => run(lines, i + 1, root, vars),
            LineView::Variable { name, value } => run(
                lines,
                i + 1,
                root,
                inserted(vars, name, value),
            ),
            LineView::Import { path } => RunState { cursor: i + 1, root, vars, import: Some(path) },
            LineView::BlockStart { key, raw } => {
                let end = i + 1 + block_len(lines, i + 1);
                let content = if end > lines.len() {
                    Seq::empty()
                } else if raw {
                    raw_block(lines.subrange(i + 1, end))
                } else {
                    quoted_block(lines.subrange(i + 1, end))
                };
                let next = if end < lines.len() {
                    end + 1
                } else {
                    lines.len() as int
                };
                run(
                    lines,
                    next,
                    inserted(root, key, ValueView::String(resolved(content, vars))),
                    vars,
                )
            },
            LineView::Pair { key, value } => run(
                lines,
                i + 1,
                inserted(root, key, single_value(value, vars)),
                vars,
            ),
            LineView::Flag { key } => run(
                lines,
                i + 1,
                inserted(root, key, ValueView::Bool(true)),
                vars,
            ),
        }
    }
}

/// `text` after every variable is replaced.
pub fn resolve_chars(text: &Vec<char>, vars: &VariableRegistry) -> (r: Vec<char>)
    ensures
        r@ == resolved(text@, vars@),
{
    let mut out = crate::text::slice(text, 0, text.len());
    assert(out@ == text@);
    let n = vars.len();
    let mut k: usize = 0;
    while k < n
        invariant
            k <= n,
            n == vars@.len(),
            out@ == resolved_first(text@, vars@, k as int),
        decreases n - k,
    {
        let mut target: Vec<char> = Vec::new();
        target.push('$');
        append(&mut target, &to_chars(vars.name_at(k)));
        assert(target@ == variable_target(vars@[k as int].0));
        let with = to_chars(vars.value_at(k));
        out = replace_chars(&out, &target, &with);
        k += 1;
    }
    out
}

/// `text` after every variable of `vars` is replaced, in the order of their
/// declaration.
pub fn resolve_variables(text: &str, vars: &VariableRegistry) -> (r: String)
    ensures
        r@ == resolved(text@, vars@),
{
    to_text(&resolve_chars(&to_chars(text), vars))
}

/// The text between a leading and a trailing double quote, where both are
/// there; otherwise the text itself.
pub fn unwrap_quotes(s: &str) -> (r: String)
    ensures
        r@ == unquote(s@),
{
    to_text(&unquote_chars(&to_chars(s)))
}

/// The value of the text of a pair: its variables are replaced, and what
/// results is read as a token.
pub fn parse_single_value(val: &str, ctx: &ParserContext) -> (r: LaCoNValue)
    ensures
        r@ == single_value(val@, ctx.variable_registry@),
{
    let text = resolve_variables(val, &ctx.variable_registry);
    match parse_value(text.as_str()) {
        Some(v) => v,
        None => LaCoNValue::String(text),
    }
}

/// The lines from `from` up to `to`, joined by line feeds.
pub fn join_rows(lines: &Vec<Vec<char>>, from: usize, to: usize) -> (r: Vec<char>)
    requires
        from <= to <= lines.len(),
    ensures
        r@ == join_lines(rows(lines@).subrange(from as int, to as int)),
{
    let ghost part = rows(lines@).subrange(from as int, to as int);
    let mut out: Vec<char> = Vec::new();
    let mut k: usize = from;
    while k < to
        invariant
            from <= k <= to <= lines.len(),
            part == rows(lines@).subrange(from as int, to as int),
            out@ == join_first(part, k - from),
        decreases to - k,
    {
        if k > from {
            out.push('\n');
        }
        append(&mut out, &lines[k]);
        proof {
            assert(part[k - from] == lines@[k as int]@);
            if k == from {
                assert(Seq::<char>::empty() + lines@[k as int]@ == lines@[k as int]@);
            }
        }
        k += 1;
    }
    out
}

/// The content of the raw block that the lines from `from` up to `to` make.
pub fn raw_rows(lines: &Vec<Vec<char>>, from: usize, to: usize) -> (r: Vec<char>)
    requires
        from <= to <= lines.len(),
    ensures
        r@ == raw_block(rows(lines@).subrange(from as int, to as int)),
{
    trim_chars(&join_rows(lines, from, to))
}

/// The content of the quoted block that the lines from `from` up to `to`
/// make.
pub fn quoted_rows(lines: &Vec<Vec<char>>, from: usize, to: usize) -> (r: Vec<char>)
    requires
        from <= to <= lines.len(),
    ensures
        r@ == quoted_block(rows(lines@).subrange(from as int, to as int)),
{
    let ghost part = rows(lines@).subrange(from as int, to as int);
    let mut taken: Vec<Vec<char>> = Vec::new();
    let mut k: usize = from;
    while k < to
        invariant
            from <= k <= to <= lines.len(),
            part == rows(lines@).subrange(from as int, to as int),
            taken.len() == k - from,
            forall|i: int| 0 <= i < taken.len() ==> (#[trigger] taken[i])@ == quoted_line(part[i]),
        decreases to - k,
    {
        let line = unquote_chars(&trim_trailing_commas_chars(&trim_chars(&lines[k])));
        assert(part[k - from] == lines@[k as int]@);
        taken.push(line);
        k += 1;
    }
    let r = join_rows(&taken, 0, taken.len());
    assert(rows(taken@).subrange(0, taken.len() as int) =~= Seq::new(
        part.len(),
        |i: int| quoted_line(part[i]),
    ));
    r
}

/// The characters of each slice.
fn slices_to_rows(lines: &Vec<&str>) -> (r: Vec<Vec<char>>)
    ensures
        rows(r@) == slices_view(lines@),
{
    let mut out: Vec<Vec<char>> = Vec::new();
    let mut k: usize = 0;
    while k < lines.len()
        invariant
            k <= lines.len(),
            out.len() == k,
            forall|i: int| 0 <= i < k ==> (#[trigger] out[i])@ == lines[i]@,
        decreases lines.len() - k,
    {
        out.push(to_chars(lines[k]));
        k += 1;
    }
    assert(rows(out@) =~= slices_view(lines@));
    out
}

/// The content of a raw block: the lines as they are, joined by line feeds,
/// and the whole trimmed.
pub fn process_raw_multiline(lines: Vec<&str>) -> (r: String)
    ensures
        r@ == raw_block(slices_view(lines@)),
{
    let chars = slices_to_rows(&lines);
    assert(rows(chars@).subrange(0, chars.len() as int) == rows(chars@));
    to_text(&raw_rows(&chars, 0, chars.len()))
}

/// The content of a quoted block: each line trimmed, without its trailing
/// commas and without its quotes, and the lines joined by line feeds.
pub fn process_quoted_multiline(lines: Vec<&str>) -> (r: String)
    ensures
        r@ == quoted_block(slices_view(lines@)),
{
    let chars = slices_to_rows(&lines);
    assert(rows(chars@).subrange(0, chars.len() as int) == rows(chars@));
    to_text(&quoted_rows(&chars, 0, chars.len()))
}

/// The parse of one document: its lines, the line to go on with, and the
/// entries read so far.
#[derive(Debug)]
pub struct DocumentParser {
    lines: Vec<Vec<char>>,
    cursor: usize,
    root: Dictionary,
}

impl DocumentParser {
    /// The lines of the document.
    pub closed spec fn lines(&self) -> Seq<Seq<char>> {
        rows(self.lines@)
    }

    /// The index of the line to go on with.
    pub closed spec fn cursor(&self) -> int {
        self.cursor as int
    }

    /// The entries read so far.
    pub closed spec fn root(&self) -> Seq<(Seq<char>, ValueView)> {
        self.root@
    }

    /// The parse of `text`, before its first line.
    pub fn new(text: &str) -> (r: DocumentParser)
        ensures
            r.lines() == split_lines(text@),
            r.cursor() == 0,
            r.root() == Seq::<(Seq<char>, ValueView)>::empty(),
    {
        let lines = split_into_lines(&to_chars(text));
        assert(rows(lines@) =~= split_lines(text@));
        DocumentParser { lines, cursor: 0, root: Dictionary::new() }
    }

    /// Whether every line has been read.
    pub fn is_finished(&self) -> (r: bool)
        ensures
            r == (self.cursor() >= self.lines().len()),
    {
        self.cursor >= self.lines.len()
    }

    /// The index of the line that ends the block starting at line `from`,
    /// or the number of lines.
    fn block_end(&self, from: usize) -> (r: usize)
        requires
            from <= self.lines().len(),
        ensures
            r == from + block_len(self.lines(), from as int),
            r <= self.lines().len(),
    {
        let closing = to_chars(")");
        let mut j: usize = from;
        while j < self.lines.len() && !same_chars(&trim_chars(&self.lines[j]), &closing)
            invariant
                from <= j <= self.lines.len(),
                closing@ == ")"@,
                j + block_len(rows(self.lines@), j as int) == from + block_len(
                    rows(self.lines@),
                    from as int,
                ),
            decreases self.lines.len() - j,
        {
            j += 1;
        }
        j
    }

    /// Reads on from the line to go on with, up to the next import
    /// directive, whose path is handed out, or to the end of the document.
    /// On the way declarations go to the variables of `ctx`, and blocks,
    /// pairs and keys to the entries.
    pub fn advance(&mut self, ctx: &mut ParserContext) -> (r: Option<String>)
        ensures
            ({
                let s = run(
                    old(self).lines(),
                    old(self).cursor(),
                    old(self).root(),
                    old(ctx).variable_registry@,
                );
                &&& final(self).lines() == old(self).lines()
                &&& final(self).cursor() == s.cursor
                &&& final(self).root() == s.root
                &&& final(ctx).variable_registry@ == s.vars
                &&& match r {
                    Some(path) => s.import == Some(path@),
                    None => s.import is None,
                }
            }),
            r is None ==> final(self).cursor() >= final(self).lines().len(),
            final(ctx).current_dir == old(ctx).current_dir,
            final(ctx).import_stack == old(ctx).import_stack,
    {
        let ghost goal = run(self.lines(), self.cursor(), self.root(), ctx.variable_registry@);
        while self.cursor < self.lines.len()
            invariant
                self.lines() == old(self).lines(),
                goal == run(
                    old(self).lines(),
                    old(self).cursor(),
                    old(self).root(),
                    old(ctx).variable_registry@,
                ),
                run(self.lines(), self.cursor(), self.root(), ctx.variable_registry@) == goal,
                ctx.current_dir == old(ctx).current_dir,
                ctx.import_stack == old(ctx).import_stack,
            decreases self.lines.len() - self.cursor,
        {
            let i = self.cursor;
            assert(self.lines()[i as int] == self.lines@[i as int]@);
            match classify_line(&self.lines[i]) {
                Line::Blank => {
                    self.cursor = i + 1;
                },
                Line::Variable { name, value } => {
                    ctx.variable_registry.insert(name, value);
                    self.cursor = i + 1;
                },
                Line::Import { path } => {
                    assert(goal == RunState {
                        cursor: i + 1,
                        root: self.root(),
                        vars: ctx.variable_registry@,
                        import: Some(path@),
                    });
                    self.cursor = i + 1;
                    return Some(path);
                },
                Line::BlockStart { key, raw } => {
                    let end = self.block_end(i + 1);
                    let content = if raw {
                        raw_rows(&self.lines, i + 1, end)
                    } else {
                        quoted_rows(&self.lines, i + 1, end)
                    };
                    let text = to_text(&resolve_chars(&content, &ctx.variable_registry));
                    self.root.insert(key, LaCoNValue::String(text));
                    self.cursor = if end < self.lines.len() {
                        end + 1
                    } else {
                        end
                    };
                },
                Line::Pair { key, value } => {
                    let v = parse_single_value(value.as_str(), ctx);
                    self.root.insert(key, v);
                    self.cursor = i + 1;
                },
                Line::Flag { key } => {
                    self.root.insert(key, LaCoNValue::Bool(true));
                    self.cursor = i + 1;
                },
            }
        }
        None
    }

    /// Stores the entries of an imported object: a key that both hold keeps
    /// its place and takes the imported value.
    pub fn merge_import(&mut self, imported: Dictionary)
        ensures
            final(self).lines() == old(self).lines(),
            final(self).cursor() == old(self).cursor(),
            final(self).root() == merged(old(self).root(), imported@),
    {
        self.root.merge(imported);
    }

    /// The entries read so far.
    pub fn into_root(self) -> (r: Dictionary)
        ensures
            r@ == self.root(),
    {
        self.root
    }

    /// The object read so far.
    pub fn finish(self) -> (r: LaCoNValue)
        ensures
            r@ == ValueView::Dictionary(self.root()),
    {
        LaCoNValue::Dictionary(self.root)
    }
}

} // verus!
