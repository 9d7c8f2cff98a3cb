//! Character-level text operations.
//!
//! Every operation is specified over `Seq<char>`, the view of `str` and
//! `String`, and implemented over `Vec<char>`. The scanning functions are
//! written as recursions on an index, so that a loop can follow them one
//! character at a time.

use vstd::prelude::*;

verus! {

/// `String::push` appends one character to the text.
pub assume_specification[ std::string::String::push ](s: &mut std::string::String, c: char)
    ensures
        final(s)@ == old(s)@.push(c),
;

/// The characters with the Unicode property `White_Space`.
pub open spec fn is_whitespace(c: char) -> bool {
    let n = c as u32;
    ||| 0x09 <= n <= 0x0D
    ||| n == 0x20
    ||| n == 0x85
    ||| n == 0xA0
    ||| n == 0x1680
    ||| 0x2000 <= n <= 0x200A
    ||| n == 0x2028
    ||| n == 0x2029
    ||| n == 0x202F
    ||| n == 0x205F
    ||| n == 0x3000
}

/// The first index at or after `i` that holds no whitespace, or the length.
pub open spec fn skip_whitespace(s: Seq<char>, i: int) -> int
    decreases s.len() - i,
{
    if 0 <= i < s.len() && is_whitespace(s[i]) {
        skip_whitespace(s, i + 1)
    } else {
        i
    }
}

/// The end of the text before `j` once its trailing whitespace is dropped.
pub open spec fn skip_whitespace_back(s: Seq<char>, j: int) -> int
    decreases j,
{
    if 0 < j <= s.len() && is_whitespace(s[j - 1]) {
        skip_whitespace_back(s, j - 1)
    } else {
        j
    }
}

/// The text without its leading and trailing whitespace.
pub open spec fn trim(s: Seq<char>) -> Seq<char> {
    let a = skip_whitespace(s, 0);
    let b = skip_whitespace_back(s, s.len() as int);
    if a < b {
        s.subrange(a, b)
    } else {
        Seq::empty()
    }
}

/// Whether `s` begins with `prefix`.
pub open spec fn starts_with(s: Seq<char>, prefix: Seq<char>) -> bool {
    prefix.len() <= s.len() && s.subrange(0, prefix.len() as int) == prefix
}

/// Whether `s` ends with `suffix`.
pub open spec fn ends_with(s: Seq<char>, suffix: Seq<char>) -> bool {
    suffix.len() <= s.len() && s.subrange(s.len() - suffix.len(), s.len() as int) == suffix
}

/// Whether `pattern` occurs in `s` at index `i`.
pub open spec fn occurs_at(s: Seq<char>, pattern: Seq<char>, i: int) -> bool {
    0 <= i && i + pattern.len() <= s.len() && s.subrange(i, i + pattern.len()) == pattern
}

/// The index of the first `c` at or after `i`, or the length if there is none.
pub open spec fn find_from(s: Seq<char>, c: char, i: int) -> int
    decreases s.len() - i,
{
    if 0 <= i < s.len() && s[i] != c {
        find_from(s, c, i + 1)
    } else {
        i
    }
}

/// The search for a character ends between its start and the end of the text.
pub proof fn lemma_find_from_bounds(s: Seq<char>, c: char, i: int)
    requires
        0 <= i <= s.len(),
    ensures
        i <= find_from(s, c, i) <= s.len(),
        find_from(s, c, i) < s.len() ==> s[find_from(s, c, i)] == c,
        forall|k: int| i <= k < find_from(s, c, i) ==> s[k] != c,
    decreases s.len() - i,
{
    if i < s.len() && s[i] != c {
        lemma_find_from_bounds(s, c, i + 1);
    }
}

/// `text` from index `i` on, with every occurrence of `target` replaced by
/// `with`, scanning from the left and never looking into a replacement. An
/// empty target replaces nothing.
pub open spec fn replace_from(text: Seq<char>, target: Seq<char>, with: Seq<char>, i: int) -> Seq<
    char,
>
    decreases text.len() - i,
{
    if i < 0 || i >= text.len() {
        Seq::empty()
    } else if target.len() > 0 && occurs_at(text, target, i) {
        with + replace_from(text, target, with, i + target.len())
    } else {
        seq![text[i]] + replace_from(text, target, with, i + 1)
    }
}

/// `text` with every occurrence of `target` replaced by `with`.
pub open spec fn replace_all(text: Seq<char>, target: Seq<char>, with: Seq<char>) -> Seq<char> {
    replace_from(text, target, with, 0)
}

/// The lines of `text` from index `i` on. A line ends at a line feed, which
/// is dropped together with a carriage return just before it; the last line
/// needs no line feed.
pub open spec fn lines_from(text: Seq<char>, i: int) -> Seq<Seq<char>>
    decreases text.len() - i,
    via lines_from_decreases
{
    if i < 0 || i >= text.len() {
        Seq::empty()
    } else {
        let e = find_from(text, '\n', i);
        let cut = if e < text.len() && i < e && text[e - 1] == '\r' {
            e - 1
        } else {
            e
        };
        let rest = if e < text.len() {
            lines_from(text, e + 1)
        } else {
            Seq::empty()
        };
        seq![text.subrange(i, cut)] + rest
    }
}

#[via_fn]
proof fn lines_from_decreases(text: Seq<char>, i: int) {
    if 0 <= i < text.len() {
        lemma_find_from_bounds(text, '\n', i);
    }
}

/// The lines of `text`.
pub open spec fn split_lines(text: Seq<char>) -> Seq<Seq<char>> {
    lines_from(text, 0)
}

/// The first `n` lines, each but the first preceded by a line feed.
pub open spec fn join_first(lines: Seq<Seq<char>>, n: int) -> Seq<char>
    decreases n,
{
    if n <= 0 || n > lines.len() {
        Seq::empty()
    } else if n == 1 {
        lines[0]
    } else {
        join_first(lines, n - 1) + seq!['\n'] + lines[n - 1]
    }
}

/// The lines joined by line feeds.
pub open spec fn join_lines(lines: Seq<Seq<char>>) -> Seq<char> {
    join_first(lines, lines.len() as int)
}

/// The text between a leading and a trailing double quote, where both are
/// there; otherwise the text itself.
pub open spec fn unquote(s: Seq<char>) -> Seq<char> {
    if s.len() >= 2 && s[0] == '"' && s[s.len() - 1] == '"' {
        s.subrange(1, s.len() - 1)
    } else {
        s
    }
}

/// The end of the text before `j` once its trailing commas are dropped.
pub open spec fn skip_commas_back(s: Seq<char>, j: int) -> int
    decreases j,
{
    if 0 < j <= s.len() && s[j - 1] == ',' {
        skip_commas_back(s, j - 1)
    } else {
        j
    }
}

/// The text without its trailing commas.
pub open spec fn trim_trailing_commas(s: Seq<char>) -> Seq<char> {
    s.subrange(0, skip_commas_back(s, s.len() as int))
}

/// The lower-case form of an ASCII capital; any other character itself.
pub open spec fn ascii_lower(c: char) -> char {
    if 'A' <= c <= 'Z' {
        ((c as u8) + 32) as char
    } else {
        c
    }
}

/// The text with its ASCII capitals in lower case.
pub open spec fn ascii_lowercase(s: Seq<char>) -> Seq<char> {
    Seq::new(s.len(), |i: int| ascii_lower(s[i]))
}

/// The characters of a string slice.
pub fn to_chars(s: &str) -> (v: Vec<char>)
    ensures
        v@ == s@,
{
    let mut v: Vec<char> = Vec::new();
    for c in it: s.chars()
        invariant
            v@ == s@.take(it.index() as int),
            it.seq() == s@,
    {
        v.push(c);
    }
    v
}

/// The string made of the given characters.
pub fn to_text(v: &Vec<char>) -> (s: String)
    ensures
        s@ == v@,
{
    let mut s = String::new();
    let mut i: usize = 0;
    while i < v.len()
        invariant
            i <= v.len(),
            s@ == v@.take(i as int),
        decreases v.len() - i,
    {
        s.push(v[i]);
        i += 1;
    }
    s
}

/// A copy of the characters from `from` up to `to`.
pub fn slice(v: &Vec<char>, from: usize, to: usize) -> (r: Vec<char>)
    requires
        from <= to <= v.len(),
    ensures
        r@ == v@.subrange(from as int, to as int),
{
    let mut r: Vec<char> = Vec::new();
    let mut i: usize = from;
    while i < to
        invariant
            from <= i <= to <= v.len(),
            r@ == v@.subrange(from as int, i as int),
        decreases to - i,
    {
        r.push(v[i]);
        i += 1;
    }
    r
}

/// Appends the characters of `tail` to `v`.
pub fn append(v: &mut Vec<char>, tail: &Vec<char>)
    ensures
        final(v)@ == old(v)@ + tail@,
{
    let mut i: usize = 0;
    while i < tail.len()
        invariant
            i <= tail.len(),
            v@ == old(v)@ + tail@.take(i as int),
        decreases tail.len() - i,
    {
        v.push(tail[i]);
        i += 1;
    }
}

/// Whether two texts hold the same characters.
pub fn same_chars(a: &Vec<char>, b: &Vec<char>) -> (r: bool)
    ensures
        r == (a@ == b@),
{
    if a.len() != b.len() {
        return false;
    }
    let mut i: usize = 0;
    while i < a.len()
        invariant
            i <= a.len(),
            a.len() == b.len(),
            a@.take(i as int) == b@.take(i as int),
        decreases a.len() - i,
    {
        if a[i] != b[i] {
            return false;
        }
        assert(a@.take(i + 1) == a@.take(i as int).push(a@[i as int]));
        assert(b@.take(i + 1) == b@.take(i as int).push(b@[i as int]));
        i += 1;
    }
    assert(a@ == a@.take(a.len() as int));
    assert(b@ == b@.take(b.len() as int));
    true
}

/// Whether `c` is a whitespace character.
pub fn is_whitespace_char(c: char) -> (r: bool)
    ensures
        r == is_whitespace(c),
{
    let n: u32 = c as u32;
    (0x09 <= n && n <= 0x0D) || n == 0x20 || n == 0x85 || n == 0xA0 || n == 0x1680 || (0x2000 <= n
        && n <= 0x200A) || n == 0x2028 || n == 0x2029 || n == 0x202F || n == 0x205F || n == 0x3000
}

/// The text without its leading and trailing whitespace.
pub fn trim_chars(v: &Vec<char>) -> (r: Vec<char>)
    ensures
        r@ == trim(v@),
{
    let mut a: usize = 0;
    while a < v.len() && is_whitespace_char(v[a])
        invariant
            a <= v.len(),
            skip_whitespace(v@, a as int) == skip_whitespace(v@, 0),
        decreases v.len() - a,
    {
        a += 1;
    }
    let mut b: usize = v.len();
    while b > 0 && is_whitespace_char(v[b - 1])
        invariant
            b <= v.len(),
            skip_whitespace_back(v@, b as int) == skip_whitespace_back(v@, v@.len() as int),
        decreases b,
    {
        b -= 1;
    }
    if a < b {
        slice(v, a, b)
    } else {
        Vec::new()
    }
}

/// Whether `v` begins with `prefix`.
pub fn has_prefix(v: &Vec<char>, prefix: &Vec<char>) -> (r: bool)
    ensures
        r == starts_with(v@, prefix@),
{
    if prefix.len() > v.len() {
        return false;
    }
    let head = slice(v, 0, prefix.len());
    same_chars(&head, prefix)
}

/// Whether `v` ends with `suffix`.
pub fn has_suffix(v: &Vec<char>, suffix: &Vec<char>) -> (r: bool)
    ensures
        r == ends_with(v@, suffix@),
{
    if suffix.len() > v.len() {
        return false;
    }
    let tail = slice(v, v.len() - suffix.len(), v.len());
    same_chars(&tail, suffix)
}

/// Whether `pattern` occurs in `v` at index `i`.
pub fn matches_at(v: &Vec<char>, pattern: &Vec<char>, i: usize) -> (r: bool)
    ensures
        r == occurs_at(v@, pattern@, i as int),
{
    if i > v.len() || pattern.len() > v.len() - i {
        return false;
    }
    let part = slice(v, i, i + pattern.len());
    same_chars(&part, pattern)
}

/// The index of the first `c` at or after `from`, or the length.
pub fn find_char(v: &Vec<char>, c: char, from: usize) -> (r: usize)
    requires
        from <= v.len(),
    ensures
        r == find_from(v@, c, from as int),
        from <= r <= v.len(),
{
    let mut i: usize = from;
    while i < v.len() && v[i] != c
        invariant
            from <= i <= v.len(),
            find_from(v@, c, i as int) == find_from(v@, c, from as int),
        decreases v.len() - i,
    {
        i += 1;
    }
    i
}

/// `text` with every occurrence of `target` replaced by `with`.
pub fn replace_chars(text: &Vec<char>, target: &Vec<char>, with: &Vec<char>) -> (r: Vec<char>)
    ensures
        r@ == replace_all(text@, target@, with@),
{
    let mut out: Vec<char> = Vec::new();
    let mut i: usize = 0;
    while i < text.len()
        invariant
            i <= text.len(),
            out@ + replace_from(text@, target@, with@, i as int) == replace_from(
                text@,
                target@,
                with@,
                0,
            ),
        decreases text.len() - i,
    {
        let ghost before = out@;
        if target.len() > 0 && matches_at(text, target, i) {
            append(&mut out, with);
            proof {
                let rest = replace_from(text@, target@, with@, i + target@.len());
                assert((before + with@) + rest == before + (with@ + rest));
            }
            i += target.len();
        } else {
            out.push(text[i]);
            proof {
                let rest = replace_from(text@, target@, with@, i + 1);
                assert(before.push(text@[i as int]) + rest == before + (seq![text@[i as int]]
                    + rest));
            }
            i += 1;
        }
    }
    assert(out@ + Seq::<char>::empty() == out@);
    out
}

/// The lines of `text`.
pub fn split_into_lines(text: &Vec<char>) -> (r: Vec<Vec<char>>)
    ensures
        r@.len() == split_lines(text@).len(),
        forall|k: int| 0 <= k < r@.len() ==> (#[trigger] r@[k])@ == split_lines(text@)[k],
{
    let mut lines: Vec<Vec<char>> = Vec::new();
    let mut i: usize = 0;
    let ghost mut done: Seq<Seq<char>> = Seq::empty();
    while i < text.len()
        invariant
            i <= text.len(),
            done + lines_from(text@, i as int) == lines_from(text@, 0),
            lines@.len() == done.len(),
            forall|k: int| 0 <= k < lines@.len() ==> (#[trigger] lines@[k])@ == done[k],
        decreases text.len() - i,
    {
        let e = find_char(text, '\n', i);
        let cut = if e < text.len() && i < e && text[e - 1] == '\r' {
            e - 1
        } else {
            e
        };
        let line = slice(text, i, cut);
        proof {
            let rest = if e < text@.len() {
                lines_from(text@, e + 1)
            } else {
                Seq::empty()
            };
            assert(done.push(line@) + rest == done + (seq![line@] + rest));
            done = done.push(line@);
        }
        lines.push(line);
        if e < text.len() {
            i = e + 1;
        } else {
            i = e;
        }
    }
    assert(done + Seq::<Seq<char>>::empty() == done);
    lines
}

/// The text between a leading and a trailing double quote, where both are
/// there; otherwise the text itself.
pub fn unquote_chars(v: &Vec<char>) -> (r: Vec<char>)
    ensures
        r@ == unquote(v@),
{
    let n = v.len();
    if n >= 2 && v[0] == '"' && v[n - 1] == '"' {
        slice(v, 1, n - 1)
    } else {
        let r = slice(v, 0, n);
        assert(v@.subrange(0, n as int) == v@);
        r
    }
}

/// The text without its trailing commas.
pub fn trim_trailing_commas_chars(v: &Vec<char>) -> (r: Vec<char>)
    ensures
        r@ == trim_trailing_commas(v@),
{
    let mut b: usize = v.len();
    while b > 0 && v[b - 1] == ','
        invariant
            b <= v.len(),
            skip_commas_back(v@, b as int) == skip_commas_back(v@, v@.len() as int),
        decreases b,
    {
        b -= 1;
    }
    slice(v, 0, b)
}

/// The lower-case form of an ASCII capital; any other character itself.
pub fn ascii_lower_char(c: char) -> (r: char)
    ensures
        r == ascii_lower(c),
{
    if 'A' <= c && c <= 'Z' {
        ((c as u8) + 32) as char
    } else {
        c
    }
}

/// Whether `v`, with its ASCII capitals in lower case, reads `word`.
pub fn lowercase_is(v: &Vec<char>, word: &Vec<char>) -> (r: bool)
    ensures
        r == (ascii_lowercase(v@) == word@),
{
    if v.len() != word.len() {
        return false;
    }
    let mut i: usize = 0;
    while i < v.len()
        invariant
            i <= v.len(),
            v.len() == word.len(),
            forall|k: int| 0 <= k < i ==> ascii_lower(v@[k]) == word@[k],
        decreases v.len() - i,
    {
        if ascii_lower_char(v[i]) != word[i] {
            assert(ascii_lowercase(v@)[i as int] != word@[i as int]);
            return false;
        }
        i += 1;
    }
    assert(ascii_lowercase(v@) =~= word@);
    true
}

} // verus!
