use lacon_rust_parser::line::{block_start, classify_line, classify_with, variable_declaration, Line};
use lacon_rust_parser::{
    parse_single_value, process_quoted_multiline, process_raw_multiline, resolve_variables,
    unwrap_quotes,
};
use lacon_rust_parser::{
    DocumentParser, ImportStack, LaCoNValue, LengthUnit, Numeral, ParserContext,
    VariableRegistry,
};

fn numeral(text: &str) -> Numeral {
    Numeral::parse(text).unwrap()
}

fn text(s: &str) -> LaCoNValue {
    LaCoNValue::String(s.to_string())
}

fn context() -> ParserContext {
    ParserContext::new("/cfg".to_string(), ImportStack::new())
}

/// Parses a document that imports nothing.
fn parse(source: &str) -> LaCoNValue {
    let mut ctx = context();
    let mut parser = DocumentParser::new(source);
    assert_eq!(parser.advance(&mut ctx), None);
    assert!(parser.is_finished());
    parser.finish()
}

fn entry<'a>(document: &'a LaCoNValue, key: &str) -> Option<&'a LaCoNValue> {
    document.as_dict().unwrap().get(key)
}

fn line(s: &str) -> Line {
    classify_line(&s.chars().collect())
}

#[test]
fn pair_with_unit_is_a_length() {
    let document = parse("width = 100em");
    assert_eq!(
        entry(&document, "width"),
        Some(&LaCoNValue::Length(numeral("100"), LengthUnit::Em))
    );
    match entry(&document, "width") {
        Some(LaCoNValue::Length(n, LengthUnit::Em)) => {
            assert_eq!(n.as_str().parse::<f64>().unwrap(), 100.0)
        }
        other => panic!("unexpected {:?}", other),
    }
}

#[test]
fn bare_key_is_a_flag() {
    let document = parse("flag");
    assert_eq!(entry(&document, "flag"), Some(&LaCoNValue::Bool(true)));
    assert_eq!(document.as_dict().unwrap().len(), 1);
}

#[test]
fn variable_is_replaced_before_the_value_is_read() {
    let document = parse("$base = \"10px\"\npadding = $base");
    assert_eq!(
        entry(&document, "padding"),
        Some(&LaCoNValue::Length(numeral("10"), LengthUnit::Pixel))
    );
    assert_eq!(document.as_dict().unwrap().len(), 1);
}

#[test]
fn raw_block_keeps_its_lines() {
    let document = parse("note @(\nline1\nline2\n)");
    assert_eq!(entry(&document, "note"), Some(&text("line1\nline2")));
}

#[test]
fn raw_block_is_trimmed_as_a_whole() {
    let document = parse("note @(\n   line1\n  line2  \n\n)\nafter = 1");
    assert_eq!(entry(&document, "note"), Some(&text("line1\n  line2")));
    assert_eq!(entry(&document, "after"), Some(&LaCoNValue::Int(1)));
}

#[test]
fn quoted_block_takes_each_line_by_itself() {
    let document = parse("items (\n  \"first\",\n  \"second\",,\n  third\n)\nnext");
    assert_eq!(entry(&document, "items"), Some(&text("first\nsecond\nthird")));
    assert_eq!(entry(&document, "next"), Some(&LaCoNValue::Bool(true)));
}

#[test]
fn block_with_equals_sign_and_variables() {
    let document = parse("$who = world\ngreeting = @(\nhello $who\n)");
    assert_eq!(entry(&document, "greeting"), Some(&text("hello world")));
}

#[test]
fn block_without_end_runs_to_the_last_line() {
    let document = parse("note @(\na\nb");
    assert_eq!(entry(&document, "note"), Some(&text("a\nb")));
    assert_eq!(document.as_dict().unwrap().len(), 1);
}

#[test]
fn lines_inside_a_block_are_content() {
    let document = parse("note @(\n// kept\n$x = 1\n@import \"other\"\nkey = value\n)\n");
    assert_eq!(
        entry(&document, "note"),
        Some(&text("// kept\n$x = 1\n@import \"other\"\nkey = value"))
    );
    assert_eq!(document.as_dict().unwrap().len(), 1);
}

#[test]
fn comments_and_blank_lines_are_skipped() {
    let document = parse("// heading\n\n   \n  // indented\nsize = 3\r\n\r\n// end");
    assert_eq!(entry(&document, "size"), Some(&LaCoNValue::Int(3)));
    assert_eq!(document.as_dict().unwrap().len(), 1);
}

#[test]
fn equals_sign_parts_before_a_space_does() {
    let document = parse("title Hello World\nname = Ada Lovelace\nlate key=value\nmode\tfast");
    assert_eq!(entry(&document, "title"), Some(&text("Hello World")));
    assert_eq!(entry(&document, "name"), Some(&text("Ada Lovelace")));
    assert_eq!(entry(&document, "late key"), Some(&text("value")));
    assert_eq!(entry(&document, "mode\tfast"), Some(&LaCoNValue::Bool(true)));
}

#[test]
fn values_are_typed() {
    let document = parse(
        "a = 12\nb = 1.5\nc = true\nd = auto\ne = NONE\nf = 50%\ng = \"quoted\"\nh = plain text\ni =",
    );
    assert_eq!(entry(&document, "a"), Some(&LaCoNValue::Int(12)));
    assert_eq!(entry(&document, "b"), Some(&LaCoNValue::Float(numeral("1.5"))));
    assert_eq!(entry(&document, "c"), Some(&LaCoNValue::Bool(true)));
    assert_eq!(entry(&document, "d"), Some(&LaCoNValue::Auto));
    assert_eq!(entry(&document, "e"), Some(&LaCoNValue::Nothing));
    assert_eq!(entry(&document, "f"), Some(&LaCoNValue::Percentage(numeral("50"))));
    assert_eq!(entry(&document, "g"), Some(&text("\"quoted\"")));
    assert_eq!(entry(&document, "h"), Some(&text("plain text")));
    assert_eq!(entry(&document, "i"), Some(&text("")));
}

#[test]
fn later_value_takes_the_place_of_the_earlier() {
    let document = parse("a = 1\nb = 2\na = 3");
    let dict = document.as_dict().unwrap();
    assert_eq!(dict.len(), 2);
    assert_eq!(dict.key_at(0), "a");
    assert_eq!(dict.value_at(0), &LaCoNValue::Int(3));
    assert_eq!(dict.key_at(1), "b");
}

#[test]
fn variables_are_seen_only_after_their_declaration() {
    let document = parse("early = $size\n$size = 4px\nlate = $size\n$size = 8px\nlast = $size");
    assert_eq!(entry(&document, "early"), Some(&text("$size")));
    assert_eq!(
        entry(&document, "late"),
        Some(&LaCoNValue::Length(numeral("4"), LengthUnit::Pixel))
    );
    assert_eq!(
        entry(&document, "last"),
        Some(&LaCoNValue::Length(numeral("8"), LengthUnit::Pixel))
    );
}

#[test]
fn declaration_forms() {
    assert_eq!(
        line("$name = value"),
        Line::Variable { name: "name".to_string(), value: "value".to_string() }
    );
    assert_eq!(
        line("  $a.b-c_d=  \"x y\"  "),
        Line::Variable { name: "a.b-c_d".to_string(), value: "x y".to_string() }
    );
    assert_eq!(
        line("$name value"),
        Line::Variable { name: "name".to_string(), value: "value".to_string() }
    );
    assert_eq!(
        line("$\u{e9}t\u{e9}9 = 1"),
        Line::Variable { name: "\u{e9}t\u{e9}9".to_string(), value: "1".to_string() }
    );
    assert_eq!(line("$abc"), Line::Variable { name: "ab".to_string(), value: "c".to_string() });
    assert_eq!(line("$a"), Line::Flag { key: "$a".to_string() });
    assert_eq!(line("$"), Line::Flag { key: "$".to_string() });
    assert_eq!(
        line("$ = 3"),
        Line::Pair { key: "$".to_string(), value: "3".to_string() }
    );
}

#[test]
fn block_start_forms() {
    assert_eq!(line("note ("), Line::BlockStart { key: "note".to_string(), raw: false });
    assert_eq!(line("note @("), Line::BlockStart { key: "note".to_string(), raw: true });
    assert_eq!(line("note = ("), Line::BlockStart { key: "note".to_string(), raw: false });
    assert_eq!(line("  note=@(  "), Line::BlockStart { key: "note".to_string(), raw: true });
    assert_eq!(line("note("), Line::BlockStart { key: "note".to_string(), raw: false });
    assert_eq!(
        line("note ( x"),
        Line::Pair { key: "note".to_string(), value: "( x".to_string() }
    );
    assert_eq!(
        line("two words ("),
        Line::Pair { key: "two".to_string(), value: "words (".to_string() }
    );
}

#[test]
fn other_line_forms() {
    assert_eq!(line(""), Line::Blank);
    assert_eq!(line("   \t"), Line::Blank);
    assert_eq!(line("// note"), Line::Blank);
    assert_eq!(line("  //note"), Line::Blank);
    assert_eq!(line("@import \"a/b.lacon\""), Line::Import { path: "a/b.lacon".to_string() });
    assert_eq!(line("@import a.lacon"), Line::Import { path: "a.lacon".to_string() });
    assert_eq!(line("@importa.lacon"), Line::Import { path: "a.lacon".to_string() });
    assert_eq!(line("@import"), Line::Import { path: String::new() });
    assert_eq!(line("key = value"), Line::Pair { key: "key".to_string(), value: "value".to_string() });
    assert_eq!(line("=value"), Line::Pair { key: String::new(), value: "value".to_string() });
    assert_eq!(line("key"), Line::Flag { key: "key".to_string() });
    assert_eq!(line("/ key"), Line::Pair { key: "/".to_string(), value: "key".to_string() });
}

#[test]
fn captured_groups_decide_the_form() {
    let none: Option<Vec<Option<String>>> = None;
    let groups = |a: &str, b: &str| {
        Some(vec![Some(format!("{a}{b}")), Some(a.to_string()), Some(b.to_string())])
    };
    assert_eq!(
        variable_declaration(&groups("name", "  \"v\" ")),
        Some(("name".to_string(), "v".to_string()))
    );
    assert_eq!(variable_declaration(&none), None);
    assert_eq!(variable_declaration(&Some(vec![Some("x".to_string())])), None);
    assert_eq!(
        variable_declaration(&Some(vec![Some("x".to_string()), None, Some("y".to_string())])),
        None
    );
    assert_eq!(block_start(&groups("key", "@(")), Some(("key".to_string(), true)));
    assert_eq!(block_start(&groups("key", "(")), Some(("key".to_string(), false)));
    assert_eq!(block_start(&none), None);
    assert_eq!(
        classify_with("anything", &groups("n", "v"), &none),
        Line::Variable { name: "n".to_string(), value: "v".to_string() }
    );
    assert_eq!(classify_with("// c", &groups("n", "v"), &groups("k", "(")), Line::Blank);
    assert_eq!(
        classify_with("k (", &none, &groups("k", "(")),
        Line::BlockStart { key: "k".to_string(), raw: false }
    );
    assert_eq!(
        classify_with("@import x", &none, &groups("k", "(")),
        Line::Import { path: "x".to_string() }
    );
    assert_eq!(classify_with("k", &none, &none), Line::Flag { key: "k".to_string() });
}

#[test]
fn quotes_are_unwrapped_only_in_pairs() {
    assert_eq!(unwrap_quotes("\"abc\""), "abc");
    assert_eq!(unwrap_quotes("\"\""), "");
    assert_eq!(unwrap_quotes("\""), "\"");
    assert_eq!(unwrap_quotes("\"abc"), "\"abc");
    assert_eq!(unwrap_quotes("abc\""), "abc\"");
    assert_eq!(unwrap_quotes("abc"), "abc");
    assert_eq!(unwrap_quotes(""), "");
    assert_eq!(unwrap_quotes("\"a\"b\""), "a\"b");
    assert_eq!(unwrap_quotes(" \"a\""), " \"a\"");
}

#[test]
fn variables_are_replaced_in_order_of_declaration() {
    let mut vars = VariableRegistry::new();
    assert_eq!(resolve_variables("$a and $b", &vars), "$a and $b");
    vars.insert("a".to_string(), "1".to_string());
    vars.insert("b".to_string(), "2".to_string());
    assert_eq!(resolve_variables("$a and $b, $a$b$c", &vars), "1 and 2, 12$c");
    assert_eq!(resolve_variables("a b $ab", &vars), "a b 1b");
    assert_eq!(resolve_variables("", &vars), "");
    vars.insert("a".to_string(), "$b".to_string());
    assert_eq!(resolve_variables("$a", &vars), "2");
    assert_eq!(vars.len(), 2);
    assert_eq!(vars.get("a"), Some("$b"));
    assert_eq!(vars.get("c"), None);
    assert_eq!(vars.name_at(1), "b");
    assert_eq!(vars.value_at(1), "2");
}

#[test]
fn single_value_resolves_then_reads() {
    let mut ctx = context();
    ctx.variable_registry.insert("gap".to_string(), "4".to_string());
    assert_eq!(
        parse_single_value("$gap", &ctx),
        LaCoNValue::Int(4)
    );
    assert_eq!(
        parse_single_value("$gappx", &ctx),
        LaCoNValue::Length(numeral("4"), LengthUnit::Pixel)
    );
    assert_eq!(parse_single_value("$other", &ctx), text("$other"));
}

#[test]
fn multiline_helpers() {
    assert_eq!(process_raw_multiline(vec!["line1", "line2"]), "line1\nline2");
    assert_eq!(process_raw_multiline(vec!["  a", "", " b  ", ""]), "a\n\n b");
    assert_eq!(process_raw_multiline(vec![]), "");
    assert_eq!(process_quoted_multiline(vec![" \"a\", ", "b,,", "\"c"]), "a\nb\n\"c");
    assert_eq!(process_quoted_multiline(vec![]), "");
    assert_eq!(process_quoted_multiline(vec!["", ""]), "\n");
}

#[test]
fn parse_stops_at_an_import_and_goes_on_after_it() {
    let mut ctx = context();
    let mut parser = DocumentParser::new("a = 1\n@import \"other.lacon\"\nb = 2\n@import last\n");
    assert_eq!(parser.advance(&mut ctx), Some("other.lacon".to_string()));
    assert!(!parser.is_finished());
    let mut imported = lacon_rust_parser::Dictionary::new();
    imported.insert("a".to_string(), LaCoNValue::Int(10));
    imported.insert("c".to_string(), LaCoNValue::Int(30));
    parser.merge_import(imported);
    assert_eq!(parser.advance(&mut ctx), Some("last".to_string()));
    assert_eq!(parser.advance(&mut ctx), None);
    assert!(parser.is_finished());
    let document = parser.finish();
    let dict = document.as_dict().unwrap();
    assert_eq!(dict.len(), 3);
    assert_eq!(dict.get("a"), Some(&LaCoNValue::Int(10)));
    assert_eq!(dict.get("b"), Some(&LaCoNValue::Int(2)));
    assert_eq!(dict.get("c"), Some(&LaCoNValue::Int(30)));
    assert_eq!(dict.key_at(0), "a");
    assert_eq!(dict.key_at(1), "c");
    assert_eq!(dict.key_at(2), "b");
}

#[test]
fn get_string_gives_plain_texts_only() {
    let document = parse("name = Ada\nage = 36\nquoted = \"x\"");
    assert_eq!(document.get_string("name"), Some("Ada"));
    assert_eq!(document.get_string("age"), None);
    assert_eq!(document.get_string("missing"), None);
    assert_eq!(document.get_string("quoted"), Some("\"x\""));
    assert_eq!(LaCoNValue::Int(1).get_string("name"), None);
}
