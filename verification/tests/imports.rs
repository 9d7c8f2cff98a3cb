use lacon_rust_parser::{
    ImportStack, LaCoNValue, LengthUnit, LoadError, Loader, Located, Numeral, Request,
};

/// Loads `path` from files that all lie in the directory `/cfg`, and tells
/// which files were read, in order.
fn load_with(
    files: &[(&str, &str)],
    path: &str,
    open: ImportStack,
) -> (Result<LaCoNValue, LoadError>, Vec<String>) {
    let find = |full: &str| files.iter().find(|(name, _)| *name == full).map(|(_, text)| *text);
    let mut reads = Vec::new();
    let (mut loader, mut request) = Loader::begin(path, open);
    loop {
        request = match request {
            Request::Locate { directory, path } => {
                assert!(loader.awaits_location());
                let full = match directory {
                    Some(directory) => format!("{directory}/{path}"),
                    None => path,
                };
                let found = match find(&full) {
                    Some(_) => Ok(Located { path: full, directory: "/cfg".to_string() }),
                    None => Err(format!("{full}: not found")),
                };
                loader.located(found)
            }
            Request::Read { path } => {
                assert!(loader.awaits_content());
                assert!(!loader.is_open(&path));
                reads.push(path.clone());
                let text = match find(&path) {
                    Some("<unreadable>") => Err(format!("{path}: unreadable")),
                    Some(text) => Ok(text.to_string()),
                    None => Err(format!("{path}: not found")),
                };
                loader.content(text)
            }
            Request::Finished(result) => {
                assert_eq!(loader.depth(), 0);
                return (result, reads);
            }
        };
    }
}

fn load(files: &[(&str, &str)], path: &str) -> (Result<LaCoNValue, LoadError>, Vec<String>) {
    load_with(files, path, ImportStack::new())
}

fn keys(document: &LaCoNValue) -> Vec<String> {
    let dict = document.as_dict().unwrap();
    (0..dict.len()).map(|i| dict.key_at(i).to_string()).collect()
}

fn text(s: &str) -> LaCoNValue {
    LaCoNValue::String(s.to_string())
}

#[test]
fn document_without_imports() {
    let (result, reads) = load(&[("/cfg/a.lacon", "x = 1\ny = two")], "/cfg/a.lacon");
    let document = result.unwrap();
    assert_eq!(keys(&document), ["x", "y"]);
    assert_eq!(reads, ["/cfg/a.lacon"]);
}

#[test]
fn import_is_merged_where_it_stands() {
    let files = [
        ("/cfg/a.lacon", "x = 1\nshared = mine\n@import \"b.lacon\"\nz = 3"),
        ("/cfg/b.lacon", "y = 2\nshared = theirs"),
    ];
    let (result, reads) = load(&files, "/cfg/a.lacon");
    let document = result.unwrap();
    assert_eq!(keys(&document), ["x", "shared", "y", "z"]);
    assert_eq!(document.get_string("shared"), Some("theirs"));
    assert_eq!(reads, ["/cfg/a.lacon", "/cfg/b.lacon"]);
}

#[test]
fn value_after_an_import_overwrites_the_imported_one() {
    let files = [
        ("/cfg/a.lacon", "@import b.lacon\nshared = mine"),
        ("/cfg/b.lacon", "shared = theirs"),
    ];
    let document = load(&files, "/cfg/a.lacon").0.unwrap();
    assert_eq!(document.get_string("shared"), Some("mine"));
}

#[test]
fn later_import_overwrites_the_earlier() {
    let files = [
        ("/cfg/a.lacon", "@import b.lacon\n@import c.lacon"),
        ("/cfg/b.lacon", "k = from-b\nonly_b = 1"),
        ("/cfg/c.lacon", "k = from-c"),
    ];
    let document = load(&files, "/cfg/a.lacon").0.unwrap();
    assert_eq!(document.get_string("k"), Some("from-c"));
    assert_eq!(keys(&document), ["k", "only_b"]);
}

#[test]
fn circular_import_adds_nothing_and_ends() {
    let files = [
        ("/cfg/a.lacon", "a1 = 1\n@import \"b.lacon\"\na2 = 2"),
        ("/cfg/b.lacon", "b1 = 1\n@import \"a.lacon\"\nb2 = 2"),
    ];
    let (result, reads) = load(&files, "/cfg/a.lacon");
    let document = result.unwrap();
    assert_eq!(keys(&document), ["a1", "b1", "b2", "a2"]);
    assert_eq!(reads, ["/cfg/a.lacon", "/cfg/b.lacon"]);
}

#[test]
fn file_that_imports_itself() {
    let files = [("/cfg/a.lacon", "@import a.lacon\nx = 1")];
    let (result, reads) = load(&files, "/cfg/a.lacon");
    assert_eq!(keys(&result.unwrap()), ["x"]);
    assert_eq!(reads, ["/cfg/a.lacon"]);
}

#[test]
fn open_file_fails_as_a_circular_import() {
    let mut open = ImportStack::new();
    assert!(open.enter("/cfg/a.lacon").is_ok());
    let (result, reads) = load_with(&[("/cfg/a.lacon", "x = 1")], "/cfg/a.lacon", open);
    assert_eq!(result, Err(LoadError::CircularImport("/cfg/a.lacon".to_string())));
    assert!(reads.is_empty());
    assert_eq!(
        LoadError::CircularImport("/cfg/a.lacon".to_string()).message(),
        "Circular import detected: \"/cfg/a.lacon\""
    );
}

#[test]
fn import_of_a_file_open_further_out_is_circular() {
    let mut open = ImportStack::new();
    assert!(open.enter("/cfg/root.lacon").is_ok());
    let files = [
        ("/cfg/root.lacon", "r = 1"),
        ("/cfg/a.lacon", "@import root.lacon\n@import b.lacon\nx = 1"),
        ("/cfg/b.lacon", "@import root.lacon\ny = 2"),
    ];
    let (result, reads) = load_with(&files, "/cfg/a.lacon", open);
    assert_eq!(keys(&result.unwrap()), ["y", "x"]);
    assert_eq!(reads, ["/cfg/a.lacon", "/cfg/b.lacon"]);
}

#[test]
fn diamond_import_reads_the_shared_file_for_each_importer() {
    let files = [
        ("/cfg/a.lacon", "@import b.lacon\n@import c.lacon\na = 1"),
        ("/cfg/b.lacon", "@import d.lacon\nb = 1"),
        ("/cfg/c.lacon", "@import d.lacon\nc = 1"),
        ("/cfg/d.lacon", "d = 10px"),
    ];
    let (result, reads) = load(&files, "/cfg/a.lacon");
    let document = result.unwrap();
    assert_eq!(keys(&document), ["d", "b", "c", "a"]);
    assert_eq!(
        document.as_dict().unwrap().get("d"),
        Some(&LaCoNValue::Length(Numeral::parse("10").unwrap(), LengthUnit::Pixel))
    );
    assert_eq!(
        reads,
        ["/cfg/a.lacon", "/cfg/b.lacon", "/cfg/d.lacon", "/cfg/c.lacon", "/cfg/d.lacon"]
    );
}

#[test]
fn same_file_imported_twice_in_a_row() {
    let files = [
        ("/cfg/a.lacon", "@import b.lacon\nx = 1\n@import b.lacon"),
        ("/cfg/b.lacon", "x = 2"),
    ];
    let (result, reads) = load(&files, "/cfg/a.lacon");
    assert_eq!(result.unwrap().as_dict().unwrap().get("x"), Some(&LaCoNValue::Int(2)));
    assert_eq!(reads, ["/cfg/a.lacon", "/cfg/b.lacon", "/cfg/b.lacon"]);
}

#[test]
fn missing_import_is_passed_over() {
    let files = [("/cfg/a.lacon", "x = 1\n@import missing.lacon\ny = 2")];
    let (result, reads) = load(&files, "/cfg/a.lacon");
    assert_eq!(keys(&result.unwrap()), ["x", "y"]);
    assert_eq!(reads, ["/cfg/a.lacon"]);
}

#[test]
fn unreadable_import_is_passed_over() {
    let files = [
        ("/cfg/a.lacon", "x = 1\n@import b.lacon\ny = 2"),
        ("/cfg/b.lacon", "<unreadable>"),
    ];
    let (result, reads) = load(&files, "/cfg/a.lacon");
    assert_eq!(keys(&result.unwrap()), ["x", "y"]);
    assert_eq!(reads, ["/cfg/a.lacon", "/cfg/b.lacon"]);
}

#[test]
fn missing_document_fails() {
    let (result, reads) = load(&[], "/cfg/a.lacon");
    assert_eq!(result, Err(LoadError::Unreadable("/cfg/a.lacon: not found".to_string())));
    assert!(reads.is_empty());
    assert_eq!(
        LoadError::Unreadable("/cfg/a.lacon: not found".to_string()).message(),
        "/cfg/a.lacon: not found"
    );
}

#[test]
fn unreadable_document_fails() {
    let (result, reads) = load(&[("/cfg/a.lacon", "<unreadable>")], "/cfg/a.lacon");
    assert_eq!(result, Err(LoadError::Unreadable("/cfg/a.lacon: unreadable".to_string())));
    assert_eq!(reads, ["/cfg/a.lacon"]);
}

#[test]
fn variables_stay_in_their_file() {
    let files = [
        ("/cfg/a.lacon", "$v = outer\n@import b.lacon\n@import c.lacon\nmine = $v $w"),
        ("/cfg/b.lacon", "seen_in_b = $v\n$w = inner\nb = $w"),
        ("/cfg/c.lacon", "seen_in_c = $w"),
    ];
    let document = load(&files, "/cfg/a.lacon").0.unwrap();
    assert_eq!(document.as_dict().unwrap().get("seen_in_b"), Some(&text("$v")));
    assert_eq!(document.as_dict().unwrap().get("b"), Some(&text("inner")));
    assert_eq!(document.as_dict().unwrap().get("seen_in_c"), Some(&text("$w")));
    assert_eq!(document.as_dict().unwrap().get("mine"), Some(&text("outer $w")));
}

#[test]
fn nested_imports_unwind_in_order() {
    let files = [
        ("/cfg/a.lacon", "a = 1\n@import b.lacon"),
        ("/cfg/b.lacon", "b = 1\n@import c.lacon"),
        ("/cfg/c.lacon", "c = 1\n@import d.lacon"),
        ("/cfg/d.lacon", "d = 1"),
    ];
    let (result, reads) = load(&files, "/cfg/a.lacon");
    assert_eq!(keys(&result.unwrap()), ["a", "b", "c", "d"]);
    assert_eq!(reads.len(), 4);
}

#[test]
fn import_stack_holds_each_path_once() {
    let mut stack = ImportStack::new();
    assert_eq!(stack.len(), 0);
    assert!(stack.enter("/a").is_ok());
    assert!(stack.enter("/b").is_ok());
    assert_eq!(stack.enter("/a").unwrap_err().path, "/a");
    assert_eq!(stack.len(), 2);
    assert!(stack.contains("/a"));
    assert!(!stack.contains("/c"));
    assert_eq!(stack.path_at(0), "/a");
    assert_eq!(stack.path_at(1), "/b");
    let copy = stack.clone();
    stack.leave("/a");
    assert_eq!(stack.len(), 1);
    assert_eq!(stack.path_at(0), "/b");
    assert!(stack.enter("/a").is_ok());
    stack.leave("/missing");
    assert_eq!(stack.len(), 2);
    assert_eq!(copy.len(), 2);
    assert_eq!(copy.path_at(0), "/a");
}
