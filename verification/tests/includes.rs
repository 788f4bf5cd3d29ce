use leek_ast::ast::statements::Statements;
use leek_ast::ast::structure::file::File;
use leek_ast::ast::trivia::comment::Comment;
use leek_ast::ast::trivia::trivia::Trivia;
use leek_ast::parser::Parser;
use leek_ast::visitor::VisitableMut;
use leek_ast::visitor::includer::{Includer, Source, Stop};
use leek_ast::visitor::writer::Writer;

/// Resolves the inclusions of `source`, with the files given as the only
/// ones there are; hands back the tree and the includer, stopped or not.
fn resolve(source: &str, files: &[(&str, &str)], included: &[&str]) -> (File, Includer) {
    let (rest, mut file) = File::parse(source).expect("the source parses");
    assert_eq!(rest, "");
    let mut includer = Includer::new("tests/".to_string());
    for path in included {
        includer.files_included.push(path.to_string());
    }
    loop {
        file.accept_mut(&mut includer);
        let path = match &includer.stop {
            Some(Stop::Missing(path)) => path.clone(),
            _ => break,
        };
        match files.iter().find(|(name, _)| *name == path) {
            Some((_, text)) => includer.supply(path, text.to_string()),
            None => break,
        }
    }
    (file, includer)
}

#[test]
fn a_file_that_is_included_twice_is_included_once() {
    let (file, includer) = resolve(
        "include('b.leek');\ninclude('b.leek');",
        &[("b.leek", "global v;")],
        &[],
    );
    assert_eq!(includer.stop, None);
    assert_eq!(includer.files_included, vec!["b.leek"]);
    assert_eq!(file.statements.len(), 2);
    match &file.statements[0].node {
        Statements::IncludedFile(included) => {
            assert_eq!(included.statements.len(), 1);
            assert!(matches!(included.statements[0].node, Statements::GlobalDeclaration(_)));
            assert_eq!(
                included.statements[0].trivias[0],
                Trivia::Comment(Comment::MultiLine(" start: include('b.leek'); ".to_string()))
            );
        },
        other => panic!("an included file was expected, not {:?}", other),
    }
    assert_eq!(
        file.statements[1].node,
        Statements::EmptyStatement(vec![Trivia::Comment(Comment::MultiLine(
            " skipped: include('b.leek'); (Already included) ".to_string()
        ))])
    );
    assert_eq!(
        Writer::write(&file),
        "/* start: include('b.leek'); */\nglobal v;\n/* end: include('b.leek'); */\n/* skipped: include('b.leek'); (Already included) */"
    );
}

#[test]
fn files_that_include_each_other_are_each_included_once() {
    let (file, includer) = resolve(
        "include('b.leek');",
        &[("a.leek", "include('b.leek');"), ("b.leek", "include('a.leek');")],
        &["a.leek"],
    );
    assert_eq!(includer.stop, None);
    assert_eq!(includer.files_included, vec!["a.leek", "b.leek"]);
    assert_eq!(
        Writer::write(&file),
        "/* start: include('b.leek'); */\n/* skipped: include('a.leek'); (Already included) */\n/* end: include('b.leek'); */"
    );
}

#[test]
fn a_file_that_includes_itself_by_way_of_another() {
    let (file, includer) = resolve(
        "include('b.leek')",
        &[("a.leek", "var a; include('b.leek')"), ("b.leek", "include('a.leek') var b;")],
        &[],
    );
    assert_eq!(includer.stop, None);
    assert_eq!(includer.files_included, vec!["b.leek", "a.leek"]);
    assert_eq!(
        Writer::write(&file),
        "/* start: include('b.leek') */\n/* start: include('a.leek') */\nvar a; /* skipped: include('b.leek') (Already included) */\n/* end: include('a.leek') */ var b;\n/* end: include('b.leek') */"
    );
}

#[test]
fn the_first_inclusion_in_the_order_of_the_text_wins() {
    let (file, includer) = resolve(
        "include('b');\ninclude('c');",
        &[("b", "include('c');"), ("c", "var c;")],
        &[],
    );
    assert_eq!(includer.files_included, vec!["b", "c"]);
    assert_eq!(
        Writer::write(&file),
        "/* start: include('b'); */\n/* start: include('c'); */\nvar c;\n/* end: include('c'); */\n/* end: include('b'); */\n/* skipped: include('c'); (Already included) */"
    );
}

#[test]
fn an_inclusion_keeps_its_own_trivia_in_the_comments() {
    let (file, _) = resolve("include ( \"x\" )", &[("x", "")], &[]);
    assert_eq!(Writer::write(&file), "/* start: include ( \"x\" ) */\n\n/* end: include ( \"x\" ) */");
}

#[test]
fn a_missing_file_stops_the_resolution_where_it_is() {
    let (file, includer) = resolve("include('b'); include('gone'); include('b');", &[("b", "1")], &[]);
    assert_eq!(includer.stop, Some(Stop::Missing("gone".to_string())));
    assert_eq!(includer.files_included, vec!["b"]);
    assert!(matches!(file.statements[0].node, Statements::IncludedFile(_)));
    assert!(matches!(file.statements[1].node, Statements::IncludeStatement(_)));
    assert!(matches!(file.statements[2].node, Statements::IncludeStatement(_)));
}

#[test]
fn a_resolution_goes_on_where_it_stopped() {
    let (rest, mut file) = File::parse("include('b'); include('c');").unwrap();
    assert_eq!(rest, "");
    let mut includer = Includer::new(String::new());
    includer.supply("b".to_string(), "include('d'); var b;".to_string());
    file.accept_mut(&mut includer);
    assert_eq!(includer.stop, Some(Stop::Missing("d".to_string())));
    assert_eq!(includer.files_included, vec!["b"]);
    assert_eq!(includer.sources, vec![]);
    includer.supply("c".to_string(), "var c;".to_string());
    assert_eq!(includer.stop, None);
    file.accept_mut(&mut includer);
    assert_eq!(includer.stop, Some(Stop::Missing("d".to_string())));
    assert_eq!(includer.files_included, vec!["b"]);
    includer.supply("d".to_string(), "var d;".to_string());
    file.accept_mut(&mut includer);
    assert_eq!(includer.stop, None);
    assert_eq!(includer.files_included, vec!["b", "d", "c"]);
    assert_eq!(
        Writer::write(&file),
        "/* start: include('b'); */\n/* start: include('d'); */\nvar d;\n/* end: include('d'); */ var b;\n/* end: include('b'); */ /* start: include('c'); */\nvar c;\n/* end: include('c'); */"
    );
}

#[test]
fn a_file_that_does_not_parse_stops_the_resolution() {
    let (file, includer) = resolve("include('bad');", &[("bad", "var a = ;")], &[]);
    assert_eq!(includer.stop, Some(Stop::Invalid("bad".to_string(), 35)));
    assert_eq!(includer.files_included, Vec::<String>::new());
    assert_eq!(includer.sources, vec![Source { path: "bad".to_string(), text: "var a = ;".to_string() }]);
    assert_eq!(Writer::write(&file), "include('bad');");
}

#[test]
fn a_stopped_includer_leaves_everything_as_it_is() {
    let (_, mut file) = File::parse("include('b');").unwrap();
    let mut includer = Includer::new(String::new());
    includer.supply("b".to_string(), "var b;".to_string());
    includer.stop = Some(Stop::Invalid("z".to_string(), 0));
    file.accept_mut(&mut includer);
    assert_eq!(Writer::write(&file), "include('b');");
    assert_eq!(includer.files_included, Vec::<String>::new());
    includer.supply("c".to_string(), String::new());
    assert_eq!(includer.stop, Some(Stop::Invalid("z".to_string(), 0)));
}

#[test]
fn an_inclusion_is_resolved_on_its_own() {
    let (_, file) = File::parse("include('b')").unwrap();
    let inclusion = match &file.statements[0].node {
        Statements::IncludeStatement(inclusion) => inclusion,
        other => panic!("an inclusion was expected, not {:?}", other),
    };
    let mut includer = Includer::new(String::new());
    assert_eq!(includer.resolve_inclusion(inclusion), None);
    assert_eq!(includer.stop, Some(Stop::Missing("b".to_string())));
    includer.supply("a".to_string(), "1".to_string());
    includer.supply("b".to_string(), "2".to_string());
    includer.supply("b".to_string(), "3".to_string());
    let resolved = includer.resolve_inclusion(inclusion).expect("the file is included");
    assert_eq!(Writer::write(&resolved), "/* start: include('b') */\n2\n/* end: include('b') */");
    assert_eq!(
        includer.sources,
        vec![
            Source { path: "a".to_string(), text: "1".to_string() },
            Source { path: "b".to_string(), text: "3".to_string() },
        ]
    );
    let again = includer.resolve_inclusion(inclusion).expect("the inclusion is skipped");
    assert_eq!(Writer::write(&again), "/* skipped: include('b') (Already included) */");
}
