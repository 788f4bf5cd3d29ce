use leek_ast::ast::expressions::Expression;
use leek_ast::ast::statements::{Scope, Statements};
use leek_ast::ast::statements::assignment::AssignmentList;
use leek_ast::ast::structure::file::File;
use leek_ast::ast::terminal::identifier::Identifier;
use leek_ast::ast::terminal::keyword::KwGlobal;
use leek_ast::ast::terminal::number_literal::{NumberKind, NumberLiteral};
use leek_ast::parser::Parser;
use leek_ast::visitor::writer::Writer;

fn round_trip(source: &str) {
    let (rest, file) = File::parse(source).expect("the source parses");
    assert_eq!(rest, "");
    assert_eq!(Writer::write(&file), source);
}

#[test]
fn global_declaration_at_file_scope_parses() {
    let (rest, file) = File::parse("global y;").unwrap();
    assert_eq!(rest, "");
    assert_eq!(file.statements.len(), 1);
    assert!(matches!(file.statements[0].node, Statements::GlobalDeclaration(_)));
}

#[test]
fn global_declaration_in_nested_scope_is_rejected() {
    assert!(File::parse("if (x) global y;").is_err());
    assert!(Statements::parse(Scope::Nested, "global y;").is_err());
    assert!(Statements::parse(Scope::File, "global y;").is_ok());
}

#[test]
fn assignment_list_with_trailing_comma_fails() {
    assert!(AssignmentList::parse("a,").is_err());
}

#[test]
fn assignment_list_of_one() {
    let (rest, list) = AssignmentList::parse("a").unwrap();
    assert_eq!(rest, "");
    assert_eq!(list.0 .0.len(), 1);
    assert_eq!(list.0 .1.len(), 0);
}

#[test]
fn number_literal_kinds() {
    let (rest, hex) = NumberLiteral::parse("0xFF").unwrap();
    assert_eq!(rest, "");
    assert_eq!(hex, NumberLiteral { kind: NumberKind::Hex, content: "0xFF".to_string() });
    assert_eq!(NumberLiteral::parse("1e10").unwrap().1.kind, NumberKind::Float);
    assert_eq!(NumberLiteral::parse(".5").unwrap().1.kind, NumberKind::Float);
    assert_eq!(NumberLiteral::parse("10").unwrap().1.kind, NumberKind::Decimal);
}

#[test]
fn globally_is_an_identifier() {
    let (rest, name) = Identifier::parse("globally").unwrap();
    assert_eq!(rest, "");
    assert_eq!(name, Identifier("globally".to_string()));
    assert!(KwGlobal::parse("globally").is_err());
    assert_eq!(Expression::parse("globally").unwrap().1, Expression::Identifier(name));
}

#[test]
fn round_trip_of_a_program() {
    round_trip("");
    round_trip("global y;");
    round_trip("  // a comment\nglobal int x = 1, y = 'two' ;\n/* more */ var z = 0x1F;\nif (z) x else y\n");
    round_trip("include('a.leek');\ninclude ( \"b.leek\" )\nif (1) if (2) ; else var a = 1.5e-3");
    round_trip("if (x) y else z\nif (a) var b; else c");
}
