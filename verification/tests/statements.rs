use leek_ast::ast::expressions::Expression;
use leek_ast::ast::statements::{Scope, Statements};
use leek_ast::ast::statements::assignment::{Assignment, AssignmentList};
use leek_ast::ast::statements::global_declaration::GlobalDeclaration;
use leek_ast::ast::statements::if_statement::{ElseClause, IfStatement};
use leek_ast::ast::statements::include_statement::IncludeStatement;
use leek_ast::ast::statements::variable_declaration::VariableDeclaration;
use leek_ast::ast::structure::file::File;
use leek_ast::ast::structure::type_struct::{Type, TypeFollowedById};
use leek_ast::ast::terminal::identifier::Identifier;
use leek_ast::ast::terminal::keyword::{KwElse, KwGlobal, KwVar};
use leek_ast::ast::terminal::number_literal::{NumberKind, NumberLiteral};
use leek_ast::ast::terminal::string_literal::{Quote, StringLiteral};
use leek_ast::ast::terminal::symbol::{Comma, Equal, Semi, SQuote};
use leek_ast::ast::trivia::trivia::Trivia;
use leek_ast::ast::trivia::whitespace::Whitespace;
use leek_ast::ast::trivia::with_trivia::WithTrivia;
use leek_ast::ast::utils::repeat::Repeat;
use leek_ast::ast::utils::separated::Separated;
use leek_ast::parser::{ParseError, Parser};
use leek_ast::parser::preceded::Preceded;
use leek_ast::parser::terminated::Terminated;

fn bare<T>(node: T) -> WithTrivia<T> {
    WithTrivia { trivias: vec![], node }
}

fn spaced<T>(node: T) -> WithTrivia<T> {
    WithTrivia { trivias: vec![Trivia::Whitespace(Whitespace(" ".to_string()))], node }
}

fn name(text: &str) -> Identifier {
    Identifier(text.to_string())
}

fn decimal(text: &str) -> Expression {
    Expression::NumberLiteral(NumberLiteral { kind: NumberKind::Decimal, content: text.to_string() })
}

#[test]
fn an_assignment_with_and_without_a_value() {
    assert_eq!(Assignment::parse("a;"), Ok((";", Assignment(name("a"), None))));
    assert_eq!(
        Assignment::parse("a = 1;"),
        Ok((";", Assignment(name("a"), Some((spaced(Equal), spaced(decimal("1")))))))
    );
    assert_eq!(Assignment::parse("a = ;"), Ok((" = ;", Assignment(name("a"), None))));
    assert_eq!(Assignment::parse("1"), Err(ParseError { input: "1" }));
}

#[test]
fn an_assignment_list_keeps_the_order_of_its_items() {
    let (rest, list) = AssignmentList::parse("a, b = 2 ,c;").unwrap();
    assert_eq!(rest, ";");
    assert_eq!(
        list,
        AssignmentList(Separated(
            vec![
                bare(Assignment(name("a"), None)),
                spaced(Assignment(name("b"), Some((spaced(Equal), spaced(decimal("2")))))),
                bare(Assignment(name("c"), None)),
            ],
            vec![bare(Comma), spaced(Comma)],
        ))
    );
}

#[test]
fn an_assignment_list_needs_an_item_behind_each_comma() {
    assert_eq!(AssignmentList::parse("a,"), Err(ParseError { input: "" }));
    assert_eq!(AssignmentList::parse("a, ;"), Err(ParseError { input: ";" }));
    assert_eq!(AssignmentList::parse(""), Err(ParseError { input: "" }));
    assert_eq!(AssignmentList::parse(", a"), Err(ParseError { input: ", a" }));
}

#[test]
fn repeat_collects_within_its_bounds() {
    assert_eq!(Repeat::<Semi, 0, 2>::parse(";;;"), Ok((";", Repeat(vec![Semi, Semi]))));
    assert_eq!(Repeat::<Semi, 0, 2>::parse("x"), Ok(("x", Repeat(vec![]))));
    assert_eq!(Repeat::<Semi, 2, 4>::parse(";x"), Err(ParseError { input: "x" }));
    assert_eq!(Repeat::<Semi, 2, 4>::parse(";;x"), Ok(("x", Repeat(vec![Semi, Semi]))));
    assert_eq!(Repeat::<Semi, 0, 0>::parse(";"), Ok((";", Repeat(vec![]))));
    assert_eq!(Repeat::<Semi, 1, 0>::parse(";"), Err(ParseError { input: ";" }));
}

#[test]
fn separated_reads_items_and_separators_in_turn() {
    assert_eq!(
        Separated::<Semi, Comma, 0, 3>::parse(";,;,;,;"),
        Ok((",;", Separated(vec![Semi, Semi, Semi], vec![Comma, Comma])))
    );
    assert_eq!(Separated::<Semi, Comma, 0, 3>::parse("x"), Ok(("x", Separated(vec![], vec![]))));
    assert_eq!(Separated::<Semi, Comma, 1, 3>::parse("x"), Err(ParseError { input: "x" }));
    assert_eq!(Separated::<Semi, Comma, 2, 3>::parse(";x"), Err(ParseError { input: "x" }));
    assert_eq!(Separated::<Semi, Comma, 0, 3>::parse(";,x"), Err(ParseError { input: "x" }));
    assert_eq!(Separated::<Semi, Comma, 0, 1>::parse(";,;"), Ok((",;", Separated(vec![Semi], vec![]))));
    assert_eq!(Separated::<Semi, Comma, 0, 0>::parse(";"), Ok((";", Separated(vec![], vec![]))));
    assert_eq!(Separated::<Semi, Comma, 1, 0>::parse(";"), Err(ParseError { input: ";" }));
}

#[test]
fn an_option_matches_nothing_where_its_node_fails() {
    assert_eq!(Option::<Semi>::parse(";x"), Ok(("x", Some(Semi))));
    assert_eq!(Option::<Semi>::parse("x"), Ok(("x", None)));
}

#[test]
fn a_pair_fails_where_its_first_failing_part_does() {
    assert_eq!(<(Semi, Comma)>::parse(";,x"), Ok(("x", (Semi, Comma))));
    assert_eq!(<(Semi, Comma)>::parse("x"), Err(ParseError { input: "x" }));
    assert_eq!(<(Semi, Comma)>::parse(";x"), Err(ParseError { input: "x" }));
}

#[test]
fn a_global_declaration() {
    assert_eq!(
        GlobalDeclaration::parse("global int x = 1;"),
        Ok((
            "",
            GlobalDeclaration(
                bare(KwGlobal),
                Some(spaced(TypeFollowedById(Type(name("int"))))),
                AssignmentList(Separated(
                    vec![spaced(Assignment(name("x"), Some((spaced(Equal), spaced(decimal("1"))))))],
                    vec![],
                )),
                Some(bare(Semi)),
            )
        ))
    );
    assert_eq!(
        GlobalDeclaration::parse("global y"),
        Ok((
            "",
            GlobalDeclaration(
                bare(KwGlobal),
                None,
                AssignmentList(Separated(vec![spaced(Assignment(name("y"), None))], vec![])),
                None,
            )
        ))
    );
    assert_eq!(GlobalDeclaration::parse("global;"), Err(ParseError { input: ";" }));
    assert_eq!(GlobalDeclaration::parse("globals x"), Err(ParseError { input: "s x" }));
}

#[test]
fn a_variable_declaration() {
    assert_eq!(
        VariableDeclaration::parse("var a, b;"),
        Ok((
            "",
            VariableDeclaration::UnspecifiedType(
                KwVar,
                AssignmentList(Separated(
                    vec![spaced(Assignment(name("a"), None)), spaced(Assignment(name("b"), None))],
                    vec![bare(Comma)],
                )),
                Some(bare(Semi)),
            )
        ))
    );
    assert_eq!(
        VariableDeclaration::parse("string s = 'x'"),
        Ok((
            "",
            VariableDeclaration::WithType(
                TypeFollowedById(Type(name("string"))),
                AssignmentList(Separated(
                    vec![spaced(Assignment(
                        name("s"),
                        Some((
                            spaced(Equal),
                            spaced(Expression::StringLiteral(StringLiteral {
                                quote: Quote::Single(SQuote),
                                content: "x".to_string(),
                            })),
                        )),
                    ))],
                    vec![],
                )),
                None,
            )
        ))
    );
    assert_eq!(VariableDeclaration::parse("x = 1"), Err(ParseError { input: "x = 1" }));
}

#[test]
fn an_inclusion() {
    let (rest, inclusion) = IncludeStatement::parse("include ( 'lib/a.leek' ) ; x").unwrap();
    assert_eq!(rest, " x");
    assert_eq!(inclusion.path.node.content, "lib/a.leek");
    assert_eq!(inclusion.path.node.quote, Quote::Single(SQuote));
    assert_eq!(inclusion.semi, Some(spaced(Semi)));
    assert_eq!(IncludeStatement::parse("include(\"a\")").unwrap().1.semi, None);
    assert_eq!(IncludeStatement::parse("include('a'"), Err(ParseError { input: "" }));
    assert_eq!(IncludeStatement::parse("include(a)"), Err(ParseError { input: "a)" }));
    assert_eq!(IncludeStatement::parse("included('a')"), Err(ParseError { input: "d('a')" }));
}

#[test]
fn an_if_statement_with_its_else() {
    let (rest, node) = IfStatement::parse("if (a) var b = 1; else if (c) d").unwrap();
    assert_eq!(rest, "");
    assert_eq!(node.condition, bare(Expression::Identifier(name("a"))));
    assert!(matches!(*node.body.node, Statements::VariableDeclaration(_)));
    let clause = node.else_clause.expect("there is an else clause");
    assert_eq!(clause.trivias, vec![Trivia::Whitespace(Whitespace(" ".to_string()))]);
    assert_eq!(clause.node.else_kw.trivias, vec![]);
    match *clause.node.body.node {
        Statements::IfStatement(inner) => {
            assert_eq!(inner.condition, bare(Expression::Identifier(name("c"))));
            assert_eq!(*inner.body.node, Statements::Expression(Expression::Identifier(name("d"))));
            assert_eq!(inner.else_clause, None);
        },
        other => panic!("an if statement was expected, not {:?}", other),
    }
}

#[test]
fn an_else_belongs_to_the_if_in_front_of_it() {
    let (rest, node) = IfStatement::parse("if (x) y else z").unwrap();
    assert_eq!(rest, "");
    assert_eq!(node.condition, bare(Expression::Identifier(name("x"))));
    assert_eq!(node.body, spaced(Box::new(Statements::Expression(Expression::Identifier(name("y"))))));
    let clause = node.else_clause.expect("there is an else clause");
    assert_eq!(clause.trivias, vec![Trivia::Whitespace(Whitespace(" ".to_string()))]);
    assert_eq!(clause.node.else_kw, bare(KwElse));
    assert_eq!(
        clause.node.body,
        spaced(Box::new(Statements::Expression(Expression::Identifier(name("z")))))
    );
}

#[test]
fn an_else_belongs_to_the_nearest_if() {
    let (rest, outer) = IfStatement::parse("if (a) if (b) c else d").unwrap();
    assert_eq!(rest, "");
    assert_eq!(outer.else_clause, None);
    match *outer.body.node {
        Statements::IfStatement(inner) => {
            assert_eq!(*inner.body.node, Statements::Expression(Expression::Identifier(name("c"))));
            let clause = inner.else_clause.expect("the inner if has the else clause");
            assert_eq!(
                *clause.node.body.node,
                Statements::Expression(Expression::Identifier(name("d")))
            );
        },
        other => panic!("an if statement was expected, not {:?}", other),
    }
}

#[test]
fn a_keyword_is_no_type_and_no_name() {
    assert_eq!(VariableDeclaration::parse("if x"), Err(ParseError { input: "if x" }));
    assert_eq!(VariableDeclaration::parse("int else"), Err(ParseError { input: "int else" }));
    assert_eq!(VariableDeclaration::parse("var if"), Err(ParseError { input: " if" }));
    assert_eq!(GlobalDeclaration::parse("global include"), Err(ParseError { input: " include" }));
    assert!(File::parse("else").is_err());
    assert!(File::parse("if").is_err());
    assert!(File::parse("include").is_err());
    assert_eq!(File::parse("if (a) b; else c").unwrap_err(), ParseError { input: "else c" });
}

#[test]
fn a_list_fails_on_a_node_that_consumes_nothing() {
    assert_eq!(Vec::<Semi>::parse(";;x"), Ok(("x", vec![Semi, Semi])));
    assert_eq!(Vec::<Semi>::parse(""), Ok(("", vec![])));
    assert_eq!(Vec::<Option<Semi>>::parse("x"), Err(ParseError { input: "x" }));
    assert_eq!(Vec::<Option<Semi>>::parse(";;x"), Err(ParseError { input: "x" }));
    assert_eq!(Vec::<Option<Semi>>::parse(";é"), Err(ParseError { input: "é" }));
    assert_eq!(Vec::<Vec<Semi>>::parse(";;"), Err(ParseError { input: "" }));
    assert_eq!(Vec::<WithTrivia<Semi>>::parse(" ; ;é"), Ok(("é", vec![spaced(Semi), spaced(Semi)])));
}

#[test]
fn an_if_statement_needs_a_body() {
    assert_eq!(IfStatement::parse("if (a)"), Err(ParseError { input: "" }));
    assert_eq!(IfStatement::parse("if a"), Err(ParseError { input: "a" }));
    assert_eq!(IfStatement::parse("if (a) global b"), Err(ParseError { input: "global b" }));
    assert_eq!(ElseClause::parse("else ;").unwrap().0, "");
    assert_eq!(ElseClause::parse("else"), Err(ParseError { input: "" }));
}

#[test]
fn the_kinds_of_statement_in_their_order() {
    assert!(matches!(Statements::parse(Scope::File, "global a").unwrap().1, Statements::GlobalDeclaration(_)));
    assert!(matches!(Statements::parse(Scope::File, "include('a')").unwrap().1, Statements::IncludeStatement(_)));
    assert!(matches!(Statements::parse(Scope::File, "var a").unwrap().1, Statements::VariableDeclaration(_)));
    assert!(matches!(Statements::parse(Scope::File, "int a").unwrap().1, Statements::VariableDeclaration(_)));
    assert!(matches!(Statements::parse(Scope::File, "if (a) b").unwrap().1, Statements::IfStatement(_)));
    assert!(matches!(Statements::parse(Scope::File, "a").unwrap().1, Statements::Expression(_)));
    assert!(matches!(Statements::parse(Scope::File, "12").unwrap().1, Statements::Expression(_)));
    assert!(matches!(Statements::parse(Scope::File, " ;").unwrap().1, Statements::SemiColon(_)));
    assert_eq!(Statements::parse(Scope::File, "@"), Err(ParseError { input: "@" }));
    assert_eq!(Statements::parse(Scope::File, ""), Err(ParseError { input: "" }));
}

#[test]
fn a_nested_scope_holds_no_global_declaration_and_no_inclusion() {
    assert_eq!(Statements::parse(Scope::Nested, "global a"), Err(ParseError { input: "global a" }));
    assert_eq!(
        Statements::parse(Scope::Nested, "include('a')"),
        Err(ParseError { input: "include('a')" })
    );
    assert_eq!(IfStatement::parse("if (a) global b;"), Err(ParseError { input: "global b;" }));
    assert_eq!(IfStatement::parse("if (a) include('b');"), Err(ParseError { input: "include('b');" }));
    assert!(File::parse("if (a) if (b) if (c) global d;").is_err());
    assert_eq!(
        File::parse("var a; if (x) global y;").unwrap_err(),
        ParseError { input: "if (x) global y;" }
    );
    assert!(File::parse("if (a) if (b) if (c) var d;").is_ok());
    assert!(File::parse("if (a) include('x');").is_err());
}

#[test]
fn a_file_is_statements_up_to_the_end() {
    let (rest, file) = File::parse("global a;\nvar b = 1\n\n").unwrap();
    assert_eq!(rest, "");
    assert_eq!(file.statements.len(), 2);
    assert_eq!(file.statements[0].trivias, vec![]);
    assert_eq!(file.statements[1].trivias, vec![Trivia::Whitespace(Whitespace("\n".to_string()))]);
    assert_eq!(file.eof.trivias, vec![Trivia::Whitespace(Whitespace("\n\n".to_string()))]);
    let (_, empty) = File::parse("").unwrap();
    assert_eq!(empty.statements.len(), 0);
    assert_eq!(empty.eof.trivias, vec![]);
}

#[test]
fn a_syntax_error_is_at_the_first_character_that_is_not_consumed() {
    assert_eq!(File::parse("var a = 1;\n  ?").unwrap_err(), ParseError { input: "?" });
    assert_eq!(File::parse("var a,").unwrap_err(), ParseError { input: "var a," });
    assert_eq!(File::parse("1 2 +").unwrap_err(), ParseError { input: "+" });
}

#[test]
fn a_node_with_what_stands_in_front_of_it_or_behind_it() {
    assert_eq!(Preceded::<Comma, Semi>::parse(",;x"), Ok(("x", Preceded(Comma, Semi))));
    assert_eq!(Preceded::<Comma, Semi>::parse(";"), Err(ParseError { input: ";" }));
    assert_eq!(Terminated::<Semi, Comma>::parse(";,"), Ok(("", Terminated(Semi, Comma))));
    assert_eq!(Terminated::<Semi, Comma>::parse(";;"), Err(ParseError { input: ";" }));
    assert_eq!(Option::<Box<Semi>>::parse(";"), Ok(("", Some(Box::new(Semi)))));
    assert_eq!(Vec::<Semi>::parse(";;,"), Ok((",", vec![Semi, Semi])));
}
