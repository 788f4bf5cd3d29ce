use leek_ast::ast::expressions::Expression;
use leek_ast::ast::structure::eof::EndOfFile;
use leek_ast::ast::structure::type_struct::{Type, TypeFollowedById};
use leek_ast::ast::terminal::identifier::Identifier;
use leek_ast::ast::terminal::keyword::{reserved, Keywords, KwElse, KwGlobal, KwIf, KwInclude, KwVar};
use leek_ast::ast::terminal::number_literal::{NumberKind, NumberLiteral};
use leek_ast::ast::terminal::string_literal::{Quote, StringLiteral};
use leek_ast::ast::terminal::symbol::{Comma, DQuote, Equal, LParen, RParen, Semi, SQuote};
use leek_ast::ast::trivia::comment::Comment;
use leek_ast::ast::trivia::trivia::Trivia;
use leek_ast::ast::trivia::whitespace::Whitespace;
use leek_ast::ast::trivia::with_trivia::WithTrivia;
use leek_ast::parser::{ParseError, Parser};
use leek_ast::parser::scan::CharClass;

fn number(kind: NumberKind, content: &str) -> NumberLiteral {
    NumberLiteral { kind, content: content.to_string() }
}

#[test]
fn symbols_match_their_text_only() {
    assert_eq!(Semi::parse(";x"), Ok(("x", Semi)));
    assert_eq!(Comma::parse(", b"), Ok((" b", Comma)));
    assert_eq!(Equal::parse("=1"), Ok(("1", Equal)));
    assert_eq!(LParen::parse("(a)"), Ok(("a)", LParen)));
    assert_eq!(RParen::parse(")"), Ok(("", RParen)));
    assert_eq!(SQuote::parse("'a'"), Ok(("a'", SQuote)));
    assert_eq!(DQuote::parse("\"a\""), Ok(("a\"", DQuote)));
    assert_eq!(Semi::parse(" ;"), Err(ParseError { input: " ;" }));
    assert_eq!(Semi::parse(""), Err(ParseError { input: "" }));
}

#[test]
fn keywords_do_not_run_on_into_words() {
    assert_eq!(KwGlobal::parse("global x"), Ok((" x", KwGlobal)));
    assert_eq!(KwGlobal::parse("global"), Ok(("", KwGlobal)));
    assert_eq!(KwGlobal::parse("globalx"), Err(ParseError { input: "x" }));
    assert_eq!(KwGlobal::parse("global_"), Err(ParseError { input: "_" }));
    assert_eq!(KwGlobal::parse("global1"), Err(ParseError { input: "1" }));
    assert_eq!(KwGlobal::parse("glob"), Err(ParseError { input: "glob" }));
    assert_eq!(KwVar::parse("var(x)"), Ok(("(x)", KwVar)));
    assert_eq!(KwInclude::parse("include('a')"), Ok(("('a')", KwInclude)));
    assert_eq!(KwIf::parse("if(a)"), Ok(("(a)", KwIf)));
    assert_eq!(KwIf::parse("iff"), Err(ParseError { input: "f" }));
    assert_eq!(KwElse::parse("else;"), Ok((";", KwElse)));
}

#[test]
fn the_keywords_that_open_a_declaration() {
    assert_eq!(Keywords::parse("global x"), Ok((" x", Keywords::Global(KwGlobal))));
    assert_eq!(Keywords::parse("var x"), Ok((" x", Keywords::Var(KwVar))));
    assert_eq!(Keywords::parse("variable"), Err(ParseError { input: "iable" }));
    assert!(Keywords::parse("include").is_err());
}

#[test]
fn no_reserved_word_is_an_identifier() {
    for word in ["global", "var", "include", "if", "else"] {
        assert!(reserved(word));
        assert_eq!(Identifier::parse(word), Err(ParseError { input: word }));
        assert_eq!(Expression::parse(word), Err(ParseError { input: word }));
    }
    assert!(reserved("if(x)"));
    assert!(reserved("else;"));
    assert!(reserved("include ('a')"));
    assert_eq!(Identifier::parse("if (x)"), Err(ParseError { input: "if (x)" }));
    assert_eq!(Identifier::parse("else z"), Err(ParseError { input: "else z" }));
}

#[test]
fn a_word_that_only_begins_like_a_reserved_word_is_an_identifier() {
    for word in ["globally", "variable", "included", "iff", "if_", "elsewhere", "else1", "Global", "IF"] {
        assert!(!reserved(word));
        assert_eq!(Identifier::parse(word), Ok(("", Identifier(word.to_string()))));
    }
    assert!(!reserved(""));
    assert!(!reserved(" if"));
}

#[test]
fn identifiers_are_words_that_do_not_begin_with_a_digit() {
    assert_eq!(Identifier::parse("abc def"), Ok((" def", Identifier("abc".to_string()))));
    assert_eq!(Identifier::parse("_a1_b2-c"), Ok(("-c", Identifier("_a1_b2".to_string()))));
    assert_eq!(Identifier::parse("a"), Ok(("", Identifier("a".to_string()))));
    assert_eq!(Identifier::parse("__"), Ok(("", Identifier("__".to_string()))));
    assert_eq!(Identifier::parse("x9"), Ok(("", Identifier("x9".to_string()))));
    assert_eq!(Identifier::parse("9x"), Err(ParseError { input: "9x" }));
    assert_eq!(Identifier::parse(""), Err(ParseError { input: "" }));
    assert_eq!(Identifier::parse(" a"), Err(ParseError { input: " a" }));
    assert_eq!(Identifier::parse("été"), Err(ParseError { input: "été" }));
    assert_eq!(Identifier::parse("aé"), Ok(("é", Identifier("a".to_string()))));
}

#[test]
fn whitespace_is_spaces_tabs_and_line_ends() {
    assert_eq!(Whitespace::parse(" \t\r\n x "), Ok(("x ", Whitespace(" \t\r\n ".to_string()))));
    assert_eq!(Whitespace::parse("x"), Err(ParseError { input: "x" }));
    assert_eq!(Whitespace::parse(""), Err(ParseError { input: "" }));
}

#[test]
fn comments_hold_what_is_between_their_delimiters() {
    assert_eq!(
        Comment::parse("// to the end\nnext"),
        Ok(("next", Comment::SingleLine(" to the end".to_string(), true)))
    );
    assert_eq!(
        Comment::parse("/* a * b */ c"),
        Ok((" c", Comment::MultiLine(" a * b ".to_string())))
    );
    assert_eq!(Comment::parse("/**/"), Ok(("", Comment::MultiLine(String::new()))));
    assert_eq!(Comment::parse("//\n"), Ok(("", Comment::SingleLine(String::new(), true))));
    assert_eq!(Comment::parse("/* open"), Err(ParseError { input: " open" }));
    assert_eq!(Comment::parse("// no end of line"), Err(ParseError { input: "// no end of line" }));
    assert_eq!(Comment::parse("x"), Err(ParseError { input: "x" }));
}

#[test]
fn trivia_is_whitespace_or_a_comment() {
    assert_eq!(
        Trivia::parse("  /* c */"),
        Ok(("/* c */", Trivia::Whitespace(Whitespace("  ".to_string()))))
    );
    assert_eq!(
        Trivia::parse("/* c */  "),
        Ok(("  ", Trivia::Comment(Comment::MultiLine(" c ".to_string()))))
    );
    assert!(Trivia::parse("a").is_err());
}

#[test]
fn trivia_is_attached_in_front_of_a_node() {
    let (rest, node) = WithTrivia::<Semi>::parse(" /* a */\n; b").unwrap();
    assert_eq!(rest, " b");
    assert_eq!(
        node.trivias,
        vec![
            Trivia::Whitespace(Whitespace(" ".to_string())),
            Trivia::Comment(Comment::MultiLine(" a ".to_string())),
            Trivia::Whitespace(Whitespace("\n".to_string())),
        ]
    );
    assert_eq!(node.node, Semi);
    assert_eq!(WithTrivia::<Semi>::parse(";"), Ok(("", WithTrivia { trivias: vec![], node: Semi })));
    assert_eq!(WithTrivia::<Semi>::parse("  x"), Err(ParseError { input: "x" }));
}

#[test]
fn hexadecimal_octal_and_binary_literals() {
    assert_eq!(NumberLiteral::parse("0xFF"), Ok(("", number(NumberKind::Hex, "0xFF"))));
    assert_eq!(NumberLiteral::parse("0Xab_cd;"), Ok((";", number(NumberKind::Hex, "0Xab_cd"))));
    assert_eq!(NumberLiteral::parse("0xfg"), Ok(("g", number(NumberKind::Hex, "0xf"))));
    assert_eq!(NumberLiteral::parse("0o755"), Ok(("", number(NumberKind::Octal, "0o755"))));
    assert_eq!(NumberLiteral::parse("0O18"), Ok(("8", number(NumberKind::Octal, "0O1"))));
    assert_eq!(NumberLiteral::parse("0b1010"), Ok(("", number(NumberKind::Binary, "0b1010"))));
    assert_eq!(NumberLiteral::parse("0B1_02"), Ok(("2", number(NumberKind::Binary, "0B1_0"))));
    assert_eq!(NumberLiteral::parse("0x"), Ok(("x", number(NumberKind::Decimal, "0"))));
}

#[test]
fn float_literals() {
    assert_eq!(NumberLiteral::parse("1e10"), Ok(("", number(NumberKind::Float, "1e10"))));
    assert_eq!(NumberLiteral::parse("1E+5"), Ok(("", number(NumberKind::Float, "1E+5"))));
    assert_eq!(NumberLiteral::parse("12.5e-3x"), Ok(("x", number(NumberKind::Float, "12.5e-3"))));
    assert_eq!(NumberLiteral::parse("1.5"), Ok(("", number(NumberKind::Float, "1.5"))));
    assert_eq!(NumberLiteral::parse("1.5e"), Ok(("e", number(NumberKind::Float, "1.5"))));
    assert_eq!(NumberLiteral::parse(".5"), Ok(("", number(NumberKind::Float, ".5"))));
    assert_eq!(NumberLiteral::parse("5."), Ok(("", number(NumberKind::Float, "5."))));
    assert_eq!(NumberLiteral::parse("5.x"), Ok(("x", number(NumberKind::Float, "5."))));
    assert_eq!(NumberLiteral::parse("1_000.000_1"), Ok(("", number(NumberKind::Float, "1_000.000_1"))));
}

#[test]
fn decimal_literals() {
    assert_eq!(NumberLiteral::parse("10"), Ok(("", number(NumberKind::Decimal, "10"))));
    assert_eq!(NumberLiteral::parse("1_234_567 "), Ok((" ", number(NumberKind::Decimal, "1_234_567"))));
    assert_eq!(NumberLiteral::parse("1e"), Ok(("e", number(NumberKind::Decimal, "1"))));
    assert_eq!(NumberLiteral::parse("x"), Err(ParseError { input: "x" }));
    assert_eq!(NumberLiteral::parse("."), Err(ParseError { input: "." }));
    assert_eq!(NumberLiteral::parse(""), Err(ParseError { input: "" }));
}

#[test]
fn string_literals_close_with_the_quote_they_open_with() {
    assert_eq!(
        StringLiteral::parse("'a \"b\" c' d"),
        Ok((" d", StringLiteral { quote: Quote::Single(SQuote), content: "a \"b\" c".to_string() }))
    );
    assert_eq!(
        StringLiteral::parse("\"it's\""),
        Ok(("", StringLiteral { quote: Quote::Double(DQuote), content: "it's".to_string() }))
    );
    assert_eq!(
        StringLiteral::parse("''"),
        Ok(("", StringLiteral { quote: Quote::Single(SQuote), content: String::new() }))
    );
    assert_eq!(StringLiteral::parse("'open"), Err(ParseError { input: "'open" }));
    assert_eq!(StringLiteral::parse("\"open"), Err(ParseError { input: "open" }));
    assert_eq!(StringLiteral::parse("'a\""), Err(ParseError { input: "'a\"" }));
    assert_eq!(StringLiteral::parse("a"), Err(ParseError { input: "a" }));
}

#[test]
fn quotes() {
    assert_eq!(Quote::parse("'"), Ok(("", Quote::Single(SQuote))));
    assert_eq!(Quote::parse("\"x"), Ok(("x", Quote::Double(DQuote))));
    assert!(Quote::parse("`").is_err());
}

#[test]
fn expressions_are_names_and_literals() {
    assert_eq!(Expression::parse("a1 "), Ok((" ", Expression::Identifier(Identifier("a1".to_string())))));
    assert_eq!(
        Expression::parse("'s'"),
        Ok(("", Expression::StringLiteral(StringLiteral { quote: Quote::Single(SQuote), content: "s".to_string() })))
    );
    assert_eq!(Expression::parse("0b1"), Ok(("", Expression::NumberLiteral(number(NumberKind::Binary, "0b1")))));
    assert_eq!(Expression::parse("_"), Ok(("", Expression::Identifier(Identifier("_".to_string())))));
    assert_eq!(Expression::parse("+1"), Err(ParseError { input: "+1" }));
    assert_eq!(Expression::parse("global"), Err(ParseError { input: "global" }));
}

#[test]
fn a_type_is_a_name_that_a_name_follows() {
    assert_eq!(Type::parse("int x"), Ok((" x", Type(Identifier("int".to_string())))));
    assert_eq!(
        TypeFollowedById::parse("int x"),
        Ok((" x", TypeFollowedById(Type(Identifier("int".to_string())))))
    );
    assert_eq!(
        TypeFollowedById::parse("int /* c */ x"),
        Ok((" /* c */ x", TypeFollowedById(Type(Identifier("int".to_string())))))
    );
    assert_eq!(TypeFollowedById::parse("int = 1"), Err(ParseError { input: "= 1" }));
    assert_eq!(TypeFollowedById::parse("int"), Err(ParseError { input: "" }));
    assert_eq!(TypeFollowedById::parse("int var"), Err(ParseError { input: "var" }));
}

#[test]
fn the_end_of_the_input() {
    assert_eq!(EndOfFile::parse(""), Ok(("", EndOfFile)));
    assert_eq!(EndOfFile::parse(" "), Err(ParseError { input: " " }));
    assert_eq!(
        WithTrivia::<EndOfFile>::parse(" \n"),
        Ok(("", WithTrivia { trivias: vec![Trivia::Whitespace(Whitespace(" \n".to_string()))], node: EndOfFile }))
    );
}

#[test]
fn character_classes() {
    for c in [' ', '\t', '\r', '\n'] {
        assert!(CharClass::Space.admits(c));
    }
    assert!(!CharClass::Space.admits('a'));
    assert!(!CharClass::Space.admits('\u{a0}'));
    assert!(CharClass::Alpha.admits('a') && CharClass::Alpha.admits('Z'));
    assert!(!CharClass::Alpha.admits('1') && !CharClass::Alpha.admits('_') && !CharClass::Alpha.admits('é'));
    assert!(CharClass::Alphanumeric.admits('0') && CharClass::Alphanumeric.admits('q'));
    assert!(!CharClass::Alphanumeric.admits('_'));
    assert!(CharClass::Word.admits('_') && CharClass::Word.admits('7') && CharClass::Word.admits('G'));
    assert!(!CharClass::Word.admits('-'));
    assert!(CharClass::Hex.admits('f') && CharClass::Hex.admits('A') && CharClass::Hex.admits('9') && CharClass::Hex.admits('_'));
    assert!(!CharClass::Hex.admits('g') && !CharClass::Hex.admits('G'));
    assert!(CharClass::Octal.admits('7') && CharClass::Octal.admits('_') && !CharClass::Octal.admits('8'));
    assert!(CharClass::Binary.admits('0') && CharClass::Binary.admits('1') && !CharClass::Binary.admits('2'));
    assert!(CharClass::Decimal.admits('9') && CharClass::Decimal.admits('_') && !CharClass::Decimal.admits('a'));
}

#[test]
fn the_position_of_a_failure() {
    let source = "'é';\n@ 1";
    let error = leek_ast::ast::structure::file::File::parse(source).unwrap_err();
    assert_eq!(error, ParseError { input: "@ 1" });
    assert_eq!(error.position(source), 5);
    assert_eq!(ParseError { input: "" }.position("abc"), 3);
    assert_eq!(ParseError { input: "abc" }.position("abc"), 0);
    assert_eq!(ParseError { input: "longer than the source" }.position("abc"), 0);
}
