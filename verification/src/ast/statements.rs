//! Statements, and the grammar that says which of them may stand where.
//!
//! A statement may hold statements (the bodies of an `if`), and, once
//! inclusions are resolved, whole files. What is defined here by recursion
//! over that nesting is the model of a statement, its text and its grammar.

use vstd::prelude::*;
use crate::ast::expressions::{Expression, ExpressionView};
use crate::ast::statements::global_declaration::{GlobalDeclaration, GlobalDeclarationView};
use crate::ast::statements::if_statement::{
    ElseClause,
    ElseClauseView,
    IfStatement,
    IfStatementView,
};
use crate::ast::statements::include_statement::{IncludeStatement, IncludeStatementView};
use crate::ast::statements::variable_declaration::{VariableDeclaration, VariableDeclarationView};
use crate::ast::structure::eof::EndOfFile;
use crate::ast::structure::file::{File, FileView};
use crate::ast::terminal::keyword::{KwElse, KwIf};
use crate::ast::terminal::symbol::{LParen, RParen, Semi};
use crate::ast::trivia::trivia::{Trivia, TriviaView};
use crate::ast::trivia::with_trivia::{WithTrivia, WithTriviaView};
use crate::ast::utils::repeat::Repeat0;
use crate::parser::{lemma_failure_behind, outcome, Parsed, ParseError, Parser, SourceText};
use crate::visitor::{
    accepted_all,
    accepted_mut_all,
    Node,
    NodeView,
    OwnedNode,
    Visitable,
    VisitableMut,
    Visitor,
    VisitorMut,
};

pub mod assignment;
pub mod global_declaration;
pub mod if_statement;
pub mod include_statement;
pub mod variable_declaration;

verus! {

/// Where a statement stands: directly in a file, or inside another
/// statement. Global declarations and inclusions are statements of a file
/// only.
#[derive(Debug, Clone, Copy, PartialEq, Eq)]
pub enum Scope {
    File,
    Nested,
}

/// A statement. `IncludedFile` and `EmptyStatement` are never read from
/// source text: they are what resolving an inclusion puts in its place.
#[derive(Debug, PartialEq, Eq)]
pub enum Statements {
    GlobalDeclaration(GlobalDeclaration),
    IncludeStatement(IncludeStatement),
    VariableDeclaration(VariableDeclaration),
    IfStatement(IfStatement),
    SemiColon(WithTrivia<Semi>),
    Expression(Expression),
    IncludedFile(Box<File>),
    EmptyStatement(Vec<Trivia>),
}

/// The model of `Statements`.
pub enum StatementsView {
    GlobalDeclaration(GlobalDeclarationView),
    IncludeStatement(IncludeStatementView),
    VariableDeclaration(VariableDeclarationView),
    IfStatement(Box<IfStatementView>),
    SemiColon(WithTriviaView<Semi>),
    Expression(ExpressionView),
    IncludedFile(Box<FileView>),
    EmptyStatement(Seq<TriviaView>),
}

/// The model of a statement.
pub open spec fn statement_model(s: Statements) -> StatementsView
    decreases s,
{
    match s {
        Statements::GlobalDeclaration(node) => StatementsView::GlobalDeclaration(node.deep_view()),
        Statements::IncludeStatement(node) => StatementsView::IncludeStatement(node.deep_view()),
        Statements::VariableDeclaration(node) => StatementsView::VariableDeclaration(
            node.deep_view(),
        ),
        Statements::IfStatement(node) => StatementsView::IfStatement(Box::new(if_model(node))),
        Statements::SemiColon(node) => StatementsView::SemiColon(node.deep_view()),
        Statements::Expression(node) => StatementsView::Expression(node.deep_view()),
        Statements::IncludedFile(file) => StatementsView::IncludedFile(Box::new(file_model(*file))),
        Statements::EmptyStatement(trivias) => StatementsView::EmptyStatement(trivias.deep_view()),
    }
}

/// The model of a statement that is the body of another.
pub open spec fn body_model(b: WithTrivia<Box<Statements>>) -> WithTriviaView<StatementsView>
    decreases b,
{
    WithTriviaView { trivias: b.trivias.deep_view(), node: statement_model(*b.node) }
}

/// The model of an `if` statement.
pub open spec fn if_model(s: IfStatement) -> IfStatementView
    decreases s,
{
    IfStatementView {
        if_kw: s.if_kw.deep_view(),
        lparen: s.lparen.deep_view(),
        condition: s.condition.deep_view(),
        rparen: s.rparen.deep_view(),
        body: body_model(s.body),
        else_clause: match s.else_clause {
            Some(clause) => Some(
                WithTriviaView {
                    trivias: clause.trivias.deep_view(),
                    node: else_model(clause.node),
                },
            ),
            None => None,
        },
    }
}

/// The model of an `else` clause.
pub open spec fn else_model(e: ElseClause) -> ElseClauseView
    decreases e,
{
    ElseClauseView { else_kw: e.else_kw.deep_view(), body: body_model(e.body) }
}

/// The model of a file.
pub open spec fn file_model(f: File) -> FileView
    decreases f,
{
    FileView {
        statements: Seq::new(
            f.statements.len() as nat,
            |i: int|
                if 0 <= i < f.statements.len() {
                    WithTriviaView {
                        trivias: f.statements[i].trivias.deep_view(),
                        node: statement_model(f.statements[i].node),
                    }
                } else {
                    arbitrary()
                },
        ),
        eof: f.eof.deep_view(),
    }
}

impl DeepView for Statements {
    type V = StatementsView;

    open spec fn deep_view(&self) -> StatementsView {
        statement_model(*self)
    }
}

/// The text of a statement.
pub open spec fn statement_text(s: StatementsView) -> Seq<char>
    decreases s,
{
    match s {
        StatementsView::GlobalDeclaration(node) => node.text(),
        StatementsView::IncludeStatement(node) => node.text(),
        StatementsView::VariableDeclaration(node) => node.text(),
        StatementsView::IfStatement(node) => if_text(*node),
        StatementsView::SemiColon(node) => node.text(),
        StatementsView::Expression(node) => node.text(),
        StatementsView::IncludedFile(file) => file_text(*file),
        StatementsView::EmptyStatement(trivias) => trivias.text(),
    }
}

/// The text of a statement with the trivia in front of it.
pub open spec fn decorated_text(b: WithTriviaView<StatementsView>) -> Seq<char>
    decreases b,
{
    b.trivias.text() + statement_text(b.node)
}

/// The text of an `if` statement.
pub open spec fn if_text(s: IfStatementView) -> Seq<char>
    decreases s,
{
    s.if_kw.text() + s.lparen.text() + s.condition.text() + s.rparen.text() + decorated_text(
        s.body,
    ) + match s.else_clause {
        Some(clause) => clause.trivias.text() + else_text(clause.node),
        None => Seq::empty(),
    }
}

/// The text of an `else` clause.
pub open spec fn else_text(e: ElseClauseView) -> Seq<char>
    decreases e,
{
    e.else_kw.text() + decorated_text(e.body)
}

/// The text of statements in a row.
pub open spec fn statements_text(statements: Seq<WithTriviaView<StatementsView>>) -> Seq<char>
    decreases statements,
{
    if statements.len() == 0 {
        Seq::empty()
    } else {
        decorated_text(statements[0]) + statements_text(statements.skip(1))
    }
}

/// The text of a file.
pub open spec fn file_text(f: FileView) -> Seq<char>
    decreases f,
{
    statements_text(f.statements) + f.eof.text()
}

impl SourceText for StatementsView {
    open spec fn text(self) -> Seq<char> {
        statement_text(self)
    }
}

/// The head of an `if` statement: everything in front of its body.
pub type IfHead = (
    WithTrivia<KwIf>,
    (WithTrivia<LParen>, (WithTrivia<Expression>, WithTrivia<RParen>)),
);

/// What a rule that only the scope of a file has gives in the given scope:
/// in any other it fails, where it stands, without being tried.
pub open spec fn file_scope_only<V>(scope: Scope, input: Seq<char>, parsed: Parsed<V>) -> Parsed<
    V,
> {
    match scope {
        Scope::File => parsed,
        Scope::Nested => Parsed::Fail { at: input },
    }
}

/// The grammar of a statement in the given scope. The kinds are tried in the
/// order global declaration, inclusion, variable declaration, `if`,
/// expression, `;`, and the first that matches is taken; the first two are
/// rules of the scope of a file only.
pub open spec fn spec_parse_statement(scope: Scope, input: Seq<char>) -> Parsed<StatementsView>
    decreases input.len(), 3nat,
{
    if let Parsed::Match { value, rest } = file_scope_only(
        scope,
        input,
        GlobalDeclaration::spec_parse(input),
    ) {
        Parsed::Match { value: StatementsView::GlobalDeclaration(value), rest }
    } else if let Parsed::Match { value, rest } = file_scope_only(
        scope,
        input,
        IncludeStatement::spec_parse(input),
    ) {
        Parsed::Match { value: StatementsView::IncludeStatement(value), rest }
    } else if let Parsed::Match { value, rest } = VariableDeclaration::spec_parse(input) {
        Parsed::Match { value: StatementsView::VariableDeclaration(value), rest }
    } else if let Parsed::Match { value, rest } = spec_parse_if(input) {
        Parsed::Match { value: StatementsView::IfStatement(Box::new(value)), rest }
    } else if let Parsed::Match { value, rest } = Expression::spec_parse(input) {
        Parsed::Match { value: StatementsView::Expression(value), rest }
    } else {
        match WithTrivia::<Semi>::spec_parse(input) {
            Parsed::Match { value, rest } => Parsed::Match {
                value: StatementsView::SemiColon(value),
                rest,
            },
            Parsed::Fail { at } => Parsed::Fail { at },
        }
    }
}

/// The grammar of a statement with the trivia in front of it.
pub open spec fn spec_parse_decorated(scope: Scope, input: Seq<char>) -> Parsed<
    WithTriviaView<StatementsView>,
>
    decreases input.len(), 4nat,
{
    match Repeat0::<Trivia>::spec_parse(input) {
        Parsed::Fail { at } => Parsed::Fail { at },
        Parsed::Match { value: trivias, rest } => {
            proof {
                Repeat0::<Trivia>::lemma_parse_text(input);
            }
            match spec_parse_statement(scope, rest) {
                Parsed::Fail { at } => Parsed::Fail { at },
                Parsed::Match { value: node, rest } => Parsed::Match {
                    value: WithTriviaView { trivias, node },
                    rest,
                },
            }
        },
    }
}

/// The grammar of an `if` statement: the head, a nested statement as the
/// body, and an `else` clause where one follows.
pub open spec fn spec_parse_if(input: Seq<char>) -> Parsed<IfStatementView>
    decreases input.len(), 2nat,
{
    match IfHead::spec_parse(input) {
        Parsed::Fail { at } => Parsed::Fail { at },
        Parsed::Match { value: (if_kw, (lparen, (condition, rparen))), rest: after_head } => {
            proof {
                IfHead::lemma_parse_text(input);
                reveal_strlit("if");
            }
            match spec_parse_decorated(Scope::Nested, after_head) {
                Parsed::Fail { at } => Parsed::Fail { at },
                Parsed::Match { value: body, rest: after_body } => {
                    let clause = spec_parse_else(after_body, after_head.len());
                    Parsed::Match {
                        value: IfStatementView {
                            if_kw,
                            lparen,
                            condition,
                            rparen,
                            body,
                            else_clause: clause.0,
                        },
                        rest: clause.1,
                    }
                },
            }
        },
    }
}

/// The `else` clause that follows a body, where there is one, and the input
/// behind it. `limit` is the length of the input that the body was read
/// from, which what the body left never exceeds.
pub open spec fn spec_parse_else(input: Seq<char>, limit: nat) -> (
    Option<WithTriviaView<ElseClauseView>>,
    Seq<char>,
)
    decreases limit, 1nat,
{
    if input.len() > limit {
        (None, input)
    } else {
        match Repeat0::<Trivia>::spec_parse(input) {
            Parsed::Fail { .. } => (None, input),
            Parsed::Match { value: trivias, rest: after_trivia } => {
                proof {
                    Repeat0::<Trivia>::lemma_parse_text(input);
                }
                match spec_parse_else_clause(after_trivia) {
                    Parsed::Fail { .. } => (None, input),
                    Parsed::Match { value: node, rest } => (
                        Some(WithTriviaView { trivias, node }),
                        rest,
                    ),
                }
            },
        }
    }
}

/// The grammar of an `else` clause: `else` and a nested statement.
pub open spec fn spec_parse_else_clause(input: Seq<char>) -> Parsed<ElseClauseView>
    decreases input.len(), 0nat,
{
    match WithTrivia::<KwElse>::spec_parse(input) {
        Parsed::Fail { at } => Parsed::Fail { at },
        Parsed::Match { value: else_kw, rest: after_else } => {
            proof {
                WithTrivia::<KwElse>::lemma_parse_text(input);
                reveal_strlit("else");
            }
            match spec_parse_decorated(Scope::Nested, after_else) {
                Parsed::Fail { at } => Parsed::Fail { at },
                Parsed::Match { value: body, rest } => Parsed::Match {
                    value: ElseClauseView { else_kw, body },
                    rest,
                },
            }
        },
    }
}

/// Whether a statement is one that source text in the given scope can hold:
/// a global declaration or an inclusion in the scope of a file only, no
/// statement that only resolving inclusions makes, and the same of the bodies
/// within it, whose scope is nested.
pub open spec fn statement_is_source(scope: Scope, s: StatementsView) -> bool
    decreases s,
{
    match s {
        StatementsView::GlobalDeclaration(_) => scope is File,
        StatementsView::IncludeStatement(_) => scope is File,
        StatementsView::VariableDeclaration(_) => true,
        StatementsView::IfStatement(node) => {
            &&& statement_is_source(Scope::Nested, node.body.node)
            &&& match node.else_clause {
                Some(clause) => statement_is_source(Scope::Nested, clause.node.body.node),
                None => true,
            }
        },
        StatementsView::SemiColon(_) => true,
        StatementsView::Expression(_) => true,
        StatementsView::IncludedFile(_) => false,
        StatementsView::EmptyStatement(_) => false,
    }
}

/// The text of an `else` clause that may be missing.
pub open spec fn else_option_text(clause: Option<WithTriviaView<ElseClauseView>>) -> Seq<char> {
    match clause {
        Some(clause) => clause.trivias.text() + else_text(clause.node),
        None => Seq::empty(),
    }
}

/// A statement that is read is the text that was consumed, and is one that
/// source text in that scope can hold.
pub proof fn lemma_statement(scope: Scope, input: Seq<char>)
    ensures
        spec_parse_statement(scope, input) matches Parsed::Match { value, rest } ==> {
            &&& input == statement_text(value) + rest
            &&& statement_is_source(scope, value)
        },
    decreases input.len(), 3nat,
{
    GlobalDeclaration::lemma_parse_text(input);
    IncludeStatement::lemma_parse_text(input);
    VariableDeclaration::lemma_parse_text(input);
    lemma_if(input);
    Expression::lemma_parse_text(input);
    WithTrivia::<Semi>::lemma_parse_text(input);
}

/// The same of a statement with the trivia in front of it.
pub proof fn lemma_decorated(scope: Scope, input: Seq<char>)
    ensures
        spec_parse_decorated(scope, input) matches Parsed::Match { value, rest } ==> {
            &&& input == decorated_text(value) + rest
            &&& statement_is_source(scope, value.node)
        },
    decreases input.len(), 4nat,
{
    Repeat0::<Trivia>::lemma_parse_text(input);
    if let Parsed::Match { value: trivias, rest: after_trivia } = Repeat0::<Trivia>::spec_parse(
        input,
    ) {
        lemma_statement(scope, after_trivia);
        if let Parsed::Match { value: node, rest } = spec_parse_statement(scope, after_trivia) {
            assert(input =~= (trivias.text() + statement_text(node)) + rest);
        }
    }
}

/// The same of an `if` statement and of its bodies.
pub proof fn lemma_if(input: Seq<char>)
    ensures
        spec_parse_if(input) matches Parsed::Match { value, rest } ==> {
            &&& input == if_text(value) + rest
            &&& statement_is_source(Scope::Nested, StatementsView::IfStatement(Box::new(value)))
        },
    decreases input.len(), 2nat,
{
    IfHead::lemma_parse_text(input);
    reveal_strlit("if");
    if let Parsed::Match { value: (if_kw, (lparen, (condition, rparen))), rest: after_head } =
        IfHead::spec_parse(input) {
        lemma_decorated(Scope::Nested, after_head);
        if let Parsed::Match { value: body, rest: after_body } = spec_parse_decorated(
            Scope::Nested,
            after_head,
        ) {
            lemma_else(after_body, after_head.len());
            let clause = spec_parse_else(after_body, after_head.len());
            assert(input =~= if_kw.text() + lparen.text() + condition.text() + rparen.text()
                + decorated_text(body) + else_option_text(clause.0) + clause.1);
        }
    }
}

/// The same of an `else` clause that may follow a body.
pub proof fn lemma_else(input: Seq<char>, limit: nat)
    ensures
        input == else_option_text(spec_parse_else(input, limit).0) + spec_parse_else(
            input,
            limit,
        ).1,
        spec_parse_else(input, limit).0 matches Some(clause) ==> statement_is_source(
            Scope::Nested,
            clause.node.body.node,
        ),
    decreases limit, 1nat,
{
    assert(input =~= Seq::<char>::empty() + input);
    if input.len() <= limit {
        Repeat0::<Trivia>::lemma_parse_text(input);
        if let Parsed::Match { value: trivias, rest: after_trivia } = Repeat0::<
            Trivia,
        >::spec_parse(input) {
            lemma_else_clause(after_trivia);
            if let Parsed::Match { value: node, rest } = spec_parse_else_clause(after_trivia) {
                assert(input =~= (trivias.text() + else_text(node)) + rest);
            }
        }
    }
}

/// The same of an `else` clause.
pub proof fn lemma_else_clause(input: Seq<char>)
    ensures
        spec_parse_else_clause(input) matches Parsed::Match { value, rest } ==> {
            &&& input == else_text(value) + rest
            &&& statement_is_source(Scope::Nested, value.body.node)
        },
    decreases input.len(), 0nat,
{
    WithTrivia::<KwElse>::lemma_parse_text(input);
    reveal_strlit("else");
    if let Parsed::Match { value: else_kw, rest: after_else } = WithTrivia::<KwElse>::spec_parse(
        input,
    ) {
        lemma_decorated(Scope::Nested, after_else);
        if let Parsed::Match { value: body, rest } = spec_parse_decorated(
            Scope::Nested,
            after_else,
        ) {
            assert(input =~= (else_kw.text() + decorated_text(body)) + rest);
        }
    }
}

impl Statements {
    /// Reads a statement of the given scope from the front of `input`.
    pub fn parse<'a>(scope: Scope, input: &'a str) -> (r: Result<
        (&'a str, Statements),
        ParseError<'a>,
    >)
        ensures
            outcome(r) == spec_parse_statement(scope, input@),
        decreases input@.len(), 3nat,
    {
        if let Scope::File = scope {
            if let Ok((rest, node)) = GlobalDeclaration::parse(input) {
                return Ok((rest, Statements::GlobalDeclaration(node)));
            }
            if let Ok((rest, node)) = IncludeStatement::parse(input) {
                return Ok((rest, Statements::IncludeStatement(node)));
            }
        }
        if let Ok((rest, node)) = VariableDeclaration::parse(input) {
            return Ok((rest, Statements::VariableDeclaration(node)));
        }
        if let Ok((rest, node)) = parse_if(input) {
            return Ok((rest, Statements::IfStatement(node)));
        }
        if let Ok((rest, node)) = Expression::parse(input) {
            return Ok((rest, Statements::Expression(node)));
        }
        match WithTrivia::<Semi>::parse(input) {
            Ok((rest, node)) => Ok((rest, Statements::SemiColon(node))),
            Err(e) => Err(e),
        }
    }
}

/// Reads a statement of the given scope with the trivia in front of it.
pub(crate) fn parse_decorated<'a>(scope: Scope, input: &'a str) -> (r: Result<
    (&'a str, WithTrivia<Statements>),
    ParseError<'a>,
>)
    ensures
        outcome(r) == spec_parse_decorated(scope, input@),
    decreases input@.len(), 4nat,
{
    match Repeat0::<Trivia>::parse(input) {
        Err(e) => Err(e),
        Ok((rest, trivias)) => {
            proof {
                Repeat0::<Trivia>::lemma_parse_text(input@);
            }
            match Statements::parse(scope, rest) {
                Err(e) => Err(e),
                Ok((rest, node)) => Ok((rest, WithTrivia { trivias: trivias.0, node })),
            }
        },
    }
}

/// Reads the body of an `if` or an `else`.
fn parse_body<'a>(input: &'a str) -> (r: Result<
    (&'a str, WithTrivia<Box<Statements>>),
    ParseError<'a>,
>)
    ensures
        outcome(r) == spec_parse_decorated(Scope::Nested, input@),
    decreases input@.len(), 5nat,
{
    match parse_decorated(Scope::Nested, input) {
        Err(e) => Err(e),
        Ok((rest, body)) => Ok(
            (rest, WithTrivia { trivias: body.trivias, node: Box::new(body.node) }),
        ),
    }
}

/// Reads an `if` statement.
pub(crate) fn parse_if<'a>(input: &'a str) -> (r: Result<(&'a str, IfStatement), ParseError<'a>>)
    ensures
        outcome(r) == spec_parse_if(input@),
    decreases input@.len(), 2nat,
{
    let (after_head, (if_kw, (lparen, (condition, rparen)))) = match IfHead::parse(input) {
        Ok(found) => found,
        Err(e) => {
            return Err(e);
        },
    };
    proof {
        IfHead::lemma_parse_text(input@);
        reveal_strlit("if");
    }
    let (after_body, body) = match parse_body(after_head) {
        Ok(found) => found,
        Err(e) => {
            return Err(e);
        },
    };
    proof {
        lemma_decorated(Scope::Nested, after_head@);
    }
    let (else_clause, rest) = parse_else(after_body);
    let ghost else_view = else_clause.deep_view();
    let node = IfStatement { if_kw, lparen, condition, rparen, body, else_clause };
    assert(spec_parse_else(after_body@, after_head@.len()) == (else_view, rest@));
    assert(if_model(node).else_clause == else_view);
    Ok((rest, node))
}

/// Reads the `else` clause that follows a body, where there is one.
fn parse_else<'a>(input: &'a str) -> (r: (Option<WithTrivia<ElseClause>>, &'a str))
    ensures
        forall|limit: nat|
            input@.len() <= limit ==> #[trigger] spec_parse_else(input@, limit) == (
                r.0.deep_view(),
                r.1@,
            ),
    decreases input@.len(), 1nat,
{
    match Repeat0::<Trivia>::parse(input) {
        Err(_) => (None, input),
        Ok((after_trivia, trivias)) => {
            proof {
                Repeat0::<Trivia>::lemma_parse_text(input@);
            }
            match parse_else_clause(after_trivia) {
                Err(_) => (None, input),
                Ok((rest, node)) => (Some(WithTrivia { trivias: trivias.0, node }), rest),
            }
        },
    }
}

/// Reads an `else` clause.
pub(crate) fn parse_else_clause<'a>(input: &'a str) -> (r: Result<
    (&'a str, ElseClause),
    ParseError<'a>,
>)
    ensures
        outcome(r) == spec_parse_else_clause(input@),
    decreases input@.len(), 0nat,
{
    let (after_else, else_kw) = match WithTrivia::<KwElse>::parse(input) {
        Ok(found) => found,
        Err(e) => {
            return Err(e);
        },
    };
    proof {
        WithTrivia::<KwElse>::lemma_parse_text(input@);
        reveal_strlit("else");
    }
    match parse_body(after_else) {
        Err(e) => Err(e),
        Ok((rest, body)) => Ok((rest, ElseClause { else_kw, body })),
    }
}

/// Where no statement is read, the failure is at a place in the input.
pub proof fn lemma_statement_failure(scope: Scope, input: Seq<char>)
    ensures
        spec_parse_statement(scope, input) matches Parsed::Fail { at } ==> at.is_suffix_of(input),
{
    WithTrivia::<Semi>::lemma_parse_failure(input);
}

/// The same of a statement with the trivia in front of it.
pub proof fn lemma_decorated_failure(scope: Scope, input: Seq<char>)
    ensures
        spec_parse_decorated(scope, input) matches Parsed::Fail { at } ==> at.is_suffix_of(input),
{
    Repeat0::<Trivia>::lemma_parse_failure(input);
    Repeat0::<Trivia>::lemma_parse_text(input);
    if let Parsed::Match { value: trivias, rest } = Repeat0::<Trivia>::spec_parse(input) {
        lemma_statement_failure(scope, rest);
        if let Parsed::Fail { at } = spec_parse_statement(scope, rest) {
            lemma_failure_behind(at, trivias.text(), rest);
        }
    }
}

/// The same of an `if` statement.
pub proof fn lemma_if_failure(input: Seq<char>)
    ensures
        spec_parse_if(input) matches Parsed::Fail { at } ==> at.is_suffix_of(input),
{
    IfHead::lemma_parse_failure(input);
    IfHead::lemma_parse_text(input);
    if let Parsed::Match { value: head, rest: after_head } = IfHead::spec_parse(input) {
        lemma_decorated_failure(Scope::Nested, after_head);
        if let Parsed::Fail { at } = spec_parse_decorated(Scope::Nested, after_head) {
            lemma_failure_behind(at, head.text(), after_head);
        }
    }
}

/// The same of an `else` clause.
pub proof fn lemma_else_clause_failure(input: Seq<char>)
    ensures
        spec_parse_else_clause(input) matches Parsed::Fail { at } ==> at.is_suffix_of(input),
{
    WithTrivia::<KwElse>::lemma_parse_failure(input);
    WithTrivia::<KwElse>::lemma_parse_text(input);
    if let Parsed::Match { value: else_kw, rest: after_else } = WithTrivia::<KwElse>::spec_parse(
        input,
    ) {
        lemma_decorated_failure(Scope::Nested, after_else);
        if let Parsed::Fail { at } = spec_parse_decorated(Scope::Nested, after_else) {
            lemma_failure_behind(at, else_kw.text(), after_else);
        }
    }
}

/// A statement that is read has consumed input.
pub proof fn lemma_statement_consumes(scope: Scope, input: Seq<char>)
    ensures
        spec_parse_statement(scope, input) matches Parsed::Match { value, rest } ==> rest.len()
            < input.len(),
{
    lemma_statement(scope, input);
    reveal_strlit("global");
    reveal_strlit("include");
    reveal_strlit("if");
    reveal_strlit(";");
    crate::ast::statements::variable_declaration::lemma_variable_declaration_not_empty(input);
    crate::ast::expressions::lemma_expression_not_empty(input);
}

/// A statement that is read with the trivia in front of it has consumed
/// input.
pub proof fn lemma_decorated_consumes(scope: Scope, input: Seq<char>)
    ensures
        spec_parse_decorated(scope, input) matches Parsed::Match { value, rest } ==> rest.len()
            < input.len(),
{
    Repeat0::<Trivia>::lemma_parse_text(input);
    if let Parsed::Match { value: trivias, rest } = Repeat0::<Trivia>::spec_parse(input) {
        lemma_statement_consumes(scope, rest);
    }
}

/// The statements of a file: statements of that scope are read, each with the
/// trivia in front of it, for as long as there is one. What is yielded is the
/// statements and the input behind the last of them.
pub open spec fn spec_parse_statements(input: Seq<char>) -> (
    Seq<WithTriviaView<StatementsView>>,
    Seq<char>,
)
    decreases input.len(),
{
    match spec_parse_decorated(Scope::File, input) {
        Parsed::Fail { .. } => (Seq::empty(), input),
        Parsed::Match { value, rest } => {
            proof {
                lemma_decorated_consumes(Scope::File, input);
            }
            let (tail, last) = spec_parse_statements(rest);
            (seq![value] + tail, last)
        },
    }
}

/// Whether every one of `statements` is one that the source text of a file
/// can hold.
pub open spec fn statements_are_source(statements: Seq<WithTriviaView<StatementsView>>) -> bool {
    forall|i: int|
        0 <= i < statements.len() ==> statement_is_source(
            Scope::File,
            (#[trigger] statements[i]).node,
        )
}

/// The statements that are read are the text that was consumed, and are such
/// as the source text of a file can hold.
pub proof fn lemma_statements(input: Seq<char>)
    ensures
        input == statements_text(spec_parse_statements(input).0) + spec_parse_statements(input).1,
        statements_are_source(spec_parse_statements(input).0),
    decreases input.len(),
{
    lemma_decorated(Scope::File, input);
    lemma_decorated_consumes(Scope::File, input);
    match spec_parse_decorated(Scope::File, input) {
        Parsed::Fail { .. } => {
            assert(input =~= Seq::<char>::empty() + input);
        },
        Parsed::Match { value, rest } => {
            lemma_statements(rest);
            let (tail, last) = spec_parse_statements(rest);
            let all = seq![value] + tail;
            assert(all.skip(1) =~= tail);
            assert(input =~= (decorated_text(value) + statements_text(tail)) + last);
            assert forall|i: int| 0 <= i < all.len() implies statement_is_source(
                Scope::File,
                (#[trigger] all[i]).node,
            ) by {
                if i > 0 {
                    assert(all[i] == tail[i - 1]);
                }
            }
        },
    }
}

/// What `V` has gathered after the traversal of a statement.
pub open spec fn statement_accepted<V: Visitor>(state: V::State, node: StatementsView) -> V::State
    decreases node,
{
    let seen = V::on(state, NodeView::Statements(node));
    if seen.1 {
        seen.0
    } else {
        match node {
            StatementsView::GlobalDeclaration(inner) => <GlobalDeclaration as Visitable<
                V,
            >>::accepted(seen.0, inner),
            StatementsView::IncludeStatement(inner) => <IncludeStatement as Visitable<
                V,
            >>::accepted(seen.0, inner),
            StatementsView::VariableDeclaration(inner) => <VariableDeclaration as Visitable<
                V,
            >>::accepted(seen.0, inner),
            StatementsView::IfStatement(inner) => if_accepted::<V>(seen.0, *inner),
            StatementsView::SemiColon(inner) => <WithTrivia<Semi> as Visitable<V>>::accepted(
                seen.0,
                inner,
            ),
            StatementsView::Expression(inner) => <Expression as Visitable<V>>::accepted(
                seen.0,
                inner,
            ),
            StatementsView::IncludedFile(file) => file_accepted::<V>(seen.0, *file),
            StatementsView::EmptyStatement(trivias) => accepted_all::<V, Trivia>(seen.0, trivias),
        }
    }
}

/// What `V` has gathered after the traversal of a statement with the trivia
/// in front of it.
pub open spec fn decorated_accepted<V: Visitor>(
    state: V::State,
    node: WithTriviaView<StatementsView>,
) -> V::State
    decreases node,
{
    statement_accepted::<V>(accepted_all::<V, Trivia>(state, node.trivias), node.node)
}

/// What `V` has gathered after the traversal of an `if` statement.
pub open spec fn if_accepted<V: Visitor>(state: V::State, node: IfStatementView) -> V::State
    decreases node,
{
    let seen = V::on(state, NodeView::IfStatement(node));
    if seen.1 {
        seen.0
    } else {
        let after_head = <IfHead as Visitable<V>>::accepted(
            seen.0,
            (node.if_kw, (node.lparen, (node.condition, node.rparen))),
        );
        let after_body = decorated_accepted::<V>(after_head, node.body);
        match node.else_clause {
            Some(clause) => else_accepted::<V>(
                accepted_all::<V, Trivia>(after_body, clause.trivias),
                clause.node,
            ),
            None => after_body,
        }
    }
}

/// What `V` has gathered after the traversal of an `else` clause.
pub open spec fn else_accepted<V: Visitor>(state: V::State, node: ElseClauseView) -> V::State
    decreases node,
{
    let seen = V::on(state, NodeView::ElseClause(node));
    if seen.1 {
        seen.0
    } else {
        decorated_accepted::<V>(
            <WithTrivia<KwElse> as Visitable<V>>::accepted(seen.0, node.else_kw),
            node.body,
        )
    }
}

/// What `V` has gathered after the traversal of statements in a row.
pub open spec fn statements_accepted<V: Visitor>(
    state: V::State,
    statements: Seq<WithTriviaView<StatementsView>>,
) -> V::State
    decreases statements,
{
    if statements.len() == 0 {
        state
    } else {
        statements_accepted::<V>(
            decorated_accepted::<V>(state, statements[0]),
            statements.skip(1),
        )
    }
}

/// What `V` has gathered after the traversal of a file.
pub open spec fn file_accepted<V: Visitor>(state: V::State, node: FileView) -> V::State
    decreases node,
{
    let seen = V::on(state, NodeView::File(node));
    if seen.1 {
        seen.0
    } else {
        <WithTrivia<EndOfFile> as Visitable<V>>::accepted(
            statements_accepted::<V>(seen.0, node.statements),
            node.eof,
        )
    }
}

/// Shows a statement to a visitor.
pub(crate) fn accept_statement<V: Visitor>(node: &Statements, visitor: &mut V)
    ensures
        final(visitor).state() == statement_accepted::<V>(old(visitor).state(), node.deep_view()),
    decreases node,
{
    if visitor.visit(Node::Statements(node)) {
        return ;
    }
    match node {
        Statements::GlobalDeclaration(inner) => inner.accept(visitor),
        Statements::IncludeStatement(inner) => inner.accept(visitor),
        Statements::VariableDeclaration(inner) => inner.accept(visitor),
        Statements::IfStatement(inner) => accept_if(inner, visitor),
        Statements::SemiColon(inner) => inner.accept(visitor),
        Statements::Expression(inner) => inner.accept(visitor),
        Statements::IncludedFile(file) => accept_file(file, visitor),
        Statements::EmptyStatement(trivias) => trivias.accept(visitor),
    }
}

/// Shows the body of an `if` or an `else` to a visitor.
fn accept_body<V: Visitor>(node: &WithTrivia<Box<Statements>>, visitor: &mut V)
    ensures
        final(visitor).state() == decorated_accepted::<V>(old(visitor).state(), node.deep_view()),
    decreases node,
{
    node.trivias.accept(visitor);
    accept_statement(&node.node, visitor);
}

/// Shows an `if` statement to a visitor.
pub(crate) fn accept_if<V: Visitor>(node: &IfStatement, visitor: &mut V)
    ensures
        final(visitor).state() == if_accepted::<V>(old(visitor).state(), node.deep_view()),
    decreases node,
{
    if visitor.visit(Node::IfStatement(node)) {
        return ;
    }
    node.if_kw.accept(visitor);
    node.lparen.accept(visitor);
    node.condition.accept(visitor);
    node.rparen.accept(visitor);
    accept_body(&node.body, visitor);
    if let Some(clause) = &node.else_clause {
        clause.trivias.accept(visitor);
        accept_else(&clause.node, visitor);
    }
}

/// Shows an `else` clause to a visitor.
pub(crate) fn accept_else<V: Visitor>(node: &ElseClause, visitor: &mut V)
    ensures
        final(visitor).state() == else_accepted::<V>(old(visitor).state(), node.deep_view()),
    decreases node,
{
    if visitor.visit(Node::ElseClause(node)) {
        return ;
    }
    node.else_kw.accept(visitor);
    accept_body(&node.body, visitor);
}

/// Shows a file to a visitor.
pub(crate) fn accept_file<V: Visitor>(node: &File, visitor: &mut V)
    ensures
        final(visitor).state() == file_accepted::<V>(old(visitor).state(), node.deep_view()),
    decreases node,
{
    if visitor.visit(Node::File(node)) {
        return ;
    }
    let ghost statements = node.deep_view().statements;
    let ghost goal = statements_accepted::<V>(visitor.state(), statements);
    let mut i: usize = 0;
    assert(statements.skip(0) =~= statements);
    while i < node.statements.len()
        invariant
            i <= node.statements.len(),
            statements == node.deep_view().statements,
            goal == statements_accepted::<V>(visitor.state(), statements.skip(i as int)),
        decreases node.statements.len() - i,
    {
        let ghost before = visitor.state();
        let ghost first = statements.skip(i as int)[0];
        assert(statements.skip(i as int).skip(1) =~= statements.skip(i + 1));
        assert(first == node.statements[i as int].deep_view());
        node.statements[i].trivias.accept(visitor);
        assert(visitor.state() == accepted_all::<V, Trivia>(before, first.trivias));
        accept_statement(&node.statements[i].node, visitor);
        assert(visitor.state() == decorated_accepted::<V>(before, first));
        assert(goal == statements_accepted::<V>(
            decorated_accepted::<V>(before, first),
            statements.skip(i as int).skip(1),
        ));
        i += 1;
    }
    assert(statements.skip(i as int).len() == 0);
    assert(goal == visitor.state());
    node.eof.accept(visitor);
}

impl<V: Visitor> Visitable<V> for Statements {
    open spec fn accepted(state: V::State, node: StatementsView) -> V::State {
        statement_accepted::<V>(state, node)
    }

    fn accept(&self, visitor: &mut V) {
        accept_statement(self, visitor)
    }
}

/// What `V` has gathered after the traversal of a statement, and what has
/// become of the statement.
pub open spec fn statement_accepted_mut<V: VisitorMut>(state: V::State, node: StatementsView) -> (
    V::State,
    StatementsView,
)
    decreases node,
{
    match V::on_mut(state, NodeView::Statements(node)) {
        (after, Some(NodeView::Statements(new))) => (after, new),
        (after, Some(_)) => (after, node),
        (after, None) => match node {
            StatementsView::GlobalDeclaration(inner) => {
                let new = <GlobalDeclaration as VisitableMut<V>>::accepted_mut(after, inner);
                (new.0, StatementsView::GlobalDeclaration(new.1))
            },
            StatementsView::IncludeStatement(inner) => {
                let new = <IncludeStatement as VisitableMut<V>>::accepted_mut(after, inner);
                (new.0, StatementsView::IncludeStatement(new.1))
            },
            StatementsView::VariableDeclaration(inner) => {
                let new = <VariableDeclaration as VisitableMut<V>>::accepted_mut(after, inner);
                (new.0, StatementsView::VariableDeclaration(new.1))
            },
            StatementsView::IfStatement(inner) => {
                let new = if_accepted_mut::<V>(after, *inner);
                (new.0, StatementsView::IfStatement(Box::new(new.1)))
            },
            StatementsView::SemiColon(inner) => {
                let new = <WithTrivia<Semi> as VisitableMut<V>>::accepted_mut(after, inner);
                (new.0, StatementsView::SemiColon(new.1))
            },
            StatementsView::Expression(inner) => {
                let new = <Expression as VisitableMut<V>>::accepted_mut(after, inner);
                (new.0, StatementsView::Expression(new.1))
            },
            StatementsView::IncludedFile(file) => {
                let new = file_accepted_mut::<V>(after, *file);
                (new.0, StatementsView::IncludedFile(Box::new(new.1)))
            },
            StatementsView::EmptyStatement(trivias) => {
                let new = accepted_mut_all::<V, Trivia>(after, trivias);
                (new.0, StatementsView::EmptyStatement(new.1))
            },
        },
    }
}

/// The same of a statement with the trivia in front of it.
pub open spec fn decorated_accepted_mut<V: VisitorMut>(
    state: V::State,
    node: WithTriviaView<StatementsView>,
) -> (V::State, WithTriviaView<StatementsView>)
    decreases node,
{
    let trivias = accepted_mut_all::<V, Trivia>(state, node.trivias);
    let inner = statement_accepted_mut::<V>(trivias.0, node.node);
    (inner.0, WithTriviaView { trivias: trivias.1, node: inner.1 })
}

/// The same of an `else` clause that may be missing.
pub open spec fn else_option_accepted_mut<V: VisitorMut>(
    state: V::State,
    node: Option<WithTriviaView<ElseClauseView>>,
) -> (V::State, Option<WithTriviaView<ElseClauseView>>)
    decreases node,
{
    match node {
        Some(clause) => {
            let trivias = accepted_mut_all::<V, Trivia>(state, clause.trivias);
            let inner = else_accepted_mut::<V>(trivias.0, clause.node);
            (inner.0, Some(WithTriviaView { trivias: trivias.1, node: inner.1 }))
        },
        None => (state, None),
    }
}

/// The same of an `if` statement.
pub open spec fn if_accepted_mut<V: VisitorMut>(state: V::State, node: IfStatementView) -> (
    V::State,
    IfStatementView,
)
    decreases node,
{
    match V::on_mut(state, NodeView::IfStatement(node)) {
        (after, Some(NodeView::IfStatement(new))) => (after, new),
        (after, Some(_)) => (after, node),
        (after, None) => {
            let if_kw = <WithTrivia<KwIf> as VisitableMut<V>>::accepted_mut(after, node.if_kw);
            let lparen = <WithTrivia<LParen> as VisitableMut<V>>::accepted_mut(
                if_kw.0,
                node.lparen,
            );
            let condition = <WithTrivia<Expression> as VisitableMut<V>>::accepted_mut(
                lparen.0,
                node.condition,
            );
            let rparen = <WithTrivia<RParen> as VisitableMut<V>>::accepted_mut(
                condition.0,
                node.rparen,
            );
            let body = decorated_accepted_mut::<V>(rparen.0, node.body);
            let else_clause = else_option_accepted_mut::<V>(body.0, node.else_clause);
            (
                else_clause.0,
                IfStatementView {
                    if_kw: if_kw.1,
                    lparen: lparen.1,
                    condition: condition.1,
                    rparen: rparen.1,
                    body: body.1,
                    else_clause: else_clause.1,
                },
            )
        },
    }
}

/// The same of an `else` clause.
pub open spec fn else_accepted_mut<V: VisitorMut>(state: V::State, node: ElseClauseView) -> (
    V::State,
    ElseClauseView,
)
    decreases node,
{
    match V::on_mut(state, NodeView::ElseClause(node)) {
        (after, Some(NodeView::ElseClause(new))) => (after, new),
        (after, Some(_)) => (after, node),
        (after, None) => {
            let else_kw = <WithTrivia<KwElse> as VisitableMut<V>>::accepted_mut(
                after,
                node.else_kw,
            );
            let body = decorated_accepted_mut::<V>(else_kw.0, node.body);
            (body.0, ElseClauseView { else_kw: else_kw.1, body: body.1 })
        },
    }
}

/// The same of statements in a row.
pub open spec fn statements_accepted_mut<V: VisitorMut>(
    state: V::State,
    statements: Seq<WithTriviaView<StatementsView>>,
) -> (V::State, Seq<WithTriviaView<StatementsView>>)
    decreases statements,
{
    if statements.len() == 0 {
        (state, statements)
    } else {
        let first = decorated_accepted_mut::<V>(state, statements[0]);
        let rest = statements_accepted_mut::<V>(first.0, statements.skip(1));
        (rest.0, seq![first.1] + rest.1)
    }
}

/// The same of a file.
pub open spec fn file_accepted_mut<V: VisitorMut>(
    state: V::State,
    node: FileView,
) -> (V::State, FileView)
    decreases node,
{
    match V::on_mut(state, NodeView::File(node)) {
        (after, Some(NodeView::File(new))) => (after, new),
        (after, Some(_)) => (after, node),
        (after, None) => {
            let statements = statements_accepted_mut::<V>(after, node.statements);
            let eof = <WithTrivia<EndOfFile> as VisitableMut<V>>::accepted_mut(
                statements.0,
                node.eof,
            );
            (eof.0, FileView { statements: statements.1, eof: eof.1 })
        },
    }
}

/// Shows a statement to a rewriting visitor.
pub(crate) fn accept_statement_mut<V: VisitorMut>(node: &mut Statements, visitor: &mut V)
    ensures
        (final(visitor).state(), final(node).deep_view()) == statement_accepted_mut::<V>(
            old(visitor).state(),
            old(node).deep_view(),
        ),
    decreases *old(node),
{
    match visitor.visit_mut(Node::Statements(node)) {
        Some(OwnedNode::Statements(new)) => {
            *node = new;
        },
        Some(_) => {},
        None => {
            match node {
                Statements::GlobalDeclaration(inner) => inner.accept_mut(visitor),
                Statements::IncludeStatement(inner) => inner.accept_mut(visitor),
                Statements::VariableDeclaration(inner) => inner.accept_mut(visitor),
                Statements::IfStatement(inner) => accept_if_mut(inner, visitor),
                Statements::SemiColon(inner) => inner.accept_mut(visitor),
                Statements::Expression(inner) => inner.accept_mut(visitor),
                Statements::IncludedFile(file) => accept_file_mut(&mut **file, visitor),
                Statements::EmptyStatement(trivias) => trivias.accept_mut(visitor),
            }
        },
    }
}

/// Shows the body of an `if` or an `else` to a rewriting visitor.
fn accept_body_mut<V: VisitorMut>(node: &mut WithTrivia<Box<Statements>>, visitor: &mut V)
    ensures
        (final(visitor).state(), final(node).deep_view()) == decorated_accepted_mut::<V>(
            old(visitor).state(),
            old(node).deep_view(),
        ),
    decreases *old(node),
{
    node.trivias.accept_mut(visitor);
    accept_statement_mut(&mut *node.node, visitor);
}

/// Shows an `if` statement to a rewriting visitor.
pub(crate) fn accept_if_mut<V: VisitorMut>(node: &mut IfStatement, visitor: &mut V)
    ensures
        (final(visitor).state(), final(node).deep_view()) == if_accepted_mut::<V>(
            old(visitor).state(),
            old(node).deep_view(),
        ),
    decreases *old(node),
{
    match visitor.visit_mut(Node::IfStatement(node)) {
        Some(OwnedNode::IfStatement(new)) => {
            *node = new;
        },
        Some(_) => {},
        None => {
            node.if_kw.accept_mut(visitor);
            node.lparen.accept_mut(visitor);
            node.condition.accept_mut(visitor);
            node.rparen.accept_mut(visitor);
            accept_body_mut(&mut node.body, visitor);
            match &mut node.else_clause {
                Some(clause) => {
                    clause.trivias.accept_mut(visitor);
                    accept_else_mut(&mut clause.node, visitor);
                },
                None => {},
            }
        },
    }
}

/// Shows an `else` clause to a rewriting visitor.
pub(crate) fn accept_else_mut<V: VisitorMut>(node: &mut ElseClause, visitor: &mut V)
    ensures
        (final(visitor).state(), final(node).deep_view()) == else_accepted_mut::<V>(
            old(visitor).state(),
            old(node).deep_view(),
        ),
    decreases *old(node),
{
    match visitor.visit_mut(Node::ElseClause(node)) {
        Some(OwnedNode::ElseClause(new)) => {
            *node = new;
        },
        Some(_) => {},
        None => {
            node.else_kw.accept_mut(visitor);
            accept_body_mut(&mut node.body, visitor);
        },
    }
}

/// Shows a file to a rewriting visitor.
pub(crate) fn accept_file_mut<V: VisitorMut>(node: &mut File, visitor: &mut V)
    ensures
        (final(visitor).state(), final(node).deep_view()) == file_accepted_mut::<V>(
            old(visitor).state(),
            old(node).deep_view(),
        ),
    decreases *old(node),
{
    match visitor.visit_mut(Node::File(node)) {
        Some(OwnedNode::File(new)) => {
            *node = new;
        },
        Some(_) => {},
        None => {
            let ghost statements = node.deep_view().statements;
            let ghost goal = statements_accepted_mut::<V>(visitor.state(), statements);
            let mut i: usize = 0;
            proof {
                assert(statements.skip(0) =~= statements);
                assert(statements.take(0) + goal.1 =~= goal.1);
            }
            while i < node.statements.len()
                invariant
                    i <= node.statements.len(),
                    node.statements.len() == statements.len(),
                    node.eof == old(node).eof,
                    statements == old(node).deep_view().statements,
                    forall|k: int|
                        i <= k < node.statements.len() ==> node.statements[k] == old(
                            node,
                        ).statements[k],
                    goal.0 == statements_accepted_mut::<V>(
                        visitor.state(),
                        statements.skip(i as int),
                    ).0,
                    goal.1 == node.deep_view().statements.take(i as int)
                        + statements_accepted_mut::<V>(
                            visitor.state(),
                            statements.skip(i as int),
                        ).1,
                decreases node.statements.len() - i,
            {
                let ghost before = node.deep_view().statements;
                let ghost state = visitor.state();
                proof {
                    assert(statements.skip(i as int).skip(1) =~= statements.skip(i + 1));
                    assert(
                        statements.skip(i as int)[0] == old(node).statements[i as int].deep_view()
                    );
                    assert(before[i as int] == node.statements[i as int].deep_view());
                }
                node.statements[i].trivias.accept_mut(visitor);
                accept_statement_mut(&mut node.statements[i].node, visitor);
                proof {
                    let first = decorated_accepted_mut::<V>(state, statements[i as int]);
                    let rest = statements_accepted_mut::<V>(first.0, statements.skip(i + 1));
                    assert(node.statements[i as int].deep_view() == first.1);
                    assert(node.deep_view().statements =~= before.update(i as int, first.1));
                    assert(before.take(i as int) + (seq![first.1] + rest.1)
                        =~= node.deep_view().statements.take(i + 1) + rest.1);
                }
                i += 1;
            }
            proof {
                assert(statements.skip(i as int).len() == 0);
                assert(node.deep_view().statements.take(i as int) + statements.skip(i as int)
                    =~= node.deep_view().statements);
            }
            node.eof.accept_mut(visitor);
        },
    }
}

impl<V: VisitorMut> VisitableMut<V> for Statements {
    open spec fn accepted_mut(state: V::State, node: StatementsView) -> (V::State, StatementsView) {
        statement_accepted_mut::<V>(state, node)
    }

    fn accept_mut(&mut self, visitor: &mut V) {
        accept_statement_mut(self, visitor)
    }
}

} // verus!
