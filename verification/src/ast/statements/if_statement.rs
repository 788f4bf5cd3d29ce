use vstd::prelude::*;
use crate::ast::expressions::{Expression, ExpressionView};
use crate::ast::statements::{
    accept_else,
    accept_else_mut,
    accept_if,
    accept_if_mut,
    else_accepted,
    else_accepted_mut,
    else_model,
    else_text,
    if_accepted,
    if_accepted_mut,
    if_model,
    if_text,
    lemma_else_clause,
    lemma_else_clause_failure,
    lemma_if,
    lemma_if_failure,
    parse_else_clause,
    parse_if,
    spec_parse_else_clause,
    spec_parse_if,
    Statements,
    StatementsView,
};
use crate::ast::terminal::keyword::{KwElse, KwIf};
use crate::ast::terminal::symbol::{LParen, RParen};
use crate::ast::trivia::with_trivia::{WithTrivia, WithTriviaView};
use crate::parser::{Parsed, ParseError, Parser, SourceText};
use crate::visitor::{Visitable, VisitableMut, Visitor, VisitorMut};

verus! {

/// `if`, a condition in parentheses, one statement as the body, and an
/// `else` clause where there is one.
#[derive(Debug, PartialEq, Eq)]
pub struct IfStatement {
    pub if_kw: WithTrivia<KwIf>,
    pub lparen: WithTrivia<LParen>,
    pub condition: WithTrivia<Expression>,
    pub rparen: WithTrivia<RParen>,
    pub body: WithTrivia<Box<Statements>>,
    pub else_clause: Option<WithTrivia<ElseClause>>,
}

/// The model of `IfStatement`.
pub struct IfStatementView {
    pub if_kw: WithTriviaView<KwIf>,
    pub lparen: WithTriviaView<LParen>,
    pub condition: WithTriviaView<ExpressionView>,
    pub rparen: WithTriviaView<RParen>,
    pub body: WithTriviaView<StatementsView>,
    pub else_clause: Option<WithTriviaView<ElseClauseView>>,
}

/// `else` and one statement as its body.
#[derive(Debug, PartialEq, Eq)]
pub struct ElseClause {
    pub else_kw: WithTrivia<KwElse>,
    pub body: WithTrivia<Box<Statements>>,
}

/// The model of `ElseClause`.
pub struct ElseClauseView {
    pub else_kw: WithTriviaView<KwElse>,
    pub body: WithTriviaView<StatementsView>,
}

impl DeepView for IfStatement {
    type V = IfStatementView;

    open spec fn deep_view(&self) -> IfStatementView {
        if_model(*self)
    }
}

impl DeepView for ElseClause {
    type V = ElseClauseView;

    open spec fn deep_view(&self) -> ElseClauseView {
        else_model(*self)
    }
}

impl SourceText for IfStatementView {
    open spec fn text(self) -> Seq<char> {
        if_text(self)
    }
}

impl SourceText for ElseClauseView {
    open spec fn text(self) -> Seq<char> {
        else_text(self)
    }
}

impl Parser for IfStatement {
    open spec fn spec_parse(input: Seq<char>) -> Parsed<IfStatementView> {
        spec_parse_if(input)
    }

    fn parse<'a>(input: &'a str) -> (r: Result<(&'a str, Self), ParseError<'a>>) {
        parse_if(input)
    }

    proof fn lemma_parse_text(input: Seq<char>) {
        lemma_if(input);
    }

    proof fn lemma_parse_failure(input: Seq<char>) {
        lemma_if_failure(input);
    }
}

impl Parser for ElseClause {
    open spec fn spec_parse(input: Seq<char>) -> Parsed<ElseClauseView> {
        spec_parse_else_clause(input)
    }

    fn parse<'a>(input: &'a str) -> (r: Result<(&'a str, Self), ParseError<'a>>) {
        parse_else_clause(input)
    }

    proof fn lemma_parse_text(input: Seq<char>) {
        lemma_else_clause(input);
    }

    proof fn lemma_parse_failure(input: Seq<char>) {
        lemma_else_clause_failure(input);
    }
}

impl<V: Visitor> Visitable<V> for IfStatement {
    open spec fn accepted(state: V::State, node: IfStatementView) -> V::State {
        if_accepted::<V>(state, node)
    }

    fn accept(&self, visitor: &mut V) {
        accept_if(self, visitor)
    }
}

impl<V: Visitor> Visitable<V> for ElseClause {
    open spec fn accepted(state: V::State, node: ElseClauseView) -> V::State {
        else_accepted::<V>(state, node)
    }

    fn accept(&self, visitor: &mut V) {
        accept_else(self, visitor)
    }
}

impl<V: VisitorMut> VisitableMut<V> for IfStatement {
    open spec fn accepted_mut(
        state: V::State,
        node: IfStatementView,
    ) -> (V::State, IfStatementView) {
        if_accepted_mut::<V>(state, node)
    }

    fn accept_mut(&mut self, visitor: &mut V) {
        accept_if_mut(self, visitor)
    }
}

impl<V: VisitorMut> VisitableMut<V> for ElseClause {
    open spec fn accepted_mut(state: V::State, node: ElseClauseView) -> (V::State, ElseClauseView) {
        else_accepted_mut::<V>(state, node)
    }

    fn accept_mut(&mut self, visitor: &mut V) {
        accept_else_mut(self, visitor)
    }
}

} // verus!
