//! Expressions: for now a name or a literal.

use vstd::prelude::*;
use crate::ast::terminal::identifier::{Identifier, IdentifierView};
use crate::ast::terminal::number_literal::{NumberLiteral, NumberLiteralView};
use crate::ast::terminal::string_literal::{StringLiteral, StringLiteralView};
use crate::parser::{Parsed, ParseError, Parser, SourceText};
use crate::visitor::{Node, NodeView, OwnedNode, Visitable, VisitableMut, Visitor, VisitorMut};

verus! {

/// An expression: a name, a string or a number.
#[derive(Debug, Clone, PartialEq, Eq)]
pub enum Expression {
    Identifier(Identifier),
    StringLiteral(StringLiteral),
    NumberLiteral(NumberLiteral),
}

/// The model of `Expression`.
pub enum ExpressionView {
    Identifier(IdentifierView),
    StringLiteral(StringLiteralView),
    NumberLiteral(NumberLiteralView),
}

impl DeepView for Expression {
    type V = ExpressionView;

    open spec fn deep_view(&self) -> ExpressionView {
        match self {
            Expression::Identifier(node) => ExpressionView::Identifier(node.deep_view()),
            Expression::StringLiteral(node) => ExpressionView::StringLiteral(node.deep_view()),
            Expression::NumberLiteral(node) => ExpressionView::NumberLiteral(node.deep_view()),
        }
    }
}

impl SourceText for ExpressionView {
    open spec fn text(self) -> Seq<char> {
        match self {
            ExpressionView::Identifier(node) => node.text(),
            ExpressionView::StringLiteral(node) => node.text(),
            ExpressionView::NumberLiteral(node) => node.text(),
        }
    }
}

impl Parser for Expression {
    /// An identifier, or else a string literal, or else a number literal.
    #[verifier::opaque]
    open spec fn spec_parse(input: Seq<char>) -> Parsed<ExpressionView> {
        match Identifier::spec_parse(input) {
            Parsed::Match { value, rest } => Parsed::Match {
                value: ExpressionView::Identifier(value),
                rest,
            },
            Parsed::Fail { .. } => match StringLiteral::spec_parse(input) {
                Parsed::Match { value, rest } => Parsed::Match {
                    value: ExpressionView::StringLiteral(value),
                    rest,
                },
                Parsed::Fail { .. } => match NumberLiteral::spec_parse(input) {
                    Parsed::Match { value, rest } => Parsed::Match {
                        value: ExpressionView::NumberLiteral(value),
                        rest,
                    },
                    Parsed::Fail { at } => Parsed::Fail { at },
                },
            },
        }
    }

    fn parse<'a>(input: &'a str) -> (r: Result<(&'a str, Self), ParseError<'a>>) {
        proof {
            reveal(<Expression as Parser>::spec_parse);
        }
        match Identifier::parse(input) {
            Ok((rest, node)) => Ok((rest, Expression::Identifier(node))),
            Err(_) => match StringLiteral::parse(input) {
                Ok((rest, node)) => Ok((rest, Expression::StringLiteral(node))),
                Err(_) => match NumberLiteral::parse(input) {
                    Ok((rest, node)) => Ok((rest, Expression::NumberLiteral(node))),
                    Err(e) => Err(e),
                },
            },
        }
    }

    proof fn lemma_parse_text(input: Seq<char>) {
        reveal(<Expression as Parser>::spec_parse);
        Identifier::lemma_parse_text(input);
        StringLiteral::lemma_parse_text(input);
        NumberLiteral::lemma_parse_text(input);
    }

    proof fn lemma_parse_failure(input: Seq<char>) {
        reveal(<Expression as Parser>::spec_parse);
        NumberLiteral::lemma_parse_failure(input);
    }
}

/// An expression that is read is not empty.
pub proof fn lemma_expression_not_empty(input: Seq<char>)
    ensures
        Expression::spec_parse(input) matches Parsed::Match { value, rest } ==> value.text().len()
            > 0,
{
    reveal(<Expression as Parser>::spec_parse);
    reveal(<StringLiteral as Parser>::spec_parse);
    reveal_strlit("'");
    reveal_strlit("\"");
    crate::ast::terminal::identifier::lemma_identifier_not_empty(input);
    crate::ast::terminal::number_literal::lemma_number_not_empty(input);
}

impl<V: Visitor> Visitable<V> for Expression {
    open spec fn accepted(state: V::State, node: ExpressionView) -> V::State {
        let seen = V::on(state, NodeView::Expression(node));
        if seen.1 {
            seen.0
        } else {
            match node {
                ExpressionView::Identifier(inner) => <Identifier as Visitable<V>>::accepted(
                    seen.0,
                    inner,
                ),
                ExpressionView::StringLiteral(inner) => <StringLiteral as Visitable<V>>::accepted(
                    seen.0,
                    inner,
                ),
                ExpressionView::NumberLiteral(inner) => <NumberLiteral as Visitable<V>>::accepted(
                    seen.0,
                    inner,
                ),
            }
        }
    }

    fn accept(&self, visitor: &mut V) {
        if !visitor.visit(Node::Expression(self)) {
            match self {
                Expression::Identifier(inner) => {
                    inner.accept(visitor);
                },
                Expression::StringLiteral(inner) => {
                    inner.accept(visitor);
                },
                Expression::NumberLiteral(inner) => {
                    inner.accept(visitor);
                },
            }
        }
    }
}

impl<V: VisitorMut> VisitableMut<V> for Expression {
    open spec fn accepted_mut(state: V::State, node: ExpressionView) -> (V::State, ExpressionView) {
        match V::on_mut(state, NodeView::Expression(node)) {
            (after, Some(NodeView::Expression(new))) => (after, new),
            (after, Some(_)) => (after, node),
            (after, None) => match node {
                ExpressionView::Identifier(inner) => {
                    let new_inner = <Identifier as VisitableMut<V>>::accepted_mut(after, inner);
                    (new_inner.0, ExpressionView::Identifier(new_inner.1))
                },
                ExpressionView::StringLiteral(inner) => {
                    let new_inner = <StringLiteral as VisitableMut<V>>::accepted_mut(after, inner);
                    (new_inner.0, ExpressionView::StringLiteral(new_inner.1))
                },
                ExpressionView::NumberLiteral(inner) => {
                    let new_inner = <NumberLiteral as VisitableMut<V>>::accepted_mut(after, inner);
                    (new_inner.0, ExpressionView::NumberLiteral(new_inner.1))
                },
            },
        }
    }

    fn accept_mut(&mut self, visitor: &mut V) {
        match visitor.visit_mut(Node::Expression(self)) {
            Some(OwnedNode::Expression(new)) => {
                *self = new;
            },
            Some(_) => {},
            None => {
                match self {
                    Expression::Identifier(inner) => {
                        inner.accept_mut(visitor);
                    },
                    Expression::StringLiteral(inner) => {
                        inner.accept_mut(visitor);
                    },
                    Expression::NumberLiteral(inner) => {
                        inner.accept_mut(visitor);
                    },
                }
            },
        }
    }
}

} // verus!
