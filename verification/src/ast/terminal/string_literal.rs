use vstd::prelude::*;
use crate::ast::terminal::symbol::{DQuote, SQuote};
use crate::parser::{Parsed, ParseError, Parser, SourceText};
use crate::parser::scan::{enclosed, lemma_enclosed_failure, lemma_enclosed_text, spec_enclosed};
use crate::visitor::{Node, NodeView, OwnedNode, Visitable, VisitableMut, Visitor, VisitorMut};

verus! {

/// The quote that a string literal is written in.
#[derive(Debug, Clone, Copy, PartialEq, Eq)]
pub enum Quote {
    Single(SQuote),
    Double(DQuote),
}

impl DeepView for Quote {
    type V = Quote;

    open spec fn deep_view(&self) -> Quote {
        *self
    }
}

impl SourceText for Quote {
    open spec fn text(self) -> Seq<char> {
        match self {
            Quote::Single(node) => node.text(),
            Quote::Double(node) => node.text(),
        }
    }
}

impl Parser for Quote {
    /// A single quote, or else a double quote.
    open spec fn spec_parse(input: Seq<char>) -> Parsed<Quote> {
        match SQuote::spec_parse(input) {
            Parsed::Match { value, rest } => Parsed::Match { value: Quote::Single(value), rest },
            Parsed::Fail { .. } => match DQuote::spec_parse(input) {
                Parsed::Match { value, rest } => Parsed::Match {
                    value: Quote::Double(value),
                    rest,
                },
                Parsed::Fail { at } => Parsed::Fail { at },
            },
        }
    }

    fn parse<'a>(input: &'a str) -> (r: Result<(&'a str, Self), ParseError<'a>>) {
        match SQuote::parse(input) {
            Ok((rest, node)) => Ok((rest, Quote::Single(node))),
            Err(_) => match DQuote::parse(input) {
                Ok((rest, node)) => Ok((rest, Quote::Double(node))),
                Err(e) => Err(e),
            },
        }
    }

    proof fn lemma_parse_text(input: Seq<char>) {
        SQuote::lemma_parse_text(input);
        DQuote::lemma_parse_text(input);
    }

    proof fn lemma_parse_failure(input: Seq<char>) {
        DQuote::lemma_parse_failure(input);
    }
}

/// A string literal: the characters between two quotes of one kind, taken as
/// they are. Nothing is escaped, so the content holds no quote of that kind.
#[derive(Debug, Clone, PartialEq, Eq)]
pub struct StringLiteral {
    pub quote: Quote,
    pub content: String,
}

/// The model of `StringLiteral`.
pub struct StringLiteralView {
    pub quote: Quote,
    pub content: Seq<char>,
}

impl DeepView for StringLiteral {
    type V = StringLiteralView;

    open spec fn deep_view(&self) -> StringLiteralView {
        StringLiteralView { quote: self.quote, content: self.content@ }
    }
}

impl SourceText for StringLiteralView {
    open spec fn text(self) -> Seq<char> {
        self.quote.text() + self.content + self.quote.text()
    }
}

/// The content between an opening `mark` and the next `mark`.
pub open spec fn spec_quoted(input: Seq<char>, mark: Seq<char>) -> Parsed<Seq<char>> {
    spec_enclosed(input, mark, mark)
}

fn quoted<'a>(mark: &str, input: &'a str) -> (r: Result<(&'a str, String), ParseError<'a>>)
    ensures
        match r {
            Ok((rest, content)) => spec_quoted(input@, mark@) == (Parsed::Match {
                value: content@,
                rest: rest@,
            }),
            Err(e) => spec_quoted(input@, mark@) == (Parsed::<Seq<char>>::Fail { at: e.input@ }),
        },
{
    match enclosed(mark, mark, input) {
        Ok((rest, content)) => Ok((rest, content.to_owned())),
        Err(e) => Err(e),
    }
}

impl Parser for StringLiteral {
    /// A literal in single quotes, or else one in double quotes.
    #[verifier::opaque]
    open spec fn spec_parse(input: Seq<char>) -> Parsed<StringLiteralView> {
        match spec_quoted(input, "'"@) {
            Parsed::Match { value, rest } => Parsed::Match {
                value: StringLiteralView { quote: Quote::Single(SQuote), content: value },
                rest,
            },
            Parsed::Fail { .. } => match spec_quoted(input, "\""@) {
                Parsed::Match { value, rest } => Parsed::Match {
                    value: StringLiteralView { quote: Quote::Double(DQuote), content: value },
                    rest,
                },
                Parsed::Fail { at } => Parsed::Fail { at },
            },
        }
    }

    fn parse<'a>(input: &'a str) -> (r: Result<(&'a str, Self), ParseError<'a>>) {
        proof {
            reveal(<StringLiteral as Parser>::spec_parse);
        }
        match quoted("'", input) {
            Ok((rest, content)) => Ok(
                (rest, StringLiteral { quote: Quote::Single(SQuote), content }),
            ),
            Err(_) => match quoted("\"", input) {
                Ok((rest, content)) => Ok(
                    (rest, StringLiteral { quote: Quote::Double(DQuote), content }),
                ),
                Err(e) => Err(e),
            },
        }
    }

    proof fn lemma_parse_text(input: Seq<char>) {
        reveal(<StringLiteral as Parser>::spec_parse);
        lemma_enclosed_text(input, "'"@, "'"@);
        lemma_enclosed_text(input, "\""@, "\""@);
    }

    proof fn lemma_parse_failure(input: Seq<char>) {
        reveal(<StringLiteral as Parser>::spec_parse);
        lemma_enclosed_failure(input, "\""@, "\""@);
    }
}

impl<V: Visitor> Visitable<V> for Quote {
    open spec fn accepted(state: V::State, node: Quote) -> V::State {
        let seen = V::on(state, NodeView::Quote(node));
        if seen.1 {
            seen.0
        } else {
            match node {
                Quote::Single(inner) => <SQuote as Visitable<V>>::accepted(seen.0, inner),
                Quote::Double(inner) => <DQuote as Visitable<V>>::accepted(seen.0, inner),
            }
        }
    }

    fn accept(&self, visitor: &mut V) {
        if !visitor.visit(Node::Quote(self)) {
            match self {
                Quote::Single(inner) => {
                    inner.accept(visitor);
                },
                Quote::Double(inner) => {
                    inner.accept(visitor);
                },
            }
        }
    }
}

impl<V: Visitor> Visitable<V> for StringLiteral {
    open spec fn accepted(state: V::State, node: StringLiteralView) -> V::State {
        let seen = V::on(state, NodeView::StringLiteral(node));
        if seen.1 {
            seen.0
        } else {
            <Quote as Visitable<V>>::accepted(seen.0, node.quote)
        }
    }

    fn accept(&self, visitor: &mut V) {
        if !visitor.visit(Node::StringLiteral(self)) {
            self.quote.accept(visitor);
        }
    }
}

impl<V: VisitorMut> VisitableMut<V> for Quote {
    open spec fn accepted_mut(state: V::State, node: Quote) -> (V::State, Quote) {
        match V::on_mut(state, NodeView::Quote(node)) {
            (after, Some(NodeView::Quote(new))) => (after, new),
            (after, Some(_)) => (after, node),
            (after, None) => match node {
                Quote::Single(inner) => {
                    let new_inner = <SQuote as VisitableMut<V>>::accepted_mut(after, inner);
                    (new_inner.0, Quote::Single(new_inner.1))
                },
                Quote::Double(inner) => {
                    let new_inner = <DQuote as VisitableMut<V>>::accepted_mut(after, inner);
                    (new_inner.0, Quote::Double(new_inner.1))
                },
            },
        }
    }

    fn accept_mut(&mut self, visitor: &mut V) {
        match visitor.visit_mut(Node::Quote(self)) {
            Some(OwnedNode::Quote(new)) => {
                *self = new;
            },
            Some(_) => {},
            None => {
                match self {
                    Quote::Single(inner) => {
                        inner.accept_mut(visitor);
                    },
                    Quote::Double(inner) => {
                        inner.accept_mut(visitor);
                    },
                }
            },
        }
    }
}

impl<V: VisitorMut> VisitableMut<V> for StringLiteral {
    open spec fn accepted_mut(
        state: V::State,
        node: StringLiteralView,
    ) -> (V::State, StringLiteralView) {
        match V::on_mut(state, NodeView::StringLiteral(node)) {
            (after, Some(NodeView::StringLiteral(new))) => (after, new),
            (after, Some(_)) => (after, node),
            (after, None) => {
                let quote = <Quote as VisitableMut<V>>::accepted_mut(after, node.quote);
                (quote.0, StringLiteralView { quote: quote.1, content: node.content })
            },
        }
    }

    fn accept_mut(&mut self, visitor: &mut V) {
        match visitor.visit_mut(Node::StringLiteral(self)) {
            Some(OwnedNode::StringLiteral(new)) => {
                *self = new;
            },
            Some(_) => {},
            None => {
                self.quote.accept_mut(visitor);
            },
        }
    }
}

} // verus!
