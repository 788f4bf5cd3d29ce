use vstd::prelude::*;
use crate::parser::{lemma_input_is_suffix, Parsed, ParseError, Parser, SourceText};
use crate::parser::scan::{lemma_tag_text, spec_tag, tag};
use crate::visitor::{Node, NodeView, OwnedNode, Visitable, VisitableMut, Visitor, VisitorMut};

verus! {

/// A fixed piece of text at the front of the input, standing for `value`.
pub open spec fn spec_literal<V>(input: Seq<char>, pattern: Seq<char>, value: V) -> Parsed<V> {
    match spec_tag(input, pattern) {
        Some((rest, _)) => Parsed::Match { value, rest },
        None => Parsed::Fail { at: input },
    }
}

/// A semicolon.
#[derive(Debug, Clone, Copy, PartialEq, Eq)]
pub struct Semi;

impl DeepView for Semi {
    type V = Semi;

    open spec fn deep_view(&self) -> Semi {
        *self
    }
}

impl SourceText for Semi {
    open spec fn text(self) -> Seq<char> {
        ";"@
    }
}

impl Parser for Semi {
    open spec fn spec_parse(input: Seq<char>) -> Parsed<Semi> {
        spec_literal(input, ";"@, Semi)
    }

    fn parse<'a>(input: &'a str) -> (r: Result<(&'a str, Self), ParseError<'a>>) {
        match tag(";", input) {
            Some((rest, _)) => Ok((rest, Semi)),
            None => Err(ParseError { input }),
        }
    }

    proof fn lemma_parse_text(input: Seq<char>) {
        lemma_tag_text(input, ";"@);
    }

    proof fn lemma_parse_failure(input: Seq<char>) {
        lemma_input_is_suffix(input);
    }
}

/// A comma.
#[derive(Debug, Clone, Copy, PartialEq, Eq)]
pub struct Comma;

impl DeepView for Comma {
    type V = Comma;

    open spec fn deep_view(&self) -> Comma {
        *self
    }
}

impl SourceText for Comma {
    open spec fn text(self) -> Seq<char> {
        ","@
    }
}

impl Parser for Comma {
    open spec fn spec_parse(input: Seq<char>) -> Parsed<Comma> {
        spec_literal(input, ","@, Comma)
    }

    fn parse<'a>(input: &'a str) -> (r: Result<(&'a str, Self), ParseError<'a>>) {
        match tag(",", input) {
            Some((rest, _)) => Ok((rest, Comma)),
            None => Err(ParseError { input }),
        }
    }

    proof fn lemma_parse_text(input: Seq<char>) {
        lemma_tag_text(input, ","@);
    }

    proof fn lemma_parse_failure(input: Seq<char>) {
        lemma_input_is_suffix(input);
    }
}

/// An equals sign.
#[derive(Debug, Clone, Copy, PartialEq, Eq)]
pub struct Equal;

impl DeepView for Equal {
    type V = Equal;

    open spec fn deep_view(&self) -> Equal {
        *self
    }
}

impl SourceText for Equal {
    open spec fn text(self) -> Seq<char> {
        "="@
    }
}

impl Parser for Equal {
    open spec fn spec_parse(input: Seq<char>) -> Parsed<Equal> {
        spec_literal(input, "="@, Equal)
    }

    fn parse<'a>(input: &'a str) -> (r: Result<(&'a str, Self), ParseError<'a>>) {
        match tag("=", input) {
            Some((rest, _)) => Ok((rest, Equal)),
            None => Err(ParseError { input }),
        }
    }

    proof fn lemma_parse_text(input: Seq<char>) {
        lemma_tag_text(input, "="@);
    }

    proof fn lemma_parse_failure(input: Seq<char>) {
        lemma_input_is_suffix(input);
    }
}

/// An opening parenthesis.
#[derive(Debug, Clone, Copy, PartialEq, Eq)]
pub struct LParen;

impl DeepView for LParen {
    type V = LParen;

    open spec fn deep_view(&self) -> LParen {
        *self
    }
}

impl SourceText for LParen {
    open spec fn text(self) -> Seq<char> {
        "("@
    }
}

impl Parser for LParen {
    open spec fn spec_parse(input: Seq<char>) -> Parsed<LParen> {
        spec_literal(input, "("@, LParen)
    }

    fn parse<'a>(input: &'a str) -> (r: Result<(&'a str, Self), ParseError<'a>>) {
        match tag("(", input) {
            Some((rest, _)) => Ok((rest, LParen)),
            None => Err(ParseError { input }),
        }
    }

    proof fn lemma_parse_text(input: Seq<char>) {
        lemma_tag_text(input, "("@);
    }

    proof fn lemma_parse_failure(input: Seq<char>) {
        lemma_input_is_suffix(input);
    }
}

/// A closing parenthesis.
#[derive(Debug, Clone, Copy, PartialEq, Eq)]
pub struct RParen;

impl DeepView for RParen {
    type V = RParen;

    open spec fn deep_view(&self) -> RParen {
        *self
    }
}

impl SourceText for RParen {
    open spec fn text(self) -> Seq<char> {
        ")"@
    }
}

impl Parser for RParen {
    open spec fn spec_parse(input: Seq<char>) -> Parsed<RParen> {
        spec_literal(input, ")"@, RParen)
    }

    fn parse<'a>(input: &'a str) -> (r: Result<(&'a str, Self), ParseError<'a>>) {
        match tag(")", input) {
            Some((rest, _)) => Ok((rest, RParen)),
            None => Err(ParseError { input }),
        }
    }

    proof fn lemma_parse_text(input: Seq<char>) {
        lemma_tag_text(input, ")"@);
    }

    proof fn lemma_parse_failure(input: Seq<char>) {
        lemma_input_is_suffix(input);
    }
}

/// A single quote.
#[derive(Debug, Clone, Copy, PartialEq, Eq)]
pub struct SQuote;

impl DeepView for SQuote {
    type V = SQuote;

    open spec fn deep_view(&self) -> SQuote {
        *self
    }
}

impl SourceText for SQuote {
    open spec fn text(self) -> Seq<char> {
        "'"@
    }
}

impl Parser for SQuote {
    open spec fn spec_parse(input: Seq<char>) -> Parsed<SQuote> {
        spec_literal(input, "'"@, SQuote)
    }

    fn parse<'a>(input: &'a str) -> (r: Result<(&'a str, Self), ParseError<'a>>) {
        match tag("'", input) {
            Some((rest, _)) => Ok((rest, SQuote)),
            None => Err(ParseError { input }),
        }
    }

    proof fn lemma_parse_text(input: Seq<char>) {
        lemma_tag_text(input, "'"@);
    }

    proof fn lemma_parse_failure(input: Seq<char>) {
        lemma_input_is_suffix(input);
    }
}

/// A double quote.
#[derive(Debug, Clone, Copy, PartialEq, Eq)]
pub struct DQuote;

impl DeepView for DQuote {
    type V = DQuote;

    open spec fn deep_view(&self) -> DQuote {
        *self
    }
}

impl SourceText for DQuote {
    open spec fn text(self) -> Seq<char> {
        "\""@
    }
}

impl Parser for DQuote {
    open spec fn spec_parse(input: Seq<char>) -> Parsed<DQuote> {
        spec_literal(input, "\""@, DQuote)
    }

    fn parse<'a>(input: &'a str) -> (r: Result<(&'a str, Self), ParseError<'a>>) {
        match tag("\"", input) {
            Some((rest, _)) => Ok((rest, DQuote)),
            None => Err(ParseError { input }),
        }
    }

    proof fn lemma_parse_text(input: Seq<char>) {
        lemma_tag_text(input, "\""@);
    }

    proof fn lemma_parse_failure(input: Seq<char>) {
        lemma_input_is_suffix(input);
    }
}

impl<V: Visitor> Visitable<V> for Semi {
    open spec fn accepted(state: V::State, node: Semi) -> V::State {
        V::on(state, NodeView::Semi(node)).0
    }

    fn accept(&self, visitor: &mut V) {
        let _ = visitor.visit(Node::Semi(self));
    }
}

impl<V: Visitor> Visitable<V> for Comma {
    open spec fn accepted(state: V::State, node: Comma) -> V::State {
        V::on(state, NodeView::Comma(node)).0
    }

    fn accept(&self, visitor: &mut V) {
        let _ = visitor.visit(Node::Comma(self));
    }
}

impl<V: Visitor> Visitable<V> for Equal {
    open spec fn accepted(state: V::State, node: Equal) -> V::State {
        V::on(state, NodeView::Equal(node)).0
    }

    fn accept(&self, visitor: &mut V) {
        let _ = visitor.visit(Node::Equal(self));
    }
}

impl<V: Visitor> Visitable<V> for LParen {
    open spec fn accepted(state: V::State, node: LParen) -> V::State {
        V::on(state, NodeView::LParen(node)).0
    }

    fn accept(&self, visitor: &mut V) {
        let _ = visitor.visit(Node::LParen(self));
    }
}

impl<V: Visitor> Visitable<V> for RParen {
    open spec fn accepted(state: V::State, node: RParen) -> V::State {
        V::on(state, NodeView::RParen(node)).0
    }

    fn accept(&self, visitor: &mut V) {
        let _ = visitor.visit(Node::RParen(self));
    }
}

impl<V: Visitor> Visitable<V> for SQuote {
    open spec fn accepted(state: V::State, node: SQuote) -> V::State {
        V::on(state, NodeView::SQuote(node)).0
    }

    fn accept(&self, visitor: &mut V) {
        let _ = visitor.visit(Node::SQuote(self));
    }
}

impl<V: Visitor> Visitable<V> for DQuote {
    open spec fn accepted(state: V::State, node: DQuote) -> V::State {
        V::on(state, NodeView::DQuote(node)).0
    }

    fn accept(&self, visitor: &mut V) {
        let _ = visitor.visit(Node::DQuote(self));
    }
}

impl<V: VisitorMut> VisitableMut<V> for Semi {
    open spec fn accepted_mut(state: V::State, node: Semi) -> (V::State, Semi) {
        match V::on_mut(state, NodeView::Semi(node)) {
            (after, Some(NodeView::Semi(new))) => (after, new),
            (after, Some(_)) => (after, node),
            (after, None) => (after, node),
        }
    }

    fn accept_mut(&mut self, visitor: &mut V) {
        match visitor.visit_mut(Node::Semi(self)) {
            Some(OwnedNode::Semi(new)) => {
                *self = new;
            },
            _ => {},
        }
    }
}

impl<V: VisitorMut> VisitableMut<V> for Comma {
    open spec fn accepted_mut(state: V::State, node: Comma) -> (V::State, Comma) {
        match V::on_mut(state, NodeView::Comma(node)) {
            (after, Some(NodeView::Comma(new))) => (after, new),
            (after, Some(_)) => (after, node),
            (after, None) => (after, node),
        }
    }

    fn accept_mut(&mut self, visitor: &mut V) {
        match visitor.visit_mut(Node::Comma(self)) {
            Some(OwnedNode::Comma(new)) => {
                *self = new;
            },
            _ => {},
        }
    }
}

impl<V: VisitorMut> VisitableMut<V> for Equal {
    open spec fn accepted_mut(state: V::State, node: Equal) -> (V::State, Equal) {
        match V::on_mut(state, NodeView::Equal(node)) {
            (after, Some(NodeView::Equal(new))) => (after, new),
            (after, Some(_)) => (after, node),
            (after, None) => (after, node),
        }
    }

    fn accept_mut(&mut self, visitor: &mut V) {
        match visitor.visit_mut(Node::Equal(self)) {
            Some(OwnedNode::Equal(new)) => {
                *self = new;
            },
            _ => {},
        }
    }
}

impl<V: VisitorMut> VisitableMut<V> for LParen {
    open spec fn accepted_mut(state: V::State, node: LParen) -> (V::State, LParen) {
        match V::on_mut(state, NodeView::LParen(node)) {
            (after, Some(NodeView::LParen(new))) => (after, new),
            (after, Some(_)) => (after, node),
            (after, None) => (after, node),
        }
    }

    fn accept_mut(&mut self, visitor: &mut V) {
        match visitor.visit_mut(Node::LParen(self)) {
            Some(OwnedNode::LParen(new)) => {
                *self = new;
            },
            _ => {},
        }
    }
}

impl<V: VisitorMut> VisitableMut<V> for RParen {
    open spec fn accepted_mut(state: V::State, node: RParen) -> (V::State, RParen) {
        match V::on_mut(state, NodeView::RParen(node)) {
            (after, Some(NodeView::RParen(new))) => (after, new),
            (after, Some(_)) => (after, node),
            (after, None) => (after, node),
        }
    }

    fn accept_mut(&mut self, visitor: &mut V) {
        match visitor.visit_mut(Node::RParen(self)) {
            Some(OwnedNode::RParen(new)) => {
                *self = new;
            },
            _ => {},
        }
    }
}

impl<V: VisitorMut> VisitableMut<V> for SQuote {
    open spec fn accepted_mut(state: V::State, node: SQuote) -> (V::State, SQuote) {
        match V::on_mut(state, NodeView::SQuote(node)) {
            (after, Some(NodeView::SQuote(new))) => (after, new),
            (after, Some(_)) => (after, node),
            (after, None) => (after, node),
        }
    }

    fn accept_mut(&mut self, visitor: &mut V) {
        match visitor.visit_mut(Node::SQuote(self)) {
            Some(OwnedNode::SQuote(new)) => {
                *self = new;
            },
            _ => {},
        }
    }
}

impl<V: VisitorMut> VisitableMut<V> for DQuote {
    open spec fn accepted_mut(state: V::State, node: DQuote) -> (V::State, DQuote) {
        match V::on_mut(state, NodeView::DQuote(node)) {
            (after, Some(NodeView::DQuote(new))) => (after, new),
            (after, Some(_)) => (after, node),
            (after, None) => (after, node),
        }
    }

    fn accept_mut(&mut self, visitor: &mut V) {
        match visitor.visit_mut(Node::DQuote(self)) {
            Some(OwnedNode::DQuote(new)) => {
                *self = new;
            },
            _ => {},
        }
    }
}

} // verus!
