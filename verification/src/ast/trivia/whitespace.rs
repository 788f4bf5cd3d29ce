use vstd::prelude::*;
use crate::parser::{lemma_input_is_suffix, Parsed, ParseError, Parser, SourceText};
use crate::parser::scan::{lemma_take_run_text, multispace1, spec_take_run, CharClass};
use crate::visitor::{Node, NodeView, OwnedNode, Visitable, VisitableMut, Visitor, VisitorMut};

verus! {

/// A run of spaces, tabs, carriage returns and line feeds.
#[derive(Debug, Clone, PartialEq, Eq)]
pub struct Whitespace(pub String);

/// The model of `Whitespace`.
pub struct WhitespaceView(pub Seq<char>);

impl DeepView for Whitespace {
    type V = WhitespaceView;

    open spec fn deep_view(&self) -> WhitespaceView {
        WhitespaceView(self.0@)
    }
}

impl SourceText for WhitespaceView {
    open spec fn text(self) -> Seq<char> {
        self.0
    }
}

impl Parser for Whitespace {
    open spec fn spec_parse(input: Seq<char>) -> Parsed<WhitespaceView> {
        match spec_take_run(input, CharClass::Space) {
            Some((rest, matched)) => Parsed::Match { value: WhitespaceView(matched), rest },
            None => Parsed::Fail { at: input },
        }
    }

    fn parse<'a>(input: &'a str) -> (r: Result<(&'a str, Self), ParseError<'a>>) {
        match multispace1(input) {
            Some((rest, matched)) => Ok((rest, Whitespace(matched.to_owned()))),
            None => Err(ParseError { input }),
        }
    }

    proof fn lemma_parse_text(input: Seq<char>) {
        lemma_take_run_text(input, CharClass::Space);
    }

    proof fn lemma_parse_failure(input: Seq<char>) {
        lemma_input_is_suffix(input);
    }
}

impl<V: Visitor> Visitable<V> for Whitespace {
    open spec fn accepted(state: V::State, node: WhitespaceView) -> V::State {
        V::on(state, NodeView::Whitespace(node)).0
    }

    fn accept(&self, visitor: &mut V) {
        let _ = visitor.visit(Node::Whitespace(self));
    }
}

impl<V: VisitorMut> VisitableMut<V> for Whitespace {
    open spec fn accepted_mut(state: V::State, node: WhitespaceView) -> (V::State, WhitespaceView) {
        match V::on_mut(state, NodeView::Whitespace(node)) {
            (after, Some(NodeView::Whitespace(new))) => (after, new),
            (after, Some(_)) => (after, node),
            (after, None) => (after, node),
        }
    }

    fn accept_mut(&mut self, visitor: &mut V) {
        match visitor.visit_mut(Node::Whitespace(self)) {
            Some(OwnedNode::Whitespace(new)) => {
                *self = new;
            },
            _ => {},
        }
    }
}

} // verus!
