use vstd::prelude::*;
use crate::parser::{lemma_input_is_suffix, Parsed, ParseError, Parser, SourceText};
use crate::visitor::{Node, NodeView, OwnedNode, Visitable, VisitableMut, Visitor, VisitorMut};

verus! {

/// The end of the input. It stands for no text; the trivia in front of it is
/// what trails the last statement.
#[derive(Debug, Clone, Copy, PartialEq, Eq)]
pub struct EndOfFile;

impl DeepView for EndOfFile {
    type V = EndOfFile;

    open spec fn deep_view(&self) -> EndOfFile {
        *self
    }
}

impl SourceText for EndOfFile {
    open spec fn text(self) -> Seq<char> {
        Seq::empty()
    }
}

impl Parser for EndOfFile {
    /// Matches where nothing is left, and fails wherever something is.
    open spec fn spec_parse(input: Seq<char>) -> Parsed<EndOfFile> {
        if input.len() == 0 {
            Parsed::Match { value: EndOfFile, rest: input }
        } else {
            Parsed::Fail { at: input }
        }
    }

    fn parse<'a>(input: &'a str) -> (r: Result<(&'a str, Self), ParseError<'a>>) {
        if input.is_empty() {
            Ok((input, EndOfFile))
        } else {
            Err(ParseError { input })
        }
    }

    proof fn lemma_parse_text(input: Seq<char>) {
        assert(input =~= Seq::<char>::empty() + input);
    }

    proof fn lemma_parse_failure(input: Seq<char>) {
        lemma_input_is_suffix(input);
    }
}

impl<V: Visitor> Visitable<V> for EndOfFile {
    open spec fn accepted(state: V::State, node: EndOfFile) -> V::State {
        V::on(state, NodeView::EndOfFile(node)).0
    }

    fn accept(&self, visitor: &mut V) {
        let _ = visitor.visit(Node::EndOfFile(self));
    }
}

impl<V: VisitorMut> VisitableMut<V> for EndOfFile {
    open spec fn accepted_mut(state: V::State, node: EndOfFile) -> (V::State, EndOfFile) {
        match V::on_mut(state, NodeView::EndOfFile(node)) {
            (after, Some(NodeView::EndOfFile(new))) => (after, new),
            (after, Some(_)) => (after, node),
            (after, None) => (after, node),
        }
    }

    fn accept_mut(&mut self, visitor: &mut V) {
        match visitor.visit_mut(Node::EndOfFile(self)) {
            Some(OwnedNode::EndOfFile(new)) => {
                *self = new;
            },
            _ => {},
        }
    }
}

} // verus!
