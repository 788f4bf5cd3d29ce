use vstd::prelude::*;
use crate::ast::trivia::comment::{Comment, CommentView};
use crate::ast::trivia::whitespace::{Whitespace, WhitespaceView};
use crate::parser::{Parsed, ParseError, Parser, SourceText};
use crate::visitor::{Node, NodeView, OwnedNode, Visitable, VisitableMut, Visitor, VisitorMut};

verus! {

/// Text between the tokens: whitespace or a comment.
#[derive(Debug, Clone, PartialEq, Eq)]
pub enum Trivia {
    Whitespace(Whitespace),
    Comment(Comment),
}

/// The model of `Trivia`.
pub enum TriviaView {
    Whitespace(WhitespaceView),
    Comment(CommentView),
}

impl DeepView for Trivia {
    type V = TriviaView;

    open spec fn deep_view(&self) -> TriviaView {
        match self {
            Trivia::Whitespace(node) => TriviaView::Whitespace(node.deep_view()),
            Trivia::Comment(node) => TriviaView::Comment(node.deep_view()),
        }
    }
}

impl SourceText for TriviaView {
    open spec fn text(self) -> Seq<char> {
        match self {
            TriviaView::Whitespace(node) => node.text(),
            TriviaView::Comment(node) => node.text(),
        }
    }
}

impl Parser for Trivia {
    /// Whitespace, or else a comment.
    #[verifier::opaque]
    open spec fn spec_parse(input: Seq<char>) -> Parsed<TriviaView> {
        match Whitespace::spec_parse(input) {
            Parsed::Match { value, rest } => Parsed::Match {
                value: TriviaView::Whitespace(value),
                rest,
            },
            Parsed::Fail { .. } => match Comment::spec_parse(input) {
                Parsed::Match { value, rest } => Parsed::Match {
                    value: TriviaView::Comment(value),
                    rest,
                },
                Parsed::Fail { at } => Parsed::Fail { at },
            },
        }
    }

    fn parse<'a>(input: &'a str) -> (r: Result<(&'a str, Self), ParseError<'a>>) {
        proof {
            reveal(<Trivia as Parser>::spec_parse);
        }
        match Whitespace::parse(input) {
            Ok((rest, node)) => Ok((rest, Trivia::Whitespace(node))),
            Err(_) => match Comment::parse(input) {
                Ok((rest, node)) => Ok((rest, Trivia::Comment(node))),
                Err(e) => Err(e),
            },
        }
    }

    proof fn lemma_parse_text(input: Seq<char>) {
        reveal(<Trivia as Parser>::spec_parse);
        Whitespace::lemma_parse_text(input);
        Comment::lemma_parse_text(input);
    }

    proof fn lemma_parse_failure(input: Seq<char>) {
        reveal(<Trivia as Parser>::spec_parse);
        Comment::lemma_parse_failure(input);
    }
}

impl<V: Visitor> Visitable<V> for Trivia {
    open spec fn accepted(state: V::State, node: TriviaView) -> V::State {
        let seen = V::on(state, NodeView::Trivia(node));
        if seen.1 {
            seen.0
        } else {
            match node {
                TriviaView::Whitespace(inner) => <Whitespace as Visitable<V>>::accepted(
                    seen.0,
                    inner,
                ),
                TriviaView::Comment(inner) => <Comment as Visitable<V>>::accepted(seen.0, inner),
            }
        }
    }

    fn accept(&self, visitor: &mut V) {
        if !visitor.visit(Node::Trivia(self)) {
            match self {
                Trivia::Whitespace(inner) => {
                    inner.accept(visitor);
                },
                Trivia::Comment(inner) => {
                    inner.accept(visitor);
                },
            }
        }
    }
}

impl<V: VisitorMut> VisitableMut<V> for Trivia {
    open spec fn accepted_mut(state: V::State, node: TriviaView) -> (V::State, TriviaView) {
        match V::on_mut(state, NodeView::Trivia(node)) {
            (after, Some(NodeView::Trivia(new))) => (after, new),
            (after, Some(_)) => (after, node),
            (after, None) => match node {
                TriviaView::Whitespace(inner) => {
                    let new_inner = <Whitespace as VisitableMut<V>>::accepted_mut(after, inner);
                    (new_inner.0, TriviaView::Whitespace(new_inner.1))
                },
                TriviaView::Comment(inner) => {
                    let new_inner = <Comment as VisitableMut<V>>::accepted_mut(after, inner);
                    (new_inner.0, TriviaView::Comment(new_inner.1))
                },
            },
        }
    }

    fn accept_mut(&mut self, visitor: &mut V) {
        match visitor.visit_mut(Node::Trivia(self)) {
            Some(OwnedNode::Trivia(new)) => {
                *self = new;
            },
            Some(_) => {},
            None => {
                match self {
                    Trivia::Whitespace(inner) => {
                        inner.accept_mut(visitor);
                    },
                    Trivia::Comment(inner) => {
                        inner.accept_mut(visitor);
                    },
                }
            },
        }
    }
}

} // verus!
