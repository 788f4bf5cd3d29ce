use vstd::prelude::*;
use crate::ast::expressions::{Expression, ExpressionView};
use crate::ast::terminal::identifier::{Identifier, IdentifierView};
use crate::ast::terminal::symbol::{Comma, Equal};
use crate::ast::trivia::with_trivia::{WithTrivia, WithTriviaView};
use crate::ast::utils::separated::{Separated1, SeparatedView};
use crate::parser::{Parsed, ParseError, Parser, SourceText};
use crate::visitor::{Node, NodeView, OwnedNode, Visitable, VisitableMut, Visitor, VisitorMut};

verus! {

/// A name, and the value it is given where there is one.
#[derive(Debug, Clone, PartialEq, Eq)]
pub struct Assignment(pub Identifier, pub Option<(WithTrivia<Equal>, WithTrivia<Expression>)>);

/// The model of `Assignment`.
pub struct AssignmentView(
    pub IdentifierView,
    pub Option<(WithTriviaView<Equal>, WithTriviaView<ExpressionView>)>,
);

impl DeepView for Assignment {
    type V = AssignmentView;

    open spec fn deep_view(&self) -> AssignmentView {
        AssignmentView(self.0.deep_view(), self.1.deep_view())
    }
}

impl SourceText for AssignmentView {
    open spec fn text(self) -> Seq<char> {
        self.0.text() + self.1.text()
    }
}

/// The parts of an assignment, in the order in which they are read.
pub type AssignmentParts = (Identifier, Option<(WithTrivia<Equal>, WithTrivia<Expression>)>);

impl Parser for Assignment {
    /// An identifier, then `=` and an expression where both are there.
    #[verifier::opaque]
    open spec fn spec_parse(input: Seq<char>) -> Parsed<AssignmentView> {
        match AssignmentParts::spec_parse(input) {
            Parsed::Match { value: (name, initializer), rest } => Parsed::Match {
                value: AssignmentView(name, initializer),
                rest,
            },
            Parsed::Fail { at } => Parsed::Fail { at },
        }
    }

    fn parse<'a>(input: &'a str) -> (r: Result<(&'a str, Self), ParseError<'a>>) {
        proof {
            reveal(<Assignment as Parser>::spec_parse);
        }
        match AssignmentParts::parse(input) {
            Ok((rest, (name, initializer))) => Ok((rest, Assignment(name, initializer))),
            Err(e) => Err(e),
        }
    }

    proof fn lemma_parse_text(input: Seq<char>) {
        reveal(<Assignment as Parser>::spec_parse);
        AssignmentParts::lemma_parse_text(input);
    }

    proof fn lemma_parse_failure(input: Seq<char>) {
        reveal(<Assignment as Parser>::spec_parse);
        AssignmentParts::lemma_parse_failure(input);
    }
}

/// One assignment or more, with commas between them, in the order in which
/// they are declared.
#[derive(Debug, Clone, PartialEq, Eq)]
pub struct AssignmentList(pub Separated1<WithTrivia<Assignment>, WithTrivia<Comma>>);

/// The model of `AssignmentList`.
pub struct AssignmentListView(
    pub SeparatedView<WithTriviaView<AssignmentView>, WithTriviaView<Comma>>,
);

impl DeepView for AssignmentList {
    type V = AssignmentListView;

    open spec fn deep_view(&self) -> AssignmentListView {
        AssignmentListView(self.0.deep_view())
    }
}

impl SourceText for AssignmentListView {
    open spec fn text(self) -> Seq<char> {
        self.0.text()
    }
}

impl Parser for AssignmentList {
    /// Assignments separated by commas, at least one. A comma that no
    /// assignment follows is a failure.
    #[verifier::opaque]
    open spec fn spec_parse(input: Seq<char>) -> Parsed<AssignmentListView> {
        match Separated1::<WithTrivia<Assignment>, WithTrivia<Comma>>::spec_parse(input) {
            Parsed::Match { value, rest } => Parsed::Match {
                value: AssignmentListView(value),
                rest,
            },
            Parsed::Fail { at } => Parsed::Fail { at },
        }
    }

    fn parse<'a>(input: &'a str) -> (r: Result<(&'a str, Self), ParseError<'a>>) {
        proof {
            reveal(<AssignmentList as Parser>::spec_parse);
        }
        match Separated1::<WithTrivia<Assignment>, WithTrivia<Comma>>::parse(input) {
            Ok((rest, list)) => Ok((rest, AssignmentList(list))),
            Err(e) => Err(e),
        }
    }

    proof fn lemma_parse_text(input: Seq<char>) {
        reveal(<AssignmentList as Parser>::spec_parse);
        Separated1::<WithTrivia<Assignment>, WithTrivia<Comma>>::lemma_parse_text(input);
    }

    proof fn lemma_parse_failure(input: Seq<char>) {
        reveal(<AssignmentList as Parser>::spec_parse);
        Separated1::<WithTrivia<Assignment>, WithTrivia<Comma>>::lemma_parse_failure(input);
    }
}

impl<V: Visitor> Visitable<V> for Assignment {
    open spec fn accepted(state: V::State, node: AssignmentView) -> V::State {
        let seen = V::on(state, NodeView::Assignment(node));
        if seen.1 {
            seen.0
        } else {
            let after_first = <Identifier as Visitable<V>>::accepted(seen.0, node.0);
            <Option<(WithTrivia<Equal>, WithTrivia<Expression>)> as Visitable<V>>::accepted(
                after_first,
                node.1,
            )
        }
    }

    fn accept(&self, visitor: &mut V) {
        if !visitor.visit(Node::Assignment(self)) {
            self.0.accept(visitor);
            self.1.accept(visitor);
        }
    }
}

impl<V: Visitor> Visitable<V> for AssignmentList {
    open spec fn accepted(state: V::State, node: AssignmentListView) -> V::State {
        let seen = V::on(state, NodeView::AssignmentList(node));
        if seen.1 {
            seen.0
        } else {
            <Separated1<WithTrivia<Assignment>, WithTrivia<Comma>> as Visitable<V>>::accepted(
                seen.0,
                node.0,
            )
        }
    }

    fn accept(&self, visitor: &mut V) {
        if !visitor.visit(Node::AssignmentList(self)) {
            self.0.accept(visitor);
        }
    }
}

impl<V: VisitorMut> VisitableMut<V> for Assignment {
    open spec fn accepted_mut(state: V::State, node: AssignmentView) -> (V::State, AssignmentView) {
        match V::on_mut(state, NodeView::Assignment(node)) {
            (after, Some(NodeView::Assignment(new))) => (after, new),
            (after, Some(_)) => (after, node),
            (after, None) => {
                let name = <Identifier as VisitableMut<V>>::accepted_mut(after, node.0);
                let initializer = <Option<
                    (WithTrivia<Equal>, WithTrivia<Expression>),
                > as VisitableMut<V>>::accepted_mut(
                    name.0,
                    node.1,
                );
                (initializer.0, AssignmentView(name.1, initializer.1))
            },
        }
    }

    fn accept_mut(&mut self, visitor: &mut V) {
        match visitor.visit_mut(Node::Assignment(self)) {
            Some(OwnedNode::Assignment(new)) => {
                *self = new;
            },
            Some(_) => {},
            None => {
                self.0.accept_mut(visitor);
                self.1.accept_mut(visitor);
            },
        }
    }
}

impl<V: VisitorMut> VisitableMut<V> for AssignmentList {
    open spec fn accepted_mut(
        state: V::State,
        node: AssignmentListView,
    ) -> (V::State, AssignmentListView) {
        match V::on_mut(state, NodeView::AssignmentList(node)) {
            (after, Some(NodeView::AssignmentList(new))) => (after, new),
            (after, Some(_)) => (after, node),
            (after, None) => {
                let list = <Separated1<
                    WithTrivia<Assignment>,
                    WithTrivia<Comma>,
                > as VisitableMut<V>>::accepted_mut(
                    after,
                    node.0,
                );
                (list.0, AssignmentListView(list.1))
            },
        }
    }

    fn accept_mut(&mut self, visitor: &mut V) {
        match visitor.visit_mut(Node::AssignmentList(self)) {
            Some(OwnedNode::AssignmentList(new)) => {
                *self = new;
            },
            Some(_) => {},
            None => {
                self.0.accept_mut(visitor);
            },
        }
    }
}

} // verus!
