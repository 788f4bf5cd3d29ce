use vstd::prelude::*;
use crate::ast::statements::assignment::{AssignmentList, AssignmentListView};
use crate::ast::structure::type_struct::{TypeFollowedById, TypeFollowedByIdView};
use crate::ast::terminal::keyword::KwGlobal;
use crate::ast::terminal::symbol::Semi;
use crate::ast::trivia::with_trivia::{WithTrivia, WithTriviaView};
use crate::parser::{Parsed, ParseError, Parser, SourceText};
use crate::visitor::{Node, NodeView, OwnedNode, Visitable, VisitableMut, Visitor, VisitorMut};

verus! {

/// `global`, a type where one is given, the names declared, and `;` where
/// there is one.
#[derive(Debug, Clone, PartialEq, Eq)]
pub struct GlobalDeclaration(
    pub WithTrivia<KwGlobal>,
    pub Option<WithTrivia<TypeFollowedById>>,
    pub AssignmentList,
    pub Option<WithTrivia<Semi>>,
);

/// The model of `GlobalDeclaration`.
pub struct GlobalDeclarationView(
    pub WithTriviaView<KwGlobal>,
    pub Option<WithTriviaView<TypeFollowedByIdView>>,
    pub AssignmentListView,
    pub Option<WithTriviaView<Semi>>,
);

impl DeepView for GlobalDeclaration {
    type V = GlobalDeclarationView;

    open spec fn deep_view(&self) -> GlobalDeclarationView {
        GlobalDeclarationView(
            self.0.deep_view(),
            self.1.deep_view(),
            self.2.deep_view(),
            self.3.deep_view(),
        )
    }
}

impl SourceText for GlobalDeclarationView {
    open spec fn text(self) -> Seq<char> {
        self.0.text() + self.1.text() + self.2.text() + self.3.text()
    }
}

/// The parts of a global declaration, in the order in which they are read.
pub type GlobalDeclarationParts = (
    WithTrivia<KwGlobal>,
    (Option<WithTrivia<TypeFollowedById>>, (AssignmentList, Option<WithTrivia<Semi>>)),
);

impl Parser for GlobalDeclaration {
    #[verifier::opaque]
    open spec fn spec_parse(input: Seq<char>) -> Parsed<GlobalDeclarationView> {
        match GlobalDeclarationParts::spec_parse(input) {
            Parsed::Match { value: (global, (ty, (assignments, semi))), rest } => Parsed::Match {
                value: GlobalDeclarationView(global, ty, assignments, semi),
                rest,
            },
            Parsed::Fail { at } => Parsed::Fail { at },
        }
    }

    fn parse<'a>(input: &'a str) -> (r: Result<(&'a str, Self), ParseError<'a>>) {
        proof {
            reveal(<GlobalDeclaration as Parser>::spec_parse);
        }
        match GlobalDeclarationParts::parse(input) {
            Ok((rest, (global, (ty, (assignments, semi))))) => Ok(
                (rest, GlobalDeclaration(global, ty, assignments, semi)),
            ),
            Err(e) => Err(e),
        }
    }

    proof fn lemma_parse_text(input: Seq<char>) {
        reveal(<GlobalDeclaration as Parser>::spec_parse);
        GlobalDeclarationParts::lemma_parse_text(input);
        if let Parsed::Match { value: (global, (ty, (assignments, semi))), rest } =
            GlobalDeclarationParts::spec_parse(input) {
            assert(input =~= global.text() + ty.text() + assignments.text() + semi.text() + rest);
        }
    }

    proof fn lemma_parse_failure(input: Seq<char>) {
        reveal(<GlobalDeclaration as Parser>::spec_parse);
        GlobalDeclarationParts::lemma_parse_failure(input);
    }
}

impl<V: Visitor> Visitable<V> for GlobalDeclaration {
    open spec fn accepted(state: V::State, node: GlobalDeclarationView) -> V::State {
        let seen = V::on(state, NodeView::GlobalDeclaration(node));
        if seen.1 {
            seen.0
        } else {
            let after_first = <WithTrivia<KwGlobal> as Visitable<V>>::accepted(seen.0, node.0);
            let after_second = <Option<WithTrivia<TypeFollowedById>> as Visitable<V>>::accepted(
                after_first,
                node.1,
            );
            let after_third = <AssignmentList as Visitable<V>>::accepted(after_second, node.2);
            <Option<WithTrivia<Semi>> as Visitable<V>>::accepted(after_third, node.3)
        }
    }

    fn accept(&self, visitor: &mut V) {
        if !visitor.visit(Node::GlobalDeclaration(self)) {
            self.0.accept(visitor);
            self.1.accept(visitor);
            self.2.accept(visitor);
            self.3.accept(visitor);
        }
    }
}

impl<V: VisitorMut> VisitableMut<V> for GlobalDeclaration {
    open spec fn accepted_mut(
        state: V::State,
        node: GlobalDeclarationView,
    ) -> (V::State, GlobalDeclarationView) {
        match V::on_mut(state, NodeView::GlobalDeclaration(node)) {
            (after, Some(NodeView::GlobalDeclaration(new))) => (after, new),
            (after, Some(_)) => (after, node),
            (after, None) => {
                let global = <WithTrivia<KwGlobal> as VisitableMut<V>>::accepted_mut(after, node.0);
                let ty = <Option<WithTrivia<TypeFollowedById>> as VisitableMut<V>>::accepted_mut(
                    global.0,
                    node.1,
                );
                let assignments = <AssignmentList as VisitableMut<V>>::accepted_mut(ty.0, node.2);
                let semi = <Option<WithTrivia<Semi>> as VisitableMut<V>>::accepted_mut(
                    assignments.0,
                    node.3,
                );
                (semi.0, GlobalDeclarationView(global.1, ty.1, assignments.1, semi.1))
            },
        }
    }

    fn accept_mut(&mut self, visitor: &mut V) {
        match visitor.visit_mut(Node::GlobalDeclaration(self)) {
            Some(OwnedNode::GlobalDeclaration(new)) => {
                *self = new;
            },
            Some(_) => {},
            None => {
                self.0.accept_mut(visitor);
                self.1.accept_mut(visitor);
                self.2.accept_mut(visitor);
                self.3.accept_mut(visitor);
            },
        }
    }
}

} // verus!
