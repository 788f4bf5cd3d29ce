use vstd::prelude::*;
use crate::ast::statements::assignment::{AssignmentList, AssignmentListView};
use crate::ast::structure::type_struct::{TypeFollowedById, TypeFollowedByIdView};
use crate::ast::terminal::keyword::KwVar;
use crate::ast::terminal::symbol::Semi;
use crate::ast::trivia::with_trivia::{WithTrivia, WithTriviaView};
use crate::parser::{Parsed, ParseError, Parser, SourceText};
use crate::visitor::{Node, NodeView, OwnedNode, Visitable, VisitableMut, Visitor, VisitorMut};

verus! {

/// A declaration of variables, with a type or with `var`, and `;` where there
/// is one.
#[derive(Debug, Clone, PartialEq, Eq)]
pub enum VariableDeclaration {
    WithType(TypeFollowedById, AssignmentList, Option<WithTrivia<Semi>>),
    UnspecifiedType(KwVar, AssignmentList, Option<WithTrivia<Semi>>),
}

/// The model of `VariableDeclaration`.
pub enum VariableDeclarationView {
    WithType(TypeFollowedByIdView, AssignmentListView, Option<WithTriviaView<Semi>>),
    UnspecifiedType(KwVar, AssignmentListView, Option<WithTriviaView<Semi>>),
}

impl DeepView for VariableDeclaration {
    type V = VariableDeclarationView;

    open spec fn deep_view(&self) -> VariableDeclarationView {
        match self {
            VariableDeclaration::WithType(ty, assignments, semi) => {
                VariableDeclarationView::WithType(
                    ty.deep_view(),
                    assignments.deep_view(),
                    semi.deep_view(),
                )
            },
            VariableDeclaration::UnspecifiedType(var, assignments, semi) => {
                VariableDeclarationView::UnspecifiedType(
                    var.deep_view(),
                    assignments.deep_view(),
                    semi.deep_view(),
                )
            },
        }
    }
}

impl SourceText for VariableDeclarationView {
    open spec fn text(self) -> Seq<char> {
        match self {
            VariableDeclarationView::WithType(ty, assignments, semi) => ty.text()
                + assignments.text() + semi.text(),
            VariableDeclarationView::UnspecifiedType(var, assignments, semi) => var.text()
                + assignments.text() + semi.text(),
        }
    }
}

/// The parts of a declaration with a type.
pub type TypedParts = (TypeFollowedById, (AssignmentList, Option<WithTrivia<Semi>>));

/// The parts of a declaration with `var`.
pub type UntypedParts = (KwVar, (AssignmentList, Option<WithTrivia<Semi>>));

impl Parser for VariableDeclaration {
    /// A declaration with a type, or else one with `var`.
    #[verifier::opaque]
    open spec fn spec_parse(input: Seq<char>) -> Parsed<VariableDeclarationView> {
        match TypedParts::spec_parse(input) {
            Parsed::Match { value: (ty, (assignments, semi)), rest } => Parsed::Match {
                value: VariableDeclarationView::WithType(ty, assignments, semi),
                rest,
            },
            Parsed::Fail { .. } => match UntypedParts::spec_parse(input) {
                Parsed::Match { value: (var, (assignments, semi)), rest } => Parsed::Match {
                    value: VariableDeclarationView::UnspecifiedType(var, assignments, semi),
                    rest,
                },
                Parsed::Fail { at } => Parsed::Fail { at },
            },
        }
    }

    fn parse<'a>(input: &'a str) -> (r: Result<(&'a str, Self), ParseError<'a>>) {
        proof {
            reveal(<VariableDeclaration as Parser>::spec_parse);
        }
        match TypedParts::parse(input) {
            Ok((rest, (ty, (assignments, semi)))) => Ok(
                (rest, VariableDeclaration::WithType(ty, assignments, semi)),
            ),
            Err(_) => match UntypedParts::parse(input) {
                Ok((rest, (var, (assignments, semi)))) => Ok(
                    (rest, VariableDeclaration::UnspecifiedType(var, assignments, semi)),
                ),
                Err(e) => Err(e),
            },
        }
    }

    proof fn lemma_parse_text(input: Seq<char>) {
        reveal(<VariableDeclaration as Parser>::spec_parse);
        TypedParts::lemma_parse_text(input);
        UntypedParts::lemma_parse_text(input);
        if let Parsed::Match { value: (ty, (assignments, semi)), rest } = TypedParts::spec_parse(
            input,
        ) {
            assert(input =~= ty.text() + assignments.text() + semi.text() + rest);
        } else if let Parsed::Match { value: (var, (assignments, semi)), rest } =
            UntypedParts::spec_parse(input) {
            assert(input =~= var.text() + assignments.text() + semi.text() + rest);
        }
    }

    proof fn lemma_parse_failure(input: Seq<char>) {
        reveal(<VariableDeclaration as Parser>::spec_parse);
        UntypedParts::lemma_parse_failure(input);
    }
}

/// A declaration that is read is not empty.
pub proof fn lemma_variable_declaration_not_empty(input: Seq<char>)
    ensures
        VariableDeclaration::spec_parse(input) matches Parsed::Match { value, rest }
            ==> value.text().len() > 0,
{
    reveal(<VariableDeclaration as Parser>::spec_parse);
    reveal(crate::parser::pair_spec);
    reveal_strlit("var");
    crate::ast::structure::type_struct::lemma_type_not_empty(input);
}

impl<V: Visitor> Visitable<V> for VariableDeclaration {
    open spec fn accepted(state: V::State, node: VariableDeclarationView) -> V::State {
        let seen = V::on(state, NodeView::VariableDeclaration(node));
        if seen.1 {
            seen.0
        } else {
            match node {
                VariableDeclarationView::WithType(ty, assignments, semi) => {
                    let after_ty = <TypeFollowedById as Visitable<V>>::accepted(seen.0, ty);
                    let after_assignments = <AssignmentList as Visitable<V>>::accepted(
                        after_ty,
                        assignments,
                    );
                    <Option<WithTrivia<Semi>> as Visitable<V>>::accepted(after_assignments, semi)
                },
                VariableDeclarationView::UnspecifiedType(var, assignments, semi) => {
                    let after_var = <KwVar as Visitable<V>>::accepted(seen.0, var);
                    let after_assignments = <AssignmentList as Visitable<V>>::accepted(
                        after_var,
                        assignments,
                    );
                    <Option<WithTrivia<Semi>> as Visitable<V>>::accepted(after_assignments, semi)
                },
            }
        }
    }

    fn accept(&self, visitor: &mut V) {
        if !visitor.visit(Node::VariableDeclaration(self)) {
            match self {
                VariableDeclaration::WithType(ty, assignments, semi) => {
                    ty.accept(visitor);
                    assignments.accept(visitor);
                    semi.accept(visitor);
                },
                VariableDeclaration::UnspecifiedType(var, assignments, semi) => {
                    var.accept(visitor);
                    assignments.accept(visitor);
                    semi.accept(visitor);
                },
            }
        }
    }
}

impl<V: VisitorMut> VisitableMut<V> for VariableDeclaration {
    open spec fn accepted_mut(
        state: V::State,
        node: VariableDeclarationView,
    ) -> (V::State, VariableDeclarationView) {
        match V::on_mut(state, NodeView::VariableDeclaration(node)) {
            (after, Some(NodeView::VariableDeclaration(new))) => (after, new),
            (after, Some(_)) => (after, node),
            (after, None) => match node {
                VariableDeclarationView::WithType(ty, assignments, semi) => {
                    let new_ty = <TypeFollowedById as VisitableMut<V>>::accepted_mut(after, ty);
                    let new_assignments = <AssignmentList as VisitableMut<V>>::accepted_mut(
                        new_ty.0,
                        assignments,
                    );
                    let new_semi = <Option<WithTrivia<Semi>> as VisitableMut<V>>::accepted_mut(
                        new_assignments.0,
                        semi,
                    );
                    (
                        new_semi.0,
                        VariableDeclarationView::WithType(new_ty.1, new_assignments.1, new_semi.1),
                    )
                },
                VariableDeclarationView::UnspecifiedType(var, assignments, semi) => {
                    let new_var = <KwVar as VisitableMut<V>>::accepted_mut(after, var);
                    let new_assignments = <AssignmentList as VisitableMut<V>>::accepted_mut(
                        new_var.0,
                        assignments,
                    );
                    let new_semi = <Option<WithTrivia<Semi>> as VisitableMut<V>>::accepted_mut(
                        new_assignments.0,
                        semi,
                    );
                    (
                        new_semi.0,
                        VariableDeclarationView::UnspecifiedType(
                            new_var.1,
                            new_assignments.1,
                            new_semi.1,
                        ),
                    )
                },
            },
        }
    }

    fn accept_mut(&mut self, visitor: &mut V) {
        match visitor.visit_mut(Node::VariableDeclaration(self)) {
            Some(OwnedNode::VariableDeclaration(new)) => {
                *self = new;
            },
            Some(_) => {},
            None => {
                match self {
                    VariableDeclaration::WithType(ty, assignments, semi) => {
                        ty.accept_mut(visitor);
                        assignments.accept_mut(visitor);
                        semi.accept_mut(visitor);
                    },
                    VariableDeclaration::UnspecifiedType(var, assignments, semi) => {
                        var.accept_mut(visitor);
                        assignments.accept_mut(visitor);
                        semi.accept_mut(visitor);
                    },
                }
            },
        }
    }
}

} // verus!
