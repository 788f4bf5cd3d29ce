use vstd::prelude::*;
use crate::ast::terminal::identifier::{Identifier, IdentifierView};
use crate::ast::trivia::with_trivia::WithTrivia;
use crate::parser::{lemma_failure_behind, Parsed, ParseError, Parser, SourceText};
use crate::visitor::{Node, NodeView, OwnedNode, Visitable, VisitableMut, Visitor, VisitorMut};

verus! {

/// The name of a type.
#[derive(Debug, Clone, PartialEq, Eq)]
pub struct Type(pub Identifier);

/// The model of `Type`.
pub struct TypeView(pub IdentifierView);

impl DeepView for Type {
    type V = TypeView;

    open spec fn deep_view(&self) -> TypeView {
        TypeView(self.0.deep_view())
    }
}

impl SourceText for TypeView {
    open spec fn text(self) -> Seq<char> {
        self.0.text()
    }
}

impl Parser for Type {
    #[verifier::opaque]
    open spec fn spec_parse(input: Seq<char>) -> Parsed<TypeView> {
        match Identifier::spec_parse(input) {
            Parsed::Match { value, rest } => Parsed::Match { value: TypeView(value), rest },
            Parsed::Fail { at } => Parsed::Fail { at },
        }
    }

    fn parse<'a>(input: &'a str) -> (r: Result<(&'a str, Self), ParseError<'a>>) {
        proof {
            reveal(<Type as Parser>::spec_parse);
        }
        match Identifier::parse(input) {
            Ok((rest, name)) => Ok((rest, Type(name))),
            Err(e) => Err(e),
        }
    }

    proof fn lemma_parse_text(input: Seq<char>) {
        reveal(<Type as Parser>::spec_parse);
        Identifier::lemma_parse_text(input);
    }

    proof fn lemma_parse_failure(input: Seq<char>) {
        reveal(<Type as Parser>::spec_parse);
        Identifier::lemma_parse_failure(input);
    }
}

/// A type name that an identifier follows. The identifier is looked at and
/// left in the input: it is what tells `int x` from the bare name `x`.
#[derive(Debug, Clone, PartialEq, Eq)]
pub struct TypeFollowedById(pub Type);

/// The model of `TypeFollowedById`.
pub struct TypeFollowedByIdView(pub TypeView);

impl DeepView for TypeFollowedById {
    type V = TypeFollowedByIdView;

    open spec fn deep_view(&self) -> TypeFollowedByIdView {
        TypeFollowedByIdView(self.0.deep_view())
    }
}

impl SourceText for TypeFollowedByIdView {
    open spec fn text(self) -> Seq<char> {
        self.0.text()
    }
}

impl Parser for TypeFollowedById {
    /// A type name, provided that trivia and an identifier stand behind it;
    /// only the type name is consumed.
    #[verifier::opaque]
    open spec fn spec_parse(input: Seq<char>) -> Parsed<TypeFollowedByIdView> {
        match Type::spec_parse(input) {
            Parsed::Fail { at } => Parsed::Fail { at },
            Parsed::Match { value, rest } => match WithTrivia::<Identifier>::spec_parse(rest) {
                Parsed::Fail { at } => Parsed::Fail { at },
                Parsed::Match { .. } => Parsed::Match { value: TypeFollowedByIdView(value), rest },
            },
        }
    }

    fn parse<'a>(input: &'a str) -> (r: Result<(&'a str, Self), ParseError<'a>>) {
        proof {
            reveal(<TypeFollowedById as Parser>::spec_parse);
        }
        match Type::parse(input) {
            Err(e) => Err(e),
            Ok((rest, name)) => match WithTrivia::<Identifier>::parse(rest) {
                Err(e) => Err(e),
                Ok(_) => Ok((rest, TypeFollowedById(name))),
            },
        }
    }

    proof fn lemma_parse_text(input: Seq<char>) {
        reveal(<TypeFollowedById as Parser>::spec_parse);
        Type::lemma_parse_text(input);
    }

    proof fn lemma_parse_failure(input: Seq<char>) {
        reveal(<TypeFollowedById as Parser>::spec_parse);
        Type::lemma_parse_failure(input);
        Type::lemma_parse_text(input);
        if let Parsed::Match { value, rest } = Type::spec_parse(input) {
            WithTrivia::<Identifier>::lemma_parse_failure(rest);
            if let Parsed::Fail { at } = WithTrivia::<Identifier>::spec_parse(rest) {
                lemma_failure_behind(at, value.text(), rest);
            }
        }
    }
}

/// A type name that is read is not empty.
pub proof fn lemma_type_not_empty(input: Seq<char>)
    ensures
        TypeFollowedById::spec_parse(input) matches Parsed::Match { value, rest }
            ==> value.text().len() > 0,
{
    reveal(<TypeFollowedById as Parser>::spec_parse);
    reveal(<Type as Parser>::spec_parse);
    crate::ast::terminal::identifier::lemma_identifier_not_empty(input);
}

impl<V: Visitor> Visitable<V> for Type {
    open spec fn accepted(state: V::State, node: TypeView) -> V::State {
        let seen = V::on(state, NodeView::Type(node));
        if seen.1 {
            seen.0
        } else {
            <Identifier as Visitable<V>>::accepted(seen.0, node.0)
        }
    }

    fn accept(&self, visitor: &mut V) {
        if !visitor.visit(Node::Type(self)) {
            self.0.accept(visitor);
        }
    }
}

impl<V: Visitor> Visitable<V> for TypeFollowedById {
    open spec fn accepted(state: V::State, node: TypeFollowedByIdView) -> V::State {
        let seen = V::on(state, NodeView::TypeFollowedById(node));
        if seen.1 {
            seen.0
        } else {
            <Type as Visitable<V>>::accepted(seen.0, node.0)
        }
    }

    fn accept(&self, visitor: &mut V) {
        if !visitor.visit(Node::TypeFollowedById(self)) {
            self.0.accept(visitor);
        }
    }
}

impl<V: VisitorMut> VisitableMut<V> for Type {
    open spec fn accepted_mut(state: V::State, node: TypeView) -> (V::State, TypeView) {
        match V::on_mut(state, NodeView::Type(node)) {
            (after, Some(NodeView::Type(new))) => (after, new),
            (after, Some(_)) => (after, node),
            (after, None) => {
                let name = <Identifier as VisitableMut<V>>::accepted_mut(after, node.0);
                (name.0, TypeView(name.1))
            },
        }
    }

    fn accept_mut(&mut self, visitor: &mut V) {
        match visitor.visit_mut(Node::Type(self)) {
            Some(OwnedNode::Type(new)) => {
                *self = new;
            },
            Some(_) => {},
            None => {
                self.0.accept_mut(visitor);
            },
        }
    }
}

impl<V: VisitorMut> VisitableMut<V> for TypeFollowedById {
    open spec fn accepted_mut(
        state: V::State,
        node: TypeFollowedByIdView,
    ) -> (V::State, TypeFollowedByIdView) {
        match V::on_mut(state, NodeView::TypeFollowedById(node)) {
            (after, Some(NodeView::TypeFollowedById(new))) => (after, new),
            (after, Some(_)) => (after, node),
            (after, None) => {
                let ty = <Type as VisitableMut<V>>::accepted_mut(after, node.0);
                (ty.0, TypeFollowedByIdView(ty.1))
            },
        }
    }

    fn accept_mut(&mut self, visitor: &mut V) {
        match visitor.visit_mut(Node::TypeFollowedById(self)) {
            Some(OwnedNode::TypeFollowedById(new)) => {
                *self = new;
            },
            Some(_) => {},
            None => {
                self.0.accept_mut(visitor);
            },
        }
    }
}

} // verus!
