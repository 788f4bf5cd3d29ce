//! Traversals of the syntax tree.
//!
//! A visitor is shown the nodes of a tree, depth first and in the order of the
//! text, each before its children. Of each node it either takes over, and the
//! traversal leaves that node to it, or it does not, and the traversal goes
//! on into the node's children. A new traversal is a new visitor that takes
//! over the kinds of node it cares about; no node needs to know of it.

use vstd::prelude::*;
use crate::ast::expressions::{Expression, ExpressionView};
use crate::ast::statements::{Statements, StatementsView};
use crate::ast::statements::assignment::{
    Assignment,
    AssignmentList,
    AssignmentListView,
    AssignmentView,
};
use crate::ast::statements::global_declaration::{GlobalDeclaration, GlobalDeclarationView};
use crate::ast::statements::if_statement::{
    ElseClause,
    ElseClauseView,
    IfStatement,
    IfStatementView,
};
use crate::ast::statements::include_statement::{IncludeStatement, IncludeStatementView};
use crate::ast::statements::variable_declaration::{VariableDeclaration, VariableDeclarationView};
use crate::ast::structure::eof::EndOfFile;
use crate::ast::structure::file::{File, FileView};
use crate::ast::structure::type_struct::{Type, TypeFollowedById, TypeFollowedByIdView, TypeView};
use crate::ast::terminal::identifier::{Identifier, IdentifierView};
use crate::ast::terminal::keyword::{Keywords, KwElse, KwGlobal, KwIf, KwInclude, KwVar};
use crate::ast::terminal::number_literal::{NumberLiteral, NumberLiteralView};
use crate::ast::terminal::string_literal::{Quote, StringLiteral, StringLiteralView};
use crate::ast::terminal::symbol::{Comma, DQuote, Equal, LParen, RParen, Semi, SQuote};
use crate::ast::trivia::comment::{Comment, CommentView};
use crate::ast::trivia::trivia::{Trivia, TriviaView};
use crate::ast::trivia::whitespace::{Whitespace, WhitespaceView};
use crate::ast::trivia::with_trivia::{WithTrivia, WithTriviaView};
use crate::ast::utils::repeat::Repeat;
use crate::ast::utils::separated::{Separated, SeparatedView};

pub mod includer;
pub mod writer;

verus! {

/// A node of any kind, as a visitor is shown it.
#[derive(Debug, Clone, Copy)]
pub enum Node<'a> {
    Whitespace(&'a Whitespace),
    Comment(&'a Comment),
    Trivia(&'a Trivia),
    Identifier(&'a Identifier),
    KwGlobal(&'a KwGlobal),
    KwVar(&'a KwVar),
    KwInclude(&'a KwInclude),
    KwIf(&'a KwIf),
    KwElse(&'a KwElse),
    Keywords(&'a Keywords),
    Semi(&'a Semi),
    Comma(&'a Comma),
    Equal(&'a Equal),
    LParen(&'a LParen),
    RParen(&'a RParen),
    SQuote(&'a SQuote),
    DQuote(&'a DQuote),
    Quote(&'a Quote),
    NumberLiteral(&'a NumberLiteral),
    StringLiteral(&'a StringLiteral),
    Expression(&'a Expression),
    Type(&'a Type),
    TypeFollowedById(&'a TypeFollowedById),
    Assignment(&'a Assignment),
    AssignmentList(&'a AssignmentList),
    GlobalDeclaration(&'a GlobalDeclaration),
    VariableDeclaration(&'a VariableDeclaration),
    IncludeStatement(&'a IncludeStatement),
    IfStatement(&'a IfStatement),
    ElseClause(&'a ElseClause),
    Statements(&'a Statements),
    EndOfFile(&'a EndOfFile),
    File(&'a File),
}

/// A node of any kind, held by value: what a rewriting visitor puts in the
/// place of a node.
#[derive(Debug, PartialEq, Eq)]
pub enum OwnedNode {
    Whitespace(Whitespace),
    Comment(Comment),
    Trivia(Trivia),
    Identifier(Identifier),
    KwGlobal(KwGlobal),
    KwVar(KwVar),
    KwInclude(KwInclude),
    KwIf(KwIf),
    KwElse(KwElse),
    Keywords(Keywords),
    Semi(Semi),
    Comma(Comma),
    Equal(Equal),
    LParen(LParen),
    RParen(RParen),
    SQuote(SQuote),
    DQuote(DQuote),
    Quote(Quote),
    NumberLiteral(NumberLiteral),
    StringLiteral(StringLiteral),
    Expression(Expression),
    Type(Type),
    TypeFollowedById(TypeFollowedById),
    Assignment(Assignment),
    AssignmentList(AssignmentList),
    GlobalDeclaration(GlobalDeclaration),
    VariableDeclaration(VariableDeclaration),
    IncludeStatement(IncludeStatement),
    IfStatement(IfStatement),
    ElseClause(ElseClause),
    Statements(Statements),
    EndOfFile(EndOfFile),
    File(File),
}

/// The model of a node of any kind.
pub enum NodeView {
    Whitespace(WhitespaceView),
    Comment(CommentView),
    Trivia(TriviaView),
    Identifier(IdentifierView),
    KwGlobal(KwGlobal),
    KwVar(KwVar),
    KwInclude(KwInclude),
    KwIf(KwIf),
    KwElse(KwElse),
    Keywords(Keywords),
    Semi(Semi),
    Comma(Comma),
    Equal(Equal),
    LParen(LParen),
    RParen(RParen),
    SQuote(SQuote),
    DQuote(DQuote),
    Quote(Quote),
    NumberLiteral(NumberLiteralView),
    StringLiteral(StringLiteralView),
    Expression(ExpressionView),
    Type(TypeView),
    TypeFollowedById(TypeFollowedByIdView),
    Assignment(AssignmentView),
    AssignmentList(AssignmentListView),
    GlobalDeclaration(GlobalDeclarationView),
    VariableDeclaration(VariableDeclarationView),
    IncludeStatement(IncludeStatementView),
    IfStatement(IfStatementView),
    ElseClause(ElseClauseView),
    Statements(StatementsView),
    EndOfFile(EndOfFile),
    File(FileView),
}

impl<'a> View for Node<'a> {
    type V = NodeView;

    open spec fn view(&self) -> NodeView {
        match self {
            Node::Whitespace(node) => NodeView::Whitespace(node.deep_view()),
            Node::Comment(node) => NodeView::Comment(node.deep_view()),
            Node::Trivia(node) => NodeView::Trivia(node.deep_view()),
            Node::Identifier(node) => NodeView::Identifier(node.deep_view()),
            Node::KwGlobal(node) => NodeView::KwGlobal(node.deep_view()),
            Node::KwVar(node) => NodeView::KwVar(node.deep_view()),
            Node::KwInclude(node) => NodeView::KwInclude(node.deep_view()),
            Node::KwIf(node) => NodeView::KwIf(node.deep_view()),
            Node::KwElse(node) => NodeView::KwElse(node.deep_view()),
            Node::Keywords(node) => NodeView::Keywords(node.deep_view()),
            Node::Semi(node) => NodeView::Semi(node.deep_view()),
            Node::Comma(node) => NodeView::Comma(node.deep_view()),
            Node::Equal(node) => NodeView::Equal(node.deep_view()),
            Node::LParen(node) => NodeView::LParen(node.deep_view()),
            Node::RParen(node) => NodeView::RParen(node.deep_view()),
            Node::SQuote(node) => NodeView::SQuote(node.deep_view()),
            Node::DQuote(node) => NodeView::DQuote(node.deep_view()),
            Node::Quote(node) => NodeView::Quote(node.deep_view()),
            Node::NumberLiteral(node) => NodeView::NumberLiteral(node.deep_view()),
            Node::StringLiteral(node) => NodeView::StringLiteral(node.deep_view()),
            Node::Expression(node) => NodeView::Expression(node.deep_view()),
            Node::Type(node) => NodeView::Type(node.deep_view()),
            Node::TypeFollowedById(node) => NodeView::TypeFollowedById(node.deep_view()),
            Node::Assignment(node) => NodeView::Assignment(node.deep_view()),
            Node::AssignmentList(node) => NodeView::AssignmentList(node.deep_view()),
            Node::GlobalDeclaration(node) => NodeView::GlobalDeclaration(node.deep_view()),
            Node::VariableDeclaration(node) => NodeView::VariableDeclaration(node.deep_view()),
            Node::IncludeStatement(node) => NodeView::IncludeStatement(node.deep_view()),
            Node::IfStatement(node) => NodeView::IfStatement(node.deep_view()),
            Node::ElseClause(node) => NodeView::ElseClause(node.deep_view()),
            Node::Statements(node) => NodeView::Statements(node.deep_view()),
            Node::EndOfFile(node) => NodeView::EndOfFile(node.deep_view()),
            Node::File(node) => NodeView::File(node.deep_view()),
        }
    }
}

impl View for OwnedNode {
    type V = NodeView;

    open spec fn view(&self) -> NodeView {
        match self {
            OwnedNode::Whitespace(node) => NodeView::Whitespace(node.deep_view()),
            OwnedNode::Comment(node) => NodeView::Comment(node.deep_view()),
            OwnedNode::Trivia(node) => NodeView::Trivia(node.deep_view()),
            OwnedNode::Identifier(node) => NodeView::Identifier(node.deep_view()),
            OwnedNode::KwGlobal(node) => NodeView::KwGlobal(node.deep_view()),
            OwnedNode::KwVar(node) => NodeView::KwVar(node.deep_view()),
            OwnedNode::KwInclude(node) => NodeView::KwInclude(node.deep_view()),
            OwnedNode::KwIf(node) => NodeView::KwIf(node.deep_view()),
            OwnedNode::KwElse(node) => NodeView::KwElse(node.deep_view()),
            OwnedNode::Keywords(node) => NodeView::Keywords(node.deep_view()),
            OwnedNode::Semi(node) => NodeView::Semi(node.deep_view()),
            OwnedNode::Comma(node) => NodeView::Comma(node.deep_view()),
            OwnedNode::Equal(node) => NodeView::Equal(node.deep_view()),
            OwnedNode::LParen(node) => NodeView::LParen(node.deep_view()),
            OwnedNode::RParen(node) => NodeView::RParen(node.deep_view()),
            OwnedNode::SQuote(node) => NodeView::SQuote(node.deep_view()),
            OwnedNode::DQuote(node) => NodeView::DQuote(node.deep_view()),
            OwnedNode::Quote(node) => NodeView::Quote(node.deep_view()),
            OwnedNode::NumberLiteral(node) => NodeView::NumberLiteral(node.deep_view()),
            OwnedNode::StringLiteral(node) => NodeView::StringLiteral(node.deep_view()),
            OwnedNode::Expression(node) => NodeView::Expression(node.deep_view()),
            OwnedNode::Type(node) => NodeView::Type(node.deep_view()),
            OwnedNode::TypeFollowedById(node) => NodeView::TypeFollowedById(node.deep_view()),
            OwnedNode::Assignment(node) => NodeView::Assignment(node.deep_view()),
            OwnedNode::AssignmentList(node) => NodeView::AssignmentList(node.deep_view()),
            OwnedNode::GlobalDeclaration(node) => NodeView::GlobalDeclaration(node.deep_view()),
            OwnedNode::VariableDeclaration(node) => NodeView::VariableDeclaration(node.deep_view()),
            OwnedNode::IncludeStatement(node) => NodeView::IncludeStatement(node.deep_view()),
            OwnedNode::IfStatement(node) => NodeView::IfStatement(node.deep_view()),
            OwnedNode::ElseClause(node) => NodeView::ElseClause(node.deep_view()),
            OwnedNode::Statements(node) => NodeView::Statements(node.deep_view()),
            OwnedNode::EndOfFile(node) => NodeView::EndOfFile(node.deep_view()),
            OwnedNode::File(node) => NodeView::File(node.deep_view()),
        }
    }
}

/// A traversal that reads the tree.
pub trait Visitor: Sized {
    /// The model of what a visitor has gathered.
    type State;

    /// What the visitor has gathered so far.
    spec fn state(&self) -> Self::State;

    /// What the visitor has gathered once it has seen `node`, and whether it
    /// took `node` over. Where it did not, the traversal goes on into the
    /// children of `node`.
    spec fn on(state: Self::State, node: NodeView) -> (Self::State, bool);

    /// Shows `node` to the visitor, which says whether it took over.
    fn visit(&mut self, node: Node<'_>) -> (handled: bool)
        ensures
            Self::on(old(self).state(), node@) == (final(self).state(), handled),
    ;
}

/// A traversal that rewrites the tree.
pub trait VisitorMut: Sized {
    /// The model of what a visitor has gathered.
    type State;

    /// What the visitor has gathered so far.
    spec fn state(&self) -> Self::State;

    /// What the visitor has gathered once it has seen `node`, and the node
    /// that it puts in its place, if any. Where it puts none, the traversal
    /// goes on into the children of `node`.
    spec fn on_mut(state: Self::State, node: NodeView) -> (Self::State, Option<NodeView>);

    /// Shows `node` to the visitor, which hands back what is to stand in its
    /// place, if anything is. What it hands back takes the place of `node`
    /// where it is a node of the same kind, and is dropped where it is not.
    fn visit_mut(&mut self, node: Node<'_>) -> (replacement: Option<OwnedNode>)
        ensures
            Self::on_mut(old(self).state(), node@) == (
                final(self).state(),
                match replacement {
                    Some(new) => Some(new@),
                    None => None::<NodeView>,
                },
            ),
    ;
}

/// What can be shown to a reading visitor.
pub trait Visitable<V: Visitor>: DeepView {
    /// What `V` has gathered after the traversal of `node`.
    spec fn accepted(state: V::State, node: Self::V) -> V::State;

    /// Shows the node to the visitor and, where the visitor declines, its
    /// children from first to last.
    fn accept(&self, visitor: &mut V)
        ensures
            final(visitor).state() == Self::accepted(old(visitor).state(), self.deep_view()),
    ;
}

/// What can be shown to a rewriting visitor.
pub trait VisitableMut<V: VisitorMut>: DeepView {
    /// What `V` has gathered after the traversal of `node`, and what has
    /// become of `node`.
    spec fn accepted_mut(state: V::State, node: Self::V) -> (V::State, Self::V);

    /// Shows the node to the visitor, puts in its place what the visitor
    /// hands back and, where the visitor declines, goes on into its children
    /// from first to last.
    fn accept_mut(&mut self, visitor: &mut V)
        ensures
            (final(visitor).state(), final(self).deep_view()) == Self::accepted_mut(
                old(visitor).state(),
                old(self).deep_view(),
            ),
    ;
}

impl<V: Visitor, T: Visitable<V>> Visitable<V> for Option<T> {
    open spec fn accepted(state: V::State, node: Option<T::V>) -> V::State {
        match node {
            Some(inner) => T::accepted(state, inner),
            None => state,
        }
    }

    fn accept(&self, visitor: &mut V) {
        if let Some(inner) = self {
            inner.accept(visitor);
        }
    }
}

impl<V: Visitor, A: Visitable<V>, B: Visitable<V>> Visitable<V> for (A, B) {
    open spec fn accepted(state: V::State, node: (A::V, B::V)) -> V::State {
        B::accepted(A::accepted(state, node.0), node.1)
    }

    fn accept(&self, visitor: &mut V) {
        self.0.accept(visitor);
        self.1.accept(visitor);
    }
}

impl<V: Visitor, T: Visitable<V>> Visitable<V> for Box<T> {
    open spec fn accepted(state: V::State, node: T::V) -> V::State {
        T::accepted(state, node)
    }

    fn accept(&self, visitor: &mut V) {
        (**self).accept(visitor);
    }
}

/// What `V` has gathered after the traversal of `nodes` from first to last.
pub open spec fn accepted_all<V: Visitor, T: Visitable<V>>(
    state: V::State,
    nodes: Seq<T::V>,
) -> V::State
    decreases nodes.len(),
{
    if nodes.len() == 0 {
        state
    } else {
        accepted_all::<V, T>(T::accepted(state, nodes[0]), nodes.skip(1))
    }
}

impl<V: Visitor, T: Visitable<V>> Visitable<V> for Vec<T> {
    open spec fn accepted(state: V::State, node: Seq<T::V>) -> V::State {
        accepted_all::<V, T>(state, node)
    }

    fn accept(&self, visitor: &mut V) {
        let ghost nodes = self.deep_view();
        let ghost goal = accepted_all::<V, T>(visitor.state(), nodes);
        let mut i: usize = 0;
        assert(nodes.skip(0) =~= nodes);
        while i < self.len()
            invariant
                i <= self.len(),
                nodes == self.deep_view(),
                goal == accepted_all::<V, T>(visitor.state(), nodes.skip(i as int)),
            decreases self.len() - i,
        {
            assert(nodes.skip(i as int).skip(1) =~= nodes.skip(i + 1));
            self[i].accept(visitor);
            i += 1;
        }
        assert(nodes.skip(i as int).len() == 0);
        assert(goal == visitor.state());
        assert(goal == accepted_all::<V, T>(old(visitor).state(), self.deep_view()));
        assert(goal == <Vec<T> as Visitable<V>>::accepted(old(visitor).state(), self.deep_view()));
    }
}

impl<V: Visitor, T: Visitable<V>> Visitable<V> for WithTrivia<T> {
    open spec fn accepted(state: V::State, node: WithTriviaView<T::V>) -> V::State {
        T::accepted(accepted_all::<V, Trivia>(state, node.trivias), node.node)
    }

    fn accept(&self, visitor: &mut V) {
        self.trivias.accept(visitor);
        self.node.accept(visitor);
    }
}

impl<V: Visitor, T: Visitable<V>, const MIN: usize, const MAX: usize> Visitable<V> for Repeat<
    T,
    MIN,
    MAX,
> {
    open spec fn accepted(state: V::State, node: Seq<T::V>) -> V::State {
        accepted_all::<V, T>(state, node)
    }

    fn accept(&self, visitor: &mut V) {
        self.0.accept(visitor);
    }
}

/// What `V` has gathered after the traversal of the items behind the first:
/// each with the separator in front of it, as far as there are separators.
pub open spec fn accepted_tail<V: Visitor, T: Visitable<V>, S: Visitable<V>>(
    state: V::State,
    items: Seq<T::V>,
    separators: Seq<S::V>,
) -> V::State
    decreases items.len(),
{
    if items.len() == 0 {
        state
    } else if separators.len() == 0 {
        accepted_tail::<V, T, S>(T::accepted(state, items[0]), items.skip(1), separators)
    } else {
        accepted_tail::<V, T, S>(
            T::accepted(S::accepted(state, separators[0]), items[0]),
            items.skip(1),
            separators.skip(1),
        )
    }
}

impl<
    V: Visitor,
    T: Visitable<V>,
    S: Visitable<V>,
    const MIN: usize,
    const MAX: usize,
> Visitable<V> for Separated<T, S, MIN, MAX> {
    open spec fn accepted(state: V::State, node: SeparatedView<T::V, S::V>) -> V::State {
        if node.items.len() == 0 {
            state
        } else {
            accepted_tail::<V, T, S>(
                T::accepted(state, node.items[0]),
                node.items.skip(1),
                node.separators,
            )
        }
    }

    fn accept(&self, visitor: &mut V) {
        let ghost items = self.0.deep_view();
        let ghost separators = self.1.deep_view();
        if self.0.len() == 0 {
            return ;
        }
        self.0[0].accept(visitor);
        let ghost goal = accepted_tail::<V, T, S>(visitor.state(), items.skip(1), separators);
        let mut i: usize = 1;
        assert(separators.skip(0) =~= separators);
        while i < self.0.len()
            invariant
                1 <= i <= self.0.len(),
                items == self.0.deep_view(),
                separators == self.1.deep_view(),
                goal == accepted_tail::<V, T, S>(
                    visitor.state(),
                    items.skip(i as int),
                    if i - 1 <= separators.len() {
                        separators.skip(i - 1)
                    } else {
                        Seq::empty()
                    },
                ),
            decreases self.0.len() - i,
        {
            assert(items.skip(i as int).skip(1) =~= items.skip(i + 1));
            if i - 1 < self.1.len() {
                assert(separators.skip(i - 1).skip(1) =~= separators.skip(i as int));
                self.1[i - 1].accept(visitor);
            } else {
                assert(i - 1 <= separators.len() ==> separators.skip(i - 1) =~= Seq::empty());
            }
            self.0[i].accept(visitor);
            i += 1;
        }
    }
}

impl<V: VisitorMut, T: VisitableMut<V>> VisitableMut<V> for Option<T> {
    open spec fn accepted_mut(state: V::State, node: Option<T::V>) -> (V::State, Option<T::V>) {
        match node {
            Some(inner) => (
                T::accepted_mut(state, inner).0,
                Some(T::accepted_mut(state, inner).1),
            ),
            None => (state, None),
        }
    }

    fn accept_mut(&mut self, visitor: &mut V) {
        match self {
            Some(inner) => {
                inner.accept_mut(visitor);
            },
            None => {},
        }
    }
}

impl<V: VisitorMut, A: VisitableMut<V>, B: VisitableMut<V>> VisitableMut<V> for (A, B) {
    open spec fn accepted_mut(state: V::State, node: (A::V, B::V)) -> (V::State, (A::V, B::V)) {
        let first = A::accepted_mut(state, node.0);
        let second = B::accepted_mut(first.0, node.1);
        (second.0, (first.1, second.1))
    }

    fn accept_mut(&mut self, visitor: &mut V) {
        self.0.accept_mut(visitor);
        self.1.accept_mut(visitor);
    }
}

/// What `V` has gathered after the traversal of `nodes` from first to last,
/// and what has become of them.
pub open spec fn accepted_mut_all<V: VisitorMut, T: VisitableMut<V>>(
    state: V::State,
    nodes: Seq<T::V>,
) -> (V::State, Seq<T::V>)
    decreases nodes.len(),
{
    if nodes.len() == 0 {
        (state, nodes)
    } else {
        let first = T::accepted_mut(state, nodes[0]);
        let rest = accepted_mut_all::<V, T>(first.0, nodes.skip(1));
        (rest.0, seq![first.1] + rest.1)
    }
}

/// A traversal leaves as many nodes as it found.
pub proof fn lemma_accepted_mut_all_len<V: VisitorMut, T: VisitableMut<V>>(
    state: V::State,
    nodes: Seq<T::V>,
)
    ensures
        accepted_mut_all::<V, T>(state, nodes).1.len() == nodes.len(),
    decreases nodes.len(),
{
    if nodes.len() > 0 {
        lemma_accepted_mut_all_len::<V, T>(T::accepted_mut(state, nodes[0]).0, nodes.skip(1));
    }
}

impl<V: VisitorMut, T: VisitableMut<V>> VisitableMut<V> for Vec<T> {
    open spec fn accepted_mut(state: V::State, node: Seq<T::V>) -> (V::State, Seq<T::V>) {
        accepted_mut_all::<V, T>(state, node)
    }

    fn accept_mut(&mut self, visitor: &mut V) {
        let ghost nodes = self.deep_view();
        let ghost goal = accepted_mut_all::<V, T>(visitor.state(), nodes);
        let mut i: usize = 0;
        assert(nodes.skip(0) =~= nodes);
        assert(nodes.take(0) + accepted_mut_all::<V, T>(visitor.state(), nodes).1 =~= goal.1);
        while i < self.len()
            invariant
                i <= self.len(),
                self.len() == nodes.len(),
                self.deep_view().skip(i as int) == nodes.skip(i as int),
                goal.0 == accepted_mut_all::<V, T>(visitor.state(), nodes.skip(i as int)).0,
                goal.1 == self.deep_view().take(i as int) + accepted_mut_all::<V, T>(
                    visitor.state(),
                    nodes.skip(i as int),
                ).1,
            decreases self.len() - i,
        {
            let ghost before = self.deep_view();
            let ghost state = visitor.state();
            assert(nodes.skip(i as int).skip(1) =~= nodes.skip(i + 1));
            assert(before[i as int] == nodes.skip(i as int)[0]);
            self[i].accept_mut(visitor);
            proof {
                let first = T::accepted_mut(state, nodes[i as int]);
                let rest = accepted_mut_all::<V, T>(first.0, nodes.skip(i + 1));
                assert(self.deep_view() =~= before.update(i as int, first.1));
                assert(self.deep_view().skip(i + 1) =~= nodes.skip(i + 1));
                assert(before.take(i as int) + (seq![first.1] + rest.1) =~= self.deep_view().take(
                    i + 1,
                ) + rest.1);
            }
            i += 1;
        }
        assert(nodes.skip(i as int).len() == 0);
        assert(self.deep_view().take(i as int) =~= self.deep_view());
        assert(self.deep_view() + nodes.skip(i as int) =~= self.deep_view());
        assert(goal == (visitor.state(), self.deep_view()));
        assert(goal == <Vec<T> as VisitableMut<V>>::accepted_mut(
            old(visitor).state(),
            old(self).deep_view(),
        ));
    }
}

impl<V: VisitorMut, T: VisitableMut<V>> VisitableMut<V> for WithTrivia<T> {
    open spec fn accepted_mut(state: V::State, node: WithTriviaView<T::V>) -> (
        V::State,
        WithTriviaView<T::V>,
    ) {
        let trivias = accepted_mut_all::<V, Trivia>(state, node.trivias);
        let inner = T::accepted_mut(trivias.0, node.node);
        (inner.0, WithTriviaView { trivias: trivias.1, node: inner.1 })
    }

    fn accept_mut(&mut self, visitor: &mut V) {
        self.trivias.accept_mut(visitor);
        self.node.accept_mut(visitor);
    }
}

impl<V: VisitorMut, T: VisitableMut<V>> VisitableMut<V> for Box<T> {
    open spec fn accepted_mut(state: V::State, node: T::V) -> (V::State, T::V) {
        T::accepted_mut(state, node)
    }

    fn accept_mut(&mut self, visitor: &mut V) {
        (**self).accept_mut(visitor);
    }
}

impl<V: VisitorMut, T: VisitableMut<V>, const MIN: usize, const MAX: usize> VisitableMut<
    V,
> for Repeat<T, MIN, MAX> {
    open spec fn accepted_mut(state: V::State, node: Seq<T::V>) -> (V::State, Seq<T::V>) {
        accepted_mut_all::<V, T>(state, node)
    }

    fn accept_mut(&mut self, visitor: &mut V) {
        self.0.accept_mut(visitor);
    }
}

/// What `V` has gathered after the traversal of the items behind the first,
/// each with the separator in front of it as far as there are separators,
/// and what has become of those items and of the separators.
pub open spec fn accepted_mut_tail<V: VisitorMut, T: VisitableMut<V>, S: VisitableMut<V>>(
    state: V::State,
    items: Seq<T::V>,
    separators: Seq<S::V>,
) -> (V::State, Seq<T::V>, Seq<S::V>)
    decreases items.len(),
{
    if items.len() == 0 {
        (state, items, separators)
    } else if separators.len() == 0 {
        let item = T::accepted_mut(state, items[0]);
        let rest = accepted_mut_tail::<V, T, S>(item.0, items.skip(1), separators);
        (rest.0, seq![item.1] + rest.1, rest.2)
    } else {
        let separator = S::accepted_mut(state, separators[0]);
        let item = T::accepted_mut(separator.0, items[0]);
        let rest = accepted_mut_tail::<V, T, S>(item.0, items.skip(1), separators.skip(1));
        (rest.0, seq![item.1] + rest.1, seq![separator.1] + rest.2)
    }
}

impl<
    V: VisitorMut,
    T: VisitableMut<V>,
    S: VisitableMut<V>,
    const MIN: usize,
    const MAX: usize,
> VisitableMut<V> for Separated<T, S, MIN, MAX> {
    open spec fn accepted_mut(state: V::State, node: SeparatedView<T::V, S::V>) -> (
        V::State,
        SeparatedView<T::V, S::V>,
    ) {
        if node.items.len() == 0 {
            (state, node)
        } else {
            let first = T::accepted_mut(state, node.items[0]);
            let rest = accepted_mut_tail::<V, T, S>(first.0, node.items.skip(1), node.separators);
            (rest.0, SeparatedView { items: seq![first.1] + rest.1, separators: rest.2 })
        }
    }

    fn accept_mut(&mut self, visitor: &mut V) {
        let ghost items = self.0.deep_view();
        let ghost separators = self.1.deep_view();
        if self.0.len() == 0 {
            return ;
        }
        let ghost start = visitor.state();
        self.0[0].accept_mut(visitor);
        let ghost first = T::accepted_mut(start, items[0]);
        let ghost goal = accepted_mut_tail::<V, T, S>(first.0, items.skip(1), separators);
        let mut i: usize = 1;
        let mut j: usize = 0;
        proof {
            assert(self.0.deep_view() =~= items.update(0, first.1));
            assert(separators.skip(0) =~= separators);
            assert(self.0.deep_view().subrange(1, 1) + goal.1 =~= goal.1);
            assert(separators.take(0) + goal.2 =~= goal.2);
            assert(self.0.deep_view().skip(1) =~= items.skip(1));
        }
        while i < self.0.len()
            invariant
                1 <= i <= self.0.len(),
                j <= self.1.len(),
                self.0.len() == items.len(),
                self.1.len() == separators.len(),
                self.0.deep_view()[0] == first.1,
                self.0.deep_view().skip(i as int) == items.skip(i as int),
                self.1.deep_view().skip(j as int) == separators.skip(j as int),
                goal.0 == accepted_mut_tail::<V, T, S>(
                    visitor.state(),
                    items.skip(i as int),
                    separators.skip(j as int),
                ).0,
                goal.1 == self.0.deep_view().subrange(1, i as int) + accepted_mut_tail::<V, T, S>(
                    visitor.state(),
                    items.skip(i as int),
                    separators.skip(j as int),
                ).1,
                goal.2 == self.1.deep_view().take(j as int) + accepted_mut_tail::<V, T, S>(
                    visitor.state(),
                    items.skip(i as int),
                    separators.skip(j as int),
                ).2,
            decreases self.0.len() - i,
        {
            let ghost items_before = self.0.deep_view();
            let ghost separators_before = self.1.deep_view();
            let ghost state = visitor.state();
            let ghost old_j = j;
            assert(items.skip(i as int).skip(1) =~= items.skip(i + 1));
            assert(items_before[i as int] == items.skip(i as int)[0]);
            if j < self.1.len() {
                assert(separators.skip(j as int).skip(1) =~= separators.skip(j + 1));
                assert(separators_before[j as int] == separators.skip(j as int)[0]);
                self.1[j].accept_mut(visitor);
                j += 1;
            }
            let ghost middle = visitor.state();
            self.0[i].accept_mut(visitor);
            proof {
                let item = T::accepted_mut(middle, items[i as int]);
                let rest = accepted_mut_tail::<V, T, S>(
                    item.0,
                    items.skip(i + 1),
                    separators.skip(j as int),
                );
                assert(self.0.deep_view() =~= items_before.update(i as int, item.1));
                assert(self.0.deep_view().skip(i + 1) =~= items.skip(i + 1));
                assert(items_before.subrange(1, i as int) + (seq![item.1] + rest.1)
                    =~= self.0.deep_view().subrange(1, i + 1) + rest.1);
                if old_j < separators.len() {
                    let separator = S::accepted_mut(state, separators[old_j as int]);
                    assert(self.1.deep_view() =~= separators_before.update(
                        old_j as int,
                        separator.1,
                    ));
                    assert(self.1.deep_view().skip(j as int) =~= separators.skip(j as int));
                    assert(separators_before.take(old_j as int) + (seq![separator.1] + rest.2)
                        =~= self.1.deep_view().take(j as int) + rest.2);
                } else {
                    assert(separators.skip(j as int).len() == 0);
                }
            }
            i += 1;
        }
        proof {
            assert(items.skip(i as int).len() == 0);
            assert(self.0.deep_view().subrange(1, i as int) + items.skip(i as int)
                =~= self.0.deep_view().skip(1));
            assert(seq![first.1] + self.0.deep_view().skip(1) =~= self.0.deep_view());
            assert(self.1.deep_view().take(j as int) + separators.skip(j as int)
                =~= self.1.deep_view());
        }
    }
}

} // verus!
