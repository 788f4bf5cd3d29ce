//! What the includer leaves as it is.
//!
//! The includer takes over the statements that are inclusions and nothing
//! else. A traversal with it therefore changes nothing in a node that holds
//! no inclusion, and a pass over a file that was read from source text, where
//! inclusions stand directly in the file only, is the resolution of those
//! inclusions in their order.

use vstd::prelude::*;
use crate::ast::expressions::{Expression, ExpressionView};
use crate::ast::statements::{
    decorated_accepted_mut,
    else_accepted_mut,
    file_accepted_mut,
    if_accepted_mut,
    statement_accepted_mut,
    statement_is_source,
    statements_accepted_mut,
    statements_are_source,
    Scope,
    StatementsView,
};
use crate::ast::statements::assignment::{
    Assignment,
    AssignmentList,
    AssignmentListView,
    AssignmentView,
};
use crate::ast::statements::global_declaration::{GlobalDeclaration, GlobalDeclarationView};
use crate::ast::statements::if_statement::{ElseClauseView, IfStatementView};
use crate::ast::statements::include_statement::{IncludeStatement, IncludeStatementView};
use crate::ast::statements::variable_declaration::{VariableDeclaration, VariableDeclarationView};
use crate::ast::structure::eof::EndOfFile;
use crate::ast::structure::file::{lemma_scope_restriction, File, FileView};
use crate::ast::structure::type_struct::{Type, TypeFollowedById, TypeFollowedByIdView, TypeView};
use crate::ast::terminal::identifier::{Identifier, IdentifierView};
use crate::ast::terminal::keyword::{Keywords, KwElse, KwGlobal, KwIf, KwInclude, KwVar};
use crate::ast::terminal::number_literal::{NumberLiteral, NumberLiteralView};
use crate::ast::terminal::string_literal::{Quote, StringLiteral, StringLiteralView};
use crate::ast::terminal::symbol::{Comma, DQuote, Equal, LParen, RParen, Semi, SQuote};
use crate::ast::trivia::comment::{Comment, CommentView};
use crate::ast::trivia::trivia::{Trivia, TriviaView};
use crate::ast::trivia::whitespace::{Whitespace, WhitespaceView};
use crate::ast::trivia::with_trivia::{WithTrivia, WithTriviaView};
use crate::ast::utils::repeat::Repeat;
use crate::ast::utils::separated::{Separated, Separated1, SeparatedView};
use crate::parser::{Parsed, Parser};
use crate::visitor::{accepted_mut_all, accepted_mut_tail, VisitableMut};
use crate::visitor::includer::{
    lemma_resolve_inclusion,
    spec_resolve_inclusion,
    spec_resolve_statements,
    Includer,
    IncluderView,
};

verus! {

/// A node in which the includer changes nothing, and which changes nothing
/// in the includer.
pub trait Untouched: VisitableMut<Includer> {
    proof fn lemma_untouched(state: IncluderView, node: Self::V)
        ensures
            Self::accepted_mut(state, node) == (state, node),
    ;
}

impl<T: Untouched> Untouched for Option<T> {
    proof fn lemma_untouched(state: IncluderView, node: Option<T::V>) {
        if let Some(inner) = node {
            T::lemma_untouched(state, inner);
        }
    }
}

impl<A: Untouched, B: Untouched> Untouched for (A, B) {
    proof fn lemma_untouched(state: IncluderView, node: (A::V, B::V)) {
        A::lemma_untouched(state, node.0);
        B::lemma_untouched(state, node.1);
    }
}

impl<T: Untouched> Untouched for Box<T> {
    proof fn lemma_untouched(state: IncluderView, node: T::V) {
        T::lemma_untouched(state, node);
    }
}

/// The includer changes nothing in nodes in a row of which it changes none.
pub proof fn lemma_untouched_all<T: Untouched>(state: IncluderView, nodes: Seq<T::V>)
    ensures
        accepted_mut_all::<Includer, T>(state, nodes) == (state, nodes),
    decreases nodes.len(),
{
    if nodes.len() > 0 {
        T::lemma_untouched(state, nodes[0]);
        lemma_untouched_all::<T>(state, nodes.skip(1));
        assert(seq![nodes[0]] + nodes.skip(1) =~= nodes);
    }
}

impl<T: Untouched> Untouched for Vec<T> {
    proof fn lemma_untouched(state: IncluderView, node: Seq<T::V>) {
        lemma_untouched_all::<T>(state, node);
    }
}

impl<T: Untouched> Untouched for WithTrivia<T> {
    proof fn lemma_untouched(state: IncluderView, node: WithTriviaView<T::V>) {
        lemma_untouched_all::<Trivia>(state, node.trivias);
        T::lemma_untouched(state, node.node);
    }
}

impl<T: Untouched, const MIN: usize, const MAX: usize> Untouched for Repeat<T, MIN, MAX> {
    proof fn lemma_untouched(state: IncluderView, node: Seq<T::V>) {
        lemma_untouched_all::<T>(state, node);
    }
}

/// The same of the items behind the first of a separated list, and of its
/// separators.
pub proof fn lemma_untouched_tail<T: Untouched, S: Untouched>(
    state: IncluderView,
    items: Seq<T::V>,
    separators: Seq<S::V>,
)
    ensures
        accepted_mut_tail::<Includer, T, S>(state, items, separators) == (
            state,
            items,
            separators,
        ),
    decreases items.len(),
{
    if items.len() > 0 {
        T::lemma_untouched(state, items[0]);
        assert(seq![items[0]] + items.skip(1) =~= items);
        if separators.len() == 0 {
            lemma_untouched_tail::<T, S>(state, items.skip(1), separators);
        } else {
            S::lemma_untouched(state, separators[0]);
            lemma_untouched_tail::<T, S>(state, items.skip(1), separators.skip(1));
            assert(seq![separators[0]] + separators.skip(1) =~= separators);
        }
    }
}

impl<T: Untouched, S: Untouched, const MIN: usize, const MAX: usize> Untouched for Separated<
    T,
    S,
    MIN,
    MAX,
> {
    proof fn lemma_untouched(state: IncluderView, node: SeparatedView<T::V, S::V>) {
        if node.items.len() > 0 {
            T::lemma_untouched(state, node.items[0]);
            lemma_untouched_tail::<T, S>(state, node.items.skip(1), node.separators);
            assert(seq![node.items[0]] + node.items.skip(1) =~= node.items);
        }
    }
}

impl Untouched for Whitespace {
    proof fn lemma_untouched(state: IncluderView, node: WhitespaceView) {
    }
}

impl Untouched for Comment {
    proof fn lemma_untouched(state: IncluderView, node: CommentView) {
    }
}

impl Untouched for Identifier {
    proof fn lemma_untouched(state: IncluderView, node: IdentifierView) {
    }
}

impl Untouched for KwGlobal {
    proof fn lemma_untouched(state: IncluderView, node: KwGlobal) {
    }
}

impl Untouched for KwVar {
    proof fn lemma_untouched(state: IncluderView, node: KwVar) {
    }
}

impl Untouched for KwInclude {
    proof fn lemma_untouched(state: IncluderView, node: KwInclude) {
    }
}

impl Untouched for KwIf {
    proof fn lemma_untouched(state: IncluderView, node: KwIf) {
    }
}

impl Untouched for KwElse {
    proof fn lemma_untouched(state: IncluderView, node: KwElse) {
    }
}

impl Untouched for Semi {
    proof fn lemma_untouched(state: IncluderView, node: Semi) {
    }
}

impl Untouched for Comma {
    proof fn lemma_untouched(state: IncluderView, node: Comma) {
    }
}

impl Untouched for Equal {
    proof fn lemma_untouched(state: IncluderView, node: Equal) {
    }
}

impl Untouched for LParen {
    proof fn lemma_untouched(state: IncluderView, node: LParen) {
    }
}

impl Untouched for RParen {
    proof fn lemma_untouched(state: IncluderView, node: RParen) {
    }
}

impl Untouched for SQuote {
    proof fn lemma_untouched(state: IncluderView, node: SQuote) {
    }
}

impl Untouched for DQuote {
    proof fn lemma_untouched(state: IncluderView, node: DQuote) {
    }
}

impl Untouched for NumberLiteral {
    proof fn lemma_untouched(state: IncluderView, node: NumberLiteralView) {
    }
}

impl Untouched for EndOfFile {
    proof fn lemma_untouched(state: IncluderView, node: EndOfFile) {
    }
}

impl Untouched for Trivia {
    proof fn lemma_untouched(state: IncluderView, node: TriviaView) {
        match node {
            TriviaView::Whitespace(inner) => {
                <Whitespace as Untouched>::lemma_untouched(state, inner);
            },
            TriviaView::Comment(inner) => {
                <Comment as Untouched>::lemma_untouched(state, inner);
            },
        }
    }
}

impl Untouched for Keywords {
    proof fn lemma_untouched(state: IncluderView, node: Keywords) {
        match node {
            Keywords::Global(inner) => {
                <KwGlobal as Untouched>::lemma_untouched(state, inner);
            },
            Keywords::Var(inner) => {
                <KwVar as Untouched>::lemma_untouched(state, inner);
            },
            Keywords::Include(inner) => {
                <KwInclude as Untouched>::lemma_untouched(state, inner);
            },
        }
    }
}

impl Untouched for Quote {
    proof fn lemma_untouched(state: IncluderView, node: Quote) {
        match node {
            Quote::Single(inner) => {
                <SQuote as Untouched>::lemma_untouched(state, inner);
            },
            Quote::Double(inner) => {
                <DQuote as Untouched>::lemma_untouched(state, inner);
            },
        }
    }
}

impl Untouched for StringLiteral {
    proof fn lemma_untouched(state: IncluderView, node: StringLiteralView) {
        <Quote as Untouched>::lemma_untouched(state, node.quote);
    }
}

impl Untouched for Expression {
    proof fn lemma_untouched(state: IncluderView, node: ExpressionView) {
        match node {
            ExpressionView::Identifier(inner) => {
                <Identifier as Untouched>::lemma_untouched(state, inner);
            },
            ExpressionView::StringLiteral(inner) => {
                <StringLiteral as Untouched>::lemma_untouched(state, inner);
            },
            ExpressionView::NumberLiteral(inner) => {
                <NumberLiteral as Untouched>::lemma_untouched(state, inner);
            },
        }
    }
}

impl Untouched for Type {
    proof fn lemma_untouched(state: IncluderView, node: TypeView) {
        <Identifier as Untouched>::lemma_untouched(state, node.0);
    }
}

impl Untouched for TypeFollowedById {
    proof fn lemma_untouched(state: IncluderView, node: TypeFollowedByIdView) {
        <Type as Untouched>::lemma_untouched(state, node.0);
    }
}

impl Untouched for Assignment {
    proof fn lemma_untouched(state: IncluderView, node: AssignmentView) {
        <Identifier as Untouched>::lemma_untouched(state, node.0);
        <Option<(WithTrivia<Equal>, WithTrivia<Expression>)> as Untouched>::lemma_untouched(
            state,
            node.1,
        );
    }
}

impl Untouched for AssignmentList {
    proof fn lemma_untouched(state: IncluderView, node: AssignmentListView) {
        <Separated1<WithTrivia<Assignment>, WithTrivia<Comma>> as Untouched>::lemma_untouched(
            state,
            node.0,
        );
    }
}

impl Untouched for GlobalDeclaration {
    proof fn lemma_untouched(state: IncluderView, node: GlobalDeclarationView) {
        <WithTrivia<KwGlobal> as Untouched>::lemma_untouched(state, node.0);
        <Option<WithTrivia<TypeFollowedById>> as Untouched>::lemma_untouched(state, node.1);
        <AssignmentList as Untouched>::lemma_untouched(state, node.2);
        <Option<WithTrivia<Semi>> as Untouched>::lemma_untouched(state, node.3);
    }
}

impl Untouched for VariableDeclaration {
    proof fn lemma_untouched(state: IncluderView, node: VariableDeclarationView) {
        match node {
            VariableDeclarationView::WithType(ty, assignments, semi) => {
                <TypeFollowedById as Untouched>::lemma_untouched(state, ty);
                <AssignmentList as Untouched>::lemma_untouched(state, assignments);
                <Option<WithTrivia<Semi>> as Untouched>::lemma_untouched(state, semi);
            },
            VariableDeclarationView::UnspecifiedType(var, assignments, semi) => {
                <KwVar as Untouched>::lemma_untouched(state, var);
                <AssignmentList as Untouched>::lemma_untouched(state, assignments);
                <Option<WithTrivia<Semi>> as Untouched>::lemma_untouched(state, semi);
            },
        }
    }
}

impl Untouched for IncludeStatement {
    proof fn lemma_untouched(state: IncluderView, node: IncludeStatementView) {
        <WithTrivia<KwInclude> as Untouched>::lemma_untouched(state, node.kw_include);
        <WithTrivia<LParen> as Untouched>::lemma_untouched(state, node.lparen);
        <WithTrivia<StringLiteral> as Untouched>::lemma_untouched(state, node.path);
        <WithTrivia<RParen> as Untouched>::lemma_untouched(state, node.rparen);
        <Option<WithTrivia<Semi>> as Untouched>::lemma_untouched(state, node.semi);
    }
}

/// The includer changes nothing in a statement of a nested scope that source
/// text can hold.
pub proof fn lemma_nested_untouched(state: IncluderView, node: StatementsView)
    requires
        statement_is_source(Scope::Nested, node),
    ensures
        statement_accepted_mut::<Includer>(state, node) == (state, node),
    decreases node,
{
    match node {
        StatementsView::VariableDeclaration(inner) => {
            VariableDeclaration::lemma_untouched(state, inner);
        },
        StatementsView::IfStatement(inner) => {
            lemma_if_untouched(state, *inner);
        },
        StatementsView::SemiColon(inner) => {
            <WithTrivia<Semi> as Untouched>::lemma_untouched(state, inner);
        },
        StatementsView::Expression(inner) => {
            Expression::lemma_untouched(state, inner);
        },
        _ => {},
    }
}

/// The same of such a statement with the trivia in front of it.
pub proof fn lemma_body_untouched(state: IncluderView, node: WithTriviaView<StatementsView>)
    requires
        statement_is_source(Scope::Nested, node.node),
    ensures
        decorated_accepted_mut::<Includer>(state, node) == (state, node),
    decreases node,
{
    lemma_untouched_all::<Trivia>(state, node.trivias);
    lemma_nested_untouched(state, node.node);
}

/// The same of an `if` statement that source text can hold.
pub proof fn lemma_if_untouched(state: IncluderView, node: IfStatementView)
    requires
        statement_is_source(Scope::Nested, StatementsView::IfStatement(Box::new(node))),
    ensures
        if_accepted_mut::<Includer>(state, node) == (state, node),
    decreases node,
{
    <WithTrivia<KwIf> as Untouched>::lemma_untouched(state, node.if_kw);
    <WithTrivia<LParen> as Untouched>::lemma_untouched(state, node.lparen);
    <WithTrivia<Expression> as Untouched>::lemma_untouched(state, node.condition);
    <WithTrivia<RParen> as Untouched>::lemma_untouched(state, node.rparen);
    lemma_body_untouched(state, node.body);
    if let Some(clause) = node.else_clause {
        lemma_untouched_all::<Trivia>(state, clause.trivias);
        lemma_else_untouched(state, clause.node);
    }
}

/// The same of an `else` clause that source text can hold.
pub proof fn lemma_else_untouched(state: IncluderView, node: ElseClauseView)
    requires
        statement_is_source(Scope::Nested, node.body.node),
    ensures
        else_accepted_mut::<Includer>(state, node) == (state, node),
    decreases node,
{
    <WithTrivia<KwElse> as Untouched>::lemma_untouched(state, node.else_kw);
    lemma_body_untouched(state, node.body);
}

/// What a pass makes of a statement of a file that source text can hold: of
/// an inclusion, what resolving it gives; of any other statement, nothing.
pub proof fn lemma_pass_over_statement(state: IncluderView, node: StatementsView)
    requires
        statement_is_source(Scope::File, node),
    ensures
        statement_accepted_mut::<Includer>(state, node) == (match node {
            StatementsView::IncludeStatement(inclusion) => (
                spec_resolve_inclusion(state, inclusion).0,
                match spec_resolve_inclusion(state, inclusion).1 {
                    Some(new) => new,
                    None => node,
                },
            ),
            _ => (state, node),
        }),
{
    match node {
        StatementsView::GlobalDeclaration(inner) => {
            GlobalDeclaration::lemma_untouched(state, inner);
        },
        StatementsView::IncludeStatement(inclusion) => {
            IncludeStatement::lemma_untouched(
                spec_resolve_inclusion(state, inclusion).0,
                inclusion,
            );
        },
        StatementsView::VariableDeclaration(inner) => {
            VariableDeclaration::lemma_untouched(state, inner);
        },
        StatementsView::IfStatement(inner) => {
            lemma_if_untouched(state, *inner);
        },
        StatementsView::SemiColon(inner) => {
            <WithTrivia<Semi> as Untouched>::lemma_untouched(state, inner);
        },
        StatementsView::Expression(inner) => {
            Expression::lemma_untouched(state, inner);
        },
        _ => {},
    }
}

/// A pass over the statements of a file from the one at `from` on, where
/// those are such as source text can hold, is the resolution of the
/// inclusions among them.
pub proof fn lemma_pass_over_statements(
    state: IncluderView,
    statements: Seq<WithTriviaView<StatementsView>>,
    from: int,
)
    requires
        0 <= from <= statements.len(),
        forall|i: int|
            from <= i < statements.len() ==> statement_is_source(
                Scope::File,
                (#[trigger] statements[i]).node,
            ),
    ensures
        spec_resolve_statements(state, statements, from) == (
            statements_accepted_mut::<Includer>(state, statements.skip(from)).0,
            statements.take(from) + statements_accepted_mut::<Includer>(
                state,
                statements.skip(from),
            ).1,
        ),
    decreases statements.len() - from,
{
    let rest = statements.skip(from);
    if from == statements.len() {
        assert(statements.take(from) + rest =~= statements);
    } else {
        let first = statements[from];
        assert(rest[0] == first);
        assert(rest.skip(1) =~= statements.skip(from + 1));
        lemma_untouched_all::<Trivia>(state, first.trivias);
        lemma_pass_over_statement(state, first.node);
        let seen = statement_accepted_mut::<Includer>(state, first.node);
        let replaced = WithTriviaView { trivias: first.trivias, node: seen.1 };
        assert(decorated_accepted_mut::<Includer>(state, first) == (seen.0, replaced));
        let updated = statements.update(from, replaced);
        if let StatementsView::IncludeStatement(inclusion) = first.node {
            lemma_resolve_inclusion(state, inclusion);
            if spec_resolve_inclusion(state, inclusion).1 is None {
                assert(updated =~= statements);
            }
        } else {
            assert(updated =~= statements);
        }
        assert forall|i: int| from + 1 <= i < updated.len() implies statement_is_source(
            Scope::File,
            (#[trigger] updated[i]).node,
        ) by {
            assert(updated[i] == statements[i]);
        }
        lemma_pass_over_statements(seen.0, updated, from + 1);
        let after = statements_accepted_mut::<Includer>(seen.0, rest.skip(1));
        assert(updated.skip(from + 1) =~= rest.skip(1));
        assert(updated.take(from + 1) + after.1 =~= statements.take(from) + (seq![replaced]
            + after.1));
        assert(spec_resolve_statements(state, statements, from) == spec_resolve_statements(
            seen.0,
            updated,
            from + 1,
        ));
    }
}

/// A pass over a file that source text can hold is the resolution of the
/// inclusions among its statements, in their order.
pub proof fn lemma_pass_over_source(state: IncluderView, file: FileView)
    requires
        statements_are_source(file.statements),
    ensures
        file_accepted_mut::<Includer>(state, file) == (
            spec_resolve_statements(state, file.statements, 0).0,
            FileView {
                statements: spec_resolve_statements(state, file.statements, 0).1,
                eof: file.eof,
            },
        ),
{
    lemma_pass_over_statements(state, file.statements, 0);
    assert(file.statements.skip(0) =~= file.statements);
    assert(file.statements.take(0) + statements_accepted_mut::<Includer>(
        state,
        file.statements,
    ).1 =~= statements_accepted_mut::<Includer>(state, file.statements).1);
    <WithTrivia<EndOfFile> as Untouched>::lemma_untouched(
        spec_resolve_statements(state, file.statements, 0).0,
        file.eof,
    );
}

/// A pass over a file that was read from source text is the resolution of
/// the inclusions among its statements, in their order.
pub proof fn lemma_pass_over_parsed(state: IncluderView, input: Seq<char>)
    ensures
        File::spec_parse(input) matches Parsed::Match { value: file, rest } ==> file_accepted_mut::<
            Includer,
        >(state, file) == (
            spec_resolve_statements(state, file.statements, 0).0,
            FileView {
                statements: spec_resolve_statements(state, file.statements, 0).1,
                eof: file.eof,
            },
        ),
{
    lemma_scope_restriction(input);
    if let Parsed::Match { value: file, rest } = File::spec_parse(input) {
        lemma_pass_over_source(state, file);
    }
}

} // verus!
