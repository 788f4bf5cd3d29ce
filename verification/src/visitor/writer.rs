//! The visitor that writes a tree back out as text.
//!
//! The writer takes over the leaves and the trivia, each of which it writes
//! as it was read, and leaves every other node to the traversal. The text of
//! a tree is thus put together from its leaves in their order.

use vstd::prelude::*;
use vstd::string::StringExecFns;
use crate::ast::expressions::{Expression, ExpressionView};
use crate::ast::statements::{
    decorated_accepted,
    decorated_text,
    else_accepted,
    else_text,
    file_accepted,
    file_text,
    if_accepted,
    if_text,
    statement_accepted,
    statement_text,
    statements_accepted,
    statements_text,
    IfHead,
    Statements,
    StatementsView,
};
use crate::ast::statements::assignment::{
    Assignment,
    AssignmentList,
    AssignmentListView,
    AssignmentView,
};
use crate::ast::statements::global_declaration::{GlobalDeclaration, GlobalDeclarationView};
use crate::ast::statements::if_statement::{
    ElseClause,
    ElseClauseView,
    IfStatement,
    IfStatementView,
};
use crate::ast::statements::include_statement::{IncludeStatement, IncludeStatementView};
use crate::ast::statements::variable_declaration::{VariableDeclaration, VariableDeclarationView};
use crate::ast::structure::eof::EndOfFile;
use crate::ast::structure::file::{File, FileView};
use crate::ast::structure::type_struct::{Type, TypeFollowedById, TypeFollowedByIdView, TypeView};
use crate::ast::terminal::identifier::{Identifier, IdentifierView};
use crate::ast::terminal::keyword::{Keywords, KwElse, KwGlobal, KwIf, KwInclude, KwVar};
use crate::ast::terminal::number_literal::{NumberLiteral, NumberLiteralView};
use crate::ast::terminal::string_literal::{Quote, StringLiteral, StringLiteralView};
use crate::ast::terminal::symbol::{Comma, DQuote, Equal, LParen, RParen, Semi, SQuote};
use crate::ast::trivia::comment::{Comment, CommentView};
use crate::ast::trivia::trivia::{Trivia, TriviaView};
use crate::ast::trivia::whitespace::{Whitespace, WhitespaceView};
use crate::ast::trivia::with_trivia::{WithTrivia, WithTriviaView};
use crate::ast::utils::repeat::Repeat;
use crate::ast::utils::separated::{tail_text, Separated, Separated1, SeparatedView};
use crate::parser::{concat_text, Parsed, Parser, SourceText};
use crate::visitor::{accepted_all, accepted_tail, Node, NodeView, Visitable, Visitor};

verus! {

/// The text written so far.
#[derive(Debug, Default, Clone)]
pub struct Writer(pub String);

impl View for Writer {
    type V = Seq<char>;

    open spec fn view(&self) -> Seq<char> {
        self.0@
    }
}

/// The text of a quote.
fn quote_text(quote: &Quote) -> (text: &'static str)
    ensures
        text@ == quote.text(),
{
    match quote {
        Quote::Single(_) => "'",
        Quote::Double(_) => "\"",
    }
}

impl Writer {
    /// A writer that has written nothing.
    pub fn new() -> (writer: Writer)
        ensures
            writer@ == Seq::<char>::empty(),
    {
        Writer(String::new())
    }

    /// Writes `text` as it is.
    pub fn add_assign(&mut self, text: &str)
        ensures
            final(self)@ == old(self)@ + text@,
    {
        self.0.append(text);
    }

    /// The text of `node`.
    pub fn write<T: Written>(node: &T) -> (text: String) where T::V: SourceText
        ensures
            text@ == node.deep_view().text(),
    {
        let mut writer = Writer::new();
        node.accept(&mut writer);
        proof {
            T::lemma_written(Seq::empty(), node.deep_view());
            assert(Seq::<char>::empty() + node.deep_view().text() =~= node.deep_view().text());
        }
        writer.0
    }
}

impl Visitor for Writer {
    type State = Seq<char>;

    open spec fn state(&self) -> Seq<char> {
        self@
    }

    /// A leaf or a piece of trivia adds its text; any other node is left to
    /// the traversal.
    open spec fn on(state: Seq<char>, node: NodeView) -> (Seq<char>, bool) {
        match node {
            NodeView::Whitespace(node) => (state + node.text(), true),
            NodeView::Comment(node) => (state + node.text(), true),
            NodeView::Identifier(node) => (state + node.text(), true),
            NodeView::KwGlobal(node) => (state + node.text(), true),
            NodeView::KwVar(node) => (state + node.text(), true),
            NodeView::KwInclude(node) => (state + node.text(), true),
            NodeView::KwIf(node) => (state + node.text(), true),
            NodeView::KwElse(node) => (state + node.text(), true),
            NodeView::Semi(node) => (state + node.text(), true),
            NodeView::Comma(node) => (state + node.text(), true),
            NodeView::Equal(node) => (state + node.text(), true),
            NodeView::LParen(node) => (state + node.text(), true),
            NodeView::RParen(node) => (state + node.text(), true),
            NodeView::SQuote(node) => (state + node.text(), true),
            NodeView::DQuote(node) => (state + node.text(), true),
            NodeView::NumberLiteral(node) => (state + node.text(), true),
            NodeView::StringLiteral(node) => (state + node.text(), true),
            _ => (state, false),
        }
    }

    fn visit(&mut self, node: Node<'_>) -> (handled: bool) {
        let ghost start = self@;
        match node {
            Node::Whitespace(node) => {
                self.add_assign(node.0.as_str());
                true
            },
            Node::Comment(node) => {
                match node {
                    Comment::SingleLine(content, newline) => {
                        self.add_assign("//");
                        self.add_assign(content.as_str());
                        if *newline {
                            self.add_assign("\n");
                        }
                    },
                    Comment::MultiLine(content) => {
                        self.add_assign("/*");
                        self.add_assign(content.as_str());
                        self.add_assign("*/");
                    },
                }
                assert(self@ =~= start + node.deep_view().text());
                true
            },
            Node::Identifier(node) => {
                self.add_assign(node.0.as_str());
                true
            },
            Node::KwGlobal(_) => {
                self.add_assign("global");
                true
            },
            Node::KwVar(_) => {
                self.add_assign("var");
                true
            },
            Node::KwInclude(_) => {
                self.add_assign("include");
                true
            },
            Node::KwIf(_) => {
                self.add_assign("if");
                true
            },
            Node::KwElse(_) => {
                self.add_assign("else");
                true
            },
            Node::Semi(_) => {
                self.add_assign(";");
                true
            },
            Node::Comma(_) => {
                self.add_assign(",");
                true
            },
            Node::Equal(_) => {
                self.add_assign("=");
                true
            },
            Node::LParen(_) => {
                self.add_assign("(");
                true
            },
            Node::RParen(_) => {
                self.add_assign(")");
                true
            },
            Node::SQuote(_) => {
                self.add_assign("'");
                true
            },
            Node::DQuote(_) => {
                self.add_assign("\"");
                true
            },
            Node::NumberLiteral(node) => {
                self.add_assign(node.content.as_str());
                true
            },
            Node::StringLiteral(node) => {
                self.add_assign(quote_text(&node.quote));
                self.add_assign(node.content.as_str());
                self.add_assign(quote_text(&node.quote));
                assert(self@ =~= start + node.deep_view().text());
                true
            },
            _ => false,
        }
    }
}

/// A node of which the writer writes the text, whatever it has written
/// before.
pub trait Written: Visitable<Writer> where Self::V: SourceText {
    proof fn lemma_written(state: Seq<char>, node: Self::V)
        ensures
            Self::accepted(state, node) == state + node.text(),
    ;
}

impl<T: Written> Written for Option<T> where T::V: SourceText {
    proof fn lemma_written(state: Seq<char>, node: Option<T::V>) {
        match node {
            Some(inner) => T::lemma_written(state, inner),
            None => {
                assert(state + Seq::<char>::empty() =~= state);
            },
        }
    }
}

impl<A: Written, B: Written> Written for (A, B) where A::V: SourceText, B::V: SourceText {
    proof fn lemma_written(state: Seq<char>, node: (A::V, B::V)) {
        A::lemma_written(state, node.0);
        B::lemma_written(state + node.0.text(), node.1);
        assert((state + node.0.text()) + node.1.text() =~= state + (node.0.text() + node.1.text()));
    }
}

impl<T: Written> Written for Box<T> where T::V: SourceText {
    proof fn lemma_written(state: Seq<char>, node: T::V) {
        T::lemma_written(state, node);
    }
}

/// The writer writes the texts of nodes in a row one after the other.
pub proof fn lemma_written_all<T: Written>(state: Seq<char>, nodes: Seq<T::V>) where
    T::V: SourceText,

    ensures
        accepted_all::<Writer, T>(state, nodes) == state + concat_text(nodes),
    decreases nodes.len(),
{
    if nodes.len() == 0 {
        assert(state + Seq::<char>::empty() =~= state);
    } else {
        T::lemma_written(state, nodes[0]);
        lemma_written_all::<T>(state + nodes[0].text(), nodes.skip(1));
        assert((state + nodes[0].text()) + concat_text(nodes.skip(1)) =~= state + (
        nodes[0].text() + concat_text(nodes.skip(1))));
    }
}

impl<T: Written> Written for Vec<T> where T::V: SourceText {
    proof fn lemma_written(state: Seq<char>, node: Seq<T::V>) {
        lemma_written_all::<T>(state, node);
    }
}

impl<T: Written> Written for WithTrivia<T> where T::V: SourceText {
    proof fn lemma_written(state: Seq<char>, node: WithTriviaView<T::V>) {
        lemma_written_all::<Trivia>(state, node.trivias);
        T::lemma_written(state + node.trivias.text(), node.node);
        assert((state + node.trivias.text()) + node.node.text() =~= state + (node.trivias.text()
            + node.node.text()));
    }
}

impl<T: Written, const MIN: usize, const MAX: usize> Written for Repeat<T, MIN, MAX> where
    T::V: SourceText,
 {
    proof fn lemma_written(state: Seq<char>, node: Seq<T::V>) {
        lemma_written_all::<T>(state, node);
    }
}

/// The writer writes the items behind the first each with its separator.
pub proof fn lemma_written_tail<T: Written, S: Written>(
    state: Seq<char>,
    items: Seq<T::V>,
    separators: Seq<S::V>,
) where T::V: SourceText, S::V: SourceText
    ensures
        accepted_tail::<Writer, T, S>(state, items, separators) == state + tail_text(
            items,
            separators,
        ),
    decreases items.len(),
{
    if items.len() == 0 {
        assert(state + Seq::<char>::empty() =~= state);
    } else if separators.len() == 0 {
        T::lemma_written(state, items[0]);
        lemma_written_tail::<T, S>(state + items[0].text(), items.skip(1), separators);
        assert((state + items[0].text()) + tail_text(items.skip(1), separators) =~= state + (
        items[0].text() + tail_text(items.skip(1), separators)));
    } else {
        S::lemma_written(state, separators[0]);
        T::lemma_written(state + separators[0].text(), items[0]);
        lemma_written_tail::<T, S>(
            state + separators[0].text() + items[0].text(),
            items.skip(1),
            separators.skip(1),
        );
        assert((state + separators[0].text() + items[0].text()) + tail_text(
            items.skip(1),
            separators.skip(1),
        ) =~= state + (separators[0].text() + items[0].text() + tail_text(
            items.skip(1),
            separators.skip(1),
        )));
    }
}

impl<T: Written, S: Written, const MIN: usize, const MAX: usize> Written for Separated<
    T,
    S,
    MIN,
    MAX,
> where T::V: SourceText, S::V: SourceText {
    proof fn lemma_written(state: Seq<char>, node: SeparatedView<T::V, S::V>) {
        if node.items.len() == 0 {
            assert(state + Seq::<char>::empty() =~= state);
        } else {
            T::lemma_written(state, node.items[0]);
            lemma_written_tail::<T, S>(
                state + node.items[0].text(),
                node.items.skip(1),
                node.separators,
            );
            assert((state + node.items[0].text()) + tail_text(
                node.items.skip(1),
                node.separators,
            ) =~= state + (node.items[0].text() + tail_text(node.items.skip(1), node.separators)));
        }
    }
}

impl Written for Whitespace {
    proof fn lemma_written(state: Seq<char>, node: WhitespaceView) {
    }
}

impl Written for Comment {
    proof fn lemma_written(state: Seq<char>, node: CommentView) {
    }
}

impl Written for Identifier {
    proof fn lemma_written(state: Seq<char>, node: IdentifierView) {
    }
}

impl Written for KwGlobal {
    proof fn lemma_written(state: Seq<char>, node: KwGlobal) {
    }
}

impl Written for KwVar {
    proof fn lemma_written(state: Seq<char>, node: KwVar) {
    }
}

impl Written for KwInclude {
    proof fn lemma_written(state: Seq<char>, node: KwInclude) {
    }
}

impl Written for KwIf {
    proof fn lemma_written(state: Seq<char>, node: KwIf) {
    }
}

impl Written for KwElse {
    proof fn lemma_written(state: Seq<char>, node: KwElse) {
    }
}

impl Written for Semi {
    proof fn lemma_written(state: Seq<char>, node: Semi) {
    }
}

impl Written for Comma {
    proof fn lemma_written(state: Seq<char>, node: Comma) {
    }
}

impl Written for Equal {
    proof fn lemma_written(state: Seq<char>, node: Equal) {
    }
}

impl Written for LParen {
    proof fn lemma_written(state: Seq<char>, node: LParen) {
    }
}

impl Written for RParen {
    proof fn lemma_written(state: Seq<char>, node: RParen) {
    }
}

impl Written for SQuote {
    proof fn lemma_written(state: Seq<char>, node: SQuote) {
    }
}

impl Written for DQuote {
    proof fn lemma_written(state: Seq<char>, node: DQuote) {
    }
}

impl Written for NumberLiteral {
    proof fn lemma_written(state: Seq<char>, node: NumberLiteralView) {
    }
}

impl Written for StringLiteral {
    proof fn lemma_written(state: Seq<char>, node: StringLiteralView) {
    }
}

impl Written for EndOfFile {
    proof fn lemma_written(state: Seq<char>, node: EndOfFile) {
        assert(state + node.text() =~= state);
    }
}

impl Written for Trivia {
    proof fn lemma_written(state: Seq<char>, node: TriviaView) {
        match node {
            TriviaView::Whitespace(inner) => {
                <Whitespace as Written>::lemma_written(state, inner);
                assert(state + inner.text() =~= state + node.text());
            },
            TriviaView::Comment(inner) => {
                <Comment as Written>::lemma_written(state, inner);
                assert(state + inner.text() =~= state + node.text());
            },
        }
    }
}

impl Written for Keywords {
    proof fn lemma_written(state: Seq<char>, node: Keywords) {
        match node {
            Keywords::Global(inner) => {
                <KwGlobal as Written>::lemma_written(state, inner);
                assert(state + inner.text() =~= state + node.text());
            },
            Keywords::Var(inner) => {
                <KwVar as Written>::lemma_written(state, inner);
                assert(state + inner.text() =~= state + node.text());
            },
            Keywords::Include(inner) => {
                <KwInclude as Written>::lemma_written(state, inner);
                assert(state + inner.text() =~= state + node.text());
            },
        }
    }
}

impl Written for Quote {
    proof fn lemma_written(state: Seq<char>, node: Quote) {
        match node {
            Quote::Single(inner) => {
                <SQuote as Written>::lemma_written(state, inner);
                assert(state + inner.text() =~= state + node.text());
            },
            Quote::Double(inner) => {
                <DQuote as Written>::lemma_written(state, inner);
                assert(state + inner.text() =~= state + node.text());
            },
        }
    }
}

impl Written for Expression {
    proof fn lemma_written(state: Seq<char>, node: ExpressionView) {
        match node {
            ExpressionView::Identifier(inner) => {
                <Identifier as Written>::lemma_written(state, inner);
                assert(state + inner.text() =~= state + node.text());
            },
            ExpressionView::StringLiteral(inner) => {
                <StringLiteral as Written>::lemma_written(state, inner);
                assert(state + inner.text() =~= state + node.text());
            },
            ExpressionView::NumberLiteral(inner) => {
                <NumberLiteral as Written>::lemma_written(state, inner);
                assert(state + inner.text() =~= state + node.text());
            },
        }
    }
}

impl Written for Type {
    proof fn lemma_written(state: Seq<char>, node: TypeView) {
        <Identifier as Written>::lemma_written(state, node.0);
        assert(state + node.0.text() =~= state + node.text());
    }
}

impl Written for TypeFollowedById {
    proof fn lemma_written(state: Seq<char>, node: TypeFollowedByIdView) {
        <Type as Written>::lemma_written(state, node.0);
        assert(state + node.0.text() =~= state + node.text());
    }
}

impl Written for Assignment {
    proof fn lemma_written(state: Seq<char>, node: AssignmentView) {
        <Identifier as Written>::lemma_written(state, node.0);
        let after_first = state + node.0.text();
        <Option<(WithTrivia<Equal>, WithTrivia<Expression>)> as Written>::lemma_written(
            after_first,
            node.1,
        );
        let after_second = after_first + node.1.text();
        assert(after_second =~= state + node.text());
    }
}

impl Written for AssignmentList {
    proof fn lemma_written(state: Seq<char>, node: AssignmentListView) {
        <Separated1<WithTrivia<Assignment>, WithTrivia<Comma>> as Written>::lemma_written(
            state,
            node.0,
        );
        assert(state + node.0.text() =~= state + node.text());
    }
}

impl Written for GlobalDeclaration {
    proof fn lemma_written(state: Seq<char>, node: GlobalDeclarationView) {
        <WithTrivia<KwGlobal> as Written>::lemma_written(state, node.0);
        let after_first = state + node.0.text();
        <Option<WithTrivia<TypeFollowedById>> as Written>::lemma_written(after_first, node.1);
        let after_second = after_first + node.1.text();
        <AssignmentList as Written>::lemma_written(after_second, node.2);
        let after_third = after_second + node.2.text();
        <Option<WithTrivia<Semi>> as Written>::lemma_written(after_third, node.3);
        let after_fourth = after_third + node.3.text();
        assert(after_fourth =~= state + node.text());
    }
}

impl Written for VariableDeclaration {
    proof fn lemma_written(state: Seq<char>, node: VariableDeclarationView) {
        match node {
            VariableDeclarationView::WithType(ty, assignments, semi) => {
                <TypeFollowedById as Written>::lemma_written(state, ty);
                let after_ty = state + ty.text();
                <AssignmentList as Written>::lemma_written(after_ty, assignments);
                let after_assignments = after_ty + assignments.text();
                <Option<WithTrivia<Semi>> as Written>::lemma_written(after_assignments, semi);
                let after_semi = after_assignments + semi.text();
                assert(after_semi =~= state + node.text());
            },
            VariableDeclarationView::UnspecifiedType(var, assignments, semi) => {
                <KwVar as Written>::lemma_written(state, var);
                let after_var = state + var.text();
                <AssignmentList as Written>::lemma_written(after_var, assignments);
                let after_assignments = after_var + assignments.text();
                <Option<WithTrivia<Semi>> as Written>::lemma_written(after_assignments, semi);
                let after_semi = after_assignments + semi.text();
                assert(after_semi =~= state + node.text());
            },
        }
    }
}

impl Written for IncludeStatement {
    proof fn lemma_written(state: Seq<char>, node: IncludeStatementView) {
        <WithTrivia<KwInclude> as Written>::lemma_written(state, node.kw_include);
        let after_kw_include = state + node.kw_include.text();
        <WithTrivia<LParen> as Written>::lemma_written(after_kw_include, node.lparen);
        let after_lparen = after_kw_include + node.lparen.text();
        <WithTrivia<StringLiteral> as Written>::lemma_written(after_lparen, node.path);
        let after_path = after_lparen + node.path.text();
        <WithTrivia<RParen> as Written>::lemma_written(after_path, node.rparen);
        let after_rparen = after_path + node.rparen.text();
        <Option<WithTrivia<Semi>> as Written>::lemma_written(after_rparen, node.semi);
        let after_semi = after_rparen + node.semi.text();
        assert(after_semi =~= state + node.text());
    }
}

/// The writer writes the text of a statement.
pub proof fn lemma_statement_written(state: Seq<char>, node: StatementsView)
    ensures
        statement_accepted::<Writer>(state, node) == state + statement_text(node),
    decreases node,
{
    match node {
        StatementsView::GlobalDeclaration(inner) => GlobalDeclaration::lemma_written(state, inner),
        StatementsView::IncludeStatement(inner) => IncludeStatement::lemma_written(state, inner),
        StatementsView::VariableDeclaration(inner) => VariableDeclaration::lemma_written(
            state,
            inner,
        ),
        StatementsView::IfStatement(inner) => lemma_if_written(state, *inner),
        StatementsView::SemiColon(inner) => <WithTrivia<Semi> as Written>::lemma_written(
            state,
            inner,
        ),
        StatementsView::Expression(inner) => Expression::lemma_written(state, inner),
        StatementsView::IncludedFile(file) => lemma_file_written(state, *file),
        StatementsView::EmptyStatement(trivias) => lemma_written_all::<Trivia>(state, trivias),
    }
}

/// The writer writes the text of a statement with the trivia in front of it.
pub proof fn lemma_decorated_written(state: Seq<char>, node: WithTriviaView<StatementsView>)
    ensures
        decorated_accepted::<Writer>(state, node) == state + decorated_text(node),
    decreases node,
{
    lemma_written_all::<Trivia>(state, node.trivias);
    lemma_statement_written(state + node.trivias.text(), node.node);
    assert((state + node.trivias.text()) + statement_text(node.node) =~= state + (
    node.trivias.text() + statement_text(node.node)));
}

/// The writer writes the text of an `if` statement.
pub proof fn lemma_if_written(state: Seq<char>, node: IfStatementView)
    ensures
        if_accepted::<Writer>(state, node) == state + if_text(node),
    decreases node,
{
    let head = (node.if_kw, (node.lparen, (node.condition, node.rparen)));
    <IfHead as Written>::lemma_written(state, head);
    let after_head = state + head.text();
    lemma_decorated_written(after_head, node.body);
    let after_body = after_head + decorated_text(node.body);
    match node.else_clause {
        Some(clause) => {
            lemma_written_all::<Trivia>(after_body, clause.trivias);
            lemma_else_written(after_body + clause.trivias.text(), clause.node);
            assert((after_body + clause.trivias.text()) + else_text(clause.node) =~= state
                + if_text(node));
        },
        None => {
            assert(after_body =~= state + if_text(node));
        },
    }
}

/// The writer writes the text of an `else` clause.
pub proof fn lemma_else_written(state: Seq<char>, node: ElseClauseView)
    ensures
        else_accepted::<Writer>(state, node) == state + else_text(node),
    decreases node,
{
    <WithTrivia<KwElse> as Written>::lemma_written(state, node.else_kw);
    lemma_decorated_written(state + node.else_kw.text(), node.body);
    assert((state + node.else_kw.text()) + decorated_text(node.body) =~= state + else_text(node));
}

/// The writer writes the texts of statements in a row one after the other.
pub proof fn lemma_statements_written(
    state: Seq<char>,
    statements: Seq<WithTriviaView<StatementsView>>,
)
    ensures
        statements_accepted::<Writer>(state, statements) == state + statements_text(statements),
    decreases statements,
{
    if statements.len() == 0 {
        assert(state + Seq::<char>::empty() =~= state);
    } else {
        lemma_decorated_written(state, statements[0]);
        lemma_statements_written(state + decorated_text(statements[0]), statements.skip(1));
        assert((state + decorated_text(statements[0])) + statements_text(statements.skip(1))
            =~= state + statements_text(statements));
    }
}

/// The writer writes the text of a file.
pub proof fn lemma_file_written(state: Seq<char>, node: FileView)
    ensures
        file_accepted::<Writer>(state, node) == state + file_text(node),
    decreases node,
{
    lemma_statements_written(state, node.statements);
    <WithTrivia<EndOfFile> as Written>::lemma_written(
        state + statements_text(node.statements),
        node.eof,
    );
    assert((state + statements_text(node.statements)) + node.eof.text() =~= state + file_text(
        node,
    ));
}

/// Writing a file that was read gives the text that it was read from.
pub proof fn lemma_writer_round_trip(input: Seq<char>)
    ensures
        File::spec_parse(input) matches Parsed::Match { value, rest } ==> file_accepted::<Writer>(
            Seq::empty(),
            value,
        ) == input,
{
    crate::ast::structure::file::lemma_round_trip(input);
    if let Parsed::Match { value, rest } = File::spec_parse(input) {
        lemma_file_written(Seq::empty(), value);
        assert(Seq::<char>::empty() + file_text(value) =~= file_text(value));
    }
}

impl Written for Statements {
    proof fn lemma_written(state: Seq<char>, node: StatementsView) {
        lemma_statement_written(state, node);
    }
}

impl Written for IfStatement {
    proof fn lemma_written(state: Seq<char>, node: IfStatementView) {
        lemma_if_written(state, node);
    }
}

impl Written for ElseClause {
    proof fn lemma_written(state: Seq<char>, node: ElseClauseView) {
        lemma_else_written(state, node);
    }
}

impl Written for File {
    proof fn lemma_written(state: Seq<char>, node: FileView) {
        lemma_file_written(state, node);
    }
}

} // verus!
