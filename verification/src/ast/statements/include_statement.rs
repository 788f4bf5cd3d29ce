use vstd::prelude::*;
use crate::ast::terminal::keyword::KwInclude;
use crate::ast::terminal::string_literal::{StringLiteral, StringLiteralView};
use crate::ast::terminal::symbol::{LParen, RParen, Semi};
use crate::ast::trivia::with_trivia::{WithTrivia, WithTriviaView};
use crate::parser::{Parsed, ParseError, Parser, SourceText};
use crate::visitor::{Node, NodeView, OwnedNode, Visitable, VisitableMut, Visitor, VisitorMut};

verus! {

/// `include`, the path of a file as a string literal in parentheses, and `;`
/// where there is one.
#[derive(Debug, Clone, PartialEq, Eq)]
pub struct IncludeStatement {
    pub kw_include: WithTrivia<KwInclude>,
    pub lparen: WithTrivia<LParen>,
    pub path: WithTrivia<StringLiteral>,
    pub rparen: WithTrivia<RParen>,
    pub semi: Option<WithTrivia<Semi>>,
}

/// The model of `IncludeStatement`.
pub struct IncludeStatementView {
    pub kw_include: WithTriviaView<KwInclude>,
    pub lparen: WithTriviaView<LParen>,
    pub path: WithTriviaView<StringLiteralView>,
    pub rparen: WithTriviaView<RParen>,
    pub semi: Option<WithTriviaView<Semi>>,
}

impl DeepView for IncludeStatement {
    type V = IncludeStatementView;

    open spec fn deep_view(&self) -> IncludeStatementView {
        IncludeStatementView {
            kw_include: self.kw_include.deep_view(),
            lparen: self.lparen.deep_view(),
            path: self.path.deep_view(),
            rparen: self.rparen.deep_view(),
            semi: self.semi.deep_view(),
        }
    }
}

impl SourceText for IncludeStatementView {
    open spec fn text(self) -> Seq<char> {
        self.kw_include.text() + self.lparen.text() + self.path.text() + self.rparen.text()
            + self.semi.text()
    }
}

/// The parts of an include statement, in the order in which they are read.
pub type IncludeStatementParts = (
    WithTrivia<KwInclude>,
    (
        WithTrivia<LParen>,
        (WithTrivia<StringLiteral>, (WithTrivia<RParen>, Option<WithTrivia<Semi>>)),
    ),
);

impl Parser for IncludeStatement {
    #[verifier::opaque]
    open spec fn spec_parse(input: Seq<char>) -> Parsed<IncludeStatementView> {
        match IncludeStatementParts::spec_parse(input) {
            Parsed::Match { value: (kw_include, (lparen, (path, (rparen, semi)))), rest } =>
                Parsed::Match {
                value: IncludeStatementView { kw_include, lparen, path, rparen, semi },
                rest,
            },
            Parsed::Fail { at } => Parsed::Fail { at },
        }
    }

    fn parse<'a>(input: &'a str) -> (r: Result<(&'a str, Self), ParseError<'a>>) {
        proof {
            reveal(<IncludeStatement as Parser>::spec_parse);
        }
        match IncludeStatementParts::parse(input) {
            Ok((rest, (kw_include, (lparen, (path, (rparen, semi)))))) => Ok(
                (rest, IncludeStatement { kw_include, lparen, path, rparen, semi }),
            ),
            Err(e) => Err(e),
        }
    }

    proof fn lemma_parse_text(input: Seq<char>) {
        reveal(<IncludeStatement as Parser>::spec_parse);
        IncludeStatementParts::lemma_parse_text(input);
        if let Parsed::Match { value: (kw_include, (lparen, (path, (rparen, semi)))), rest } =
            IncludeStatementParts::spec_parse(input) {
            assert(input =~= kw_include.text() + lparen.text() + path.text() + rparen.text()
                + semi.text() + rest);
        }
    }

    proof fn lemma_parse_failure(input: Seq<char>) {
        reveal(<IncludeStatement as Parser>::spec_parse);
        IncludeStatementParts::lemma_parse_failure(input);
    }
}

impl<V: Visitor> Visitable<V> for IncludeStatement {
    open spec fn accepted(state: V::State, node: IncludeStatementView) -> V::State {
        let seen = V::on(state, NodeView::IncludeStatement(node));
        if seen.1 {
            seen.0
        } else {
            let after_kw_include = <WithTrivia<KwInclude> as Visitable<V>>::accepted(
                seen.0,
                node.kw_include,
            );
            let after_lparen = <WithTrivia<LParen> as Visitable<V>>::accepted(
                after_kw_include,
                node.lparen,
            );
            let after_path = <WithTrivia<StringLiteral> as Visitable<V>>::accepted(
                after_lparen,
                node.path,
            );
            let after_rparen = <WithTrivia<RParen> as Visitable<V>>::accepted(
                after_path,
                node.rparen,
            );
            <Option<WithTrivia<Semi>> as Visitable<V>>::accepted(after_rparen, node.semi)
        }
    }

    fn accept(&self, visitor: &mut V) {
        if !visitor.visit(Node::IncludeStatement(self)) {
            self.kw_include.accept(visitor);
            self.lparen.accept(visitor);
            self.path.accept(visitor);
            self.rparen.accept(visitor);
            self.semi.accept(visitor);
        }
    }
}

impl<V: VisitorMut> VisitableMut<V> for IncludeStatement {
    open spec fn accepted_mut(
        state: V::State,
        node: IncludeStatementView,
    ) -> (V::State, IncludeStatementView) {
        match V::on_mut(state, NodeView::IncludeStatement(node)) {
            (after, Some(NodeView::IncludeStatement(new))) => (after, new),
            (after, Some(_)) => (after, node),
            (after, None) => {
                let kw_include = <WithTrivia<KwInclude> as VisitableMut<V>>::accepted_mut(
                    after,
                    node.kw_include,
                );
                let lparen = <WithTrivia<LParen> as VisitableMut<V>>::accepted_mut(
                    kw_include.0,
                    node.lparen,
                );
                let path = <WithTrivia<StringLiteral> as VisitableMut<V>>::accepted_mut(
                    lparen.0,
                    node.path,
                );
                let rparen = <WithTrivia<RParen> as VisitableMut<V>>::accepted_mut(
                    path.0,
                    node.rparen,
                );
                let semi = <Option<WithTrivia<Semi>> as VisitableMut<V>>::accepted_mut(
                    rparen.0,
                    node.semi,
                );
                (semi.0, IncludeStatementView {
                        kw_include: kw_include.1,
                        lparen: lparen.1,
                        path: path.1,
                        rparen: rparen.1,
                        semi: semi.1,
                    })
            },
        }
    }

    fn accept_mut(&mut self, visitor: &mut V) {
        match visitor.visit_mut(Node::IncludeStatement(self)) {
            Some(OwnedNode::IncludeStatement(new)) => {
                *self = new;
            },
            Some(_) => {},
            None => {
                self.kw_include.accept_mut(visitor);
                self.lparen.accept_mut(visitor);
                self.path.accept_mut(visitor);
                self.rparen.accept_mut(visitor);
                self.semi.accept_mut(visitor);
            },
        }
    }
}

} // verus!
