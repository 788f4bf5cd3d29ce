use vstd::prelude::*;
use crate::parser::{outcome, Parsed, ParseError, Parser, SourceText};
use crate::parser::scan::{enclosed, lemma_enclosed_failure, lemma_enclosed_text, spec_enclosed};
use crate::visitor::{Node, NodeView, OwnedNode, Visitable, VisitableMut, Visitor, VisitorMut};

verus! {

/// A comment: `// ...` up to a line feed, or `/* ... */`. Either holds the
/// text between its delimiters. The flag of the first says whether a line
/// feed ends it: one does in every comment that is read, and none need in a
/// comment that is made.
#[derive(Debug, Clone, PartialEq, Eq)]
pub enum Comment {
    SingleLine(String, bool),
    MultiLine(String),
}

/// The model of `Comment`.
pub enum CommentView {
    SingleLine(Seq<char>, bool),
    MultiLine(Seq<char>),
}

impl DeepView for Comment {
    type V = CommentView;

    open spec fn deep_view(&self) -> CommentView {
        match self {
            Comment::SingleLine(content, newline) => CommentView::SingleLine(content@, *newline),
            Comment::MultiLine(content) => CommentView::MultiLine(content@),
        }
    }
}

impl SourceText for CommentView {
    open spec fn text(self) -> Seq<char> {
        match self {
            CommentView::SingleLine(content, newline) => "//"@ + content + if newline {
                "\n"@
            } else {
                Seq::empty()
            },
            CommentView::MultiLine(content) => "/*"@ + content + "*/"@,
        }
    }
}

/// `//`, then everything in front of the next line feed, then that line feed.
/// A line that the input does not end is no comment.
pub open spec fn spec_single_line(input: Seq<char>) -> Parsed<CommentView> {
    match spec_enclosed(input, "//"@, "\n"@) {
        Parsed::Match { value, rest } => Parsed::Match {
            value: CommentView::SingleLine(value, true),
            rest,
        },
        Parsed::Fail { at } => Parsed::Fail { at },
    }
}

/// `/*`, then everything in front of the next `*/`, then that `*/`.
pub open spec fn spec_multi_line(input: Seq<char>) -> Parsed<CommentView> {
    match spec_enclosed(input, "/*"@, "*/"@) {
        Parsed::Match { value, rest } => Parsed::Match {
            value: CommentView::MultiLine(value),
            rest,
        },
        Parsed::Fail { at } => Parsed::Fail { at },
    }
}

fn parse_single_line<'a>(input: &'a str) -> (r: Result<(&'a str, Comment), ParseError<'a>>)
    ensures
        outcome(r) == spec_single_line(input@),
{
    match enclosed("//", "\n", input) {
        Ok((rest, content)) => Ok((rest, Comment::SingleLine(content.to_owned(), true))),
        Err(e) => Err(e),
    }
}

fn parse_multi_line<'a>(input: &'a str) -> (r: Result<(&'a str, Comment), ParseError<'a>>)
    ensures
        outcome(r) == spec_multi_line(input@),
{
    match enclosed("/*", "*/", input) {
        Ok((rest, content)) => Ok((rest, Comment::MultiLine(content.to_owned()))),
        Err(e) => Err(e),
    }
}

impl Parser for Comment {
    /// A single-line comment, or else a multi-line one.
    #[verifier::opaque]
    open spec fn spec_parse(input: Seq<char>) -> Parsed<CommentView> {
        match spec_single_line(input) {
            Parsed::Match { value, rest } => Parsed::Match { value, rest },
            Parsed::Fail { .. } => spec_multi_line(input),
        }
    }

    fn parse<'a>(input: &'a str) -> (r: Result<(&'a str, Self), ParseError<'a>>) {
        proof {
            reveal(<Comment as Parser>::spec_parse);
        }
        match parse_single_line(input) {
            Ok(found) => Ok(found),
            Err(_) => parse_multi_line(input),
        }
    }

    proof fn lemma_parse_text(input: Seq<char>) {
        reveal(<Comment as Parser>::spec_parse);
        lemma_enclosed_text(input, "//"@, "\n"@);
        lemma_enclosed_text(input, "/*"@, "*/"@);
    }

    proof fn lemma_parse_failure(input: Seq<char>) {
        reveal(<Comment as Parser>::spec_parse);
        lemma_enclosed_failure(input, "/*"@, "*/"@);
    }
}

impl<V: Visitor> Visitable<V> for Comment {
    open spec fn accepted(state: V::State, node: CommentView) -> V::State {
        V::on(state, NodeView::Comment(node)).0
    }

    fn accept(&self, visitor: &mut V) {
        let _ = visitor.visit(Node::Comment(self));
    }
}

impl<V: VisitorMut> VisitableMut<V> for Comment {
    open spec fn accepted_mut(state: V::State, node: CommentView) -> (V::State, CommentView) {
        match V::on_mut(state, NodeView::Comment(node)) {
            (after, Some(NodeView::Comment(new))) => (after, new),
            (after, Some(_)) => (after, node),
            (after, None) => (after, node),
        }
    }

    fn accept_mut(&mut self, visitor: &mut V) {
        match visitor.visit_mut(Node::Comment(self)) {
            Some(OwnedNode::Comment(new)) => {
                *self = new;
            },
            _ => {},
        }
    }
}

} // verus!
