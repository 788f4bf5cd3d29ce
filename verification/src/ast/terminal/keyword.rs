use vstd::prelude::*;
use crate::parser::{
    lemma_input_is_suffix,
    lemma_rest_is_suffix,
    Parsed,
    ParseError,
    Parser,
    SourceText,
};
use crate::parser::scan::{alphanumeric1, lemma_tag_text, spec_tag, starts_with, tag, CharClass};
use crate::visitor::{Node, NodeView, OwnedNode, Visitable, VisitableMut, Visitor, VisitorMut};

verus! {

/// The word `word` at the front of the input, not running on into a longer
/// word: `globalx` does not begin with the keyword `global`. Where a longer
/// word does follow, the failure is at the character that makes it longer.
pub open spec fn spec_keyword<V>(input: Seq<char>, word: Seq<char>, value: V) -> Parsed<V> {
    match spec_tag(input, word) {
        None => Parsed::Fail { at: input },
        Some((rest, _)) => if rest.len() > 0 && CharClass::Word.spec_admits(rest[0]) {
            Parsed::Fail { at: rest }
        } else {
            Parsed::Match { value, rest }
        },
    }
}

/// Scans the keyword `word` and hands back the input behind it.
fn keyword<'a>(word: &str, input: &'a str) -> (r: Result<&'a str, ParseError<'a>>)
    ensures
        match r {
            Ok(rest) => spec_keyword(input@, word@, ()) == (
                Parsed::Match { value: (), rest: rest@ }
            ),
            Err(e) => spec_keyword(input@, word@, ()) == (Parsed::<()>::Fail { at: e.input@ }),
        },
{
    match tag(word, input) {
        None => Err(ParseError { input }),
        Some((rest, _)) => {
            let letter_or_digit = alphanumeric1(rest).is_some();
            let underscore = tag("_", rest).is_some();
            proof {
                reveal_strlit("_");
                if rest@.len() > 0 {
                    assert(rest@.subrange(0, 1)[0] == rest@[0]);
                    assert(starts_with(rest@, "_"@) <==> rest@[0] == '_') by {
                        if rest@[0] == '_' {
                            assert(rest@.subrange(0, 1) =~= "_"@);
                        }
                    }
                }
            }
            if letter_or_digit || underscore {
                Err(ParseError { input: rest })
            } else {
                Ok(rest)
            }
        },
    }
}

/// The keyword `global`.
#[derive(Debug, Clone, Copy, PartialEq, Eq)]
pub struct KwGlobal;

impl DeepView for KwGlobal {
    type V = KwGlobal;

    open spec fn deep_view(&self) -> KwGlobal {
        *self
    }
}

impl SourceText for KwGlobal {
    open spec fn text(self) -> Seq<char> {
        "global"@
    }
}

impl Parser for KwGlobal {
    open spec fn spec_parse(input: Seq<char>) -> Parsed<KwGlobal> {
        spec_keyword(input, "global"@, KwGlobal)
    }

    fn parse<'a>(input: &'a str) -> (r: Result<(&'a str, Self), ParseError<'a>>) {
        match keyword("global", input) {
            Ok(rest) => Ok((rest, KwGlobal)),
            Err(e) => Err(e),
        }
    }

    proof fn lemma_parse_text(input: Seq<char>) {
        lemma_tag_text(input, "global"@);
    }

    proof fn lemma_parse_failure(input: Seq<char>) {
        lemma_input_is_suffix(input);
        lemma_tag_text(input, "global"@);
        if let Some((rest, matched)) = spec_tag(input, "global"@) {
            lemma_rest_is_suffix(matched, rest);
        }
    }
}

/// The keyword `var`.
#[derive(Debug, Clone, Copy, PartialEq, Eq)]
pub struct KwVar;

impl DeepView for KwVar {
    type V = KwVar;

    open spec fn deep_view(&self) -> KwVar {
        *self
    }
}

impl SourceText for KwVar {
    open spec fn text(self) -> Seq<char> {
        "var"@
    }
}

impl Parser for KwVar {
    open spec fn spec_parse(input: Seq<char>) -> Parsed<KwVar> {
        spec_keyword(input, "var"@, KwVar)
    }

    fn parse<'a>(input: &'a str) -> (r: Result<(&'a str, Self), ParseError<'a>>) {
        match keyword("var", input) {
            Ok(rest) => Ok((rest, KwVar)),
            Err(e) => Err(e),
        }
    }

    proof fn lemma_parse_text(input: Seq<char>) {
        lemma_tag_text(input, "var"@);
    }

    proof fn lemma_parse_failure(input: Seq<char>) {
        lemma_input_is_suffix(input);
        lemma_tag_text(input, "var"@);
        if let Some((rest, matched)) = spec_tag(input, "var"@) {
            lemma_rest_is_suffix(matched, rest);
        }
    }
}

/// The keyword `include`.
#[derive(Debug, Clone, Copy, PartialEq, Eq)]
pub struct KwInclude;

impl DeepView for KwInclude {
    type V = KwInclude;

    open spec fn deep_view(&self) -> KwInclude {
        *self
    }
}

impl SourceText for KwInclude {
    open spec fn text(self) -> Seq<char> {
        "include"@
    }
}

impl Parser for KwInclude {
    open spec fn spec_parse(input: Seq<char>) -> Parsed<KwInclude> {
        spec_keyword(input, "include"@, KwInclude)
    }

    fn parse<'a>(input: &'a str) -> (r: Result<(&'a str, Self), ParseError<'a>>) {
        match keyword("include", input) {
            Ok(rest) => Ok((rest, KwInclude)),
            Err(e) => Err(e),
        }
    }

    proof fn lemma_parse_text(input: Seq<char>) {
        lemma_tag_text(input, "include"@);
    }

    proof fn lemma_parse_failure(input: Seq<char>) {
        lemma_input_is_suffix(input);
        lemma_tag_text(input, "include"@);
        if let Some((rest, matched)) = spec_tag(input, "include"@) {
            lemma_rest_is_suffix(matched, rest);
        }
    }
}

/// The keyword `if`.
#[derive(Debug, Clone, Copy, PartialEq, Eq)]
pub struct KwIf;

impl DeepView for KwIf {
    type V = KwIf;

    open spec fn deep_view(&self) -> KwIf {
        *self
    }
}

impl SourceText for KwIf {
    open spec fn text(self) -> Seq<char> {
        "if"@
    }
}

impl Parser for KwIf {
    open spec fn spec_parse(input: Seq<char>) -> Parsed<KwIf> {
        spec_keyword(input, "if"@, KwIf)
    }

    fn parse<'a>(input: &'a str) -> (r: Result<(&'a str, Self), ParseError<'a>>) {
        match keyword("if", input) {
            Ok(rest) => Ok((rest, KwIf)),
            Err(e) => Err(e),
        }
    }

    proof fn lemma_parse_text(input: Seq<char>) {
        lemma_tag_text(input, "if"@);
    }

    proof fn lemma_parse_failure(input: Seq<char>) {
        lemma_input_is_suffix(input);
        lemma_tag_text(input, "if"@);
        if let Some((rest, matched)) = spec_tag(input, "if"@) {
            lemma_rest_is_suffix(matched, rest);
        }
    }
}

/// The keyword `else`.
#[derive(Debug, Clone, Copy, PartialEq, Eq)]
pub struct KwElse;

impl DeepView for KwElse {
    type V = KwElse;

    open spec fn deep_view(&self) -> KwElse {
        *self
    }
}

impl SourceText for KwElse {
    open spec fn text(self) -> Seq<char> {
        "else"@
    }
}

impl Parser for KwElse {
    open spec fn spec_parse(input: Seq<char>) -> Parsed<KwElse> {
        spec_keyword(input, "else"@, KwElse)
    }

    fn parse<'a>(input: &'a str) -> (r: Result<(&'a str, Self), ParseError<'a>>) {
        match keyword("else", input) {
            Ok(rest) => Ok((rest, KwElse)),
            Err(e) => Err(e),
        }
    }

    proof fn lemma_parse_text(input: Seq<char>) {
        lemma_tag_text(input, "else"@);
    }

    proof fn lemma_parse_failure(input: Seq<char>) {
        lemma_input_is_suffix(input);
        lemma_tag_text(input, "else"@);
        if let Some((rest, matched)) = spec_tag(input, "else"@) {
            lemma_rest_is_suffix(matched, rest);
        }
    }
}

/// A keyword that opens a statement of a file: `global`, `var` or `include`.
/// Of these `parse` reads the two that open a declaration, `global` and
/// `var`.
#[derive(Debug, Clone, Copy, PartialEq, Eq)]
pub enum Keywords {
    Global(KwGlobal),
    Var(KwVar),
    Include(KwInclude),
}

impl DeepView for Keywords {
    type V = Keywords;

    open spec fn deep_view(&self) -> Keywords {
        *self
    }
}

impl SourceText for Keywords {
    open spec fn text(self) -> Seq<char> {
        match self {
            Keywords::Global(node) => node.text(),
            Keywords::Var(node) => node.text(),
            Keywords::Include(node) => node.text(),
        }
    }
}

impl Parser for Keywords {
    /// `global`, or else `var`.
    #[verifier::opaque]
    open spec fn spec_parse(input: Seq<char>) -> Parsed<Keywords> {
        match KwGlobal::spec_parse(input) {
            Parsed::Match { value, rest } => Parsed::Match { value: Keywords::Global(value), rest },
            Parsed::Fail { .. } => match KwVar::spec_parse(input) {
                Parsed::Match { value, rest } => Parsed::Match {
                    value: Keywords::Var(value),
                    rest,
                },
                Parsed::Fail { at } => Parsed::Fail { at },
            },
        }
    }

    fn parse<'a>(input: &'a str) -> (r: Result<(&'a str, Self), ParseError<'a>>) {
        proof {
            reveal(<Keywords as Parser>::spec_parse);
        }
        match KwGlobal::parse(input) {
            Ok((rest, node)) => Ok((rest, Keywords::Global(node))),
            Err(_) => match KwVar::parse(input) {
                Ok((rest, node)) => Ok((rest, Keywords::Var(node))),
                Err(e) => Err(e),
            },
        }
    }

    proof fn lemma_parse_text(input: Seq<char>) {
        reveal(<Keywords as Parser>::spec_parse);
        KwGlobal::lemma_parse_text(input);
        KwVar::lemma_parse_text(input);
    }

    proof fn lemma_parse_failure(input: Seq<char>) {
        reveal(<Keywords as Parser>::spec_parse);
        KwVar::lemma_parse_failure(input);
    }
}

/// Whether the input begins with a reserved word: one of `global`, `var`,
/// `include`, `if` and `else`, not running on into a longer word. No
/// identifier begins where a reserved word does.
pub open spec fn spec_reserved(input: Seq<char>) -> bool {
    ||| KwGlobal::spec_parse(input) is Match
    ||| KwVar::spec_parse(input) is Match
    ||| KwInclude::spec_parse(input) is Match
    ||| KwIf::spec_parse(input) is Match
    ||| KwElse::spec_parse(input) is Match
}

/// Whether the input begins with a reserved word.
pub fn reserved(input: &str) -> (r: bool)
    ensures
        r == spec_reserved(input@),
{
    KwGlobal::parse(input).is_ok() || KwVar::parse(input).is_ok() || KwInclude::parse(
        input,
    ).is_ok() || KwIf::parse(input).is_ok() || KwElse::parse(input).is_ok()
}

impl<V: Visitor> Visitable<V> for KwGlobal {
    open spec fn accepted(state: V::State, node: KwGlobal) -> V::State {
        V::on(state, NodeView::KwGlobal(node)).0
    }

    fn accept(&self, visitor: &mut V) {
        let _ = visitor.visit(Node::KwGlobal(self));
    }
}

impl<V: Visitor> Visitable<V> for KwVar {
    open spec fn accepted(state: V::State, node: KwVar) -> V::State {
        V::on(state, NodeView::KwVar(node)).0
    }

    fn accept(&self, visitor: &mut V) {
        let _ = visitor.visit(Node::KwVar(self));
    }
}

impl<V: Visitor> Visitable<V> for KwInclude {
    open spec fn accepted(state: V::State, node: KwInclude) -> V::State {
        V::on(state, NodeView::KwInclude(node)).0
    }

    fn accept(&self, visitor: &mut V) {
        let _ = visitor.visit(Node::KwInclude(self));
    }
}

impl<V: Visitor> Visitable<V> for KwIf {
    open spec fn accepted(state: V::State, node: KwIf) -> V::State {
        V::on(state, NodeView::KwIf(node)).0
    }

    fn accept(&self, visitor: &mut V) {
        let _ = visitor.visit(Node::KwIf(self));
    }
}

impl<V: Visitor> Visitable<V> for KwElse {
    open spec fn accepted(state: V::State, node: KwElse) -> V::State {
        V::on(state, NodeView::KwElse(node)).0
    }

    fn accept(&self, visitor: &mut V) {
        let _ = visitor.visit(Node::KwElse(self));
    }
}

impl<V: Visitor> Visitable<V> for Keywords {
    open spec fn accepted(state: V::State, node: Keywords) -> V::State {
        let seen = V::on(state, NodeView::Keywords(node));
        if seen.1 {
            seen.0
        } else {
            match node {
                Keywords::Global(inner) => <KwGlobal as Visitable<V>>::accepted(seen.0, inner),
                Keywords::Var(inner) => <KwVar as Visitable<V>>::accepted(seen.0, inner),
                Keywords::Include(inner) => <KwInclude as Visitable<V>>::accepted(seen.0, inner),
            }
        }
    }

    fn accept(&self, visitor: &mut V) {
        if !visitor.visit(Node::Keywords(self)) {
            match self {
                Keywords::Global(inner) => {
                    inner.accept(visitor);
                },
                Keywords::Var(inner) => {
                    inner.accept(visitor);
                },
                Keywords::Include(inner) => {
                    inner.accept(visitor);
                },
            }
        }
    }
}

impl<V: VisitorMut> VisitableMut<V> for KwGlobal {
    open spec fn accepted_mut(state: V::State, node: KwGlobal) -> (V::State, KwGlobal) {
        match V::on_mut(state, NodeView::KwGlobal(node)) {
            (after, Some(NodeView::KwGlobal(new))) => (after, new),
            (after, Some(_)) => (after, node),
            (after, None) => (after, node),
        }
    }

    fn accept_mut(&mut self, visitor: &mut V) {
        match visitor.visit_mut(Node::KwGlobal(self)) {
            Some(OwnedNode::KwGlobal(new)) => {
                *self = new;
            },
            _ => {},
        }
    }
}

impl<V: VisitorMut> VisitableMut<V> for KwVar {
    open spec fn accepted_mut(state: V::State, node: KwVar) -> (V::State, KwVar) {
        match V::on_mut(state, NodeView::KwVar(node)) {
            (after, Some(NodeView::KwVar(new))) => (after, new),
            (after, Some(_)) => (after, node),
            (after, None) => (after, node),
        }
    }

    fn accept_mut(&mut self, visitor: &mut V) {
        match visitor.visit_mut(Node::KwVar(self)) {
            Some(OwnedNode::KwVar(new)) => {
                *self = new;
            },
            _ => {},
        }
    }
}

impl<V: VisitorMut> VisitableMut<V> for KwInclude {
    open spec fn accepted_mut(state: V::State, node: KwInclude) -> (V::State, KwInclude) {
        match V::on_mut(state, NodeView::KwInclude(node)) {
            (after, Some(NodeView::KwInclude(new))) => (after, new),
            (after, Some(_)) => (after, node),
            (after, None) => (after, node),
        }
    }

    fn accept_mut(&mut self, visitor: &mut V) {
        match visitor.visit_mut(Node::KwInclude(self)) {
            Some(OwnedNode::KwInclude(new)) => {
                *self = new;
            },
            _ => {},
        }
    }
}

impl<V: VisitorMut> VisitableMut<V> for KwIf {
    open spec fn accepted_mut(state: V::State, node: KwIf) -> (V::State, KwIf) {
        match V::on_mut(state, NodeView::KwIf(node)) {
            (after, Some(NodeView::KwIf(new))) => (after, new),
            (after, Some(_)) => (after, node),
            (after, None) => (after, node),
        }
    }

    fn accept_mut(&mut self, visitor: &mut V) {
        match visitor.visit_mut(Node::KwIf(self)) {
            Some(OwnedNode::KwIf(new)) => {
                *self = new;
            },
            _ => {},
        }
    }
}

impl<V: VisitorMut> VisitableMut<V> for KwElse {
    open spec fn accepted_mut(state: V::State, node: KwElse) -> (V::State, KwElse) {
        match V::on_mut(state, NodeView::KwElse(node)) {
            (after, Some(NodeView::KwElse(new))) => (after, new),
            (after, Some(_)) => (after, node),
            (after, None) => (after, node),
        }
    }

    fn accept_mut(&mut self, visitor: &mut V) {
        match visitor.visit_mut(Node::KwElse(self)) {
            Some(OwnedNode::KwElse(new)) => {
                *self = new;
            },
            _ => {},
        }
    }
}

impl<V: VisitorMut> VisitableMut<V> for Keywords {
    open spec fn accepted_mut(state: V::State, node: Keywords) -> (V::State, Keywords) {
        match V::on_mut(state, NodeView::Keywords(node)) {
            (after, Some(NodeView::Keywords(new))) => (after, new),
            (after, Some(_)) => (after, node),
            (after, None) => match node {
                Keywords::Global(inner) => {
                    let new_inner = <KwGlobal as VisitableMut<V>>::accepted_mut(after, inner);
                    (new_inner.0, Keywords::Global(new_inner.1))
                },
                Keywords::Var(inner) => {
                    let new_inner = <KwVar as VisitableMut<V>>::accepted_mut(after, inner);
                    (new_inner.0, Keywords::Var(new_inner.1))
                },
                Keywords::Include(inner) => {
                    let new_inner = <KwInclude as VisitableMut<V>>::accepted_mut(after, inner);
                    (new_inner.0, Keywords::Include(new_inner.1))
                },
            },
        }
    }

    fn accept_mut(&mut self, visitor: &mut V) {
        match visitor.visit_mut(Node::Keywords(self)) {
            Some(OwnedNode::Keywords(new)) => {
                *self = new;
            },
            Some(_) => {},
            None => {
                match self {
                    Keywords::Global(inner) => {
                        inner.accept_mut(visitor);
                    },
                    Keywords::Var(inner) => {
                        inner.accept_mut(visitor);
                    },
                    Keywords::Include(inner) => {
                        inner.accept_mut(visitor);
                    },
                }
            },
        }
    }
}

} // verus!
