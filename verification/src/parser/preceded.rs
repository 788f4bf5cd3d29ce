use vstd::prelude::*;
use crate::parser::{pair_spec, Parsed, ParseError, Parser, SourceText};
use crate::visitor::{Visitable, VisitableMut, Visitor, VisitorMut};
use crate::visitor::includer::IncluderView;
use crate::visitor::includer::untouched::Untouched;
use crate::visitor::writer::Written;

verus! {

/// A node with what stands in front of it, both of which are kept.
#[derive(Debug, Clone, PartialEq, Eq)]
pub struct Preceded<Prec, T>(pub Prec, pub T);

impl<Prec: DeepView, T: DeepView> DeepView for Preceded<Prec, T> {
    type V = (Prec::V, T::V);

    open spec fn deep_view(&self) -> (Prec::V, T::V) {
        (self.0.deep_view(), self.1.deep_view())
    }
}

impl<Prec: Parser, T: Parser> Parser for Preceded<Prec, T> where
    Prec::V: SourceText,
    T::V: SourceText,
 {
    /// The first, then the second where the first stopped.
    open spec fn spec_parse(input: Seq<char>) -> Parsed<(Prec::V, T::V)> {
        pair_spec::<Prec, T>(input)
    }

    fn parse<'a>(input: &'a str) -> (r: Result<(&'a str, Self), ParseError<'a>>) {
        match <(Prec, T)>::parse(input) {
            Ok((rest, (first, second))) => Ok((rest, Preceded(first, second))),
            Err(e) => Err(e),
        }
    }

    proof fn lemma_parse_text(input: Seq<char>) {
        <(Prec, T)>::lemma_parse_text(input);
    }

    proof fn lemma_parse_failure(input: Seq<char>) {
        <(Prec, T)>::lemma_parse_failure(input);
    }
}

impl<V: Visitor, Prec: Visitable<V>, T: Visitable<V>> Visitable<V> for Preceded<Prec, T> {
    open spec fn accepted(state: V::State, node: (Prec::V, T::V)) -> V::State {
        T::accepted(Prec::accepted(state, node.0), node.1)
    }

    fn accept(&self, visitor: &mut V) {
        self.0.accept(visitor);
        self.1.accept(visitor);
    }
}

impl<V: VisitorMut, Prec: VisitableMut<V>, T: VisitableMut<V>> VisitableMut<V> for Preceded<
    Prec,
    T,
> {
    open spec fn accepted_mut(state: V::State, node: (Prec::V, T::V)) -> (
        V::State,
        (Prec::V, T::V),
    ) {
        let first = Prec::accepted_mut(state, node.0);
        let second = T::accepted_mut(first.0, node.1);
        (second.0, (first.1, second.1))
    }

    fn accept_mut(&mut self, visitor: &mut V) {
        self.0.accept_mut(visitor);
        self.1.accept_mut(visitor);
    }
}

impl<Prec: Written, T: Written> Written for Preceded<Prec, T> where
    Prec::V: SourceText,
    T::V: SourceText,
 {
    proof fn lemma_written(state: Seq<char>, node: (Prec::V, T::V)) {
        Prec::lemma_written(state, node.0);
        T::lemma_written(state + node.0.text(), node.1);
        assert((state + node.0.text()) + node.1.text() =~= state + (node.0.text()
            + node.1.text()));
    }
}

impl<Prec: Untouched, T: Untouched> Untouched for Preceded<Prec, T> {
    proof fn lemma_untouched(
        state: IncluderView,
        node: (Prec::V, T::V),
    ) {
        Prec::lemma_untouched(state, node.0);
        T::lemma_untouched(state, node.1);
    }
}

} // verus!
