use vstd::prelude::*;
use crate::parser::{pair_spec, Parsed, ParseError, Parser, SourceText};
use crate::visitor::{Visitable, VisitableMut, Visitor, VisitorMut};
use crate::visitor::includer::IncluderView;
use crate::visitor::includer::untouched::Untouched;
use crate::visitor::writer::Written;

verus! {

/// A node with what stands behind it, both of which are kept.
#[derive(Debug, Clone, PartialEq, Eq)]
pub struct Terminated<T, Term>(pub T, pub Term);

impl<T: DeepView, Term: DeepView> DeepView for Terminated<T, Term> {
    type V = (T::V, Term::V);

    open spec fn deep_view(&self) -> (T::V, Term::V) {
        (self.0.deep_view(), self.1.deep_view())
    }
}

impl<T: Parser, Term: Parser> Parser for Terminated<T, Term> where
    T::V: SourceText,
    Term::V: SourceText,
 {
    /// The first, then the second where the first stopped.
    open spec fn spec_parse(input: Seq<char>) -> Parsed<(T::V, Term::V)> {
        pair_spec::<T, Term>(input)
    }

    fn parse<'a>(input: &'a str) -> (r: Result<(&'a str, Self), ParseError<'a>>) {
        match <(T, Term)>::parse(input) {
            Ok((rest, (first, second))) => Ok((rest, Terminated(first, second))),
            Err(e) => Err(e),
        }
    }

    proof fn lemma_parse_text(input: Seq<char>) {
        <(T, Term)>::lemma_parse_text(input);
    }

    proof fn lemma_parse_failure(input: Seq<char>) {
        <(T, Term)>::lemma_parse_failure(input);
    }
}

impl<V: Visitor, T: Visitable<V>, Term: Visitable<V>> Visitable<V> for Terminated<T, Term> {
    open spec fn accepted(state: V::State, node: (T::V, Term::V)) -> V::State {
        Term::accepted(T::accepted(state, node.0), node.1)
    }

    fn accept(&self, visitor: &mut V) {
        self.0.accept(visitor);
        self.1.accept(visitor);
    }
}

impl<V: VisitorMut, T: VisitableMut<V>, Term: VisitableMut<V>> VisitableMut<V> for Terminated<
    T,
    Term,
> {
    open spec fn accepted_mut(state: V::State, node: (T::V, Term::V)) -> (
        V::State,
        (T::V, Term::V),
    ) {
        let first = T::accepted_mut(state, node.0);
        let second = Term::accepted_mut(first.0, node.1);
        (second.0, (first.1, second.1))
    }

    fn accept_mut(&mut self, visitor: &mut V) {
        self.0.accept_mut(visitor);
        self.1.accept_mut(visitor);
    }
}

impl<T: Written, Term: Written> Written for Terminated<T, Term> where
    T::V: SourceText,
    Term::V: SourceText,
 {
    proof fn lemma_written(state: Seq<char>, node: (T::V, Term::V)) {
        T::lemma_written(state, node.0);
        Term::lemma_written(state + node.0.text(), node.1);
        assert((state + node.0.text()) + node.1.text() =~= state + (node.0.text()
            + node.1.text()));
    }
}

impl<T: Untouched, Term: Untouched> Untouched for Terminated<T, Term> {
    proof fn lemma_untouched(
        state: IncluderView,
        node: (T::V, Term::V),
    ) {
        T::lemma_untouched(state, node.0);
        Term::lemma_untouched(state, node.1);
    }
}

} // verus!
