use vstd::prelude::*;
use crate::ast::trivia::trivia::{Trivia, TriviaView};
use crate::ast::utils::repeat::Repeat0;
use crate::parser::{lemma_failure_behind, Parsed, ParseError, Parser, SourceText};

verus! {

/// A node with the trivia that stands in front of it.
#[derive(Debug, Clone, PartialEq, Eq)]
pub struct WithTrivia<T> {
    pub trivias: Vec<Trivia>,
    pub node: T,
}

/// The model of `WithTrivia`.
pub struct WithTriviaView<V> {
    pub trivias: Seq<TriviaView>,
    pub node: V,
}

impl<T: DeepView> DeepView for WithTrivia<T> {
    type V = WithTriviaView<T::V>;

    open spec fn deep_view(&self) -> WithTriviaView<T::V> {
        WithTriviaView { trivias: self.trivias.deep_view(), node: self.node.deep_view() }
    }
}

impl<V: SourceText> SourceText for WithTriviaView<V> {
    open spec fn text(self) -> Seq<char> {
        self.trivias.text() + self.node.text()
    }
}

/// All the trivia there is, then the node. Where the node fails the whole
/// fails, at the place where the node did.
#[verifier::opaque]
pub open spec fn with_trivia_spec<T: Parser>(input: Seq<char>) -> Parsed<WithTriviaView<T::V>> where
    T::V: SourceText,
 {
    match Repeat0::<Trivia>::spec_parse(input) {
        Parsed::Fail { at } => Parsed::Fail { at },
        Parsed::Match { value: trivias, rest } => match T::spec_parse(rest) {
            Parsed::Fail { at } => Parsed::Fail { at },
            Parsed::Match { value: node, rest } => Parsed::Match {
                value: WithTriviaView { trivias, node },
                rest,
            },
        },
    }
}

impl<T: Parser> Parser for WithTrivia<T> where T::V: SourceText {
    open spec fn spec_parse(input: Seq<char>) -> Parsed<WithTriviaView<T::V>> {
        with_trivia_spec::<T>(input)
    }

    fn parse<'a>(input: &'a str) -> (r: Result<(&'a str, Self), ParseError<'a>>) {
        proof {
            reveal(with_trivia_spec);
        }
        match Repeat0::<Trivia>::parse(input) {
            Err(e) => Err(e),
            Ok((rest, trivias)) => match T::parse(rest) {
                Err(e) => Err(e),
                Ok((rest, node)) => Ok((rest, WithTrivia { trivias: trivias.0, node })),
            },
        }
    }

    proof fn lemma_parse_text(input: Seq<char>) {
        reveal(with_trivia_spec);
        Repeat0::<Trivia>::lemma_parse_text(input);
        if let Parsed::Match { value: trivias, rest } = Repeat0::<Trivia>::spec_parse(input) {
            T::lemma_parse_text(rest);
            if let Parsed::Match { value: node, rest: last } = T::spec_parse(rest) {
                assert(input =~= (trivias.text() + node.text()) + last);
            }
        }
    }

    proof fn lemma_parse_failure(input: Seq<char>) {
        reveal(with_trivia_spec);
        Repeat0::<Trivia>::lemma_parse_failure(input);
        Repeat0::<Trivia>::lemma_parse_text(input);
        if let Parsed::Match { value: trivias, rest } = Repeat0::<Trivia>::spec_parse(input) {
            T::lemma_parse_failure(rest);
            if let Parsed::Fail { at } = T::spec_parse(rest) {
                lemma_failure_behind(at, trivias.text(), rest);
            }
        }
    }
}

} // verus!
