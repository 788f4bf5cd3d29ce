use vstd::prelude::*;
use crate::parser::{lemma_rest_is_suffix, Parsed, ParseError, Parser, SourceText};

verus! {

/// The bound of a sequence that is not meant to have one: the largest count
/// that a `usize` holds on every platform.
pub const UNBOUNDED: usize = 0xFFFF_FFFF;

/// Between `MIN` and `MAX` nodes in a row.
#[derive(Debug, Clone, PartialEq, Eq)]
pub struct Repeat<T, const MIN: usize, const MAX: usize>(pub Vec<T>);

/// Any number of nodes in a row.
pub type Repeat0<T> = Repeat<T, 0, UNBOUNDED>;

/// One node or more in a row.
pub type Repeat1<T> = Repeat<T, 1, UNBOUNDED>;

impl<T: DeepView, const MIN: usize, const MAX: usize> DeepView for Repeat<T, MIN, MAX> {
    type V = Seq<T::V>;

    open spec fn deep_view(&self) -> Seq<T::V> {
        self.0.deep_view()
    }
}

/// The greedy collection of nodes from `input`, given that `count` have been
/// collected already: it stops at the first failure or at `max` nodes, and
/// yields the nodes with the input behind the last of them.
pub open spec fn collect<T: Parser>(input: Seq<char>, count: nat, max: nat) -> (
    Seq<T::V>,
    Seq<char>,
) where T::V: SourceText
    decreases max - count,
{
    if count >= max {
        (Seq::empty(), input)
    } else {
        match T::spec_parse(input) {
            Parsed::Fail { .. } => (Seq::empty(), input),
            Parsed::Match { value, rest } => {
                let (tail, last) = collect::<T>(rest, count + 1, max);
                (seq![value] + tail, last)
            },
        }
    }
}

/// What is collected is what was consumed, and never more than the bound.
pub proof fn lemma_collect<T: Parser>(input: Seq<char>, count: nat, max: nat) where
    T::V: SourceText,

    ensures
        input == collect::<T>(input, count, max).0.text() + collect::<T>(input, count, max).1,
        count <= max ==> count + collect::<T>(input, count, max).0.len() <= max,
    decreases max - count,
{
    let (items, last) = collect::<T>(input, count, max);
    if count >= max {
        assert(input =~= items.text() + last);
    } else {
        T::lemma_parse_text(input);
        match T::spec_parse(input) {
            Parsed::Fail { .. } => {
                assert(input =~= items.text() + last);
            },
            Parsed::Match { value, rest } => {
                lemma_collect::<T>(rest, count + 1, max);
                let (tail, _) = collect::<T>(rest, count + 1, max);
                crate::parser::lemma_concat_text_add(seq![value], tail);
                crate::parser::lemma_concat_text_one(value);
                assert(input =~= items.text() + last);
            },
        }
    }
}

/// Nodes are collected greedily up to `max`; fewer than `min` is a failure at
/// the place where collecting stopped.
#[verifier::opaque]
pub open spec fn repeat_spec<T: Parser>(input: Seq<char>, min: nat, max: nat) -> Parsed<
    Seq<T::V>,
> where T::V: SourceText {
    let (items, rest) = collect::<T>(input, 0, max);
    if items.len() < min {
        Parsed::Fail { at: rest }
    } else {
        Parsed::Match { value: items, rest }
    }
}

impl<T: Parser, const MIN: usize, const MAX: usize> Parser for Repeat<T, MIN, MAX> where
    T::V: SourceText,
 {
    open spec fn spec_parse(input: Seq<char>) -> Parsed<Seq<T::V>> {
        repeat_spec::<T>(input, MIN as nat, MAX as nat)
    }

    fn parse<'a>(input: &'a str) -> (r: Result<(&'a str, Self), ParseError<'a>>) {
        proof {
            reveal(repeat_spec);
        }
        let mut items: Vec<T> = Vec::new();
        let mut rest: &'a str = input;
        let mut count: usize = 0;
        assert(items.deep_view() + collect::<T>(input@, 0, MAX as nat).0 =~= collect::<T>(
            input@,
            0,
            MAX as nat,
        ).0);
        while count < MAX
            invariant_except_break
                count <= MAX,
                items@.len() == count,
                collect::<T>(input@, 0, MAX as nat) == (
                    items.deep_view() + collect::<T>(rest@, count as nat, MAX as nat).0,
                    collect::<T>(rest@, count as nat, MAX as nat).1,
                ),
            ensures
                collect::<T>(input@, 0, MAX as nat) == (items.deep_view(), rest@),
            decreases MAX - count,
        {
            let ghost before = items.deep_view();
            match T::parse(rest) {
                Ok((next, item)) => {
                    let ghost value = item.deep_view();
                    items.push(item);
                    assert(items.deep_view() =~= before.push(value));
                    assert(before + (seq![value] + collect::<T>(
                        next@,
                        (count + 1) as nat,
                        MAX as nat,
                    ).0) =~= before.push(value) + collect::<T>(
                        next@,
                        (count + 1) as nat,
                        MAX as nat,
                    ).0);
                    rest = next;
                    count += 1;
                },
                Err(_) => {
                    assert(before + Seq::<T::V>::empty() =~= before);
                    break ;
                },
            }
        }
        assert(items.deep_view() + Seq::<T::V>::empty() =~= items.deep_view());
        if items.len() < MIN {
            Err(ParseError { input: rest })
        } else {
            Ok((rest, Repeat(items)))
        }
    }

    proof fn lemma_parse_text(input: Seq<char>) {
        reveal(repeat_spec);
        lemma_collect::<T>(input, 0, MAX as nat);
    }

    proof fn lemma_parse_failure(input: Seq<char>) {
        reveal(repeat_spec);
        lemma_collect::<T>(input, 0, MAX as nat);
        let (items, rest) = collect::<T>(input, 0, MAX as nat);
        lemma_rest_is_suffix(items.text(), rest);
    }
}

} // verus!
