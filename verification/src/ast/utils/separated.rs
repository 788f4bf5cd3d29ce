use vstd::prelude::*;
use crate::ast::utils::repeat::UNBOUNDED;
use crate::parser::{
    lemma_failure_behind,
    lemma_input_is_suffix,
    lemma_rest_is_suffix,
    Parsed,
    ParseError,
    Parser,
    SourceText,
};

verus! {

/// Between `MIN` and `MAX` items with a separator between each two of them:
/// the items, and the separators in the order in which they stand.
#[derive(Debug, Clone, PartialEq, Eq)]
pub struct Separated<T, S, const MIN: usize, const MAX: usize>(pub Vec<T>, pub Vec<S>);

/// Any number of items with separators between them.
pub type Separated0<T, S> = Separated<T, S, 0, UNBOUNDED>;

/// One item or more with separators between them.
pub type Separated1<T, S> = Separated<T, S, 1, UNBOUNDED>;

/// The model of `Separated`.
pub struct SeparatedView<A, B> {
    pub items: Seq<A>,
    pub separators: Seq<B>,
}

impl<A, B> SeparatedView<A, B> {
    /// A separator stands between each two items, and nowhere else.
    pub open spec fn well_formed(self) -> bool {
        if self.items.len() == 0 {
            self.separators.len() == 0
        } else {
            self.separators.len() + 1 == self.items.len()
        }
    }
}

impl<T: DeepView, S: DeepView, const MIN: usize, const MAX: usize> DeepView for Separated<
    T,
    S,
    MIN,
    MAX,
> {
    type V = SeparatedView<T::V, S::V>;

    open spec fn deep_view(&self) -> SeparatedView<T::V, S::V> {
        SeparatedView { items: self.0.deep_view(), separators: self.1.deep_view() }
    }
}

/// The text of the items behind the first: each with the separator in front
/// of it, as far as there are separators.
pub open spec fn tail_text<A: SourceText, B: SourceText>(items: Seq<A>, separators: Seq<B>) -> Seq<
    char,
>
    decreases items.len(),
{
    if items.len() == 0 {
        Seq::empty()
    } else if separators.len() == 0 {
        items[0].text() + tail_text(items.skip(1), separators)
    } else {
        separators[0].text() + items[0].text() + tail_text(items.skip(1), separators.skip(1))
    }
}

impl<A: SourceText, B: SourceText> SourceText for SeparatedView<A, B> {
    open spec fn text(self) -> Seq<char> {
        if self.items.len() == 0 {
            Seq::empty()
        } else {
            self.items[0].text() + tail_text(self.items.skip(1), self.separators)
        }
    }
}

/// What follows once `count` items have been read: as long as the bound
/// allows and a separator follows, the separator and one more item. A
/// separator that no item follows is a failure, at the place where the item
/// was looked for.
pub open spec fn separated_tail<T: Parser, S: Parser>(
    input: Seq<char>,
    count: nat,
    max: nat,
) -> Parsed<
    (Seq<T::V>, Seq<S::V>),
> where T::V: SourceText, S::V: SourceText
    decreases max - count,
{
    if count >= max {
        Parsed::Match { value: (Seq::empty(), Seq::empty()), rest: input }
    } else {
        match S::spec_parse(input) {
            Parsed::Fail { .. } => Parsed::Match {
                value: (Seq::empty(), Seq::empty()),
                rest: input,
            },
            Parsed::Match { value: separator, rest } => match T::spec_parse(rest) {
                Parsed::Fail { at } => Parsed::Fail { at },
                Parsed::Match { value: item, rest } => extend_tail(
                    seq![item],
                    seq![separator],
                    separated_tail::<T, S>(rest, count + 1, max),
                ),
            },
        }
    }
}

/// `tail` with `items` and `separators` put in front of what it matched.
pub open spec fn extend_tail<A, B>(
    items: Seq<A>,
    separators: Seq<B>,
    tail: Parsed<(Seq<A>, Seq<B>)>,
) -> Parsed<(Seq<A>, Seq<B>)> {
    match tail {
        Parsed::Fail { at } => Parsed::Fail { at },
        Parsed::Match { value, rest } => Parsed::Match {
            value: (items + value.0, separators + value.1),
            rest,
        },
    }
}

/// Where items follow the first, each has its separator, they do not exceed
/// the bound, and their text is what was consumed.
pub proof fn lemma_separated_tail<T: Parser, S: Parser>(
    input: Seq<char>,
    count: nat,
    max: nat,
) where
    T::V: SourceText,
    S::V: SourceText,

    ensures
        separated_tail::<T, S>(input, count, max) matches Parsed::Match { value, rest } ==> {
            &&& value.0.len() == value.1.len()
            &&& count <= max ==> count + value.0.len() <= max
            &&& input == tail_text(value.0, value.1) + rest
        },
    decreases max - count,
{
    if count < max {
        S::lemma_parse_text(input);
        if let Parsed::Match { value: separator, rest: after_separator } = S::spec_parse(input) {
            T::lemma_parse_text(after_separator);
            if let Parsed::Match { value: item, rest: after_item } = T::spec_parse(
                after_separator,
            ) {
                lemma_separated_tail::<T, S>(after_item, count + 1, max);
                if let Parsed::Match { value: (items, separators), rest } = separated_tail::<T, S>(
                    after_item,
                    count + 1,
                    max,
                ) {
                    let all_items = seq![item] + items;
                    let all_separators = seq![separator] + separators;
                    assert(all_items.skip(1) =~= items);
                    assert(all_separators.skip(1) =~= separators);
                    assert(input =~= tail_text(all_items, all_separators) + rest);
                }
            }
        } else {
            assert(input =~= tail_text(Seq::<T::V>::empty(), Seq::<S::V>::empty()) + input);
        }
    } else {
        assert(input =~= tail_text(Seq::<T::V>::empty(), Seq::<S::V>::empty()) + input);
    }
}

/// Where reading the items behind the first fails, it fails at a place in the
/// input.
pub proof fn lemma_separated_tail_failure<T: Parser, S: Parser>(
    input: Seq<char>,
    count: nat,
    max: nat,
) where T::V: SourceText, S::V: SourceText
    ensures
        separated_tail::<T, S>(input, count, max) matches Parsed::Fail { at } ==> at.is_suffix_of(
            input,
        ),
    decreases max - count,
{
    if count < max {
        S::lemma_parse_text(input);
        if let Parsed::Match { value: separator, rest: after_separator } = S::spec_parse(input) {
            T::lemma_parse_text(after_separator);
            T::lemma_parse_failure(after_separator);
            match T::spec_parse(after_separator) {
                Parsed::Fail { at } => {
                    lemma_failure_behind(at, separator.text(), after_separator);
                },
                Parsed::Match { value: item, rest: after_item } => {
                    lemma_separated_tail_failure::<T, S>(after_item, count + 1, max);
                    if let Parsed::Fail { at } = separated_tail::<T, S>(
                        after_item,
                        count + 1,
                        max,
                    ) {
                        lemma_failure_behind(at, item.text(), after_item);
                        lemma_failure_behind(at, separator.text(), after_separator);
                    }
                },
            }
        }
    }
}

/// Items and separators in turn, starting and ending with an item, up to
/// `max` items. No first item is no item at all; fewer than `min` items is a
/// failure at the place where reading stopped.
#[verifier::opaque]
pub open spec fn separated_spec<T: Parser, S: Parser>(
    input: Seq<char>,
    min: nat,
    max: nat,
) -> Parsed<
    SeparatedView<T::V, S::V>,
> where T::V: SourceText, S::V: SourceText {
    let none = SeparatedView { items: Seq::empty(), separators: Seq::empty() };
    if max == 0 || T::spec_parse(input) is Fail {
        if min == 0 {
            Parsed::Match { value: none, rest: input }
        } else {
            Parsed::Fail { at: input }
        }
    } else {
        match T::spec_parse(input) {
            Parsed::Fail { at } => Parsed::Fail { at },
            Parsed::Match { value: first, rest } => match separated_tail::<T, S>(rest, 1, max) {
                Parsed::Fail { at } => Parsed::Fail { at },
                Parsed::Match { value, rest } => if 1 + value.0.len() < min {
                    Parsed::Fail { at: rest }
                } else {
                    Parsed::Match {
                        value: SeparatedView { items: seq![first] + value.0, separators: value.1 },
                        rest,
                    }
                },
            },
        }
    }
}

impl<T: Parser, S: Parser, const MIN: usize, const MAX: usize> Parser for Separated<
    T,
    S,
    MIN,
    MAX,
> where T::V: SourceText, S::V: SourceText {
    open spec fn spec_parse(input: Seq<char>) -> Parsed<SeparatedView<T::V, S::V>> {
        separated_spec::<T, S>(input, MIN as nat, MAX as nat)
    }

    fn parse<'a>(input: &'a str) -> (r: Result<(&'a str, Self), ParseError<'a>>) {
        proof {
            reveal(separated_spec);
        }
        let mut items: Vec<T> = Vec::new();
        let mut separators: Vec<S> = Vec::new();
        let found = if MAX == 0 {
            None
        } else {
            T::parse(input).ok()
        };
        let (after_first, first) = match found {
            Some(found) => found,
            None => {
                assert(items.deep_view() =~= Seq::empty());
                assert(separators.deep_view() =~= Seq::empty());
                if MIN == 0 {
                    return Ok((input, Separated(items, separators)));
                } else {
                    return Err(ParseError { input });
                }
            },
        };
        let ghost first_view = first.deep_view();
        items.push(first);
        let mut rest: &'a str = after_first;
        let mut count: usize = 1;
        let ghost whole = separated_tail::<T, S>(after_first@, 1, MAX as nat);
        assert(items.deep_view() =~= seq![first_view]);
        assert(separators.deep_view() =~= Seq::empty());
        assert(whole == extend_tail(
            items.deep_view().skip(1),
            separators.deep_view(),
            separated_tail::<T, S>(rest@, count as nat, MAX as nat),
        )) by {
            let tail = separated_tail::<T, S>(rest@, count as nat, MAX as nat);
            if let Parsed::Match { value, rest: last } = tail {
                assert(items.deep_view().skip(1) + value.0 =~= value.0);
                assert(separators.deep_view() + value.1 =~= value.1);
            }
        }
        while count < MAX
            invariant_except_break
                1 <= count <= MAX,
                items@.len() == count,
                items.deep_view()[0] == first_view,
                whole == extend_tail(
                    items.deep_view().skip(1),
                    separators.deep_view(),
                    separated_tail::<T, S>(rest@, count as nat, MAX as nat),
                ),
            invariant
                MAX != 0,
                T::spec_parse(input@) == (Parsed::Match { value: first_view, rest: after_first@ }),
                whole == separated_tail::<T, S>(after_first@, 1, MAX as nat),
            ensures
                items@.len() >= 1,
                items.deep_view()[0] == first_view,
                whole == (Parsed::Match {
                    value: (items.deep_view().skip(1), separators.deep_view()),
                    rest: rest@,
                }),
            decreases MAX - count,
        {
            let ghost items_before = items.deep_view();
            let ghost separators_before = separators.deep_view();
            let (after_separator, separator) = match S::parse(rest) {
                Ok(found) => found,
                Err(_) => {
                    assert(items_before.skip(1) + Seq::<T::V>::empty() =~= items_before.skip(1));
                    assert(separators_before + Seq::<S::V>::empty() =~= separators_before);
                    break ;
                },
            };
            let (next, item) = match T::parse(after_separator) {
                Ok(found) => found,
                Err(e) => {
                    proof {
                        reveal(separated_spec);
                    }
                    return Err(e);
                },
            };
            let ghost item_view = item.deep_view();
            let ghost separator_view = separator.deep_view();
            separators.push(separator);
            items.push(item);
            proof {
                assert(items.deep_view() =~= items_before.push(item_view));
                assert(separators.deep_view() =~= separators_before.push(separator_view));
                let tail = separated_tail::<T, S>(next@, (count + 1) as nat, MAX as nat);
                if let Parsed::Match { value, rest: last } = tail {
                    assert(items_before.skip(1) + (seq![item_view] + value.0)
                        =~= items.deep_view().skip(1) + value.0);
                    assert(separators_before + (seq![separator_view] + value.1)
                        =~= separators.deep_view() + value.1);
                }
            }
            rest = next;
            count += 1;
        }
        proof {
            assert(items.deep_view().skip(1) + Seq::<T::V>::empty() =~= items.deep_view().skip(1));
            assert(separators.deep_view() + Seq::<S::V>::empty() =~= separators.deep_view());
            assert(seq![first_view] + items.deep_view().skip(1) =~= items.deep_view());
        }
        if items.len() < MIN {
            Err(ParseError { input: rest })
        } else {
            Ok((rest, Separated(items, separators)))
        }
    }

    proof fn lemma_parse_text(input: Seq<char>) {
        reveal(separated_spec);
        if MAX != 0 {
            T::lemma_parse_text(input);
            if let Parsed::Match { value: first, rest: after_first } = T::spec_parse(input) {
                lemma_separated_tail::<T, S>(after_first, 1, MAX as nat);
                if let Parsed::Match { value, rest } = separated_tail::<T, S>(
                    after_first,
                    1,
                    MAX as nat,
                ) {
                    let items = seq![first] + value.0;
                    assert(items.skip(1) =~= value.0);
                    assert(input =~= (first.text() + tail_text(value.0, value.1)) + rest);
                }
            } else {
                assert(input =~= Seq::<char>::empty() + input);
            }
        } else {
            assert(input =~= Seq::<char>::empty() + input);
        }
    }

    proof fn lemma_parse_failure(input: Seq<char>) {
        reveal(separated_spec);
        lemma_input_is_suffix(input);
        if MAX != 0 {
            T::lemma_parse_text(input);
            if let Parsed::Match { value: first, rest: after_first } = T::spec_parse(input) {
                lemma_separated_tail::<T, S>(after_first, 1, MAX as nat);
                lemma_separated_tail_failure::<T, S>(after_first, 1, MAX as nat);
                match separated_tail::<T, S>(after_first, 1, MAX as nat) {
                    Parsed::Fail { at } => {
                        lemma_failure_behind(at, first.text(), after_first);
                    },
                    Parsed::Match { value, rest } => {
                        lemma_rest_is_suffix(tail_text(value.0, value.1), rest);
                        lemma_failure_behind(rest, first.text(), after_first);
                    },
                }
            }
        }
    }
}

/// What is read as a separated list is well formed, and holds between `MIN`
/// and `MAX` items.
pub proof fn lemma_separated_shape<T: Parser, S: Parser, const MIN: usize, const MAX: usize>(
    input: Seq<char>,
) where T::V: SourceText, S::V: SourceText
    ensures
        Separated::<T, S, MIN, MAX>::spec_parse(input) matches Parsed::Match { value, rest } ==> {
            &&& value.well_formed()
            &&& MIN <= value.items.len() <= MAX
        },
{
    reveal(separated_spec);
    if MAX != 0 {
        if let Parsed::Match { value: first, rest: after_first } = T::spec_parse(input) {
            lemma_separated_tail::<T, S>(after_first, 1, MAX as nat);
            if let Parsed::Match { value, rest } = separated_tail::<T, S>(
                after_first,
                1,
                MAX as nat,
            ) {
                assert((seq![first] + value.0).len() == 1 + value.0.len());
            }
        }
    }
}

} // verus!
