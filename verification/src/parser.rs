//! The parsing engine: what a parser is, what it owes its caller, and the
//! composites every grammar rule is built from.

use vstd::prelude::*;
use vstd::utf8::encode_utf8;

pub mod preceded;
pub mod scan;
pub mod terminated;

verus! {

/// The failure of a parser: the input that was left at the place where it gave
/// up. A failure is recoverable; alternation uses it to try the next rule from
/// the place where the failed one began.
#[derive(Debug, Clone, Copy, PartialEq, Eq)]
pub struct ParseError<'a> {
    pub input: &'a str,
}

impl<'a> ParseError<'a> {
    /// The index, in characters of `source`, at which the failure occurred,
    /// for a failure that arose while parsing `source`.
    pub open spec fn spec_position(self, source: Seq<char>) -> nat {
        if self.input@.len() <= source.len() {
            (source.len() - self.input@.len()) as nat
        } else {
            0
        }
    }

    /// The index, in characters of `source`, at which the failure occurred.
    pub fn position(&self, source: &str) -> (p: usize)
        ensures
            p == self.spec_position(source@),
    {
        let total: usize = source.unicode_len();
        let left: usize = self.input.unicode_len();
        if left <= total {
            total - left
        } else {
            0
        }
    }
}

/// What a parser makes of an input, as a mathematical value: either a value
/// and the input that remains behind it, or the place where it failed.
pub enum Parsed<V> {
    Match { value: V, rest: Seq<char> },
    Fail { at: Seq<char> },
}

/// The mathematical reading of an executable parse result.
pub open spec fn outcome<'a, T: DeepView>(r: Result<(&'a str, T), ParseError<'a>>) -> Parsed<T::V> {
    match r {
        Ok((rest, value)) => Parsed::Match { value: value.deep_view(), rest: rest@ },
        Err(e) => Parsed::Fail { at: e.input@ },
    }
}

/// A piece of syntax that knows the exact text it stands for.
pub trait SourceText {
    /// The text, as it stands in the source.
    spec fn text(self) -> Seq<char>;
}

/// A syntax node that can be read from the front of an input.
pub trait Parser: Sized + DeepView where Self::V: SourceText {
    /// The grammar of the node: what reading it from `input` gives.
    spec fn spec_parse(input: Seq<char>) -> Parsed<Self::V>;

    /// Reads the node from the front of `input`: the node and the input
    /// behind it, or the failure.
    fn parse<'a>(input: &'a str) -> (r: Result<(&'a str, Self), ParseError<'a>>)
        ensures
            outcome(r) == Self::spec_parse(input@),
    ;

    /// What is matched is, character for character, the part of the input
    /// that was consumed.
    proof fn lemma_parse_text(input: Seq<char>)
        ensures
            Self::spec_parse(input) matches Parsed::Match { value, rest } ==> input == value.text()
                + rest,
    ;

    /// A failure is at a place in the input: what it holds is the input from
    /// some character on.
    proof fn lemma_parse_failure(input: Seq<char>)
        ensures
            Self::spec_parse(input) matches Parsed::Fail { at } ==> at.is_suffix_of(input),
    ;
}

/// The whole input is a place in it: its beginning.
pub proof fn lemma_input_is_suffix(input: Seq<char>)
    ensures
        input.is_suffix_of(input),
{
    assert(input =~= input.subrange(0, input.len() as int));
}

/// What is left behind a text is a place in the whole.
pub proof fn lemma_rest_is_suffix(text: Seq<char>, rest: Seq<char>)
    ensures
        rest.is_suffix_of(text + rest),
{
    let whole = text + rest;
    assert(rest =~= whole.subrange(whole.len() - rest.len(), whole.len() as int));
}

/// A place in a place in an input is a place in that input.
pub proof fn lemma_suffix_of_suffix(at: Seq<char>, rest: Seq<char>, input: Seq<char>)
    requires
        at.is_suffix_of(rest),
        rest.is_suffix_of(input),
    ensures
        at.is_suffix_of(input),
{
    let inner = rest.subrange(rest.len() - at.len(), rest.len() as int);
    let outer = input.subrange(input.len() - rest.len(), input.len() as int);
    assert(at =~= input.subrange(input.len() - at.len(), input.len() as int)) by {
        assert(at =~= inner);
        assert(rest =~= outer);
    }
}

/// A failure behind a text that was matched is at a place in the whole.
pub proof fn lemma_failure_behind(at: Seq<char>, text: Seq<char>, rest: Seq<char>)
    requires
        at.is_suffix_of(rest),
    ensures
        at.is_suffix_of(text + rest),
{
    lemma_rest_is_suffix(text, rest);
    lemma_suffix_of_suffix(at, rest, text + rest);
}

/// The texts of `items`, one after the other.
pub open spec fn concat_text<V: SourceText>(items: Seq<V>) -> Seq<char>
    decreases items.len(),
{
    if items.len() == 0 {
        Seq::empty()
    } else {
        items[0].text() + concat_text(items.skip(1))
    }
}

/// The text of a sequence followed by another is the two texts in a row.
pub proof fn lemma_concat_text_add<V: SourceText>(a: Seq<V>, b: Seq<V>)
    ensures
        concat_text(a + b) == concat_text(a) + concat_text(b),
    decreases a.len(),
{
    if a.len() == 0 {
        assert(a + b =~= b);
        assert(concat_text(a) + concat_text(b) =~= concat_text(b));
    } else {
        lemma_concat_text_add(a.skip(1), b);
        assert((a + b).skip(1) =~= a.skip(1) + b);
        assert(concat_text(a + b) =~= a[0].text() + (concat_text(a.skip(1)) + concat_text(b)));
        assert(concat_text(a) + concat_text(b) =~= a[0].text() + (concat_text(a.skip(1))
            + concat_text(b)));
    }
}

/// The text of a single item is that item's text.
pub proof fn lemma_concat_text_one<V: SourceText>(item: V)
    ensures
        concat_text(seq![item]) == item.text(),
{
    let one = seq![item];
    assert(one.skip(1).len() == 0);
    assert(concat_text(one.skip(1)) =~= Seq::<char>::empty());
    assert(concat_text(one) =~= one[0].text() + concat_text(one.skip(1)));
    assert(concat_text(one) =~= item.text());
}

impl<V: SourceText> SourceText for Seq<V> {
    open spec fn text(self) -> Seq<char> {
        concat_text(self)
    }
}

impl<V: SourceText> SourceText for Option<V> {
    open spec fn text(self) -> Seq<char> {
        match self {
            Some(v) => v.text(),
            None => Seq::empty(),
        }
    }
}

impl<A: SourceText, B: SourceText> SourceText for (A, B) {
    open spec fn text(self) -> Seq<char> {
        self.0.text() + self.1.text()
    }
}

/// Zero or one: a failure of the inner parser is a match of nothing.
#[verifier::opaque]
pub open spec fn option_spec<T: Parser>(input: Seq<char>) -> Parsed<Option<T::V>> where
    T::V: SourceText,
 {
    match T::spec_parse(input) {
        Parsed::Match { value, rest } => Parsed::Match { value: Some(value), rest },
        Parsed::Fail { .. } => Parsed::Match { value: None, rest: input },
    }
}

impl<T: Parser> Parser for Option<T> where T::V: SourceText {
    open spec fn spec_parse(input: Seq<char>) -> Parsed<Option<T::V>> {
        option_spec::<T>(input)
    }

    fn parse<'a>(input: &'a str) -> (r: Result<(&'a str, Self), ParseError<'a>>) {
        proof {
            reveal(option_spec);
        }
        match T::parse(input) {
            Ok((rest, value)) => Ok((rest, Some(value))),
            Err(_) => Ok((input, None)),
        }
    }

    proof fn lemma_parse_text(input: Seq<char>) {
        reveal(option_spec);
        T::lemma_parse_text(input);
        assert(input =~= Seq::<char>::empty() + input);
    }

    proof fn lemma_parse_failure(input: Seq<char>) {
        reveal(option_spec);
    }
}

/// A sequence of two: the second starts where the first stopped, and the
/// first failure is the failure of the whole.
#[verifier::opaque]
pub open spec fn pair_spec<A: Parser, B: Parser>(input: Seq<char>) -> Parsed<(A::V, B::V)> where
    A::V: SourceText,
    B::V: SourceText,
 {
    match A::spec_parse(input) {
        Parsed::Fail { at } => Parsed::Fail { at },
        Parsed::Match { value: first, rest } => match B::spec_parse(rest) {
            Parsed::Fail { at } => Parsed::Fail { at },
            Parsed::Match { value: second, rest } => Parsed::Match { value: (first, second), rest },
        },
    }
}

impl<A: Parser, B: Parser> Parser for (A, B) where A::V: SourceText, B::V: SourceText {
    open spec fn spec_parse(input: Seq<char>) -> Parsed<(A::V, B::V)> {
        pair_spec::<A, B>(input)
    }

    fn parse<'a>(input: &'a str) -> (r: Result<(&'a str, Self), ParseError<'a>>) {
        proof {
            reveal(pair_spec);
        }
        match A::parse(input) {
            Err(e) => Err(e),
            Ok((rest, first)) => match B::parse(rest) {
                Err(e) => Err(e),
                Ok((rest, second)) => Ok((rest, (first, second))),
            },
        }
    }

    proof fn lemma_parse_text(input: Seq<char>) {
        reveal(pair_spec);
        A::lemma_parse_text(input);
        if let Parsed::Match { value: first, rest } = A::spec_parse(input) {
            B::lemma_parse_text(rest);
            if let Parsed::Match { value: second, rest: last } = B::spec_parse(rest) {
                assert(input =~= (first.text() + second.text()) + last);
            }
        }
    }

    proof fn lemma_parse_failure(input: Seq<char>) {
        reveal(pair_spec);
        A::lemma_parse_failure(input);
        A::lemma_parse_text(input);
        if let Parsed::Match { value: first, rest } = A::spec_parse(input) {
            B::lemma_parse_failure(rest);
            if let Parsed::Fail { at } = B::spec_parse(rest) {
                lemma_failure_behind(at, first.text(), rest);
            }
        }
    }
}

/// A node behind an indirection, which is what lets a node hold nodes of its
/// own kind.
impl<T: Parser> Parser for Box<T> where T::V: SourceText {
    open spec fn spec_parse(input: Seq<char>) -> Parsed<T::V> {
        T::spec_parse(input)
    }

    fn parse<'a>(input: &'a str) -> (r: Result<(&'a str, Self), ParseError<'a>>) {
        match T::parse(input) {
            Ok((rest, value)) => Ok((rest, Box::new(value))),
            Err(e) => Err(e),
        }
    }

    proof fn lemma_parse_text(input: Seq<char>) {
        T::lemma_parse_text(input);
    }

    proof fn lemma_parse_failure(input: Seq<char>) {
        T::lemma_parse_failure(input);
    }
}

/// `parsed` with `nodes` put in front of what it matched.
pub open spec fn extend_list<V>(nodes: Seq<V>, parsed: Parsed<Seq<V>>) -> Parsed<Seq<V>> {
    match parsed {
        Parsed::Match { value, rest } => Parsed::Match { value: nodes + value, rest },
        Parsed::Fail { at } => Parsed::Fail { at },
    }
}

/// A list: nodes for as long as there is one. A node that is read without
/// anything being consumed would be read for ever; there the list fails,
/// where it stands.
pub open spec fn list_spec<T: Parser>(input: Seq<char>) -> Parsed<Seq<T::V>> where
    T::V: SourceText,

    decreases input.len(),
{
    match T::spec_parse(input) {
        Parsed::Fail { .. } => Parsed::Match { value: Seq::empty(), rest: input },
        Parsed::Match { value, rest } => if rest.len() >= input.len() {
            Parsed::Fail { at: input }
        } else {
            extend_list(seq![value], list_spec::<T>(rest))
        },
    }
}

/// What a list matches is the part of the input that was consumed, and where
/// it fails is a place in the input.
pub proof fn lemma_list<T: Parser>(input: Seq<char>) where T::V: SourceText
    ensures
        list_spec::<T>(input) matches Parsed::Match { value, rest } ==> input == concat_text(value)
            + rest,
        list_spec::<T>(input) matches Parsed::Fail { at } ==> at.is_suffix_of(input),
    decreases input.len(),
{
    lemma_input_is_suffix(input);
    T::lemma_parse_text(input);
    match T::spec_parse(input) {
        Parsed::Fail { .. } => {
            assert(input =~= concat_text(Seq::<T::V>::empty()) + input);
        },
        Parsed::Match { value, rest } => {
            if rest.len() < input.len() {
                lemma_list::<T>(rest);
                match list_spec::<T>(rest) {
                    Parsed::Match { value: tail, rest: last } => {
                        lemma_concat_text_add(seq![value], tail);
                        lemma_concat_text_one(value);
                        assert(input =~= concat_text(seq![value] + tail) + last);
                    },
                    Parsed::Fail { at } => {
                        lemma_failure_behind(at, value.text(), rest);
                    },
                }
            }
        },
    }
}

/// The encoding of two texts in a row is as long as their two encodings.
proof fn lemma_encoding_len(text: Seq<char>, rest: Seq<char>)
    ensures
        encode_utf8(text + rest).len() == encode_utf8(text).len() + encode_utf8(rest).len(),
        encode_utf8(text).len() >= text.len(),
    decreases text.len(),
{
    if text.len() == 0 {
        assert(text + rest =~= rest);
    } else {
        lemma_encoding_len(text.drop_first(), rest);
        assert((text + rest).drop_first() =~= text.drop_first() + rest);
        assert((text + rest)[0] == text[0]);
    }
}

/// Whether reading `input` down to `rest` has consumed anything.
fn has_consumed(input: &str, rest: &str, Ghost(text): Ghost<Seq<char>>) -> (consumed: bool)
    requires
        input@ == text + rest@,
    ensures
        consumed == (rest@.len() < input@.len()),
{
    proof {
        lemma_encoding_len(text, rest@);
    }
    rest.as_bytes().len() != input.as_bytes().len()
}

impl<T: Parser> Parser for Vec<T> where T::V: SourceText {
    open spec fn spec_parse(input: Seq<char>) -> Parsed<Seq<T::V>> {
        list_spec::<T>(input)
    }

    fn parse<'a>(input: &'a str) -> (r: Result<(&'a str, Self), ParseError<'a>>) {
        let mut nodes: Vec<T> = Vec::new();
        let mut rest: &'a str = input;
        proof {
            let whole = list_spec::<T>(input@);
            if let Parsed::Match { value, rest: last } = whole {
                assert(nodes.deep_view() + value =~= value);
            }
        }
        loop
            invariant_except_break
                list_spec::<T>(input@) == extend_list(nodes.deep_view(), list_spec::<T>(rest@)),
            ensures
                list_spec::<T>(input@) == (Parsed::Match {
                    value: nodes.deep_view(),
                    rest: rest@,
                }),
            decreases rest@.len(),
        {
            let ghost before = nodes.deep_view();
            match T::parse(rest) {
                Err(_) => {
                    assert(before + Seq::<T::V>::empty() =~= before);
                    break ;
                },
                Ok((next, node)) => {
                    let ghost value = node.deep_view();
                    proof {
                        T::lemma_parse_text(rest@);
                    }
                    if !has_consumed(rest, next, Ghost(value.text())) {
                        return Err(ParseError { input: rest });
                    }
                    nodes.push(node);
                    proof {
                        assert(nodes.deep_view() =~= before.push(value));
                        if let Parsed::Match { value: tail, rest: last } = list_spec::<T>(next@) {
                            assert(before + (seq![value] + tail) =~= before.push(value) + tail);
                        }
                    }
                    rest = next;
                },
            }
        }
        Ok((rest, nodes))
    }

    proof fn lemma_parse_text(input: Seq<char>) {
        lemma_list::<T>(input);
    }

    proof fn lemma_parse_failure(input: Seq<char>) {
        lemma_list::<T>(input);
    }
}

} // verus!
