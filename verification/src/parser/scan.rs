//! Scanning primitives: character classes, and the leaf recognisers that the
//! grammar is composed from.

use vstd::prelude::*;
use crate::parser::{lemma_input_is_suffix, lemma_rest_is_suffix, Parsed, ParseError};

verus! {

/// The character classes that the lexical grammar scans for. The digit
/// classes admit `_` as a separator.
#[derive(Debug, Clone, Copy, PartialEq, Eq)]
pub enum CharClass {
    /// Space, tab, carriage return, line feed.
    Space,
    /// ASCII letters.
    Alpha,
    /// ASCII letters and decimal digits.
    Alphanumeric,
    /// ASCII letters, decimal digits and `_`: what an identifier is made of.
    Word,
    /// `0-9`, `a-f`, `A-F` and `_`.
    Hex,
    /// `0-7` and `_`.
    Octal,
    /// `0`, `1` and `_`.
    Binary,
    /// `0-9` and `_`.
    Decimal,
}

/// Whether `c` is one of `a-z` and `A-Z`.
pub open spec fn is_ascii_letter(c: char) -> bool {
    ('a' <= c && c <= 'z') || ('A' <= c && c <= 'Z')
}

/// Whether `c` is one of `0-9`.
pub open spec fn is_decimal_digit(c: char) -> bool {
    '0' <= c && c <= '9'
}

impl CharClass {
    /// Whether `c` belongs to the class.
    pub open spec fn spec_admits(self, c: char) -> bool {
        match self {
            CharClass::Space => c == ' ' || c == '\t' || c == '\r' || c == '\n',
            CharClass::Alpha => is_ascii_letter(c),
            CharClass::Alphanumeric => is_ascii_letter(c) || is_decimal_digit(c),
            CharClass::Word => is_ascii_letter(c) || is_decimal_digit(c) || c == '_',
            CharClass::Hex => is_decimal_digit(c) || ('a' <= c && c <= 'f') || ('A' <= c && c
                <= 'F') || c == '_',
            CharClass::Octal => ('0' <= c && c <= '7') || c == '_',
            CharClass::Binary => c == '0' || c == '1' || c == '_',
            CharClass::Decimal => is_decimal_digit(c) || c == '_',
        }
    }

    /// Whether `c` belongs to the class.
    pub fn admits(self, c: char) -> (b: bool)
        ensures
            b == self.spec_admits(c),
    {
        let letter = ('a' <= c && c <= 'z') || ('A' <= c && c <= 'Z');
        let digit = '0' <= c && c <= '9';
        match self {
            CharClass::Space => c == ' ' || c == '\t' || c == '\r' || c == '\n',
            CharClass::Alpha => letter,
            CharClass::Alphanumeric => letter || digit,
            CharClass::Word => letter || digit || c == '_',
            CharClass::Hex => digit || ('a' <= c && c <= 'f') || ('A' <= c && c <= 'F') || c
                == '_',
            CharClass::Octal => ('0' <= c && c <= '7') || c == '_',
            CharClass::Binary => c == '0' || c == '1' || c == '_',
            CharClass::Decimal => digit || c == '_',
        }
    }
}

/// Whether `text` begins with `prefix`.
pub open spec fn starts_with(text: Seq<char>, prefix: Seq<char>) -> bool {
    prefix.len() <= text.len() && text.subrange(0, prefix.len() as int) == prefix
}

/// The length of the longest prefix of `text` made of characters of `class`.
pub open spec fn run_length(text: Seq<char>, class: CharClass) -> nat
    decreases text.len(),
{
    if text.len() > 0 && class.spec_admits(text[0]) {
        1 + run_length(text.skip(1), class)
    } else {
        0
    }
}

/// The index of the first occurrence of `pattern` in `text`, if there is one.
pub open spec fn first_match(text: Seq<char>, pattern: Seq<char>) -> Option<int>
    decreases text.len(),
{
    if starts_with(text, pattern) {
        Some(0)
    } else if text.len() == 0 {
        None
    } else {
        match first_match(text.skip(1), pattern) {
            Some(k) => Some(k + 1),
            None => None,
        }
    }
}

/// A split of an input into what a recogniser matched and what it left,
/// in the order `(rest, matched)`.
pub type Split<'a> = Option<(&'a str, &'a str)>;

/// The mathematical reading of a split.
pub open spec fn split_view(r: Split) -> Option<(Seq<char>, Seq<char>)> {
    match r {
        Some((rest, matched)) => Some((rest@, matched@)),
        None => None,
    }
}

/// Splitting `text` behind its first `n` characters.
pub open spec fn split_at(text: Seq<char>, n: int) -> (Seq<char>, Seq<char>) {
    (text.skip(n), text.take(n))
}

/// The literal `pattern` at the front of the input.
pub open spec fn spec_tag(text: Seq<char>, pattern: Seq<char>) -> Option<(Seq<char>, Seq<char>)> {
    if starts_with(text, pattern) {
        Some(split_at(text, pattern.len() as int))
    } else {
        None
    }
}

/// Everything in front of the first occurrence of `pattern`; nothing if
/// `pattern` does not occur.
pub open spec fn spec_take_until(text: Seq<char>, pattern: Seq<char>) -> Option<
    (Seq<char>, Seq<char>),
> {
    match first_match(text, pattern) {
        Some(k) => Some(split_at(text, k)),
        None => None,
    }
}

/// The longest prefix made of characters of `class`, which must not be empty.
pub open spec fn spec_take_run(text: Seq<char>, class: CharClass) -> Option<
    (Seq<char>, Seq<char>),
> {
    let n = run_length(text, class);
    if n > 0 {
        Some(split_at(text, n as int))
    } else {
        None
    }
}

/// A run is never longer than the text it is found in.
pub proof fn lemma_run_length_bound(text: Seq<char>, class: CharClass)
    ensures
        run_length(text, class) <= text.len(),
    decreases text.len(),
{
    if text.len() > 0 && class.spec_admits(text[0]) {
        lemma_run_length_bound(text.skip(1), class);
    }
}

/// Every character of a run is of the class, and the character behind the
/// run, where there is one, is not.
pub proof fn lemma_run_length_chars(text: Seq<char>, class: CharClass)
    ensures
        forall|i: int| 0 <= i < run_length(text, class) ==> class.spec_admits(#[trigger] text[i]),
        run_length(text, class) < text.len() ==> !class.spec_admits(
            text[run_length(text, class) as int],
        ),
    decreases text.len(),
{
    lemma_run_length_bound(text, class);
    if text.len() > 0 && class.spec_admits(text[0]) {
        lemma_run_length_chars(text.skip(1), class);
        assert forall|i: int| 0 <= i < run_length(text, class) implies class.spec_admits(
            #[trigger] text[i],
        ) by {
            if i > 0 {
                assert(text[i] == text.skip(1)[i - 1]);
            }
        }
    }
}

/// A prefix of characters of the class that no such character follows is the
/// run.
pub proof fn lemma_run_length_exact(text: Seq<char>, class: CharClass, n: int)
    requires
        0 <= n <= text.len(),
        forall|i: int| 0 <= i < n ==> class.spec_admits(#[trigger] text[i]),
        n < text.len() ==> !class.spec_admits(text[n]),
    ensures
        run_length(text, class) == n,
    decreases n,
{
    if n > 0 {
        assert(class.spec_admits(text[0]));
        assert forall|i: int| 0 <= i < n - 1 implies class.spec_admits(
            #[trigger] text.skip(1)[i],
        ) by {
            assert(text.skip(1)[i] == text[i + 1]);
        }
        lemma_run_length_exact(text.skip(1), class, n - 1);
    }
}

/// The first occurrence of a pattern lies within the text.
pub proof fn lemma_first_match_bound(text: Seq<char>, pattern: Seq<char>)
    ensures
        first_match(text, pattern) matches Some(k) ==> 0 <= k <= text.len(),
    decreases text.len(),
{
    if !starts_with(text, pattern) && text.len() > 0 {
        lemma_first_match_bound(text.skip(1), pattern);
    }
}

/// What `spec_tag` matches and what it leaves make up the text.
pub proof fn lemma_tag_text(text: Seq<char>, pattern: Seq<char>)
    ensures
        spec_tag(text, pattern) matches Some((rest, matched)) ==> matched == pattern && text
            == matched + rest,
{
    if starts_with(text, pattern) {
        assert(text.take(pattern.len() as int) =~= text.subrange(0, pattern.len() as int));
        assert(text =~= text.take(pattern.len() as int) + text.skip(pattern.len() as int));
    }
}

/// What `spec_take_until` matches and what it leaves make up the text, and
/// the rest begins with the pattern.
pub proof fn lemma_take_until_text(text: Seq<char>, pattern: Seq<char>)
    ensures
        spec_take_until(text, pattern) matches Some((rest, matched)) ==> text == matched + rest
            && starts_with(rest, pattern),
{
    lemma_first_match_bound(text, pattern);
    if let Some(k) = first_match(text, pattern) {
        assert(text =~= text.take(k) + text.skip(k));
        lemma_first_match_starts(text, pattern);
    }
}

/// The text begins with the pattern at its first occurrence.
pub proof fn lemma_first_match_starts(text: Seq<char>, pattern: Seq<char>)
    ensures
        first_match(text, pattern) matches Some(k) ==> 0 <= k <= text.len() && starts_with(
            text.skip(k),
            pattern,
        ),
    decreases text.len(),
{
    if starts_with(text, pattern) {
        assert(text.skip(0) =~= text);
    } else if text.len() > 0 {
        lemma_first_match_starts(text.skip(1), pattern);
        if let Some(k) = first_match(text.skip(1), pattern) {
            assert(text.skip(1).skip(k) =~= text.skip(k + 1));
        }
    }
}

/// What `spec_take_run` matches and what it leaves make up the text, and the
/// match is not empty.
pub proof fn lemma_take_run_text(text: Seq<char>, class: CharClass)
    ensures
        spec_take_run(text, class) matches Some((rest, matched)) ==> text == matched + rest
            && matched.len() > 0,
{
    lemma_run_length_bound(text, class);
    let n = run_length(text, class) as int;
    assert(text =~= text.take(n) + text.skip(n));
}

/// `nom::bytes::complete::tag`: matches when the input begins with `pattern`
/// and splits the input behind it; fails otherwise.
#[verifier::external_body]
pub(crate) fn tag<'a>(pattern: &str, input: &'a str) -> (r: Split<'a>)
    ensures
        split_view(r) == spec_tag(input@, pattern@),
{
    nom::bytes::complete::tag::<&str, &'a str, nom::error::Error<&'a str>>(pattern)(input).ok()
}

/// `nom::bytes::complete::take_until`: splits the input in front of the first
/// occurrence of `pattern`, which stays in the rest; fails when `pattern`
/// does not occur.
#[verifier::external_body]
pub(crate) fn take_until<'a>(pattern: &str, input: &'a str) -> (r: Split<'a>)
    ensures
        split_view(r) == spec_take_until(input@, pattern@),
{
    nom::bytes::complete::take_until::<&str, &'a str, nom::error::Error<&'a str>>(pattern)(
        input,
    ).ok()
}

/// `nom::bytes::complete::take_while1`: splits the input behind its longest
/// prefix of characters of `class`; fails when that prefix is empty.
#[verifier::external_body]
pub(crate) fn take_while1<'a>(class: CharClass, input: &'a str) -> (r: Split<'a>)
    ensures
        split_view(r) == spec_take_run(input@, class),
{
    nom::bytes::complete::take_while1::<_, &'a str, nom::error::Error<&'a str>>(
        |c: char| class.admits(c),
    )(input).ok()
}

/// `nom::character::complete::multispace1`: one or more spaces, tabs, carriage
/// returns and line feeds.
#[verifier::external_body]
pub(crate) fn multispace1<'a>(input: &'a str) -> (r: Split<'a>)
    ensures
        split_view(r) == spec_take_run(input@, CharClass::Space),
{
    nom::character::complete::multispace1::<&'a str, nom::error::Error<&'a str>>(input).ok()
}

/// `nom::character::complete::alpha1`: one or more ASCII letters.
#[verifier::external_body]
pub(crate) fn alpha1<'a>(input: &'a str) -> (r: Split<'a>)
    ensures
        split_view(r) == spec_take_run(input@, CharClass::Alpha),
{
    nom::character::complete::alpha1::<&'a str, nom::error::Error<&'a str>>(input).ok()
}

/// `nom::character::complete::alphanumeric1`: one or more ASCII letters and
/// decimal digits.
#[verifier::external_body]
pub(crate) fn alphanumeric1<'a>(input: &'a str) -> (r: Split<'a>)
    ensures
        split_view(r) == spec_take_run(input@, CharClass::Alphanumeric),
{
    nom::character::complete::alphanumeric1::<&'a str, nom::error::Error<&'a str>>(input).ok()
}

/// What stands between `open`, at the front of the text, and the first
/// `close` behind it, with what is left behind that `close`. Without `open`
/// the failure is at the front; without a `close` it is behind `open`.
pub open spec fn spec_enclosed(text: Seq<char>, open: Seq<char>, close: Seq<char>) -> Parsed<
    Seq<char>,
> {
    match spec_tag(text, open) {
        None => Parsed::Fail { at: text },
        Some((after_open, _)) => match first_match(after_open, close) {
            None => Parsed::Fail { at: after_open },
            Some(k) => Parsed::Match {
                value: after_open.take(k),
                rest: after_open.skip(k + close.len()),
            },
        },
    }
}

/// What is enclosed, with its two marks and what is left, makes up the text.
pub proof fn lemma_enclosed_text(text: Seq<char>, open: Seq<char>, close: Seq<char>)
    ensures
        spec_enclosed(text, open, close) matches Parsed::Match { value, rest } ==> text == open
            + value + close + rest,
{
    lemma_tag_text(text, open);
    if let Some((after_open, _)) = spec_tag(text, open) {
        lemma_first_match_starts(after_open, close);
        if let Some(k) = first_match(after_open, close) {
            let behind = after_open.skip(k);
            assert(behind.subrange(0, close.len() as int) == close);
            assert(after_open =~= after_open.take(k) + close + after_open.skip(k + close.len()));
            assert(text =~= open + after_open.take(k) + close + after_open.skip(k + close.len()));
        }
    }
}

/// Where nothing is enclosed, the failure is at a place in the text.
pub proof fn lemma_enclosed_failure(text: Seq<char>, open: Seq<char>, close: Seq<char>)
    ensures
        spec_enclosed(text, open, close) matches Parsed::Fail { at } ==> at.is_suffix_of(text),
{
    lemma_input_is_suffix(text);
    lemma_tag_text(text, open);
    if let Some((after_open, opened)) = spec_tag(text, open) {
        lemma_rest_is_suffix(opened, after_open);
    }
}

/// Scans what stands between `open` and the first `close` behind it.
pub(crate) fn enclosed<'a>(open: &str, close: &str, input: &'a str) -> (r: Result<
    (&'a str, &'a str),
    ParseError<'a>,
>)
    ensures
        match r {
            Ok((rest, content)) => spec_enclosed(input@, open@, close@) == (Parsed::Match {
                value: content@,
                rest: rest@,
            }),
            Err(e) => spec_enclosed(input@, open@, close@) == (
                Parsed::<Seq<char>>::Fail { at: e.input@ }
            ),
        },
{
    match tag(open, input) {
        None => Err(ParseError { input }),
        Some((after_open, _)) => match take_until(close, after_open) {
            None => Err(ParseError { input: after_open }),
            Some((after_content, content)) => {
                proof {
                    lemma_take_until_text(after_open@, close@);
                    lemma_first_match_bound(after_open@, close@);
                    let k = first_match(after_open@, close@)->0;
                    assert(after_content@.skip(close@.len() as int) =~= after_open@.skip(
                        k + close@.len(),
                    ));
                }
                // The content ends where `close` begins, so that the second arm
                // is never taken.
                match tag(close, after_content) {
                    Some((rest, _)) => Ok((rest, content)),
                    None => Err(ParseError { input: after_content }),
                }
            },
        },
    }
}

} // verus!
