use vstd::prelude::*;
use vstd::string::StringExecFns;
use crate::parser::{lemma_input_is_suffix, Parsed, ParseError, Parser, SourceText};
use crate::parser::scan::{
    lemma_tag_text,
    lemma_take_run_text,
    spec_tag,
    spec_take_run,
    tag,
    take_while1,
    CharClass,
};
use crate::visitor::{Node, NodeView, OwnedNode, Visitable, VisitableMut, Visitor, VisitorMut};

verus! {

/// How a number literal is written.
#[derive(Debug, Clone, Copy, PartialEq, Eq)]
pub enum NumberKind {
    Hex,
    Octal,
    Binary,
    Float,
    Decimal,
}

/// A number as it was written: no value is computed, so that digits,
/// separators and exponents come back out unchanged.
#[derive(Debug, Clone, PartialEq, Eq)]
pub struct NumberLiteral {
    pub kind: NumberKind,
    pub content: String,
}

/// The model of `NumberLiteral`.
pub struct NumberLiteralView {
    pub kind: NumberKind,
    pub content: Seq<char>,
}

impl DeepView for NumberLiteral {
    type V = NumberLiteralView;

    open spec fn deep_view(&self) -> NumberLiteralView {
        NumberLiteralView { kind: self.kind, content: self.content@ }
    }
}

impl SourceText for NumberLiteralView {
    open spec fn text(self) -> Seq<char> {
        self.content
    }
}

/// A scan under way: the text taken so far and the input behind it.
struct Scan<'a> {
    rest: &'a str,
    text: String,
}

/// The model of `Scan`.
pub struct ScanView {
    pub rest: Seq<char>,
    pub text: Seq<char>,
}

spec fn scan_view(s: Option<Scan>) -> Option<ScanView> {
    match s {
        Some(s) => Some(ScanView { rest: s.rest@, text: s.text@ }),
        None => None,
    }
}

/// A scan that has taken nothing yet.
pub open spec fn spec_start(input: Seq<char>) -> Option<ScanView> {
    Some(ScanView { rest: input, text: Seq::empty() })
}

/// Goes on with a non-empty run of characters of `class`.
pub open spec fn spec_then_run(s: Option<ScanView>, class: CharClass) -> Option<ScanView> {
    match s {
        None => None,
        Some(s) => match spec_take_run(s.rest, class) {
            None => None,
            Some((rest, matched)) => Some(ScanView { rest, text: s.text + matched }),
        },
    }
}

/// Goes on with the literal `pattern`.
pub open spec fn spec_then_tag(s: Option<ScanView>, pattern: Seq<char>) -> Option<ScanView> {
    match s {
        None => None,
        Some(s) => match spec_tag(s.rest, pattern) {
            None => None,
            Some((rest, matched)) => Some(ScanView { rest, text: s.text + matched }),
        },
    }
}

/// Goes on with the literal `first`, or else with `second`.
pub open spec fn spec_then_either(
    s: Option<ScanView>,
    first: Seq<char>,
    second: Seq<char>,
) -> Option<ScanView> {
    match spec_then_tag(s, first) {
        Some(found) => Some(found),
        None => spec_then_tag(s, second),
    }
}

/// Goes on with `+` or `-` where there is one.
pub open spec fn spec_then_sign(s: Option<ScanView>) -> Option<ScanView> {
    match spec_then_either(s, "+"@, "-"@) {
        Some(found) => Some(found),
        None => s,
    }
}

/// Goes on with an exponent: `e` or `E`, a sign where there is one, digits.
pub open spec fn spec_then_exponent(s: Option<ScanView>) -> Option<ScanView> {
    spec_then_run(spec_then_sign(spec_then_either(s, "e"@, "E"@)), CharClass::Decimal)
}

/// Goes on with a fraction: digits, `.`, digits.
pub open spec fn spec_then_fraction(s: Option<ScanView>) -> Option<ScanView> {
    spec_then_run(spec_then_tag(spec_then_run(s, CharClass::Decimal), "."@), CharClass::Decimal)
}

/// One of two prefixes, then digits of `class`.
pub open spec fn spec_prefixed(
    input: Seq<char>,
    lower: Seq<char>,
    upper: Seq<char>,
    class: CharClass,
) -> Option<ScanView> {
    spec_then_run(spec_then_either(spec_start(input), lower, upper), class)
}

/// `0x` or `0X`, then hexadecimal digits.
pub open spec fn spec_hex(input: Seq<char>) -> Option<ScanView> {
    spec_prefixed(input, "0x"@, "0X"@, CharClass::Hex)
}

/// `0o` or `0O`, then octal digits.
pub open spec fn spec_octal(input: Seq<char>) -> Option<ScanView> {
    spec_prefixed(input, "0o"@, "0O"@, CharClass::Octal)
}

/// `0b` or `0B`, then binary digits.
pub open spec fn spec_binary(input: Seq<char>) -> Option<ScanView> {
    spec_prefixed(input, "0b"@, "0B"@, CharClass::Binary)
}

/// The forms of a float, of which the first that matches is taken: a fraction
/// with an exponent (`1.5e3`), digits with an exponent (`1e10`), a fraction
/// (`1.5`), a dot and digits (`.5`), digits and a dot (`1.`).
pub open spec fn spec_float(input: Seq<char>) -> Option<ScanView> {
    let start = spec_start(input);
    let fraction_exponent = spec_then_exponent(spec_then_fraction(start));
    let exponent = spec_then_exponent(spec_then_run(start, CharClass::Decimal));
    let fraction = spec_then_fraction(start);
    let leading_dot = spec_then_run(spec_then_tag(start, "."@), CharClass::Decimal);
    let trailing_dot = spec_then_tag(spec_then_run(start, CharClass::Decimal), "."@);
    if fraction_exponent is Some {
        fraction_exponent
    } else if exponent is Some {
        exponent
    } else if fraction is Some {
        fraction
    } else if leading_dot is Some {
        leading_dot
    } else {
        trailing_dot
    }
}

/// Decimal digits.
pub open spec fn spec_decimal(input: Seq<char>) -> Option<ScanView> {
    spec_then_run(spec_start(input), CharClass::Decimal)
}

/// Whether a scan, where it succeeded, covers `input`: what it took and what
/// it left make up `input`.
pub open spec fn covers(s: Option<ScanView>, input: Seq<char>) -> bool {
    s matches Some(s) ==> s.text + s.rest == input
}

proof fn lemma_then_run(s: Option<ScanView>, class: CharClass, input: Seq<char>)
    requires
        covers(s, input),
    ensures
        covers(spec_then_run(s, class), input),
        spec_then_run(s, class) matches Some(found) ==> found.text.len() > 0,
{
    if let Some(s) = s {
        lemma_take_run_text(s.rest, class);
        if let Some((rest, matched)) = spec_take_run(s.rest, class) {
            assert((s.text + matched) + rest =~= s.text + (matched + rest));
        }
    }
}

proof fn lemma_then_tag(s: Option<ScanView>, pattern: Seq<char>, input: Seq<char>)
    requires
        covers(s, input),
    ensures
        covers(spec_then_tag(s, pattern), input),
        spec_then_tag(s, pattern) matches Some(found) ==> s is Some && found.text.len()
            >= s->0.text.len(),
{
    if let Some(s) = s {
        lemma_tag_text(s.rest, pattern);
        if let Some((rest, matched)) = spec_tag(s.rest, pattern) {
            assert((s.text + matched) + rest =~= s.text + (matched + rest));
        }
    }
}

proof fn lemma_then_exponent(s: Option<ScanView>, input: Seq<char>)
    requires
        covers(s, input),
    ensures
        covers(spec_then_exponent(s), input),
        spec_then_exponent(s) matches Some(found) ==> found.text.len() > 0,
{
    lemma_then_tag(s, "e"@, input);
    lemma_then_tag(s, "E"@, input);
    let marked = spec_then_either(s, "e"@, "E"@);
    lemma_then_tag(marked, "+"@, input);
    lemma_then_tag(marked, "-"@, input);
    lemma_then_run(spec_then_sign(marked), CharClass::Decimal, input);
}

proof fn lemma_then_fraction(s: Option<ScanView>, input: Seq<char>)
    requires
        covers(s, input),
    ensures
        covers(spec_then_fraction(s), input),
        spec_then_fraction(s) matches Some(found) ==> found.text.len() > 0,
{
    lemma_then_run(s, CharClass::Decimal, input);
    let whole = spec_then_run(s, CharClass::Decimal);
    lemma_then_tag(whole, "."@, input);
    lemma_then_run(spec_then_tag(whole, "."@), CharClass::Decimal, input);
}

proof fn lemma_prefixed(input: Seq<char>, lower: Seq<char>, upper: Seq<char>, class: CharClass)
    ensures
        covers(spec_prefixed(input, lower, upper, class), input),
        spec_prefixed(input, lower, upper, class) matches Some(found) ==> found.text.len() > 0,
{
    let start = spec_start(input);
    assert(Seq::<char>::empty() + input =~= input);
    lemma_then_tag(start, lower, input);
    lemma_then_tag(start, upper, input);
    lemma_then_run(spec_then_either(start, lower, upper), class, input);
}

proof fn lemma_float(input: Seq<char>)
    ensures
        covers(spec_float(input), input),
        spec_float(input) matches Some(found) ==> found.text.len() > 0,
{
    let start = spec_start(input);
    assert(Seq::<char>::empty() + input =~= input);
    lemma_then_fraction(start, input);
    lemma_then_exponent(spec_then_fraction(start), input);
    lemma_then_run(start, CharClass::Decimal, input);
    lemma_then_exponent(spec_then_run(start, CharClass::Decimal), input);
    lemma_then_tag(start, "."@, input);
    lemma_then_run(spec_then_tag(start, "."@), CharClass::Decimal, input);
    lemma_then_tag(spec_then_run(start, CharClass::Decimal), "."@, input);
}

proof fn lemma_decimal(input: Seq<char>)
    ensures
        covers(spec_decimal(input), input),
        spec_decimal(input) matches Some(found) ==> found.text.len() > 0,
{
    assert(Seq::<char>::empty() + input =~= input);
    lemma_then_run(spec_start(input), CharClass::Decimal, input);
}

fn start<'a>(input: &'a str) -> (r: Option<Scan<'a>>)
    ensures
        scan_view(r) == spec_start(input@),
{
    Some(Scan { rest: input, text: String::new() })
}

/// A scan that has gone on by `matched`, with `rest` behind it.
fn advanced<'a>(s: Scan<'a>, rest: &'a str, matched: &str) -> (r: Scan<'a>)
    ensures
        r.rest@ == rest@,
        r.text@ == s.text@ + matched@,
{
    let mut text = s.text;
    text.append(matched);
    Scan { rest, text }
}

fn then_run<'a>(s: Option<Scan<'a>>, class: CharClass) -> (r: Option<Scan<'a>>)
    ensures
        scan_view(r) == spec_then_run(scan_view(s), class),
{
    match s {
        None => None,
        Some(s) => match take_while1(class, s.rest) {
            None => None,
            Some((rest, matched)) => Some(advanced(s, rest, matched)),
        },
    }
}

fn then_tag<'a>(s: Option<Scan<'a>>, pattern: &str) -> (r: Option<Scan<'a>>)
    ensures
        scan_view(r) == spec_then_tag(scan_view(s), pattern@),
{
    match s {
        None => None,
        Some(s) => match tag(pattern, s.rest) {
            None => None,
            Some((rest, matched)) => Some(advanced(s, rest, matched)),
        },
    }
}

fn then_either<'a>(s: Option<Scan<'a>>, first: &str, second: &str) -> (r: Option<Scan<'a>>)
    ensures
        scan_view(r) == spec_then_either(scan_view(s), first@, second@),
{
    match s {
        None => None,
        Some(s) => match tag(first, s.rest) {
            Some((rest, matched)) => Some(advanced(s, rest, matched)),
            None => then_tag(Some(s), second),
        },
    }
}

fn then_sign<'a>(s: Option<Scan<'a>>) -> (r: Option<Scan<'a>>)
    ensures
        scan_view(r) == spec_then_sign(scan_view(s)),
{
    match s {
        None => None,
        Some(s) => match tag("+", s.rest) {
            Some((rest, matched)) => Some(advanced(s, rest, matched)),
            None => match tag("-", s.rest) {
                Some((rest, matched)) => Some(advanced(s, rest, matched)),
                None => Some(s),
            },
        },
    }
}

fn then_exponent<'a>(s: Option<Scan<'a>>) -> (r: Option<Scan<'a>>)
    ensures
        scan_view(r) == spec_then_exponent(scan_view(s)),
{
    then_run(then_sign(then_either(s, "e", "E")), CharClass::Decimal)
}

fn then_fraction<'a>(s: Option<Scan<'a>>) -> (r: Option<Scan<'a>>)
    ensures
        scan_view(r) == spec_then_fraction(scan_view(s)),
{
    then_run(then_tag(then_run(s, CharClass::Decimal), "."), CharClass::Decimal)
}

fn parse_hex<'a>(input: &'a str) -> (r: Option<Scan<'a>>)
    ensures
        scan_view(r) == spec_hex(input@),
{
    then_run(then_either(start(input), "0x", "0X"), CharClass::Hex)
}

fn parse_octal<'a>(input: &'a str) -> (r: Option<Scan<'a>>)
    ensures
        scan_view(r) == spec_octal(input@),
{
    then_run(then_either(start(input), "0o", "0O"), CharClass::Octal)
}

fn parse_binary<'a>(input: &'a str) -> (r: Option<Scan<'a>>)
    ensures
        scan_view(r) == spec_binary(input@),
{
    then_run(then_either(start(input), "0b", "0B"), CharClass::Binary)
}

fn parse_float<'a>(input: &'a str) -> (r: Option<Scan<'a>>)
    ensures
        scan_view(r) == spec_float(input@),
{
    let fraction_exponent = then_exponent(then_fraction(start(input)));
    if fraction_exponent.is_some() {
        return fraction_exponent;
    }
    let exponent = then_exponent(then_run(start(input), CharClass::Decimal));
    if exponent.is_some() {
        return exponent;
    }
    let fraction = then_fraction(start(input));
    if fraction.is_some() {
        return fraction;
    }
    let leading_dot = then_run(then_tag(start(input), "."), CharClass::Decimal);
    if leading_dot.is_some() {
        return leading_dot;
    }
    then_tag(then_run(start(input), CharClass::Decimal), ".")
}

fn parse_decimal<'a>(input: &'a str) -> (r: Option<Scan<'a>>)
    ensures
        scan_view(r) == spec_decimal(input@),
{
    then_run(start(input), CharClass::Decimal)
}

/// The literal of kind `kind` that a scan found.
pub open spec fn spec_number(kind: NumberKind, s: ScanView) -> Parsed<NumberLiteralView> {
    Parsed::Match { value: NumberLiteralView { kind, content: s.text }, rest: s.rest }
}

impl Parser for NumberLiteral {
    /// The kinds are tried in the order hex, octal, binary, float, decimal,
    /// and the first that matches is taken.
    #[verifier::opaque]
    open spec fn spec_parse(input: Seq<char>) -> Parsed<NumberLiteralView> {
        if let Some(s) = spec_hex(input) {
            spec_number(NumberKind::Hex, s)
        } else if let Some(s) = spec_octal(input) {
            spec_number(NumberKind::Octal, s)
        } else if let Some(s) = spec_binary(input) {
            spec_number(NumberKind::Binary, s)
        } else if let Some(s) = spec_float(input) {
            spec_number(NumberKind::Float, s)
        } else if let Some(s) = spec_decimal(input) {
            spec_number(NumberKind::Decimal, s)
        } else {
            Parsed::Fail { at: input }
        }
    }

    fn parse<'a>(input: &'a str) -> (r: Result<(&'a str, Self), ParseError<'a>>) {
        proof {
            reveal(<NumberLiteral as Parser>::spec_parse);
        }
        if let Some(s) = parse_hex(input) {
            Ok((s.rest, NumberLiteral { kind: NumberKind::Hex, content: s.text }))
        } else if let Some(s) = parse_octal(input) {
            Ok((s.rest, NumberLiteral { kind: NumberKind::Octal, content: s.text }))
        } else if let Some(s) = parse_binary(input) {
            Ok((s.rest, NumberLiteral { kind: NumberKind::Binary, content: s.text }))
        } else if let Some(s) = parse_float(input) {
            Ok((s.rest, NumberLiteral { kind: NumberKind::Float, content: s.text }))
        } else if let Some(s) = parse_decimal(input) {
            Ok((s.rest, NumberLiteral { kind: NumberKind::Decimal, content: s.text }))
        } else {
            Err(ParseError { input })
        }
    }

    proof fn lemma_parse_text(input: Seq<char>) {
        reveal(<NumberLiteral as Parser>::spec_parse);
        lemma_prefixed(input, "0x"@, "0X"@, CharClass::Hex);
        lemma_prefixed(input, "0o"@, "0O"@, CharClass::Octal);
        lemma_prefixed(input, "0b"@, "0B"@, CharClass::Binary);
        lemma_float(input);
        lemma_decimal(input);
    }

    proof fn lemma_parse_failure(input: Seq<char>) {
        reveal(<NumberLiteral as Parser>::spec_parse);
        lemma_input_is_suffix(input);
    }
}

/// A number literal that is read is not empty.
pub proof fn lemma_number_not_empty(input: Seq<char>)
    ensures
        NumberLiteral::spec_parse(input) matches Parsed::Match { value, rest }
            ==> value.content.len() > 0,
{
    reveal(<NumberLiteral as Parser>::spec_parse);
    lemma_prefixed(input, "0x"@, "0X"@, CharClass::Hex);
    lemma_prefixed(input, "0o"@, "0O"@, CharClass::Octal);
    lemma_prefixed(input, "0b"@, "0B"@, CharClass::Binary);
    lemma_float(input);
    lemma_decimal(input);
}

impl<V: Visitor> Visitable<V> for NumberLiteral {
    open spec fn accepted(state: V::State, node: NumberLiteralView) -> V::State {
        V::on(state, NodeView::NumberLiteral(node)).0
    }

    fn accept(&self, visitor: &mut V) {
        let _ = visitor.visit(Node::NumberLiteral(self));
    }
}

impl<V: VisitorMut> VisitableMut<V> for NumberLiteral {
    open spec fn accepted_mut(
        state: V::State,
        node: NumberLiteralView,
    ) -> (V::State, NumberLiteralView) {
        match V::on_mut(state, NodeView::NumberLiteral(node)) {
            (after, Some(NodeView::NumberLiteral(new))) => (after, new),
            (after, Some(_)) => (after, node),
            (after, None) => (after, node),
        }
    }

    fn accept_mut(&mut self, visitor: &mut V) {
        match visitor.visit_mut(Node::NumberLiteral(self)) {
            Some(OwnedNode::NumberLiteral(new)) => {
                *self = new;
            },
            _ => {},
        }
    }
}

} // verus!
