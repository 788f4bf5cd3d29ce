use vstd::prelude::*;
use vstd::string::StringExecFns;
use crate::ast::terminal::keyword::{reserved, spec_keyword, spec_reserved};
use crate::parser::{lemma_input_is_suffix, Parsed, ParseError, Parser, SourceText};
use crate::parser::scan::{
    alpha1,
    alphanumeric1,
    lemma_run_length_bound,
    lemma_run_length_chars,
    lemma_run_length_exact,
    run_length,
    tag,
    CharClass,
};
use crate::visitor::{Node, NodeView, OwnedNode, Visitable, VisitableMut, Visitor, VisitorMut};

verus! {

/// A name: a letter or `_`, then letters, digits and `_`, and none of the
/// reserved words `global`, `var`, `include`, `if` and `else`.
#[derive(Debug, Clone, PartialEq, Eq)]
pub struct Identifier(pub String);

/// The model of `Identifier`.
pub struct IdentifierView(pub Seq<char>);

impl DeepView for Identifier {
    type V = IdentifierView;

    open spec fn deep_view(&self) -> IdentifierView {
        IdentifierView(self.0@)
    }
}

impl SourceText for IdentifierView {
    open spec fn text(self) -> Seq<char> {
        self.0
    }
}

/// Whether `c` can begin an identifier.
pub open spec fn begins_identifier(c: char) -> bool {
    CharClass::Alpha.spec_admits(c) || c == '_'
}

impl Parser for Identifier {
    /// Where the input begins with a reserved word there is no identifier.
    /// Otherwise the identifier is the longest run of letters, digits and
    /// `_`, provided that it does not begin with a digit.
    #[verifier::opaque]
    open spec fn spec_parse(input: Seq<char>) -> Parsed<IdentifierView> {
        if spec_reserved(input) {
            Parsed::Fail { at: input }
        } else if input.len() > 0 && begins_identifier(input[0]) {
            let n = run_length(input, CharClass::Word) as int;
            Parsed::Match { value: IdentifierView(input.take(n)), rest: input.skip(n) }
        } else {
            Parsed::Fail { at: input }
        }
    }

    fn parse<'a>(input: &'a str) -> (r: Result<(&'a str, Self), ParseError<'a>>) {
        proof {
            reveal(<Identifier as Parser>::spec_parse);
        }
        if reserved(input) {
            return Err(ParseError { input });
        }
        proof {
            reveal_strlit("_");
            lemma_run_length_chars(input@, CharClass::Alpha);
            lemma_run_length_bound(input@, CharClass::Alpha);
            if input@.len() > 0 {
                assert(input@.subrange(0, 1)[0] == input@[0]);
                if input@[0] == '_' {
                    assert(input@.subrange(0, 1) =~= "_"@);
                }
            }
        }
        let (first_rest, head) = match alpha1(input) {
            Some(found) => found,
            None => match tag("_", input) {
                Some(found) => found,
                None => {
                    return Err(ParseError { input });
                },
            },
        };
        let mut rest: &'a str = first_rest;
        let mut name: String = head.to_owned();
        assert(input@ =~= name@ + rest@);
        loop
            invariant_except_break
                input@ == name@ + rest@,
                forall|i: int| 0 <= i < name@.len() ==> CharClass::Word.spec_admits(
                    #[trigger] name@[i],
                ),
            ensures
                input@ == name@ + rest@,
                forall|i: int| 0 <= i < name@.len() ==> CharClass::Word.spec_admits(
                    #[trigger] name@[i],
                ),
                rest@.len() > 0 ==> !CharClass::Word.spec_admits(rest@[0]),
            decreases rest@.len(),
        {
            proof {
                reveal_strlit("_");
                lemma_run_length_chars(rest@, CharClass::Alphanumeric);
                lemma_run_length_bound(rest@, CharClass::Alphanumeric);
                if rest@.len() > 0 {
                    assert(rest@.subrange(0, 1)[0] == rest@[0]);
                    if rest@[0] == '_' {
                        assert(rest@.subrange(0, 1) =~= "_"@);
                    }
                }
            }
            let ghost before = name@;
            let ghost left = rest@;
            let (next, chunk) = match alphanumeric1(rest) {
                Some(found) => found,
                None => match tag("_", rest) {
                    Some(found) => found,
                    None => {
                        break ;
                    },
                },
            };
            name.append(chunk);
            rest = next;
            assert(left =~= chunk@ + next@);
            assert(input@ =~= name@ + rest@);
            assert forall|i: int| 0 <= i < name@.len() implies CharClass::Word.spec_admits(
                #[trigger] name@[i],
            ) by {
                if i >= before.len() {
                    assert(name@[i] == left[i - before.len()]);
                }
            }
        }
        proof {
            let n = name@.len() as int;
            assert forall|i: int| 0 <= i < n implies CharClass::Word.spec_admits(
                #[trigger] input@[i],
            ) by {
                assert(input@[i] == name@[i]);
            }
            if n < input@.len() {
                assert(input@[n] == rest@[0]);
            }
            lemma_run_length_exact(input@, CharClass::Word, n);
            assert(input@.take(n) =~= name@);
            assert(input@.skip(n) =~= rest@);
            assert(input@[0] == name@[0]);
        }
        Ok((rest, Identifier(name)))
    }

    proof fn lemma_parse_text(input: Seq<char>) {
        reveal(<Identifier as Parser>::spec_parse);
        lemma_run_length_bound(input, CharClass::Word);
        let n = run_length(input, CharClass::Word) as int;
        assert(input =~= input.take(n) + input.skip(n));
    }

    proof fn lemma_parse_failure(input: Seq<char>) {
        reveal(<Identifier as Parser>::spec_parse);
        lemma_input_is_suffix(input);
    }
}

/// Where an identifier that is read spells `word`, the input begins with
/// `word` as a keyword.
proof fn lemma_spells_keyword(input: Seq<char>, word: Seq<char>)
    requires
        Identifier::spec_parse(input) matches Parsed::Match { value, rest } && value.0 == word,
    ensures
        spec_keyword(input, word, ()) is Match,
{
    reveal(<Identifier as Parser>::spec_parse);
    lemma_run_length_bound(input, CharClass::Word);
    lemma_run_length_chars(input, CharClass::Word);
    let n = run_length(input, CharClass::Word) as int;
    assert(input.subrange(0, n) =~= input.take(n));
    if n < input.len() {
        assert(input.skip(n)[0] == input[n]);
    }
}

/// An identifier that is read is none of the reserved words.
pub proof fn lemma_identifier_not_reserved(input: Seq<char>)
    ensures
        Identifier::spec_parse(input) matches Parsed::Match { value, rest } ==> {
            &&& value.0 != "global"@
            &&& value.0 != "var"@
            &&& value.0 != "include"@
            &&& value.0 != "if"@
            &&& value.0 != "else"@
        },
{
    if let Parsed::Match { value, rest } = Identifier::spec_parse(input) {
        assert(!spec_reserved(input)) by {
            reveal(<Identifier as Parser>::spec_parse);
        }
        if value.0 == "global"@ {
            lemma_spells_keyword(input, "global"@);
        }
        if value.0 == "var"@ {
            lemma_spells_keyword(input, "var"@);
        }
        if value.0 == "include"@ {
            lemma_spells_keyword(input, "include"@);
        }
        if value.0 == "if"@ {
            lemma_spells_keyword(input, "if"@);
        }
        if value.0 == "else"@ {
            lemma_spells_keyword(input, "else"@);
        }
    }
}

/// An identifier that is read is not empty.
pub proof fn lemma_identifier_not_empty(input: Seq<char>)
    ensures
        Identifier::spec_parse(input) matches Parsed::Match { value, rest } ==> value.0.len() > 0,
{
    reveal(<Identifier as Parser>::spec_parse);
    lemma_run_length_bound(input, CharClass::Word);
}

impl<V: Visitor> Visitable<V> for Identifier {
    open spec fn accepted(state: V::State, node: IdentifierView) -> V::State {
        V::on(state, NodeView::Identifier(node)).0
    }

    fn accept(&self, visitor: &mut V) {
        let _ = visitor.visit(Node::Identifier(self));
    }
}

impl<V: VisitorMut> VisitableMut<V> for Identifier {
    open spec fn accepted_mut(state: V::State, node: IdentifierView) -> (V::State, IdentifierView) {
        match V::on_mut(state, NodeView::Identifier(node)) {
            (after, Some(NodeView::Identifier(new))) => (after, new),
            (after, Some(_)) => (after, node),
            (after, None) => (after, node),
        }
    }

    fn accept_mut(&mut self, visitor: &mut V) {
        match visitor.visit_mut(Node::Identifier(self)) {
            Some(OwnedNode::Identifier(new)) => {
                *self = new;
            },
            _ => {},
        }
    }
}

} // verus!
