use vstd::prelude::*;
use crate::ast::statements::{
    accept_file,
    accept_file_mut,
    file_accepted,
    file_accepted_mut,
    file_model,
    file_text,
    lemma_decorated_consumes,
    lemma_statements,
    parse_decorated,
    spec_parse_statements,
    statements_are_source,
    statements_text,
    Scope,
    Statements,
    StatementsView,
};
use crate::ast::structure::eof::EndOfFile;
use crate::ast::trivia::trivia::Trivia;
use crate::ast::trivia::with_trivia::{with_trivia_spec, WithTrivia, WithTriviaView};
use crate::ast::utils::repeat::{repeat_spec, Repeat0};
use crate::parser::{
    lemma_rest_is_suffix,
    lemma_suffix_of_suffix,
    Parsed,
    ParseError,
    Parser,
    SourceText,
};
use crate::visitor::{Visitable, VisitableMut, Visitor, VisitorMut};

verus! {

/// A source file: its statements, and its end with the trivia that trails
/// the last of them.
#[derive(Debug, PartialEq, Eq)]
pub struct File {
    pub statements: Vec<WithTrivia<Statements>>,
    pub eof: WithTrivia<EndOfFile>,
}

/// The model of `File`.
pub struct FileView {
    pub statements: Seq<WithTriviaView<StatementsView>>,
    pub eof: WithTriviaView<EndOfFile>,
}

impl DeepView for File {
    type V = FileView;

    open spec fn deep_view(&self) -> FileView {
        file_model(*self)
    }
}

impl SourceText for FileView {
    open spec fn text(self) -> Seq<char> {
        file_text(self)
    }
}

impl Parser for File {
    /// The statements of the file, then trivia and the end of the input.
    /// Where anything is left that is neither a statement nor trivia, that is
    /// a syntax error at its first character.
    open spec fn spec_parse(input: Seq<char>) -> Parsed<FileView> {
        let (statements, rest) = spec_parse_statements(input);
        match WithTrivia::<EndOfFile>::spec_parse(rest) {
            Parsed::Fail { at } => Parsed::Fail { at },
            Parsed::Match { value: eof, rest } => Parsed::Match {
                value: FileView { statements, eof },
                rest,
            },
        }
    }

    fn parse<'a>(input: &'a str) -> (r: Result<(&'a str, Self), ParseError<'a>>) {
        let mut statements: Vec<WithTrivia<Statements>> = Vec::new();
        let mut rest: &'a str = input;
        assert(statements.deep_view() + spec_parse_statements(input@).0 =~= spec_parse_statements(
            input@,
        ).0);
        loop
            invariant_except_break
                spec_parse_statements(input@) == (
                    statements.deep_view() + spec_parse_statements(rest@).0,
                    spec_parse_statements(rest@).1,
                ),
            ensures
                spec_parse_statements(input@) == (statements.deep_view(), rest@),
            decreases rest@.len(),
        {
            let ghost before = statements.deep_view();
            match parse_decorated(Scope::File, rest) {
                Err(_) => {
                    assert(before + Seq::<WithTriviaView<StatementsView>>::empty() =~= before);
                    break ;
                },
                Ok((next, statement)) => {
                    let ghost value = statement.deep_view();
                    proof {
                        lemma_decorated_consumes(Scope::File, rest@);
                    }
                    statements.push(statement);
                    assert(statements.deep_view() =~= before.push(value));
                    assert(before + (seq![value] + spec_parse_statements(next@).0)
                        =~= before.push(value) + spec_parse_statements(next@).0);
                    rest = next;
                },
            }
        }
        match WithTrivia::<EndOfFile>::parse(rest) {
            Err(e) => Err(e),
            Ok((rest, eof)) => {
                let file = File { statements, eof };
                assert(file.deep_view().statements =~= file.statements.deep_view());
                Ok((rest, file))
            },
        }
    }

    proof fn lemma_parse_text(input: Seq<char>) {
        lemma_statements(input);
        let (statements, rest) = spec_parse_statements(input);
        WithTrivia::<EndOfFile>::lemma_parse_text(rest);
        if let Parsed::Match { value: eof, rest: last } = WithTrivia::<EndOfFile>::spec_parse(
            rest,
        ) {
            assert(input =~= (statements_text(statements) + eof.text())
                + last);
        }
    }

    proof fn lemma_parse_failure(input: Seq<char>) {
        lemma_statements(input);
        let (statements, rest) = spec_parse_statements(input);
        lemma_rest_is_suffix(statements_text(statements), rest);
        WithTrivia::<EndOfFile>::lemma_parse_failure(rest);
        if let Parsed::Fail { at } = WithTrivia::<EndOfFile>::spec_parse(rest) {
            lemma_suffix_of_suffix(at, rest, input);
        }
    }
}

/// Writing back what was read gives the text that was read: a file that
/// parses has consumed all of its input, and its text is that input.
pub proof fn lemma_round_trip(input: Seq<char>)
    ensures
        File::spec_parse(input) matches Parsed::Match { value, rest } ==> rest.len() == 0
            && value.text() == input,
{
    File::lemma_parse_text(input);
    let (statements, after) = spec_parse_statements(input);
    reveal(with_trivia_spec);
    if let Parsed::Match { value, rest } = File::spec_parse(input) {
        assert(input =~= value.text() + rest);
        assert(value.text() + rest =~= value.text());
    }
}

/// A syntax error is at the first character that is not consumed: the
/// statements that were read, and the trivia behind them, are the input in
/// front of it.
pub proof fn lemma_syntax_error(input: Seq<char>)
    ensures
        File::spec_parse(input) matches Parsed::Fail { at } ==> {
            let (statements, rest) = spec_parse_statements(input);
            &&& at.len() > 0
            &&& Repeat0::<Trivia>::spec_parse(rest) matches Parsed::Match {
                value: trivias,
                rest: left,
            }
            &&& left == at
            &&& input == statements_text(statements) + trivias.text() + at
        },
{
    lemma_statements(input);
    let (statements, rest) = spec_parse_statements(input);
    reveal(with_trivia_spec);
    reveal(repeat_spec);
    Repeat0::<Trivia>::lemma_parse_text(rest);
    if let Parsed::Match { value: trivias, rest: left } = Repeat0::<Trivia>::spec_parse(rest) {
        assert(input =~= statements_text(statements) + trivias.text() + left);
    }
}

/// What is read from source text holds no statement that only resolving
/// inclusions makes, and holds global declarations and inclusions nowhere but
/// directly in the file.
pub proof fn lemma_scope_restriction(input: Seq<char>)
    ensures
        File::spec_parse(input) matches Parsed::Match { value, rest } ==> statements_are_source(
            value.statements,
        ),
{
    lemma_statements(input);
}

impl<V: Visitor> Visitable<V> for File {
    open spec fn accepted(state: V::State, node: FileView) -> V::State {
        file_accepted::<V>(state, node)
    }

    fn accept(&self, visitor: &mut V) {
        accept_file(self, visitor)
    }
}

impl<V: VisitorMut> VisitableMut<V> for File {
    open spec fn accepted_mut(state: V::State, node: FileView) -> (V::State, FileView) {
        file_accepted_mut::<V>(state, node)
    }

    fn accept_mut(&mut self, visitor: &mut V) {
        accept_file_mut(self, visitor)
    }
}

} // verus!
