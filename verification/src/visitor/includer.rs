//! The visitor that resolves inclusions.
//!
//! Each `include(...)` of a file is replaced by the parsed file itself the
//! first time its path is met, in the order of the text and depth first, and
//! by a comment every time after that, so that a file that includes itself,
//! directly or by way of others, is still included once.
//!
//! Nothing here reads a file. The texts of the files are supplied by the
//! caller; where one is missing the pass stops at that inclusion and names
//! the path, and goes on from there when it is run again.

use vstd::prelude::*;
use vstd::string::StringExecFns;
use crate::ast::statements::{Statements, StatementsView};
use crate::ast::statements::include_statement::{IncludeStatement, IncludeStatementView};
use crate::ast::structure::file::{File, FileView};
use crate::ast::trivia::comment::{Comment, CommentView};
use crate::ast::trivia::trivia::{Trivia, TriviaView};
use crate::ast::trivia::with_trivia::{WithTrivia, WithTriviaView};
use crate::parser::{Parsed, Parser, SourceText};
use crate::visitor::{Node, NodeView, OwnedNode, VisitorMut};
use crate::visitor::writer::Writer;

pub mod untouched;

verus! {

/// The text of a file, under the path by which it is included.
#[derive(Debug, Clone, PartialEq, Eq)]
pub struct Source {
    pub path: String,
    pub text: String,
}

/// The model of `Source`.
pub struct SourceView {
    pub path: Seq<char>,
    pub text: Seq<char>,
}

impl DeepView for Source {
    type V = SourceView;

    open spec fn deep_view(&self) -> SourceView {
        SourceView { path: self.path@, text: self.text@ }
    }
}

/// Why a pass has stopped resolving.
#[derive(Debug, Clone, PartialEq, Eq)]
pub enum Stop {
    /// The text of the file of this path has not been supplied.
    Missing(String),
    /// The file of this path does not parse; the syntax error is at this
    /// character of the file as it is wrapped for inclusion.
    Invalid(String, usize),
}

/// The model of `Stop`.
pub enum StopView {
    Missing(Seq<char>),
    Invalid(Seq<char>, nat),
}

impl DeepView for Stop {
    type V = StopView;

    open spec fn deep_view(&self) -> StopView {
        match self {
            Stop::Missing(path) => StopView::Missing(path@),
            Stop::Invalid(path, position) => StopView::Invalid(path@, *position as nat),
        }
    }
}

/// The state of the resolution of inclusions.
#[derive(Debug, Default, Clone)]
pub struct Includer {
    /// The directory in which the caller looks for the files. The pass does
    /// not touch it.
    pub root_file: String,
    /// The paths that have been included, in the order in which they were.
    pub files_included: Vec<String>,
    /// The texts that have been supplied and not been included yet.
    pub sources: Vec<Source>,
    /// Why the pass has stopped, if it has. While this is set, the includer
    /// leaves every node as it is.
    pub stop: Option<Stop>,
}

/// The model of `Includer`.
pub struct IncluderView {
    pub root_file: Seq<char>,
    pub files_included: Seq<Seq<char>>,
    pub sources: Seq<SourceView>,
    pub stop: Option<StopView>,
}

impl View for Includer {
    type V = IncluderView;

    open spec fn view(&self) -> IncluderView {
        IncluderView {
            root_file: self.root_file@,
            files_included: self.files_included.deep_view(),
            sources: self.sources.deep_view(),
            stop: self.stop.deep_view(),
        }
    }
}

impl IncluderView {
    /// This state, stopped for the given reason.
    pub open spec fn stopped(self, stop: StopView) -> IncluderView {
        IncluderView { stop: Some(stop), ..self }
    }

    /// This state once the source at `index` has been included.
    pub open spec fn entered(self, index: int) -> IncluderView {
        IncluderView {
            files_included: self.files_included.push(self.sources[index].path),
            sources: self.sources.remove(index),
            ..self
        }
    }
}

/// The index of the first of `sources` that has the given path.
pub open spec fn spec_find_source(sources: Seq<SourceView>, path: Seq<char>) -> Option<int>
    decreases sources.len(),
{
    if sources.len() == 0 {
        None
    } else if sources[0].path == path {
        Some(0)
    } else {
        match spec_find_source(sources.skip(1), path) {
            Some(index) => Some(index + 1),
            None => None,
        }
    }
}

/// The text of an included file as it is parsed: between a comment that marks
/// its start and one that marks its end, each of which quotes the inclusion.
pub open spec fn wrapped_text(marker: Seq<char>, text: Seq<char>) -> Seq<char> {
    "/* start: "@ + marker + " */\n"@ + text + "\n/* end: "@ + marker + " */"@
}

/// The comment that stands for an inclusion of a file that has been included
/// before.
pub open spec fn skipped_comment(marker: Seq<char>) -> TriviaView {
    TriviaView::Comment(CommentView::MultiLine(" skipped: "@ + marker + " (Already included) "@))
}

/// The character of `text` at which `at`, a place in `text`, begins.
pub open spec fn position_in(text: Seq<char>, at: Seq<char>) -> nat {
    if at.len() <= text.len() {
        (text.len() - at.len()) as nat
    } else {
        0
    }
}

/// What becomes of an inclusion, and of the state of the resolution.
///
/// While the resolution is stopped, nothing. A path that has been included
/// gives a statement that holds a comment in place of the inclusion. A path
/// of which no text is supplied stops the resolution, as does a text that
/// does not parse; the inclusion stays. Otherwise the path is recorded, its
/// source is used up, the text is parsed between its two comments, the
/// inclusions among the statements of that file are resolved in their turn,
/// and the file takes the place of the inclusion.
pub open spec fn spec_resolve_inclusion(state: IncluderView, inclusion: IncludeStatementView) -> (
    IncluderView,
    Option<StatementsView>,
)
    decreases state.sources.len(), 0nat, 0nat,
{
    let path = inclusion.path.node.content;
    let marker = inclusion.text();
    if state.stop is Some {
        (state, None)
    } else if state.files_included.contains(path) {
        (state, Some(StatementsView::EmptyStatement(seq![skipped_comment(marker)])))
    } else {
        match spec_find_source(state.sources, path) {
            None => (state.stopped(StopView::Missing(path)), None),
            Some(index) => {
                let text = wrapped_text(marker, state.sources[index].text);
                match File::spec_parse(text) {
                    Parsed::Fail { at } => (
                        state.stopped(StopView::Invalid(path, position_in(text, at))),
                        None,
                    ),
                    Parsed::Match { value: file, .. } => {
                        proof {
                            lemma_find_source(state.sources, path);
                        }
                        let resolved = spec_resolve_statements(
                            state.entered(index),
                            file.statements,
                            0,
                        );
                        (
                            resolved.0,
                            Some(
                                StatementsView::IncludedFile(
                                    Box::new(FileView { statements: resolved.1, eof: file.eof }),
                                ),
                            ),
                        )
                    },
                }
            },
        }
    }
}

/// What becomes of the statements of an included file from the one at `from`
/// on, and of the state of the resolution: each inclusion among them is
/// resolved, in their order, with the state that the one before it left.
/// (Resolving uses sources up and supplies none, which is what the test on
/// their number says.)
pub open spec fn spec_resolve_statements(
    state: IncluderView,
    statements: Seq<WithTriviaView<StatementsView>>,
    from: int,
) -> (IncluderView, Seq<WithTriviaView<StatementsView>>)
    decreases state.sources.len(), 1nat, statements.len() - from,
{
    if from < 0 || from >= statements.len() {
        (state, statements)
    } else {
        match statements[from].node {
            StatementsView::IncludeStatement(inclusion) => {
                let resolved = spec_resolve_inclusion(state, inclusion);
                let updated = match resolved.1 {
                    Some(new) => statements.update(
                        from,
                        WithTriviaView { trivias: statements[from].trivias, node: new },
                    ),
                    None => statements,
                };
                if resolved.0.sources.len() <= state.sources.len() {
                    spec_resolve_statements(resolved.0, updated, from + 1)
                } else {
                    (resolved.0, updated)
                }
            },
            _ => spec_resolve_statements(state, statements, from + 1),
        }
    }
}

/// The source that is found is one of the sources, has the path that was
/// looked for, and is the first that has.
pub proof fn lemma_find_source(sources: Seq<SourceView>, path: Seq<char>)
    ensures
        match spec_find_source(sources, path) {
            Some(index) => {
                &&& 0 <= index < sources.len()
                &&& sources[index].path == path
                &&& forall|i: int| 0 <= i < index ==> (#[trigger] sources[i]).path != path
            },
            None => forall|i: int| 0 <= i < sources.len() ==> (#[trigger] sources[i]).path != path,
        },
    decreases sources.len(),
{
    if sources.len() > 0 && sources[0].path != path {
        lemma_find_source(sources.skip(1), path);
        match spec_find_source(sources.skip(1), path) {
            Some(index) => {
                assert forall|i: int| 0 <= i < index + 1 implies (#[trigger] sources[i]).path
                    != path by {
                    if i > 0 {
                        assert(sources[i] == sources.skip(1)[i - 1]);
                    }
                }
            },
            None => {
                assert forall|i: int| 0 <= i < sources.len() implies (#[trigger] sources[i]).path
                    != path by {
                    if i > 0 {
                        assert(sources[i] == sources.skip(1)[i - 1]);
                    }
                }
            },
        }
    }
}

/// Resolving an inclusion supplies no source, forgets no path that has been
/// included, includes no path a second time, and leaves the root as it is.
pub proof fn lemma_resolve_inclusion(state: IncluderView, inclusion: IncludeStatementView)
    ensures
        spec_resolve_inclusion(state, inclusion).0.sources.len() <= state.sources.len(),
        state.files_included.is_prefix_of(
            spec_resolve_inclusion(state, inclusion).0.files_included,
        ),
        state.files_included.no_duplicates() ==> spec_resolve_inclusion(
            state,
            inclusion,
        ).0.files_included.no_duplicates(),
        spec_resolve_inclusion(state, inclusion).0.root_file == state.root_file,
    decreases state.sources.len(), 0nat, 0nat,
{
    let path = inclusion.path.node.content;
    let marker = inclusion.text();
    if state.stop is None && !state.files_included.contains(path) {
        lemma_find_source(state.sources, path);
        if let Some(index) = spec_find_source(state.sources, path) {
            let text = wrapped_text(marker, state.sources[index].text);
            if let Parsed::Match { value: file, .. } = File::spec_parse(text) {
                lemma_resolve_statements(state.entered(index), file.statements, 0);
                let entered = state.entered(index);
                if state.files_included.no_duplicates() {
                    let paths = entered.files_included;
                    assert forall|i: int, j: int|
                        0 <= i < paths.len() && 0 <= j < paths.len() && i != j implies paths[i]
                        != paths[j] by {
                        if i < state.files_included.len() && j < state.files_included.len() {
                            assert(state.files_included[i] != state.files_included[j]);
                        } else if i < state.files_included.len() {
                            assert(state.files_included.contains(state.files_included[i]));
                        } else {
                            assert(state.files_included.contains(state.files_included[j]));
                        }
                    }
                }
                assert(state.files_included =~= entered.files_included.subrange(
                    0,
                    state.files_included.len() as int,
                ));
            }
        }
    }
}

/// The same of the statements of an included file, of which there are as
/// many after as before.
pub proof fn lemma_resolve_statements(
    state: IncluderView,
    statements: Seq<WithTriviaView<StatementsView>>,
    from: int,
)
    ensures
        spec_resolve_statements(state, statements, from).0.sources.len() <= state.sources.len(),
        state.files_included.is_prefix_of(
            spec_resolve_statements(state, statements, from).0.files_included,
        ),
        state.files_included.no_duplicates() ==> spec_resolve_statements(
            state,
            statements,
            from,
        ).0.files_included.no_duplicates(),
        spec_resolve_statements(state, statements, from).0.root_file == state.root_file,
        spec_resolve_statements(state, statements, from).1.len() == statements.len(),
    decreases state.sources.len(), 1nat, statements.len() - from,
{
    if 0 <= from < statements.len() {
        match statements[from].node {
            StatementsView::IncludeStatement(inclusion) => {
                lemma_resolve_inclusion(state, inclusion);
                let resolved = spec_resolve_inclusion(state, inclusion);
                let updated = match resolved.1 {
                    Some(new) => statements.update(
                        from,
                        WithTriviaView { trivias: statements[from].trivias, node: new },
                    ),
                    None => statements,
                };
                lemma_resolve_statements(resolved.0, updated, from + 1);
                let last = spec_resolve_statements(resolved.0, updated, from + 1).0;
                assert(state.files_included =~= last.files_included.subrange(
                    0,
                    state.files_included.len() as int,
                )) by {
                    assert(state.files_included =~= resolved.0.files_included.subrange(
                        0,
                        state.files_included.len() as int,
                    ));
                    assert(resolved.0.files_included =~= last.files_included.subrange(
                        0,
                        resolved.0.files_included.len() as int,
                    ));
                }
            },
            _ => {
                lemma_resolve_statements(state, statements, from + 1);
            },
        }
    } else {
        assert(state.files_included =~= state.files_included.subrange(
            0,
            state.files_included.len() as int,
        ));
    }
}

/// A path that has been included stays included, so that every inclusion of
/// it from then on is replaced by a comment.
pub proof fn lemma_included_stays(
    state: IncluderView,
    inclusion: IncludeStatementView,
    path: Seq<char>,
)
    requires
        state.files_included.contains(path),
    ensures
        spec_resolve_inclusion(state, inclusion).0.files_included.contains(path),
{
    lemma_resolve_inclusion(state, inclusion);
    let after = spec_resolve_inclusion(state, inclusion).0.files_included;
    let i = choose|i: int| 0 <= i < state.files_included.len() && state.files_included[i] == path;
    assert(after.subrange(0, state.files_included.len() as int)[i] == after[i]);
}

/// Whether `path` is among `paths`.
fn contains_path(paths: &Vec<String>, path: &String) -> (found: bool)
    ensures
        found == paths.deep_view().contains(path@),
{
    let mut i: usize = 0;
    while i < paths.len()
        invariant
            i <= paths.len(),
            forall|k: int| 0 <= k < i ==> paths.deep_view()[k] != path@,
        decreases paths.len() - i,
    {
        if paths[i] == *path {
            assert(paths.deep_view()[i as int] == path@);
            return true;
        }
        i += 1;
    }
    false
}

/// The index of the first of `sources` that has the given path.
fn find_source(sources: &Vec<Source>, path: &String) -> (found: Option<usize>)
    ensures
        match found {
            Some(index) => spec_find_source(sources.deep_view(), path@) == Some(index as int),
            None => spec_find_source(sources.deep_view(), path@) is None,
        },
{
    let ghost all = sources.deep_view();
    let mut i: usize = 0;
    assert(all.skip(0) =~= all);
    while i < sources.len()
        invariant
            i <= sources.len(),
            all == sources.deep_view(),
            spec_find_source(all, path@) == match spec_find_source(all.skip(i as int), path@) {
                Some(index) => Some(index + i),
                None => None,
            },
        decreases sources.len() - i,
    {
        assert(all.skip(i as int).skip(1) =~= all.skip(i + 1));
        assert(all.skip(i as int)[0] == sources[i as int].deep_view());
        if sources[i].path == *path {
            return Some(i);
        }
        i += 1;
    }
    assert(all.skip(i as int).len() == 0);
    None
}

impl Includer {
    /// An includer that has included nothing and has no text to include.
    pub fn new(root_file: String) -> (includer: Includer)
        ensures
            includer@ == (IncluderView {
                root_file: root_file@,
                files_included: Seq::empty(),
                sources: Seq::empty(),
                stop: None,
            }),
    {
        let includer = Includer {
            root_file,
            files_included: Vec::new(),
            sources: Vec::new(),
            stop: None,
        };
        assert(includer@.files_included =~= Seq::empty());
        assert(includer@.sources =~= Seq::empty());
        includer
    }

    /// Supplies the text of the file of the given path. A resolution that
    /// had stopped for want of a text may then be run again.
    pub fn supply(&mut self, path: String, text: String)
        ensures
            final(self)@ == (IncluderView {
                sources: old(self)@.sources.push(SourceView { path: path@, text: text@ }),
                stop: match old(self)@.stop {
                    Some(StopView::Missing(_)) => None,
                    other => other,
                },
                ..old(self)@
            }),
    {
        let ghost before = self.sources.deep_view();
        self.sources.push(Source { path, text });
        assert(self.sources.deep_view() =~= before.push(SourceView { path: path@, text: text@ }));
        let waiting = match &self.stop {
            Some(Stop::Missing(_)) => true,
            _ => false,
        };
        if waiting {
            self.stop = None;
        }
    }

    /// Resolves one inclusion, and hands back what is to stand in its place
    /// where anything is.
    pub fn resolve_inclusion(&mut self, inclusion: &IncludeStatement) -> (replacement: Option<
        Statements,
    >)
        ensures
            (final(self)@, replacement.deep_view()) == spec_resolve_inclusion(
                old(self)@,
                inclusion.deep_view(),
            ),
        decreases old(self).sources.len(), 0nat, 0nat,
    {
        if self.stop.is_some() {
            return None;
        }
        let marker = Writer::write(inclusion);
        let path = inclusion.path.node.content.clone();
        if contains_path(&self.files_included, &path) {
            let mut comment = String::from_str(" skipped: ");
            comment.append(marker.as_str());
            comment.append(" (Already included) ");
            let mut trivias: Vec<Trivia> = Vec::new();
            trivias.push(Trivia::Comment(Comment::MultiLine(comment)));
            assert(trivias.deep_view() =~= seq![skipped_comment(marker@)]);
            return Some(Statements::EmptyStatement(trivias));
        }
        let index = match find_source(&self.sources, &path) {
            Some(index) => index,
            None => {
                self.stop = Some(Stop::Missing(path));
                return None;
            },
        };
        proof {
            lemma_find_source(self@.sources, path@);
        }
        let mut text = String::from_str("/* start: ");
        text.append(marker.as_str());
        text.append(" */\n");
        text.append(self.sources[index].text.as_str());
        text.append("\n/* end: ");
        text.append(marker.as_str());
        text.append(" */");
        assert(text@ == wrapped_text(marker@, self@.sources[index as int].text));
        match File::parse(text.as_str()) {
            Err(e) => {
                let position = e.position(text.as_str());
                self.stop = Some(Stop::Invalid(path, position));
                None
            },
            Ok((_, file)) => {
                let ghost before = self@;
                let ghost parsed = file.deep_view();
                let mut file = file;
                let _ = self.sources.remove(index);
                self.files_included.push(path);
                proof {
                    assert(self@.sources =~= before.sources.remove(index as int));
                    assert(self@.files_included =~= before.files_included.push(path@));
                    assert(self@ == before.entered(index as int));
                    assert(file.statements.deep_view() =~= parsed.statements);
                }
                self.resolve_statements(&mut file.statements);
                assert(file.deep_view().statements =~= file.statements.deep_view());
                Some(Statements::IncludedFile(Box::new(file)))
            },
        }
    }

    /// Resolves the inclusions among the statements of an included file.
    pub fn resolve_statements(&mut self, statements: &mut Vec<WithTrivia<Statements>>)
        ensures
            (final(self)@, final(statements).deep_view()) == spec_resolve_statements(
                old(self)@,
                old(statements).deep_view(),
                0,
            ),
        decreases old(self).sources.len(), 1nat, 0nat,
    {
        let ghost goal = spec_resolve_statements(self@, statements.deep_view(), 0);
        let ghost limit = self.sources.len();
        let mut i: usize = 0;
        while i < statements.len()
            invariant
                i <= statements.len(),
                self.sources.len() <= limit,
                limit == old(self).sources.len(),
                goal == spec_resolve_statements(self@, statements.deep_view(), i as int),
            decreases statements.len() - i,
        {
            let ghost before = statements.deep_view();
            let ghost state = self@;
            let replacement = match &statements[i].node {
                Statements::IncludeStatement(inclusion) => {
                    proof {
                        lemma_resolve_inclusion(state, inclusion.deep_view());
                    }
                    self.resolve_inclusion(inclusion)
                },
                _ => None,
            };
            if let Some(new) = replacement {
                let ghost new_view = new.deep_view();
                statements[i].node = new;
                assert(statements.deep_view() =~= before.update(
                    i as int,
                    WithTriviaView { trivias: before[i as int].trivias, node: new_view },
                ));
            }
            i += 1;
        }
    }
}

impl VisitorMut for Includer {
    type State = IncluderView;

    open spec fn state(&self) -> IncluderView {
        self@
    }

    /// An inclusion is resolved; every other node is left to the traversal.
    open spec fn on_mut(state: IncluderView, node: NodeView) -> (IncluderView, Option<NodeView>) {
        match node {
            NodeView::Statements(StatementsView::IncludeStatement(inclusion)) => {
                let resolved = spec_resolve_inclusion(state, inclusion);
                (
                    resolved.0,
                    match resolved.1 {
                        Some(new) => Some(NodeView::Statements(new)),
                        None => None,
                    },
                )
            },
            _ => (state, None),
        }
    }

    fn visit_mut(&mut self, node: Node<'_>) -> (replacement: Option<OwnedNode>) {
        match node {
            Node::Statements(Statements::IncludeStatement(inclusion)) => {
                match self.resolve_inclusion(inclusion) {
                    Some(new) => Some(OwnedNode::Statements(new)),
                    None => None,
                }
            },
            _ => None,
        }
    }
}

} // verus!
