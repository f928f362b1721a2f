//! Files that configuration texts pull in.
//!
//! Which files match a pattern and what they hold is found out elsewhere; here the answers are put
//! together. Where an answer is still missing, the expansion stops and says for which pattern.
use vstd::prelude::*;
use vstd::utf8::encode_utf8;

use crate::parse::ast::{trees, AstBody, AstDirective, BodyTree, DirectiveTree};
use crate::parse::grammar::{char_span, file_trees, parse_source, ParseSyntaxError};
use crate::parse::source::{IncludeTrace, SourceFile, SourceId, SourceMap, SourceSpan};
use crate::path::{joined, parent_of, path_view, UnixPath};
use crate::text::{bytes_eq, texts};

verus! {

/// Why files cannot be pulled in.
#[derive(Debug)]
pub enum ResolveIncludeError {
    InvalidShape { span: SourceSpan },
    InvalidArgumentCount { span: SourceSpan, count: usize },
    GlobPattern { span: SourceSpan, pattern: UnixPath, reason: String },
    GlobEntry { span: SourceSpan, pattern: UnixPath, reason: String },
    ReadSource { span: SourceSpan, path: UnixPath, reason: String },
    ParseSource { source_id: SourceId, source: ParseSyntaxError },
    Endless { span: SourceSpan },
    Unresolved { span: SourceSpan, pattern: UnixPath },
}

impl ResolveIncludeError {
    /// The message of this error.
    pub open spec fn text(self) -> Seq<char> {
        match self {
            ResolveIncludeError::InvalidShape { .. } => "invalid include directive shape"@,
            ResolveIncludeError::InvalidArgumentCount { .. } => "invalid include directive argument count"@,
            ResolveIncludeError::GlobPattern { .. } => "invalid include glob pattern"@,
            ResolveIncludeError::GlobEntry { .. } => "failed to resolve include glob entry"@,
            ResolveIncludeError::ReadSource { .. } => "failed to read included source"@,
            ResolveIncludeError::ParseSource { .. } => "failed to parse included source"@,
            ResolveIncludeError::Endless { .. } => "included sources pull each other in without end"@,
            ResolveIncludeError::Unresolved { .. } => "include was not resolved"@,
        }
    }

    /// The message of this error.
    pub fn message(&self) -> (text: String)
        ensures
            text@ == self.text(),
    {
        match self {
            ResolveIncludeError::InvalidShape { .. } => "invalid include directive shape".to_owned(),
            ResolveIncludeError::InvalidArgumentCount { .. } => "invalid include directive argument count".to_owned(),
            ResolveIncludeError::GlobPattern { .. } => "invalid include glob pattern".to_owned(),
            ResolveIncludeError::GlobEntry { .. } => "failed to resolve include glob entry".to_owned(),
            ResolveIncludeError::ReadSource { .. } => "failed to read included source".to_owned(),
            ResolveIncludeError::ParseSource { .. } => "failed to parse included source".to_owned(),
            ResolveIncludeError::Endless { .. } => "included sources pull each other in without end".to_owned(),
            ResolveIncludeError::Unresolved { .. } => "include was not resolved".to_owned(),
        }
    }

    /// The messages of this error and of what caused it, outermost first.
    pub open spec fn chain(self) -> Seq<Seq<char>> {
        match self {
            ResolveIncludeError::GlobPattern { reason, .. } => seq![self.text(), reason@],
            ResolveIncludeError::GlobEntry { reason, .. } => seq![self.text(), reason@],
            ResolveIncludeError::ReadSource { reason, .. } => seq![self.text(), reason@],
            ResolveIncludeError::ParseSource { source, .. } => seq![self.text(), source.text()],
            _ => seq![self.text()],
        }
    }

    /// The messages of this error and of what caused it, outermost first.
    pub fn messages(&self) -> (list: Vec<String>)
        ensures
            texts(list@) == self.chain(),
    {
        let mut list: Vec<String> = Vec::new();
        list.push(self.message());
        match self {
            ResolveIncludeError::GlobPattern { reason, .. } => {
                list.push(reason.clone());
            },
            ResolveIncludeError::GlobEntry { reason, .. } => {
                list.push(reason.clone());
            },
            ResolveIncludeError::ReadSource { reason, .. } => {
                list.push(reason.clone());
            },
            ResolveIncludeError::ParseSource { source, .. } => {
                list.push(source.message());
            },
            _ => {},
        }
        assert(texts(list@) =~= self.chain());
        list
    }
}

/// What was found for one file that matches a pattern.
#[derive(Debug)]
pub enum IncludeEntry {
    /// The file could not be looked at.
    Failed { reason: String },
    /// The file could not be read.
    Unreadable { path: UnixPath, reason: String },
    /// The file holds the text.
    Read { path: UnixPath, text: String },
}

/// What was found for a pattern.
#[derive(Debug)]
pub enum IncludeAnswer {
    /// The pattern means nothing.
    BadPattern { reason: String },
    /// The files that match, in order.
    Entries(Vec<IncludeEntry>),
}

/// What was found for one file, as plain contents.
pub enum EntryView {
    Failed { reason: Seq<char> },
    Unreadable { path: Seq<u8>, reason: Seq<char> },
    Read { path: Seq<u8>, text: Seq<char> },
}

/// What was found for a pattern, as plain contents.
pub enum AnswerView {
    BadPattern { reason: Seq<char> },
    Entries(Seq<EntryView>),
}

impl View for IncludeEntry {
    type V = EntryView;

    open spec fn view(&self) -> EntryView {
        match *self {
            IncludeEntry::Failed { reason } => EntryView::Failed { reason: reason@ },
            IncludeEntry::Unreadable { path, reason } => EntryView::Unreadable {
                path: path@,
                reason: reason@,
            },
            IncludeEntry::Read { path, text } => EntryView::Read { path: path@, text: text@ },
        }
    }
}

/// The entries of a list, as plain contents.
pub open spec fn entry_views(entries: Seq<IncludeEntry>) -> Seq<EntryView> {
    entries.map_values(|entry: IncludeEntry| entry@)
}

impl View for IncludeAnswer {
    type V = AnswerView;

    open spec fn view(&self) -> AnswerView {
        match *self {
            IncludeAnswer::BadPattern { reason } => AnswerView::BadPattern { reason: reason@ },
            IncludeAnswer::Entries(entries) => AnswerView::Entries(entry_views(entries@)),
        }
    }
}

/// What was found so far, by pattern.
#[derive(Debug)]
pub struct IncludeFiles {
    answers: Vec<(UnixPath, IncludeAnswer)>,
}

/// The answer for a pattern: the first that was given.
pub open spec fn first_answer(
    answers: Seq<(Seq<u8>, AnswerView)>,
    pattern: Seq<u8>,
) -> Option<AnswerView>
    decreases answers.len(),
{
    if answers.len() == 0 {
        None
    } else {
        match first_answer(answers.drop_last(), pattern) {
            Some(answer) => Some(answer),
            None => if answers.last().0 == pattern {
                Some(answers.last().1)
            } else {
                None
            },
        }
    }
}

/// Answers, as plain contents.
pub open spec fn answer_views(answers: Seq<(UnixPath, IncludeAnswer)>) -> Seq<
    (Seq<u8>, AnswerView),
> {
    answers.map_values(|answer: (UnixPath, IncludeAnswer)| (answer.0@, answer.1@))
}

impl View for IncludeFiles {
    type V = Seq<(Seq<u8>, AnswerView)>;

    closed spec fn view(&self) -> Seq<(Seq<u8>, AnswerView)> {
        answer_views(self.answers@)
    }
}

impl IncludeFiles {
    pub fn new() -> (files: Self)
        ensures
            files@ == Seq::<(Seq<u8>, AnswerView)>::empty(),
    {
        let files = IncludeFiles { answers: Vec::new() };
        assert(files@ =~= Seq::empty());
        files
    }

    /// Adds what was found for a pattern.
    pub fn add_answer(&mut self, pattern: UnixPath, answer: IncludeAnswer)
        ensures
            final(self)@ == old(self)@.push((pattern@, answer@)),
    {
        let ghost before = self.answers@;
        self.answers.push((pattern, answer));
        assert(answer_views(self.answers@) =~= answer_views(before).push((pattern@, answer@)));
    }

    fn find(&self, pattern: &UnixPath) -> (answer: Option<&IncludeAnswer>)
        ensures
            match answer {
                Some(answer) => first_answer(self@, pattern@) == Some(answer@),
                None => first_answer(self@, pattern@) is None,
            },
    {
        let ghost all = self@;
        let mut i: usize = 0;
        assert(all.take(0) =~= Seq::empty());
        while i < self.answers.len()
            invariant
                i <= self.answers@.len(),
                all == answer_views(self.answers@),
                first_answer(all.take(i as int), pattern@) is None,
            decreases self.answers@.len() - i,
        {
            assert(all.take(i + 1).drop_last() =~= all.take(i as int));
            assert(all.take(i + 1).last() == all[i as int]);
            if bytes_eq(&self.answers[i].0.bytes, &pattern.bytes) {
                proof {
                    lemma_answer_stays(all, i + 1, pattern@);
                }
                return Some(&self.answers[i].1);
            }
            i += 1;
        }
        assert(all.take(i as int) =~= all);
        None
    }
}

/// An answer is not changed by those that are added later.
proof fn lemma_answer_stays(answers: Seq<(Seq<u8>, AnswerView)>, count: int, pattern: Seq<u8>)
    requires
        0 <= count <= answers.len(),
        first_answer(answers.take(count), pattern) is Some,
    ensures
        first_answer(answers, pattern) == first_answer(answers.take(count), pattern),
    decreases answers.len(),
{
    if count == answers.len() {
        assert(answers.take(count) =~= answers);
    } else {
        assert(answers.drop_last().take(count) =~= answers.take(count));
        lemma_answer_stays(answers.drop_last(), count, pattern);
    }
}

/// The first answer for a pattern stands, whatever is added later.
pub proof fn answers_stay(
    answers: Seq<(Seq<u8>, AnswerView)>,
    more: Seq<(Seq<u8>, AnswerView)>,
    pattern: Seq<u8>,
)
    requires
        first_answer(answers, pattern) is Some,
    ensures
        first_answer(answers + more, pattern) == first_answer(answers, pattern),
{
    assert((answers + more).take(answers.len() as int) =~= answers);
    lemma_answer_stays(answers + more, answers.len() as int, pattern);
}

/// Why an expansion stops, as plain contents.
pub enum StopView {
    InvalidShape { span: SourceSpan },
    InvalidArgumentCount { span: SourceSpan, count: nat },
    GlobPattern { span: SourceSpan, pattern: Seq<u8>, reason: Seq<char> },
    GlobEntry { span: SourceSpan, pattern: Seq<u8>, reason: Seq<char> },
    ReadSource { span: SourceSpan, path: Seq<u8>, reason: Seq<char> },
    ParseSource { source_id: SourceId, source: ParseSyntaxError },
    Endless { span: SourceSpan },
    Unresolved { span: SourceSpan, pattern: Seq<u8> },
}

impl View for ResolveIncludeError {
    type V = StopView;

    open spec fn view(&self) -> StopView {
        match *self {
            ResolveIncludeError::InvalidShape { span } => StopView::InvalidShape { span },
            ResolveIncludeError::InvalidArgumentCount {
                span,
                count,
            } => StopView::InvalidArgumentCount { span, count: count as nat },
            ResolveIncludeError::GlobPattern { span, pattern, reason } => StopView::GlobPattern {
                span,
                pattern: pattern@,
                reason: reason@,
            },
            ResolveIncludeError::GlobEntry { span, pattern, reason } => StopView::GlobEntry {
                span,
                pattern: pattern@,
                reason: reason@,
            },
            ResolveIncludeError::ReadSource { span, path, reason } => StopView::ReadSource {
                span,
                path: path@,
                reason: reason@,
            },
            ResolveIncludeError::ParseSource { source_id, source } => StopView::ParseSource {
                source_id,
                source,
            },
            ResolveIncludeError::Endless { span } => StopView::Endless { span },
            ResolveIncludeError::Unresolved { span, pattern } => StopView::Unresolved {
                span,
                pattern: pattern@,
            },
        }
    }
}

/// A source, as plain contents.
pub struct SourceView {
    pub id: SourceId,
    pub path: Option<Seq<u8>>,
    pub base_dir: Option<Seq<u8>>,
    pub text: Seq<char>,
    pub included_from: Option<IncludeTrace>,
}

/// A source, as plain contents.
pub open spec fn source_view(file: SourceFile) -> SourceView {
    SourceView {
        id: file.id,
        path: path_view(file.path),
        base_dir: path_view(file.base_dir),
        text: file.text@,
        included_from: file.included_from,
    }
}

/// Sources, as plain contents.
pub open spec fn source_views(files: Seq<SourceFile>) -> Seq<SourceView> {
    files.map_values(|file: SourceFile| source_view(file))
}

/// The pattern that an argument of `include` means in a directory.
pub open spec fn pattern_in(argument: Seq<char>, dir: Option<Seq<u8>>) -> Seq<u8> {
    match dir {
        Some(dir) => joined(dir, encode_utf8(argument)),
        None => encode_utf8(argument),
    }
}

/// The files that an `include` directive pulls in.
pub open spec fn included_entries(
    directive: DirectiveTree,
    dir: Option<Seq<u8>>,
    files: Seq<(Seq<u8>, AnswerView)>,
) -> Result<Seq<EntryView>, StopView> {
    if directive.body is Block {
        Err(StopView::InvalidShape { span: directive.span })
    } else if directive.args.len() != 1 {
        Err(
            StopView::InvalidArgumentCount { span: directive.span, count: directive.args.len() },
        )
    } else {
        let span = directive.args[0].span;
        let pattern = pattern_in(directive.args[0].value, dir);
        match first_answer(files, pattern) {
            None => Err(StopView::Unresolved { span, pattern }),
            Some(AnswerView::BadPattern { reason }) => Err(
                StopView::GlobPattern { span, pattern, reason },
            ),
            Some(AnswerView::Entries(entries)) => Ok(entries),
        }
    }
}

/// What an expansion gives: the sources after it, and the directives or why it stopped.
pub struct Expanded {
    pub sources: Seq<SourceView>,
    pub outcome: Result<Seq<DirectiveTree>, StopView>,
}

/// Whether an expansion stops because files pull each other in without end.
pub open spec fn is_endless(expanded: Expanded) -> bool {
    expanded.outcome matches Err(stop) && stop is Endless
}

/// Directives with every `include` replaced by the directives of the files that it pulls in, in
/// order; the first `include` that cannot be replaced stops the expansion. Files are numbered in
/// the order in which they are pulled in.
pub open spec fn expand_list(
    list: Seq<DirectiveTree>,
    dir: Option<Seq<u8>>,
    files: Seq<(Seq<u8>, AnswerView)>,
    depth: nat,
    sources: Seq<SourceView>,
) -> Expanded
    decreases depth, 0nat, list,
{
    if list.len() == 0 {
        Expanded { sources, outcome: Ok(Seq::empty()) }
    } else {
        let before = expand_list(list.drop_last(), dir, files, depth, sources);
        match before.outcome {
            Err(stop) => before,
            Ok(done) => {
                let last = expand_one(list.last(), dir, files, depth, before.sources);
                match last.outcome {
                    Err(stop) => last,
                    Ok(more) => Expanded { sources: last.sources, outcome: Ok(done + more) },
                }
            },
        }
    }
}

/// What one directive expands to.
pub open spec fn expand_one(
    directive: DirectiveTree,
    dir: Option<Seq<u8>>,
    files: Seq<(Seq<u8>, AnswerView)>,
    depth: nat,
    sources: Seq<SourceView>,
) -> Expanded
    decreases depth, 0nat, directive,
{
    if directive.name.value == "include"@ {
        match included_entries(directive, dir, files) {
            Err(stop) => Expanded { sources, outcome: Err(stop) },
            Ok(entries) => if depth == 0 {
                Expanded { sources, outcome: Err(StopView::Endless { span: directive.span }) }
            } else {
                expand_entries(
                    directive,
                    pattern_in(directive.args[0].value, dir),
                    entries,
                    files,
                    (depth - 1) as nat,
                    sources,
                )
            },
        }
    } else {
        match directive.body {
            BodyTree::Leaf { .. } => Expanded { sources, outcome: Ok(seq![directive]) },
            BodyTree::Block { open, children, close } => {
                let inner = expand_list(children, dir, files, depth, sources);
                match inner.outcome {
                    Err(stop) => inner,
                    Ok(children) => Expanded {
                        sources: inner.sources,
                        outcome: Ok(
                            seq![
                                DirectiveTree {
                                    name: directive.name,
                                    args: directive.args,
                                    body: BodyTree::Block { open, children, close },
                                    span: directive.span,
                                },
                            ],
                        ),
                    },
                }
            },
        }
    }
}

/// The source that a file becomes.
pub open spec fn included_source(
    id: SourceId,
    directive: DirectiveTree,
    path: Seq<u8>,
    text: Seq<char>,
) -> SourceView {
    SourceView {
        id,
        path: Some(path),
        base_dir: parent_of(path),
        text,
        included_from: Some(
            IncludeTrace { parent: directive.span.source_id, directive_span: directive.span },
        ),
    }
}

/// What the files that an `include` pulls in expand to, one after the other.
pub open spec fn expand_entries(
    directive: DirectiveTree,
    pattern: Seq<u8>,
    entries: Seq<EntryView>,
    files: Seq<(Seq<u8>, AnswerView)>,
    depth: nat,
    sources: Seq<SourceView>,
) -> Expanded
    decreases depth, 1nat, entries,
{
    if entries.len() == 0 {
        Expanded { sources, outcome: Ok(Seq::empty()) }
    } else {
        let before = expand_entries(
            directive,
            pattern,
            entries.drop_last(),
            files,
            depth,
            sources,
        );
        match before.outcome {
            Err(stop) => before,
            Ok(done) => {
                let span = directive.args[0].span;
                match entries.last() {
                    EntryView::Failed { reason } => Expanded {
                        sources: before.sources,
                        outcome: Err(StopView::GlobEntry { span, pattern, reason }),
                    },
                    EntryView::Unreadable { path, reason } => Expanded {
                        sources: before.sources,
                        outcome: Err(StopView::ReadSource { span, path, reason }),
                    },
                    EntryView::Read { path, text } => {
                        let id = SourceId(before.sources.len() as u32);
                        let sources = before.sources.push(
                            included_source(id, directive, path, text),
                        );
                        match file_trees(text, id) {
                            Err(failed) => Expanded {
                                sources,
                                outcome: Err(
                                    StopView::ParseSource {
                                        source_id: id,
                                        source: ParseSyntaxError::Syntax {
                                            source_id: id,
                                            span: char_span(text, id, failed, failed),
                                        },
                                    },
                                ),
                            },
                            Ok(list) => {
                                let last = expand_list(
                                    list,
                                    parent_of(path),
                                    files,
                                    depth,
                                    sources,
                                );
                                match last.outcome {
                                    Err(stop) => last,
                                    Ok(more) => Expanded {
                                        sources: last.sources,
                                        outcome: Ok(done + more),
                                    },
                                }
                            },
                        }
                    },
                }
            },
        }
    }
}

/// Whether no directive of a list pulls in files, at any depth.
pub open spec fn without_includes(list: Seq<DirectiveTree>) -> bool
    decreases list,
{
    forall|i: int| 0 <= i < list.len() ==> without_include(#[trigger] list[i])
}

/// Whether neither a directive nor one inside it pulls in files.
pub open spec fn without_include(directive: DirectiveTree) -> bool
    decreases directive,
{
    directive.name.value != "include"@ && match directive.body {
        BodyTree::Leaf { .. } => true,
        BodyTree::Block { children, .. } => without_includes(children),
    }
}

/// Directives that pull in no files expand to themselves and add no sources.
pub proof fn plain_directives_stay(
    list: Seq<DirectiveTree>,
    dir: Option<Seq<u8>>,
    files: Seq<(Seq<u8>, AnswerView)>,
    depth: nat,
    sources: Seq<SourceView>,
)
    requires
        without_includes(list),
    ensures
        expand_list(list, dir, files, depth, sources) == (Expanded { sources, outcome: Ok(list) }),
    decreases list,
{
    if list.len() > 0 {
        let init = list.drop_last();
        let last = list.last();
        assert forall|i: int| 0 <= i < init.len() implies without_include(#[trigger] init[i]) by {
            assert(init[i] == list[i]);
        }
        plain_directives_stay(init, dir, files, depth, sources);
        assert(without_include(list[list.len() - 1]));
        match last.body {
            BodyTree::Leaf { .. } => {},
            BodyTree::Block { children, .. } => {
                plain_directives_stay(children, dir, files, depth, sources);
            },
        }
        let one = expand_one(last, dir, files, depth, sources);
        assert(one.outcome->Ok_0 =~= seq![last]);
        assert(init + seq![last] =~= list);
    } else {
        assert(list =~= Seq::empty());
    }
}

/// What holds of every expansion: the sources that there were keep their numbers, and what comes
/// out pulls in no files.
spec fn keeps_order(expanded: Expanded, sources: Seq<SourceView>) -> bool {
    &&& sources.is_prefix_of(expanded.sources)
    &&& expanded.outcome matches Ok(list) ==> without_includes(list)
}

proof fn lemma_joined(one: Seq<DirectiveTree>, other: Seq<DirectiveTree>)
    requires
        without_includes(one),
        without_includes(other),
    ensures
        without_includes(one + other),
{
    let both = one + other;
    assert forall|i: int| 0 <= i < both.len() implies without_include(#[trigger] both[i]) by {
        if i < one.len() {
            assert(both[i] == one[i]);
        } else {
            assert(both[i] == other[i - one.len()]);
        }
    }
}

proof fn lemma_list_keeps_order(
    list: Seq<DirectiveTree>,
    dir: Option<Seq<u8>>,
    files: Seq<(Seq<u8>, AnswerView)>,
    depth: nat,
    sources: Seq<SourceView>,
)
    ensures
        keeps_order(expand_list(list, dir, files, depth, sources), sources),
    decreases depth, 0nat, list,
{
    if list.len() > 0 {
        lemma_list_keeps_order(list.drop_last(), dir, files, depth, sources);
        let before = expand_list(list.drop_last(), dir, files, depth, sources);
        if let Ok(done) = before.outcome {
            lemma_one_keeps_order(list.last(), dir, files, depth, before.sources);
            let last = expand_one(list.last(), dir, files, depth, before.sources);
            if let Ok(more) = last.outcome {
                lemma_joined(done, more);
            }
        }
    }
}

proof fn lemma_one_keeps_order(
    directive: DirectiveTree,
    dir: Option<Seq<u8>>,
    files: Seq<(Seq<u8>, AnswerView)>,
    depth: nat,
    sources: Seq<SourceView>,
)
    ensures
        keeps_order(expand_one(directive, dir, files, depth, sources), sources),
    decreases depth, 0nat, directive,
{
    if directive.name.value == "include"@ {
        if let Ok(entries) = included_entries(directive, dir, files) {
            if depth > 0 {
                lemma_entries_keep_order(
                    directive,
                    pattern_in(directive.args[0].value, dir),
                    entries,
                    files,
                    (depth - 1) as nat,
                    sources,
                );
            }
        }
    } else {
        match directive.body {
            BodyTree::Leaf { .. } => {},
            BodyTree::Block { children, .. } => {
                lemma_list_keeps_order(children, dir, files, depth, sources);
            },
        }
    }
}

proof fn lemma_entries_keep_order(
    directive: DirectiveTree,
    pattern: Seq<u8>,
    entries: Seq<EntryView>,
    files: Seq<(Seq<u8>, AnswerView)>,
    depth: nat,
    sources: Seq<SourceView>,
)
    ensures
        keeps_order(
            expand_entries(directive, pattern, entries, files, depth, sources),
            sources,
        ),
    decreases depth, 1nat, entries,
{
    if entries.len() > 0 {
        let init = entries.drop_last();
        lemma_entries_keep_order(directive, pattern, init, files, depth, sources);
        let before = expand_entries(directive, pattern, init, files, depth, sources);
        if let Ok(done) = before.outcome {
            if let EntryView::Read { path, text } = entries.last() {
                let id = SourceId(before.sources.len() as u32);
                let more_sources = before.sources.push(
                            included_source(id, directive, path, text),
                        );
                if let Ok(list) = file_trees(text, id) {
                    lemma_list_keeps_order(list, parent_of(path), files, depth, more_sources);
                    let last = expand_list(list, parent_of(path), files, depth, more_sources);
                    if let Ok(more) = last.outcome {
                        lemma_joined(done, more);
                    }
                }
            }
        }
    }
}

/// When an expansion is done no `include` is left, at any depth, and expanding again changes
/// nothing.
pub proof fn no_include_is_left(
    list: Seq<DirectiveTree>,
    dir: Option<Seq<u8>>,
    files: Seq<(Seq<u8>, AnswerView)>,
    depth: nat,
    sources: Seq<SourceView>,
    whole: Seq<DirectiveTree>,
)
    requires
        expand_list(list, dir, files, depth, sources).outcome == Ok::<
            Seq<DirectiveTree>,
            StopView,
        >(whole),
    ensures
        without_includes(whole),
        expand_list(whole, dir, files, depth, sources) == (Expanded { sources, outcome: Ok(whole) }),
{
    lemma_list_keeps_order(list, dir, files, depth, sources);
    plain_directives_stay(whole, dir, files, depth, sources);
}

proof fn lemma_list_deeper(
    list: Seq<DirectiveTree>,
    dir: Option<Seq<u8>>,
    files: Seq<(Seq<u8>, AnswerView)>,
    depth: nat,
    more: nat,
    sources: Seq<SourceView>,
)
    requires
        depth <= more,
        !is_endless(expand_list(list, dir, files, depth, sources)),
    ensures
        expand_list(list, dir, files, more, sources) == expand_list(
            list,
            dir,
            files,
            depth,
            sources,
        ),
    decreases depth, 0nat, list,
{
    if list.len() > 0 {
        lemma_list_deeper(list.drop_last(), dir, files, depth, more, sources);
        let before = expand_list(list.drop_last(), dir, files, depth, sources);
        if before.outcome is Ok {
            lemma_one_deeper(list.last(), dir, files, depth, more, before.sources);
        }
    }
}

proof fn lemma_one_deeper(
    directive: DirectiveTree,
    dir: Option<Seq<u8>>,
    files: Seq<(Seq<u8>, AnswerView)>,
    depth: nat,
    more: nat,
    sources: Seq<SourceView>,
)
    requires
        depth <= more,
        !is_endless(expand_one(directive, dir, files, depth, sources)),
    ensures
        expand_one(directive, dir, files, more, sources) == expand_one(
            directive,
            dir,
            files,
            depth,
            sources,
        ),
    decreases depth, 0nat, directive,
{
    if directive.name.value == "include"@ {
        if let Ok(entries) = included_entries(directive, dir, files) {
            lemma_entries_deeper(
                directive,
                pattern_in(directive.args[0].value, dir),
                entries,
                files,
                (depth - 1) as nat,
                (more - 1) as nat,
                sources,
            );
        }
    } else if let BodyTree::Block { children, .. } = directive.body {
        lemma_list_deeper(children, dir, files, depth, more, sources);
    }
}

proof fn lemma_entries_deeper(
    directive: DirectiveTree,
    pattern: Seq<u8>,
    entries: Seq<EntryView>,
    files: Seq<(Seq<u8>, AnswerView)>,
    depth: nat,
    more: nat,
    sources: Seq<SourceView>,
)
    requires
        depth <= more,
        !is_endless(expand_entries(directive, pattern, entries, files, depth, sources)),
    ensures
        expand_entries(directive, pattern, entries, files, more, sources) == expand_entries(
            directive,
            pattern,
            entries,
            files,
            depth,
            sources,
        ),
    decreases depth, 1nat, entries,
{
    if entries.len() > 0 {
        let init = entries.drop_last();
        lemma_entries_deeper(directive, pattern, init, files, depth, more, sources);
        let before = expand_entries(directive, pattern, init, files, depth, sources);
        if before.outcome is Ok {
            if let EntryView::Read { path, text } = entries.last() {
                let id = SourceId(before.sources.len() as u32);
                let read = before.sources.push(included_source(id, directive, path, text));
                if let Ok(list) = file_trees(text, id) {
                    lemma_list_deeper(list, parent_of(path), files, depth, more, read);
                }
            }
        }
    }
}

/// An expansion that ends gives the same however many files may be pulled in inside each other.
pub proof fn deeper_expansion_changes_nothing(
    list: Seq<DirectiveTree>,
    dir: Option<Seq<u8>>,
    files: Seq<(Seq<u8>, AnswerView)>,
    depth: nat,
    sources: Seq<SourceView>,
)
    requires
        depth >= files.len(),
        !is_endless(whole_expansion(list, dir, files, sources)),
    ensures
        expand_list(list, dir, files, depth, sources) == whole_expansion(list, dir, files, sources),
{
    lemma_list_deeper(list, dir, files, files.len(), depth, sources);
}

/// An expansion adds sources behind those that there are, so that every source keeps its number,
/// whether the expansion is done or stops.
pub proof fn sources_keep_their_numbers(
    list: Seq<DirectiveTree>,
    dir: Option<Seq<u8>>,
    files: Seq<(Seq<u8>, AnswerView)>,
    depth: nat,
    sources: Seq<SourceView>,
)
    ensures
        sources.is_prefix_of(expand_list(list, dir, files, depth, sources).sources),
{
    lemma_list_keeps_order(list, dir, files, depth, sources);
}

proof fn lemma_list_stops(
    list: Seq<DirectiveTree>,
    count: int,
    dir: Option<Seq<u8>>,
    files: Seq<(Seq<u8>, AnswerView)>,
    depth: nat,
    sources: Seq<SourceView>,
)
    requires
        0 <= count <= list.len(),
        expand_list(list.take(count), dir, files, depth, sources).outcome is Err,
    ensures
        expand_list(list, dir, files, depth, sources) == expand_list(
            list.take(count),
            dir,
            files,
            depth,
            sources,
        ),
    decreases list.len(),
{
    if count == list.len() {
        assert(list.take(count) =~= list);
    } else {
        assert(list.drop_last().take(count) =~= list.take(count));
        lemma_list_stops(list.drop_last(), count, dir, files, depth, sources);
    }
}

proof fn lemma_entries_stop(
    directive: DirectiveTree,
    pattern: Seq<u8>,
    entries: Seq<EntryView>,
    count: int,
    files: Seq<(Seq<u8>, AnswerView)>,
    depth: nat,
    sources: Seq<SourceView>,
)
    requires
        0 <= count <= entries.len(),
        expand_entries(directive, pattern, entries.take(count), files, depth, sources).outcome is Err,
    ensures
        expand_entries(directive, pattern, entries, files, depth, sources) == expand_entries(
            directive,
            pattern,
            entries.take(count),
            files,
            depth,
            sources,
        ),
    decreases entries.len(),
{
    if count == entries.len() {
        assert(entries.take(count) =~= entries);
    } else {
        assert(entries.drop_last().take(count) =~= entries.take(count));
        lemma_entries_stop(
            directive,
            pattern,
            entries.drop_last(),
            count,
            files,
            depth,
            sources,
        );
    }
}

/// Whether an expansion of exec values is the one that the trees say.
pub open spec fn is_expansion(
    expanded: Expanded,
    sources: SourceMap,
    result: Result<Vec<AstDirective>, ResolveIncludeError>,
) -> bool {
    &&& expanded.sources == source_views(sources@)
    &&& match result {
        Ok(directives) => expanded.outcome == Ok::<Seq<DirectiveTree>, StopView>(
            trees(directives@),
        ),
        Err(error) => expanded.outcome == Err::<Seq<DirectiveTree>, StopView>(error@),
    }
}

proof fn lemma_trees_take(list: Seq<AstDirective>, i: int)
    requires
        0 <= i < list.len(),
    ensures
        trees(list).take(i + 1).drop_last() == trees(list).take(i),
        trees(list).take(i + 1).last() == list[i].tree(),
{
    assert(trees(list).take(i + 1).drop_last() =~= trees(list).take(i));
}

proof fn lemma_tree_of(directive: AstDirective)
    ensures
        directive.tree().name.value == directive.name_text(),
        directive.tree().span == directive.span,
        directive.tree().args.len() == directive.args@.len(),
        forall|i: int|
            0 <= i < directive.args@.len() ==> (#[trigger] directive.tree().args[i]).value
                == directive.args@[i].value@ && directive.tree().args[i].span
                == directive.args@[i].span,
        match directive.body {
            AstBody::Leaf { semicolon } => directive.tree().body == (BodyTree::Leaf { semicolon }),
            AstBody::Block { open, children, close } => directive.tree().body == (BodyTree::Block {
                open,
                children: trees(children@),
                close,
            }),
        },
{
    match directive.body {
        AstBody::Leaf { .. } => {},
        AstBody::Block { open, children, close } => {
            assert(directive.tree().body->children =~= trees(children@));
        },
    }
}

/// What an expansion to any depth gives. Where more patterns are pulled in inside each other than
/// there are answers, two of them are the same: a pattern is then pulled in inside itself, by the same
/// files each time, and that has no end.
pub open spec fn whole_expansion(
    list: Seq<DirectiveTree>,
    dir: Option<Seq<u8>>,
    files: Seq<(Seq<u8>, AnswerView)>,
    sources: Seq<SourceView>,
) -> Expanded {
    expand_list(list, dir, files, files.len(), sources)
}

/// Replaces every `include` by the directives of the files that it pulls in.
pub fn expand_includes(
    directives: Vec<AstDirective>,
    source_map: &mut SourceMap,
    current_dir: Option<&UnixPath>,
    files: &IncludeFiles,
) -> (result: Result<Vec<AstDirective>, ResolveIncludeError>)
    ensures
        is_expansion(
            whole_expansion(
                trees(directives@),
                dir_view(current_dir),
                files@,
                source_views(old(source_map)@),
            ),
            *final(source_map),
            result,
        ),
        old(source_map).wf() ==> final(source_map).wf(),
{
    expand_within(directives, source_map, current_dir, files, files.answers.len())
}

/// Replaces every `include`, to at most `depth` files inside each other.
fn expand_within(
    directives: Vec<AstDirective>,
    source_map: &mut SourceMap,
    current_dir: Option<&UnixPath>,
    files: &IncludeFiles,
    depth: usize,
) -> (result: Result<Vec<AstDirective>, ResolveIncludeError>)
    ensures
        is_expansion(
            expand_list(
                trees(directives@),
                dir_view(current_dir),
                files@,
                depth as nat,
                source_views(old(source_map)@),
            ),
            *final(source_map),
            result,
        ),
        old(source_map).wf() ==> final(source_map).wf(),
    decreases depth, 0nat, directives@,
{
    let ghost all = directives@;
    let ghost dir = dir_view(current_dir);
    let ghost start = source_views(source_map@);
    let ghost was_wf = source_map.wf();
    let mut rest = directives;
    let mut expanded: Vec<AstDirective> = Vec::new();
    let ghost mut count: int = 0;
    proof {
        assert(trees(all).take(0) =~= Seq::empty());
        assert(trees(expanded@) =~= Seq::empty());
    }
    while rest.len() > 0
        invariant
            0 <= count <= all.len(),
            rest@ == all.skip(count),
            all == directives@,
            dir == dir_view(current_dir),
            start == source_views(old(source_map)@),
            was_wf == old(source_map).wf(),
            was_wf ==> source_map.wf(),
            expand_list(trees(all).take(count), dir, files@, depth as nat, start) == (Expanded {
                sources: source_views(source_map@),
                outcome: Ok(trees(expanded@)),
            }),
        decreases rest@.len(),
    {
        let ghost done = expanded@;
        let directive = rest.remove(0);
        proof {
            assert(directive == all[count]);
            assert(rest@ =~= all.skip(count + 1));
            lemma_trees_take(all, count);
            lemma_tree_of(directive);
            assert(decreases_to!(directives@ => all[count]));
        }
        let result = expand_directive(directive, source_map, current_dir, files, depth);
        match result {
            Ok(mut more) => {
                let ghost added = more@;
                expanded.append(&mut more);
                proof {
                    assert(trees(expanded@) =~= trees(done) + trees(added));
                }
            },
            Err(error) => {
                proof {
                    lemma_list_stops(trees(all), count + 1, dir, files@, depth as nat, start);
                }
                return Err(error);
            },
        }
        proof {
            count = count + 1;
        }
    }
    assert(trees(all).take(count) =~= trees(all));
    Ok(expanded)
}

/// The directory, as bytes.
pub open spec fn dir_view(dir: Option<&UnixPath>) -> Option<Seq<u8>> {
    match dir {
        Some(dir) => Some(dir@),
        None => None,
    }
}

fn expand_directive(
    directive: AstDirective,
    source_map: &mut SourceMap,
    current_dir: Option<&UnixPath>,
    files: &IncludeFiles,
    depth: usize,
) -> (result: Result<Vec<AstDirective>, ResolveIncludeError>)
    ensures
        is_expansion(
            expand_one(
                directive.tree(),
                dir_view(current_dir),
                files@,
                depth as nat,
                source_views(old(source_map)@),
            ),
            *final(source_map),
            result,
        ),
        old(source_map).wf() ==> final(source_map).wf(),
    decreases depth, 0nat, directive,
{
    proof {
        lemma_tree_of(directive);
    }
    if directive.is_named("include") {
        return expand_include(directive, source_map, current_dir, files, depth);
    }
    let mut list: Vec<AstDirective> = Vec::new();
    let ghost whole = directive.tree();
    let AstDirective { name, args, body, span } = directive;
    let body = match body {
        AstBody::Leaf { semicolon } => AstBody::Leaf { semicolon },
        AstBody::Block { open, children, close } => {
            match expand_within(children, source_map, current_dir, files, depth) {
                Ok(children) => AstBody::Block { open, children, close },
                Err(error) => {
                    return Err(error);
                },
            }
        },
    };
    list.push(AstDirective { name, args, body, span });
    proof {
        lemma_tree_of(list@[0]);
        let tree = list@[0].tree();
        assert(tree.args =~= whole.args);
        assert(trees(list@) =~= seq![tree]);
    }
    Ok(list)
}

/// The pattern of an `include` directive and the answer for it.
fn find_entries<'f>(
    directive: &AstDirective,
    current_dir: Option<&UnixPath>,
    files: &'f IncludeFiles,
) -> (result: Result<(UnixPath, &'f Vec<IncludeEntry>), ResolveIncludeError>)
    ensures
        match result {
            Ok((pattern, entries)) => directive.args@.len() == 1 && pattern@ == pattern_in(
                directive.arg(0),
                dir_view(current_dir),
            ) && included_entries(directive.tree(), dir_view(current_dir), files@) == Ok::<
                Seq<EntryView>,
                StopView,
            >(entry_views(entries@)),
            Err(error) => included_entries(directive.tree(), dir_view(current_dir), files@) == Err::<
                Seq<EntryView>,
                StopView,
            >(error@),
        },
{
    proof {
        lemma_tree_of(*directive);
    }
    if !directive.is_leaf() {
        return Err(ResolveIncludeError::InvalidShape { span: directive.span });
    }
    if directive.args.len() != 1 {
        return Err(
            ResolveIncludeError::InvalidArgumentCount {
                span: directive.span,
                count: directive.args.len(),
            },
        );
    }
    let arg = &directive.args[0];
    assert(directive.tree().args[0].value == arg.value@);
    let named = UnixPath::new(arg.value.as_str());
    let pattern = match current_dir {
        Some(dir) => dir.join(&named),
        None => named,
    };
    match files.find(&pattern) {
        None => Err(ResolveIncludeError::Unresolved { span: arg.span, pattern }),
        Some(IncludeAnswer::BadPattern { reason }) => Err(
            ResolveIncludeError::GlobPattern { span: arg.span, pattern, reason: reason.clone() },
        ),
        Some(IncludeAnswer::Entries(entries)) => Ok((pattern, entries)),
    }
}

fn expand_include(
    directive: AstDirective,
    source_map: &mut SourceMap,
    current_dir: Option<&UnixPath>,
    files: &IncludeFiles,
    depth: usize,
) -> (result: Result<Vec<AstDirective>, ResolveIncludeError>)
    requires
        directive.name_text() == "include"@,
    ensures
        is_expansion(
            expand_one(
                directive.tree(),
                dir_view(current_dir),
                files@,
                depth as nat,
                source_views(old(source_map)@),
            ),
            *final(source_map),
            result,
        ),
        old(source_map).wf() ==> final(source_map).wf(),
    decreases depth, 0nat, directive.body,
{
    let ghost tree = directive.tree();
    proof {
        lemma_tree_of(directive);
    }
    let (pattern, entries) = match find_entries(&directive, current_dir, files) {
        Ok(found) => found,
        Err(error) => {
            return Err(error);
        },
    };
    if depth == 0 {
        return Err(ResolveIncludeError::Endless { span: directive.span });
    }
    let inner: usize = depth - 1;
    let ghost all = entry_views(entries@);
    let ghost start = source_views(source_map@);
    let ghost was_wf = source_map.wf();
    let place = directive.args[0].span;
    assert(tree.args[0].span == place);
    let mut out: Vec<AstDirective> = Vec::new();
    let mut i: usize = 0;
    proof {
        assert(all.take(0) =~= Seq::empty());
        assert(trees(out@) =~= Seq::empty());
    }
    while i < entries.len()
        invariant
            i <= entries@.len(),
            inner == depth - 1,
            all == entry_views(entries@),
            tree == directive.tree(),
            tree.args.len() == 1,
            tree.args[0].span == place,
            tree.span == directive.span,
            tree.name.value == "include"@,
            depth > 0,
            pattern@ == pattern_in(tree.args[0].value, dir_view(current_dir)),
            included_entries(tree, dir_view(current_dir), files@) == Ok::<
                Seq<EntryView>,
                StopView,
            >(all),
            start == source_views(old(source_map)@),
            was_wf == old(source_map).wf(),
            was_wf ==> source_map.wf(),
            expand_entries(tree, pattern@, all.take(i as int), files@, inner as nat, start) == (
            Expanded { sources: source_views(source_map@), outcome: Ok(trees(out@)) }),
        decreases entries@.len() - i,
    {
        let ghost before = source_map@;
        let ghost done = out@;
        proof {
            assert(all.take(i + 1).drop_last() =~= all.take(i as int));
            assert(all.take(i + 1).last() == entries@[i as int]@);
        }
        match &entries[i] {
            IncludeEntry::Failed { reason } => {
                proof {
                    lemma_entries_stop(tree, pattern@, all, i + 1, files@, inner as nat, start);
                }
                let reason = reason.clone();
                return Err(ResolveIncludeError::GlobEntry { span: place, pattern, reason });
            },
            IncludeEntry::Unreadable { path, reason } => {
                proof {
                    lemma_entries_stop(tree, pattern@, all, i + 1, files@, inner as nat, start);
                }
                let (path, reason) = (path.clone(), reason.clone());
                return Err(ResolveIncludeError::ReadSource { span: place, path, reason });
            },
            IncludeEntry::Read { path, text } => {
                let child_dir = path.parent();
                let copied_dir = match &child_dir {
                    Some(dir) => Some(dir.clone()),
                    None => None,
                };
                let source_id = source_map.add_source(
                    Some(path.clone()),
                    text.clone(),
                    copied_dir,
                    Some(
                        IncludeTrace {
                            parent: directive.span.source_id,
                            directive_span: directive.span,
                        },
                    ),
                );
                proof {
                    let file = source_map@.last();
                    assert(source_map@ =~= before.push(file));
                    assert(source_view(file) == included_source(source_id, tree, path@, text@));
                    assert(source_views(source_map@) =~= source_views(before).push(
                        included_source(source_id, tree, path@, text@),
                    ));
                }
                let parsed = match parse_source(text.as_str(), source_id) {
                    Ok(parsed) => parsed,
                    Err(source) => {
                        proof {
                            lemma_entries_stop(
                                tree,
                                pattern@,
                                all,
                                i + 1,
                                files@,
                                inner as nat,
                                start,
                            );
                        }
                        return Err(ResolveIncludeError::ParseSource { source_id, source });
                    },
                };
                let result = expand_within(
                    parsed,
                    source_map,
                    child_dir.as_ref(),
                    files,
                    inner,
                );
                match result {
                    Ok(mut more) => {
                        let ghost added = more@;
                        out.append(&mut more);
                        proof {
                            assert(trees(out@) =~= trees(done) + trees(added));
                        }
                    },
                    Err(error) => {
                        proof {
                            lemma_entries_stop(
                                tree,
                                pattern@,
                                all,
                                i + 1,
                                files@,
                                inner as nat,
                                start,
                            );
                        }
                        return Err(error);
                    },
                }
            },
        }
        i += 1;
    }
    assert(all.take(i as int) =~= all);
    Ok(out)
}

/// Lists expand one after the other: what a list and another behind it expand to is what the first
/// expands to with what the second expands to behind it, and the second finds the files that the first
/// pulled in already numbered.
pub proof fn lists_expand_in_order(
    one: Seq<DirectiveTree>,
    other: Seq<DirectiveTree>,
    dir: Option<Seq<u8>>,
    files: Seq<(Seq<u8>, AnswerView)>,
    depth: nat,
    sources: Seq<SourceView>,
)
    ensures
        ({
            let whole = expand_list(one + other, dir, files, depth, sources);
            let first = expand_list(one, dir, files, depth, sources);
            match first.outcome {
                Err(_) => whole == first,
                Ok(done) => {
                    let second = expand_list(other, dir, files, depth, first.sources);
                    whole.sources == second.sources && match second.outcome {
                        Err(stop) => whole.outcome == Err::<Seq<DirectiveTree>, StopView>(stop),
                        Ok(more) => whole.outcome == Ok::<Seq<DirectiveTree>, StopView>(done + more),
                    }
                },
            }
        }),
    decreases other.len(),
{
    let all = one + other;
    if other.len() == 0 {
        assert(all =~= one);
        let first = expand_list(one, dir, files, depth, sources);
        if let Ok(done) = first.outcome {
            assert(done + Seq::<DirectiveTree>::empty() =~= done);
        }
    } else {
        let init = other.drop_last();
        lists_expand_in_order(one, init, dir, files, depth, sources);
        assert(all.drop_last() =~= one + init);
        assert(all.last() == other.last());
        let first = expand_list(one, dir, files, depth, sources);
        if let Ok(done) = first.outcome {
            let second = expand_list(init, dir, files, depth, first.sources);
            if let Ok(more) = second.outcome {
                let last = expand_one(other.last(), dir, files, depth, second.sources);
                if let Ok(rest) = last.outcome {
                    assert(done + more + rest =~= done + (more + rest));
                }
            }
        }
    }
}

/// A directive that is no `include` keeps its name, its arguments and its place, and its block expands
/// inside it.
pub proof fn blocks_expand_in_place(
    directive: DirectiveTree,
    dir: Option<Seq<u8>>,
    files: Seq<(Seq<u8>, AnswerView)>,
    depth: nat,
    sources: Seq<SourceView>,
)
    requires
        directive.name.value != seq!['i', 'n', 'c', 'l', 'u', 'd', 'e'],
    ensures
        ({
            let expanded = expand_list(seq![directive], dir, files, depth, sources);
            match directive.body {
                BodyTree::Leaf { .. } => expanded.sources == sources && expanded.outcome == Ok::<
                    Seq<DirectiveTree>,
                    StopView,
                >(seq![directive]),
                BodyTree::Block { open, children, close } => {
                    let inner = expand_list(children, dir, files, depth, sources);
                    &&& expanded.sources == inner.sources
                    &&& match inner.outcome {
                        Err(stop) => expanded.outcome == Err::<Seq<DirectiveTree>, StopView>(stop),
                        Ok(inside) => expanded.outcome == Ok::<Seq<DirectiveTree>, StopView>(
                            seq![
                                DirectiveTree {
                                    body: BodyTree::Block { open, children: inside, close },
                                    ..directive
                                },
                            ],
                        ),
                    }
                },
            }
        }),
{
    lemma_single(directive, dir, files, depth, sources);
    lemma_include_word();
}

proof fn lemma_include_word()
    ensures
        "include"@ == seq!['i', 'n', 'c', 'l', 'u', 'd', 'e'],
{
    reveal_strlit("include");
    assert("include"@ =~= seq!['i', 'n', 'c', 'l', 'u', 'd', 'e']);
}

proof fn lemma_single(
    directive: DirectiveTree,
    dir: Option<Seq<u8>>,
    files: Seq<(Seq<u8>, AnswerView)>,
    depth: nat,
    sources: Seq<SourceView>,
)
    ensures
        expand_list(seq![directive], dir, files, depth, sources) == expand_one(
            directive,
            dir,
            files,
            depth,
            sources,
        ),
{
    let list = seq![directive];
    assert(list.drop_last() =~= Seq::empty());
    assert(expand_list(Seq::empty(), dir, files, depth, sources) == Expanded {
        sources,
        outcome: Ok(Seq::empty()),
    });
    let one = expand_one(directive, dir, files, depth, sources);
    if let Ok(more) = one.outcome {
        assert(Seq::<DirectiveTree>::empty() + more =~= more);
    }
}

/// The directives of texts, one after the other, numbered from `from` on.
pub open spec fn all_trees(texts: Seq<Seq<char>>, from: nat) -> Seq<DirectiveTree>
    decreases texts.len(),
{
    if texts.len() == 0 {
        seq![]
    } else {
        let init = texts.drop_last();
        all_trees(init, from) + file_trees(
            texts.last(),
            SourceId((from + init.len()) as u32),
        )->Ok_0
    }
}

/// An `include` is replaced by the directives of the files that its pattern found, one file after the
/// other and each whole. The files are added to the sources in that order, each with its path, its
/// directory, its text and the place that pulled it in.
pub proof fn included_files_stand_in_place(
    directive: DirectiveTree,
    dir: Option<Seq<u8>>,
    files: Seq<(Seq<u8>, AnswerView)>,
    depth: nat,
    sources: Seq<SourceView>,
    paths: Seq<Seq<u8>>,
    texts: Seq<Seq<char>>,
)
    requires
        directive.name.value == seq!['i', 'n', 'c', 'l', 'u', 'd', 'e'],
        directive.body is Leaf,
        directive.args.len() == 1,
        depth > 0,
        paths.len() == texts.len(),
        first_answer(
            files,
            match dir {
                Some(dir) => joined(dir, encode_utf8(directive.args[0].value)),
                None => encode_utf8(directive.args[0].value),
            },
        ) == Some(
            AnswerView::Entries(
                Seq::new(
                    texts.len(),
                    |i: int| EntryView::Read { path: paths[i], text: texts[i] },
                ),
            ),
        ),
        forall|i: int|
            0 <= i < texts.len() ==> (file_trees(
                #[trigger] texts[i],
                SourceId((sources.len() + i) as u32),
            ) matches Ok(list) && without_includes(list)),
    ensures
        ({
            let expanded = expand_list(seq![directive], dir, files, depth, sources);
            &&& expanded.outcome == Ok::<Seq<DirectiveTree>, StopView>(
                all_trees(texts, sources.len()),
            )
            &&& expanded.sources == sources + Seq::new(
                texts.len(),
                |i: int|
                    SourceView {
                        id: SourceId((sources.len() + i) as u32),
                        path: Some(paths[i]),
                        base_dir: parent_of(paths[i]),
                        text: texts[i],
                        included_from: Some(
                            IncludeTrace {
                                parent: directive.span.source_id,
                                directive_span: directive.span,
                            },
                        ),
                    },
            )
        }),
{
    lemma_single(directive, dir, files, depth, sources);
    lemma_include_word();
    let pattern = pattern_in(directive.args[0].value, dir);
    lemma_entries_in_order(
        directive,
        pattern,
        files,
        (depth - 1) as nat,
        sources,
        paths,
        texts,
    );
}

proof fn lemma_entries_in_order(
    directive: DirectiveTree,
    pattern: Seq<u8>,
    files: Seq<(Seq<u8>, AnswerView)>,
    depth: nat,
    sources: Seq<SourceView>,
    paths: Seq<Seq<u8>>,
    texts: Seq<Seq<char>>,
)
    requires
        paths.len() == texts.len(),
        forall|i: int|
            0 <= i < texts.len() ==> (file_trees(
                #[trigger] texts[i],
                SourceId((sources.len() + i) as u32),
            ) matches Ok(list) && without_includes(list)),
    ensures
        ({
            let entries = Seq::new(
                texts.len(),
                |i: int| EntryView::Read { path: paths[i], text: texts[i] },
            );
            let expanded = expand_entries(directive, pattern, entries, files, depth, sources);
            &&& expanded.outcome == Ok::<Seq<DirectiveTree>, StopView>(
                all_trees(texts, sources.len()),
            )
            &&& expanded.sources == sources + Seq::new(
                texts.len(),
                |i: int|
                    included_source(
                        SourceId((sources.len() + i) as u32),
                        directive,
                        paths[i],
                        texts[i],
                    ),
            )
        }),
    decreases texts.len(),
{
    let entries = Seq::new(
        texts.len(),
        |i: int| EntryView::Read { path: paths[i], text: texts[i] },
    );
    let added = Seq::new(
        texts.len(),
        |i: int|
            included_source(SourceId((sources.len() + i) as u32), directive, paths[i], texts[i]),
    );
    let expanded = expand_entries(directive, pattern, entries, files, depth, sources);
    if texts.len() == 0 {
        assert(expanded.sources =~= sources + added);
        assert(all_trees(texts, sources.len()) =~= Seq::empty());
    } else {
        let init = texts.drop_last();
        let before_paths = paths.drop_last();
        assert forall|i: int| 0 <= i < init.len() implies (file_trees(
            #[trigger] init[i],
            SourceId((sources.len() + i) as u32),
        ) matches Ok(list) && without_includes(list)) by {
            assert(init[i] == texts[i]);
        }
        lemma_entries_in_order(directive, pattern, files, depth, sources, before_paths, init);
        let earlier = Seq::new(
            init.len(),
            |i: int| EntryView::Read { path: before_paths[i], text: init[i] },
        );
        assert(entries.drop_last() =~= earlier);
        let before = expand_entries(directive, pattern, earlier, files, depth, sources);
        let shorter = Seq::new(
            init.len(),
            |i: int|
                included_source(
                    SourceId((sources.len() + i) as u32),
                    directive,
                    before_paths[i],
                    init[i],
                ),
        );
        assert(before.sources == sources + shorter);
        let last = texts.len() - 1;
        let id = SourceId((sources.len() + last) as u32);
        assert(before.sources.len() == sources.len() + last);
        assert(file_trees(texts[last], id) is Ok);
        let list = file_trees(texts[last], id)->Ok_0;
        let more = before.sources.push(included_source(id, directive, paths[last], texts[last]));
        plain_directives_stay(list, parent_of(paths[last]), files, depth, more);
        assert(entries.last() == EntryView::Read { path: paths[last], text: texts[last] });
        assert(more =~= sources + added);
    }
}

/// A pattern that found nothing is replaced by nothing; one that means nothing, was not looked up, or
/// found a file that cannot be read stops the expansion with what was said of it.
pub proof fn includes_fail_for_a_reason(
    directive: DirectiveTree,
    dir: Option<Seq<u8>>,
    files: Seq<(Seq<u8>, AnswerView)>,
    depth: nat,
    sources: Seq<SourceView>,
)
    requires
        directive.name.value == seq!['i', 'n', 'c', 'l', 'u', 'd', 'e'],
        depth > 0,
    ensures
        ({
            let expanded = expand_list(seq![directive], dir, files, depth, sources);
            let pattern = match dir {
                Some(dir) => joined(dir, encode_utf8(directive.args[0].value)),
                None => encode_utf8(directive.args[0].value),
            };
            if directive.body is Block {
                expanded.outcome matches Err(StopView::InvalidShape { span }) && span
                    == directive.span
            } else if directive.args.len() != 1 {
                expanded.outcome matches Err(StopView::InvalidArgumentCount { span, count }) && span
                    == directive.span && count == directive.args.len()
            } else {
                match first_answer(files, pattern) {
                    None => expanded.outcome matches Err(StopView::Unresolved { span, pattern: wanted })
                        && span == directive.args[0].span && wanted == pattern,
                    Some(AnswerView::BadPattern { reason }) => expanded.outcome matches Err(
                        StopView::GlobPattern { span, pattern: bad, reason: told },
                    ) && span == directive.args[0].span && bad == pattern && told == reason,
                    Some(AnswerView::Entries(entries)) => {
                        &&& entries.len() == 0 ==> expanded.sources == sources && expanded.outcome == Ok::<
                            Seq<DirectiveTree>,
                            StopView,
                        >(seq![])
                        &&& entries.len() > 0 && (entries[0] matches EntryView::Failed { .. })
                            ==> expanded.outcome is Err
                        &&& entries.len() > 0 && (entries[0] matches EntryView::Unreadable { .. })
                            ==> expanded.outcome is Err
                    },
                }
            }
        }),
{
    lemma_single(directive, dir, files, depth, sources);
    lemma_include_word();
    if let Ok(entries) = included_entries(directive, dir, files) {
        let pattern = pattern_in(directive.args[0].value, dir);
        let nested = (depth - 1) as nat;
        if entries.len() > 0 && !(entries[0] is Read) {
            lemma_first_entry_stops(directive, pattern, entries, files, nested, sources);
        }
    }
}

proof fn lemma_first_entry_stops(
    directive: DirectiveTree,
    pattern: Seq<u8>,
    entries: Seq<EntryView>,
    files: Seq<(Seq<u8>, AnswerView)>,
    depth: nat,
    sources: Seq<SourceView>,
)
    requires
        entries.len() > 0,
        !(entries[0] is Read),
    ensures
        expand_entries(directive, pattern, entries, files, depth, sources).outcome is Err,
    decreases entries.len(),
{
    let init = entries.drop_last();
    if init.len() > 0 {
        assert(init[0] == entries[0]);
        lemma_first_entry_stops(directive, pattern, init, files, depth, sources);
    } else {
        assert(entries.last() == entries[0]);
    }
}

} // verus!
