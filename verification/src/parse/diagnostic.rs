//! Errors shown at their place in the source text.
use vstd::prelude::*;
use vstd::utf8::*;

use crate::number::{decimal, push_decimal};
use crate::outside::{lossy_text, lossy_utf8};
use crate::parse::block::BuildTypedConfigError;
use crate::parse::config::position_in;
use crate::parse::error::{ConfigLoadFailure, LoadConfigError};
use crate::parse::grammar::ParseSyntaxError;
use crate::parse::inclusion::ResolveIncludeError;
use crate::parse::source::{
    position_is_unique, IncludeTrace, LineColumn, SourceFile, SourceId, SourceMap, SourceSpan,
};
use crate::text::{push_char, push_str};

verus! {

/// An error that may have a place in a source text.
pub trait Located {
    /// The place.
    spec fn place(&self) -> Option<SourceSpan>;

    /// The place.
    fn find_span(&self) -> (span: Option<SourceSpan>)
        ensures
            span == self.place(),
    ;
}

impl Located for ParseSyntaxError {
    open spec fn place(&self) -> Option<SourceSpan> {
        Some(self->Syntax_span)
    }

    fn find_span(&self) -> (span: Option<SourceSpan>) {
        match self {
            ParseSyntaxError::Syntax { span, .. } => Some(*span),
        }
    }
}

impl Located for BuildTypedConfigError {
    open spec fn place(&self) -> Option<SourceSpan> {
        Some(
            match *self {
                BuildTypedConfigError::UnknownDirective { span, .. } => span,
                BuildTypedConfigError::Shape { span, .. } => span,
                BuildTypedConfigError::Duplicate { duplicate, .. } => duplicate,
                BuildTypedConfigError::Directive { span, .. } => span,
                BuildTypedConfigError::Missing { span, .. } => span,
                BuildTypedConfigError::PishooCardinality { span } => span,
                BuildTypedConfigError::WorkerServer { span } => span,
                BuildTypedConfigError::ServerTlsPair { span } => span,
                BuildTypedConfigError::StandaloneTls { span } => span,
                BuildTypedConfigError::AmbiguousProfile { span } => span,
                BuildTypedConfigError::IdentityName { span } => span,
                BuildTypedConfigError::IdentityTls { span } => span,
                BuildTypedConfigError::ProxyTlsPair { span } => span,
                BuildTypedConfigError::RegexProxyUri { span } => span,
                BuildTypedConfigError::DirectDefaultAccessLog { span } => span,
                BuildTypedConfigError::AccessLogArgument { span } => span,
                BuildTypedConfigError::ForwardListen { span } => span,
            },
        )
    }

    fn find_span(&self) -> (span: Option<SourceSpan>) {
        Some(
            match self {
                BuildTypedConfigError::UnknownDirective { span, .. } => *span,
                BuildTypedConfigError::Shape { span, .. } => *span,
                BuildTypedConfigError::Duplicate { duplicate, .. } => *duplicate,
                BuildTypedConfigError::Directive { span, .. } => *span,
                BuildTypedConfigError::Missing { span, .. } => *span,
                BuildTypedConfigError::PishooCardinality { span } => *span,
                BuildTypedConfigError::WorkerServer { span } => *span,
                BuildTypedConfigError::ServerTlsPair { span } => *span,
                BuildTypedConfigError::StandaloneTls { span } => *span,
                BuildTypedConfigError::AmbiguousProfile { span } => *span,
                BuildTypedConfigError::IdentityName { span } => *span,
                BuildTypedConfigError::IdentityTls { span } => *span,
                BuildTypedConfigError::ProxyTlsPair { span } => *span,
                BuildTypedConfigError::RegexProxyUri { span } => *span,
                BuildTypedConfigError::DirectDefaultAccessLog { span } => *span,
                BuildTypedConfigError::AccessLogArgument { span } => *span,
                BuildTypedConfigError::ForwardListen { span } => *span,
            },
        )
    }
}

impl Located for ResolveIncludeError {
    open spec fn place(&self) -> Option<SourceSpan> {
        match *self {
            ResolveIncludeError::InvalidShape { span } => Some(span),
            ResolveIncludeError::InvalidArgumentCount { span, .. } => Some(span),
            ResolveIncludeError::GlobPattern { span, .. } => Some(span),
            ResolveIncludeError::GlobEntry { span, .. } => Some(span),
            ResolveIncludeError::ReadSource { span, .. } => Some(span),
            ResolveIncludeError::ParseSource { source, .. } => source.place(),
            ResolveIncludeError::Endless { span } => Some(span),
            ResolveIncludeError::Unresolved { span, .. } => Some(span),
        }
    }

    fn find_span(&self) -> (span: Option<SourceSpan>) {
        match self {
            ResolveIncludeError::InvalidShape { span } => Some(*span),
            ResolveIncludeError::InvalidArgumentCount { span, .. } => Some(*span),
            ResolveIncludeError::GlobPattern { span, .. } => Some(*span),
            ResolveIncludeError::GlobEntry { span, .. } => Some(*span),
            ResolveIncludeError::ReadSource { span, .. } => Some(*span),
            ResolveIncludeError::ParseSource { source, .. } => source.find_span(),
            ResolveIncludeError::Endless { span } => Some(*span),
            ResolveIncludeError::Unresolved { span, .. } => Some(*span),
        }
    }
}

impl Located for LoadConfigError {
    open spec fn place(&self) -> Option<SourceSpan> {
        match *self {
            LoadConfigError::ParseFile { source, .. } => source.place(),
            LoadConfigError::ResolveInclude { source } => source.place(),
            LoadConfigError::BuildTyped { source } => source.place(),
            _ => None,
        }
    }

    fn find_span(&self) -> (span: Option<SourceSpan>) {
        match self {
            LoadConfigError::ParseFile { source, .. } => source.find_span(),
            LoadConfigError::ResolveInclude { source } => source.find_span(),
            LoadConfigError::BuildTyped { source } => source.find_span(),
            _ => None,
        }
    }
}

/// `count` times the same character.
pub open spec fn repeated(c: char, count: nat) -> Seq<char> {
    Seq::new(count, |i: int| c)
}

/// A number, with spaces before it to fill three places.
pub open spec fn right_aligned(n: nat) -> Seq<char> {
    let digits = decimal(n);
    if digits.len() < 3 {
        repeated(' ', (3 - digits.len()) as nat) + digits
    } else {
        digits
    }
}

/// How many characters of a place are marked: at least one, at most eighty.
pub open spec fn caret_count(span: SourceSpan) -> nat {
    let size = span.end - span.start;
    if size < 1 {
        1
    } else if size > 80 {
        80
    } else {
        size as nat
    }
}

/// How a source is called.
pub open spec fn source_name(file: SourceFile, id: SourceId) -> Seq<char> {
    match file.path {
        Some(path) => lossy_utf8(path@),
        None => id.text(),
    }
}

/// A place as path, line and column.
pub open spec fn place_text(name: Seq<char>, position: LineColumn) -> Seq<char> {
    name + ":"@ + decimal(position.line as nat) + ":"@ + decimal(position.column as nat)
}

/// The text of the line that holds the byte at `at`.
pub open spec fn line_at(file: SourceFile, at: usize) -> Seq<char> {
    decode_utf8(file.line_bytes(position_in(file, at).line - 1))
}

/// A place with its line, marked below.
pub open spec fn rendered_span(sources: SourceMap, span: SourceSpan) -> Seq<char> {
    match sources.source(span.source_id) {
        None => "--> unknown source"@,
        Some(file) => {
            let position = position_in(file, span.start);
            "--> "@ + place_text(source_name(file, span.source_id), position) + "\n"@ + "   |\n"@
                + right_aligned(position.line as nat) + " | "@ + line_at(file, span.start) + "\n"@
                + "   | "@ + repeated(' ', (position.column - 1) as nat) + repeated(
                '^',
                caret_count(span),
            ) + "\n"@
        },
    }
}

/// The places from which a source was pulled in, the nearest first. As sources are pulled in from
/// earlier ones, there are no more than there are sources.
pub open spec fn rendered_chain(sources: SourceMap, trace: Option<IncludeTrace>, limit: nat) -> Seq<
    char,
>
    decreases limit,
{
    if limit == 0 {
        Seq::empty()
    } else {
        match trace {
            None => Seq::empty(),
            Some(trace) => match sources.source(trace.parent) {
                None => Seq::empty(),
                Some(parent) => {
                    let line = match sources.source(trace.directive_span.source_id) {
                        Some(file) => "included from "@ + place_text(
                            source_name(parent, trace.parent),
                            position_in(file, trace.directive_span.start),
                        ) + "\n"@,
                        None => Seq::empty(),
                    };
                    line + rendered_chain(sources, parent.included_from, (limit - 1) as nat)
                },
            },
        }
    }
}

/// How the source that holds a place was pulled in.
pub open spec fn include_chain(sources: SourceMap, span: SourceSpan) -> Seq<char> {
    match sources.source(span.source_id) {
        Some(file) => rendered_chain(sources, file.included_from, sources@.len()),
        None => Seq::empty(),
    }
}

/// An error at its place.
pub open spec fn rendered(place: Option<SourceSpan>, sources: SourceMap) -> Seq<char> {
    match place {
        Some(span) => rendered_span(sources, span) + include_chain(sources, span),
        None => "no source span available"@,
    }
}

/// An error with the sources that it is about.
pub struct Diagnostic<'a, E> {
    pub error: &'a E,
    pub source_map: &'a SourceMap,
}

impl<'a, E> Diagnostic<'a, E> {
    pub fn new(error: &'a E, source_map: &'a SourceMap) -> (diagnostic: Self)
        ensures
            diagnostic.error == error,
            diagnostic.source_map == source_map,
    {
        Diagnostic { error, source_map }
    }
}

impl ConfigLoadFailure {
    /// The failure, to be shown at its place.
    pub fn diagnostic(&self) -> (diagnostic: Diagnostic<'_, LoadConfigError>)
        ensures
            *diagnostic.error == self.error,
            *diagnostic.source_map == self.source_map,
    {
        Diagnostic::new(&self.error, &self.source_map)
    }
}

fn push_repeated(text: &mut String, c: char, count: usize)
    ensures
        final(text)@ == old(text)@ + repeated(c, count as nat),
{
    let ghost before = text@;
    let mut i: usize = 0;
    assert(before =~= before + repeated(c, 0));
    while i < count
        invariant
            i <= count,
            text@ == before + repeated(c, i as nat),
        decreases count - i,
    {
        push_char(text, c);
        assert(text@ =~= before + repeated(c, (i + 1) as nat));
        i += 1;
    }
}

/// The number of decimal digits, up to three.
proof fn lemma_digit_count(n: nat)
    ensures
        n < 10 ==> decimal(n).len() == 1,
        10 <= n < 100 ==> decimal(n).len() == 2,
        n >= 100 ==> decimal(n).len() >= 3,
    decreases n,
{
    reveal_with_fuel(decimal, 3);
    if n >= 100 {
        lemma_digit_count(n / 10);
    }
}

fn push_right_aligned(text: &mut String, n: usize)
    ensures
        final(text)@ == old(text)@ + right_aligned(n as nat),
{
    let ghost before = text@;
    proof {
        lemma_digit_count(n as nat);
    }
    if n < 10 {
        push_repeated(text, ' ', 2);
    } else if n < 100 {
        push_repeated(text, ' ', 1);
    }
    push_decimal(text, n as u64);
    assert(text@ =~= before + right_aligned(n as nat));
}

fn push_source_name(text: &mut String, file: &SourceFile, id: SourceId)
    ensures
        final(text)@ == old(text)@ + source_name(*file, id),
{
    match &file.path {
        Some(path) => {
            let name = lossy_text(path.bytes.as_slice());
            push_str(text, name.as_str());
        },
        None => {
            let name = id.to_text();
            push_str(text, name.as_str());
        },
    }
}

fn push_place(text: &mut String, file: &SourceFile, id: SourceId, position: LineColumn)
    ensures
        final(text)@ == old(text)@ + place_text(source_name(*file, id), position),
{
    let ghost before = text@;
    push_source_name(text, file, id);
    push_str(text, ":");
    push_decimal(text, position.line as u64);
    push_str(text, ":");
    push_decimal(text, position.column as u64);
    assert(text@ =~= before + place_text(source_name(*file, id), position));
}

/// The position of a byte is the one that a line table gives.
proof fn lemma_position(file: SourceFile, at: usize, position: LineColumn)
    requires
        file.wf(),
        file.is_position(at, position),
    ensures
        position == position_in(file, at),
{
    position_is_unique(file, at, position, position_in(file, at));
}

/// The text of a line is the one that its bytes spell.
proof fn lemma_line(file: SourceFile, at: usize, line: Seq<char>)
    requires
        file.wf(),
        file.is_position(at, position_in(file, at)),
        file.is_line_text(at, line),
    ensures
        line == line_at(file, at),
{
    let index = choose|index: int|
        file.is_line_of(at, index) && encode_utf8(line) == #[trigger] file.line_bytes(index);
    let position = position_in(file, at);
    let starts = file.line_starts@;
    if index < position.line - 1 {
        assert(starts[index + 1] <= starts[position.line - 1]);
    } else if position.line - 1 < index {
        assert(starts[position.line as int] <= starts[index]);
    }
    encode_utf8_decode_utf8(line);
}

fn carets(span: SourceSpan) -> (count: usize)
    ensures
        count == caret_count(span),
{
    if span.end <= span.start {
        1
    } else if span.end - span.start > 80 {
        80
    } else {
        span.end - span.start
    }
}

#[verifier::rlimit(60)]
#[verifier::spinoff_prover]
fn render_span(text: &mut String, source_map: &SourceMap, span: SourceSpan)
    requires
        source_map.wf(),
    ensures
        final(text)@ == old(text)@ + rendered_span(*source_map, span),
{
    let ghost before = text@;
    let source = match source_map.get(span.source_id) {
        Some(source) => source,
        None => {
            push_str(text, "--> unknown source");
            return;
        },
    };
    assert(source_map@[span.source_id.0 as int].wf());
    let ghost file = *source;
    match (source_map.line_column(span), source_map.line_text(span)) {
        (Some(position), Some(line)) => {
            proof {
                lemma_position(file, span.start, position);
                lemma_line(file, span.start, line@);
            }
            push_str(text, "--> ");
            push_place(text, source, span.source_id, position);
            push_str(text, "\n");
            push_str(text, "   |\n");
            push_right_aligned(text, position.line);
            push_str(text, " | ");
            push_str(text, line);
            push_str(text, "\n");
            push_str(text, "   | ");
            push_repeated(text, ' ', position.column - 1);
            push_repeated(text, '^', carets(span));
            push_str(text, "\n");
            assert(text@ =~= before + rendered_span(*source_map, span));
        },
        _ => {
            assert(false);
        },
    }
}

fn render_include_chain(text: &mut String, source_map: &SourceMap, span: SourceSpan)
    requires
        source_map.wf(),
    ensures
        final(text)@ == old(text)@ + include_chain(*source_map, span),
{
    let ghost before = text@;
    let mut current: Option<IncludeTrace> = match source_map.get(span.source_id) {
        Some(source) => source.included_from,
        None => {
            assert(text@ =~= before + include_chain(*source_map, span));
            return;
        },
    };
    let mut limit: usize = source_map.count();
    while limit > 0
        invariant
            source_map.wf(),
            before == old(text)@,
            before + include_chain(*source_map, span) == text@ + rendered_chain(
                *source_map,
                current,
                limit as nat,
            ),
        decreases limit,
    {
        let trace = match current {
            Some(trace) => trace,
            None => {
                assert(text@ =~= before + include_chain(*source_map, span));
                return;
            },
        };
        let parent = match source_map.get(trace.parent) {
            Some(parent) => parent,
            None => {
                assert(text@ =~= before + include_chain(*source_map, span));
                return;
            },
        };
        let ghost so_far = text@;
        let ghost rest = rendered_chain(*source_map, parent.included_from, (limit - 1) as nat);
        match source_map.line_column(trace.directive_span) {
            Some(position) => {
                proof {
                    let id = trace.directive_span.source_id;
                    assert(source_map@[id.0 as int].wf());
                    lemma_position(
                        source_map.source(id)->0,
                        trace.directive_span.start,
                        position,
                    );
                }
                push_str(text, "included from ");
                push_place(text, parent, trace.parent, position);
                push_str(text, "\n");
                assert(text@ + rest =~= so_far + ("included from "@ + place_text(
                    source_name(*parent, trace.parent),
                    position,
                ) + "\n"@ + rest));
            },
            None => {
                assert(text@ + rest =~= so_far + (Seq::<char>::empty() + rest));
            },
        }
        current = parent.included_from;
        limit -= 1;
    }
    assert(text@ =~= before + include_chain(*source_map, span));
}

impl<'a, E: Located> Diagnostic<'a, E> {
    /// The error at its place, as text.
    pub fn render(&self) -> (text: String)
        requires
            self.source_map.wf(),
        ensures
            text@ == rendered(self.error.place(), *self.source_map),
    {
        match self.error.find_span() {
            Some(span) => {
                let mut text = String::new();
                render_span(&mut text, self.source_map, span);
                render_include_chain(&mut text, self.source_map, span);
                text
            },
            None => "no source span available".to_owned(),
        }
    }
}

/// A place is marked from its first character on, as far as it goes, but at least once and at most
/// eighty times. The number of its line takes at least three characters.
pub proof fn places_are_marked_as_far_as_they_go(span: SourceSpan, line: nat)
    ensures
        1 <= caret_count(span) <= 80,
        1 <= span.end - span.start <= 80 ==> caret_count(span) == span.end - span.start,
        span.end <= span.start ==> caret_count(span) == 1,
        span.end - span.start > 80 ==> caret_count(span) == 80,
        right_aligned(line).len() >= 3,
        right_aligned(line).len() > 3 ==> right_aligned(line) == decimal(line),
        forall|i: int|
            0 <= i < right_aligned(line).len() - decimal(line).len() ==> #[trigger] right_aligned(
                line,
            )[i] == ' ',
        right_aligned(line).skip(right_aligned(line).len() - decimal(line).len()) == decimal(line),
{
    let digits = decimal(line);
    assert(digits.len() > 0);
    assert(right_aligned(line).skip(right_aligned(line).len() - digits.len()) =~= digits);
}

/// What is shown of a place names its source, its line and its column, shows the line, and marks the
/// place below it, as far from the left as its column says. Behind it stand the places from which its
/// source was pulled in.
pub proof fn places_are_shown_with_their_line(
    sources: SourceMap,
    span: SourceSpan,
    file: SourceFile,
    position: LineColumn,
)
    requires
        sources.source(span.source_id) == Some(file),
        file.wf(),
        file.is_position(span.start, position),
    ensures
        ({
            let name = match file.path {
                Some(path) => lossy_utf8(path@),
                None => span.source_id.text(),
            };
            let line = decode_utf8(file.line_bytes(position.line - 1));
            let head = seq!['-', '-', '>', ' '] + (name + seq![':'] + decimal(position.line as nat)
                + seq![':'] + decimal(position.column as nat)) + seq!['\n'];
            let bar = seq![' ', ' ', ' ', '|', '\n'];
            let shown = seq![' ', '|', ' '];
            let below = seq![' ', ' ', ' ', '|', ' '];
            rendered(Some(span), sources) == head + bar + right_aligned(position.line as nat)
                + shown + line + seq!['\n'] + below + Seq::new(
                (position.column - 1) as nat,
                |i: int| ' ',
            ) + Seq::new(caret_count(span), |i: int| '^') + seq!['\n'] + include_chain(
                sources,
                span,
            )
        }),
{
    position_is_unique(file, span.start, position, position_in(file, span.start));
    reveal_strlit("--> ");
    reveal_strlit(":");
    reveal_strlit("\n");
    reveal_strlit("   |\n");
    reveal_strlit(" | ");
    reveal_strlit("   | ");
    assert("--> "@ =~= seq!['-', '-', '>', ' ']);
    assert(":"@ =~= seq![':']);
    assert("\n"@ =~= seq!['\n']);
    assert("   |\n"@ =~= seq![' ', ' ', ' ', '|', '\n']);
    assert(" | "@ =~= seq![' ', '|', ' ']);
    assert("   | "@ =~= seq![' ', ' ', ' ', '|', ' ']);
    assert(repeated(' ', (position.column - 1) as nat) =~= Seq::new(
        (position.column - 1) as nat,
        |i: int| ' ',
    ));
    assert(repeated('^', caret_count(span)) =~= Seq::new(caret_count(span), |i: int| '^'));
}

} // verus!
