//! Source texts and positions in them.
use vstd::prelude::*;
use vstd::string::*;
use vstd::utf8::*;

use crate::mark::new_mark;
use crate::number::{decimal, push_decimal};
use crate::parse::domain::{ConfigDocumentId, ConfigSourceSpan};
use crate::path::{parent_of, path_view, UnixPath};

verus! {

/// Names one source text of a [`SourceMap`].
#[derive(Debug, Clone, Copy, PartialEq, Eq, Hash, Structural)]
pub struct SourceId(pub u32);

impl SourceId {
    /// How a source is named in messages.
    pub open spec fn text(self) -> Seq<char> {
        "source:"@ + decimal(self.0 as nat)
    }

    /// How a source is named in messages.
    pub fn to_text(&self) -> (text: String)
        ensures
            text@ == self.text(),
    {
        let mut text = "source:".to_owned();
        push_decimal(&mut text, self.0 as u64);
        text
    }
}

/// A range of bytes in one source text.
#[derive(Debug, Clone, Copy, PartialEq, Eq, Hash, Structural)]
pub struct SourceSpan {
    pub source_id: SourceId,
    pub start: usize,
    pub end: usize,
}

impl SourceSpan {
    pub fn new(source_id: SourceId, start: usize, end: usize) -> (span: Self)
        ensures
            span == (SourceSpan { source_id, start, end }),
    {
        SourceSpan { source_id, start, end }
    }

    pub fn is_empty(&self) -> (empty: bool)
        ensures
            empty == (self.start == self.end),
    {
        self.start == self.end
    }
}

/// The place from which a source text was pulled in.
#[derive(Debug, Clone, Copy, PartialEq, Eq, Structural)]
pub struct IncludeTrace {
    pub parent: SourceId,
    pub directive_span: SourceSpan,
}

/// A source text with what is known of where it came from.
#[derive(Debug)]
pub struct SourceFile {
    pub id: SourceId,
    pub path: Option<UnixPath>,
    pub base_dir: Option<UnixPath>,
    pub text: String,
    pub line_starts: Vec<usize>,
    pub included_from: Option<IncludeTrace>,
}

/// A line and a column, both counted from one; the column counts bytes.
#[derive(Debug, Clone, Copy, PartialEq, Eq, Structural)]
pub struct LineColumn {
    pub line: usize,
    pub column: usize,
}

/// The source texts of one document. A [`SourceId`] is the index of its text.
#[derive(Debug)]
pub struct SourceMap {
    sources: Vec<SourceFile>,
}

/// Where the lines of a text begin: at its start and behind each line feed, in order.
pub open spec fn are_line_starts(bytes: Seq<u8>, starts: Seq<usize>) -> bool {
    &&& starts.len() > 0
    &&& starts[0] == 0
    &&& forall|i: int, j: int| 0 <= i < j < starts.len() ==> starts[i] < starts[j]
    &&& forall|i: int|
        0 < i < starts.len() ==> 0 < #[trigger] starts[i] <= bytes.len() && bytes[starts[i] - 1]
            == 10
    &&& forall|k: int|
        0 <= k < bytes.len() && #[trigger] bytes[k] == 10 ==> starts.contains((k + 1) as usize)
}

impl SourceFile {
    /// The bytes of the text.
    pub open spec fn bytes(self) -> Seq<u8> {
        encode_utf8(self.text@)
    }

    /// The line table belongs to the text.
    pub open spec fn wf(self) -> bool {
        are_line_starts(self.bytes(), self.line_starts@)
    }

    /// The index of the line that holds the byte at `at`: the last line that begins at or
    /// before it.
    pub open spec fn is_line_of(self, at: usize, index: int) -> bool {
        &&& 0 <= index < self.line_starts@.len()
        &&& self.line_starts@[index] <= at
        &&& index + 1 < self.line_starts@.len() ==> at < self.line_starts@[index + 1]
    }

    /// The line and the column of the byte at `at`.
    pub open spec fn is_position(self, at: usize, position: LineColumn) -> bool {
        &&& self.is_line_of(at, position.line - 1)
        &&& position.column == (if at - self.line_starts@[position.line - 1] < usize::MAX {
            at - self.line_starts@[position.line - 1] + 1
        } else {
            usize::MAX as int
        })
    }

    /// Where the line after the one with the given index begins, or the end of the text.
    pub open spec fn line_end(self, index: int) -> int {
        if index + 1 < self.line_starts@.len() {
            self.line_starts@[index + 1] as int
        } else {
            self.bytes().len() as int
        }
    }

    /// The bytes of a line, without the line end.
    pub open spec fn line_bytes(self, index: int) -> Seq<u8> {
        trim_line_end(self.bytes().subrange(self.line_starts@[index] as int, self.line_end(index)))
    }

    /// The text of the line that holds the byte at `at`.
    pub open spec fn is_line_text(self, at: usize, line: Seq<char>) -> bool {
        exists|index: int|
            self.is_line_of(at, index) && encode_utf8(line) == #[trigger] self.line_bytes(index)
    }
}

/// A line without the carriage returns and line feeds at its end.
pub open spec fn trim_line_end(line: Seq<u8>) -> Seq<u8>
    decreases line.len(),
{
    if line.len() > 0 && (line.last() == 10 || line.last() == 13) {
        trim_line_end(line.drop_last())
    } else {
        line
    }
}

impl View for SourceMap {
    type V = Seq<SourceFile>;

    closed spec fn view(&self) -> Seq<SourceFile> {
        self.sources@
    }
}

/// Where the lines of `text` begin.
fn line_starts(text: &str) -> (starts: Vec<usize>)
    ensures
        are_line_starts(encode_utf8(text@), starts@),
{
    let bytes = text.as_bytes();
    let mut starts: Vec<usize> = Vec::new();
    starts.push(0);
    let mut i: usize = 0;
    while i < bytes.len()
        invariant
            i <= bytes@.len(),
            starts@.len() > 0,
            starts@[0] == 0,
            forall|a: int, b: int| 0 <= a < b < starts@.len() ==> starts@[a] < starts@[b],
            forall|a: int| 0 <= a < starts@.len() ==> #[trigger] starts@[a] <= i,
            forall|a: int|
                0 < a < starts@.len() ==> 0 < #[trigger] starts@[a] <= bytes@.len()
                    && bytes@[starts@[a] - 1] == 10,
            forall|k: int|
                0 <= k < i && #[trigger] bytes@[k] == 10 ==> starts@.contains((k + 1) as usize),
        decreases bytes@.len() - i,
    {
        let ghost before = starts@;
        if bytes[i] == 10 {
            starts.push(i + 1);
            assert(starts@.last() == i + 1);
            assert(starts@.contains((i + 1) as usize));
            assert forall|k: int| 0 <= k < i && #[trigger] bytes@[k] == 10 implies starts@.contains(
                (k + 1) as usize,
            ) by {
                let j = choose|j: int| 0 <= j < before.len() && before[j] == (k + 1) as usize;
                assert(starts@[j] == before[j]);
            }
        }
        i += 1;
    }
    starts
}

proof fn lemma_line_boundary(bytes: Seq<u8>, at: int)
    requires
        valid_utf8(bytes),
        0 < at <= bytes.len(),
        bytes[at - 1] == 10,
    ensures
        is_char_boundary(bytes, at),
{
    broadcast use group_utf8_lib;

    is_char_boundary_iff_not_is_continuation_byte(bytes, at - 1);
    utf8_byte_ranges_bitwise(bytes[at - 1]);
    assert(is_char_boundary(bytes, at - 1));
    if at < bytes.len() {
        valid_utf8_split(bytes, at - 1);
        let rest = bytes.subrange(at - 1, bytes.len() as int);
        assert(valid_utf8(rest));
        assert(rest[0] == 10);
        assert(is_leading_byte_width_1(10)) by (bit_vector);
        assert(length_of_first_scalar(rest) == 1);
        let tail = pop_first_scalar(rest);
        assert(valid_utf8(tail));
        assert(tail[0] == bytes[at]);
        assert(valid_first_scalar(tail));
        is_char_boundary_iff_is_leading_byte(bytes, at);
    } else {
        is_char_boundary_start_end_of_seq(bytes);
    }
}

proof fn lemma_ascii_end_boundary(bytes: Seq<u8>)
    requires
        valid_utf8(bytes),
        bytes.len() > 0,
        bytes.last() == 10 || bytes.last() == 13,
    ensures
        is_char_boundary(bytes, bytes.len() - 1),
{
    broadcast use group_utf8_lib;

    is_char_boundary_iff_not_is_continuation_byte(bytes, bytes.len() - 1);
    utf8_byte_ranges_bitwise(bytes.last());
}

/// Whether one source holds what another does.
pub open spec fn same_source(copy: SourceFile, file: SourceFile) -> bool {
    &&& copy.id == file.id
    &&& path_view(copy.path) == path_view(file.path)
    &&& path_view(copy.base_dir) == path_view(file.base_dir)
    &&& copy.text@ == file.text@
    &&& copy.line_starts@ == file.line_starts@
    &&& copy.included_from == file.included_from
}

/// Whether some sources hold what others do.
pub open spec fn same_sources(copy: Seq<SourceFile>, files: Seq<SourceFile>) -> bool {
    copy.len() == files.len() && forall|i: int|
        0 <= i < files.len() ==> same_source(#[trigger] copy[i], files[i])
}

fn copy_path(path: &Option<UnixPath>) -> (copy: Option<UnixPath>)
    ensures
        path_view(copy) == path_view(*path),
{
    match path {
        Some(path) => Some(path.clone()),
        None => None,
    }
}

impl Clone for SourceFile {
    fn clone(&self) -> (copy: Self)
        ensures
            same_source(copy, *self),
    {
        let mut line_starts: Vec<usize> = Vec::new();
        let mut i: usize = 0;
        while i < self.line_starts.len()
            invariant
                i <= self.line_starts@.len(),
                line_starts@ == self.line_starts@.take(i as int),
            decreases self.line_starts@.len() - i,
        {
            line_starts.push(self.line_starts[i]);
            assert(self.line_starts@.take(i + 1) =~= self.line_starts@.take(i as int).push(
                self.line_starts@[i as int],
            ));
            i += 1;
        }
        assert(self.line_starts@.take(i as int) =~= self.line_starts@);
        SourceFile {
            id: self.id,
            path: copy_path(&self.path),
            base_dir: copy_path(&self.base_dir),
            text: self.text.clone(),
            line_starts,
            included_from: self.included_from,
        }
    }
}

impl Clone for SourceMap {
    fn clone(&self) -> (copy: Self)
        ensures
            same_sources(copy@, self@),
            self.wf() ==> copy.wf(),
    {
        let mut sources: Vec<SourceFile> = Vec::new();
        let mut i: usize = 0;
        while i < self.sources.len()
            invariant
                i <= self.sources@.len(),
                sources@.len() == i,
                forall|k: int|
                    0 <= k < i ==> same_source(#[trigger] sources@[k], self.sources@[k]),
            decreases self.sources@.len() - i,
        {
            sources.push(self.sources[i].clone());
            i += 1;
        }
        let copy = SourceMap { sources };
        proof {
            if self.wf() {
                assert forall|k: int| 0 <= k < copy@.len() implies (#[trigger] copy@[k]).wf() by {
                    assert(same_source(sources@[k], self.sources@[k]));
                    assert(self@[k].wf());
                }
            }
        }
        copy
    }
}

impl Default for SourceMap {
    fn default() -> (sources: Self)
        ensures
            sources@ == Seq::<SourceFile>::empty(),
    {
        SourceMap { sources: Vec::new() }
    }
}

impl SourceMap {
    /// Every file's line table belongs to its text.
    pub open spec fn wf(self) -> bool {
        forall|i: int| 0 <= i < self@.len() ==> (#[trigger] self@[i]).wf()
    }

    /// The source that an identifier names.
    pub open spec fn source(self, id: SourceId) -> Option<SourceFile> {
        if (id.0 as int) < self@.len() {
            Some(self@[id.0 as int])
        } else {
            None
        }
    }

    /// Adds a source. Its base directory is the given one or, without one, the directory of its
    /// path.
    pub fn add_source(
        &mut self,
        path: Option<UnixPath>,
        text: String,
        base_dir: Option<UnixPath>,
        included_from: Option<IncludeTrace>,
    ) -> (id: SourceId)
        ensures
            id.0 == old(self)@.len() as u32,
            final(self)@.len() == old(self)@.len() + 1,
            final(self)@.drop_last() == old(self)@,
            final(self)@.last().id == id,
            final(self)@.last().path == path,
            path_view(final(self)@.last().base_dir) == (match (base_dir, path) {
                (Some(dir), _) => Some(dir@),
                (None, Some(path)) => parent_of(path@),
                (None, None) => None,
            }),
            final(self)@.last().text == text,
            final(self)@.last().included_from == included_from,
            final(self)@.last().wf(),
            old(self).wf() ==> final(self).wf(),
    {
        let ghost before = self.sources@;
        let id = SourceId(
            #[verifier::truncate]
            (self.sources.len() as u32),
        );
        let starts = line_starts(text.as_str());
        let base: Option<UnixPath> = match base_dir {
            Some(dir) => Some(dir),
            None => match &path {
                Some(path) => path.parent(),
                None => None,
            },
        };
        self.sources.push(
            SourceFile { id, path, base_dir: base, text, line_starts: starts, included_from },
        );
        assert(self.sources@.drop_last() =~= before);
        assert(old(self).wf() ==> self.wf()) by {
            if old(self).wf() {
                assert forall|i: int| 0 <= i < self@.len() implies (#[trigger] self@[i]).wf() by {
                    if i < before.len() {
                        assert(old(self)@[i].wf());
                    }
                }
            }
        }
        id
    }

    /// How many sources there are.
    pub fn count(&self) -> (count: usize)
        ensures
            count == self@.len(),
    {
        self.sources.len()
    }

    pub fn get(&self, id: SourceId) -> (source: Option<&SourceFile>)
        ensures
            match source {
                Some(file) => self.source(id) == Some(*file),
                None => self.source(id) is None,
            },
    {
        let index: u64 = id.0 as u64;
        if index < self.sources.len() as u64 {
            Some(&self.sources[index as usize])
        } else {
            None
        }
    }

    /// The base directory of the source that holds `span`.
    pub fn base_dir_for_span(&self, span: SourceSpan) -> (dir: Option<&UnixPath>)
        ensures
            match dir {
                Some(dir) => self.source(span.source_id) matches Some(file) && file.base_dir
                    == Some(*dir),
                None => self.source(span.source_id) matches Some(file) ==> file.base_dir is None,
            },
    {
        match self.get(span.source_id) {
            Some(source) => source.base_dir.as_ref(),
            None => None,
        }
    }

    /// The line and the column at which `span` begins. A column that does not fit is given as
    /// the largest one.
    pub fn line_column(&self, span: SourceSpan) -> (position: Option<LineColumn>)
        requires
            self.wf(),
        ensures
            match position {
                Some(position) => self.source(span.source_id) matches Some(file)
                    && file.is_position(span.start, position),
                None => self.source(span.source_id) is None,
            },
    {
        match self.get(span.source_id) {
            None => None,
            Some(source) => {
                assert(self@[span.source_id.0 as int].wf());
                let count = source.line_starts.len();
                let index = line_index(&source.line_starts, span.start);
                assert(index < count);
                let line_start = source.line_starts[index];
                Some(
                    LineColumn {
                        line: index + 1,
                        column: (span.start - line_start).saturating_add(1),
                    },
                )
            },
        }
    }

    /// The text of the line at which `span` begins, without its line end.
    pub fn line_text(&self, span: SourceSpan) -> (line: Option<&str>)
        requires
            self.wf(),
        ensures
            match line {
                Some(line) => self.source(span.source_id) matches Some(file) && file.is_line_text(
                    span.start,
                    line@,
                ),
                None => self.source(span.source_id) is None,
            },
    {
        match self.get(span.source_id) {
            None => None,
            Some(source) => {
                let ghost file = *source;
                assert(self@[span.source_id.0 as int].wf());
                let index = line_index(&source.line_starts, span.start);
                let count = source.line_starts.len();
                assert(index < count);
                let text = source.text.as_str();
                let start = source.line_starts[index];
                let end: usize = if index + 1 < count {
                    source.line_starts[index + 1]
                } else {
                    text.as_bytes().len()
                };
                let ghost bytes = file.bytes();
                proof {
                    encode_utf8_valid_utf8(text@);
                    is_char_boundary_start_end_of_seq(bytes);
                    if index > 0 {
                        lemma_line_boundary(bytes, start as int);
                    }
                    if index + 1 < file.line_starts@.len() {
                        lemma_line_boundary(bytes, end as int);
                    }
                }
                assert(text.spec_bytes() == bytes);
                let (head, _) = text.split_at(end);
                proof {
                    valid_utf8_split(bytes, end as int);
                    encode_utf8_valid_utf8(head@);
                    if index > 0 {
                        assert(head.spec_bytes()[start - 1] == bytes[start - 1]);
                        lemma_line_boundary(head.spec_bytes(), start as int);
                    } else {
                        is_char_boundary_start_end_of_seq(head.spec_bytes());
                    }
                }
                let (_, line) = head.split_at(start);
                assert(line.spec_bytes() =~= bytes.subrange(start as int, end as int));
                let line = trim_line(line);
                assert(file.is_line_of(span.start, index as int));
                assert(encode_utf8(line@) == file.line_bytes(index as int));
                Some(line)
            },
        }
    }

    /// The path of the source that holds `span`.
    pub fn path_for_span(&self, span: SourceSpan) -> (path: Option<&UnixPath>)
        ensures
            match path {
                Some(path) => self.source(span.source_id) matches Some(file) && file.path == Some(
                    *path,
                ),
                None => self.source(span.source_id) matches Some(file) ==> file.path is None,
            },
    {
        match self.get(span.source_id) {
            Some(source) => source.path.as_ref(),
            None => None,
        }
    }
}

/// A line without the carriage returns and line feeds at its end.
fn trim_line<'a>(line: &'a str) -> (trimmed: &'a str)
    ensures
        encode_utf8(trimmed@) == trim_line_end(encode_utf8(line@)),
{
    let mut rest: &'a str = line;
    loop
        invariant
            trim_line_end(encode_utf8(line@)) == trim_line_end(encode_utf8(rest@)),
        decreases encode_utf8(rest@).len(),
    {
        let bytes = rest.as_bytes();
        let len = bytes.len();
        if len > 0 && (bytes[len - 1] == 10 || bytes[len - 1] == 13) {
            proof {
                encode_utf8_valid_utf8(rest@);
                lemma_ascii_end_boundary(encode_utf8(rest@));
            }
            let (shorter, _) = rest.split_at(len - 1);
            assert(shorter.spec_bytes() =~= rest.spec_bytes().drop_last());
            rest = shorter;
        } else {
            return rest;
        }
    }
}

/// The index of the last line that begins at or before `at`, by halving.
fn line_index(starts: &Vec<usize>, at: usize) -> (index: usize)
    requires
        starts@.len() > 0,
        starts@[0] == 0,
        forall|i: int, j: int| 0 <= i < j < starts@.len() ==> starts@[i] < starts@[j],
    ensures
        index < starts@.len(),
        starts@[index as int] <= at,
        index + 1 < starts@.len() ==> at < starts@[index + 1],
{
    let mut low: usize = 0;
    let mut high: usize = starts.len();
    while high - low > 1
        invariant
            low < high <= starts@.len(),
            starts@[low as int] <= at,
            high < starts@.len() ==> at < starts@[high as int],
            forall|i: int, j: int| 0 <= i < j < starts@.len() ==> starts@[i] < starts@[j],
        decreases high - low,
    {
        let middle: usize = low + (high - low) / 2;
        if starts[middle] <= at {
            low = middle;
        } else {
            high = middle;
        }
    }
    low
}

/// The sources of one document, under the document's identity.
#[derive(Debug)]
pub struct ConfigDocumentSourceMap {
    document_id: ConfigDocumentId,
    source_map: SourceMap,
    mark: u64,
}

impl ConfigDocumentSourceMap {
    /// The document.
    pub closed spec fn document(self) -> ConfigDocumentId {
        self.document_id
    }

    /// Its sources.
    pub closed spec fn sources(self) -> SourceMap {
        self.source_map
    }

    /// What tells it apart from the sources of other documents, whoever read them.
    pub closed spec fn mark(self) -> u64 {
        self.mark
    }

    pub fn new(document_id: ConfigDocumentId, source_map: SourceMap) -> (sources: Self)
        ensures
            sources.document() == document_id,
            sources.sources() == source_map,
    {
        ConfigDocumentSourceMap { document_id, source_map, mark: new_mark() }
    }

    /// Whether this is the very source map that the other one is.
    pub fn is_same(&self, other: &ConfigDocumentSourceMap) -> (same: bool)
        ensures
            same == (self.mark() == other.mark()),
    {
        self.mark == other.mark
    }

    pub fn document_id(&self) -> (id: ConfigDocumentId)
        ensures
            id == self.document(),
    {
        self.document_id
    }

    /// A span of this document.
    pub fn config_span(&self, span: SourceSpan) -> (full: ConfigSourceSpan)
        ensures
            full == ConfigSourceSpan::of(self.document(), span),
    {
        ConfigSourceSpan::new(self.document_id, span)
    }

    pub fn source_map(&self) -> (sources: &SourceMap)
        ensures
            *sources == self.sources(),
    {
        &self.source_map
    }

    pub fn into_source_map(self) -> (sources: SourceMap)
        ensures
            sources == self.sources(),
    {
        self.source_map
    }
}

/// A line table determines the position of a byte: there is one line, and one column in it.
pub proof fn position_is_unique(file: SourceFile, at: usize, one: LineColumn, other: LineColumn)
    requires
        file.wf(),
        file.is_position(at, one),
        file.is_position(at, other),
    ensures
        one == other,
{
    let starts = file.line_starts@;
    if one.line < other.line {
        assert(starts[one.line as int] <= starts[other.line - 1]);
    } else if other.line < one.line {
        assert(starts[other.line as int] <= starts[one.line - 1]);
    }
}

/// Positions in one text come in the order of the bytes.
pub proof fn positions_are_ordered(
    file: SourceFile,
    first: usize,
    second: usize,
    one: LineColumn,
    other: LineColumn,
)
    requires
        file.wf(),
        first <= second,
        file.is_position(first, one),
        file.is_position(second, other),
    ensures
        one.line < other.line || (one.line == other.line && one.column <= other.column),
{
    let starts = file.line_starts@;
    if other.line < one.line {
        assert(starts[other.line as int] <= starts[one.line - 1]);
    }
}

/// A text begins in the first column of its first line. Behind a line feed the next line begins, in its
/// first column; behind any other byte the same line goes on, one column further.
pub proof fn positions_go_byte_by_byte(
    file: SourceFile,
    at: usize,
    next: usize,
    here: LineColumn,
    there: LineColumn,
)
    requires
        file.wf(),
        at < encode_utf8(file.text@).len(),
        next == at + 1,
        next < usize::MAX,
        file.is_position(at, here),
        file.is_position(next, there),
    ensures
        at == 0 ==> here.line == 1 && here.column == 1,
        encode_utf8(file.text@)[at as int] == 10 ==> there.line == here.line + 1 && there.column == 1,
        encode_utf8(file.text@)[at as int] != 10 ==> there.line == here.line && there.column
            == here.column + 1,
{
    let starts = file.line_starts@;
    let i = here.line - 1;
    let j = there.line - 1;
    if at == 0 {
        assert(i > 0 ==> starts[0] < starts[i]);
    }
    if file.bytes()[at as int] == 10 {
        assert(starts.contains((at + 1) as usize));
        let k = choose|k: int| 0 <= k < starts.len() && starts[k] == at + 1;
        assert(k > i) by {
            if k < i {
                assert(starts[k] < starts[i]);
            }
        }
        if i + 1 < k {
            assert(starts[i + 1] < starts[k]);
        }
        if j < k {
            assert(j + 1 < k ==> starts[j + 1] < starts[k]);
        }
        if k < j {
            assert(starts[k] < starts[j]);
        }
    } else {
        if i + 1 < starts.len() {
            assert(starts[i + 1] != at + 1);
        }
        if j < i {
            assert(j + 1 < i ==> starts[j + 1] < starts[i]);
        }
        if i < j {
            assert(i + 1 < j ==> starts[i + 1] < starts[j]);
        }
    }
}

} // verus!
