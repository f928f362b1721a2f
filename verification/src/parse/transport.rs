//! How what workers take over from the root is handed to them.
use vstd::prelude::*;
use vstd::utf8::{encode_utf8, encode_utf8_decode_utf8};

use crate::outside::{is_header_value, parse_url, text_view, url_of};
use crate::parse::cascade::{InheritedSourceLocation, LocationView, OneBased};
use crate::parse::config::{AccessLogDirective, AccessLogView};
use crate::parse::domain::{
    is_resolved, DirectiveName, ResolvedConfigPath, ResolvedConfigPathError,
};
use crate::parse::error::ConfigQueryError;
use crate::parse::snapshot::{
    InheritedOrigin, InheritedOriginView, InheritedValue, RootConfigSnapshot, RootInheritedConfigV1,
    SnapshotView,
};
use crate::parse::types::{
    distinct_extensions, has_empty, has_extension, is_access_rules, is_refused, lemma_mime_table,
    mime_check_goes_one_way, mime_checked, mime_entries, mime_entry_ok, mime_table, raw_entries,
    AccessRulesUri, AccessRulesUriValidationError, BoolConfig, DefaultType, GzipCompLevel,
    GzipMinLength, GzipTypesValidationError, InvalidHeaderValue, MimeTypes,
    MimeTypesValidationError, StringList,
};
use crate::parse::wire::{
    bytes_view, decoded_rules, decoded_types, holds_header_values, lists_types, log_ok,
    names_each_once, spelled_types_are_those_of_the_table, url_text,
};
use crate::path::UnixPath;
use crate::text::{
    bytes_before, bytes_to_vec, clone_strings, is_before, lemma_bytes_order,
    lemma_bytes_order_chains, push_str, str_eq, texts,
};

verus! {

/// Why what workers take over cannot be put together, handed over or used.
#[derive(Debug)]
#[allow(inconsistent_fields)]
pub enum RootConfigSnapshotError {
    SourcePath { path: UnixPath },
    SourceLocation { line: usize, column: usize },
    MissingSourceLocation,
    MissingFallback { directive: DirectiveName },
    Query { source: ConfigQueryError },
    AccessRules { source: AccessRulesUriValidationError },
    HeaderValue { source: InvalidHeaderValue },
    GzipTypes { source: GzipTypesValidationError },
    MimeTypes { source: MimeTypesValidationError },
    AbsolutePath { path: UnixPath },
    UnsupportedPathPlatform,
    ResolvedPath { source: ResolvedConfigPathError },
}

impl RootConfigSnapshotError {
    /// The message of this error.
    pub open spec fn text(self) -> Seq<char> {
        match self {
            RootConfigSnapshotError::SourcePath { .. } => "configuration source path must be absolute for root snapshot transport"@,
            RootConfigSnapshotError::SourceLocation { .. } => "configuration source location exceeds the root snapshot range"@,
            RootConfigSnapshotError::MissingSourceLocation => "root configuration value has no source location"@,
            RootConfigSnapshotError::MissingFallback { directive } => "required root snapshot fallback is missing for `"@ + directive.text() + "`"@,
            RootConfigSnapshotError::Query { .. } => "failed to query root configuration value"@,
            RootConfigSnapshotError::AccessRules { .. } => "invalid root snapshot access_rules value"@,
            RootConfigSnapshotError::HeaderValue { .. } => "invalid root snapshot header value"@,
            RootConfigSnapshotError::GzipTypes { .. } => "invalid root snapshot gzip_types value"@,
            RootConfigSnapshotError::MimeTypes { .. } => "invalid root snapshot MIME types value"@,
            RootConfigSnapshotError::AbsolutePath { .. } => "invalid root snapshot absolute path"@,
            RootConfigSnapshotError::UnsupportedPathPlatform => "root snapshot path transport requires a Unix host"@,
            RootConfigSnapshotError::ResolvedPath { .. } => "invalid resolved root snapshot path"@,
        }
    }

    /// The message of this error.
    pub fn message(&self) -> (text: String)
        ensures
            text@ == self.text(),
    {
        match self {
            RootConfigSnapshotError::SourcePath { .. } => "configuration source path must be absolute for root snapshot transport".to_owned(),
            RootConfigSnapshotError::SourceLocation { .. } => "configuration source location exceeds the root snapshot range".to_owned(),
            RootConfigSnapshotError::MissingSourceLocation => "root configuration value has no source location".to_owned(),
            RootConfigSnapshotError::MissingFallback { directive } => {
                let mut text = "required root snapshot fallback is missing for `".to_owned();
                let directive_text = directive.to_text();
                push_str(&mut text, directive_text.as_str());
                push_str(&mut text, "`");
                text
            },
            RootConfigSnapshotError::Query { .. } => "failed to query root configuration value".to_owned(),
            RootConfigSnapshotError::AccessRules { .. } => "invalid root snapshot access_rules value".to_owned(),
            RootConfigSnapshotError::HeaderValue { .. } => "invalid root snapshot header value".to_owned(),
            RootConfigSnapshotError::GzipTypes { .. } => "invalid root snapshot gzip_types value".to_owned(),
            RootConfigSnapshotError::MimeTypes { .. } => "invalid root snapshot MIME types value".to_owned(),
            RootConfigSnapshotError::AbsolutePath { .. } => "invalid root snapshot absolute path".to_owned(),
            RootConfigSnapshotError::UnsupportedPathPlatform => "root snapshot path transport requires a Unix host".to_owned(),
            RootConfigSnapshotError::ResolvedPath { .. } => "invalid resolved root snapshot path".to_owned(),
        }
    }

    /// The messages of this error and of what caused it, outermost first.
    pub open spec fn chain(self) -> Seq<Seq<char>> {
        match self {
            RootConfigSnapshotError::Query { source } => seq![self.text()] + source.chain(),
            RootConfigSnapshotError::AccessRules { source } => seq![self.text(), source.text()],
            RootConfigSnapshotError::HeaderValue { source } => seq![self.text(), source.text()],
            RootConfigSnapshotError::GzipTypes { source } => seq![self.text(), source.text()],
            RootConfigSnapshotError::MimeTypes { source } => seq![self.text()] + source.chain(),
            RootConfigSnapshotError::ResolvedPath { source } => seq![self.text(), source.text()],
            _ => seq![self.text()],
        }
    }

    /// The messages of this error and of what caused it, outermost first.
    pub fn messages(&self) -> (list: Vec<String>)
        ensures
            texts(list@) == self.chain(),
    {
        let mut list: Vec<String> = Vec::new();
        list.push(self.message());
        match self {
            RootConfigSnapshotError::Query { source } => {
                let mut causes = source.messages();
                let ghost head = list@;
                let ghost tail = causes@;
                list.append(&mut causes);
                assert(texts(list@) =~= texts(head) + texts(tail));
                assert(texts(head) =~= seq![self.text()]);
            },
            RootConfigSnapshotError::AccessRules { source } => {
                list.push(source.message());
            },
            RootConfigSnapshotError::HeaderValue { source } => {
                list.push(source.message());
            },
            RootConfigSnapshotError::GzipTypes { source } => {
                list.push(source.message());
            },
            RootConfigSnapshotError::MimeTypes { source } => {
                let mut causes = source.messages();
                let ghost head = list@;
                let ghost tail = causes@;
                list.append(&mut causes);
                assert(texts(list@) =~= texts(head) + texts(tail));
                assert(texts(head) =~= seq![self.text()]);
            },
            RootConfigSnapshotError::ResolvedPath { source } => {
                list.push(source.message());
            },
            _ => {},
        }
        assert(texts(list@) =~= self.chain());
        list
    }
}

/// Where the root has a value from.
#[derive(Debug)]
pub enum InheritedOriginV1 {
    Builtin,
    Source { document: Option<Vec<u8>>, line: OneBased, column: OneBased },
}

impl View for InheritedOriginV1 {
    type V = InheritedOriginView;

    open spec fn view(&self) -> InheritedOriginView {
        match *self {
            InheritedOriginV1::Builtin => InheritedOriginView::Builtin,
            InheritedOriginV1::Source { document, line, column } => InheritedOriginView::Source(
                LocationView { document: bytes_view(document), line: line@, column: column@ },
            ),
        }
    }
}

/// A value of the root.
#[derive(Debug)]
pub struct InheritedValueV1<W> {
    pub value: W,
    pub origin: InheritedOriginV1,
}

/// Where accesses are logged.
#[derive(Debug)]
pub enum AccessLogDirectiveV1 {
    Off,
    ProfileDefault,
    Resolved(Vec<u8>),
}

/// Where accesses are logged, as plain contents.
pub open spec fn wire_log(log: Option<AccessLogDirectiveV1>) -> Option<AccessLogView> {
    match log {
        None => None,
        Some(AccessLogDirectiveV1::Off) => Some(AccessLogView::Off),
        Some(AccessLogDirectiveV1::ProfileDefault) => Some(AccessLogView::ProfileDefault),
        Some(AccessLogDirectiveV1::Resolved(path)) => Some(AccessLogView::Resolved(path@)),
    }
}

/// What workers take over from the root, in its first form.
#[derive(Debug)]
pub struct RootInheritedConfigV1Wire {
    pub access_rules: InheritedValueV1<Option<String>>,
    pub gzip: InheritedValueV1<bool>,
    pub gzip_vary: InheritedValueV1<bool>,
    pub gzip_min_length: InheritedValueV1<u64>,
    pub gzip_comp_level: InheritedValueV1<i32>,
    pub gzip_types: InheritedValueV1<Option<Vec<String>>>,
    pub default_type: InheritedValueV1<Option<Vec<u8>>>,
    pub types: InheritedValueV1<Option<Vec<(String, Vec<u8>)>>>,
    pub access_log: InheritedValueV1<Option<AccessLogDirectiveV1>>,
}

/// What workers take over from the root.
#[derive(Debug)]
pub enum RootConfigSnapshotWire {
    V1(RootInheritedConfigV1Wire),
}

/// Whether a place can be handed over: its document has an absolute path, or none.
pub open spec fn origin_ok(origin: InheritedOriginView) -> bool {
    origin matches InheritedOriginView::Source(location) ==> (location.document matches Some(path)
        ==> is_resolved(path))
}

/// The error for a place that cannot be handed over.
pub open spec fn origin_error(origin: InheritedOriginView, error: RootConfigSnapshotError) -> bool {
    origin matches InheritedOriginView::Source(location) && (location.document matches Some(document)
        && (error matches RootConfigSnapshotError::AbsolutePath { path } && path@ == document))
}

/// The places of all fields.
pub open spec fn origins(snapshot: SnapshotView) -> Seq<InheritedOriginView> {
    seq![
        snapshot.access_rules.origin,
        snapshot.gzip.origin,
        snapshot.gzip_vary.origin,
        snapshot.gzip_min_length.origin,
        snapshot.gzip_comp_level.origin,
        snapshot.gzip_types.origin,
        snapshot.default_type.origin,
        snapshot.types.origin,
        snapshot.access_log.origin,
    ]
}

/// The places of all fields that were handed over.
pub open spec fn wire_origins(wire: RootInheritedConfigV1Wire) -> Seq<InheritedOriginView> {
    seq![
        wire.access_rules.origin@,
        wire.gzip.origin@,
        wire.gzip_vary.origin@,
        wire.gzip_min_length.origin@,
        wire.gzip_comp_level.origin@,
        wire.gzip_types.origin@,
        wire.default_type.origin@,
        wire.types.origin@,
        wire.access_log.origin@,
    ]
}

/// An optional list of strings.
pub open spec fn list_view(list: Option<Vec<String>>) -> Option<Seq<String>> {
    match list {
        Some(list) => Some(list@),
        None => None,
    }
}

/// Whether entries stand in the order of the bytes of their extensions.
pub open spec fn in_order(entries: Seq<(Seq<char>, Seq<u8>)>) -> bool {
    forall|i: int, j: int|
        0 <= i < j < entries.len() ==> bytes_before(
            encode_utf8((#[trigger] entries[i]).0),
            encode_utf8((#[trigger] entries[j]).0),
        )
}

/// Whether the values that are handed over as they are are those of the root.
pub open spec fn same_values(wire: RootInheritedConfigV1Wire, snapshot: SnapshotView) -> bool {
    &&& wire.gzip.value == snapshot.gzip.value
    &&& wire.gzip_vary.value == snapshot.gzip_vary.value
    &&& wire.gzip_min_length.value == snapshot.gzip_min_length.value
    &&& wire.gzip_comp_level.value == snapshot.gzip_comp_level.value
    &&& list_view(wire.gzip_types.value) == snapshot.gzip_types.value
    &&& bytes_view(wire.default_type.value) == snapshot.default_type.value
    &&& wire_log(wire.access_log.value) == snapshot.access_log.value
}

/// How the snapshot is handed over: the first place that cannot be handed over is the error.
pub open spec fn encodes_v1(
    snapshot: SnapshotView,
    result: Result<RootInheritedConfigV1Wire, RootConfigSnapshotError>,
) -> bool {
    match result {
        Ok(wire) => {
            &&& forall|i: int| 0 <= i < 9 ==> origin_ok(#[trigger] origins(snapshot)[i])
            &&& wire_origins(wire) == origins(snapshot)
            &&& same_values(wire, snapshot)
            &&& text_view(wire.access_rules.value) == url_text(snapshot.access_rules.value)
            &&& lists_types(wire.types.value, snapshot.types.value)
            &&& wire.types.value matches Some(list) ==> in_order(raw_entries(list@))
        },
        Err(error) => exists|at: int|
            {
                &&& 0 <= at < 9
                &&& forall|i: int| 0 <= i < at ==> origin_ok(#[trigger] origins(snapshot)[i])
                &&& !origin_ok(origins(snapshot)[at])
                &&& #[trigger] origin_error(origins(snapshot)[at], error)
            },
    }
}

/// Whether entries form a table.
pub open spec fn entries_ok(entries: Seq<(Seq<char>, Seq<u8>)>) -> bool {
    forall|i: int| 0 <= i < entries.len() ==> #[trigger] mime_entry_ok(entries, i)
}

/// Why entries do not form a table: an extension that occurs twice is looked for first.
pub open spec fn entries_error(
    entries: Seq<(Seq<char>, Seq<u8>)>,
    error: MimeTypesValidationError,
) -> bool {
    if distinct_extensions(entries) {
        mime_checked(entries, Err(error))
    } else {
        exists|at: int|
            {
                &&& 0 <= at < entries.len()
                &&& distinct_extensions(entries.take(at))
                &&& has_extension(entries, at, (#[trigger] entries[at]).0)
                &&& error matches MimeTypesValidationError::DuplicateExtension { extension }
                    && extension@ == entries[at].0
            }
    }
}

/// Whether the value of the field with the given index cannot be used.
pub open spec fn value_fault(wire: RootInheritedConfigV1Wire, at: int) -> bool {
    if at == 0 {
        wire.access_rules.value matches Some(text) && !(url_of(text@) matches Some(url)
            && is_access_rules(url))
    } else if at == 5 {
        wire.gzip_types.value matches Some(list) && has_empty(list@)
    } else if at == 6 {
        wire.default_type.value matches Some(bytes) && !is_header_value(bytes@)
    } else if at == 7 {
        wire.types.value matches Some(list) && !entries_ok(raw_entries(list@))
    } else if at == 8 {
        wire.access_log.value matches Some(AccessLogDirectiveV1::Resolved(path)) && !is_resolved(
            path@,
        )
    } else {
        false
    }
}

/// Why the value of the field with the given index cannot be used.
pub open spec fn value_error(
    wire: RootInheritedConfigV1Wire,
    at: int,
    error: RootConfigSnapshotError,
) -> bool {
    if at == 0 {
        error matches RootConfigSnapshotError::AccessRules { source } && (match url_of(
            (wire.access_rules.value->0)@,
        ) {
            None => source is UnsupportedSqliteForm,
            Some(url) => is_refused(url, source),
        })
    } else if at == 5 {
        error is GzipTypes
    } else if at == 6 {
        error is HeaderValue
    } else if at == 7 {
        error matches RootConfigSnapshotError::MimeTypes { source } && entries_error(
            raw_entries((wire.types.value->0)@),
            source,
        )
    } else {
        at == 8 && (error matches RootConfigSnapshotError::AbsolutePath { path } && (
        wire.access_log.value matches Some(AccessLogDirectiveV1::Resolved(given)) && path@
            == given@))
    }
}

/// Whether the field with the given index can be used.
pub open spec fn is_clean(wire: RootInheritedConfigV1Wire, at: int) -> bool {
    !value_fault(wire, at) && origin_ok(wire_origins(wire)[at])
}

/// Why the field with the given index cannot be used: its value is looked at first.
pub open spec fn field_error(
    wire: RootInheritedConfigV1Wire,
    at: int,
    error: RootConfigSnapshotError,
) -> bool {
    if value_fault(wire, at) {
        value_error(wire, at, error)
    } else {
        !origin_ok(wire_origins(wire)[at]) && origin_error(wire_origins(wire)[at], error)
    }
}

/// What comes of a snapshot that was handed over: the first field that cannot be used is the error.
pub open spec fn decodes_v1(
    wire: RootInheritedConfigV1Wire,
    result: Result<SnapshotView, RootConfigSnapshotError>,
) -> bool {
    match result {
        Ok(snapshot) => {
            &&& forall|i: int| 0 <= i < 9 ==> #[trigger] is_clean(wire, i)
            &&& origins(snapshot) == wire_origins(wire)
            &&& same_values(wire, snapshot)
            &&& snapshot.access_rules.value == decoded_rules(text_view(wire.access_rules.value))
            &&& snapshot.types.value == decoded_types(wire.types.value)
        },
        Err(error) => exists|at: int|
            {
                &&& 0 <= at < 9
                &&& forall|i: int| 0 <= i < at ==> #[trigger] is_clean(wire, i)
                &&& #[trigger] field_error(wire, at, error)
            },
    }
}

/// What the types of the fields always give: default types and MIME types are header values, and the
/// log has a place that can be used.
pub open spec fn keeps_snapshot_types(snapshot: SnapshotView) -> bool {
    &&& snapshot.default_type.value matches Some(bytes) ==> is_header_value(bytes)
    &&& snapshot.types.value matches Some(table) ==> holds_header_values(table)
    &&& snapshot.access_log.value matches Some(log) ==> log_ok(log)
}

/// Whether a snapshot can be handed over: the URL is that of a database and reads back from its text,
/// no MIME token and no extension is empty, and all values keep what their types ask for.
pub open spec fn can_hand_over(snapshot: SnapshotView) -> bool {
    &&& snapshot.access_rules.value matches Some(url) ==> url_of(url.text) == Some(url)
        && is_access_rules(url)
    &&& snapshot.gzip_types.value matches Some(list) ==> !has_empty(list)
    &&& snapshot.types.value matches Some(table) ==> !table.contains_key(Seq::empty())
    &&& keeps_snapshot_types(snapshot)
}

/// A snapshot that is handed over arrives as it was.
pub proof fn snapshot_reads_back(
    snapshot: SnapshotView,
    wire: RootInheritedConfigV1Wire,
    result: Result<SnapshotView, RootConfigSnapshotError>,
)
    requires
        can_hand_over(snapshot),
        encodes_v1(snapshot, Ok(wire)),
        decodes_v1(wire, result),
    ensures
        result == Ok::<SnapshotView, RootConfigSnapshotError>(snapshot),
{
    match snapshot.types.value {
        Some(table) => {
            let entries = raw_entries((wire.types.value->0)@);
            lemma_mime_table(entries);
            assert forall|i: int| 0 <= i < entries.len() implies #[trigger] mime_entry_ok(
                entries,
                i,
            ) by {
                assert(table.contains_key(entries[i].0));
                if entries[i].0.len() == 0 {
                    assert(entries[i].0 =~= Seq::empty());
                }
                assert forall|k: int| 0 <= k < i implies (#[trigger] entries[k]).0
                    != entries[i].0 by {}
            }
        },
        None => {},
    }
    assert forall|i: int| 0 <= i < 9 implies #[trigger] is_clean(wire, i) by {
        assert(origin_ok(origins(snapshot)[i]));
    }
    let read = result->Ok_0;
    assert(read.access_rules.origin == origins(read)[0] && snapshot.access_rules.origin == origins(snapshot)[0]);
    assert(read.gzip.origin == origins(read)[1] && snapshot.gzip.origin == origins(snapshot)[1]);
    assert(read.gzip_vary.origin == origins(read)[2] && snapshot.gzip_vary.origin == origins(snapshot)[2]);
    assert(read.gzip_min_length.origin == origins(read)[3] && snapshot.gzip_min_length.origin == origins(snapshot)[3]);
    assert(read.gzip_comp_level.origin == origins(read)[4] && snapshot.gzip_comp_level.origin == origins(snapshot)[4]);
    assert(read.gzip_types.origin == origins(read)[5] && snapshot.gzip_types.origin == origins(snapshot)[5]);
    assert(read.default_type.origin == origins(read)[6] && snapshot.default_type.origin == origins(snapshot)[6]);
    assert(read.types.origin == origins(read)[7] && snapshot.types.origin == origins(snapshot)[7]);
    assert(read.access_log.origin == origins(read)[8] && snapshot.access_log.origin == origins(snapshot)[8]);
    assert(read.access_rules == snapshot.access_rules);
    assert(read.gzip == snapshot.gzip);
    assert(read.gzip_vary == snapshot.gzip_vary);
    assert(read.gzip_min_length == snapshot.gzip_min_length);
    assert(read.gzip_comp_level == snapshot.gzip_comp_level);
    assert(read.gzip_types == snapshot.gzip_types);
    assert(read.default_type == snapshot.default_type);
    assert(read.types == snapshot.types);
    assert(read.access_log == snapshot.access_log);
}

/// A path is handed over as its bytes.
fn path_bytes(path: &UnixPath) -> (bytes: Vec<u8>)
    ensures
        bytes@ == path@,
{
    bytes_to_vec(path.bytes.as_slice())
}

fn encode_origin(origin: &InheritedOrigin) -> (result: Result<
    InheritedOriginV1,
    RootConfigSnapshotError,
>)
    ensures
        match result {
            Ok(wire) => origin_ok(origin@) && wire@ == origin@,
            Err(error) => !origin_ok(origin@) && origin_error(origin@, error),
        },
{
    match origin {
        InheritedOrigin::Builtin => Ok(InheritedOriginV1::Builtin),
        InheritedOrigin::Source(source) => {
            let document = match &source.document {
                Some(path) => {
                    if !path.is_absolute() || path.has_nul() {
                        return Err(RootConfigSnapshotError::AbsolutePath { path: path.clone() });
                    }
                    Some(path_bytes(path))
                },
                None => None,
            };
            Ok(
                InheritedOriginV1::Source { document, line: source.line, column: source.column },
            )
        },
    }
}

/// The path that bytes spell, which has to be absolute and without NUL bytes.
pub fn decode_absolute_path(bytes: Vec<u8>) -> (result: Result<UnixPath, RootConfigSnapshotError>)
    ensures
        match result {
            Ok(path) => is_resolved(bytes@) && path@ == bytes@,
            Err(error) => !is_resolved(bytes@) && (error matches
                RootConfigSnapshotError::AbsolutePath { path } && path@ == bytes@),
        },
{
    let path = UnixPath { bytes };
    if !path.is_absolute() || path.has_nul() {
        Err(RootConfigSnapshotError::AbsolutePath { path })
    } else {
        Ok(path)
    }
}

fn decode_origin(origin: InheritedOriginV1) -> (result: Result<
    InheritedOrigin,
    RootConfigSnapshotError,
>)
    ensures
        match result {
            Ok(read) => origin_ok(origin@) && read@ == origin@,
            Err(error) => !origin_ok(origin@) && origin_error(origin@, error),
        },
{
    match origin {
        InheritedOriginV1::Builtin => Ok(InheritedOrigin::Builtin),
        InheritedOriginV1::Source { document, line, column } => {
            let document = match document {
                Some(bytes) => match decode_absolute_path(bytes) {
                    Ok(path) => Some(path),
                    Err(error) => {
                        return Err(error);
                    },
                },
                None => None,
            };
            Ok(InheritedOrigin::Source(InheritedSourceLocation::new(document, line, column)))
        },
    }
}

/// The same entries in another order form the same table.
proof fn lemma_table_inserted(
    entries: Seq<(Seq<char>, Seq<u8>)>,
    at: int,
    entry: (Seq<char>, Seq<u8>),
)
    requires
        distinct_extensions(entries.push(entry)),
        0 <= at <= entries.len(),
    ensures
        distinct_extensions(entries.insert(at, entry)),
        mime_table(entries.insert(at, entry)) == mime_table(entries.push(entry)),
{
    let one = entries.insert(at, entry);
    let other = entries.push(entry);
    assert forall|i: int, j: int| 0 <= i < j < one.len() implies (#[trigger] one[i]).0 != (
    #[trigger] one[j]).0 by {
        let a = if i < at { i } else if i == at { entries.len() as int } else { i - 1 };
        let b = if j < at { j } else if j == at { entries.len() as int } else { j - 1 };
        assert(one[i] == other[a] && one[j] == other[b]);
        if a < b {
            assert(other[a].0 != other[b].0);
        } else {
            assert(other[b].0 != other[a].0);
        }
    }
    lemma_mime_table(one);
    lemma_mime_table(other);
    assert forall|key: Seq<char>| #[trigger] mime_table(one).contains_key(key) implies mime_table(
        other,
    ).contains_key(key) && mime_table(one)[key] == mime_table(other)[key] by {
        let i = choose|i: int| 0 <= i < one.len() && (#[trigger] one[i]).0 == key;
        let a = if i < at { i } else if i == at { entries.len() as int } else { i - 1 };
        assert(one[i] == other[a]);
        assert(mime_table(other).contains_key(other[a].0));
    }
    assert forall|key: Seq<char>| #[trigger] mime_table(other).contains_key(key) implies mime_table(
        one,
    ).contains_key(key) by {
        let a = choose|a: int| 0 <= a < other.len() && (#[trigger] other[a]).0 == key;
        let i = if a == entries.len() { at } else if a < at { a } else { a + 1 };
        assert(one[i] == other[a]);
        assert(mime_table(one).contains_key(one[i].0));
    }
    assert(mime_table(one) =~= mime_table(other));
}

/// Where an entry belongs in a list that is in order.
fn place_for(list: &Vec<(String, Vec<u8>)>, extension: &str) -> (at: usize)
    requires
        in_order(raw_entries(list@)),
        !has_extension(raw_entries(list@), list@.len() as int, extension@),
    ensures
        at <= list@.len(),
        forall|i: int|
            0 <= i < at ==> bytes_before(
                encode_utf8((#[trigger] raw_entries(list@)[i]).0),
                encode_utf8(extension@),
            ),
        forall|i: int|
            at <= i < list@.len() ==> bytes_before(
                encode_utf8(extension@),
                encode_utf8((#[trigger] raw_entries(list@)[i]).0),
            ),
{
    let ghost entries = raw_entries(list@);
    let wanted = extension.as_bytes();
    let mut i: usize = 0;
    while i < list.len()
        invariant
            i <= list@.len(),
            entries == raw_entries(list@),
            wanted@ == encode_utf8(extension@),
            in_order(entries),
            !has_extension(entries, list@.len() as int, extension@),
            forall|k: int|
                0 <= k < i ==> bytes_before(
                    encode_utf8((#[trigger] entries[k]).0),
                    encode_utf8(extension@),
                ),
        decreases list@.len() - i,
    {
        if !is_before(list[i].0.as_str().as_bytes(), wanted) {
            proof {
                let here = encode_utf8(entries[i as int].0);
                assert(entries[i as int].0 != extension@);
                lemma_bytes_order(here, encode_utf8(extension@));
                if here == encode_utf8(extension@) {
                    encode_utf8_decode_utf8(entries[i as int].0);
                    encode_utf8_decode_utf8(extension@);
                }
                assert forall|k: int| i <= k < entries.len() implies bytes_before(
                    encode_utf8(extension@),
                    encode_utf8((#[trigger] entries[k]).0),
                ) by {
                    if k > i {
                        lemma_bytes_order_chains(
                            encode_utf8(extension@),
                            here,
                            encode_utf8(entries[k].0),
                        );
                    }
                }
            }
            return i;
        }
        i += 1;
    }
    i
}

/// The entries of a table in the order of the bytes of their extensions.
pub fn encode_mime_types(types: &MimeTypes) -> (list: Vec<(String, Vec<u8>)>)
    ensures
        distinct_extensions(raw_entries(list@)),
        mime_table(raw_entries(list@)) == types@,
        in_order(raw_entries(list@)),
        holds_header_values(types@),
{
    let entries = types.entries();
    let ghost all = mime_entries(entries@);
    let mut list: Vec<(String, Vec<u8>)> = Vec::new();
    let mut i: usize = 0;
    assert(raw_entries(list@) =~= seq![]);
    assert(all.take(0) =~= seq![]);
    while i < entries.len()
        invariant
            i <= entries@.len(),
            all == mime_entries(entries@),
            distinct_extensions(all),
            distinct_extensions(raw_entries(list@)),
            raw_entries(list@).len() == i,
            mime_table(raw_entries(list@)) == mime_table(all.take(i as int)),
            in_order(raw_entries(list@)),
            forall|k: int| 0 <= k < i ==> is_header_value((#[trigger] all[k]).1),
        decreases entries@.len() - i,
    {
        let ghost done = raw_entries(list@);
        let (extension, value) = &entries[i];
        let ghost entry = (extension@, value@);
        proof {
            let prefix = all.take(i as int);
            assert forall|a: int, b: int| 0 <= a < b < prefix.len() implies (#[trigger] prefix[a]).0
                != (#[trigger] prefix[b]).0 by {
                assert(all[a].0 != all[b].0);
            }
            lemma_mime_table(done);
            lemma_mime_table(prefix);
            assert forall|k: int| 0 <= k < done.len() implies (#[trigger] done[k]).0
                != extension@ by {
                assert(mime_table(done).contains_key(done[k].0));
                assert(mime_table(prefix).contains_key(done[k].0));
                let j = choose|j: int| 0 <= j < prefix.len() && (#[trigger] prefix[j]).0 == done[k].0;
                assert(all[j].0 != all[i as int].0);
            }
            assert(distinct_extensions(done.push(entry)));
            assert(done.push(entry).drop_last() =~= done);
            assert(all.take(i + 1).drop_last() =~= prefix);
            assert(all.take(i + 1).last() == entry);
        }
        let at = place_for(&list, extension.as_str());
        list.insert(at, (extension.clone(), bytes_to_vec(value.as_bytes())));
        proof {
            let now = raw_entries(list@);
            assert(now =~= done.insert(at as int, entry));
            lemma_table_inserted(done, at as int, entry);
            assert forall|a: int, b: int| 0 <= a < b < now.len() implies bytes_before(
                encode_utf8((#[trigger] now[a]).0),
                encode_utf8((#[trigger] now[b]).0),
            ) by {
                if a < at && b < at {
                    assert(done[a] == now[a] && done[b] == now[b]);
                } else if a < at && b == at {
                    assert(done[a] == now[a]);
                } else if a < at {
                    assert(done[a] == now[a] && done[b - 1] == now[b]);
                } else if a == at {
                    assert(done[b - 1] == now[b]);
                } else {
                    assert(done[a - 1] == now[a] && done[b - 1] == now[b]);
                }
            }
        }
        i += 1;
    }
    proof {
        assert(all.take(i as int) =~= all);
        lemma_mime_table(all);
        assert forall|key: Seq<char>| #[trigger] types@.contains_key(key) implies is_header_value(
            types@[key],
        ) by {
            let k = choose|k: int| 0 <= k < all.len() && (#[trigger] all[k]).0 == key;
            assert(types@[all[k].0] == all[k].1);
        }
    }
    list
}

fn knows_extension(list: &Vec<(String, Vec<u8>)>, count: usize, extension: &str) -> (known: bool)
    requires
        count <= list@.len(),
    ensures
        known == has_extension(raw_entries(list@), count as int, extension@),
{
    let mut i: usize = 0;
    while i < count
        invariant
            i <= count <= list@.len(),
            forall|k: int| 0 <= k < i ==> (#[trigger] raw_entries(list@)[k]).0 != extension@,
        decreases count - i,
    {
        if str_eq(list[i].0.as_str(), extension) {
            assert(raw_entries(list@)[i as int].0 == extension@);
            return true;
        }
        i += 1;
    }
    false
}

/// The table that entries form.
pub fn decode_mime_types(list: &Vec<(String, Vec<u8>)>) -> (result: Result<
    MimeTypes,
    RootConfigSnapshotError,
>)
    ensures
        match result {
            Ok(types) => entries_ok(raw_entries(list@)) && types@ == mime_table(raw_entries(list@)),
            Err(error) => !entries_ok(raw_entries(list@)) && (error matches
                RootConfigSnapshotError::MimeTypes { source } && entries_error(
                raw_entries(list@),
                source,
            )),
        },
{
    let ghost entries = raw_entries(list@);
    let mut i: usize = 0;
    while i < list.len()
        invariant
            i <= list@.len(),
            entries == raw_entries(list@),
            distinct_extensions(entries.take(i as int)),
        decreases list@.len() - i,
    {
        if knows_extension(list, i, list[i].0.as_str()) {
            let source = MimeTypesValidationError::DuplicateExtension {
                extension: list[i].0.clone(),
            };
            proof {
                let k = choose|k: int|
                    0 <= k < i && (#[trigger] entries[k]).0 == entries[i as int].0;
                assert(!distinct_extensions(entries));
                assert(has_extension(entries, i as int, entries[i as int].0));
                assert(!mime_entry_ok(entries, i as int));
                assert(entries_error(entries, source));
            }
            return Err(RootConfigSnapshotError::MimeTypes { source });
        }
        proof {
            let now = entries.take(i + 1);
            assert forall|a: int, b: int| 0 <= a < b < now.len() implies (#[trigger] now[a]).0 != (
            #[trigger] now[b]).0 by {
                if b < i {
                    assert(entries.take(i as int)[a].0 != entries.take(i as int)[b].0);
                } else {
                    assert(entries[a].0 != entries[i as int].0);
                }
            }
        }
        i += 1;
    }
    assert(entries.take(i as int) =~= entries);
    match MimeTypes::checked_from_bytes(list) {
        Ok(types) => Ok(types),
        Err(source) => {
            proof {
                if entries_ok(raw_entries(list@)) {
                    assert(mime_checked(entries, Ok(mime_table(entries))));
                    mime_check_goes_one_way(entries, mime_table(entries), source);
                }
            }
            Err(RootConfigSnapshotError::MimeTypes { source })
        },
    }
}

/// The place of an access rule database that a text gives.
pub fn decode_access_rules(text: &str) -> (result: Result<AccessRulesUri, RootConfigSnapshotError>)
    ensures
        match result {
            Ok(uri) => url_of(text@) == Some(uri@) && is_access_rules(uri@),
            Err(error) => !(url_of(text@) matches Some(url) && is_access_rules(url)) && (
            error matches RootConfigSnapshotError::AccessRules { source } && (match url_of(text@) {
                None => source is UnsupportedSqliteForm,
                Some(url) => is_refused(url, source),
            })),
        },
{
    match parse_url(text) {
        Ok(url) => match AccessRulesUri::try_from(url) {
            Ok(uri) => Ok(uri),
            Err(source) => Err(RootConfigSnapshotError::AccessRules { source }),
        },
        Err(_) => Err(
            RootConfigSnapshotError::AccessRules {
                source: AccessRulesUriValidationError::UnsupportedSqliteForm,
            },
        ),
    }
}

/// The media type that bytes spell.
pub fn decode_header_value(bytes: &[u8]) -> (result: Result<DefaultType, RootConfigSnapshotError>)
    ensures
        match result {
            Ok(value) => is_header_value(bytes@) && value@ == bytes@,
            Err(error) => !is_header_value(bytes@) && error is HeaderValue,
        },
{
    match DefaultType::checked_from_bytes(bytes) {
        Ok(value) => Ok(value),
        Err(source) => Err(RootConfigSnapshotError::HeaderValue { source }),
    }
}

fn encode_access_log(log: &AccessLogDirective) -> (wire: AccessLogDirectiveV1)
    ensures
        wire_log(Some(wire)) == Some(log@),
        log_ok(log@),
{
    match log {
        AccessLogDirective::Off => AccessLogDirectiveV1::Off,
        AccessLogDirective::ProfileDefault => AccessLogDirectiveV1::ProfileDefault,
        AccessLogDirective::Resolved(path) => AccessLogDirectiveV1::Resolved(
            path_bytes(path.as_path()),
        ),
    }
}

fn decode_access_log(wire: AccessLogDirectiveV1) -> (result: Result<
    AccessLogDirective,
    RootConfigSnapshotError,
>)
    ensures
        match result {
            Ok(log) => wire_log(Some(wire)) == Some(log@) && (log@ matches AccessLogView::Resolved(
                path,
            ) ==> is_resolved(path)),
            Err(error) => wire matches AccessLogDirectiveV1::Resolved(given) && !is_resolved(given@)
                && (error matches RootConfigSnapshotError::AbsolutePath { path } && path@ == given@),
        },
{
    match wire {
        AccessLogDirectiveV1::Off => Ok(AccessLogDirective::Off),
        AccessLogDirectiveV1::ProfileDefault => Ok(AccessLogDirective::ProfileDefault),
        AccessLogDirectiveV1::Resolved(bytes) => match decode_absolute_path(bytes) {
            Ok(path) => match ResolvedConfigPath::try_from(path) {
                Ok(path) => Ok(AccessLogDirective::Resolved(path)),
                Err(source) => Err(RootConfigSnapshotError::ResolvedPath { source }),
            },
            Err(error) => Err(error),
        },
    }
}

impl RootConfigSnapshot {
    /// The form in which the snapshot is handed over.
    pub fn to_wire(&self) -> (result: Result<RootConfigSnapshotWire, RootConfigSnapshotError>)
        ensures
            match result {
                Ok(wire) => encodes_v1(self.config()@, Ok(wire->V1_0)),
                Err(error) => encodes_v1(self.config()@, Err(error)),
            },
            keeps_snapshot_types(self.config()@),
    {
        let value = self.v1();
        let ghost view = value@;
        let rules = match &value.access_rules.value {
            Some(rules) => Some(rules.0.text.clone()),
            None => None,
        };
        let gzip_types = match &value.gzip_types.value {
            Some(list) => Some(clone_strings(&list.0)),
            None => None,
        };
        let default_type = match &value.default_type.value {
            Some(value) => Some(bytes_to_vec(value.0.as_bytes())),
            None => None,
        };
        let types = match &value.types.value {
            Some(types) => Some(encode_mime_types(types)),
            None => None,
        };
        let log = match &value.access_log.value {
            Some(log) => Some(encode_access_log(log)),
            None => None,
        };
        let access_rules_origin = match encode_origin(&value.access_rules.origin) {
            Ok(origin) => origin,
            Err(error) => {
                assert(origin_error(origins(view)[0], error));
                return Err(error);
            },
        };
        assert(origin_ok(origins(view)[0]));
        let gzip_origin = match encode_origin(&value.gzip.origin) {
            Ok(origin) => origin,
            Err(error) => {
                assert(origin_error(origins(view)[1], error));
                return Err(error);
            },
        };
        assert(origin_ok(origins(view)[1]));
        let gzip_vary_origin = match encode_origin(&value.gzip_vary.origin) {
            Ok(origin) => origin,
            Err(error) => {
                assert(origin_error(origins(view)[2], error));
                return Err(error);
            },
        };
        assert(origin_ok(origins(view)[2]));
        let gzip_min_length_origin = match encode_origin(&value.gzip_min_length.origin) {
            Ok(origin) => origin,
            Err(error) => {
                assert(origin_error(origins(view)[3], error));
                return Err(error);
            },
        };
        assert(origin_ok(origins(view)[3]));
        let gzip_comp_level_origin = match encode_origin(&value.gzip_comp_level.origin) {
            Ok(origin) => origin,
            Err(error) => {
                assert(origin_error(origins(view)[4], error));
                return Err(error);
            },
        };
        assert(origin_ok(origins(view)[4]));
        let gzip_types_origin = match encode_origin(&value.gzip_types.origin) {
            Ok(origin) => origin,
            Err(error) => {
                assert(origin_error(origins(view)[5], error));
                return Err(error);
            },
        };
        assert(origin_ok(origins(view)[5]));
        let default_type_origin = match encode_origin(&value.default_type.origin) {
            Ok(origin) => origin,
            Err(error) => {
                assert(origin_error(origins(view)[6], error));
                return Err(error);
            },
        };
        assert(origin_ok(origins(view)[6]));
        let types_origin = match encode_origin(&value.types.origin) {
            Ok(origin) => origin,
            Err(error) => {
                assert(origin_error(origins(view)[7], error));
                return Err(error);
            },
        };
        assert(origin_ok(origins(view)[7]));
        let access_log_origin = match encode_origin(&value.access_log.origin) {
            Ok(origin) => origin,
            Err(error) => {
                assert(origin_error(origins(view)[8], error));
                return Err(error);
            },
        };
        assert(origin_ok(origins(view)[8]));
        let wire = RootInheritedConfigV1Wire {
            access_rules: InheritedValueV1 { value: rules, origin: access_rules_origin },
            gzip: InheritedValueV1 { value: value.gzip.value.0, origin: gzip_origin },
            gzip_vary: InheritedValueV1 { value: value.gzip_vary.value.0, origin: gzip_vary_origin },
            gzip_min_length: InheritedValueV1 { value: value.gzip_min_length.value.0, origin: gzip_min_length_origin },
            gzip_comp_level: InheritedValueV1 { value: value.gzip_comp_level.value.0, origin: gzip_comp_level_origin },
            gzip_types: InheritedValueV1 { value: gzip_types, origin: gzip_types_origin },
            default_type: InheritedValueV1 { value: default_type, origin: default_type_origin },
            types: InheritedValueV1 { value: types, origin: types_origin },
            access_log: InheritedValueV1 { value: log, origin: access_log_origin },
        };
        assert(wire_origins(wire) =~= origins(view));
        Ok(RootConfigSnapshotWire::V1(wire))
    }

    /// The snapshot that was handed over.
    pub fn from_wire(wire: RootConfigSnapshotWire) -> (result: Result<
        Self,
        RootConfigSnapshotError,
    >)
        ensures
            match result {
                Ok(snapshot) => decodes_v1(wire->V1_0, Ok(snapshot.config()@)),
                Err(error) => decodes_v1(wire->V1_0, Err(error)),
            },
    {
        let RootConfigSnapshotWire::V1(wire) = wire;
        let ghost all = wire;
        let rules = match wire.access_rules.value {
            Some(text) => match decode_access_rules(text.as_str()) {
                Ok(uri) => Some(uri),
                Err(error) => {
                    assert(field_error(all, 0, error));
                    return Err(error);
                },
            },
            None => None,
        };
        let access_rules_origin = match decode_origin(wire.access_rules.origin) {
            Ok(origin) => origin,
            Err(error) => {
                assert(field_error(all, 0, error));
                return Err(error);
            },
        };
        assert(is_clean(all, 0));
        let gzip_origin = match decode_origin(wire.gzip.origin) {
            Ok(origin) => origin,
            Err(error) => {
                assert(field_error(all, 1, error));
                return Err(error);
            },
        };
        assert(is_clean(all, 1));
        let gzip_vary_origin = match decode_origin(wire.gzip_vary.origin) {
            Ok(origin) => origin,
            Err(error) => {
                assert(field_error(all, 2, error));
                return Err(error);
            },
        };
        assert(is_clean(all, 2));
        let gzip_min_length_origin = match decode_origin(wire.gzip_min_length.origin) {
            Ok(origin) => origin,
            Err(error) => {
                assert(field_error(all, 3, error));
                return Err(error);
            },
        };
        assert(is_clean(all, 3));
        let gzip_comp_level_origin = match decode_origin(wire.gzip_comp_level.origin) {
            Ok(origin) => origin,
            Err(error) => {
                assert(field_error(all, 4, error));
                return Err(error);
            },
        };
        assert(is_clean(all, 4));
        let gzip_types = match wire.gzip_types.value {
            Some(list) => match StringList::checked_gzip_types(list) {
                Ok(list) => Some(list),
                Err(source) => {
                    let error = RootConfigSnapshotError::GzipTypes { source };
                    assert(field_error(all, 5, error));
                    return Err(error);
                },
            },
            None => None,
        };
        let gzip_types_origin = match decode_origin(wire.gzip_types.origin) {
            Ok(origin) => origin,
            Err(error) => {
                assert(field_error(all, 5, error));
                return Err(error);
            },
        };
        assert(is_clean(all, 5));
        let default_type = match wire.default_type.value {
            Some(bytes) => match decode_header_value(bytes.as_slice()) {
                Ok(value) => Some(value),
                Err(error) => {
                    assert(field_error(all, 6, error));
                    return Err(error);
                },
            },
            None => None,
        };
        let default_type_origin = match decode_origin(wire.default_type.origin) {
            Ok(origin) => origin,
            Err(error) => {
                assert(field_error(all, 6, error));
                return Err(error);
            },
        };
        assert(is_clean(all, 6));
        let types = match wire.types.value {
            Some(list) => match decode_mime_types(&list) {
                Ok(types) => Some(types),
                Err(error) => {
                    assert(field_error(all, 7, error));
                    return Err(error);
                },
            },
            None => None,
        };
        let types_origin = match decode_origin(wire.types.origin) {
            Ok(origin) => origin,
            Err(error) => {
                assert(field_error(all, 7, error));
                return Err(error);
            },
        };
        assert(is_clean(all, 7));
        let log = match wire.access_log.value {
            Some(log) => match decode_access_log(log) {
                Ok(log) => Some(log),
                Err(error) => {
                    assert(field_error(all, 8, error));
                    return Err(error);
                },
            },
            None => None,
        };
        let access_log_origin = match decode_origin(wire.access_log.origin) {
            Ok(origin) => origin,
            Err(error) => {
                assert(field_error(all, 8, error));
                return Err(error);
            },
        };
        assert(is_clean(all, 8));
        let config = RootInheritedConfigV1 {
            access_rules: InheritedValue { value: rules, origin: access_rules_origin },
            gzip: InheritedValue { value: BoolConfig(wire.gzip.value), origin: gzip_origin },
            gzip_vary: InheritedValue { value: BoolConfig(wire.gzip_vary.value), origin: gzip_vary_origin },
            gzip_min_length: InheritedValue { value: GzipMinLength::checked(wire.gzip_min_length.value), origin: gzip_min_length_origin },
            gzip_comp_level: InheritedValue { value: GzipCompLevel::checked(wire.gzip_comp_level.value), origin: gzip_comp_level_origin },
            gzip_types: InheritedValue { value: gzip_types, origin: gzip_types_origin },
            default_type: InheritedValue { value: default_type, origin: default_type_origin },
            types: InheritedValue { value: types, origin: types_origin },
            access_log: InheritedValue { value: log, origin: access_log_origin },
        };
        proof {
            assert(origins(config@) =~= wire_origins(all));
            assert forall|i: int| 0 <= i < 9 implies #[trigger] is_clean(all, i) by {}
        }
        Ok(RootConfigSnapshot::V1(config))
    }
}

/// A snapshot is handed over field by field: the database by its URL, each extension once with its
/// type, in the order of their bytes, and all others as they are, each with the place that set it.
pub proof fn snapshot_is_handed_over_by_field(
    snapshot: SnapshotView,
    wire: RootInheritedConfigV1Wire,
)
    requires
        encodes_v1(snapshot, Ok(wire)),
    ensures
        wire.gzip.value == snapshot.gzip.value,
        wire.gzip.origin@ == snapshot.gzip.origin,
        wire.gzip_vary.value == snapshot.gzip_vary.value,
        wire.gzip_vary.origin@ == snapshot.gzip_vary.origin,
        wire.gzip_min_length.value == snapshot.gzip_min_length.value,
        wire.gzip_min_length.origin@ == snapshot.gzip_min_length.origin,
        wire.gzip_comp_level.value == snapshot.gzip_comp_level.value,
        wire.gzip_comp_level.origin@ == snapshot.gzip_comp_level.origin,
        match snapshot.gzip_types.value {
            Some(list) => wire.gzip_types.value matches Some(sent) && sent@ == list,
            None => wire.gzip_types.value is None,
        },
        wire.gzip_types.origin@ == snapshot.gzip_types.origin,
        match snapshot.default_type.value {
            Some(bytes) => wire.default_type.value matches Some(sent) && sent@ == bytes,
            None => wire.default_type.value is None,
        },
        wire.default_type.origin@ == snapshot.default_type.origin,
        match snapshot.access_rules.value {
            Some(url) => wire.access_rules.value matches Some(sent) && sent@ == url.text,
            None => wire.access_rules.value is None,
        },
        wire.access_rules.origin@ == snapshot.access_rules.origin,
        match snapshot.types.value {
            Some(table) => wire.types.value matches Some(sent) && names_each_once(sent@, table)
                && forall|i: int, j: int|
                0 <= i < j < sent@.len() ==> bytes_before(
                    encode_utf8((#[trigger] sent@[i]).0@),
                    encode_utf8((#[trigger] sent@[j]).0@),
                ),
            None => wire.types.value is None,
        },
        wire.types.origin@ == snapshot.types.origin,
        match snapshot.access_log.value {
            None => wire.access_log.value is None,
            Some(AccessLogView::Off) => wire.access_log.value matches Some(
                AccessLogDirectiveV1::Off,
            ),
            Some(AccessLogView::ProfileDefault) => wire.access_log.value matches Some(
                AccessLogDirectiveV1::ProfileDefault,
            ),
            Some(AccessLogView::Resolved(path)) => wire.access_log.value matches Some(
                AccessLogDirectiveV1::Resolved(sent),
            ) && sent@ == path,
        },
        wire.access_log.origin@ == snapshot.access_log.origin,
{
    let there = wire_origins(wire);
    let here = origins(snapshot);
    assert(there[0] == here[0] && there[1] == here[1] && there[2] == here[2]);
    assert(there[3] == here[3] && there[4] == here[4] && there[5] == here[5]);
    assert(there[6] == here[6] && there[7] == here[7] && there[8] == here[8]);
    if let Some(table) = snapshot.types.value {
        let sent = (wire.types.value->0)@;
        let raw = raw_entries(sent);
        spelled_types_are_those_of_the_table(sent, table);
        assert(forall|i: int| 0 <= i < sent.len() ==> (#[trigger] sent[i]).0@ == raw[i].0);
    }
}

/// A snapshot is not handed over exactly where some value was set in a document whose path is relative
/// or holds a NUL.
pub proof fn snapshot_stays_where_a_place_is_unclear(
    snapshot: SnapshotView,
    result: Result<RootInheritedConfigV1Wire, RootConfigSnapshotError>,
)
    requires
        encodes_v1(snapshot, result),
    ensures
        result is Err == exists|at: int|
            0 <= at < 9 && (#[trigger] origins(snapshot)[at] matches InheritedOriginView::Source(
                location,
            ) && (location.document matches Some(path) && (path.len() == 0 || path[0] != 47
                || exists|i: int| 0 <= i < path.len() && #[trigger] path[i] == 0))),
{
    if let Err(error) = result {
        let at = choose|at: int|
            {
                &&& 0 <= at < 9
                &&& forall|i: int| 0 <= i < at ==> origin_ok(#[trigger] origins(snapshot)[i])
                &&& !origin_ok(origins(snapshot)[at])
                &&& #[trigger] origin_error(origins(snapshot)[at], error)
            };
        assert(!origin_ok(origins(snapshot)[at]));
        assert(origins(snapshot)[at] is Source);
    } else {
        assert forall|at: int| 0 <= at < 9 implies origin_ok(#[trigger] origins(snapshot)[at]) by {}
    }
}

/// A snapshot that arrives has no empty token, header values for types, extensions that are not empty
/// and stand once, a log at an absolute path, and a database that is named by a URL of its own; and
/// one with all these arrives where all its places are clear.
pub proof fn sound_snapshots_arrive(
    wire: RootInheritedConfigV1Wire,
    result: Result<SnapshotView, RootConfigSnapshotError>,
)
    requires
        decodes_v1(wire, result),
    ensures
        result is Ok == ({
            &&& forall|i: int| 0 <= i < 9 ==> origin_ok(#[trigger] wire_origins(wire)[i])
            &&& wire.gzip_types.value matches Some(list) ==> forall|i: int|
                0 <= i < list@.len() ==> (#[trigger] list@[i])@.len() > 0
            &&& wire.default_type.value matches Some(bytes) ==> forall|i: int|
                0 <= i < bytes@.len() ==> {
                    let b = #[trigger] bytes@[i];
                    b == 9 || b > 31 && b != 127
                }
            &&& wire.access_log.value matches Some(AccessLogDirectiveV1::Resolved(path))
                ==> path@.len() > 0 && path@[0] == 47 && forall|i: int|
                0 <= i < path@.len() ==> #[trigger] path@[i] != 0
            &&& wire.types.value matches Some(list) ==> entries_ok(raw_entries(list@))
            &&& wire.access_rules.value matches Some(text) ==> (url_of(text@) matches Some(url)
                && is_access_rules(url))
        }),
{
    if let Err(error) = result {
        let at = choose|at: int|
            {
                &&& 0 <= at < 9
                &&& forall|i: int| 0 <= i < at ==> #[trigger] is_clean(wire, i)
                &&& #[trigger] field_error(wire, at, error)
            };
        assert(!is_clean(wire, at));
        if !origin_ok(wire_origins(wire)[at]) {
        } else {
            assert(value_fault(wire, at));
        }
    } else {
        assert(is_clean(wire, 0) && is_clean(wire, 5) && is_clean(wire, 6));
        assert(is_clean(wire, 7) && is_clean(wire, 8));
        assert forall|i: int| 0 <= i < 9 implies origin_ok(#[trigger] wire_origins(wire)[i]) by {
            assert(is_clean(wire, i));
        }
    }
}

} // verus!
