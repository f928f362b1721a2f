//! Paths as configuration texts give them, made absolute.
use vstd::prelude::*;

use crate::parse::domain::{
    is_path_fault, is_resolved, ResolvedConfigPath, ResolvedConfigPathError,
};
use crate::parse::source::{SourceMap, SourceSpan};
use crate::parse::types::PathConfig;
use crate::parse::value::{ConfigValue, TypedValue};
use crate::path::{
    is_absolute, joined, normalized, normalized_keeps_root, normalized_path_stays, path_view,
    UnixPath,
};
use crate::text::texts;

verus! {

/// Why a path cannot be made absolute.
#[derive(Debug)]
pub enum NormalizeDirectiveValueError {
    MissingBaseDir { span: SourceSpan },
    InvalidResolvedPath { span: SourceSpan, source: ResolvedConfigPathError },
}

impl NormalizeDirectiveValueError {
    /// The message of this error.
    pub open spec fn text(self) -> Seq<char> {
        match self {
            NormalizeDirectiveValueError::MissingBaseDir { .. } => "relative path requires a configuration file base directory"@,
            NormalizeDirectiveValueError::InvalidResolvedPath { .. } => "configuration path is not a resolved absolute path"@,
        }
    }

    /// The message of this error.
    pub fn message(&self) -> (text: String)
        ensures
            text@ == self.text(),
    {
        match self {
            NormalizeDirectiveValueError::MissingBaseDir { .. } => "relative path requires a configuration file base directory".to_owned(),
            NormalizeDirectiveValueError::InvalidResolvedPath { .. } => "configuration path is not a resolved absolute path".to_owned(),
        }
    }

    /// The messages of this error and of what caused it, outermost first.
    pub open spec fn chain(self) -> Seq<Seq<char>> {
        match self {
            NormalizeDirectiveValueError::InvalidResolvedPath { source, .. } => seq![self.text(), source.text()],
            _ => seq![self.text()],
        }
    }

    /// The messages of this error and of what caused it, outermost first.
    pub fn messages(&self) -> (list: Vec<String>)
        ensures
            texts(list@) == self.chain(),
    {
        let mut list: Vec<String> = Vec::new();
        list.push(self.message());
        match self {
            NormalizeDirectiveValueError::InvalidResolvedPath { source, .. } => {
                list.push(source.message());
            },
            _ => {},
        }
        assert(texts(list@) =~= self.chain());
        list
    }
}

/// The base directory of the source that holds `span`.
pub open spec fn base_dir_of(sources: SourceMap, span: SourceSpan) -> Option<Seq<u8>> {
    match sources.source(span.source_id) {
        Some(file) => path_view(file.base_dir),
        None => None,
    }
}

/// A path read in a base directory: an absolute path stands for itself, a relative one needs the
/// directory.
pub open spec fn path_in(path: Seq<u8>, base: Option<Seq<u8>>) -> Option<Seq<u8>> {
    if is_absolute(path) {
        Some(normalized(path))
    } else {
        match base {
            Some(dir) => Some(normalized(joined(dir, path))),
            None => None,
        }
    }
}

/// What resolving a path gives.
pub open spec fn is_resolution(
    path: Seq<u8>,
    base: Option<Seq<u8>>,
    span: SourceSpan,
    result: Result<Seq<u8>, NormalizeDirectiveValueError>,
) -> bool {
    match path_in(path, base) {
        None => result matches Err(NormalizeDirectiveValueError::MissingBaseDir { span: at }) && at
            == span,
        Some(full) => if is_resolved(full) {
            result == Ok::<Seq<u8>, NormalizeDirectiveValueError>(full)
        } else {
            result matches Err(
                NormalizeDirectiveValueError::InvalidResolvedPath { span: at, source },
            ) && at == span && is_path_fault(full, source)
        },
    }
}

/// The result of resolving a path, as bytes.
pub open spec fn resolution_view<E>(result: Result<ResolvedConfigPath, E>) -> Result<Seq<u8>, E> {
    match result {
        Ok(path) => Ok(path@),
        Err(error) => Err(error),
    }
}

/// Makes a path absolute: a relative one is read in the directory of the source that holds `span`.
pub fn resolve_config_path(path: &UnixPath, span: SourceSpan, source_map: &SourceMap) -> (result:
    Result<ResolvedConfigPath, NormalizeDirectiveValueError>)
    ensures
        is_resolution(path@, base_dir_of(*source_map, span), span, resolution_view(result)),
{
    let full = if path.is_absolute() {
        path.normalize()
    } else {
        match source_map.base_dir_for_span(span) {
            Some(dir) => dir.join(path).normalize(),
            None => {
                return Err(NormalizeDirectiveValueError::MissingBaseDir { span });
            },
        }
    };
    match ResolvedConfigPath::try_from(full) {
        Ok(resolved) => Ok(resolved),
        Err(source) => Err(NormalizeDirectiveValueError::InvalidResolvedPath { span, source }),
    }
}

/// Makes a path absolute and hands it back as a plain path.
pub fn normalize_path(path: &UnixPath, span: SourceSpan, source_map: &SourceMap) -> (result: Result<
    UnixPath,
    NormalizeDirectiveValueError,
>)
    ensures
        match result {
            Ok(full) => is_resolution(
                path@,
                base_dir_of(*source_map, span),
                span,
                Ok(full@),
            ),
            Err(error) => is_resolution(
                path@,
                base_dir_of(*source_map, span),
                span,
                Err(error),
            ),
        },
{
    match resolve_config_path(path, span, source_map) {
        Ok(resolved) => Ok(resolved.into_path()),
        Err(error) => Err(error),
    }
}

/// What making the path of a value absolute gives. Values that are no paths stay as they are.
pub open spec fn normalizes(
    value: TypedValue,
    sources: SourceMap,
    result: Result<TypedValue, NormalizeDirectiveValueError>,
) -> bool {
    let base = base_dir_of(sources, value.place());
    match PathConfig::in_data(value.data()) {
        None => result matches Ok(same) && same == value,
        Some(path) => match result {
            Ok(full) => full.place() == value.place() && (PathConfig::in_data(
                full.data(),
            ) matches Some(full) && is_resolution(path.0@, base, value.place(), Ok(full.0@))),
            Err(error) => is_resolution(path.0@, base, value.place(), Err(error)),
        },
    }
}

/// Makes the path of a value absolute.
pub fn normalize_slot_value(value: TypedValue, source_map: &SourceMap) -> (result: Result<
    TypedValue,
    NormalizeDirectiveValueError,
>)
    ensures
        normalizes(value, *source_map, result),
{
    let span = value.span();
    let full = match value.downcast::<PathConfig>() {
        Some(path) => match normalize_path(&path.0, span, source_map) {
            Ok(full) => PathConfig(full),
            Err(error) => {
                return Err(error);
            },
        },
        None => {
            return Ok(value);
        },
    };
    proof {
        PathConfig::data_holds_value(full);
    }
    Ok(TypedValue::new(full, span))
}

/// Where the base directory is absolute, every path without a NUL byte resolves.
pub proof fn absolute_base_resolves(path: Seq<u8>, base: Seq<u8>)
    requires
        is_absolute(base),
    ensures
        path_in(path, Some(base)) matches Some(full) && is_absolute(full),
{
    if is_absolute(path) {
        normalized_keeps_root(path);
    } else {
        normalized_keeps_root(joined(base, path));
    }
}

/// A path that was resolved stays as it is wherever it is read again: no base directory changes it.
pub proof fn resolved_path_stays(
    path: Seq<u8>,
    base: Option<Seq<u8>>,
    full: Seq<u8>,
    other: Option<Seq<u8>>,
)
    requires
        path_in(path, base) == Some(full),
        is_resolved(full),
    ensures
        path_in(full, other) == Some(full),
{
    if is_absolute(path) {
        normalized_path_stays(path);
    } else {
        normalized_keeps_root(joined(base->0, path));
        normalized_path_stays(joined(base->0, path));
    }
}

/// A path that a directive gives is made absolute where it stands; every other value stays as it is.
pub proof fn paths_are_made_absolute(
    value: TypedValue,
    sources: SourceMap,
    result: Result<TypedValue, NormalizeDirectiveValueError>,
)
    requires
        normalizes(value, sources, result),
    ensures
        PathConfig::in_data(value.data()) is None ==> result == Ok::<
            TypedValue,
            NormalizeDirectiveValueError,
        >(value),
        PathConfig::in_data(value.data()) is Some ==> (result matches Ok(full) ==> full.place()
            == value.place() && (PathConfig::in_data(full.data()) matches Some(path)
            && path.0@.len() > 0 && path.0@[0] == 47 && forall|i: int|
            0 <= i < path.0@.len() ==> #[trigger] path.0@[i] != 0)),
{
}

/// A relative path is refused where its source has no directory, and an absolute path is the same in
/// every directory.
pub proof fn relative_paths_need_a_directory(
    path: Seq<u8>,
    base: Option<Seq<u8>>,
    other: Option<Seq<u8>>,
    span: SourceSpan,
    result: Result<Seq<u8>, NormalizeDirectiveValueError>,
)
    requires
        is_resolution(path, base, span, result),
    ensures
        (path.len() == 0 || path[0] != 47) && base is None ==> (result matches Err(
            NormalizeDirectiveValueError::MissingBaseDir { span: at },
        ) && at == span),
        path.len() > 0 && path[0] == 47 ==> path_in(path, base) == path_in(path, other),
        result matches Ok(full) ==> full.len() > 0 && full[0] == 47 && !full.contains(0u8),
{
}

} // verus!
