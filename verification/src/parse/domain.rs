//! Identities and checked values of the configuration domain.
use vstd::prelude::*;

use crate::number::{decimal, push_decimal};
use crate::parse::source::SourceSpan;
use crate::path::{is_absolute, normalized, UnixPath};
use crate::text::str_eq;

verus! {

/// Names one configuration document.
#[derive(Debug, Clone, Copy, PartialEq, Eq, Hash, Structural)]
pub struct ConfigDocumentId(u32);

/// Why a document cannot be given an identity.
#[derive(Debug, Clone, Copy, PartialEq, Eq, Structural)]
pub enum ConfigDocumentIdError {
    /// The index does not fit.
    IndexOverflow { index: u64 },
}

impl ConfigDocumentIdError {
    pub open spec fn text(self) -> Seq<char> {
        "configuration document index exceeds the supported range"@
    }

    pub fn message(&self) -> (text: String)
        ensures
            text@ == self.text(),
    {
        "configuration document index exceeds the supported range".to_owned()
    }
}

impl ConfigDocumentId {
    /// The index of the document.
    pub closed spec fn index(self) -> u32 {
        self.0
    }

    /// The identity of the document with the given index, which must fit in 32 bits.
    pub fn try_from_index(index: u64) -> (result: Result<Self, ConfigDocumentIdError>)
        ensures
            match result {
                Ok(id) => index <= u32::MAX && id.index() == index,
                Err(error) => index > u32::MAX && error == (ConfigDocumentIdError::IndexOverflow {
                    index,
                }),
            },
    {
        if index > 0xffff_ffff {
            Err(ConfigDocumentIdError::IndexOverflow { index })
        } else {
            Ok(ConfigDocumentId(index as u32))
        }
    }

    /// How the document is named in messages.
    pub open spec fn text(self) -> Seq<char> {
        "document:"@ + decimal(self.index() as nat)
    }

    /// How the document is named in messages.
    pub fn to_text(&self) -> (text: String)
        ensures
            text@ == self.text(),
    {
        let mut text = "document:".to_owned();
        push_decimal(&mut text, self.0 as u64);
        text
    }
}

/// Two documents with the same index are the same document.
pub proof fn document_index_identifies(one: ConfigDocumentId, other: ConfigDocumentId)
    requires
        one.index() == other.index(),
    ensures
        one == other,
{
}

/// Hands out document identities, each once.
#[derive(Debug)]
pub struct ConfigDocumentIdAllocator {
    next_index: u64,
}

impl ConfigDocumentIdAllocator {
    /// The index of the next document.
    pub closed spec fn next(self) -> u64 {
        self.next_index
    }

    pub fn new() -> (allocator: Self)
        ensures
            allocator.next() == 0,
    {
        ConfigDocumentIdAllocator { next_index: 0 }
    }

    /// An allocator that has handed out all indices below `next_index`.
    pub fn with_next_index(next_index: u64) -> (allocator: Self)
        ensures
            allocator.next() == next_index,
    {
        ConfigDocumentIdAllocator { next_index }
    }

    /// A fresh identity: the index after all that were handed out. When none is left, the
    /// allocator stays as it is.
    pub fn allocate(&mut self) -> (result: Result<ConfigDocumentId, ConfigDocumentIdError>)
        ensures
            match result {
                Ok(id) => old(self).next() <= u32::MAX && id.index() == old(self).next()
                    && final(self).next() == old(self).next() + 1,
                Err(error) => old(self).next() > u32::MAX && *final(self) == *old(self) && error == (
                ConfigDocumentIdError::IndexOverflow { index: old(self).next() }),
            },
    {
        match ConfigDocumentId::try_from_index(self.next_index) {
            Ok(id) => {
                self.next_index = self.next_index + 1;
                Ok(id)
            },
            Err(error) => Err(error),
        }
    }
}

/// A source span together with the document that holds it.
#[derive(Debug, Clone, Copy, PartialEq, Eq, Hash, Structural)]
pub struct ConfigSourceSpan {
    document_id: ConfigDocumentId,
    span: SourceSpan,
}

impl ConfigSourceSpan {
    /// The span in the given document.
    pub closed spec fn of(document_id: ConfigDocumentId, span: SourceSpan) -> Self {
        ConfigSourceSpan { document_id, span }
    }

    /// The document.
    pub closed spec fn document(self) -> ConfigDocumentId {
        self.document_id
    }

    /// The span in the document.
    pub closed spec fn source(self) -> SourceSpan {
        self.span
    }

    pub fn new(document_id: ConfigDocumentId, span: SourceSpan) -> (full: Self)
        ensures
            full == Self::of(document_id, span),
            full.document() == document_id,
            full.source() == span,
    {
        ConfigSourceSpan { document_id, span }
    }

    pub fn document_id(&self) -> (id: ConfigDocumentId)
        ensures
            id == self.document(),
    {
        self.document_id
    }

    pub fn start(&self) -> (start: usize)
        ensures
            start == self.source().start,
    {
        self.span.start
    }

    pub fn end(&self) -> (end: usize)
        ensures
            end == self.source().end,
    {
        self.span.end
    }

    pub fn is_empty(&self) -> (empty: bool)
        ensures
            empty == (self.source().start == self.source().end),
    {
        self.span.is_empty()
    }

    pub fn source_span(&self) -> (span: SourceSpan)
        ensures
            span == self.source(),
    {
        self.span
    }
}

/// A span in a document is its document and its place there.
pub broadcast proof fn config_span_parts(document_id: ConfigDocumentId, span: SourceSpan)
    ensures
        (#[trigger] ConfigSourceSpan::of(document_id, span)).document() == document_id,
        ConfigSourceSpan::of(document_id, span).source() == span,
{
}

/// The name of a directive.
#[derive(Debug, Clone, Copy, Hash)]
pub struct DirectiveName(&'static str);

impl PartialEq for DirectiveName {
    fn eq(&self, other: &Self) -> (equal: bool) {
        str_eq(self.0, other.0)
    }
}

impl Eq for DirectiveName {

}

impl vstd::std_specs::cmp::PartialEqSpecImpl for DirectiveName {
    open spec fn obeys_eq_spec() -> bool {
        true
    }

    open spec fn eq_spec(&self, other: &Self) -> bool {
        self.text() == other.text()
    }
}

impl DirectiveName {
    /// The spelling.
    pub closed spec fn text(self) -> Seq<char> {
        self.0@
    }

    pub fn new(name: &'static str) -> (directive: Self)
        ensures
            directive.text() == name@,
    {
        DirectiveName(name)
    }

    pub fn as_str(self) -> (name: &'static str)
        ensures
            name@ == self.text(),
    {
        self.0
    }

    /// The spelling.
    pub fn to_text(&self) -> (text: String)
        ensures
            text@ == self.text(),
    {
        self.0.to_owned()
    }

    /// Whether two names are spelled alike.
    pub fn is(self, other: DirectiveName) -> (same: bool)
        ensures
            same == (self.text() == other.text()),
    {
        str_eq(self.0, other.0)
    }
}

/// What a configuration document is for.
#[derive(Debug, Clone, Copy, PartialEq, Eq, Structural)]
pub enum ConfigDocumentRoleKind {
    HypervisorRoot,
    WorkerPishoo,
    IdentityServer,
}

impl ConfigDocumentRoleKind {
    pub open spec fn text(self) -> Seq<char> {
        match self {
            ConfigDocumentRoleKind::HypervisorRoot => "hypervisor root"@,
            ConfigDocumentRoleKind::WorkerPishoo => "worker pishoo"@,
            ConfigDocumentRoleKind::IdentityServer => "identity server"@,
        }
    }

    pub fn to_text(&self) -> (text: String)
        ensures
            text@ == self.text(),
    {
        self.as_str().to_owned()
    }

    pub fn as_str(self) -> (name: &'static str)
        ensures
            name@ == self.text(),
    {
        match self {
            ConfigDocumentRoleKind::HypervisorRoot => "hypervisor root",
            ConfigDocumentRoleKind::WorkerPishoo => "worker pishoo",
            ConfigDocumentRoleKind::IdentityServer => "identity server",
        }
    }
}

/// An absolute path without NUL bytes.
#[derive(Debug)]
pub struct ResolvedConfigPath(UnixPath);

/// Why a path is not a resolved one.
#[derive(Debug)]
pub enum ResolvedConfigPathError {
    Relative { path: UnixPath },
    Nul { path: UnixPath },
}

impl ResolvedConfigPathError {
    pub open spec fn text(self) -> Seq<char> {
        match self {
            ResolvedConfigPathError::Relative {
                ..
            } => "resolved configuration path must be absolute"@,
            ResolvedConfigPathError::Nul {
                ..
            } => "resolved configuration path contains a NUL byte"@,
        }
    }

    pub fn message(&self) -> (text: String)
        ensures
            text@ == self.text(),
    {
        match self {
            ResolvedConfigPathError::Relative {
                ..
            } => "resolved configuration path must be absolute".to_owned(),
            ResolvedConfigPathError::Nul {
                ..
            } => "resolved configuration path contains a NUL byte".to_owned(),
        }
    }
}

/// Whether a path can stand as a resolved one.
pub open spec fn is_resolved(path: Seq<u8>) -> bool {
    is_absolute(path) && !path.contains(0u8)
}

/// Why a path cannot stand as a resolved one: it is relative or, where it is not, holds a NUL byte.
pub open spec fn is_path_fault(path: Seq<u8>, error: ResolvedConfigPathError) -> bool {
    match error {
        ResolvedConfigPathError::Relative { path: bad } => !is_absolute(path) && bad@ == path,
        ResolvedConfigPathError::Nul { path: bad } => is_absolute(path) && path.contains(0u8)
            && bad@ == path,
    }
}

impl View for ResolvedConfigPath {
    type V = Seq<u8>;

    closed spec fn view(&self) -> Seq<u8> {
        self.0@
    }
}

impl ResolvedConfigPath {
    #[verifier::type_invariant]
    spec fn checked(self) -> bool {
        is_resolved(self.0@)
    }

    /// Accepts an absolute path without NUL bytes; a relative path is refused first.
    pub fn try_from(path: UnixPath) -> (result: Result<Self, ResolvedConfigPathError>)
        ensures
            match result {
                Ok(resolved) => is_resolved(path@) && resolved@ == path@,
                Err(ResolvedConfigPathError::Relative { path: same }) => !is_absolute(path@) && same
                    == path,
                Err(ResolvedConfigPathError::Nul { path: same }) => is_absolute(path@)
                    && path@.contains(0u8) && same == path,
            },
    {
        if !path.is_absolute() {
            return Err(ResolvedConfigPathError::Relative { path });
        }
        if path.has_nul() {
            return Err(ResolvedConfigPathError::Nul { path });
        }
        Ok(ResolvedConfigPath(path))
    }

    pub fn as_path(&self) -> (path: &UnixPath)
        ensures
            path@ == self@,
            is_resolved(self@),
    {
        proof {
            use_type_invariant(self);
        }
        &self.0
    }

    pub fn into_path(self) -> (path: UnixPath)
        ensures
            path@ == self@,
            is_resolved(self@),
    {
        proof {
            use_type_invariant(&self);
        }
        self.0
    }
}

impl Clone for ResolvedConfigPath {
    fn clone(&self) -> (copy: Self)
        ensures
            copy@ == self@,
    {
        proof {
            use_type_invariant(self);
        }
        ResolvedConfigPath(self.0.clone())
    }
}

impl PartialEq for ResolvedConfigPath {
    fn eq(&self, other: &Self) -> (equal: bool) {
        self.0 == other.0
    }
}

impl Eq for ResolvedConfigPath {

}

impl vstd::std_specs::cmp::PartialEqSpecImpl for ResolvedConfigPath {
    open spec fn obeys_eq_spec() -> bool {
        true
    }

    /// Paths are equal when they have the same components.
    open spec fn eq_spec(&self, other: &Self) -> bool {
        normalized(self@) == normalized(other@)
    }
}

} // verus!
