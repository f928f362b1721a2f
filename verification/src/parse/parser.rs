//! Documents read from text, file by file, and turned into configurations.
use vstd::prelude::*;

use crate::home::{DhttpHome, IdentityProfile};
use crate::parse::ast::{trees, AstDirective, DirectiveTree};
use crate::parse::block::{Block, BuildTypedConfigError};
use crate::parse::builder::{
    build_pishoo, build_server, builds_pishoo, builds_server, document_place, document_span,
    IdentityServerCandidate, ParsedPishooConfig,
};
use crate::parse::config::{HttpView, OriginScope, RootWorkerDefaultsSnapshot};
use crate::parse::domain::{ConfigDocumentIdAllocator, ConfigDocumentIdError};
use crate::parse::error::{ConfigLoadFailure, LoadConfigError};
use crate::parse::grammar::{char_span, file_trees, parse_source, ParseSyntaxError};
use crate::parse::inclusion::{
    expand_includes, source_view, source_views, whole_expansion, AnswerView, Expanded, IncludeFiles,
    ResolveIncludeError, SourceView, StopView,
};
use crate::parse::overlay::{builtin_http, builtin_http_view};
use crate::parse::source::{ConfigDocumentSourceMap, SourceId, SourceMap};
use crate::path::{parent_of, UnixPath};

verus! {

/// The source that a document begins with.
pub open spec fn first_source(text: Seq<char>, path: Seq<u8>) -> SourceView {
    SourceView {
        id: SourceId(0),
        path: Some(path),
        base_dir: parent_of(path),
        text,
        included_from: None,
    }
}

/// The directives of a document with all files that it pulls in.
pub open spec fn expanded_document(
    list: Seq<DirectiveTree>,
    text: Seq<char>,
    path: Seq<u8>,
    files: Seq<(Seq<u8>, AnswerView)>,
) -> Expanded {
    whole_expansion(list, parent_of(path), files, seq![first_source(text, path)])
}

/// The index of the document after the one with the given index; when all are used up, none is new.
pub open spec fn next_index(index: u64) -> u64 {
    if index <= u32::MAX {
        (index + 1) as u64
    } else {
        index
    }
}

/// What reading a document gives: its identity and its sources, with all directives in place of
/// the includes.
pub open spec fn reads_document(
    index: u64,
    text: Seq<char>,
    path: Seq<u8>,
    files: Seq<(Seq<u8>, AnswerView)>,
    result: Result<(ConfigDocumentSourceMap, Vec<AstDirective>), ConfigLoadFailure>,
) -> bool {
    if index > u32::MAX {
        result matches Err(failure) && {
            &&& failure.error == (LoadConfigError::DocumentId {
                source: ConfigDocumentIdError::IndexOverflow { index },
            })
            &&& failure.source_map@.len() == 0
            &&& failure.document_id is None
        }
    } else {
        match file_trees(text, SourceId(0)) {
            Err(failed) => result matches Err(failure) && {
                &&& failure.error == (LoadConfigError::ParseFile {
                    source_id: SourceId(0),
                    source: ParseSyntaxError::Syntax {
                        source_id: SourceId(0),
                        span: char_span(text, SourceId(0), failed, failed),
                    },
                })
                &&& source_views(failure.source_map@) == seq![first_source(text, path)]
                &&& failure.source_map.wf()
                &&& failure.document_id matches Some(id) && id.index() == index
            },
            Ok(list) => match expanded_document(list, text, path, files).outcome {
                Err(stop) => result matches Err(failure) && {
                    &&& failure.error matches LoadConfigError::ResolveInclude { source } && source@
                        == stop
                    &&& source_views(failure.source_map@) == expanded_document(
                        list,
                        text,
                        path,
                        files,
                    ).sources
                    &&& failure.source_map.wf()
                    &&& failure.document_id matches Some(id) && id.index() == index
                },
                Ok(whole) => result matches Ok((doc, directives)) && {
                    &&& trees(directives@) == whole
                    &&& source_views(doc.sources()@) == expanded_document(
                        list,
                        text,
                        path,
                        files,
                    ).sources
                    &&& doc.sources().wf()
                    &&& doc.document().index() == index
                },
            },
        }
    }
}

/// A failure to build a configuration from a document.
pub open spec fn is_build_failure(
    failure: ConfigLoadFailure,
    doc: ConfigDocumentSourceMap,
    error: BuildTypedConfigError,
) -> bool {
    &&& failure.error == (LoadConfigError::BuildTyped { source: error })
    &&& failure.source_map == doc.sources()
    &&& failure.document_id == Some(doc.document())
}

/// What loading a document that must hold one `pishoo` block gives.
pub open spec fn loads_pishoo(
    index: u64,
    text: Seq<char>,
    path: Seq<u8>,
    files: Seq<(Seq<u8>, AnswerView)>,
    parent: HttpView,
    block: Block,
    scope: OriginScope,
    home: Option<&DhttpHome>,
    result: Result<ParsedPishooConfig, ConfigLoadFailure>,
) -> bool {
    ||| result matches Err(failure) && reads_document(index, text, path, files, Err(failure))
    ||| exists|doc: ConfigDocumentSourceMap, directives: Vec<AstDirective>|
        {
            &&& #[trigger] reads_document(index, text, path, files, Ok((doc, directives)))
            &&& match result {
                Ok(parsed) => builds_pishoo(
                    directives@,
                    doc,
                    parent,
                    block,
                    scope,
                    home,
                    Ok(parsed),
                ),
                Err(failure) => failure.error matches LoadConfigError::BuildTyped { source }
                    && is_build_failure(failure, doc, source) && builds_pishoo(
                    directives@,
                    doc,
                    parent,
                    block,
                    scope,
                    home,
                    Err(source),
                ),
            }
        }
}

/// What building a document that must hold one `server` block for an identity gives.
pub open spec fn builds_identity(
    directives: Seq<AstDirective>,
    doc: ConfigDocumentSourceMap,
    profile: IdentityProfile,
    parent: HttpView,
    result: Result<IdentityServerCandidate, ConfigLoadFailure>,
) -> bool {
    if directives.len() != 1 || directives[0].name_text() != "server"@ {
        result matches Err(failure) && (failure.error matches LoadConfigError::BuildTyped { source }
            && is_build_failure(failure, doc, source) && (source matches
            BuildTypedConfigError::Missing { name, span } && name@ == "server"@ && span
            == document_place(directives)))
    } else {
        result matches Ok(candidate) && candidate.profile == profile && builds_server(
            directives[0],
            doc,
            parent,
            Some(&profile),
            None,
            candidate.result,
        )
    }
}

/// What loading a document that must hold one `server` block for an identity gives.
pub open spec fn loads_identity(
    index: u64,
    text: Seq<char>,
    path: Seq<u8>,
    files: Seq<(Seq<u8>, AnswerView)>,
    profile: IdentityProfile,
    parent: HttpView,
    result: Result<IdentityServerCandidate, ConfigLoadFailure>,
) -> bool {
    ||| result matches Err(failure) && reads_document(index, text, path, files, Err(failure))
    ||| exists|doc: ConfigDocumentSourceMap, directives: Vec<AstDirective>|
        {
            &&& #[trigger] reads_document(index, text, path, files, Ok((doc, directives)))
            &&& builds_identity(directives@, doc, profile, parent, result)
        }
}

/// Reads documents. Each gets an identity of its own.
#[derive(Debug)]
pub struct TypedConfigParser {
    ids: ConfigDocumentIdAllocator,
}

impl TypedConfigParser {
    /// The index of the next document.
    pub closed spec fn next(self) -> u64 {
        self.ids.next()
    }

    pub fn new() -> (parser: Self)
        ensures
            parser.next() == 0,
    {
        TypedConfigParser { ids: ConfigDocumentIdAllocator::new() }
    }

    /// Reads the text of a document and puts the files that it pulls in into their places.
    pub fn syntax(&mut self, text: &str, path: &UnixPath, files: &IncludeFiles) -> (result: Result<
        (ConfigDocumentSourceMap, Vec<AstDirective>),
        ConfigLoadFailure,
    >)
        ensures
            reads_document(old(self).next(), text@, path@, files@, result),
            final(self).next() == next_index(old(self).next()),
    {
        let document_id = match self.ids.allocate() {
            Ok(document_id) => document_id,
            Err(source) => {
                return Err(
                    ConfigLoadFailure {
                        error: LoadConfigError::DocumentId { source },
                        source_map: SourceMap::default(),
                        document_id: None,
                    },
                );
            },
        };
        let mut source_map = SourceMap::default();
        let source_id = source_map.add_source(
            Some(path.clone()),
            text.to_owned(),
            path.parent(),
            None,
        );
        proof {
            let file = source_map@.last();
            assert(source_map@ =~= seq![file]);
            assert(source_view(file) == first_source(text@, path@));
            assert(source_views(source_map@) =~= seq![first_source(text@, path@)]);
            assert(source_id == SourceId(0));
        }
        let directives = match parse_source(text, source_id) {
            Ok(directives) => directives,
            Err(source) => {
                return Err(
                    ConfigLoadFailure {
                        error: LoadConfigError::ParseFile { source_id, source },
                        source_map,
                        document_id: Some(document_id),
                    },
                );
            },
        };
        let dir = path.parent();
        let expanded = expand_includes(directives, &mut source_map, dir.as_ref(), files);
        match expanded {
            Ok(directives) => Ok(
                (ConfigDocumentSourceMap::new(document_id, source_map), directives),
            ),
            Err(source) => Err(
                ConfigLoadFailure {
                    error: LoadConfigError::ResolveInclude { source },
                    source_map,
                    document_id: Some(document_id),
                },
            ),
        }
    }

    /// Loads the document of the root.
    pub fn parse_root(
        &mut self,
        text: &str,
        path: &UnixPath,
        home: Option<&DhttpHome>,
        files: &IncludeFiles,
    ) -> (result: Result<ParsedPishooConfig, ConfigLoadFailure>)
        ensures
            loads_pishoo(
                old(self).next(),
                text@,
                path@,
                files@,
                builtin_http_view(),
                Block::RootPishoo,
                OriginScope::RootPishoo,
                home,
                result,
            ),
            final(self).next() == next_index(old(self).next()),
    {
        let (doc, directives) = match self.syntax(text, path, files) {
            Ok(document) => document,
            Err(failure) => {
                return Err(failure);
            },
        };
        let ghost index = old(self).next();
        assert(reads_document(index, text@, path@, files@, Ok((doc, directives))));
        let parent = builtin_http();
        match build_pishoo(&doc, &directives, &parent, OriginScope::RootPishoo, home, false) {
            Ok(parsed) => Ok(parsed),
            Err(source) => Err(failure(source, doc)),
        }
    }

    /// Loads the document of a worker, over what the root hands down.
    pub fn parse_worker(
        &mut self,
        text: &str,
        path: &UnixPath,
        home: &DhttpHome,
        root: &RootWorkerDefaultsSnapshot,
        files: &IncludeFiles,
    ) -> (result: Result<ParsedPishooConfig, ConfigLoadFailure>)
        ensures
            loads_pishoo(
                old(self).next(),
                text@,
                path@,
                files@,
                root.http@,
                Block::WorkerPishoo,
                OriginScope::WorkerPishoo,
                Some(home),
                result,
            ),
            final(self).next() == next_index(old(self).next()),
    {
        let (doc, directives) = match self.syntax(text, path, files) {
            Ok(document) => document,
            Err(failure) => {
                return Err(failure);
            },
        };
        let ghost index = old(self).next();
        assert(reads_document(index, text@, path@, files@, Ok((doc, directives))));
        match build_pishoo(
            &doc,
            &directives,
            &root.http,
            OriginScope::WorkerPishoo,
            Some(home),
            true,
        ) {
            Ok(parsed) => Ok(parsed),
            Err(source) => Err(failure(source, doc)),
        }
    }

    /// Loads the document of an identity, over what the root and the worker hand down.
    pub fn parse_identity(
        &mut self,
        text: &str,
        path: &UnixPath,
        profile: IdentityProfile,
        defaults: &RootWorkerDefaultsSnapshot,
        files: &IncludeFiles,
    ) -> (result: Result<IdentityServerCandidate, ConfigLoadFailure>)
        ensures
            loads_identity(
                old(self).next(),
                text@,
                path@,
                files@,
                profile,
                defaults.http@,
                result,
            ),
            final(self).next() == next_index(old(self).next()),
    {
        let (doc, directives) = match self.syntax(text, path, files) {
            Ok(document) => document,
            Err(failure) => {
                return Err(failure);
            },
        };
        let ghost index = old(self).next();
        assert(reads_document(index, text@, path@, files@, Ok((doc, directives))));
        if directives.len() != 1 || !directives[0].is_named("server") {
            let error = BuildTypedConfigError::Missing {
                name: "server",
                span: document_span(&directives),
            };
            return Err(failure(error, doc));
        }
        let result = build_server(&directives[0], &doc, &defaults.http, Some(&profile), None);
        Ok(IdentityServerCandidate { profile, result })
    }
}

impl Default for TypedConfigParser {
    fn default() -> (parser: Self)
        ensures
            parser.next() == 0,
    {
        TypedConfigParser::new()
    }
}

fn failure(source: BuildTypedConfigError, doc: ConfigDocumentSourceMap) -> (failure:
    ConfigLoadFailure)
    ensures
        is_build_failure(failure, doc, source),
{
    let document_id = doc.document_id();
    ConfigLoadFailure {
        error: LoadConfigError::BuildTyped { source },
        source_map: doc.into_source_map(),
        document_id: Some(document_id),
    }
}

/// The pattern that still has to be looked up before a document can be read whole.
pub open spec fn is_missing_include(
    text: Seq<char>,
    path: Seq<u8>,
    files: Seq<(Seq<u8>, AnswerView)>,
    pattern: Option<Seq<u8>>,
) -> bool {
    match file_trees(text, SourceId(0)) {
        Err(_) => pattern is None,
        Ok(list) => match expanded_document(list, text, path, files).outcome {
            Err(StopView::Unresolved { pattern: wanted, .. }) => pattern == Some(wanted),
            _ => pattern is None,
        },
    }
}

/// The pattern that still has to be looked up before a document can be read whole. With each
/// answer that is added to `files`, another pattern may come up, until there is none.
pub fn missing_include(text: &str, path: &UnixPath, files: &IncludeFiles) -> (pattern: Option<
    UnixPath,
>)
    ensures
        is_missing_include(
            text@,
            path@,
            files@,
            match pattern {
                Some(pattern) => Some(pattern@),
                None => None,
            },
        ),
{
    let mut parser = TypedConfigParser::new();
    match parser.syntax(text, path, files) {
        Ok(_) => None,
        Err(failure) => match failure.error {
            LoadConfigError::ResolveInclude { source } => match source {
                ResolveIncludeError::Unresolved { pattern, .. } => Some(pattern),
                _ => None,
            },
            _ => None,
        },
    }
}

} // verus!
