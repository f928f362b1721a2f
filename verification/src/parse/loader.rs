//! Documents read from text and built with what a registry knows of their directives.
use std::sync::Arc;

use vstd::prelude::*;

use crate::home::{DhttpHome, IdentityProfile};
use crate::parse::ast::AstDirective;
use crate::parse::builder::document_place;
use crate::parse::completion::BuildOptions;
use crate::parse::construct::builds;
use crate::parse::context::ROOT;
use crate::parse::document::{ConfigDocument, NodeView};
use crate::parse::domain::ConfigDocumentRoleKind;
use crate::parse::error::{BuildDocumentError, ConfigLoadFailure, LoadConfigError};
use crate::parse::fragment::ParsedConfigDocument;
use crate::parse::inclusion::{AnswerView, IncludeFiles};
use crate::parse::parser::{next_index, reads_document, TypedConfigParser};
use crate::parse::registry::{ConfigRegistry, RegistryView};
use crate::parse::role::{builds_for_role, RoleDocumentBuildError};
use crate::parse::source::{same_sources, ConfigDocumentSourceMap};
use crate::path::UnixPath;

verus! {

/// What a document is for, and where it belongs.
#[derive(Debug, Clone, Copy)]
#[allow(inconsistent_fields)]
pub enum ConfigDocumentRole<'a> {
    HypervisorRoot { home: Option<&'a DhttpHome> },
    WorkerPishoo { home: &'a DhttpHome },
    IdentityServer { home: &'a DhttpHome, profile: &'a IdentityProfile },
}

impl<'a> ConfigDocumentRole<'a> {
    /// What the document is for.
    pub open spec fn of_kind(self) -> ConfigDocumentRoleKind {
        match self {
            ConfigDocumentRole::HypervisorRoot { .. } => ConfigDocumentRoleKind::HypervisorRoot,
            ConfigDocumentRole::WorkerPishoo { .. } => ConfigDocumentRoleKind::WorkerPishoo,
            ConfigDocumentRole::IdentityServer { .. } => ConfigDocumentRoleKind::IdentityServer,
        }
    }

    /// What is known when its blocks are completed.
    pub open spec fn options(self) -> BuildOptions<'a> {
        match self {
            ConfigDocumentRole::HypervisorRoot { home } => BuildOptions {
                dhttp_home: home,
                identity_profile: None,
            },
            ConfigDocumentRole::WorkerPishoo { home } => BuildOptions {
                dhttp_home: Some(home),
                identity_profile: None,
            },
            ConfigDocumentRole::IdentityServer { home, profile } => BuildOptions {
                dhttp_home: Some(home),
                identity_profile: Some(profile),
            },
        }
    }

    pub fn kind(&self) -> (kind: ConfigDocumentRoleKind)
        ensures
            kind == self.of_kind(),
    {
        match self {
            ConfigDocumentRole::HypervisorRoot { .. } => ConfigDocumentRoleKind::HypervisorRoot,
            ConfigDocumentRole::WorkerPishoo { .. } => ConfigDocumentRoleKind::WorkerPishoo,
            ConfigDocumentRole::IdentityServer { .. } => ConfigDocumentRoleKind::IdentityServer,
        }
    }

    pub fn build_options(&self) -> (options: BuildOptions<'a>)
        ensures
            options == self.options(),
    {
        match self {
            ConfigDocumentRole::HypervisorRoot { home } => BuildOptions {
                dhttp_home: *home,
                identity_profile: None,
            },
            ConfigDocumentRole::WorkerPishoo { home } => BuildOptions {
                dhttp_home: Some(*home),
                identity_profile: None,
            },
            ConfigDocumentRole::IdentityServer { home, profile } => BuildOptions {
                dhttp_home: Some(*home),
                identity_profile: Some(*profile),
            },
        }
    }
}

/// A failure to build a document: what went wrong, with the sources that were read.
pub open spec fn is_document_failure(
    failure: ConfigLoadFailure,
    doc: ConfigDocumentSourceMap,
    error: LoadConfigError,
) -> bool {
    &&& failure.error == error
    &&& same_sources(failure.source_map@, doc.sources()@)
    &&& failure.source_map.wf()
    &&& failure.document_id == Some(doc.document())
}

/// A failure to build a document for a role, as it is reported.
pub open spec fn role_failure(error: RoleDocumentBuildError) -> LoadConfigError {
    match error {
        RoleDocumentBuildError::Role(source) => LoadConfigError::DocumentRole { source },
        RoleDocumentBuildError::Build(source) => LoadConfigError::BuildDocument { source },
    }
}

/// What loading a document for a role gives.
pub open spec fn loads_for_role(
    registry: RegistryView,
    index: u64,
    text: Seq<char>,
    path: Seq<u8>,
    role: ConfigDocumentRole<'_>,
    files: Seq<(Seq<u8>, AnswerView)>,
    result: Result<ParsedConfigDocument, ConfigLoadFailure>,
) -> bool {
    ||| result matches Err(failure) && reads_document(index, text, path, files, Err(failure))
    ||| exists|doc: ConfigDocumentSourceMap, directives: Vec<AstDirective>|
        {
            &&& #[trigger] reads_document(index, text, path, files, Ok((doc, directives)))
            &&& builds_role(registry, doc, directives@, role, result)
        }
}

/// What building a document for a role gives.
pub open spec fn builds_role(
    registry: RegistryView,
    doc: ConfigDocumentSourceMap,
    list: Seq<AstDirective>,
    role: ConfigDocumentRole<'_>,
    result: Result<ParsedConfigDocument, ConfigLoadFailure>,
) -> bool {
    match result {
        Ok(document) => builds_for_role(
            registry,
            Arc::new(doc),
            role.options(),
            list,
            role.of_kind(),
            Ok(document),
        ),
        Err(failure) => exists|error: RoleDocumentBuildError| #[trigger]
            builds_for_role(
                registry,
                Arc::new(doc),
                role.options(),
                list,
                role.of_kind(),
                Err(error),
            ) && is_document_failure(failure, doc, role_failure(error)),
    }
}

/// What building a whole document gives.
pub open spec fn builds_whole(
    registry: RegistryView,
    doc: ConfigDocumentSourceMap,
    list: Seq<AstDirective>,
    options: BuildOptions<'_>,
    result: Result<ConfigDocument, ConfigLoadFailure>,
) -> bool {
    let start = NodeView::empty(ROOT@, None, document_place(list));
    match result {
        Ok(document) => *document.source_map == doc && builds(
            registry,
            doc.sources(),
            options,
            ROOT@,
            list,
            start,
            Ok(document.root@),
        ),
        Err(failure) => exists|error: BuildDocumentError| #[trigger]
            builds(registry, doc.sources(), options, ROOT@, list, start, Err(error))
                && is_document_failure(
                failure,
                doc,
                LoadConfigError::BuildDocument { source: error },
            ),
    }
}

/// What loading a whole document gives.
pub open spec fn loads_whole(
    registry: RegistryView,
    index: u64,
    text: Seq<char>,
    path: Seq<u8>,
    options: BuildOptions<'_>,
    files: Seq<(Seq<u8>, AnswerView)>,
    result: Result<ConfigDocument, ConfigLoadFailure>,
) -> bool {
    ||| result matches Err(failure) && reads_document(index, text, path, files, Err(failure))
    ||| exists|doc: ConfigDocumentSourceMap, directives: Vec<AstDirective>|
        {
            &&& #[trigger] reads_document(index, text, path, files, Ok((doc, directives)))
            &&& builds_whole(registry, doc, directives@, options, result)
        }
}

/// Reads documents and builds them with what a registry knows. Each gets an identity of its own.
#[derive(Debug)]
pub struct ConfigDocumentParser<'r> {
    registry: &'r ConfigRegistry,
    syntax: TypedConfigParser,
}

impl<'r> ConfigDocumentParser<'r> {
    /// The index of the next document.
    pub closed spec fn next(self) -> u64 {
        self.syntax.next()
    }

    /// What is known of directives.
    pub closed spec fn knows(self) -> RegistryView {
        self.registry@
    }

    pub fn new(registry: &'r ConfigRegistry) -> (parser: Self)
        ensures
            parser.next() == 0,
            parser.knows() == registry@,
    {
        ConfigDocumentParser { registry, syntax: TypedConfigParser::new() }
    }

    /// Loads a document for a role.
    pub fn parse_text(
        &mut self,
        text: &str,
        path: &UnixPath,
        role: ConfigDocumentRole<'_>,
        files: &IncludeFiles,
    ) -> (result: Result<ParsedConfigDocument, ConfigLoadFailure>)
        ensures
            loads_for_role(
                old(self).knows(),
                old(self).next(),
                text@,
                path@,
                role,
                files@,
                result,
            ),
            final(self).knows() == old(self).knows(),
            final(self).next() == next_index(old(self).next()),
    {
        let (doc, directives) = match self.syntax.syntax(text, path, files) {
            Ok(document) => document,
            Err(failure) => {
                return Err(failure);
            },
        };
        let ghost index = old(self).next();
        assert(reads_document(index, text@, path@, files@, Ok((doc, directives))));
        let ghost sources = doc;
        let doc = Arc::new(doc);
        let built = self.registry.build_for_role(
            Arc::clone(&doc),
            &directives,
            role.build_options(),
            role.kind(),
        );
        match built {
            Ok(document) => {
                assert(builds_role(old(self).knows(), sources, directives@, role, Ok(document)));
                Ok(document)
            },
            Err(error) => {
                let ghost read_error = error;
                let error = match error {
                    RoleDocumentBuildError::Role(source) => LoadConfigError::DocumentRole { source },
                    RoleDocumentBuildError::Build(source) => {
                        LoadConfigError::BuildDocument { source }
                    },
                };
                assert(error == role_failure(read_error));
                let failure = failed(&doc, error);
                assert(builds_role(old(self).knows(), sources, directives@, role, Err(failure)));
                Err(failure)
            },
        }
    }

    /// Loads a document of any shape.
    pub fn load_text(
        &mut self,
        text: &str,
        path: &UnixPath,
        options: BuildOptions<'_>,
        files: &IncludeFiles,
    ) -> (result: Result<ConfigDocument, ConfigLoadFailure>)
        ensures
            loads_whole(
                old(self).knows(),
                old(self).next(),
                text@,
                path@,
                options,
                files@,
                result,
            ),
            final(self).knows() == old(self).knows(),
            final(self).next() == next_index(old(self).next()),
    {
        let (doc, directives) = match self.syntax.syntax(text, path, files) {
            Ok(document) => document,
            Err(failure) => {
                return Err(failure);
            },
        };
        let ghost index = old(self).next();
        assert(reads_document(index, text@, path@, files@, Ok((doc, directives))));
        let ghost sources = doc;
        let doc = Arc::new(doc);
        match self.registry.build(Arc::clone(&doc), &directives, options) {
            Ok(document) => {
                assert(builds_whole(old(self).knows(), sources, directives@, options, Ok(document)));
                Ok(document)
            },
            Err(source) => {
                let failure = failed(&doc, LoadConfigError::BuildDocument { source });
                assert(builds_whole(old(self).knows(), sources, directives@, options, Err(failure)));
                Err(failure)
            },
        }
    }
}

fn failed(doc: &ConfigDocumentSourceMap, error: LoadConfigError) -> (failure: ConfigLoadFailure)
    requires
        doc.sources().wf(),
    ensures
        is_document_failure(failure, *doc, error),
{
    ConfigLoadFailure {
        error,
        source_map: doc.source_map().clone(),
        document_id: Some(doc.document_id()),
    }
}

/// The document of the root is built without an identity, in its home where it has one; that of a
/// worker in its home and without an identity; and that of an identity in its home and for it.
pub proof fn roles_give_what_blocks_are_built_with<'a>(role: ConfigDocumentRole<'a>)
    ensures
        match role {
            ConfigDocumentRole::HypervisorRoot { home } => role.options().dhttp_home == home
                && role.options().identity_profile is None && role.of_kind() is HypervisorRoot,
            ConfigDocumentRole::WorkerPishoo { home } => role.options().dhttp_home == Some(home)
                && role.options().identity_profile is None && role.of_kind() is WorkerPishoo,
            ConfigDocumentRole::IdentityServer { home, profile } => role.options().dhttp_home
                == Some(home) && role.options().identity_profile == Some(profile)
                && role.of_kind() is IdentityServer,
        },
{
}

} // verus!
