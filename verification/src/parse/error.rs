//! Why documents cannot be loaded or asked.
use vstd::prelude::*;

use crate::number::{decimal, push_decimal};
use crate::parse::block::BuildTypedConfigError;
use crate::parse::builtin::DirectiveError;
use crate::parse::context::ContextKey;
use crate::parse::contract::{CascadePolicy, DirectiveContractMismatch};
use crate::parse::domain::{
    ConfigDocumentId, ConfigDocumentIdError, ConfigDocumentRoleKind, ConfigSourceSpan,
    DirectiveName,
};
use crate::parse::finalize::FinalizeError;
use crate::parse::grammar::ParseSyntaxError;
use crate::parse::inclusion::ResolveIncludeError;
use crate::parse::normalize::NormalizeDirectiveValueError;
use crate::parse::source::{SourceId, SourceMap, SourceSpan};
use crate::path::UnixPath;
use crate::text::{push_str, texts};

verus! {

/// Why a document cannot be loaded.
#[derive(Debug)]
#[allow(inconsistent_fields)]
pub enum LoadConfigError {
    DocumentId { source: ConfigDocumentIdError },
    ReadSource { path: UnixPath },
    ParseFile { source_id: SourceId, source: ParseSyntaxError },
    ResolveInclude { source: ResolveIncludeError },
    BuildTyped { source: BuildTypedConfigError },
    BuildDocument { source: BuildDocumentError },
    DocumentRole { source: ConfigDocumentRoleError },
}

impl LoadConfigError {
    /// The message of this error.
    pub open spec fn text(self) -> Seq<char> {
        match self {
            LoadConfigError::DocumentId { .. } => "failed to allocate configuration document identity"@,
            LoadConfigError::ReadSource { .. } => "failed to read configuration source"@,
            LoadConfigError::ParseFile { .. } => "failed to parse configuration file"@,
            LoadConfigError::ResolveInclude { .. } => "failed to resolve configuration includes"@,
            LoadConfigError::BuildTyped { .. } => "failed to build typed configuration"@,
            LoadConfigError::BuildDocument { .. } => "failed to build configuration document"@,
            LoadConfigError::DocumentRole { .. } => "configuration document is invalid for its role"@,
        }
    }

    /// The message of this error.
    pub fn message(&self) -> (text: String)
        ensures
            text@ == self.text(),
    {
        match self {
            LoadConfigError::DocumentId { .. } => "failed to allocate configuration document identity".to_owned(),
            LoadConfigError::ReadSource { .. } => "failed to read configuration source".to_owned(),
            LoadConfigError::ParseFile { .. } => "failed to parse configuration file".to_owned(),
            LoadConfigError::ResolveInclude { .. } => "failed to resolve configuration includes".to_owned(),
            LoadConfigError::BuildTyped { .. } => "failed to build typed configuration".to_owned(),
            LoadConfigError::BuildDocument { .. } => "failed to build configuration document".to_owned(),
            LoadConfigError::DocumentRole { .. } => "configuration document is invalid for its role".to_owned(),
        }
    }

    /// The messages of this error and of what caused it, outermost first.
    pub open spec fn chain(self) -> Seq<Seq<char>> {
        match self {
            LoadConfigError::DocumentId { source } => seq![self.text(), source.text()],
            LoadConfigError::ParseFile { source, .. } => seq![self.text(), source.text()],
            LoadConfigError::ResolveInclude { source } => seq![self.text()] + source.chain(),
            LoadConfigError::BuildTyped { source } => seq![self.text()] + source.chain(),
            LoadConfigError::BuildDocument { source } => seq![self.text()] + source.chain(),
            LoadConfigError::DocumentRole { source } => seq![self.text()] + source.chain(),
            _ => seq![self.text()],
        }
    }

    /// The messages of this error and of what caused it, outermost first.
    pub fn messages(&self) -> (list: Vec<String>)
        ensures
            texts(list@) == self.chain(),
    {
        let mut list: Vec<String> = Vec::new();
        list.push(self.message());
        match self {
            LoadConfigError::DocumentId { source } => {
                list.push(source.message());
            },
            LoadConfigError::ParseFile { source, .. } => {
                list.push(source.message());
            },
            LoadConfigError::ResolveInclude { source } => {
                let mut causes = source.messages();
                let ghost head = list@;
                let ghost tail = causes@;
                list.append(&mut causes);
                assert(texts(list@) =~= texts(head) + texts(tail));
                assert(texts(head) =~= seq![self.text()]);
            },
            LoadConfigError::BuildTyped { source } => {
                let mut causes = source.messages();
                let ghost head = list@;
                let ghost tail = causes@;
                list.append(&mut causes);
                assert(texts(list@) =~= texts(head) + texts(tail));
                assert(texts(head) =~= seq![self.text()]);
            },
            LoadConfigError::BuildDocument { source } => {
                let mut causes = source.messages();
                let ghost head = list@;
                let ghost tail = causes@;
                list.append(&mut causes);
                assert(texts(list@) =~= texts(head) + texts(tail));
                assert(texts(head) =~= seq![self.text()]);
            },
            LoadConfigError::DocumentRole { source } => {
                let mut causes = source.messages();
                let ghost head = list@;
                let ghost tail = causes@;
                list.append(&mut causes);
                assert(texts(list@) =~= texts(head) + texts(tail));
                assert(texts(head) =~= seq![self.text()]);
            },
            _ => {},
        }
        assert(texts(list@) =~= self.chain());
        list
    }
}

/// Why a document does not serve its purpose.
#[derive(Debug)]
pub enum ConfigDocumentRoleError {
    DirectiveNotAllowed { directive: DirectiveName, role: ConfigDocumentRoleKind, span: ConfigSourceSpan },
    ExpectedSinglePishoo { role: ConfigDocumentRoleKind, found: usize, span: ConfigSourceSpan },
    MissingIdentityServer { role: ConfigDocumentRoleKind, span: ConfigSourceSpan },
    InvalidDirectiveRegistration { directive: DirectiveName, role: ConfigDocumentRoleKind, expected_child_context: ContextKey, span: ConfigSourceSpan },
    MissingBuiltDirective { directive: DirectiveName, role: ConfigDocumentRoleKind, span: ConfigSourceSpan },
}

impl ConfigDocumentRoleError {
    /// The message of this error.
    pub open spec fn text(self) -> Seq<char> {
        match self {
            ConfigDocumentRoleError::DirectiveNotAllowed { directive, role, .. } => "directive `"@ + directive.text() + "` is not allowed in a "@ + role.text() + " configuration document"@,
            ConfigDocumentRoleError::ExpectedSinglePishoo { role, found, .. } => role.text() + " configuration document must contain exactly one top-level pishoo block, found "@ + decimal(found as nat),
            ConfigDocumentRoleError::MissingIdentityServer { .. } => "identity server configuration document must contain at least one server block"@,
            ConfigDocumentRoleError::InvalidDirectiveRegistration { directive, role, expected_child_context, .. } => "directive `"@ + directive.text() + "` has an invalid registry contract for a "@ + role.text() + " configuration document; expected a top-level `"@ + expected_child_context.text() + "` context block"@,
            ConfigDocumentRoleError::MissingBuiltDirective { directive, role, .. } => "directive `"@ + directive.text() + "` was not built for a "@ + role.text() + " configuration document"@,
        }
    }

    /// The message of this error.
    pub fn message(&self) -> (text: String)
        ensures
            text@ == self.text(),
    {
        match self {
            ConfigDocumentRoleError::DirectiveNotAllowed { directive, role, .. } => {
                let mut text = "directive `".to_owned();
                let directive_text = directive.to_text();
                push_str(&mut text, directive_text.as_str());
                push_str(&mut text, "` is not allowed in a ");
                let role_text = role.to_text();
                push_str(&mut text, role_text.as_str());
                push_str(&mut text, " configuration document");
                text
            },
            ConfigDocumentRoleError::ExpectedSinglePishoo { role, found, .. } => {
                let role_text = role.to_text();
                let mut text = role_text.as_str().to_owned();
                push_str(&mut text, " configuration document must contain exactly one top-level pishoo block, found ");
                push_decimal(&mut text, *found as u64);
                text
            },
            ConfigDocumentRoleError::MissingIdentityServer { .. } => "identity server configuration document must contain at least one server block".to_owned(),
            ConfigDocumentRoleError::InvalidDirectiveRegistration { directive, role, expected_child_context, .. } => {
                let mut text = "directive `".to_owned();
                let directive_text = directive.to_text();
                push_str(&mut text, directive_text.as_str());
                push_str(&mut text, "` has an invalid registry contract for a ");
                let role_text = role.to_text();
                push_str(&mut text, role_text.as_str());
                push_str(&mut text, " configuration document; expected a top-level `");
                let expected_child_context_text = expected_child_context.to_text();
                push_str(&mut text, expected_child_context_text.as_str());
                push_str(&mut text, "` context block");
                text
            },
            ConfigDocumentRoleError::MissingBuiltDirective { directive, role, .. } => {
                let mut text = "directive `".to_owned();
                let directive_text = directive.to_text();
                push_str(&mut text, directive_text.as_str());
                push_str(&mut text, "` was not built for a ");
                let role_text = role.to_text();
                push_str(&mut text, role_text.as_str());
                push_str(&mut text, " configuration document");
                text
            },
        }
    }

    /// The messages of this error and of what caused it, outermost first.
    pub open spec fn chain(self) -> Seq<Seq<char>> {
        seq![self.text()]
    }

    /// The messages of this error and of what caused it, outermost first.
    pub fn messages(&self) -> (list: Vec<String>)
        ensures
            texts(list@) == self.chain(),
    {
        let mut list: Vec<String> = Vec::new();
        list.push(self.message());
        assert(texts(list@) =~= self.chain());
        list
    }
}

/// Why directives do not form a document.
#[derive(Debug)]
#[allow(inconsistent_fields)]
pub enum BuildDocumentError {
    UnknownDirective { directive: String, span: SourceSpan },
    InvalidContext { directive: String, context: &'static str, span: SourceSpan },
    InvalidDirectiveShape { directive: String, span: SourceSpan },
    DirectiveParse { directive: String, span: SourceSpan, source: DirectiveError },
    DuplicateDirective { directive: String, first: SourceSpan, duplicate: SourceSpan },
    NormalizeDirectiveValue { directive: String, span: SourceSpan, source: NormalizeDirectiveValueError },
    MissingRequiredDirective { directive: &'static str, context_span: SourceSpan },
    FinalizeContext { context: &'static str, span: SourceSpan, source: FinalizeError },
}

impl BuildDocumentError {
    /// The message of this error.
    pub open spec fn text(self) -> Seq<char> {
        match self {
            BuildDocumentError::UnknownDirective { directive, .. } => "unknown directive `"@ + directive@ + "`"@,
            BuildDocumentError::InvalidContext { directive, .. } => "directive `"@ + directive@ + "` is not valid in this context"@,
            BuildDocumentError::InvalidDirectiveShape { directive, .. } => "invalid directive shape for `"@ + directive@ + "`"@,
            BuildDocumentError::DirectiveParse { directive, .. } => "failed to parse directive `"@ + directive@ + "`"@,
            BuildDocumentError::DuplicateDirective { directive, .. } => "duplicate directive `"@ + directive@ + "`"@,
            BuildDocumentError::NormalizeDirectiveValue { directive, .. } => "failed to normalize directive `"@ + directive@ + "`"@,
            BuildDocumentError::MissingRequiredDirective { directive, .. } => "missing required directive `"@ + directive@ + "`"@,
            BuildDocumentError::FinalizeContext { .. } => "failed to finalize configuration context"@,
        }
    }

    /// The message of this error.
    pub fn message(&self) -> (text: String)
        ensures
            text@ == self.text(),
    {
        match self {
            BuildDocumentError::UnknownDirective { directive, .. } => {
                let mut text = "unknown directive `".to_owned();
                push_str(&mut text, directive.as_str());
                push_str(&mut text, "`");
                text
            },
            BuildDocumentError::InvalidContext { directive, .. } => {
                let mut text = "directive `".to_owned();
                push_str(&mut text, directive.as_str());
                push_str(&mut text, "` is not valid in this context");
                text
            },
            BuildDocumentError::InvalidDirectiveShape { directive, .. } => {
                let mut text = "invalid directive shape for `".to_owned();
                push_str(&mut text, directive.as_str());
                push_str(&mut text, "`");
                text
            },
            BuildDocumentError::DirectiveParse { directive, .. } => {
                let mut text = "failed to parse directive `".to_owned();
                push_str(&mut text, directive.as_str());
                push_str(&mut text, "`");
                text
            },
            BuildDocumentError::DuplicateDirective { directive, .. } => {
                let mut text = "duplicate directive `".to_owned();
                push_str(&mut text, directive.as_str());
                push_str(&mut text, "`");
                text
            },
            BuildDocumentError::NormalizeDirectiveValue { directive, .. } => {
                let mut text = "failed to normalize directive `".to_owned();
                push_str(&mut text, directive.as_str());
                push_str(&mut text, "`");
                text
            },
            BuildDocumentError::MissingRequiredDirective { directive, .. } => {
                let mut text = "missing required directive `".to_owned();
                push_str(&mut text, directive);
                push_str(&mut text, "`");
                text
            },
            BuildDocumentError::FinalizeContext { .. } => "failed to finalize configuration context".to_owned(),
        }
    }

    /// The messages of this error and of what caused it, outermost first.
    pub open spec fn chain(self) -> Seq<Seq<char>> {
        match self {
            BuildDocumentError::DirectiveParse { source, .. } => seq![self.text()] + source.chain(),
            BuildDocumentError::NormalizeDirectiveValue { source, .. } => seq![self.text()] + source.chain(),
            BuildDocumentError::FinalizeContext { source, .. } => seq![self.text()] + source.chain(),
            _ => seq![self.text()],
        }
    }

    /// The messages of this error and of what caused it, outermost first.
    pub fn messages(&self) -> (list: Vec<String>)
        ensures
            texts(list@) == self.chain(),
    {
        let mut list: Vec<String> = Vec::new();
        list.push(self.message());
        match self {
            BuildDocumentError::DirectiveParse { source, .. } => {
                let mut causes = source.messages();
                let ghost head = list@;
                let ghost tail = causes@;
                list.append(&mut causes);
                assert(texts(list@) =~= texts(head) + texts(tail));
                assert(texts(head) =~= seq![self.text()]);
            },
            BuildDocumentError::NormalizeDirectiveValue { source, .. } => {
                let mut causes = source.messages();
                let ghost head = list@;
                let ghost tail = causes@;
                list.append(&mut causes);
                assert(texts(list@) =~= texts(head) + texts(tail));
                assert(texts(head) =~= seq![self.text()]);
            },
            BuildDocumentError::FinalizeContext { source, .. } => {
                let mut causes = source.messages();
                let ghost head = list@;
                let ghost tail = causes@;
                list.append(&mut causes);
                assert(texts(list@) =~= texts(head) + texts(tail));
                assert(texts(head) =~= seq![self.text()]);
            },
            _ => {},
        }
        assert(texts(list@) =~= self.chain());
        list
    }
}

/// Why a document does not answer a question.
#[derive(Debug)]
#[allow(inconsistent_fields)]
pub enum ConfigQueryError {
    MissingRequired { directive: String, span: SourceSpan },
    TypeMismatch { directive: String, expected: &'static str, actual: &'static str, span: SourceSpan },
    MultipleValues { directive: String, span: SourceSpan },
    MissingChild { directive: String, span: SourceSpan },
    CascadePolicyMismatch { directive: String, inherited_context: ContextKey, inherited: CascadePolicy, local_context: ContextKey, local: CascadePolicy },
    ContractMismatch { directive: DirectiveName, context: ContextKey, mismatch: DirectiveContractMismatch },
    MissingCascadePolicy { directive: String },
    UnsupportedCascadePolicy { directive: String, policy: CascadePolicy },
}

impl ConfigQueryError {
    /// The message of this error.
    pub open spec fn text(self) -> Seq<char> {
        match self {
            ConfigQueryError::MissingRequired { directive, .. } => "missing required directive `"@ + directive@ + "`"@,
            ConfigQueryError::TypeMismatch { directive, .. } => "directive `"@ + directive@ + "` has unexpected value type"@,
            ConfigQueryError::MultipleValues { directive, .. } => "directive `"@ + directive@ + "` has multiple values"@,
            ConfigQueryError::MissingChild { directive, .. } => "missing child directive `"@ + directive@ + "`"@,
            ConfigQueryError::CascadePolicyMismatch { directive, inherited_context, inherited, local_context, local } => "directive `"@ + directive@ + "` has inconsistent cascade policies: context `"@ + inherited_context.text() + "` uses "@ + inherited.text() + ", context `"@ + local_context.text() + "` uses "@ + local.text(),
            ConfigQueryError::ContractMismatch { directive, context, mismatch } => "directive `"@ + directive.text() + "` has an incompatible contract in context `"@ + context.text() + "`: "@ + mismatch.text(),
            ConfigQueryError::MissingCascadePolicy { directive } => "directive `"@ + directive@ + "` has no registered cascade policy"@,
            ConfigQueryError::UnsupportedCascadePolicy { directive, policy } => "directive `"@ + directive@ + "` does not support typed cascading with "@ + policy.text(),
        }
    }

    /// The message of this error.
    pub fn message(&self) -> (text: String)
        ensures
            text@ == self.text(),
    {
        match self {
            ConfigQueryError::MissingRequired { directive, .. } => {
                let mut text = "missing required directive `".to_owned();
                push_str(&mut text, directive.as_str());
                push_str(&mut text, "`");
                text
            },
            ConfigQueryError::TypeMismatch { directive, .. } => {
                let mut text = "directive `".to_owned();
                push_str(&mut text, directive.as_str());
                push_str(&mut text, "` has unexpected value type");
                text
            },
            ConfigQueryError::MultipleValues { directive, .. } => {
                let mut text = "directive `".to_owned();
                push_str(&mut text, directive.as_str());
                push_str(&mut text, "` has multiple values");
                text
            },
            ConfigQueryError::MissingChild { directive, .. } => {
                let mut text = "missing child directive `".to_owned();
                push_str(&mut text, directive.as_str());
                push_str(&mut text, "`");
                text
            },
            ConfigQueryError::CascadePolicyMismatch { directive, inherited_context, inherited, local_context, local } => {
                let mut text = "directive `".to_owned();
                push_str(&mut text, directive.as_str());
                push_str(&mut text, "` has inconsistent cascade policies: context `");
                let inherited_context_text = inherited_context.to_text();
                push_str(&mut text, inherited_context_text.as_str());
                push_str(&mut text, "` uses ");
                let inherited_text = inherited.to_text();
                push_str(&mut text, inherited_text.as_str());
                push_str(&mut text, ", context `");
                let local_context_text = local_context.to_text();
                push_str(&mut text, local_context_text.as_str());
                push_str(&mut text, "` uses ");
                let local_text = local.to_text();
                push_str(&mut text, local_text.as_str());
                text
            },
            ConfigQueryError::ContractMismatch { directive, context, mismatch } => {
                let mut text = "directive `".to_owned();
                let directive_text = directive.to_text();
                push_str(&mut text, directive_text.as_str());
                push_str(&mut text, "` has an incompatible contract in context `");
                let context_text = context.to_text();
                push_str(&mut text, context_text.as_str());
                push_str(&mut text, "`: ");
                let mismatch_text = mismatch.to_text();
                push_str(&mut text, mismatch_text.as_str());
                text
            },
            ConfigQueryError::MissingCascadePolicy { directive } => {
                let mut text = "directive `".to_owned();
                push_str(&mut text, directive.as_str());
                push_str(&mut text, "` has no registered cascade policy");
                text
            },
            ConfigQueryError::UnsupportedCascadePolicy { directive, policy } => {
                let mut text = "directive `".to_owned();
                push_str(&mut text, directive.as_str());
                push_str(&mut text, "` does not support typed cascading with ");
                let policy_text = policy.to_text();
                push_str(&mut text, policy_text.as_str());
                text
            },
        }
    }

    /// The messages of this error and of what caused it, outermost first.
    pub open spec fn chain(self) -> Seq<Seq<char>> {
        seq![self.text()]
    }

    /// The messages of this error and of what caused it, outermost first.
    pub fn messages(&self) -> (list: Vec<String>)
        ensures
            texts(list@) == self.chain(),
    {
        let mut list: Vec<String> = Vec::new();
        list.push(self.message());
        assert(texts(list@) =~= self.chain());
        list
    }
}

/// A document that could not be loaded, with what its sources were.
#[derive(Debug)]
pub struct ConfigLoadFailure {
    pub error: LoadConfigError,
    pub source_map: SourceMap,
    pub document_id: Option<ConfigDocumentId>,
}

impl ConfigLoadFailure {
    /// The message of this failure.
    pub open spec fn text(self) -> Seq<char> {
        "failed to load configuration"@
    }

    /// The message of this failure.
    pub fn message(&self) -> (text: String)
        ensures
            text@ == self.text(),
    {
        "failed to load configuration".to_owned()
    }

    /// The messages of this failure and of what caused it, outermost first.
    pub open spec fn chain(self) -> Seq<Seq<char>> {
        seq![self.text()] + self.error.chain()
    }

    /// The messages of this failure and of what caused it, outermost first.
    pub fn messages(&self) -> (list: Vec<String>)
        ensures
            texts(list@) == self.chain(),
    {
        let mut list: Vec<String> = Vec::new();
        list.push(self.message());
        let mut causes = self.error.messages();
        let ghost head = list@;
        let ghost tail = causes@;
        list.append(&mut causes);
        assert(texts(list@) =~= texts(head) + texts(tail));
        assert(texts(head) =~= seq![self.text()]);
        list
    }

    pub fn document_id(&self) -> (id: Option<ConfigDocumentId>)
        ensures
            id == self.document_id,
    {
        self.document_id
    }
}

} // verus!
