//! Checks on a block once all its directives are read.
use vstd::prelude::*;

use crate::parse::error::ConfigQueryError;
use crate::parse::source::SourceSpan;
use crate::text::texts;

verus! {

/// Why a server block is not complete.
#[derive(Debug)]
pub enum FinalizeServerError {
    MissingListen { span: SourceSpan },
    MissingCertificate { span: SourceSpan },
    MissingCertificateKey { span: SourceSpan },
    InvalidAttachedParent { span: SourceSpan },
    MissingAttachedLocationPattern { span: SourceSpan },
}

impl FinalizeServerError {
    /// The message of this error.
    pub open spec fn text(self) -> Seq<char> {
        match self {
            FinalizeServerError::MissingListen { .. } => "missing listen directive in server context"@,
            FinalizeServerError::MissingCertificate { .. } => "missing ssl_certificate directive in server context"@,
            FinalizeServerError::MissingCertificateKey { .. } => "missing ssl_certificate_key directive in server context"@,
            FinalizeServerError::InvalidAttachedParent { .. } => "server context is not attached to the home PISHOO context"@,
            FinalizeServerError::MissingAttachedLocationPattern { .. } => "attached location context is missing its parsed pattern"@,
        }
    }

    /// The message of this error.
    pub fn message(&self) -> (text: String)
        ensures
            text@ == self.text(),
    {
        match self {
            FinalizeServerError::MissingListen { .. } => "missing listen directive in server context".to_owned(),
            FinalizeServerError::MissingCertificate { .. } => "missing ssl_certificate directive in server context".to_owned(),
            FinalizeServerError::MissingCertificateKey { .. } => "missing ssl_certificate_key directive in server context".to_owned(),
            FinalizeServerError::InvalidAttachedParent { .. } => "server context is not attached to the home PISHOO context".to_owned(),
            FinalizeServerError::MissingAttachedLocationPattern { .. } => "attached location context is missing its parsed pattern".to_owned(),
        }
    }

    /// The messages of this error and of what caused it, outermost first.
    pub open spec fn chain(self) -> Seq<Seq<char>> {
        seq![self.text()]
    }

    /// The messages of this error and of what caused it, outermost first.
    pub fn messages(&self) -> (list: Vec<String>)
        ensures
            texts(list@) == self.chain(),
    {
        let mut list: Vec<String> = Vec::new();
        list.push(self.message());
        assert(texts(list@) =~= self.chain());
        list
    }
}

/// Why a location block is not complete.
#[derive(Debug)]
pub enum FinalizeLocationError {
    MissingPattern { span: SourceSpan },
    ProxyTlsPair { span: SourceSpan },
    ProxyPassUriInRegexLocation { span: SourceSpan },
}

impl FinalizeLocationError {
    /// The message of this error.
    pub open spec fn text(self) -> Seq<char> {
        match self {
            FinalizeLocationError::MissingPattern { .. } => "location context is missing its parsed pattern payload"@,
            FinalizeLocationError::ProxyTlsPair { .. } => "proxy_ssl_certificate and proxy_ssl_certificate_key must be configured together"@,
            FinalizeLocationError::ProxyPassUriInRegexLocation { .. } => "proxy_pass cannot include a uri part inside regex location"@,
        }
    }

    /// The message of this error.
    pub fn message(&self) -> (text: String)
        ensures
            text@ == self.text(),
    {
        match self {
            FinalizeLocationError::MissingPattern { .. } => "location context is missing its parsed pattern payload".to_owned(),
            FinalizeLocationError::ProxyTlsPair { .. } => "proxy_ssl_certificate and proxy_ssl_certificate_key must be configured together".to_owned(),
            FinalizeLocationError::ProxyPassUriInRegexLocation { .. } => "proxy_pass cannot include a uri part inside regex location".to_owned(),
        }
    }

    /// The messages of this error and of what caused it, outermost first.
    pub open spec fn chain(self) -> Seq<Seq<char>> {
        seq![self.text()]
    }

    /// The messages of this error and of what caused it, outermost first.
    pub fn messages(&self) -> (list: Vec<String>)
        ensures
            texts(list@) == self.chain(),
    {
        let mut list: Vec<String> = Vec::new();
        list.push(self.message());
        assert(texts(list@) =~= self.chain());
        list
    }
}

/// Why a proxy block is not complete.
#[derive(Debug)]
pub enum FinalizeProxyError {
    MissingListen { span: SourceSpan },
}

impl FinalizeProxyError {
    /// The message of this error.
    pub open spec fn text(self) -> Seq<char> {
        match self {
            FinalizeProxyError::MissingListen { .. } => "missing listen directive in proxy context"@,
        }
    }

    /// The message of this error.
    pub fn message(&self) -> (text: String)
        ensures
            text@ == self.text(),
    {
        match self {
            FinalizeProxyError::MissingListen { .. } => "missing listen directive in proxy context".to_owned(),
        }
    }

    /// The messages of this error and of what caused it, outermost first.
    pub open spec fn chain(self) -> Seq<Seq<char>> {
        seq![self.text()]
    }

    /// The messages of this error and of what caused it, outermost first.
    pub fn messages(&self) -> (list: Vec<String>)
        ensures
            texts(list@) == self.chain(),
    {
        let mut list: Vec<String> = Vec::new();
        list.push(self.message());
        assert(texts(list@) =~= self.chain());
        list
    }
}

/// Why a block is not complete.
#[derive(Debug)]
pub enum FinalizeError {
    Query(ConfigQueryError),
    Server(FinalizeServerError),
    Location(FinalizeLocationError),
    Proxy(FinalizeProxyError),
}

impl FinalizeError {
    /// The message of this error.
    pub open spec fn text(self) -> Seq<char> {
        match self {
            FinalizeError::Query(error) => error.text(),
            FinalizeError::Server(error) => error.text(),
            FinalizeError::Location(error) => error.text(),
            FinalizeError::Proxy(error) => error.text(),
        }
    }

    /// The message of this error.
    pub fn message(&self) -> (text: String)
        ensures
            text@ == self.text(),
    {
        match self {
            FinalizeError::Query(error) => error.message(),
            FinalizeError::Server(error) => error.message(),
            FinalizeError::Location(error) => error.message(),
            FinalizeError::Proxy(error) => error.message(),
        }
    }

    /// The messages of this error and of what caused it, outermost first.
    pub open spec fn chain(self) -> Seq<Seq<char>> {
        match self {
            FinalizeError::Query(error) => error.chain(),
            FinalizeError::Server(error) => error.chain(),
            FinalizeError::Location(error) => error.chain(),
            FinalizeError::Proxy(error) => error.chain(),
        }
    }

    /// The messages of this error and of what caused it, outermost first.
    pub fn messages(&self) -> (list: Vec<String>)
        ensures
            texts(list@) == self.chain(),
    {
        match self {
            FinalizeError::Query(error) => error.messages(),
            FinalizeError::Server(error) => error.messages(),
            FinalizeError::Location(error) => error.messages(),
            FinalizeError::Proxy(error) => error.messages(),
        }
    }
}

} // verus!
