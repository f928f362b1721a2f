//! Blocks of directives, read setting by setting.
use vstd::prelude::*;

use crate::parse::ast::{lemma_named_step, named, AstDirective};
use crate::parse::builtin::DirectiveError;
use crate::parse::config::AccessLogDirective;
use crate::parse::decode::DirectiveValue;
use crate::parse::domain::ResolvedConfigPath;
use crate::parse::source::{SourceMap, SourceSpan};
use crate::parse::types::SocketAddrs;
use crate::parse::value::{
    read_data, reads_as, reads_data, reads_data_one_way, ConfigData, ConfigValue, KnownValue, ValueKind,
};
use crate::text::{push_str, str_eq, texts};

verus! {

/// Why a document does not give a configuration.
#[derive(Debug)]
#[allow(inconsistent_fields)]
pub enum BuildTypedConfigError {
    UnknownDirective { name: String, context: &'static str, span: SourceSpan },
    Shape { name: String, span: SourceSpan },
    Duplicate { name: String, first: SourceSpan, duplicate: SourceSpan },
    Directive { name: String, span: SourceSpan, source: DirectiveError },
    Missing { name: &'static str, span: SourceSpan },
    PishooCardinality { span: SourceSpan },
    WorkerServer { span: SourceSpan },
    ServerTlsPair { span: SourceSpan },
    StandaloneTls { span: SourceSpan },
    AmbiguousProfile { span: SourceSpan },
    IdentityName { span: SourceSpan },
    IdentityTls { span: SourceSpan },
    ProxyTlsPair { span: SourceSpan },
    RegexProxyUri { span: SourceSpan },
    DirectDefaultAccessLog { span: SourceSpan },
    AccessLogArgument { span: SourceSpan },
    ForwardListen { span: SourceSpan },
}

impl BuildTypedConfigError {
    /// The message of this error.
    pub open spec fn text(self) -> Seq<char> {
        match self {
            BuildTypedConfigError::UnknownDirective { name, context, .. } => "unknown directive `"@ + name@ + "` in "@ + context@,
            BuildTypedConfigError::Shape { name, .. } => "directive `"@ + name@ + "` has the wrong shape"@,
            BuildTypedConfigError::Duplicate { name, .. } => "duplicate directive `"@ + name@ + "`"@,
            BuildTypedConfigError::Directive { name, .. } => "failed to parse directive `"@ + name@ + "`"@,
            BuildTypedConfigError::Missing { name, .. } => "missing required directive `"@ + name@ + "`"@,
            BuildTypedConfigError::PishooCardinality { .. } => "configuration must contain exactly one pishoo block"@,
            BuildTypedConfigError::WorkerServer { .. } => "worker configuration cannot contain server blocks"@,
            BuildTypedConfigError::ServerTlsPair { .. } => "server certificate and private key must be configured together"@,
            BuildTypedConfigError::StandaloneTls { .. } => "standalone server requires certificate and private key"@,
            BuildTypedConfigError::AmbiguousProfile { .. } => "implicit profile TLS requires exactly one server_name"@,
            BuildTypedConfigError::IdentityName { .. } => "identity server must bind exactly its profile name"@,
            BuildTypedConfigError::IdentityTls { .. } => "identity server cannot override profile TLS paths"@,
            BuildTypedConfigError::ProxyTlsPair { .. } => "proxy certificate and private key must be configured together"@,
            BuildTypedConfigError::RegexProxyUri { .. } => "proxy_pass cannot include a URI part in a regex location"@,
            BuildTypedConfigError::DirectDefaultAccessLog { .. } => "access_log default is invalid for a direct server"@,
            BuildTypedConfigError::AccessLogArgument { .. } => "access_log expects exactly one argument"@,
            BuildTypedConfigError::ForwardListen { .. } => "forward proxy requires exactly one listen address"@,
        }
    }

    /// The message of this error.
    pub fn message(&self) -> (text: String)
        ensures
            text@ == self.text(),
    {
        match self {
            BuildTypedConfigError::UnknownDirective { name, context, .. } => {
                let mut text = "unknown directive `".to_owned();
                push_str(&mut text, name.as_str());
                push_str(&mut text, "` in ");
                push_str(&mut text, context);
                text
            },
            BuildTypedConfigError::Shape { name, .. } => {
                let mut text = "directive `".to_owned();
                push_str(&mut text, name.as_str());
                push_str(&mut text, "` has the wrong shape");
                text
            },
            BuildTypedConfigError::Duplicate { name, .. } => {
                let mut text = "duplicate directive `".to_owned();
                push_str(&mut text, name.as_str());
                push_str(&mut text, "`");
                text
            },
            BuildTypedConfigError::Directive { name, .. } => {
                let mut text = "failed to parse directive `".to_owned();
                push_str(&mut text, name.as_str());
                push_str(&mut text, "`");
                text
            },
            BuildTypedConfigError::Missing { name, .. } => {
                let mut text = "missing required directive `".to_owned();
                push_str(&mut text, name);
                push_str(&mut text, "`");
                text
            },
            BuildTypedConfigError::PishooCardinality { .. } => "configuration must contain exactly one pishoo block".to_owned(),
            BuildTypedConfigError::WorkerServer { .. } => "worker configuration cannot contain server blocks".to_owned(),
            BuildTypedConfigError::ServerTlsPair { .. } => "server certificate and private key must be configured together".to_owned(),
            BuildTypedConfigError::StandaloneTls { .. } => "standalone server requires certificate and private key".to_owned(),
            BuildTypedConfigError::AmbiguousProfile { .. } => "implicit profile TLS requires exactly one server_name".to_owned(),
            BuildTypedConfigError::IdentityName { .. } => "identity server must bind exactly its profile name".to_owned(),
            BuildTypedConfigError::IdentityTls { .. } => "identity server cannot override profile TLS paths".to_owned(),
            BuildTypedConfigError::ProxyTlsPair { .. } => "proxy certificate and private key must be configured together".to_owned(),
            BuildTypedConfigError::RegexProxyUri { .. } => "proxy_pass cannot include a URI part in a regex location".to_owned(),
            BuildTypedConfigError::DirectDefaultAccessLog { .. } => "access_log default is invalid for a direct server".to_owned(),
            BuildTypedConfigError::AccessLogArgument { .. } => "access_log expects exactly one argument".to_owned(),
            BuildTypedConfigError::ForwardListen { .. } => "forward proxy requires exactly one listen address".to_owned(),
        }
    }

    /// The messages of this error and of what caused it, outermost first.
    pub open spec fn chain(self) -> Seq<Seq<char>> {
        match self {
            BuildTypedConfigError::Directive { source, .. } => seq![self.text()] + source.chain(),
            _ => seq![self.text()],
        }
    }

    /// The messages of this error and of what caused it, outermost first.
    pub fn messages(&self) -> (list: Vec<String>)
        ensures
            texts(list@) == self.chain(),
    {
        let mut list: Vec<String> = Vec::new();
        list.push(self.message());
        match self {
            BuildTypedConfigError::Directive { source, .. } => {
                let mut causes = source.messages();
                let ghost head = list@;
                let ghost tail = causes@;
                list.append(&mut causes);
                assert(texts(list@) =~= texts(head) + texts(tail));
                assert(texts(head) =~= seq![self.text()]);
            },
            _ => {},
        }
        assert(texts(list@) =~= self.chain());
        list
    }
}

/// A block whose directives are settings.
#[derive(Debug, Clone, Copy, PartialEq, Eq, Structural)]
pub enum Block {
    RootPishoo,
    WorkerPishoo,
    Server,
    Location,
    Proxy,
}

impl Block {
    /// How the block is called in messages.
    pub open spec fn text(self) -> Seq<char> {
        match self {
            Block::RootPishoo => "pishoo"@,
            Block::WorkerPishoo => "pishoo"@,
            Block::Server => "server"@,
            Block::Location => "location"@,
            Block::Proxy => "proxy"@,
        }
    }

    /// How the block is called in messages.
    pub fn name(self) -> (name: &'static str)
        ensures
            name@ == self.text(),
    {
        match self {
            Block::RootPishoo => "pishoo",
            Block::WorkerPishoo => "pishoo",
            Block::Server => "server",
            Block::Location => "location",
            Block::Proxy => "proxy",
        }
    }
}

/// What a directive of a block sets.
#[derive(Debug, Clone, Copy, PartialEq, Eq, Structural)]
pub enum Field {
    AccessRules,
    Gzip,
    GzipVary,
    GzipMinLength,
    GzipCompLevel,
    GzipTypes,
    DefaultType,
    Types,
    AccessLog,
    Server,
    Proxy,
    Pid,
    Workers,
    Groups,
    Listen,
    ServerName,
    Dns,
    SslCertificate,
    SslCertificateKey,
    Relay,
    Stun,
    StunServer,
    Location,
    Root,
    Alias,
    Index,
    AddHeader,
    ProxySetHeader,
    ProxyPass,
    ProxySslCertificate,
    ProxySslCertificateKey,
    ProxySslTrustedCertificate,
    SshLogin,
    SshSslUser,
    SshDeny,
    ProxyListen,
    Allow,
    Deny,
}

/// What an HTTP directive sets, which any block but that of a proxy may hold.
pub open spec fn http_field(name: Seq<char>) -> Option<Field> {
    if name == "access_rules"@ {
        Some(Field::AccessRules)
    } else if name == "gzip"@ {
        Some(Field::Gzip)
    } else if name == "gzip_vary"@ {
        Some(Field::GzipVary)
    } else if name == "gzip_min_length"@ {
        Some(Field::GzipMinLength)
    } else if name == "gzip_comp_level"@ {
        Some(Field::GzipCompLevel)
    } else if name == "gzip_types"@ {
        Some(Field::GzipTypes)
    } else if name == "default_type"@ {
        Some(Field::DefaultType)
    } else if name == "types"@ {
        Some(Field::Types)
    } else if name == "access_log"@ {
        Some(Field::AccessLog)
    } else {
        None
    }
}

/// What the directive with the given name sets in a block.
pub open spec fn field_of(block: Block, name: Seq<char>) -> Option<Field> {
    match block {
        Block::RootPishoo | Block::WorkerPishoo => {
            if name == "server"@ {
                Some(Field::Server)
            } else if name == "proxy"@ {
                Some(Field::Proxy)
            } else if name == "pid"@ {
                Some(Field::Pid)
            } else if name == "workers"@ {
                Some(Field::Workers)
            } else if name == "groups"@ {
                Some(Field::Groups)
            } else {
                http_field(name)
            }
        },
        Block::Server => {
            if name == "listen"@ {
                Some(Field::Listen)
            } else if name == "server_name"@ {
                Some(Field::ServerName)
            } else if name == "dns"@ {
                Some(Field::Dns)
            } else if name == "ssl_certificate"@ {
                Some(Field::SslCertificate)
            } else if name == "ssl_certificate_key"@ {
                Some(Field::SslCertificateKey)
            } else if name == "relay"@ {
                Some(Field::Relay)
            } else if name == "stun"@ {
                Some(Field::Stun)
            } else if name == "stun_server"@ {
                Some(Field::StunServer)
            } else if name == "location"@ {
                Some(Field::Location)
            } else {
                http_field(name)
            }
        },
        Block::Location => {
            if name == "root"@ {
                Some(Field::Root)
            } else if name == "alias"@ {
                Some(Field::Alias)
            } else if name == "index"@ {
                Some(Field::Index)
            } else if name == "add_header"@ {
                Some(Field::AddHeader)
            } else if name == "proxy_set_header"@ {
                Some(Field::ProxySetHeader)
            } else if name == "proxy_pass"@ {
                Some(Field::ProxyPass)
            } else if name == "proxy_ssl_certificate"@ {
                Some(Field::ProxySslCertificate)
            } else if name == "proxy_ssl_certificate_key"@ {
                Some(Field::ProxySslCertificateKey)
            } else if name == "proxy_ssl_trusted_certificate"@ {
                Some(Field::ProxySslTrustedCertificate)
            } else if name == "ssh_login"@ {
                Some(Field::SshLogin)
            } else if name == "ssh_ssl_user"@ {
                Some(Field::SshSslUser)
            } else if name == "ssh_deny"@ {
                Some(Field::SshDeny)
            } else {
                http_field(name)
            }
        },
        Block::Proxy => {
            if name == "listen"@ {
                Some(Field::ProxyListen)
            } else if name == "allow"@ {
                Some(Field::Allow)
            } else if name == "deny"@ {
                Some(Field::Deny)
            } else {
                None
            }
        },
    }
}

fn http_field_named(name: &str) -> (field: Option<Field>)
    ensures
        field == http_field(name@),
{
    if str_eq(name, "access_rules") {
        Some(Field::AccessRules)
    } else if str_eq(name, "gzip") {
        Some(Field::Gzip)
    } else if str_eq(name, "gzip_vary") {
        Some(Field::GzipVary)
    } else if str_eq(name, "gzip_min_length") {
        Some(Field::GzipMinLength)
    } else if str_eq(name, "gzip_comp_level") {
        Some(Field::GzipCompLevel)
    } else if str_eq(name, "gzip_types") {
        Some(Field::GzipTypes)
    } else if str_eq(name, "default_type") {
        Some(Field::DefaultType)
    } else if str_eq(name, "types") {
        Some(Field::Types)
    } else if str_eq(name, "access_log") {
        Some(Field::AccessLog)
    } else {
        None
    }
}

/// What the directive with the given name sets in a block.
pub fn field_named(block: Block, name: &str) -> (field: Option<Field>)
    ensures
        field == field_of(block, name@),
{
    match block {
        Block::RootPishoo | Block::WorkerPishoo => {
            if str_eq(name, "server") {
                Some(Field::Server)
            } else if str_eq(name, "proxy") {
                Some(Field::Proxy)
            } else if str_eq(name, "pid") {
                Some(Field::Pid)
            } else if str_eq(name, "workers") {
                Some(Field::Workers)
            } else if str_eq(name, "groups") {
                Some(Field::Groups)
            } else {
                http_field_named(name)
            }
        },
        Block::Server => {
            if str_eq(name, "listen") {
                Some(Field::Listen)
            } else if str_eq(name, "server_name") {
                Some(Field::ServerName)
            } else if str_eq(name, "dns") {
                Some(Field::Dns)
            } else if str_eq(name, "ssl_certificate") {
                Some(Field::SslCertificate)
            } else if str_eq(name, "ssl_certificate_key") {
                Some(Field::SslCertificateKey)
            } else if str_eq(name, "relay") {
                Some(Field::Relay)
            } else if str_eq(name, "stun") {
                Some(Field::Stun)
            } else if str_eq(name, "stun_server") {
                Some(Field::StunServer)
            } else if str_eq(name, "location") {
                Some(Field::Location)
            } else {
                http_field_named(name)
            }
        },
        Block::Location => {
            if str_eq(name, "root") {
                Some(Field::Root)
            } else if str_eq(name, "alias") {
                Some(Field::Alias)
            } else if str_eq(name, "index") {
                Some(Field::Index)
            } else if str_eq(name, "add_header") {
                Some(Field::AddHeader)
            } else if str_eq(name, "proxy_set_header") {
                Some(Field::ProxySetHeader)
            } else if str_eq(name, "proxy_pass") {
                Some(Field::ProxyPass)
            } else if str_eq(name, "proxy_ssl_certificate") {
                Some(Field::ProxySslCertificate)
            } else if str_eq(name, "proxy_ssl_certificate_key") {
                Some(Field::ProxySslCertificateKey)
            } else if str_eq(name, "proxy_ssl_trusted_certificate") {
                Some(Field::ProxySslTrustedCertificate)
            } else if str_eq(name, "ssh_login") {
                Some(Field::SshLogin)
            } else if str_eq(name, "ssh_ssl_user") {
                Some(Field::SshSslUser)
            } else if str_eq(name, "ssh_deny") {
                Some(Field::SshDeny)
            } else {
                http_field_named(name)
            }
        },
        Block::Proxy => {
            if str_eq(name, "listen") {
                Some(Field::ProxyListen)
            } else if str_eq(name, "allow") {
                Some(Field::Allow)
            } else if str_eq(name, "deny") {
                Some(Field::Deny)
            } else {
                None
            }
        },
    }
}

/// The kind of value that a field takes; none for nested blocks and for the access log.
pub open spec fn field_kind(field: Field) -> Option<ValueKind> {
    match field {
        Field::AccessRules => Some(ValueKind::AccessRulesUri),
        Field::Gzip => Some(ValueKind::BoolConfig),
        Field::GzipVary => Some(ValueKind::BoolConfig),
        Field::GzipMinLength => Some(ValueKind::GzipMinLength),
        Field::GzipCompLevel => Some(ValueKind::GzipCompLevel),
        Field::GzipTypes => Some(ValueKind::StringList),
        Field::DefaultType => Some(ValueKind::DefaultType),
        Field::Types => Some(ValueKind::MimeTypes),
        Field::AccessLog => None,
        Field::Server => None,
        Field::Proxy => None,
        Field::Pid => Some(ValueKind::ResolvedConfigPath),
        Field::Workers => Some(ValueKind::StringList),
        Field::Groups => Some(ValueKind::StringList),
        Field::Listen => Some(ValueKind::ListenConfig),
        Field::ServerName => Some(ValueKind::ServerNames),
        Field::Dns => Some(ValueKind::ResolverConfig),
        Field::SslCertificate => Some(ValueKind::ResolvedConfigPath),
        Field::SslCertificateKey => Some(ValueKind::ResolvedConfigPath),
        Field::Relay => Some(ValueKind::BoolConfig),
        Field::Stun => Some(ValueKind::BoolConfig),
        Field::StunServer => Some(ValueKind::StunServerConfigValue),
        Field::Location => None,
        Field::Root => Some(ValueKind::ResolvedConfigPath),
        Field::Alias => Some(ValueKind::ResolvedConfigPath),
        Field::Index => Some(ValueKind::StringList),
        Field::AddHeader => Some(ValueKind::HeaderRules),
        Field::ProxySetHeader => Some(ValueKind::HeaderRules),
        Field::ProxyPass => Some(ValueKind::ProxyPass),
        Field::ProxySslCertificate => Some(ValueKind::ResolvedConfigPath),
        Field::ProxySslCertificateKey => Some(ValueKind::ResolvedConfigPath),
        Field::ProxySslTrustedCertificate => Some(ValueKind::ResolvedConfigPath),
        Field::SshLogin => Some(ValueKind::SshLoginMethods),
        Field::SshSslUser => Some(ValueKind::SshSslUsers),
        Field::SshDeny => Some(ValueKind::StringList),
        Field::ProxyListen => Some(ValueKind::SocketAddrs),
        Field::Allow => Some(ValueKind::StringList),
        Field::Deny => Some(ValueKind::StringList),
    }
}

/// The kind of value that a field takes.
pub fn kind_of_field(field: Field) -> (kind: Option<ValueKind>)
    ensures
        kind == field_kind(field),
{
    match field {
        Field::AccessRules => Some(ValueKind::AccessRulesUri),
        Field::Gzip => Some(ValueKind::BoolConfig),
        Field::GzipVary => Some(ValueKind::BoolConfig),
        Field::GzipMinLength => Some(ValueKind::GzipMinLength),
        Field::GzipCompLevel => Some(ValueKind::GzipCompLevel),
        Field::GzipTypes => Some(ValueKind::StringList),
        Field::DefaultType => Some(ValueKind::DefaultType),
        Field::Types => Some(ValueKind::MimeTypes),
        Field::AccessLog => None,
        Field::Server => None,
        Field::Proxy => None,
        Field::Pid => Some(ValueKind::ResolvedConfigPath),
        Field::Workers => Some(ValueKind::StringList),
        Field::Groups => Some(ValueKind::StringList),
        Field::Listen => Some(ValueKind::ListenConfig),
        Field::ServerName => Some(ValueKind::ServerNames),
        Field::Dns => Some(ValueKind::ResolverConfig),
        Field::SslCertificate => Some(ValueKind::ResolvedConfigPath),
        Field::SslCertificateKey => Some(ValueKind::ResolvedConfigPath),
        Field::Relay => Some(ValueKind::BoolConfig),
        Field::Stun => Some(ValueKind::BoolConfig),
        Field::StunServer => Some(ValueKind::StunServerConfigValue),
        Field::Location => None,
        Field::Root => Some(ValueKind::ResolvedConfigPath),
        Field::Alias => Some(ValueKind::ResolvedConfigPath),
        Field::Index => Some(ValueKind::StringList),
        Field::AddHeader => Some(ValueKind::HeaderRules),
        Field::ProxySetHeader => Some(ValueKind::HeaderRules),
        Field::ProxyPass => Some(ValueKind::ProxyPass),
        Field::ProxySslCertificate => Some(ValueKind::ResolvedConfigPath),
        Field::ProxySslCertificateKey => Some(ValueKind::ResolvedConfigPath),
        Field::ProxySslTrustedCertificate => Some(ValueKind::ResolvedConfigPath),
        Field::SshLogin => Some(ValueKind::SshLoginMethods),
        Field::SshSslUser => Some(ValueKind::SshSslUsers),
        Field::SshDeny => Some(ValueKind::StringList),
        Field::ProxyListen => Some(ValueKind::SocketAddrs),
        Field::Allow => Some(ValueKind::StringList),
        Field::Deny => Some(ValueKind::StringList),
    }
}

/// Whether the directive with the given name may have a block of its own kind.
pub open spec fn takes_block(name: Seq<char>) -> bool {
    name == "types"@ || name == "stun_server"@
}

/// An error on the shape of a directive.
pub open spec fn is_shape_error(directive: AstDirective, error: BuildTypedConfigError) -> bool {
    error matches BuildTypedConfigError::Shape { name, span } && name@ == directive.name_text()
        && span == directive.span
}

/// An error on the value of a directive.
pub open spec fn is_value_error(
    directive: AstDirective,
    error: BuildTypedConfigError,
    cause: DirectiveError,
) -> bool {
    error matches BuildTypedConfigError::Directive { name, span, source } && name@
        == directive.name_text() && span == directive.span && source == cause
}

/// What reading the value of a directive gives, its shape looked at first.
pub open spec fn parses_data(
    kind: ValueKind,
    directive: AstDirective,
    sources: SourceMap,
    result: Result<ConfigData, BuildTypedConfigError>,
) -> bool {
    if directive.block() is Some && !takes_block(directive.name_text()) {
        result matches Err(error) && is_shape_error(directive, error)
    } else {
        match result {
            Ok(data) => reads_data(kind, directive, sources, Ok(data)),
            Err(error) => error matches BuildTypedConfigError::Directive { source, .. }
                && is_value_error(directive, error, source) && reads_data(
                kind,
                directive,
                sources,
                Err(source),
            ),
        }
    }
}

fn shape_error(directive: &AstDirective) -> (error: BuildTypedConfigError)
    ensures
        is_shape_error(*directive, error),
{
    BuildTypedConfigError::Shape { name: directive.name.value.clone(), span: directive.span }
}

/// Reads the value of a directive, its shape looked at first.
pub fn parse_data(kind: ValueKind, directive: &AstDirective, sources: &SourceMap) -> (result:
    Result<ConfigData, BuildTypedConfigError>)
    ensures
        parses_data(kind, *directive, *sources, result),
{
    if !directive.is_named("types") && !directive.is_named("stun_server") && !directive.is_leaf() {
        return Err(shape_error(directive));
    }
    match read_data(kind, directive, sources) {
        Ok(data) => Ok(data),
        Err(source) => Err(
            BuildTypedConfigError::Directive {
                name: directive.name.value.clone(),
                span: directive.span,
                source,
            },
        ),
    }
}

/// What reading an `access_log` directive gives.
pub open spec fn parses_access_log(
    directive: AstDirective,
    sources: SourceMap,
    result: Result<AccessLogDirective, BuildTypedConfigError>,
) -> bool {
    if directive.block() is Some {
        result matches Err(error) && is_shape_error(directive, error)
    } else if directive.args@.len() != 1 {
        result matches Err(BuildTypedConfigError::AccessLogArgument { span }) && span
            == directive.span
    } else if directive.arg(0) == "off"@ {
        result matches Ok(AccessLogDirective::Off)
    } else if directive.arg(0) == "default"@ {
        result matches Ok(AccessLogDirective::ProfileDefault)
    } else {
        match result {
            Ok(log) => log matches AccessLogDirective::Resolved(path) && ResolvedConfigPath::reads(
                directive,
                sources,
                Ok(path),
            ),
            Err(error) => error matches BuildTypedConfigError::Directive { source, .. }
                && is_value_error(directive, error, source) && reads_as::<ResolvedConfigPath>(
                directive,
                sources,
                Err(source),
            ),
        }
    }
}

/// Reads an `access_log` directive.
pub fn parse_access_log(directive: &AstDirective, sources: &SourceMap) -> (result: Result<
    AccessLogDirective,
    BuildTypedConfigError,
>)
    ensures
        parses_access_log(*directive, *sources, result),
{
    if !directive.is_leaf() {
        return Err(shape_error(directive));
    }
    if directive.args.len() != 1 {
        return Err(BuildTypedConfigError::AccessLogArgument { span: directive.span });
    }
    let word = directive.args[0].value.as_str();
    if str_eq(word, "off") {
        return Ok(AccessLogDirective::Off);
    }
    if str_eq(word, "default") {
        return Ok(AccessLogDirective::ProfileDefault);
    }
    match ResolvedConfigPath::read(directive, sources) {
        Ok(path) => Ok(AccessLogDirective::Resolved(path)),
        Err(error) => {
            assert(ResolvedConfigPath::reads(*directive, *sources, Err(error)));
            Err(
                BuildTypedConfigError::Directive {
                    name: directive.name.value.clone(),
                    span: directive.span,
                    source: ResolvedConfigPath::wrap(error),
                },
            )
        },
    }
}

/// What a directive of a block gives.
#[derive(Debug)]
pub enum Setting {
    /// A nested block, which is read later.
    Nested,
    AccessLog(AccessLogDirective),
    Value(ConfigData),
}

/// An error on a directive that a block does not know.
pub open spec fn is_unknown_error(
    directive: AstDirective,
    context: Seq<char>,
    error: BuildTypedConfigError,
) -> bool {
    error matches BuildTypedConfigError::UnknownDirective { name, context: named, span } && name@
        == directive.name_text() && named@ == context && span == directive.span
}

/// What reading a directive of a block gives.
pub open spec fn reads_setting(
    block: Block,
    directive: AstDirective,
    sources: SourceMap,
    result: Result<Setting, BuildTypedConfigError>,
) -> bool {
    match field_of(block, directive.name_text()) {
        None => result matches Err(error) && is_unknown_error(directive, block.text(), error),
        Some(Field::Server) => if block == Block::WorkerPishoo {
            result matches Err(BuildTypedConfigError::WorkerServer { span }) && span
                == directive.span
        } else {
            result matches Ok(Setting::Nested)
        },
        Some(Field::Proxy) => if block == Block::WorkerPishoo {
            result matches Err(error) && is_unknown_error(directive, "worker pishoo"@, error)
        } else {
            result matches Ok(Setting::Nested)
        },
        Some(Field::Location) => result matches Ok(Setting::Nested),
        Some(Field::AccessLog) => match result {
            Ok(setting) => setting matches Setting::AccessLog(log) && parses_access_log(
                directive,
                sources,
                Ok(log),
            ),
            Err(error) => parses_access_log(directive, sources, Err(error)),
        },
        Some(field) => match result {
            Ok(setting) => setting matches Setting::Value(data) && parses_data(
                field_kind(field)->0,
                directive,
                sources,
                Ok(data),
            ) && (field == Field::ProxyListen ==> is_one_address(data)),
            Err(error) => if error is ForwardListen {
                field == Field::ProxyListen && error->ForwardListen_span == directive.span
                    && lists_other_than_one(directive, sources)
            } else {
                parses_data(field_kind(field)->0, directive, sources, Err(error))
            },
        },
    }
}

/// Whether a value is a list of exactly one address.
pub open spec fn is_one_address(data: ConfigData) -> bool {
    data matches ConfigData::SocketAddrs(addrs) && addrs.0@.len() == 1
}

/// Whether a directive gives a list of more or fewer addresses than one.
pub open spec fn lists_other_than_one(directive: AstDirective, sources: SourceMap) -> bool {
    exists|data: ConfigData|
        #![trigger reads_data(ValueKind::SocketAddrs, directive, sources, Ok(data))]
        parses_data(ValueKind::SocketAddrs, directive, sources, Ok(data)) && !is_one_address(data)
            && reads_data(ValueKind::SocketAddrs, directive, sources, Ok(data))
}

fn read_setting(block: Block, directive: &AstDirective, sources: &SourceMap) -> (result: Result<
    Setting,
    BuildTypedConfigError,
>)
    ensures
        reads_setting(block, *directive, *sources, result),
{
    let field = match field_named(block, directive.name.value.as_str()) {
        Some(field) => field,
        None => {
            return Err(
                BuildTypedConfigError::UnknownDirective {
                    name: directive.name.value.clone(),
                    context: block.name(),
                    span: directive.span,
                },
            );
        },
    };
    match field {
        Field::Server => {
            if block == Block::WorkerPishoo {
                return Err(BuildTypedConfigError::WorkerServer { span: directive.span });
            }
            return Ok(Setting::Nested);
        },
        Field::Proxy => {
            if block == Block::WorkerPishoo {
                return Err(
                    BuildTypedConfigError::UnknownDirective {
                        name: directive.name.value.clone(),
                        context: "worker pishoo",
                        span: directive.span,
                    },
                );
            }
            return Ok(Setting::Nested);
        },
        Field::Location => {
            return Ok(Setting::Nested);
        },
        Field::AccessLog => {
            return match parse_access_log(directive, sources) {
                Ok(log) => Ok(Setting::AccessLog(log)),
                Err(error) => Err(error),
            };
        },
        _ => {},
    }
    let kind = kind_of_field(field).unwrap();
    let data = match parse_data(kind, directive, sources) {
        Ok(data) => data,
        Err(error) => {
            return Err(error);
        },
    };
    if field == Field::ProxyListen {
        let one = match &data {
            ConfigData::SocketAddrs(addrs) => addrs.0.len() == 1,
            _ => false,
        };
        if !one {
            assert(reads_data(ValueKind::SocketAddrs, *directive, *sources, Ok(data)));
            return Err(BuildTypedConfigError::ForwardListen { span: directive.span });
        }
    }
    Ok(Setting::Value(data))
}

/// Whether a block may hold several directives of a name.
pub open spec fn may_repeat(block: Block, name: Seq<char>) -> bool {
    ||| name == "listen"@ || name == "location"@ || name == "stun_server"@ || name == "add_header"@
        || name == "proxy_set_header"@ || name == "ssh_ssl_user"@
    ||| (block == Block::RootPishoo || block == Block::WorkerPishoo) && (name == "server"@ || name
        == "proxy"@)
}

fn repeats(block: Block, directive: &AstDirective) -> (yes: bool)
    ensures
        yes == may_repeat(block, directive.name_text()),
{
    if directive.is_named("listen") || directive.is_named("location") || directive.is_named(
        "stun_server",
    ) || directive.is_named("add_header") || directive.is_named("proxy_set_header")
        || directive.is_named("ssh_ssl_user") {
        return true;
    }
    (block == Block::RootPishoo || block == Block::WorkerPishoo) && (directive.is_named("server")
        || directive.is_named("proxy"))
}

/// Whether the directive at `at` repeats one that may stand only once.
pub open spec fn is_duplicate(block: Block, children: Seq<AstDirective>, at: int) -> bool {
    !may_repeat(block, children[at].name_text()) && named(
        children.take(at),
        children[at].name_text(),
    ).len() > 0
}

/// Whether the directive at `at` of a block is in order.
pub open spec fn child_ok(
    block: Block,
    children: Seq<AstDirective>,
    at: int,
    sources: SourceMap,
) -> bool {
    !is_duplicate(block, children, at) && exists|setting: Setting| #[trigger]
        reads_setting(block, children[at], sources, Ok(setting))
}

/// What is wrong with the directive at `at` of a block.
pub open spec fn child_error(
    block: Block,
    children: Seq<AstDirective>,
    at: int,
    sources: SourceMap,
    error: BuildTypedConfigError,
) -> bool {
    if is_duplicate(block, children, at) {
        error matches BuildTypedConfigError::Duplicate { name, first, duplicate } && name@
            == children[at].name_text() && first == named(
            children.take(at),
            children[at].name_text(),
        )[0].span && duplicate == children[at].span
    } else {
        reads_setting(block, children[at], sources, Err(error))
    }
}

/// Whether the directives of a block are all in order.
pub open spec fn all_ok(block: Block, children: Seq<AstDirective>, sources: SourceMap) -> bool {
    forall|i: int| 0 <= i < children.len() ==> #[trigger] child_ok(block, children, i, sources)
}

/// An error on the first directive of a block that is not in order.
pub open spec fn is_first_error(
    block: Block,
    children: Seq<AstDirective>,
    sources: SourceMap,
    error: BuildTypedConfigError,
) -> bool {
    exists|at: int|
        {
            &&& 0 <= at < children.len()
            &&& forall|i: int| 0 <= i < at ==> #[trigger] child_ok(block, children, i, sources)
            &&& #[trigger] child_error(block, children, at, sources, error)
        }
}

/// A directive of a block gives a setting or an error, never both.
pub proof fn setting_goes_one_way(
    block: Block,
    directive: AstDirective,
    sources: SourceMap,
    setting: Setting,
    error: BuildTypedConfigError,
)
    ensures
        !(reads_setting(block, directive, sources, Ok(setting)) && reads_setting(
            block,
            directive,
            sources,
            Err(error),
        )),
{
    if reads_setting(block, directive, sources, Ok(setting)) && reads_setting(
        block,
        directive,
        sources,
        Err(error),
    ) {
        match setting {
            Setting::Nested => {},
            Setting::AccessLog(log) => {
                match (log, error) {
                    (
                        AccessLogDirective::Resolved(path),
                        BuildTypedConfigError::Directive { source, .. },
                    ) => {
                        reads_data_one_way(
                            ValueKind::ResolvedConfigPath,
                            directive,
                            sources,
                            ConfigData::ResolvedConfigPath(path),
                            source,
                        );
                    },
                    _ => {},
                }
            },
            Setting::Value(data) => {
                let field = field_of(block, directive.name_text())->0;
                match error {
                    BuildTypedConfigError::Directive { source, .. } => {
                        reads_data_one_way(
                            field_kind(field)->0,
                            directive,
                            sources,
                            data,
                            source,
                        );
                    },
                    BuildTypedConfigError::ForwardListen { .. } => {
                        let other = choose|other: ConfigData|
                            #![trigger reads_data(ValueKind::SocketAddrs, directive, sources, Ok(other))]
                            parses_data(ValueKind::SocketAddrs, directive, sources, Ok(other))
                                && !is_one_address(other) && reads_data(
                                ValueKind::SocketAddrs,
                                directive,
                                sources,
                                Ok(other),
                            );
                        assert(other is SocketAddrs);
                    },
                    _ => {},
                }
            },
        }
    }
}

/// The directives of a block are all in order or one of them is not, never both.
pub proof fn block_goes_one_way(
    block: Block,
    children: Seq<AstDirective>,
    sources: SourceMap,
    error: BuildTypedConfigError,
)
    ensures
        !(all_ok(block, children, sources) && is_first_error(block, children, sources, error)),
{
    if all_ok(block, children, sources) && is_first_error(block, children, sources, error) {
        let at = choose|at: int|
            {
                &&& 0 <= at < children.len()
                &&& forall|i: int| 0 <= i < at ==> #[trigger] child_ok(block, children, i, sources)
                &&& #[trigger] child_error(block, children, at, sources, error)
            };
        assert(child_ok(block, children, at, sources));
        let setting = choose|setting: Setting| #[trigger]
            reads_setting(block, children[at], sources, Ok(setting));
        setting_goes_one_way(block, children[at], sources, setting, error);
    }
}

/// Whether settings are what the directives of a block give; a setting that was taken away leaves
/// nothing behind.
pub open spec fn are_settings(
    block: Block,
    children: Seq<AstDirective>,
    sources: SourceMap,
    settings: Seq<Option<Setting>>,
) -> bool {
    &&& settings.len() == children.len()
    &&& forall|i: int|
        0 <= i < children.len() ==> ((#[trigger] settings[i]) matches Some(setting) ==> reads_setting(
            block,
            children[i],
            sources,
            Ok(setting),
        ))
}

/// Where a directive of the given name stands first among the first `count`.
fn find_named(children: &Vec<AstDirective>, count: usize, name: &str) -> (at: Option<usize>)
    requires
        count <= children@.len(),
    ensures
        match at {
            Some(at) => at < count && named(children@.take(count as int), name@).len() > 0
                && named(children@.take(count as int), name@)[0] == children@[at as int],
            None => named(children@.take(count as int), name@).len() == 0,
        },
{
    let mut i: usize = 0;
    let mut found: Option<usize> = None;
    assert(children@.take(0) =~= seq![]);
    while i < count
        invariant
            i <= count <= children@.len(),
            match found {
                Some(at) => at < i && named(children@.take(i as int), name@).len() > 0
                    && named(children@.take(i as int), name@)[0] == children@[at as int],
                None => named(children@.take(i as int), name@).len() == 0,
            },
        decreases count - i,
    {
        proof {
            lemma_named_step(children@, i as int, name@);
        }
        if found.is_none() && children[i].is_named(name) {
            found = Some(i);
        }
        i += 1;
    }
    found
}

/// Reads the directives of a block one after the other, up to the first that is not in order.
pub fn scan(block: Block, children: &Vec<AstDirective>, sources: &SourceMap) -> (result: Result<
    Vec<Option<Setting>>,
    BuildTypedConfigError,
>)
    ensures
        match result {
            Ok(settings) => {
                &&& all_ok(block, children@, *sources)
                &&& are_settings(block, children@, *sources, settings@)
                &&& forall|i: int| 0 <= i < settings@.len() ==> (#[trigger] settings@[i]) is Some
            },
            Err(error) => !all_ok(block, children@, *sources) && is_first_error(
                block,
                children@,
                *sources,
                error,
            ),
        },
{
    let mut settings: Vec<Option<Setting>> = Vec::new();
    let mut i: usize = 0;
    while i < children.len()
        invariant
            i <= children@.len(),
            settings@.len() == i,
            forall|k: int| 0 <= k < i ==> #[trigger] child_ok(block, children@, k, *sources),
            forall|k: int|
                0 <= k < i ==> (#[trigger] settings@[k] matches Some(setting) && reads_setting(
                    block,
                    children@[k],
                    *sources,
                    Ok(setting),
                )),
        decreases children@.len() - i,
    {
        let directive = &children[i];
        if !repeats(block, directive) {
            match find_named(children, i, directive.name.value.as_str()) {
                Some(first) => {
                    let error = BuildTypedConfigError::Duplicate {
                        name: directive.name.value.clone(),
                        first: children[first].span,
                        duplicate: directive.span,
                    };
                    assert(child_error(block, children@, i as int, *sources, error));
                    proof {
                        block_goes_one_way(block, children@, *sources, error);
                    }
                    return Err(error);
                },
                None => {},
            }
        }
        match read_setting(block, directive, sources) {
            Ok(setting) => {
                assert(reads_setting(block, children@[i as int], *sources, Ok(setting)));
                assert(child_ok(block, children@, i as int, *sources));
                settings.push(Some(setting));
            },
            Err(error) => {
                assert(child_error(block, children@, i as int, *sources, error));
                proof {
                    block_goes_one_way(block, children@, *sources, error);
                }
                return Err(error);
            },
        }
        i += 1;
    }
    Ok(settings)
}

/// The directives of a block that set a field, in order.
pub open spec fn with_field(block: Block, children: Seq<AstDirective>, field: Field) -> Seq<
    AstDirective,
>
    decreases children.len(),
{
    if children.len() == 0 {
        seq![]
    } else {
        let before = with_field(block, children.drop_last(), field);
        if field_of(block, children.last().name_text()) == Some(field) {
            before.push(children.last())
        } else {
            before
        }
    }
}

/// What the directive at `at` adds to those that set a field.
pub proof fn lemma_with_field_step(block: Block, children: Seq<AstDirective>, at: int, field: Field)
    requires
        0 <= at < children.len(),
    ensures
        with_field(block, children.take(at + 1), field) == (if field_of(
            block,
            children[at].name_text(),
        ) == Some(field) {
            with_field(block, children.take(at), field).push(children[at])
        } else {
            with_field(block, children.take(at), field)
        }),
{
    assert(children.take(at + 1).drop_last() =~= children.take(at));
    assert(children.take(at + 1).last() == children[at]);
}

/// A value with the place of the directive that set it.
#[derive(Debug)]
pub struct Assignment<T> {
    pub value: T,
    pub span: SourceSpan,
}

/// Whether a value is what the directives of a block set a field to: that of the first, where there
/// is one.
pub open spec fn is_assigned<T: DirectiveValue>(
    block: Block,
    children: Seq<AstDirective>,
    field: Field,
    sources: SourceMap,
    value: Option<Assignment<T>>,
) -> bool {
    let list = with_field(block, children, field);
    if list.len() > 0 {
        value matches Some(assignment) && T::reads(list[0], sources, Ok(assignment.value))
            && assignment.span == list[0].span
    } else {
        value is None
    }
}

/// Whether a value is what the directives of a block set a field to, its place left out.
pub open spec fn is_value<T: DirectiveValue>(
    block: Block,
    children: Seq<AstDirective>,
    field: Field,
    sources: SourceMap,
    value: Option<T>,
) -> bool {
    let list = with_field(block, children, field);
    if list.len() > 0 {
        value matches Some(value) && T::reads(list[0], sources, Ok(value))
    } else {
        value is None
    }
}

/// Whether values are those of all directives of a block that set a field, in order.
pub open spec fn are_values<T: DirectiveValue>(
    block: Block,
    children: Seq<AstDirective>,
    field: Field,
    sources: SourceMap,
    values: Seq<T>,
) -> bool {
    let list = with_field(block, children, field);
    &&& values.len() == list.len()
    &&& forall|i: int|
        0 <= i < values.len() ==> T::reads(#[trigger] list[i], sources, Ok(values[i]))
}

/// Whether the access log is what the directives of a block set it to.
pub open spec fn is_assigned_log(
    block: Block,
    children: Seq<AstDirective>,
    sources: SourceMap,
    value: Option<Assignment<AccessLogDirective>>,
) -> bool {
    let list = with_field(block, children, Field::AccessLog);
    if list.len() > 0 {
        value matches Some(assignment) && parses_access_log(list[0], sources, Ok(assignment.value))
            && assignment.span == list[0].span
    } else {
        value is None
    }
}

/// Whether no setting of a field was taken away yet.
pub open spec fn untouched(
    block: Block,
    children: Seq<AstDirective>,
    settings: Seq<Option<Setting>>,
    field: Field,
) -> bool {
    forall|i: int|
        0 <= i < children.len() && field_of(block, (#[trigger] children[i]).name_text()) == Some(
            field,
        ) ==> settings[i] is Some
}

/// Whether settings differ in those of one field alone.
pub open spec fn same_but(
    block: Block,
    children: Seq<AstDirective>,
    before: Seq<Option<Setting>>,
    after: Seq<Option<Setting>>,
    field: Field,
) -> bool {
    &&& after.len() == before.len()
    &&& forall|i: int|
        0 <= i < children.len() && field_of(block, (#[trigger] children[i]).name_text()) != Some(
            field,
        ) ==> after[i] == before[i]
}

fn find_field(block: Block, children: &Vec<AstDirective>, field: Field) -> (at: Option<usize>)
    ensures
        match at {
            Some(at) => at < children@.len() && field_of(block, children@[at as int].name_text())
                == Some(field) && with_field(block, children@, field).len() > 0 && with_field(
                block,
                children@,
                field,
            )[0] == children@[at as int],
            None => with_field(block, children@, field).len() == 0,
        },
{
    let mut i: usize = 0;
    let mut found: Option<usize> = None;
    assert(children@.take(0) =~= seq![]);
    while i < children.len()
        invariant
            i <= children@.len(),
            match found {
                Some(at) => at < i && field_of(block, children@[at as int].name_text()) == Some(
                    field,
                ) && with_field(block, children@.take(i as int), field).len() > 0 && with_field(
                    block,
                    children@.take(i as int),
                    field,
                )[0] == children@[at as int],
                None => with_field(block, children@.take(i as int), field).len() == 0,
            },
        decreases children@.len() - i,
    {
        proof {
            lemma_with_field_step(block, children@, i as int, field);
        }
        if found.is_none() {
            match field_named(block, children[i].name.value.as_str()) {
                Some(other) => {
                    if other == field {
                        found = Some(i);
                    }
                },
                None => {},
            }
        }
        i += 1;
    }
    assert(children@.take(i as int) =~= children@);
    found
}

/// Takes a setting out of its place.
fn take_at(settings: &mut Vec<Option<Setting>>, at: usize) -> (setting: Option<Setting>)
    requires
        at < old(settings)@.len(),
    ensures
        setting == old(settings)@[at as int],
        final(settings)@ == old(settings)@.update(at as int, None),
{
    let mut taken: Option<Setting> = None;
    core::mem::swap(&mut settings[at], &mut taken);
    taken
}

/// What the value of a field is read from.
proof fn lemma_field_value<T: KnownValue>(
    block: Block,
    directive: AstDirective,
    sources: SourceMap,
    field: Field,
    setting: Setting,
)
    requires
        field_of(block, directive.name_text()) == Some(field),
        field_kind(field) == Some(T::kind()),
        reads_setting(block, directive, sources, Ok(setting)),
    ensures
        setting is Value,
        T::in_data(setting->Value_0) matches Some(value) && T::reads(
            directive,
            sources,
            Ok(value),
        ),
{
    T::reads_by_kind(directive, sources, Ok(setting->Value_0));
}

/// Takes the value of a field out of the settings of a block.
pub fn take_assigned<T: KnownValue>(
    block: Block,
    children: &Vec<AstDirective>,
    field: Field,
    sources: &SourceMap,
    settings: &mut Vec<Option<Setting>>,
) -> (value: Option<Assignment<T>>)
    requires
        are_settings(block, children@, *sources, old(settings)@),
        untouched(block, children@, old(settings)@, field),
        field_kind(field) == Some(T::kind()),
    ensures
        is_assigned::<T>(block, children@, field, *sources, value),
        are_settings(block, children@, *sources, final(settings)@),
        same_but(block, children@, old(settings)@, final(settings)@, field),
{
    match find_field(block, children, field) {
        None => None,
        Some(at) => {
            assert(settings@[at as int] is Some);
            let setting = take_at(settings, at);
            match setting {
                Some(setting) => {
                    proof {
                        lemma_field_value::<T>(
                            block,
                            children@[at as int],
                            *sources,
                            field,
                            setting,
                        );
                    }
                    match setting {
                        Setting::Value(data) => match T::from_data(data) {
                            Some(value) => Some(Assignment { value, span: children[at].span }),
                            None => None,
                        },
                        _ => None,
                    }
                },
                None => None,
            }
        },
    }
}

/// Takes the value of a field out of the settings of a block, its place left out.
pub fn take_value<T: KnownValue>(
    block: Block,
    children: &Vec<AstDirective>,
    field: Field,
    sources: &SourceMap,
    settings: &mut Vec<Option<Setting>>,
) -> (value: Option<T>)
    requires
        are_settings(block, children@, *sources, old(settings)@),
        untouched(block, children@, old(settings)@, field),
        field_kind(field) == Some(T::kind()),
    ensures
        is_value::<T>(block, children@, field, *sources, value),
        are_settings(block, children@, *sources, final(settings)@),
        same_but(block, children@, old(settings)@, final(settings)@, field),
{
    match take_assigned::<T>(block, children, field, sources, settings) {
        Some(assignment) => Some(assignment.value),
        None => None,
    }
}

/// Takes the access log out of the settings of a block.
pub fn take_log(
    block: Block,
    children: &Vec<AstDirective>,
    sources: &SourceMap,
    settings: &mut Vec<Option<Setting>>,
) -> (value: Option<Assignment<AccessLogDirective>>)
    requires
        are_settings(block, children@, *sources, old(settings)@),
        untouched(block, children@, old(settings)@, Field::AccessLog),
    ensures
        is_assigned_log(block, children@, *sources, value),
        are_settings(block, children@, *sources, final(settings)@),
        same_but(block, children@, old(settings)@, final(settings)@, Field::AccessLog),
{
    match find_field(block, children, Field::AccessLog) {
        None => None,
        Some(at) => {
            assert(settings@[at as int] is Some);
            let setting = take_at(settings, at);
            assert(reads_setting(block, children@[at as int], *sources, Ok(setting->0)));
            match setting {
                Some(Setting::AccessLog(value)) => Some(
                    Assignment { value, span: children[at].span },
                ),
                _ => None,
            }
        },
    }
}

/// Takes the values of all directives of a field out of the settings of a block.
pub fn take_values<T: KnownValue>(
    block: Block,
    children: &Vec<AstDirective>,
    field: Field,
    sources: &SourceMap,
    settings: &mut Vec<Option<Setting>>,
) -> (values: Vec<T>)
    requires
        are_settings(block, children@, *sources, old(settings)@),
        untouched(block, children@, old(settings)@, field),
        field_kind(field) == Some(T::kind()),
    ensures
        are_values::<T>(block, children@, field, *sources, values@),
        are_settings(block, children@, *sources, final(settings)@),
        same_but(block, children@, old(settings)@, final(settings)@, field),
{
    let mut values: Vec<T> = Vec::new();
    let mut i: usize = 0;
    let ghost before = settings@;
    assert(children@.take(0) =~= seq![]);
    while i < children.len()
        invariant
            i <= children@.len(),
            are_settings(block, children@, *sources, settings@),
            same_but(block, children@, before, settings@, field),
            forall|k: int|
                i <= k < children@.len() && field_of(block, (#[trigger] children@[k]).name_text())
                    == Some(field) ==> settings@[k] is Some,
            field_kind(field) == Some(T::kind()),
            are_values::<T>(block, children@.take(i as int), field, *sources, values@),
        decreases children@.len() - i,
    {
        let ghost done = with_field(block, children@.take(i as int), field);
        proof {
            lemma_with_field_step(block, children@, i as int, field);
        }
        let hit = match field_named(block, children[i].name.value.as_str()) {
            Some(other) => other == field,
            None => false,
        };
        if hit {
            assert(settings@[i as int] is Some);
            let setting = take_at(settings, i);
            match setting {
                Some(setting) => {
                    proof {
                        lemma_field_value::<T>(
                            block,
                            children@[i as int],
                            *sources,
                            field,
                            setting,
                        );
                    }
                    match setting {
                        Setting::Value(data) => match T::from_data(data) {
                            Some(value) => {
                                let ghost earlier = values@;
                                values.push(value);
                                proof {
                                    let list = with_field(block, children@.take(i + 1), field);
                                    assert forall|k: int| 0 <= k < values@.len() implies T::reads(
                                        #[trigger] list[k],
                                        *sources,
                                        Ok(values@[k]),
                                    ) by {
                                        if k < earlier.len() {
                                            assert(list[k] == done[k]);
                                            assert(values@[k] == earlier[k]);
                                        }
                                    }
                                }
                            },
                            None => {
                                assert(false);
                            },
                        },
                        _ => {
                            assert(false);
                        },
                    }
                },
                None => {
                    assert(false);
                },
            }
        }
        i += 1;
    }
    assert(children@.take(i as int) =~= children@);
    values
}

/// The name of the directive that sets a field.
pub open spec fn field_name(field: Field) -> Seq<char> {
    match field {
        Field::AccessRules => "access_rules"@,
        Field::Gzip => "gzip"@,
        Field::GzipVary => "gzip_vary"@,
        Field::GzipMinLength => "gzip_min_length"@,
        Field::GzipCompLevel => "gzip_comp_level"@,
        Field::GzipTypes => "gzip_types"@,
        Field::DefaultType => "default_type"@,
        Field::Types => "types"@,
        Field::AccessLog => "access_log"@,
        Field::Server => "server"@,
        Field::Proxy => "proxy"@,
        Field::Pid => "pid"@,
        Field::Workers => "workers"@,
        Field::Groups => "groups"@,
        Field::Listen => "listen"@,
        Field::ServerName => "server_name"@,
        Field::Dns => "dns"@,
        Field::SslCertificate => "ssl_certificate"@,
        Field::SslCertificateKey => "ssl_certificate_key"@,
        Field::Relay => "relay"@,
        Field::Stun => "stun"@,
        Field::StunServer => "stun_server"@,
        Field::Location => "location"@,
        Field::Root => "root"@,
        Field::Alias => "alias"@,
        Field::Index => "index"@,
        Field::AddHeader => "add_header"@,
        Field::ProxySetHeader => "proxy_set_header"@,
        Field::ProxyPass => "proxy_pass"@,
        Field::ProxySslCertificate => "proxy_ssl_certificate"@,
        Field::ProxySslCertificateKey => "proxy_ssl_certificate_key"@,
        Field::ProxySslTrustedCertificate => "proxy_ssl_trusted_certificate"@,
        Field::SshLogin => "ssh_login"@,
        Field::SshSslUser => "ssh_ssl_user"@,
        Field::SshDeny => "ssh_deny"@,
        Field::ProxyListen => "listen"@,
        Field::Allow => "allow"@,
        Field::Deny => "deny"@,
    }
}

/// The fields that the directives of a block set.
pub open spec fn has_field(block: Block, field: Field) -> bool {
    match block {
        Block::RootPishoo | Block::WorkerPishoo => is_http(field) || matches!(
            field,
            Field::Server | Field::Proxy | Field::Pid | Field::Workers | Field::Groups
        ),
        Block::Server => is_http(field) || matches!(
            field,
            Field::Listen | Field::ServerName | Field::Dns | Field::SslCertificate | Field::SslCertificateKey | Field::Relay | Field::Stun | Field::StunServer | Field::Location
        ),
        Block::Location => is_http(field) || matches!(
            field,
            Field::Root | Field::Alias | Field::Index | Field::AddHeader | Field::ProxySetHeader | Field::ProxyPass | Field::ProxySslCertificate | Field::ProxySslCertificateKey | Field::ProxySslTrustedCertificate | Field::SshLogin | Field::SshSslUser | Field::SshDeny
        ),
        Block::Proxy => matches!(field, Field::ProxyListen | Field::Allow | Field::Deny),
    }
}

/// Whether a field is one of the HTTP settings.
pub open spec fn is_http(field: Field) -> bool {
    matches!(
        field,
        Field::AccessRules | Field::Gzip | Field::GzipVary | Field::GzipMinLength | Field::GzipCompLevel | Field::GzipTypes | Field::DefaultType | Field::Types | Field::AccessLog
    )
}

proof fn lemma_root_names(field: Field)
    requires
        has_field(Block::RootPishoo, field),
    ensures
        field_of(Block::RootPishoo, field_name(field)) == Some(field),
{
    reveal_strlit("server");
    reveal_strlit("proxy");
    reveal_strlit("pid");
    reveal_strlit("workers");
    reveal_strlit("groups");
    reveal_strlit("access_rules");
    reveal_strlit("gzip");
    reveal_strlit("gzip_vary");
    reveal_strlit("gzip_min_length");
    reveal_strlit("gzip_comp_level");
    reveal_strlit("gzip_types");
    reveal_strlit("default_type");
    reveal_strlit("types");
    reveal_strlit("access_log");
    assert("server"@.len() == 6);
    assert("proxy"@.len() == 5);
    assert("pid"@.len() == 3);
    assert("workers"@.len() == 7);
    assert("groups"@.len() == 6);
    assert("access_rules"@.len() == 12);
    assert("gzip"@.len() == 4);
    assert("gzip_vary"@.len() == 9);
    assert("gzip_min_length"@.len() == 15);
    assert("gzip_comp_level"@.len() == 15);
    assert("gzip_types"@.len() == 10);
    assert("default_type"@.len() == 12);
    assert("types"@.len() == 5);
    assert("access_log"@.len() == 10);
    assert("server"@[0] != "groups"@[0]);
    assert("proxy"@[0] != "types"@[0]);
    assert("access_rules"@[0] != "default_type"@[0]);
    assert("gzip_min_length"@[5] != "gzip_comp_level"@[5]);
    assert("gzip_types"@[0] != "access_log"@[0]);
}

proof fn lemma_server_names(field: Field)
    requires
        has_field(Block::Server, field),
    ensures
        field_of(Block::Server, field_name(field)) == Some(field),
{
    reveal_strlit("listen");
    reveal_strlit("server_name");
    reveal_strlit("dns");
    reveal_strlit("ssl_certificate");
    reveal_strlit("ssl_certificate_key");
    reveal_strlit("relay");
    reveal_strlit("stun");
    reveal_strlit("stun_server");
    reveal_strlit("location");
    reveal_strlit("access_rules");
    reveal_strlit("gzip");
    reveal_strlit("gzip_vary");
    reveal_strlit("gzip_min_length");
    reveal_strlit("gzip_comp_level");
    reveal_strlit("gzip_types");
    reveal_strlit("default_type");
    reveal_strlit("types");
    reveal_strlit("access_log");
    assert("listen"@.len() == 6);
    assert("server_name"@.len() == 11);
    assert("dns"@.len() == 3);
    assert("ssl_certificate"@.len() == 15);
    assert("ssl_certificate_key"@.len() == 19);
    assert("relay"@.len() == 5);
    assert("stun"@.len() == 4);
    assert("stun_server"@.len() == 11);
    assert("location"@.len() == 8);
    assert("access_rules"@.len() == 12);
    assert("gzip"@.len() == 4);
    assert("gzip_vary"@.len() == 9);
    assert("gzip_min_length"@.len() == 15);
    assert("gzip_comp_level"@.len() == 15);
    assert("gzip_types"@.len() == 10);
    assert("default_type"@.len() == 12);
    assert("types"@.len() == 5);
    assert("access_log"@.len() == 10);
    assert("server_name"@[1] != "stun_server"@[1]);
    assert("ssl_certificate"@[0] != "gzip_min_length"@[0]);
    assert("ssl_certificate"@[0] != "gzip_comp_level"@[0]);
    assert("relay"@[0] != "types"@[0]);
    assert("stun"@[0] != "gzip"@[0]);
    assert("access_rules"@[0] != "default_type"@[0]);
    assert("gzip_min_length"@[5] != "gzip_comp_level"@[5]);
    assert("gzip_types"@[0] != "access_log"@[0]);
}

proof fn lemma_location_names(field: Field)
    requires
        has_field(Block::Location, field),
    ensures
        field_of(Block::Location, field_name(field)) == Some(field),
{
    reveal_strlit("root");
    reveal_strlit("alias");
    reveal_strlit("index");
    reveal_strlit("add_header");
    reveal_strlit("proxy_set_header");
    reveal_strlit("proxy_pass");
    reveal_strlit("proxy_ssl_certificate");
    reveal_strlit("proxy_ssl_certificate_key");
    reveal_strlit("proxy_ssl_trusted_certificate");
    reveal_strlit("ssh_login");
    reveal_strlit("ssh_ssl_user");
    reveal_strlit("ssh_deny");
    reveal_strlit("access_rules");
    reveal_strlit("gzip");
    reveal_strlit("gzip_vary");
    reveal_strlit("gzip_min_length");
    reveal_strlit("gzip_comp_level");
    reveal_strlit("gzip_types");
    reveal_strlit("default_type");
    reveal_strlit("types");
    reveal_strlit("access_log");
    assert("root"@.len() == 4);
    assert("alias"@.len() == 5);
    assert("index"@.len() == 5);
    assert("add_header"@.len() == 10);
    assert("proxy_set_header"@.len() == 16);
    assert("proxy_pass"@.len() == 10);
    assert("proxy_ssl_certificate"@.len() == 21);
    assert("proxy_ssl_certificate_key"@.len() == 25);
    assert("proxy_ssl_trusted_certificate"@.len() == 29);
    assert("ssh_login"@.len() == 9);
    assert("ssh_ssl_user"@.len() == 12);
    assert("ssh_deny"@.len() == 8);
    assert("access_rules"@.len() == 12);
    assert("gzip"@.len() == 4);
    assert("gzip_vary"@.len() == 9);
    assert("gzip_min_length"@.len() == 15);
    assert("gzip_comp_level"@.len() == 15);
    assert("gzip_types"@.len() == 10);
    assert("default_type"@.len() == 12);
    assert("types"@.len() == 5);
    assert("access_log"@.len() == 10);
    assert("root"@[0] != "gzip"@[0]);
    assert("alias"@[0] != "index"@[0]);
    assert("alias"@[0] != "types"@[0]);
    assert("index"@[0] != "types"@[0]);
    assert("add_header"@[0] != "proxy_pass"@[0]);
    assert("add_header"@[0] != "gzip_types"@[0]);
    assert("add_header"@[1] != "access_log"@[1]);
    assert("proxy_pass"@[0] != "gzip_types"@[0]);
    assert("proxy_pass"@[0] != "access_log"@[0]);
    assert("ssh_login"@[0] != "gzip_vary"@[0]);
    assert("ssh_ssl_user"@[0] != "access_rules"@[0]);
    assert("ssh_ssl_user"@[0] != "default_type"@[0]);
    assert("access_rules"@[0] != "default_type"@[0]);
    assert("gzip_min_length"@[5] != "gzip_comp_level"@[5]);
    assert("gzip_types"@[0] != "access_log"@[0]);
}

proof fn lemma_proxy_names(field: Field)
    requires
        has_field(Block::Proxy, field),
    ensures
        field_of(Block::Proxy, field_name(field)) == Some(field),
{
    reveal_strlit("listen");
    reveal_strlit("allow");
    reveal_strlit("deny");
    assert("listen"@.len() == 6);
    assert("allow"@.len() == 5);
    assert("deny"@.len() == 4);
}

/// A directive sets the field that goes by its name, in the blocks that have it, and nothing else.
pub proof fn directives_set_the_field_of_their_name(block: Block, name: Seq<char>, field: Field)
    ensures
        field_of(block, name) == Some(field) <==> has_field(block, field) && name == field_name(field),
{
    if has_field(block, field) {
        match block {
            Block::RootPishoo => lemma_root_names(field),
            Block::WorkerPishoo => {
                lemma_root_names(field);
                assert(field_of(block, field_name(field)) == field_of(
                    Block::RootPishoo,
                    field_name(field),
                ));
            },
            Block::Server => lemma_server_names(field),
            Block::Location => lemma_location_names(field),
            Block::Proxy => lemma_proxy_names(field),
        }
    }
}

/// Where the first directive of a name stands.
pub open spec fn first_of(children: Seq<AstDirective>, name: Seq<char>, at: int) -> bool {
    &&& 0 <= at < children.len()
    &&& children[at].name_text() == name
    &&& forall|i: int| 0 <= i < at ==> (#[trigger] children[i]).name_text() != name
}

/// The first directive that sets a field is the first of its name.
pub proof fn lemma_first_with_field(block: Block, children: Seq<AstDirective>, field: Field)
    requires
        has_field(block, field),
    ensures
        with_field(block, children, field).len() > 0 ==> exists|at: int| #[trigger]
            first_of(children, field_name(field), at) && children[at] == with_field(
                block,
                children,
                field,
            )[0],
        with_field(block, children, field).len() == 0 ==> forall|i: int|
            0 <= i < children.len() ==> (#[trigger] children[i]).name_text() != field_name(field),
    decreases children.len(),
{
    if children.len() > 0 {
        let init = children.drop_last();
        lemma_first_with_field(block, init, field);
        directives_set_the_field_of_their_name(block, children.last().name_text(), field);
        let before = with_field(block, init, field);
        let after = with_field(block, children, field);
        if before.len() > 0 {
            let at = choose|at: int| #[trigger]
                first_of(init, field_name(field), at) && init[at] == before[0];
            assert(after[0] == before[0]);
            assert(first_of(children, field_name(field), at)) by {
                assert forall|i: int| 0 <= i < at implies (#[trigger] children[i]).name_text()
                    != field_name(field) by {
                    assert(init[i].name_text() != field_name(field));
                }
            }
            assert(children[at] == init[at]);
        } else if after.len() > 0 {
            let at = children.len() - 1;
            assert(first_of(children, field_name(field), at)) by {
                assert forall|i: int| 0 <= i < at implies (#[trigger] children[i]).name_text()
                    != field_name(field) by {
                    assert(init[i].name_text() != field_name(field));
                }
            }
            assert(children[at] == after[0]);
        } else {
            assert forall|i: int| 0 <= i < children.len() implies (#[trigger] children[i]).name_text()
                != field_name(field) by {
                if i < init.len() {
                    assert(init[i].name_text() != field_name(field));
                }
            }
        }
    }
}

/// What a block sets a field to is what its first directive of that name gives, with the place of that
/// directive; a block without such a directive does not set the field.
pub proof fn field_holds_what_its_directive_gives<T: DirectiveValue>(
    block: Block,
    children: Seq<AstDirective>,
    field: Field,
    sources: SourceMap,
    value: Option<Assignment<T>>,
)
    requires
        has_field(block, field),
        is_assigned(block, children, field, sources, value),
    ensures
        match value {
            Some(assignment) => exists|at: int|
                {
                    &&& #[trigger] first_of(children, field_name(field), at)
                    &&& T::reads(children[at], sources, Ok(assignment.value))
                    &&& assignment.span == children[at].span
                },
            None => forall|i: int|
                0 <= i < children.len() ==> (#[trigger] children[i]).name_text() != field_name(field),
        },
{
    lemma_first_with_field(block, children, field);
}

/// The same of a field whose place is not kept.
pub proof fn value_is_what_its_directive_gives<T: DirectiveValue>(
    block: Block,
    children: Seq<AstDirective>,
    field: Field,
    sources: SourceMap,
    value: Option<T>,
)
    requires
        has_field(block, field),
        is_value(block, children, field, sources, value),
    ensures
        match value {
            Some(value) => exists|at: int| #[trigger]
                first_of(children, field_name(field), at) && T::reads(
                    children[at],
                    sources,
                    Ok(value),
                ),
            None => forall|i: int|
                0 <= i < children.len() ==> (#[trigger] children[i]).name_text() != field_name(field),
        },
{
    lemma_first_with_field(block, children, field);
}

/// The same of the access log.
pub proof fn log_is_what_its_directive_gives(
    block: Block,
    children: Seq<AstDirective>,
    sources: SourceMap,
    value: Option<Assignment<AccessLogDirective>>,
)
    requires
        block != Block::Proxy,
        is_assigned_log(block, children, sources, value),
    ensures
        match value {
            Some(assignment) => exists|at: int|
                {
                    &&& #[trigger] first_of(children, "access_log"@, at)
                    &&& parses_access_log(children[at], sources, Ok(assignment.value))
                    &&& assignment.span == children[at].span
                },
            None => forall|i: int|
                0 <= i < children.len() ==> (#[trigger] children[i]).name_text() != "access_log"@,
        },
{
    lemma_first_with_field(block, children, Field::AccessLog);
}

/// Values that may be given several times are those of all directives of the name, in their order:
/// as many, and each directive's own.
pub proof fn values_follow_their_directives<T: DirectiveValue>(
    block: Block,
    children: Seq<AstDirective>,
    field: Field,
    sources: SourceMap,
    values: Seq<T>,
)
    requires
        has_field(block, field),
        are_values(block, children, field, sources, values),
    ensures
        values.len() == children.filter(
            |child: AstDirective| child.name_text() == field_name(field),
        ).len(),
        forall|i: int|
            #![trigger values[i]]
            0 <= i < values.len() ==> T::reads(
                children.filter(|child: AstDirective| child.name_text() == field_name(field))[i],
                sources,
                Ok(values[i]),
            ),
{
    lemma_with_field_filters(block, children, field);
}

/// The directives that set a field are those of its name.
pub proof fn lemma_with_field_filters(block: Block, children: Seq<AstDirective>, field: Field)
    requires
        has_field(block, field),
    ensures
        with_field(block, children, field) == children.filter(
            |child: AstDirective| child.name_text() == field_name(field),
        ),
    decreases children.len(),
{
    reveal(Seq::filter);
    if children.len() > 0 {
        lemma_with_field_filters(block, children.drop_last(), field);
        directives_set_the_field_of_their_name(block, children.last().name_text(), field);
    }
}

/// In a block that is in order, every directive is one that the block has, and no two have the same
/// name but those that may be given several times.
pub proof fn blocks_in_order_repeat_little(
    block: Block,
    children: Seq<AstDirective>,
    sources: SourceMap,
    one: int,
    other: int,
)
    requires
        all_ok(block, children, sources),
        0 <= one < other < children.len(),
    ensures
        exists|field: Field| has_field(block, field) && children[one].name_text() == #[trigger]
            field_name(field),
        children[one].name_text() == children[other].name_text() ==> {
            let name = children[one].name_text();
            name == "listen"@ || name == "location"@ || name == "stun_server"@ || name
                == "add_header"@ || name == "proxy_set_header"@ || name == "ssh_ssl_user"@ || name
                == "server"@ || name == "proxy"@
        },
{
    assert(child_ok(block, children, one, sources));
    assert(child_ok(block, children, other, sources));
    let setting = choose|setting: Setting| #[trigger]
        reads_setting(block, children[one], sources, Ok(setting));
    let field = field_of(block, children[one].name_text())->0;
    directives_set_the_field_of_their_name(block, children[one].name_text(), field);
    if children[one].name_text() == children[other].name_text() {
        let name = children[one].name_text();
        let before = children.take(other);
        assert(before[one] == children[one]);
        lemma_named_holds(before, name, one);
    }
}

proof fn lemma_named_holds(children: Seq<AstDirective>, name: Seq<char>, at: int)
    requires
        0 <= at < children.len(),
        children[at].name_text() == name,
    ensures
        named(children, name).len() > 0,
    decreases children.len(),
{
    let last = children.len() - 1;
    lemma_named_step(children, last, name);
    assert(children.take(last + 1) =~= children);
    if at < last {
        assert(children.take(last)[at] == children[at]);
        lemma_named_holds(children.take(last), name, at);
    }
}

/// A directive that a block does not have is refused, whatever it says.
pub proof fn strangers_are_refused(
    block: Block,
    children: Seq<AstDirective>,
    sources: SourceMap,
    at: int,
)
    requires
        0 <= at < children.len(),
        forall|field: Field|
            has_field(block, field) ==> children[at].name_text() != #[trigger] field_name(field),
    ensures
        !all_ok(block, children, sources),
{
    if all_ok(block, children, sources) {
        assert(child_ok(block, children, at, sources));
        let setting = choose|setting: Setting| #[trigger]
            reads_setting(block, children[at], sources, Ok(setting));
        let field = field_of(block, children[at].name_text())->0;
        directives_set_the_field_of_their_name(block, children[at].name_text(), field);
    }
}

/// A directive is a double where one of the same name stands before it, unless the name may be given
/// several times.
pub proof fn doubles_follow_one_of_their_name(block: Block, children: Seq<AstDirective>, at: int)
    requires
        0 <= at < children.len(),
    ensures
        is_duplicate(block, children, at) <==> {
            let name = children[at].name_text();
            &&& exists|i: int| 0 <= i < at && (#[trigger] children[i]).name_text() == name
            &&& name != "listen"@ && name != "location"@ && name != "stun_server"@
            &&& name != "add_header"@ && name != "proxy_set_header"@ && name != "ssh_ssl_user"@
            &&& block is RootPishoo || block is WorkerPishoo ==> name != "server"@ && name != "proxy"@
        },
{
    let name = children[at].name_text();
    let before = children.take(at);
    if exists|i: int| 0 <= i < at && (#[trigger] children[i]).name_text() == name {
        let i = choose|i: int| 0 <= i < at && (#[trigger] children[i]).name_text() == name;
        assert(before[i] == children[i]);
        lemma_named_holds(before, name, i);
    } else {
        assert forall|i: int| 0 <= i < before.len() implies (#[trigger] before[i]).name_text()
            != name by {
            assert(before[i] == children[i]);
        }
        lemma_named_nothing(before, name);
    }
}

proof fn lemma_named_nothing(children: Seq<AstDirective>, name: Seq<char>)
    requires
        forall|i: int| 0 <= i < children.len() ==> (#[trigger] children[i]).name_text() != name,
    ensures
        named(children, name).len() == 0,
    decreases children.len(),
{
    if children.len() > 0 {
        let last = children.len() - 1;
        lemma_named_step(children, last, name);
        assert(children.take(last + 1) =~= children);
        assert forall|i: int| 0 <= i < last implies (#[trigger] children.take(last)[i]).name_text()
            != name by {
            assert(children.take(last)[i] == children[i]);
        }
        lemma_named_nothing(children.take(last), name);
    }
}

} // verus!
