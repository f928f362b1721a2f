//! Readers of directives that all report what is wrong in one way.
use vstd::prelude::*;
use vstd::utf8::encode_utf8;

use crate::address::{AddrParseError, SocketAddr};
use crate::number::{parse_u16, parse_u8, unsigned_value, ParseIntError};
use crate::outside::{
    dhttp_name, http_uri, is_header_value, is_name_fault, is_uri_fault, parse_uri,
};
use crate::parse::ast::{AstDirective, Spanned};
use crate::parse::builtin::basic::{arg_strings, only_arg, switch_of};
use crate::parse::builtin::http::{
    block_entries, line_entries, proxy_pass_of, read_header, reads_header, reads_proxy_uri,
    HeaderRulesError, ProxyPassError,
};
use crate::parse::builtin::net::{
    address_list, all_names, parse_address_list, range_listens, read_listen, reads_listen,
    InvalidUri, ListenConfigError,
};
use crate::parse::builtin::ssh::all_ssl;
use crate::parse::builtin::stun::{bind_value, StunBindConfigValueError};
use crate::parse::construct::ParsedDirective;
use crate::parse::decode::{is_count_error, DirectiveInput, DirectiveValue};
use crate::parse::pattern::{
    is_parsed_pattern, parse_spanned_pattern, spanned_texts, ParsePatternError,
};
use crate::parse::source::SourceSpan;
use crate::parse::types::{
    families_of, mime_table, range_of, BoolConfig, DefaultType, DhttpName, HeaderRules, HeaderValue,
    IfaceRange, InvalidDhttpName, InvalidHeaderName, InvalidHeaderValue, InvalidIpFamilies,
    IpFamilies, ListenConfig, Listens, ListensView, MimeTypes, PathConfig, ResolverConfig,
    ServerIdConfig, ServerName, ServerNames, SocketAddrs, SshSslUser, SshSslUsers,
    StringConfig, StringList, StunBindConfigValue,
};
use crate::parse::value::{ConfigData, ConfigValue, TypedValue};
use crate::path::UnixPath;
use crate::text::{push_str, str_eq, texts};

verus! {

/// Why a directive gives no value.
#[derive(Debug)]
#[allow(inconsistent_fields)]
pub enum ParseDirectiveValueError {
    InvalidBoolean { span: SourceSpan, value: String },
    InvalidArgumentCount { span: SourceSpan, expected: &'static str, actual: usize },
    Uri { span: SourceSpan, source: InvalidUri },
    MissingProxyPassScheme { span: SourceSpan },
    UnsupportedProxyPassScheme { span: SourceSpan, scheme: String },
    MissingProxyPassHost { span: SourceSpan },
    SocketAddr { span: SourceSpan, source: AddrParseError },
    Port { span: SourceSpan, source: ParseIntError },
    HeaderName { span: SourceSpan, source: InvalidHeaderName },
    HeaderValue { span: SourceSpan, source: InvalidHeaderValue },
    MissingPath { span: SourceSpan, path: UnixPath },
    ServerName { span: SourceSpan, source: InvalidDhttpName },
    UnsupportedResolver { span: SourceSpan, kind: String },
    DeprecatedResolver { span: SourceSpan, kind: String },
    InvalidSshLogin { span: SourceSpan, method: String },
    MissingSshLogin { span: SourceSpan },
    InvalidAlways { span: SourceSpan, value: String },
    InvalidStunBind { span: SourceSpan },
}

impl ParseDirectiveValueError {
    /// The message of this error.
    pub open spec fn text(self) -> Seq<char> {
        match self {
            ParseDirectiveValueError::InvalidBoolean { .. } => "invalid boolean directive value"@,
            ParseDirectiveValueError::InvalidArgumentCount { .. } => "invalid directive argument count"@,
            ParseDirectiveValueError::Uri { .. } => "invalid uri directive value"@,
            ParseDirectiveValueError::MissingProxyPassScheme { .. } => "missing proxy_pass uri scheme"@,
            ParseDirectiveValueError::UnsupportedProxyPassScheme { scheme, .. } => "unsupported proxy_pass uri scheme `"@ + scheme@ + "`"@,
            ParseDirectiveValueError::MissingProxyPassHost { .. } => "missing proxy_pass uri host"@,
            ParseDirectiveValueError::SocketAddr { .. } => "invalid socket address directive value"@,
            ParseDirectiveValueError::Port { .. } => "invalid port directive value"@,
            ParseDirectiveValueError::HeaderName { .. } => "invalid header name directive value"@,
            ParseDirectiveValueError::HeaderValue { .. } => "invalid header value directive value"@,
            ParseDirectiveValueError::MissingPath { .. } => "configured path does not exist"@,
            ParseDirectiveValueError::ServerName { .. } => "invalid server name directive value"@,
            ParseDirectiveValueError::UnsupportedResolver { kind, .. } => "unsupported resolver kind `"@ + kind@ + "`"@,
            ParseDirectiveValueError::DeprecatedResolver { kind, .. } => "deprecated resolver kind `"@ + kind@ + "`"@,
            ParseDirectiveValueError::InvalidSshLogin { method, .. } => "invalid ssh login method `"@ + method@ + "`"@,
            ParseDirectiveValueError::MissingSshLogin { .. } => "missing ssh login method"@,
            ParseDirectiveValueError::InvalidAlways { .. } => "invalid add_header always marker"@,
            ParseDirectiveValueError::InvalidStunBind { .. } => "invalid stun_server bind directive"@,
        }
    }

    /// The message of this error.
    pub fn message(&self) -> (text: String)
        ensures
            text@ == self.text(),
    {
        match self {
            ParseDirectiveValueError::InvalidBoolean { .. } => "invalid boolean directive value".to_owned(),
            ParseDirectiveValueError::InvalidArgumentCount { .. } => "invalid directive argument count".to_owned(),
            ParseDirectiveValueError::Uri { .. } => "invalid uri directive value".to_owned(),
            ParseDirectiveValueError::MissingProxyPassScheme { .. } => "missing proxy_pass uri scheme".to_owned(),
            ParseDirectiveValueError::UnsupportedProxyPassScheme { scheme, .. } => {
                let mut text = "unsupported proxy_pass uri scheme `".to_owned();
                push_str(&mut text, scheme.as_str());
                push_str(&mut text, "`");
                text
            },
            ParseDirectiveValueError::MissingProxyPassHost { .. } => "missing proxy_pass uri host".to_owned(),
            ParseDirectiveValueError::SocketAddr { .. } => "invalid socket address directive value".to_owned(),
            ParseDirectiveValueError::Port { .. } => "invalid port directive value".to_owned(),
            ParseDirectiveValueError::HeaderName { .. } => "invalid header name directive value".to_owned(),
            ParseDirectiveValueError::HeaderValue { .. } => "invalid header value directive value".to_owned(),
            ParseDirectiveValueError::MissingPath { .. } => "configured path does not exist".to_owned(),
            ParseDirectiveValueError::ServerName { .. } => "invalid server name directive value".to_owned(),
            ParseDirectiveValueError::UnsupportedResolver { kind, .. } => {
                let mut text = "unsupported resolver kind `".to_owned();
                push_str(&mut text, kind.as_str());
                push_str(&mut text, "`");
                text
            },
            ParseDirectiveValueError::DeprecatedResolver { kind, .. } => {
                let mut text = "deprecated resolver kind `".to_owned();
                push_str(&mut text, kind.as_str());
                push_str(&mut text, "`");
                text
            },
            ParseDirectiveValueError::InvalidSshLogin { method, .. } => {
                let mut text = "invalid ssh login method `".to_owned();
                push_str(&mut text, method.as_str());
                push_str(&mut text, "`");
                text
            },
            ParseDirectiveValueError::MissingSshLogin { .. } => "missing ssh login method".to_owned(),
            ParseDirectiveValueError::InvalidAlways { .. } => "invalid add_header always marker".to_owned(),
            ParseDirectiveValueError::InvalidStunBind { .. } => "invalid stun_server bind directive".to_owned(),
        }
    }

    /// The messages of this error and of what caused it, outermost first.
    pub open spec fn chain(self) -> Seq<Seq<char>> {
        match self {
            ParseDirectiveValueError::Uri { source, .. } => seq![self.text(), source.text()],
            ParseDirectiveValueError::SocketAddr { source, .. } => seq![self.text(), source.text()],
            ParseDirectiveValueError::Port { source, .. } => seq![self.text(), source.text()],
            ParseDirectiveValueError::HeaderName { source, .. } => seq![self.text(), source.text()],
            ParseDirectiveValueError::HeaderValue { source, .. } => seq![self.text(), source.text()],
            ParseDirectiveValueError::ServerName { source, .. } => seq![self.text(), source.text()],
            _ => seq![self.text()],
        }
    }

    /// The messages of this error and of what caused it, outermost first.
    pub fn messages(&self) -> (list: Vec<String>)
        ensures
            texts(list@) == self.chain(),
    {
        let mut list: Vec<String> = Vec::new();
        list.push(self.message());
        match self {
            ParseDirectiveValueError::Uri { source, .. } => {
                list.push(source.message());
            },
            ParseDirectiveValueError::SocketAddr { source, .. } => {
                list.push(source.message());
            },
            ParseDirectiveValueError::Port { source, .. } => {
                list.push(source.message());
            },
            ParseDirectiveValueError::HeaderName { source, .. } => {
                list.push(source.message());
            },
            ParseDirectiveValueError::HeaderValue { source, .. } => {
                list.push(source.message());
            },
            ParseDirectiveValueError::ServerName { source, .. } => {
                list.push(source.message());
            },
            _ => {},
        }
        assert(texts(list@) =~= self.chain());
        list
    }
}

/// The value of a directive, at the place that it comes from.
pub open spec fn slot_data(
    result: Result<ParsedDirective, ParseDirectiveValueError>,
    place: SourceSpan,
) -> Option<ConfigData> {
    match result {
        Ok(ParsedDirective::Slot(typed)) => if typed.place() == place {
            Some(typed.data())
        } else {
            None
        },
        _ => None,
    }
}

/// The error on the number of arguments.
pub open spec fn wants_args(
    directive: AstDirective,
    wanted: Seq<char>,
    result: Result<ParsedDirective, ParseDirectiveValueError>,
) -> bool {
    result matches Err(ParseDirectiveValueError::InvalidArgumentCount { span, expected, actual })
        && is_count_error(directive, span, expected@, actual, wanted)
}

fn exactly_one(directive: &AstDirective) -> (result: Result<
    &Spanned<String>,
    ParseDirectiveValueError,
>)
    ensures
        match result {
            Ok(arg) => directive.args@.len() == 1 && *arg == directive.args@[0],
            Err(error) => directive.args@.len() != 1 && wants_args(
                *directive,
                "1"@,
                Err::<ParsedDirective, ParseDirectiveValueError>(error),
            ),
        },
{
    match only_arg(directive) {
        Some(arg) => Ok(arg),
        None => Err(
            ParseDirectiveValueError::InvalidArgumentCount {
                span: directive.span,
                expected: "1",
                actual: directive.args.len(),
            },
        ),
    }
}

fn slot<T: ConfigValue>(value: T, span: SourceSpan) -> (result: Result<
    ParsedDirective,
    ParseDirectiveValueError,
>)
    ensures
        slot_data(result, span) == Some(value.data()),
        result matches Ok(ParsedDirective::Slot(typed)) && typed.place() == span && typed.data()
            == value.data(),
{
    Ok(ParsedDirective::Slot(TypedValue::new(value, span)))
}

/// A directive without a value.
pub fn parse_empty(input: &DirectiveInput<'_>) -> (result: Result<
    ParsedDirective,
    ParseDirectiveValueError,
>)
    ensures
        result matches Ok(ParsedDirective::Empty),
{
    Ok(ParsedDirective::Empty)
}

/// One text.
pub fn parse_string(input: &DirectiveInput<'_>) -> (result: Result<
    ParsedDirective,
    ParseDirectiveValueError,
>)
    ensures
        if input.directive.args@.len() == 1 {
            slot_data(result, input.directive.args@[0].span) matches Some(
                ConfigData::StringConfig(value),
            ) && value.0@ == input.directive.arg(0)
        } else {
            wants_args(*input.directive, "1"@, result)
        },
{
    match exactly_one(input.directive) {
        Ok(arg) => slot(StringConfig(arg.value.clone()), arg.span),
        Err(error) => Err(error),
    }
}

/// All arguments.
pub fn parse_string_list(input: &DirectiveInput<'_>) -> (result: Result<
    ParsedDirective,
    ParseDirectiveValueError,
>)
    ensures
        slot_data(result, input.directive.span) matches Some(ConfigData::StringList(list))
            && list.0@ == input.directive.arg_values(),
{
    slot(StringList(arg_strings(input.directive)), input.directive.span)
}

/// `on` or `off`.
pub fn parse_boolean(input: &DirectiveInput<'_>) -> (result: Result<
    ParsedDirective,
    ParseDirectiveValueError,
>)
    ensures
        if input.directive.args@.len() != 1 {
            wants_args(*input.directive, "1"@, result)
        } else {
            let place = input.directive.args@[0].span;
            match switch_of(input.directive.arg(0)) {
                Some(on) => slot_data(result, place) == Some(
                    ConfigData::BoolConfig(BoolConfig(on)),
                ),
                None => result matches Err(
                    ParseDirectiveValueError::InvalidBoolean { span, value },
                ) && span == place && value@ == input.directive.arg(0),
            }
        },
{
    let arg = match exactly_one(input.directive) {
        Ok(arg) => arg,
        Err(error) => {
            return Err(error);
        },
    };
    if str_eq(arg.value.as_str(), "on") {
        slot(BoolConfig(true), arg.span)
    } else if str_eq(arg.value.as_str(), "off") {
        slot(BoolConfig(false), arg.span)
    } else {
        Err(
            ParseDirectiveValueError::InvalidBoolean {
                span: arg.span,
                value: arg.value.clone(),
            },
        )
    }
}

/// A path.
pub fn parse_path(input: &DirectiveInput<'_>) -> (result: Result<
    ParsedDirective,
    ParseDirectiveValueError,
>)
    ensures
        if input.directive.args@.len() == 1 {
            slot_data(result, input.directive.args@[0].span) matches Some(
                ConfigData::PathConfig(path),
            ) && path.0@ == encode_utf8(input.directive.arg(0))
        } else {
            wants_args(*input.directive, "1"@, result)
        },
{
    match exactly_one(input.directive) {
        Ok(arg) => slot(PathConfig(UnixPath::new(arg.value.as_str())), arg.span),
        Err(error) => Err(error),
    }
}

/// A path that must lead to something; `found` says whether it does.
pub fn parse_existing_path(input: &DirectiveInput<'_>, found: bool) -> (result: Result<
    ParsedDirective,
    ParseDirectiveValueError,
>)
    ensures
        if input.directive.args@.len() != 1 {
            wants_args(*input.directive, "1"@, result)
        } else {
            let place = input.directive.args@[0].span;
            if found {
                slot_data(result, place) matches Some(ConfigData::PathConfig(path)) && path.0@
                    == encode_utf8(input.directive.arg(0))
            } else {
                result matches Err(ParseDirectiveValueError::MissingPath { span, path }) && span
                    == place && path@ == encode_utf8(input.directive.arg(0))
            }
        },
{
    match exactly_one(input.directive) {
        Ok(arg) => {
            let path = UnixPath::new(arg.value.as_str());
            if found {
                slot(PathConfig(path), arg.span)
            } else {
                Err(ParseDirectiveValueError::MissingPath { span: arg.span, path })
            }
        },
        Err(error) => Err(error),
    }
}

/// A type for files of unknown type.
pub fn parse_default_type(input: &DirectiveInput<'_>) -> (result: Result<
    ParsedDirective,
    ParseDirectiveValueError,
>)
    ensures
        if input.directive.args@.len() != 1 {
            wants_args(*input.directive, "1"@, result)
        } else {
            let place = input.directive.args@[0].span;
            let bytes = encode_utf8(input.directive.arg(0));
            if is_header_value(bytes) {
                slot_data(result, place) matches Some(ConfigData::DefaultType(value)) && value@
                    == bytes
            } else {
                result matches Err(ParseDirectiveValueError::HeaderValue { span, .. }) && span
                    == place
            }
        },
{
    let arg = match exactly_one(input.directive) {
        Ok(arg) => arg,
        Err(error) => {
            return Err(error);
        },
    };
    match HeaderValue::from_bytes(arg.value.as_str().as_bytes()) {
        Ok(value) => slot(DefaultType(value), arg.span),
        Err(source) => Err(ParseDirectiveValueError::HeaderValue { span: arg.span, source }),
    }
}

/// How an error on a `proxy_pass` URI is reported.
pub open spec fn is_pass_error(error: ProxyPassError, reported: ParseDirectiveValueError) -> bool {
    match error {
        ProxyPassError::MissingScheme { span: place } => reported matches
            ParseDirectiveValueError::MissingProxyPassScheme { span } && span == place,
        ProxyPassError::UnsupportedScheme { span: place, scheme: name } => reported matches
            ParseDirectiveValueError::UnsupportedProxyPassScheme { span, scheme } && span == place
            && scheme == name,
        ProxyPassError::MissingHost { span: place } => reported matches
            ParseDirectiveValueError::MissingProxyPassHost { span } && span == place,
        _ => false,
    }
}

/// The server that requests are passed on to.
pub fn parse_proxy_pass(input: &DirectiveInput<'_>) -> (result: Result<
    ParsedDirective,
    ParseDirectiveValueError,
>)
    ensures
        if input.directive.args@.len() != 1 {
            wants_args(*input.directive, "1"@, result)
        } else {
            let place = input.directive.args@[0].span;
            match http_uri(input.directive.arg(0)) {
                None => result matches Err(ParseDirectiveValueError::Uri { span, source }) && span
                    == place && is_uri_fault(input.directive.arg(0), source.text()),
                Some(uri) => match result {
                    Ok(_) => slot_data(result, place) matches Some(ConfigData::ProxyPass(pass))
                        && reads_proxy_uri(input.directive.arg(0), uri, place, Ok(pass)),
                    Err(reported) => exists|error: ProxyPassError| #[trigger]
                        is_pass_error(error, reported) && reads_proxy_uri(
                            input.directive.arg(0),
                            uri,
                            place,
                            Err(error),
                        ),
                },
            }
        },
{
    let arg = match exactly_one(input.directive) {
        Ok(arg) => arg,
        Err(error) => {
            return Err(error);
        },
    };
    let uri = match parse_uri(arg.value.as_str()) {
        Ok(uri) => uri,
        Err(reason) => {
            return Err(
                ParseDirectiveValueError::Uri { span: arg.span, source: InvalidUri { reason } },
            );
        },
    };
    let ghost view = uri@;
    match proxy_pass_of(arg.value.as_str(), uri, arg.span) {
        Ok(pass) => slot(pass, arg.span),
        Err(error) => {
            let ghost read_error = error;
            let reported = match error {
                ProxyPassError::MissingScheme { span } => {
                    ParseDirectiveValueError::MissingProxyPassScheme { span }
                },
                ProxyPassError::UnsupportedScheme { span, scheme } => {
                    ParseDirectiveValueError::UnsupportedProxyPassScheme { span, scheme }
                },
                ProxyPassError::MissingHost { span } => {
                    ParseDirectiveValueError::MissingProxyPassHost { span }
                },
                ProxyPassError::Uri { span, source } => {
                    ParseDirectiveValueError::Uri { span, source }
                },
                ProxyPassError::InvalidArgumentCount { span, expected, actual } => {
                    ParseDirectiveValueError::InvalidArgumentCount { span, expected, actual }
                },
            };
            assert(is_pass_error(read_error, reported));
            Err(reported)
        },
    }
}

/// The resolver to ask for names.
pub fn parse_resolver(input: &DirectiveInput<'_>) -> (result: Result<
    ParsedDirective,
    ParseDirectiveValueError,
>)
    ensures
        ({
            let args = input.directive.args@;
            if args.len() != 2 {
                wants_args(*input.directive, "2"@, result)
            } else if args[0].value@ == "h3"@ {
                match http_uri(args[1].value@) {
                    Some(uri) => slot_data(result, input.directive.span) matches Some(
                        ConfigData::ResolverConfig(resolver),
                    ) && resolver.0@ == uri,
                    None => result matches Err(ParseDirectiveValueError::Uri { span, source })
                        && span == args[1].span && is_uri_fault(args[1].value@, source.text()),
                }
            } else if args[0].value@ == "udp"@ || args[0].value@ == "http"@ {
                result matches Err(ParseDirectiveValueError::DeprecatedResolver { span, kind })
                    && span == args[0].span && kind@ == args[0].value@
            } else {
                result matches Err(ParseDirectiveValueError::UnsupportedResolver { span, kind })
                    && span == args[0].span && kind@ == args[0].value@
            }
        }),
{
    let args = &input.directive.args;
    if args.len() != 2 {
        return Err(
            ParseDirectiveValueError::InvalidArgumentCount {
                span: input.directive.span,
                expected: "2",
                actual: args.len(),
            },
        );
    }
    let kind = args[0].value.as_str();
    if str_eq(kind, "h3") {
        match parse_uri(args[1].value.as_str()) {
            Ok(uri) => slot(ResolverConfig(uri), input.directive.span),
            Err(reason) => Err(
                ParseDirectiveValueError::Uri {
                    span: args[1].span,
                    source: InvalidUri { reason },
                },
            ),
        }
    } else if str_eq(kind, "udp") || str_eq(kind, "http") {
        Err(
            ParseDirectiveValueError::DeprecatedResolver {
                span: args[0].span,
                kind: args[0].value.clone(),
            },
        )
    } else {
        Err(
            ParseDirectiveValueError::UnsupportedResolver {
                span: args[0].span,
                kind: args[0].value.clone(),
            },
        )
    }
}

/// The number of a server among those of one name.
pub fn parse_server_id(input: &DirectiveInput<'_>) -> (result: Result<
    ParsedDirective,
    ParseDirectiveValueError,
>)
    ensures
        if input.directive.args@.len() != 1 {
            wants_args(*input.directive, "1"@, result)
        } else {
            let place = input.directive.args@[0].span;
            match unsigned_value(input.directive.arg(0), 0xff) {
                Ok(number) => slot_data(result, place) == Some(
                    ConfigData::ServerIdConfig(ServerIdConfig(number as u8)),
                ),
                Err(error) => result matches Err(ParseDirectiveValueError::Port { span, source })
                    && span == place && source == error,
            }
        },
{
    let arg = match exactly_one(input.directive) {
        Ok(arg) => arg,
        Err(error) => {
            return Err(error);
        },
    };
    match parse_u8(arg.value.as_str()) {
        Ok(number) => slot(ServerIdConfig(number), arg.span),
        Err(source) => Err(ParseDirectiveValueError::Port { span: arg.span, source }),
    }
}

/// The names of a server.
pub fn parse_server_name(input: &DirectiveInput<'_>) -> (result: Result<
    ParsedDirective,
    ParseDirectiveValueError,
>)
    ensures
        ({
            let args = input.directive.args@;
            match result {
                Ok(_) => all_names(args, args.len() as int) && (slot_data(
                    result,
                    input.directive.span,
                ) matches Some(ConfigData::ServerNames(names)) && names.0@.len() == args.len()
                    && forall|i: int|
                    0 <= i < args.len() ==> dhttp_name((#[trigger] args[i]).value@) == Some(
                        names.0@[i].name@,
                    )),
                Err(ParseDirectiveValueError::ServerName { span, source }) => exists|at: int|
                    {
                        &&& 0 <= at < args.len()
                        &&& all_names(args, at)
                        &&& is_name_fault((#[trigger] args[at]).value@, source.text())
                        &&& span == args[at].span
                    },
                Err(_) => false,
            }
        }),
{
    let args = &input.directive.args;
    let mut names: Vec<ServerName> = Vec::new();
    let mut i: usize = 0;
    while i < args.len()
        invariant
            i <= args@.len(),
            args == input.directive.args,
            all_names(args@, i as int),
            names@.len() == i,
            forall|k: int|
                0 <= k < i ==> dhttp_name((#[trigger] args@[k]).value@) == Some(names@[k].name@),
        decreases args@.len() - i,
    {
        let arg = &args[i];
        assert(args@[i as int] == *arg);
        match DhttpName::try_from(arg.value.as_str()) {
            Ok(name) => {
                names.push(ServerName { name });
            },
            Err(source) => {
                return Err(ParseDirectiveValueError::ServerName { span: arg.span, source });
            },
        }
        i += 1;
    }
    slot(ServerNames(names), input.directive.span)
}

/// Why a `listen` directive gives no value.
#[derive(Debug)]
pub enum ParseListenError {
    Value(ParseDirectiveValueError),
    Families(InvalidIpFamilies),
}

/// How an error on a `listen` directive is reported.
pub open spec fn is_listen_error(
    error: ListenConfigError,
    reported: ParseDirectiveValueError,
) -> bool {
    match error {
        ListenConfigError::InvalidArgumentCount { span: place, expected: wanted, actual: count } => {
            reported matches ParseDirectiveValueError::InvalidArgumentCount {
                span,
                expected,
                actual,
            } && span == place && expected@ == wanted@ && actual == count
        },
        ListenConfigError::SocketAddr { span: place, .. } => reported matches
            ParseDirectiveValueError::SocketAddr { span, .. } && span == place,
        ListenConfigError::Port { span: place, source: cause } => reported matches
            ParseDirectiveValueError::Port { span, source } && span == place && source == cause,
        ListenConfigError::IpFamilies { .. } => false,
    }
}

/// What reading a `listen` directive gives. Of three arguments the port is looked at before the
/// families.
pub open spec fn parses_listen(
    directive: AstDirective,
    result: Result<ListensView, ParseListenError>,
) -> bool {
    let args = directive.args@;
    if args.len() == 3 {
        match unsigned_value(args[2].value@, 0xffff) {
            Err(error) => result matches Err(
                ParseListenError::Value(ParseDirectiveValueError::Port { span, source }),
            ) && span == args[2].span && source == error,
            Ok(port) => match families_of(args[1].value@) {
                Some(families) => result matches Ok(listens) && listens == range_listens(
                    range_of(args[0].value@),
                    families,
                    port as u16,
                ),
                None => result matches Err(ParseListenError::Families(error)) && error.value@
                    == args[1].value@,
            },
        }
    } else {
        match result {
            Ok(listens) => reads_listen(directive, Ok(listens)),
            Err(ParseListenError::Value(reported)) => exists|error: ListenConfigError| #[trigger]
                is_listen_error(error, reported) && reads_listen(directive, Err(error)),
            Err(ParseListenError::Families(_)) => false,
        }
    }
}

fn parse_listens(directive: &AstDirective) -> (result: Result<Listens, ParseListenError>)
    ensures
        match result {
            Ok(listens) => parses_listen(*directive, Ok(listens@)),
            Err(error) => parses_listen(*directive, Err(error)),
        },
{
    let args = &directive.args;
    if args.len() == 3 {
        let port = match parse_u16(args[2].value.as_str()) {
            Ok(port) => port,
            Err(source) => {
                return Err(
                    ParseListenError::Value(
                        ParseDirectiveValueError::Port { span: args[2].span, source },
                    ),
                );
            },
        };
        return match IpFamilies::from_str(args[1].value.as_str()) {
            Ok(families) => Ok(
                Listens::new(IfaceRange::from_text(args[0].value.as_str()), families, port),
            ),
            Err(error) => Err(ParseListenError::Families(error)),
        };
    }
    match read_listen(directive) {
        Ok(listens) => Ok(listens),
        Err(error) => {
            let ghost read_error = error;
            let reported = match error {
                ListenConfigError::InvalidArgumentCount { span, expected, actual } => {
                    ParseDirectiveValueError::InvalidArgumentCount { span, expected, actual }
                },
                ListenConfigError::SocketAddr { span, source } => {
                    ParseDirectiveValueError::SocketAddr { span, source }
                },
                ListenConfigError::Port { span, source } => {
                    ParseDirectiveValueError::Port { span, source }
                },
                ListenConfigError::IpFamilies { span, .. } => {
                    ParseDirectiveValueError::SocketAddr { span, source: AddrParseError }
                },
            };
            assert(is_listen_error(read_error, reported));
            Err(ParseListenError::Value(reported))
        },
    }
}

/// What to listen on: `listen interface [v4only|v6only|dual] [port]`, or a list of addresses.
pub fn parse_listen(input: &DirectiveInput<'_>) -> (result: Result<
    ParsedDirective,
    ParseListenError,
>)
    ensures
        match result {
            Ok(ParsedDirective::Slot(typed)) => typed.place() == input.directive.span && (
            typed.data() matches ConfigData::ListenConfig(config) && config.0@.len() == 1
                && parses_listen(*input.directive, Ok(config.0@[0]@))),
            Ok(_) => false,
            Err(error) => parses_listen(*input.directive, Err(error)),
        },
{
    match parse_listens(input.directive) {
        Ok(listens) => {
            let mut list: Vec<Listens> = Vec::new();
            list.push(listens);
            Ok(
                ParsedDirective::Slot(TypedValue::new(ListenConfig(list), input.directive.span)),
            )
        },
        Err(error) => Err(error),
    }
}

/// A list of addresses.
pub fn parse_address(input: &DirectiveInput<'_>) -> (result: Result<
    ParsedDirective,
    ParseDirectiveValueError,
>)
    ensures
        if input.directive.args@.len() != 1 {
            wants_args(*input.directive, "1"@, result)
        } else {
            let place = input.directive.args@[0].span;
            match address_list(input.directive.arg(0)) {
                Some(addrs) => slot_data(result, place) matches Some(
                    ConfigData::SocketAddrs(list),
                ) && list.0@ == addrs,
                None => result matches Err(ParseDirectiveValueError::SocketAddr { span, .. })
                    && span == place,
            }
        },
{
    let arg = match exactly_one(input.directive) {
        Ok(arg) => arg,
        Err(error) => {
            return Err(error);
        },
    };
    match parse_address_list(arg.value.as_str()) {
        Some(addrs) => slot(SocketAddrs(addrs), arg.span),
        None => Err(
            ParseDirectiveValueError::SocketAddr { span: arg.span, source: AddrParseError },
        ),
    }
}

/// How an error on a `bind` directive is reported.
pub open spec fn is_bind_error(
    error: StunBindConfigValueError,
    reported: ParseDirectiveValueError,
) -> bool {
    match error {
        StunBindConfigValueError::InvalidArgumentCount {
            span: place,
            expected: wanted,
            actual: count,
        } => reported matches ParseDirectiveValueError::InvalidArgumentCount {
            span,
            expected,
            actual,
        } && span == place && expected@ == wanted@ && actual == count,
        StunBindConfigValueError::SocketAddr { span: place, .. } => reported matches
            ParseDirectiveValueError::SocketAddr { span, .. } && span == place,
        StunBindConfigValueError::Port { span: place, source: cause } => reported matches
            ParseDirectiveValueError::Port { span, source } && span == place && source == cause,
        StunBindConfigValueError::InvalidOption { span: place } => reported matches
            ParseDirectiveValueError::InvalidStunBind { span } && span == place,
    }
}

/// An address that a STUN server binds to, with its options.
pub fn parse_stun_bind(input: &DirectiveInput<'_>) -> (result: Result<
    ParsedDirective,
    ParseDirectiveValueError,
>)
    ensures
        match result {
            Ok(_) => slot_data(result, input.directive.span) matches Some(
                ConfigData::StunBindConfigValue(value),
            ) && bind_value(input.directive.args@) == Some(value),
            Err(reported) => bind_value(input.directive.args@) is None && exists|
                error: StunBindConfigValueError,
            | #[trigger]
                is_bind_error(error, reported) && StunBindConfigValue::reads(
                    *input.directive,
                    *input.source_map,
                    Err(error),
                ),
        },
{
    match StunBindConfigValue::read(input.directive, input.source_map) {
        Ok(value) => slot(value, input.directive.span),
        Err(error) => {
            let ghost read_error = error;
            let reported = match error {
                StunBindConfigValueError::InvalidArgumentCount { span, expected, actual } => {
                    ParseDirectiveValueError::InvalidArgumentCount { span, expected, actual }
                },
                StunBindConfigValueError::SocketAddr { span, source } => {
                    ParseDirectiveValueError::SocketAddr { span, source }
                },
                StunBindConfigValueError::Port { span, source } => {
                    ParseDirectiveValueError::Port { span, source }
                },
                StunBindConfigValueError::InvalidOption { span } => {
                    ParseDirectiveValueError::InvalidStunBind { span }
                },
            };
            assert(is_bind_error(read_error, reported));
            Err(reported)
        },
    }
}

/// How an error on a header is reported.
pub open spec fn is_header_error(
    error: HeaderRulesError,
    reported: ParseDirectiveValueError,
) -> bool {
    match error {
        HeaderRulesError::HeaderName { span: place, .. } => reported matches
            ParseDirectiveValueError::HeaderName { span, .. } && span == place,
        HeaderRulesError::HeaderValue { span: place, .. } => reported matches
            ParseDirectiveValueError::HeaderValue { span, .. } && span == place,
        _ => false,
    }
}

/// What reading the name and the value of a header gives.
pub open spec fn parses_header(
    directive: AstDirective,
    always: bool,
    result: Result<ParsedDirective, ParseDirectiveValueError>,
) -> bool {
    let args = directive.args@;
    match result {
        Ok(_) => slot_data(result, directive.span) matches Some(ConfigData::HeaderRules(rules))
            && reads_header(args[0], args[1], always, Ok(rules)),
        Err(reported) => exists|error: HeaderRulesError| #[trigger]
            is_header_error(error, reported) && reads_header(args[0], args[1], always, Err(error)),
    }
}

fn parse_header_parts(directive: &AstDirective, always: bool) -> (result: Result<
    ParsedDirective,
    ParseDirectiveValueError,
>)
    requires
        directive.args@.len() >= 2,
    ensures
        parses_header(*directive, always, result),
{
    match read_header(&directive.args[0], &directive.args[1], always) {
        Ok(rules) => slot(rules, directive.span),
        Err(error) => {
            let ghost read_error = error;
            let place = directive.span;
            let reported = match error {
                HeaderRulesError::HeaderName { span, source } => {
                    ParseDirectiveValueError::HeaderName { span, source }
                },
                HeaderRulesError::HeaderValue { span, source } => {
                    ParseDirectiveValueError::HeaderValue { span, source }
                },
                _ => ParseDirectiveValueError::HeaderName { span: place, source: InvalidHeaderName },
            };
            assert(is_header_error(read_error, reported));
            Err(reported)
        },
    }
}

/// A header that is set on requests: `name value`.
pub fn parse_header(input: &DirectiveInput<'_>) -> (result: Result<
    ParsedDirective,
    ParseDirectiveValueError,
>)
    ensures
        if input.directive.args@.len() == 2 {
            parses_header(*input.directive, true, result)
        } else {
            wants_args(*input.directive, "2"@, result)
        },
{
    parse_header_inner(input, false)
}

/// A header that is added to responses: `name value [always]`.
pub fn parse_header_always(input: &DirectiveInput<'_>) -> (result: Result<
    ParsedDirective,
    ParseDirectiveValueError,
>)
    ensures
        ({
            let args = input.directive.args@;
            if args.len() == 2 {
                parses_header(*input.directive, false, result)
            } else if args.len() != 3 {
                wants_args(*input.directive, "2 or 3"@, result)
            } else if args[2].value@ == "always"@ {
                parses_header(*input.directive, true, result)
            } else {
                result matches Err(ParseDirectiveValueError::InvalidAlways { span, value }) && span
                    == args[2].span && value@ == args[2].value@
            }
        }),
{
    parse_header_inner(input, true)
}

fn parse_header_inner(input: &DirectiveInput<'_>, allow_always: bool) -> (result: Result<
    ParsedDirective,
    ParseDirectiveValueError,
>)
    ensures
        ({
            let args = input.directive.args@;
            if args.len() == 2 {
                parses_header(*input.directive, !allow_always, result)
            } else if args.len() != 3 || !allow_always {
                wants_args(
                    *input.directive,
                    if allow_always {
                        "2 or 3"@
                    } else {
                        "2"@
                    },
                    result,
                )
            } else if args[2].value@ == "always"@ {
                parses_header(*input.directive, true, result)
            } else {
                result matches Err(ParseDirectiveValueError::InvalidAlways { span, value }) && span
                    == args[2].span && value@ == args[2].value@
            }
        }),
{
    let args = &input.directive.args;
    if args.len() == 2 {
        return parse_header_parts(input.directive, !allow_always);
    }
    if args.len() == 3 && allow_always {
        if str_eq(args[2].value.as_str(), "always") {
            return parse_header_parts(input.directive, true);
        }
        return Err(
            ParseDirectiveValueError::InvalidAlways {
                span: args[2].span,
                value: args[2].value.clone(),
            },
        );
    }
    Err(
        ParseDirectiveValueError::InvalidArgumentCount {
            span: input.directive.span,
            expected: if allow_always {
                "2 or 3"
            } else {
                "2"
            },
            actual: args.len(),
        },
    )
}

/// Whether the first `count` lines of a `types` block are each headed by a type.
pub open spec fn heads_ok(lines: Seq<AstDirective>, count: int) -> bool {
    forall|i: int|
        0 <= i < count ==> is_header_value(encode_utf8((#[trigger] lines[i]).name_text()))
}

/// Whether the first line of a `types` block that is not headed by a type stands at a place.
pub open spec fn is_bad_head(lines: Seq<AstDirective>, place: SourceSpan) -> bool {
    exists|at: int|
        {
            &&& 0 <= at < lines.len()
            &&& heads_ok(lines, at)
            &&& !is_header_value(encode_utf8((#[trigger] lines[at]).name_text()))
            &&& place == lines[at].name.span
        }
}

/// A table of types by extension. Of an extension that stands in it twice the last type counts.
pub fn parse_types_raw_block(input: &DirectiveInput<'_>) -> (result: Result<
    ParsedDirective,
    ParseDirectiveValueError,
>)
    ensures
        match input.directive.block() {
            None => result matches Err(
                ParseDirectiveValueError::InvalidArgumentCount { span, expected, actual },
            ) && span == input.directive.span && expected@ == "block"@ && actual == 0,
            Some(lines) => match result {
                Ok(_) => heads_ok(lines, lines.len() as int) && (slot_data(
                    result,
                    input.directive.span,
                ) matches Some(ConfigData::MimeTypes(types)) && types@ == mime_table(
                    block_entries(lines),
                )),
                Err(ParseDirectiveValueError::HeaderValue { span, .. }) => is_bad_head(lines, span),
                Err(_) => false,
            },
        },
{
    let lines = match input.directive.children() {
        Some(lines) => lines,
        None => {
            return Err(
                ParseDirectiveValueError::InvalidArgumentCount {
                    span: input.directive.span,
                    expected: "block",
                    actual: 0,
                },
            );
        },
    };
    let mut types = MimeTypes::new();
    let mut i: usize = 0;
    assert(lines@.take(0) =~= seq![]);
    assert(types@ =~= mime_table(block_entries(lines@.take(0))));
    while i < lines.len()
        invariant
            i <= lines@.len(),
            input.directive.block() == Some(lines@),
            heads_ok(lines@, i as int),
            types@ == mime_table(block_entries(lines@.take(i as int))),
        decreases lines@.len() - i,
    {
        let line = &lines[i];
        assert(lines@[i as int] == *line);
        let value = match HeaderValue::from_bytes(line.name.value.as_str().as_bytes()) {
            Ok(value) => value,
            Err(source) => {
                assert(is_bad_head(lines@, lines@[i as int].name.span));
                return Err(
                    ParseDirectiveValueError::HeaderValue { span: line.name.span, source },
                );
            },
        };
        types = with_line(types, line, &value, Ghost(block_entries(lines@.take(i as int))));
        assert(lines@.take(i + 1).drop_last() =~= lines@.take(i as int));
        i += 1;
    }
    assert(lines@.take(i as int) =~= lines@);
    slot(types, input.directive.span)
}

/// Enters the type at the head of a line for all extensions of the line.
pub(crate) fn with_line(
    types: MimeTypes,
    line: &AstDirective,
    value: &HeaderValue,
    Ghost(before): Ghost<Seq<(Seq<char>, Seq<u8>)>>,
) -> (after: MimeTypes)
    requires
        types@ == mime_table(before),
        value@ == encode_utf8(line.name_text()),
    ensures
        after@ == mime_table(before + line_entries(*line)),
{
    let mut after = types;
    let mut i: usize = 0;
    assert(line_entries(*line).take(0) =~= seq![]);
    assert(before + line_entries(*line).take(0) =~= before);
    while i < line.args.len()
        invariant
            i <= line.args@.len(),
            value@ == encode_utf8(line.name_text()),
            after@ == mime_table(before + line_entries(*line).take(i as int)),
        decreases line.args@.len() - i,
    {
        after = after.insert(line.args[i].value.clone(), value.clone());
        proof {
            let entries = line_entries(*line);
            let next = before + entries.take(i + 1);
            assert(next.drop_last() =~= before + entries.take(i as int));
            assert(next.last() == entries[i as int]);
        }
        i += 1;
    }
    assert(line_entries(*line).take(i as int) =~= line_entries(*line));
    after
}

/// Login methods: there is only `ssl`.
pub fn parse_ssh_login(input: &DirectiveInput<'_>) -> (result: Result<
    ParsedDirective,
    ParseDirectiveValueError,
>)
    ensures
        ({
            let args = input.directive.args@;
            match result {
                Ok(_) => args.len() > 0 && all_ssl(args, args.len() as int) && (slot_data(
                    result,
                    input.directive.span,
                ) matches Some(ConfigData::StringList(list)) && list.0@
                    == input.directive.arg_values()),
                Err(ParseDirectiveValueError::MissingSshLogin { span }) => args.len() == 0 && span
                    == input.directive.span,
                Err(ParseDirectiveValueError::InvalidSshLogin { span, method }) => exists|at: int|
                    {
                        &&& 0 <= at < args.len()
                        &&& all_ssl(args, at)
                        &&& (#[trigger] args[at]).value@ != "ssl"@
                        &&& span == args[at].span
                        &&& method@ == args[at].value@
                    },
                Err(_) => false,
            }
        }),
{
    let args = &input.directive.args;
    if args.len() == 0 {
        return Err(ParseDirectiveValueError::MissingSshLogin { span: input.directive.span });
    }
    let mut i: usize = 0;
    while i < args.len()
        invariant
            i <= args@.len(),
            args == input.directive.args,
            all_ssl(args@, i as int),
        decreases args@.len() - i,
    {
        let arg = &args[i];
        assert(args@[i as int] == *arg);
        if !str_eq(arg.value.as_str(), "ssl") {
            return Err(
                ParseDirectiveValueError::InvalidSshLogin {
                    span: arg.span,
                    method: arg.value.clone(),
                },
            );
        }
        i += 1;
    }
    parse_string_list(input)
}

/// The user that holders of a certificate log in as: `name user`.
pub fn parse_ssh_ssl_user(input: &DirectiveInput<'_>) -> (result: Result<
    ParsedDirective,
    ParseDirectiveValueError,
>)
    ensures
        if input.directive.args@.len() == 2 {
            slot_data(result, input.directive.span) matches Some(ConfigData::SshSslUsers(users))
                && users.0@.len() == 1 && users.0@[0].name@ == input.directive.arg(0)
                && users.0@[0].user@ == input.directive.arg(1)
        } else {
            wants_args(*input.directive, "2"@, result)
        },
{
    let args = &input.directive.args;
    if args.len() != 2 {
        return Err(
            ParseDirectiveValueError::InvalidArgumentCount {
                span: input.directive.span,
                expected: "2",
                actual: args.len(),
            },
        );
    }
    let mut users: Vec<SshSslUser> = Vec::new();
    users.push(SshSslUser { name: args[0].value.clone(), user: args[1].value.clone() });
    slot(SshSslUsers(users), input.directive.span)
}

/// The requests that a `location` block is for.
pub fn parse_location_payload(input: &DirectiveInput<'_>) -> (result: Result<
    ParsedDirective,
    ParsePatternError,
>)
    ensures
        match result {
            Ok(ParsedDirective::Payload(typed)) => typed.place() == input.directive.span && (
            typed.data() matches ConfigData::Pattern(pattern) && is_parsed_pattern(
                spanned_texts(input.directive.args@),
                Ok(pattern@),
            )),
            Ok(_) => false,
            Err(error) => is_parsed_pattern(spanned_texts(input.directive.args@), Err(error)),
        },
{
    match parse_spanned_pattern(&input.directive.args) {
        Ok(pattern) => Ok(
            ParsedDirective::Payload(TypedValue::new(pattern, input.directive.span)),
        ),
        Err(error) => Err(error),
    }
}

} // verus!
