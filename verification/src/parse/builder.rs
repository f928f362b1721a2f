//! Configurations built from documents.
use vstd::prelude::*;
use vstd::utf8::*;

use crate::home::{inside, DhttpHome, IdentityProfile};
use crate::outside::{dhttp_name, lower_byte};
use crate::parse::ast::{AstDirective, Spanned};
use crate::parse::block::{
    all_ok, are_values, field_named, field_of, is_first_error, is_shape_error, is_value,
    is_value_error, lemma_with_field_step, scan, take_value, take_values, with_field, Block,
    BuildTypedConfigError, Field,
};
use crate::parse::builtin::net::server_name_views;
use crate::parse::builtin::DirectiveError;
use crate::parse::config::{
    AccessLogDirective, AccessLogView, EffectiveHttpConfig, ForwardConfig, HttpView,
    LocationConfig, OriginScope, PishooConfig, PreparedProxyTlsPaths, ServerConfig, ServerIdentity,
};
use crate::parse::decode::DirectiveValue;
use crate::parse::domain::{ConfigSourceSpan, ResolvedConfigPath};
use crate::parse::overlay::{
    builtin, builtin_view, is_local_http, overlay, overlay_http, take_http, LocalHttp, LocalView,
};
use crate::parse::pattern::{is_regex, ParsePatternError, Pattern};
use crate::parse::source::{ConfigDocumentSourceMap, SourceId, SourceMap, SourceSpan};
use crate::parse::types::{
    name_views, partial_name, BoolConfig, DhttpName, HeaderName, HeaderRule, HeaderRules,
    HeaderValue, ListenConfig, ProxyPass, ResolverConfig, ServerNames, SocketAddrs,
    SshLoginMethods, SshSslUsers, StringList, StunServerConfigValue,
};

verus! {

/// The span of a directive in its document.
pub open spec fn span_in(doc: ConfigDocumentSourceMap, directive: AstDirective) -> ConfigSourceSpan {
    ConfigSourceSpan::of(doc.document(), directive.span)
}

/// The words of an optional list.
pub open spec fn words_of(list: Option<StringList>) -> Seq<String> {
    match list {
        Some(list) => list@,
        None => Seq::empty(),
    }
}

/// Whether a block sets a field.
pub open spec fn sets(block: Block, children: Seq<AstDirective>, field: Field) -> bool {
    with_field(block, children, field).len() > 0
}

/// What building a forward proxy from its directives gives.
pub open spec fn builds_proxy_block(
    directive: AstDirective,
    children: Seq<AstDirective>,
    sources: SourceMap,
    result: Result<ForwardConfig, BuildTypedConfigError>,
) -> bool {
    let listens = with_field(Block::Proxy, children, Field::ProxyListen);
    if !all_ok(Block::Proxy, children, sources) {
        result matches Err(error) && is_first_error(Block::Proxy, children, sources, error)
    } else if listens.len() == 0 {
        result matches Err(BuildTypedConfigError::ForwardListen { span }) && span == directive.span
    } else {
        result matches Ok(proxy) && {
            &&& exists|addrs: SocketAddrs| #[trigger]
                SocketAddrs::reads(listens.last(), sources, Ok(addrs)) && addrs.0@.len() == 1
                    && addrs.0@[0] == proxy.listen
            &&& exists|allow: Option<StringList>| #[trigger]
                is_value(Block::Proxy, children, Field::Allow, sources, allow) && proxy.allow@
                    == words_of(allow)
            &&& exists|deny: Option<StringList>| #[trigger]
                is_value(Block::Proxy, children, Field::Deny, sources, deny) && proxy.deny@
                    == words_of(deny)
        }
    }
}

/// What building a forward proxy gives.
pub open spec fn builds_forward_proxy(
    directive: AstDirective,
    sources: SourceMap,
    result: Result<ForwardConfig, BuildTypedConfigError>,
) -> bool {
    match directive.block() {
        None => result matches Err(error) && is_shape_error(directive, error),
        Some(children) => builds_proxy_block(directive, children, sources, result),
    }
}

fn words(list: Option<StringList>) -> (words: Vec<String>)
    ensures
        words@ == words_of(list),
{
    match list {
        Some(list) => list.0,
        None => Vec::new(),
    }
}

fn shape_error(directive: &AstDirective) -> (error: BuildTypedConfigError)
    ensures
        is_shape_error(*directive, error),
{
    BuildTypedConfigError::Shape { name: directive.name.value.clone(), span: directive.span }
}

/// Each address list of a forward proxy that is in order holds one address.
proof fn lemma_proxy_listens(
    children: Seq<AstDirective>,
    sources: SourceMap,
    addrs: Seq<SocketAddrs>,
)
    requires
        all_ok(Block::Proxy, children, sources),
        are_values(Block::Proxy, children, Field::ProxyListen, sources, addrs),
    ensures
        forall|i: int| 0 <= i < addrs.len() ==> (#[trigger] addrs[i]).0@.len() == 1,
{
    let list = with_field(Block::Proxy, children, Field::ProxyListen);
    assert forall|i: int| 0 <= i < addrs.len() implies (#[trigger] addrs[i]).0@.len() == 1 by {
        lemma_with_field_member(Block::Proxy, children, Field::ProxyListen, i);
        let at = choose|at: int|
            0 <= at < children.len() && children[at] == list[i] && field_of(
                Block::Proxy,
                children[at].name_text(),
            ) == Some(Field::ProxyListen);
        assert(crate::parse::block::child_ok(Block::Proxy, children, at, sources));
        assert(SocketAddrs::reads(list[i], sources, Ok(addrs[i])));
    }
}

/// Every directive that sets a field is one of the block.
pub proof fn lemma_with_field_member(
    block: Block,
    children: Seq<AstDirective>,
    field: Field,
    i: int,
)
    requires
        0 <= i < with_field(block, children, field).len(),
    ensures
        exists|at: int|
            0 <= at < children.len() && #[trigger] children[at] == with_field(
                block,
                children,
                field,
            )[i] && field_of(block, children[at].name_text()) == Some(field),
    decreases children.len(),
{
    let before = with_field(block, children.drop_last(), field);
    if i < before.len() {
        lemma_with_field_member(block, children.drop_last(), field, i);
        let at = choose|at: int|
            0 <= at < children.drop_last().len() && #[trigger] children.drop_last()[at]
                == before[i] && field_of(block, children.drop_last()[at].name_text()) == Some(field);
        assert(children[at] == children.drop_last()[at]);
    } else {
        assert(children[children.len() - 1] == children.last());
    }
}

/// Builds a forward proxy.
pub fn build_forward_proxy(directive: &AstDirective, sources: &SourceMap) -> (result: Result<
    ForwardConfig,
    BuildTypedConfigError,
>)
    ensures
        builds_forward_proxy(*directive, *sources, result),
{
    let children = match directive.children() {
        Some(children) => children,
        None => {
            return Err(shape_error(directive));
        },
    };
    let mut settings = match scan(Block::Proxy, children, sources) {
        Ok(settings) => settings,
        Err(error) => {
            return Err(error);
        },
    };
    let lists = take_values::<SocketAddrs>(
        Block::Proxy,
        children,
        Field::ProxyListen,
        sources,
        &mut settings,
    );
    let allow = take_value::<StringList>(
        Block::Proxy,
        children,
        Field::Allow,
        sources,
        &mut settings,
    );
    let deny = take_value::<StringList>(
        Block::Proxy,
        children,
        Field::Deny,
        sources,
        &mut settings,
    );
    if lists.len() == 0 {
        return Err(BuildTypedConfigError::ForwardListen { span: directive.span });
    }
    let last = &lists[lists.len() - 1];
    proof {
        lemma_proxy_listens(children@, *sources, lists@);
        let list = with_field(Block::Proxy, children@, Field::ProxyListen);
        assert(SocketAddrs::reads(list[list.len() - 1], *sources, Ok(*last)));
        assert(SocketAddrs::reads(list.last(), *sources, Ok(*last)));
        assert(is_value(Block::Proxy, children@, Field::Allow, *sources, allow));
        assert(is_value(Block::Proxy, children@, Field::Deny, *sources, deny));
    }
    Ok(ForwardConfig { listen: last.0[0], allow: words(allow), deny: words(deny) })
}

/// The header that every location adds: `server: pishoo`, always.
pub open spec fn is_server_header(rules: HeaderRules) -> bool {
    rules.0@.len() == 1 && rules.0@[0].name@ == "server"@ && rules.0@[0].value@ == encode_utf8(
        "pishoo"@,
    ) && rules.0@[0].always
}

pub(crate) fn server_header() -> (rules: HeaderRules)
    ensures
        is_server_header(rules),
{
    let mut list: Vec<HeaderRule> = Vec::new();
    proof {
        reveal_strlit("server");
        reveal_strlit("pishoo");
        is_ascii_chars_encode_utf8("server"@);
        is_ascii_chars_encode_utf8("pishoo"@);
    }
    let name = HeaderName::from_bytes("server".as_bytes());
    let value = HeaderValue::from_bytes("pishoo".as_bytes());
    match (name, value) {
        (Ok(name), Ok(value)) => {
            proof {
                let bytes = encode_utf8("server"@);
                assert(bytes.map_values(|b: u8| lower_byte(b)) =~= bytes);
                encode_utf8_decode_utf8(name@);
                encode_utf8_decode_utf8("server"@);
            }
            list.push(HeaderRule { name, value, always: true });
        },
        _ => {
            assert(false);
        },
    }
    HeaderRules(list)
}

/// Whether files for TLS are those that a location names.
pub open spec fn is_proxy_tls(
    children: Seq<AstDirective>,
    sources: SourceMap,
    tls: Option<PreparedProxyTlsPaths>,
) -> bool {
    if sets(Block::Location, children, Field::ProxySslCertificate) || sets(
        Block::Location,
        children,
        Field::ProxySslTrustedCertificate,
    ) {
        tls matches Some(paths) && {
            &&& is_value(
                Block::Location,
                children,
                Field::ProxySslCertificate,
                sources,
                paths.certificate,
            )
            &&& is_value(
                Block::Location,
                children,
                Field::ProxySslCertificateKey,
                sources,
                paths.private_key,
            )
            &&& is_value(
                Block::Location,
                children,
                Field::ProxySslTrustedCertificate,
                sources,
                paths.trusted_certificate,
            )
        }
    } else {
        tls is None
    }
}

/// Whether the settings of a location are those that its directives make.
pub open spec fn is_location(
    directive: AstDirective,
    children: Seq<AstDirective>,
    doc: ConfigDocumentSourceMap,
    parent: HttpView,
    location: LocationConfig,
) -> bool {
    let block = Block::Location;
    let sources = doc.sources();
    &&& location.source == span_in(doc, directive)
    &&& Pattern::reads(directive, sources, Ok(location.matcher))
    &&& exists|local: LocalHttp| #[trigger]
        is_local_http(block, children, sources, local) && location.http@ == overlay(
            parent,
            local@,
            OriginScope::Location,
            sources,
        )
    &&& is_value(block, children, Field::Root, sources, location.root)
    &&& is_value(block, children, Field::Alias, sources, location.alias)
    &&& is_value(block, children, Field::Index, sources, location.index)
    &&& location.add_headers@.len() > 0
    &&& are_values(
        block,
        children,
        Field::AddHeader,
        sources,
        location.add_headers@.drop_last(),
    )
    &&& is_server_header(location.add_headers@.last())
    &&& are_values(block, children, Field::ProxySetHeader, sources, location.proxy_set_headers@)
    &&& is_value(block, children, Field::ProxyPass, sources, location.proxy_pass)
    &&& is_proxy_tls(children, sources, location.proxy_tls)
    &&& is_value(block, children, Field::SshLogin, sources, location.ssh_login)
    &&& are_values(block, children, Field::SshSslUser, sources, location.ssh_users@)
    &&& is_value(block, children, Field::SshDeny, sources, location.ssh_deny)
}

/// Whether a location with the given pattern passes requests on to a URI with a path, which a
/// pattern that is a regular expression does not allow.
pub open spec fn is_regex_proxy(matcher: Pattern, pass: Option<ProxyPass>) -> bool {
    is_regex(matcher@) && (pass matches Some(pass) && pass.explicit_path_and_query is Some)
}

/// What building a location from its directives gives, its pattern being read.
pub open spec fn builds_location_block(
    directive: AstDirective,
    children: Seq<AstDirective>,
    doc: ConfigDocumentSourceMap,
    parent: HttpView,
    result: Result<LocationConfig, BuildTypedConfigError>,
) -> bool {
    let block = Block::Location;
    let sources = doc.sources();
    if !all_ok(block, children, sources) {
        result matches Err(error) && is_first_error(block, children, sources, error)
    } else if sets(block, children, Field::ProxySslCertificate) != sets(
        block,
        children,
        Field::ProxySslCertificateKey,
    ) {
        result matches Err(BuildTypedConfigError::ProxyTlsPair { span }) && span == directive.span
    } else {
        match result {
            Ok(location) => is_location(directive, children, doc, parent, location)
                && !is_regex_proxy(location.matcher, location.proxy_pass),
            Err(error) => error matches BuildTypedConfigError::RegexProxyUri { span } && span
                == directive.span && exists|matcher: Pattern, pass: Option<ProxyPass>|
                #![trigger is_regex_proxy(matcher, pass)]
                Pattern::reads(directive, sources, Ok(matcher)) && is_value(
                    block,
                    children,
                    Field::ProxyPass,
                    sources,
                    pass,
                ) && is_regex_proxy(matcher, pass),
        }
    }
}

/// What building a location gives: its pattern is read first, then its shape is looked at, then
/// its directives are read.
pub open spec fn builds_location(
    directive: AstDirective,
    doc: ConfigDocumentSourceMap,
    parent: HttpView,
    result: Result<LocationConfig, BuildTypedConfigError>,
) -> bool {
    ||| result matches Err(error) && exists|cause: ParsePatternError| #[trigger]
        Pattern::reads(directive, doc.sources(), Err(cause)) && is_value_error(
            directive,
            error,
            DirectiveError::Pattern(cause),
        )
    ||| (exists|matcher: Pattern| #[trigger]
        Pattern::reads(directive, doc.sources(), Ok(matcher))) && match directive.block() {
        None => result matches Err(error) && is_shape_error(directive, error),
        Some(children) => builds_location_block(directive, children, doc, parent, result),
    }
}

fn proxy_tls(
    certificate: Option<ResolvedConfigPath>,
    private_key: Option<ResolvedConfigPath>,
    trusted_certificate: Option<ResolvedConfigPath>,
) -> (tls: Option<PreparedProxyTlsPaths>)
    ensures
        if certificate is Some || trusted_certificate is Some {
            tls == Some(PreparedProxyTlsPaths { certificate, private_key, trusted_certificate })
        } else {
            tls is None
        },
{
    if certificate.is_some() || trusted_certificate.is_some() {
        Some(PreparedProxyTlsPaths { certificate, private_key, trusted_certificate })
    } else {
        None
    }
}

/// Builds a location.
#[verifier::rlimit(40)]
pub fn build_location(
    directive: &AstDirective,
    doc: &ConfigDocumentSourceMap,
    parent: &EffectiveHttpConfig,
) -> (result: Result<LocationConfig, BuildTypedConfigError>)
    requires
        doc.sources().wf(),
    ensures
        builds_location(*directive, *doc, parent@, result),
{
    let sources = doc.source_map();
    let matcher = match Pattern::read(directive, sources) {
        Ok(matcher) => matcher,
        Err(cause) => {
            assert(Pattern::reads(*directive, doc.sources(), Err(cause)));
            return Err(
                BuildTypedConfigError::Directive {
                    name: directive.name.value.clone(),
                    span: directive.span,
                    source: DirectiveError::Pattern(cause),
                },
            );
        },
    };
    assert(Pattern::reads(*directive, doc.sources(), Ok(matcher)));
    let children = match directive.children() {
        Some(children) => children,
        None => {
            return Err(shape_error(directive));
        },
    };
    let block = Block::Location;
    let mut settings = match scan(block, children, sources) {
        Ok(settings) => settings,
        Err(error) => {
            return Err(error);
        },
    };
    let root = take_value::<ResolvedConfigPath>(block, children, Field::Root, sources, &mut settings);
    let alias = take_value::<ResolvedConfigPath>(
        block,
        children,
        Field::Alias,
        sources,
        &mut settings,
    );
    let index = take_value::<StringList>(block, children, Field::Index, sources, &mut settings);
    let mut add_headers = take_values::<HeaderRules>(
        block,
        children,
        Field::AddHeader,
        sources,
        &mut settings,
    );
    let proxy_set_headers = take_values::<HeaderRules>(
        block,
        children,
        Field::ProxySetHeader,
        sources,
        &mut settings,
    );
    let proxy_pass = take_value::<ProxyPass>(
        block,
        children,
        Field::ProxyPass,
        sources,
        &mut settings,
    );
    let certificate = take_value::<ResolvedConfigPath>(
        block,
        children,
        Field::ProxySslCertificate,
        sources,
        &mut settings,
    );
    let private_key = take_value::<ResolvedConfigPath>(
        block,
        children,
        Field::ProxySslCertificateKey,
        sources,
        &mut settings,
    );
    let trusted = take_value::<ResolvedConfigPath>(
        block,
        children,
        Field::ProxySslTrustedCertificate,
        sources,
        &mut settings,
    );
    let ssh_login = take_value::<SshLoginMethods>(
        block,
        children,
        Field::SshLogin,
        sources,
        &mut settings,
    );
    let ssh_users = take_values::<SshSslUsers>(
        block,
        children,
        Field::SshSslUser,
        sources,
        &mut settings,
    );
    let ssh_deny = take_value::<StringList>(
        block,
        children,
        Field::SshDeny,
        sources,
        &mut settings,
    );
    let local = take_http(block, children, sources, settings);
    if certificate.is_some() != private_key.is_some() {
        return Err(BuildTypedConfigError::ProxyTlsPair { span: directive.span });
    }
    let explicit = match &proxy_pass {
        Some(pass) => pass.has_explicit_uri(),
        None => false,
    };
    if matcher.is_regex() && explicit {
        assert(is_regex_proxy(matcher, proxy_pass));
        return Err(BuildTypedConfigError::RegexProxyUri { span: directive.span });
    }
    let ghost added = add_headers@;
    add_headers.push(server_header());
    assert(add_headers@.drop_last() =~= added);
    assert(is_local_http(block, children@, *sources, local));
    let http = overlay_http(parent, local, OriginScope::Location, sources);
    Ok(
        LocationConfig {
            source: doc.config_span(directive.span),
            matcher,
            http,
            root,
            alias,
            index,
            add_headers,
            proxy_set_headers,
            proxy_pass,
            proxy_tls: proxy_tls(certificate, private_key, trusted),
            ssh_login,
            ssh_users,
            ssh_deny,
        },
    )
}

/// The names of a server: those that it gives, or else that of its profile.
pub open spec fn configured_names(
    children: Seq<AstDirective>,
    profile: Option<&IdentityProfile>,
) -> Seq<Seq<char>> {
    let list = with_field(Block::Server, children, Field::ServerName);
    if list.len() > 0 {
        list[0].args@.map_values(|arg: Spanned<String>| dhttp_name(arg.value@)->0)
    } else {
        match profile {
            Some(profile) => seq![profile.name@],
            None => seq![],
        }
    }
}

/// What deciding on the identity of a server gives. An identity server is known by its profile and
/// can neither take another name nor bring its own files. Any other server brings a certificate
/// together with its key, or is known by the profile of its only name in the home directory.
pub open spec fn decides_identity(
    directive: AstDirective,
    children: Seq<AstDirective>,
    sources: SourceMap,
    profile: Option<&IdentityProfile>,
    home: Option<&DhttpHome>,
    result: Result<ServerIdentity, BuildTypedConfigError>,
) -> bool {
    let names = configured_names(children, profile);
    let certificate = sets(Block::Server, children, Field::SslCertificate);
    let key = sets(Block::Server, children, Field::SslCertificateKey);
    match profile {
        Some(own) => if names != seq![own.name@] {
            result matches Err(BuildTypedConfigError::IdentityName { span }) && span
                == directive.span
        } else if certificate || key {
            result matches Err(BuildTypedConfigError::IdentityTls { span }) && span
                == directive.span
        } else {
            result matches Ok(ServerIdentity::Profile(known)) && known.name@ == own.name@
                && known.path@ == own.path@
        },
        None => if certificate && key {
            result matches Ok(ServerIdentity::Direct { certificate: file, private_key }) && is_value(
                Block::Server,
                children,
                Field::SslCertificate,
                sources,
                Some(file),
            ) && is_value(
                Block::Server,
                children,
                Field::SslCertificateKey,
                sources,
                Some(private_key),
            )
        } else if certificate || key {
            result matches Err(BuildTypedConfigError::ServerTlsPair { span }) && span
                == directive.span
        } else {
            match home {
                None => result matches Err(BuildTypedConfigError::StandaloneTls { span }) && span
                    == directive.span,
                Some(home) => if names.len() != 1 {
                    result matches Err(BuildTypedConfigError::AmbiguousProfile { span }) && span
                        == directive.span
                } else {
                    result matches Ok(ServerIdentity::Profile(known)) && known.name@ == names[0]
                        && known.path@ == inside(home.path@, partial_name(names[0]))
                },
            }
        },
    }
}

/// The HTTP settings that come down to a server. Where the access log was never set, a server that
/// is known by a profile logs to the file of that profile.
pub open spec fn server_parent(parent: HttpView, identity: ServerIdentity) -> HttpView {
    if identity is Profile && parent.access_log.lineage.len() == 1 {
        HttpView { access_log: builtin_view(AccessLogView::ProfileDefault), ..parent }
    } else {
        parent
    }
}

/// The HTTP settings of a server.
pub open spec fn server_http(
    parent: HttpView,
    identity: ServerIdentity,
    local: LocalView,
    sources: SourceMap,
) -> HttpView {
    overlay(server_parent(parent, identity), local, OriginScope::Server, sources)
}

/// Whether a server without a profile is told to log to the file of its profile.
pub open spec fn lacks_log_profile(identity: ServerIdentity, http: HttpView) -> bool {
    identity is Direct && http.access_log.effective is ProfileDefault
}

/// Whether locations are those of a list of directives, in order.
pub open spec fn are_locations(
    list: Seq<AstDirective>,
    doc: ConfigDocumentSourceMap,
    parent: HttpView,
    locations: Seq<LocationConfig>,
) -> bool {
    &&& locations.len() == list.len()
    &&& forall|i: int|
        0 <= i < locations.len() ==> builds_location(
            #[trigger] list[i],
            doc,
            parent,
            Ok(locations[i]),
        )
}

/// An error on the first location that cannot be built.
pub open spec fn is_location_error(
    list: Seq<AstDirective>,
    doc: ConfigDocumentSourceMap,
    parent: HttpView,
    error: BuildTypedConfigError,
) -> bool {
    exists|built: Seq<LocationConfig>|
        {
            &&& built.len() < list.len()
            &&& #[trigger] are_locations(list.take(built.len() as int), doc, parent, built)
            &&& builds_location(list[built.len() as int], doc, parent, Err(error))
        }
}

/// Whether the settings of a server are those that its directives make.
pub open spec fn is_server(
    directive: AstDirective,
    children: Seq<AstDirective>,
    doc: ConfigDocumentSourceMap,
    parent: HttpView,
    profile: Option<&IdentityProfile>,
    home: Option<&DhttpHome>,
    server: ServerConfig,
) -> bool {
    let block = Block::Server;
    let sources = doc.sources();
    &&& server.source == span_in(doc, directive)
    &&& decides_identity(directive, children, sources, profile, home, Ok(server.identity))
    &&& name_views(server.names@) == configured_names(children, profile)
    &&& are_values(block, children, Field::Listen, sources, server.listens@)
    &&& is_value(block, children, Field::Dns, sources, server.resolver)
    &&& exists|local: LocalHttp| #[trigger]
        is_local_http(block, children, sources, local) && server.http@ == server_http(
            parent,
            server.identity,
            local@,
            sources,
        )
    &&& !lacks_log_profile(server.identity, server.http@)
    &&& is_value(block, children, Field::Relay, sources, server.relay)
    &&& is_value(block, children, Field::Stun, sources, server.stun)
    &&& are_values(block, children, Field::StunServer, sources, server.stun_servers@)
    &&& are_locations(
        with_field(block, children, Field::Location),
        doc,
        server.http@,
        server.locations@,
    )
}

/// What building a server from its directives gives. The directives are read first, then the
/// listening addresses (which the server of a known identity need not have), the identity, the
/// access log and the locations are looked at.
pub open spec fn builds_server_block(
    directive: AstDirective,
    children: Seq<AstDirective>,
    doc: ConfigDocumentSourceMap,
    parent: HttpView,
    profile: Option<&IdentityProfile>,
    home: Option<&DhttpHome>,
    result: Result<ServerConfig, BuildTypedConfigError>,
) -> bool {
    let block = Block::Server;
    let sources = doc.sources();
    if !all_ok(block, children, sources) {
        result matches Err(error) && is_first_error(block, children, sources, error)
    } else if profile is None && !sets(block, children, Field::Listen) {
        result matches Err(BuildTypedConfigError::Missing { name, span }) && name@ == "listen"@
            && span == directive.span
    } else {
        match result {
            Ok(server) => is_server(directive, children, doc, parent, profile, home, server),
            Err(error) => {
                ||| decides_identity(directive, children, sources, profile, home, Err(error))
                ||| exists|identity: ServerIdentity, local: LocalHttp|
                    #![trigger server_http(parent, identity, local@, sources)]
                    {
                        &&& decides_identity(
                            directive,
                            children,
                            sources,
                            profile,
                            home,
                            Ok(identity),
                        )
                        &&& is_local_http(block, children, sources, local)
                        &&& if lacks_log_profile(
                            identity,
                            server_http(parent, identity, local@, sources),
                        ) {
                            error matches BuildTypedConfigError::DirectDefaultAccessLog { span }
                                && span == directive.span
                        } else {
                            is_location_error(
                                with_field(block, children, Field::Location),
                                doc,
                                server_http(parent, identity, local@, sources),
                                error,
                            )
                        }
                    }
            },
        }
    }
}

/// What building a server gives.
pub open spec fn builds_server(
    directive: AstDirective,
    doc: ConfigDocumentSourceMap,
    parent: HttpView,
    profile: Option<&IdentityProfile>,
    home: Option<&DhttpHome>,
    result: Result<ServerConfig, BuildTypedConfigError>,
) -> bool {
    match directive.block() {
        None => result matches Err(error) && is_shape_error(directive, error),
        Some(children) => builds_server_block(
            directive,
            children,
            doc,
            parent,
            profile,
            home,
            result,
        ),
    }
}

/// The names of a server.
fn server_names(given: Option<ServerNames>, profile: Option<&IdentityProfile>) -> (names: Vec<
    DhttpName,
>)
    ensures
        name_views(names@) == (match given {
            Some(given) => server_name_views(given.0@),
            None => match profile {
                Some(profile) => seq![profile.name@],
                None => seq![],
            },
        }),
{
    let mut names: Vec<DhttpName> = Vec::new();
    match given {
        Some(given) => {
            let mut i: usize = 0;
            while i < given.0.len()
                invariant
                    i <= given.0@.len(),
                    names@.len() == i,
                    forall|k: int| 0 <= k < i ==> (#[trigger] names@[k])@ == given.0@[k].name@,
                decreases given.0@.len() - i,
            {
                names.push(given.0[i].name.clone());
                i += 1;
            }
            assert(name_views(names@) =~= server_name_views(given.0@));
        },
        None => {
            match profile {
                Some(profile) => {
                    names.push(profile.name.clone());
                    assert(name_views(names@) =~= seq![profile.name@]);
                },
                None => {
                    assert(name_views(names@) =~= seq![]);
                },
            }
        },
    }
    names
}

/// Decides on the identity of a server.
fn decide_identity(
    directive: &AstDirective,
    children: &Vec<AstDirective>,
    sources: &SourceMap,
    names: &Vec<DhttpName>,
    certificate: Option<ResolvedConfigPath>,
    private_key: Option<ResolvedConfigPath>,
    profile: Option<&IdentityProfile>,
    home: Option<&DhttpHome>,
) -> (result: Result<ServerIdentity, BuildTypedConfigError>)
    requires
        name_views(names@) == configured_names(children@, profile),
        is_value(Block::Server, children@, Field::SslCertificate, *sources, certificate),
        is_value(Block::Server, children@, Field::SslCertificateKey, *sources, private_key),
    ensures
        decides_identity(*directive, children@, *sources, profile, home, result),
{
    let span = directive.span;
    match profile {
        Some(own) => {
            let same = names.len() == 1 && names[0].same(&own.name);
            proof {
                if same {
                    assert(name_views(names@) =~= seq![own.name@]);
                } else {
                    assert(name_views(names@).len() == names@.len());
                    assert(names@.len() == 1 ==> name_views(names@)[0] != seq![own.name@][0]);
                }
            }
            if !same {
                return Err(BuildTypedConfigError::IdentityName { span });
            }
            if certificate.is_some() || private_key.is_some() {
                return Err(BuildTypedConfigError::IdentityTls { span });
            }
            Ok(ServerIdentity::Profile(own.clone()))
        },
        None => match (certificate, private_key) {
            (Some(certificate), Some(private_key)) => Ok(
                ServerIdentity::Direct { certificate, private_key },
            ),
            (None, None) => match home {
                None => Err(BuildTypedConfigError::StandaloneTls { span }),
                Some(home) => {
                    if names.len() != 1 {
                        return Err(BuildTypedConfigError::AmbiguousProfile { span });
                    }
                    assert(name_views(names@)[0] == names@[0]@);
                    Ok(ServerIdentity::Profile(home.identity_profile(&names[0])))
                },
            },
            _ => Err(BuildTypedConfigError::ServerTlsPair { span }),
        },
    }
}

/// Builds the locations of a server, up to the first that cannot be built.
fn build_locations(
    children: &Vec<AstDirective>,
    doc: &ConfigDocumentSourceMap,
    parent: &EffectiveHttpConfig,
) -> (result: Result<Vec<LocationConfig>, BuildTypedConfigError>)
    requires
        doc.sources().wf(),
    ensures
        match result {
            Ok(locations) => are_locations(
                with_field(Block::Server, children@, Field::Location),
                *doc,
                parent@,
                locations@,
            ),
            Err(error) => is_location_error(
                with_field(Block::Server, children@, Field::Location),
                *doc,
                parent@,
                error,
            ),
        },
{
    let ghost list = with_field(Block::Server, children@, Field::Location);
    let mut locations: Vec<LocationConfig> = Vec::new();
    let mut i: usize = 0;
    assert(children@.take(0) =~= seq![]);
    while i < children.len()
        invariant
            i <= children@.len(),
            doc.sources().wf(),
            list == with_field(Block::Server, children@, Field::Location),
            are_locations(
                with_field(Block::Server, children@.take(i as int), Field::Location),
                *doc,
                parent@,
                locations@,
            ),
        decreases children@.len() - i,
    {
        let ghost done = with_field(Block::Server, children@.take(i as int), Field::Location);
        proof {
            lemma_with_field_step(Block::Server, children@, i as int, Field::Location);
        }
        let hit = match field_named(Block::Server, children[i].name.value.as_str()) {
            Some(field) => field == Field::Location,
            None => false,
        };
        if hit {
            proof {
                lemma_with_field_prefix(Block::Server, children@, i + 1, Field::Location);
            }
            match build_location(&children[i], doc, parent) {
                Ok(location) => {
                    let ghost earlier = locations@;
                    locations.push(location);
                    proof {
                        let now = with_field(
                            Block::Server,
                            children@.take(i + 1),
                            Field::Location,
                        );
                        assert forall|k: int| 0 <= k < locations@.len() implies builds_location(
                            #[trigger] now[k],
                            *doc,
                            parent@,
                            Ok(locations@[k]),
                        ) by {
                            if k < earlier.len() {
                                assert(now[k] == done[k]);
                            }
                        }
                    }
                },
                Err(error) => {
                    proof {
                        let now = with_field(
                            Block::Server,
                            children@.take(i + 1),
                            Field::Location,
                        );
                        assert(now == done.push(children@[i as int]));
                        assert forall|k: int| 0 <= k < now.len() implies now[k] == list[k] by {
                            assert(with_field(
                                Block::Server,
                                children@.take(i + 1),
                                Field::Location,
                            )[k] == list[k]);
                        }
                        assert forall|k: int| 0 <= k < done.len() implies done[k] == list[k] by {
                            assert(now[k] == done[k]);
                        }
                        assert(now[done.len() as int] == children@[i as int]);
                        assert(list.take(locations@.len() as int) =~= done);
                        assert(list[locations@.len() as int] == children@[i as int]);
                        assert(are_locations(
                            list.take(locations@.len() as int),
                            *doc,
                            parent@,
                            locations@,
                        ));
                    }
                    return Err(error);
                },
            }
        }
        i += 1;
    }
    assert(children@.take(i as int) =~= children@);
    Ok(locations)
}

/// The directives of a field among the first `count` are the first of all that set it.
pub proof fn lemma_with_field_prefix(
    block: Block,
    children: Seq<AstDirective>,
    count: int,
    field: Field,
)
    requires
        0 <= count <= children.len(),
    ensures
        with_field(block, children.take(count), field).len() <= with_field(
            block,
            children,
            field,
        ).len(),
        forall|i: int|
            0 <= i < with_field(block, children.take(count), field).len() ==> #[trigger] with_field(
                block,
                children.take(count),
                field,
            )[i] == with_field(block, children, field)[i],
    decreases children.len() - count,
{
    if count < children.len() {
        lemma_with_field_prefix(block, children, count + 1, field);
        lemma_with_field_step(block, children, count, field);
        let small = with_field(block, children.take(count), field);
        let large = with_field(block, children.take(count + 1), field);
        assert forall|i: int| 0 <= i < small.len() implies #[trigger] small[i] == with_field(
            block,
            children,
            field,
        )[i] by {
            assert(small[i] == large[i]);
        }
    } else {
        assert(children.take(count) =~= children);
    }
}

/// Builds a server.
#[verifier::rlimit(60)]
pub fn build_server(
    directive: &AstDirective,
    doc: &ConfigDocumentSourceMap,
    parent: &EffectiveHttpConfig,
    profile: Option<&IdentityProfile>,
    home: Option<&DhttpHome>,
) -> (result: Result<ServerConfig, BuildTypedConfigError>)
    requires
        doc.sources().wf(),
    ensures
        builds_server(*directive, *doc, parent@, profile, home, result),
{
    let sources = doc.source_map();
    let children = match directive.children() {
        Some(children) => children,
        None => {
            return Err(shape_error(directive));
        },
    };
    let block = Block::Server;
    let mut settings = match scan(block, children, sources) {
        Ok(settings) => settings,
        Err(error) => {
            return Err(error);
        },
    };
    let listens = take_values::<ListenConfig>(
        block,
        children,
        Field::Listen,
        sources,
        &mut settings,
    );
    let given = take_value::<ServerNames>(
        block,
        children,
        Field::ServerName,
        sources,
        &mut settings,
    );
    let resolver = take_value::<ResolverConfig>(
        block,
        children,
        Field::Dns,
        sources,
        &mut settings,
    );
    let certificate = take_value::<ResolvedConfigPath>(
        block,
        children,
        Field::SslCertificate,
        sources,
        &mut settings,
    );
    let private_key = take_value::<ResolvedConfigPath>(
        block,
        children,
        Field::SslCertificateKey,
        sources,
        &mut settings,
    );
    let relay = take_value::<BoolConfig>(block, children, Field::Relay, sources, &mut settings);
    let stun = take_value::<BoolConfig>(block, children, Field::Stun, sources, &mut settings);
    let stun_servers = take_values::<StunServerConfigValue>(
        block,
        children,
        Field::StunServer,
        sources,
        &mut settings,
    );
    let local = take_http(block, children, sources, settings);
    if profile.is_none() && listens.len() == 0 {
        return Err(BuildTypedConfigError::Missing { name: "listen", span: directive.span });
    }
    let names = server_names(given, profile);
    assert(name_views(names@) == configured_names(children@, profile));
    let identity = match decide_identity(
        directive,
        children,
        sources,
        &names,
        certificate,
        private_key,
        profile,
        home,
    ) {
        Ok(identity) => identity,
        Err(error) => {
            return Err(error);
        },
    };
    let known = match &identity {
        ServerIdentity::Profile(_) => true,
        ServerIdentity::Direct { .. } => false,
    };
    let parent_http = if known && parent.access_log.lineage.len() == 1 {
        parent.clone().with_access_log(builtin(AccessLogDirective::ProfileDefault))
    } else {
        parent.clone()
    };
    assert(parent_http@ == server_parent(parent@, identity));
    let ghost local_view = local@;
    assert(is_local_http(block, children@, *sources, local));
    let http = overlay_http(&parent_http, local, OriginScope::Server, sources);
    assert(http@ == server_http(parent@, identity, local_view, *sources));
    let profile_log = match &http.access_log.effective {
        AccessLogDirective::ProfileDefault => true,
        _ => false,
    };
    if !known && profile_log {
        return Err(BuildTypedConfigError::DirectDefaultAccessLog { span: directive.span });
    }
    let locations = match build_locations(children, doc, &http) {
        Ok(locations) => locations,
        Err(error) => {
            return Err(error);
        },
    };
    Ok(
        ServerConfig {
            identity,
            source: doc.config_span(directive.span),
            names,
            listens,
            resolver,
            http,
            relay,
            stun,
            stun_servers,
            locations,
        },
    )
}

/// A server block with what building it gave. A server that cannot be built does not keep the
/// others from being built.
#[derive(Debug)]
pub struct ServerConfigCandidate {
    pub source: ConfigSourceSpan,
    pub result: Result<ServerConfig, BuildTypedConfigError>,
}

impl ServerConfigCandidate {
    pub fn source(&self) -> (span: ConfigSourceSpan)
        ensures
            span == self.source,
    {
        self.source
    }

    pub fn result(&self) -> (result: &Result<ServerConfig, BuildTypedConfigError>)
        ensures
            *result == self.result,
    {
        &self.result
    }

    pub fn into_result(self) -> (result: Result<ServerConfig, BuildTypedConfigError>)
        ensures
            result == self.result,
    {
        self.result
    }
}

/// A `pishoo` block with its servers.
#[derive(Debug)]
pub struct ParsedPishooConfig {
    pub pishoo: PishooConfig,
    pub servers: Vec<ServerConfigCandidate>,
}

impl ParsedPishooConfig {
    pub fn pishoo(&self) -> (pishoo: &PishooConfig)
        ensures
            *pishoo == self.pishoo,
    {
        &self.pishoo
    }

    pub fn servers(&self) -> (servers: &[ServerConfigCandidate])
        ensures
            servers@ == self.servers@,
    {
        self.servers.as_slice()
    }

    pub fn into_parts(self) -> (parts: (PishooConfig, Vec<ServerConfigCandidate>))
        ensures
            parts == (self.pishoo, self.servers),
    {
        (self.pishoo, self.servers)
    }
}

/// The server of an identity, with what building it gave.
#[derive(Debug)]
pub struct IdentityServerCandidate {
    pub profile: IdentityProfile,
    pub result: Result<ServerConfig, BuildTypedConfigError>,
}

impl IdentityServerCandidate {
    pub fn profile(&self) -> (profile: &IdentityProfile)
        ensures
            *profile == self.profile,
    {
        &self.profile
    }

    pub fn result(&self) -> (result: &Result<ServerConfig, BuildTypedConfigError>)
        ensures
            *result == self.result,
    {
        &self.result
    }

    pub fn into_parts(self) -> (parts: (
        IdentityProfile,
        Result<ServerConfig, BuildTypedConfigError>,
    ))
        ensures
            parts == (self.profile, self.result),
    {
        (self.profile, self.result)
    }
}

/// Whether forward proxies are those of a list of directives, in order.
pub open spec fn are_proxies(
    list: Seq<AstDirective>,
    sources: SourceMap,
    proxies: Seq<ForwardConfig>,
) -> bool {
    &&& proxies.len() == list.len()
    &&& forall|i: int|
        0 <= i < proxies.len() ==> builds_forward_proxy(
            #[trigger] list[i],
            sources,
            Ok(proxies[i]),
        )
}

/// An error on the first forward proxy that cannot be built.
pub open spec fn is_proxy_error(
    list: Seq<AstDirective>,
    sources: SourceMap,
    error: BuildTypedConfigError,
) -> bool {
    exists|built: Seq<ForwardConfig>|
        {
            &&& built.len() < list.len()
            &&& #[trigger] are_proxies(list.take(built.len() as int), sources, built)
            &&& builds_forward_proxy(list[built.len() as int], sources, Err(error))
        }
}

/// Whether candidates are those of a list of server blocks, in order.
pub open spec fn are_candidates(
    list: Seq<AstDirective>,
    doc: ConfigDocumentSourceMap,
    parent: HttpView,
    home: Option<&DhttpHome>,
    candidates: Seq<ServerConfigCandidate>,
) -> bool {
    &&& candidates.len() == list.len()
    &&& forall|i: int|
        0 <= i < candidates.len() ==> candidates[i].source == span_in(doc, #[trigger] list[i])
            && builds_server(list[i], doc, parent, None, home, candidates[i].result)
}

/// Whether a `pishoo` block gives a configuration.
pub open spec fn is_pishoo(
    directive: AstDirective,
    children: Seq<AstDirective>,
    doc: ConfigDocumentSourceMap,
    parent: HttpView,
    block: Block,
    scope: OriginScope,
    home: Option<&DhttpHome>,
    parsed: ParsedPishooConfig,
) -> bool {
    let sources = doc.sources();
    &&& parsed.pishoo.source == span_in(doc, directive)
    &&& is_value(block, children, Field::Pid, sources, parsed.pishoo.pid)
    &&& is_value(block, children, Field::Workers, sources, parsed.pishoo.workers)
    &&& is_value(block, children, Field::Groups, sources, parsed.pishoo.groups)
    &&& exists|local: LocalHttp| #[trigger]
        is_local_http(block, children, sources, local) && parsed.pishoo.http@ == overlay(
            parent,
            local@,
            scope,
            sources,
        )
    &&& are_proxies(
        with_field(block, children, Field::Proxy),
        sources,
        parsed.pishoo.forward_proxies@,
    )
    &&& are_candidates(
        with_field(block, children, Field::Server),
        doc,
        parsed.pishoo.http@,
        home,
        parsed.servers@,
    )
}

/// The place of the first directive of a document.
pub open spec fn document_place(directives: Seq<AstDirective>) -> SourceSpan {
    if directives.len() > 0 {
        directives[0].span
    } else {
        SourceSpan { source_id: SourceId(0), start: 0, end: 0 }
    }
}

/// The place of the first directive of a document.
pub fn document_span(directives: &Vec<AstDirective>) -> (span: SourceSpan)
    ensures
        span == document_place(directives@),
{
    if directives.len() > 0 {
        directives[0].span
    } else {
        SourceSpan::new(SourceId(0), 0, 0)
    }
}

/// What building a document that must hold one `pishoo` block gives.
pub open spec fn builds_pishoo(
    directives: Seq<AstDirective>,
    doc: ConfigDocumentSourceMap,
    parent: HttpView,
    block: Block,
    scope: OriginScope,
    home: Option<&DhttpHome>,
    result: Result<ParsedPishooConfig, BuildTypedConfigError>,
) -> bool {
    if directives.len() != 1 || directives[0].name_text() != "pishoo"@ {
        result matches Err(BuildTypedConfigError::PishooCardinality { span }) && span
            == document_place(directives)
    } else {
        match directives[0].block() {
            None => result matches Err(error) && is_shape_error(directives[0], error),
            Some(children) => if !all_ok(block, children, doc.sources()) {
                result matches Err(error) && is_first_error(block, children, doc.sources(), error)
            } else {
                match result {
                    Ok(parsed) => is_pishoo(
                        directives[0],
                        children,
                        doc,
                        parent,
                        block,
                        scope,
                        home,
                        parsed,
                    ),
                    Err(error) => is_proxy_error(
                        with_field(block, children, Field::Proxy),
                        doc.sources(),
                        error,
                    ),
                }
            },
        }
    }
}

/// Builds the forward proxies of a block, up to the first that cannot be built.
fn build_proxies(block: Block, children: &Vec<AstDirective>, sources: &SourceMap) -> (result:
    Result<Vec<ForwardConfig>, BuildTypedConfigError>)
    ensures
        match result {
            Ok(proxies) => are_proxies(
                with_field(block, children@, Field::Proxy),
                *sources,
                proxies@,
            ),
            Err(error) => is_proxy_error(
                with_field(block, children@, Field::Proxy),
                *sources,
                error,
            ),
        },
{
    let ghost list = with_field(block, children@, Field::Proxy);
    let mut proxies: Vec<ForwardConfig> = Vec::new();
    let mut i: usize = 0;
    assert(children@.take(0) =~= seq![]);
    while i < children.len()
        invariant
            i <= children@.len(),
            list == with_field(block, children@, Field::Proxy),
            are_proxies(
                with_field(block, children@.take(i as int), Field::Proxy),
                *sources,
                proxies@,
            ),
        decreases children@.len() - i,
    {
        let ghost done = with_field(block, children@.take(i as int), Field::Proxy);
        let ghost now = with_field(block, children@.take(i + 1), Field::Proxy);
        proof {
            lemma_with_field_step(block, children@, i as int, Field::Proxy);
        }
        let hit = match field_named(block, children[i].name.value.as_str()) {
            Some(field) => field == Field::Proxy,
            None => false,
        };
        if hit {
            assert(now == done.push(children@[i as int]));
            match build_forward_proxy(&children[i], sources) {
                Ok(proxy) => {
                    let ghost earlier = proxies@;
                    proxies.push(proxy);
                    assert forall|k: int| 0 <= k < proxies@.len() implies builds_forward_proxy(
                        #[trigger] now[k],
                        *sources,
                        Ok(proxies@[k]),
                    ) by {
                        if k < earlier.len() {
                            assert(now[k] == done[k]);
                        }
                    }
                },
                Err(error) => {
                    proof {
                        lemma_with_field_prefix(block, children@, i + 1, Field::Proxy);
                        assert forall|k: int| 0 <= k < now.len() implies now[k] == list[k] by {
                            assert(with_field(block, children@.take(i + 1), Field::Proxy)[k]
                                == list[k]);
                        }
                        assert forall|k: int| 0 <= k < done.len() implies done[k] == list[k] by {
                            assert(now[k] == done[k]);
                        }
                        assert(now[done.len() as int] == children@[i as int]);
                        assert(list.take(proxies@.len() as int) =~= done);
                        assert(are_proxies(
                            list.take(proxies@.len() as int),
                            *sources,
                            proxies@,
                        ));
                    }
                    return Err(error);
                },
            }
        }
        i += 1;
    }
    assert(children@.take(i as int) =~= children@);
    Ok(proxies)
}

/// Builds the servers of a block, each by itself.
fn build_candidates(
    block: Block,
    children: &Vec<AstDirective>,
    doc: &ConfigDocumentSourceMap,
    parent: &EffectiveHttpConfig,
    home: Option<&DhttpHome>,
) -> (candidates: Vec<ServerConfigCandidate>)
    requires
        doc.sources().wf(),
    ensures
        are_candidates(
            with_field(block, children@, Field::Server),
            *doc,
            parent@,
            home,
            candidates@,
        ),
{
    let mut candidates: Vec<ServerConfigCandidate> = Vec::new();
    let mut i: usize = 0;
    assert(children@.take(0) =~= seq![]);
    while i < children.len()
        invariant
            i <= children@.len(),
            doc.sources().wf(),
            are_candidates(
                with_field(block, children@.take(i as int), Field::Server),
                *doc,
                parent@,
                home,
                candidates@,
            ),
        decreases children@.len() - i,
    {
        let ghost done = with_field(block, children@.take(i as int), Field::Server);
        let ghost now = with_field(block, children@.take(i + 1), Field::Server);
        proof {
            lemma_with_field_step(block, children@, i as int, Field::Server);
        }
        let hit = match field_named(block, children[i].name.value.as_str()) {
            Some(field) => field == Field::Server,
            None => false,
        };
        if hit {
            let ghost earlier = candidates@;
            let source = doc.config_span(children[i].span);
            let result = build_server(&children[i], doc, parent, None, home);
            candidates.push(ServerConfigCandidate { source, result });
            assert forall|k: int| 0 <= k < candidates@.len() implies candidates@[k].source
                == span_in(*doc, #[trigger] now[k]) && builds_server(
                now[k],
                *doc,
                parent@,
                None,
                home,
                candidates@[k].result,
            ) by {
                if k < earlier.len() {
                    assert(now[k] == done[k]);
                    assert(candidates@[k] == earlier[k]);
                }
            }
        }
        i += 1;
    }
    assert(children@.take(i as int) =~= children@);
    candidates
}

/// Builds a document that must hold one `pishoo` block.
#[verifier::rlimit(40)]
pub fn build_pishoo(
    doc: &ConfigDocumentSourceMap,
    directives: &Vec<AstDirective>,
    parent: &EffectiveHttpConfig,
    scope: OriginScope,
    home: Option<&DhttpHome>,
    worker: bool,
) -> (result: Result<ParsedPishooConfig, BuildTypedConfigError>)
    requires
        doc.sources().wf(),
    ensures
        builds_pishoo(
            directives@,
            *doc,
            parent@,
            if worker {
                Block::WorkerPishoo
            } else {
                Block::RootPishoo
            },
            scope,
            home,
            result,
        ),
{
    if directives.len() != 1 || !directives[0].is_named("pishoo") {
        return Err(BuildTypedConfigError::PishooCardinality { span: document_span(directives) });
    }
    let sources = doc.source_map();
    let directive = &directives[0];
    let children = match directive.children() {
        Some(children) => children,
        None => {
            return Err(shape_error(directive));
        },
    };
    let block = if worker {
        Block::WorkerPishoo
    } else {
        Block::RootPishoo
    };
    let mut settings = match scan(block, children, sources) {
        Ok(settings) => settings,
        Err(error) => {
            return Err(error);
        },
    };
    let pid = take_value::<ResolvedConfigPath>(block, children, Field::Pid, sources, &mut settings);
    let workers = take_value::<StringList>(block, children, Field::Workers, sources, &mut settings);
    let groups = take_value::<StringList>(block, children, Field::Groups, sources, &mut settings);
    let local = take_http(block, children, sources, settings);
    assert(is_local_http(block, children@, *sources, local));
    let http = overlay_http(parent, local, scope, sources);
    let forward_proxies = match build_proxies(block, children, sources) {
        Ok(forward_proxies) => forward_proxies,
        Err(error) => {
            return Err(error);
        },
    };
    let servers = build_candidates(block, children, doc, &http, home);
    Ok(
        ParsedPishooConfig {
            pishoo: PishooConfig {
                source: doc.config_span(directive.span),
                pid,
                workers,
                groups,
                http,
                forward_proxies,
            },
            servers,
        },
    )
}

} // verus!
