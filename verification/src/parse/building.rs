//! What servers, locations and whole documents are built of, by the names of their directives.
use vstd::prelude::*;
use vstd::utf8::{encode_utf8, is_ascii_chars_encode_utf8};

use crate::home::{inside, DhttpHome, IdentityProfile};
use crate::outside::dhttp_name;
use crate::parse::ast::AstDirective;
use crate::parse::block::{
    field_name, first_of, has_field, is_value, lemma_first_with_field, lemma_with_field_filters,
    parses_access_log, value_is_what_its_directive_gives, values_follow_their_directives,
    with_field, Block, Field,
};
use crate::parse::builder::{
    builds_forward_proxy, builds_location, builds_pishoo, builds_server, server_http, server_parent,
    sets, span_in, ParsedPishooConfig,
};
use crate::parse::config::{
    source_origin, AccessLogDirective, AccessLogView, CascadedView, Duplicate, ForwardConfig,
    HttpView, LocationConfig, OriginScope, ServerConfig, ServerIdentity,
};
use crate::parse::decode::DirectiveValue;
use crate::parse::domain::ResolvedConfigPath;
use crate::parse::overlay::{
    comes_from, is_local_http, local_settings_come_from_their_directives, overlay,
    settings_do_not_mix, LocalHttp,
};
use crate::parse::pattern::Pattern;
use crate::parse::source::{ConfigDocumentSourceMap, SourceMap};
use crate::parse::types::{
    name_views, partial_name, AccessRulesUri, BoolConfig, DefaultType, GzipCompLevel, GzipMinLength,
    MimeTypes, ProxyPass, SocketAddrs, StringList,
};

verus! {

/// Whether no directive of a list has the given name.
pub open spec fn lacks(children: Seq<AstDirective>, name: Seq<char>) -> bool {
    forall|i: int| 0 <= i < children.len() ==> (#[trigger] children[i]).name.value@ != name
}

/// The directives of a list that have the given name, in their order.
pub open spec fn all_named(children: Seq<AstDirective>, name: Seq<char>) -> Seq<AstDirective> {
    children.filter(|child: AstDirective| child.name_text() == name)
}

/// Whether a setting is what the first directive of its name gives, over what came down, and what came
/// down where there is no such directive.
pub open spec fn handed<T: DirectiveValue + Duplicate>(
    children: Seq<AstDirective>,
    name: Seq<char>,
    sources: SourceMap,
    scope: OriginScope,
    parent: CascadedView<T::Shown>,
    value: CascadedView<T::Shown>,
) -> bool {
    ||| lacks(children, name) && value == parent
    ||| exists|at: int, own: T|
        {
            &&& first_of(children, name, at)
            &&& #[trigger] T::reads(children[at], sources, Ok(own))
            &&& value.effective == own.shown()
            &&& value.lineage == parent.lineage.push(
                source_origin(scope, sources, children[at].span),
            )
        }
}

/// The same of a setting that may be absent.
pub open spec fn handed_some<T: DirectiveValue + Duplicate>(
    children: Seq<AstDirective>,
    name: Seq<char>,
    sources: SourceMap,
    scope: OriginScope,
    parent: CascadedView<Option<T::Shown>>,
    value: CascadedView<Option<T::Shown>>,
) -> bool {
    ||| lacks(children, name) && value == parent
    ||| exists|at: int, own: T|
        {
            &&& first_of(children, name, at)
            &&& #[trigger] T::reads(children[at], sources, Ok(own))
            &&& value.effective == Some(own.shown())
            &&& value.lineage == parent.lineage.push(
                source_origin(scope, sources, children[at].span),
            )
        }
}

/// The same of the access log.
pub open spec fn handed_log(
    children: Seq<AstDirective>,
    sources: SourceMap,
    scope: OriginScope,
    parent: CascadedView<AccessLogView>,
    value: CascadedView<AccessLogView>,
) -> bool {
    ||| lacks(children, "access_log"@) && value == parent
    ||| exists|at: int, own: AccessLogDirective|
        {
            &&& first_of(children, "access_log"@, at)
            &&& #[trigger] parses_access_log(children[at], sources, Ok(own))
            &&& value.effective == own@
            &&& value.lineage == parent.lineage.push(
                source_origin(scope, sources, children[at].span),
            )
        }
}

/// Whether HTTP settings are those of a block over those that came down to it, each by its name.
pub open spec fn http_follows(
    children: Seq<AstDirective>,
    sources: SourceMap,
    scope: OriginScope,
    parent: HttpView,
    http: HttpView,
) -> bool {
    &&& handed_some::<AccessRulesUri>(
        children,
        "access_rules"@,
        sources,
        scope,
        parent.access_rules,
        http.access_rules,
    )
    &&& handed::<BoolConfig>(children, "gzip"@, sources, scope, parent.gzip, http.gzip)
    &&& handed::<BoolConfig>(
        children,
        "gzip_vary"@,
        sources,
        scope,
        parent.gzip_vary,
        http.gzip_vary,
    )
    &&& handed::<GzipMinLength>(
        children,
        "gzip_min_length"@,
        sources,
        scope,
        parent.gzip_min_length,
        http.gzip_min_length,
    )
    &&& handed::<GzipCompLevel>(
        children,
        "gzip_comp_level"@,
        sources,
        scope,
        parent.gzip_comp_level,
        http.gzip_comp_level,
    )
    &&& handed::<StringList>(
        children,
        "gzip_types"@,
        sources,
        scope,
        parent.gzip_types,
        http.gzip_types,
    )
    &&& handed_some::<DefaultType>(
        children,
        "default_type"@,
        sources,
        scope,
        parent.default_type,
        http.default_type,
    )
    &&& handed_some::<MimeTypes>(children, "types"@, sources, scope, parent.types, http.types)
    &&& handed_log(children, sources, scope, parent.access_log, http.access_log)
}

proof fn lemma_http_follows(
    block: Block,
    children: Seq<AstDirective>,
    sources: SourceMap,
    scope: OriginScope,
    parent: HttpView,
    local: LocalHttp,
)
    requires
        block != Block::Proxy,
        is_local_http(block, children, sources, local),
    ensures
        http_follows(children, sources, scope, parent, overlay(parent, local@, scope, sources)),
{
    local_settings_come_from_their_directives(block, children, sources, local);
    settings_do_not_mix(parent, local@, scope, sources);
    lemma_handed(children, "access_rules"@, sources, local.access_rules);
    lemma_handed(children, "gzip"@, sources, local.gzip);
    lemma_handed(children, "gzip_vary"@, sources, local.gzip_vary);
    lemma_handed(children, "gzip_min_length"@, sources, local.gzip_min_length);
    lemma_handed(children, "gzip_comp_level"@, sources, local.gzip_comp_level);
    lemma_handed(children, "gzip_types"@, sources, local.gzip_types);
    lemma_handed(children, "default_type"@, sources, local.default_type);
    lemma_handed(children, "types"@, sources, local.types);
}

proof fn lemma_handed<T: DirectiveValue + Duplicate>(
    children: Seq<AstDirective>,
    name: Seq<char>,
    sources: SourceMap,
    local: Option<crate::parse::block::Assignment<T>>,
)
    requires
        comes_from(children, name, sources, local),
    ensures
        local is None ==> lacks(children, name),
        local matches Some(assignment) ==> exists|at: int, own: T|
            {
                &&& first_of(children, name, at)
                &&& #[trigger] T::reads(children[at], sources, Ok(own))
                &&& own == assignment.value
                &&& assignment.span == children[at].span
            },
{
    if let Some(assignment) = local {
        let at = choose|at: int|
            {
                &&& #[trigger] first_of(children, name, at)
                &&& T::reads(children[at], sources, Ok(assignment.value))
                &&& assignment.span == children[at].span
            };
        assert(T::reads(children[at], sources, Ok(assignment.value)));
    }
}

/// Whether a value is what the first directive of its name gives, and absent where there is none.
pub open spec fn given<T: DirectiveValue>(
    children: Seq<AstDirective>,
    name: Seq<char>,
    sources: SourceMap,
    value: Option<T>,
) -> bool {
    match value {
        Some(value) => exists|at: int| #[trigger]
            first_of(children, name, at) && T::reads(children[at], sources, Ok(value)),
        None => lacks(children, name),
    }
}

/// Whether values are those of all directives of a name, in their order.
pub open spec fn all_given<T: DirectiveValue>(
    children: Seq<AstDirective>,
    name: Seq<char>,
    sources: SourceMap,
    values: Seq<T>,
) -> bool {
    &&& values.len() == all_named(children, name).len()
    &&& forall|i: int|
        #![trigger values[i]]
        0 <= i < values.len() ==> T::reads(all_named(children, name)[i], sources, Ok(values[i]))
}

/// A location holds what its directives say, each setting by its own name, and adds the header of the
/// server behind the ones that it is told to add. Its HTTP settings go over those of its server.
pub proof fn locations_hold_what_they_say(
    directive: AstDirective,
    children: Seq<AstDirective>,
    doc: ConfigDocumentSourceMap,
    parent: HttpView,
    location: LocationConfig,
)
    requires
        builds_location(directive, doc, parent, Ok(location)),
        directive.block() == Some(children),
    ensures
        ({
            let sources = doc.sources();
            &&& Pattern::reads(directive, sources, Ok(location.matcher))
            &&& http_follows(children, sources, OriginScope::Location, parent, location.http@)
            &&& given(children, "root"@, sources, location.root)
            &&& given(children, "alias"@, sources, location.alias)
            &&& given(children, "index"@, sources, location.index)
            &&& given(children, "proxy_pass"@, sources, location.proxy_pass)
            &&& given(children, "ssh_login"@, sources, location.ssh_login)
            &&& given(children, "ssh_deny"@, sources, location.ssh_deny)
            &&& all_given(
                children,
                "add_header"@,
                sources,
                location.add_headers@.drop_last(),
            )
            &&& all_given(children, "proxy_set_header"@, sources, location.proxy_set_headers@)
            &&& all_given(children, "ssh_ssl_user"@, sources, location.ssh_users@)
            &&& location.source == span_in(doc, directive)
        }),
{
    let block = Block::Location;
    let sources = doc.sources();
    let local = choose|local: LocalHttp| #[trigger]
        is_local_http(block, children, sources, local) && location.http@ == overlay(
            parent,
            local@,
            OriginScope::Location,
            sources,
        );
    lemma_http_follows(block, children, sources, OriginScope::Location, parent, local);
    value_is_what_its_directive_gives(block, children, Field::Root, sources, location.root);
    value_is_what_its_directive_gives(block, children, Field::Alias, sources, location.alias);
    value_is_what_its_directive_gives(block, children, Field::Index, sources, location.index);
    value_is_what_its_directive_gives(
        block,
        children,
        Field::ProxyPass,
        sources,
        location.proxy_pass,
    );
    value_is_what_its_directive_gives(block, children, Field::SshLogin, sources, location.ssh_login);
    value_is_what_its_directive_gives(block, children, Field::SshDeny, sources, location.ssh_deny);
    values_follow_their_directives(
        block,
        children,
        Field::AddHeader,
        sources,
        location.add_headers@.drop_last(),
    );
    values_follow_their_directives(
        block,
        children,
        Field::ProxySetHeader,
        sources,
        location.proxy_set_headers@,
    );
    values_follow_their_directives(
        block,
        children,
        Field::SshSslUser,
        sources,
        location.ssh_users@,
    );
}

/// Every location ends its headers with that of the server, and always sends it.
pub proof fn locations_name_the_gateway(
    directive: AstDirective,
    doc: ConfigDocumentSourceMap,
    parent: HttpView,
    location: LocationConfig,
)
    requires
        builds_location(directive, doc, parent, Ok(location)),
    ensures
        location.add_headers@.len() > 0,
        ({
            let rules = location.add_headers@.last().0@;
            &&& rules.len() == 1
            &&& rules[0].name@ == seq!['s', 'e', 'r', 'v', 'e', 'r']
            &&& rules[0].value@ == seq![112u8, 105u8, 115u8, 104u8, 111u8, 111u8]
            &&& rules[0].always
        }),
{
    reveal_strlit("server");
    reveal_strlit("pishoo");
    assert("server"@ =~= seq!['s', 'e', 'r', 'v', 'e', 'r']);
    is_ascii_chars_encode_utf8("pishoo"@);
    assert(encode_utf8("pishoo"@) =~= seq![112u8, 105u8, 115u8, 104u8, 111u8, 111u8]);
}

/// The certificate that a location shows and its key come together; they and the certificates that it
/// trusts are those of the directives with these names.
pub proof fn passed_on_certificates_come_in_pairs(
    directive: AstDirective,
    children: Seq<AstDirective>,
    doc: ConfigDocumentSourceMap,
    parent: HttpView,
    location: LocationConfig,
)
    requires
        builds_location(directive, doc, parent, Ok(location)),
        directive.block() == Some(children),
    ensures
        lacks(children, "proxy_ssl_certificate"@) <==> lacks(children, "proxy_ssl_certificate_key"@),
        match location.proxy_tls {
            Some(tls) => {
                &&& given(children, "proxy_ssl_certificate"@, doc.sources(), tls.certificate)
                &&& given(children, "proxy_ssl_certificate_key"@, doc.sources(), tls.private_key)
                &&& given(
                    children,
                    "proxy_ssl_trusted_certificate"@,
                    doc.sources(),
                    tls.trusted_certificate,
                )
                &&& !lacks(children, "proxy_ssl_certificate"@) || !lacks(
                    children,
                    "proxy_ssl_trusted_certificate"@,
                )
            },
            None => lacks(children, "proxy_ssl_certificate"@) && lacks(
                children,
                "proxy_ssl_trusted_certificate"@,
            ),
        },
{
    let block = Block::Location;
    lemma_sets(block, children, Field::ProxySslCertificate);
    lemma_sets(block, children, Field::ProxySslCertificateKey);
    lemma_sets(block, children, Field::ProxySslTrustedCertificate);
    if let Some(tls) = location.proxy_tls {
        value_is_what_its_directive_gives(
            block,
            children,
            Field::ProxySslCertificate,
            doc.sources(),
            tls.certificate,
        );
        value_is_what_its_directive_gives(
            block,
            children,
            Field::ProxySslCertificateKey,
            doc.sources(),
            tls.private_key,
        );
        value_is_what_its_directive_gives(
            block,
            children,
            Field::ProxySslTrustedCertificate,
            doc.sources(),
            tls.trusted_certificate,
        );
    }
}

proof fn lemma_sets(block: Block, children: Seq<AstDirective>, field: Field)
    requires
        has_field(block, field),
    ensures
        sets(block, children, field) <==> !lacks(children, field_name(field)),
{
    lemma_first_with_field(block, children, field);
    if sets(block, children, field) {
        let at = choose|at: int| #[trigger]
            first_of(children, field_name(field), at) && children[at] == with_field(
                block,
                children,
                field,
            )[0];
        assert(children[at].name.value@ == field_name(field));
    }
}

/// A regular expression passes no path of its own on.
pub proof fn expressions_pass_on_no_path(
    directive: AstDirective,
    doc: ConfigDocumentSourceMap,
    parent: HttpView,
    location: LocationConfig,
)
    requires
        builds_location(directive, doc, parent, Ok(location)),
        location.matcher is Regex || location.matcher is CRegex,
    ensures
        location.proxy_pass matches Some(pass) ==> pass.explicit_path_and_query is None,
{
}

/// A server holds what its directives say, each setting by its own name, and its locations in their
/// order, each over the HTTP settings of the server.
pub proof fn servers_hold_what_they_say(
    directive: AstDirective,
    children: Seq<AstDirective>,
    doc: ConfigDocumentSourceMap,
    parent: HttpView,
    profile: Option<&IdentityProfile>,
    home: Option<&DhttpHome>,
    server: ServerConfig,
)
    requires
        builds_server(directive, doc, parent, profile, home, Ok(server)),
        directive.block() == Some(children),
    ensures
        ({
            let sources = doc.sources();
            &&& all_given(children, "listen"@, sources, server.listens@)
            &&& given(children, "dns"@, sources, server.resolver)
            &&& given(children, "relay"@, sources, server.relay)
            &&& given(children, "stun"@, sources, server.stun)
            &&& all_given(children, "stun_server"@, sources, server.stun_servers@)
            &&& http_follows(
                children,
                sources,
                OriginScope::Server,
                server_parent(parent, server.identity),
                server.http@,
            )
            &&& server.locations@.len() == all_named(children, "location"@).len()
            &&& forall|i: int|
                #![trigger server.locations@[i]]
                0 <= i < server.locations@.len() ==> builds_location(
                    all_named(children, "location"@)[i],
                    doc,
                    server.http@,
                    Ok(server.locations@[i]),
                )
            &&& server.source == span_in(doc, directive)
            &&& profile is None ==> !lacks(children, "listen"@)
        }),
{
    let block = Block::Server;
    let sources = doc.sources();
    let local = choose|local: LocalHttp| #[trigger]
        is_local_http(block, children, sources, local) && server.http@ == server_http(
            parent,
            server.identity,
            local@,
            sources,
        );
    lemma_http_follows(
        block,
        children,
        sources,
        OriginScope::Server,
        server_parent(parent, server.identity),
        local,
    );
    values_follow_their_directives(block, children, Field::Listen, sources, server.listens@);
    value_is_what_its_directive_gives(block, children, Field::Dns, sources, server.resolver);
    value_is_what_its_directive_gives(block, children, Field::Relay, sources, server.relay);
    value_is_what_its_directive_gives(block, children, Field::Stun, sources, server.stun);
    values_follow_their_directives(
        block,
        children,
        Field::StunServer,
        sources,
        server.stun_servers@,
    );
    lemma_with_field_filters(block, children, Field::Location);
    lemma_sets(block, children, Field::Listen);
}

/// A server is called by all names that it gives, in full and in their order, or by the name of its
/// profile where it gives none.
pub proof fn servers_have_the_names_they_give(
    directive: AstDirective,
    children: Seq<AstDirective>,
    doc: ConfigDocumentSourceMap,
    parent: HttpView,
    profile: Option<&IdentityProfile>,
    home: Option<&DhttpHome>,
    server: ServerConfig,
)
    requires
        builds_server(directive, doc, parent, profile, home, Ok(server)),
        directive.block() == Some(children),
    ensures
        lacks(children, "server_name"@) ==> match profile {
            Some(profile) => server.names@.len() == 1 && server.names@[0]@ == profile.name@,
            None => server.names@.len() == 0,
        },
        forall|at: int| #[trigger]
            first_of(children, "server_name"@, at) ==> {
                &&& server.names@.len() == children[at].args@.len()
                &&& forall|i: int|
                    0 <= i < server.names@.len() ==> (#[trigger] server.names@[i])@ == dhttp_name(
                        children[at].args@[i].value@,
                    )->0
            },
        profile matches Some(own) ==> server.names@.len() == 1 && server.names@[0]@ == own.name@,
{
    let block = Block::Server;
    let list = with_field(block, children, Field::ServerName);
    let views = name_views(server.names@);
    assert(views.len() == server.names@.len());
    assert forall|i: int| 0 <= i < views.len() implies #[trigger] views[i] == server.names@[i]@ by {
    }
    lemma_first_with_field(block, children, Field::ServerName);
    if list.len() > 0 {
        let first = choose|at: int| #[trigger]
            first_of(children, "server_name"@, at) && children[at] == list[0];
        assert(children[first].name.value@ == "server_name"@);
        assert forall|at: int| #[trigger] first_of(children, "server_name"@, at) implies {
            &&& server.names@.len() == children[at].args@.len()
            &&& forall|i: int|
                0 <= i < server.names@.len() ==> (#[trigger] server.names@[i])@ == dhttp_name(
                    children[at].args@[i].value@,
                )->0
        } by {
            assert(at == first);
            assert forall|i: int| 0 <= i < server.names@.len() implies (
            #[trigger] server.names@[i])@ == dhttp_name(children[at].args@[i].value@)->0 by {
                assert(views[i] == server.names@[i]@);
            }
        }
    } else {
        assert forall|at: int| #[trigger] first_of(children, "server_name"@, at) implies false by {
            assert(children[at].name_text() == "server_name"@);
        }
        if profile is Some {
            assert(views[0] == server.names@[0]@);
        }
    }
    if profile is Some {
        assert(views[0] == server.names@[0]@);
    }
}

/// Who a server is: one with a profile is that profile, under its name alone and without files of its
/// own. Any other shows the certificate that it names with the key that it names, which come together,
/// or is the profile of its only name in the home directory.
pub proof fn servers_know_who_they_are(
    directive: AstDirective,
    children: Seq<AstDirective>,
    doc: ConfigDocumentSourceMap,
    parent: HttpView,
    profile: Option<&IdentityProfile>,
    home: Option<&DhttpHome>,
    server: ServerConfig,
)
    requires
        builds_server(directive, doc, parent, profile, home, Ok(server)),
        directive.block() == Some(children),
    ensures
        lacks(children, "ssl_certificate"@) <==> lacks(children, "ssl_certificate_key"@),
        match server.identity {
            ServerIdentity::Direct { certificate, private_key } => {
                &&& profile is None
                &&& given(children, "ssl_certificate"@, doc.sources(), Some(certificate))
                &&& given(children, "ssl_certificate_key"@, doc.sources(), Some(private_key))
                &&& !(server.http@.access_log.effective is ProfileDefault)
            },
            ServerIdentity::Profile(known) => {
                &&& lacks(children, "ssl_certificate"@)
                &&& match profile {
                    Some(own) => known.name@ == own.name@ && known.path@ == own.path@,
                    None => home matches Some(home) && server.names@.len() == 1 && known.name@
                        == server.names@[0]@ && known.path@ == inside(
                        home.path@,
                        partial_name(server.names@[0]@),
                    ),
                }
            },
        },
{
    let block = Block::Server;
    lemma_sets(block, children, Field::SslCertificate);
    lemma_sets(block, children, Field::SslCertificateKey);
    let views = name_views(server.names@);
    assert(views.len() == server.names@.len());
    if views.len() > 0 {
        assert(views[0] == server.names@[0]@);
    }
    if let ServerIdentity::Direct { certificate, private_key } = server.identity {
        value_is_what_its_directive_gives(
            block,
            children,
            Field::SslCertificate,
            doc.sources(),
            Some(certificate),
        );
        value_is_what_its_directive_gives(
            block,
            children,
            Field::SslCertificateKey,
            doc.sources(),
            Some(private_key),
        );
    }
}

/// What comes down to a server is what its `pishoo` block has, all but one thing: a server with a
/// profile logs to the file of its profile where nothing was said of the access log.
pub proof fn profiles_log_by_default(parent: HttpView, identity: ServerIdentity)
    ensures
        ({
            let http = server_parent(parent, identity);
            &&& http.access_rules == parent.access_rules
            &&& http.gzip == parent.gzip
            &&& http.gzip_vary == parent.gzip_vary
            &&& http.gzip_min_length == parent.gzip_min_length
            &&& http.gzip_comp_level == parent.gzip_comp_level
            &&& http.gzip_types == parent.gzip_types
            &&& http.default_type == parent.default_type
            &&& http.types == parent.types
            &&& identity is Direct ==> http.access_log == parent.access_log
            &&& parent.access_log.lineage.len() != 1 ==> http.access_log == parent.access_log
            &&& identity is Profile && parent.access_log.lineage.len() == 1
                ==> http.access_log.effective is ProfileDefault
                && http.access_log.lineage.len() == 1
        }),
{
}

/// A document is one `pishoo` block. Its configuration holds what the directives of the block say, each
/// setting by its own name, and its forward proxies and servers in their order, the servers over the
/// HTTP settings of the block.
pub proof fn documents_hold_what_they_say(
    directives: Seq<AstDirective>,
    children: Seq<AstDirective>,
    doc: ConfigDocumentSourceMap,
    parent: HttpView,
    block: Block,
    scope: OriginScope,
    home: Option<&DhttpHome>,
    parsed: ParsedPishooConfig,
)
    requires
        builds_pishoo(directives, doc, parent, block, scope, home, Ok(parsed)),
        block is RootPishoo || block is WorkerPishoo,
        directives[0].block() == Some(children),
    ensures
        directives.len() == 1,
        directives[0].name.value@ == seq!['p', 'i', 's', 'h', 'o', 'o'],
        ({
            let sources = doc.sources();
            &&& given(children, "pid"@, sources, parsed.pishoo.pid)
            &&& given(children, "workers"@, sources, parsed.pishoo.workers)
            &&& given(children, "groups"@, sources, parsed.pishoo.groups)
            &&& http_follows(children, sources, scope, parent, parsed.pishoo.http@)
            &&& parsed.pishoo.forward_proxies@.len() == all_named(children, "proxy"@).len()
            &&& forall|i: int|
                #![trigger parsed.pishoo.forward_proxies@[i]]
                0 <= i < parsed.pishoo.forward_proxies@.len() ==> builds_forward_proxy(
                    all_named(children, "proxy"@)[i],
                    sources,
                    Ok(parsed.pishoo.forward_proxies@[i]),
                )
            &&& parsed.servers@.len() == all_named(children, "server"@).len()
            &&& forall|i: int|
                #![trigger parsed.servers@[i]]
                0 <= i < parsed.servers@.len() ==> builds_server(
                    all_named(children, "server"@)[i],
                    doc,
                    parsed.pishoo.http@,
                    None,
                    home,
                    parsed.servers@[i].result,
                ) && parsed.servers@[i].source == span_in(doc, all_named(children, "server"@)[i])
        }),
{
    reveal_strlit("pishoo");
    assert("pishoo"@ =~= seq!['p', 'i', 's', 'h', 'o', 'o']);
    let sources = doc.sources();
    let local = choose|local: LocalHttp| #[trigger]
        is_local_http(block, children, sources, local) && parsed.pishoo.http@ == overlay(
            parent,
            local@,
            scope,
            sources,
        );
    lemma_http_follows(block, children, sources, scope, parent, local);
    value_is_what_its_directive_gives(block, children, Field::Pid, sources, parsed.pishoo.pid);
    value_is_what_its_directive_gives(
        block,
        children,
        Field::Workers,
        sources,
        parsed.pishoo.workers,
    );
    value_is_what_its_directive_gives(
        block,
        children,
        Field::Groups,
        sources,
        parsed.pishoo.groups,
    );
    lemma_with_field_filters(block, children, Field::Proxy);
    lemma_with_field_filters(block, children, Field::Server);
}

/// A forward proxy listens on the one address of its last `listen` directive, and lets in and keeps out
/// what its `allow` and `deny` directives list, or nothing where it has none.
pub proof fn forward_proxies_hold_what_they_say(
    directive: AstDirective,
    children: Seq<AstDirective>,
    sources: SourceMap,
    proxy: ForwardConfig,
)
    requires
        builds_forward_proxy(directive, sources, Ok(proxy)),
        directive.block() == Some(children),
    ensures
        all_named(children, "listen"@).len() > 0,
        exists|addrs: SocketAddrs| #[trigger]
            SocketAddrs::reads(all_named(children, "listen"@).last(), sources, Ok(addrs))
                && addrs.0@ == seq![proxy.listen],
        exists|allow: Option<StringList>| #[trigger]
            given(children, "allow"@, sources, allow) && proxy.allow@ == (match allow {
                Some(list) => list@,
                None => seq![],
            }),
        exists|deny: Option<StringList>| #[trigger]
            given(children, "deny"@, sources, deny) && proxy.deny@ == (match deny {
                Some(list) => list@,
                None => seq![],
            }),
{
    let block = Block::Proxy;
    lemma_with_field_filters(block, children, Field::ProxyListen);
    let listens = with_field(block, children, Field::ProxyListen);
    let addrs = choose|addrs: SocketAddrs| #[trigger]
        SocketAddrs::reads(listens.last(), sources, Ok(addrs)) && addrs.0@.len() == 1
            && addrs.0@[0] == proxy.listen;
    assert(addrs.0@ =~= seq![proxy.listen]);
    assert(SocketAddrs::reads(all_named(children, "listen"@).last(), sources, Ok(addrs)));
    let allow = choose|allow: Option<StringList>| #[trigger]
        is_value(block, children, Field::Allow, sources, allow) && proxy.allow@
            == crate::parse::builder::words_of(allow);
    value_is_what_its_directive_gives(block, children, Field::Allow, sources, allow);
    assert(given(children, "allow"@, sources, allow));
    let deny = choose|deny: Option<StringList>| #[trigger]
        is_value(block, children, Field::Deny, sources, deny) && proxy.deny@
            == crate::parse::builder::words_of(deny);
    value_is_what_its_directive_gives(block, children, Field::Deny, sources, deny);
    assert(given(children, "deny"@, sources, deny));
}

/// An access log is off, that of the profile, or a file, by what its only argument says.
pub proof fn access_logs_are_off_default_or_a_file(
    directive: AstDirective,
    sources: SourceMap,
    log: AccessLogDirective,
)
    requires
        parses_access_log(directive, sources, Ok(log)),
    ensures
        directive.block() is None && directive.args@.len() == 1,
        log is Off <==> directive.args@[0].value@ == seq!['o', 'f', 'f'],
        log is ProfileDefault <==> directive.args@[0].value@ == seq![
            'd',
            'e',
            'f',
            'a',
            'u',
            'l',
            't',
        ],
        log matches AccessLogDirective::Resolved(path) ==> ResolvedConfigPath::reads(
            directive,
            sources,
            Ok(path),
        ),
{
    reveal_strlit("off");
    reveal_strlit("default");
    assert("off"@ =~= seq!['o', 'f', 'f']);
    assert("default"@ =~= seq!['d', 'e', 'f', 'a', 'u', 'l', 't']);
    assert("off"@.len() == 3 && "default"@.len() == 7);
}

} // verus!
