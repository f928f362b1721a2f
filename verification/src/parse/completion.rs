//! What is asked of a block once all its directives are read, and what is added to it then.
use vstd::prelude::*;

use crate::home::{DhttpHome, IdentityProfile};
use crate::parse::builder::{is_server_header, server_header};
use crate::parse::document::{
    found, gets, gets_all, gets_payload, ConfigNode, NodeView,
};
use crate::parse::domain::ResolvedConfigPath;
use crate::parse::error::ConfigQueryError;
use crate::parse::finalize::{
    FinalizeError, FinalizeLocationError, FinalizeProxyError, FinalizeServerError,
};
use crate::parse::pattern::Pattern;
use crate::parse::types::{HeaderRules, ListenConfig, ProxyPass, ServerName, ServerNames};
use crate::parse::value::{ConfigValue, TypedValue};

verus! {

/// What is known around a document.
#[derive(Debug, Clone, Copy)]
pub struct BuildOptions<'a> {
    pub dhttp_home: Option<&'a DhttpHome>,
    pub identity_profile: Option<&'a IdentityProfile>,
}

impl<'a> Default for BuildOptions<'a> {
    fn default() -> (options: Self)
        ensures
            options.dhttp_home is None,
            options.identity_profile is None,
    {
        BuildOptions::new()
    }
}

impl<'a> BuildOptions<'a> {
    /// Whether certificates can be found in a home of identities.
    pub open spec fn in_home(self) -> bool {
        self.dhttp_home is Some || self.identity_profile is Some
    }

    /// Nothing is known.
    pub fn new() -> (options: Self)
        ensures
            options.dhttp_home is None,
            options.identity_profile is None,
    {
        BuildOptions { dhttp_home: None, identity_profile: None }
    }

    pub fn has_dhttp_home_context(&self) -> (yes: bool)
        ensures
            yes == self.in_home(),
    {
        self.dhttp_home.is_some() || self.identity_profile.is_some()
    }
}

/// Whether the values of a directive answer a question for the one value of type `T`.
pub open spec fn answers<T: ConfigValue>(values: Seq<TypedValue>) -> bool {
    values.len() == 0 || (values.len() == 1 && T::in_data(values[0].data()) is Some)
}

/// The one value of type `T` of a directive.
pub open spec fn answer<T: ConfigValue>(values: Seq<TypedValue>) -> Option<T> {
    if values.len() == 1 {
        T::in_data(values[0].data())
    } else {
        None
    }
}

/// Whether all values of a directive are of type `T`.
pub open spec fn all_are<T: ConfigValue>(values: Seq<TypedValue>) -> bool {
    forall|i: int| 0 <= i < values.len() ==> T::in_data((#[trigger] values[i]).data()) is Some
}

/// A question that the values of a directive do not answer is the error.
pub open spec fn is_query_error<T: ConfigValue>(
    values: Seq<TypedValue>,
    name: Seq<char>,
    error: FinalizeError,
) -> bool {
    error matches FinalizeError::Query(query) && gets::<T>(values, name, Err(query))
}

/// The value that stands for the name of an identity.
pub open spec fn names_identity(value: TypedValue, node: NodeView, profile: IdentityProfile) -> bool {
    &&& value.place() == node.span
    &&& ServerNames::in_data(value.data()) matches Some(names) && names.0@.len() == 1
        && names.0@[0].name@ == profile.name@
}

/// A server of an identity that does not say its name gets the name of the identity.
pub open spec fn named_server(before: NodeView, options: BuildOptions<'_>, after: NodeView) -> bool {
    if options.identity_profile matches Some(profile) && before.slot("server_name"@).len() == 0 {
        &&& after == before.with_slot("server_name"@, after.slot("server_name"@)[0])
        &&& names_identity(
            after.slot("server_name"@)[0],
            before,
            *(options.identity_profile->0),
        )
    } else {
        after == before
    }
}

/// A server listens somewhere, unless it is that of an identity, and has a certificate with its key,
/// or neither of the two where identities have a home.
pub open spec fn completes_server(
    node: NodeView,
    options: BuildOptions<'_>,
    result: Result<NodeView, FinalizeError>,
) -> bool {
    let listen = node.slot("listen"@);
    let names = node.slot("server_name"@);
    let certificate = node.slot("ssl_certificate"@);
    let key = node.slot("ssl_certificate_key"@);
    if !all_are::<ListenConfig>(listen) {
        result matches Err(FinalizeError::Query(query)) && gets_all::<ListenConfig>(
            listen,
            "listen"@,
            Err(query),
        )
    } else if listen.len() == 0 && options.identity_profile is None {
        result matches Err(
            FinalizeError::Server(FinalizeServerError::MissingListen { span }),
        ) && span == node.span
    } else if options.identity_profile is Some && !answers::<ServerNames>(names) {
        result matches Err(error) && is_query_error::<ServerNames>(names, "server_name"@, error)
    } else if !answers::<ResolvedConfigPath>(certificate) {
        result matches Err(error) && is_query_error::<ResolvedConfigPath>(
            certificate,
            "ssl_certificate"@,
            error,
        )
    } else if !answers::<ResolvedConfigPath>(key) {
        result matches Err(error) && is_query_error::<ResolvedConfigPath>(
            key,
            "ssl_certificate_key"@,
            error,
        )
    } else if certificate.len() == 0 && !(key.len() == 0 && options.in_home()) {
        result matches Err(
            FinalizeError::Server(FinalizeServerError::MissingCertificate { span }),
        ) && span == node.span
    } else if certificate.len() > 0 && key.len() == 0 {
        result matches Err(
            FinalizeError::Server(FinalizeServerError::MissingCertificateKey { span }),
        ) && span == node.span
    } else {
        result matches Ok(after) && named_server(node, options, after)
    }
}

/// Whether a server is complete as far as its addresses and its names go, so that it gets its name
/// even where something else is amiss.
pub open spec fn is_named(node: NodeView, options: BuildOptions<'_>) -> bool {
    let listen = node.slot("listen"@);
    &&& all_are::<ListenConfig>(listen)
    &&& listen.len() > 0 || options.identity_profile is Some
    &&& options.identity_profile is Some ==> answers::<ServerNames>(node.slot("server_name"@))
}

fn query_error(error: ConfigQueryError) -> (wrapped: FinalizeError)
    ensures
        wrapped == FinalizeError::Query(error),
{
    FinalizeError::Query(error)
}

/// Completes a `server` block.
pub fn finalize_server(node: &mut ConfigNode, options: &BuildOptions<'_>) -> (result: Result<
    (),
    FinalizeError,
>)
    ensures
        match result {
            Ok(_) => completes_server(old(node)@, *options, Ok(final(node)@)),
            Err(error) => completes_server(old(node)@, *options, Err(error)),
        },
        result is Err ==> if is_named(old(node)@, *options) {
            named_server(old(node)@, *options, final(node)@)
        } else {
            final(node)@ == old(node)@
        },
{
    let ghost before = node@;
    match node.get_all::<ListenConfig>("listen") {
        Ok(list) => {
            proof {
                let values = before.slot("listen"@);
                assert forall|i: int| 0 <= i < values.len() implies ListenConfig::in_data(
                    (#[trigger] values[i]).data(),
                ) is Some by {}
            }
            if list.len() == 0 && options.identity_profile.is_none() {
                return Err(
                    FinalizeError::Server(FinalizeServerError::MissingListen { span: node.span }),
                );
            }
        },
        Err(error) => {
            return Err(query_error(error));
        },
    }
    if let Some(profile) = options.identity_profile {
        let unnamed = match node.get::<ServerNames>("server_name") {
            Ok(names) => names.is_none(),
            Err(error) => {
                return Err(query_error(error));
            },
        };
        if unnamed {
            let mut names: Vec<ServerName> = Vec::new();
            names.push(ServerName { name: profile.name.clone() });
            let names = ServerNames(names);
            proof {
                ServerNames::data_holds_value(names);
            }
            let value = TypedValue::new(names, node.span);
            node.insert_slot("server_name", value);
            assert(node@.slot("server_name"@) =~= seq![value]);
        }
    }
    proof {
        reveal_strlit("server_name");
        reveal_strlit("ssl_certificate");
        reveal_strlit("ssl_certificate_key");
        assert("server_name"@.len() == 11);
        assert("ssl_certificate"@.len() == 15);
        assert("ssl_certificate_key"@.len() == 19);
        assert(node@.slot("ssl_certificate"@) == before.slot("ssl_certificate"@));
        assert(node@.slot("ssl_certificate_key"@) == before.slot("ssl_certificate_key"@));
    }
    let has_certificate = match node.get::<ResolvedConfigPath>("ssl_certificate") {
        Ok(value) => value.is_some(),
        Err(error) => {
            return Err(query_error(error));
        },
    };
    let has_key = match node.get::<ResolvedConfigPath>("ssl_certificate_key") {
        Ok(value) => value.is_some(),
        Err(error) => {
            return Err(query_error(error));
        },
    };
    if has_certificate && has_key {
        Ok(())
    } else if !has_certificate && !has_key && options.has_dhttp_home_context() {
        Ok(())
    } else if !has_certificate {
        Err(FinalizeError::Server(FinalizeServerError::MissingCertificate { span: node.span }))
    } else {
        Err(FinalizeError::Server(FinalizeServerError::MissingCertificateKey { span: node.span }))
    }
}

/// The value that stands for the header that every answer has.
pub open spec fn holds_server_header(value: TypedValue, node: NodeView) -> bool {
    value.place() == node.span && (HeaderRules::in_data(value.data()) matches Some(rules)
        && is_server_header(rules))
}

/// Whether a location with the given pattern may not say more than the host of its upstream.
pub open spec fn forbids_upstream_path(pattern: Pattern, pass: Option<ProxyPass>) -> bool {
    (pattern is Regex || pattern is CRegex) && (pass matches Some(pass)
        && pass.explicit_path_and_query is Some)
}

/// A location has a pattern and, towards its upstream, a certificate with its key or neither.
pub open spec fn completes_location(
    node: NodeView,
    result: Result<NodeView, FinalizeError>,
) -> bool {
    let pass = node.slot("proxy_pass"@);
    let certificate = node.slot("proxy_ssl_certificate"@);
    let key = node.slot("proxy_ssl_certificate_key"@);
    if node.payload matches Some(value) && Pattern::in_data(value.data()) is None {
        result matches Err(FinalizeError::Query(query)) && gets_payload::<Pattern>(node, Err(query))
    } else if node.payload is None {
        result matches Err(
            FinalizeError::Location(FinalizeLocationError::MissingPattern { span }),
        ) && span == node.span
    } else if !answers::<ProxyPass>(pass) {
        result matches Err(error) && is_query_error::<ProxyPass>(pass, "proxy_pass"@, error)
    } else if !answers::<ResolvedConfigPath>(certificate) {
        result matches Err(error) && is_query_error::<ResolvedConfigPath>(
            certificate,
            "proxy_ssl_certificate"@,
            error,
        )
    } else if !answers::<ResolvedConfigPath>(key) {
        result matches Err(error) && is_query_error::<ResolvedConfigPath>(
            key,
            "proxy_ssl_certificate_key"@,
            error,
        )
    } else if forbids_upstream_path(
        Pattern::in_data(node.payload->0.data())->0,
        answer::<ProxyPass>(pass),
    ) {
        result matches Err(
            FinalizeError::Location(FinalizeLocationError::ProxyPassUriInRegexLocation { span }),
        ) && span == node.span
    } else if (certificate.len() == 0) != (key.len() == 0) {
        result matches Err(
            FinalizeError::Location(FinalizeLocationError::ProxyTlsPair { span }),
        ) && span == node.span
    } else {
        result matches Ok(after) && {
            &&& after == node.with_slot("add_header"@, after.slot("add_header"@).last())
            &&& holds_server_header(after.slot("add_header"@).last(), node)
        }
    }
}

/// Completes a `location` block.
pub fn finalize_location(node: &mut ConfigNode) -> (result: Result<(), FinalizeError>)
    ensures
        match result {
            Ok(_) => completes_location(old(node)@, Ok(final(node)@)),
            Err(error) => completes_location(old(node)@, Err(error)),
        },
        result is Err ==> final(node)@ == old(node)@,
{
    let span = node.span;
    let by_expression = match node.payload::<Pattern>() {
        Ok(Some(pattern)) => matches!(pattern, Pattern::Regex(_) | Pattern::CRegex(_)),
        Ok(None) => {
            return Err(
                FinalizeError::Location(FinalizeLocationError::MissingPattern { span }),
            );
        },
        Err(error) => {
            return Err(query_error(error));
        },
    };
    let says_path = match node.get::<ProxyPass>("proxy_pass") {
        Ok(Some(pass)) => pass.has_explicit_uri(),
        Ok(None) => false,
        Err(error) => {
            return Err(query_error(error));
        },
    };
    let has_certificate = match node.get::<ResolvedConfigPath>("proxy_ssl_certificate") {
        Ok(value) => value.is_some(),
        Err(error) => {
            return Err(query_error(error));
        },
    };
    let has_key = match node.get::<ResolvedConfigPath>("proxy_ssl_certificate_key") {
        Ok(value) => value.is_some(),
        Err(error) => {
            return Err(query_error(error));
        },
    };
    if by_expression && says_path {
        return Err(
            FinalizeError::Location(FinalizeLocationError::ProxyPassUriInRegexLocation { span }),
        );
    }
    if has_certificate != has_key {
        return Err(FinalizeError::Location(FinalizeLocationError::ProxyTlsPair { span }));
    }
    let header = server_header();
    proof {
        HeaderRules::data_holds_value(header);
    }
    node.insert_slot("add_header", TypedValue::new(header, span));
    Ok(())
}

/// A forward proxy listens somewhere.
pub open spec fn completes_proxy(node: NodeView, result: Result<NodeView, FinalizeError>) -> bool {
    if node.slot("listen"@).len() == 0 {
        result matches Err(
            FinalizeError::Proxy(FinalizeProxyError::MissingListen { span }),
        ) && span == node.span
    } else {
        result matches Ok(after) && after == node
    }
}

/// Completes a `proxy` block.
pub fn finalize_proxy(node: &mut ConfigNode) -> (result: Result<(), FinalizeError>)
    ensures
        match result {
            Ok(_) => completes_proxy(old(node)@, Ok(final(node)@)),
            Err(error) => completes_proxy(old(node)@, Err(error)),
        },
        final(node)@ == old(node)@,
{
    if node.get_all_untyped("listen").len() == 0 {
        return Err(FinalizeError::Proxy(FinalizeProxyError::MissingListen { span: node.span }));
    }
    Ok(())
}

/// A server of an identity that does not say its name is known by the name of the identity.
pub proof fn identity_names_its_server(
    node: NodeView,
    options: BuildOptions<'_>,
    after: NodeView,
)
    requires
        completes_server(node, options, Ok(after)),
        options.identity_profile is Some,
        node.slot("server_name"@).len() == 0,
    ensures
        after.slot("server_name"@).len() == 1,
        names_identity(after.slot("server_name"@)[0], node, *(options.identity_profile->0)),
{
}

/// The server of an identity need not say where it listens, what it is called or
/// which certificate it has: its name is that of the identity, and nothing else is added.
pub proof fn identity_server_needs_nothing(
    node: NodeView,
    options: BuildOptions<'_>,
    result: Result<NodeView, FinalizeError>,
)
    requires
        completes_server(node, options, result),
        options.identity_profile is Some,
        node.slot("listen"@).len() == 0,
        node.slot("server_name"@).len() == 0,
        node.slot("ssl_certificate"@).len() == 0,
        node.slot("ssl_certificate_key"@).len() == 0,
    ensures
        result matches Ok(after) && after == node.with_slot(
            "server_name"@,
            after.slot("server_name"@)[0],
        ) && names_identity(
            after.slot("server_name"@)[0],
            node,
            *(options.identity_profile->0),
        ),
{
}

/// Every complete location answers with the header that names the server, after its own headers.
pub proof fn locations_name_the_server(node: NodeView, after: NodeView)
    requires
        completes_location(node, Ok(after)),
    ensures
        after.slot("add_header"@).drop_last() == node.slot("add_header"@),
        holds_server_header(after.slot("add_header"@).last(), node),
{
    let value = after.slot("add_header"@).last();
    assert(after.slot("add_header"@) == node.slot("add_header"@).push(value));
    assert(node.slot("add_header"@).push(value).drop_last() =~= node.slot("add_header"@));
}

/// A server is complete only where it listens somewhere or belongs to an identity, and where it names a
/// certificate and its key, or neither where identities have a home. Nothing else of it changes.
pub proof fn complete_servers_have_what_they_need(
    node: NodeView,
    options: BuildOptions<'_>,
    after: NodeView,
)
    requires
        completes_server(node, options, Ok(after)),
    ensures
        node.slot("listen"@).len() > 0 || options.identity_profile is Some,
        node.slot("ssl_certificate"@).len() == node.slot("ssl_certificate_key"@).len(),
        node.slot("ssl_certificate"@).len() <= 1,
        node.slot("ssl_certificate"@).len() == 0 ==> options.dhttp_home is Some
            || options.identity_profile is Some,
        options.identity_profile is None || node.slot("server_name"@).len() > 0 ==> after == node,
        forall|name: Seq<char>| name != "server_name"@ ==> #[trigger] after.slot(name) == node.slot(name),
        after.children == node.children,
        after.payload == node.payload,
{
    if after != node {
        let value = after.slot("server_name"@)[0];
        assert(after.slots == node.slots.insert("server_name"@, node.slot("server_name"@).push(value)));
    }
}

/// A location is complete only where it has a pattern, where a certificate towards its upstream comes
/// with its key, and where a regular expression passes on no path. It gains one header, and nothing
/// else of it changes.
pub proof fn complete_locations_have_what_they_need(node: NodeView, after: NodeView)
    requires
        completes_location(node, Ok(after)),
    ensures
        node.payload matches Some(value) && Pattern::in_data(value.data()) is Some,
        node.slot("proxy_ssl_certificate"@).len() == node.slot("proxy_ssl_certificate_key"@).len(),
        node.slot("proxy_pass"@).len() <= 1,
        ({
            let pattern = Pattern::in_data(node.payload->0.data())->0;
            (pattern is Regex || pattern is CRegex) && node.slot("proxy_pass"@).len() == 1 ==> (
            ProxyPass::in_data(node.slot("proxy_pass"@)[0].data()) matches Some(pass)
                && pass.explicit_path_and_query is None)
        }),
        forall|name: Seq<char>| name != "add_header"@ ==> #[trigger] after.slot(name) == node.slot(name),
        after.slot("add_header"@).len() == node.slot("add_header"@).len() + 1,
        after.children == node.children,
        after.payload == node.payload,
{
    let value = after.slot("add_header"@).last();
    assert(after.slots == node.slots.insert("add_header"@, node.slot("add_header"@).push(value)));
    assert(after.slot("add_header"@) == node.slot("add_header"@).push(value));
}

/// A server that lacks what it needs is refused: a place to listen on without an identity, a certificate
/// without its key, a key without its certificate, or both outside a home of identities.
pub proof fn incomplete_servers_are_refused(
    node: NodeView,
    options: BuildOptions<'_>,
    result: Result<NodeView, FinalizeError>,
)
    requires
        completes_server(node, options, result),
        options.identity_profile is None && node.slot("listen"@).len() == 0 || node.slot(
            "ssl_certificate"@,
        ).len() != node.slot("ssl_certificate_key"@).len() || node.slot("ssl_certificate"@).len() == 0
            && options.dhttp_home is None && options.identity_profile is None,
    ensures
        result is Err,
{
}

} // verus!
