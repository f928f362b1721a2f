//! The directives of `proxy` blocks.
use vstd::prelude::*;

use crate::parse::context::{ContextKey, PISHOO, PROXY};
use crate::parse::contract::{
    CascadePolicy, DirectiveShape, DuplicatePolicy, PayloadMode, ReloadImpact, TransportPolicy,
};
use crate::parse::definition::{directive_in, TypedDirectiveDefinition};
use crate::parse::registry::{
    context_texts, ConfigRegistry, ContextFinalizer, ContextSpec, DirectiveParser, DirectiveSpec,
    DirectiveView, RegistryView,
};
use crate::parse::types::{
    ClientNameConfig, DefaultType, MimeTypes, PathConfig, ResolverConfig, SocketAddrs, StringList,
};
use crate::parse::value::ValueKind;

verus! {

/// What a registry knows of `proxy` in the given context.
pub open spec fn proxy_block(parent: Seq<char>) -> DirectiveView {
    DirectiveView {
        name: "proxy"@,
        allowed_in: seq![parent],
        shape: DirectiveShape::ContextBlock {
            child_context: ContextKey(PROXY),
            payload: PayloadMode::Nothing,
        },
        parser: DirectiveParser::Empty,
        duplicate: DuplicatePolicy::Append,
        cascade: CascadePolicy::Nothing,
        transport: TransportPolicy::WorkerLocalOnly,
        reload: ReloadImpact::ListenerSet,
    }
}

fn proxy_spec(parent: ContextKey) -> (spec: DirectiveSpec)
    ensures
        spec@ == proxy_block(parent.text()),
{
    let mut allowed: Vec<ContextKey> = Vec::new();
    allowed.push(parent);
    assert(context_texts(allowed@) =~= seq![parent.text()]);
    DirectiveSpec::context_empty(
        "proxy",
        allowed,
        ContextKey(PROXY),
        DuplicatePolicy::Append,
        CascadePolicy::Nothing,
        TransportPolicy::WorkerLocalOnly,
        ReloadImpact::ListenerSet,
    )
}

/// What a registry knows of `listen`.
pub open spec fn listen_directive() -> DirectiveView {
    directive_in(
        PROXY@,
        "listen"@,
        ValueKind::SocketAddrs,
        DirectiveShape::Leaf,
        DuplicatePolicy::Reject,
        CascadePolicy::Nothing,
        TransportPolicy::WorkerLocalOnly,
        ReloadImpact::ListenerSet,
    )
}

/// The directive `listen`.
pub fn listen_definition() -> (definition: TypedDirectiveDefinition<SocketAddrs>)
    ensures
        definition.wf(),
        definition.registered_in() == PROXY@,
        definition.directive() == listen_directive(),
{
    TypedDirectiveDefinition::single(
        ContextKey(PROXY),
        "listen",
        DirectiveShape::Leaf,
        DuplicatePolicy::Reject,
        CascadePolicy::Nothing,
        TransportPolicy::WorkerLocalOnly,
        ReloadImpact::ListenerSet,
    )
}

/// What a registry knows of `client_name`.
pub open spec fn client_name_directive() -> DirectiveView {
    directive_in(
        PROXY@,
        "client_name"@,
        ValueKind::ClientNameConfig,
        DirectiveShape::Leaf,
        DuplicatePolicy::Reject,
        CascadePolicy::Nothing,
        TransportPolicy::WorkerLocalOnly,
        ReloadImpact::ListenerSet,
    )
}

/// The directive `client_name`.
pub fn client_name_definition() -> (definition: TypedDirectiveDefinition<ClientNameConfig>)
    ensures
        definition.wf(),
        definition.registered_in() == PROXY@,
        definition.directive() == client_name_directive(),
{
    TypedDirectiveDefinition::single(
        ContextKey(PROXY),
        "client_name",
        DirectiveShape::Leaf,
        DuplicatePolicy::Reject,
        CascadePolicy::Nothing,
        TransportPolicy::WorkerLocalOnly,
        ReloadImpact::ListenerSet,
    )
}

/// What a registry knows of `dns`.
pub open spec fn dns_directive() -> DirectiveView {
    directive_in(
        PROXY@,
        "dns"@,
        ValueKind::ResolverConfig,
        DirectiveShape::Leaf,
        DuplicatePolicy::Reject,
        CascadePolicy::Nothing,
        TransportPolicy::WorkerLocalOnly,
        ReloadImpact::ListenerSet,
    )
}

/// The directive `dns`.
pub fn dns_definition() -> (definition: TypedDirectiveDefinition<ResolverConfig>)
    ensures
        definition.wf(),
        definition.registered_in() == PROXY@,
        definition.directive() == dns_directive(),
{
    TypedDirectiveDefinition::single(
        ContextKey(PROXY),
        "dns",
        DirectiveShape::Leaf,
        DuplicatePolicy::Reject,
        CascadePolicy::Nothing,
        TransportPolicy::WorkerLocalOnly,
        ReloadImpact::ListenerSet,
    )
}

/// What a registry knows of `ssl_certificate`.
pub open spec fn ssl_certificate_directive() -> DirectiveView {
    directive_in(
        PROXY@,
        "ssl_certificate"@,
        ValueKind::PathConfig,
        DirectiveShape::Leaf,
        DuplicatePolicy::Reject,
        CascadePolicy::Nothing,
        TransportPolicy::WorkerLocalOnly,
        ReloadImpact::ListenerSet,
    )
}

/// The directive `ssl_certificate`.
pub fn ssl_certificate_definition() -> (definition: TypedDirectiveDefinition<PathConfig>)
    ensures
        definition.wf(),
        definition.registered_in() == PROXY@,
        definition.directive() == ssl_certificate_directive(),
{
    TypedDirectiveDefinition::single(
        ContextKey(PROXY),
        "ssl_certificate",
        DirectiveShape::Leaf,
        DuplicatePolicy::Reject,
        CascadePolicy::Nothing,
        TransportPolicy::WorkerLocalOnly,
        ReloadImpact::ListenerSet,
    )
}

/// What a registry knows of `ssl_certificate_key`.
pub open spec fn ssl_certificate_key_directive() -> DirectiveView {
    directive_in(
        PROXY@,
        "ssl_certificate_key"@,
        ValueKind::PathConfig,
        DirectiveShape::Leaf,
        DuplicatePolicy::Reject,
        CascadePolicy::Nothing,
        TransportPolicy::WorkerLocalOnly,
        ReloadImpact::ListenerSet,
    )
}

/// The directive `ssl_certificate_key`.
pub fn ssl_certificate_key_definition() -> (definition: TypedDirectiveDefinition<PathConfig>)
    ensures
        definition.wf(),
        definition.registered_in() == PROXY@,
        definition.directive() == ssl_certificate_key_directive(),
{
    TypedDirectiveDefinition::single(
        ContextKey(PROXY),
        "ssl_certificate_key",
        DirectiveShape::Leaf,
        DuplicatePolicy::Reject,
        CascadePolicy::Nothing,
        TransportPolicy::WorkerLocalOnly,
        ReloadImpact::ListenerSet,
    )
}

/// What a registry knows of `allow`.
pub open spec fn allow_directive() -> DirectiveView {
    directive_in(
        PROXY@,
        "allow"@,
        ValueKind::StringList,
        DirectiveShape::Leaf,
        DuplicatePolicy::Reject,
        CascadePolicy::Nothing,
        TransportPolicy::WorkerLocalOnly,
        ReloadImpact::ListenerSet,
    )
}

/// The directive `allow`.
pub fn allow_definition() -> (definition: TypedDirectiveDefinition<StringList>)
    ensures
        definition.wf(),
        definition.registered_in() == PROXY@,
        definition.directive() == allow_directive(),
{
    TypedDirectiveDefinition::single(
        ContextKey(PROXY),
        "allow",
        DirectiveShape::Leaf,
        DuplicatePolicy::Reject,
        CascadePolicy::Nothing,
        TransportPolicy::WorkerLocalOnly,
        ReloadImpact::ListenerSet,
    )
}

/// What a registry knows of `deny`.
pub open spec fn deny_directive() -> DirectiveView {
    directive_in(
        PROXY@,
        "deny"@,
        ValueKind::StringList,
        DirectiveShape::Leaf,
        DuplicatePolicy::Reject,
        CascadePolicy::Nothing,
        TransportPolicy::WorkerLocalOnly,
        ReloadImpact::ListenerSet,
    )
}

/// The directive `deny`.
pub fn deny_definition() -> (definition: TypedDirectiveDefinition<StringList>)
    ensures
        definition.wf(),
        definition.registered_in() == PROXY@,
        definition.directive() == deny_directive(),
{
    TypedDirectiveDefinition::single(
        ContextKey(PROXY),
        "deny",
        DirectiveShape::Leaf,
        DuplicatePolicy::Reject,
        CascadePolicy::Nothing,
        TransportPolicy::WorkerLocalOnly,
        ReloadImpact::ListenerSet,
    )
}

/// What a registry knows of `default_type`.
pub open spec fn default_type_directive() -> DirectiveView {
    directive_in(
        PROXY@,
        "default_type"@,
        ValueKind::DefaultType,
        DirectiveShape::Leaf,
        DuplicatePolicy::Reject,
        CascadePolicy::Nothing,
        TransportPolicy::WorkerLocalOnly,
        ReloadImpact::ListenerSet,
    )
}

/// The directive `default_type`.
pub fn default_type_definition() -> (definition: TypedDirectiveDefinition<DefaultType>)
    ensures
        definition.wf(),
        definition.registered_in() == PROXY@,
        definition.directive() == default_type_directive(),
{
    TypedDirectiveDefinition::single(
        ContextKey(PROXY),
        "default_type",
        DirectiveShape::Leaf,
        DuplicatePolicy::Reject,
        CascadePolicy::Nothing,
        TransportPolicy::WorkerLocalOnly,
        ReloadImpact::ListenerSet,
    )
}

/// What a registry knows of `types`.
pub open spec fn types_directive() -> DirectiveView {
    directive_in(
        PROXY@,
        "types"@,
        ValueKind::MimeTypes,
        DirectiveShape::RawBlock,
        DuplicatePolicy::Reject,
        CascadePolicy::Nothing,
        TransportPolicy::WorkerLocalOnly,
        ReloadImpact::ListenerSet,
    )
}

/// The directive `types`.
pub fn types_definition() -> (definition: TypedDirectiveDefinition<MimeTypes>)
    ensures
        definition.wf(),
        definition.registered_in() == PROXY@,
        definition.directive() == types_directive(),
{
    TypedDirectiveDefinition::single(
        ContextKey(PROXY),
        "types",
        DirectiveShape::RawBlock,
        DuplicatePolicy::Reject,
        CascadePolicy::Nothing,
        TransportPolicy::WorkerLocalOnly,
        ReloadImpact::ListenerSet,
    )
}

/// A registry once the directives of this module are entered.
pub open spec fn registered(registry: RegistryView) -> RegistryView {
    registry
        .with_context(PROXY@, Some(ContextFinalizer::Proxy))
        .with_directive(PISHOO@, proxy_block(PISHOO@))
        .with_directive(PROXY@, listen_directive())
        .with_directive(PROXY@, client_name_directive())
        .with_directive(PROXY@, dns_directive())
        .with_directive(PROXY@, ssl_certificate_directive())
        .with_directive(PROXY@, ssl_certificate_key_directive())
        .with_directive(PROXY@, allow_directive())
        .with_directive(PROXY@, deny_directive())
        .with_directive(PROXY@, default_type_directive())
        .with_directive(PROXY@, types_directive())
}

/// Enters the directives of this module.
pub fn register(registry: &mut ConfigRegistry)
    ensures
        final(registry)@ == registered(old(registry)@),
{
    registry.register_context(
        ContextSpec { key: ContextKey(PROXY), finalize: Some(ContextFinalizer::Proxy) },
    );
    registry.register_directive(ContextKey(PISHOO), proxy_spec(ContextKey(PISHOO)));
    listen_definition().register(registry);
    client_name_definition().register(registry);
    dns_definition().register(registry);
    ssl_certificate_definition().register(registry);
    ssl_certificate_key_definition().register(registry);
    allow_definition().register(registry);
    deny_definition().register(registry);
    default_type_definition().register(registry);
    types_definition().register(registry);
}

} // verus!
