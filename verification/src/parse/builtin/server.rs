//! The directives of `server` blocks.
use vstd::prelude::*;

use crate::parse::context::{ContextKey, PISHOO, ROOT, SERVER};
use crate::parse::contract::{
    CascadePolicy, DirectiveShape, DuplicatePolicy, PayloadMode, ReloadImpact, TransportPolicy,
};
use crate::parse::definition::{directive_in, TypedDirectiveDefinition};
use crate::parse::domain::ResolvedConfigPath;
use crate::parse::registry::{
    context_texts, AttachedFinalizer, ConfigRegistry, ContextFinalizer, ContextSpec,
    DirectiveParser, DirectiveSpec, DirectiveView, RegistryView,
};
use crate::parse::types::{
    AccessRulesUri, BoolConfig, DefaultType, GzipCompLevel, GzipMinLength, ListenConfig, MimeTypes,
    ResolverConfig, ServerNames, StringList,
};
use crate::parse::value::ValueKind;

verus! {

/// What a registry knows of `server` in the given context.
pub open spec fn server_block(parent: Seq<char>) -> DirectiveView {
    DirectiveView {
        name: "server"@,
        allowed_in: seq![parent],
        shape: DirectiveShape::ContextBlock {
            child_context: ContextKey(SERVER),
            payload: PayloadMode::Nothing,
        },
        parser: DirectiveParser::Empty,
        duplicate: DuplicatePolicy::Append,
        cascade: CascadePolicy::Nothing,
        transport: TransportPolicy::HypervisorOnly,
        reload: ReloadImpact::ListenerSet,
    }
}

fn server_spec(parent: ContextKey) -> (spec: DirectiveSpec)
    ensures
        spec@ == server_block(parent.text()),
{
    let mut allowed: Vec<ContextKey> = Vec::new();
    allowed.push(parent);
    assert(context_texts(allowed@) =~= seq![parent.text()]);
    DirectiveSpec::context_empty(
        "server",
        allowed,
        ContextKey(SERVER),
        DuplicatePolicy::Append,
        CascadePolicy::Nothing,
        TransportPolicy::HypervisorOnly,
        ReloadImpact::ListenerSet,
    )
}

/// What a registry knows of `listen`.
pub open spec fn listen_directive() -> DirectiveView {
    directive_in(
        SERVER@,
        "listen"@,
        ValueKind::ListenConfig,
        DirectiveShape::Leaf,
        DuplicatePolicy::Append,
        CascadePolicy::NearestWins,
        TransportPolicy::WorkerLocalOnly,
        ReloadImpact::ListenerSet,
    )
}

/// The directive `listen`.
pub fn listen_definition() -> (definition: TypedDirectiveDefinition<ListenConfig>)
    ensures
        definition.wf(),
        definition.registered_in() == SERVER@,
        definition.directive() == listen_directive(),
{
    TypedDirectiveDefinition::repeated(
        ContextKey(SERVER),
        "listen",
        DirectiveShape::Leaf,
        CascadePolicy::NearestWins,
        TransportPolicy::WorkerLocalOnly,
        ReloadImpact::ListenerSet,
    )
}

/// What a registry knows of `server_name`.
pub open spec fn server_name_directive() -> DirectiveView {
    directive_in(
        SERVER@,
        "server_name"@,
        ValueKind::ServerNames,
        DirectiveShape::Leaf,
        DuplicatePolicy::Reject,
        CascadePolicy::NearestWins,
        TransportPolicy::WorkerLocalOnly,
        ReloadImpact::ListenerSet,
    )
}

/// The directive `server_name`.
pub fn server_name_definition() -> (definition: TypedDirectiveDefinition<ServerNames>)
    ensures
        definition.wf(),
        definition.registered_in() == SERVER@,
        definition.directive() == server_name_directive(),
{
    TypedDirectiveDefinition::single(
        ContextKey(SERVER),
        "server_name",
        DirectiveShape::Leaf,
        DuplicatePolicy::Reject,
        CascadePolicy::NearestWins,
        TransportPolicy::WorkerLocalOnly,
        ReloadImpact::ListenerSet,
    )
}

/// What a registry knows of `dns`.
pub open spec fn dns_directive() -> DirectiveView {
    directive_in(
        SERVER@,
        "dns"@,
        ValueKind::ResolverConfig,
        DirectiveShape::Leaf,
        DuplicatePolicy::Reject,
        CascadePolicy::NearestWins,
        TransportPolicy::WorkerLocalOnly,
        ReloadImpact::ListenerSet,
    )
}

/// The directive `dns`.
pub fn dns_definition() -> (definition: TypedDirectiveDefinition<ResolverConfig>)
    ensures
        definition.wf(),
        definition.registered_in() == SERVER@,
        definition.directive() == dns_directive(),
{
    TypedDirectiveDefinition::single(
        ContextKey(SERVER),
        "dns",
        DirectiveShape::Leaf,
        DuplicatePolicy::Reject,
        CascadePolicy::NearestWins,
        TransportPolicy::WorkerLocalOnly,
        ReloadImpact::ListenerSet,
    )
}

/// What a registry knows of `gzip`.
pub open spec fn gzip_directive() -> DirectiveView {
    directive_in(
        SERVER@,
        "gzip"@,
        ValueKind::BoolConfig,
        DirectiveShape::Leaf,
        DuplicatePolicy::Reject,
        CascadePolicy::NearestWins,
        TransportPolicy::WorkerLocalOnly,
        ReloadImpact::RuntimeState,
    )
}

/// The directive `gzip`.
pub fn gzip_definition() -> (definition: TypedDirectiveDefinition<BoolConfig>)
    ensures
        definition.wf(),
        definition.registered_in() == SERVER@,
        definition.directive() == gzip_directive(),
{
    TypedDirectiveDefinition::single(
        ContextKey(SERVER),
        "gzip",
        DirectiveShape::Leaf,
        DuplicatePolicy::Reject,
        CascadePolicy::NearestWins,
        TransportPolicy::WorkerLocalOnly,
        ReloadImpact::RuntimeState,
    )
}

/// What a registry knows of `gzip_vary`.
pub open spec fn gzip_vary_directive() -> DirectiveView {
    directive_in(
        SERVER@,
        "gzip_vary"@,
        ValueKind::BoolConfig,
        DirectiveShape::Leaf,
        DuplicatePolicy::Reject,
        CascadePolicy::NearestWins,
        TransportPolicy::WorkerLocalOnly,
        ReloadImpact::RuntimeState,
    )
}

/// The directive `gzip_vary`.
pub fn gzip_vary_definition() -> (definition: TypedDirectiveDefinition<BoolConfig>)
    ensures
        definition.wf(),
        definition.registered_in() == SERVER@,
        definition.directive() == gzip_vary_directive(),
{
    TypedDirectiveDefinition::single(
        ContextKey(SERVER),
        "gzip_vary",
        DirectiveShape::Leaf,
        DuplicatePolicy::Reject,
        CascadePolicy::NearestWins,
        TransportPolicy::WorkerLocalOnly,
        ReloadImpact::RuntimeState,
    )
}

/// What a registry knows of `gzip_min_length`.
pub open spec fn gzip_min_length_directive() -> DirectiveView {
    directive_in(
        SERVER@,
        "gzip_min_length"@,
        ValueKind::GzipMinLength,
        DirectiveShape::Leaf,
        DuplicatePolicy::Reject,
        CascadePolicy::NearestWins,
        TransportPolicy::WorkerLocalOnly,
        ReloadImpact::RuntimeState,
    )
}

/// The directive `gzip_min_length`.
pub fn gzip_min_length_definition() -> (definition: TypedDirectiveDefinition<GzipMinLength>)
    ensures
        definition.wf(),
        definition.registered_in() == SERVER@,
        definition.directive() == gzip_min_length_directive(),
{
    TypedDirectiveDefinition::single(
        ContextKey(SERVER),
        "gzip_min_length",
        DirectiveShape::Leaf,
        DuplicatePolicy::Reject,
        CascadePolicy::NearestWins,
        TransportPolicy::WorkerLocalOnly,
        ReloadImpact::RuntimeState,
    )
}

/// What a registry knows of `gzip_comp_level`.
pub open spec fn gzip_comp_level_directive() -> DirectiveView {
    directive_in(
        SERVER@,
        "gzip_comp_level"@,
        ValueKind::GzipCompLevel,
        DirectiveShape::Leaf,
        DuplicatePolicy::Reject,
        CascadePolicy::NearestWins,
        TransportPolicy::WorkerLocalOnly,
        ReloadImpact::RuntimeState,
    )
}

/// The directive `gzip_comp_level`.
pub fn gzip_comp_level_definition() -> (definition: TypedDirectiveDefinition<GzipCompLevel>)
    ensures
        definition.wf(),
        definition.registered_in() == SERVER@,
        definition.directive() == gzip_comp_level_directive(),
{
    TypedDirectiveDefinition::single(
        ContextKey(SERVER),
        "gzip_comp_level",
        DirectiveShape::Leaf,
        DuplicatePolicy::Reject,
        CascadePolicy::NearestWins,
        TransportPolicy::WorkerLocalOnly,
        ReloadImpact::RuntimeState,
    )
}

/// What a registry knows of `gzip_types`.
pub open spec fn gzip_types_directive() -> DirectiveView {
    directive_in(
        SERVER@,
        "gzip_types"@,
        ValueKind::StringList,
        DirectiveShape::Leaf,
        DuplicatePolicy::Reject,
        CascadePolicy::NearestWins,
        TransportPolicy::WorkerLocalOnly,
        ReloadImpact::RuntimeState,
    )
}

/// The directive `gzip_types`.
pub fn gzip_types_definition() -> (definition: TypedDirectiveDefinition<StringList>)
    ensures
        definition.wf(),
        definition.registered_in() == SERVER@,
        definition.directive() == gzip_types_directive(),
{
    TypedDirectiveDefinition::single(
        ContextKey(SERVER),
        "gzip_types",
        DirectiveShape::Leaf,
        DuplicatePolicy::Reject,
        CascadePolicy::NearestWins,
        TransportPolicy::WorkerLocalOnly,
        ReloadImpact::RuntimeState,
    )
}

/// What a registry knows of `ssl_certificate`.
pub open spec fn ssl_certificate_directive() -> DirectiveView {
    directive_in(
        SERVER@,
        "ssl_certificate"@,
        ValueKind::ResolvedConfigPath,
        DirectiveShape::Leaf,
        DuplicatePolicy::Reject,
        CascadePolicy::NearestWins,
        TransportPolicy::WorkerLocalOnly,
        ReloadImpact::ListenerSet,
    )
}

/// The directive `ssl_certificate`.
pub fn ssl_certificate_definition() -> (definition: TypedDirectiveDefinition<ResolvedConfigPath>)
    ensures
        definition.wf(),
        definition.registered_in() == SERVER@,
        definition.directive() == ssl_certificate_directive(),
{
    TypedDirectiveDefinition::single(
        ContextKey(SERVER),
        "ssl_certificate",
        DirectiveShape::Leaf,
        DuplicatePolicy::Reject,
        CascadePolicy::NearestWins,
        TransportPolicy::WorkerLocalOnly,
        ReloadImpact::ListenerSet,
    )
}

/// What a registry knows of `ssl_certificate_key`.
pub open spec fn ssl_certificate_key_directive() -> DirectiveView {
    directive_in(
        SERVER@,
        "ssl_certificate_key"@,
        ValueKind::ResolvedConfigPath,
        DirectiveShape::Leaf,
        DuplicatePolicy::Reject,
        CascadePolicy::NearestWins,
        TransportPolicy::WorkerLocalOnly,
        ReloadImpact::ListenerSet,
    )
}

/// The directive `ssl_certificate_key`.
pub fn ssl_certificate_key_definition() -> (definition: TypedDirectiveDefinition<ResolvedConfigPath>)
    ensures
        definition.wf(),
        definition.registered_in() == SERVER@,
        definition.directive() == ssl_certificate_key_directive(),
{
    TypedDirectiveDefinition::single(
        ContextKey(SERVER),
        "ssl_certificate_key",
        DirectiveShape::Leaf,
        DuplicatePolicy::Reject,
        CascadePolicy::NearestWins,
        TransportPolicy::WorkerLocalOnly,
        ReloadImpact::ListenerSet,
    )
}

/// What a registry knows of `default_type`.
pub open spec fn default_type_directive() -> DirectiveView {
    directive_in(
        SERVER@,
        "default_type"@,
        ValueKind::DefaultType,
        DirectiveShape::Leaf,
        DuplicatePolicy::Reject,
        CascadePolicy::NearestWins,
        TransportPolicy::WorkerLocalOnly,
        ReloadImpact::RuntimeState,
    )
}

/// The directive `default_type`.
pub fn default_type_definition() -> (definition: TypedDirectiveDefinition<DefaultType>)
    ensures
        definition.wf(),
        definition.registered_in() == SERVER@,
        definition.directive() == default_type_directive(),
{
    TypedDirectiveDefinition::single(
        ContextKey(SERVER),
        "default_type",
        DirectiveShape::Leaf,
        DuplicatePolicy::Reject,
        CascadePolicy::NearestWins,
        TransportPolicy::WorkerLocalOnly,
        ReloadImpact::RuntimeState,
    )
}

/// What a registry knows of `access_rules`.
pub open spec fn access_rules_directive() -> DirectiveView {
    directive_in(
        SERVER@,
        "access_rules"@,
        ValueKind::AccessRulesUri,
        DirectiveShape::Leaf,
        DuplicatePolicy::Reject,
        CascadePolicy::NearestWins,
        TransportPolicy::WorkerLocalOnly,
        ReloadImpact::RuntimeState,
    )
}

/// The directive `access_rules`.
pub fn access_rules_definition() -> (definition: TypedDirectiveDefinition<AccessRulesUri>)
    ensures
        definition.wf(),
        definition.registered_in() == SERVER@,
        definition.directive() == access_rules_directive(),
{
    TypedDirectiveDefinition::single(
        ContextKey(SERVER),
        "access_rules",
        DirectiveShape::Leaf,
        DuplicatePolicy::Reject,
        CascadePolicy::NearestWins,
        TransportPolicy::WorkerLocalOnly,
        ReloadImpact::RuntimeState,
    )
}

/// What a registry knows of `relay`.
pub open spec fn relay_directive() -> DirectiveView {
    directive_in(
        SERVER@,
        "relay"@,
        ValueKind::BoolConfig,
        DirectiveShape::Leaf,
        DuplicatePolicy::Reject,
        CascadePolicy::NearestWins,
        TransportPolicy::WorkerLocalOnly,
        ReloadImpact::RuntimeState,
    )
}

/// The directive `relay`.
pub fn relay_definition() -> (definition: TypedDirectiveDefinition<BoolConfig>)
    ensures
        definition.wf(),
        definition.registered_in() == SERVER@,
        definition.directive() == relay_directive(),
{
    TypedDirectiveDefinition::single(
        ContextKey(SERVER),
        "relay",
        DirectiveShape::Leaf,
        DuplicatePolicy::Reject,
        CascadePolicy::NearestWins,
        TransportPolicy::WorkerLocalOnly,
        ReloadImpact::RuntimeState,
    )
}

/// What a registry knows of `stun`.
pub open spec fn stun_directive() -> DirectiveView {
    directive_in(
        SERVER@,
        "stun"@,
        ValueKind::BoolConfig,
        DirectiveShape::Leaf,
        DuplicatePolicy::Reject,
        CascadePolicy::NearestWins,
        TransportPolicy::WorkerLocalOnly,
        ReloadImpact::RuntimeState,
    )
}

/// The directive `stun`.
pub fn stun_definition() -> (definition: TypedDirectiveDefinition<BoolConfig>)
    ensures
        definition.wf(),
        definition.registered_in() == SERVER@,
        definition.directive() == stun_directive(),
{
    TypedDirectiveDefinition::single(
        ContextKey(SERVER),
        "stun",
        DirectiveShape::Leaf,
        DuplicatePolicy::Reject,
        CascadePolicy::NearestWins,
        TransportPolicy::WorkerLocalOnly,
        ReloadImpact::RuntimeState,
    )
}

/// What a registry knows of `types`.
pub open spec fn types_directive() -> DirectiveView {
    directive_in(
        SERVER@,
        "types"@,
        ValueKind::MimeTypes,
        DirectiveShape::RawBlock,
        DuplicatePolicy::Reject,
        CascadePolicy::ReplaceWhole,
        TransportPolicy::WorkerLocalOnly,
        ReloadImpact::RuntimeState,
    )
}

/// The directive `types`.
pub fn types_definition() -> (definition: TypedDirectiveDefinition<MimeTypes>)
    ensures
        definition.wf(),
        definition.registered_in() == SERVER@,
        definition.directive() == types_directive(),
{
    TypedDirectiveDefinition::single(
        ContextKey(SERVER),
        "types",
        DirectiveShape::RawBlock,
        DuplicatePolicy::Reject,
        CascadePolicy::ReplaceWhole,
        TransportPolicy::WorkerLocalOnly,
        ReloadImpact::RuntimeState,
    )
}

/// A registry once the directives of this module are entered.
pub open spec fn registered(registry: RegistryView) -> RegistryView {
    registry
        .with_context(SERVER@, Some(ContextFinalizer::Server))
        .with_attached(SERVER@, AttachedFinalizer::Server)
        .with_directive(ROOT@, server_block(ROOT@))
        .with_directive(PISHOO@, server_block(PISHOO@))
        .with_directive(SERVER@, listen_directive())
        .with_directive(SERVER@, server_name_directive())
        .with_directive(SERVER@, dns_directive())
        .with_directive(SERVER@, gzip_directive())
        .with_directive(SERVER@, gzip_vary_directive())
        .with_directive(SERVER@, gzip_min_length_directive())
        .with_directive(SERVER@, gzip_comp_level_directive())
        .with_directive(SERVER@, gzip_types_directive())
        .with_directive(SERVER@, ssl_certificate_directive())
        .with_directive(SERVER@, ssl_certificate_key_directive())
        .with_directive(SERVER@, default_type_directive())
        .with_directive(SERVER@, access_rules_directive())
        .with_directive(SERVER@, relay_directive())
        .with_directive(SERVER@, stun_directive())
        .with_directive(SERVER@, types_directive())
}

/// Enters the directives of this module.
pub fn register(registry: &mut ConfigRegistry)
    ensures
        final(registry)@ == registered(old(registry)@),
{
    registry.register_context(
        ContextSpec { key: ContextKey(SERVER), finalize: Some(ContextFinalizer::Server) },
    );
    registry.register_attached_finalizer(ContextKey(SERVER), AttachedFinalizer::Server);
    registry.register_directive(ContextKey(ROOT), server_spec(ContextKey(ROOT)));
    registry.register_directive(ContextKey(PISHOO), server_spec(ContextKey(PISHOO)));
    listen_definition().register(registry);
    server_name_definition().register(registry);
    dns_definition().register(registry);
    gzip_definition().register(registry);
    gzip_vary_definition().register(registry);
    gzip_min_length_definition().register(registry);
    gzip_comp_level_definition().register(registry);
    gzip_types_definition().register(registry);
    ssl_certificate_definition().register(registry);
    ssl_certificate_key_definition().register(registry);
    default_type_definition().register(registry);
    access_rules_definition().register(registry);
    relay_definition().register(registry);
    stun_definition().register(registry);
    types_definition().register(registry);
}

} // verus!
