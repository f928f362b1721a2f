//! The directives of `location` blocks.
use vstd::prelude::*;

use crate::parse::context::{ContextKey, LOCATION, SERVER};
use crate::parse::contract::{
    CascadePolicy, DirectiveShape, DuplicatePolicy, PayloadMode, ReloadImpact, TransportPolicy,
};
use crate::parse::definition::{directive_in, TypedDirectiveDefinition};
use crate::parse::domain::ResolvedConfigPath;
use crate::parse::registry::{
    ConfigRegistry, ContextFinalizer, ContextSpec, DirectiveParser, DirectiveView, RegistryView,
};
use crate::parse::types::{
    BoolConfig, DefaultType, GzipCompLevel, GzipMinLength, HeaderRules, MimeTypes, ProxyPass,
    SshLoginMethods, SshSslUsers, StringList,
};
use crate::parse::value::ValueKind;
use crate::parse::pattern::Pattern;

verus! {

/// What a registry knows of `location`.
pub open spec fn location_block() -> DirectiveView {
    DirectiveView {
        name: "location"@,
        allowed_in: seq![SERVER@],
        shape: DirectiveShape::ContextBlock {
            child_context: ContextKey(LOCATION),
            payload: PayloadMode::Parser,
        },
        parser: DirectiveParser::Payload(ValueKind::Pattern),
        duplicate: DuplicatePolicy::Append,
        cascade: CascadePolicy::Nothing,
        transport: TransportPolicy::WorkerLocalOnly,
        reload: ReloadImpact::RuntimeState,
    }
}

/// The directive `location`.
pub fn location_definition() -> (definition: TypedDirectiveDefinition<Pattern>)
    ensures
        definition.wf(),
        definition.registered_in() == SERVER@,
        definition.directive() == location_block(),
{
    TypedDirectiveDefinition::payload(
        ContextKey(SERVER),
        ContextKey(LOCATION),
        "location",
        DuplicatePolicy::Append,
        CascadePolicy::Nothing,
        TransportPolicy::WorkerLocalOnly,
        ReloadImpact::RuntimeState,
    )
}

/// What a registry knows of `root`.
pub open spec fn root_directive() -> DirectiveView {
    directive_in(
        LOCATION@,
        "root"@,
        ValueKind::ResolvedConfigPath,
        DirectiveShape::Leaf,
        DuplicatePolicy::Reject,
        CascadePolicy::NearestWins,
        TransportPolicy::WorkerLocalOnly,
        ReloadImpact::RuntimeState,
    )
}

/// The directive `root`.
pub fn root_definition() -> (definition: TypedDirectiveDefinition<ResolvedConfigPath>)
    ensures
        definition.wf(),
        definition.registered_in() == LOCATION@,
        definition.directive() == root_directive(),
{
    TypedDirectiveDefinition::single(
        ContextKey(LOCATION),
        "root",
        DirectiveShape::Leaf,
        DuplicatePolicy::Reject,
        CascadePolicy::NearestWins,
        TransportPolicy::WorkerLocalOnly,
        ReloadImpact::RuntimeState,
    )
}

/// What a registry knows of `alias`.
pub open spec fn alias_directive() -> DirectiveView {
    directive_in(
        LOCATION@,
        "alias"@,
        ValueKind::ResolvedConfigPath,
        DirectiveShape::Leaf,
        DuplicatePolicy::Reject,
        CascadePolicy::NearestWins,
        TransportPolicy::WorkerLocalOnly,
        ReloadImpact::RuntimeState,
    )
}

/// The directive `alias`.
pub fn alias_definition() -> (definition: TypedDirectiveDefinition<ResolvedConfigPath>)
    ensures
        definition.wf(),
        definition.registered_in() == LOCATION@,
        definition.directive() == alias_directive(),
{
    TypedDirectiveDefinition::single(
        ContextKey(LOCATION),
        "alias",
        DirectiveShape::Leaf,
        DuplicatePolicy::Reject,
        CascadePolicy::NearestWins,
        TransportPolicy::WorkerLocalOnly,
        ReloadImpact::RuntimeState,
    )
}

/// What a registry knows of `gzip`.
pub open spec fn gzip_directive() -> DirectiveView {
    directive_in(
        LOCATION@,
        "gzip"@,
        ValueKind::BoolConfig,
        DirectiveShape::Leaf,
        DuplicatePolicy::Reject,
        CascadePolicy::NearestWins,
        TransportPolicy::WorkerLocalOnly,
        ReloadImpact::RuntimeState,
    )
}

/// The directive `gzip`.
pub fn gzip_definition() -> (definition: TypedDirectiveDefinition<BoolConfig>)
    ensures
        definition.wf(),
        definition.registered_in() == LOCATION@,
        definition.directive() == gzip_directive(),
{
    TypedDirectiveDefinition::single(
        ContextKey(LOCATION),
        "gzip",
        DirectiveShape::Leaf,
        DuplicatePolicy::Reject,
        CascadePolicy::NearestWins,
        TransportPolicy::WorkerLocalOnly,
        ReloadImpact::RuntimeState,
    )
}

/// What a registry knows of `gzip_vary`.
pub open spec fn gzip_vary_directive() -> DirectiveView {
    directive_in(
        LOCATION@,
        "gzip_vary"@,
        ValueKind::BoolConfig,
        DirectiveShape::Leaf,
        DuplicatePolicy::Reject,
        CascadePolicy::NearestWins,
        TransportPolicy::WorkerLocalOnly,
        ReloadImpact::RuntimeState,
    )
}

/// The directive `gzip_vary`.
pub fn gzip_vary_definition() -> (definition: TypedDirectiveDefinition<BoolConfig>)
    ensures
        definition.wf(),
        definition.registered_in() == LOCATION@,
        definition.directive() == gzip_vary_directive(),
{
    TypedDirectiveDefinition::single(
        ContextKey(LOCATION),
        "gzip_vary",
        DirectiveShape::Leaf,
        DuplicatePolicy::Reject,
        CascadePolicy::NearestWins,
        TransportPolicy::WorkerLocalOnly,
        ReloadImpact::RuntimeState,
    )
}

/// What a registry knows of `gzip_min_length`.
pub open spec fn gzip_min_length_directive() -> DirectiveView {
    directive_in(
        LOCATION@,
        "gzip_min_length"@,
        ValueKind::GzipMinLength,
        DirectiveShape::Leaf,
        DuplicatePolicy::Reject,
        CascadePolicy::NearestWins,
        TransportPolicy::WorkerLocalOnly,
        ReloadImpact::RuntimeState,
    )
}

/// The directive `gzip_min_length`.
pub fn gzip_min_length_definition() -> (definition: TypedDirectiveDefinition<GzipMinLength>)
    ensures
        definition.wf(),
        definition.registered_in() == LOCATION@,
        definition.directive() == gzip_min_length_directive(),
{
    TypedDirectiveDefinition::single(
        ContextKey(LOCATION),
        "gzip_min_length",
        DirectiveShape::Leaf,
        DuplicatePolicy::Reject,
        CascadePolicy::NearestWins,
        TransportPolicy::WorkerLocalOnly,
        ReloadImpact::RuntimeState,
    )
}

/// What a registry knows of `gzip_comp_level`.
pub open spec fn gzip_comp_level_directive() -> DirectiveView {
    directive_in(
        LOCATION@,
        "gzip_comp_level"@,
        ValueKind::GzipCompLevel,
        DirectiveShape::Leaf,
        DuplicatePolicy::Reject,
        CascadePolicy::NearestWins,
        TransportPolicy::WorkerLocalOnly,
        ReloadImpact::RuntimeState,
    )
}

/// The directive `gzip_comp_level`.
pub fn gzip_comp_level_definition() -> (definition: TypedDirectiveDefinition<GzipCompLevel>)
    ensures
        definition.wf(),
        definition.registered_in() == LOCATION@,
        definition.directive() == gzip_comp_level_directive(),
{
    TypedDirectiveDefinition::single(
        ContextKey(LOCATION),
        "gzip_comp_level",
        DirectiveShape::Leaf,
        DuplicatePolicy::Reject,
        CascadePolicy::NearestWins,
        TransportPolicy::WorkerLocalOnly,
        ReloadImpact::RuntimeState,
    )
}

/// What a registry knows of `gzip_types`.
pub open spec fn gzip_types_directive() -> DirectiveView {
    directive_in(
        LOCATION@,
        "gzip_types"@,
        ValueKind::StringList,
        DirectiveShape::Leaf,
        DuplicatePolicy::Reject,
        CascadePolicy::NearestWins,
        TransportPolicy::WorkerLocalOnly,
        ReloadImpact::RuntimeState,
    )
}

/// The directive `gzip_types`.
pub fn gzip_types_definition() -> (definition: TypedDirectiveDefinition<StringList>)
    ensures
        definition.wf(),
        definition.registered_in() == LOCATION@,
        definition.directive() == gzip_types_directive(),
{
    TypedDirectiveDefinition::single(
        ContextKey(LOCATION),
        "gzip_types",
        DirectiveShape::Leaf,
        DuplicatePolicy::Reject,
        CascadePolicy::NearestWins,
        TransportPolicy::WorkerLocalOnly,
        ReloadImpact::RuntimeState,
    )
}

/// What a registry knows of `index`.
pub open spec fn index_directive() -> DirectiveView {
    directive_in(
        LOCATION@,
        "index"@,
        ValueKind::StringList,
        DirectiveShape::Leaf,
        DuplicatePolicy::Reject,
        CascadePolicy::NearestWins,
        TransportPolicy::WorkerLocalOnly,
        ReloadImpact::RuntimeState,
    )
}

/// The directive `index`.
pub fn index_definition() -> (definition: TypedDirectiveDefinition<StringList>)
    ensures
        definition.wf(),
        definition.registered_in() == LOCATION@,
        definition.directive() == index_directive(),
{
    TypedDirectiveDefinition::single(
        ContextKey(LOCATION),
        "index",
        DirectiveShape::Leaf,
        DuplicatePolicy::Reject,
        CascadePolicy::NearestWins,
        TransportPolicy::WorkerLocalOnly,
        ReloadImpact::RuntimeState,
    )
}

/// What a registry knows of `add_header`.
pub open spec fn add_header_directive() -> DirectiveView {
    directive_in(
        LOCATION@,
        "add_header"@,
        ValueKind::HeaderRules,
        DirectiveShape::Leaf,
        DuplicatePolicy::Append,
        CascadePolicy::NearestWins,
        TransportPolicy::WorkerLocalOnly,
        ReloadImpact::RuntimeState,
    )
}

/// The directive `add_header`.
pub fn add_header_definition() -> (definition: TypedDirectiveDefinition<HeaderRules>)
    ensures
        definition.wf(),
        definition.registered_in() == LOCATION@,
        definition.directive() == add_header_directive(),
{
    TypedDirectiveDefinition::repeated(
        ContextKey(LOCATION),
        "add_header",
        DirectiveShape::Leaf,
        CascadePolicy::NearestWins,
        TransportPolicy::WorkerLocalOnly,
        ReloadImpact::RuntimeState,
    )
}

/// What a registry knows of `proxy_set_header`.
pub open spec fn proxy_set_header_directive() -> DirectiveView {
    directive_in(
        LOCATION@,
        "proxy_set_header"@,
        ValueKind::HeaderRules,
        DirectiveShape::Leaf,
        DuplicatePolicy::Append,
        CascadePolicy::NearestWins,
        TransportPolicy::WorkerLocalOnly,
        ReloadImpact::RuntimeState,
    )
}

/// The directive `proxy_set_header`.
pub fn proxy_set_header_definition() -> (definition: TypedDirectiveDefinition<HeaderRules>)
    ensures
        definition.wf(),
        definition.registered_in() == LOCATION@,
        definition.directive() == proxy_set_header_directive(),
{
    TypedDirectiveDefinition::repeated(
        ContextKey(LOCATION),
        "proxy_set_header",
        DirectiveShape::Leaf,
        CascadePolicy::NearestWins,
        TransportPolicy::WorkerLocalOnly,
        ReloadImpact::RuntimeState,
    )
}

/// What a registry knows of `proxy_pass`.
pub open spec fn proxy_pass_directive() -> DirectiveView {
    directive_in(
        LOCATION@,
        "proxy_pass"@,
        ValueKind::ProxyPass,
        DirectiveShape::Leaf,
        DuplicatePolicy::Reject,
        CascadePolicy::NearestWins,
        TransportPolicy::WorkerLocalOnly,
        ReloadImpact::RuntimeState,
    )
}

/// The directive `proxy_pass`.
pub fn proxy_pass_definition() -> (definition: TypedDirectiveDefinition<ProxyPass>)
    ensures
        definition.wf(),
        definition.registered_in() == LOCATION@,
        definition.directive() == proxy_pass_directive(),
{
    TypedDirectiveDefinition::single(
        ContextKey(LOCATION),
        "proxy_pass",
        DirectiveShape::Leaf,
        DuplicatePolicy::Reject,
        CascadePolicy::NearestWins,
        TransportPolicy::WorkerLocalOnly,
        ReloadImpact::RuntimeState,
    )
}

/// What a registry knows of `proxy_ssl_certificate`.
pub open spec fn proxy_ssl_certificate_directive() -> DirectiveView {
    directive_in(
        LOCATION@,
        "proxy_ssl_certificate"@,
        ValueKind::ResolvedConfigPath,
        DirectiveShape::Leaf,
        DuplicatePolicy::Reject,
        CascadePolicy::NearestWins,
        TransportPolicy::WorkerLocalOnly,
        ReloadImpact::RuntimeState,
    )
}

/// The directive `proxy_ssl_certificate`.
pub fn proxy_ssl_certificate_definition() -> (definition: TypedDirectiveDefinition<ResolvedConfigPath>)
    ensures
        definition.wf(),
        definition.registered_in() == LOCATION@,
        definition.directive() == proxy_ssl_certificate_directive(),
{
    TypedDirectiveDefinition::single(
        ContextKey(LOCATION),
        "proxy_ssl_certificate",
        DirectiveShape::Leaf,
        DuplicatePolicy::Reject,
        CascadePolicy::NearestWins,
        TransportPolicy::WorkerLocalOnly,
        ReloadImpact::RuntimeState,
    )
}

/// What a registry knows of `proxy_ssl_certificate_key`.
pub open spec fn proxy_ssl_certificate_key_directive() -> DirectiveView {
    directive_in(
        LOCATION@,
        "proxy_ssl_certificate_key"@,
        ValueKind::ResolvedConfigPath,
        DirectiveShape::Leaf,
        DuplicatePolicy::Reject,
        CascadePolicy::NearestWins,
        TransportPolicy::WorkerLocalOnly,
        ReloadImpact::RuntimeState,
    )
}

/// The directive `proxy_ssl_certificate_key`.
pub fn proxy_ssl_certificate_key_definition() -> (definition: TypedDirectiveDefinition<ResolvedConfigPath>)
    ensures
        definition.wf(),
        definition.registered_in() == LOCATION@,
        definition.directive() == proxy_ssl_certificate_key_directive(),
{
    TypedDirectiveDefinition::single(
        ContextKey(LOCATION),
        "proxy_ssl_certificate_key",
        DirectiveShape::Leaf,
        DuplicatePolicy::Reject,
        CascadePolicy::NearestWins,
        TransportPolicy::WorkerLocalOnly,
        ReloadImpact::RuntimeState,
    )
}

/// What a registry knows of `proxy_ssl_trusted_certificate`.
pub open spec fn proxy_ssl_trusted_certificate_directive() -> DirectiveView {
    directive_in(
        LOCATION@,
        "proxy_ssl_trusted_certificate"@,
        ValueKind::ResolvedConfigPath,
        DirectiveShape::Leaf,
        DuplicatePolicy::Reject,
        CascadePolicy::NearestWins,
        TransportPolicy::WorkerLocalOnly,
        ReloadImpact::RuntimeState,
    )
}

/// The directive `proxy_ssl_trusted_certificate`.
pub fn proxy_ssl_trusted_certificate_definition() -> (definition: TypedDirectiveDefinition<ResolvedConfigPath>)
    ensures
        definition.wf(),
        definition.registered_in() == LOCATION@,
        definition.directive() == proxy_ssl_trusted_certificate_directive(),
{
    TypedDirectiveDefinition::single(
        ContextKey(LOCATION),
        "proxy_ssl_trusted_certificate",
        DirectiveShape::Leaf,
        DuplicatePolicy::Reject,
        CascadePolicy::NearestWins,
        TransportPolicy::WorkerLocalOnly,
        ReloadImpact::RuntimeState,
    )
}

/// What a registry knows of `ssh_login`.
pub open spec fn ssh_login_directive() -> DirectiveView {
    directive_in(
        LOCATION@,
        "ssh_login"@,
        ValueKind::SshLoginMethods,
        DirectiveShape::Leaf,
        DuplicatePolicy::Reject,
        CascadePolicy::NearestWins,
        TransportPolicy::WorkerLocalOnly,
        ReloadImpact::RuntimeState,
    )
}

/// The directive `ssh_login`.
pub fn ssh_login_definition() -> (definition: TypedDirectiveDefinition<SshLoginMethods>)
    ensures
        definition.wf(),
        definition.registered_in() == LOCATION@,
        definition.directive() == ssh_login_directive(),
{
    TypedDirectiveDefinition::single(
        ContextKey(LOCATION),
        "ssh_login",
        DirectiveShape::Leaf,
        DuplicatePolicy::Reject,
        CascadePolicy::NearestWins,
        TransportPolicy::WorkerLocalOnly,
        ReloadImpact::RuntimeState,
    )
}

/// What a registry knows of `ssh_ssl_user`.
pub open spec fn ssh_ssl_user_directive() -> DirectiveView {
    directive_in(
        LOCATION@,
        "ssh_ssl_user"@,
        ValueKind::SshSslUsers,
        DirectiveShape::Leaf,
        DuplicatePolicy::Append,
        CascadePolicy::NearestWins,
        TransportPolicy::WorkerLocalOnly,
        ReloadImpact::RuntimeState,
    )
}

/// The directive `ssh_ssl_user`.
pub fn ssh_ssl_user_definition() -> (definition: TypedDirectiveDefinition<SshSslUsers>)
    ensures
        definition.wf(),
        definition.registered_in() == LOCATION@,
        definition.directive() == ssh_ssl_user_directive(),
{
    TypedDirectiveDefinition::repeated(
        ContextKey(LOCATION),
        "ssh_ssl_user",
        DirectiveShape::Leaf,
        CascadePolicy::NearestWins,
        TransportPolicy::WorkerLocalOnly,
        ReloadImpact::RuntimeState,
    )
}

/// What a registry knows of `ssh_deny`.
pub open spec fn ssh_deny_directive() -> DirectiveView {
    directive_in(
        LOCATION@,
        "ssh_deny"@,
        ValueKind::StringList,
        DirectiveShape::Leaf,
        DuplicatePolicy::Reject,
        CascadePolicy::NearestWins,
        TransportPolicy::WorkerLocalOnly,
        ReloadImpact::RuntimeState,
    )
}

/// The directive `ssh_deny`.
pub fn ssh_deny_definition() -> (definition: TypedDirectiveDefinition<StringList>)
    ensures
        definition.wf(),
        definition.registered_in() == LOCATION@,
        definition.directive() == ssh_deny_directive(),
{
    TypedDirectiveDefinition::single(
        ContextKey(LOCATION),
        "ssh_deny",
        DirectiveShape::Leaf,
        DuplicatePolicy::Reject,
        CascadePolicy::NearestWins,
        TransportPolicy::WorkerLocalOnly,
        ReloadImpact::RuntimeState,
    )
}

/// What a registry knows of `default_type`.
pub open spec fn default_type_directive() -> DirectiveView {
    directive_in(
        LOCATION@,
        "default_type"@,
        ValueKind::DefaultType,
        DirectiveShape::Leaf,
        DuplicatePolicy::Reject,
        CascadePolicy::NearestWins,
        TransportPolicy::WorkerLocalOnly,
        ReloadImpact::RuntimeState,
    )
}

/// The directive `default_type`.
pub fn default_type_definition() -> (definition: TypedDirectiveDefinition<DefaultType>)
    ensures
        definition.wf(),
        definition.registered_in() == LOCATION@,
        definition.directive() == default_type_directive(),
{
    TypedDirectiveDefinition::single(
        ContextKey(LOCATION),
        "default_type",
        DirectiveShape::Leaf,
        DuplicatePolicy::Reject,
        CascadePolicy::NearestWins,
        TransportPolicy::WorkerLocalOnly,
        ReloadImpact::RuntimeState,
    )
}

/// What a registry knows of `types`.
pub open spec fn types_directive() -> DirectiveView {
    directive_in(
        LOCATION@,
        "types"@,
        ValueKind::MimeTypes,
        DirectiveShape::RawBlock,
        DuplicatePolicy::Reject,
        CascadePolicy::ReplaceWhole,
        TransportPolicy::WorkerLocalOnly,
        ReloadImpact::RuntimeState,
    )
}

/// The directive `types`.
pub fn types_definition() -> (definition: TypedDirectiveDefinition<MimeTypes>)
    ensures
        definition.wf(),
        definition.registered_in() == LOCATION@,
        definition.directive() == types_directive(),
{
    TypedDirectiveDefinition::single(
        ContextKey(LOCATION),
        "types",
        DirectiveShape::RawBlock,
        DuplicatePolicy::Reject,
        CascadePolicy::ReplaceWhole,
        TransportPolicy::WorkerLocalOnly,
        ReloadImpact::RuntimeState,
    )
}

/// A registry once the directives of this module are entered.
pub open spec fn registered(registry: RegistryView) -> RegistryView {
    registry
        .with_context(LOCATION@, Some(ContextFinalizer::Location))
        .with_directive(SERVER@, location_block())
        .with_directive(LOCATION@, root_directive())
        .with_directive(LOCATION@, alias_directive())
        .with_directive(LOCATION@, gzip_directive())
        .with_directive(LOCATION@, gzip_vary_directive())
        .with_directive(LOCATION@, gzip_min_length_directive())
        .with_directive(LOCATION@, gzip_comp_level_directive())
        .with_directive(LOCATION@, gzip_types_directive())
        .with_directive(LOCATION@, index_directive())
        .with_directive(LOCATION@, add_header_directive())
        .with_directive(LOCATION@, proxy_set_header_directive())
        .with_directive(LOCATION@, proxy_pass_directive())
        .with_directive(LOCATION@, proxy_ssl_certificate_directive())
        .with_directive(LOCATION@, proxy_ssl_certificate_key_directive())
        .with_directive(LOCATION@, proxy_ssl_trusted_certificate_directive())
        .with_directive(LOCATION@, ssh_login_directive())
        .with_directive(LOCATION@, ssh_ssl_user_directive())
        .with_directive(LOCATION@, ssh_deny_directive())
        .with_directive(LOCATION@, default_type_directive())
        .with_directive(LOCATION@, types_directive())
}

/// Enters the directives of this module.
pub fn register(registry: &mut ConfigRegistry)
    ensures
        final(registry)@ == registered(old(registry)@),
{
    registry.register_context(
        ContextSpec { key: ContextKey(LOCATION), finalize: Some(ContextFinalizer::Location) },
    );
    location_definition().register(registry);
    root_definition().register(registry);
    alias_definition().register(registry);
    gzip_definition().register(registry);
    gzip_vary_definition().register(registry);
    gzip_min_length_definition().register(registry);
    gzip_comp_level_definition().register(registry);
    gzip_types_definition().register(registry);
    index_definition().register(registry);
    add_header_definition().register(registry);
    proxy_set_header_definition().register(registry);
    proxy_pass_definition().register(registry);
    proxy_ssl_certificate_definition().register(registry);
    proxy_ssl_certificate_key_definition().register(registry);
    proxy_ssl_trusted_certificate_definition().register(registry);
    ssh_login_definition().register(registry);
    ssh_ssl_user_definition().register(registry);
    ssh_deny_definition().register(registry);
    default_type_definition().register(registry);
    types_definition().register(registry);
}

} // verus!
