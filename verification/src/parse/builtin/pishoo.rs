//! The directives of `pishoo` blocks.
use vstd::prelude::*;

use crate::parse::context::{ContextKey, PISHOO, ROOT};
use crate::parse::contract::{
    CascadePolicy, DirectiveShape, DuplicatePolicy, PayloadMode, ReloadImpact, TransportPolicy,
};
use crate::parse::definition::{directive_in, TypedDirectiveDefinition};
use crate::parse::domain::ResolvedConfigPath;
use crate::parse::registry::{
    context_texts, ConfigRegistry, ContextSpec, DirectiveParser, DirectiveSpec, DirectiveView,
    RegistryView,
};
use crate::parse::types::StringList;
use crate::parse::value::ValueKind;
use crate::parse::schema::with_v1_directives;

verus! {

/// What a registry knows of `pishoo` in the given context.
pub open spec fn pishoo_block(parent: Seq<char>) -> DirectiveView {
    DirectiveView {
        name: "pishoo"@,
        allowed_in: seq![parent],
        shape: DirectiveShape::ContextBlock {
            child_context: ContextKey(PISHOO),
            payload: PayloadMode::Nothing,
        },
        parser: DirectiveParser::Empty,
        duplicate: DuplicatePolicy::Append,
        cascade: CascadePolicy::Nothing,
        transport: TransportPolicy::WorkerLocalOnly,
        reload: ReloadImpact::Supervisor,
    }
}

fn pishoo_spec(parent: ContextKey) -> (spec: DirectiveSpec)
    ensures
        spec@ == pishoo_block(parent.text()),
{
    let mut allowed: Vec<ContextKey> = Vec::new();
    allowed.push(parent);
    assert(context_texts(allowed@) =~= seq![parent.text()]);
    DirectiveSpec::context_empty(
        "pishoo",
        allowed,
        ContextKey(PISHOO),
        DuplicatePolicy::Append,
        CascadePolicy::Nothing,
        TransportPolicy::WorkerLocalOnly,
        ReloadImpact::Supervisor,
    )
}

/// What a registry knows of `pid`.
pub open spec fn pid_directive() -> DirectiveView {
    directive_in(
        PISHOO@,
        "pid"@,
        ValueKind::ResolvedConfigPath,
        DirectiveShape::Leaf,
        DuplicatePolicy::Reject,
        CascadePolicy::Nothing,
        TransportPolicy::HypervisorOnly,
        ReloadImpact::Supervisor,
    )
}

/// The directive `pid`.
pub fn pid_definition() -> (definition: TypedDirectiveDefinition<ResolvedConfigPath>)
    ensures
        definition.wf(),
        definition.registered_in() == PISHOO@,
        definition.directive() == pid_directive(),
{
    TypedDirectiveDefinition::single(
        ContextKey(PISHOO),
        "pid",
        DirectiveShape::Leaf,
        DuplicatePolicy::Reject,
        CascadePolicy::Nothing,
        TransportPolicy::HypervisorOnly,
        ReloadImpact::Supervisor,
    )
}

/// What a registry knows of `workers`.
pub open spec fn workers_directive() -> DirectiveView {
    directive_in(
        PISHOO@,
        "workers"@,
        ValueKind::StringList,
        DirectiveShape::Leaf,
        DuplicatePolicy::Reject,
        CascadePolicy::Nothing,
        TransportPolicy::HypervisorOnly,
        ReloadImpact::Supervisor,
    )
}

/// The directive `workers`.
pub fn workers_definition() -> (definition: TypedDirectiveDefinition<StringList>)
    ensures
        definition.wf(),
        definition.registered_in() == PISHOO@,
        definition.directive() == workers_directive(),
{
    TypedDirectiveDefinition::single(
        ContextKey(PISHOO),
        "workers",
        DirectiveShape::Leaf,
        DuplicatePolicy::Reject,
        CascadePolicy::Nothing,
        TransportPolicy::HypervisorOnly,
        ReloadImpact::Supervisor,
    )
}

/// What a registry knows of `groups`.
pub open spec fn groups_directive() -> DirectiveView {
    directive_in(
        PISHOO@,
        "groups"@,
        ValueKind::StringList,
        DirectiveShape::Leaf,
        DuplicatePolicy::Reject,
        CascadePolicy::Nothing,
        TransportPolicy::HypervisorOnly,
        ReloadImpact::Supervisor,
    )
}

/// The directive `groups`.
pub fn groups_definition() -> (definition: TypedDirectiveDefinition<StringList>)
    ensures
        definition.wf(),
        definition.registered_in() == PISHOO@,
        definition.directive() == groups_directive(),
{
    TypedDirectiveDefinition::single(
        ContextKey(PISHOO),
        "groups",
        DirectiveShape::Leaf,
        DuplicatePolicy::Reject,
        CascadePolicy::Nothing,
        TransportPolicy::HypervisorOnly,
        ReloadImpact::Supervisor,
    )
}

/// A registry once the directives of this module are entered.
pub open spec fn registered(registry: RegistryView) -> RegistryView {
    with_v1_directives(
        registry
        .with_context(PISHOO@, None)
        .with_directive(ROOT@, pishoo_block(ROOT@))
        .with_directive(PISHOO@, pid_directive())
        .with_directive(PISHOO@, workers_directive())
        .with_directive(PISHOO@, groups_directive())
    )
}

/// Enters the directives of this module.
pub fn register(registry: &mut ConfigRegistry)
    ensures
        final(registry)@ == registered(old(registry)@),
{
    registry.register_context(ContextSpec { key: ContextKey(PISHOO), finalize: None });
    registry.register_directive(ContextKey(ROOT), pishoo_spec(ContextKey(ROOT)));
    pid_definition().register(registry);
    workers_definition().register(registry);
    groups_definition().register(registry);
    registry.register_v1_snapshot_directives();
}

} // verus!
