//! Directives as they are defined: how they are entered in a registry, and how they are asked for.
use vstd::prelude::*;

use crate::parse::context::ContextKey;
use crate::parse::contract::{
    CascadePolicy, ContextPayloadKey, DirectiveCardinality, DirectiveContract, DirectiveShape,
    DuplicatePolicy, LocalDirectiveKey, PayloadMode, ReloadImpact, RepeatedDirectiveKey,
    TransportPolicy,
};
use crate::parse::domain::DirectiveName;
use crate::parse::registry::{
    context_texts, is_contract_of, ConfigRegistry, DirectiveParser, DirectiveSpec, DirectiveView,
};
use crate::parse::value::{ConfigValue, ValueKind};

verus! {

/// What a registry knows of a directive that stands in one context and is read as a value of it.
pub open spec fn directive_in(
    context: Seq<char>,
    name: Seq<char>,
    kind: ValueKind,
    shape: DirectiveShape,
    duplicate: DuplicatePolicy,
    cascade: CascadePolicy,
    transport: TransportPolicy,
    reload: ReloadImpact,
) -> DirectiveView {
    DirectiveView {
        name,
        allowed_in: seq![context],
        shape,
        parser: DirectiveParser::Slot(kind),
        duplicate,
        cascade,
        transport,
        reload,
    }
}

/// A directive whose values are of type `T`.
#[derive(Debug)]
pub struct TypedDirectiveDefinition<T> {
    registration_context: ContextKey,
    contract_context: ContextKey,
    name: &'static str,
    shape: DirectiveShape,
    cardinality: DirectiveCardinality,
    duplicate: DuplicatePolicy,
    cascade: CascadePolicy,
    transport: TransportPolicy,
    reload: ReloadImpact,
    value: core::marker::PhantomData<T>,
}

impl<T> Clone for TypedDirectiveDefinition<T> {
    fn clone(&self) -> (copy: Self)
        ensures
            copy == *self,
    {
        *self
    }
}

impl<T> Copy for TypedDirectiveDefinition<T> {

}

impl<T: ConfigValue> TypedDirectiveDefinition<T> {
    /// The context that the directive stands in.
    pub closed spec fn registered_in(self) -> Seq<char> {
        self.registration_context.text()
    }

    /// What a registry then knows of the directive.
    pub closed spec fn directive(self) -> DirectiveView {
        DirectiveView {
            name: self.name@,
            allowed_in: seq![self.registration_context.text()],
            shape: self.shape,
            parser: match self.shape {
                DirectiveShape::ContextBlock { .. } => DirectiveParser::Payload(T::kind()),
                _ => DirectiveParser::Slot(T::kind()),
            },
            duplicate: self.duplicate,
            cascade: self.cascade,
            transport: self.transport,
            reload: self.reload,
        }
    }

    /// Whether the definition is consistent.
    pub closed spec fn wf(self) -> bool {
        &&& self.contract_context.text() == self.directive().contract_context(
            self.registration_context.text(),
        )
        &&& self.cardinality == self.directive().cardinality()
        &&& self.shape matches DirectiveShape::ContextBlock { payload, .. } ==> payload
            == PayloadMode::Parser
    }

    /// A directive that stands in a block at most once.
    pub fn single(
        context: ContextKey,
        name: &'static str,
        shape: DirectiveShape,
        duplicate: DuplicatePolicy,
        cascade: CascadePolicy,
        transport: TransportPolicy,
        reload: ReloadImpact,
    ) -> (definition: Self)
        requires
            !(shape is ContextBlock),
            duplicate != DuplicatePolicy::Append,
        ensures
            definition.wf(),
            definition.registered_in() == context.text(),
            definition.directive() == (DirectiveView {
                name: name@,
                allowed_in: seq![context.text()],
                shape,
                parser: DirectiveParser::Slot(T::kind()),
                duplicate,
                cascade,
                transport,
                reload,
            }),
    {
        TypedDirectiveDefinition {
            registration_context: context,
            contract_context: context,
            name,
            shape,
            cardinality: DirectiveCardinality::Single,
            duplicate,
            cascade,
            transport,
            reload,
            value: core::marker::PhantomData,
        }
    }

    /// A directive that may stand in a block several times.
    pub fn repeated(
        context: ContextKey,
        name: &'static str,
        shape: DirectiveShape,
        cascade: CascadePolicy,
        transport: TransportPolicy,
        reload: ReloadImpact,
    ) -> (definition: Self)
        requires
            !(shape is ContextBlock),
        ensures
            definition.wf(),
            definition.registered_in() == context.text(),
            definition.directive() == (DirectiveView {
                name: name@,
                allowed_in: seq![context.text()],
                shape,
                parser: DirectiveParser::Slot(T::kind()),
                duplicate: DuplicatePolicy::Append,
                cascade,
                transport,
                reload,
            }),
    {
        TypedDirectiveDefinition {
            registration_context: context,
            contract_context: context,
            name,
            shape,
            cardinality: DirectiveCardinality::Repeated,
            duplicate: DuplicatePolicy::Append,
            cascade,
            transport,
            reload,
            value: core::marker::PhantomData,
        }
    }

    /// A directive that opens a block and whose arguments are the value.
    pub fn payload(
        registration_context: ContextKey,
        child_context: ContextKey,
        name: &'static str,
        duplicate: DuplicatePolicy,
        cascade: CascadePolicy,
        transport: TransportPolicy,
        reload: ReloadImpact,
    ) -> (definition: Self)
        ensures
            definition.wf(),
            definition.registered_in() == registration_context.text(),
            definition.directive() == (DirectiveView {
                name: name@,
                allowed_in: seq![registration_context.text()],
                shape: DirectiveShape::ContextBlock { child_context, payload: PayloadMode::Parser },
                parser: DirectiveParser::Payload(T::kind()),
                duplicate,
                cascade,
                transport,
                reload,
            }),
    {
        TypedDirectiveDefinition {
            registration_context,
            contract_context: child_context,
            name,
            shape: DirectiveShape::ContextBlock { child_context, payload: PayloadMode::Parser },
            cardinality: DirectiveCardinality::ContextPayload,
            duplicate,
            cascade,
            transport,
            reload,
            value: core::marker::PhantomData,
        }
    }

    /// What a registry is told of the directive.
    pub fn spec(&self) -> (spec: DirectiveSpec)
        requires
            self.wf(),
        ensures
            spec@ == self.directive(),
    {
        let mut allowed: Vec<ContextKey> = Vec::new();
        allowed.push(self.registration_context);
        assert(context_texts(allowed@) =~= seq![self.registration_context.text()]);
        match self.shape {
            DirectiveShape::Leaf => DirectiveSpec::leaf_value::<T>(
                self.name,
                allowed,
                self.duplicate,
                self.cascade,
                self.transport,
                self.reload,
            ),
            DirectiveShape::RawBlock => DirectiveSpec::raw_value::<T>(
                self.name,
                allowed,
                self.duplicate,
                self.cascade,
                self.transport,
                self.reload,
            ),
            DirectiveShape::ContextBlock { child_context, .. } => DirectiveSpec::context_payload::<
                T,
            >(
                self.name,
                allowed,
                child_context,
                self.duplicate,
                self.cascade,
                self.transport,
                self.reload,
            ),
        }
    }

    /// Enters the directive in a registry.
    pub fn register(&self, registry: &mut ConfigRegistry)
        requires
            self.wf(),
        ensures
            final(registry)@ == old(registry)@.with_directive(
                self.registered_in(),
                self.directive(),
            ),
    {
        registry.register_directive(self.registration_context, self.spec());
    }

    /// What those who ask for the directive expect of it: what it is entered with.
    pub fn contract(&self) -> (contract: DirectiveContract)
        requires
            self.wf(),
        ensures
            is_contract_of(self.directive(), self.registered_in(), contract),
    {
        DirectiveContract {
            context: self.contract_context,
            name: DirectiveName::new(self.name),
            value_type: Some(T::type_kind()),
            cardinality: self.cardinality,
            shape: self.shape,
            duplicate: self.duplicate,
            cascade: self.cascade,
        }
    }

    /// Asks for the one value of the directive.
    pub fn local_key(&self) -> (key: LocalDirectiveKey<T>)
        requires
            self.wf(),
        ensures
            is_contract_of(self.directive(), self.registered_in(), key.expects()),
    {
        LocalDirectiveKey::new(self.contract())
    }

    /// Asks for all values of the directive.
    pub fn repeated_key(&self) -> (key: RepeatedDirectiveKey<T>)
        requires
            self.wf(),
        ensures
            is_contract_of(self.directive(), self.registered_in(), key.expects()),
    {
        RepeatedDirectiveKey::new(self.contract())
    }

    /// Asks for what the arguments of the block say.
    pub fn payload_key(&self) -> (key: ContextPayloadKey<T>)
        requires
            self.wf(),
        ensures
            is_contract_of(self.directive(), self.registered_in(), key.expects()),
    {
        ContextPayloadKey::new(self.contract())
    }
}

} // verus!
