//! The directives that are known, by the context that they stand in.
use vstd::prelude::*;

use crate::mark::new_mark;
use crate::parse::context::ContextKey;
use crate::parse::contract::{
    CascadePolicy, DirectiveCardinality, DirectiveContract, DirectiveShape, DuplicatePolicy,
    PayloadMode, ReloadImpact, TransportPolicy,
};
use crate::parse::domain::DirectiveName;
use crate::parse::value::{ConfigValue, ValueKind};
use crate::table::{
    distinct_keys, has_key, lemma_table, lemma_table_push, lemma_table_update, table,
};
use crate::text::str_eq;

verus! {

/// How the arguments of a directive are read.
#[derive(Debug, Clone, Copy, PartialEq, Eq, Structural)]
pub enum DirectiveParser {
    /// As a value of the block that the directive stands in.
    Slot(ValueKind),
    /// As a value of the block that the directive opens.
    Payload(ValueKind),
    /// Not at all.
    Empty,
}

/// What is known of a directive.
#[derive(Debug)]
pub struct DirectiveSpec {
    pub name: DirectiveName,
    pub allowed_in: Vec<ContextKey>,
    pub shape: DirectiveShape,
    pub parser: DirectiveParser,
    pub duplicate: DuplicatePolicy,
    pub cascade: CascadePolicy,
    pub transport: TransportPolicy,
    pub reload: ReloadImpact,
}

/// What is known of a directive, with names as characters.
#[verifier::ext_equal]
pub struct DirectiveView {
    pub name: Seq<char>,
    pub allowed_in: Seq<Seq<char>>,
    pub shape: DirectiveShape,
    pub parser: DirectiveParser,
    pub duplicate: DuplicatePolicy,
    pub cascade: CascadePolicy,
    pub transport: TransportPolicy,
    pub reload: ReloadImpact,
}

/// The names of contexts.
pub open spec fn context_texts(list: Seq<ContextKey>) -> Seq<Seq<char>> {
    list.map_values(|key: ContextKey| key.text())
}

impl View for DirectiveSpec {
    type V = DirectiveView;

    open spec fn view(&self) -> DirectiveView {
        DirectiveView {
            name: self.name.text(),
            allowed_in: context_texts(self.allowed_in@),
            shape: self.shape,
            parser: self.parser,
            duplicate: self.duplicate,
            cascade: self.cascade,
            transport: self.transport,
            reload: self.reload,
        }
    }
}

/// The kind of the values of a directive, where it has any.
pub open spec fn parser_kind(parser: DirectiveParser) -> Option<ValueKind> {
    match parser {
        DirectiveParser::Slot(kind) => Some(kind),
        DirectiveParser::Payload(kind) => Some(kind),
        DirectiveParser::Empty => None,
    }
}

/// Whether the arguments of a directive are read as its shape asks.
pub open spec fn parser_fits(shape: DirectiveShape, parser: DirectiveParser) -> bool {
    match shape {
        DirectiveShape::ContextBlock { payload: PayloadMode::Nothing, .. } => parser is Empty,
        DirectiveShape::ContextBlock { payload: PayloadMode::Parser, .. } => parser is Payload,
        _ => parser is Slot,
    }
}

impl DirectiveView {
    /// Whether the arguments of the directive are read as its shape asks.
    pub open spec fn fits(self) -> bool {
        parser_fits(self.shape, self.parser)
    }

    /// The context that the contract of the directive is about: the block that it opens, or the
    /// one that it stands in.
    pub open spec fn contract_context(self, registered: Seq<char>) -> Seq<char> {
        match self.shape {
            DirectiveShape::ContextBlock { child_context, .. } => child_context.text(),
            _ => registered,
        }
    }

    /// How many values the directive gives.
    pub open spec fn cardinality(self) -> DirectiveCardinality {
        match self.shape {
            DirectiveShape::ContextBlock { .. } => DirectiveCardinality::ContextPayload,
            _ => if self.duplicate == DuplicatePolicy::Append {
                DirectiveCardinality::Repeated
            } else {
                DirectiveCardinality::Single
            },
        }
    }
}

/// Whether a contract is that of a directive which stands in the given context.
pub open spec fn is_contract_of(
    directive: DirectiveView,
    registered: Seq<char>,
    contract: DirectiveContract,
) -> bool {
    &&& contract.context.text() == directive.contract_context(registered)
    &&& contract.name.text() == directive.name
    &&& contract.value_type == parser_kind(directive.parser)
    &&& contract.cardinality == directive.cardinality()
    &&& contract.shape == directive.shape
    &&& contract.duplicate == directive.duplicate
    &&& contract.cascade == directive.cascade
}

impl DirectiveSpec {
    /// A directive without a block, read as a value of type `T`.
    pub fn leaf_value<T: ConfigValue>(
        name: &'static str,
        allowed_in: Vec<ContextKey>,
        duplicate: DuplicatePolicy,
        cascade: CascadePolicy,
        transport: TransportPolicy,
        reload: ReloadImpact,
    ) -> (spec: Self)
        ensures
            spec@ == (DirectiveView {
                name: name@,
                allowed_in: context_texts(allowed_in@),
                shape: DirectiveShape::Leaf,
                parser: DirectiveParser::Slot(T::kind()),
                duplicate,
                cascade,
                transport,
                reload,
            }),
    {
        DirectiveSpec {
            name: DirectiveName::new(name),
            allowed_in,
            shape: DirectiveShape::Leaf,
            parser: DirectiveParser::Slot(T::type_kind()),
            duplicate,
            cascade,
            transport,
            reload,
        }
    }

    /// A directive whose block is read as a value of type `T`.
    pub fn raw_value<T: ConfigValue>(
        name: &'static str,
        allowed_in: Vec<ContextKey>,
        duplicate: DuplicatePolicy,
        cascade: CascadePolicy,
        transport: TransportPolicy,
        reload: ReloadImpact,
    ) -> (spec: Self)
        ensures
            spec@ == (DirectiveView {
                name: name@,
                allowed_in: context_texts(allowed_in@),
                shape: DirectiveShape::RawBlock,
                parser: DirectiveParser::Slot(T::kind()),
                duplicate,
                cascade,
                transport,
                reload,
            }),
    {
        DirectiveSpec {
            name: DirectiveName::new(name),
            allowed_in,
            shape: DirectiveShape::RawBlock,
            parser: DirectiveParser::Slot(T::type_kind()),
            duplicate,
            cascade,
            transport,
            reload,
        }
    }

    /// A directive that opens a block and has no arguments to read.
    pub fn context_empty(
        name: &'static str,
        allowed_in: Vec<ContextKey>,
        child_context: ContextKey,
        duplicate: DuplicatePolicy,
        cascade: CascadePolicy,
        transport: TransportPolicy,
        reload: ReloadImpact,
    ) -> (spec: Self)
        ensures
            spec@ == (DirectiveView {
                name: name@,
                allowed_in: context_texts(allowed_in@),
                shape: DirectiveShape::ContextBlock {
                    child_context,
                    payload: PayloadMode::Nothing,
                },
                parser: DirectiveParser::Empty,
                duplicate,
                cascade,
                transport,
                reload,
            }),
    {
        DirectiveSpec {
            name: DirectiveName::new(name),
            allowed_in,
            shape: DirectiveShape::ContextBlock { child_context, payload: PayloadMode::Nothing },
            parser: DirectiveParser::Empty,
            duplicate,
            cascade,
            transport,
            reload,
        }
    }

    /// A directive that opens a block and whose arguments are read as a value of type `T`.
    pub fn context_payload<T: ConfigValue>(
        name: &'static str,
        allowed_in: Vec<ContextKey>,
        child_context: ContextKey,
        duplicate: DuplicatePolicy,
        cascade: CascadePolicy,
        transport: TransportPolicy,
        reload: ReloadImpact,
    ) -> (spec: Self)
        ensures
            spec@ == (DirectiveView {
                name: name@,
                allowed_in: context_texts(allowed_in@),
                shape: DirectiveShape::ContextBlock { child_context, payload: PayloadMode::Parser },
                parser: DirectiveParser::Payload(T::kind()),
                duplicate,
                cascade,
                transport,
                reload,
            }),
    {
        DirectiveSpec {
            name: DirectiveName::new(name),
            allowed_in,
            shape: DirectiveShape::ContextBlock { child_context, payload: PayloadMode::Parser },
            parser: DirectiveParser::Payload(T::type_kind()),
            duplicate,
            cascade,
            transport,
            reload,
        }
    }

    /// The kind of the values, where there are any.
    pub fn value_kind(&self) -> (kind: Option<ValueKind>)
        ensures
            kind == parser_kind(self.parser),
    {
        match self.parser {
            DirectiveParser::Slot(kind) => Some(kind),
            DirectiveParser::Payload(kind) => Some(kind),
            DirectiveParser::Empty => None,
        }
    }

    /// The contract of the directive, which stands in the given context.
    pub fn contract(&self, registration_context: ContextKey) -> (contract: DirectiveContract)
        ensures
            is_contract_of(self@, registration_context.text(), contract),
            contract.name == self.name,
    {
        let (context, cardinality) = match self.shape {
            DirectiveShape::Leaf | DirectiveShape::RawBlock => (
                registration_context,
                if self.duplicate == DuplicatePolicy::Append {
                    DirectiveCardinality::Repeated
                } else {
                    DirectiveCardinality::Single
                },
            ),
            DirectiveShape::ContextBlock { child_context, .. } => (
                child_context,
                DirectiveCardinality::ContextPayload,
            ),
        };
        DirectiveContract {
            context,
            name: self.name,
            value_type: self.value_kind(),
            cardinality,
            shape: self.shape,
            duplicate: self.duplicate,
            cascade: self.cascade,
        }
    }
}

/// What is done with a block once all its directives are read.
#[derive(Debug, Clone, Copy, PartialEq, Eq, Structural)]
pub enum ContextFinalizer {
    Server,
    Location,
    Proxy,
}

/// What is done with a block once it has its place in a tree.
#[derive(Debug, Clone, Copy, PartialEq, Eq, Structural)]
pub enum AttachedFinalizer {
    Server,
}

/// What is known of a context.
#[derive(Debug, Clone, Copy)]
pub struct ContextSpec {
    pub key: ContextKey,
    pub finalize: Option<ContextFinalizer>,
}

/// The state of a registry: the mark that it got when it was made, and how often it was changed.
/// Registries with different marks are told apart whatever they know.
#[derive(Debug, Clone, Copy, PartialEq, Eq, Structural)]
pub struct ConfigRegistryContract {
    pub identity: u64,
    pub version: u64,
}

impl ConfigRegistryContract {
    /// The state after one more change.
    pub open spec fn after(self) -> ConfigRegistryContract {
        ConfigRegistryContract {
            identity: self.identity,
            version: if self.version == u64::MAX {
                0
            } else {
                (self.version + 1) as u64
            },
        }
    }

    /// The state after one more change.
    fn next(self) -> (next: Self)
        ensures
            next == self.after(),
    {
        let version: u64 = if self.version == u64::MAX {
            0
        } else {
            self.version + 1
        };
        ConfigRegistryContract { identity: self.identity, version }
    }
}

/// What a registry knows.
#[verifier::ext_equal]
pub struct RegistryView {
    pub contexts: Map<Seq<char>, Option<ContextFinalizer>>,
    pub directives: Map<(Seq<char>, Seq<char>), DirectiveView>,
    pub attached: Map<Seq<char>, AttachedFinalizer>,
    pub contract: ConfigRegistryContract,
}

impl RegistryView {
    /// A registry that knows nothing.
    pub open spec fn empty(identity: u64) -> RegistryView {
        RegistryView {
            contexts: Map::empty(),
            directives: Map::empty(),
            attached: Map::empty(),
            contract: ConfigRegistryContract { identity, version: 0 },
        }
    }

    /// The registry once a context is entered.
    pub open spec fn with_context(
        self,
        key: Seq<char>,
        finalize: Option<ContextFinalizer>,
    ) -> RegistryView {
        RegistryView {
            contexts: self.contexts.insert(key, finalize),
            contract: self.contract.after(),
            ..self
        }
    }

    /// The registry once a directive is entered.
    pub open spec fn with_directive(
        self,
        context: Seq<char>,
        directive: DirectiveView,
    ) -> RegistryView {
        RegistryView {
            directives: self.directives.insert((context, directive.name), directive),
            contract: self.contract.after(),
            ..self
        }
    }

    /// The registry once a step for blocks in a tree is entered.
    pub open spec fn with_attached(
        self,
        context: Seq<char>,
        finalize: AttachedFinalizer,
    ) -> RegistryView {
        RegistryView {
            attached: self.attached.insert(context, finalize),
            contract: self.contract.after(),
            ..self
        }
    }

    /// Whether every directive is known under its own name and reads its arguments as its shape asks.
    pub open spec fn wf(self) -> bool {
        forall|context: Seq<char>, name: Seq<char>| #[trigger]
            self.directive(context, name) matches Some(spec) ==> spec.name == name && spec.fits()
    }

    /// The directive with the given name in a context.
    pub open spec fn directive(self, context: Seq<char>, name: Seq<char>) -> Option<DirectiveView> {
        if self.directives.contains_key((context, name)) {
            Some(self.directives[(context, name)])
        } else {
            None
        }
    }

    /// What is done with a block of the given context once its directives are read.
    pub open spec fn finalizer(self, context: Seq<char>) -> Option<ContextFinalizer> {
        if self.contexts.contains_key(context) {
            self.contexts[context]
        } else {
            None
        }
    }
}

/// The directives that are known, by the context that they stand in. A directive, context or step
/// that is entered anew takes the place of the earlier one.
#[derive(Debug)]
pub struct ConfigRegistry {
    contexts: Vec<ContextSpec>,
    directives: Vec<(ContextKey, DirectiveSpec)>,
    attached: Vec<(ContextKey, AttachedFinalizer)>,
    contract: ConfigRegistryContract,
}

spec fn context_entries(list: Seq<ContextSpec>) -> Seq<(Seq<char>, Option<ContextFinalizer>)> {
    list.map_values(|spec: ContextSpec| (spec.key.text(), spec.finalize))
}

spec fn directive_entries(list: Seq<(ContextKey, DirectiveSpec)>) -> Seq<
    ((Seq<char>, Seq<char>), DirectiveView),
> {
    list.map_values(
        |entry: (ContextKey, DirectiveSpec)|
            ((entry.0.text(), entry.1.name.text()), entry.1@),
    )
}

spec fn attached_entries(list: Seq<(ContextKey, AttachedFinalizer)>) -> Seq<
    (Seq<char>, AttachedFinalizer),
> {
    list.map_values(|entry: (ContextKey, AttachedFinalizer)| (entry.0.text(), entry.1))
}

impl View for ConfigRegistry {
    type V = RegistryView;

    closed spec fn view(&self) -> RegistryView {
        RegistryView {
            contexts: table(context_entries(self.contexts@)),
            directives: table(directive_entries(self.directives@)),
            attached: table(attached_entries(self.attached@)),
            contract: self.contract,
        }
    }
}

/// Whether a list holds the contracts of all directives of a registry and no others.
pub open spec fn is_contract_list(registry: RegistryView, list: Seq<DirectiveContract>) -> bool {
    &&& forall|context: Seq<char>, name: Seq<char>| #[trigger]
        registry.directives.contains_key((context, name)) ==> exists|i: int|
            0 <= i < list.len() && is_contract_of(
                registry.directives[(context, name)],
                context,
                #[trigger] list[i],
            )
    &&& forall|i: int|
        0 <= i < list.len() ==> exists|context: Seq<char>, name: Seq<char>|
            #![trigger registry.directives.contains_key((context, name))]
            registry.directives.contains_key((context, name)) && is_contract_of(
                registry.directives[(context, name)],
                context,
                #[trigger] list[i],
            )
}

impl Default for ConfigRegistry {
    fn default() -> (registry: Self)
        ensures
            registry@ == RegistryView::empty(registry@.contract.identity),
    {
        ConfigRegistry::new()
    }
}

impl ConfigRegistry {
    #[verifier::type_invariant]
    spec fn checked(self) -> bool {
        &&& distinct_keys(context_entries(self.contexts@))
        &&& distinct_keys(directive_entries(self.directives@))
        &&& distinct_keys(attached_entries(self.attached@))
        &&& forall|i: int| 0 <= i < self.directives@.len() ==> (#[trigger] self.directives@[i]).1@.fits()
    }

    /// A registry that knows nothing, with a mark of its own.
    pub fn new() -> (registry: Self)
        ensures
            registry@ == RegistryView::empty(registry@.contract.identity),
    {
        ConfigRegistry::blank(new_mark())
    }

    fn blank(identity: u64) -> (registry: Self)
        ensures
            registry@ == RegistryView::empty(identity),
    {
        let registry = ConfigRegistry {
            contexts: Vec::new(),
            directives: Vec::new(),
            attached: Vec::new(),
            contract: ConfigRegistryContract { identity, version: 0 },
        };
        assert(context_entries(registry.contexts@) =~= seq![]);
        assert(directive_entries(registry.directives@) =~= seq![]);
        assert(attached_entries(registry.attached@) =~= seq![]);
        registry
    }

    fn find_context(&self, key: ContextKey) -> (at: Option<usize>)
        ensures
            match at {
                Some(at) => at < self.contexts@.len() && self.contexts@[at as int].key.text()
                    == key.text(),
                None => !has_key(context_entries(self.contexts@), key.text()),
            },
    {
        let mut i: usize = 0;
        while i < self.contexts.len()
            invariant
                i <= self.contexts@.len(),
                forall|k: int|
                    0 <= k < i ==> (#[trigger] context_entries(self.contexts@)[k]).0 != key.text(),
            decreases self.contexts@.len() - i,
        {
            if self.contexts[i].key.is(key) {
                return Some(i);
            }
            i += 1;
        }
        None
    }

    fn find_directive(&self, context: ContextKey, name: &str) -> (at: Option<usize>)
        ensures
            match at {
                Some(at) => at < self.directives@.len() && self.directives@[at as int].0.text()
                    == context.text() && self.directives@[at as int].1.name.text() == name@,
                None => !has_key(directive_entries(self.directives@), (context.text(), name@)),
            },
    {
        let mut i: usize = 0;
        while i < self.directives.len()
            invariant
                i <= self.directives@.len(),
                forall|k: int|
                    0 <= k < i ==> (#[trigger] directive_entries(self.directives@)[k]).0 != (
                        context.text(),
                        name@,
                    ),
            decreases self.directives@.len() - i,
        {
            let (key, spec) = &self.directives[i];
            if key.is(context) && str_eq(spec.name.as_str(), name) {
                return Some(i);
            }
            i += 1;
        }
        None
    }

    fn find_attached(&self, key: ContextKey) -> (at: Option<usize>)
        ensures
            match at {
                Some(at) => at < self.attached@.len() && self.attached@[at as int].0.text()
                    == key.text(),
                None => !has_key(attached_entries(self.attached@), key.text()),
            },
    {
        let mut i: usize = 0;
        while i < self.attached.len()
            invariant
                i <= self.attached@.len(),
                forall|k: int|
                    0 <= k < i ==> (#[trigger] attached_entries(self.attached@)[k]).0 != key.text(),
            decreases self.attached@.len() - i,
        {
            if self.attached[i].0.is(key) {
                return Some(i);
            }
            i += 1;
        }
        None
    }

    /// Enters a context.
    pub fn register_context(&mut self, spec: ContextSpec)
        ensures
            final(self)@ == old(self)@.with_context(spec.key.text(), spec.finalize),
    {
        proof {
            use_type_invariant(&*self);
        }
        let found = self.find_context(spec.key);
        let ghost before = context_entries(self.contexts@);
        let mut other = ConfigRegistry::blank(self.contract.identity);
        core::mem::swap(self, &mut other);
        let ConfigRegistry { mut contexts, directives, attached, contract } = other;
        match found {
            Some(at) => {
                contexts.set(at, spec);
                proof {
                    assert(context_entries(contexts@) =~= before.update(
                        at as int,
                        (before[at as int].0, spec.finalize),
                    ));
                    lemma_table_update(before, at as int, spec.finalize);
                }
            },
            None => {
                contexts.push(spec);
                proof {
                    assert(context_entries(contexts@) =~= before.push(
                        (spec.key.text(), spec.finalize),
                    ));
                    lemma_table_push(before, spec.key.text(), spec.finalize);
                }
            },
        }
        let contract = contract.next();
        *self = ConfigRegistry { contexts, directives, attached, contract };
    }

    /// Enters a directive.
    pub fn register_directive(&mut self, context: ContextKey, spec: DirectiveSpec)
        requires
            spec@.fits(),
        ensures
            final(self)@ == old(self)@.with_directive(context.text(), spec@),
    {
        proof {
            use_type_invariant(&*self);
        }
        let found = self.find_directive(context, spec.name.as_str());
        let ghost before = directive_entries(self.directives@);
        let ghost key = (context.text(), spec.name.text());
        let ghost entered = spec@;
        let mut other = ConfigRegistry::blank(self.contract.identity);
        core::mem::swap(self, &mut other);
        let ConfigRegistry { contexts, mut directives, attached, contract } = other;
        match found {
            Some(at) => {
                directives.set(at, (context, spec));
                proof {
                    assert(before[at as int].0 == key);
                    assert(directive_entries(directives@) =~= before.update(
                        at as int,
                        (before[at as int].0, entered),
                    ));
                    lemma_table_update(before, at as int, entered);
                }
            },
            None => {
                directives.push((context, spec));
                proof {
                    assert(directive_entries(directives@) =~= before.push((key, entered)));
                    lemma_table_push(before, key, entered);
                }
            },
        }
        let contract = contract.next();
        *self = ConfigRegistry { contexts, directives, attached, contract };
    }

    /// Enters a step for blocks in a tree.
    pub fn register_attached_finalizer(&mut self, context: ContextKey, finalize: AttachedFinalizer)
        ensures
            final(self)@ == old(self)@.with_attached(context.text(), finalize),
    {
        proof {
            use_type_invariant(&*self);
        }
        let found = self.find_attached(context);
        let ghost before = attached_entries(self.attached@);
        let mut other = ConfigRegistry::blank(self.contract.identity);
        core::mem::swap(self, &mut other);
        let ConfigRegistry { contexts, directives, mut attached, contract } = other;
        match found {
            Some(at) => {
                attached.set(at, (context, finalize));
                proof {
                    assert(attached_entries(attached@) =~= before.update(
                        at as int,
                        (before[at as int].0, finalize),
                    ));
                    lemma_table_update(before, at as int, finalize);
                }
            },
            None => {
                attached.push((context, finalize));
                proof {
                    assert(attached_entries(attached@) =~= before.push((context.text(), finalize)));
                    lemma_table_push(before, context.text(), finalize);
                }
            },
        }
        let contract = contract.next();
        *self = ConfigRegistry { contexts, directives, attached, contract };
    }

    /// The state of the registry.
    pub fn contract(&self) -> (contract: ConfigRegistryContract)
        ensures
            contract == self@.contract,
            self@.wf(),
    {
        proof {
            use_type_invariant(self);
            let entries = directive_entries(self.directives@);
            lemma_table(entries);
            assert forall|context: Seq<char>, name: Seq<char>| #[trigger]
                self@.directive(context, name) matches Some(spec) implies self@.directive(
                context,
                name,
            )->0.name == name && self@.directive(context, name)->0.fits() by {
                let i = choose|i: int|
                    0 <= i < entries.len() && (#[trigger] entries[i]).0 == (context, name);
                assert(table(entries)[entries[i].0] == entries[i].1);
                assert(self.directives@[i].1@.fits());
            }
        }
        self.contract
    }

    /// Whether the registry is still in the given state.
    pub fn matches_contract(&self, contract: &ConfigRegistryContract) -> (same: bool)
        ensures
            same == (*contract == self@.contract),
    {
        self.contract == *contract
    }

    /// The directive with the given name in a context.
    pub fn directive_spec(&self, context: ContextKey, name: &str) -> (spec: Option<&DirectiveSpec>)
        ensures
            match spec {
                Some(spec) => self@.directive(context.text(), name@) == Some(spec@)
                    && spec.name.text() == name@,
                None => self@.directive(context.text(), name@) is None,
            },
    {
        proof {
            use_type_invariant(self);
            lemma_table(directive_entries(self.directives@));
        }
        match self.find_directive(context, name) {
            Some(at) => {
                assert(directive_entries(self.directives@)[at as int].0 == (context.text(), name@));
                Some(&self.directives[at].1)
            },
            None => None,
        }
    }

    /// Whether a context is known.
    pub fn has_context(&self, context: ContextKey) -> (known: bool)
        ensures
            known == self@.contexts.contains_key(context.text()),
    {
        proof {
            use_type_invariant(self);
            lemma_table(context_entries(self.contexts@));
        }
        match self.find_context(context) {
            Some(at) => {
                assert(context_entries(self.contexts@)[at as int].0 == context.text());
                true
            },
            None => false,
        }
    }

    /// What is done with a block of the given context once its directives are read.
    pub fn context_finalizer(&self, context: ContextKey) -> (finalize: Option<ContextFinalizer>)
        ensures
            finalize == self@.finalizer(context.text()),
    {
        proof {
            use_type_invariant(self);
            lemma_table(context_entries(self.contexts@));
        }
        match self.find_context(context) {
            Some(at) => {
                assert(context_entries(self.contexts@)[at as int].0 == context.text());
                self.contexts[at].finalize
            },
            None => None,
        }
    }

    /// What is done with a block of the given context once it has its place in a tree.
    pub fn attached_finalizer(&self, context: ContextKey) -> (finalize: Option<AttachedFinalizer>)
        ensures
            match finalize {
                Some(finalize) => self@.attached.contains_key(context.text())
                    && self@.attached[context.text()] == finalize,
                None => !self@.attached.contains_key(context.text()),
            },
    {
        proof {
            use_type_invariant(self);
            lemma_table(attached_entries(self.attached@));
        }
        match self.find_attached(context) {
            Some(at) => {
                assert(attached_entries(self.attached@)[at as int].0 == context.text());
                Some(self.attached[at].1)
            },
            None => None,
        }
    }

    /// The names of the directives of a context, with what is known of each.
    pub fn directives_in(&self, context: ContextKey) -> (list: Vec<&DirectiveSpec>)
        ensures
            forall|i: int|
                0 <= i < list@.len() ==> self@.directive(
                    context.text(),
                    (#[trigger] list@[i]).name.text(),
                ) == Some(list@[i]@),
            forall|name: Seq<char>| #[trigger]
                self@.directive(context.text(), name) is Some ==> exists|i: int|
                    0 <= i < list@.len() && (#[trigger] list@[i]).name.text() == name,
    {
        proof {
            use_type_invariant(self);
            lemma_table(directive_entries(self.directives@));
        }
        let mut list: Vec<&DirectiveSpec> = Vec::new();
        let mut i: usize = 0;
        while i < self.directives.len()
            invariant
                i <= self.directives@.len(),
                distinct_keys(directive_entries(self.directives@)),
                forall|k: int|
                    0 <= k < list@.len() ==> self@.directive(
                        context.text(),
                        (#[trigger] list@[k]).name.text(),
                    ) == Some(list@[k]@),
                forall|k: int|
                    0 <= k < i && (#[trigger] self.directives@[k]).0.text() == context.text()
                        ==> exists|j: int|
                        0 <= j < list@.len() && (#[trigger] list@[j]).name.text()
                            == self.directives@[k].1.name.text(),
            decreases self.directives@.len() - i,
        {
            let (key, spec) = &self.directives[i];
            let ghost before = list@;
            if key.is(context) {
                proof {
                    lemma_table(directive_entries(self.directives@));
                    assert(directive_entries(self.directives@)[i as int].0 == (
                        context.text(),
                        spec.name.text(),
                    ));
                }
                list.push(spec);
                assert(list@[list@.len() - 1].name.text() == spec.name.text());
                assert forall|k: int|
                    0 <= k <= i && (#[trigger] self.directives@[k]).0.text()
                        == context.text() implies exists|j: int|
                    0 <= j < list@.len() && (#[trigger] list@[j]).name.text()
                        == self.directives@[k].1.name.text() by {
                    if k < i {
                        let j = choose|j: int|
                            0 <= j < before.len() && (#[trigger] before[j]).name.text()
                                == self.directives@[k].1.name.text();
                        assert(list@[j] == before[j]);
                    }
                }
            }
            i += 1;
        }
        proof {
            lemma_table(directive_entries(self.directives@));
            let entries = directive_entries(self.directives@);
            assert forall|name: Seq<char>| #[trigger]
                self@.directive(context.text(), name) is Some implies exists|j: int|
                0 <= j < list@.len() && (#[trigger] list@[j]).name.text() == name by {
                assert(has_key(entries, (context.text(), name)));
                let k = choose|k: int|
                    0 <= k < entries.len() && (#[trigger] entries[k]).0 == (context.text(), name);
                assert(self.directives@[k].0.text() == context.text());
            }
        }
        list
    }

    /// The contracts of all directives.
    pub fn frozen_contracts(&self) -> (list: Vec<DirectiveContract>)
        ensures
            is_contract_list(self@, list@),
    {
        proof {
            use_type_invariant(self);
            lemma_table(directive_entries(self.directives@));
        }
        let ghost entries = directive_entries(self.directives@);
        let mut list: Vec<DirectiveContract> = Vec::new();
        let mut i: usize = 0;
        while i < self.directives.len()
            invariant
                i <= self.directives@.len(),
                list@.len() == i,
                forall|k: int|
                    0 <= k < i ==> is_contract_of(
                        self.directives@[k].1@,
                        self.directives@[k].0.text(),
                        #[trigger] list@[k],
                    ),
            decreases self.directives@.len() - i,
        {
            let (key, spec) = &self.directives[i];
            list.push(spec.contract(*key));
            i += 1;
        }
        proof {
            let known = self@.directives;
            assert forall|context: Seq<char>, name: Seq<char>| #[trigger]
                known.contains_key((context, name)) implies exists|k: int|
                0 <= k < list@.len() && is_contract_of(
                    known[(context, name)],
                    context,
                    #[trigger] list@[k],
                ) by {
                assert(has_key(entries, (context, name)));
                let k = choose|k: int|
                    0 <= k < entries.len() && (#[trigger] entries[k]).0 == (context, name);
                assert(known[entries[k].0] == entries[k].1);
                assert(is_contract_of(known[(context, name)], context, list@[k]));
            }
            assert forall|k: int| 0 <= k < list@.len() implies exists|
                context: Seq<char>,
                name: Seq<char>,
            |
                #![trigger known.contains_key((context, name))]
                known.contains_key((context, name)) && is_contract_of(
                    known[(context, name)],
                    context,
                    #[trigger] list@[k],
                ) by {
                let context = entries[k].0.0;
                let name = entries[k].0.1;
                assert(known.contains_key(entries[k].0));
                assert(known.contains_key((context, name)));
            }
        }
        list
    }
}

/// A directive that is entered is the one that is then known under its name, and no other changes.
pub proof fn registered_directive_is_known(
    registry: RegistryView,
    context: Seq<char>,
    directive: DirectiveView,
    other_context: Seq<char>,
    other_name: Seq<char>,
)
    ensures
        registry.with_directive(context, directive).directive(context, directive.name) == Some(
            directive,
        ),
        (other_context, other_name) != (context, directive.name) ==> registry.with_directive(
            context,
            directive,
        ).directive(other_context, other_name) == registry.directive(other_context, other_name),
{
}

/// Every change takes a registry into another state.
pub proof fn changes_are_noticed(
    registry: RegistryView,
    context: Seq<char>,
    directive: DirectiveView,
    finalize: Option<ContextFinalizer>,
    step: AttachedFinalizer,
)
    ensures
        registry.with_directive(context, directive).contract != registry.contract,
        registry.with_context(context, finalize).contract != registry.contract,
        registry.with_attached(context, step).contract != registry.contract,
{
}

/// No change takes a registry into a state of a registry with another mark.
pub proof fn registries_stay_apart(
    registry: RegistryView,
    other: RegistryView,
    context: Seq<char>,
    directive: DirectiveView,
    finalize: Option<ContextFinalizer>,
    step: AttachedFinalizer,
)
    requires
        registry.contract.identity != other.contract.identity,
    ensures
        registry.contract != other.contract,
        registry.with_directive(context, directive).contract.identity
            == registry.contract.identity,
        registry.with_context(context, finalize).contract.identity == registry.contract.identity,
        registry.with_attached(context, step).contract.identity == registry.contract.identity,
{
}

/// A registry that knows nothing has every directive under its own name, each read as its shape
/// asks, and every change keeps it so.
pub proof fn registry_stays_sound(
    registry: RegistryView,
    identity: u64,
    context: Seq<char>,
    directive: DirectiveView,
    finalize: Option<ContextFinalizer>,
    step: AttachedFinalizer,
)
    requires
        registry.wf(),
        directive.fits(),
    ensures
        RegistryView::empty(identity).wf(),
        registry.with_directive(context, directive).wf(),
        registry.with_context(context, finalize).wf(),
        registry.with_attached(context, step).wf(),
{
    let more = registry.with_directive(context, directive);
    assert forall|other: Seq<char>, name: Seq<char>| #[trigger]
        more.directive(other, name) matches Some(spec) implies more.directive(other, name)->0.name
        == name && more.directive(other, name)->0.fits() by {
        if (other, name) != (context, directive.name) {
            assert(registry.directive(other, name) is Some);
        }
    }
    let known = registry.with_context(context, finalize);
    assert forall|other: Seq<char>, name: Seq<char>| #[trigger]
        known.directive(other, name) matches Some(spec) implies known.directive(other, name)->0.name
        == name && known.directive(other, name)->0.fits() by {
        assert(registry.directive(other, name) is Some);
    }
    let stepped = registry.with_attached(context, step);
    assert forall|other: Seq<char>, name: Seq<char>| #[trigger]
        stepped.directive(other, name) matches Some(spec) implies stepped.directive(
        other,
        name,
    )->0.name == name && stepped.directive(other, name)->0.fits() by {
        assert(registry.directive(other, name) is Some);
    }
}

/// The contract of a directive is about the block that it opens, or else about the one that it stands
/// in. It asks for the arguments of a block, for repeated values where doubles are kept, and else for
/// a single value.
pub proof fn contracts_ask_for_what_directives_give(
    directive: DirectiveView,
    registered: Seq<char>,
    contract: DirectiveContract,
)
    requires
        is_contract_of(directive, registered, contract),
    ensures
        contract.name.text() == directive.name,
        directive.shape is ContextBlock ==> contract.context.text()
            == directive.shape->child_context.text() && contract.cardinality is ContextPayload,
        directive.shape !is ContextBlock ==> contract.context.text() == registered,
        directive.shape !is ContextBlock && directive.duplicate is Append ==> contract.cardinality
            is Repeated,
        directive.shape !is ContextBlock && directive.duplicate !is Append ==> contract.cardinality
            is Single,
        match directive.parser {
            DirectiveParser::Slot(kind) => contract.value_type == Some(kind),
            DirectiveParser::Payload(kind) => contract.value_type == Some(kind),
            DirectiveParser::Empty => contract.value_type is None,
        },
        contract.shape == directive.shape,
        contract.duplicate == directive.duplicate,
        contract.cascade == directive.cascade,
{
}

/// A block with arguments reads them, a block without reads none, and every other directive gives
/// values to the block that it stands in.
pub proof fn shapes_say_what_is_read(directive: DirectiveView)
    requires
        directive.fits(),
    ensures
        directive.shape is Leaf || directive.shape is RawBlock ==> directive.parser is Slot,
        directive.shape matches DirectiveShape::ContextBlock { payload, .. } ==> (match payload {
            PayloadMode::Nothing => directive.parser is Empty,
            PayloadMode::Parser => directive.parser is Payload,
        }),
{
}

/// What is entered into a registry takes the place of what had its name in its context, and leaves
/// everything else as it was.
pub proof fn entries_leave_others_alone(
    registry: RegistryView,
    context: Seq<char>,
    directive: DirectiveView,
    finalize: Option<ContextFinalizer>,
    other: Seq<char>,
    name: Seq<char>,
)
    ensures
        registry.with_directive(context, directive).directive(context, directive.name) == Some(
            directive,
        ),
        other != context || name != directive.name ==> registry.with_directive(
            context,
            directive,
        ).directive(other, name) == registry.directive(other, name),
        registry.with_directive(context, directive).finalizer(other) == registry.finalizer(other),
        registry.with_context(context, finalize).finalizer(context) == finalize,
        other != context ==> registry.with_context(context, finalize).finalizer(other)
            == registry.finalizer(other),
        registry.with_context(context, finalize).directive(other, name) == registry.directive(
            other,
            name,
        ),
        registry.with_directive(context, directive).attached == registry.attached,
        registry.with_context(context, finalize).attached == registry.attached,
{
}

} // verus!
