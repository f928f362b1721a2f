//! What the blocks of a tree say, asked for with what is expected of each directive.
use std::sync::Arc;

use vstd::prelude::*;

use crate::parse::cascade::{
    cascade_origins, CascadeOriginView, CascadedValue, ConfigOrigin, DirectiveKey,
    InheritedSourceLocation, LocationView, OneBased,
};
use crate::parse::completion::{answer, answers};
use crate::parse::config::position_in;
use crate::parse::context::ContextKey;
use crate::parse::contract::{
    is_mismatch, mismatch_tells_contracts_apart, same_contract, CascadePolicy, ContextPayloadKey,
    DirectiveCardinality, DirectiveContract, DirectiveContractMismatch, DirectiveShape,
    LocalDirectiveKey, RepeatedDirectiveKey,
};
use crate::parse::document::{found, gets, gets_all, gets_payload, is_missing, ConfigNode};
use crate::parse::domain::{is_resolved, ConfigDocumentId, ConfigSourceSpan, DirectiveName};
use crate::parse::error::ConfigQueryError;
use crate::parse::snapshot::{inherited_origin, taken_origin, Inheritable, RootInheritedConfigV1};
use crate::parse::source::{
    position_is_unique, ConfigDocumentSourceMap, LineColumn, SourceFile, SourceMap,
};
use crate::parse::transport::RootConfigSnapshotError;
use crate::parse::tree::{
    hangs_together, owner_views, ConfigNodeId, ConfigSourceBundle, HomeConfigTree, ParentLink,
    SealedView,
};
use crate::parse::value::ConfigValue;
use crate::path::{path_view, UnixPath};

verus! {

/// The order in which contracts of one directive are looked at.
pub open spec fn rank(cardinality: DirectiveCardinality) -> int {
    match cardinality {
        DirectiveCardinality::Single => 0,
        DirectiveCardinality::Repeated => 1,
        DirectiveCardinality::ContextPayload => 2,
    }
}

/// The contract of a directive in a context: of several, the first with the least cardinality.
pub open spec fn lookup(
    contracts: Seq<DirectiveContract>,
    context: Seq<char>,
    name: Seq<char>,
) -> Option<DirectiveContract>
    decreases contracts.len(),
{
    if contracts.len() == 0 {
        None
    } else {
        let before = lookup(contracts.drop_last(), context, name);
        let last = contracts.last();
        if last.context.text() == context && last.name.text() == name {
            match before {
                Some(other) if rank(other.cardinality) <= rank(last.cardinality) => before,
                _ => Some(last),
            }
        } else {
            before
        }
    }
}

fn rank_of(cardinality: DirectiveCardinality) -> (n: u8)
    ensures
        n == rank(cardinality),
{
    match cardinality {
        DirectiveCardinality::Single => 0,
        DirectiveCardinality::Repeated => 1,
        DirectiveCardinality::ContextPayload => 2,
    }
}

/// The contract of a directive in a context.
pub fn directive_contract(
    contracts: &Vec<DirectiveContract>,
    context: ContextKey,
    directive: DirectiveName,
) -> (contract: Option<DirectiveContract>)
    ensures
        contract == lookup(contracts@, context.text(), directive.text()),
{
    let mut best: Option<DirectiveContract> = None;
    let mut i: usize = 0;
    assert(contracts@.take(0) =~= seq![]);
    while i < contracts.len()
        invariant
            i <= contracts@.len(),
            best == lookup(contracts@.take(i as int), context.text(), directive.text()),
        decreases contracts@.len() - i,
    {
        let next = contracts[i];
        proof {
            assert(contracts@.take(i + 1).drop_last() =~= contracts@.take(i as int));
            assert(contracts@.take(i + 1).last() == next);
        }
        if next.context.is(context) && next.name.is(directive) {
            best = match best {
                Some(other) => if rank_of(other.cardinality) <= rank_of(next.cardinality) {
                    Some(other)
                } else {
                    Some(next)
                },
                None => Some(next),
            };
        }
        i += 1;
    }
    assert(contracts@.take(i as int) =~= contracts@);
    best
}

/// Whether the actual contract of a directive is the expected one.
pub open spec fn is_agreed(expected: DirectiveContract, actual: Option<DirectiveContract>) -> bool {
    actual matches Some(actual) && same_contract(expected, actual)
}

/// The error for a directive whose contract is not the expected one.
pub open spec fn contract_error(
    expected: DirectiveContract,
    actual: Option<DirectiveContract>,
    context: Seq<char>,
    error: ConfigQueryError,
) -> bool {
    error matches ConfigQueryError::ContractMismatch { directive, context: place, mismatch }
        && directive.text() == expected.name.text() && place.text() == context && (match actual {
        Some(actual) => is_mismatch(expected, actual, Some(mismatch)),
        None => mismatch matches DirectiveContractMismatch::Name { expected: name, actual: other }
            && name.text() == expected.name.text() && other is None,
    })
}

fn ensure_contract(
    expected: DirectiveContract,
    actual: Option<DirectiveContract>,
    context: ContextKey,
) -> (result: Result<(), ConfigQueryError>)
    ensures
        match result {
            Ok(_) => is_agreed(expected, actual),
            Err(error) => !is_agreed(expected, actual) && contract_error(
                expected,
                actual,
                context.text(),
                error,
            ),
        },
{
    let mismatch = match actual {
        Some(actual) => {
            let mismatch = expected.mismatch(actual);
            proof {
                mismatch_tells_contracts_apart(expected, actual, mismatch);
            }
            mismatch
        },
        None => Some(
            DirectiveContractMismatch::Name { expected: expected.name, actual: None },
        ),
    };
    match mismatch {
        Some(mismatch) => Err(
            ConfigQueryError::ContractMismatch { directive: expected.name, context, mismatch },
        ),
        None => Ok(()),
    }
}

/// The nodes from the outermost to the given one.
pub open spec fn chain_of(nodes: Seq<SealedView>, at: int) -> Seq<int>
    decreases at,
{
    match nodes[at].parent {
        ParentLink::Node(parent) if parent.0 < at => chain_of(nodes, parent.0 as int).push(at),
        _ => seq![at],
    }
}

/// The blocks from the outermost to the given one.
pub open spec fn blocks_to(nodes: Seq<SealedView>, at: int) -> Seq<SealedView> {
    chain_of(nodes, at).map_values(|i: int| nodes[i])
}

/// The context of a block.
pub open spec fn context_of(block: SealedView) -> Seq<char> {
    block.node@.context
}

/// Whether some block has the given context.
pub open spec fn has_context(blocks: Seq<SealedView>, context: Seq<char>) -> bool {
    exists|i: int| 0 <= i < blocks.len() && context_of(#[trigger] blocks[i]) == context
}

/// A contract that is not as expected.
pub enum ContractFault {
    /// The contract of the directive in a context.
    Different {
        expected: DirectiveContract,
        actual: Option<DirectiveContract>,
        context: Seq<char>,
    },
    /// A context in which the directive is not expected at all.
    Unexpected { context: Seq<char>, target: Seq<char> },
}

/// The first of the outer contexts, from the inside out, whose contract is not the expected one.
pub open spec fn outer_fault(
    contracts: Seq<DirectiveContract>,
    blocks: Seq<SealedView>,
    expected: Seq<DirectiveContract>,
    name: Seq<char>,
) -> Option<ContractFault>
    decreases expected.len(),
{
    if expected.len() == 0 {
        None
    } else {
        let last = expected.last();
        let context = last.context.text();
        let actual = if has_context(blocks, context) {
            lookup(contracts, context, name)
        } else {
            None
        };
        if is_agreed(last, actual) {
            outer_fault(contracts, blocks, expected.drop_last(), name)
        } else {
            Some(ContractFault::Different { expected: last, actual, context })
        }
    }
}

/// Whether the directive is expected in a context.
pub open spec fn is_expected(expected: Seq<DirectiveContract>, context: Seq<char>) -> bool {
    exists|i: int| 0 <= i < expected.len() && (#[trigger] expected[i]).context.text() == context
}

/// The first of the outer blocks in whose context the directive is known but not expected.
pub open spec fn extra_fault(
    contracts: Seq<DirectiveContract>,
    outer: Seq<SealedView>,
    expected: Seq<DirectiveContract>,
    name: Seq<char>,
) -> Option<ContractFault>
    decreases outer.len(),
{
    if outer.len() == 0 {
        None
    } else {
        match extra_fault(contracts, outer.drop_last(), expected, name) {
            Some(fault) => Some(fault),
            None => {
                let context = context_of(outer.last());
                if lookup(contracts, context, name) is Some && !is_expected(expected, context) {
                    Some(
                        ContractFault::Unexpected {
                            context,
                            target: expected.last().context.text(),
                        },
                    )
                } else {
                    None
                }
            },
        }
    }
}

/// The first contract on the way to a block that is not as expected: the block itself is looked at
/// first, then the blocks around it, and then the contexts in which the directive is not expected.
pub open spec fn chain_fault(
    contracts: Seq<DirectiveContract>,
    blocks: Seq<SealedView>,
    expected: Seq<DirectiveContract>,
    name: Seq<char>,
) -> Option<ContractFault> {
    let target = context_of(blocks.last());
    let actual = lookup(contracts, target, name);
    if !is_agreed(expected.last(), actual) {
        Some(ContractFault::Different { expected: expected.last(), actual, context: target })
    } else {
        match outer_fault(contracts, blocks, expected.drop_last(), name) {
            Some(fault) => Some(fault),
            None => extra_fault(contracts, blocks.drop_last(), expected, name),
        }
    }
}

/// The error for a contract that is not as expected.
pub open spec fn is_contract_fault(
    fault: ContractFault,
    name: Seq<char>,
    error: ConfigQueryError,
) -> bool {
    match fault {
        ContractFault::Different { expected, actual, context } => contract_error(
            expected,
            actual,
            context,
            error,
        ),
        ContractFault::Unexpected { context, target } => error matches
            ConfigQueryError::ContractMismatch { directive, context: place, mismatch }
            && directive.text() == name && place.text() == context && (mismatch matches
            DirectiveContractMismatch::Context { expected, actual } && expected.text() == target
            && actual.text() == context),
    }
}

/// The cascade policies of a directive on the way to a block, with their contexts.
pub open spec fn policies(
    contracts: Seq<DirectiveContract>,
    blocks: Seq<SealedView>,
    name: Seq<char>,
) -> Seq<(Seq<char>, CascadePolicy)>
    decreases blocks.len(),
{
    if blocks.len() == 0 {
        seq![]
    } else {
        let before = policies(contracts, blocks.drop_last(), name);
        let context = context_of(blocks.last());
        match lookup(contracts, context, name) {
            Some(contract) => before.push((context, contract.cascade)),
            None => before,
        }
    }
}

/// What is wrong with the cascade policies on the way to a block: two that follow each other differ,
/// there is none, or it is one under which values do not simply replace each other.
pub open spec fn policy_error(
    list: Seq<(Seq<char>, CascadePolicy)>,
    name: Seq<char>,
    error: ConfigQueryError,
) -> bool {
    if exists|i: int| 0 < i < list.len() && list[i - 1].1 != (#[trigger] list[i]).1 {
        exists|at: int|
            {
                &&& 0 < at < list.len()
                &&& forall|i: int| 0 < i < at ==> list[i - 1].1 == (#[trigger] list[i]).1
                &&& list[at - 1].1 != (#[trigger] list[at]).1
                &&& error matches ConfigQueryError::CascadePolicyMismatch {
                    directive,
                    inherited_context,
                    inherited,
                    local_context,
                    local,
                } && directive@ == name && inherited_context.text() == list[at - 1].0 && inherited
                    == list[at - 1].1 && local_context.text() == list[at].0 && local == list[at].1
            }
    } else if list.len() == 0 {
        error matches ConfigQueryError::MissingCascadePolicy { directive } && directive@ == name
    } else {
        &&& !replaces(list.last().1)
        &&& error matches ConfigQueryError::UnsupportedCascadePolicy { directive, policy }
            && directive@ == name && policy == list.last().1
    }
}

/// Whether inner values replace outer ones.
pub open spec fn replaces(policy: CascadePolicy) -> bool {
    policy == CascadePolicy::NearestWins || policy == CascadePolicy::ReplaceWhole
}

/// Whether the cascade policies on the way to a block agree that inner values replace outer ones.
pub open spec fn policies_ok(list: Seq<(Seq<char>, CascadePolicy)>) -> bool {
    &&& list.len() > 0
    &&& replaces(list.last().1)
    &&& forall|i: int| 0 < i < list.len() ==> list[i - 1].1 == (#[trigger] list[i]).1
}

/// A value with the origins of all that was set on the way to it.
pub struct Gathered<T> {
    pub value: Option<T>,
    pub lineage: Seq<CascadeOriginView>,
}

/// What holds before any block is looked at: what is built in, and over it what was taken over from
/// the root.
pub open spec fn gathered_outside<T: Inheritable>(
    key: DirectiveKey<T>,
    inherited: Option<RootInheritedConfigV1>,
) -> Gathered<T> {
    let builtin = match key.fallback() {
        Some(value) => Gathered {
            value: Some(value),
            lineage: seq![CascadeOriginView::Builtin { directive: key.directive() }],
        },
        None => Gathered { value: None, lineage: seq![] },
    };
    match (inherited, key.snapshot_field()) {
        (Some(config), Some(field)) => match T::of_field(config, field) {
            Some((value, origin)) => {
                let taken = taken_origin(origin@, key.directive());
                Gathered {
                    value: Some(value),
                    lineage: if taken is Builtin {
                        builtin.lineage
                    } else {
                        builtin.lineage.push(taken)
                    },
                }
            },
            None => builtin,
        },
        _ => builtin,
    }
}

/// The origin of a value that a block sets.
pub open spec fn is_block_origin(
    block: SealedView,
    name: Seq<char>,
    origin: CascadeOriginView,
) -> bool {
    match block.document {
        Some(index) => origin matches CascadeOriginView::Source(span) && span.document().index()
            == index && span.source() == block.node@.slot(name)[0].place(),
        None => origin == (CascadeOriginView::Builtin { directive: name }),
    }
}

/// What holds after some more blocks, each inside the one before: the value of the innermost that
/// sets one, and the origins of all that were set.
pub open spec fn gathers<T: Inheritable>(
    start: Gathered<T>,
    blocks: Seq<SealedView>,
    name: Seq<char>,
    end: Gathered<T>,
) -> bool
    decreases blocks.len(),
{
    if blocks.len() == 0 {
        end == start
    } else {
        let block = blocks.last();
        match answer::<T>(block.node@.slot(name)) {
            None => gathers(start, blocks.drop_last(), name, end),
            Some(value) => {
                &&& end.value == Some(value)
                &&& end.lineage.len() > 0
                &&& is_block_origin(block, name, end.lineage.last())
                &&& exists|before: Option<T>| #[trigger]
                    is_value(before) && gathers(
                        start,
                        blocks.drop_last(),
                        name,
                        Gathered { value: before, lineage: end.lineage.drop_last() },
                    )
            },
        }
    }
}

/// What may hold before a block is looked at: any value, or none.
pub open spec fn is_value<T>(value: Option<T>) -> bool {
    true
}

/// The first block on the way that does not answer with one value of the right type.
pub open spec fn block_error<T: Inheritable>(
    blocks: Seq<SealedView>,
    name: Seq<char>,
    error: ConfigQueryError,
) -> bool {
    exists|at: int|
        {
            &&& 0 <= at < blocks.len()
            &&& forall|i: int|
                0 <= i < at ==> answers::<T>((#[trigger] blocks[i]).node@.slot(name))
            &&& !answers::<T>((#[trigger] blocks[at]).node@.slot(name))
            &&& gets::<T>(blocks[at].node@.slot(name), name, Err(error))
        }
}

/// What asking a block for a value that it may have taken over gives.
pub open spec fn cascades<T: Inheritable>(
    tree: HomeConfigTree,
    at: int,
    key: DirectiveKey<T>,
    result: Result<Option<(T, Seq<CascadeOriginView>)>, ConfigQueryError>,
) -> bool {
    let name = key.directive();
    let blocks = blocks_to(tree.sealed(), at);
    let list = policies(tree.agreed(), blocks, name);
    match chain_fault(tree.agreed(), blocks, key.expects(), name) {
        Some(fault) => result matches Err(error) && is_contract_fault(fault, name, error),
        None => if !policies_ok(list) {
            result matches Err(error) && policy_error(list, name, error)
        } else {
            match result {
                Ok(answer) => exists|end: Gathered<T>|
                    {
                        &&& #[trigger] gathers(
                            gathered_outside(key, tree.inherited()),
                            blocks,
                            name,
                            end,
                        )
                        &&& answer == (match end.value {
                            Some(value) => Some((value, end.lineage)),
                            None => None,
                        })
                    },
                Err(error) => block_error::<T>(blocks, name, error),
            }
        },
    }
}

/// The values of the innermost block that sets one replaces all others.
pub proof fn innermost_value_wins<T: Inheritable>(
    start: Gathered<T>,
    blocks: Seq<SealedView>,
    name: Seq<char>,
    end: Gathered<T>,
    at: int,
)
    requires
        gathers(start, blocks, name, end),
        0 <= at < blocks.len(),
        answer::<T>(blocks[at].node@.slot(name)) is Some,
        forall|i: int|
            at < i < blocks.len() ==> answer::<T>((#[trigger] blocks[i]).node@.slot(name)) is None,
    ensures
        end.value == answer::<T>(blocks[at].node@.slot(name)),
    decreases blocks.len(),
{
    if at < blocks.len() - 1 {
        assert(answer::<T>(blocks[blocks.len() - 1].node@.slot(name)) is None);
        innermost_value_wins(start, blocks.drop_last(), name, end, at);
    }
}

/// A value that no block sets is the one that is built in or taken over from the root.
pub proof fn unset_value_is_taken_over<T: Inheritable>(
    start: Gathered<T>,
    blocks: Seq<SealedView>,
    name: Seq<char>,
    end: Gathered<T>,
)
    requires
        gathers(start, blocks, name, end),
        forall|i: int|
            0 <= i < blocks.len() ==> answer::<T>((#[trigger] blocks[i]).node@.slot(name)) is None,
    ensures
        end == start,
    decreases blocks.len(),
{
    if blocks.len() > 0 {
        assert(answer::<T>(blocks[blocks.len() - 1].node@.slot(name)) is None);
        assert forall|i: int| 0 <= i < blocks.drop_last().len() implies answer::<T>(
            (#[trigger] blocks.drop_last()[i]).node@.slot(name),
        ) is None by {
            assert(blocks.drop_last()[i] == blocks[i]);
        }
        unset_value_is_taken_over(start, blocks.drop_last(), name, end);
    }
}

/// A node of a tree.
#[derive(Debug)]
pub struct ConfigNodeRef {
    tree: Arc<HomeConfigTree>,
    node: ConfigNodeId,
}

/// A server of a tree.
#[derive(Debug)]
pub struct ServerConfigRef(pub ConfigNodeRef);

/// A location of a tree.
#[derive(Debug)]
pub struct LocationConfigRef(pub ConfigNodeRef);

impl Clone for ConfigNodeRef {
    fn clone(&self) -> (copy: Self)
        ensures
            copy == *self,
    {
        proof {
            use_type_invariant(self);
        }
        ConfigNodeRef { tree: Arc::clone(&self.tree), node: self.node }
    }
}

impl Clone for ServerConfigRef {
    fn clone(&self) -> (copy: Self)
        ensures
            copy == *self,
    {
        ServerConfigRef(self.0.clone())
    }
}

impl Clone for LocationConfigRef {
    fn clone(&self) -> (copy: Self)
        ensures
            copy == *self,
    {
        LocationConfigRef(self.0.clone())
    }
}

impl ConfigNodeRef {
    /// The tree.
    pub closed spec fn in_tree(self) -> HomeConfigTree {
        *self.tree
    }

    /// The node.
    pub closed spec fn at(self) -> ConfigNodeId {
        self.node
    }

    /// The block.
    pub open spec fn block(self) -> SealedView {
        self.in_tree().sealed()[self.at().0 as int]
    }

    #[verifier::type_invariant]
    spec fn checked(self) -> bool {
        self.node.0 < self.tree.sealed().len()
    }

    fn new(tree: Arc<HomeConfigTree>, node: ConfigNodeId) -> (reference: Self)
        requires
            node.0 < tree.sealed().len(),
        ensures
            reference.in_tree() == *tree,
            reference.at() == node,
    {
        ConfigNodeRef { tree, node }
    }

    pub fn id(&self) -> (id: ConfigNodeId)
        ensures
            id == self.at(),
    {
        self.node
    }

    pub fn tree(&self) -> (tree: &Arc<HomeConfigTree>)
        ensures
            **tree == self.in_tree(),
    {
        &self.tree
    }

    pub fn parent_link(&self) -> (parent: ParentLink)
        ensures
            parent == self.block().parent,
    {
        proof {
            use_type_invariant(self);
        }
        self.tree.node(self.node.0).parent
    }

    /// The place of the block, where a document holds it.
    pub fn source_span(&self) -> (span: Option<ConfigSourceSpan>)
        ensures
            match span {
                Some(span) => self.block().document == Some(span.document().index())
                    && span.source() == self.block().node@.span,
                None => self.block().document is None,
            },
    {
        proof {
            use_type_invariant(self);
        }
        let sealed = self.tree.node(self.node.0);
        match sealed.document_id {
            Some(document_id) => Some(ConfigSourceSpan::new(document_id, sealed.node.span)),
            None => None,
        }
    }

    /// The block itself.
    pub fn config(&self) -> (node: &ConfigNode)
        ensures
            *node == *self.block().node,
    {
        proof {
            use_type_invariant(self);
        }
        &self.tree.node(self.node.0).node
    }

    /// Whether the directive is what is expected of it.
    fn check_contract(&self, expected: DirectiveContract) -> (result: Result<(), ConfigQueryError>)
        ensures
            ({
                let context = context_of(self.block());
                let actual = lookup(self.in_tree().agreed(), context, expected.name.text());
                match result {
                    Ok(_) => is_agreed(expected, actual),
                    Err(error) => !is_agreed(expected, actual) && contract_error(
                        expected,
                        actual,
                        context,
                        error,
                    ),
                }
            }),
    {
        let context = self.config().context;
        let actual = directive_contract(self.tree.contracts(), context, expected.name);
        ensure_contract(expected, actual, context)
    }
}

/// What asking a block for a directive of its own gives.
pub open spec fn asks_local<T: ConfigValue>(
    reference: ConfigNodeRef,
    expected: DirectiveContract,
    result: Result<Option<T>, ConfigQueryError>,
) -> bool {
    let context = context_of(reference.block());
    let name = expected.name.text();
    let actual = lookup(reference.in_tree().agreed(), context, name);
    if is_agreed(expected, actual) {
        gets::<T>(reference.block().node@.slot(name), name, result)
    } else {
        result matches Err(error) && contract_error(expected, actual, context, error)
    }
}

/// What asking a block for all values of a directive of its own gives.
pub open spec fn asks_repeated<T: ConfigValue>(
    reference: ConfigNodeRef,
    expected: DirectiveContract,
    result: Result<Seq<&T>, ConfigQueryError>,
) -> bool {
    let context = context_of(reference.block());
    let name = expected.name.text();
    let actual = lookup(reference.in_tree().agreed(), context, name);
    if is_agreed(expected, actual) {
        gets_all::<T>(reference.block().node@.slot(name), name, result)
    } else {
        result matches Err(error) && contract_error(expected, actual, context, error)
    }
}

/// What asking a block for its arguments gives.
pub open spec fn asks_payload<T: ConfigValue>(
    reference: ConfigNodeRef,
    expected: DirectiveContract,
    result: Result<T, ConfigQueryError>,
) -> bool {
    let context = context_of(reference.block());
    let name = expected.name.text();
    let actual = lookup(reference.in_tree().agreed(), context, name);
    let node = reference.block().node@;
    if !is_agreed(expected, actual) {
        result matches Err(error) && contract_error(expected, actual, context, error)
    } else if node.payload is None {
        result matches Err(error) && is_missing(name, node.span, error)
    } else {
        match result {
            Ok(value) => gets_payload::<T>(node, Ok(Some(value))),
            Err(error) => gets_payload::<T>(node, Err(error)),
        }
    }
}

/// The answer to a question for a value that a block may have taken over.
pub open spec fn cascade_answer<T>(
    result: Result<Option<CascadedValue<&T>>, ConfigQueryError>,
) -> Result<Option<(T, Seq<CascadeOriginView>)>, ConfigQueryError> {
    match result {
        Ok(Some(value)) => Ok(Some((*value.effective, cascade_origins(value.lineage@)))),
        Ok(None) => Ok(None),
        Err(error) => Err(error),
    }
}

fn has_block_context(
    tree: &HomeConfigTree,
    chain: &Vec<usize>,
    wanted: ContextKey,
) -> (found: bool)
    requires
        forall|i: int| 0 <= i < chain@.len() ==> (#[trigger] chain@[i]) < tree.sealed().len(),
    ensures
        found == has_context(blocks_in(tree.sealed(), chain@), wanted.text()),
{
    let ghost blocks = blocks_in(tree.sealed(), chain@);
    let mut i: usize = 0;
    while i < chain.len()
        invariant
            i <= chain@.len(),
            blocks == blocks_in(tree.sealed(), chain@),
            forall|k: int| 0 <= k < chain@.len() ==> (#[trigger] chain@[k]) < tree.sealed().len(),
            forall|k: int| 0 <= k < i ==> context_of(#[trigger] blocks[k]) != wanted.text(),
        decreases chain@.len() - i,
    {
        assert(blocks[i as int] == tree.sealed()[chain@[i as int] as int]);
        if tree.node(chain[i]).node.context.is(wanted) {
            assert(context_of(blocks[i as int]) == wanted.text());
            return true;
        }
        i += 1;
    }
    false
}

/// The blocks with the given indices.
pub open spec fn blocks_in(nodes: Seq<SealedView>, chain: Seq<usize>) -> Seq<SealedView> {
    chain.map_values(|i: usize| nodes[i as int])
}

fn expects_context(expected: &Vec<DirectiveContract>, wanted: ContextKey) -> (found: bool)
    ensures
        found == is_expected(expected@, wanted.text()),
{
    let mut i: usize = 0;
    while i < expected.len()
        invariant
            i <= expected@.len(),
            forall|k: int| 0 <= k < i ==> (#[trigger] expected@[k]).context.text() != wanted.text(),
        decreases expected@.len() - i,
    {
        if expected[i].context.is(wanted) {
            return true;
        }
        i += 1;
    }
    false
}

/// A context that is not expected stays the first, whatever blocks follow.
proof fn lemma_extra_stays(
    contracts: Seq<DirectiveContract>,
    outer: Seq<SealedView>,
    count: int,
    expected: Seq<DirectiveContract>,
    name: Seq<char>,
)
    requires
        0 <= count <= outer.len(),
        extra_fault(contracts, outer.take(count), expected, name) is Some,
    ensures
        extra_fault(contracts, outer, expected, name) == extra_fault(
            contracts,
            outer.take(count),
            expected,
            name,
        ),
    decreases outer.len(),
{
    if count == outer.len() {
        assert(outer.take(count) =~= outer);
    } else {
        assert(outer.drop_last().take(count) =~= outer.take(count));
        lemma_extra_stays(contracts, outer.drop_last(), count, expected, name);
    }
}

fn check_outer_contracts(
    tree: &HomeConfigTree,
    chain: &Vec<usize>,
    expected: &Vec<DirectiveContract>,
    name: DirectiveName,
) -> (result: Result<(), ConfigQueryError>)
    requires
        expected@.len() > 0,
        forall|i: int| 0 <= i < chain@.len() ==> (#[trigger] chain@[i]) < tree.sealed().len(),
    ensures
        ({
            let fault = outer_fault(
                tree.agreed(),
                blocks_in(tree.sealed(), chain@),
                expected@.drop_last(),
                name.text(),
            );
            match result {
                Ok(_) => fault is None,
                Err(error) => fault matches Some(fault) && is_contract_fault(
                    fault,
                    name.text(),
                    error,
                ),
            }
        }),
{
    let ghost contracts = tree.agreed();
    let ghost blocks = blocks_in(tree.sealed(), chain@);
    let ghost outer = expected@.drop_last();
    let mut i: usize = expected.len() - 1;
    assert(outer.take(i as int) =~= outer);
    while i > 0
        invariant
            i < expected@.len(),
            contracts == tree.agreed(),
            blocks == blocks_in(tree.sealed(), chain@),
            outer == expected@.drop_last(),
            forall|k: int| 0 <= k < chain@.len() ==> (#[trigger] chain@[k]) < tree.sealed().len(),
            outer_fault(contracts, blocks, outer, name.text()) == outer_fault(
                contracts,
                blocks,
                outer.take(i as int),
                name.text(),
            ),
        decreases i,
    {
        let next = expected[i - 1];
        proof {
            assert(outer.take(i as int).last() == next);
            assert(outer.take(i as int).drop_last() =~= outer.take(i - 1));
        }
        let actual = if has_block_context(tree, chain, next.context) {
            directive_contract(tree.contracts(), next.context, name)
        } else {
            None
        };
        match ensure_contract(next, actual, next.context) {
            Ok(_) => {},
            Err(error) => {
                return Err(error);
            },
        }
        i -= 1;
    }
    assert(outer.take(0) =~= seq![]);
    Ok(())
}

fn check_extra_contracts(
    tree: &HomeConfigTree,
    chain: &Vec<usize>,
    expected: &Vec<DirectiveContract>,
    name: DirectiveName,
) -> (result: Result<(), ConfigQueryError>)
    requires
        expected@.len() > 0,
        chain@.len() > 0,
        forall|i: int| 0 <= i < chain@.len() ==> (#[trigger] chain@[i]) < tree.sealed().len(),
    ensures
        ({
            let fault = extra_fault(
                tree.agreed(),
                blocks_in(tree.sealed(), chain@).drop_last(),
                expected@,
                name.text(),
            );
            match result {
                Ok(_) => fault is None,
                Err(error) => fault matches Some(fault) && is_contract_fault(
                    fault,
                    name.text(),
                    error,
                ),
            }
        }),
{
    let ghost contracts = tree.agreed();
    let ghost outer = blocks_in(tree.sealed(), chain@).drop_last();
    let target = expected[expected.len() - 1].context;
    let last: usize = chain.len() - 1;
    let mut i: usize = 0;
    assert(outer.take(0) =~= seq![]);
    while i < last
        invariant
            i <= last,
            last == chain@.len() - 1,
            contracts == tree.agreed(),
            outer == blocks_in(tree.sealed(), chain@).drop_last(),
            expected@.len() > 0,
            target == expected@.last().context,
            forall|k: int| 0 <= k < chain@.len() ==> (#[trigger] chain@[k]) < tree.sealed().len(),
            extra_fault(contracts, outer.take(i as int), expected@, name.text()) is None,
        decreases chain@.len() - i,
    {
        let context = tree.node(chain[i]).node.context;
        proof {
            assert(outer[i as int] == tree.sealed()[chain@[i as int] as int]);
            assert(outer.take(i + 1).drop_last() =~= outer.take(i as int));
            assert(outer.take(i + 1).last() == outer[i as int]);
        }
        match directive_contract(tree.contracts(), context, name) {
            Some(actual) => {
                if !expects_context(expected, context) {
                    proof {
                        lemma_extra_stays(contracts, outer, i + 1, expected@, name.text());
                    }
                    return Err(
                        ConfigQueryError::ContractMismatch {
                            directive: name,
                            context,
                            mismatch: DirectiveContractMismatch::Context {
                                expected: target,
                                actual: context,
                            },
                        },
                    );
                }
            },
            None => {},
        }
        i += 1;
    }
    assert(outer.take(i as int) =~= outer);
    Ok(())
}

/// The cascade policy of a directive on the way to a block.
fn cascade_policy(tree: &HomeConfigTree, chain: &Vec<usize>, name: DirectiveName) -> (result:
    Result<CascadePolicy, ConfigQueryError>)
    requires
        forall|i: int| 0 <= i < chain@.len() ==> (#[trigger] chain@[i]) < tree.sealed().len(),
    ensures
        ({
            let list = policies(
                tree.agreed(),
                blocks_in(tree.sealed(), chain@),
                name.text(),
            );
            match result {
                Ok(policy) => list.len() > 0 && policy == list.last().1 && forall|i: int|
                    0 < i < list.len() ==> list[i - 1].1 == (#[trigger] list[i]).1,
                Err(error) => !policies_ok(list) && policy_error(list, name.text(), error),
            }
        }),
{
    let ghost contracts = tree.agreed();
    let ghost blocks = blocks_in(tree.sealed(), chain@);
    let ghost full = policies(contracts, blocks, name.text());
    let mut inherited: Option<(ContextKey, CascadePolicy)> = None;
    let mut i: usize = 0;
    assert(blocks.take(0) =~= seq![]);
    while i < chain.len()
        invariant
            i <= chain@.len(),
            contracts == tree.agreed(),
            blocks == blocks_in(tree.sealed(), chain@),
            full == policies(contracts, blocks, name.text()),
            forall|k: int| 0 <= k < chain@.len() ==> (#[trigger] chain@[k]) < tree.sealed().len(),
            ({
                let list = policies(contracts, blocks.take(i as int), name.text());
                &&& forall|k: int| 0 < k < list.len() ==> list[k - 1].1 == (#[trigger] list[k]).1
                &&& match inherited {
                    Some((context, policy)) => list.len() > 0 && list.last() == (
                        context.text(),
                        policy,
                    ),
                    None => list.len() == 0,
                }
            }),
        decreases chain@.len() - i,
    {
        let ghost before = policies(contracts, blocks.take(i as int), name.text());
        let context = tree.node(chain[i]).node.context;
        proof {
            assert(blocks[i as int] == tree.sealed()[chain@[i as int] as int]);
            assert(blocks.take(i + 1).drop_last() =~= blocks.take(i as int));
            assert(blocks.take(i + 1).last() == blocks[i as int]);
        }
        match directive_contract(tree.contracts(), context, name) {
            Some(contract) => {
                let local = contract.cascade;
                let ghost now = before.push((context.text(), local));
                assert(now == policies(contracts, blocks.take(i + 1), name.text()));
                match inherited {
                    Some((outer, policy)) => {
                        if policy != local {
                            let error = ConfigQueryError::CascadePolicyMismatch {
                                directive: name.as_str().to_owned(),
                                inherited_context: outer,
                                inherited: policy,
                                local_context: context,
                                local,
                            };
                            proof {
                                lemma_policies_prefix(
                                    contracts,
                                    blocks,
                                    i + 1,
                                    name.text(),
                                );
                                let at = before.len() as int;
                                assert(full.take(now.len() as int) == now);
                                assert(full[at] == now[at]);
                                assert(full[at - 1] == now[at - 1]);
                                assert(now[at - 1] == before[at - 1]);
                                assert forall|k: int| 0 < k < at implies full[k - 1].1 == (
                                #[trigger] full[k]).1 by {
                                    assert(full[k] == now[k] && full[k - 1] == now[k - 1]);
                                    assert(now[k] == before[k] && now[k - 1] == before[k - 1]);
                                }
                                assert(full[at - 1].1 != full[at].1);
                            }
                            return Err(error);
                        }
                    },
                    None => {},
                }
                inherited = Some((context, local));
                assert forall|k: int| 0 < k < now.len() implies now[k - 1].1 == (
                #[trigger] now[k]).1 by {
                    if k < before.len() {
                        assert(now[k] == before[k] && now[k - 1] == before[k - 1]);
                    }
                }
            },
            None => {},
        }
        i += 1;
    }
    assert(blocks.take(i as int) =~= blocks);
    match inherited {
        Some((_, policy)) => Ok(policy),
        None => Err(
            ConfigQueryError::MissingCascadePolicy { directive: name.as_str().to_owned() },
        ),
    }
}

/// The policies on a part of the way come first on the whole way.
proof fn lemma_policies_prefix(
    contracts: Seq<DirectiveContract>,
    blocks: Seq<SealedView>,
    count: int,
    name: Seq<char>,
)
    requires
        0 <= count <= blocks.len(),
    ensures
        ({
            let part = policies(contracts, blocks.take(count), name);
            let full = policies(contracts, blocks, name);
            part.len() <= full.len() && full.take(part.len() as int) == part
        }),
    decreases blocks.len(),
{
    let part = policies(contracts, blocks.take(count), name);
    let full = policies(contracts, blocks, name);
    if count == blocks.len() {
        assert(blocks.take(count) =~= blocks);
        assert(full.take(part.len() as int) =~= part);
    } else {
        assert(blocks.drop_last().take(count) =~= blocks.take(count));
        lemma_policies_prefix(contracts, blocks.drop_last(), count, name);
        let before = policies(contracts, blocks.drop_last(), name);
        assert(full.take(part.len() as int) =~= before.take(part.len() as int));
    }
}

impl ConfigNodeRef {
    /// The nodes from the outermost to this one.
    fn chain(&self) -> (chain: Vec<usize>)
        ensures
            chain@.len() > 0,
            forall|i: int|
                0 <= i < chain@.len() ==> (#[trigger] chain@[i]) < self.in_tree().sealed().len(),
            blocks_in(self.in_tree().sealed(), chain@) == blocks_to(
                self.in_tree().sealed(),
                self.at().0 as int,
            ),
    {
        proof {
            use_type_invariant(self);
        }
        let ghost nodes = self.in_tree().sealed();
        let mut upward: Vec<usize> = Vec::new();
        let mut current: usize = self.node.0;
        let mut more = true;
        let first = self.tree.node(current);
        while more
            invariant
                nodes == self.in_tree().sealed(),
                hangs_together(nodes),
                current < nodes.len(),
                self.node.0 < nodes.len(),
                forall|i: int| 0 <= i < upward@.len() ==> (#[trigger] upward@[i]) < nodes.len(),
                !more ==> upward@.len() > 0,
                chain_of(nodes, self.node.0 as int) == (if more {
                    chain_of(nodes, current as int)
                } else {
                    seq![]
                }) + upward@.reverse().map_values(|i: usize| i as int),
            decreases (if more {
                    current + 1
                } else {
                    0
                }),
        {
            let ghost before = upward@;
            let ghost here = current;
            upward.push(current);
            assert(upward@.reverse().map_values(|i: usize| i as int) =~= seq![here as int]
                + before.reverse().map_values(|i: usize| i as int));
            match self.tree.node(current).parent {
                ParentLink::Root => {
                    more = false;
                    assert(chain_of(nodes, here as int) =~= seq![here as int]);
                },
                ParentLink::Node(parent) => {
                    assert(nodes[here as int].parent == ParentLink::Node(parent));
                    assert(here != 0);
                    assert(parent.0 < here);
                    current = parent.0;
                    assert(chain_of(nodes, here as int) == chain_of(nodes, current as int).push(
                        here as int,
                    ));
                    assert(chain_of(nodes, current as int).push(here as int)
                        + before.reverse().map_values(|i: usize| i as int) =~= chain_of(
                        nodes,
                        current as int,
                    ) + upward@.reverse().map_values(|i: usize| i as int));
                },
            }
        }
        let mut chain: Vec<usize> = Vec::new();
        let mut left: usize = upward.len();
        while left > 0
            invariant
                left <= upward@.len(),
                nodes == self.in_tree().sealed(),
                forall|i: int| 0 <= i < upward@.len() ==> (#[trigger] upward@[i]) < nodes.len(),
                chain@ == upward@.reverse().take(upward@.len() - left),
            decreases left,
        {
            let ghost done = upward@.len() - left;
            chain.push(upward[left - 1]);
            assert(upward@.reverse()[done] == upward@[left - 1]);
            assert(upward@.reverse().take(done + 1) =~= upward@.reverse().take(done).push(
                upward@.reverse()[done],
            ));
            left -= 1;
        }
        proof {
            assert(chain@ =~= upward@.reverse());
            assert forall|i: int| 0 <= i < chain@.len() implies (#[trigger] chain@[i])
                < nodes.len() by {
                assert(chain@[i] == upward@[upward@.len() - 1 - i]);
            }
            let all = chain_of(nodes, self.node.0 as int);
            assert(all =~= chain@.map_values(|i: usize| i as int));
            assert(blocks_in(nodes, chain@) =~= blocks_to(nodes, self.node.0 as int));
        }
        chain
    }

    /// The one value of a directive of the block.
    pub fn local<T: ConfigValue>(&self, key: &LocalDirectiveKey<T>) -> (result: Result<
        Option<&T>,
        ConfigQueryError,
    >)
        ensures
            asks_local::<T>(*self, key.expects(), found(result)),
    {
        match self.check_contract(key.contract()) {
            Ok(_) => self.config().get::<T>(key.name().as_str()),
            Err(error) => Err(error),
        }
    }

    /// All values of a directive of the block.
    pub fn repeated<T: ConfigValue>(&self, key: &RepeatedDirectiveKey<T>) -> (result: Result<
        Vec<&T>,
        ConfigQueryError,
    >)
        ensures
            match result {
                Ok(list) => asks_repeated::<T>(*self, key.expects(), Ok(list@)),
                Err(error) => asks_repeated::<T>(*self, key.expects(), Err(error)),
            },
    {
        match self.check_contract(key.contract()) {
            Ok(_) => self.config().get_all::<T>(key.name().as_str()),
            Err(error) => Err(error),
        }
    }

    /// The value that holds in the block, whether it sets one itself or takes one over.
    pub fn cascaded<'a, T: Inheritable>(&'a self, key: &'a DirectiveKey<T>) -> (result: Result<
        Option<CascadedValue<&'a T>>,
        ConfigQueryError,
    >)
        ensures
            cascades::<T>(self.in_tree(), self.at().0 as int, *key, cascade_answer(result)),
    {
        proof {
            use_type_invariant(self);
        }
        let name = key.name();
        let tree: &HomeConfigTree = &self.tree;
        let chain = self.chain();
        let ghost blocks = blocks_in(tree.sealed(), chain@);
        let expected = key.contracts();
        let target = chain[chain.len() - 1];
        let context = tree.node(target).node.context;
        let last = expected[expected.len() - 1];
        assert(blocks.last() == tree.sealed()[target as int]);
        match ensure_contract(last, directive_contract(tree.contracts(), context, name), context) {
            Ok(_) => {},
            Err(error) => {
                return Err(error);
            },
        }
        match check_outer_contracts(tree, &chain, expected, name) {
            Ok(_) => {},
            Err(error) => {
                return Err(error);
            },
        }
        match check_extra_contracts(tree, &chain, expected, name) {
            Ok(_) => {},
            Err(error) => {
                return Err(error);
            },
        }
        let policy = match cascade_policy(tree, &chain, name) {
            Ok(policy) => policy,
            Err(error) => {
                return Err(error);
            },
        };
        if policy != CascadePolicy::NearestWins && policy != CascadePolicy::ReplaceWhole {
            return Err(
                ConfigQueryError::UnsupportedCascadePolicy {
                    directive: name.as_str().to_owned(),
                    policy,
                },
            );
        }
        let result = gather(tree, &chain, key);
        result
    }
}

/// The value and the origins before any block is looked at.
fn gather_outside<'a, T: Inheritable>(
    inherited: Option<&'a RootInheritedConfigV1>,
    key: &'a DirectiveKey<T>,
) -> (start: (Option<&'a T>, Vec<ConfigOrigin>))
    ensures
        ({
            let config = match inherited {
                Some(config) => Some(*config),
                None => None,
            };
            let wanted = gathered_outside(*key, config);
            wanted.value == (match start.0 {
                Some(value) => Some(*value),
                None => None,
            }) && wanted.lineage == cascade_origins(start.1@)
        }),
{
    let directive = key.name();
    let mut lineage: Vec<ConfigOrigin> = Vec::new();
    let mut effective = key.builtin();
    if effective.is_some() {
        lineage.push(ConfigOrigin::Builtin { directive });
        assert(cascade_origins(lineage@) =~= seq![
            CascadeOriginView::Builtin { directive: key.directive() },
        ]);
    } else {
        assert(cascade_origins(lineage@) =~= seq![]);
    }
    match (inherited, key.field()) {
        (Some(config), Some(field)) => match T::field_value(config, field) {
            Some((value, origin)) => {
                effective = Some(value);
                let taken = inherited_origin(origin, directive);
                let ghost before = lineage@;
                let builtin = match &taken {
                    ConfigOrigin::Builtin { .. } => true,
                    _ => false,
                };
                if !builtin {
                    let ghost view = taken@;
                    lineage.push(taken);
                    assert(cascade_origins(lineage@) =~= cascade_origins(before).push(view));
                }
            },
            None => {},
        },
        _ => {},
    }
    (effective, lineage)
}

/// The value that holds after all blocks of a chain.
fn gather<'a, T: Inheritable>(
    tree: &'a HomeConfigTree,
    chain: &Vec<usize>,
    key: &'a DirectiveKey<T>,
) -> (result: Result<Option<CascadedValue<&'a T>>, ConfigQueryError>)
    requires
        forall|i: int| 0 <= i < chain@.len() ==> (#[trigger] chain@[i]) < tree.sealed().len(),
    ensures
        ({
            let blocks = blocks_in(tree.sealed(), chain@);
            match cascade_answer(result) {
                Ok(answer) => exists|end: Gathered<T>|
                    {
                        &&& #[trigger] gathers(
                            gathered_outside(*key, tree.inherited()),
                            blocks,
                            key.directive(),
                            end,
                        )
                        &&& answer == (match end.value {
                            Some(value) => Some((value, end.lineage)),
                            None => None,
                        })
                    },
                Err(error) => block_error::<T>(blocks, key.directive(), error),
            }
        }),
{
    let name = key.name();
    let ghost blocks = blocks_in(tree.sealed(), chain@);
    let ghost start = gathered_outside(*key, tree.inherited());
    let (first, origins) = gather_outside(tree.inherited_config(), key);
    let mut effective: Option<&'a T> = first;
    let mut lineage: Vec<ConfigOrigin> = origins;
    let ghost mut end = start;
    let mut i: usize = 0;
    assert(blocks.take(0) =~= seq![]);
    while i < chain.len()
        invariant
            i <= chain@.len(),
            blocks == blocks_in(tree.sealed(), chain@),
            start == gathered_outside(*key, tree.inherited()),
            name.text() == key.directive(),
            forall|k: int| 0 <= k < chain@.len() ==> (#[trigger] chain@[k]) < tree.sealed().len(),
            forall|k: int|
                0 <= k < i ==> answers::<T>((#[trigger] blocks[k]).node@.slot(key.directive())),
            gathers(start, blocks.take(i as int), key.directive(), end),
            end.value == (match effective {
                Some(value) => Some(*value),
                None => None,
            }),
            end.lineage == cascade_origins(lineage@),
        decreases chain@.len() - i,
    {
        let sealed = tree.node(chain[i]);
        proof {
            assert(blocks[i as int] == sealed@);
            assert(blocks.take(i + 1).drop_last() =~= blocks.take(i as int));
            assert(blocks.take(i + 1).last() == blocks[i as int]);
        }
        match sealed.node.get_with_span::<T>(name.as_str()) {
            Ok(Some((value, span))) => {
                effective = Some(value);
                let origin = match sealed.document_id {
                    Some(document_id) => ConfigOrigin::Source(
                        ConfigSourceSpan::new(document_id, span),
                    ),
                    None => ConfigOrigin::Builtin { directive: name },
                };
                let ghost before = lineage@;
                let ghost old_end = end;
                let ghost view = origin@;
                lineage.push(origin);
                proof {
                    assert(cascade_origins(lineage@) =~= cascade_origins(before).push(view));
                    end = Gathered { value: Some(*value), lineage: cascade_origins(lineage@) };
                    assert(end.lineage.drop_last() =~= old_end.lineage);
                    assert(is_value(old_end.value));
                    let earlier = Gathered {
                        value: old_end.value,
                        lineage: end.lineage.drop_last(),
                    };
                    assert(earlier == old_end);
                    assert(gathers(start, blocks.take(i + 1).drop_last(), key.directive(), earlier));
                    assert(is_block_origin(blocks[i as int], key.directive(), end.lineage.last()));
                    assert(gathers(start, blocks.take(i + 1), key.directive(), end));
                }
            },
            Ok(None) => {
                assert(answer::<T>(blocks[i as int].node@.slot(key.directive())) is None);
                assert(gathers(start, blocks.take(i + 1), key.directive(), end));
            },
            Err(error) => {
                assert(!answers::<T>(blocks[i as int].node@.slot(key.directive())));
                return Err(error);
            },
        }
        i += 1;
    }
    assert(blocks.take(i as int) =~= blocks);
    match effective {
        Some(value) => Ok(Some(CascadedValue::new(value, lineage))),
        None => Ok(None),
    }
}

impl HomeConfigTree {
    /// The outermost node of a tree.
    pub fn root(tree: &Arc<HomeConfigTree>) -> (reference: ConfigNodeRef)
        ensures
            reference.in_tree() == **tree,
            reference.at() == ConfigNodeId(0),
    {
        let count = tree.node_count();
        ConfigNodeRef::new(Arc::clone(tree), ConfigNodeId(0))
    }

    /// The `pishoo` block of a tree.
    pub fn pishoo(tree: &Arc<HomeConfigTree>) -> (reference: ConfigNodeRef)
        ensures
            reference.in_tree() == **tree,
            reference.at() == ConfigNodeId(1),
    {
        let count = tree.node_count();
        ConfigNodeRef::new(Arc::clone(tree), ConfigNodeId(1))
    }

    /// The servers of a tree.
    pub fn servers(tree: &Arc<HomeConfigTree>) -> (list: Vec<ServerConfigRef>)
        ensures
            list@.len() == tree.server_nodes().len(),
            forall|i: int|
                0 <= i < list@.len() ==> (#[trigger] list@[i]).0.in_tree() == **tree
                    && list@[i].0.at() == tree.server_nodes()[i],
    {
        let ids = tree.server_list();
        let mut list: Vec<ServerConfigRef> = Vec::new();
        let mut i: usize = 0;
        while i < ids.len()
            invariant
                i <= ids@.len(),
                ids@ == tree.server_nodes(),
                forall|k: int|
                    0 <= k < ids@.len() ==> (#[trigger] ids@[k]).0 < tree.sealed().len(),
                list@.len() == i,
                forall|k: int|
                    0 <= k < i ==> (#[trigger] list@[k]).0.in_tree() == **tree
                        && list@[k].0.at() == ids@[k],
            decreases ids@.len() - i,
        {
            assert(ids@[i as int].0 < tree.sealed().len());
            list.push(ServerConfigRef(ConfigNodeRef::new(Arc::clone(tree), ids[i])));
            i += 1;
        }
        list
    }
}

impl ServerConfigRef {
    pub fn node(&self) -> (node: &ConfigNodeRef)
        ensures
            *node == self.0,
    {
        &self.0
    }

    pub fn tree(&self) -> (tree: &Arc<HomeConfigTree>)
        ensures
            **tree == self.0.in_tree(),
    {
        self.0.tree()
    }

    /// The locations of the server.
    pub fn locations(&self) -> (list: Vec<LocationConfigRef>)
        ensures
            list@.len() == self.0.block().children.len(),
            forall|i: int|
                0 <= i < list@.len() ==> (#[trigger] list@[i]).0.in_tree() == self.0.in_tree()
                    && list@[i].0.at() == self.0.block().children[i],
    {
        proof {
            use_type_invariant(&self.0);
        }
        let sealed = self.0.tree.node(self.0.node.0);
        let ghost nodes = self.0.in_tree().sealed();
        let ghost at = self.0.at().0 as int;
        let mut list: Vec<LocationConfigRef> = Vec::new();
        let mut i: usize = 0;
        while i < sealed.children.len()
            invariant
                i <= sealed.children@.len(),
                nodes == self.0.in_tree().sealed(),
                0 <= at < nodes.len(),
                sealed@ == nodes[at],
                hangs_together(nodes),
                list@.len() == i,
                forall|k: int|
                    0 <= k < i ==> (#[trigger] list@[k]).0.in_tree() == self.0.in_tree()
                        && list@[k].0.at() == sealed.children@[k],
            decreases sealed.children@.len() - i,
        {
            let child = sealed.children[i];
            assert(nodes[at].children[i as int] == child);
            list.push(LocationConfigRef(ConfigNodeRef::new(Arc::clone(&self.0.tree), child)));
            i += 1;
        }
        list
    }
}

impl LocationConfigRef {
    pub fn node(&self) -> (node: &ConfigNodeRef)
        ensures
            *node == self.0,
    {
        &self.0
    }

    pub fn tree(&self) -> (tree: &Arc<HomeConfigTree>)
        ensures
            **tree == self.0.in_tree(),
    {
        self.0.tree()
    }

    /// What the arguments of the block say.
    pub fn payload<T: ConfigValue>(&self, key: &ContextPayloadKey<T>) -> (result: Result<
        &T,
        ConfigQueryError,
    >)
        ensures
            match result {
                Ok(value) => asks_payload::<T>(self.0, key.expects(), Ok(*value)),
                Err(error) => asks_payload::<T>(self.0, key.expects(), Err(error)),
            },
    {
        match self.0.check_contract(key.contract()) {
            Ok(_) => {},
            Err(error) => {
                return Err(error);
            },
        }
        match self.0.config().payload::<T>() {
            Ok(Some(value)) => Ok(value),
            Ok(None) => Err(
                ConfigQueryError::MissingRequired {
                    directive: key.name().as_str().to_owned(),
                    span: self.0.config().span,
                },
            ),
            Err(error) => Err(error),
        }
    }
}

/// The sources of a document: those of the first that has its number.
pub open spec fn sources_of(
    documents: Seq<(u32, Arc<ConfigDocumentSourceMap>)>,
    index: u32,
) -> Option<Arc<ConfigDocumentSourceMap>>
    decreases documents.len(),
{
    if documents.len() == 0 {
        None
    } else {
        match sources_of(documents.drop_last(), index) {
            Some(sources) => Some(sources),
            None => if documents.last().0 == index {
                Some(documents.last().1)
            } else {
                None
            },
        }
    }
}

/// The source that holds a place.
pub open spec fn source_at(
    documents: Seq<(u32, Arc<ConfigDocumentSourceMap>)>,
    span: ConfigSourceSpan,
) -> Option<SourceFile> {
    match sources_of(documents, span.document().index()) {
        Some(sources) => sources.sources().source(span.source().source_id),
        None => None,
    }
}

/// What naming a place for another process gives.
pub open spec fn locates(
    documents: Seq<(u32, Arc<ConfigDocumentSourceMap>)>,
    span: ConfigSourceSpan,
    result: Result<LocationView, RootConfigSnapshotError>,
) -> bool {
    match source_at(documents, span) {
        None => result matches Err(RootConfigSnapshotError::MissingSourceLocation),
        Some(file) => {
            let position = position_in(file, span.source().start);
            if path_view(file.path) matches Some(path) && !is_resolved(path) {
                result matches Err(RootConfigSnapshotError::SourcePath { path }) && Some(path@)
                    == path_view(file.path)
            } else if position.line > u32::MAX || position.column > u32::MAX {
                result matches Err(RootConfigSnapshotError::SourceLocation { line, column }) && line
                    == position.line && column == position.column
            } else {
                result matches Ok(location) && location == (LocationView {
                    document: path_view(file.path),
                    line: position.line as u32,
                    column: position.column as u32,
                })
            }
        },
    }
}

impl ConfigSourceBundle {
    fn find(&self, document_id: ConfigDocumentId) -> (sources: Option<&SourceMap>)
        ensures
            match sources {
                Some(sources) => sources_of(
                    owner_views(self.owners@),
                    document_id.index(),
                ) matches Some(owned) && owned.sources() == *sources,
                None => sources_of(owner_views(self.owners@), document_id.index()) is None,
            },
            self.wf() ==> (sources matches Some(sources) ==> sources.wf()),
    {
        let ghost all = owner_views(self.owners@);
        let mut i: usize = 0;
        assert(all.take(0) =~= seq![]);
        while i < self.owners.len()
            invariant
                i <= self.owners@.len(),
                all == owner_views(self.owners@),
                sources_of(all.take(i as int), document_id.index()) is None,
            decreases self.owners@.len() - i,
        {
            let owner = &self.owners[i];
            proof {
                assert(all.take(i + 1).drop_last() =~= all.take(i as int));
                assert(all.take(i + 1).last() == (owner.document_id.index(), owner.sources));
            }
            if owner.document_id == document_id {
                proof {
                    lemma_sources_stay(all, i + 1, document_id.index());
                }
                return Some(owner.sources.source_map());
            }
            proof {
                if owner.document_id.index() == document_id.index() {
                    crate::parse::domain::document_index_identifies(
                        owner.document_id,
                        document_id,
                    );
                }
            }
            i += 1;
        }
        assert(all.take(i as int) =~= all);
        None
    }

    /// The path of the source that holds a place.
    pub fn source_path(&self, span: ConfigSourceSpan) -> (path: Option<&UnixPath>)
        ensures
            match path {
                Some(path) => source_at(owner_views(self.owners@), span) matches Some(file)
                    && file.path == Some(*path),
                None => source_at(owner_views(self.owners@), span) matches Some(file) ==> file.path
                    is None,
            },
    {
        match self.find(span.document_id()) {
            Some(sources) => match sources.get(span.source_span().source_id) {
                Some(source) => source.path.as_ref(),
                None => None,
            },
            None => None,
        }
    }

    /// Names a place for another process.
    pub fn inherited_source_location(&self, span: ConfigSourceSpan) -> (result: Result<
        InheritedSourceLocation,
        RootConfigSnapshotError,
    >)
        requires
            self.wf(),
        ensures
            match result {
                Ok(location) => locates(owner_views(self.owners@), span, Ok(location@)),
                Err(error) => locates(owner_views(self.owners@), span, Err(error)),
            },
    {
        let source_map = match self.find(span.document_id()) {
            Some(source_map) => source_map,
            None => {
                return Err(RootConfigSnapshotError::MissingSourceLocation);
            },
        };
        let place = span.source_span();
        let source = match source_map.get(place.source_id) {
            Some(source) => source,
            None => {
                return Err(RootConfigSnapshotError::MissingSourceLocation);
            },
        };
        if let Some(path) = &source.path {
            if !path.is_absolute() || path.has_nul() {
                return Err(RootConfigSnapshotError::SourcePath { path: path.clone() });
            }
        }
        let position = match source_map.line_column(place) {
            Some(position) => position,
            None => {
                return Err(RootConfigSnapshotError::MissingSourceLocation);
            },
        };
        proof {
            assert(source_map@[place.source_id.0 as int].wf());
            position_is_unique(
                *source,
                place.start,
                position,
                position_in(*source, place.start),
            );
        }
        if position.line > 0xffff_ffff || position.column > 0xffff_ffff {
            return Err(
                RootConfigSnapshotError::SourceLocation {
                    line: position.line,
                    column: position.column,
                },
            );
        }
        let document = match &source.path {
            Some(path) => Some(path.clone()),
            None => None,
        };
        match (OneBased::new(position.line as u32), OneBased::new(position.column as u32)) {
            (Some(line), Some(column)) => Ok(InheritedSourceLocation::new(document, line, column)),
            _ => {
                assert(false);
                Err(RootConfigSnapshotError::MissingSourceLocation)
            },
        }
    }
}

/// The sources that are found first stay the ones that are found.
proof fn lemma_sources_stay(
    documents: Seq<(u32, Arc<ConfigDocumentSourceMap>)>,
    count: int,
    index: u32,
)
    requires
        0 <= count <= documents.len(),
        sources_of(documents.take(count), index) is Some,
    ensures
        sources_of(documents, index) == sources_of(documents.take(count), index),
    decreases documents.len(),
{
    if count == documents.len() {
        assert(documents.take(count) =~= documents);
    } else {
        assert(documents.drop_last().take(count) =~= documents.take(count));
        lemma_sources_stay(documents.drop_last(), count, index);
    }
}

/// The contract of a directive in a context is one of the list that names both. Of several, one for
/// a single value goes before one for repeated values, that before one for the arguments of a block,
/// and the first of its sort before the others. None is found only where none names both.
pub proof fn contracts_are_found_by_name_and_context(
    contracts: Seq<DirectiveContract>,
    context: Seq<char>,
    name: Seq<char>,
)
    ensures
        match lookup(contracts, context, name) {
            Some(contract) => exists|at: int|
                {
                    &&& 0 <= at < contracts.len()
                    &&& #[trigger] contracts[at] == contract
                    &&& contract.context.text() == context
                    &&& contract.name.text() == name
                    &&& forall|i: int|
                        0 <= i < contracts.len() && (#[trigger] contracts[i]).context.text()
                            == context && contracts[i].name.text() == name ==> {
                            &&& contract.cardinality is Repeated ==> contracts[i].cardinality
                                !is Single
                            &&& contract.cardinality is ContextPayload
                                ==> contracts[i].cardinality is ContextPayload
                            &&& contracts[i].cardinality == contract.cardinality ==> at <= i
                        }
                },
            None => forall|i: int|
                0 <= i < contracts.len() ==> !((#[trigger] contracts[i]).context.text() == context
                    && contracts[i].name.text() == name),
        },
    decreases contracts.len(),
{
    if contracts.len() > 0 {
        let init = contracts.drop_last();
        contracts_are_found_by_name_and_context(init, context, name);
        assert(forall|i: int| 0 <= i < init.len() ==> #[trigger] contracts[i] == init[i]);
        let last = contracts.len() - 1;
        match lookup(init, context, name) {
            Some(before) => {
                let at = choose|at: int|
                    {
                        &&& 0 <= at < init.len()
                        &&& #[trigger] init[at] == before
                        &&& before.context.text() == context
                        &&& before.name.text() == name
                        &&& forall|i: int|
                            0 <= i < init.len() && (#[trigger] init[i]).context.text() == context
                                && init[i].name.text() == name ==> {
                                &&& before.cardinality is Repeated ==> init[i].cardinality
                                    !is Single
                                &&& before.cardinality is ContextPayload
                                    ==> init[i].cardinality is ContextPayload
                                &&& init[i].cardinality == before.cardinality ==> at <= i
                            }
                    };
                if lookup(contracts, context, name) == Some(before) && before != contracts[last] {
                    assert(contracts[at] == before);
                } else if lookup(contracts, context, name) == Some(before) {
                    assert(contracts[at] == before);
                } else {
                    assert(contracts[last] == contracts.last());
                }
            },
            None => {
                assert(contracts[last] == contracts.last());
            },
        }
    }
}

/// A contract is the expected one where it is known and the two say the same of the name, the
/// context, the sort and number of values, the shape, and what becomes of doubles and of outer values.
pub proof fn agreed_contracts_say_the_same(
    expected: DirectiveContract,
    actual: Option<DirectiveContract>,
)
    ensures
        is_agreed(expected, actual) == (actual is Some && {
            let actual = actual->0;
            &&& actual.name.text() == expected.name.text()
            &&& actual.context.text() == expected.context.text()
            &&& actual.value_type == expected.value_type
            &&& actual.cardinality == expected.cardinality
            &&& actual.duplicate == expected.duplicate
            &&& actual.cascade == expected.cascade
            &&& actual.shape is Leaf == expected.shape is Leaf
            &&& actual.shape is RawBlock == expected.shape is RawBlock
            &&& expected.shape is ContextBlock ==> actual.shape->payload == expected.shape->payload
                && actual.shape->child_context.text() == expected.shape->child_context.text()
        }),
{
    if let Some(actual) = actual {
        match (expected.shape, actual.shape) {
            (
                DirectiveShape::ContextBlock { child_context: a, payload: p },
                DirectiveShape::ContextBlock { child_context: b, payload: q },
            ) => {},
            _ => {},
        }
    }
}

/// The way to a node begins at the outermost one, ends at the node, and goes at every step from a
/// node to one that hangs right under it.
pub proof fn way_goes_from_parent_to_child(nodes: Seq<SealedView>, at: int)
    requires
        hangs_together(nodes),
        0 <= at < nodes.len(),
    ensures
        chain_of(nodes, at).len() > 0,
        chain_of(nodes, at)[0] == 0,
        chain_of(nodes, at).last() == at,
        forall|i: int|
            0 <= i < chain_of(nodes, at).len() ==> 0 <= (#[trigger] chain_of(nodes, at)[i])
                < nodes.len(),
        forall|i: int|
            0 < i < chain_of(nodes, at).len() ==> nodes[#[trigger] chain_of(nodes, at)[i]].parent
                == ParentLink::Node(ConfigNodeId(chain_of(nodes, at)[i - 1] as usize)),
        blocks_to(nodes, at).len() == chain_of(nodes, at).len(),
        forall|i: int|
            0 <= i < chain_of(nodes, at).len() ==> #[trigger] blocks_to(nodes, at)[i]
                == nodes[chain_of(nodes, at)[i]],
    decreases at,
{
    if at > 0 {
        let parent = nodes[at].parent->Node_0;
        way_goes_from_parent_to_child(nodes, parent.0 as int);
        let before = chain_of(nodes, parent.0 as int);
        assert(chain_of(nodes, at) == before.push(at));
        assert(before.last() == parent.0);
    }
}

/// Whether a block sets a value for a directive.
pub open spec fn sets<T: Inheritable>(name: Seq<char>) -> spec_fn(SealedView) -> bool {
    |block: SealedView| answer::<T>(block.node@.slot(name)) is Some
}

/// The origins of a value begin with those from outside. After them comes one for every block that
/// sets a value, in the order of the blocks: the document of the block and the place of the directive.
pub proof fn every_origin_is_told<T: Inheritable>(
    start: Gathered<T>,
    blocks: Seq<SealedView>,
    name: Seq<char>,
    end: Gathered<T>,
)
    requires
        gathers(start, blocks, name, end),
    ensures
        end.lineage.len() == start.lineage.len() + blocks.filter(sets::<T>(name)).len(),
        forall|i: int| 0 <= i < start.lineage.len() ==> #[trigger] end.lineage[i] == start.lineage[i],
        forall|i: int|
            start.lineage.len() <= i < end.lineage.len() ==> {
                let block = blocks.filter(sets::<T>(name))[i - start.lineage.len()];
                match (#[trigger] end.lineage[i]) {
                    CascadeOriginView::Source(span) => block.document == Some(span.document().index())
                        && block.node@.slot(name)[0].place() == span.source(),
                    CascadeOriginView::Builtin { directive } => block.document is None && directive
                        == name,
                    _ => false,
                }
            },
    decreases blocks.len(),
{
    reveal(Seq::filter);
    if blocks.len() > 0 {
        let init = blocks.drop_last();
        let pred = sets::<T>(name);
        let block = blocks.last();
        match answer::<T>(block.node@.slot(name)) {
            None => {
                every_origin_is_told(start, init, name, end);
                assert(blocks.filter(pred) == init.filter(pred));
            },
            Some(value) => {
                let before = choose|before: Option<T>| #[trigger]
                    is_value(before) && gathers(
                        start,
                        init,
                        name,
                        Gathered { value: before, lineage: end.lineage.drop_last() },
                    );
                let earlier = Gathered { value: before, lineage: end.lineage.drop_last() };
                every_origin_is_told(start, init, name, earlier);
                assert(blocks.filter(pred) == init.filter(pred).push(block));
                assert(forall|i: int|
                    0 <= i < earlier.lineage.len() ==> #[trigger] end.lineage[i]
                        == earlier.lineage[i]);
            },
        }
    }
}

/// Outside of all blocks a value is the one taken over from the root; where none is taken over, the
/// one that is built in.
pub proof fn outer_value_is_taken_over_or_built_in<T: Inheritable>(
    key: DirectiveKey<T>,
    inherited: Option<RootInheritedConfigV1>,
)
    ensures
        (inherited is None || key.snapshot_field() is None || T::of_field(
            inherited->0,
            key.snapshot_field()->0,
        ) is None) ==> gathered_outside(key, inherited).value == key.fallback(),
        inherited is Some && key.snapshot_field() is Some ==> (T::of_field(
            inherited->0,
            key.snapshot_field()->0,
        ) matches Some(taken) ==> gathered_outside(key, inherited).value == Some(taken.0)),
        key.fallback() is Some ==> gathered_outside(key, inherited).lineage.len() > 0
            && gathered_outside(key, inherited).lineage[0] == (CascadeOriginView::Builtin {
            directive: key.directive(),
        }),
        gathered_outside(key, inherited).value is None ==> gathered_outside(
            key,
            inherited,
        ).lineage.len() == 0,
{
}

/// A value is asked for as expected where the contract of the innermost block is the expected one,
/// where each of the other expected contexts is on the way and has the expected contract, and where
/// no block on the way has the directive in a context that is not expected.
pub proof fn undisputed_way_has_the_expected_contracts(
    contracts: Seq<DirectiveContract>,
    blocks: Seq<SealedView>,
    expected: Seq<DirectiveContract>,
    name: Seq<char>,
)
    requires
        blocks.len() > 0,
        expected.len() > 0,
    ensures
        chain_fault(contracts, blocks, expected, name) is None <==> {
            &&& is_agreed(expected.last(), lookup(contracts, context_of(blocks.last()), name))
            &&& forall|i: int|
                0 <= i < expected.len() - 1 ==> {
                    let context = (#[trigger] expected[i]).context.text();
                    &&& exists|k: int|
                        0 <= k < blocks.len() && (#[trigger] blocks[k]).node@.context == context
                    &&& is_agreed(expected[i], lookup(contracts, context, name))
                }
            &&& forall|k: int|
                0 <= k < blocks.len() - 1 ==> {
                    let context = (#[trigger] blocks[k]).node@.context;
                    lookup(contracts, context, name) is Some ==> exists|i: int|
                        0 <= i < expected.len() && (#[trigger] expected[i]).context.text()
                            == context
                }
        },
{
    lemma_outer_fault(contracts, blocks, expected.drop_last(), name);
    lemma_extra_fault(contracts, blocks.drop_last(), expected, name);
    assert(forall|i: int|
        0 <= i < expected.len() - 1 ==> #[trigger] expected[i] == expected.drop_last()[i]);
    assert(forall|i: int|
        0 <= i < blocks.len() - 1 ==> #[trigger] blocks[i] == blocks.drop_last()[i]);
    assert(forall|i: int|
        0 <= i < expected.len() - 1 ==> #[trigger] expected.drop_last()[i] == expected[i]);
    assert(forall|i: int|
        0 <= i < blocks.len() - 1 ==> #[trigger] blocks.drop_last()[i] == blocks[i]);
}

proof fn lemma_outer_fault(
    contracts: Seq<DirectiveContract>,
    blocks: Seq<SealedView>,
    expected: Seq<DirectiveContract>,
    name: Seq<char>,
)
    ensures
        outer_fault(contracts, blocks, expected, name) is None <==> forall|i: int|
            0 <= i < expected.len() ==> has_context(
                blocks,
                (#[trigger] expected[i]).context.text(),
            ) && is_agreed(expected[i], lookup(contracts, expected[i].context.text(), name)),
    decreases expected.len(),
{
    if expected.len() > 0 {
        let init = expected.drop_last();
        lemma_outer_fault(contracts, blocks, init, name);
        assert(forall|i: int| 0 <= i < init.len() ==> #[trigger] init[i] == expected[i]);
        assert(expected[expected.len() - 1] == expected.last());
        assert(forall|i: int|
            0 <= i < expected.len() - 1 ==> #[trigger] expected[i] == init[i]);
    }
}

proof fn lemma_extra_fault(
    contracts: Seq<DirectiveContract>,
    outer: Seq<SealedView>,
    expected: Seq<DirectiveContract>,
    name: Seq<char>,
)
    ensures
        extra_fault(contracts, outer, expected, name) is None <==> forall|k: int|
            0 <= k < outer.len() ==> lookup(
                contracts,
                context_of(#[trigger] outer[k]),
                name,
            ) is Some ==> is_expected(expected, context_of(outer[k])),
    decreases outer.len(),
{
    if outer.len() > 0 {
        let init = outer.drop_last();
        lemma_extra_fault(contracts, init, expected, name);
        assert(forall|i: int| 0 <= i < init.len() ==> #[trigger] init[i] == outer[i]);
        assert(outer[outer.len() - 1] == outer.last());
        assert(forall|i: int| 0 <= i < outer.len() - 1 ==> #[trigger] outer[i] == init[i]);
    }
}

/// A directive is taken over only where some block on the way knows it, and all that know it say
/// that the nearest value wins or all say that a value replaces the other as a whole.
pub proof fn values_cascade_under_one_policy(
    contracts: Seq<DirectiveContract>,
    blocks: Seq<SealedView>,
    name: Seq<char>,
)
    requires
        policies_ok(policies(contracts, blocks, name)),
    ensures
        exists|at: int|
            0 <= at < blocks.len() && lookup(
                contracts,
                (#[trigger] blocks[at]).node@.context,
                name,
            ) is Some,
        forall|i: int|
            0 <= i < blocks.len() ==> (lookup(
                contracts,
                (#[trigger] blocks[i]).node@.context,
                name,
            ) matches Some(own) ==> own.cascade is NearestWins || own.cascade is ReplaceWhole),
        forall|i: int, k: int|
            0 <= i < blocks.len() && 0 <= k < blocks.len() ==> (lookup(
                contracts,
                (#[trigger] blocks[i]).node@.context,
                name,
            ) matches Some(own) ==> (lookup(
                contracts,
                (#[trigger] blocks[k]).node@.context,
                name,
            ) matches Some(other) ==> own.cascade == other.cascade)),
{
    let list = policies(contracts, blocks, name);
    lemma_policies(contracts, blocks, name);
    lemma_same_policy(list);
    let last = list.len() - 1;
    let from = choose|from: int|
        0 <= from < blocks.len() && is_policy_of(
            contracts,
            #[trigger] blocks[from],
            name,
            list[last],
        );
    assert(lookup(contracts, blocks[from].node@.context, name) is Some);
    assert forall|i: int| 0 <= i < blocks.len() implies (lookup(
        contracts,
        (#[trigger] blocks[i]).node@.context,
        name,
    ) matches Some(own) ==> own.cascade == list.last().1) by {
        if lookup(contracts, context_of(blocks[i]), name) is Some {
            let k = choose|k: int|
                0 <= k < list.len() && is_policy_of(contracts, blocks[i], name, #[trigger] list[k]);
            assert(list[k].1 == list.last().1);
        }
    }
}

/// A directive is taken over wherever a block on the way says that the nearest value wins or that a
/// value replaces the other as a whole, and all that know the directive say the same.
pub proof fn one_policy_lets_values_cascade(
    contracts: Seq<DirectiveContract>,
    blocks: Seq<SealedView>,
    name: Seq<char>,
    at: int,
    policy: CascadePolicy,
)
    requires
        0 <= at < blocks.len(),
        lookup(contracts, blocks[at].node@.context, name) is Some,
        policy is NearestWins || policy is ReplaceWhole,
        forall|i: int|
            0 <= i < blocks.len() ==> (lookup(
                contracts,
                (#[trigger] blocks[i]).node@.context,
                name,
            ) matches Some(own) ==> own.cascade == policy),
    ensures
        policies_ok(policies(contracts, blocks, name)),
{
    let list = policies(contracts, blocks, name);
    lemma_policies(contracts, blocks, name);
    assert forall|k: int| 0 <= k < list.len() implies (#[trigger] list[k]).1 == policy by {
        let from = choose|from: int|
            0 <= from < blocks.len() && is_policy_of(
                contracts,
                #[trigger] blocks[from],
                name,
                list[k],
            );
        assert(lookup(contracts, blocks[from].node@.context, name) is Some);
    }
    assert(lookup(contracts, context_of(blocks[at]), name) is Some);
    let k = choose|k: int|
        0 <= k < list.len() && is_policy_of(contracts, blocks[at], name, #[trigger] list[k]);
    assert(list[list.len() - 1].1 == policy);
    assert forall|i: int| 0 < i < list.len() implies list[i - 1].1 == (#[trigger] list[i]).1 by {
        assert(list[i - 1].1 == policy);
    }
}

spec fn is_policy_of(
    contracts: Seq<DirectiveContract>,
    block: SealedView,
    name: Seq<char>,
    entry: (Seq<char>, CascadePolicy),
) -> bool {
    lookup(contracts, context_of(block), name) matches Some(contract) && entry == (
        context_of(block),
        contract.cascade,
    )
}

proof fn lemma_policies(
    contracts: Seq<DirectiveContract>,
    blocks: Seq<SealedView>,
    name: Seq<char>,
)
    ensures
        forall|k: int|
            0 <= k < policies(contracts, blocks, name).len() ==> exists|from: int|
                0 <= from < blocks.len() && is_policy_of(
                    contracts,
                    #[trigger] blocks[from],
                    name,
                    #[trigger] policies(contracts, blocks, name)[k],
                ),
        forall|i: int|
            0 <= i < blocks.len() && lookup(
                contracts,
                context_of(#[trigger] blocks[i]),
                name,
            ) is Some ==> exists|k: int|
                0 <= k < policies(contracts, blocks, name).len() && is_policy_of(
                    contracts,
                    blocks[i],
                    name,
                    #[trigger] policies(contracts, blocks, name)[k],
                ),
    decreases blocks.len(),
{
    let list = policies(contracts, blocks, name);
    if blocks.len() > 0 {
        let init = blocks.drop_last();
        lemma_policies(contracts, init, name);
        let before = policies(contracts, init, name);
        let last = blocks.len() - 1;
        assert forall|k: int| 0 <= k < list.len() implies exists|from: int|
            0 <= from < blocks.len() && is_policy_of(
                contracts,
                #[trigger] blocks[from],
                name,
                #[trigger] list[k],
            ) by {
            if k < before.len() {
                assert(list[k] == before[k]);
                let from = choose|from: int|
                    0 <= from < init.len() && is_policy_of(
                        contracts,
                        #[trigger] init[from],
                        name,
                        before[k],
                    );
                assert(blocks[from] == init[from]);
            } else {
                assert(is_policy_of(contracts, blocks[last], name, list[k]));
            }
        }
        assert forall|i: int|
            0 <= i < blocks.len() && lookup(
                contracts,
                context_of(#[trigger] blocks[i]),
                name,
            ) is Some implies exists|k: int|
            0 <= k < list.len() && is_policy_of(contracts, blocks[i], name, #[trigger] list[k]) by {
            if i < last {
                assert(init[i] == blocks[i]);
                let k = choose|k: int|
                    0 <= k < before.len() && is_policy_of(
                        contracts,
                        init[i],
                        name,
                        #[trigger] before[k],
                    );
                assert(list[k] == before[k]);
            } else {
                assert(is_policy_of(contracts, blocks[i], name, list[list.len() - 1]));
            }
        }
    }
}

proof fn lemma_same_policy(list: Seq<(Seq<char>, CascadePolicy)>)
    requires
        list.len() > 0,
        forall|i: int| 0 < i < list.len() ==> list[i - 1].1 == (#[trigger] list[i]).1,
    ensures
        forall|i: int| 0 <= i < list.len() ==> (#[trigger] list[i]).1 == list.last().1,
    decreases list.len(),
{
    if list.len() > 1 {
        let init = list.drop_last();
        assert forall|i: int| 0 < i < init.len() implies init[i - 1].1 == (#[trigger] init[i]).1 by {
            assert(init[i] == list[i] && init[i - 1] == list[i - 1]);
        }
        lemma_same_policy(init);
        assert(list[list.len() - 1].1 == list[list.len() - 2].1);
        assert forall|i: int| 0 <= i < list.len() implies (#[trigger] list[i]).1 == list.last().1 by {
            if i < list.len() - 1 {
                assert(init[i] == list[i]);
            }
        }
    }
}

/// A place is named for another process by the path of its document, its line and its column. It is
/// refused where the path is relative or holds a NUL, or where a number does not fit in 32 bits.
pub proof fn places_are_named_for_others(
    documents: Seq<(u32, Arc<ConfigDocumentSourceMap>)>,
    span: ConfigSourceSpan,
    file: SourceFile,
    position: LineColumn,
    result: Result<LocationView, RootConfigSnapshotError>,
)
    requires
        locates(documents, span, result),
        source_at(documents, span) == Some(file),
        file.wf(),
        file.is_position(span.source().start, position),
    ensures
        result matches Ok(location) ==> location.line == position.line && location.column
            == position.column && match file.path {
            Some(path) => location.document == Some(path@) && path@.len() > 0 && path@[0] == 47,
            None => location.document is None,
        },
        result is Err ==> position.line > 4294967295 || position.column > 4294967295 || (
        file.path matches Some(path) && (path@.len() == 0 || path@[0] != 47 || path@.contains(0u8))),
{
    position_is_unique(
        file,
        span.source().start,
        position,
        position_in(file, span.source().start),
    );
}

/// The sources of a document are those that stand first under its number.
pub proof fn first_sources_of_a_number_count(
    documents: Seq<(u32, Arc<ConfigDocumentSourceMap>)>,
    index: u32,
)
    ensures
        match sources_of(documents, index) {
            Some(sources) => exists|i: int|
                {
                    &&& 0 <= i < documents.len()
                    &&& #[trigger] documents[i] == (index, sources)
                    &&& forall|k: int| 0 <= k < i ==> (#[trigger] documents[k]).0 != index
                },
            None => forall|k: int|
                0 <= k < documents.len() ==> (#[trigger] documents[k]).0 != index,
        },
    decreases documents.len(),
{
    if documents.len() > 0 {
        let init = documents.drop_last();
        first_sources_of_a_number_count(init, index);
        assert(forall|k: int| 0 <= k < init.len() ==> #[trigger] documents[k] == init[k]);
        assert(forall|k: int| 0 <= k < init.len() ==> #[trigger] init[k] == documents[k]);
        let last = documents.len() - 1;
        assert(documents[last] == documents.last());
        if let Some(sources) = sources_of(init, index) {
            let i = choose|i: int|
                {
                    &&& 0 <= i < init.len()
                    &&& #[trigger] init[i] == (index, sources)
                    &&& forall|k: int| 0 <= k < i ==> (#[trigger] init[k]).0 != index
                };
            assert(documents[i] == (index, sources));
        } else if documents.last().0 == index {
            assert(documents[last] == (index, documents.last().1));
        }
    }
}

} // verus!
