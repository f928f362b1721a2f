//! What is agreed on a directive: where it stands, what it holds, and how it bears on others.
use vstd::prelude::*;

use crate::parse::context::ContextKey;
use crate::parse::domain::DirectiveName;
use crate::parse::value::{ConfigValue, ValueKind};
use crate::text::push_str;

verus! {

/// Whether the arguments of a block directive are read.
#[derive(Debug, Clone, Copy, PartialEq, Eq, Structural)]
pub enum PayloadMode {
    Nothing,
    Parser,
}

impl PayloadMode {
    /// How it is called in messages.
    pub open spec fn text(self) -> Seq<char> {
        match self {
            PayloadMode::Nothing => "None"@,
            PayloadMode::Parser => "Parser"@,
        }
    }

    /// How it is called in messages.
    pub fn to_text(&self) -> (text: String)
        ensures
            text@ == self.text(),
    {
        match self {
            PayloadMode::Nothing => "None".to_owned(),
            PayloadMode::Parser => "Parser".to_owned(),
        }
    }
}

/// What happens when a directive stands in a block twice.
#[derive(Debug, Clone, Copy, PartialEq, Eq, Structural)]
pub enum DuplicatePolicy {
    Reject,
    LastWins,
    Append,
}

impl DuplicatePolicy {
    /// How it is called in messages.
    pub open spec fn text(self) -> Seq<char> {
        match self {
            DuplicatePolicy::Reject => "Reject"@,
            DuplicatePolicy::LastWins => "LastWins"@,
            DuplicatePolicy::Append => "Append"@,
        }
    }

    /// How it is called in messages.
    pub fn to_text(&self) -> (text: String)
        ensures
            text@ == self.text(),
    {
        match self {
            DuplicatePolicy::Reject => "Reject".to_owned(),
            DuplicatePolicy::LastWins => "LastWins".to_owned(),
            DuplicatePolicy::Append => "Append".to_owned(),
        }
    }
}

/// How a directive in an outer block bears on inner blocks.
#[derive(Debug, Clone, Copy, PartialEq, Eq, Structural)]
pub enum CascadePolicy {
    Nothing,
    NearestWins,
    ReplaceWhole,
    MergeByKey,
}

impl CascadePolicy {
    /// How it is called in messages.
    pub open spec fn text(self) -> Seq<char> {
        match self {
            CascadePolicy::Nothing => "None"@,
            CascadePolicy::NearestWins => "NearestWins"@,
            CascadePolicy::ReplaceWhole => "ReplaceWhole"@,
            CascadePolicy::MergeByKey => "MergeByKey"@,
        }
    }

    /// How it is called in messages.
    pub fn to_text(&self) -> (text: String)
        ensures
            text@ == self.text(),
    {
        match self {
            CascadePolicy::Nothing => "None".to_owned(),
            CascadePolicy::NearestWins => "NearestWins".to_owned(),
            CascadePolicy::ReplaceWhole => "ReplaceWhole".to_owned(),
            CascadePolicy::MergeByKey => "MergeByKey".to_owned(),
        }
    }
}

/// Which processes a directive is meant for.
#[derive(Debug, Clone, Copy, PartialEq, Eq, Structural)]
pub enum TransportPolicy {
    HypervisorOnly,
    WorkerInheritable,
    WorkerLocalOnly,
}

impl TransportPolicy {
    /// How it is called in messages.
    pub open spec fn text(self) -> Seq<char> {
        match self {
            TransportPolicy::HypervisorOnly => "HypervisorOnly"@,
            TransportPolicy::WorkerInheritable => "WorkerInheritable"@,
            TransportPolicy::WorkerLocalOnly => "WorkerLocalOnly"@,
        }
    }

    /// How it is called in messages.
    pub fn to_text(&self) -> (text: String)
        ensures
            text@ == self.text(),
    {
        match self {
            TransportPolicy::HypervisorOnly => "HypervisorOnly".to_owned(),
            TransportPolicy::WorkerInheritable => "WorkerInheritable".to_owned(),
            TransportPolicy::WorkerLocalOnly => "WorkerLocalOnly".to_owned(),
        }
    }
}

/// What has to be renewed when a directive changes.
#[derive(Debug, Clone, Copy, PartialEq, Eq, Structural)]
pub enum ReloadImpact {
    Supervisor,
    ListenerSet,
    RuntimeState,
}

impl ReloadImpact {
    /// How it is called in messages.
    pub open spec fn text(self) -> Seq<char> {
        match self {
            ReloadImpact::Supervisor => "Supervisor"@,
            ReloadImpact::ListenerSet => "ListenerSet"@,
            ReloadImpact::RuntimeState => "RuntimeState"@,
        }
    }

    /// How it is called in messages.
    pub fn to_text(&self) -> (text: String)
        ensures
            text@ == self.text(),
    {
        match self {
            ReloadImpact::Supervisor => "Supervisor".to_owned(),
            ReloadImpact::ListenerSet => "ListenerSet".to_owned(),
            ReloadImpact::RuntimeState => "RuntimeState".to_owned(),
        }
    }
}

/// How many values a directive gives.
#[derive(Debug, Clone, Copy, PartialEq, Eq, Structural)]
pub enum DirectiveCardinality {
    Single,
    Repeated,
    ContextPayload,
}

impl DirectiveCardinality {
    /// How it is called in messages.
    pub open spec fn text(self) -> Seq<char> {
        match self {
            DirectiveCardinality::Single => "Single"@,
            DirectiveCardinality::Repeated => "Repeated"@,
            DirectiveCardinality::ContextPayload => "ContextPayload"@,
        }
    }

    /// How it is called in messages.
    pub fn to_text(&self) -> (text: String)
        ensures
            text@ == self.text(),
    {
        match self {
            DirectiveCardinality::Single => "Single".to_owned(),
            DirectiveCardinality::Repeated => "Repeated".to_owned(),
            DirectiveCardinality::ContextPayload => "ContextPayload".to_owned(),
        }
    }
}

/// What a directive is made of.
#[derive(Debug, Clone, Copy, PartialEq, Eq)]
pub enum DirectiveShape {
    Leaf,
    ContextBlock { child_context: ContextKey, payload: PayloadMode },
    RawBlock,
}

/// Whether two shapes are the same.
pub open spec fn same_shape(one: DirectiveShape, other: DirectiveShape) -> bool {
    match (one, other) {
        (DirectiveShape::Leaf, DirectiveShape::Leaf) => true,
        (DirectiveShape::RawBlock, DirectiveShape::RawBlock) => true,
        (
            DirectiveShape::ContextBlock { child_context: a, payload: p },
            DirectiveShape::ContextBlock { child_context: b, payload: q },
        ) => a.text() == b.text() && p == q,
        _ => false,
    }
}

impl DirectiveShape {
    /// How it is called in messages.
    pub open spec fn text(self) -> Seq<char> {
        match self {
            DirectiveShape::Leaf => "Leaf"@,
            DirectiveShape::RawBlock => "RawBlock"@,
            DirectiveShape::ContextBlock {
                child_context,
                payload,
            } => "ContextBlock { child_context: ContextKey(\""@ + child_context.text()
                + "\"), payload: "@ + payload.text() + " }"@,
        }
    }

    /// How it is called in messages.
    pub fn to_text(&self) -> (text: String)
        ensures
            text@ == self.text(),
    {
        match self {
            DirectiveShape::Leaf => "Leaf".to_owned(),
            DirectiveShape::RawBlock => "RawBlock".to_owned(),
            DirectiveShape::ContextBlock { child_context, payload } => {
                let mut text = "ContextBlock { child_context: ContextKey(\"".to_owned();
                push_str(&mut text, child_context.0);
                push_str(&mut text, "\"), payload: ");
                let mode = payload.to_text();
                push_str(&mut text, mode.as_str());
                push_str(&mut text, " }");
                text
            },
        }
    }

    /// Whether two shapes are the same.
    pub fn is(self, other: DirectiveShape) -> (same: bool)
        ensures
            same == same_shape(self, other),
    {
        match (self, other) {
            (DirectiveShape::Leaf, DirectiveShape::Leaf) => true,
            (DirectiveShape::RawBlock, DirectiveShape::RawBlock) => true,
            (
                DirectiveShape::ContextBlock { child_context: a, payload: p },
                DirectiveShape::ContextBlock { child_context: b, payload: q },
            ) => a.is(b) && p == q,
            _ => false,
        }
    }
}

/// The first point on which two contracts differ.
#[derive(Debug, Clone, Copy, PartialEq, Eq)]
#[allow(inconsistent_fields)]
pub enum DirectiveContractMismatch {
    Name { expected: DirectiveName, actual: Option<DirectiveName> },
    Context { expected: ContextKey, actual: ContextKey },
    ValueType { expected: &'static str, actual: &'static str },
    Cardinality { expected: DirectiveCardinality, actual: DirectiveCardinality },
    Shape { expected: DirectiveShape, actual: DirectiveShape },
    Payload { expected: PayloadMode, actual: PayloadMode },
    Duplicate { expected: DuplicatePolicy, actual: DuplicatePolicy },
    Cascade { expected: CascadePolicy, actual: CascadePolicy },
}

fn compared(what: &str, expected: &str, between: &str, actual: &str, end: &str) -> (text: String)
    ensures
        text@ == what@ + expected@ + between@ + actual@ + end@,
{
    let mut text = what.to_owned();
    push_str(&mut text, expected);
    push_str(&mut text, between);
    push_str(&mut text, actual);
    push_str(&mut text, end);
    text
}

impl DirectiveContractMismatch {
    /// The message.
    pub open spec fn text(self) -> Seq<char> {
        match self {
            DirectiveContractMismatch::Name { expected, actual } => "name expected `"@
                + expected.text() + "`, actual "@ + (match actual {
                Some(actual) => actual.text(),
                None => "<missing>"@,
            }) + ""@,
            DirectiveContractMismatch::Context { expected, actual } => "context expected `"@
                + expected.text() + "`, actual `"@ + actual.text() + "`"@,
            DirectiveContractMismatch::ValueType { expected, actual } => "value type expected `"@
                + expected@ + "`, actual `"@ + actual@ + "`"@,
            DirectiveContractMismatch::Cardinality { expected, actual } => "cardinality expected "@
                + expected.text() + ", actual "@ + actual.text() + ""@,
            DirectiveContractMismatch::Shape { expected, actual } => "shape expected "@
                + expected.text() + ", actual "@ + actual.text() + ""@,
            DirectiveContractMismatch::Payload { expected, actual } => "payload expected "@
                + expected.text() + ", actual "@ + actual.text() + ""@,
            DirectiveContractMismatch::Duplicate { expected, actual } => "duplicate policy expected "@
                + expected.text() + ", actual "@ + actual.text() + ""@,
            DirectiveContractMismatch::Cascade { expected, actual } => "cascade policy expected "@
                + expected.text() + ", actual "@ + actual.text() + ""@,
        }
    }

    /// The message.
    pub fn to_text(&self) -> (text: String)
        ensures
            text@ == self.text(),
    {
        match self {
            DirectiveContractMismatch::Name { expected, actual } => {
                let found = match actual {
                    Some(actual) => actual.as_str(),
                    None => "<missing>",
                };
                compared("name expected `", expected.as_str(), "`, actual ", found, "")
            },
            DirectiveContractMismatch::Context { expected, actual } => compared(
                "context expected `",
                expected.0,
                "`, actual `",
                actual.0,
                "`",
            ),
            DirectiveContractMismatch::ValueType { expected, actual } => compared(
                "value type expected `",
                expected,
                "`, actual `",
                actual,
                "`",
            ),
            DirectiveContractMismatch::Cardinality { expected, actual } => {
                let expected = expected.to_text();
                let actual = actual.to_text();
                compared("cardinality expected ", expected.as_str(), ", actual ", actual.as_str(), "")
            },
            DirectiveContractMismatch::Shape { expected, actual } => {
                let expected = expected.to_text();
                let actual = actual.to_text();
                compared("shape expected ", expected.as_str(), ", actual ", actual.as_str(), "")
            },
            DirectiveContractMismatch::Payload { expected, actual } => {
                let expected = expected.to_text();
                let actual = actual.to_text();
                compared("payload expected ", expected.as_str(), ", actual ", actual.as_str(), "")
            },
            DirectiveContractMismatch::Duplicate { expected, actual } => {
                let expected = expected.to_text();
                let actual = actual.to_text();
                compared("duplicate policy expected ", expected.as_str(), ", actual ", actual.as_str(), "")
            },
            DirectiveContractMismatch::Cascade { expected, actual } => {
                let expected = expected.to_text();
                let actual = actual.to_text();
                compared("cascade policy expected ", expected.as_str(), ", actual ", actual.as_str(), "")
            },
        }
    }
}

/// What is agreed on a directive.
#[derive(Debug, Clone, Copy, PartialEq, Eq)]
pub struct DirectiveContract {
    pub context: ContextKey,
    pub name: DirectiveName,
    pub value_type: Option<ValueKind>,
    pub cardinality: DirectiveCardinality,
    pub shape: DirectiveShape,
    pub duplicate: DuplicatePolicy,
    pub cascade: CascadePolicy,
}

/// The name of a type of values, where there is one.
pub open spec fn type_text(kind: Option<ValueKind>) -> Seq<char> {
    match kind {
        Some(kind) => kind.text(),
        None => "<none>"@,
    }
}

/// Whether two contracts say the same.
pub open spec fn same_contract(one: DirectiveContract, other: DirectiveContract) -> bool {
    &&& one.name.text() == other.name.text()
    &&& one.context.text() == other.context.text()
    &&& one.cardinality == other.cardinality
    &&& one.value_type == other.value_type
    &&& same_shape(one.shape, other.shape)
    &&& one.duplicate == other.duplicate
    &&& one.cascade == other.cascade
}

/// Whether two shapes are blocks that treat their arguments differently.
pub open spec fn payloads_differ(one: DirectiveShape, other: DirectiveShape) -> bool {
    match (one, other) {
        (
            DirectiveShape::ContextBlock { payload: p, .. },
            DirectiveShape::ContextBlock { payload: q, .. },
        ) => p != q,
        _ => false,
    }
}

/// The first point on which two contracts differ: the name, the context, the cardinality, the
/// payload, the type, the shape, the duplicate policy, the cascade policy, in this order.
pub open spec fn is_mismatch(
    expected: DirectiveContract,
    actual: DirectiveContract,
    mismatch: Option<DirectiveContractMismatch>,
) -> bool {
    if expected.name.text() != actual.name.text() {
        mismatch == Some(
            DirectiveContractMismatch::Name { expected: expected.name, actual: Some(actual.name) },
        )
    } else if expected.context.text() != actual.context.text() {
        mismatch == Some(
            DirectiveContractMismatch::Context {
                expected: expected.context,
                actual: actual.context,
            },
        )
    } else if expected.cardinality != actual.cardinality {
        mismatch == Some(
            DirectiveContractMismatch::Cardinality {
                expected: expected.cardinality,
                actual: actual.cardinality,
            },
        )
    } else if payloads_differ(expected.shape, actual.shape) {
        mismatch == Some(
            DirectiveContractMismatch::Payload {
                expected: expected.shape->payload,
                actual: actual.shape->payload,
            },
        )
    } else if expected.value_type != actual.value_type {
        mismatch matches Some(DirectiveContractMismatch::ValueType { expected: wanted, actual: found })
            && wanted@ == type_text(expected.value_type) && found@ == type_text(actual.value_type)
    } else if !same_shape(expected.shape, actual.shape) {
        mismatch == Some(
            DirectiveContractMismatch::Shape { expected: expected.shape, actual: actual.shape },
        )
    } else if expected.duplicate != actual.duplicate {
        mismatch == Some(
            DirectiveContractMismatch::Duplicate {
                expected: expected.duplicate,
                actual: actual.duplicate,
            },
        )
    } else if expected.cascade != actual.cascade {
        mismatch == Some(
            DirectiveContractMismatch::Cascade {
                expected: expected.cascade,
                actual: actual.cascade,
            },
        )
    } else {
        mismatch is None
    }
}

fn kind_name(kind: Option<ValueKind>) -> (name: &'static str)
    ensures
        name@ == type_text(kind),
{
    match kind {
        Some(kind) => kind.name(),
        None => "<none>",
    }
}

pub fn same_kind(one: Option<ValueKind>, other: Option<ValueKind>) -> (same: bool)
    ensures
        same == (one == other),
{
    match (one, other) {
        (Some(one), Some(other)) => one == other,
        (None, None) => true,
        _ => false,
    }
}

impl DirectiveContract {
    pub fn context(self) -> (context: ContextKey)
        ensures
            context == self.context,
    {
        self.context
    }

    pub fn name(self) -> (name: DirectiveName)
        ensures
            name == self.name,
    {
        self.name
    }

    pub fn cascade(self) -> (cascade: CascadePolicy)
        ensures
            cascade == self.cascade,
    {
        self.cascade
    }

    /// The first point on which the actual contract differs from this one.
    pub fn mismatch(self, actual: DirectiveContract) -> (mismatch: Option<DirectiveContractMismatch>)
        ensures
            is_mismatch(self, actual, mismatch),
    {
        if !self.name.is(actual.name) {
            return Some(
                DirectiveContractMismatch::Name { expected: self.name, actual: Some(actual.name) },
            );
        }
        if !self.context.is(actual.context) {
            return Some(
                DirectiveContractMismatch::Context {
                    expected: self.context,
                    actual: actual.context,
                },
            );
        }
        if self.cardinality != actual.cardinality {
            return Some(
                DirectiveContractMismatch::Cardinality {
                    expected: self.cardinality,
                    actual: actual.cardinality,
                },
            );
        }
        match (self.shape, actual.shape) {
            (
                DirectiveShape::ContextBlock { payload: p, .. },
                DirectiveShape::ContextBlock { payload: q, .. },
            ) => {
                if p != q {
                    return Some(DirectiveContractMismatch::Payload { expected: p, actual: q });
                }
            },
            _ => {},
        }
        if !same_kind(self.value_type, actual.value_type) {
            return Some(
                DirectiveContractMismatch::ValueType {
                    expected: kind_name(self.value_type),
                    actual: kind_name(actual.value_type),
                },
            );
        }
        if !self.shape.is(actual.shape) {
            return Some(
                DirectiveContractMismatch::Shape { expected: self.shape, actual: actual.shape },
            );
        }
        if self.duplicate != actual.duplicate {
            return Some(
                DirectiveContractMismatch::Duplicate {
                    expected: self.duplicate,
                    actual: actual.duplicate,
                },
            );
        }
        if self.cascade != actual.cascade {
            return Some(
                DirectiveContractMismatch::Cascade {
                    expected: self.cascade,
                    actual: actual.cascade,
                },
            );
        }
        None
    }
}

/// Two contracts mismatch exactly where they do not say the same.
pub proof fn mismatch_tells_contracts_apart(
    expected: DirectiveContract,
    actual: DirectiveContract,
    mismatch: Option<DirectiveContractMismatch>,
)
    requires
        is_mismatch(expected, actual, mismatch),
    ensures
        mismatch is None == same_contract(expected, actual),
{
}

/// Asks for the value of a directive that stands in a block at most once.
#[derive(Debug)]
pub struct LocalDirectiveKey<T> {
    contract: DirectiveContract,
    value: core::marker::PhantomData<T>,
}

impl<T> Clone for LocalDirectiveKey<T> {
    fn clone(&self) -> (copy: Self)
        ensures
            copy == *self,
    {
        *self
    }
}

impl<T> Copy for LocalDirectiveKey<T> {

}

impl<T: ConfigValue> LocalDirectiveKey<T> {
    /// What is expected of the directive.
    pub closed spec fn expects(self) -> DirectiveContract {
        self.contract
    }

    /// A key for the directive with the given contract.
    pub fn new(contract: DirectiveContract) -> (key: Self)
        ensures
            key.expects() == contract,
    {
        LocalDirectiveKey { contract, value: core::marker::PhantomData }
    }

    pub fn name(&self) -> (name: DirectiveName)
        ensures
            name == self.expects().name,
    {
        self.contract.name
    }

    pub fn contract(&self) -> (contract: DirectiveContract)
        ensures
            contract == self.expects(),
    {
        self.contract
    }
}

/// Asks for the values of a directive that may stand in a block several times.
#[derive(Debug)]
pub struct RepeatedDirectiveKey<T> {
    contract: DirectiveContract,
    value: core::marker::PhantomData<T>,
}

impl<T> Clone for RepeatedDirectiveKey<T> {
    fn clone(&self) -> (copy: Self)
        ensures
            copy == *self,
    {
        *self
    }
}

impl<T> Copy for RepeatedDirectiveKey<T> {

}

impl<T: ConfigValue> RepeatedDirectiveKey<T> {
    /// What is expected of the directive.
    pub closed spec fn expects(self) -> DirectiveContract {
        self.contract
    }

    /// A key for the directive with the given contract.
    pub fn new(contract: DirectiveContract) -> (key: Self)
        ensures
            key.expects() == contract,
    {
        RepeatedDirectiveKey { contract, value: core::marker::PhantomData }
    }

    pub fn name(&self) -> (name: DirectiveName)
        ensures
            name == self.expects().name,
    {
        self.contract.name
    }

    pub fn contract(&self) -> (contract: DirectiveContract)
        ensures
            contract == self.expects(),
    {
        self.contract
    }
}

/// Asks for what the arguments of a block say.
#[derive(Debug)]
pub struct ContextPayloadKey<T> {
    contract: DirectiveContract,
    value: core::marker::PhantomData<T>,
}

impl<T> Clone for ContextPayloadKey<T> {
    fn clone(&self) -> (copy: Self)
        ensures
            copy == *self,
    {
        *self
    }
}

impl<T> Copy for ContextPayloadKey<T> {

}

impl<T: ConfigValue> ContextPayloadKey<T> {
    /// What is expected of the directive.
    pub closed spec fn expects(self) -> DirectiveContract {
        self.contract
    }

    /// A key for the directive with the given contract.
    pub fn new(contract: DirectiveContract) -> (key: Self)
        ensures
            key.expects() == contract,
    {
        ContextPayloadKey { contract, value: core::marker::PhantomData }
    }

    pub fn name(&self) -> (name: DirectiveName)
        ensures
            name == self.expects().name,
    {
        self.contract.name
    }

    pub fn contract(&self) -> (contract: DirectiveContract)
        ensures
            contract == self.expects(),
    {
        self.contract
    }
}

/// The point that is told is one on which two contracts differ, with what each says, and they agree on
/// all that is looked at before it.
pub proof fn first_difference_is_told(
    expected: DirectiveContract,
    actual: DirectiveContract,
    mismatch: DirectiveContractMismatch,
)
    requires
        is_mismatch(expected, actual, Some(mismatch)),
    ensures
        match mismatch {
            DirectiveContractMismatch::Name { expected: wanted, actual: found } => wanted
                == expected.name && found == Some(actual.name) && wanted.text()
                != actual.name.text(),
            DirectiveContractMismatch::Context { expected: wanted, actual: found } => wanted
                == expected.context && found == actual.context && wanted.text() != found.text(),
            DirectiveContractMismatch::Cardinality { expected: wanted, actual: found } => wanted
                == expected.cardinality && found == actual.cardinality && wanted != found,
            DirectiveContractMismatch::Payload { expected: wanted, actual: found } => (
            expected.shape matches DirectiveShape::ContextBlock { payload, .. } && payload == wanted)
                && (actual.shape matches DirectiveShape::ContextBlock { payload, .. } && payload
                == found) && wanted != found,
            DirectiveContractMismatch::ValueType { .. } => expected.value_type
                != actual.value_type,
            DirectiveContractMismatch::Shape { expected: wanted, actual: found } => wanted
                == expected.shape && found == actual.shape && wanted != found,
            DirectiveContractMismatch::Duplicate { expected: wanted, actual: found } => wanted
                == expected.duplicate && found == actual.duplicate && wanted != found,
            DirectiveContractMismatch::Cascade { expected: wanted, actual: found } => wanted
                == expected.cascade && found == actual.cascade && wanted != found,
        },
        mismatch !is Name ==> expected.name.text() == actual.name.text(),
        mismatch !is Name && mismatch !is Context ==> expected.context.text()
            == actual.context.text(),
        mismatch is Payload || mismatch is ValueType || mismatch is Shape || mismatch is Duplicate
            || mismatch is Cascade ==> expected.cardinality == actual.cardinality,
        mismatch is Shape || mismatch is Duplicate || mismatch is Cascade ==> expected.value_type
            == actual.value_type,
        mismatch is Cascade ==> expected.duplicate == actual.duplicate,
{
}

} // verus!
