//! The directives whose values workers take over from the root.
use vstd::prelude::*;

use crate::parse::context::{ContextKey, PISHOO};
use crate::parse::contract::{
    same_kind, same_shape, type_text, CascadePolicy, DirectiveShape, DuplicatePolicy, ReloadImpact,
    TransportPolicy,
};
use crate::parse::definition::TypedDirectiveDefinition;
use crate::parse::domain::DirectiveName;
use crate::parse::registry::{
    parser_kind, ConfigRegistry, DirectiveParser, DirectiveSpec, DirectiveView, RegistryView,
};
use crate::parse::types::{
    AccessRulesUri, BoolConfig, DefaultType, GzipCompLevel, GzipMinLength, MimeTypes, StringList,
};
use crate::parse::value::{ConfigValue, ValueKind};
use crate::text::{push_str, str_eq, texts};

verus! {

/// Why a registry does not serve the snapshot of the root.
#[derive(Debug)]
pub enum V1SnapshotSchemaError {
    MissingDirective { directive: DirectiveName },
    ValueType { directive: DirectiveName, expected: &'static str, actual: &'static str },
    Shape { directive: DirectiveName },
    Duplicate { directive: DirectiveName },
    Cascade { directive: DirectiveName },
    Transport { directive: DirectiveName },
    Reload { directive: DirectiveName },
    ExtraWorkerInheritableDirective { directive: DirectiveName },
    PrematureReservedDirective { directive: DirectiveName },
}

impl V1SnapshotSchemaError {
    /// The message of this error.
    pub open spec fn text(self) -> Seq<char> {
        match self {
            V1SnapshotSchemaError::MissingDirective { directive } => "root snapshot directive `"@ + directive.text() + "` is not registered in PISHOO"@,
            V1SnapshotSchemaError::ValueType { directive, expected, actual } => "root snapshot directive `"@ + directive.text() + "` has value type `"@ + actual@ + "`, expected `"@ + expected@ + "`"@,
            V1SnapshotSchemaError::Shape { directive } => "root snapshot directive `"@ + directive.text() + "` has an incompatible shape"@,
            V1SnapshotSchemaError::Duplicate { directive } => "root snapshot directive `"@ + directive.text() + "` has an incompatible duplicate policy"@,
            V1SnapshotSchemaError::Cascade { directive } => "root snapshot directive `"@ + directive.text() + "` has an incompatible cascade policy"@,
            V1SnapshotSchemaError::Transport { directive } => "root snapshot directive `"@ + directive.text() + "` is not registered as WorkerInheritable"@,
            V1SnapshotSchemaError::Reload { directive } => "root snapshot directive `"@ + directive.text() + "` has an incompatible reload impact"@,
            V1SnapshotSchemaError::ExtraWorkerInheritableDirective { directive } => "worker-inheritable PISHOO directive `"@ + directive.text() + "` is not part of the V1 snapshot schema"@,
            V1SnapshotSchemaError::PrematureReservedDirective { directive } => "reserved root snapshot directive `"@ + directive.text() + "` was registered before its checked domain"@,
        }
    }

    /// The message of this error.
    pub fn message(&self) -> (text: String)
        ensures
            text@ == self.text(),
    {
        match self {
            V1SnapshotSchemaError::MissingDirective { directive } => {
                let mut text = "root snapshot directive `".to_owned();
                let directive_text = directive.to_text();
                push_str(&mut text, directive_text.as_str());
                push_str(&mut text, "` is not registered in PISHOO");
                text
            },
            V1SnapshotSchemaError::ValueType { directive, expected, actual } => {
                let mut text = "root snapshot directive `".to_owned();
                let directive_text = directive.to_text();
                push_str(&mut text, directive_text.as_str());
                push_str(&mut text, "` has value type `");
                push_str(&mut text, actual);
                push_str(&mut text, "`, expected `");
                push_str(&mut text, expected);
                push_str(&mut text, "`");
                text
            },
            V1SnapshotSchemaError::Shape { directive } => {
                let mut text = "root snapshot directive `".to_owned();
                let directive_text = directive.to_text();
                push_str(&mut text, directive_text.as_str());
                push_str(&mut text, "` has an incompatible shape");
                text
            },
            V1SnapshotSchemaError::Duplicate { directive } => {
                let mut text = "root snapshot directive `".to_owned();
                let directive_text = directive.to_text();
                push_str(&mut text, directive_text.as_str());
                push_str(&mut text, "` has an incompatible duplicate policy");
                text
            },
            V1SnapshotSchemaError::Cascade { directive } => {
                let mut text = "root snapshot directive `".to_owned();
                let directive_text = directive.to_text();
                push_str(&mut text, directive_text.as_str());
                push_str(&mut text, "` has an incompatible cascade policy");
                text
            },
            V1SnapshotSchemaError::Transport { directive } => {
                let mut text = "root snapshot directive `".to_owned();
                let directive_text = directive.to_text();
                push_str(&mut text, directive_text.as_str());
                push_str(&mut text, "` is not registered as WorkerInheritable");
                text
            },
            V1SnapshotSchemaError::Reload { directive } => {
                let mut text = "root snapshot directive `".to_owned();
                let directive_text = directive.to_text();
                push_str(&mut text, directive_text.as_str());
                push_str(&mut text, "` has an incompatible reload impact");
                text
            },
            V1SnapshotSchemaError::ExtraWorkerInheritableDirective { directive } => {
                let mut text = "worker-inheritable PISHOO directive `".to_owned();
                let directive_text = directive.to_text();
                push_str(&mut text, directive_text.as_str());
                push_str(&mut text, "` is not part of the V1 snapshot schema");
                text
            },
            V1SnapshotSchemaError::PrematureReservedDirective { directive } => {
                let mut text = "reserved root snapshot directive `".to_owned();
                let directive_text = directive.to_text();
                push_str(&mut text, directive_text.as_str());
                push_str(&mut text, "` was registered before its checked domain");
                text
            },
        }
    }

    /// The messages of this error and of what caused it, outermost first.
    pub open spec fn chain(self) -> Seq<Seq<char>> {
        seq![self.text()]
    }

    /// The messages of this error and of what caused it, outermost first.
    pub fn messages(&self) -> (list: Vec<String>)
        ensures
            texts(list@) == self.chain(),
    {
        let mut list: Vec<String> = Vec::new();
        list.push(self.message());
        assert(texts(list@) =~= self.chain());
        list
    }
}

/// A directive of `pishoo` blocks that workers take over.
pub open spec fn inheritable(
    name: Seq<char>,
    kind: ValueKind,
    shape: DirectiveShape,
    cascade: CascadePolicy,
) -> DirectiveView {
    DirectiveView {
        name,
        allowed_in: seq![PISHOO@],
        shape,
        parser: DirectiveParser::Slot(kind),
        duplicate: DuplicatePolicy::Reject,
        cascade,
        transport: TransportPolicy::WorkerInheritable,
        reload: ReloadImpact::RuntimeState,
    }
}

/// The directives that workers take over.
pub open spec fn v1_directives() -> Seq<DirectiveView> {
    seq![
        inheritable(
            "access_rules"@,
            ValueKind::AccessRulesUri,
            DirectiveShape::Leaf,
            CascadePolicy::NearestWins,
        ),
        inheritable(
            "gzip"@,
            ValueKind::BoolConfig,
            DirectiveShape::Leaf,
            CascadePolicy::NearestWins,
        ),
        inheritable(
            "gzip_vary"@,
            ValueKind::BoolConfig,
            DirectiveShape::Leaf,
            CascadePolicy::NearestWins,
        ),
        inheritable(
            "gzip_min_length"@,
            ValueKind::GzipMinLength,
            DirectiveShape::Leaf,
            CascadePolicy::NearestWins,
        ),
        inheritable(
            "gzip_comp_level"@,
            ValueKind::GzipCompLevel,
            DirectiveShape::Leaf,
            CascadePolicy::NearestWins,
        ),
        inheritable(
            "gzip_types"@,
            ValueKind::StringList,
            DirectiveShape::Leaf,
            CascadePolicy::NearestWins,
        ),
        inheritable(
            "default_type"@,
            ValueKind::DefaultType,
            DirectiveShape::Leaf,
            CascadePolicy::NearestWins,
        ),
        inheritable(
            "types"@,
            ValueKind::MimeTypes,
            DirectiveShape::RawBlock,
            CascadePolicy::ReplaceWhole,
        ),
    ]
}

/// The name that is kept for later.
pub open spec fn reserved_name() -> Seq<char> {
    "access_log"@
}

/// A field of the snapshot that no directive fills yet.
#[derive(Debug, Clone, Copy)]
pub struct ReservedV1SnapshotField {
    pub name: DirectiveName,
}

impl ReservedV1SnapshotField {
    pub fn name(self) -> (name: DirectiveName)
        ensures
            name == self.name,
    {
        self.name
    }
}

/// The fields of the snapshot and the directives that fill them.
#[derive(Debug)]
pub struct V1SnapshotSchema {
    pub access_rules: TypedDirectiveDefinition<AccessRulesUri>,
    pub gzip: TypedDirectiveDefinition<BoolConfig>,
    pub gzip_vary: TypedDirectiveDefinition<BoolConfig>,
    pub gzip_min_length: TypedDirectiveDefinition<GzipMinLength>,
    pub gzip_comp_level: TypedDirectiveDefinition<GzipCompLevel>,
    pub gzip_types: TypedDirectiveDefinition<StringList>,
    pub default_type: TypedDirectiveDefinition<DefaultType>,
    pub types: TypedDirectiveDefinition<MimeTypes>,
    pub access_log: ReservedV1SnapshotField,
}

/// Whether a schema is the one that the snapshot has.
pub open spec fn is_v1_schema(schema: V1SnapshotSchema) -> bool {
    &&& schema.access_rules.directive() == v1_directives()[0]
    &&& schema.access_rules.wf()
    &&& schema.access_rules.registered_in() == PISHOO@
    &&& schema.gzip.directive() == v1_directives()[1]
    &&& schema.gzip.wf()
    &&& schema.gzip.registered_in() == PISHOO@
    &&& schema.gzip_vary.directive() == v1_directives()[2]
    &&& schema.gzip_vary.wf()
    &&& schema.gzip_vary.registered_in() == PISHOO@
    &&& schema.gzip_min_length.directive() == v1_directives()[3]
    &&& schema.gzip_min_length.wf()
    &&& schema.gzip_min_length.registered_in() == PISHOO@
    &&& schema.gzip_comp_level.directive() == v1_directives()[4]
    &&& schema.gzip_comp_level.wf()
    &&& schema.gzip_comp_level.registered_in() == PISHOO@
    &&& schema.gzip_types.directive() == v1_directives()[5]
    &&& schema.gzip_types.wf()
    &&& schema.gzip_types.registered_in() == PISHOO@
    &&& schema.default_type.directive() == v1_directives()[6]
    &&& schema.default_type.wf()
    &&& schema.default_type.registered_in() == PISHOO@
    &&& schema.types.directive() == v1_directives()[7]
    &&& schema.types.wf()
    &&& schema.types.registered_in() == PISHOO@
    &&& schema.access_log.name.text() == reserved_name()
}

/// The fields of the snapshot and the directives that fill them.
pub fn v1_snapshot_schema() -> (schema: V1SnapshotSchema)
    ensures
        is_v1_schema(schema),
{
    V1SnapshotSchema {
        access_rules: TypedDirectiveDefinition::single(
            ContextKey(PISHOO),
            "access_rules",
            DirectiveShape::Leaf,
            DuplicatePolicy::Reject,
            CascadePolicy::NearestWins,
            TransportPolicy::WorkerInheritable,
            ReloadImpact::RuntimeState,
        ),
        gzip: TypedDirectiveDefinition::single(
            ContextKey(PISHOO),
            "gzip",
            DirectiveShape::Leaf,
            DuplicatePolicy::Reject,
            CascadePolicy::NearestWins,
            TransportPolicy::WorkerInheritable,
            ReloadImpact::RuntimeState,
        ),
        gzip_vary: TypedDirectiveDefinition::single(
            ContextKey(PISHOO),
            "gzip_vary",
            DirectiveShape::Leaf,
            DuplicatePolicy::Reject,
            CascadePolicy::NearestWins,
            TransportPolicy::WorkerInheritable,
            ReloadImpact::RuntimeState,
        ),
        gzip_min_length: TypedDirectiveDefinition::single(
            ContextKey(PISHOO),
            "gzip_min_length",
            DirectiveShape::Leaf,
            DuplicatePolicy::Reject,
            CascadePolicy::NearestWins,
            TransportPolicy::WorkerInheritable,
            ReloadImpact::RuntimeState,
        ),
        gzip_comp_level: TypedDirectiveDefinition::single(
            ContextKey(PISHOO),
            "gzip_comp_level",
            DirectiveShape::Leaf,
            DuplicatePolicy::Reject,
            CascadePolicy::NearestWins,
            TransportPolicy::WorkerInheritable,
            ReloadImpact::RuntimeState,
        ),
        gzip_types: TypedDirectiveDefinition::single(
            ContextKey(PISHOO),
            "gzip_types",
            DirectiveShape::Leaf,
            DuplicatePolicy::Reject,
            CascadePolicy::NearestWins,
            TransportPolicy::WorkerInheritable,
            ReloadImpact::RuntimeState,
        ),
        default_type: TypedDirectiveDefinition::single(
            ContextKey(PISHOO),
            "default_type",
            DirectiveShape::Leaf,
            DuplicatePolicy::Reject,
            CascadePolicy::NearestWins,
            TransportPolicy::WorkerInheritable,
            ReloadImpact::RuntimeState,
        ),
        types: TypedDirectiveDefinition::single(
            ContextKey(PISHOO),
            "types",
            DirectiveShape::RawBlock,
            DuplicatePolicy::Reject,
            CascadePolicy::ReplaceWhole,
            TransportPolicy::WorkerInheritable,
            ReloadImpact::RuntimeState,
        ),
        access_log: ReservedV1SnapshotField { name: DirectiveName::new("access_log") },
    }
}

/// The names of the fields of the snapshot.
pub fn v1_snapshot_field_names() -> (names: Vec<&'static str>)
    ensures
        names@.len() == 9,
        forall|i: int| 0 <= i < 8 ==> (#[trigger] names@[i])@ == v1_directives()[i].name,
        names@[8]@ == reserved_name(),
{
    let mut names: Vec<&'static str> = Vec::new();
    names.push("access_rules");
    names.push("gzip");
    names.push("gzip_vary");
    names.push("gzip_min_length");
    names.push("gzip_comp_level");
    names.push("gzip_types");
    names.push("default_type");
    names.push("types");
    names.push("access_log");
    names
}

/// A registry once the directives that workers take over are entered.
pub open spec fn with_v1_directives(registry: RegistryView) -> RegistryView {
    registry
        .with_directive(PISHOO@, v1_directives()[0])
        .with_directive(PISHOO@, v1_directives()[1])
        .with_directive(PISHOO@, v1_directives()[2])
        .with_directive(PISHOO@, v1_directives()[3])
        .with_directive(PISHOO@, v1_directives()[4])
        .with_directive(PISHOO@, v1_directives()[5])
        .with_directive(PISHOO@, v1_directives()[6])
        .with_directive(PISHOO@, v1_directives()[7])
}

/// Whether a directive of that name is among those that workers take over.
pub open spec fn is_v1_name(name: Seq<char>) -> bool {
    exists|i: int| 0 <= i < v1_directives().len() && (#[trigger] v1_directives()[i]).name == name
}

/// Whether a registry knows a directive as the snapshot expects it.
pub open spec fn conforms(registry: RegistryView, expected: DirectiveView) -> bool {
    registry.directive(PISHOO@, expected.name) matches Some(actual) && {
        &&& parser_kind(actual.parser) == parser_kind(expected.parser)
        &&& same_shape(actual.shape, expected.shape)
        &&& actual.duplicate == expected.duplicate
        &&& actual.cascade == expected.cascade
        &&& actual.transport == expected.transport
        &&& actual.reload == expected.reload
    }
}

/// The first point on which a registry does not know a directive as the snapshot expects it.
pub open spec fn conform_error(
    registry: RegistryView,
    expected: DirectiveView,
    error: V1SnapshotSchemaError,
) -> bool {
    match registry.directive(PISHOO@, expected.name) {
        None => error matches V1SnapshotSchemaError::MissingDirective { directive }
            && directive.text() == expected.name,
        Some(actual) => if parser_kind(actual.parser) != parser_kind(expected.parser) {
            error matches V1SnapshotSchemaError::ValueType { directive, expected: wanted, actual: found }
                && directive.text() == expected.name && wanted@ == type_text(
                parser_kind(expected.parser),
            ) && found@ == type_text(parser_kind(actual.parser))
        } else if !same_shape(actual.shape, expected.shape) {
            error matches V1SnapshotSchemaError::Shape { directive } && directive.text()
                == expected.name
        } else if actual.duplicate != expected.duplicate {
            error matches V1SnapshotSchemaError::Duplicate { directive } && directive.text()
                == expected.name
        } else if actual.cascade != expected.cascade {
            error matches V1SnapshotSchemaError::Cascade { directive } && directive.text()
                == expected.name
        } else if actual.transport != expected.transport {
            error matches V1SnapshotSchemaError::Transport { directive } && directive.text()
                == expected.name
        } else {
            &&& actual.reload != expected.reload
            &&& error matches V1SnapshotSchemaError::Reload { directive } && directive.text()
                == expected.name
        },
    }
}

/// Whether a directive of `pishoo` blocks would have to be taken over and is not.
pub open spec fn is_extra(registry: RegistryView, name: Seq<char>) -> bool {
    registry.directive(PISHOO@, name) matches Some(actual) && actual.transport
        == TransportPolicy::WorkerInheritable && !is_v1_name(name)
}

/// Whether a directive stands under the reserved name.
pub open spec fn is_premature(registry: RegistryView) -> bool {
    registry.directive(PISHOO@, reserved_name()) is Some
}

/// Whether no directive stands in the way of the snapshot.
pub open spec fn is_clear(registry: RegistryView) -> bool {
    &&& !is_premature(registry)
    &&& forall|name: Seq<char>| !(#[trigger] is_extra(registry, name))
}

/// What checking a registry for the snapshot gives: the directives that stand in its way are looked
/// for first, in no particular order, and then those that it needs, in the order of its fields.
pub open spec fn validates(
    registry: RegistryView,
    result: Result<(), V1SnapshotSchemaError>,
) -> bool {
    match result {
        Ok(_) => is_clear(registry) && forall|i: int|
            0 <= i < v1_directives().len() ==> conforms(registry, #[trigger] v1_directives()[i]),
        Err(V1SnapshotSchemaError::PrematureReservedDirective { directive }) => is_premature(
            registry,
        ) && directive.text() == reserved_name(),
        Err(V1SnapshotSchemaError::ExtraWorkerInheritableDirective { directive }) => is_extra(
            registry,
            directive.text(),
        ) && directive.text() != reserved_name(),
        Err(error) => is_clear(registry) && exists|at: int|
            {
                &&& 0 <= at < v1_directives().len()
                &&& forall|i: int|
                    0 <= i < at ==> conforms(registry, #[trigger] v1_directives()[i])
                &&& #[trigger] conform_error(registry, v1_directives()[at], error)
            },
    }
}

fn kind_name(kind: Option<ValueKind>) -> (name: &'static str)
    ensures
        name@ == type_text(kind),
{
    match kind {
        Some(kind) => kind.name(),
        None => "<none>",
    }
}

/// The directives that workers take over.
fn active_directives() -> (list: Vec<DirectiveSpec>)
    ensures
        list@.len() == v1_directives().len(),
        forall|i: int| 0 <= i < list@.len() ==> (#[trigger] list@[i])@ == v1_directives()[i],
{
    let schema = v1_snapshot_schema();
    let mut list: Vec<DirectiveSpec> = Vec::new();
    list.push(schema.access_rules.spec());
    list.push(schema.gzip.spec());
    list.push(schema.gzip_vary.spec());
    list.push(schema.gzip_min_length.spec());
    list.push(schema.gzip_comp_level.spec());
    list.push(schema.gzip_types.spec());
    list.push(schema.default_type.spec());
    list.push(schema.types.spec());
    list
}

fn check_directive(spec: Option<&DirectiveSpec>, expected: &DirectiveSpec) -> (result: Result<
    (),
    V1SnapshotSchemaError,
>)
    ensures
        forall|registry: RegistryView|
            (match spec {
                Some(spec) => #[trigger] registry.directive(PISHOO@, expected@.name) == Some(spec@),
                None => registry.directive(PISHOO@, expected@.name) is None,
            }) ==> match result {
                Ok(_) => conforms(registry, expected@),
                Err(error) => !conforms(registry, expected@) && conform_error(
                    registry,
                    expected@,
                    error,
                ),
            },
        result matches Err(error) ==> !(error is PrematureReservedDirective) && !(
        error is ExtraWorkerInheritableDirective),
{
    let directive = expected.name;
    let spec = match spec {
        Some(spec) => spec,
        None => {
            return Err(V1SnapshotSchemaError::MissingDirective { directive });
        },
    };
    if !same_kind(spec.value_kind(), expected.value_kind()) {
        return Err(
            V1SnapshotSchemaError::ValueType {
                directive,
                expected: kind_name(expected.value_kind()),
                actual: kind_name(spec.value_kind()),
            },
        );
    }
    if !spec.shape.is(expected.shape) {
        return Err(V1SnapshotSchemaError::Shape { directive });
    }
    if spec.duplicate != expected.duplicate {
        return Err(V1SnapshotSchemaError::Duplicate { directive });
    }
    if spec.cascade != expected.cascade {
        return Err(V1SnapshotSchemaError::Cascade { directive });
    }
    if spec.transport != expected.transport {
        return Err(V1SnapshotSchemaError::Transport { directive });
    }
    if spec.reload != expected.reload {
        return Err(V1SnapshotSchemaError::Reload { directive });
    }
    Ok(())
}

fn has_name(list: &Vec<DirectiveSpec>, name: &str) -> (found: bool)
    ensures
        found == exists|i: int| 0 <= i < list@.len() && (#[trigger] list@[i])@.name == name@,
{
    let mut i: usize = 0;
    while i < list.len()
        invariant
            i <= list@.len(),
            forall|k: int| 0 <= k < i ==> (#[trigger] list@[k])@.name != name@,
        decreases list@.len() - i,
    {
        if str_eq(list[i].name.as_str(), name) {
            return true;
        }
        i += 1;
    }
    false
}

/// A registry that was found to serve the snapshot.
#[derive(Debug, Clone, Copy)]
pub struct ValidatedV1SnapshotSchema {
    checked: (),
}

impl ValidatedV1SnapshotSchema {
    /// The fields of the snapshot and the directives that fill them.
    pub fn schema(self) -> (schema: V1SnapshotSchema)
        ensures
            is_v1_schema(schema),
    {
        v1_snapshot_schema()
    }
}

impl ConfigRegistry {
    /// Enters the directives that workers take over.
    pub fn register_v1_snapshot_directives(&mut self)
        ensures
            final(self)@ == with_v1_directives(old(self)@),
    {
        let schema = v1_snapshot_schema();
        schema.access_rules.register(self);
        schema.gzip.register(self);
        schema.gzip_vary.register(self);
        schema.gzip_min_length.register(self);
        schema.gzip_comp_level.register(self);
        schema.gzip_types.register(self);
        schema.default_type.register(self);
        schema.types.register(self);
    }

    /// Checks that the registry serves the snapshot of the root.
    pub fn validate_v1_snapshot_schema(&self) -> (result: Result<
        ValidatedV1SnapshotSchema,
        V1SnapshotSchemaError,
    >)
        ensures
            match result {
                Ok(_) => validates(self@, Ok(())),
                Err(error) => validates(self@, Err(error)),
            },
    {
        let expected = active_directives();
        let known = self.directives_in(ContextKey(PISHOO));
        let ghost registry = self@;
        let mut i: usize = 0;
        while i < known.len()
            invariant
                i <= known@.len(),
                registry == self@,
                expected@.len() == v1_directives().len(),
                forall|k: int|
                    0 <= k < expected@.len() ==> (#[trigger] expected@[k])@ == v1_directives()[k],
                forall|k: int|
                    0 <= k < known@.len() ==> registry.directive(
                        PISHOO@,
                        (#[trigger] known@[k]).name.text(),
                    ) == Some(known@[k]@),
                forall|k: int|
                    0 <= k < i ==> (#[trigger] known@[k]).name.text() != reserved_name()
                        && !is_extra(registry, known@[k].name.text()),
            decreases known@.len() - i,
        {
            let spec = known[i];
            let directive = spec.name;
            if str_eq(directive.as_str(), "access_log") {
                return Err(V1SnapshotSchemaError::PrematureReservedDirective { directive });
            }
            let listed = has_name(&expected, directive.as_str());
            proof {
                if listed {
                    let k = choose|k: int|
                        0 <= k < expected@.len() && (#[trigger] expected@[k])@.name
                            == directive.text();
                    assert(v1_directives()[k].name == directive.text());
                } else {
                    assert forall|k: int| 0 <= k < v1_directives().len() implies (
                    #[trigger] v1_directives()[k]).name != directive.text() by {
                        assert(expected@[k]@.name == v1_directives()[k].name);
                    }
                }
            }
            if spec.transport == TransportPolicy::WorkerInheritable && !listed {
                return Err(V1SnapshotSchemaError::ExtraWorkerInheritableDirective { directive });
            }
            i += 1;
        }
        proof {
            assert forall|name: Seq<char>| !(#[trigger] is_extra(registry, name)) by {
                if registry.directive(PISHOO@, name) is Some {
                    let k = choose|k: int|
                        0 <= k < known@.len() && (#[trigger] known@[k]).name.text() == name;
                    assert(!is_extra(registry, known@[k].name.text()));
                }
            }
            if is_premature(registry) {
                let k = choose|k: int|
                    0 <= k < known@.len() && (#[trigger] known@[k]).name.text()
                        == reserved_name();
                assert(known@[k].name.text() != reserved_name());
            }
        }
        let mut i: usize = 0;
        while i < expected.len()
            invariant
                i <= expected@.len(),
                registry == self@,
                is_clear(registry),
                expected@.len() == v1_directives().len(),
                forall|k: int|
                    0 <= k < expected@.len() ==> (#[trigger] expected@[k])@ == v1_directives()[k],
                forall|k: int|
                    0 <= k < i ==> conforms(registry, #[trigger] v1_directives()[k]),
            decreases expected@.len() - i,
        {
            let wanted = &expected[i];
            let spec = self.directive_spec(ContextKey(PISHOO), wanted.name.as_str());
            proof {
                assert(wanted@ == v1_directives()[i as int]);
                let known_there = registry.directive(PISHOO@, wanted@.name);
                assert(match spec {
                    Some(spec) => known_there == Some(spec@),
                    None => known_there is None,
                });
            }
            match check_directive(spec, wanted) {
                Ok(_) => {},
                Err(error) => {
                    assert(conform_error(registry, v1_directives()[i as int], error));
                    return Err(error);
                },
            }
            i += 1;
        }
        Ok(ValidatedV1SnapshotSchema { checked: () })
    }
}

/// A registry serves the snapshot where `pishoo` blocks know no `access_log`, where what workers take
/// over are these eight directives and no others, and where each of them gives one value of its type.
pub proof fn snapshot_is_served_by_eight_directives(registry: RegistryView, name: Seq<char>)
    requires
        validates(registry, Ok(())),
    ensures
        ({
            let pishoo = seq!['g', 'a', 't', 'e', 'w', 'a', 'y', '.', 'p', 'i', 's', 'h', 'o', 'o'];
            &&& registry.directive(
                pishoo,
                seq!['a', 'c', 'c', 'e', 's', 's', '_', 'l', 'o', 'g'],
            ) is None
            &&& registry.directive(pishoo, name) matches Some(spec) ==> spec.transport
                == TransportPolicy::WorkerInheritable ==> ({
                ||| name == seq!['a', 'c', 'c', 'e', 's', 's', '_', 'r', 'u', 'l', 'e', 's']
                ||| name == seq!['g', 'z', 'i', 'p']
                ||| name == seq!['g', 'z', 'i', 'p', '_', 'v', 'a', 'r', 'y']
                ||| name == seq!['g', 'z', 'i', 'p', '_', 'm', 'i', 'n', '_', 'l', 'e', 'n', 'g', 't', 'h']
                ||| name == seq!['g', 'z', 'i', 'p', '_', 'c', 'o', 'm', 'p', '_', 'l', 'e', 'v', 'e', 'l']
                ||| name == seq!['g', 'z', 'i', 'p', '_', 't', 'y', 'p', 'e', 's']
                ||| name == seq!['d', 'e', 'f', 'a', 'u', 'l', 't', '_', 't', 'y', 'p', 'e']
                ||| name == seq!['t', 'y', 'p', 'e', 's']
            })
            &&& registry.directive(
                pishoo,
                seq!['a', 'c', 'c', 'e', 's', 's', '_', 'r', 'u', 'l', 'e', 's'],
            ) matches Some(spec) && parser_kind(spec.parser) == Some(ValueKind::AccessRulesUri)
                && spec.duplicate == DuplicatePolicy::Reject && spec.transport
                == TransportPolicy::WorkerInheritable
            &&& registry.directive(
                pishoo,
                seq!['g', 'z', 'i', 'p'],
            ) matches Some(spec) && parser_kind(spec.parser) == Some(ValueKind::BoolConfig)
                && spec.duplicate == DuplicatePolicy::Reject && spec.transport
                == TransportPolicy::WorkerInheritable
            &&& registry.directive(
                pishoo,
                seq!['g', 'z', 'i', 'p', '_', 'v', 'a', 'r', 'y'],
            ) matches Some(spec) && parser_kind(spec.parser) == Some(ValueKind::BoolConfig)
                && spec.duplicate == DuplicatePolicy::Reject && spec.transport
                == TransportPolicy::WorkerInheritable
            &&& registry.directive(
                pishoo,
                seq!['g', 'z', 'i', 'p', '_', 'm', 'i', 'n', '_', 'l', 'e', 'n', 'g', 't', 'h'],
            ) matches Some(spec) && parser_kind(spec.parser) == Some(ValueKind::GzipMinLength)
                && spec.duplicate == DuplicatePolicy::Reject && spec.transport
                == TransportPolicy::WorkerInheritable
            &&& registry.directive(
                pishoo,
                seq!['g', 'z', 'i', 'p', '_', 'c', 'o', 'm', 'p', '_', 'l', 'e', 'v', 'e', 'l'],
            ) matches Some(spec) && parser_kind(spec.parser) == Some(ValueKind::GzipCompLevel)
                && spec.duplicate == DuplicatePolicy::Reject && spec.transport
                == TransportPolicy::WorkerInheritable
            &&& registry.directive(
                pishoo,
                seq!['g', 'z', 'i', 'p', '_', 't', 'y', 'p', 'e', 's'],
            ) matches Some(spec) && parser_kind(spec.parser) == Some(ValueKind::StringList)
                && spec.duplicate == DuplicatePolicy::Reject && spec.transport
                == TransportPolicy::WorkerInheritable
            &&& registry.directive(
                pishoo,
                seq!['d', 'e', 'f', 'a', 'u', 'l', 't', '_', 't', 'y', 'p', 'e'],
            ) matches Some(spec) && parser_kind(spec.parser) == Some(ValueKind::DefaultType)
                && spec.duplicate == DuplicatePolicy::Reject && spec.transport
                == TransportPolicy::WorkerInheritable
            &&& registry.directive(
                pishoo,
                seq!['t', 'y', 'p', 'e', 's'],
            ) matches Some(spec) && parser_kind(spec.parser) == Some(ValueKind::MimeTypes)
                && spec.duplicate == DuplicatePolicy::Reject && spec.transport
                == TransportPolicy::WorkerInheritable
        }),
{
    reveal_strlit("gateway.pishoo");
    assert("gateway.pishoo"@ =~= seq!['g', 'a', 't', 'e', 'w', 'a', 'y', '.', 'p', 'i', 's', 'h', 'o', 'o']);
    reveal_strlit("access_log");
    assert("access_log"@ =~= seq!['a', 'c', 'c', 'e', 's', 's', '_', 'l', 'o', 'g']);
    reveal_strlit("access_rules");
    assert("access_rules"@ =~= seq!['a', 'c', 'c', 'e', 's', 's', '_', 'r', 'u', 'l', 'e', 's']);
    reveal_strlit("gzip");
    assert("gzip"@ =~= seq!['g', 'z', 'i', 'p']);
    reveal_strlit("gzip_vary");
    assert("gzip_vary"@ =~= seq!['g', 'z', 'i', 'p', '_', 'v', 'a', 'r', 'y']);
    reveal_strlit("gzip_min_length");
    assert("gzip_min_length"@ =~= seq!['g', 'z', 'i', 'p', '_', 'm', 'i', 'n', '_', 'l', 'e', 'n', 'g', 't', 'h']);
    reveal_strlit("gzip_comp_level");
    assert("gzip_comp_level"@ =~= seq!['g', 'z', 'i', 'p', '_', 'c', 'o', 'm', 'p', '_', 'l', 'e', 'v', 'e', 'l']);
    reveal_strlit("gzip_types");
    assert("gzip_types"@ =~= seq!['g', 'z', 'i', 'p', '_', 't', 'y', 'p', 'e', 's']);
    reveal_strlit("default_type");
    assert("default_type"@ =~= seq!['d', 'e', 'f', 'a', 'u', 'l', 't', '_', 't', 'y', 'p', 'e']);
    reveal_strlit("types");
    assert("types"@ =~= seq!['t', 'y', 'p', 'e', 's']);
    assert(!is_extra(registry, name));
    assert(conforms(registry, v1_directives()[0]));
    assert(conforms(registry, v1_directives()[1]));
    assert(conforms(registry, v1_directives()[2]));
    assert(conforms(registry, v1_directives()[3]));
    assert(conforms(registry, v1_directives()[4]));
    assert(conforms(registry, v1_directives()[5]));
    assert(conforms(registry, v1_directives()[6]));
    assert(conforms(registry, v1_directives()[7]));
}

} // verus!
