//! What the root hands over to its workers, put together from its tree.
use std::sync::Arc;

use vstd::prelude::*;

use crate::parse::cascade::{cascade_origins, CascadeOriginView, ConfigOrigin, DirectiveKey};
use crate::parse::completion::answer;
use crate::parse::context::PISHOO;
use crate::parse::definition::TypedDirectiveDefinition;
use crate::parse::error::ConfigQueryError;
use crate::parse::query::{
    blocks_to, cascade_answer, cascades, chain_of, gathered_outside, gathers, innermost_value_wins,
    locates, unset_value_is_taken_over, Gathered,
};
use crate::parse::registry::is_contract_of;
use crate::parse::schema::{v1_directives, v1_snapshot_schema};
use crate::parse::snapshot::{
    Inheritable, InheritedOrigin, InheritedOriginView, InheritedValue, InheritedView,
    RootConfigSnapshot, RootInheritedConfigV1, SnapshotField, SnapshotView,
};
use crate::parse::source::ConfigDocumentSourceMap;
use crate::parse::transport::RootConfigSnapshotError;
use crate::parse::tree::{hangs_together, ConfigNodeId, HomeConfigTree, ParentLink, SealedView};
use crate::parse::types::{
    AccessRulesUri, BoolConfig, DefaultType, GzipCompLevel, GzipMinLength, MimeTypes, StringList,
};
use crate::parse::value::ConfigValue;

verus! {

/// Whether a key asks the `pishoo` block for one of the directives that workers take over.
pub open spec fn is_v1_key<T: ConfigValue>(
    key: DirectiveKey<T>,
    at: int,
    fallback: Option<T>,
    field: SnapshotField,
) -> bool {
    &&& key.directive() == v1_directives()[at].name
    &&& key.expects().len() == 1
    &&& is_contract_of(v1_directives()[at], PISHOO@, key.expects()[0])
    &&& key.fallback() == fallback
    &&& key.snapshot_field() == Some(field)
}

fn v1_key<T: ConfigValue>(
    definition: TypedDirectiveDefinition<T>,
    name: &'static str,
    builtin: Option<T>,
    field: SnapshotField,
) -> (key: DirectiveKey<T>)
    requires
        definition.wf(),
    ensures
        key.directive() == name@,
        key.expects().len() == 1,
        is_contract_of(definition.directive(), definition.registered_in(), key.expects()[0]),
        key.fallback() == builtin,
        key.snapshot_field() == Some(field),
{
    DirectiveKey::new(name, definition.contract(), builtin, Some(field))
}

/// Asks for the access rules; there are none by default.
pub fn v1_access_rules_key() -> (key: DirectiveKey<AccessRulesUri>)
    ensures
        is_v1_key(key, 0, None, SnapshotField::AccessRules),
{
    v1_key(v1_snapshot_schema().access_rules, "access_rules", None, SnapshotField::AccessRules)
}

/// Asks whether replies are compressed; they are not by default.
pub fn v1_gzip_key() -> (key: DirectiveKey<BoolConfig>)
    ensures
        is_v1_key(key, 1, Some(BoolConfig(false)), SnapshotField::Gzip),
{
    v1_key(v1_snapshot_schema().gzip, "gzip", Some(BoolConfig(false)), SnapshotField::Gzip)
}

/// Asks whether compressed replies say so; they do not by default.
pub fn v1_gzip_vary_key() -> (key: DirectiveKey<BoolConfig>)
    ensures
        is_v1_key(key, 2, Some(BoolConfig(false)), SnapshotField::GzipVary),
{
    v1_key(v1_snapshot_schema().gzip_vary, "gzip_vary", Some(BoolConfig(false)), SnapshotField::GzipVary)
}

/// Asks for the least length of a reply that is compressed; it is 20 by default.
pub fn v1_gzip_min_length_key() -> (key: DirectiveKey<GzipMinLength>)
    ensures
        is_v1_key(key, 3, Some(GzipMinLength(20)), SnapshotField::GzipMinLength),
{
    v1_key(v1_snapshot_schema().gzip_min_length, "gzip_min_length", Some(GzipMinLength::checked(20)), SnapshotField::GzipMinLength)
}

/// Asks how hard replies are compressed; it is 1 by default.
pub fn v1_gzip_comp_level_key() -> (key: DirectiveKey<GzipCompLevel>)
    ensures
        is_v1_key(key, 4, Some(GzipCompLevel(1)), SnapshotField::GzipCompLevel),
{
    v1_key(v1_snapshot_schema().gzip_comp_level, "gzip_comp_level", Some(GzipCompLevel::checked(1)), SnapshotField::GzipCompLevel)
}

/// Asks for the types of replies that are compressed; there are none by default.
pub fn v1_gzip_types_key() -> (key: DirectiveKey<StringList>)
    ensures
        is_v1_key(key, 5, None, SnapshotField::GzipTypes),
{
    v1_key(v1_snapshot_schema().gzip_types, "gzip_types", None, SnapshotField::GzipTypes)
}

/// Asks for the type of files of unknown type; there is none by default.
pub fn v1_default_type_key() -> (key: DirectiveKey<DefaultType>)
    ensures
        is_v1_key(key, 6, None, SnapshotField::DefaultType),
{
    v1_key(v1_snapshot_schema().default_type, "default_type", None, SnapshotField::DefaultType)
}

/// Asks for the types of files by their extension; there are none by default.
pub fn v1_types_key() -> (key: DirectiveKey<MimeTypes>)
    ensures
        is_v1_key(key, 7, None, SnapshotField::Types),
{
    v1_key(v1_snapshot_schema().types, "types", None, SnapshotField::Types)
}

/// How the origin of a value is named for workers: by the last place that set it.
pub open spec fn names_origin(
    documents: Seq<(u32, Arc<ConfigDocumentSourceMap>)>,
    lineage: Seq<CascadeOriginView>,
    result: Result<InheritedOriginView, RootConfigSnapshotError>,
) -> bool {
    if lineage.len() == 0 {
        result matches Ok(InheritedOriginView::Builtin)
    } else {
        match lineage.last() {
            CascadeOriginView::Builtin { .. } => result matches Ok(InheritedOriginView::Builtin),
            CascadeOriginView::Source(span) => match result {
                Ok(origin) => origin matches InheritedOriginView::Source(location) && locates(
                    documents,
                    span,
                    Ok(location),
                ),
                Err(error) => locates(documents, span, Err(error)),
            },
            CascadeOriginView::RootInherited { source: Some(location), .. } => result matches Ok(
                InheritedOriginView::Source(named),
            ) && named == location,
            CascadeOriginView::RootInherited { source: None, .. } => result matches Ok(
                InheritedOriginView::Builtin,
            ),
        }
    }
}

/// What the `pishoo` block of a tree has for a directive.
pub open spec fn finds<T: Inheritable>(
    tree: HomeConfigTree,
    key: DirectiveKey<T>,
    result: Result<Option<InheritedView<T::Shown>>, RootConfigSnapshotError>,
) -> bool {
    exists|answer: Result<Option<(T, Seq<CascadeOriginView>)>, ConfigQueryError>| #[trigger]
        cascades(tree, 1, key, answer) && (match answer {
            Err(error) => result matches Err(RootConfigSnapshotError::Query { source }) && source
                == error,
            Ok(None) => result matches Ok(None),
            Ok(Some((value, lineage))) => match result {
                Ok(Some(view)) => view.value == value.shown() && names_origin(
                    tree.documents(),
                    lineage,
                    Ok(view.origin),
                ),
                Ok(None) => false,
                Err(error) => names_origin(tree.documents(), lineage, Err(error)),
            },
        })
}

/// What the `pishoo` block of a tree has for one of the directives that workers take over.
pub open spec fn takes<T: Inheritable>(
    tree: HomeConfigTree,
    at: int,
    fallback: Option<T>,
    field: SnapshotField,
    result: Result<Option<InheritedView<T::Shown>>, RootConfigSnapshotError>,
) -> bool {
    exists|key: DirectiveKey<T>| #[trigger]
        is_v1_key(key, at, fallback, field) && finds(tree, key, result)
}

/// A value that may be missing.
pub open spec fn takes_optional<T: Inheritable>(
    tree: HomeConfigTree,
    at: int,
    field: SnapshotField,
    view: InheritedView<Option<T::Shown>>,
) -> bool {
    match view.value {
        Some(value) => takes::<T>(
            tree,
            at,
            None,
            field,
            Ok(Some(InheritedView { value, origin: view.origin })),
        ),
        None => view.origin == InheritedOriginView::Builtin && takes::<T>(
            tree,
            at,
            None,
            field,
            Ok(None),
        ),
    }
}

/// Why a value that must not be missing cannot be handed over.
pub open spec fn fails_required<T: Inheritable>(
    tree: HomeConfigTree,
    at: int,
    fallback: Option<T>,
    field: SnapshotField,
    error: RootConfigSnapshotError,
) -> bool {
    ||| takes::<T>(tree, at, fallback, field, Err(error))
    ||| takes::<T>(tree, at, fallback, field, Ok(None)) && (error matches
        RootConfigSnapshotError::MissingFallback { directive } && directive.text()
        == v1_directives()[at].name)
}

/// Why one of the values, counted in the order in which they are asked for, cannot be handed over.
pub open spec fn value_fails(tree: HomeConfigTree, at: int, error: RootConfigSnapshotError) -> bool {
    if at == 0 {
        takes::<AccessRulesUri>(tree, 0, None, SnapshotField::AccessRules, Err(error))
    } else if at == 1 {
        fails_required::<BoolConfig>(
            tree,
            1,
            Some(BoolConfig(false)),
            SnapshotField::Gzip,
            error,
        )
    } else if at == 2 {
        fails_required::<BoolConfig>(
            tree,
            2,
            Some(BoolConfig(false)),
            SnapshotField::GzipVary,
            error,
        )
    } else if at == 3 {
        fails_required::<GzipMinLength>(
            tree,
            3,
            Some(GzipMinLength(20)),
            SnapshotField::GzipMinLength,
            error,
        )
    } else if at == 4 {
        fails_required::<GzipCompLevel>(
            tree,
            4,
            Some(GzipCompLevel(1)),
            SnapshotField::GzipCompLevel,
            error,
        )
    } else if at == 5 {
        takes::<StringList>(tree, 5, None, SnapshotField::GzipTypes, Err(error))
    } else if at == 6 {
        takes::<DefaultType>(tree, 6, None, SnapshotField::DefaultType, Err(error))
    } else if at == 7 {
        takes::<MimeTypes>(tree, 7, None, SnapshotField::Types, Err(error))
    } else {
        false
    }
}

/// Whether one of the values, counted in the order in which they are asked for, can be handed over
/// as it stands in a snapshot.
pub open spec fn value_passes(tree: HomeConfigTree, at: int, view: SnapshotView) -> bool {
    if at == 0 {
        takes_optional::<AccessRulesUri>(tree, 0, SnapshotField::AccessRules, view.access_rules)
    } else if at == 1 {
        takes::<BoolConfig>(
            tree,
            1,
            Some(BoolConfig(false)),
            SnapshotField::Gzip,
            Ok(Some(view.gzip)),
        )
    } else if at == 2 {
        takes::<BoolConfig>(
            tree,
            2,
            Some(BoolConfig(false)),
            SnapshotField::GzipVary,
            Ok(Some(view.gzip_vary)),
        )
    } else if at == 3 {
        takes::<GzipMinLength>(
            tree,
            3,
            Some(GzipMinLength(20)),
            SnapshotField::GzipMinLength,
            Ok(Some(view.gzip_min_length)),
        )
    } else if at == 4 {
        takes::<GzipCompLevel>(
            tree,
            4,
            Some(GzipCompLevel(1)),
            SnapshotField::GzipCompLevel,
            Ok(Some(view.gzip_comp_level)),
        )
    } else if at == 5 {
        takes_optional::<StringList>(tree, 5, SnapshotField::GzipTypes, view.gzip_types)
    } else if at == 6 {
        takes_optional::<DefaultType>(tree, 6, SnapshotField::DefaultType, view.default_type)
    } else if at == 7 {
        takes_optional::<MimeTypes>(tree, 7, SnapshotField::Types, view.types)
    } else {
        false
    }
}

/// What putting the snapshot together gives: all eight values, or the first thing that is wrong. No
/// access log is handed over.
pub open spec fn projects(
    tree: HomeConfigTree,
    result: Result<SnapshotView, RootConfigSnapshotError>,
) -> bool {
    match result {
        Ok(view) => {
            &&& forall|at: int| 0 <= at < 8 ==> #[trigger] value_passes(tree, at, view)
            &&& view.access_log.value is None
            &&& view.access_log.origin == InheritedOriginView::Builtin
        },
        Err(error) => exists|at: int, view: SnapshotView|
            {
                &&& 0 <= at < 8
                &&& #[trigger] value_fails(tree, at, error)
                &&& #[trigger] all_pass(tree, at, view)
            },
    }
}

/// Whether the first of the values can be handed over as they stand in a snapshot.
pub open spec fn all_pass(tree: HomeConfigTree, count: int, view: SnapshotView) -> bool {
    forall|at: int| 0 <= at < count ==> #[trigger] value_passes(tree, at, view)
}

/// What was found, as plain contents.
pub open spec fn shown_find<T: Inheritable>(
    result: Result<Option<InheritedValue<T>>, RootConfigSnapshotError>,
) -> Result<Option<InheritedView<T::Shown>>, RootConfigSnapshotError> {
    match result {
        Ok(Some(value)) => Ok(Some(value@)),
        Ok(None) => Ok(None),
        Err(error) => Err(error),
    }
}

fn project_origin(tree: &HomeConfigTree, lineage: &Vec<ConfigOrigin>) -> (result: Result<
    InheritedOrigin,
    RootConfigSnapshotError,
>)
    ensures
        match result {
            Ok(origin) => names_origin(
                tree.documents(),
                cascade_origins(lineage@),
                Ok(origin@),
            ),
            Err(error) => names_origin(tree.documents(), cascade_origins(lineage@), Err(error)),
        },
{
    if lineage.len() == 0 {
        return Ok(InheritedOrigin::Builtin);
    }
    assert(cascade_origins(lineage@).last() == lineage@.last()@);
    match &lineage[lineage.len() - 1] {
        ConfigOrigin::Builtin { .. } => Ok(InheritedOrigin::Builtin),
        ConfigOrigin::Source(span) => match tree.sources().inherited_source_location(*span) {
            Ok(location) => Ok(InheritedOrigin::Source(location)),
            Err(error) => Err(error),
        },
        ConfigOrigin::RootInherited { source, .. } => match source {
            Some(location) => Ok(InheritedOrigin::Source(location.clone())),
            None => Ok(InheritedOrigin::Builtin),
        },
    }
}

fn project_value<T: Inheritable>(tree: &Arc<HomeConfigTree>, key: &DirectiveKey<T>) -> (result:
    Result<Option<InheritedValue<T>>, RootConfigSnapshotError>)
    ensures
        finds(**tree, *key, shown_find(result)),
{
    let pishoo = HomeConfigTree::pishoo(tree);
    let answer = pishoo.cascaded(key);
    assert(cascades::<T>(**tree, 1, *key, cascade_answer(answer)));
    match answer {
        Err(error) => Err(RootConfigSnapshotError::Query { source: error }),
        Ok(None) => Ok(None),
        Ok(Some(value)) => match project_origin(tree, &value.lineage) {
            Ok(origin) => Ok(
                Some(InheritedValue { value: value.effective.duplicate(), origin }),
            ),
            Err(error) => Err(error),
        },
    }
}

fn project_optional<T: Inheritable>(
    tree: &Arc<HomeConfigTree>,
    key: &DirectiveKey<T>,
    Ghost(at): Ghost<int>,
    Ghost(field): Ghost<SnapshotField>,
) -> (result: Result<InheritedValue<Option<T>>, RootConfigSnapshotError>)
    requires
        is_v1_key(*key, at, None, field),
    ensures
        match result {
            Ok(value) => takes_optional::<T>(**tree, at, field, value@),
            Err(error) => takes::<T>(**tree, at, None, field, Err(error)),
        },
{
    match project_value(tree, key) {
        Ok(Some(value)) => Ok(
            InheritedValue { value: Some(value.value), origin: value.origin },
        ),
        Ok(None) => Ok(InheritedValue { value: None, origin: InheritedOrigin::Builtin }),
        Err(error) => Err(error),
    }
}

fn project_required<T: Inheritable>(
    tree: &Arc<HomeConfigTree>,
    key: &DirectiveKey<T>,
    Ghost(at): Ghost<int>,
    Ghost(fallback): Ghost<Option<T>>,
    Ghost(field): Ghost<SnapshotField>,
) -> (result: Result<InheritedValue<T>, RootConfigSnapshotError>)
    requires
        is_v1_key(*key, at, fallback, field),
    ensures
        match result {
            Ok(value) => takes::<T>(**tree, at, fallback, field, Ok(Some(value@))),
            Err(error) => fails_required::<T>(**tree, at, fallback, field, error),
        },
{
    match project_value(tree, key) {
        Ok(Some(value)) => Ok(value),
        Ok(None) => Err(RootConfigSnapshotError::MissingFallback { directive: key.name() }),
        Err(error) => Err(error),
    }
}

impl RootConfigSnapshot {
    /// Puts together what workers take over from the root.
    pub fn project(tree: &Arc<HomeConfigTree>) -> (result: Result<Self, RootConfigSnapshotError>)
        ensures
            match result {
                Ok(snapshot) => projects(**tree, Ok(snapshot.config()@)),
                Err(error) => projects(**tree, Err(error)),
            },
    {
        let ghost mut view: SnapshotView = arbitrary();
        let access_rules = match project_optional(
            tree,
            &v1_access_rules_key(),
            Ghost(0),
            Ghost(SnapshotField::AccessRules),
        ) {
            Ok(value) => value,
            Err(error) => {
                proof {
                    assert(all_pass(**tree, 0, view));
                    assert(value_fails(**tree, 0, error));
                }
                return Err(error);
            },
        };
        proof {
            view = SnapshotView { access_rules: access_rules@, ..view };
            assert(all_pass(**tree, 1, view));
        }
        let gzip = match project_required(
            tree,
            &v1_gzip_key(),
            Ghost(1),
            Ghost(Some(BoolConfig(false))),
            Ghost(SnapshotField::Gzip),
        ) {
            Ok(value) => value,
            Err(error) => {
                proof {
                    assert(all_pass(**tree, 1, view));
                    assert(value_fails(**tree, 1, error));
                }
                return Err(error);
            },
        };
        proof {
            view = SnapshotView { gzip: gzip@, ..view };
            assert(all_pass(**tree, 2, view));
        }
        let gzip_vary = match project_required(
            tree,
            &v1_gzip_vary_key(),
            Ghost(2),
            Ghost(Some(BoolConfig(false))),
            Ghost(SnapshotField::GzipVary),
        ) {
            Ok(value) => value,
            Err(error) => {
                proof {
                    assert(all_pass(**tree, 2, view));
                    assert(value_fails(**tree, 2, error));
                }
                return Err(error);
            },
        };
        proof {
            view = SnapshotView { gzip_vary: gzip_vary@, ..view };
            assert(all_pass(**tree, 3, view));
        }
        let gzip_min_length = match project_required(
            tree,
            &v1_gzip_min_length_key(),
            Ghost(3),
            Ghost(Some(GzipMinLength(20))),
            Ghost(SnapshotField::GzipMinLength),
        ) {
            Ok(value) => value,
            Err(error) => {
                proof {
                    assert(all_pass(**tree, 3, view));
                    assert(value_fails(**tree, 3, error));
                }
                return Err(error);
            },
        };
        proof {
            view = SnapshotView { gzip_min_length: gzip_min_length@, ..view };
            assert(all_pass(**tree, 4, view));
        }
        let gzip_comp_level = match project_required(
            tree,
            &v1_gzip_comp_level_key(),
            Ghost(4),
            Ghost(Some(GzipCompLevel(1))),
            Ghost(SnapshotField::GzipCompLevel),
        ) {
            Ok(value) => value,
            Err(error) => {
                proof {
                    assert(all_pass(**tree, 4, view));
                    assert(value_fails(**tree, 4, error));
                }
                return Err(error);
            },
        };
        proof {
            view = SnapshotView { gzip_comp_level: gzip_comp_level@, ..view };
            assert(all_pass(**tree, 5, view));
        }
        let gzip_types = match project_optional(
            tree,
            &v1_gzip_types_key(),
            Ghost(5),
            Ghost(SnapshotField::GzipTypes),
        ) {
            Ok(value) => value,
            Err(error) => {
                proof {
                    assert(all_pass(**tree, 5, view));
                    assert(value_fails(**tree, 5, error));
                }
                return Err(error);
            },
        };
        proof {
            view = SnapshotView { gzip_types: gzip_types@, ..view };
            assert(all_pass(**tree, 6, view));
        }
        let default_type = match project_optional(
            tree,
            &v1_default_type_key(),
            Ghost(6),
            Ghost(SnapshotField::DefaultType),
        ) {
            Ok(value) => value,
            Err(error) => {
                proof {
                    assert(all_pass(**tree, 6, view));
                    assert(value_fails(**tree, 6, error));
                }
                return Err(error);
            },
        };
        proof {
            view = SnapshotView { default_type: default_type@, ..view };
            assert(all_pass(**tree, 7, view));
        }
        let types = match project_optional(
            tree,
            &v1_types_key(),
            Ghost(7),
            Ghost(SnapshotField::Types),
        ) {
            Ok(value) => value,
            Err(error) => {
                proof {
                    assert(all_pass(**tree, 7, view));
                    assert(value_fails(**tree, 7, error));
                }
                return Err(error);
            },
        };
        proof {
            view = SnapshotView { types: types@, ..view };
            assert(all_pass(**tree, 8, view));
        }
        let access_log = InheritedValue { value: None, origin: InheritedOrigin::Builtin };
        let config = RootInheritedConfigV1 {
            access_rules,
            gzip,
            gzip_vary,
            gzip_min_length,
            gzip_comp_level,
            gzip_types,
            default_type,
            types,
            access_log,
        };
        proof {
            view = SnapshotView { access_log: access_log@, ..view };
            assert(all_pass(**tree, 8, view));
            assert(config@ == view);
        }
        Ok(RootConfigSnapshot::V1(config))
    }
}

impl HomeConfigTree {
    /// Puts together what workers take over from the root.
    pub fn root_snapshot(tree: &Arc<HomeConfigTree>) -> (result: Result<
        RootConfigSnapshot,
        RootConfigSnapshotError,
    >)
        ensures
            match result {
                Ok(snapshot) => projects(**tree, Ok(snapshot.config()@)),
                Err(error) => projects(**tree, Err(error)),
            },
    {
        RootConfigSnapshot::project(tree)
    }
}

proof fn lemma_found<T: Inheritable>(
    tree: HomeConfigTree,
    at: int,
    fallback: Option<T>,
    field: SnapshotField,
    found: Option<InheritedView<T::Shown>>,
)
    requires
        hangs_together(tree.sealed()),
        tree.inherited() is None,
        takes::<T>(tree, at, fallback, field, Ok(found)),
    ensures
        ({
            let name = v1_directives()[at].name;
            let own = answer::<T>(tree.sealed()[1].node@.slot(name));
            let outer = answer::<T>(tree.sealed()[0].node@.slot(name));
            &&& own matches Some(value) ==> found matches Some(view) && view.value == value.shown()
                && (tree.sealed()[1].document is Some ==> view.origin is Source)
            &&& own is None && outer is None ==> match fallback {
                Some(value) => found matches Some(view) && view.value == value.shown()
                    && view.origin is Builtin,
                None => found is None,
            }
        }),
{
    let key = choose|key: DirectiveKey<T>| #[trigger]
        is_v1_key(key, at, fallback, field) && finds(
            tree,
            key,
            Ok::<Option<InheritedView<T::Shown>>, RootConfigSnapshotError>(found),
        );
    let name = key.directive();
    let nodes = tree.sealed();
    let got = choose|got: Result<Option<(T, Seq<CascadeOriginView>)>, ConfigQueryError>| #[trigger]
        cascades(tree, 1, key, got) && (match got {
            Err(error) => false,
            Ok(None) => found is None,
            Ok(Some((value, lineage))) => found matches Some(view) && view.value == value.shown()
                && names_origin(tree.documents(), lineage, Ok(view.origin)),
        });
    let blocks = blocks_to(nodes, 1);
    assert(nodes[1].parent == ParentLink::Node(ConfigNodeId(0)));
    assert(chain_of(nodes, 0) =~= seq![0int]);
    assert(chain_of(nodes, 1) =~= seq![0int, 1int]);
    assert(blocks =~= seq![nodes[0], nodes[1]]);
    let start = gathered_outside(key, tree.inherited());
    let reply = got->Ok_0;
    let end = choose|end: Gathered<T>|
        {
            &&& #[trigger] gathers(start, blocks, name, end)
            &&& reply == (match end.value {
                Some(value) => Some((value, end.lineage)),
                None => None,
            })
        };
    assert(blocks.drop_last() =~= seq![nodes[0]]);
    assert(blocks.drop_last().drop_last() =~= Seq::<SealedView>::empty());
    let own = answer::<T>(nodes[1].node@.slot(name));
    let outer = answer::<T>(nodes[0].node@.slot(name));
    if own is None && outer is None {
        unset_value_is_taken_over(start, blocks, name, end);
    }
    if own is Some {
        innermost_value_wins(start, blocks, name, end, 1);
    }
}

/// The snapshot of a root holds of every directive what the `pishoo` block sets. Where neither it
/// nor the block around it sets one, replies are not compressed and do not say so, compression starts
/// at 20 bytes at level 1, and the other values are missing; no access log is ever handed over.
#[verifier::rlimit(40)]
pub proof fn snapshot_holds_what_the_block_sets(tree: HomeConfigTree, view: SnapshotView)
    requires
        hangs_together(tree.sealed()),
        tree.inherited() is None,
        projects(tree, Ok(view)),
    ensures
        ({
            let own = tree.sealed()[1].node@;
            let outer = tree.sealed()[0].node@;
            let rules = seq!['a', 'c', 'c', 'e', 's', 's', '_', 'r', 'u', 'l', 'e', 's'];
            let gzip = seq!['g', 'z', 'i', 'p'];
            let vary = gzip + seq!['_', 'v', 'a', 'r', 'y'];
            let length = gzip + seq!['_', 'm', 'i', 'n', '_', 'l', 'e', 'n', 'g', 't', 'h'];
            let level = gzip + seq!['_', 'c', 'o', 'm', 'p', '_', 'l', 'e', 'v', 'e', 'l'];
            let kinds = gzip + seq!['_', 't', 'y', 'p', 'e', 's'];
            let default = seq!['d', 'e', 'f', 'a', 'u', 'l', 't', '_', 't', 'y', 'p', 'e'];
            let types = seq!['t', 'y', 'p', 'e', 's'];
            &&& answer::<BoolConfig>(own.slot(gzip)) matches Some(value) ==> view.gzip.value
                == value.0
            &&& answer::<BoolConfig>(own.slot(gzip)) is None && answer::<BoolConfig>(
                outer.slot(gzip),
            ) is None ==> view.gzip.value == false && view.gzip.origin is Builtin
            &&& answer::<BoolConfig>(own.slot(vary)) matches Some(value) ==> view.gzip_vary.value
                == value.0
            &&& answer::<BoolConfig>(own.slot(vary)) is None && answer::<BoolConfig>(
                outer.slot(vary),
            ) is None ==> view.gzip_vary.value == false && view.gzip_vary.origin is Builtin
            &&& answer::<GzipMinLength>(own.slot(length)) matches Some(value)
                ==> view.gzip_min_length.value == value.0
            &&& answer::<GzipMinLength>(own.slot(length)) is None && answer::<GzipMinLength>(
                outer.slot(length),
            ) is None ==> view.gzip_min_length.value == 20 && view.gzip_min_length.origin is Builtin
            &&& answer::<GzipCompLevel>(own.slot(level)) matches Some(value)
                ==> view.gzip_comp_level.value == value.0
            &&& answer::<GzipCompLevel>(own.slot(level)) is None && answer::<GzipCompLevel>(
                outer.slot(level),
            ) is None ==> view.gzip_comp_level.value == 1 && view.gzip_comp_level.origin is Builtin
            &&& answer::<AccessRulesUri>(own.slot(rules)) matches Some(value)
                ==> view.access_rules.value == Some(value@)
            &&& answer::<AccessRulesUri>(own.slot(rules)) is None && answer::<AccessRulesUri>(
                outer.slot(rules),
            ) is None ==> view.access_rules.value is None && view.access_rules.origin is Builtin
            &&& answer::<StringList>(own.slot(kinds)) matches Some(value) ==> view.gzip_types.value
                == Some(value@)
            &&& answer::<StringList>(own.slot(kinds)) is None && answer::<StringList>(
                outer.slot(kinds),
            ) is None ==> view.gzip_types.value is None && view.gzip_types.origin is Builtin
            &&& answer::<DefaultType>(own.slot(default)) matches Some(value)
                ==> view.default_type.value == Some(value@)
            &&& answer::<DefaultType>(own.slot(default)) is None && answer::<DefaultType>(
                outer.slot(default),
            ) is None ==> view.default_type.value is None && view.default_type.origin is Builtin
            &&& answer::<MimeTypes>(own.slot(types)) matches Some(value) ==> view.types.value
                == Some(value@)
            &&& answer::<MimeTypes>(own.slot(types)) is None && answer::<MimeTypes>(
                outer.slot(types),
            ) is None ==> view.types.value is None && view.types.origin is Builtin
            &&& view.access_log.value is None
        }),
{
    reveal_strlit("access_rules");
    reveal_strlit("gzip");
    reveal_strlit("gzip_vary");
    reveal_strlit("gzip_min_length");
    reveal_strlit("gzip_comp_level");
    reveal_strlit("gzip_types");
    reveal_strlit("default_type");
    reveal_strlit("types");
    let gzip = seq!['g', 'z', 'i', 'p'];
    assert("access_rules"@ =~= seq!['a', 'c', 'c', 'e', 's', 's', '_', 'r', 'u', 'l', 'e', 's']);
    assert("gzip"@ =~= gzip);
    assert("gzip_vary"@ =~= gzip + seq!['_', 'v', 'a', 'r', 'y']);
    assert("gzip_min_length"@ =~= gzip + seq!['_', 'm', 'i', 'n', '_', 'l', 'e', 'n', 'g', 't', 'h']);
    assert("gzip_comp_level"@ =~= gzip + seq!['_', 'c', 'o', 'm', 'p', '_', 'l', 'e', 'v', 'e', 'l']);
    assert("gzip_types"@ =~= gzip + seq!['_', 't', 'y', 'p', 'e', 's']);
    assert("default_type"@ =~= seq!['d', 'e', 'f', 'a', 'u', 'l', 't', '_', 't', 'y', 'p', 'e']);
    assert("types"@ =~= seq!['t', 'y', 'p', 'e', 's']);
    assert(value_passes(tree, 0, view));
    assert(value_passes(tree, 1, view));
    assert(value_passes(tree, 2, view));
    assert(value_passes(tree, 3, view));
    assert(value_passes(tree, 4, view));
    assert(value_passes(tree, 5, view));
    assert(value_passes(tree, 6, view));
    assert(value_passes(tree, 7, view));
    lemma_found::<BoolConfig>(
        tree,
        1,
        Some(BoolConfig(false)),
        SnapshotField::Gzip,
        Some(view.gzip),
    );
    lemma_found::<BoolConfig>(
        tree,
        2,
        Some(BoolConfig(false)),
        SnapshotField::GzipVary,
        Some(view.gzip_vary),
    );
    lemma_found::<GzipMinLength>(
        tree,
        3,
        Some(GzipMinLength(20)),
        SnapshotField::GzipMinLength,
        Some(view.gzip_min_length),
    );
    lemma_found::<GzipCompLevel>(
        tree,
        4,
        Some(GzipCompLevel(1)),
        SnapshotField::GzipCompLevel,
        Some(view.gzip_comp_level),
    );
    lemma_found_optional::<AccessRulesUri>(tree, 0, SnapshotField::AccessRules, view.access_rules);
    lemma_found_optional::<StringList>(tree, 5, SnapshotField::GzipTypes, view.gzip_types);
    lemma_found_optional::<DefaultType>(tree, 6, SnapshotField::DefaultType, view.default_type);
    lemma_found_optional::<MimeTypes>(tree, 7, SnapshotField::Types, view.types);
}

proof fn lemma_found_optional<T: Inheritable>(
    tree: HomeConfigTree,
    at: int,
    field: SnapshotField,
    view: InheritedView<Option<T::Shown>>,
)
    requires
        hangs_together(tree.sealed()),
        tree.inherited() is None,
        takes_optional::<T>(tree, at, field, view),
    ensures
        ({
            let name = v1_directives()[at].name;
            let own = answer::<T>(tree.sealed()[1].node@.slot(name));
            let outer = answer::<T>(tree.sealed()[0].node@.slot(name));
            &&& own matches Some(value) ==> view.value == Some(value.shown())
            &&& own is None && outer is None ==> view.value is None && view.origin is Builtin
        }),
{
    let found = match view.value {
        Some(value) => Some(InheritedView { value, origin: view.origin }),
        None => None,
    };
    lemma_found::<T>(tree, at, None, field, found);
}

/// A value comes from the place that set it last; without one it is built in.
pub proof fn last_origin_is_named(
    documents: Seq<(u32, Arc<ConfigDocumentSourceMap>)>,
    lineage: Seq<CascadeOriginView>,
    last: CascadeOriginView,
    one: Result<InheritedOriginView, RootConfigSnapshotError>,
    other: Result<InheritedOriginView, RootConfigSnapshotError>,
)
    requires
        names_origin(documents, lineage.push(last), one),
        names_origin(documents, seq![last], other),
    ensures
        last is Builtin ==> one == Ok::<InheritedOriginView, RootConfigSnapshotError>(
            InheritedOriginView::Builtin,
        ),
        last is Source ==> (one matches Ok(origin) ==> origin is Source),
        last matches CascadeOriginView::RootInherited { source: Some(location), .. } ==> one
            == Ok::<InheritedOriginView, RootConfigSnapshotError>(
            InheritedOriginView::Source(location),
        ),
        one is Ok && other is Ok ==> one->Ok_0 == other->Ok_0,
        last is Source ==> one is Ok == other is Ok,
{
    assert(lineage.push(last).last() == last);
    assert(seq![last].last() == last);
}

} // verus!
