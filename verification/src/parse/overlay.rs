//! HTTP settings that one level of configuration hands down to the next.
use vstd::prelude::*;

use crate::outside::UrlView;
use crate::parse::ast::AstDirective;
use crate::parse::block::{
    are_settings, field_holds_what_its_directive_gives, first_of, is_assigned, is_assigned_log,
    log_is_what_its_directive_gives, parses_access_log, take_assigned, take_log, untouched, Assignment,
    Block, Field, Setting,
};
use crate::parse::config::{
    builtin_origin, clone_origins, origin_views, source_origin, AccessLogDirective, AccessLogView,
    Cascaded, CascadedView, ConfigOrigin, Duplicate, EffectiveHttpConfig, HttpView, OriginScope,
};
use crate::parse::decode::DirectiveValue;
use crate::parse::source::{SourceMap, SourceSpan};
use crate::parse::types::{
    AccessRulesUri, BoolConfig, DefaultType, GzipCompLevel, GzipMinLength, MimeTypes, StringList,
};

verus! {

/// The HTTP settings that the directives of one block make.
#[derive(Debug)]
pub struct LocalHttp {
    pub access_rules: Option<Assignment<AccessRulesUri>>,
    pub gzip: Option<Assignment<BoolConfig>>,
    pub gzip_vary: Option<Assignment<BoolConfig>>,
    pub gzip_min_length: Option<Assignment<GzipMinLength>>,
    pub gzip_comp_level: Option<Assignment<GzipCompLevel>>,
    pub gzip_types: Option<Assignment<StringList>>,
    pub default_type: Option<Assignment<DefaultType>>,
    pub types: Option<Assignment<MimeTypes>>,
    pub access_log: Option<Assignment<AccessLogDirective>>,
}

/// What a directive sets, with its place.
pub struct SetView<V> {
    pub value: V,
    pub span: SourceSpan,
}

/// The HTTP settings that the directives of one block make, as plain contents.
pub struct LocalView {
    pub access_rules: Option<SetView<UrlView>>,
    pub gzip: Option<SetView<bool>>,
    pub gzip_vary: Option<SetView<bool>>,
    pub gzip_min_length: Option<SetView<u64>>,
    pub gzip_comp_level: Option<SetView<i32>>,
    pub gzip_types: Option<SetView<Seq<String>>>,
    pub default_type: Option<SetView<Seq<u8>>>,
    pub types: Option<SetView<Map<Seq<char>, Seq<u8>>>>,
    pub access_log: Option<SetView<AccessLogView>>,
}

/// An assignment, as plain contents.
pub open spec fn set_view<T: Duplicate>(local: Option<Assignment<T>>) -> Option<SetView<T::Shown>> {
    match local {
        Some(assignment) => Some(
            SetView { value: assignment.value.shown(), span: assignment.span },
        ),
        None => None,
    }
}

impl View for LocalHttp {
    type V = LocalView;

    open spec fn view(&self) -> LocalView {
        LocalView {
            access_rules: set_view(self.access_rules),
            gzip: set_view(self.gzip),
            gzip_vary: set_view(self.gzip_vary),
            gzip_min_length: set_view(self.gzip_min_length),
            gzip_comp_level: set_view(self.gzip_comp_level),
            gzip_types: set_view(self.gzip_types),
            default_type: set_view(self.default_type),
            types: set_view(self.types),
            access_log: set_view(self.access_log),
        }
    }
}

/// Whether settings are those that the directives of a block make.
pub open spec fn is_local_http(
    block: Block,
    children: Seq<AstDirective>,
    sources: SourceMap,
    local: LocalHttp,
) -> bool {
    &&& is_assigned(block, children, Field::AccessRules, sources, local.access_rules)
    &&& is_assigned(block, children, Field::Gzip, sources, local.gzip)
    &&& is_assigned(block, children, Field::GzipVary, sources, local.gzip_vary)
    &&& is_assigned(block, children, Field::GzipMinLength, sources, local.gzip_min_length)
    &&& is_assigned(block, children, Field::GzipCompLevel, sources, local.gzip_comp_level)
    &&& is_assigned(block, children, Field::GzipTypes, sources, local.gzip_types)
    &&& is_assigned(block, children, Field::DefaultType, sources, local.default_type)
    &&& is_assigned(block, children, Field::Types, sources, local.types)
    &&& is_assigned_log(block, children, sources, local.access_log)
}

/// Whether no HTTP setting was taken away yet.
pub open spec fn untouched_http(
    block: Block,
    children: Seq<AstDirective>,
    settings: Seq<Option<Setting>>,
) -> bool {
    &&& untouched(block, children, settings, Field::AccessRules)
    &&& untouched(block, children, settings, Field::Gzip)
    &&& untouched(block, children, settings, Field::GzipVary)
    &&& untouched(block, children, settings, Field::GzipMinLength)
    &&& untouched(block, children, settings, Field::GzipCompLevel)
    &&& untouched(block, children, settings, Field::GzipTypes)
    &&& untouched(block, children, settings, Field::DefaultType)
    &&& untouched(block, children, settings, Field::Types)
    &&& untouched(block, children, settings, Field::AccessLog)
}

/// Takes the HTTP settings out of those of a block.
pub fn take_http(
    block: Block,
    children: &Vec<AstDirective>,
    sources: &SourceMap,
    settings: Vec<Option<Setting>>,
) -> (local: LocalHttp)
    requires
        are_settings(block, children@, *sources, settings@),
        untouched_http(block, children@, settings@),
    ensures
        is_local_http(block, children@, *sources, local),
{
    let mut settings = settings;
    let access_rules = take_assigned::<AccessRulesUri>(
        block,
        children,
        Field::AccessRules,
        sources,
        &mut settings,
    );
    let gzip = take_assigned::<BoolConfig>(
        block,
        children,
        Field::Gzip,
        sources,
        &mut settings,
    );
    let gzip_vary = take_assigned::<BoolConfig>(
        block,
        children,
        Field::GzipVary,
        sources,
        &mut settings,
    );
    let gzip_min_length = take_assigned::<GzipMinLength>(
        block,
        children,
        Field::GzipMinLength,
        sources,
        &mut settings,
    );
    let gzip_comp_level = take_assigned::<GzipCompLevel>(
        block,
        children,
        Field::GzipCompLevel,
        sources,
        &mut settings,
    );
    let gzip_types = take_assigned::<StringList>(
        block,
        children,
        Field::GzipTypes,
        sources,
        &mut settings,
    );
    let default_type = take_assigned::<DefaultType>(
        block,
        children,
        Field::DefaultType,
        sources,
        &mut settings,
    );
    let types = take_assigned::<MimeTypes>(
        block,
        children,
        Field::Types,
        sources,
        &mut settings,
    );
    let access_log = take_log(block, children, sources, &mut settings);
    LocalHttp {
        access_rules,
        gzip,
        gzip_vary,
        gzip_min_length,
        gzip_comp_level,
        gzip_types,
        default_type,
        types,
        access_log,
    }
}

/// A value once a level of configuration had its say: what the level sets, or what came down to
/// it. Only what is set leaves a mark in the lineage.
pub open spec fn cascaded<V>(
    parent: CascadedView<V>,
    local: Option<SetView<V>>,
    scope: OriginScope,
    sources: SourceMap,
) -> CascadedView<V> {
    match local {
        Some(set) => CascadedView {
            effective: set.value,
            lineage: parent.lineage.push(source_origin(scope, sources, set.span)),
        },
        None => parent,
    }
}

/// A setting that may be absent, once it is set.
pub open spec fn set_some<V>(local: Option<SetView<V>>) -> Option<SetView<Option<V>>> {
    match local {
        Some(set) => Some(SetView { value: Some(set.value), span: set.span }),
        None => None,
    }
}

/// The HTTP settings of a level: those that it makes over those that came down to it.
pub open spec fn overlay(
    parent: HttpView,
    local: LocalView,
    scope: OriginScope,
    sources: SourceMap,
) -> HttpView {
    HttpView {
        access_rules: cascaded(parent.access_rules, set_some(local.access_rules), scope, sources),
        gzip: cascaded(parent.gzip, local.gzip, scope, sources),
        gzip_vary: cascaded(parent.gzip_vary, local.gzip_vary, scope, sources),
        gzip_min_length: cascaded(parent.gzip_min_length, local.gzip_min_length, scope, sources),
        gzip_comp_level: cascaded(parent.gzip_comp_level, local.gzip_comp_level, scope, sources),
        gzip_types: cascaded(parent.gzip_types, local.gzip_types, scope, sources),
        default_type: cascaded(parent.default_type, set_some(local.default_type), scope, sources),
        types: cascaded(parent.types, set_some(local.types), scope, sources),
        access_log: cascaded(parent.access_log, local.access_log, scope, sources),
    }
}

/// A value that is built in.
pub open spec fn builtin_view<V>(value: V) -> CascadedView<V> {
    CascadedView { effective: value, lineage: seq![builtin_origin()] }
}

/// The HTTP settings that are built in.
pub open spec fn builtin_http_view() -> HttpView {
    HttpView {
        access_rules: builtin_view(None),
        gzip: builtin_view(false),
        gzip_vary: builtin_view(false),
        gzip_min_length: builtin_view(20),
        gzip_comp_level: builtin_view(1),
        gzip_types: builtin_view(Seq::empty()),
        default_type: builtin_view(None),
        types: builtin_view(None),
        access_log: builtin_view(AccessLogView::Off),
    }
}

/// A value that is built in.
pub fn builtin<T: Duplicate>(value: T) -> (cascaded: Cascaded<T>)
    ensures
        cascaded@ == builtin_view(value.shown()),
{
    let mut lineage: Vec<ConfigOrigin> = Vec::new();
    lineage.push(ConfigOrigin::builtin());
    assert(origin_views(lineage@) =~= seq![builtin_origin()]);
    Cascaded::new(value, lineage)
}

/// The HTTP settings that are built in.
pub fn builtin_http() -> (http: EffectiveHttpConfig)
    ensures
        http@ == builtin_http_view(),
{
    let types = StringList(Vec::new());
    assert(types.shown() =~= Seq::<String>::empty());
    EffectiveHttpConfig {
        access_rules: builtin(None),
        gzip: builtin(BoolConfig(false)),
        gzip_vary: builtin(BoolConfig(false)),
        gzip_min_length: builtin(GzipMinLength(20)),
        gzip_comp_level: builtin(GzipCompLevel(1)),
        gzip_types: builtin(types),
        default_type: builtin(None),
        types: builtin(None),
        access_log: builtin(AccessLogDirective::Off),
    }
}

/// A value once a level of configuration had its say.
pub fn cascade<T: Duplicate>(
    parent: &Cascaded<T>,
    local: Option<Assignment<T>>,
    scope: OriginScope,
    sources: &SourceMap,
) -> (value: Cascaded<T>)
    requires
        sources.wf(),
    ensures
        value@ == cascaded(parent@, set_view(local), scope, *sources),
{
    match local {
        Some(assignment) => {
            let mut lineage = clone_origins(&parent.lineage);
            let ghost before = lineage@;
            let origin = ConfigOrigin::source(scope, sources, assignment.span);
            lineage.push(origin);
            assert(origin_views(lineage@) =~= origin_views(before).push(origin@));
            Cascaded::new(assignment.value, lineage)
        },
        None => parent.clone(),
    }
}

fn in_some<T>(local: Option<Assignment<T>>) -> (wrapped: Option<Assignment<Option<T>>>)
    ensures
        match local {
            Some(assignment) => wrapped == Some(
                Assignment { value: Some(assignment.value), span: assignment.span },
            ),
            None => wrapped is None,
        },
{
    match local {
        Some(assignment) => Some(
            Assignment { value: Some(assignment.value), span: assignment.span },
        ),
        None => None,
    }
}

/// The HTTP settings of a level.
pub fn overlay_http(
    parent: &EffectiveHttpConfig,
    local: LocalHttp,
    scope: OriginScope,
    sources: &SourceMap,
) -> (http: EffectiveHttpConfig)
    requires
        sources.wf(),
    ensures
        http@ == overlay(parent@, local@, scope, *sources),
{
    EffectiveHttpConfig {
        access_rules: cascade(&parent.access_rules, in_some(local.access_rules), scope, sources),
        gzip: cascade(&parent.gzip, local.gzip, scope, sources),
        gzip_vary: cascade(&parent.gzip_vary, local.gzip_vary, scope, sources),
        gzip_min_length: cascade(&parent.gzip_min_length, local.gzip_min_length, scope, sources),
        gzip_comp_level: cascade(&parent.gzip_comp_level, local.gzip_comp_level, scope, sources),
        gzip_types: cascade(&parent.gzip_types, local.gzip_types, scope, sources),
        default_type: cascade(&parent.default_type, in_some(local.default_type), scope, sources),
        types: cascade(&parent.types, in_some(local.types), scope, sources),
        access_log: cascade(&parent.access_log, local.access_log, scope, sources),
    }
}

/// What a level sets is in force there, whatever came down to it; what it does not set comes down
/// unchanged, value and lineage.
pub proof fn nearest_setting_wins<V>(
    parent: CascadedView<V>,
    local: Option<SetView<V>>,
    scope: OriginScope,
    sources: SourceMap,
)
    ensures
        match local {
            Some(set) => cascaded(parent, local, scope, sources).effective == set.value,
            None => cascaded(parent, local, scope, sources) == parent,
        },
{
}

/// A lineage only grows, by one origin for each level that sets the value, and the last origin is
/// that of the value in force.
pub proof fn lineage_grows_by_one<V>(
    parent: CascadedView<V>,
    set: SetView<V>,
    scope: OriginScope,
    sources: SourceMap,
)
    ensures
        cascaded(parent, Some(set), scope, sources).lineage.len() == parent.lineage.len() + 1,
        cascaded(parent, Some(set), scope, sources).lineage.drop_last() == parent.lineage,
        cascaded(parent, Some(set), scope, sources).lineage.last() == source_origin(
            scope,
            sources,
            set.span,
        ),
        cascaded(parent, Some(set), scope, sources).lineage.last().scope == scope,
{
    assert(cascaded(parent, Some(set), scope, sources).lineage.drop_last() =~= parent.lineage);
}

/// A level without directives hands everything down as it is.
pub proof fn empty_level_changes_nothing(parent: HttpView, scope: OriginScope, sources: SourceMap)
    ensures
        overlay(
            parent,
            LocalView {
                access_rules: None,
                gzip: None,
                gzip_vary: None,
                gzip_min_length: None,
                gzip_comp_level: None,
                gzip_types: None,
                default_type: None,
                types: None,
                access_log: None,
            },
            scope,
            sources,
        ) == parent,
{
}

/// Each setting goes its own way: what a level says of one is in force there in the same one, with the
/// place where it was said as the last of its lineage, and what it says nothing of stays as it came
/// down, value and lineage.
pub proof fn settings_do_not_mix(
    parent: HttpView,
    local: LocalView,
    scope: OriginScope,
    sources: SourceMap,
)
    ensures
        match local.access_rules {
            Some(set) => {
                let value = overlay(parent, local, scope, sources).access_rules;
                &&& value.effective == Some(set.value)
                &&& value.lineage == parent.access_rules.lineage.push(
                    source_origin(scope, sources, set.span),
                )
            },
            None => overlay(parent, local, scope, sources).access_rules == parent.access_rules,
        },
        match local.gzip {
            Some(set) => {
                let value = overlay(parent, local, scope, sources).gzip;
                &&& value.effective == set.value
                &&& value.lineage == parent.gzip.lineage.push(
                    source_origin(scope, sources, set.span),
                )
            },
            None => overlay(parent, local, scope, sources).gzip == parent.gzip,
        },
        match local.gzip_vary {
            Some(set) => {
                let value = overlay(parent, local, scope, sources).gzip_vary;
                &&& value.effective == set.value
                &&& value.lineage == parent.gzip_vary.lineage.push(
                    source_origin(scope, sources, set.span),
                )
            },
            None => overlay(parent, local, scope, sources).gzip_vary == parent.gzip_vary,
        },
        match local.gzip_min_length {
            Some(set) => {
                let value = overlay(parent, local, scope, sources).gzip_min_length;
                &&& value.effective == set.value
                &&& value.lineage == parent.gzip_min_length.lineage.push(
                    source_origin(scope, sources, set.span),
                )
            },
            None => overlay(parent, local, scope, sources).gzip_min_length == parent.gzip_min_length,
        },
        match local.gzip_comp_level {
            Some(set) => {
                let value = overlay(parent, local, scope, sources).gzip_comp_level;
                &&& value.effective == set.value
                &&& value.lineage == parent.gzip_comp_level.lineage.push(
                    source_origin(scope, sources, set.span),
                )
            },
            None => overlay(parent, local, scope, sources).gzip_comp_level == parent.gzip_comp_level,
        },
        match local.gzip_types {
            Some(set) => {
                let value = overlay(parent, local, scope, sources).gzip_types;
                &&& value.effective == set.value
                &&& value.lineage == parent.gzip_types.lineage.push(
                    source_origin(scope, sources, set.span),
                )
            },
            None => overlay(parent, local, scope, sources).gzip_types == parent.gzip_types,
        },
        match local.default_type {
            Some(set) => {
                let value = overlay(parent, local, scope, sources).default_type;
                &&& value.effective == Some(set.value)
                &&& value.lineage == parent.default_type.lineage.push(
                    source_origin(scope, sources, set.span),
                )
            },
            None => overlay(parent, local, scope, sources).default_type == parent.default_type,
        },
        match local.types {
            Some(set) => {
                let value = overlay(parent, local, scope, sources).types;
                &&& value.effective == Some(set.value)
                &&& value.lineage == parent.types.lineage.push(
                    source_origin(scope, sources, set.span),
                )
            },
            None => overlay(parent, local, scope, sources).types == parent.types,
        },
        match local.access_log {
            Some(set) => {
                let value = overlay(parent, local, scope, sources).access_log;
                &&& value.effective == set.value
                &&& value.lineage == parent.access_log.lineage.push(
                    source_origin(scope, sources, set.span),
                )
            },
            None => overlay(parent, local, scope, sources).access_log == parent.access_log,
        },
{
}

/// Without a directive nothing is compressed, answers are compressed at the lowest level and from twenty
/// bytes on once that is asked for, nothing is logged, and there are no rules and no types.
pub proof fn builtin_settings()
    ensures
        ({
            let http = builtin_http_view();
            &&& http.access_rules.effective is None
            &&& !http.gzip.effective && !http.gzip_vary.effective
            &&& http.gzip_min_length.effective == 20
            &&& http.gzip_comp_level.effective == 1
            &&& http.gzip_types.effective.len() == 0
            &&& http.default_type.effective is None
            &&& http.types.effective is None
            &&& http.access_log.effective is Off
        }),
{
}

/// The settings that a block makes are those of its directives, each by its own name: the value and the
/// place of the first directive of the name, and nothing where there is none.
pub proof fn local_settings_come_from_their_directives(
    block: Block,
    children: Seq<AstDirective>,
    sources: SourceMap,
    local: LocalHttp,
)
    requires
        block != Block::Proxy,
        is_local_http(block, children, sources, local),
    ensures
        comes_from(children, "access_rules"@, sources, local.access_rules),
        comes_from(children, "gzip"@, sources, local.gzip),
        comes_from(children, "gzip_vary"@, sources, local.gzip_vary),
        comes_from(children, "gzip_min_length"@, sources, local.gzip_min_length),
        comes_from(children, "gzip_comp_level"@, sources, local.gzip_comp_level),
        comes_from(children, "gzip_types"@, sources, local.gzip_types),
        comes_from(children, "default_type"@, sources, local.default_type),
        comes_from(children, "types"@, sources, local.types),
        match local.access_log {
            Some(assignment) => exists|at: int|
                {
                    &&& #[trigger] first_of(children, "access_log"@, at)
                    &&& parses_access_log(children[at], sources, Ok(assignment.value))
                    &&& assignment.span == children[at].span
                },
            None => forall|i: int|
                0 <= i < children.len() ==> (#[trigger] children[i]).name_text() != "access_log"@,
        },
{
    field_holds_what_its_directive_gives(block, children, Field::AccessRules, sources, local.access_rules);
    field_holds_what_its_directive_gives(block, children, Field::Gzip, sources, local.gzip);
    field_holds_what_its_directive_gives(block, children, Field::GzipVary, sources, local.gzip_vary);
    field_holds_what_its_directive_gives(block, children, Field::GzipMinLength, sources, local.gzip_min_length);
    field_holds_what_its_directive_gives(block, children, Field::GzipCompLevel, sources, local.gzip_comp_level);
    field_holds_what_its_directive_gives(block, children, Field::GzipTypes, sources, local.gzip_types);
    field_holds_what_its_directive_gives(block, children, Field::DefaultType, sources, local.default_type);
    field_holds_what_its_directive_gives(block, children, Field::Types, sources, local.types);
    log_is_what_its_directive_gives(block, children, sources, local.access_log);
}

/// Whether a value is what the first directive of a name gives, and absent where there is none.
pub open spec fn comes_from<T: DirectiveValue>(
    children: Seq<AstDirective>,
    name: Seq<char>,
    sources: SourceMap,
    value: Option<Assignment<T>>,
) -> bool {
    match value {
        Some(assignment) => exists|at: int|
            {
                &&& #[trigger] first_of(children, name, at)
                &&& T::reads(children[at], sources, Ok(assignment.value))
                &&& assignment.span == children[at].span
            },
        None => forall|i: int|
            0 <= i < children.len() ==> (#[trigger] children[i]).name_text() != name,
    }
}

} // verus!
