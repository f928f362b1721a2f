//! What workers take over from the root, with where each value was set.
use vstd::prelude::*;

use crate::outside::UrlView;
use crate::parse::cascade::{
    CascadeOriginView, ConfigOrigin, InheritedSourceLocation, LocationView,
};
use crate::parse::config::{AccessLogDirective, AccessLogView, Duplicate};
use crate::parse::domain::DirectiveName;
use crate::parse::types::{
    AccessRulesUri, BoolConfig, DefaultType, GzipCompLevel, GzipMinLength, MimeTypes, StringList,
};
use crate::parse::value::ConfigValue;

verus! {

/// A field that a directive fills.
#[derive(Debug, Clone, Copy, PartialEq, Eq, Structural)]
pub enum SnapshotField {
    AccessRules,
    Gzip,
    GzipVary,
    GzipMinLength,
    GzipCompLevel,
    GzipTypes,
    DefaultType,
    Types,
}

/// Where the root has a value from.
#[derive(Debug, Clone, PartialEq, Eq)]
pub enum InheritedOrigin {
    Builtin,
    Source(InheritedSourceLocation),
}

/// Where the root has a value from, as plain contents.
pub enum InheritedOriginView {
    Builtin,
    Source(LocationView),
}

impl View for InheritedOrigin {
    type V = InheritedOriginView;

    open spec fn view(&self) -> InheritedOriginView {
        match *self {
            InheritedOrigin::Builtin => InheritedOriginView::Builtin,
            InheritedOrigin::Source(location) => InheritedOriginView::Source(location@),
        }
    }
}

/// A value of the root.
#[derive(Debug, Clone, PartialEq, Eq)]
pub struct InheritedValue<T> {
    pub value: T,
    pub origin: InheritedOrigin,
}

/// A value of the root, as plain contents.
pub struct InheritedView<V> {
    pub value: V,
    pub origin: InheritedOriginView,
}

impl<T: Duplicate> View for InheritedValue<T> {
    type V = InheritedView<T::Shown>;

    open spec fn view(&self) -> InheritedView<T::Shown> {
        InheritedView { value: self.value.shown(), origin: self.origin@ }
    }
}

/// What workers take over from the root, in its first form.
#[derive(Debug, Clone, PartialEq, Eq)]
pub struct RootInheritedConfigV1 {
    pub access_rules: InheritedValue<Option<AccessRulesUri>>,
    pub gzip: InheritedValue<BoolConfig>,
    pub gzip_vary: InheritedValue<BoolConfig>,
    pub gzip_min_length: InheritedValue<GzipMinLength>,
    pub gzip_comp_level: InheritedValue<GzipCompLevel>,
    pub gzip_types: InheritedValue<Option<StringList>>,
    pub default_type: InheritedValue<Option<DefaultType>>,
    pub types: InheritedValue<Option<MimeTypes>>,
    pub access_log: InheritedValue<Option<AccessLogDirective>>,
}

/// What workers take over from the root, as plain contents.
pub struct SnapshotView {
    pub access_rules: InheritedView<Option<UrlView>>,
    pub gzip: InheritedView<bool>,
    pub gzip_vary: InheritedView<bool>,
    pub gzip_min_length: InheritedView<u64>,
    pub gzip_comp_level: InheritedView<i32>,
    pub gzip_types: InheritedView<Option<Seq<String>>>,
    pub default_type: InheritedView<Option<Seq<u8>>>,
    pub types: InheritedView<Option<Map<Seq<char>, Seq<u8>>>>,
    pub access_log: InheritedView<Option<AccessLogView>>,
}

impl View for RootInheritedConfigV1 {
    type V = SnapshotView;

    open spec fn view(&self) -> SnapshotView {
        SnapshotView {
            access_rules: self.access_rules@,
            gzip: self.gzip@,
            gzip_vary: self.gzip_vary@,
            gzip_min_length: self.gzip_min_length@,
            gzip_comp_level: self.gzip_comp_level@,
            gzip_types: self.gzip_types@,
            default_type: self.default_type@,
            types: self.types@,
            access_log: self.access_log@,
        }
    }
}

/// What workers take over from the root.
#[derive(Debug, Clone, PartialEq, Eq)]
pub enum RootConfigSnapshot {
    V1(RootInheritedConfigV1),
}

impl RootConfigSnapshot {
    /// The contents.
    pub open spec fn config(self) -> RootInheritedConfigV1 {
        self->V1_0
    }

    /// The contents.
    pub fn v1(&self) -> (config: &RootInheritedConfigV1)
        ensures
            *config == self.config(),
    {
        match self {
            RootConfigSnapshot::V1(config) => config,
        }
    }

    pub fn access_rules(&self) -> (value: Option<&AccessRulesUri>)
        ensures
            match value {
                Some(value) => self.config().access_rules.value == Some(*value),
                None => self.config().access_rules.value is None,
            },
    {
        self.v1().access_rules.value.as_ref()
    }

    pub fn gzip(&self) -> (value: &BoolConfig)
        ensures
            *value == self.config().gzip.value,
    {
        &self.v1().gzip.value
    }

    pub fn gzip_vary(&self) -> (value: &BoolConfig)
        ensures
            *value == self.config().gzip_vary.value,
    {
        &self.v1().gzip_vary.value
    }

    pub fn gzip_min_length(&self) -> (value: &GzipMinLength)
        ensures
            *value == self.config().gzip_min_length.value,
    {
        &self.v1().gzip_min_length.value
    }

    pub fn gzip_comp_level(&self) -> (value: &GzipCompLevel)
        ensures
            *value == self.config().gzip_comp_level.value,
    {
        &self.v1().gzip_comp_level.value
    }

    pub fn gzip_types(&self) -> (value: Option<&StringList>)
        ensures
            match value {
                Some(value) => self.config().gzip_types.value == Some(*value),
                None => self.config().gzip_types.value is None,
            },
    {
        self.v1().gzip_types.value.as_ref()
    }

    pub fn default_type(&self) -> (value: Option<&DefaultType>)
        ensures
            match value {
                Some(value) => self.config().default_type.value == Some(*value),
                None => self.config().default_type.value is None,
            },
    {
        self.v1().default_type.value.as_ref()
    }

    pub fn types(&self) -> (value: Option<&MimeTypes>)
        ensures
            match value {
                Some(value) => self.config().types.value == Some(*value),
                None => self.config().types.value is None,
            },
    {
        self.v1().types.value.as_ref()
    }
}

/// The origin that a value of the root has for those who take it over.
pub open spec fn taken_origin(origin: InheritedOriginView, directive: Seq<char>) -> CascadeOriginView {
    match origin {
        InheritedOriginView::Builtin => CascadeOriginView::Builtin { directive },
        InheritedOriginView::Source(location) => CascadeOriginView::RootInherited {
            directive,
            source: Some(location),
        },
    }
}

/// The origin that a value of the root has for those who take it over.
pub fn inherited_origin(origin: &InheritedOrigin, directive: DirectiveName) -> (taken: ConfigOrigin)
    ensures
        taken@ == taken_origin(origin@, directive.text()),
{
    match origin {
        InheritedOrigin::Builtin => ConfigOrigin::Builtin { directive },
        InheritedOrigin::Source(location) => ConfigOrigin::RootInherited {
            directive,
            source: Some(location.clone()),
        },
    }
}

/// A type of which the snapshot has values.
pub trait Inheritable: ConfigValue + Duplicate {
    /// The value of a field and where the root has it from, where the field is of this type and
    /// has a value.
    spec fn of_field(config: RootInheritedConfigV1, field: SnapshotField) -> Option<
        (Self, InheritedOrigin),
    >;

    /// The value of a field and where the root has it from.
    fn field_value(config: &RootInheritedConfigV1, field: SnapshotField) -> (value: Option<
        (&Self, &InheritedOrigin),
    >)
        ensures
            match value {
                Some((value, origin)) => Self::of_field(*config, field) == Some((*value, *origin)),
                None => Self::of_field(*config, field) is None,
            },
    ;
}

impl Inheritable for AccessRulesUri {
    open spec fn of_field(config: RootInheritedConfigV1, field: SnapshotField) -> Option<
        (Self, InheritedOrigin),
    > {
        match field {
            SnapshotField::AccessRules => match config.access_rules.value {
                Some(value) => Some((value, config.access_rules.origin)),
                None => None,
            },
            _ => None,
        }
    }

    fn field_value(config: &RootInheritedConfigV1, field: SnapshotField) -> (value: Option<
        (&Self, &InheritedOrigin),
    >) {
        match field {
            SnapshotField::AccessRules => match &config.access_rules.value {
                Some(value) => Some((value, &config.access_rules.origin)),
                None => None,
            },
            _ => None,
        }
    }
}

impl Inheritable for BoolConfig {
    open spec fn of_field(config: RootInheritedConfigV1, field: SnapshotField) -> Option<
        (Self, InheritedOrigin),
    > {
        match field {
            SnapshotField::Gzip => Some((config.gzip.value, config.gzip.origin)),
            SnapshotField::GzipVary => Some((config.gzip_vary.value, config.gzip_vary.origin)),
            _ => None,
        }
    }

    fn field_value(config: &RootInheritedConfigV1, field: SnapshotField) -> (value: Option<
        (&Self, &InheritedOrigin),
    >) {
        match field {
            SnapshotField::Gzip => Some((&config.gzip.value, &config.gzip.origin)),
            SnapshotField::GzipVary => Some((&config.gzip_vary.value, &config.gzip_vary.origin)),
            _ => None,
        }
    }
}

impl Inheritable for GzipMinLength {
    open spec fn of_field(config: RootInheritedConfigV1, field: SnapshotField) -> Option<
        (Self, InheritedOrigin),
    > {
        match field {
            SnapshotField::GzipMinLength => Some((config.gzip_min_length.value, config.gzip_min_length.origin)),
            _ => None,
        }
    }

    fn field_value(config: &RootInheritedConfigV1, field: SnapshotField) -> (value: Option<
        (&Self, &InheritedOrigin),
    >) {
        match field {
            SnapshotField::GzipMinLength => Some((&config.gzip_min_length.value, &config.gzip_min_length.origin)),
            _ => None,
        }
    }
}

impl Inheritable for GzipCompLevel {
    open spec fn of_field(config: RootInheritedConfigV1, field: SnapshotField) -> Option<
        (Self, InheritedOrigin),
    > {
        match field {
            SnapshotField::GzipCompLevel => Some((config.gzip_comp_level.value, config.gzip_comp_level.origin)),
            _ => None,
        }
    }

    fn field_value(config: &RootInheritedConfigV1, field: SnapshotField) -> (value: Option<
        (&Self, &InheritedOrigin),
    >) {
        match field {
            SnapshotField::GzipCompLevel => Some((&config.gzip_comp_level.value, &config.gzip_comp_level.origin)),
            _ => None,
        }
    }
}

impl Inheritable for StringList {
    open spec fn of_field(config: RootInheritedConfigV1, field: SnapshotField) -> Option<
        (Self, InheritedOrigin),
    > {
        match field {
            SnapshotField::GzipTypes => match config.gzip_types.value {
                Some(value) => Some((value, config.gzip_types.origin)),
                None => None,
            },
            _ => None,
        }
    }

    fn field_value(config: &RootInheritedConfigV1, field: SnapshotField) -> (value: Option<
        (&Self, &InheritedOrigin),
    >) {
        match field {
            SnapshotField::GzipTypes => match &config.gzip_types.value {
                Some(value) => Some((value, &config.gzip_types.origin)),
                None => None,
            },
            _ => None,
        }
    }
}

impl Inheritable for DefaultType {
    open spec fn of_field(config: RootInheritedConfigV1, field: SnapshotField) -> Option<
        (Self, InheritedOrigin),
    > {
        match field {
            SnapshotField::DefaultType => match config.default_type.value {
                Some(value) => Some((value, config.default_type.origin)),
                None => None,
            },
            _ => None,
        }
    }

    fn field_value(config: &RootInheritedConfigV1, field: SnapshotField) -> (value: Option<
        (&Self, &InheritedOrigin),
    >) {
        match field {
            SnapshotField::DefaultType => match &config.default_type.value {
                Some(value) => Some((value, &config.default_type.origin)),
                None => None,
            },
            _ => None,
        }
    }
}

impl Inheritable for MimeTypes {
    open spec fn of_field(config: RootInheritedConfigV1, field: SnapshotField) -> Option<
        (Self, InheritedOrigin),
    > {
        match field {
            SnapshotField::Types => match config.types.value {
                Some(value) => Some((value, config.types.origin)),
                None => None,
            },
            _ => None,
        }
    }

    fn field_value(config: &RootInheritedConfigV1, field: SnapshotField) -> (value: Option<
        (&Self, &InheritedOrigin),
    >) {
        match field {
            SnapshotField::Types => match &config.types.value {
                Some(value) => Some((value, &config.types.origin)),
                None => None,
            },
            _ => None,
        }
    }
}

/// A field of the snapshot gives the value that it has, with the place that set it, to those who ask
/// for a value of its type, and nothing to others.
pub proof fn fields_give_their_own_value(config: RootInheritedConfigV1, field: SnapshotField)
    ensures
        BoolConfig::of_field(config, field) == (match field {
            SnapshotField::Gzip => Some((config.gzip.value, config.gzip.origin)),
            SnapshotField::GzipVary => Some((config.gzip_vary.value, config.gzip_vary.origin)),
            _ => None,
        }),
        GzipMinLength::of_field(config, field) is Some == (field is GzipMinLength),
        GzipMinLength::of_field(config, field) matches Some(found) ==> found == (
            config.gzip_min_length.value,
            config.gzip_min_length.origin,
        ),
        GzipCompLevel::of_field(config, field) is Some == (field is GzipCompLevel),
        GzipCompLevel::of_field(config, field) matches Some(found) ==> found == (
            config.gzip_comp_level.value,
            config.gzip_comp_level.origin,
        ),
        AccessRulesUri::of_field(config, field) is Some == (field is AccessRules
            && config.access_rules.value is Some),
        AccessRulesUri::of_field(config, field) matches Some(found) ==> Some(found.0)
            == config.access_rules.value && found.1 == config.access_rules.origin,
        StringList::of_field(config, field) is Some == (field is GzipTypes
            && config.gzip_types.value is Some),
        StringList::of_field(config, field) matches Some(found) ==> Some(found.0)
            == config.gzip_types.value && found.1 == config.gzip_types.origin,
        DefaultType::of_field(config, field) is Some == (field is DefaultType
            && config.default_type.value is Some),
        DefaultType::of_field(config, field) matches Some(found) ==> Some(found.0)
            == config.default_type.value && found.1 == config.default_type.origin,
        MimeTypes::of_field(config, field) is Some == (field is Types && config.types.value is Some),
        MimeTypes::of_field(config, field) matches Some(found) ==> Some(found.0)
            == config.types.value && found.1 == config.types.origin,
{
}

/// A value that the root has built in is built in for those who take it over; one that was set is
/// taken over from the root, with the place that set it.
pub proof fn taken_values_keep_their_place(origin: InheritedOriginView, directive: Seq<char>)
    ensures
        origin is Builtin <==> taken_origin(origin, directive) is Builtin,
        origin matches InheritedOriginView::Source(location) ==> taken_origin(origin, directive) == (
        CascadeOriginView::RootInherited { directive, source: Some(location) }),
{
}

} // verus!
