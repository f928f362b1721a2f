//! Values of any directive type, told apart by their kind.
use std::sync::Arc;

use vstd::prelude::*;

use crate::parse::ast::AstDirective;
use crate::parse::builtin::DirectiveError;
use crate::parse::decode::DirectiveValue;
use crate::parse::domain::ResolvedConfigPath;
use crate::parse::pattern::Pattern;
use crate::parse::source::{SourceMap, SourceSpan};
use crate::parse::types::{
    StringConfig, StringList, BoolConfig, PathConfig, ResolverConfig, ServerIdConfig, ServerNames, ClientNameConfig, ListenConfig, SocketAddrs, DefaultType, GzipMinLength, GzipCompLevel, ProxyPass, HeaderRules, MimeTypes, SshLoginMethods, SshSslUsers, AccessRulesUri, StunBindConfigValue, StunChangePort, StunServerConfigValue};

verus! {

/// The type of a value.
#[derive(Debug, Clone, Copy, PartialEq, Eq, Structural)]
pub enum ValueKind {
    StringConfig,
    StringList,
    BoolConfig,
    PathConfig,
    ResolvedConfigPath,
    ResolverConfig,
    ServerIdConfig,
    ServerNames,
    ClientNameConfig,
    ListenConfig,
    SocketAddrs,
    DefaultType,
    GzipMinLength,
    GzipCompLevel,
    ProxyPass,
    HeaderRules,
    MimeTypes,
    SshLoginMethods,
    SshSslUsers,
    AccessRulesUri,
    StunBindConfigValue,
    StunChangePort,
    StunServerConfigValue,
    Pattern,
}

impl ValueKind {
    /// The name of the type.
    pub open spec fn text(self) -> Seq<char> {
        match self {
            ValueKind::StringConfig => "gateway::parse::types::StringConfig"@,
            ValueKind::StringList => "gateway::parse::types::StringList"@,
            ValueKind::BoolConfig => "gateway::parse::types::BoolConfig"@,
            ValueKind::PathConfig => "gateway::parse::types::PathConfig"@,
            ValueKind::ResolvedConfigPath => "gateway::parse::domain::ResolvedConfigPath"@,
            ValueKind::ResolverConfig => "gateway::parse::types::ResolverConfig"@,
            ValueKind::ServerIdConfig => "gateway::parse::types::ServerIdConfig"@,
            ValueKind::ServerNames => "gateway::parse::types::ServerNames"@,
            ValueKind::ClientNameConfig => "gateway::parse::types::ClientNameConfig"@,
            ValueKind::ListenConfig => "gateway::parse::types::ListenConfig"@,
            ValueKind::SocketAddrs => "gateway::parse::types::SocketAddrs"@,
            ValueKind::DefaultType => "gateway::parse::types::DefaultType"@,
            ValueKind::GzipMinLength => "gateway::parse::types::GzipMinLength"@,
            ValueKind::GzipCompLevel => "gateway::parse::types::GzipCompLevel"@,
            ValueKind::ProxyPass => "gateway::parse::types::ProxyPass"@,
            ValueKind::HeaderRules => "gateway::parse::types::HeaderRules"@,
            ValueKind::MimeTypes => "gateway::parse::types::MimeTypes"@,
            ValueKind::SshLoginMethods => "gateway::parse::types::SshLoginMethods"@,
            ValueKind::SshSslUsers => "gateway::parse::types::SshSslUsers"@,
            ValueKind::AccessRulesUri => "gateway::parse::types::AccessRulesUri"@,
            ValueKind::StunBindConfigValue => "gateway::parse::types::StunBindConfigValue"@,
            ValueKind::StunChangePort => "gateway::parse::types::StunChangePort"@,
            ValueKind::StunServerConfigValue => "gateway::parse::types::StunServerConfigValue"@,
            ValueKind::Pattern => "gateway::parse::pattern::Pattern"@,
        }
    }

    /// The name of the type.
    pub fn name(self) -> (name: &'static str)
        ensures
            name@ == self.text(),
    {
        match self {
            ValueKind::StringConfig => "gateway::parse::types::StringConfig",
            ValueKind::StringList => "gateway::parse::types::StringList",
            ValueKind::BoolConfig => "gateway::parse::types::BoolConfig",
            ValueKind::PathConfig => "gateway::parse::types::PathConfig",
            ValueKind::ResolvedConfigPath => "gateway::parse::domain::ResolvedConfigPath",
            ValueKind::ResolverConfig => "gateway::parse::types::ResolverConfig",
            ValueKind::ServerIdConfig => "gateway::parse::types::ServerIdConfig",
            ValueKind::ServerNames => "gateway::parse::types::ServerNames",
            ValueKind::ClientNameConfig => "gateway::parse::types::ClientNameConfig",
            ValueKind::ListenConfig => "gateway::parse::types::ListenConfig",
            ValueKind::SocketAddrs => "gateway::parse::types::SocketAddrs",
            ValueKind::DefaultType => "gateway::parse::types::DefaultType",
            ValueKind::GzipMinLength => "gateway::parse::types::GzipMinLength",
            ValueKind::GzipCompLevel => "gateway::parse::types::GzipCompLevel",
            ValueKind::ProxyPass => "gateway::parse::types::ProxyPass",
            ValueKind::HeaderRules => "gateway::parse::types::HeaderRules",
            ValueKind::MimeTypes => "gateway::parse::types::MimeTypes",
            ValueKind::SshLoginMethods => "gateway::parse::types::SshLoginMethods",
            ValueKind::SshSslUsers => "gateway::parse::types::SshSslUsers",
            ValueKind::AccessRulesUri => "gateway::parse::types::AccessRulesUri",
            ValueKind::StunBindConfigValue => "gateway::parse::types::StunBindConfigValue",
            ValueKind::StunChangePort => "gateway::parse::types::StunChangePort",
            ValueKind::StunServerConfigValue => "gateway::parse::types::StunServerConfigValue",
            ValueKind::Pattern => "gateway::parse::pattern::Pattern",
        }
    }
}

/// A value of any type.
#[derive(Debug)]
pub enum ConfigData {
    StringConfig(StringConfig),
    StringList(StringList),
    BoolConfig(BoolConfig),
    PathConfig(PathConfig),
    ResolvedConfigPath(ResolvedConfigPath),
    ResolverConfig(ResolverConfig),
    ServerIdConfig(ServerIdConfig),
    ServerNames(ServerNames),
    ClientNameConfig(ClientNameConfig),
    ListenConfig(ListenConfig),
    SocketAddrs(SocketAddrs),
    DefaultType(DefaultType),
    GzipMinLength(GzipMinLength),
    GzipCompLevel(GzipCompLevel),
    ProxyPass(ProxyPass),
    HeaderRules(HeaderRules),
    MimeTypes(MimeTypes),
    SshLoginMethods(SshLoginMethods),
    SshSslUsers(SshSslUsers),
    AccessRulesUri(AccessRulesUri),
    StunBindConfigValue(StunBindConfigValue),
    StunChangePort(StunChangePort),
    StunServerConfigValue(StunServerConfigValue),
    Pattern(Pattern),
}

impl ConfigData {
    /// The type of the value.
    pub open spec fn kind(self) -> ValueKind {
        match self {
            ConfigData::StringConfig(_) => ValueKind::StringConfig,
            ConfigData::StringList(_) => ValueKind::StringList,
            ConfigData::BoolConfig(_) => ValueKind::BoolConfig,
            ConfigData::PathConfig(_) => ValueKind::PathConfig,
            ConfigData::ResolvedConfigPath(_) => ValueKind::ResolvedConfigPath,
            ConfigData::ResolverConfig(_) => ValueKind::ResolverConfig,
            ConfigData::ServerIdConfig(_) => ValueKind::ServerIdConfig,
            ConfigData::ServerNames(_) => ValueKind::ServerNames,
            ConfigData::ClientNameConfig(_) => ValueKind::ClientNameConfig,
            ConfigData::ListenConfig(_) => ValueKind::ListenConfig,
            ConfigData::SocketAddrs(_) => ValueKind::SocketAddrs,
            ConfigData::DefaultType(_) => ValueKind::DefaultType,
            ConfigData::GzipMinLength(_) => ValueKind::GzipMinLength,
            ConfigData::GzipCompLevel(_) => ValueKind::GzipCompLevel,
            ConfigData::ProxyPass(_) => ValueKind::ProxyPass,
            ConfigData::HeaderRules(_) => ValueKind::HeaderRules,
            ConfigData::MimeTypes(_) => ValueKind::MimeTypes,
            ConfigData::SshLoginMethods(_) => ValueKind::SshLoginMethods,
            ConfigData::SshSslUsers(_) => ValueKind::SshSslUsers,
            ConfigData::AccessRulesUri(_) => ValueKind::AccessRulesUri,
            ConfigData::StunBindConfigValue(_) => ValueKind::StunBindConfigValue,
            ConfigData::StunChangePort(_) => ValueKind::StunChangePort,
            ConfigData::StunServerConfigValue(_) => ValueKind::StunServerConfigValue,
            ConfigData::Pattern(_) => ValueKind::Pattern,
        }
    }

    /// The type of the value.
    pub fn value_kind(&self) -> (kind: ValueKind)
        ensures
            kind == self.kind(),
    {
        match self {
            ConfigData::StringConfig(_) => ValueKind::StringConfig,
            ConfigData::StringList(_) => ValueKind::StringList,
            ConfigData::BoolConfig(_) => ValueKind::BoolConfig,
            ConfigData::PathConfig(_) => ValueKind::PathConfig,
            ConfigData::ResolvedConfigPath(_) => ValueKind::ResolvedConfigPath,
            ConfigData::ResolverConfig(_) => ValueKind::ResolverConfig,
            ConfigData::ServerIdConfig(_) => ValueKind::ServerIdConfig,
            ConfigData::ServerNames(_) => ValueKind::ServerNames,
            ConfigData::ClientNameConfig(_) => ValueKind::ClientNameConfig,
            ConfigData::ListenConfig(_) => ValueKind::ListenConfig,
            ConfigData::SocketAddrs(_) => ValueKind::SocketAddrs,
            ConfigData::DefaultType(_) => ValueKind::DefaultType,
            ConfigData::GzipMinLength(_) => ValueKind::GzipMinLength,
            ConfigData::GzipCompLevel(_) => ValueKind::GzipCompLevel,
            ConfigData::ProxyPass(_) => ValueKind::ProxyPass,
            ConfigData::HeaderRules(_) => ValueKind::HeaderRules,
            ConfigData::MimeTypes(_) => ValueKind::MimeTypes,
            ConfigData::SshLoginMethods(_) => ValueKind::SshLoginMethods,
            ConfigData::SshSslUsers(_) => ValueKind::SshSslUsers,
            ConfigData::AccessRulesUri(_) => ValueKind::AccessRulesUri,
            ConfigData::StunBindConfigValue(_) => ValueKind::StunBindConfigValue,
            ConfigData::StunChangePort(_) => ValueKind::StunChangePort,
            ConfigData::StunServerConfigValue(_) => ValueKind::StunServerConfigValue,
            ConfigData::Pattern(_) => ValueKind::Pattern,
        }
    }
}

/// A type whose values can stand among those of any type.
pub trait ConfigValue: DirectiveValue {
    /// The kind of this type.
    spec fn kind() -> ValueKind;

    /// A value among those of any type.
    spec fn data(self) -> ConfigData;

    /// The value of this type that some data is, where it is one.
    spec fn in_data(data: ConfigData) -> Option<Self>;

    /// A value is found in its data.
    proof fn data_holds_value(value: Self)
        ensures
            Self::in_data(value.data()) == Some(value),
            value.data().kind() == Self::kind(),
    ;

    /// A value is found in data of its kind alone.
    proof fn data_is_of_kind(data: ConfigData)
        ensures
            Self::in_data(data) is Some == (data.kind() == Self::kind()),
    ;

    /// The kind of this type.
    fn type_kind() -> (kind: ValueKind)
        ensures
            kind == Self::kind(),
    ;

    /// The value among those of any type.
    fn into_data(self) -> (data: ConfigData)
        ensures
            data == self.data(),
    ;

    /// The value of this type that some data is.
    fn from_data(data: ConfigData) -> (value: Option<Self>)
        ensures
            value == Self::in_data(data),
    ;

    /// The value of this type that some data is.
    fn in_data_ref(data: &ConfigData) -> (value: Option<&Self>)
        ensures
            match value {
                Some(value) => Self::in_data(*data) == Some(*value),
                None => Self::in_data(*data) is None,
            },
    ;
}

impl ConfigValue for StringConfig {
    open spec fn kind() -> ValueKind {
        ValueKind::StringConfig
    }

    open spec fn data(self) -> ConfigData {
        ConfigData::StringConfig(self)
    }

    open spec fn in_data(data: ConfigData) -> Option<Self> {
        match data {
            ConfigData::StringConfig(value) => Some(value),
            _ => None,
        }
    }

    proof fn data_holds_value(value: Self) {
    }

    proof fn data_is_of_kind(data: ConfigData) {
    }


    fn type_kind() -> (kind: ValueKind) {
        ValueKind::StringConfig
    }

    fn into_data(self) -> (data: ConfigData) {
        ConfigData::StringConfig(self)
    }

    fn from_data(data: ConfigData) -> (value: Option<Self>) {
        match data {
            ConfigData::StringConfig(value) => Some(value),
            _ => None,
        }
    }

    fn in_data_ref(data: &ConfigData) -> (value: Option<&Self>) {
        match data {
            ConfigData::StringConfig(value) => Some(value),
            _ => None,
        }
    }
}

impl ConfigValue for StringList {
    open spec fn kind() -> ValueKind {
        ValueKind::StringList
    }

    open spec fn data(self) -> ConfigData {
        ConfigData::StringList(self)
    }

    open spec fn in_data(data: ConfigData) -> Option<Self> {
        match data {
            ConfigData::StringList(value) => Some(value),
            _ => None,
        }
    }

    proof fn data_holds_value(value: Self) {
    }

    proof fn data_is_of_kind(data: ConfigData) {
    }


    fn type_kind() -> (kind: ValueKind) {
        ValueKind::StringList
    }

    fn into_data(self) -> (data: ConfigData) {
        ConfigData::StringList(self)
    }

    fn from_data(data: ConfigData) -> (value: Option<Self>) {
        match data {
            ConfigData::StringList(value) => Some(value),
            _ => None,
        }
    }

    fn in_data_ref(data: &ConfigData) -> (value: Option<&Self>) {
        match data {
            ConfigData::StringList(value) => Some(value),
            _ => None,
        }
    }
}

impl ConfigValue for BoolConfig {
    open spec fn kind() -> ValueKind {
        ValueKind::BoolConfig
    }

    open spec fn data(self) -> ConfigData {
        ConfigData::BoolConfig(self)
    }

    open spec fn in_data(data: ConfigData) -> Option<Self> {
        match data {
            ConfigData::BoolConfig(value) => Some(value),
            _ => None,
        }
    }

    proof fn data_holds_value(value: Self) {
    }

    proof fn data_is_of_kind(data: ConfigData) {
    }


    fn type_kind() -> (kind: ValueKind) {
        ValueKind::BoolConfig
    }

    fn into_data(self) -> (data: ConfigData) {
        ConfigData::BoolConfig(self)
    }

    fn from_data(data: ConfigData) -> (value: Option<Self>) {
        match data {
            ConfigData::BoolConfig(value) => Some(value),
            _ => None,
        }
    }

    fn in_data_ref(data: &ConfigData) -> (value: Option<&Self>) {
        match data {
            ConfigData::BoolConfig(value) => Some(value),
            _ => None,
        }
    }
}

impl ConfigValue for PathConfig {
    open spec fn kind() -> ValueKind {
        ValueKind::PathConfig
    }

    open spec fn data(self) -> ConfigData {
        ConfigData::PathConfig(self)
    }

    open spec fn in_data(data: ConfigData) -> Option<Self> {
        match data {
            ConfigData::PathConfig(value) => Some(value),
            _ => None,
        }
    }

    proof fn data_holds_value(value: Self) {
    }

    proof fn data_is_of_kind(data: ConfigData) {
    }


    fn type_kind() -> (kind: ValueKind) {
        ValueKind::PathConfig
    }

    fn into_data(self) -> (data: ConfigData) {
        ConfigData::PathConfig(self)
    }

    fn from_data(data: ConfigData) -> (value: Option<Self>) {
        match data {
            ConfigData::PathConfig(value) => Some(value),
            _ => None,
        }
    }

    fn in_data_ref(data: &ConfigData) -> (value: Option<&Self>) {
        match data {
            ConfigData::PathConfig(value) => Some(value),
            _ => None,
        }
    }
}

impl ConfigValue for ResolvedConfigPath {
    open spec fn kind() -> ValueKind {
        ValueKind::ResolvedConfigPath
    }

    open spec fn data(self) -> ConfigData {
        ConfigData::ResolvedConfigPath(self)
    }

    open spec fn in_data(data: ConfigData) -> Option<Self> {
        match data {
            ConfigData::ResolvedConfigPath(value) => Some(value),
            _ => None,
        }
    }

    proof fn data_holds_value(value: Self) {
    }

    proof fn data_is_of_kind(data: ConfigData) {
    }


    fn type_kind() -> (kind: ValueKind) {
        ValueKind::ResolvedConfigPath
    }

    fn into_data(self) -> (data: ConfigData) {
        ConfigData::ResolvedConfigPath(self)
    }

    fn from_data(data: ConfigData) -> (value: Option<Self>) {
        match data {
            ConfigData::ResolvedConfigPath(value) => Some(value),
            _ => None,
        }
    }

    fn in_data_ref(data: &ConfigData) -> (value: Option<&Self>) {
        match data {
            ConfigData::ResolvedConfigPath(value) => Some(value),
            _ => None,
        }
    }
}

impl ConfigValue for ResolverConfig {
    open spec fn kind() -> ValueKind {
        ValueKind::ResolverConfig
    }

    open spec fn data(self) -> ConfigData {
        ConfigData::ResolverConfig(self)
    }

    open spec fn in_data(data: ConfigData) -> Option<Self> {
        match data {
            ConfigData::ResolverConfig(value) => Some(value),
            _ => None,
        }
    }

    proof fn data_holds_value(value: Self) {
    }

    proof fn data_is_of_kind(data: ConfigData) {
    }


    fn type_kind() -> (kind: ValueKind) {
        ValueKind::ResolverConfig
    }

    fn into_data(self) -> (data: ConfigData) {
        ConfigData::ResolverConfig(self)
    }

    fn from_data(data: ConfigData) -> (value: Option<Self>) {
        match data {
            ConfigData::ResolverConfig(value) => Some(value),
            _ => None,
        }
    }

    fn in_data_ref(data: &ConfigData) -> (value: Option<&Self>) {
        match data {
            ConfigData::ResolverConfig(value) => Some(value),
            _ => None,
        }
    }
}

impl ConfigValue for ServerIdConfig {
    open spec fn kind() -> ValueKind {
        ValueKind::ServerIdConfig
    }

    open spec fn data(self) -> ConfigData {
        ConfigData::ServerIdConfig(self)
    }

    open spec fn in_data(data: ConfigData) -> Option<Self> {
        match data {
            ConfigData::ServerIdConfig(value) => Some(value),
            _ => None,
        }
    }

    proof fn data_holds_value(value: Self) {
    }

    proof fn data_is_of_kind(data: ConfigData) {
    }


    fn type_kind() -> (kind: ValueKind) {
        ValueKind::ServerIdConfig
    }

    fn into_data(self) -> (data: ConfigData) {
        ConfigData::ServerIdConfig(self)
    }

    fn from_data(data: ConfigData) -> (value: Option<Self>) {
        match data {
            ConfigData::ServerIdConfig(value) => Some(value),
            _ => None,
        }
    }

    fn in_data_ref(data: &ConfigData) -> (value: Option<&Self>) {
        match data {
            ConfigData::ServerIdConfig(value) => Some(value),
            _ => None,
        }
    }
}

impl ConfigValue for ServerNames {
    open spec fn kind() -> ValueKind {
        ValueKind::ServerNames
    }

    open spec fn data(self) -> ConfigData {
        ConfigData::ServerNames(self)
    }

    open spec fn in_data(data: ConfigData) -> Option<Self> {
        match data {
            ConfigData::ServerNames(value) => Some(value),
            _ => None,
        }
    }

    proof fn data_holds_value(value: Self) {
    }

    proof fn data_is_of_kind(data: ConfigData) {
    }


    fn type_kind() -> (kind: ValueKind) {
        ValueKind::ServerNames
    }

    fn into_data(self) -> (data: ConfigData) {
        ConfigData::ServerNames(self)
    }

    fn from_data(data: ConfigData) -> (value: Option<Self>) {
        match data {
            ConfigData::ServerNames(value) => Some(value),
            _ => None,
        }
    }

    fn in_data_ref(data: &ConfigData) -> (value: Option<&Self>) {
        match data {
            ConfigData::ServerNames(value) => Some(value),
            _ => None,
        }
    }
}

impl ConfigValue for ClientNameConfig {
    open spec fn kind() -> ValueKind {
        ValueKind::ClientNameConfig
    }

    open spec fn data(self) -> ConfigData {
        ConfigData::ClientNameConfig(self)
    }

    open spec fn in_data(data: ConfigData) -> Option<Self> {
        match data {
            ConfigData::ClientNameConfig(value) => Some(value),
            _ => None,
        }
    }

    proof fn data_holds_value(value: Self) {
    }

    proof fn data_is_of_kind(data: ConfigData) {
    }


    fn type_kind() -> (kind: ValueKind) {
        ValueKind::ClientNameConfig
    }

    fn into_data(self) -> (data: ConfigData) {
        ConfigData::ClientNameConfig(self)
    }

    fn from_data(data: ConfigData) -> (value: Option<Self>) {
        match data {
            ConfigData::ClientNameConfig(value) => Some(value),
            _ => None,
        }
    }

    fn in_data_ref(data: &ConfigData) -> (value: Option<&Self>) {
        match data {
            ConfigData::ClientNameConfig(value) => Some(value),
            _ => None,
        }
    }
}

impl ConfigValue for ListenConfig {
    open spec fn kind() -> ValueKind {
        ValueKind::ListenConfig
    }

    open spec fn data(self) -> ConfigData {
        ConfigData::ListenConfig(self)
    }

    open spec fn in_data(data: ConfigData) -> Option<Self> {
        match data {
            ConfigData::ListenConfig(value) => Some(value),
            _ => None,
        }
    }

    proof fn data_holds_value(value: Self) {
    }

    proof fn data_is_of_kind(data: ConfigData) {
    }


    fn type_kind() -> (kind: ValueKind) {
        ValueKind::ListenConfig
    }

    fn into_data(self) -> (data: ConfigData) {
        ConfigData::ListenConfig(self)
    }

    fn from_data(data: ConfigData) -> (value: Option<Self>) {
        match data {
            ConfigData::ListenConfig(value) => Some(value),
            _ => None,
        }
    }

    fn in_data_ref(data: &ConfigData) -> (value: Option<&Self>) {
        match data {
            ConfigData::ListenConfig(value) => Some(value),
            _ => None,
        }
    }
}

impl ConfigValue for SocketAddrs {
    open spec fn kind() -> ValueKind {
        ValueKind::SocketAddrs
    }

    open spec fn data(self) -> ConfigData {
        ConfigData::SocketAddrs(self)
    }

    open spec fn in_data(data: ConfigData) -> Option<Self> {
        match data {
            ConfigData::SocketAddrs(value) => Some(value),
            _ => None,
        }
    }

    proof fn data_holds_value(value: Self) {
    }

    proof fn data_is_of_kind(data: ConfigData) {
    }


    fn type_kind() -> (kind: ValueKind) {
        ValueKind::SocketAddrs
    }

    fn into_data(self) -> (data: ConfigData) {
        ConfigData::SocketAddrs(self)
    }

    fn from_data(data: ConfigData) -> (value: Option<Self>) {
        match data {
            ConfigData::SocketAddrs(value) => Some(value),
            _ => None,
        }
    }

    fn in_data_ref(data: &ConfigData) -> (value: Option<&Self>) {
        match data {
            ConfigData::SocketAddrs(value) => Some(value),
            _ => None,
        }
    }
}

impl ConfigValue for DefaultType {
    open spec fn kind() -> ValueKind {
        ValueKind::DefaultType
    }

    open spec fn data(self) -> ConfigData {
        ConfigData::DefaultType(self)
    }

    open spec fn in_data(data: ConfigData) -> Option<Self> {
        match data {
            ConfigData::DefaultType(value) => Some(value),
            _ => None,
        }
    }

    proof fn data_holds_value(value: Self) {
    }

    proof fn data_is_of_kind(data: ConfigData) {
    }


    fn type_kind() -> (kind: ValueKind) {
        ValueKind::DefaultType
    }

    fn into_data(self) -> (data: ConfigData) {
        ConfigData::DefaultType(self)
    }

    fn from_data(data: ConfigData) -> (value: Option<Self>) {
        match data {
            ConfigData::DefaultType(value) => Some(value),
            _ => None,
        }
    }

    fn in_data_ref(data: &ConfigData) -> (value: Option<&Self>) {
        match data {
            ConfigData::DefaultType(value) => Some(value),
            _ => None,
        }
    }
}

impl ConfigValue for GzipMinLength {
    open spec fn kind() -> ValueKind {
        ValueKind::GzipMinLength
    }

    open spec fn data(self) -> ConfigData {
        ConfigData::GzipMinLength(self)
    }

    open spec fn in_data(data: ConfigData) -> Option<Self> {
        match data {
            ConfigData::GzipMinLength(value) => Some(value),
            _ => None,
        }
    }

    proof fn data_holds_value(value: Self) {
    }

    proof fn data_is_of_kind(data: ConfigData) {
    }


    fn type_kind() -> (kind: ValueKind) {
        ValueKind::GzipMinLength
    }

    fn into_data(self) -> (data: ConfigData) {
        ConfigData::GzipMinLength(self)
    }

    fn from_data(data: ConfigData) -> (value: Option<Self>) {
        match data {
            ConfigData::GzipMinLength(value) => Some(value),
            _ => None,
        }
    }

    fn in_data_ref(data: &ConfigData) -> (value: Option<&Self>) {
        match data {
            ConfigData::GzipMinLength(value) => Some(value),
            _ => None,
        }
    }
}

impl ConfigValue for GzipCompLevel {
    open spec fn kind() -> ValueKind {
        ValueKind::GzipCompLevel
    }

    open spec fn data(self) -> ConfigData {
        ConfigData::GzipCompLevel(self)
    }

    open spec fn in_data(data: ConfigData) -> Option<Self> {
        match data {
            ConfigData::GzipCompLevel(value) => Some(value),
            _ => None,
        }
    }

    proof fn data_holds_value(value: Self) {
    }

    proof fn data_is_of_kind(data: ConfigData) {
    }


    fn type_kind() -> (kind: ValueKind) {
        ValueKind::GzipCompLevel
    }

    fn into_data(self) -> (data: ConfigData) {
        ConfigData::GzipCompLevel(self)
    }

    fn from_data(data: ConfigData) -> (value: Option<Self>) {
        match data {
            ConfigData::GzipCompLevel(value) => Some(value),
            _ => None,
        }
    }

    fn in_data_ref(data: &ConfigData) -> (value: Option<&Self>) {
        match data {
            ConfigData::GzipCompLevel(value) => Some(value),
            _ => None,
        }
    }
}

impl ConfigValue for ProxyPass {
    open spec fn kind() -> ValueKind {
        ValueKind::ProxyPass
    }

    open spec fn data(self) -> ConfigData {
        ConfigData::ProxyPass(self)
    }

    open spec fn in_data(data: ConfigData) -> Option<Self> {
        match data {
            ConfigData::ProxyPass(value) => Some(value),
            _ => None,
        }
    }

    proof fn data_holds_value(value: Self) {
    }

    proof fn data_is_of_kind(data: ConfigData) {
    }


    fn type_kind() -> (kind: ValueKind) {
        ValueKind::ProxyPass
    }

    fn into_data(self) -> (data: ConfigData) {
        ConfigData::ProxyPass(self)
    }

    fn from_data(data: ConfigData) -> (value: Option<Self>) {
        match data {
            ConfigData::ProxyPass(value) => Some(value),
            _ => None,
        }
    }

    fn in_data_ref(data: &ConfigData) -> (value: Option<&Self>) {
        match data {
            ConfigData::ProxyPass(value) => Some(value),
            _ => None,
        }
    }
}

impl ConfigValue for HeaderRules {
    open spec fn kind() -> ValueKind {
        ValueKind::HeaderRules
    }

    open spec fn data(self) -> ConfigData {
        ConfigData::HeaderRules(self)
    }

    open spec fn in_data(data: ConfigData) -> Option<Self> {
        match data {
            ConfigData::HeaderRules(value) => Some(value),
            _ => None,
        }
    }

    proof fn data_holds_value(value: Self) {
    }

    proof fn data_is_of_kind(data: ConfigData) {
    }


    fn type_kind() -> (kind: ValueKind) {
        ValueKind::HeaderRules
    }

    fn into_data(self) -> (data: ConfigData) {
        ConfigData::HeaderRules(self)
    }

    fn from_data(data: ConfigData) -> (value: Option<Self>) {
        match data {
            ConfigData::HeaderRules(value) => Some(value),
            _ => None,
        }
    }

    fn in_data_ref(data: &ConfigData) -> (value: Option<&Self>) {
        match data {
            ConfigData::HeaderRules(value) => Some(value),
            _ => None,
        }
    }
}

impl ConfigValue for MimeTypes {
    open spec fn kind() -> ValueKind {
        ValueKind::MimeTypes
    }

    open spec fn data(self) -> ConfigData {
        ConfigData::MimeTypes(self)
    }

    open spec fn in_data(data: ConfigData) -> Option<Self> {
        match data {
            ConfigData::MimeTypes(value) => Some(value),
            _ => None,
        }
    }

    proof fn data_holds_value(value: Self) {
    }

    proof fn data_is_of_kind(data: ConfigData) {
    }


    fn type_kind() -> (kind: ValueKind) {
        ValueKind::MimeTypes
    }

    fn into_data(self) -> (data: ConfigData) {
        ConfigData::MimeTypes(self)
    }

    fn from_data(data: ConfigData) -> (value: Option<Self>) {
        match data {
            ConfigData::MimeTypes(value) => Some(value),
            _ => None,
        }
    }

    fn in_data_ref(data: &ConfigData) -> (value: Option<&Self>) {
        match data {
            ConfigData::MimeTypes(value) => Some(value),
            _ => None,
        }
    }
}

impl ConfigValue for SshLoginMethods {
    open spec fn kind() -> ValueKind {
        ValueKind::SshLoginMethods
    }

    open spec fn data(self) -> ConfigData {
        ConfigData::SshLoginMethods(self)
    }

    open spec fn in_data(data: ConfigData) -> Option<Self> {
        match data {
            ConfigData::SshLoginMethods(value) => Some(value),
            _ => None,
        }
    }

    proof fn data_holds_value(value: Self) {
    }

    proof fn data_is_of_kind(data: ConfigData) {
    }


    fn type_kind() -> (kind: ValueKind) {
        ValueKind::SshLoginMethods
    }

    fn into_data(self) -> (data: ConfigData) {
        ConfigData::SshLoginMethods(self)
    }

    fn from_data(data: ConfigData) -> (value: Option<Self>) {
        match data {
            ConfigData::SshLoginMethods(value) => Some(value),
            _ => None,
        }
    }

    fn in_data_ref(data: &ConfigData) -> (value: Option<&Self>) {
        match data {
            ConfigData::SshLoginMethods(value) => Some(value),
            _ => None,
        }
    }
}

impl ConfigValue for SshSslUsers {
    open spec fn kind() -> ValueKind {
        ValueKind::SshSslUsers
    }

    open spec fn data(self) -> ConfigData {
        ConfigData::SshSslUsers(self)
    }

    open spec fn in_data(data: ConfigData) -> Option<Self> {
        match data {
            ConfigData::SshSslUsers(value) => Some(value),
            _ => None,
        }
    }

    proof fn data_holds_value(value: Self) {
    }

    proof fn data_is_of_kind(data: ConfigData) {
    }


    fn type_kind() -> (kind: ValueKind) {
        ValueKind::SshSslUsers
    }

    fn into_data(self) -> (data: ConfigData) {
        ConfigData::SshSslUsers(self)
    }

    fn from_data(data: ConfigData) -> (value: Option<Self>) {
        match data {
            ConfigData::SshSslUsers(value) => Some(value),
            _ => None,
        }
    }

    fn in_data_ref(data: &ConfigData) -> (value: Option<&Self>) {
        match data {
            ConfigData::SshSslUsers(value) => Some(value),
            _ => None,
        }
    }
}

impl ConfigValue for AccessRulesUri {
    open spec fn kind() -> ValueKind {
        ValueKind::AccessRulesUri
    }

    open spec fn data(self) -> ConfigData {
        ConfigData::AccessRulesUri(self)
    }

    open spec fn in_data(data: ConfigData) -> Option<Self> {
        match data {
            ConfigData::AccessRulesUri(value) => Some(value),
            _ => None,
        }
    }

    proof fn data_holds_value(value: Self) {
    }

    proof fn data_is_of_kind(data: ConfigData) {
    }


    fn type_kind() -> (kind: ValueKind) {
        ValueKind::AccessRulesUri
    }

    fn into_data(self) -> (data: ConfigData) {
        ConfigData::AccessRulesUri(self)
    }

    fn from_data(data: ConfigData) -> (value: Option<Self>) {
        match data {
            ConfigData::AccessRulesUri(value) => Some(value),
            _ => None,
        }
    }

    fn in_data_ref(data: &ConfigData) -> (value: Option<&Self>) {
        match data {
            ConfigData::AccessRulesUri(value) => Some(value),
            _ => None,
        }
    }
}

impl ConfigValue for StunBindConfigValue {
    open spec fn kind() -> ValueKind {
        ValueKind::StunBindConfigValue
    }

    open spec fn data(self) -> ConfigData {
        ConfigData::StunBindConfigValue(self)
    }

    open spec fn in_data(data: ConfigData) -> Option<Self> {
        match data {
            ConfigData::StunBindConfigValue(value) => Some(value),
            _ => None,
        }
    }

    proof fn data_holds_value(value: Self) {
    }

    proof fn data_is_of_kind(data: ConfigData) {
    }


    fn type_kind() -> (kind: ValueKind) {
        ValueKind::StunBindConfigValue
    }

    fn into_data(self) -> (data: ConfigData) {
        ConfigData::StunBindConfigValue(self)
    }

    fn from_data(data: ConfigData) -> (value: Option<Self>) {
        match data {
            ConfigData::StunBindConfigValue(value) => Some(value),
            _ => None,
        }
    }

    fn in_data_ref(data: &ConfigData) -> (value: Option<&Self>) {
        match data {
            ConfigData::StunBindConfigValue(value) => Some(value),
            _ => None,
        }
    }
}

impl ConfigValue for StunChangePort {
    open spec fn kind() -> ValueKind {
        ValueKind::StunChangePort
    }

    open spec fn data(self) -> ConfigData {
        ConfigData::StunChangePort(self)
    }

    open spec fn in_data(data: ConfigData) -> Option<Self> {
        match data {
            ConfigData::StunChangePort(value) => Some(value),
            _ => None,
        }
    }

    proof fn data_holds_value(value: Self) {
    }

    proof fn data_is_of_kind(data: ConfigData) {
    }


    fn type_kind() -> (kind: ValueKind) {
        ValueKind::StunChangePort
    }

    fn into_data(self) -> (data: ConfigData) {
        ConfigData::StunChangePort(self)
    }

    fn from_data(data: ConfigData) -> (value: Option<Self>) {
        match data {
            ConfigData::StunChangePort(value) => Some(value),
            _ => None,
        }
    }

    fn in_data_ref(data: &ConfigData) -> (value: Option<&Self>) {
        match data {
            ConfigData::StunChangePort(value) => Some(value),
            _ => None,
        }
    }
}

impl ConfigValue for StunServerConfigValue {
    open spec fn kind() -> ValueKind {
        ValueKind::StunServerConfigValue
    }

    open spec fn data(self) -> ConfigData {
        ConfigData::StunServerConfigValue(self)
    }

    open spec fn in_data(data: ConfigData) -> Option<Self> {
        match data {
            ConfigData::StunServerConfigValue(value) => Some(value),
            _ => None,
        }
    }

    proof fn data_holds_value(value: Self) {
    }

    proof fn data_is_of_kind(data: ConfigData) {
    }


    fn type_kind() -> (kind: ValueKind) {
        ValueKind::StunServerConfigValue
    }

    fn into_data(self) -> (data: ConfigData) {
        ConfigData::StunServerConfigValue(self)
    }

    fn from_data(data: ConfigData) -> (value: Option<Self>) {
        match data {
            ConfigData::StunServerConfigValue(value) => Some(value),
            _ => None,
        }
    }

    fn in_data_ref(data: &ConfigData) -> (value: Option<&Self>) {
        match data {
            ConfigData::StunServerConfigValue(value) => Some(value),
            _ => None,
        }
    }
}

impl ConfigValue for Pattern {
    open spec fn kind() -> ValueKind {
        ValueKind::Pattern
    }

    open spec fn data(self) -> ConfigData {
        ConfigData::Pattern(self)
    }

    open spec fn in_data(data: ConfigData) -> Option<Self> {
        match data {
            ConfigData::Pattern(value) => Some(value),
            _ => None,
        }
    }

    proof fn data_holds_value(value: Self) {
    }

    proof fn data_is_of_kind(data: ConfigData) {
    }


    fn type_kind() -> (kind: ValueKind) {
        ValueKind::Pattern
    }

    fn into_data(self) -> (data: ConfigData) {
        ConfigData::Pattern(self)
    }

    fn from_data(data: ConfigData) -> (value: Option<Self>) {
        match data {
            ConfigData::Pattern(value) => Some(value),
            _ => None,
        }
    }

    fn in_data_ref(data: &ConfigData) -> (value: Option<&Self>) {
        match data {
            ConfigData::Pattern(value) => Some(value),
            _ => None,
        }
    }
}

/// What reading a directive as a value of type `T` gives, among the values of any type.
pub open spec fn reads_as<T: ConfigValue>(
    directive: AstDirective,
    sources: SourceMap,
    result: Result<ConfigData, DirectiveError>,
) -> bool {
    match result {
        Ok(data) => T::in_data(data) matches Some(value) && T::reads(directive, sources, Ok(value)),
        Err(wrapped) => exists|error: T::Error| #[trigger]
            T::reads(directive, sources, Err(error)) && wrapped == T::wrapped(error),
    }
}

/// What reading a directive as a value of the given kind gives.
pub open spec fn reads_data(
    kind: ValueKind,
    directive: AstDirective,
    sources: SourceMap,
    result: Result<ConfigData, DirectiveError>,
) -> bool {
    match kind {
        ValueKind::StringConfig => reads_as::<StringConfig>(directive, sources, result),
        ValueKind::StringList => reads_as::<StringList>(directive, sources, result),
        ValueKind::BoolConfig => reads_as::<BoolConfig>(directive, sources, result),
        ValueKind::PathConfig => reads_as::<PathConfig>(directive, sources, result),
        ValueKind::ResolvedConfigPath => reads_as::<ResolvedConfigPath>(directive, sources, result),
        ValueKind::ResolverConfig => reads_as::<ResolverConfig>(directive, sources, result),
        ValueKind::ServerIdConfig => reads_as::<ServerIdConfig>(directive, sources, result),
        ValueKind::ServerNames => reads_as::<ServerNames>(directive, sources, result),
        ValueKind::ClientNameConfig => reads_as::<ClientNameConfig>(directive, sources, result),
        ValueKind::ListenConfig => reads_as::<ListenConfig>(directive, sources, result),
        ValueKind::SocketAddrs => reads_as::<SocketAddrs>(directive, sources, result),
        ValueKind::DefaultType => reads_as::<DefaultType>(directive, sources, result),
        ValueKind::GzipMinLength => reads_as::<GzipMinLength>(directive, sources, result),
        ValueKind::GzipCompLevel => reads_as::<GzipCompLevel>(directive, sources, result),
        ValueKind::ProxyPass => reads_as::<ProxyPass>(directive, sources, result),
        ValueKind::HeaderRules => reads_as::<HeaderRules>(directive, sources, result),
        ValueKind::MimeTypes => reads_as::<MimeTypes>(directive, sources, result),
        ValueKind::SshLoginMethods => reads_as::<SshLoginMethods>(directive, sources, result),
        ValueKind::SshSslUsers => reads_as::<SshSslUsers>(directive, sources, result),
        ValueKind::AccessRulesUri => reads_as::<AccessRulesUri>(directive, sources, result),
        ValueKind::StunBindConfigValue => reads_as::<StunBindConfigValue>(directive, sources, result),
        ValueKind::StunChangePort => reads_as::<StunChangePort>(directive, sources, result),
        ValueKind::StunServerConfigValue => reads_as::<StunServerConfigValue>(directive, sources, result),
        ValueKind::Pattern => reads_as::<Pattern>(directive, sources, result),
    }
}

proof fn lemma_reads_as_one_way<T: ConfigValue>(
    directive: AstDirective,
    sources: SourceMap,
    data: ConfigData,
    error: DirectiveError,
)
    ensures
        !(reads_as::<T>(directive, sources, Ok(data)) && reads_as::<T>(
            directive,
            sources,
            Err(error),
        )),
{
    if reads_as::<T>(directive, sources, Ok(data)) && reads_as::<T>(
        directive,
        sources,
        Err(error),
    ) {
        let value = T::in_data(data)->0;
        let cause = choose|cause: T::Error| #[trigger]
            T::reads(directive, sources, Err(cause)) && error == T::wrapped(cause);
        T::reads_one_way(directive, sources, value, cause);
    }
}

/// A directive that is read as a value of some kind gives a value or an error, never both.
pub proof fn reads_data_one_way(
    kind: ValueKind,
    directive: AstDirective,
    sources: SourceMap,
    data: ConfigData,
    error: DirectiveError,
)
    ensures
        !(reads_data(kind, directive, sources, Ok(data)) && reads_data(
            kind,
            directive,
            sources,
            Err(error),
        )),
{
    match kind {
        ValueKind::StringConfig => lemma_reads_as_one_way::<StringConfig>(directive, sources, data, error),
        ValueKind::StringList => lemma_reads_as_one_way::<StringList>(directive, sources, data, error),
        ValueKind::BoolConfig => lemma_reads_as_one_way::<BoolConfig>(directive, sources, data, error),
        ValueKind::PathConfig => lemma_reads_as_one_way::<PathConfig>(directive, sources, data, error),
        ValueKind::ResolvedConfigPath => lemma_reads_as_one_way::<ResolvedConfigPath>(directive, sources, data, error),
        ValueKind::ResolverConfig => lemma_reads_as_one_way::<ResolverConfig>(directive, sources, data, error),
        ValueKind::ServerIdConfig => lemma_reads_as_one_way::<ServerIdConfig>(directive, sources, data, error),
        ValueKind::ServerNames => lemma_reads_as_one_way::<ServerNames>(directive, sources, data, error),
        ValueKind::ClientNameConfig => lemma_reads_as_one_way::<ClientNameConfig>(directive, sources, data, error),
        ValueKind::ListenConfig => lemma_reads_as_one_way::<ListenConfig>(directive, sources, data, error),
        ValueKind::SocketAddrs => lemma_reads_as_one_way::<SocketAddrs>(directive, sources, data, error),
        ValueKind::DefaultType => lemma_reads_as_one_way::<DefaultType>(directive, sources, data, error),
        ValueKind::GzipMinLength => lemma_reads_as_one_way::<GzipMinLength>(directive, sources, data, error),
        ValueKind::GzipCompLevel => lemma_reads_as_one_way::<GzipCompLevel>(directive, sources, data, error),
        ValueKind::ProxyPass => lemma_reads_as_one_way::<ProxyPass>(directive, sources, data, error),
        ValueKind::HeaderRules => lemma_reads_as_one_way::<HeaderRules>(directive, sources, data, error),
        ValueKind::MimeTypes => lemma_reads_as_one_way::<MimeTypes>(directive, sources, data, error),
        ValueKind::SshLoginMethods => lemma_reads_as_one_way::<SshLoginMethods>(directive, sources, data, error),
        ValueKind::SshSslUsers => lemma_reads_as_one_way::<SshSslUsers>(directive, sources, data, error),
        ValueKind::AccessRulesUri => lemma_reads_as_one_way::<AccessRulesUri>(directive, sources, data, error),
        ValueKind::StunBindConfigValue => lemma_reads_as_one_way::<StunBindConfigValue>(directive, sources, data, error),
        ValueKind::StunChangePort => lemma_reads_as_one_way::<StunChangePort>(directive, sources, data, error),
        ValueKind::StunServerConfigValue => lemma_reads_as_one_way::<StunServerConfigValue>(directive, sources, data, error),
        ValueKind::Pattern => lemma_reads_as_one_way::<Pattern>(directive, sources, data, error),
    }
}

/// The place that a value of the given kind is said to come from.
pub open spec fn place_as(kind: ValueKind, directive: AstDirective) -> SourceSpan {
    match kind {
        ValueKind::StringConfig => StringConfig::place(directive),
        ValueKind::StringList => StringList::place(directive),
        ValueKind::BoolConfig => BoolConfig::place(directive),
        ValueKind::PathConfig => PathConfig::place(directive),
        ValueKind::ResolvedConfigPath => ResolvedConfigPath::place(directive),
        ValueKind::ResolverConfig => ResolverConfig::place(directive),
        ValueKind::ServerIdConfig => ServerIdConfig::place(directive),
        ValueKind::ServerNames => ServerNames::place(directive),
        ValueKind::ClientNameConfig => ClientNameConfig::place(directive),
        ValueKind::ListenConfig => ListenConfig::place(directive),
        ValueKind::SocketAddrs => SocketAddrs::place(directive),
        ValueKind::DefaultType => DefaultType::place(directive),
        ValueKind::GzipMinLength => GzipMinLength::place(directive),
        ValueKind::GzipCompLevel => GzipCompLevel::place(directive),
        ValueKind::ProxyPass => ProxyPass::place(directive),
        ValueKind::HeaderRules => HeaderRules::place(directive),
        ValueKind::MimeTypes => MimeTypes::place(directive),
        ValueKind::SshLoginMethods => SshLoginMethods::place(directive),
        ValueKind::SshSslUsers => SshSslUsers::place(directive),
        ValueKind::AccessRulesUri => AccessRulesUri::place(directive),
        ValueKind::StunBindConfigValue => StunBindConfigValue::place(directive),
        ValueKind::StunChangePort => StunChangePort::place(directive),
        ValueKind::StunServerConfigValue => StunServerConfigValue::place(directive),
        ValueKind::Pattern => Pattern::place(directive),
    }
}

/// The place that a value of the given kind is said to come from.
pub fn data_place(kind: ValueKind, directive: &AstDirective) -> (span: SourceSpan)
    ensures
        span == place_as(kind, *directive),
{
    match kind {
        ValueKind::StringConfig => StringConfig::place_of(directive),
        ValueKind::StringList => StringList::place_of(directive),
        ValueKind::BoolConfig => BoolConfig::place_of(directive),
        ValueKind::PathConfig => PathConfig::place_of(directive),
        ValueKind::ResolvedConfigPath => ResolvedConfigPath::place_of(directive),
        ValueKind::ResolverConfig => ResolverConfig::place_of(directive),
        ValueKind::ServerIdConfig => ServerIdConfig::place_of(directive),
        ValueKind::ServerNames => ServerNames::place_of(directive),
        ValueKind::ClientNameConfig => ClientNameConfig::place_of(directive),
        ValueKind::ListenConfig => ListenConfig::place_of(directive),
        ValueKind::SocketAddrs => SocketAddrs::place_of(directive),
        ValueKind::DefaultType => DefaultType::place_of(directive),
        ValueKind::GzipMinLength => GzipMinLength::place_of(directive),
        ValueKind::GzipCompLevel => GzipCompLevel::place_of(directive),
        ValueKind::ProxyPass => ProxyPass::place_of(directive),
        ValueKind::HeaderRules => HeaderRules::place_of(directive),
        ValueKind::MimeTypes => MimeTypes::place_of(directive),
        ValueKind::SshLoginMethods => SshLoginMethods::place_of(directive),
        ValueKind::SshSslUsers => SshSslUsers::place_of(directive),
        ValueKind::AccessRulesUri => AccessRulesUri::place_of(directive),
        ValueKind::StunBindConfigValue => StunBindConfigValue::place_of(directive),
        ValueKind::StunChangePort => StunChangePort::place_of(directive),
        ValueKind::StunServerConfigValue => StunServerConfigValue::place_of(directive),
        ValueKind::Pattern => Pattern::place_of(directive),
    }
}

fn read_as<T: ConfigValue>(directive: &AstDirective, source_map: &SourceMap) -> (result: Result<
    ConfigData,
    DirectiveError,
>)
    ensures
        reads_as::<T>(*directive, *source_map, result),
{
    match T::read(directive, source_map) {
        Ok(value) => {
            proof {
                T::data_holds_value(value);
            }
            Ok(value.into_data())
        },
        Err(error) => {
            assert(T::reads(*directive, *source_map, Err(error)));
            Err(T::wrap(error))
        },
    }
}

/// Reads a directive as a value of the given kind.
pub fn read_data(kind: ValueKind, directive: &AstDirective, source_map: &SourceMap) -> (result:
    Result<ConfigData, DirectiveError>)
    ensures
        reads_data(kind, *directive, *source_map, result),
        result matches Ok(data) ==> data.kind() == kind,
{
    match kind {
        ValueKind::StringConfig => read_as::<StringConfig>(directive, source_map),
        ValueKind::StringList => read_as::<StringList>(directive, source_map),
        ValueKind::BoolConfig => read_as::<BoolConfig>(directive, source_map),
        ValueKind::PathConfig => read_as::<PathConfig>(directive, source_map),
        ValueKind::ResolvedConfigPath => read_as::<ResolvedConfigPath>(directive, source_map),
        ValueKind::ResolverConfig => read_as::<ResolverConfig>(directive, source_map),
        ValueKind::ServerIdConfig => read_as::<ServerIdConfig>(directive, source_map),
        ValueKind::ServerNames => read_as::<ServerNames>(directive, source_map),
        ValueKind::ClientNameConfig => read_as::<ClientNameConfig>(directive, source_map),
        ValueKind::ListenConfig => read_as::<ListenConfig>(directive, source_map),
        ValueKind::SocketAddrs => read_as::<SocketAddrs>(directive, source_map),
        ValueKind::DefaultType => read_as::<DefaultType>(directive, source_map),
        ValueKind::GzipMinLength => read_as::<GzipMinLength>(directive, source_map),
        ValueKind::GzipCompLevel => read_as::<GzipCompLevel>(directive, source_map),
        ValueKind::ProxyPass => read_as::<ProxyPass>(directive, source_map),
        ValueKind::HeaderRules => read_as::<HeaderRules>(directive, source_map),
        ValueKind::MimeTypes => read_as::<MimeTypes>(directive, source_map),
        ValueKind::SshLoginMethods => read_as::<SshLoginMethods>(directive, source_map),
        ValueKind::SshSslUsers => read_as::<SshSslUsers>(directive, source_map),
        ValueKind::AccessRulesUri => read_as::<AccessRulesUri>(directive, source_map),
        ValueKind::StunBindConfigValue => read_as::<StunBindConfigValue>(directive, source_map),
        ValueKind::StunChangePort => read_as::<StunChangePort>(directive, source_map),
        ValueKind::StunServerConfigValue => read_as::<StunServerConfigValue>(directive, source_map),
        ValueKind::Pattern => read_as::<Pattern>(directive, source_map),
    }
}

/// A type that directives can be read as by its kind.
pub trait KnownValue: ConfigValue {
    /// Reading by the kind of this type is reading as this type.
    proof fn reads_by_kind(
        directive: AstDirective,
        sources: SourceMap,
        result: Result<ConfigData, DirectiveError>,
    )
        ensures
            reads_data(Self::kind(), directive, sources, result) == reads_as::<Self>(
                directive,
                sources,
                result,
            ),
    ;
}

impl KnownValue for StringConfig {
    proof fn reads_by_kind(
        directive: AstDirective,
        sources: SourceMap,
        result: Result<ConfigData, DirectiveError>,
    ) {
    }
}

impl KnownValue for StringList {
    proof fn reads_by_kind(
        directive: AstDirective,
        sources: SourceMap,
        result: Result<ConfigData, DirectiveError>,
    ) {
    }
}

impl KnownValue for BoolConfig {
    proof fn reads_by_kind(
        directive: AstDirective,
        sources: SourceMap,
        result: Result<ConfigData, DirectiveError>,
    ) {
    }
}

impl KnownValue for PathConfig {
    proof fn reads_by_kind(
        directive: AstDirective,
        sources: SourceMap,
        result: Result<ConfigData, DirectiveError>,
    ) {
    }
}

impl KnownValue for ResolvedConfigPath {
    proof fn reads_by_kind(
        directive: AstDirective,
        sources: SourceMap,
        result: Result<ConfigData, DirectiveError>,
    ) {
    }
}

impl KnownValue for ResolverConfig {
    proof fn reads_by_kind(
        directive: AstDirective,
        sources: SourceMap,
        result: Result<ConfigData, DirectiveError>,
    ) {
    }
}

impl KnownValue for ServerIdConfig {
    proof fn reads_by_kind(
        directive: AstDirective,
        sources: SourceMap,
        result: Result<ConfigData, DirectiveError>,
    ) {
    }
}

impl KnownValue for ServerNames {
    proof fn reads_by_kind(
        directive: AstDirective,
        sources: SourceMap,
        result: Result<ConfigData, DirectiveError>,
    ) {
    }
}

impl KnownValue for ClientNameConfig {
    proof fn reads_by_kind(
        directive: AstDirective,
        sources: SourceMap,
        result: Result<ConfigData, DirectiveError>,
    ) {
    }
}

impl KnownValue for ListenConfig {
    proof fn reads_by_kind(
        directive: AstDirective,
        sources: SourceMap,
        result: Result<ConfigData, DirectiveError>,
    ) {
    }
}

impl KnownValue for SocketAddrs {
    proof fn reads_by_kind(
        directive: AstDirective,
        sources: SourceMap,
        result: Result<ConfigData, DirectiveError>,
    ) {
    }
}

impl KnownValue for DefaultType {
    proof fn reads_by_kind(
        directive: AstDirective,
        sources: SourceMap,
        result: Result<ConfigData, DirectiveError>,
    ) {
    }
}

impl KnownValue for GzipMinLength {
    proof fn reads_by_kind(
        directive: AstDirective,
        sources: SourceMap,
        result: Result<ConfigData, DirectiveError>,
    ) {
    }
}

impl KnownValue for GzipCompLevel {
    proof fn reads_by_kind(
        directive: AstDirective,
        sources: SourceMap,
        result: Result<ConfigData, DirectiveError>,
    ) {
    }
}

impl KnownValue for ProxyPass {
    proof fn reads_by_kind(
        directive: AstDirective,
        sources: SourceMap,
        result: Result<ConfigData, DirectiveError>,
    ) {
    }
}

impl KnownValue for HeaderRules {
    proof fn reads_by_kind(
        directive: AstDirective,
        sources: SourceMap,
        result: Result<ConfigData, DirectiveError>,
    ) {
    }
}

impl KnownValue for MimeTypes {
    proof fn reads_by_kind(
        directive: AstDirective,
        sources: SourceMap,
        result: Result<ConfigData, DirectiveError>,
    ) {
    }
}

impl KnownValue for SshLoginMethods {
    proof fn reads_by_kind(
        directive: AstDirective,
        sources: SourceMap,
        result: Result<ConfigData, DirectiveError>,
    ) {
    }
}

impl KnownValue for SshSslUsers {
    proof fn reads_by_kind(
        directive: AstDirective,
        sources: SourceMap,
        result: Result<ConfigData, DirectiveError>,
    ) {
    }
}

impl KnownValue for AccessRulesUri {
    proof fn reads_by_kind(
        directive: AstDirective,
        sources: SourceMap,
        result: Result<ConfigData, DirectiveError>,
    ) {
    }
}

impl KnownValue for StunBindConfigValue {
    proof fn reads_by_kind(
        directive: AstDirective,
        sources: SourceMap,
        result: Result<ConfigData, DirectiveError>,
    ) {
    }
}

impl KnownValue for StunChangePort {
    proof fn reads_by_kind(
        directive: AstDirective,
        sources: SourceMap,
        result: Result<ConfigData, DirectiveError>,
    ) {
    }
}

impl KnownValue for StunServerConfigValue {
    proof fn reads_by_kind(
        directive: AstDirective,
        sources: SourceMap,
        result: Result<ConfigData, DirectiveError>,
    ) {
    }
}

impl KnownValue for Pattern {
    proof fn reads_by_kind(
        directive: AstDirective,
        sources: SourceMap,
        result: Result<ConfigData, DirectiveError>,
    ) {
    }
}

/// A value of any type with the place that it comes from.
#[derive(Debug)]
pub struct TypedValue {
    value: Arc<ConfigData>,
    place: SourceSpan,
}

impl TypedValue {
    /// The value.
    pub closed spec fn data(self) -> ConfigData {
        *self.value
    }

    /// The place that it comes from.
    pub closed spec fn place(self) -> SourceSpan {
        self.place
    }

    pub fn new<T: ConfigValue>(value: T, span: SourceSpan) -> (typed: Self)
        ensures
            typed.data() == value.data(),
            typed.place() == span,
    {
        TypedValue { value: Arc::new(value.into_data()), place: span }
    }

    /// A value whose type is known by its kind alone.
    pub fn of_data(value: ConfigData, span: SourceSpan) -> (typed: Self)
        ensures
            typed.data() == value,
            typed.place() == span,
    {
        TypedValue { value: Arc::new(value), place: span }
    }

    /// The value, where it is of type `T`.
    pub fn downcast<T: ConfigValue>(&self) -> (value: Option<&T>)
        ensures
            match value {
                Some(value) => T::in_data(self.data()) == Some(*value),
                None => T::in_data(self.data()) is None,
            },
    {
        T::in_data_ref(&*self.value)
    }

    /// The kind of the value.
    pub fn value_kind(&self) -> (kind: ValueKind)
        ensures
            kind == self.data().kind(),
    {
        self.value.value_kind()
    }

    /// How the type of the value is called.
    pub fn kind_name(&self) -> (name: &'static str)
        ensures
            name@ == self.data().kind().text(),
    {
        self.value.value_kind().name()
    }

    pub fn span(&self) -> (span: SourceSpan)
        ensures
            span == self.place(),
    {
        self.place
    }
}

impl Clone for TypedValue {
    fn clone(&self) -> (copy: Self)
        ensures
            copy.data() == self.data(),
            copy.place() == self.place(),
            copy == *self,
    {
        TypedValue { value: self.value.clone(), place: self.place }
    }
}

/// A value that was put in under its own type is found under that type and under no other.
pub proof fn typed_value_reads_back<T: ConfigValue, U: ConfigValue>(value: T, typed: TypedValue)
    requires
        typed.data() == value.data(),
    ensures
        T::in_data(typed.data()) == Some(value),
        U::kind() != T::kind() ==> U::in_data(typed.data()) is None,
{
    T::data_holds_value(value);
    U::data_is_of_kind(typed.data());
}

/// A directive is read as a value of its kind, by what a value of that type is read from.
pub proof fn kinds_are_read_as_their_type(
    kind: ValueKind,
    directive: AstDirective,
    sources: SourceMap,
    data: ConfigData,
)
    requires
        reads_data(kind, directive, sources, Ok(data)),
    ensures
        match kind {
            ValueKind::StringConfig => data matches ConfigData::StringConfig(value) && StringConfig::reads(
                directive,
                sources,
                Ok(value),
            ),
            ValueKind::StringList => data matches ConfigData::StringList(value) && StringList::reads(
                directive,
                sources,
                Ok(value),
            ),
            ValueKind::BoolConfig => data matches ConfigData::BoolConfig(value) && BoolConfig::reads(
                directive,
                sources,
                Ok(value),
            ),
            ValueKind::PathConfig => data matches ConfigData::PathConfig(value) && PathConfig::reads(
                directive,
                sources,
                Ok(value),
            ),
            ValueKind::ResolvedConfigPath => data matches ConfigData::ResolvedConfigPath(value) && ResolvedConfigPath::reads(
                directive,
                sources,
                Ok(value),
            ),
            ValueKind::ResolverConfig => data matches ConfigData::ResolverConfig(value) && ResolverConfig::reads(
                directive,
                sources,
                Ok(value),
            ),
            ValueKind::ServerIdConfig => data matches ConfigData::ServerIdConfig(value) && ServerIdConfig::reads(
                directive,
                sources,
                Ok(value),
            ),
            ValueKind::ServerNames => data matches ConfigData::ServerNames(value) && ServerNames::reads(
                directive,
                sources,
                Ok(value),
            ),
            ValueKind::ClientNameConfig => data matches ConfigData::ClientNameConfig(value) && ClientNameConfig::reads(
                directive,
                sources,
                Ok(value),
            ),
            ValueKind::ListenConfig => data matches ConfigData::ListenConfig(value) && ListenConfig::reads(
                directive,
                sources,
                Ok(value),
            ),
            ValueKind::SocketAddrs => data matches ConfigData::SocketAddrs(value) && SocketAddrs::reads(
                directive,
                sources,
                Ok(value),
            ),
            ValueKind::DefaultType => data matches ConfigData::DefaultType(value) && DefaultType::reads(
                directive,
                sources,
                Ok(value),
            ),
            ValueKind::GzipMinLength => data matches ConfigData::GzipMinLength(value) && GzipMinLength::reads(
                directive,
                sources,
                Ok(value),
            ),
            ValueKind::GzipCompLevel => data matches ConfigData::GzipCompLevel(value) && GzipCompLevel::reads(
                directive,
                sources,
                Ok(value),
            ),
            ValueKind::ProxyPass => data matches ConfigData::ProxyPass(value) && ProxyPass::reads(
                directive,
                sources,
                Ok(value),
            ),
            ValueKind::HeaderRules => data matches ConfigData::HeaderRules(value) && HeaderRules::reads(
                directive,
                sources,
                Ok(value),
            ),
            ValueKind::MimeTypes => data matches ConfigData::MimeTypes(value) && MimeTypes::reads(
                directive,
                sources,
                Ok(value),
            ),
            ValueKind::SshLoginMethods => data matches ConfigData::SshLoginMethods(value) && SshLoginMethods::reads(
                directive,
                sources,
                Ok(value),
            ),
            ValueKind::SshSslUsers => data matches ConfigData::SshSslUsers(value) && SshSslUsers::reads(
                directive,
                sources,
                Ok(value),
            ),
            ValueKind::AccessRulesUri => data matches ConfigData::AccessRulesUri(value) && AccessRulesUri::reads(
                directive,
                sources,
                Ok(value),
            ),
            ValueKind::StunBindConfigValue => data matches ConfigData::StunBindConfigValue(value) && StunBindConfigValue::reads(
                directive,
                sources,
                Ok(value),
            ),
            ValueKind::StunChangePort => data matches ConfigData::StunChangePort(value) && StunChangePort::reads(
                directive,
                sources,
                Ok(value),
            ),
            ValueKind::StunServerConfigValue => data matches ConfigData::StunServerConfigValue(value) && StunServerConfigValue::reads(
                directive,
                sources,
                Ok(value),
            ),
            ValueKind::Pattern => data matches ConfigData::Pattern(value) && Pattern::reads(
                directive,
                sources,
                Ok(value),
            ),
        },
{
}

} // verus!
