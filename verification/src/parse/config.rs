//! The configuration that documents are turned into.
use vstd::prelude::*;
use vstd::utf8::encode_utf8;

use crate::address::SocketAddr;
use crate::home::IdentityProfile;
use crate::outside::UrlView;
use crate::parse::domain::{
    is_path_fault, is_resolved, ConfigSourceSpan, ResolvedConfigPath, ResolvedConfigPathError,
};
use crate::parse::pattern::Pattern;
use crate::parse::source::{position_is_unique, LineColumn, SourceFile, SourceMap, SourceSpan};
use crate::parse::types::{
    AccessRulesUri, BoolConfig, DefaultType, DhttpName, GzipCompLevel, GzipMinLength, HeaderRules,
    ListenConfig, MimeTypes, ProxyPass, ResolverConfig, SshLoginMethods, SshSslUsers, StringList,
    StunServerConfigValue,
};
use crate::path::{joined, path_view, UnixPath};

verus! {

/// A value that can be copied.
pub trait Duplicate: Sized {
    /// What a copy has in common with the value.
    type Shown;

    /// What a copy has in common with the value.
    spec fn shown(&self) -> Self::Shown;

    fn duplicate(&self) -> (copy: Self)
        ensures
            copy.shown() == self.shown(),
    ;
}

impl Duplicate for BoolConfig {
    type Shown = bool;

    open spec fn shown(&self) -> bool {
        self.0
    }

    fn duplicate(&self) -> (copy: Self) {
        *self
    }
}

impl Duplicate for GzipMinLength {
    type Shown = u64;

    open spec fn shown(&self) -> u64 {
        self.0
    }

    fn duplicate(&self) -> (copy: Self) {
        *self
    }
}

impl Duplicate for GzipCompLevel {
    type Shown = i32;

    open spec fn shown(&self) -> i32 {
        self.0
    }

    fn duplicate(&self) -> (copy: Self) {
        *self
    }
}

impl Duplicate for StringList {
    type Shown = Seq<String>;

    open spec fn shown(&self) -> Seq<String> {
        self@
    }

    fn duplicate(&self) -> (copy: Self) {
        self.clone()
    }
}

impl Duplicate for AccessRulesUri {
    type Shown = UrlView;

    open spec fn shown(&self) -> UrlView {
        self@
    }

    fn duplicate(&self) -> (copy: Self) {
        self.clone()
    }
}

impl Duplicate for DefaultType {
    type Shown = Seq<u8>;

    open spec fn shown(&self) -> Seq<u8> {
        self@
    }

    fn duplicate(&self) -> (copy: Self) {
        self.clone()
    }
}

impl Duplicate for MimeTypes {
    type Shown = Map<Seq<char>, Seq<u8>>;

    open spec fn shown(&self) -> Map<Seq<char>, Seq<u8>> {
        self@
    }

    fn duplicate(&self) -> (copy: Self) {
        self.clone()
    }
}

impl<T: Duplicate> Duplicate for Option<T> {
    type Shown = Option<T::Shown>;

    open spec fn shown(&self) -> Option<T::Shown> {
        match *self {
            Some(value) => Some(value.shown()),
            None => None,
        }
    }

    fn duplicate(&self) -> (copy: Self) {
        match self {
            Some(value) => Some(value.duplicate()),
            None => None,
        }
    }
}

/// The level of configuration that a value was set at.
#[derive(Debug, Clone, Copy, PartialEq, Eq, Structural)]
pub enum OriginScope {
    Builtin,
    RootPishoo,
    WorkerPishoo,
    Server,
    Location,
}

/// Where a value was set.
#[derive(Debug, PartialEq, Eq)]
pub struct ConfigOrigin {
    pub scope: OriginScope,
    pub path: Option<UnixPath>,
    pub line: Option<u32>,
    pub column: Option<u32>,
}

/// Where a value was set, with the path as bytes.
pub struct OriginView {
    pub scope: OriginScope,
    pub path: Option<Seq<u8>>,
    pub line: Option<u32>,
    pub column: Option<u32>,
}

impl View for ConfigOrigin {
    type V = OriginView;

    open spec fn view(&self) -> OriginView {
        OriginView {
            scope: self.scope,
            path: path_view(self.path),
            line: self.line,
            column: self.column,
        }
    }
}

/// A number, where it fits in 32 bits.
pub open spec fn fitting(n: usize) -> Option<u32> {
    if n <= u32::MAX {
        Some(n as u32)
    } else {
        None
    }
}

fn fit(n: usize) -> (small: Option<u32>)
    ensures
        small == fitting(n),
{
    if n <= 0xffff_ffff {
        Some(n as u32)
    } else {
        None
    }
}

/// The position of a byte in a source.
pub open spec fn position_in(file: SourceFile, at: usize) -> LineColumn {
    choose|position: LineColumn| file.is_position(at, position)
}

/// The origin of a value that is built in.
pub open spec fn builtin_origin() -> OriginView {
    OriginView { scope: OriginScope::Builtin, path: None, line: None, column: None }
}

/// The origin of a value that the source text at `span` sets.
pub open spec fn source_origin(scope: OriginScope, sources: SourceMap, span: SourceSpan) -> OriginView {
    match sources.source(span.source_id) {
        Some(file) => OriginView {
            scope,
            path: path_view(file.path),
            line: fitting(position_in(file, span.start).line),
            column: fitting(position_in(file, span.start).column),
        },
        None => OriginView { scope, path: None, line: None, column: None },
    }
}

impl ConfigOrigin {
    /// The origin of a value that is built in.
    pub fn builtin() -> (origin: Self)
        ensures
            origin@ == builtin_origin(),
    {
        ConfigOrigin { scope: OriginScope::Builtin, path: None, line: None, column: None }
    }

    /// The origin of a value that the source text at `span` sets.
    pub fn source(scope: OriginScope, sources: &SourceMap, span: SourceSpan) -> (origin: Self)
        requires
            sources.wf(),
        ensures
            origin@ == source_origin(scope, *sources, span),
    {
        let path = match sources.path_for_span(span) {
            Some(path) => Some(path.clone()),
            None => None,
        };
        match sources.line_column(span) {
            Some(position) => {
                proof {
                    let file = sources.source(span.source_id)->0;
                    assert(sources@[span.source_id.0 as int].wf());
                    position_is_unique(file, span.start, position, position_in(file, span.start));
                }
                ConfigOrigin { scope, path, line: fit(position.line), column: fit(position.column) }
            },
            None => ConfigOrigin { scope, path, line: None, column: None },
        }
    }

    pub fn scope(&self) -> (scope: OriginScope)
        ensures
            scope == self.scope,
    {
        self.scope
    }

    pub fn path(&self) -> (path: Option<&UnixPath>)
        ensures
            match path {
                Some(path) => self.path == Some(*path),
                None => self.path is None,
            },
    {
        self.path.as_ref()
    }

    pub fn line(&self) -> (line: Option<u32>)
        ensures
            line == self.line,
    {
        self.line
    }

    pub fn column(&self) -> (column: Option<u32>)
        ensures
            column == self.column,
    {
        self.column
    }
}

impl Clone for ConfigOrigin {
    fn clone(&self) -> (copy: Self)
        ensures
            copy@ == self@,
    {
        let path = match &self.path {
            Some(path) => Some(path.clone()),
            None => None,
        };
        ConfigOrigin { scope: self.scope, path, line: self.line, column: self.column }
    }
}

/// The origins of a list, with the paths as bytes.
pub open spec fn origin_views(list: Seq<ConfigOrigin>) -> Seq<OriginView> {
    list.map_values(|origin: ConfigOrigin| origin@)
}

/// Copies a list of origins.
pub fn clone_origins(list: &Vec<ConfigOrigin>) -> (copy: Vec<ConfigOrigin>)
    ensures
        origin_views(copy@) == origin_views(list@),
{
    let mut copy: Vec<ConfigOrigin> = Vec::new();
    let mut i: usize = 0;
    while i < list.len()
        invariant
            i <= list@.len(),
            copy@.len() == i,
            forall|k: int| 0 <= k < i ==> (#[trigger] copy@[k])@ == list@[k]@,
        decreases list@.len() - i,
    {
        copy.push(list[i].clone());
        i += 1;
    }
    assert(origin_views(copy@) =~= origin_views(list@));
    copy
}

/// A value that levels of configuration pass on to each other, with the origins of all that was
/// set on the way, the outermost first.
#[derive(Debug, PartialEq, Eq)]
pub struct Cascaded<T> {
    pub effective: T,
    pub lineage: Vec<ConfigOrigin>,
}

/// A cascaded value, as plain contents.
pub struct CascadedView<V> {
    pub effective: V,
    pub lineage: Seq<OriginView>,
}

impl<T> Cascaded<T> {
    pub fn new(effective: T, lineage: Vec<ConfigOrigin>) -> (cascaded: Self)
        ensures
            cascaded == (Cascaded { effective, lineage }),
    {
        Cascaded { effective, lineage }
    }

    pub fn effective(&self) -> (effective: &T)
        ensures
            *effective == self.effective,
    {
        &self.effective
    }

    pub fn lineage(&self) -> (lineage: &[ConfigOrigin])
        ensures
            lineage@ == self.lineage@,
    {
        self.lineage.as_slice()
    }
}

impl<T: Duplicate> View for Cascaded<T> {
    type V = CascadedView<T::Shown>;

    open spec fn view(&self) -> CascadedView<T::Shown> {
        CascadedView { effective: self.effective.shown(), lineage: origin_views(self.lineage@) }
    }
}

impl<T: Duplicate> Clone for Cascaded<T> {
    fn clone(&self) -> (copy: Self)
        ensures
            copy@ == self@,
    {
        Cascaded {
            effective: self.effective.duplicate(),
            lineage: clone_origins(&self.lineage),
        }
    }
}

/// Where accesses are logged.
#[derive(Debug, PartialEq, Eq)]
pub enum AccessLogDirective {
    Off,
    ProfileDefault,
    Resolved(ResolvedConfigPath),
}

/// Where accesses are logged, with the path as bytes.
pub enum AccessLogView {
    Off,
    ProfileDefault,
    Resolved(Seq<u8>),
}

impl View for AccessLogDirective {
    type V = AccessLogView;

    open spec fn view(&self) -> AccessLogView {
        match *self {
            AccessLogDirective::Off => AccessLogView::Off,
            AccessLogDirective::ProfileDefault => AccessLogView::ProfileDefault,
            AccessLogDirective::Resolved(path) => AccessLogView::Resolved(path@),
        }
    }
}

impl Clone for AccessLogDirective {
    fn clone(&self) -> (copy: Self)
        ensures
            copy@ == self@,
    {
        match self {
            AccessLogDirective::Off => AccessLogDirective::Off,
            AccessLogDirective::ProfileDefault => AccessLogDirective::ProfileDefault,
            AccessLogDirective::Resolved(path) => AccessLogDirective::Resolved(path.clone()),
        }
    }
}

impl Duplicate for AccessLogDirective {
    type Shown = AccessLogView;

    open spec fn shown(&self) -> AccessLogView {
        self@
    }

    fn duplicate(&self) -> (copy: Self) {
        self.clone()
    }
}

/// Where the accesses to one server are logged.
#[derive(Debug, Clone, PartialEq, Eq)]
pub enum ResolvedAccessLogConfig {
    Disabled,
    Enabled(ResolvedConfigPath),
}

/// Why it cannot be said where accesses are logged.
#[derive(Debug)]
pub enum MaterializeAccessLogError {
    DirectProfileDefault,
    InvalidProfilePath { source: ResolvedConfigPathError },
}

impl MaterializeAccessLogError {
    /// The message of this error.
    pub open spec fn text(self) -> Seq<char> {
        match self {
            MaterializeAccessLogError::DirectProfileDefault =>
                "direct server cannot use the identity-profile access log default"@,
            MaterializeAccessLogError::InvalidProfilePath {
                ..
            } => "identity-profile access log path is invalid"@,
        }
    }

    /// The message of this error.
    pub fn message(&self) -> (text: String)
        ensures
            text@ == self.text(),
    {
        match self {
            MaterializeAccessLogError::DirectProfileDefault =>
                "direct server cannot use the identity-profile access log default".to_owned(),
            MaterializeAccessLogError::InvalidProfilePath {
                ..
            } => "identity-profile access log path is invalid".to_owned(),
        }
    }
}

/// What a server is known by: a certificate of its own, or the profile of an identity.
#[derive(Debug, Clone)]
pub enum ServerIdentity {
    Direct { certificate: ResolvedConfigPath, private_key: ResolvedConfigPath },
    Profile(IdentityProfile),
}

/// What naming the access log of a server gives.
pub open spec fn is_materialized(
    log: AccessLogView,
    identity: ServerIdentity,
    result: Result<ResolvedAccessLogConfig, MaterializeAccessLogError>,
) -> bool {
    match log {
        AccessLogView::Off => result matches Ok(ResolvedAccessLogConfig::Disabled),
        AccessLogView::Resolved(path) => result matches Ok(ResolvedAccessLogConfig::Enabled(named))
            && named@ == path,
        AccessLogView::ProfileDefault => match identity {
            ServerIdentity::Direct { .. } => result matches Err(
                MaterializeAccessLogError::DirectProfileDefault,
            ),
            ServerIdentity::Profile(profile) => if is_resolved(profile.access_log()) {
                result matches Ok(ResolvedAccessLogConfig::Enabled(named)) && named@
                    == profile.access_log()
            } else {
                result matches Err(MaterializeAccessLogError::InvalidProfilePath { source })
                    && is_path_fault(profile.access_log(), source)
            },
        },
    }
}

impl AccessLogDirective {
    pub fn resolved_path(&self) -> (path: Option<&UnixPath>)
        ensures
            match path {
                Some(path) => self@ == AccessLogView::Resolved(path@) && is_resolved(path@),
                None => !(self@ is Resolved),
            },
    {
        match self {
            AccessLogDirective::Resolved(path) => Some(path.as_path()),
            _ => None,
        }
    }

    /// Where the accesses to the server with the given identity are logged.
    pub fn materialize(&self, identity: &ServerIdentity) -> (result: Result<
        ResolvedAccessLogConfig,
        MaterializeAccessLogError,
    >)
        ensures
            is_materialized(self@, *identity, result),
    {
        match self {
            AccessLogDirective::Off => Ok(ResolvedAccessLogConfig::Disabled),
            AccessLogDirective::Resolved(path) => Ok(
                ResolvedAccessLogConfig::Enabled(path.clone()),
            ),
            AccessLogDirective::ProfileDefault => match identity {
                ServerIdentity::Direct { .. } => Err(
                    MaterializeAccessLogError::DirectProfileDefault,
                ),
                ServerIdentity::Profile(profile) => match ResolvedConfigPath::try_from(
                    profile.access_log_path(),
                ) {
                    Ok(path) => Ok(ResolvedAccessLogConfig::Enabled(path)),
                    Err(source) => Err(MaterializeAccessLogError::InvalidProfilePath { source }),
                },
            },
        }
    }
}

/// The HTTP settings that are in force at some level.
#[derive(Debug, PartialEq, Eq)]
pub struct EffectiveHttpConfig {
    pub access_rules: Cascaded<Option<AccessRulesUri>>,
    pub gzip: Cascaded<BoolConfig>,
    pub gzip_vary: Cascaded<BoolConfig>,
    pub gzip_min_length: Cascaded<GzipMinLength>,
    pub gzip_comp_level: Cascaded<GzipCompLevel>,
    pub gzip_types: Cascaded<StringList>,
    pub default_type: Cascaded<Option<DefaultType>>,
    pub types: Cascaded<Option<MimeTypes>>,
    pub access_log: Cascaded<AccessLogDirective>,
}

/// The HTTP settings that are in force at some level, as plain contents.
pub struct HttpView {
    pub access_rules: CascadedView<Option<UrlView>>,
    pub gzip: CascadedView<bool>,
    pub gzip_vary: CascadedView<bool>,
    pub gzip_min_length: CascadedView<u64>,
    pub gzip_comp_level: CascadedView<i32>,
    pub gzip_types: CascadedView<Seq<String>>,
    pub default_type: CascadedView<Option<Seq<u8>>>,
    pub types: CascadedView<Option<Map<Seq<char>, Seq<u8>>>>,
    pub access_log: CascadedView<AccessLogView>,
}

impl View for EffectiveHttpConfig {
    type V = HttpView;

    open spec fn view(&self) -> HttpView {
        HttpView {
            access_rules: self.access_rules@,
            gzip: self.gzip@,
            gzip_vary: self.gzip_vary@,
            gzip_min_length: self.gzip_min_length@,
            gzip_comp_level: self.gzip_comp_level@,
            gzip_types: self.gzip_types@,
            default_type: self.default_type@,
            types: self.types@,
            access_log: self.access_log@,
        }
    }
}

impl Clone for EffectiveHttpConfig {
    fn clone(&self) -> (copy: Self)
        ensures
            copy@ == self@,
    {
        EffectiveHttpConfig {
            access_rules: self.access_rules.clone(),
            gzip: self.gzip.clone(),
            gzip_vary: self.gzip_vary.clone(),
            gzip_min_length: self.gzip_min_length.clone(),
            gzip_comp_level: self.gzip_comp_level.clone(),
            gzip_types: self.gzip_types.clone(),
            default_type: self.default_type.clone(),
            types: self.types.clone(),
            access_log: self.access_log.clone(),
        }
    }
}

impl EffectiveHttpConfig {
    pub fn access_rules(&self) -> (value: &Cascaded<Option<AccessRulesUri>>)
        ensures
            *value == self.access_rules,
    {
        &self.access_rules
    }

    pub fn gzip(&self) -> (value: &Cascaded<BoolConfig>)
        ensures
            *value == self.gzip,
    {
        &self.gzip
    }

    pub fn gzip_vary(&self) -> (value: &Cascaded<BoolConfig>)
        ensures
            *value == self.gzip_vary,
    {
        &self.gzip_vary
    }

    pub fn gzip_min_length(&self) -> (value: &Cascaded<GzipMinLength>)
        ensures
            *value == self.gzip_min_length,
    {
        &self.gzip_min_length
    }

    pub fn gzip_comp_level(&self) -> (value: &Cascaded<GzipCompLevel>)
        ensures
            *value == self.gzip_comp_level,
    {
        &self.gzip_comp_level
    }

    pub fn gzip_types(&self) -> (value: &Cascaded<StringList>)
        ensures
            *value == self.gzip_types,
    {
        &self.gzip_types
    }

    pub fn default_type(&self) -> (value: &Cascaded<Option<DefaultType>>)
        ensures
            *value == self.default_type,
    {
        &self.default_type
    }

    pub fn types(&self) -> (value: &Cascaded<Option<MimeTypes>>)
        ensures
            *value == self.types,
    {
        &self.types
    }

    pub fn access_log(&self) -> (value: &Cascaded<AccessLogDirective>)
        ensures
            *value == self.access_log,
    {
        &self.access_log
    }

    /// The same settings with another access log.
    pub fn with_access_log(self, access_log: Cascaded<AccessLogDirective>) -> (http: Self)
        ensures
            http@ == (HttpView { access_log: access_log@, ..self@ }),
    {
        EffectiveHttpConfig { access_log, ..self }
    }
}

/// A forward proxy.
#[derive(Debug, Clone, PartialEq, Eq)]
pub struct ForwardConfig {
    pub listen: SocketAddr,
    pub allow: Vec<String>,
    pub deny: Vec<String>,
}

/// What a `pishoo` block says.
#[derive(Debug, Clone)]
pub struct PishooConfig {
    pub source: ConfigSourceSpan,
    pub pid: Option<ResolvedConfigPath>,
    pub workers: Option<StringList>,
    pub groups: Option<StringList>,
    pub http: EffectiveHttpConfig,
    pub forward_proxies: Vec<ForwardConfig>,
}

impl PishooConfig {
    pub fn source(&self) -> (span: ConfigSourceSpan)
        ensures
            span == self.source,
    {
        self.source
    }

    pub fn pid(&self) -> (value: Option<&ResolvedConfigPath>)
        ensures
            match value {
                Some(value) => self.pid == Some(*value),
                None => self.pid is None,
            },
    {
        self.pid.as_ref()
    }

    pub fn workers(&self) -> (value: Option<&StringList>)
        ensures
            match value {
                Some(value) => self.workers == Some(*value),
                None => self.workers is None,
            },
    {
        self.workers.as_ref()
    }

    pub fn groups(&self) -> (value: Option<&StringList>)
        ensures
            match value {
                Some(value) => self.groups == Some(*value),
                None => self.groups is None,
            },
    {
        self.groups.as_ref()
    }

    pub fn http(&self) -> (value: &EffectiveHttpConfig)
        ensures
            *value == self.http,
    {
        &self.http
    }

    pub fn forward_proxies(&self) -> (list: &[ForwardConfig])
        ensures
            list@ == self.forward_proxies@,
    {
        self.forward_proxies.as_slice()
    }

    /// The settings that workers start from.
    pub fn worker_defaults(&self) -> (snapshot: RootWorkerDefaultsSnapshot)
        ensures
            snapshot.http@ == self.http@,
    {
        RootWorkerDefaultsSnapshot::from_http(self.http.clone())
    }
}

/// The settings of the root that workers start from.
#[derive(Debug, Clone, PartialEq, Eq)]
pub struct RootWorkerDefaultsSnapshot {
    pub http: EffectiveHttpConfig,
}

impl RootWorkerDefaultsSnapshot {
    pub fn from_http(http: EffectiveHttpConfig) -> (snapshot: Self)
        ensures
            snapshot.http == http,
    {
        RootWorkerDefaultsSnapshot { http }
    }

    pub fn http(&self) -> (http: &EffectiveHttpConfig)
        ensures
            *http == self.http,
    {
        &self.http
    }
}

/// What a `server` block says.
#[derive(Debug, Clone)]
pub struct ServerConfig {
    pub identity: ServerIdentity,
    pub source: ConfigSourceSpan,
    pub names: Vec<DhttpName>,
    pub listens: Vec<ListenConfig>,
    pub resolver: Option<ResolverConfig>,
    pub http: EffectiveHttpConfig,
    pub relay: Option<BoolConfig>,
    pub stun: Option<BoolConfig>,
    pub stun_servers: Vec<StunServerConfigValue>,
    pub locations: Vec<LocationConfig>,
}

impl ServerConfig {
    pub fn identity(&self) -> (value: &ServerIdentity)
        ensures
            *value == self.identity,
    {
        &self.identity
    }

    pub fn source(&self) -> (span: ConfigSourceSpan)
        ensures
            span == self.source,
    {
        self.source
    }

    pub fn names(&self) -> (list: &[DhttpName])
        ensures
            list@ == self.names@,
    {
        self.names.as_slice()
    }

    pub fn listens(&self) -> (list: &[ListenConfig])
        ensures
            list@ == self.listens@,
    {
        self.listens.as_slice()
    }

    pub fn resolver(&self) -> (value: Option<&ResolverConfig>)
        ensures
            match value {
                Some(value) => self.resolver == Some(*value),
                None => self.resolver is None,
            },
    {
        self.resolver.as_ref()
    }

    pub fn http(&self) -> (value: &EffectiveHttpConfig)
        ensures
            *value == self.http,
    {
        &self.http
    }

    pub fn relay(&self) -> (value: Option<&BoolConfig>)
        ensures
            match value {
                Some(value) => self.relay == Some(*value),
                None => self.relay is None,
            },
    {
        self.relay.as_ref()
    }

    pub fn stun(&self) -> (value: Option<&BoolConfig>)
        ensures
            match value {
                Some(value) => self.stun == Some(*value),
                None => self.stun is None,
            },
    {
        self.stun.as_ref()
    }

    pub fn stun_servers(&self) -> (list: &[StunServerConfigValue])
        ensures
            list@ == self.stun_servers@,
    {
        self.stun_servers.as_slice()
    }

    pub fn locations(&self) -> (list: &[LocationConfig])
        ensures
            list@ == self.locations@,
    {
        self.locations.as_slice()
    }
}

/// The files that a location uses for TLS to what it passes requests on to.
#[derive(Debug, Clone)]
pub struct PreparedProxyTlsPaths {
    pub certificate: Option<ResolvedConfigPath>,
    pub private_key: Option<ResolvedConfigPath>,
    pub trusted_certificate: Option<ResolvedConfigPath>,
}

impl PreparedProxyTlsPaths {
    pub fn certificate(&self) -> (value: Option<&ResolvedConfigPath>)
        ensures
            match value {
                Some(value) => self.certificate == Some(*value),
                None => self.certificate is None,
            },
    {
        self.certificate.as_ref()
    }

    pub fn private_key(&self) -> (value: Option<&ResolvedConfigPath>)
        ensures
            match value {
                Some(value) => self.private_key == Some(*value),
                None => self.private_key is None,
            },
    {
        self.private_key.as_ref()
    }

    pub fn trusted_certificate(&self) -> (value: Option<&ResolvedConfigPath>)
        ensures
            match value {
                Some(value) => self.trusted_certificate == Some(*value),
                None => self.trusted_certificate is None,
            },
    {
        self.trusted_certificate.as_ref()
    }
}

/// What a `location` block says.
#[derive(Debug, Clone)]
pub struct LocationConfig {
    pub source: ConfigSourceSpan,
    pub matcher: Pattern,
    pub http: EffectiveHttpConfig,
    pub root: Option<ResolvedConfigPath>,
    pub alias: Option<ResolvedConfigPath>,
    pub index: Option<StringList>,
    pub add_headers: Vec<HeaderRules>,
    pub proxy_set_headers: Vec<HeaderRules>,
    pub proxy_pass: Option<ProxyPass>,
    pub proxy_tls: Option<PreparedProxyTlsPaths>,
    pub ssh_login: Option<SshLoginMethods>,
    pub ssh_users: Vec<SshSslUsers>,
    pub ssh_deny: Option<StringList>,
}

impl LocationConfig {
    pub fn source(&self) -> (span: ConfigSourceSpan)
        ensures
            span == self.source,
    {
        self.source
    }

    pub fn matcher(&self) -> (value: &Pattern)
        ensures
            *value == self.matcher,
    {
        &self.matcher
    }

    pub fn http(&self) -> (value: &EffectiveHttpConfig)
        ensures
            *value == self.http,
    {
        &self.http
    }

    pub fn root(&self) -> (value: Option<&ResolvedConfigPath>)
        ensures
            match value {
                Some(value) => self.root == Some(*value),
                None => self.root is None,
            },
    {
        self.root.as_ref()
    }

    pub fn alias(&self) -> (value: Option<&ResolvedConfigPath>)
        ensures
            match value {
                Some(value) => self.alias == Some(*value),
                None => self.alias is None,
            },
    {
        self.alias.as_ref()
    }

    pub fn index(&self) -> (value: Option<&StringList>)
        ensures
            match value {
                Some(value) => self.index == Some(*value),
                None => self.index is None,
            },
    {
        self.index.as_ref()
    }

    pub fn add_headers(&self) -> (list: &[HeaderRules])
        ensures
            list@ == self.add_headers@,
    {
        self.add_headers.as_slice()
    }

    pub fn proxy_set_headers(&self) -> (list: &[HeaderRules])
        ensures
            list@ == self.proxy_set_headers@,
    {
        self.proxy_set_headers.as_slice()
    }

    pub fn proxy_pass(&self) -> (value: Option<&ProxyPass>)
        ensures
            match value {
                Some(value) => self.proxy_pass == Some(*value),
                None => self.proxy_pass is None,
            },
    {
        self.proxy_pass.as_ref()
    }

    pub fn proxy_tls(&self) -> (value: Option<&PreparedProxyTlsPaths>)
        ensures
            match value {
                Some(value) => self.proxy_tls == Some(*value),
                None => self.proxy_tls is None,
            },
    {
        self.proxy_tls.as_ref()
    }

    pub fn ssh_login(&self) -> (value: Option<&SshLoginMethods>)
        ensures
            match value {
                Some(value) => self.ssh_login == Some(*value),
                None => self.ssh_login is None,
            },
    {
        self.ssh_login.as_ref()
    }

    pub fn ssh_users(&self) -> (list: &[SshSslUsers])
        ensures
            list@ == self.ssh_users@,
    {
        self.ssh_users.as_slice()
    }

    pub fn ssh_deny(&self) -> (value: Option<&StringList>)
        ensures
            match value {
                Some(value) => self.ssh_deny == Some(*value),
                None => self.ssh_deny is None,
            },
    {
        self.ssh_deny.as_ref()
    }
}

/// The accesses to a server are logged where its configuration says: nowhere, at the place that it
/// names, or in the file `logs/access.log` of its identity. Only a server without an identity has no
/// such file.
pub proof fn accesses_are_logged_where_it_says(
    log: AccessLogView,
    identity: ServerIdentity,
    result: Result<ResolvedAccessLogConfig, MaterializeAccessLogError>,
)
    requires
        is_materialized(log, identity, result),
    ensures
        result matches Ok(ResolvedAccessLogConfig::Disabled) <==> log is Off,
        log matches AccessLogView::Resolved(path) ==> (result matches Ok(
            ResolvedAccessLogConfig::Enabled(file),
        ) && file@ == path),
        log is ProfileDefault && identity is Direct ==> result is Err,
        log is ProfileDefault ==> (identity matches ServerIdentity::Profile(profile) ==> {
            let file = joined(
                joined(profile.path@, encode_utf8(seq!['l', 'o', 'g', 's'])),
                encode_utf8(seq!['a', 'c', 'c', 'e', 's', 's', '.', 'l', 'o', 'g']),
            );
            match result {
                Ok(ResolvedAccessLogConfig::Enabled(named)) => named@ == file,
                Ok(_) => false,
                Err(_) => file.len() == 0 || file[0] != 47 || file.contains(0u8),
            }
        }),
{
    reveal_strlit("logs");
    reveal_strlit("access.log");
    assert("logs"@ =~= seq!['l', 'o', 'g', 's']);
    assert("access.log"@ =~= seq!['a', 'c', 'c', 'e', 's', 's', '.', 'l', 'o', 'g']);
}

/// An origin names the file and the position of what was set, at the level that it was set at; a
/// number that does not fit in 32 bits is left out.
pub proof fn origins_name_the_place(
    scope: OriginScope,
    sources: SourceMap,
    span: SourceSpan,
    file: SourceFile,
    position: LineColumn,
)
    requires
        sources.source(span.source_id) == Some(file),
        file.wf(),
        file.is_position(span.start, position),
    ensures
        ({
            let origin = source_origin(scope, sources, span);
            &&& origin.scope == scope
            &&& match file.path {
                Some(path) => origin.path == Some(path@),
                None => origin.path is None,
            }
            &&& position.line <= 4294967295 ==> origin.line == Some(position.line as u32)
            &&& position.line > 4294967295 ==> origin.line is None
            &&& position.column <= 4294967295 ==> origin.column == Some(position.column as u32)
            &&& position.column > 4294967295 ==> origin.column is None
        }),
{
    position_is_unique(file, span.start, position, position_in(file, span.start));
}

} // verus!
