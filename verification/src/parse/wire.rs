//! The settings that workers start from, in the form in which they are handed over.
use vstd::prelude::*;

use crate::home::DhttpHome;
use crate::outside::{is_header_value, is_url_fault, parse_url, text_view, url_of, UrlView};
use crate::parse::ast::AstDirective;
use crate::parse::block::{field_of, with_field, Block, Field};
use crate::parse::builder::{builds_pishoo, lemma_with_field_member, ParsedPishooConfig};
use crate::parse::builtin::access::InvalidUrl;
use crate::parse::builtin::http::block_entries;
use crate::parse::config::{
    clone_origins, origin_views, AccessLogDirective, AccessLogView, Cascaded, ConfigOrigin,
    EffectiveHttpConfig, HttpView, OriginScope, RootWorkerDefaultsSnapshot,
};
use crate::parse::domain::{
    is_path_fault, is_resolved, ResolvedConfigPath, ResolvedConfigPathError,
};
use crate::parse::overlay::{builtin_http_view, is_local_http, overlay, LocalHttp};
use crate::parse::source::{ConfigDocumentSourceMap, SourceMap};
use crate::parse::types::{
    distinct_extensions, has_empty, is_access_rules, is_refused, lemma_mime_table,
    mime_check_goes_one_way, mime_checked, mime_entries, mime_entry_ok, mime_table, raw_entries,
    url_path_bytes, AccessRulesUri, AccessRulesUriValidationError, BoolConfig, DefaultType, GzipCompLevel,
    GzipMinLength, GzipTypesValidationError, InvalidHeaderValue, MimeTypes,
    MimeTypesValidationError, StringList,
};
use crate::path::UnixPath;
use crate::text::{bytes_to_vec, clone_strings};

verus! {

/// A value with its origins.
#[derive(Debug)]
pub struct CascadedWire<W> {
    pub effective: W,
    pub lineage: Vec<ConfigOrigin>,
}

/// Where accesses are logged.
#[derive(Debug)]
pub enum AccessLogWire {
    Off,
    ProfileDefault,
    Resolved(UnixPath),
}

/// The settings that workers start from.
#[derive(Debug)]
pub struct RootWorkerDefaultsWire {
    pub access_rules: CascadedWire<Option<String>>,
    pub gzip: CascadedWire<bool>,
    pub gzip_vary: CascadedWire<bool>,
    pub gzip_min_length: CascadedWire<u64>,
    pub gzip_comp_level: CascadedWire<i32>,
    pub gzip_types: CascadedWire<Vec<String>>,
    pub default_type: CascadedWire<Option<Vec<u8>>>,
    pub types: CascadedWire<Option<Vec<(String, Vec<u8>)>>>,
    pub access_log: CascadedWire<AccessLogWire>,
}

/// Why settings that were handed over cannot be used.
#[derive(Debug)]
#[allow(inconsistent_fields)]
pub enum RootWorkerDefaultsWireError {
    Url { source: InvalidUrl },
    AccessRules { source: AccessRulesUriValidationError },
    GzipTypes { source: GzipTypesValidationError },
    DefaultType { source: InvalidHeaderValue },
    Types { source: MimeTypesValidationError },
    AccessLog { source: ResolvedConfigPathError },
}

impl RootWorkerDefaultsWireError {
    /// The message of this error.
    pub open spec fn text(self) -> Seq<char> {
        match self {
            RootWorkerDefaultsWireError::Url { source } => source.text(),
            RootWorkerDefaultsWireError::AccessRules { source } => source.text(),
            RootWorkerDefaultsWireError::GzipTypes { source } => source.text(),
            RootWorkerDefaultsWireError::DefaultType { source } => source.text(),
            RootWorkerDefaultsWireError::Types { source } => source.text(),
            RootWorkerDefaultsWireError::AccessLog { source } => source.text(),
        }
    }

    /// The message of this error.
    pub fn message(&self) -> (text: String)
        ensures
            text@ == self.text(),
    {
        match self {
            RootWorkerDefaultsWireError::Url { source } => source.message(),
            RootWorkerDefaultsWireError::AccessRules { source } => source.message(),
            RootWorkerDefaultsWireError::GzipTypes { source } => source.message(),
            RootWorkerDefaultsWireError::DefaultType { source } => source.message(),
            RootWorkerDefaultsWireError::Types { source } => source.message(),
            RootWorkerDefaultsWireError::AccessLog { source } => source.message(),
        }
    }
}

/// Optional bytes.
pub open spec fn bytes_view(bytes: Option<Vec<u8>>) -> Option<Seq<u8>> {
    match bytes {
        Some(bytes) => Some(bytes@),
        None => None,
    }
}

/// The text of an optional URL.
pub open spec fn url_text(url: Option<UrlView>) -> Option<Seq<char>> {
    match url {
        Some(url) => Some(url.text),
        None => None,
    }
}

/// Whether a list of entries, each extension once, spells a table.
pub open spec fn lists_types(
    entries: Option<Vec<(String, Vec<u8>)>>,
    types: Option<Map<Seq<char>, Seq<u8>>>,
) -> bool {
    match types {
        Some(table) => entries matches Some(list) && distinct_extensions(raw_entries(list@))
            && mime_table(raw_entries(list@)) == table,
        None => entries is None,
    }
}

/// An access log as plain contents.
pub open spec fn log_view(log: AccessLogWire) -> AccessLogView {
    match log {
        AccessLogWire::Off => AccessLogView::Off,
        AccessLogWire::ProfileDefault => AccessLogView::ProfileDefault,
        AccessLogWire::Resolved(path) => AccessLogView::Resolved(path@),
    }
}

/// The origins of all settings are those that are handed over.
pub open spec fn same_lineages(wire: RootWorkerDefaultsWire, http: HttpView) -> bool {
    &&& origin_views(wire.access_rules.lineage@) == http.access_rules.lineage
    &&& origin_views(wire.gzip.lineage@) == http.gzip.lineage
    &&& origin_views(wire.gzip_vary.lineage@) == http.gzip_vary.lineage
    &&& origin_views(wire.gzip_min_length.lineage@) == http.gzip_min_length.lineage
    &&& origin_views(wire.gzip_comp_level.lineage@) == http.gzip_comp_level.lineage
    &&& origin_views(wire.gzip_types.lineage@) == http.gzip_types.lineage
    &&& origin_views(wire.default_type.lineage@) == http.default_type.lineage
    &&& origin_views(wire.types.lineage@) == http.types.lineage
    &&& origin_views(wire.access_log.lineage@) == http.access_log.lineage
}

/// The settings that need no check are those that are handed over.
pub open spec fn same_numbers(wire: RootWorkerDefaultsWire, http: HttpView) -> bool {
    &&& wire.gzip.effective == http.gzip.effective
    &&& wire.gzip_vary.effective == http.gzip_vary.effective
    &&& wire.gzip_min_length.effective == http.gzip_min_length.effective
    &&& wire.gzip_comp_level.effective == http.gzip_comp_level.effective
    &&& wire.gzip_types.effective@ == http.gzip_types.effective
    &&& bytes_view(wire.default_type.effective) == http.default_type.effective
    &&& log_view(wire.access_log.effective) == http.access_log.effective
}

/// How settings are handed over.
pub open spec fn encodes(http: HttpView, wire: RootWorkerDefaultsWire) -> bool {
    &&& same_lineages(wire, http)
    &&& same_numbers(wire, http)
    &&& text_view(wire.access_rules.effective) == url_text(http.access_rules.effective)
    &&& lists_types(wire.types.effective, http.types.effective)
}

/// Whether a text names an access rule database, or there is none.
pub open spec fn rules_ok(text: Option<Seq<char>>) -> bool {
    text matches Some(text) ==> url_of(text) matches Some(url) && is_access_rules(url)
}

/// Whether a list of entries forms a table, or there is none.
pub open spec fn types_ok(entries: Option<Vec<(String, Vec<u8>)>>) -> bool {
    entries matches Some(list) ==> forall|i: int|
        0 <= i < list@.len() ==> #[trigger] mime_entry_ok(raw_entries(list@), i)
}

/// Whether a log has a place that can be used.
pub open spec fn log_ok(log: AccessLogView) -> bool {
    log matches AccessLogView::Resolved(path) ==> is_resolved(path)
}

/// Whether all that is handed over can be used.
pub open spec fn can_decode(wire: RootWorkerDefaultsWire) -> bool {
    &&& rules_ok(text_view(wire.access_rules.effective))
    &&& !has_empty(wire.gzip_types.effective@)
    &&& bytes_view(wire.default_type.effective) matches Some(bytes) ==> is_header_value(bytes)
    &&& types_ok(wire.types.effective)
    &&& log_ok(log_view(wire.access_log.effective))
}

/// The first setting that cannot be used is reported.
pub open spec fn decode_error(
    wire: RootWorkerDefaultsWire,
    error: RootWorkerDefaultsWireError,
) -> bool {
    if !rules_ok(text_view(wire.access_rules.effective)) {
        match url_of(text_view(wire.access_rules.effective)->0) {
            None => error matches RootWorkerDefaultsWireError::Url { source } && is_url_fault(
                text_view(wire.access_rules.effective)->0,
                source.text(),
            ),
            Some(url) => error matches RootWorkerDefaultsWireError::AccessRules { source }
                && is_refused(url, source),
        }
    } else if has_empty(wire.gzip_types.effective@) {
        error is GzipTypes
    } else if bytes_view(wire.default_type.effective) matches Some(bytes) && !is_header_value(
        bytes,
    ) {
        error is DefaultType
    } else if !types_ok(wire.types.effective) {
        error matches RootWorkerDefaultsWireError::Types { source } && mime_checked(
            raw_entries((wire.types.effective->0)@),
            Err(source),
        )
    } else {
        error matches RootWorkerDefaultsWireError::AccessLog { source } && (match log_view(
            wire.access_log.effective,
        ) {
            AccessLogView::Resolved(path) => is_path_fault(path, source),
            _ => false,
        })
    }
}

/// The URL that an optional text spells.
pub open spec fn decoded_rules(text: Option<Seq<char>>) -> Option<UrlView> {
    match text {
        Some(text) => url_of(text),
        None => None,
    }
}

/// The table that an optional list of entries forms.
pub open spec fn decoded_types(entries: Option<Vec<(String, Vec<u8>)>>) -> Option<
    Map<Seq<char>, Seq<u8>>,
> {
    match entries {
        Some(list) => Some(mime_table(raw_entries(list@))),
        None => None,
    }
}

/// What comes of settings that are handed over.
pub open spec fn decodes(
    wire: RootWorkerDefaultsWire,
    result: Result<HttpView, RootWorkerDefaultsWireError>,
) -> bool {
    match result {
        Ok(http) => {
            &&& can_decode(wire)
            &&& same_lineages(wire, http)
            &&& same_numbers(wire, http)
            &&& http.access_rules.effective == decoded_rules(
                text_view(wire.access_rules.effective),
            )
            &&& http.types.effective == decoded_types(wire.types.effective)
        },
        Err(error) => !can_decode(wire) && decode_error(wire, error),
    }
}

/// Whether all values of a table are header values.
pub open spec fn holds_header_values(table: Map<Seq<char>, Seq<u8>>) -> bool {
    forall|key: Seq<char>| #[trigger] table.contains_key(key) ==> is_header_value(table[key])
}

/// What the types of the settings always give: default types and MIME types are header values, and
/// the log has a place that can be used.
pub open spec fn keeps_types(http: HttpView) -> bool {
    &&& http.default_type.effective matches Some(bytes) ==> is_header_value(bytes)
    &&& http.types.effective matches Some(table) ==> holds_header_values(table)
    &&& log_ok(http.access_log.effective)
}

/// Whether the texts of settings can be told from none: the URL reads back from its text, and no MIME
/// token and no extension is empty.
pub open spec fn has_sound_texts(http: HttpView) -> bool {
    &&& http.access_rules.effective matches Some(url) ==> url_of(url.text) == Some(url)
    &&& !has_empty(http.gzip_types.effective)
    &&& http.types.effective matches Some(table) ==> !table.contains_key(Seq::empty())
}

/// Whether settings can be handed over: their texts are sound, the access rules are those of a
/// database, and all values keep what their types ask for.
pub open spec fn can_transport(http: HttpView) -> bool {
    &&& has_sound_texts(http)
    &&& http.access_rules.effective matches Some(url) ==> is_access_rules(url)
    &&& keeps_types(http)
}

/// Settings that are handed over arrive as they were.
pub proof fn defaults_read_back(
    http: HttpView,
    wire: RootWorkerDefaultsWire,
    result: Result<HttpView, RootWorkerDefaultsWireError>,
)
    requires
        can_transport(http),
        encodes(http, wire),
        decodes(wire, result),
    ensures
        result == Ok::<HttpView, RootWorkerDefaultsWireError>(http),
{
    match http.types.effective {
        Some(table) => {
            let entries = raw_entries((wire.types.effective->0)@);
            lemma_mime_table(entries);
            assert forall|i: int| 0 <= i < entries.len() implies #[trigger] mime_entry_ok(
                entries,
                i,
            ) by {
                assert(table.contains_key(entries[i].0));
                if entries[i].0.len() == 0 {
                    assert(entries[i].0 =~= Seq::empty());
                }
                assert forall|k: int| 0 <= k < i implies (#[trigger] entries[k]).0
                    != entries[i].0 by {}
            }
        },
        None => {},
    }
    assert(can_decode(wire));
    let read = result->Ok_0;
    assert(read.access_rules == http.access_rules);
    assert(read.types == http.types);
    assert(read.access_log == http.access_log);
    assert(read.gzip_types == http.gzip_types);
    assert(read.default_type == http.default_type);
    assert(read.gzip == http.gzip);
    assert(read.gzip_vary == http.gzip_vary);
    assert(read.gzip_min_length == http.gzip_min_length);
    assert(read.gzip_comp_level == http.gzip_comp_level);
}

/// The settings that directives make can be handed over, once their URL reads back from its text.
proof fn lemma_read_settings(
    block: Block,
    children: Seq<AstDirective>,
    sources: SourceMap,
    local: LocalHttp,
    http: HttpView,
    scope: OriginScope,
)
    requires
        is_local_http(block, children, sources, local),
        http == overlay(builtin_http_view(), local@, scope, sources),
        http.access_rules.effective matches Some(url) ==> url_of(url.text) == Some(url),
    ensures
        can_transport(http),
{
    if let Some(assignment) = local.access_rules {
        assert(is_access_rules(assignment.value@));
    }
    if let Some(assignment) = local.gzip_types {
        let list = with_field(block, children, Field::GzipTypes);
        lemma_with_field_member(block, children, Field::GzipTypes, 0);
        let at = choose|at: int|
            0 <= at < children.len() && #[trigger] children[at] == list[0] && field_of(
                block,
                children[at].name_text(),
            ) == Some(Field::GzipTypes);
        assert(list[0].name_text() == "gzip_types"@);
        assert(assignment.value@ == list[0].arg_values());
    } else {
        assert(http.gzip_types.effective =~= Seq::<String>::empty());
    }
    if let Some(assignment) = local.types {
        let list = with_field(block, children, Field::Types);
        let entries = block_entries(list[0].block()->0);
        let table = assignment.value@;
        assert(mime_checked(entries, Ok(table)));
        assert forall|i: int, j: int| 0 <= i < j < entries.len() implies (
        #[trigger] entries[i]).0 != (#[trigger] entries[j]).0 by {
            assert(mime_entry_ok(entries, j));
        }
        lemma_mime_table(entries);
        assert forall|key: Seq<char>| #[trigger] table.contains_key(key) implies is_header_value(
            table[key],
        ) && key.len() > 0 by {
            let k = choose|k: int| 0 <= k < entries.len() && (#[trigger] entries[k]).0 == key;
            assert(mime_entry_ok(entries, k));
            assert(table[entries[k].0] == entries[k].1);
        }
    }
}

/// The settings of a configuration that was read arrive as they were, once their URL reads back from
/// its text.
pub proof fn parsed_defaults_read_back(
    directives: Seq<AstDirective>,
    doc: ConfigDocumentSourceMap,
    block: Block,
    scope: OriginScope,
    home: Option<&DhttpHome>,
    parsed: ParsedPishooConfig,
    wire: RootWorkerDefaultsWire,
    result: Result<HttpView, RootWorkerDefaultsWireError>,
)
    requires
        builds_pishoo(directives, doc, builtin_http_view(), block, scope, home, Ok(parsed)),
        parsed.pishoo.http@.access_rules.effective matches Some(url) ==> url_of(url.text) == Some(
            url,
        ),
        encodes(parsed.pishoo.http@, wire),
        decodes(wire, result),
    ensures
        result == Ok::<HttpView, RootWorkerDefaultsWireError>(parsed.pishoo.http@),
{
    let http = parsed.pishoo.http@;
    let sources = doc.sources();
    let children = directives[0].block()->0;
    let local = choose|local: LocalHttp| #[trigger]
        is_local_http(block, children, sources, local) && http == overlay(
            builtin_http_view(),
            local@,
            scope,
            sources,
        );
    lemma_read_settings(block, children, sources, local, http, scope);
    defaults_read_back(http, wire, result);
}

/// The entries of a table, each extension once.
fn list_types(types: &MimeTypes) -> (list: Vec<(String, Vec<u8>)>)
    ensures
        distinct_extensions(raw_entries(list@)),
        mime_table(raw_entries(list@)) == types@,
        holds_header_values(types@),
{
    let entries = types.entries();
    let ghost all = mime_entries(entries@);
    let mut list: Vec<(String, Vec<u8>)> = Vec::new();
    let mut i: usize = 0;
    assert(raw_entries(list@) =~= all.take(0));
    while i < entries.len()
        invariant
            i <= entries@.len(),
            all == mime_entries(entries@),
            raw_entries(list@) == all.take(i as int),
            forall|k: int| 0 <= k < i ==> is_header_value((#[trigger] all[k]).1),
        decreases entries@.len() - i,
    {
        let ghost before = list@;
        let (extension, value) = &entries[i];
        list.push((extension.clone(), bytes_to_vec(value.as_bytes())));
        assert(raw_entries(list@) =~= raw_entries(before).push(all[i as int]));
        assert(all.take(i + 1) =~= all.take(i as int).push(all[i as int]));
        i += 1;
    }
    proof {
        assert(all.take(all.len() as int) =~= all);
        lemma_mime_table(all);
        assert forall|key: Seq<char>| #[trigger] types@.contains_key(key) implies is_header_value(
            types@[key],
        ) by {
            let k = choose|k: int| 0 <= k < all.len() && (#[trigger] all[k]).0 == key;
            assert(types@[all[k].0] == all[k].1);
        }
    }
    list
}

impl RootWorkerDefaultsSnapshot {
    /// The form in which the settings are handed over.
    pub fn to_wire(&self) -> (wire: RootWorkerDefaultsWire)
        ensures
            encodes(self.http@, wire),
            keeps_types(self.http@),
    {
        let http = &self.http;
        let rules = match &http.access_rules.effective {
            Some(rules) => Some(rules.0.text.clone()),
            None => None,
        };
        let default_type = match &http.default_type.effective {
            Some(value) => Some(bytes_to_vec(value.0.as_bytes())),
            None => None,
        };
        let types = match &http.types.effective {
            Some(types) => Some(list_types(types)),
            None => None,
        };
        let log = match &http.access_log.effective {
            AccessLogDirective::Off => AccessLogWire::Off,
            AccessLogDirective::ProfileDefault => AccessLogWire::ProfileDefault,
            AccessLogDirective::Resolved(path) => AccessLogWire::Resolved(path.as_path().clone()),
        };
        RootWorkerDefaultsWire {
            access_rules: CascadedWire {
                effective: rules,
                lineage: clone_origins(&http.access_rules.lineage),
            },
            gzip: CascadedWire {
                effective: http.gzip.effective.0,
                lineage: clone_origins(&http.gzip.lineage),
            },
            gzip_vary: CascadedWire {
                effective: http.gzip_vary.effective.0,
                lineage: clone_origins(&http.gzip_vary.lineage),
            },
            gzip_min_length: CascadedWire {
                effective: http.gzip_min_length.effective.0,
                lineage: clone_origins(&http.gzip_min_length.lineage),
            },
            gzip_comp_level: CascadedWire {
                effective: http.gzip_comp_level.effective.0,
                lineage: clone_origins(&http.gzip_comp_level.lineage),
            },
            gzip_types: CascadedWire {
                effective: clone_strings(&http.gzip_types.effective.0),
                lineage: clone_origins(&http.gzip_types.lineage),
            },
            default_type: CascadedWire {
                effective: default_type,
                lineage: clone_origins(&http.default_type.lineage),
            },
            types: CascadedWire {
                effective: types,
                lineage: clone_origins(&http.types.lineage),
            },
            access_log: CascadedWire {
                effective: log,
                lineage: clone_origins(&http.access_log.lineage),
            },
        }
    }

    /// The settings that were handed over.
    pub fn from_wire(wire: RootWorkerDefaultsWire) -> (result: Result<
        Self,
        RootWorkerDefaultsWireError,
    >)
        ensures
            match result {
                Ok(snapshot) => decodes(wire, Ok(snapshot.http@)),
                Err(error) => decodes(wire, Err(error)),
            },
    {
        let ghost all = wire;
        let rules = match wire.access_rules.effective {
            Some(text) => match parse_url(text.as_str()) {
                Ok(url) => match AccessRulesUri::try_from(url) {
                    Ok(uri) => Some(uri),
                    Err(source) => return Err(
                        RootWorkerDefaultsWireError::AccessRules { source },
                    ),
                },
                Err(reason) => return Err(
                    RootWorkerDefaultsWireError::Url { source: InvalidUrl { reason } },
                ),
            },
            None => None,
        };
        let gzip_types = match StringList::checked_gzip_types(wire.gzip_types.effective) {
            Ok(list) => list,
            Err(source) => return Err(RootWorkerDefaultsWireError::GzipTypes { source }),
        };
        let default_type = match wire.default_type.effective {
            Some(bytes) => match DefaultType::checked_from_bytes(bytes.as_slice()) {
                Ok(value) => Some(value),
                Err(source) => return Err(RootWorkerDefaultsWireError::DefaultType { source }),
            },
            None => None,
        };
        let types = match wire.types.effective {
            Some(list) => {
                let ghost entries = raw_entries(list@);
                match MimeTypes::checked_from_bytes(&list) {
                    Ok(types) => Some(types),
                    Err(source) => {
                        proof {
                            if types_ok(Some(list)) {
                                assert(mime_checked(entries, Ok(mime_table(entries))));
                                mime_check_goes_one_way(entries, mime_table(entries), source);
                            }
                        }
                        return Err(RootWorkerDefaultsWireError::Types { source });
                    },
                }
            },
            None => None,
        };
        let access_log = match wire.access_log.effective {
            AccessLogWire::Off => AccessLogDirective::Off,
            AccessLogWire::ProfileDefault => AccessLogDirective::ProfileDefault,
            AccessLogWire::Resolved(path) => match ResolvedConfigPath::try_from(path) {
                Ok(path) => AccessLogDirective::Resolved(path),
                Err(source) => return Err(RootWorkerDefaultsWireError::AccessLog { source }),
            },
        };
        let http = EffectiveHttpConfig {
            access_rules: Cascaded::new(rules, wire.access_rules.lineage),
            gzip: Cascaded::new(BoolConfig(wire.gzip.effective), wire.gzip.lineage),
            gzip_vary: Cascaded::new(BoolConfig(wire.gzip_vary.effective), wire.gzip_vary.lineage),
            gzip_min_length: Cascaded::new(
                GzipMinLength::checked(wire.gzip_min_length.effective),
                wire.gzip_min_length.lineage,
            ),
            gzip_comp_level: Cascaded::new(
                GzipCompLevel::checked(wire.gzip_comp_level.effective),
                wire.gzip_comp_level.lineage,
            ),
            gzip_types: Cascaded::new(gzip_types, wire.gzip_types.lineage),
            default_type: Cascaded::new(default_type, wire.default_type.lineage),
            types: Cascaded::new(types, wire.types.lineage),
            access_log: Cascaded::new(access_log, wire.access_log.lineage),
        };
        Ok(RootWorkerDefaultsSnapshot::from_http(http))
    }
}

/// Whether entries name each extension of a table, once, with its type, and nothing else.
pub open spec fn names_each_once(
    entries: Seq<(String, Vec<u8>)>,
    table: Map<Seq<char>, Seq<u8>>,
) -> bool {
    &&& forall|i: int, j: int|
        0 <= i < j < entries.len() ==> (#[trigger] entries[i]).0@ != (#[trigger] entries[j]).0@
    &&& forall|i: int|
        0 <= i < entries.len() ==> table.contains_key((#[trigger] entries[i]).0@)
            && table[entries[i].0@] == entries[i].1@
    &&& forall|extension: Seq<char>| #[trigger]
        table.contains_key(extension) ==> exists|i: int|
            0 <= i < entries.len() && (#[trigger] entries[i]).0@ == extension
}

/// The entries that spell a table name each of its extensions once, with its type.
pub proof fn spelled_types_are_those_of_the_table(
    entries: Seq<(String, Vec<u8>)>,
    table: Map<Seq<char>, Seq<u8>>,
)
    requires
        distinct_extensions(raw_entries(entries)),
        mime_table(raw_entries(entries)) == table,
    ensures
        names_each_once(entries, table),
{
    let raw = raw_entries(entries);
    lemma_mime_table(raw);
    assert(forall|i: int|
        0 <= i < entries.len() ==> (#[trigger] entries[i]).0@ == raw[i].0 && entries[i].1@
            == raw[i].1);
    assert forall|extension: Seq<char>| #[trigger] table.contains_key(extension) implies exists|
        i: int,
    |
        0 <= i < entries.len() && (#[trigger] entries[i]).0@ == extension by {
        let k = choose|k: int| 0 <= k < raw.len() && (#[trigger] raw[k]).0 == extension;
        assert(entries[k].0@ == extension);
    }
}

/// Settings are handed over field by field: the database by its URL, each extension once with its
/// type, and all others as they are.
pub proof fn settings_are_handed_over_by_field(http: HttpView, wire: RootWorkerDefaultsWire)
    requires
        encodes(http, wire),
    ensures
        wire.gzip.effective == http.gzip.effective,
        wire.gzip_vary.effective == http.gzip_vary.effective,
        wire.gzip_min_length.effective == http.gzip_min_length.effective,
        wire.gzip_comp_level.effective == http.gzip_comp_level.effective,
        wire.gzip_types.effective@ == http.gzip_types.effective,
        match http.default_type.effective {
            Some(bytes) => wire.default_type.effective matches Some(sent) && sent@ == bytes,
            None => wire.default_type.effective is None,
        },
        match http.access_rules.effective {
            Some(url) => wire.access_rules.effective matches Some(sent) && sent@ == url.text,
            None => wire.access_rules.effective is None,
        },
        match http.types.effective {
            Some(table) => wire.types.effective matches Some(sent) && names_each_once(sent@, table),
            None => wire.types.effective is None,
        },
        match http.access_log.effective {
            AccessLogView::Off => wire.access_log.effective is Off,
            AccessLogView::ProfileDefault => wire.access_log.effective is ProfileDefault,
            AccessLogView::Resolved(path) => wire.access_log.effective matches
                AccessLogWire::Resolved(sent) && sent@ == path,
        },
{
    if let Some(table) = http.types.effective {
        spelled_types_are_those_of_the_table((wire.types.effective->0)@, table);
    }
}

/// Settings arrive exactly where no token is empty, types are header values, extensions are not empty
/// and stand once, the log lies at an absolute path without a NUL, and the database is named by a
/// URL of its own.
pub proof fn sound_settings_arrive(
    wire: RootWorkerDefaultsWire,
    result: Result<HttpView, RootWorkerDefaultsWireError>,
)
    requires
        decodes(wire, result),
    ensures
        result is Ok == ({
            &&& forall|i: int|
                0 <= i < wire.gzip_types.effective@.len() ==> (
                #[trigger] wire.gzip_types.effective@[i])@.len() > 0
            &&& wire.default_type.effective matches Some(bytes) ==> forall|i: int|
                0 <= i < bytes@.len() ==> {
                    let b = #[trigger] bytes@[i];
                    b == 9 || b > 31 && b != 127
                }
            &&& wire.access_log.effective matches AccessLogWire::Resolved(path) ==> path@.len() > 0
                && path@[0] == 47 && forall|i: int|
                0 <= i < path@.len() ==> #[trigger] path@[i] != 0
            &&& wire.types.effective matches Some(list) ==> forall|i: int|
                0 <= i < list@.len() ==> {
                    let line = #[trigger] list@[i];
                    &&& line.0@.len() > 0
                    &&& forall|k: int|
                        0 <= k < line.1@.len() ==> {
                            let b = #[trigger] line.1@[k];
                            b == 9 || b > 31 && b != 127
                        }
                    &&& forall|k: int| 0 <= k < i ==> (#[trigger] list@[k]).0@ != line.0@
                }
            &&& wire.access_rules.effective matches Some(text) ==> (url_of(text@) matches Some(url)
                && url.scheme == seq!['s', 'q', 'l', 'i', 't', 'e'] && url.host is None
                && url.username.len() == 0 && url.password is None && url.port is None
                && url.fragment is None && url_path_bytes(url).len() > 0 && url_path_bytes(url)[0]
                == 47 && forall|i: int|
                0 <= i < url_path_bytes(url).len() ==> #[trigger] url_path_bytes(url)[i] != 0)
        }),
{
    reveal_strlit("sqlite");
    assert("sqlite"@ =~= seq!['s', 'q', 'l', 'i', 't', 'e']);
    if let Some(list) = wire.types.effective {
        let raw = raw_entries(list@);
        assert forall|i: int| 0 <= i < list@.len() implies mime_entry_ok(raw, i) == ({
            let line = #[trigger] list@[i];
            &&& line.0@.len() > 0
            &&& forall|k: int|
                0 <= k < line.1@.len() ==> {
                    let b = #[trigger] line.1@[k];
                    b == 9 || b > 31 && b != 127
                }
            &&& forall|k: int| 0 <= k < i ==> (#[trigger] list@[k]).0@ != line.0@
        }) by {
            assert(raw[i] == (list@[i].0@, list@[i].1@));
            assert(forall|k: int| 0 <= k < i ==> (#[trigger] list@[k]).0@ == raw[k].0);
            assert(forall|k: int| 0 <= k < i ==> (#[trigger] raw[k]).0 == list@[k].0@);
        }
        assert(forall|i: int|
            0 <= i < list@.len() ==> mime_entry_ok(raw, i) == #[trigger] mime_entry_ok(
                raw_entries(list@),
                i,
            ));
    }
}

} // verus!
