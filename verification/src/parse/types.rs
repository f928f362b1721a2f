//! The values that directives carry.
use vstd::prelude::*;
use vstd::utf8::*;

use crate::address::{addr_text, SocketAddr};
use crate::number::{decimal, decimal_reads_back, push_decimal};
use crate::outside::{
    bind_pattern, bind_pattern_text, braces_close, dhttp_name, dhttp_suffix, fits_pattern,
    full_dhttp_name, header_name_text, header_value_bytes, is_header_name, is_name_fault,
    is_header_value, lower_byte, open_groups, percent_decode, percent_decoded, text_view,
    Uri, Url, UrlView, MAX_PATTERN_BYTES, MAX_PATTERN_DEPTH,
};
use crate::path::{is_absolute, UnixPath};
use crate::text::{
    bytes_eq, bytes_to_vec, chars_of, clone_strings, contains_char, join2, join3, push_str, str_eq, texts,
};

verus! {

/// A header value: bytes that may stand in a header field.
#[derive(Debug)]
pub struct HeaderValue {
    bytes: Vec<u8>,
}

/// The bytes are no header value.
#[derive(Debug, Clone, Copy, PartialEq, Eq, Structural)]
pub struct InvalidHeaderValue;

impl InvalidHeaderValue {
    pub open spec fn text(self) -> Seq<char> {
        "failed to parse header value"@
    }

    pub fn message(&self) -> (text: String)
        ensures
            text@ == self.text(),
    {
        "failed to parse header value".to_owned()
    }
}

impl View for HeaderValue {
    type V = Seq<u8>;

    closed spec fn view(&self) -> Seq<u8> {
        self.bytes@
    }
}

impl HeaderValue {
    #[verifier::type_invariant]
    spec fn checked(self) -> bool {
        is_header_value(self.bytes@)
    }

    pub fn from_bytes(bytes: &[u8]) -> (result: Result<Self, InvalidHeaderValue>)
        ensures
            match result {
                Ok(value) => is_header_value(bytes@) && value@ == bytes@,
                Err(_) => !is_header_value(bytes@),
            },
    {
        match header_value_bytes(bytes) {
            Some(bytes) => Ok(HeaderValue { bytes }),
            None => Err(InvalidHeaderValue),
        }
    }

    pub fn as_bytes(&self) -> (bytes: &[u8])
        ensures
            bytes@ == self@,
            is_header_value(self@),
    {
        proof {
            use_type_invariant(self);
        }
        self.bytes.as_slice()
    }

    /// Whether two header values hold the same bytes.
    pub fn same(&self, other: &HeaderValue) -> (same: bool)
        ensures
            same == (self@ == other@),
    {
        bytes_eq(&self.bytes, &other.bytes)
    }
}

impl PartialEq for HeaderValue {
    fn eq(&self, other: &Self) -> (equal: bool) {
        bytes_eq(&self.bytes, &other.bytes)
    }
}

impl Eq for HeaderValue {

}

impl vstd::std_specs::cmp::PartialEqSpecImpl for HeaderValue {
    open spec fn obeys_eq_spec() -> bool {
        true
    }

    open spec fn eq_spec(&self, other: &Self) -> bool {
        self@ == other@
    }
}

impl Clone for HeaderValue {
    fn clone(&self) -> (copy: Self)
        ensures
            copy@ == self@,
    {
        proof {
            use_type_invariant(self);
        }
        HeaderValue { bytes: bytes_to_vec(self.bytes.as_slice()) }
    }
}

/// A header name, spelled with small letters.
#[derive(Debug)]
pub struct HeaderName {
    text: String,
}

/// The bytes are no header name.
#[derive(Debug, Clone, Copy, PartialEq, Eq, Structural)]
pub struct InvalidHeaderName;

impl InvalidHeaderName {
    pub open spec fn text(self) -> Seq<char> {
        "invalid HTTP header name"@
    }

    pub fn message(&self) -> (text: String)
        ensures
            text@ == self.text(),
    {
        "invalid HTTP header name".to_owned()
    }
}

impl View for HeaderName {
    type V = Seq<char>;

    closed spec fn view(&self) -> Seq<char> {
        self.text@
    }
}

/// The spelling that a header name has once it is accepted.
pub open spec fn is_name_spelling(bytes: Seq<u8>, name: Seq<char>) -> bool {
    encode_utf8(name) == bytes.map_values(|b: u8| lower_byte(b))
}

impl HeaderName {
    pub fn from_bytes(bytes: &[u8]) -> (result: Result<Self, InvalidHeaderName>)
        ensures
            match result {
                Ok(name) => is_header_name(bytes@) && is_name_spelling(bytes@, name@),
                Err(_) => !is_header_name(bytes@),
            },
    {
        match header_name_text(bytes) {
            Some(text) => Ok(HeaderName { text }),
            None => Err(InvalidHeaderName),
        }
    }

    pub fn as_str(&self) -> (text: &str)
        ensures
            text@ == self@,
    {
        self.text.as_str()
    }
}

impl Clone for HeaderName {
    fn clone(&self) -> (copy: Self)
        ensures
            copy@ == self@,
    {
        HeaderName { text: self.text.clone() }
    }
}

/// A DHttp name in full.
#[derive(Debug, PartialEq, Eq, Hash)]
pub struct DhttpName {
    full: String,
}

/// Why a text gives no DHttp name.
#[derive(Debug, PartialEq, Eq)]
pub struct InvalidDhttpName {
    pub reason: String,
}

impl InvalidDhttpName {
    pub open spec fn text(self) -> Seq<char> {
        self.reason@
    }

    pub fn message(&self) -> (text: String)
        ensures
            text@ == self.text(),
    {
        self.reason.clone()
    }
}

impl View for DhttpName {
    type V = Seq<char>;

    closed spec fn view(&self) -> Seq<char> {
        self.full@
    }
}

/// A full name without its ending.
pub open spec fn partial_name(full: Seq<char>) -> Seq<char> {
    full.take(full.len() - dhttp_suffix().len())
}

impl DhttpName {
    #[verifier::type_invariant]
    spec fn checked(self) -> bool {
        self.full@.len() >= dhttp_suffix().len()
    }

    pub fn try_from(text: &str) -> (result: Result<Self, InvalidDhttpName>)
        ensures
            match result {
                Ok(name) => dhttp_name(text@) == Some(name@),
                Err(error) => is_name_fault(text@, error.text()),
            },
    {
        match full_dhttp_name(text) {
            Ok(full) => Ok(DhttpName { full }),
            Err(reason) => Err(InvalidDhttpName { reason }),
        }
    }

    /// The name with its ending.
    pub fn as_full(&self) -> (text: &str)
        ensures
            text@ == self@,
    {
        self.full.as_str()
    }

    /// The name without its ending.
    pub fn as_partial(&self) -> (text: String)
        ensures
            text@ == partial_name(self@),
            self@.len() >= dhttp_suffix().len(),
    {
        proof {
            use_type_invariant(self);
            reveal_strlit(".dhttp.net");
        }
        let chars = crate::text::chars_of(self.full.as_str());
        let end: usize = chars.len() - 10;
        let text = crate::text::string_of_range(&chars, 0, end);
        assert(chars@.subrange(0, end as int) =~= partial_name(self@));
        text
    }

    /// Whether two names are the same.
    pub fn same(&self, other: &DhttpName) -> (same: bool)
        ensures
            same == (self@ == other@),
    {
        str_eq(self.full.as_str(), other.full.as_str())
    }
}

impl Clone for DhttpName {
    fn clone(&self) -> (copy: Self)
        ensures
            copy@ == self@,
    {
        proof {
            use_type_invariant(self);
        }
        DhttpName { full: self.full.clone() }
    }
}

/// The names of a list.
pub open spec fn name_views(names: Seq<DhttpName>) -> Seq<Seq<char>> {
    names.map_values(|name: DhttpName| name@)
}

#[derive(Debug, Clone, PartialEq, Eq, Hash)]
pub struct ServerName {
    pub name: DhttpName,
}

#[derive(Debug, Clone, Copy, PartialEq, Eq, Structural)]
pub struct BoolConfig(pub bool);

#[derive(Debug, Clone, PartialEq, Eq)]
pub struct StringConfig(pub String);

#[derive(Debug, PartialEq, Eq)]
pub struct StringList(pub Vec<String>);

impl View for StringList {
    type V = Seq<String>;

    open spec fn view(&self) -> Seq<String> {
        self.0@
    }
}

impl Clone for StringList {
    fn clone(&self) -> (copy: Self)
        ensures
            copy@ == self@,
    {
        StringList(clone_strings(&self.0))
    }
}

#[derive(Debug, Clone, PartialEq, Eq)]
pub struct PathConfig(pub UnixPath);

/// Why `gzip_types` is not acceptable.
#[derive(Debug, Clone, Copy, PartialEq, Eq, Structural)]
pub enum GzipTypesValidationError {
    EmptyToken,
}

impl GzipTypesValidationError {
    pub open spec fn text(self) -> Seq<char> {
        "gzip_types contains an empty MIME token"@
    }

    pub fn message(&self) -> (text: String)
        ensures
            text@ == self.text(),
    {
        "gzip_types contains an empty MIME token".to_owned()
    }
}

/// Whether some string of a list is empty.
pub open spec fn has_empty(list: Seq<String>) -> bool {
    exists|i: int| 0 <= i < list.len() && (#[trigger] list[i])@.len() == 0
}

impl StringList {
    /// A list of MIME tokens, none of which is empty.
    pub fn checked_gzip_types(values: Vec<String>) -> (result: Result<
        Self,
        GzipTypesValidationError,
    >)
        ensures
            match result {
                Ok(list) => !has_empty(values@) && list.0 == values,
                Err(_) => has_empty(values@),
            },
    {
        let mut i: usize = 0;
        while i < values.len()
            invariant
                i <= values@.len(),
                forall|k: int| 0 <= k < i ==> (#[trigger] values@[k])@.len() > 0,
            decreases values@.len() - i,
        {
            if values[i].as_str().is_empty() {
                return Err(GzipTypesValidationError::EmptyToken);
            }
            i += 1;
        }
        Ok(StringList(values))
    }
}

#[derive(Debug, Clone, Copy, PartialEq, Eq, Structural)]
pub struct GzipMinLength(pub u64);

impl GzipMinLength {
    pub fn checked(value: u64) -> (length: Self)
        ensures
            length == GzipMinLength(value),
    {
        GzipMinLength(value)
    }
}

#[derive(Debug, Clone, Copy, PartialEq, Eq, Structural)]
pub struct GzipCompLevel(pub i32);

impl GzipCompLevel {
    pub fn checked(value: i32) -> (level: Self)
        ensures
            level == GzipCompLevel(value),
    {
        GzipCompLevel(value)
    }
}

#[derive(Debug, PartialEq, Eq)]
pub struct DefaultType(pub HeaderValue);

impl View for DefaultType {
    type V = Seq<u8>;

    open spec fn view(&self) -> Seq<u8> {
        self.0@
    }
}

impl Clone for DefaultType {
    fn clone(&self) -> (copy: Self)
        ensures
            copy@ == self@,
    {
        DefaultType(self.0.clone())
    }
}

impl DefaultType {
    pub fn checked_from_bytes(value: &[u8]) -> (result: Result<Self, InvalidHeaderValue>)
        ensures
            match result {
                Ok(kind) => is_header_value(value@) && kind@ == value@,
                Err(_) => !is_header_value(value@),
            },
    {
        match HeaderValue::from_bytes(value) {
            Ok(value) => Ok(DefaultType(value)),
            Err(error) => Err(error),
        }
    }
}

/// Why a table of MIME types is not acceptable.
#[derive(Debug, PartialEq, Eq)]
pub enum MimeTypesValidationError {
    EmptyExtension,
    DuplicateExtension { extension: String },
    HeaderValue { source: InvalidHeaderValue },
}

impl MimeTypesValidationError {
    pub open spec fn text(self) -> Seq<char> {
        match self {
            MimeTypesValidationError::EmptyExtension => "MIME extension must not be empty"@,
            MimeTypesValidationError::DuplicateExtension {
                extension,
            } => "duplicate MIME extension `"@ + extension@ + "`"@,
            MimeTypesValidationError::HeaderValue { .. } => "invalid MIME type header value"@,
        }
    }

    pub fn message(&self) -> (text: String)
        ensures
            text@ == self.text(),
    {
        match self {
            MimeTypesValidationError::EmptyExtension => "MIME extension must not be empty".to_owned(),
            MimeTypesValidationError::DuplicateExtension { extension } => join3(
                "duplicate MIME extension `",
                extension.as_str(),
                "`",
            ),
            MimeTypesValidationError::HeaderValue {
                ..
            } => "invalid MIME type header value".to_owned(),
        }
    }

    /// The messages of this error and of what caused it, outermost first.
    pub open spec fn chain(self) -> Seq<Seq<char>> {
        match self {
            MimeTypesValidationError::HeaderValue { source } => seq![self.text(), source.text()],
            _ => seq![self.text()],
        }
    }

    /// The messages of this error and of what caused it, outermost first.
    pub fn messages(&self) -> (list: Vec<String>)
        ensures
            texts(list@) == self.chain(),
    {
        let mut list: Vec<String> = Vec::new();
        list.push(self.message());
        match self {
            MimeTypesValidationError::HeaderValue { source } => {
                list.push(source.message());
            },
            _ => {},
        }
        assert(texts(list@) =~= self.chain());
        list
    }
}

/// MIME types by file extension. No extension occurs twice.
#[derive(Debug)]
pub struct MimeTypes {
    entries: Vec<(String, HeaderValue)>,
}

/// The table that a list of entries forms, later entries replacing earlier ones.
pub open spec fn mime_table(entries: Seq<(Seq<char>, Seq<u8>)>) -> Map<Seq<char>, Seq<u8>>
    decreases entries.len(),
{
    if entries.len() == 0 {
        Map::empty()
    } else {
        mime_table(entries.drop_last()).insert(entries.last().0, entries.last().1)
    }
}

/// Entries as characters and bytes.
pub open spec fn mime_entries(entries: Seq<(String, HeaderValue)>) -> Seq<(Seq<char>, Seq<u8>)> {
    entries.map_values(|entry: (String, HeaderValue)| (entry.0@, entry.1@))
}

/// Entries with their bytes not yet checked.
pub open spec fn raw_entries(entries: Seq<(String, Vec<u8>)>) -> Seq<(Seq<char>, Seq<u8>)> {
    entries.map_values(|entry: (String, Vec<u8>)| (entry.0@, entry.1@))
}

/// No extension occurs twice.
pub open spec fn distinct_extensions(entries: Seq<(Seq<char>, Seq<u8>)>) -> bool {
    forall|i: int, j: int|
        0 <= i < j < entries.len() ==> (#[trigger] entries[i]).0 != (#[trigger] entries[j]).0
}

/// Whether an entry with the given extension is among the first `count`.
pub open spec fn has_extension(
    entries: Seq<(Seq<char>, Seq<u8>)>,
    count: int,
    extension: Seq<char>,
) -> bool {
    exists|i: int| 0 <= i < count && (#[trigger] entries[i]).0 == extension
}

/// What is wrong with the entry at `at`, the entries before it being in order. The extension is
/// looked at first, then the value, then whether the extension occurred before.
pub open spec fn mime_entry_error(
    entries: Seq<(Seq<char>, Seq<u8>)>,
    at: int,
    error: MimeTypesValidationError,
) -> bool {
    let (extension, value) = entries[at];
    if extension.len() == 0 {
        error is EmptyExtension
    } else if !is_header_value(value) {
        error is HeaderValue
    } else {
        has_extension(entries, at, extension)
            && (error matches MimeTypesValidationError::DuplicateExtension { extension: named }
            && named@ == extension)
    }
}

/// Whether the entry at `at` is in order.
pub open spec fn mime_entry_ok(entries: Seq<(Seq<char>, Seq<u8>)>, at: int) -> bool {
    let (extension, value) = entries[at];
    extension.len() > 0 && is_header_value(value) && !has_extension(entries, at, extension)
}

/// A table is made of entries that are all in order, or the first that is not is reported.
pub open spec fn mime_checked(
    entries: Seq<(Seq<char>, Seq<u8>)>,
    result: Result<Map<Seq<char>, Seq<u8>>, MimeTypesValidationError>,
) -> bool {
    match result {
        Ok(table) => {
            &&& forall|i: int| 0 <= i < entries.len() ==> #[trigger] mime_entry_ok(entries, i)
            &&& table == mime_table(entries)
        },
        Err(error) => exists|at: int|
            {
                &&& 0 <= at < entries.len()
                &&& forall|i: int| 0 <= i < at ==> #[trigger] mime_entry_ok(entries, i)
                &&& #[trigger] mime_entry_error(entries, at, error)
            },
    }
}

/// Entries form a table or are faulty, never both.
pub proof fn mime_check_goes_one_way(
    entries: Seq<(Seq<char>, Seq<u8>)>,
    table: Map<Seq<char>, Seq<u8>>,
    error: MimeTypesValidationError,
)
    ensures
        !(mime_checked(entries, Ok(table)) && mime_checked(entries, Err(error))),
{
    if mime_checked(entries, Ok(table)) && mime_checked(entries, Err(error)) {
        let at = choose|at: int|
            {
                &&& 0 <= at < entries.len()
                &&& forall|i: int| 0 <= i < at ==> #[trigger] mime_entry_ok(entries, i)
                &&& #[trigger] mime_entry_error(entries, at, error)
            };
        assert(mime_entry_ok(entries, at));
    }
}

impl View for MimeTypes {
    type V = Map<Seq<char>, Seq<u8>>;

    closed spec fn view(&self) -> Map<Seq<char>, Seq<u8>> {
        mime_table(mime_entries(self.entries@))
    }
}

/// A table of distinct entries holds each of them and nothing else.
pub proof fn lemma_mime_table(entries: Seq<(Seq<char>, Seq<u8>)>)
    requires
        distinct_extensions(entries),
    ensures
        forall|i: int|
            0 <= i < entries.len() ==> mime_table(entries).contains_key((#[trigger] entries[i]).0)
                && mime_table(entries)[entries[i].0] == entries[i].1,
        forall|key: Seq<char>| #[trigger]
            mime_table(entries).contains_key(key) ==> has_extension(
                entries,
                entries.len() as int,
                key,
            ),
    decreases entries.len(),
{
    if entries.len() > 0 {
        let init = entries.drop_last();
        assert forall|i: int, j: int| 0 <= i < j < init.len() implies (#[trigger] init[i]).0 != (
        #[trigger] init[j]).0 by {
            assert(entries[i].0 != entries[j].0);
        }
        lemma_mime_table(init);
        assert forall|i: int| 0 <= i < entries.len() implies mime_table(entries).contains_key(
            (#[trigger] entries[i]).0,
        ) && mime_table(entries)[entries[i].0] == entries[i].1 by {
            if i < init.len() {
                assert(init[i] == entries[i]);
                assert(entries[i].0 != entries[init.len() as int].0);
            }
        }
        assert forall|key: Seq<char>| #[trigger]
            mime_table(entries).contains_key(key) implies has_extension(
            entries,
            entries.len() as int,
            key,
        ) by {
            if key == entries.last().0 {
                assert(entries[entries.len() - 1].0 == key);
            } else {
                assert(mime_table(init).contains_key(key));
                let i = choose|i: int| 0 <= i < init.len() && (#[trigger] init[i]).0 == key;
                assert(entries[i].0 == key);
            }
        }
    }
}

/// Where an extension stands in a table.
fn find_extension(entries: &Vec<(String, HeaderValue)>, extension: &str) -> (at: Option<usize>)
    ensures
        match at {
            Some(at) => at < entries@.len() && entries@[at as int].0@ == extension@,
            None => !has_extension(mime_entries(entries@), entries@.len() as int, extension@),
        },
{
    let mut i: usize = 0;
    while i < entries.len()
        invariant
            i <= entries@.len(),
            forall|k: int|
                0 <= k < i ==> (#[trigger] mime_entries(entries@)[k]).0 != extension@,
        decreases entries@.len() - i,
    {
        if str_eq(entries[i].0.as_str(), extension) {
            return Some(i);
        }
        i += 1;
    }
    None
}

impl MimeTypes {
    #[verifier::type_invariant]
    spec fn checked(self) -> bool {
        distinct_extensions(mime_entries(self.entries@))
    }

    /// An empty table.
    pub fn new() -> (types: Self)
        ensures
            types@ == Map::<Seq<char>, Seq<u8>>::empty(),
    {
        let types = MimeTypes { entries: Vec::new() };
        assert(mime_entries(types.entries@) =~= seq![]);
        types
    }

    /// Enters a type for an extension, in place of the one that it had.
    pub fn insert(self, extension: String, value: HeaderValue) -> (types: Self)
        ensures
            types@ == self@.insert(extension@, value@),
    {
        proof {
            use_type_invariant(&self);
        }
        let MimeTypes { entries } = self;
        let ghost before = mime_entries(entries@);
        let mut entries = entries;
        let found = find_extension(&entries, extension.as_str());
        proof {
            lemma_mime_table(before);
        }
        match found {
            Some(at) => {
                let ghost key = extension@;
                entries.set(at, (extension, value));
                let ghost after = mime_entries(entries@);
                proof {
                    assert(after =~= before.update(at as int, (key, value@)));
                    assert(before[at as int].0 == key);
                    assert forall|i: int, j: int| 0 <= i < j < after.len() implies (
                    #[trigger] after[i]).0 != (#[trigger] after[j]).0 by {
                        assert(before[i].0 != before[j].0);
                    }
                    lemma_mime_table(after);
                    let one = mime_table(after);
                    let other = mime_table(before).insert(key, value@);
                    assert forall|k: Seq<char>| #[trigger] one.contains_key(k) implies other.contains_key(
                        k,
                    ) && one[k] == other[k] by {
                        let i = choose|i: int| 0 <= i < after.len() && (#[trigger] after[i]).0 == k;
                        assert(one[after[i].0] == after[i].1);
                        assert(before[i].0 == k);
                        if i != at {
                            if i < at {
                                assert(before[i].0 != before[at as int].0);
                            } else {
                                assert(before[at as int].0 != before[i].0);
                            }
                        }
                    }
                    assert forall|k: Seq<char>| #[trigger] other.contains_key(k) implies one.contains_key(
                        k,
                    ) by {
                        if k == key {
                            assert(after[at as int].0 == key);
                        } else {
                            assert(mime_table(before).contains_key(k));
                            let i = choose|i: int|
                                0 <= i < before.len() && (#[trigger] before[i]).0 == k;
                            assert(after[i].0 == k);
                        }
                    }
                    assert(one =~= other);
                }
                MimeTypes { entries }
            },
            None => {
                let ghost key = extension@;
                entries.push((extension, value));
                let ghost after = mime_entries(entries@);
                proof {
                    assert(after =~= before.push((key, value@)));
                    assert forall|i: int, j: int| 0 <= i < j < after.len() implies (
                    #[trigger] after[i]).0 != (#[trigger] after[j]).0 by {
                        if j < before.len() {
                            assert(before[i].0 != before[j].0);
                        } else {
                            assert(before[i].0 != key);
                        }
                    }
                    assert(after.drop_last() =~= before);
                }
                MimeTypes { entries }
            },
        }
    }

    /// The type of an extension.
    pub fn get(&self, extension: &str) -> (value: Option<&HeaderValue>)
        ensures
            match value {
                Some(value) => self@.contains_key(extension@) && self@[extension@] == value@,
                None => !self@.contains_key(extension@),
            },
    {
        proof {
            use_type_invariant(self);
            lemma_mime_table(mime_entries(self.entries@));
        }
        match find_extension(&self.entries, extension) {
            Some(at) => {
                assert(mime_entries(self.entries@)[at as int].0 == extension@);
                Some(&self.entries[at].1)
            },
            None => None,
        }
    }

    /// The entries, each extension once.
    pub fn entries(&self) -> (entries: &Vec<(String, HeaderValue)>)
        ensures
            mime_table(mime_entries(entries@)) == self@,
            distinct_extensions(mime_entries(entries@)),
    {
        proof {
            use_type_invariant(self);
        }
        &self.entries
    }

    /// A table of checked entries: each extension once and not empty, each value a header value.
    pub fn checked_from_bytes(entries: &Vec<(String, Vec<u8>)>) -> (result: Result<
        Self,
        MimeTypesValidationError,
    >)
        ensures
            match result {
                Ok(types) => mime_checked(raw_entries(entries@), Ok(types@)),
                Err(error) => mime_checked(raw_entries(entries@), Err(error)),
            },
    {
        let ghost all = raw_entries(entries@);
        let mut values: Vec<(String, HeaderValue)> = Vec::new();
        let mut i: usize = 0;
        assert(mime_entries(values@) =~= all.take(0));
        while i < entries.len()
            invariant
                i <= entries@.len(),
                all == raw_entries(entries@),
                mime_entries(values@) == all.take(i as int),
                forall|k: int| 0 <= k < i ==> #[trigger] mime_entry_ok(all, k),
            decreases entries@.len() - i,
        {
            let (extension, value) = &entries[i];
            assert(all[i as int] == (extension@, value@));
            if extension.as_str().is_empty() {
                let error = MimeTypesValidationError::EmptyExtension;
                assert(mime_entry_error(all, i as int, error));
                return Err(error);
            }
            let value = match HeaderValue::from_bytes(value.as_slice()) {
                Ok(value) => value,
                Err(source) => {
                    let error = MimeTypesValidationError::HeaderValue { source };
                    assert(mime_entry_error(all, i as int, error));
                    return Err(error);
                },
            };
            match find_extension(&values, extension.as_str()) {
                Some(at) => {
                    assert(mime_entries(values@)[at as int].0 == extension@);
                    assert(mime_entries(values@).len() == i);
                    assert(all.take(i as int)[at as int] == all[at as int]);
                    assert(all[at as int].0 == extension@);
                    let error = MimeTypesValidationError::DuplicateExtension {
                        extension: extension.clone(),
                    };
                    assert(mime_entry_error(all, i as int, error));
                    return Err(error);
                },
                None => {},
            }
            proof {
                assert(mime_entries(values@).len() == i);
                assert forall|k: int| 0 <= k < i implies (#[trigger] all[k]).0 != extension@ by {
                    assert(mime_entries(values@)[k] == all.take(i as int)[k]);
                    assert(mime_entries(values@)[k].0 != extension@);
                }
                assert(mime_entry_ok(all, i as int));
            }
            let ghost before = values@;
            values.push((extension.clone(), value));
            assert(mime_entries(values@) =~= mime_entries(before).push(all[i as int]));
            assert(all.take(i + 1) =~= all.take(i as int).push(all[i as int]));
            i += 1;
        }
        proof {
            assert(all.take(all.len() as int) =~= all);
            assert forall|a: int, b: int| 0 <= a < b < all.len() implies (#[trigger] all[a]).0 != (
            #[trigger] all[b]).0 by {
                assert(mime_entry_ok(all, b));
            }
        }
        Ok(MimeTypes { entries: values })
    }
}

/// Whether every extension of one table has the same type in another.
fn holds_types(types: &MimeTypes, other: &MimeTypes) -> (held: bool)
    ensures
        held == types@.submap_of(other@),
{
    let entries = types.entries();
    let ghost all = mime_entries(entries@);
    proof {
        lemma_mime_table(all);
    }
    let mut i: usize = 0;
    while i < entries.len()
        invariant
            i <= entries@.len(),
            all == mime_entries(entries@),
            forall|k: int|
                0 <= k < i ==> other@.contains_key((#[trigger] all[k]).0) && other@[all[k].0]
                    == all[k].1,
            forall|k: int|
                0 <= k < all.len() ==> types@.contains_key((#[trigger] all[k]).0)
                    && types@[all[k].0] == all[k].1,
        decreases entries@.len() - i,
    {
        let (extension, value) = &entries[i];
        assert(all[i as int] == (extension@, value@));
        match other.get(extension.as_str()) {
            Some(found) => if !value.same(found) {
                return false;
            },
            None => {
                return false;
            },
        }
        i += 1;
    }
    true
}

impl PartialEq for MimeTypes {
    fn eq(&self, other: &Self) -> (equal: bool) {
        let equal = holds_types(self, other) && holds_types(other, self);
        proof {
            if equal {
                assert(self@.dom() =~= other@.dom());
                assert(self@ =~= other@);
            }
        }
        equal
    }
}

impl Eq for MimeTypes {

}

impl vstd::std_specs::cmp::PartialEqSpecImpl for MimeTypes {
    open spec fn obeys_eq_spec() -> bool {
        true
    }

    open spec fn eq_spec(&self, other: &Self) -> bool {
        self@ == other@
    }
}

impl Clone for MimeTypes {
    fn clone(&self) -> (copy: Self)
        ensures
            copy@ == self@,
    {
        proof {
            use_type_invariant(self);
        }
        let mut entries: Vec<(String, HeaderValue)> = Vec::new();
        let mut i: usize = 0;
        while i < self.entries.len()
            invariant
                i <= self.entries@.len(),
                mime_entries(entries@) == mime_entries(self.entries@).take(i as int),
            decreases self.entries@.len() - i,
        {
            let ghost before = entries@;
            let (extension, value) = &self.entries[i];
            entries.push((extension.clone(), value.clone()));
            assert(mime_entries(entries@) =~= mime_entries(before).push(
                (extension@, value@),
            ));
            assert(mime_entries(self.entries@).take(i + 1) =~= mime_entries(self.entries@).take(
                i as int,
            ).push(mime_entries(self.entries@)[i as int]));
            i += 1;
        }
        assert(mime_entries(entries@) =~= mime_entries(self.entries@));
        MimeTypes { entries }
    }
}

#[derive(Debug, Clone, Copy, PartialEq, Eq, Structural)]
pub struct ServerIdConfig(pub u8);

#[derive(Debug, Clone, PartialEq, Eq)]
pub struct ResolverConfig(pub Uri);

#[derive(Debug, Clone, PartialEq, Eq)]
pub struct SocketAddrs(pub Vec<SocketAddr>);

#[derive(Debug, Clone, PartialEq, Eq)]
pub struct ServerNames(pub Vec<ServerName>);

#[derive(Debug, Clone, PartialEq, Eq)]
pub struct ClientNameConfig(pub DhttpName);

#[derive(Debug, Clone)]
pub struct HeaderRule {
    pub name: HeaderName,
    pub value: HeaderValue,
    pub always: bool,
}

#[derive(Debug, Clone)]
pub struct HeaderRules(pub Vec<HeaderRule>);

#[derive(Debug, Clone, PartialEq, Eq)]
pub struct SshLoginMethods(pub Vec<String>);

#[derive(Debug, Clone, PartialEq, Eq)]
pub struct SshSslUser {
    pub name: String,
    pub user: String,
}

#[derive(Debug, Clone, PartialEq, Eq)]
pub struct SshSslUsers(pub Vec<SshSslUser>);

#[derive(Debug, Clone, Copy, PartialEq, Eq, Structural)]
pub struct StunBindConfigValue {
    pub bind: SocketAddr,
    pub outer_addr: Option<SocketAddr>,
    pub change_addr: Option<SocketAddr>,
    pub change_port: Option<u16>,
}

#[derive(Debug, Clone, Copy, PartialEq, Eq, Structural)]
pub struct StunChangePort(pub u16);

#[derive(Debug, Clone, PartialEq, Eq)]
pub struct StunServerConfigValue {
    pub binds: Vec<StunBindConfigValue>,
}

/// Where a request is passed on to.
#[derive(Debug, Clone, PartialEq, Eq)]
pub struct ProxyPass {
    pub raw: String,
    pub uri: Uri,
    pub proxy_host: String,
    pub explicit_path_and_query: Option<String>,
}

impl ProxyPass {
    /// The URI names a scheme and a host.
    pub open spec fn wf(self) -> bool {
        self.uri.scheme is Some && self.uri.authority is Some
    }

    pub fn has_explicit_uri(&self) -> (yes: bool)
        ensures
            yes == (self.explicit_path_and_query is Some),
    {
        self.explicit_path_and_query.is_some()
    }

    pub fn explicit_path_and_query(&self) -> (text: Option<&str>)
        ensures
            match text {
                Some(text) => text_view(self.explicit_path_and_query) == Some(text@),
                None => self.explicit_path_and_query is None,
            },
    {
        match &self.explicit_path_and_query {
            Some(text) => Some(text.as_str()),
            None => None,
        }
    }

    pub fn scheme_str(&self) -> (scheme: &str)
        requires
            self.wf(),
        ensures
            text_view(self.uri.scheme) == Some(scheme@),
    {
        self.uri.scheme.as_ref().unwrap().as_str()
    }

    pub fn host(&self) -> (host: &str)
        requires
            self.wf(),
        ensures
            host@ == self.uri.authority->0.host@,
    {
        self.uri.authority.as_ref().unwrap().host.as_str()
    }

    pub fn port_u16(&self) -> (port: Option<u16>)
        ensures
            port == (match self.uri.authority {
                Some(authority) => authority.port,
                None => None,
            }),
    {
        match &self.uri.authority {
            Some(authority) => authority.port,
            None => None,
        }
    }
}

/// The place of an access rule database: a `sqlite` URL with an absolute path.
#[derive(Debug, PartialEq, Eq)]
pub struct AccessRulesUri(pub Url);

impl View for AccessRulesUri {
    type V = UrlView;

    open spec fn view(&self) -> UrlView {
        self.0@
    }
}

impl Clone for AccessRulesUri {
    fn clone(&self) -> (copy: Self)
        ensures
            copy@ == self@,
    {
        AccessRulesUri(
            Url {
                text: self.0.text.clone(),
                scheme: self.0.scheme.clone(),
                username: self.0.username.clone(),
                password: self.0.password.clone(),
                host: self.0.host.clone(),
                port: self.0.port,
                path: self.0.path.clone(),
                query: self.0.query.clone(),
                fragment: self.0.fragment.clone(),
            },
        )
    }
}

/// Why a URL does not name an access rule database.
#[derive(Debug, PartialEq, Eq)]
pub enum AccessRulesUriValidationError {
    UnsupportedScheme { scheme: String },
    UnsupportedSqliteForm,
    RelativePath,
    NulPath,
}

impl AccessRulesUriValidationError {
    pub open spec fn text(self) -> Seq<char> {
        match self {
            AccessRulesUriValidationError::UnsupportedScheme {
                scheme,
            } => "unsupported access_rules uri scheme `"@ + scheme@ + "`"@,
            AccessRulesUriValidationError::UnsupportedSqliteForm =>
                "unsupported sqlite access_rules uri form"@,
            AccessRulesUriValidationError::RelativePath =>
                "access_rules sqlite path must be absolute"@,
            AccessRulesUriValidationError::NulPath =>
                "access_rules sqlite path contains a NUL byte"@,
        }
    }

    pub fn message(&self) -> (text: String)
        ensures
            text@ == self.text(),
    {
        match self {
            AccessRulesUriValidationError::UnsupportedScheme { scheme } => join3(
                "unsupported access_rules uri scheme `",
                scheme.as_str(),
                "`",
            ),
            AccessRulesUriValidationError::UnsupportedSqliteForm =>
                "unsupported sqlite access_rules uri form".to_owned(),
            AccessRulesUriValidationError::RelativePath =>
                "access_rules sqlite path must be absolute".to_owned(),
            AccessRulesUriValidationError::NulPath =>
                "access_rules sqlite path contains a NUL byte".to_owned(),
        }
    }
}

/// Whether a URL has parts that a database place cannot have.
pub open spec fn has_foreign_parts(url: UrlView) -> bool {
    url.host is Some || url.username.len() > 0 || url.password is Some || url.port is Some
        || url.fragment is Some
}

/// The path in a URL, decoded.
pub open spec fn url_path_bytes(url: UrlView) -> Seq<u8> {
    percent_decoded(encode_utf8(url.path))
}

/// The database path that a URL names.
pub open spec fn sqlite_path(url: UrlView, result: Result<Seq<u8>, AccessRulesUriValidationError>) -> bool {
    if url.scheme != "sqlite"@ {
        result matches Err(AccessRulesUriValidationError::UnsupportedScheme { scheme }) && scheme@
            == url.scheme
    } else if has_foreign_parts(url) {
        result matches Err(AccessRulesUriValidationError::UnsupportedSqliteForm)
    } else if url_path_bytes(url).contains(0u8) {
        result matches Err(AccessRulesUriValidationError::NulPath)
    } else {
        result matches Ok(path) && path == url_path_bytes(url)
    }
}

/// Whether a URL names an access rule database.
pub open spec fn is_access_rules(url: UrlView) -> bool {
    url.scheme == "sqlite"@ && !has_foreign_parts(url) && !url_path_bytes(url).contains(0u8)
        && is_absolute(url_path_bytes(url))
}

/// Why a URL that does not name an access rule database is refused.
pub open spec fn is_refused(url: UrlView, error: AccessRulesUriValidationError) -> bool {
    if url.scheme == "sqlite"@ && !has_foreign_parts(url) && !url_path_bytes(url).contains(0u8) {
        error is RelativePath
    } else {
        sqlite_path(url, Err(error))
    }
}

impl AccessRulesUri {
    /// The database path that a URL names, not yet asked to be absolute.
    pub fn decoded_sqlite_path(url: &Url) -> (result: Result<
        UnixPath,
        AccessRulesUriValidationError,
    >)
        ensures
            match result {
                Ok(path) => sqlite_path(url@, Ok(path@)),
                Err(error) => sqlite_path(url@, Err(error)),
            },
    {
        if !str_eq(url.scheme.as_str(), "sqlite") {
            return Err(
                AccessRulesUriValidationError::UnsupportedScheme { scheme: url.scheme.clone() },
            );
        }
        if url.host.is_some() || !url.username.as_str().is_empty() || url.password.is_some()
            || url.port.is_some() || url.fragment.is_some() {
            return Err(AccessRulesUriValidationError::UnsupportedSqliteForm);
        }
        let path = UnixPath { bytes: percent_decode(url.path.as_str()) };
        if path.has_nul() {
            return Err(AccessRulesUriValidationError::NulPath);
        }
        Ok(path)
    }

    /// Accepts a URL that names an absolute database path.
    pub fn try_from(url: Url) -> (result: Result<Self, AccessRulesUriValidationError>)
        ensures
            match result {
                Ok(uri) => is_access_rules(url@) && uri.0 == url,
                Err(error) => !is_access_rules(url@) && is_refused(url@, error),
            },
    {
        match AccessRulesUri::decoded_sqlite_path(&url) {
            Err(error) => Err(error),
            Ok(path) => if path.is_absolute() {
                Ok(AccessRulesUri(url))
            } else {
                Err(AccessRulesUriValidationError::RelativePath)
            },
        }
    }
}

/// Which IP versions are listened on.
#[derive(Debug, Clone, Copy, PartialEq, Eq, Hash, Structural)]
pub enum IpFamilies {
    V4,
    V6,
    Dual,
}

impl Default for IpFamilies {
    fn default() -> (families: Self)
        ensures
            families == IpFamilies::Dual,
    {
        IpFamilies::Dual
    }
}

/// The IP versions that a word names.
pub open spec fn families_of(text: Seq<char>) -> Option<IpFamilies> {
    if text == "v4only"@ {
        Some(IpFamilies::V4)
    } else if text == "v6only"@ {
        Some(IpFamilies::V6)
    } else if text == "dual"@ {
        Some(IpFamilies::Dual)
    } else {
        None
    }
}

/// The word names no IP versions.
#[derive(Debug, PartialEq, Eq)]
pub struct InvalidIpFamilies {
    pub value: String,
}

impl InvalidIpFamilies {
    pub open spec fn text(self) -> Seq<char> {
        "invalid ip families: "@ + self.value@ + ", expected `v4only`, `v6only` or `dual`"@
    }

    pub fn message(&self) -> (text: String)
        ensures
            text@ == self.text(),
    {
        join3(
            "invalid ip families: ",
            self.value.as_str(),
            ", expected `v4only`, `v6only` or `dual`",
        )
    }
}

impl IpFamilies {
    pub fn from_str(text: &str) -> (result: Result<Self, InvalidIpFamilies>)
        ensures
            match result {
                Ok(families) => families_of(text@) == Some(families),
                Err(error) => families_of(text@) is None && error.value@ == text@,
            },
    {
        if str_eq(text, "v4only") {
            Ok(IpFamilies::V4)
        } else if str_eq(text, "v6only") {
            Ok(IpFamilies::V6)
        } else if str_eq(text, "dual") {
            Ok(IpFamilies::Dual)
        } else {
            Err(InvalidIpFamilies { value: text.to_owned() })
        }
    }
}

/// Which network interfaces are listened on.
#[derive(Debug, PartialEq, Eq, Hash)]
pub enum IfaceRange {
    All,
    External,
    Internal,
    Exact(String),
}

/// Which network interfaces are listened on, with the name as characters.
pub enum RangeView {
    All,
    External,
    Internal,
    Exact(Seq<char>),
}

impl View for IfaceRange {
    type V = RangeView;

    open spec fn view(&self) -> RangeView {
        match *self {
            IfaceRange::All => RangeView::All,
            IfaceRange::External => RangeView::External,
            IfaceRange::Internal => RangeView::Internal,
            IfaceRange::Exact(name) => RangeView::Exact(name@),
        }
    }
}

/// The interfaces that a word names.
pub open spec fn range_of(text: Seq<char>) -> RangeView {
    if text == "all"@ {
        RangeView::All
    } else if text == "external"@ {
        RangeView::External
    } else if text == "internal"@ {
        RangeView::Internal
    } else {
        RangeView::Exact(text)
    }
}

/// Whether an interface is in a range. External interfaces are not told apart yet.
pub open spec fn range_contains(range: RangeView, iface: Seq<char>) -> bool {
    match range {
        RangeView::All => true,
        RangeView::Exact(name) => name == iface,
        RangeView::Internal => iface == "lo"@ || iface == "lo0"@,
        RangeView::External => false,
    }
}

/// How a range is written.
pub open spec fn range_text(range: RangeView) -> Seq<char> {
    match range {
        RangeView::All => "all"@,
        RangeView::External => "external"@,
        RangeView::Internal => "internal"@,
        RangeView::Exact(name) => name,
    }
}

impl Clone for IfaceRange {
    fn clone(&self) -> (copy: Self)
        ensures
            copy@ == self@,
    {
        match self {
            IfaceRange::All => IfaceRange::All,
            IfaceRange::External => IfaceRange::External,
            IfaceRange::Internal => IfaceRange::Internal,
            IfaceRange::Exact(name) => IfaceRange::Exact(name.clone()),
        }
    }
}

impl IfaceRange {
    pub fn from_text(value: &str) -> (range: Self)
        ensures
            range@ == range_of(value@),
    {
        if str_eq(value, "all") {
            IfaceRange::All
        } else if str_eq(value, "external") {
            IfaceRange::External
        } else if str_eq(value, "internal") {
            IfaceRange::Internal
        } else {
            IfaceRange::Exact(value.to_owned())
        }
    }

    pub fn contains(&self, iface_name: &str) -> (yes: bool)
        ensures
            yes == range_contains(self@, iface_name@),
    {
        match self {
            IfaceRange::All => true,
            IfaceRange::Exact(name) => str_eq(name.as_str(), iface_name),
            IfaceRange::Internal => str_eq(iface_name, "lo") || str_eq(iface_name, "lo0"),
            IfaceRange::External => false,
        }
    }

    /// The range as text.
    pub fn to_text(&self) -> (text: String)
        ensures
            text@ == range_text(self@),
    {
        match self {
            IfaceRange::All => "all".to_owned(),
            IfaceRange::External => "external".to_owned(),
            IfaceRange::Internal => "internal".to_owned(),
            IfaceRange::Exact(name) => name.clone(),
        }
    }
}

/// A range that is written and read again is the same range, unless it names an interface by one
/// of the words for whole groups.
pub proof fn range_reads_back(range: RangeView)
    requires
        range matches RangeView::Exact(name) ==> name != "all"@ && name != "external"@ && name
            != "internal"@,
    ensures
        range_of(range_text(range)) == range,
{
    reveal_strlit("all");
    reveal_strlit("external");
    reveal_strlit("internal");
    assert("all"@.len() == 3);
    assert("external"@.len() == 8);
    assert("internal"@.len() == 8);
    assert("external"@[0] != "internal"@[0]);
}

/// What a server listens on.
#[derive(Debug, Clone, PartialEq, Eq, Hash)]
pub struct Listens {
    pub range: IfaceRange,
    pub families: IpFamilies,
    pub port: u16,
    pub specific_addrs: Option<Vec<SocketAddr>>,
}

/// What a server listens on, with plain contents.
pub struct ListensView {
    pub range: RangeView,
    pub families: IpFamilies,
    pub port: u16,
    pub specific_addrs: Option<Seq<SocketAddr>>,
}

impl View for Listens {
    type V = ListensView;

    open spec fn view(&self) -> ListensView {
        ListensView {
            range: self.range@,
            families: self.families,
            port: self.port,
            specific_addrs: match self.specific_addrs {
                Some(addrs) => Some(addrs@),
                None => None,
            },
        }
    }
}

#[derive(Debug, Clone, PartialEq, Eq)]
pub struct ListenConfig(pub Vec<Listens>);

/// A pattern for the addresses that a server is bound to, as it is spelled.
#[derive(Debug, PartialEq, Eq)]
pub struct BindPattern {
    text: String,
}

impl View for BindPattern {
    type V = Seq<char>;

    closed spec fn view(&self) -> Seq<char> {
        self.text@
    }
}

impl BindPattern {
    /// Whether a text is short and flat enough to be read as a pattern.
    pub fn can_parse(text: &str) -> (yes: bool)
        ensures
            yes == fits_pattern(text@),
    {
        if text.as_bytes().len() > MAX_PATTERN_BYTES {
            return false;
        }
        let chars = chars_of(text);
        let close = !contains_char(&chars, '[') && !contains_char(&chars, '\\');
        let mut open: i128 = 0;
        let mut i: usize = 0;
        assert(chars@.take(0) =~= seq![]);
        while i < chars.len()
            invariant
                i <= chars@.len(),
                chars@ == text@,
                close == braces_close(text@),
                -i <= open <= MAX_PATTERN_DEPTH,
                open == open_groups(text@.take(i as int), close),
                forall|k: int|
                    0 <= k <= i ==> #[trigger] open_groups(text@.take(k), close)
                        <= MAX_PATTERN_DEPTH,
            decreases chars@.len() - i,
        {
            assert(text@.take(i + 1).drop_last() =~= text@.take(i as int));
            if chars[i] == '{' {
                open += 1;
            } else if chars[i] == '}' && close {
                open -= 1;
            }
            if open > MAX_PATTERN_DEPTH as i128 {
                assert(open_groups(text@.take(i + 1), close) > MAX_PATTERN_DEPTH);
                return false;
            }
            i += 1;
        }
        true
    }

    /// The pattern that a text gives.
    pub fn parse(text: &str) -> (pattern: Result<Self, String>)
        requires
            fits_pattern(text@),
        ensures
            match pattern {
                Ok(pattern) => bind_pattern(text@) == Ok::<Seq<char>, Seq<char>>(pattern@),
                Err(reason) => bind_pattern(text@) == Err::<Seq<char>, Seq<char>>(reason@),
            },
    {
        match bind_pattern_text(text) {
            Ok(text) => Ok(BindPattern { text }),
            Err(reason) => Err(reason),
        }
    }

    pub fn as_str(&self) -> (text: &str)
        ensures
            text@ == self@,
    {
        self.text.as_str()
    }
}

/// Whether all texts are short and flat enough to be read as bind patterns.
pub open spec fn all_fit(inputs: Seq<Seq<char>>) -> bool {
    forall|i: int| 0 <= i < inputs.len() ==> fits_pattern(#[trigger] inputs[i])
}

/// What reading bind patterns gives: all of them, or an error for the first text that gives none.
pub open spec fn reads_patterns(
    inputs: Seq<Seq<char>>,
    result: Result<Vec<BindPattern>, ListenBindPatternError>,
) -> bool {
    match result {
        Ok(patterns) => {
            &&& patterns@.len() == inputs.len()
            &&& forall|i: int|
                0 <= i < inputs.len() ==> bind_pattern(#[trigger] inputs[i]) == Ok::<
                    Seq<char>,
                    Seq<char>,
                >(patterns@[i]@)
        },
        Err(error) => exists|at: int|
            {
                &&& 0 <= at < inputs.len()
                &&& forall|i: int| 0 <= i < at ==> bind_pattern(#[trigger] inputs[i]) is Ok
                &&& error matches ListenBindPatternError::GeneratedBindPattern { input, reason }
                    && input@ == inputs[at] && bind_pattern(#[trigger] inputs[at]) == Err::<
                    Seq<char>,
                    Seq<char>,
                >(reason@)
            },
    }
}

/// Why no bind pattern can be given.
#[derive(Debug, PartialEq, Eq)]
pub enum ListenBindPatternError {
    UnsupportedIfaceRange { range: IfaceRange },
    GeneratedBindPattern { input: String, reason: String },
}

impl ListenBindPatternError {
    pub open spec fn text(self) -> Seq<char> {
        match self {
            ListenBindPatternError::UnsupportedIfaceRange {
                range,
            } => "unsupported listen iface range `"@ + range_text(range@) + "`"@,
            ListenBindPatternError::GeneratedBindPattern {
                input,
                ..
            } => "failed to construct generated bind pattern `"@ + input@ + "`"@,
        }
    }

    pub fn message(&self) -> (text: String)
        ensures
            text@ == self.text(),
    {
        match self {
            ListenBindPatternError::UnsupportedIfaceRange { range } => {
                let name = range.to_text();
                join3("unsupported listen iface range `", name.as_str(), "`")
            },
            ListenBindPatternError::GeneratedBindPattern { input, .. } => join3(
                "failed to construct generated bind pattern `",
                input.as_str(),
                "`",
            ),
        }
    }
}

/// The pattern for one address.
pub open spec fn inet_pattern(addr: SocketAddr) -> Seq<char> {
    "inet://"@ + addr_text(addr)
}

/// The pattern for the IPv4 loopback address.
pub open spec fn loopback_v4_pattern(port: u16) -> Seq<char> {
    "inet://127.0.0.1:"@ + decimal(port as nat)
}

/// The pattern for the IPv6 loopback address.
pub open spec fn loopback_v6_pattern(port: u16) -> Seq<char> {
    "inet://[::1]:"@ + decimal(port as nat)
}

/// The mark of a single IP version in a pattern.
pub open spec fn family_prefix(families: IpFamilies) -> Seq<char> {
    match families {
        IpFamilies::V4 => "v4."@,
        IpFamilies::V6 => "v6."@,
        IpFamilies::Dual => ""@,
    }
}

/// The pattern for interfaces.
pub open spec fn iface_pattern(families: IpFamilies, host: Seq<char>, port: u16) -> Seq<char> {
    "iface://"@ + family_prefix(families) + host + ":"@ + decimal(port as nat)
}

/// The texts of the bind patterns of what a server listens on; none for external interfaces.
pub open spec fn pattern_texts(listens: ListensView) -> Option<Seq<Seq<char>>> {
    match listens.specific_addrs {
        Some(addrs) => Some(addrs.map_values(|addr: SocketAddr| inet_pattern(addr))),
        None => match listens.range {
            RangeView::All => Some(seq![iface_pattern(listens.families, "*"@, listens.port)]),
            RangeView::Exact(name) => Some(
                seq![iface_pattern(listens.families, name, listens.port)],
            ),
            RangeView::Internal => Some(
                match listens.families {
                    IpFamilies::V4 => seq![loopback_v4_pattern(listens.port)],
                    IpFamilies::V6 => seq![loopback_v6_pattern(listens.port)],
                    IpFamilies::Dual => seq![
                        loopback_v4_pattern(listens.port),
                        loopback_v6_pattern(listens.port),
                    ],
                },
            ),
            RangeView::External => None,
        },
    }
}

fn with_port(prefix: &str, port: u16) -> (text: String)
    ensures
        text@ == prefix@ + decimal(port as nat),
{
    let mut text = prefix.to_owned();
    push_decimal(&mut text, port as u64);
    text
}

fn iface_text(families: IpFamilies, host: &str, port: u16) -> (text: String)
    ensures
        text@ == iface_pattern(families, host@, port),
{
    let prefix = match families {
        IpFamilies::V4 => "v4.",
        IpFamilies::V6 => "v6.",
        IpFamilies::Dual => "",
    };
    let mut text = join3("iface://", prefix, host);
    push_str(&mut text, ":");
    push_decimal(&mut text, port as u64);
    text
}

impl Listens {
    pub fn new(range: IfaceRange, families: IpFamilies, port: u16) -> (listens: Self)
        ensures
            listens == (Listens { range, families, port, specific_addrs: None }),
    {
        Listens { range, families, port, specific_addrs: None }
    }

    /// The texts of the bind patterns of this listen directive, in order.
    pub fn bind_pattern_texts(&self) -> (result: Result<Vec<String>, ListenBindPatternError>)
        ensures
            match result {
                Ok(patterns) => pattern_texts(self@) == Some(texts(patterns@)),
                Err(error) => pattern_texts(self@) is None && (error matches
                    ListenBindPatternError::UnsupportedIfaceRange { range } && range@
                    == self.range@),
            },
    {
        let mut patterns: Vec<String> = Vec::new();
        match &self.specific_addrs {
            Some(addrs) => {
                let ghost wanted = addrs@.map_values(|addr: SocketAddr| inet_pattern(addr));
                let mut i: usize = 0;
                while i < addrs.len()
                    invariant
                        i <= addrs@.len(),
                        wanted == addrs@.map_values(|addr: SocketAddr| inet_pattern(addr)),
                        texts(patterns@) == wanted.take(i as int),
                    decreases addrs@.len() - i,
                {
                    let ghost before = patterns@;
                    let text = addrs[i].to_text();
                    let pattern = join2("inet://", text.as_str());
                    patterns.push(pattern);
                    assert(texts(patterns@) =~= texts(before).push(
                        pattern@,
                    ));
                    assert(wanted.take(i + 1) =~= wanted.take(i as int).push(wanted[i as int]));
                    i += 1;
                }
                assert(wanted.take(addrs@.len() as int) =~= wanted);
                return Ok(patterns);
            },
            None => {},
        }
        match &self.range {
            IfaceRange::All => {
                patterns.push(iface_text(self.families, "*", self.port));
            },
            IfaceRange::Exact(name) => {
                patterns.push(iface_text(self.families, name.as_str(), self.port));
            },
            IfaceRange::Internal => {
                match self.families {
                    IpFamilies::V4 => {
                        patterns.push(with_port("inet://127.0.0.1:", self.port));
                    },
                    IpFamilies::V6 => {
                        patterns.push(with_port("inet://[::1]:", self.port));
                    },
                    IpFamilies::Dual => {
                        patterns.push(with_port("inet://127.0.0.1:", self.port));
                        patterns.push(with_port("inet://[::1]:", self.port));
                    },
                }
            },
            IfaceRange::External => {
                return Err(
                    ListenBindPatternError::UnsupportedIfaceRange { range: self.range.clone() },
                );
            },
        }
        assert(texts(patterns@) =~= pattern_texts(self@)->0);
        Ok(patterns)
    }

    /// The bind patterns of this listen directive, in order. Nothing comes back where one of their texts
    /// is too long or nested too deeply to be read.
    pub fn checked_bind_patterns(&self) -> (result: Option<
        Result<Vec<BindPattern>, ListenBindPatternError>,
    >)
        ensures
            match pattern_texts(self@) {
                Some(inputs) => match result {
                    Some(result) => all_fit(inputs) && reads_patterns(inputs, result),
                    None => !all_fit(inputs),
                },
                None => result matches Some(
                    Err(ListenBindPatternError::UnsupportedIfaceRange { range }),
                ) && range@ == self.range@,
            },
    {
        match self.bind_pattern_texts() {
            Ok(inputs) => {
                let mut i: usize = 0;
                while i < inputs.len()
                    invariant
                        i <= inputs@.len(),
                        pattern_texts(self@) == Some(texts(inputs@)),
                        forall|k: int| 0 <= k < i ==> fits_pattern(#[trigger] texts(inputs@)[k]),
                    decreases inputs@.len() - i,
                {
                    if !BindPattern::can_parse(inputs[i].as_str()) {
                        assert(!fits_pattern(texts(inputs@)[i as int]));
                        return None;
                    }
                    i += 1;
                }
            },
            Err(_) => {},
        }
        Some(self.try_to_bind_patterns())
    }

    /// The bind patterns of this listen directive, in order.
    pub fn try_to_bind_patterns(&self) -> (result: Result<
        Vec<BindPattern>,
        ListenBindPatternError,
    >)
        requires
            pattern_texts(self@) matches Some(inputs) ==> all_fit(inputs),
        ensures
            match pattern_texts(self@) {
                Some(inputs) => reads_patterns(inputs, result),
                None => result matches Err(
                    ListenBindPatternError::UnsupportedIfaceRange { range },
                ) && range@ == self.range@,
            },
    {
        let inputs = match self.bind_pattern_texts() {
            Ok(inputs) => inputs,
            Err(error) => {
                return Err(error);
            },
        };
        let mut patterns: Vec<BindPattern> = Vec::new();
        let mut i: usize = 0;
        while i < inputs.len()
            invariant
                i <= inputs@.len(),
                pattern_texts(self@) == Some(texts(inputs@)),
                all_fit(texts(inputs@)),
                patterns@.len() == i,
                forall|k: int|
                    0 <= k < i ==> bind_pattern(#[trigger] texts(inputs@)[k]) == Ok::<
                        Seq<char>,
                        Seq<char>,
                    >(patterns@[k]@),
            decreases inputs@.len() - i,
        {
            assert(fits_pattern(texts(inputs@)[i as int]));
            match BindPattern::parse(inputs[i].as_str()) {
                Ok(pattern) => {
                    patterns.push(pattern);
                },
                Err(reason) => {
                    let input = inputs[i].clone();
                    assert(bind_pattern(texts(inputs@)[i as int]) is Err);
                    return Err(ListenBindPatternError::GeneratedBindPattern { input, reason });
                },
            }
            i += 1;
        }
        Ok(patterns)
    }
}

/// Listening on all interfaces, or on one, gives one pattern. It names the interfaces and the port,
/// and before the interfaces the only IP version, where there is one.
pub proof fn interface_pattern_tells_all(listens: ListensView, host: Seq<char>)
    requires
        listens.specific_addrs is None,
        listens.range is All && host == seq!['*'] || listens.range == RangeView::Exact(host),
    ensures
        pattern_texts(listens) matches Some(list) && list.len() == 1 && match listens.families {
            IpFamilies::V4 => list[0] == "iface://v4."@ + host + seq![':'] + decimal(
                listens.port as nat,
            ),
            IpFamilies::V6 => list[0] == "iface://v6."@ + host + seq![':'] + decimal(
                listens.port as nat,
            ),
            IpFamilies::Dual => list[0] == "iface://"@ + host + seq![':'] + decimal(
                listens.port as nat,
            ),
        },
{
    reveal_strlit("iface://");
    reveal_strlit("iface://v4.");
    reveal_strlit("iface://v6.");
    reveal_strlit("v4.");
    reveal_strlit("v6.");
    reveal_strlit("");
    reveal_strlit("*");
    reveal_strlit(":");
    assert("iface://v4."@ =~= "iface://"@ + "v4."@);
    assert("iface://v6."@ =~= "iface://"@ + "v6."@);
    assert("iface://"@ =~= "iface://"@ + ""@);
    assert("*"@ =~= seq!['*']);
    assert(":"@ =~= seq![':']);
}

/// A pattern for all interfaces, or for one, begins with the IP version that is asked for, and with
/// none where both are.
pub proof fn interface_pattern_begins_with_its_version(listens: ListensView, list: Seq<Seq<char>>)
    requires
        listens.specific_addrs is None,
        listens.range is All || listens.range is Exact,
        pattern_texts(listens) == Some(list),
    ensures
        list.len() == 1,
        listens.families is V4 ==> list[0].len() > 11 && list[0].take(11) == "iface://v4."@,
        listens.families is V6 ==> list[0].len() > 11 && list[0].take(11) == "iface://v6."@,
        listens.range is All && listens.families is Dual ==> list[0].take(10) == "iface://*:"@,
{
    let host = match listens.range {
        RangeView::Exact(name) => name,
        _ => seq!['*'],
    };
    interface_pattern_tells_all(listens, host);
    reveal_strlit("iface://");
    reveal_strlit("iface://v4.");
    reveal_strlit("iface://v6.");
    reveal_strlit("iface://*:");
    if listens.families is V4 {
        assert(list[0].take(11) =~= "iface://v4."@);
    }
    if listens.families is V6 {
        assert(list[0].take(11) =~= "iface://v6."@);
    }
    if listens.range is All && listens.families is Dual {
        assert(list[0].take(10) =~= "iface://*:"@);
    }
}

/// Listening on other IP versions gives other patterns, whatever the interfaces.
pub proof fn families_change_the_patterns(one: ListensView, other: ListensView)
    requires
        one.specific_addrs is None && other.specific_addrs is None,
        one.range == other.range && !(one.range is External),
        one.port == other.port,
        one.families != other.families,
    ensures
        pattern_texts(one) != pattern_texts(other),
{
    reveal_strlit("iface://");
    reveal_strlit("iface://v4.");
    reveal_strlit("iface://v6.");
    if one.range is Internal {
        loopback_patterns_follow_the_families(one);
        loopback_patterns_follow_the_families(other);
        reveal_strlit("inet://127.0.0.1:");
        reveal_strlit("inet://[::1]:");
        let v4 = "inet://127.0.0.1:"@ + decimal(one.port as nat);
        let v6 = "inet://[::1]:"@ + decimal(one.port as nat);
        assert(v4[7] == '1' && v6[7] == '[');
        assert(pattern_texts(one)->0.len() == pattern_texts(other)->0.len() ==> pattern_texts(
            one,
        )->0[0] != pattern_texts(other)->0[0]);
    } else {
        let host = match one.range {
            RangeView::Exact(name) => name,
            _ => seq!['*'],
        };
        interface_pattern_tells_all(one, host);
        interface_pattern_tells_all(other, host);
        let first = pattern_texts(one)->0[0];
        let second = pattern_texts(other)->0[0];
        assert(first.len() == second.len() ==> first[9] != second[9]);
    }
}

/// Listening on other ports gives other patterns, whatever the interfaces.
pub proof fn ports_change_the_patterns(one: ListensView, other: ListensView)
    requires
        one.specific_addrs is None && other.specific_addrs is None,
        one.range == other.range && !(one.range is External),
        one.families == other.families,
        one.port != other.port,
    ensures
        pattern_texts(one) != pattern_texts(other),
{
    decimal_reads_back(one.port as nat, 0xffff);
    decimal_reads_back(other.port as nat, 0xffff);
    let a = decimal(one.port as nat);
    let b = decimal(other.port as nat);
    assert(a != b);
    let first = pattern_texts(one)->0[0];
    let second = pattern_texts(other)->0[0];
    let head = first.take(first.len() - a.len());
    if one.range is Internal {
        loopback_patterns_follow_the_families(one);
        loopback_patterns_follow_the_families(other);
    } else {
        let host = match one.range {
            RangeView::Exact(name) => name,
            _ => seq!['*'],
        };
        interface_pattern_tells_all(one, host);
        interface_pattern_tells_all(other, host);
    }
    if first == second {
        assert(first.skip(head.len() as int) =~= a);
        assert(second.skip(head.len() as int) =~= b);
    }
}

/// Listening inside the machine gives its loopback address of each IP version that is asked for, the
/// older version first.
pub proof fn loopback_patterns_follow_the_families(listens: ListensView)
    requires
        listens.specific_addrs is None,
        listens.range is Internal,
    ensures
        pattern_texts(listens) == Some(
            match listens.families {
                IpFamilies::V4 => seq!["inet://127.0.0.1:"@ + decimal(listens.port as nat)],
                IpFamilies::V6 => seq!["inet://[::1]:"@ + decimal(listens.port as nat)],
                IpFamilies::Dual => seq![
                    "inet://127.0.0.1:"@ + decimal(listens.port as nat),
                    "inet://[::1]:"@ + decimal(listens.port as nat),
                ],
            },
        ),
{
}

/// Addresses that are named outright are bound one by one, in their order, and nothing else is.
/// Without them, interfaces that cannot be told apart give no pattern.
pub proof fn named_addresses_are_bound_as_they_are(listens: ListensView)
    ensures
        pattern_texts(listens) is None <==> listens.specific_addrs is None && listens.range is External,
        listens.specific_addrs matches Some(addrs) ==> {
            &&& pattern_texts(listens) matches Some(list)
            &&& list.len() == addrs.len()
            &&& forall|i: int|
                0 <= i < addrs.len() ==> #[trigger] list[i] == "inet://"@ + addr_text(addrs[i])
        },
{
}

/// The words for IP versions and for groups of interfaces.
pub proof fn listen_words_have_a_meaning(text: Seq<char>)
    ensures
        families_of(text) == Some(IpFamilies::V4) <==> text == seq!['v', '4', 'o', 'n', 'l', 'y'],
        families_of(text) == Some(IpFamilies::V6) <==> text == seq!['v', '6', 'o', 'n', 'l', 'y'],
        families_of(text) == Some(IpFamilies::Dual) <==> text == seq!['d', 'u', 'a', 'l'],
        range_of(text) is All <==> text == seq!['a', 'l', 'l'],
        range_of(text) is External <==> text == seq!['e', 'x', 't', 'e', 'r', 'n', 'a', 'l'],
        range_of(text) is Internal <==> text == seq!['i', 'n', 't', 'e', 'r', 'n', 'a', 'l'],
        range_of(text) matches RangeView::Exact(name) ==> name == text,
{
    reveal_strlit("v4only");
    reveal_strlit("v6only");
    reveal_strlit("dual");
    reveal_strlit("all");
    reveal_strlit("external");
    reveal_strlit("internal");
    assert("v4only"@ =~= seq!['v', '4', 'o', 'n', 'l', 'y']);
    assert("v6only"@ =~= seq!['v', '6', 'o', 'n', 'l', 'y']);
    assert("dual"@ =~= seq!['d', 'u', 'a', 'l']);
    assert("all"@ =~= seq!['a', 'l', 'l']);
    assert("external"@ =~= seq!['e', 'x', 't', 'e', 'r', 'n', 'a', 'l']);
    assert("internal"@ =~= seq!['i', 'n', 't', 'e', 'r', 'n', 'a', 'l']);
    assert("v4only"@[1] != "v6only"@[1]);
    assert("external"@[0] != "internal"@[0]);
    assert("dual"@.len() == 4 && "all"@.len() == 3 && "v4only"@.len() == 6 && "v6only"@.len() == 6);
    assert("external"@.len() == 8 && "internal"@.len() == 8);
}

/// Every interface is in the range of all, only the loopback interfaces are inside, and a name holds
/// for itself alone.
pub proof fn ranges_hold_their_interfaces(range: RangeView, iface: Seq<char>)
    ensures
        range is All ==> range_contains(range, iface),
        range is External ==> !range_contains(range, iface),
        range is Internal ==> range_contains(range, iface) == (iface == seq!['l', 'o'] || iface == seq![
            'l',
            'o',
            '0',
        ]),
        range matches RangeView::Exact(name) ==> range_contains(range, iface) == (iface == name),
{
    reveal_strlit("lo");
    reveal_strlit("lo0");
    assert("lo"@ =~= seq!['l', 'o']);
    assert("lo0"@ =~= seq!['l', 'o', '0']);
}

} // verus!
