//! The `access_rules` directive, which names a database of access rules.
use vstd::prelude::*;
use vstd::utf8::{encode_utf8, is_ascii_chars, is_ascii_chars_encode_utf8};

use crate::outside::{
    dot_len, dots_at, ends_segment, has_no_dots, has_parts, hex_digit, is_url_path, is_url_query, parse_url, parts_fit, percent_decoded, set_url_parts, text_view, url_read,
    url_with_parts, Url, UrlView,
};
use crate::parse::ast::AstDirective;
use crate::parse::builtin::basic::{first_arg_place, only_arg};
use crate::parse::builtin::DirectiveError;
use crate::parse::decode::{first_place, is_count_error, DirectiveValue};
use crate::parse::domain::is_resolved;
use crate::parse::normalize::{
    base_dir_of, is_resolution, normalize_path, path_in, NormalizeDirectiveValueError,
};
use crate::parse::source::{SourceMap, SourceSpan};
use crate::parse::types::{
    has_foreign_parts, is_access_rules, sqlite_path, url_path_bytes, AccessRulesUri,
    AccessRulesUriValidationError,
};
use crate::path::{is_absolute, UnixPath, SEPARATOR};
use crate::text::{has_prefix, push_char, starts_with, texts};

verus! {

/// Why a text is no URL.
#[derive(Debug, PartialEq, Eq)]
pub struct InvalidUrl {
    pub reason: String,
}

impl InvalidUrl {
    pub open spec fn text(self) -> Seq<char> {
        self.reason@
    }

    pub fn message(&self) -> (text: String)
        ensures
            text@ == self.text(),
    {
        self.reason.clone()
    }
}

/// Why a directive names no database of access rules.
#[derive(Debug)]
#[allow(inconsistent_fields)]
pub enum AccessRulesUriError {
    InvalidArgumentCount { span: SourceSpan, expected: &'static str, actual: usize },
    Uri { span: SourceSpan, source: InvalidUrl },
    ResolveRelativePath { span: SourceSpan, source: NormalizeDirectiveValueError },
    PathUrl { span: SourceSpan, path: UnixPath },
    Domain { span: SourceSpan, source: AccessRulesUriValidationError },
}

impl AccessRulesUriError {
    /// The message of this error.
    pub open spec fn text(self) -> Seq<char> {
        match self {
            AccessRulesUriError::InvalidArgumentCount { .. } => "invalid access_rules uri directive argument count"@,
            AccessRulesUriError::Uri { .. } => "invalid access_rules uri directive value"@,
            AccessRulesUriError::ResolveRelativePath { .. } => "failed to resolve relative access_rules sqlite path"@,
            AccessRulesUriError::PathUrl { .. } => "failed to encode the access_rules sqlite path as a URL"@,
            AccessRulesUriError::Domain { .. } => "invalid access_rules uri domain"@,
        }
    }

    /// The message of this error.
    pub fn message(&self) -> (text: String)
        ensures
            text@ == self.text(),
    {
        match self {
            AccessRulesUriError::InvalidArgumentCount { .. } => "invalid access_rules uri directive argument count".to_owned(),
            AccessRulesUriError::Uri { .. } => "invalid access_rules uri directive value".to_owned(),
            AccessRulesUriError::ResolveRelativePath { .. } => "failed to resolve relative access_rules sqlite path".to_owned(),
            AccessRulesUriError::PathUrl { .. } => "failed to encode the access_rules sqlite path as a URL".to_owned(),
            AccessRulesUriError::Domain { .. } => "invalid access_rules uri domain".to_owned(),
        }
    }

    /// The messages of this error and of what caused it, outermost first.
    pub open spec fn chain(self) -> Seq<Seq<char>> {
        match self {
            AccessRulesUriError::Uri { source, .. } => seq![self.text(), source.text()],
            AccessRulesUriError::ResolveRelativePath { source, .. } => seq![self.text()] + source.chain(),
            AccessRulesUriError::Domain { source, .. } => seq![self.text(), source.text()],
            _ => seq![self.text()],
        }
    }

    /// The messages of this error and of what caused it, outermost first.
    pub fn messages(&self) -> (list: Vec<String>)
        ensures
            texts(list@) == self.chain(),
    {
        let mut list: Vec<String> = Vec::new();
        list.push(self.message());
        match self {
            AccessRulesUriError::Uri { source, .. } => {
                list.push(source.message());
            },
            AccessRulesUriError::ResolveRelativePath { source, .. } => {
                let mut causes = source.messages();
                let ghost head = list@;
                let ghost tail = causes@;
                list.append(&mut causes);
                assert(texts(list@) =~= texts(head) + texts(tail));
                assert(texts(head) =~= seq![self.text()]);
            },
            AccessRulesUriError::Domain { source, .. } => {
                list.push(source.message());
            },
            _ => {},
        }
        assert(texts(list@) =~= self.chain());
        list
    }
}

/// Whether a byte of a path stands for itself in a URL: a visible ASCII character that no URL
/// gives a meaning of its own, or the separator.
pub open spec fn stands_for_itself(b: u8) -> bool {
    0x21 <= b && b <= 0x7e && b != 0x22 && b != 0x23 && b != 0x25 && b != 0x3c && b != 0x3e && b
        != 0x3f && b != 0x5c && b != 0x60 && b != 0x7b && b != 0x7d
}

/// The capital hexadecimal digit of a value below sixteen.
pub open spec fn capital_hex(value: nat) -> char {
    if value < 10 {
        ('0' as u32 + value) as char
    } else {
        ('A' as u32 + value - 10) as char
    }
}

/// A byte of a path in a URL.
pub open spec fn byte_in_url(b: u8) -> Seq<char> {
    if stands_for_itself(b) {
        seq![b as char]
    } else {
        seq!['%', capital_hex((b / 16) as nat), capital_hex((b % 16) as nat)]
    }
}

/// A path as the path of a URL.
pub open spec fn path_in_url(path: Seq<u8>) -> Seq<char>
    decreases path.len(),
{
    if path.len() == 0 {
        seq![]
    } else {
        byte_in_url(path[0]) + path_in_url(path.skip(1))
    }
}

fn hex_char(value: u8) -> (c: char)
    requires
        value < 16,
    ensures
        c == capital_hex(value as nat),
{
    if value < 10 {
        (48 + value) as char
    } else {
        (55 + value) as char
    }
}

/// Writes a path as the path of a URL.
fn encode_path(path: &UnixPath) -> (text: String)
    ensures
        text@ == path_in_url(path@),
{
    let mut text = String::new();
    let mut i: usize = 0;
    assert(path@.skip(0) =~= path@);
    assert(path_in_url(path@) =~= text@ + path_in_url(path@.skip(0)));
    while i < path.bytes.len()
        invariant
            i <= path.bytes@.len(),
            path@ == path.bytes@,
            path_in_url(path@) == text@ + path_in_url(path@.skip(i as int)),
        decreases path.bytes@.len() - i,
    {
        let b: u8 = path.bytes[i];
        assert(path@.skip(i as int).skip(1) =~= path@.skip(i + 1));
        let ghost before = text@;
        if 0x21 <= b && b <= 0x7e && b != 0x22 && b != 0x23 && b != 0x25 && b != 0x3c && b != 0x3e
            && b != 0x3f && b != 0x5c && b != 0x60 && b != 0x7b && b != 0x7d {
            push_char(&mut text, b as char);
        } else {
            push_char(&mut text, '%');
            push_char(&mut text, hex_char(b / 16));
            push_char(&mut text, hex_char(b % 16));
        }
        assert(text@ =~= before + byte_in_url(b));
        assert(path_in_url(path@) =~= text@ + path_in_url(path@.skip(i + 1)));
        i += 1;
    }
    assert(path_in_url(path@) =~= text@);
    text
}

proof fn lemma_byte_in_url(b: u8)
    ensures
        is_ascii_chars(byte_in_url(b)),
        !stands_for_itself(b) ==> hex_digit(capital_hex((b / 16) as nat) as u8) == Some(
            (b / 16) as u8,
        ) && hex_digit(capital_hex((b % 16) as nat) as u8) == Some((b % 16) as u8),
{
    assert(b / 16 < 16);
    assert(b % 16 < 16);
}

proof fn lemma_path_in_url_ascii(path: Seq<u8>)
    ensures
        is_ascii_chars(path_in_url(path)),
    decreases path.len(),
{
    if path.len() > 0 {
        lemma_byte_in_url(path[0]);
        lemma_path_in_url_ascii(path.skip(1));
    }
}

proof fn lemma_kept_characters(path: Seq<u8>)
    ensures
        is_url_path(seq!['/'] + path_in_url(path)),
    decreases path.len(),
{
    if path.len() > 0 {
        let b = path[0];
        let rest = path_in_url(path.skip(1));
        lemma_byte_in_url(b);
        lemma_kept_characters(path.skip(1));
        assert(b / 16 < 16 && b % 16 < 16);
        let whole = seq!['/'] + path_in_url(path);
        let shorter = seq!['/'] + rest;
        assert forall|i: int| 0 <= i < whole.len() implies '!' <= #[trigger] whole[i] && whole[i]
            <= '~' && whole[i] != '"' && whole[i] != '#' && whole[i] != '<' && whole[i] != '>'
            && whole[i] != '?' && whole[i] != '`' && whole[i] != '{' && whole[i] != '}' by {
            let n = byte_in_url(b).len() as int;
            if i > n {
                assert(whole[i] == shorter[i - n]);
            } else if i > 0 {
                assert(whole[i] == byte_in_url(b)[i - 1]);
            }
        }
    }
}

proof fn lemma_url_path(path: Seq<u8>)
    requires
        is_absolute(path),
    ensures
        is_url_path(path_in_url(path)),
{
    let rest = path_in_url(path.skip(1));
    lemma_kept_characters(path.skip(1));
    assert(path_in_url(path) =~= seq!['/'] + rest);
}

/// The bytes of ASCII characters.
spec fn ascii_bytes(chars: Seq<char>) -> Seq<u8> {
    chars.map_values(|c: char| c as u8)
}

proof fn lemma_decoded_bytes(path: Seq<u8>)
    ensures
        percent_decoded(ascii_bytes(path_in_url(path))) == path,
    decreases path.len(),
{
    if path.len() > 0 {
        let b = path[0];
        let rest = path.skip(1);
        let bytes = ascii_bytes(path_in_url(path));
        lemma_byte_in_url(b);
        lemma_decoded_bytes(rest);
        assert(path =~= seq![b] + rest);
        if stands_for_itself(b) {
            assert(bytes[0] == b);
            assert(bytes.skip(1) =~= ascii_bytes(path_in_url(rest)));
        } else {
            assert(bytes[0] == 37);
            assert(bytes[1] == capital_hex((b / 16) as nat) as u8);
            assert(bytes[2] == capital_hex((b % 16) as nat) as u8);
            assert(bytes.skip(3) =~= ascii_bytes(path_in_url(rest)));
            assert((b / 16) * 16 + b % 16 == b);
        }
    } else {
        assert(ascii_bytes(path_in_url(path)) =~= seq![]);
    }
}

/// A path that is written into a URL and decoded again is the same path, byte for byte.
pub proof fn path_in_url_decodes(path: Seq<u8>)
    ensures
        percent_decoded(encode_utf8(path_in_url(path))) == path,
{
    lemma_path_in_url_ascii(path);
    lemma_decoded_bytes(path);
    is_ascii_chars_encode_utf8(path_in_url(path));
    assert(encode_utf8(path_in_url(path)) =~= ascii_bytes(path_in_url(path)));
}

/// The URL that a database URL is built on: one with an empty authority, or one without.
pub open spec fn database_root(empty_authority: bool) -> Seq<char> {
    if empty_authority {
        "sqlite:///"@
    } else {
        "sqlite:/"@
    }
}

/// The error for a text that spells no URL.
pub open spec fn is_url_error<T>(
    place: SourceSpan,
    reason: Seq<char>,
    result: Result<T, AccessRulesUriError>,
) -> bool {
    result matches Err(AccessRulesUriError::Uri { span, source }) && span == place && source.text()
        == reason
}

/// What writing a database path into a URL gives. A path that is not absolute, or that is too long
/// for a URL, cannot be written.
pub open spec fn encodes_sqlite_path(
    path: Seq<u8>,
    query: Option<Seq<char>>,
    empty_authority: bool,
    place: SourceSpan,
    result: Result<UrlView, AccessRulesUriError>,
) -> bool {
    let root = database_root(empty_authority);
    let encoded = path_in_url(path);
    if is_absolute(path) && parts_fit(root, encoded, query is Some) {
        result matches Ok(url) && url == url_with_parts(root, encoded, query) && has_parts(
            url,
            encoded,
            query,
        )
    } else {
        result matches Err(AccessRulesUriError::PathUrl { span, path: named }) && span == place
            && named@ == path
    }
}

/// Writes a database path and a query into a URL.
fn encode_sqlite_path(
    path: &UnixPath,
    query: &Option<String>,
    use_empty_authority: bool,
    span: SourceSpan,
) -> (result: Result<Url, AccessRulesUriError>)
    ensures
        match result {
            Ok(url) => encodes_sqlite_path(
                path@,
                text_view(*query),
                use_empty_authority,
                span,
                Ok(url@),
            ),
            Err(error) => encodes_sqlite_path(
                path@,
                text_view(*query),
                use_empty_authority,
                span,
                Err(error),
            ),
        },
{
    if !path.is_absolute() {
        return Err(AccessRulesUriError::PathUrl { span, path: path.clone() });
    }
    let encoded = encode_path(path);
    let root = if use_empty_authority {
        "sqlite:///"
    } else {
        "sqlite:/"
    };
    let before: usize = if use_empty_authority {
        9
    } else {
        7
    };
    let behind: usize = if query.is_some() {
        1
    } else {
        0
    };
    proof {
        reveal_strlit("sqlite:///");
        reveal_strlit("sqlite:/");
        lemma_path_in_url_ascii(path@);
        is_ascii_chars_encode_utf8(encoded@);
        lemma_url_path(path@);
    }
    if encoded.as_str().as_bytes().len() > u32::MAX as usize - before - behind {
        return Err(AccessRulesUriError::PathUrl { span, path: path.clone() });
    }
    match set_url_parts(root, encoded.as_str(), query) {
        Ok(url) => Ok(url),
        Err(reason) => Err(AccessRulesUriError::Uri { span, source: InvalidUrl { reason } }),
    }
}

/// What reading an `access_rules` URL gives: the URL of the absolute database path.
pub open spec fn reads_access_rules(
    url: UrlView,
    place: SourceSpan,
    base: Option<Seq<u8>>,
    result: Result<UrlView, AccessRulesUriError>,
) -> bool {
    let path = url_path_bytes(url);
    if url.scheme != "sqlite"@ || has_foreign_parts(url) || path.contains(0u8) {
        result matches Err(AccessRulesUriError::Domain { span, source }) && span == place
            && sqlite_path(url, Err(source))
    } else if result matches Err(AccessRulesUriError::ResolveRelativePath { .. }) {
        result matches Err(AccessRulesUriError::ResolveRelativePath { span, source }) && span
            == place && is_resolution(path, base, place, Err(source))
    } else {
        exists|full: Seq<u8>| #[trigger]
            is_resolution(path, base, place, Ok(full)) && checks_database_url(
                full,
                url.query,
                !is_absolute(path) || has_prefix(url.text, "sqlite://"@),
                place,
                result,
            )
    }
}

/// What writing a database path into a URL and checking that URL gives.
pub open spec fn checks_database_url(
    full: Seq<u8>,
    query: Option<Seq<char>>,
    empty_authority: bool,
    place: SourceSpan,
    result: Result<UrlView, AccessRulesUriError>,
) -> bool {
    match result {
        Ok(url) => encodes_sqlite_path(full, query, empty_authority, place, Ok(url))
            && is_access_rules(url),
        Err(AccessRulesUriError::Domain { span, source }) => span == place && exists|url: UrlView|
            #[trigger] encodes_sqlite_path(full, query, empty_authority, place, Ok(url))
                && !is_access_rules(url) && is_domain_fault(url, source),
        Err(error) => encodes_sqlite_path(full, query, empty_authority, place, Err(error)),
    }
}

/// Why a URL is not that of a database of access rules.
pub open spec fn is_domain_fault(url: UrlView, error: AccessRulesUriValidationError) -> bool {
    if url.scheme == "sqlite"@ && !has_foreign_parts(url) && !url_path_bytes(url).contains(0u8) {
        error is RelativePath
    } else {
        sqlite_path(url, Err(error))
    }
}

/// Whether a component of a path begins behind a separator and is one dot or two.
pub open spec fn dots_behind(path: Seq<u8>, at: int) -> bool {
    let ends = |i: int| i >= path.len() || path[i] == SEPARATOR;
    at + 1 < path.len() && path[at + 1] == 46 && (ends(at + 2) || path[at + 2] == 46 && ends(at + 3))
}

/// Whether no component of a path leads back up, or stays where it is.
pub open spec fn leads_down(path: Seq<u8>) -> bool {
    forall|i: int| 0 <= i < path.len() && #[trigger] path[i] == SEPARATOR ==> !dots_behind(path, i)
}

proof fn lemma_first_byte(path: Seq<u8>)
    ensures
        ends_segment(path_in_url(path), 0) == (path.len() == 0 || path[0] == SEPARATOR),
        dot_len(path_in_url(path), 0) == if path.len() > 0 && path[0] == 46 {
            1int
        } else {
            0
        },
{
    if path.len() > 0 {
        let b = path[0];
        lemma_byte_in_url(b);
        assert(path_in_url(path)[0] == byte_in_url(b)[0]);
        if !stands_for_itself(b) {
            assert(path_in_url(path)[1] == byte_in_url(b)[1]);
            assert(path_in_url(path)[2] == byte_in_url(b)[2]);
            assert(b / 16 == 2 && b % 16 == 14 ==> b == 46);
        }
    }
}

proof fn lemma_shifted(head: Seq<char>, tail: Seq<char>, at: int)
    requires
        0 <= at,
    ensures
        dot_len(head + tail, head.len() + at) == dot_len(tail, at),
        ends_segment(head + tail, head.len() + at) == ends_segment(tail, at),
{
    let whole = head + tail;
    let n = head.len() as int;
    if at < tail.len() {
        assert(whole[n + at] == tail[at]);
    }
    if at + 2 < tail.len() {
        assert(whole[n + at + 1] == tail[at + 1]);
        assert(whole[n + at + 2] == tail[at + 2]);
    }
}

proof fn lemma_dots(path: Seq<u8>)
    requires
        path.len() > 0 && path[0] == SEPARATOR,
        !dots_behind(path, 0),
    ensures
        !dots_at(path_in_url(path), 1),
{
    let first = path.skip(1);
    lemma_first_byte(first);
    assert(path_in_url(path) == seq!['/'] + path_in_url(first));
    lemma_shifted(seq!['/'], path_in_url(first), 0);
    if first.len() > 0 && first[0] == 46 {
        let second = first.skip(1);
        lemma_first_byte(second);
        assert(path_in_url(first) == seq!['.'] + path_in_url(second));
        lemma_shifted(seq!['/'], path_in_url(first), 1);
        lemma_shifted(seq!['.'], path_in_url(second), 0);
        if second.len() > 0 && second[0] == 46 {
            let third = second.skip(1);
            lemma_first_byte(third);
            assert(path_in_url(second) == seq!['.'] + path_in_url(third));
            lemma_shifted(seq!['/'], path_in_url(first), 2);
            lemma_shifted(seq!['.'], path_in_url(second), 1);
            lemma_shifted(seq!['.'], path_in_url(third), 0);
        }
    }
}

proof fn lemma_leads_down(path: Seq<u8>)
    requires
        leads_down(path),
    ensures
        has_no_dots(path_in_url(path)),
    decreases path.len(),
{
    if path.len() > 0 {
        let b = path[0];
        let rest = path.skip(1);
        let whole = path_in_url(path);
        let tail = path_in_url(rest);
        let n = byte_in_url(b).len() as int;
        assert forall|i: int| 0 <= i < rest.len() && #[trigger] rest[i] == SEPARATOR implies !dots_behind(
            rest,
            i,
        ) by {
            assert(path[i + 1] == SEPARATOR);
        }
        lemma_leads_down(rest);
        lemma_byte_in_url(b);
        assert forall|i: int| 0 <= i < whole.len() && #[trigger] whole[i] == '/' implies !dots_at(
            whole,
            i + 1,
        ) by {
            if i >= n {
                assert(tail[i - n] == '/');
                let at = i - n + 1;
                lemma_shifted(byte_in_url(b), tail, at);
                let one = dot_len(tail, at);
                lemma_shifted(byte_in_url(b), tail, at + one);
                let two = dot_len(tail, at + one);
                lemma_shifted(byte_in_url(b), tail, at + one + two);
            } else {
                assert(whole[i] == byte_in_url(b)[i]);
                assert(path[0] == SEPARATOR);
                lemma_dots(path);
            }
        }
    }
}

/// A database that an `access_rules` URL names is the one that is opened: the path in the resulting
/// URL is the resolved path, byte for byte, and the query is the one that was given. Left out are
/// paths with a component of dots, which a URL takes away, and queries that a URL encodes.
pub proof fn database_path_keeps_its_bytes(
    url: UrlView,
    place: SourceSpan,
    base: Option<Seq<u8>>,
    built: UrlView,
)
    requires
        reads_access_rules(url, place, base, Ok(built)),
        path_in(url_path_bytes(url), base) matches Some(full) && leads_down(full),
    ensures
        path_in(url_path_bytes(url), base) == Some(url_path_bytes(built)),
        match url.query {
            Some(query) => is_url_query(query) ==> built.query == Some(query),
            None => built.query is None,
        },
{
    let full = path_in(url_path_bytes(url), base)->0;
    lemma_leads_down(full);
    path_in_url_decodes(full);
}

/// A URL with the scheme `sqlite`, and nothing else but a path and perhaps a query, is read where its
/// path can be resolved and fits in a URL. Left out are paths with a component of dots.
pub proof fn databases_are_read(
    url: UrlView,
    place: SourceSpan,
    base: Option<Seq<u8>>,
    result: Result<UrlView, AccessRulesUriError>,
)
    requires
        reads_access_rules(url, place, base, result),
        url.scheme == "sqlite"@ && !has_foreign_parts(url) && !url_path_bytes(url).contains(0u8),
        path_in(url_path_bytes(url), base) matches Some(full) && is_resolved(full) && leads_down(full)
            && parts_fit("sqlite:///"@, path_in_url(full), url.query is Some),
    ensures
        result is Ok,
{
    let full = path_in(url_path_bytes(url), base)->0;
    reveal_strlit("sqlite:///");
    reveal_strlit("sqlite:/");
    lemma_leads_down(full);
    path_in_url_decodes(full);
}

/// Reads an `access_rules` URL that was taken apart.
pub fn read_access_rules(url: &Url, place: SourceSpan, source_map: &SourceMap) -> (result: Result<
    AccessRulesUri,
    AccessRulesUriError,
>)
    ensures
        match result {
            Ok(uri) => reads_access_rules(
                url@,
                place,
                base_dir_of(*source_map, place),
                Ok(uri@),
            ),
            Err(error) => reads_access_rules(
                url@,
                place,
                base_dir_of(*source_map, place),
                Err(error),
            ),
        },
{
    let path = match AccessRulesUri::decoded_sqlite_path(url) {
        Ok(path) => path,
        Err(source) => {
            return Err(AccessRulesUriError::Domain { span: place, source });
        },
    };
    let use_empty_authority = !path.is_absolute() || starts_with(url.text.as_str(), "sqlite://");
    let full = match normalize_path(&path, place, source_map) {
        Ok(full) => full,
        Err(source) => {
            return Err(AccessRulesUriError::ResolveRelativePath { span: place, source });
        },
    };
    assert(is_resolution(path@, base_dir_of(*source_map, place), place, Ok(full@)));
    let built = match encode_sqlite_path(&full, &url.query, use_empty_authority, place) {
        Ok(built) => built,
        Err(error) => {
            return Err(error);
        },
    };
    let ghost whole = built@;
    match AccessRulesUri::try_from(built) {
        Ok(uri) => Ok(uri),
        Err(source) => {
            assert(is_domain_fault(whole, source));
            Err(AccessRulesUriError::Domain { span: place, source })
        },
    }
}

impl DirectiveValue for AccessRulesUri {
    type Error = AccessRulesUriError;

    open spec fn reads(
        directive: AstDirective,
        sources: SourceMap,
        result: Result<Self, AccessRulesUriError>,
    ) -> bool {
        if directive.args@.len() == 1 {
            let place = directive.args@[0].span;
            match url_read(directive.arg(0)) {
                Ok(url) => match result {
                    Ok(uri) => reads_access_rules(url, place, base_dir_of(sources, place), Ok(uri@)),
                    Err(error) => reads_access_rules(
                        url,
                        place,
                        base_dir_of(sources, place),
                        Err(error),
                    ),
                },
                Err(reason) => is_url_error(place, reason, result),
            }
        } else {
            result matches Err(AccessRulesUriError::InvalidArgumentCount { span, expected, actual })
                && is_count_error(directive, span, expected@, actual, "1"@)
        }
    }

    open spec fn place(directive: AstDirective) -> SourceSpan {
        first_place(directive)
    }

    open spec fn wrapped(error: AccessRulesUriError) -> DirectiveError {
        DirectiveError::AccessRulesUri(error)
    }

    proof fn reads_one_way(
        directive: AstDirective,
        sources: SourceMap,
        value: Self,
        error: AccessRulesUriError,
    ) {
    }

    fn read(directive: &AstDirective, source_map: &SourceMap) -> (result: Result<Self, AccessRulesUriError>) {
        let arg = match only_arg(directive) {
            Some(arg) => arg,
            None => {
                return Err(
                    AccessRulesUriError::InvalidArgumentCount {
                        span: directive.span,
                        expected: "1",
                        actual: directive.args.len(),
                    },
                );
            },
        };
        match parse_url(arg.value.as_str()) {
            Ok(url) => read_access_rules(&url, arg.span, source_map),
            Err(reason) => Err(
                AccessRulesUriError::Uri { span: arg.span, source: InvalidUrl { reason } },
            ),
        }
    }

    fn place_of(directive: &AstDirective) -> (span: SourceSpan) {
        first_arg_place(directive)
    }

    fn wrap(error: AccessRulesUriError) -> (wrapped: DirectiveError) {
        DirectiveError::AccessRulesUri(error)
    }
}

} // verus!
