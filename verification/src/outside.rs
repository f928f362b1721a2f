//! What the library has from other crates: URIs, URLs, header fields, regular expressions,
//! DHttp names and bind patterns. Each function here makes one outside call and turns its result into plain values.
use vstd::prelude::*;
use vstd::utf8::*;

verus! {

/// A byte that a header value may hold: a tab, or a byte from the space up that is not DEL.
pub open spec fn is_header_value_byte(b: u8) -> bool {
    b == 9 || (b >= 32 && b != 127)
}

/// Whether bytes form a header value.
pub open spec fn is_header_value(bytes: Seq<u8>) -> bool {
    forall|i: int| 0 <= i < bytes.len() ==> is_header_value_byte(#[trigger] bytes[i])
}

/// `http::HeaderValue::from_bytes` accepts bytes each of which is a tab or a byte from 32 up other
/// than 127, and keeps them as they are.
#[verifier::external_body]
pub(crate) fn header_value_bytes(bytes: &[u8]) -> (value: Option<Vec<u8>>)
    ensures
        match value {
            Some(value) => is_header_value(bytes@) && value@ == bytes@,
            None => !is_header_value(bytes@),
        },
{
    http::HeaderValue::from_bytes(bytes).ok().map(|value| value.as_bytes().to_vec())
}

/// A byte that a header name may hold.
pub open spec fn is_token_byte(b: u8) -> bool {
    (48 <= b && b <= 57) || (65 <= b && b <= 90) || (97 <= b && b <= 122) || b == 33 || (35 <= b
        && b <= 39) || b == 42 || b == 43 || b == 45 || b == 46 || (94 <= b && b <= 96) || b == 124
        || b == 126
}

/// Whether bytes form a header name.
pub open spec fn is_header_name(bytes: Seq<u8>) -> bool {
    &&& 0 < bytes.len() <= 65535
    &&& forall|i: int| 0 <= i < bytes.len() ==> is_token_byte(#[trigger] bytes[i])
}

/// A byte with an ASCII capital letter made small.
pub open spec fn lower_byte(b: u8) -> u8 {
    if 65 <= b && b <= 90 {
        (b + 32) as u8
    } else {
        b
    }
}

/// `http::HeaderName::from_bytes` accepts one to 65535 token bytes and spells the name with small
/// letters.
#[verifier::external_body]
pub(crate) fn header_name_text(bytes: &[u8]) -> (name: Option<String>)
    ensures
        match name {
            Some(name) => is_header_name(bytes@) && encode_utf8(name@) == bytes@.map_values(
                |b: u8| lower_byte(b),
            ),
            None => !is_header_name(bytes@),
        },
{
    http::HeaderName::from_bytes(bytes).ok().map(|name| name.as_str().to_owned())
}

/// The authority of a URI.
#[derive(Debug, Clone, PartialEq, Eq)]
pub struct Authority {
    pub text: String,
    pub host: String,
    pub port: Option<u16>,
}

/// A URI: its text, its scheme and its authority.
#[derive(Debug, Clone, PartialEq, Eq)]
pub struct Uri {
    pub text: String,
    pub scheme: Option<String>,
    pub authority: Option<Authority>,
}

/// An authority as characters.
pub struct AuthorityView {
    pub text: Seq<char>,
    pub host: Seq<char>,
    pub port: Option<u16>,
}

/// A URI as characters.
pub struct UriView {
    pub text: Seq<char>,
    pub scheme: Option<Seq<char>>,
    pub authority: Option<AuthorityView>,
}

/// An optional string as characters.
pub open spec fn text_view(text: Option<String>) -> Option<Seq<char>> {
    match text {
        Some(text) => Some(text@),
        None => None,
    }
}

impl View for Uri {
    type V = UriView;

    open spec fn view(&self) -> UriView {
        UriView {
            text: self.text@,
            scheme: text_view(self.scheme),
            authority: match self.authority {
                Some(a) => Some(AuthorityView { text: a.text@, host: a.host@, port: a.port }),
                None => None,
            },
        }
    }
}

/// What `http::Uri` reads from a text, or what it says where it reads nothing.
pub uninterp spec fn uri_read(text: Seq<char>) -> Result<UriView, Seq<char>>;

/// The URI that a text spells.
pub open spec fn http_uri(text: Seq<char>) -> Option<UriView> {
    match uri_read(text) {
        Ok(uri) => Some(uri),
        Err(_) => None,
    }
}

/// Whether a text spells no URI, for the given reason.
pub open spec fn is_uri_fault(text: Seq<char>, reason: Seq<char>) -> bool {
    uri_read(text) == Err::<UriView, Seq<char>>(reason)
}

/// `http::Uri::from_str`: the URI that the text spells, taken apart with `to_string`,
/// `scheme_str`, `authority`, `host` and `port_u16`, or the text of the error.
#[verifier::external_body]
pub(crate) fn parse_uri(text: &str) -> (uri: Result<Uri, String>)
    ensures
        match uri {
            Ok(uri) => uri_read(text@) == Ok::<UriView, Seq<char>>(uri@),
            Err(reason) => uri_read(text@) == Err::<UriView, Seq<char>>(reason@),
        },
{
    let uri: http::Uri = text.parse().map_err(|error: http::uri::InvalidUri| error.to_string())?;
    Ok(Uri {
        text: uri.to_string(),
        scheme: uri.scheme_str().map(|scheme| scheme.to_owned()),
        authority: uri.authority().map(|authority| Authority {
            text: authority.as_str().to_owned(),
            host: authority.host().to_owned(),
            port: authority.port_u16(),
        }),
    })
}

/// A URL, taken apart.
#[derive(Debug, PartialEq, Eq)]
pub struct Url {
    pub text: String,
    pub scheme: String,
    pub username: String,
    pub password: Option<String>,
    pub host: Option<String>,
    pub port: Option<u16>,
    pub path: String,
    pub query: Option<String>,
    pub fragment: Option<String>,
}

/// A URL as characters.
pub struct UrlView {
    pub text: Seq<char>,
    pub scheme: Seq<char>,
    pub username: Seq<char>,
    pub password: Option<Seq<char>>,
    pub host: Option<Seq<char>>,
    pub port: Option<u16>,
    pub path: Seq<char>,
    pub query: Option<Seq<char>>,
    pub fragment: Option<Seq<char>>,
}

impl View for Url {
    type V = UrlView;

    open spec fn view(&self) -> UrlView {
        UrlView {
            text: self.text@,
            scheme: self.scheme@,
            username: self.username@,
            password: text_view(self.password),
            host: text_view(self.host),
            port: self.port,
            path: self.path@,
            query: text_view(self.query),
            fragment: text_view(self.fragment),
        }
    }
}

/// What `url::Url` reads from a text, or what it says where it reads nothing.
pub uninterp spec fn url_read(text: Seq<char>) -> Result<UrlView, Seq<char>>;

/// The URL that a text spells.
pub open spec fn url_of(text: Seq<char>) -> Option<UrlView> {
    match url_read(text) {
        Ok(url) => Some(url),
        Err(_) => None,
    }
}

/// Whether a text spells no URL, for the given reason.
pub open spec fn is_url_fault(text: Seq<char>, reason: Seq<char>) -> bool {
    url_read(text) == Err::<UrlView, Seq<char>>(reason)
}

/// `url::Url::parse`: the absolute URL that the text spells, taken apart with the getters of
/// `url::Url`, or the text of the error.
#[verifier::external_body]
pub(crate) fn parse_url(text: &str) -> (url: Result<Url, String>)
    ensures
        match url {
            Ok(url) => url_read(text@) == Ok::<UrlView, Seq<char>>(url@),
            Err(reason) => url_read(text@) == Err::<UrlView, Seq<char>>(reason@),
        },
{
    let url = url::Url::parse(text).map_err(|error| error.to_string())?;
    Ok(Url {
        text: url.as_str().to_owned(),
        scheme: url.scheme().to_owned(),
        username: url.username().to_owned(),
        password: url.password().map(|text| text.to_owned()),
        host: url.host_str().map(|text| text.to_owned()),
        port: url.port(),
        path: url.path().to_owned(),
        query: url.query().map(|text| text.to_owned()),
        fragment: url.fragment().map(|text| text.to_owned()),
    })
}

/// A text, or what is said in its place, as characters.
pub open spec fn changed_text(text: Result<String, String>) -> Result<Seq<char>, Seq<char>> {
    match text {
        Ok(text) => Ok(text@),
        Err(reason) => Err(reason@),
    }
}

/// Whether a text is a path that a URL keeps as it is: a slash, and then visible ASCII characters
/// that have no meaning of their own in a path, or the sign that stands before an encoded byte.
pub open spec fn is_url_path(path: Seq<char>) -> bool {
    &&& path.len() > 0 && path[0] == '/'
    &&& forall|i: int|
        0 <= i < path.len() ==> '!' <= #[trigger] path[i] && path[i] <= '~' && path[i] != '"'
            && path[i] != '#' && path[i] != '<' && path[i] != '>' && path[i] != '?' && path[i] != '`'
            && path[i] != '{' && path[i] != '}'
}

/// Whether the positions inside a URL fit in 32 bits once the path behind its root is replaced and
/// a query begins behind that path.
pub open spec fn parts_fit(root: Seq<char>, path: Seq<char>, has_query: bool) -> bool {
    root.len() - 1 + path.len() + if has_query {
        1int
    } else {
        0
    } <= u32::MAX
}

/// How long the dot is that a path holds at a place: written out or encoded. Zero where there is
/// none.
pub open spec fn dot_len(path: Seq<char>, at: int) -> int {
    if at < path.len() && path[at] == '.' {
        1
    } else if at + 2 < path.len() && path[at] == '%' && path[at + 1] == '2' && (path[at + 2] == 'e'
        || path[at + 2] == 'E') {
        3
    } else {
        0
    }
}

/// Whether a segment of a path ends at a place.
pub open spec fn ends_segment(path: Seq<char>, at: int) -> bool {
    at >= path.len() || path[at] == '/'
}

/// Whether the segment of a path that begins at a place is one dot or two.
pub open spec fn dots_at(path: Seq<char>, at: int) -> bool {
    let one = dot_len(path, at);
    let two = dot_len(path, at + one);
    one > 0 && (ends_segment(path, at + one) || two > 0 && ends_segment(path, at + one + two))
}

/// Whether no segment of a path leads back up, or stays where it is.
pub open spec fn has_no_dots(path: Seq<char>) -> bool {
    forall|i: int| 0 <= i < path.len() && #[trigger] path[i] == '/' ==> !dots_at(path, i + 1)
}

/// Whether a query is made of characters that a URL keeps as they are.
pub open spec fn is_url_query(query: Seq<char>) -> bool {
    forall|i: int|
        0 <= i < query.len() ==> '!' <= #[trigger] query[i] && query[i] <= '~' && query[i] != '"'
            && query[i] != '#' && query[i] != '<' && query[i] != '>'
}

/// What is known of a database URL that a path and a query were set in: it has no parts but these
/// and the scheme, and keeps them where they need no change.
pub open spec fn has_parts(url: UrlView, path: Seq<char>, query: Option<Seq<char>>) -> bool {
    &&& url.scheme == "sqlite"@
    &&& url.username.len() == 0
    &&& url.password is None
    &&& url.host is None
    &&& url.port is None
    &&& url.fragment is None
    &&& has_no_dots(path) ==> url.path == path
    &&& match query {
        Some(query) => is_url_query(query) ==> url.query == Some(query),
        None => url.query is None,
    }
}

/// What `url::Url::set_path` and then `url::Url::set_query` make of the URL that a text spells.
pub uninterp spec fn url_with_parts(
    root: Seq<char>,
    path: Seq<char>,
    query: Option<Seq<char>>,
) -> UrlView;

/// `url::Url::set_path` and `url::Url::set_query`, on what `url::Url::parse` reads: the URL once its
/// path is replaced and its query is replaced or, without a query, removed, taken apart with the
/// getters of `url::Url`. Both roots spell a URL with the scheme `sqlite`, and nothing but a scheme
/// and a path. A path of which no segment is made of dots, and a query that need not be encoded,
/// stay as they are. The positions inside a URL are held in 32 bits, and setting a path that they do
/// not reach over panics.
#[verifier::external_body]
pub(crate) fn set_url_parts(root: &str, path: &str, query: &Option<String>) -> (url: Result<
    Url,
    String,
>)
    requires
        root@ == "sqlite:///"@ || root@ == "sqlite:/"@,
        is_url_path(path@),
        parts_fit(root@, path@, query is Some),
    ensures
        url matches Ok(url) && url@ == url_with_parts(root@, path@, text_view(*query))
            && has_parts(url@, path@, text_view(*query)),
{
    let mut url = url::Url::parse(root).map_err(|error| error.to_string())?;
    url.set_path(path);
    url.set_query(query.as_deref());
    Ok(Url {
        text: url.as_str().to_owned(),
        scheme: url.scheme().to_owned(),
        username: url.username().to_owned(),
        password: url.password().map(str::to_owned),
        host: url.host_str().map(str::to_owned),
        port: url.port(),
        path: url.path().to_owned(),
        query: url.query().map(str::to_owned),
        fragment: url.fragment().map(str::to_owned),
    })
}

/// The value of a hexadecimal digit.
pub open spec fn hex_digit(b: u8) -> Option<u8> {
    if 48 <= b && b <= 57 {
        Some((b - 48) as u8)
    } else if 97 <= b && b <= 102 {
        Some((b - 87) as u8)
    } else if 65 <= b && b <= 70 {
        Some((b - 55) as u8)
    } else {
        None
    }
}

/// Bytes with every `%` and two hexadecimal digits behind it replaced by the byte that the digits
/// spell.
pub open spec fn percent_decoded(bytes: Seq<u8>) -> Seq<u8>
    decreases bytes.len(),
{
    if bytes.len() == 0 {
        seq![]
    } else if bytes[0] == 37 && bytes.len() >= 3 && hex_digit(bytes[1]) is Some && hex_digit(
        bytes[2],
    ) is Some {
        seq![(hex_digit(bytes[1])->0 * 16 + hex_digit(bytes[2])->0) as u8] + percent_decoded(
            bytes.skip(3),
        )
    } else {
        seq![bytes[0]] + percent_decoded(bytes.skip(1))
    }
}

/// `percent_encoding::percent_decode_str` replaces every `%` with two hexadecimal digits behind it
/// by the byte that they spell and leaves all else as it is.
#[verifier::external_body]
pub(crate) fn percent_decode(text: &str) -> (bytes: Vec<u8>)
    ensures
        bytes@ == percent_decoded(encode_utf8(text@)),
{
    percent_encoding::percent_decode_str(text).collect()
}

/// What `regex::Regex` says where it cannot be built from a pattern.
pub uninterp spec fn regex_fault(pattern: Seq<char>) -> Option<Seq<char>>;

/// Whether a pattern is a regular expression that can be built.
pub open spec fn regex_compiles(pattern: Seq<char>) -> bool {
    regex_fault(pattern) is None
}

/// `regex::Regex::new`: the text of the error, where the pattern is no regular expression that can
/// be built.
#[verifier::external_body]
pub(crate) fn check_regex(pattern: &str) -> (fault: Option<String>)
    ensures
        text_view(fault) == regex_fault(pattern@),
{
    regex::Regex::new(pattern).err().map(|error| error.to_string())
}

/// What the first match of a regular expression in a text spells.
pub uninterp spec fn regex_match(pattern: Seq<char>, text: Seq<char>) -> Option<Seq<char>>;

/// `regex::Regex::find`: the first match of the pattern in the text; nothing where there is none
/// or the pattern cannot be built.
#[verifier::external_body]
pub(crate) fn find_regex<'t>(pattern: &str, text: &'t str) -> (found: Option<&'t str>)
    ensures
        match found {
            Some(found) => regex_match(pattern@, text@) == Some(found@),
            None => regex_match(pattern@, text@) is None,
        },
{
    regex::Regex::new(pattern).ok()?.find(text).map(|found| found.as_str())
}

/// The ending of every full DHttp name.
pub open spec fn dhttp_suffix() -> Seq<char> {
    ".dhttp.net"@
}

/// The full spelling of the DHttp name that a text gives in full or in part, or what is said where
/// it gives none.
pub uninterp spec fn dhttp_name_read(text: Seq<char>) -> Result<Seq<char>, Seq<char>>;

/// The full spelling of the DHttp name that a text gives in full or in part.
pub open spec fn dhttp_name(text: Seq<char>) -> Option<Seq<char>> {
    match dhttp_name_read(text) {
        Ok(full) => Some(full),
        Err(_) => None,
    }
}

/// Whether a text gives no DHttp name, for the given reason.
pub open spec fn is_name_fault(text: Seq<char>, reason: Seq<char>) -> bool {
    dhttp_name_read(text) == Err::<Seq<char>, Seq<char>>(reason)
}

/// `dhttp_identity::name::DhttpName::try_from`: the full name, where the text gives a valid one,
/// or the text of the error. A full name ends in `.dhttp.net`.
#[verifier::external_body]
pub(crate) fn full_dhttp_name(text: &str) -> (name: Result<String, String>)
    ensures
        match name {
            Ok(full) => dhttp_name_read(text@) == Ok::<Seq<char>, Seq<char>>(full@),
            Err(reason) => dhttp_name_read(text@) == Err::<Seq<char>, Seq<char>>(reason@),
        },
        name matches Ok(full) ==> full@.len() >= dhttp_suffix().len() && full@.skip(
            full@.len() - dhttp_suffix().len(),
        ) == dhttp_suffix(),
{
    let name = dhttp_identity::name::DhttpName::try_from(text).map_err(|error| error.to_string())?;
    Ok(name.as_full().to_owned())
}

/// How the bind pattern that a text gives is spelled, or what is said where it gives none.
pub uninterp spec fn bind_pattern(text: Seq<char>) -> Result<Seq<char>, Seq<char>>;

/// The longest text, in bytes, that is read as a bind pattern.
pub const MAX_PATTERN_BYTES: usize = 0x10000;

/// How deep the braces of a text that is read as a bind pattern may be nested.
pub const MAX_PATTERN_DEPTH: usize = 80;

/// Whether every closing brace of a text closes a group: none can stand in brackets or behind a
/// backslash.
pub open spec fn braces_close(text: Seq<char>) -> bool {
    !text.contains('[') && !text.contains('\\')
}

/// How many groups are open at the end of a text, or more where it is not told what closes one.
pub open spec fn open_groups(text: Seq<char>, close: bool) -> int
    decreases text.len(),
{
    if text.len() == 0 {
        0
    } else if text.last() == '{' {
        open_groups(text.drop_last(), close) + 1
    } else if text.last() == '}' && close {
        open_groups(text.drop_last(), close) - 1
    } else {
        open_groups(text.drop_last(), close)
    }
}

/// Whether nowhere in a text more groups are open than a bind pattern may have.
pub open spec fn is_shallow(text: Seq<char>, close: bool) -> bool {
    forall|i: int| 0 <= i <= text.len() ==> #[trigger] open_groups(text.take(i), close)
        <= MAX_PATTERN_DEPTH
}

/// Whether a text is short enough, and its braces are nested flatly enough, to be read as a bind
/// pattern.
pub open spec fn fits_pattern(text: Seq<char>) -> bool {
    &&& encode_utf8(text).len() <= MAX_PATTERN_BYTES
    &&& is_shallow(text, braces_close(text))
}

/// `h3x::dquic::binds::BindPattern::from_str`: the pattern as `to_string` spells it, or the text of
/// the error. The host of a pattern is compiled as a glob, which panics where the regular
/// expression that stands for it nests more than 250 levels deep (each group makes at most three of
/// them) or its automaton takes more than 10 MiB (each byte of the text makes at most 112 bytes of
/// it), so texts that could come to that are left out.
#[verifier::external_body]
pub(crate) fn bind_pattern_text(text: &str) -> (pattern: Result<String, String>)
    requires
        fits_pattern(text@),
    ensures
        changed_text(pattern) == bind_pattern(text@),
{
    match text.parse::<h3x::dquic::binds::BindPattern>() {
        Ok(pattern) => Ok(pattern.to_string()),
        Err(error) => Err(error.to_string()),
    }
}

/// The text of bytes that should be UTF-8.
pub uninterp spec fn lossy_utf8(bytes: Seq<u8>) -> Seq<char>;

/// `String::from_utf8_lossy`: the text that the bytes spell in UTF-8. Bytes that spell none have
/// something in their place that depends on the bytes alone.
#[verifier::external_body]
pub(crate) fn lossy_text(bytes: &[u8]) -> (text: String)
    ensures
        text@ == lossy_utf8(bytes@),
        valid_utf8(bytes@) ==> text@ == decode_utf8(bytes@),
{
    String::from_utf8_lossy(bytes).into_owned()
}

} // verus!
