//! Directives about HTTP: content types, compression, headers and proxying.
use vstd::prelude::*;
use vstd::utf8::encode_utf8;

use crate::number::{parse_i32, parse_u64, signed_value, unsigned_value, ParseIntError};
use crate::outside::{
    http_uri, is_header_name, is_header_value, is_uri_fault, parse_uri, text_view, Uri, UriView,
};
use crate::parse::ast::{AstDirective, Spanned};
use crate::parse::builtin::basic::{first_arg_place, only_arg};
use crate::parse::builtin::net::InvalidUri;
use crate::parse::builtin::DirectiveError;
use crate::parse::decode::{first_place, is_count_error, DirectiveValue};
use crate::parse::source::{SourceMap, SourceSpan};
use crate::parse::types::{
    distinct_extensions, is_name_spelling, lemma_mime_table, mime_check_goes_one_way, mime_checked,
    mime_entry_error, mime_entry_ok, mime_table, raw_entries, DefaultType, GzipCompLevel,
    GzipMinLength, HeaderName, HeaderRule, HeaderRules, HeaderValue, InvalidHeaderName,
    InvalidHeaderValue, MimeTypes, MimeTypesValidationError, ProxyPass,
};
use crate::text::{chars_of, has_prefix, push_str, str_eq, string_of_range, texts, utf8_of};

verus! {

/// Why a directive gives no content type.
#[derive(Debug)]
pub enum DefaultTypeError {
    InvalidArgumentCount { span: SourceSpan, expected: &'static str, actual: usize },
    HeaderValue { span: SourceSpan, source: InvalidHeaderValue },
}

impl DefaultTypeError {
    /// The message of this error.
    pub open spec fn text(self) -> Seq<char> {
        match self {
            DefaultTypeError::InvalidArgumentCount { .. } => "invalid default_type directive argument count"@,
            DefaultTypeError::HeaderValue { .. } => "invalid default_type directive value"@,
        }
    }

    /// The message of this error.
    pub fn message(&self) -> (text: String)
        ensures
            text@ == self.text(),
    {
        match self {
            DefaultTypeError::InvalidArgumentCount { .. } => "invalid default_type directive argument count".to_owned(),
            DefaultTypeError::HeaderValue { .. } => "invalid default_type directive value".to_owned(),
        }
    }

    /// The messages of this error and of what caused it, outermost first.
    pub open spec fn chain(self) -> Seq<Seq<char>> {
        match self {
            DefaultTypeError::HeaderValue { source, .. } => seq![self.text(), source.text()],
            _ => seq![self.text()],
        }
    }

    /// The messages of this error and of what caused it, outermost first.
    pub fn messages(&self) -> (list: Vec<String>)
        ensures
            texts(list@) == self.chain(),
    {
        let mut list: Vec<String> = Vec::new();
        list.push(self.message());
        match self {
            DefaultTypeError::HeaderValue { source, .. } => {
                list.push(source.message());
            },
            _ => {},
        }
        assert(texts(list@) =~= self.chain());
        list
    }
}

impl DirectiveValue for DefaultType {
    type Error = DefaultTypeError;

    open spec fn reads(
        directive: AstDirective,
        sources: SourceMap,
        result: Result<Self, DefaultTypeError>,
    ) -> bool {
        if directive.args@.len() == 1 {
            if is_header_value(encode_utf8(directive.arg(0))) {
                result matches Ok(kind) && kind@ == encode_utf8(directive.arg(0))
            } else {
                result matches Err(DefaultTypeError::HeaderValue { span, .. }) && span
                    == directive.args@[0].span
            }
        } else {
            result matches Err(DefaultTypeError::InvalidArgumentCount { span, expected, actual })
                && is_count_error(directive, span, expected@, actual, "1"@)
        }
    }

    open spec fn place(directive: AstDirective) -> SourceSpan {
        first_place(directive)
    }

    open spec fn wrapped(error: DefaultTypeError) -> DirectiveError {
        DirectiveError::DefaultType(error)
    }

    proof fn reads_one_way(
        directive: AstDirective,
        sources: SourceMap,
        value: Self,
        error: DefaultTypeError,
    ) {
    }

    fn read(directive: &AstDirective, source_map: &SourceMap) -> (result: Result<Self, DefaultTypeError>) {
        let arg = match only_arg(directive) {
            Some(arg) => arg,
            None => {
                return Err(
                    DefaultTypeError::InvalidArgumentCount {
                        span: directive.span,
                        expected: "1",
                        actual: directive.args.len(),
                    },
                );
            },
        };
        match DefaultType::checked_from_bytes(arg.value.as_str().as_bytes()) {
            Ok(kind) => Ok(kind),
            Err(source) => Err(DefaultTypeError::HeaderValue { span: arg.span, source }),
        }
    }

    fn place_of(directive: &AstDirective) -> (span: SourceSpan) {
        first_arg_place(directive)
    }

    fn wrap(error: DefaultTypeError) -> (wrapped: DirectiveError) {
        DirectiveError::DefaultType(error)
    }
}

/// Why a directive gives no least length for compression.
#[derive(Debug)]
pub enum GzipMinLengthError {
    InvalidArgumentCount { span: SourceSpan, expected: &'static str, actual: usize },
    UnsignedInteger { span: SourceSpan, source: ParseIntError },
}

impl GzipMinLengthError {
    /// The message of this error.
    pub open spec fn text(self) -> Seq<char> {
        match self {
            GzipMinLengthError::InvalidArgumentCount { .. } => "invalid gzip_min_length directive argument count"@,
            GzipMinLengthError::UnsignedInteger { .. } => "invalid gzip_min_length directive value"@,
        }
    }

    /// The message of this error.
    pub fn message(&self) -> (text: String)
        ensures
            text@ == self.text(),
    {
        match self {
            GzipMinLengthError::InvalidArgumentCount { .. } => "invalid gzip_min_length directive argument count".to_owned(),
            GzipMinLengthError::UnsignedInteger { .. } => "invalid gzip_min_length directive value".to_owned(),
        }
    }

    /// The messages of this error and of what caused it, outermost first.
    pub open spec fn chain(self) -> Seq<Seq<char>> {
        match self {
            GzipMinLengthError::UnsignedInteger { source, .. } => seq![self.text(), source.text()],
            _ => seq![self.text()],
        }
    }

    /// The messages of this error and of what caused it, outermost first.
    pub fn messages(&self) -> (list: Vec<String>)
        ensures
            texts(list@) == self.chain(),
    {
        let mut list: Vec<String> = Vec::new();
        list.push(self.message());
        match self {
            GzipMinLengthError::UnsignedInteger { source, .. } => {
                list.push(source.message());
            },
            _ => {},
        }
        assert(texts(list@) =~= self.chain());
        list
    }
}

impl DirectiveValue for GzipMinLength {
    type Error = GzipMinLengthError;

    open spec fn reads(
        directive: AstDirective,
        sources: SourceMap,
        result: Result<Self, GzipMinLengthError>,
    ) -> bool {
        if directive.args@.len() == 1 {
            match result {
                Ok(value) => unsigned_value(directive.arg(0), u64::MAX as nat) == Ok::<nat, ParseIntError>(
                    value.0 as nat,
                ),
                Err(GzipMinLengthError::UnsignedInteger { span, source }) => span == directive.args@[0].span
                    && unsigned_value(directive.arg(0), u64::MAX as nat) == Err::<nat, ParseIntError>(source),
                Err(_) => false,
            }
        } else {
            result matches Err(GzipMinLengthError::InvalidArgumentCount { span, expected, actual })
                && is_count_error(directive, span, expected@, actual, "1"@)
        }
    }

    open spec fn place(directive: AstDirective) -> SourceSpan {
        first_place(directive)
    }

    open spec fn wrapped(error: GzipMinLengthError) -> DirectiveError {
        DirectiveError::GzipMinLength(error)
    }

    proof fn reads_one_way(
        directive: AstDirective,
        sources: SourceMap,
        value: Self,
        error: GzipMinLengthError,
    ) {
    }

    fn read(directive: &AstDirective, source_map: &SourceMap) -> (result: Result<Self, GzipMinLengthError>) {
        let arg = match only_arg(directive) {
            Some(arg) => arg,
            None => {
                return Err(
                    GzipMinLengthError::InvalidArgumentCount {
                        span: directive.span,
                        expected: "1",
                        actual: directive.args.len(),
                    },
                );
            },
        };
        match parse_u64(arg.value.as_str()) {
            Ok(value) => Ok(GzipMinLength::checked(value)),
            Err(source) => Err(GzipMinLengthError::UnsignedInteger { span: arg.span, source }),
        }
    }

    fn place_of(directive: &AstDirective) -> (span: SourceSpan) {
        first_arg_place(directive)
    }

    fn wrap(error: GzipMinLengthError) -> (wrapped: DirectiveError) {
        DirectiveError::GzipMinLength(error)
    }
}

/// Why a directive gives no compression level.
#[derive(Debug)]
pub enum GzipCompLevelError {
    InvalidArgumentCount { span: SourceSpan, expected: &'static str, actual: usize },
    SignedInteger { span: SourceSpan, source: ParseIntError },
}

impl GzipCompLevelError {
    /// The message of this error.
    pub open spec fn text(self) -> Seq<char> {
        match self {
            GzipCompLevelError::InvalidArgumentCount { .. } => "invalid gzip_comp_level directive argument count"@,
            GzipCompLevelError::SignedInteger { .. } => "invalid gzip_comp_level directive value"@,
        }
    }

    /// The message of this error.
    pub fn message(&self) -> (text: String)
        ensures
            text@ == self.text(),
    {
        match self {
            GzipCompLevelError::InvalidArgumentCount { .. } => "invalid gzip_comp_level directive argument count".to_owned(),
            GzipCompLevelError::SignedInteger { .. } => "invalid gzip_comp_level directive value".to_owned(),
        }
    }

    /// The messages of this error and of what caused it, outermost first.
    pub open spec fn chain(self) -> Seq<Seq<char>> {
        match self {
            GzipCompLevelError::SignedInteger { source, .. } => seq![self.text(), source.text()],
            _ => seq![self.text()],
        }
    }

    /// The messages of this error and of what caused it, outermost first.
    pub fn messages(&self) -> (list: Vec<String>)
        ensures
            texts(list@) == self.chain(),
    {
        let mut list: Vec<String> = Vec::new();
        list.push(self.message());
        match self {
            GzipCompLevelError::SignedInteger { source, .. } => {
                list.push(source.message());
            },
            _ => {},
        }
        assert(texts(list@) =~= self.chain());
        list
    }
}

impl DirectiveValue for GzipCompLevel {
    type Error = GzipCompLevelError;

    open spec fn reads(
        directive: AstDirective,
        sources: SourceMap,
        result: Result<Self, GzipCompLevelError>,
    ) -> bool {
        if directive.args@.len() == 1 {
            match result {
                Ok(value) => signed_value(directive.arg(0), i32::MAX as nat) == Ok::<int, ParseIntError>(
                    value.0 as int,
                ),
                Err(GzipCompLevelError::SignedInteger { span, source }) => span == directive.args@[0].span
                    && signed_value(directive.arg(0), i32::MAX as nat) == Err::<int, ParseIntError>(source),
                Err(_) => false,
            }
        } else {
            result matches Err(GzipCompLevelError::InvalidArgumentCount { span, expected, actual })
                && is_count_error(directive, span, expected@, actual, "1"@)
        }
    }

    open spec fn place(directive: AstDirective) -> SourceSpan {
        first_place(directive)
    }

    open spec fn wrapped(error: GzipCompLevelError) -> DirectiveError {
        DirectiveError::GzipCompLevel(error)
    }

    proof fn reads_one_way(
        directive: AstDirective,
        sources: SourceMap,
        value: Self,
        error: GzipCompLevelError,
    ) {
    }

    fn read(directive: &AstDirective, source_map: &SourceMap) -> (result: Result<Self, GzipCompLevelError>) {
        let arg = match only_arg(directive) {
            Some(arg) => arg,
            None => {
                return Err(
                    GzipCompLevelError::InvalidArgumentCount {
                        span: directive.span,
                        expected: "1",
                        actual: directive.args.len(),
                    },
                );
            },
        };
        match parse_i32(arg.value.as_str()) {
            Ok(value) => Ok(GzipCompLevel::checked(value)),
            Err(source) => Err(GzipCompLevelError::SignedInteger { span: arg.span, source }),
        }
    }

    fn place_of(directive: &AstDirective) -> (span: SourceSpan) {
        first_arg_place(directive)
    }

    fn wrap(error: GzipCompLevelError) -> (wrapped: DirectiveError) {
        DirectiveError::GzipCompLevel(error)
    }
}

/// Why a directive gives nothing to pass requests on to.
#[derive(Debug)]
pub enum ProxyPassError {
    InvalidArgumentCount { span: SourceSpan, expected: &'static str, actual: usize },
    Uri { span: SourceSpan, source: InvalidUri },
    MissingScheme { span: SourceSpan },
    UnsupportedScheme { span: SourceSpan, scheme: String },
    MissingHost { span: SourceSpan },
}

impl ProxyPassError {
    /// The message of this error.
    pub open spec fn text(self) -> Seq<char> {
        match self {
            ProxyPassError::InvalidArgumentCount { .. } => "invalid proxy_pass directive argument count"@,
            ProxyPassError::Uri { .. } => "invalid proxy_pass uri directive value"@,
            ProxyPassError::MissingScheme { .. } => "missing proxy_pass uri scheme"@,
            ProxyPassError::UnsupportedScheme { scheme, .. } => "unsupported proxy_pass uri scheme `"@ + scheme@ + "`"@,
            ProxyPassError::MissingHost { .. } => "missing proxy_pass uri host"@,
        }
    }

    /// The message of this error.
    pub fn message(&self) -> (text: String)
        ensures
            text@ == self.text(),
    {
        match self {
            ProxyPassError::InvalidArgumentCount { .. } => "invalid proxy_pass directive argument count".to_owned(),
            ProxyPassError::Uri { .. } => "invalid proxy_pass uri directive value".to_owned(),
            ProxyPassError::MissingScheme { .. } => "missing proxy_pass uri scheme".to_owned(),
            ProxyPassError::UnsupportedScheme { scheme, .. } => {
                let mut text = "unsupported proxy_pass uri scheme `".to_owned();
                push_str(&mut text, scheme.as_str());
                push_str(&mut text, "`");
                text
            },
            ProxyPassError::MissingHost { .. } => "missing proxy_pass uri host".to_owned(),
        }
    }

    /// The messages of this error and of what caused it, outermost first.
    pub open spec fn chain(self) -> Seq<Seq<char>> {
        match self {
            ProxyPassError::Uri { source, .. } => seq![self.text(), source.text()],
            _ => seq![self.text()],
        }
    }

    /// The messages of this error and of what caused it, outermost first.
    pub fn messages(&self) -> (list: Vec<String>)
        ensures
            texts(list@) == self.chain(),
    {
        let mut list: Vec<String> = Vec::new();
        list.push(self.message());
        match self {
            ProxyPassError::Uri { source, .. } => {
                list.push(source.message());
            },
            _ => {},
        }
        assert(texts(list@) =~= self.chain());
        list
    }
}

/// Where `part` stands first in `text`.
pub open spec fn find_text(text: Seq<char>, part: Seq<char>) -> Option<int>
    decreases text.len(),
{
    if has_prefix(text, part) {
        Some(0)
    } else if text.len() == 0 {
        None
    } else {
        match find_text(text.skip(1), part) {
            Some(at) => Some(at + 1),
            None => None,
        }
    }
}

/// Where a path or a query begins in what follows a scheme.
pub open spec fn suffix_start(text: Seq<char>) -> Option<int>
    decreases text.len(),
{
    if text.len() == 0 {
        None
    } else if text[0] == '/' || text[0] == '?' {
        Some(0)
    } else {
        match suffix_start(text.skip(1)) {
            Some(at) => Some(at + 1),
            None => None,
        }
    }
}

/// The path and query of a URI as it is written: what begins with the first `/` or `?` behind the
/// `://`.
pub open spec fn written_suffix(raw: Seq<char>) -> Option<Seq<char>> {
    match find_text(raw, "://"@) {
        Some(at) => {
            let rest = raw.skip(at + 3);
            match suffix_start(rest) {
                Some(start) => Some(rest.skip(start)),
                None => None,
            }
        },
        None => None,
    }
}

fn find_scheme_end(chars: &Vec<char>) -> (end: Option<usize>)
    ensures
        match end {
            Some(end) => 3 <= end <= chars@.len() && find_text(chars@, "://"@) == Some(end - 3),
            None => find_text(chars@, "://"@) is None,
        },
{
    let mut at: usize = 0;
    proof {
        reveal_strlit("://");
        assert(chars@.skip(0) =~= chars@);
    }
    while at < chars.len()
        invariant
            at <= chars@.len(),
            "://"@.len() == 3,
            "://"@ =~= seq![':', '/', '/'],
            match find_text(chars@.skip(at as int), "://"@) {
                Some(k) => find_text(chars@, "://"@) == Some(at + k),
                None => find_text(chars@, "://"@) is None,
            },
        decreases chars@.len() - at,
    {
        let ghost rest = chars@.skip(at as int);
        if chars.len() - at >= 3 && chars[at] == ':' && chars[at + 1] == '/' && chars[at + 2] == '/' {
            assert(rest.take(3) =~= "://"@);
            return Some(at + 3);
        }
        proof {
            if has_prefix(rest, "://"@) {
                assert(rest.take(3)[0] == ':' && rest.take(3)[1] == '/' && rest.take(3)[2] == '/');
                assert(false);
            }
            assert(rest.skip(1) =~= chars@.skip(at + 1));
        }
        at += 1;
    }
    assert(!has_prefix(chars@.skip(at as int), "://"@));
    None
}

/// The path and query of a URI as it is written.
pub fn split_proxy_pass_suffix(raw: &str) -> (suffix: Option<String>)
    ensures
        text_view(suffix) == written_suffix(raw@),
        suffix matches Some(suffix) ==> suffix@.len() > 0,
{
    let chars = chars_of(raw);
    let start = match find_scheme_end(&chars) {
        Some(end) => end,
        None => {
            return None;
        },
    };
    let ghost rest = chars@.skip(start as int);
    let mut at: usize = start;
    assert(rest.skip(0) =~= rest);
    while at < chars.len()
        invariant
            start <= at <= chars@.len(),
            rest == chars@.skip(start as int),
            raw@ == chars@,
            find_text(raw@, "://"@) == Some(start - 3),
            match suffix_start(rest.skip(at - start)) {
                Some(k) => suffix_start(rest) == Some(at - start + k),
                None => suffix_start(rest) is None,
            },
        decreases chars@.len() - at,
    {
        assert(rest.skip(at - start)[0] == chars@[at as int]);
        if chars[at] == '/' || chars[at] == '?' {
            let suffix = string_of_range(&chars, at, chars.len());
            assert(suffix@ =~= rest.skip(at - start));
            return Some(suffix);
        }
        assert(rest.skip(at - start).skip(1) =~= rest.skip(at + 1 - start));
        at += 1;
    }
    None
}

/// What reading a `proxy_pass` URI gives.
pub open spec fn reads_proxy_uri(
    raw: Seq<char>,
    uri: UriView,
    place: SourceSpan,
    result: Result<ProxyPass, ProxyPassError>,
) -> bool {
    match uri.scheme {
        None => result matches Err(ProxyPassError::MissingScheme { span }) && span == place,
        Some(name) => if name != "http"@ && name != "https"@ {
            result matches Err(ProxyPassError::UnsupportedScheme { span, scheme }) && span == place
                && scheme@ == name
        } else {
            match uri.authority {
                None => result matches Err(ProxyPassError::MissingHost { span }) && span == place,
                Some(authority) => result matches Ok(pass) && {
                    &&& pass.wf()
                    &&& pass.raw@ == raw
                    &&& pass.uri@ == uri
                    &&& pass.proxy_host@ == authority.text
                    &&& text_view(pass.explicit_path_and_query) == written_suffix(raw)
                },
            }
        },
    }
}

/// Reads a `proxy_pass` URI that was taken apart.
pub fn proxy_pass_of(raw: &str, uri: Uri, place: SourceSpan) -> (result: Result<
    ProxyPass,
    ProxyPassError,
>)
    ensures
        reads_proxy_uri(raw@, uri@, place, result),
{
    match &uri.scheme {
        None => {
            return Err(ProxyPassError::MissingScheme { span: place });
        },
        Some(scheme) => {
            if !str_eq(scheme.as_str(), "http") && !str_eq(scheme.as_str(), "https") {
                return Err(
                    ProxyPassError::UnsupportedScheme { span: place, scheme: scheme.clone() },
                );
            }
        },
    }
    let proxy_host = match &uri.authority {
        None => {
            return Err(ProxyPassError::MissingHost { span: place });
        },
        Some(authority) => authority.text.clone(),
    };
    Ok(
        ProxyPass {
            raw: raw.to_owned(),
            uri,
            proxy_host,
            explicit_path_and_query: split_proxy_pass_suffix(raw),
        },
    )
}

impl DirectiveValue for ProxyPass {
    type Error = ProxyPassError;

    open spec fn reads(
        directive: AstDirective,
        sources: SourceMap,
        result: Result<Self, ProxyPassError>,
    ) -> bool {
        if directive.args@.len() == 1 {
            match http_uri(directive.arg(0)) {
                Some(uri) => reads_proxy_uri(
                    directive.arg(0),
                    uri,
                    directive.args@[0].span,
                    result,
                ),
                None => result matches Err(ProxyPassError::Uri { span, source }) && span
                    == directive.args@[0].span && is_uri_fault(directive.arg(0), source.text()),
            }
        } else {
            result matches Err(ProxyPassError::InvalidArgumentCount { span, expected, actual })
                && is_count_error(directive, span, expected@, actual, "1"@)
        }
    }

    open spec fn place(directive: AstDirective) -> SourceSpan {
        first_place(directive)
    }

    open spec fn wrapped(error: ProxyPassError) -> DirectiveError {
        DirectiveError::ProxyPass(error)
    }

    proof fn reads_one_way(
        directive: AstDirective,
        sources: SourceMap,
        value: Self,
        error: ProxyPassError,
    ) {
    }

    fn read(directive: &AstDirective, source_map: &SourceMap) -> (result: Result<Self, ProxyPassError>) {
        let arg = match only_arg(directive) {
            Some(arg) => arg,
            None => {
                return Err(
                    ProxyPassError::InvalidArgumentCount {
                        span: directive.span,
                        expected: "1",
                        actual: directive.args.len(),
                    },
                );
            },
        };
        match parse_uri(arg.value.as_str()) {
            Ok(uri) => proxy_pass_of(arg.value.as_str(), uri, arg.span),
            Err(reason) => Err(
                ProxyPassError::Uri { span: arg.span, source: InvalidUri { reason } },
            ),
        }
    }

    fn place_of(directive: &AstDirective) -> (span: SourceSpan) {
        first_arg_place(directive)
    }

    fn wrap(error: ProxyPassError) -> (wrapped: DirectiveError) {
        DirectiveError::ProxyPass(error)
    }
}

/// Why a directive gives no header rule.
#[derive(Debug)]
#[allow(inconsistent_fields)]
pub enum HeaderRulesError {
    InvalidArgumentCount { span: SourceSpan, expected: &'static str, actual: usize },
    InvalidAlways { span: SourceSpan, value: String },
    HeaderName { span: SourceSpan, source: InvalidHeaderName },
    HeaderValue { span: SourceSpan, source: InvalidHeaderValue },
}

impl HeaderRulesError {
    /// The message of this error.
    pub open spec fn text(self) -> Seq<char> {
        match self {
            HeaderRulesError::InvalidArgumentCount { .. } => "invalid header directive argument count"@,
            HeaderRulesError::InvalidAlways { .. } => "invalid add_header always marker"@,
            HeaderRulesError::HeaderName { .. } => "invalid header directive name"@,
            HeaderRulesError::HeaderValue { .. } => "invalid header directive value"@,
        }
    }

    /// The message of this error.
    pub fn message(&self) -> (text: String)
        ensures
            text@ == self.text(),
    {
        match self {
            HeaderRulesError::InvalidArgumentCount { .. } => "invalid header directive argument count".to_owned(),
            HeaderRulesError::InvalidAlways { .. } => "invalid add_header always marker".to_owned(),
            HeaderRulesError::HeaderName { .. } => "invalid header directive name".to_owned(),
            HeaderRulesError::HeaderValue { .. } => "invalid header directive value".to_owned(),
        }
    }

    /// The messages of this error and of what caused it, outermost first.
    pub open spec fn chain(self) -> Seq<Seq<char>> {
        match self {
            HeaderRulesError::HeaderName { source, .. } => seq![self.text(), source.text()],
            HeaderRulesError::HeaderValue { source, .. } => seq![self.text(), source.text()],
            _ => seq![self.text()],
        }
    }

    /// The messages of this error and of what caused it, outermost first.
    pub fn messages(&self) -> (list: Vec<String>)
        ensures
            texts(list@) == self.chain(),
    {
        let mut list: Vec<String> = Vec::new();
        list.push(self.message());
        match self {
            HeaderRulesError::HeaderName { source, .. } => {
                list.push(source.message());
            },
            HeaderRulesError::HeaderValue { source, .. } => {
                list.push(source.message());
            },
            _ => {},
        }
        assert(texts(list@) =~= self.chain());
        list
    }
}

/// What reading the name and the value of a header rule gives.
pub open spec fn reads_header(
    name: Spanned<String>,
    value: Spanned<String>,
    always: bool,
    result: Result<HeaderRules, HeaderRulesError>,
) -> bool {
    if !is_header_name(encode_utf8(name.value@)) {
        result matches Err(HeaderRulesError::HeaderName { span, .. }) && span == name.span
    } else if !is_header_value(encode_utf8(value.value@)) {
        result matches Err(HeaderRulesError::HeaderValue { span, .. }) && span == value.span
    } else {
        result matches Ok(rules) && rules.0@.len() == 1 && is_name_spelling(
            encode_utf8(name.value@),
            rules.0@[0].name@,
        ) && rules.0@[0].value@ == encode_utf8(value.value@) && rules.0@[0].always == always
    }
}

pub(crate) fn read_header(name: &Spanned<String>, value: &Spanned<String>, always: bool) -> (result: Result<
    HeaderRules,
    HeaderRulesError,
>)
    ensures
        reads_header(*name, *value, always, result),
{
    let header = match HeaderName::from_bytes(name.value.as_str().as_bytes()) {
        Ok(header) => header,
        Err(source) => {
            return Err(HeaderRulesError::HeaderName { span: name.span, source });
        },
    };
    let content = match HeaderValue::from_bytes(value.value.as_str().as_bytes()) {
        Ok(content) => content,
        Err(source) => {
            return Err(HeaderRulesError::HeaderValue { span: value.span, source });
        },
    };
    let mut rules: Vec<HeaderRule> = Vec::new();
    rules.push(HeaderRule { name: header, value: content, always });
    Ok(HeaderRules(rules))
}

impl DirectiveValue for HeaderRules {
    type Error = HeaderRulesError;

    open spec fn reads(
        directive: AstDirective,
        sources: SourceMap,
        result: Result<Self, HeaderRulesError>,
    ) -> bool {
        let args = directive.args@;
        if directive.name_text() == "add_header"@ {
            if args.len() == 2 {
                reads_header(args[0], args[1], false, result)
            } else if args.len() == 3 {
                if args[2].value@ == "always"@ {
                    reads_header(args[0], args[1], true, result)
                } else {
                    result matches Err(HeaderRulesError::InvalidAlways { span, value }) && span
                        == args[2].span && value@ == args[2].value@
                }
            } else {
                result matches Err(HeaderRulesError::InvalidArgumentCount { span, expected, actual })
                    && is_count_error(directive, span, expected@, actual, "2 or 3"@)
            }
        } else if args.len() == 2 {
            reads_header(args[0], args[1], true, result)
        } else {
            result matches Err(HeaderRulesError::InvalidArgumentCount { span, expected, actual })
                && is_count_error(directive, span, expected@, actual, "2"@)
        }
    }

    open spec fn place(directive: AstDirective) -> SourceSpan {
        directive.span
    }

    open spec fn wrapped(error: HeaderRulesError) -> DirectiveError {
        DirectiveError::HeaderRules(error)
    }

    proof fn reads_one_way(
        directive: AstDirective,
        sources: SourceMap,
        value: Self,
        error: HeaderRulesError,
    ) {
    }

    fn read(directive: &AstDirective, source_map: &SourceMap) -> (result: Result<Self, HeaderRulesError>) {
        let args = &directive.args;
        let allow_always = directive.is_named("add_header");
        if args.len() == 2 {
            return read_header(&args[0], &args[1], !allow_always);
        }
        if args.len() == 3 && allow_always {
            if str_eq(args[2].value.as_str(), "always") {
                return read_header(&args[0], &args[1], true);
            }
            return Err(
                HeaderRulesError::InvalidAlways {
                    span: args[2].span,
                    value: args[2].value.clone(),
                },
            );
        }
        Err(
            HeaderRulesError::InvalidArgumentCount {
                span: directive.span,
                expected: if allow_always {
                    "2 or 3"
                } else {
                    "2"
                },
                actual: args.len(),
            },
        )
    }

    fn place_of(directive: &AstDirective) -> (span: SourceSpan) {
        directive.span
    }

    fn wrap(error: HeaderRulesError) -> (wrapped: DirectiveError) {
        DirectiveError::HeaderRules(error)
    }
}

/// Why a directive gives no table of MIME types.
#[derive(Debug)]
pub enum MimeTypesError {
    InvalidBlock { span: SourceSpan },
    Entries { span: SourceSpan, source: MimeTypesValidationError },
}

impl MimeTypesError {
    /// The message of this error.
    pub open spec fn text(self) -> Seq<char> {
        match self {
            MimeTypesError::InvalidBlock { .. } => "types directive must be a block"@,
            MimeTypesError::Entries { .. } => "invalid types directive entries"@,
        }
    }

    /// The message of this error.
    pub fn message(&self) -> (text: String)
        ensures
            text@ == self.text(),
    {
        match self {
            MimeTypesError::InvalidBlock { .. } => "types directive must be a block".to_owned(),
            MimeTypesError::Entries { .. } => "invalid types directive entries".to_owned(),
        }
    }

    /// The messages of this error and of what caused it, outermost first.
    pub open spec fn chain(self) -> Seq<Seq<char>> {
        match self {
            MimeTypesError::Entries { source, .. } => seq![self.text()] + source.chain(),
            _ => seq![self.text()],
        }
    }

    /// The messages of this error and of what caused it, outermost first.
    pub fn messages(&self) -> (list: Vec<String>)
        ensures
            texts(list@) == self.chain(),
    {
        let mut list: Vec<String> = Vec::new();
        list.push(self.message());
        match self {
            MimeTypesError::Entries { source, .. } => {
                let mut causes = source.messages();
                let ghost head = list@;
                let ghost tail = causes@;
                list.append(&mut causes);
                assert(texts(list@) =~= texts(head) + texts(tail));
                assert(texts(head) =~= seq![self.text()]);
            },
            _ => {},
        }
        assert(texts(list@) =~= self.chain());
        list
    }
}

/// The entries of one line of a `types` block: the type for each of its extensions.
pub open spec fn line_entries(line: AstDirective) -> Seq<(Seq<char>, Seq<u8>)> {
    line.args@.map_values(
        |arg: Spanned<String>| (arg.value@, encode_utf8(line.name_text())),
    )
}

/// The entries of a `types` block, in order.
pub open spec fn block_entries(lines: Seq<AstDirective>) -> Seq<(Seq<char>, Seq<u8>)>
    decreases lines.len(),
{
    if lines.len() == 0 {
        seq![]
    } else {
        block_entries(lines.drop_last()) + line_entries(lines.last())
    }
}

fn push_line(entries: &mut Vec<(String, Vec<u8>)>, line: &AstDirective)
    ensures
        raw_entries(final(entries)@) == raw_entries(old(entries)@) + line_entries(*line),
{
    let ghost before = raw_entries(entries@);
    let mut i: usize = 0;
    assert(line_entries(*line).take(0) =~= seq![]);
    assert(before =~= before + line_entries(*line).take(0));
    while i < line.args.len()
        invariant
            i <= line.args@.len(),
            raw_entries(entries@) == before + line_entries(*line).take(i as int),
        decreases line.args@.len() - i,
    {
        let ghost earlier = entries@;
        let bytes = utf8_of(line.name.value.as_str());
        entries.push((line.args[i].value.clone(), bytes));
        proof {
            let entry = line_entries(*line)[i as int];
            assert(raw_entries(entries@) =~= raw_entries(earlier).push(entry));
            assert(line_entries(*line).take(i + 1) =~= line_entries(*line).take(i as int).push(
                entry,
            ));
            assert(raw_entries(entries@) =~= before + line_entries(*line).take(i + 1));
        }
        i += 1;
    }
    assert(line_entries(*line).take(i as int) =~= line_entries(*line));
}

impl DirectiveValue for MimeTypes {
    type Error = MimeTypesError;

    open spec fn reads(
        directive: AstDirective,
        sources: SourceMap,
        result: Result<Self, MimeTypesError>,
    ) -> bool {
        match directive.block() {
            None => result matches Err(MimeTypesError::InvalidBlock { span }) && span
                == directive.span,
            Some(lines) => match result {
                Ok(types) => mime_checked(block_entries(lines), Ok(types@)),
                Err(MimeTypesError::Entries { span, source }) => span == directive.span
                    && mime_checked(block_entries(lines), Err(source)),
                Err(_) => false,
            },
        }
    }

    open spec fn place(directive: AstDirective) -> SourceSpan {
        directive.span
    }

    open spec fn wrapped(error: MimeTypesError) -> DirectiveError {
        DirectiveError::MimeTypes(error)
    }

    proof fn reads_one_way(
        directive: AstDirective,
        sources: SourceMap,
        value: Self,
        error: MimeTypesError,
    ) {
        match (directive.block(), error) {
            (Some(lines), MimeTypesError::Entries { source, .. }) => {
                mime_check_goes_one_way(block_entries(lines), value@, source);
            },
            _ => {},
        }
    }

    fn read(directive: &AstDirective, source_map: &SourceMap) -> (result: Result<Self, MimeTypesError>) {
        let lines = match directive.children() {
            Some(lines) => lines,
            None => {
                return Err(MimeTypesError::InvalidBlock { span: directive.span });
            },
        };
        let mut entries: Vec<(String, Vec<u8>)> = Vec::new();
        let mut i: usize = 0;
        assert(raw_entries(entries@) =~= block_entries(lines@.take(0)));
        while i < lines.len()
            invariant
                i <= lines@.len(),
                raw_entries(entries@) == block_entries(lines@.take(i as int)),
            decreases lines@.len() - i,
        {
            push_line(&mut entries, &lines[i]);
            assert(lines@.take(i + 1).drop_last() =~= lines@.take(i as int));
            i += 1;
        }
        assert(lines@.take(i as int) =~= lines@);
        match MimeTypes::checked_from_bytes(&entries) {
            Ok(types) => Ok(types),
            Err(source) => Err(MimeTypesError::Entries { span: directive.span, source }),
        }
    }

    fn place_of(directive: &AstDirective) -> (span: SourceSpan) {
        directive.span
    }

    fn wrap(error: MimeTypesError) -> (wrapped: DirectiveError) {
        DirectiveError::MimeTypes(error)
    }
}

/// Whether a line of a `types` block gives a type for an extension.
pub open spec fn gives_type(
    lines: Seq<AstDirective>,
    line: int,
    arg: int,
    extension: Seq<char>,
    value: Seq<u8>,
) -> bool {
    &&& 0 <= line < lines.len()
    &&& 0 <= arg < lines[line].args@.len()
    &&& extension == lines[line].args@[arg].value@
    &&& value == encode_utf8(lines[line].name.value@)
}

proof fn lemma_block_entry(lines: Seq<AstDirective>, line: int, arg: int) -> (at: int)
    requires
        0 <= line < lines.len(),
        0 <= arg < lines[line].args@.len(),
    ensures
        0 <= at < block_entries(lines).len(),
        block_entries(lines)[at] == (
            lines[line].args@[arg].value@,
            encode_utf8(lines[line].name.value@),
        ),
        at == block_entries(lines.take(line)).len() + arg,
    decreases lines.len(),
{
    let init = lines.drop_last();
    let before = block_entries(init);
    if line == lines.len() - 1 {
        assert(lines.take(line) =~= init);
        assert(line_entries(lines.last())[arg] == (
            lines[line].args@[arg].value@,
            encode_utf8(lines[line].name.value@),
        ));
        before.len() + arg
    } else {
        assert(init[line] == lines[line]);
        assert(init.take(line) =~= lines.take(line));
        lemma_block_entry(init, line, arg)
    }
}

proof fn lemma_entry_of_block(lines: Seq<AstDirective>, at: int) -> (place: (int, int))
    requires
        0 <= at < block_entries(lines).len(),
    ensures
        gives_type(
            lines,
            place.0,
            place.1,
            block_entries(lines)[at].0,
            block_entries(lines)[at].1,
        ),
        at == block_entries(lines.take(place.0)).len() + place.1,
    decreases lines.len(),
{
    let init = lines.drop_last();
    let before = block_entries(init);
    if at < before.len() {
        let place = lemma_entry_of_block(init, at);
        assert(init[place.0] == lines[place.0]);
        assert(init.take(place.0) =~= lines.take(place.0));
        place
    } else {
        let arg = at - before.len();
        assert(block_entries(lines)[at] == line_entries(lines.last())[arg]);
        assert(lines.take(lines.len() - 1) =~= init);
        (lines.len() - 1, arg)
    }
}

/// A `types` block that is read knows every extension of each of its lines, by the type at the head of
/// that line, and no other extension.
pub proof fn types_block_knows_all_its_extensions(
    directive: AstDirective,
    sources: SourceMap,
    lines: Seq<AstDirective>,
    types: MimeTypes,
)
    requires
        MimeTypes::reads(directive, sources, Ok(types)),
        directive.block() == Some(lines),
    ensures
        forall|line: int, arg: int|
            0 <= line < lines.len() && 0 <= arg < lines[line].args@.len() ==> types@.contains_key(
                (#[trigger] lines[line].args@[arg]).value@,
            ) && types@[lines[line].args@[arg].value@] == encode_utf8(lines[line].name.value@),
        forall|extension: Seq<char>| #[trigger]
            types@.contains_key(extension) ==> exists|line: int, arg: int| #[trigger]
                gives_type(lines, line, arg, extension, types@[extension]),
{
    let entries = block_entries(lines);
    assert(distinct_extensions(entries)) by {
        assert forall|i: int, j: int| 0 <= i < j < entries.len() implies (#[trigger] entries[i]).0
            != (#[trigger] entries[j]).0 by {
            assert(mime_entry_ok(entries, j));
        }
    }
    lemma_mime_table(entries);
    assert forall|line: int, arg: int|
        0 <= line < lines.len() && 0 <= arg < lines[line].args@.len() implies types@.contains_key(
        (#[trigger] lines[line].args@[arg]).value@,
    ) && types@[lines[line].args@[arg].value@] == encode_utf8(lines[line].name.value@) by {
        let at = lemma_block_entry(lines, line, arg);
        assert(types@.contains_key(entries[at].0));
    }
    assert forall|extension: Seq<char>| #[trigger] types@.contains_key(extension) implies exists|
        line: int,
        arg: int,
    | #[trigger] gives_type(lines, line, arg, extension, types@[extension]) by {
        let at = choose|at: int| 0 <= at < entries.len() && (#[trigger] entries[at]).0 == extension;
        let place = lemma_entry_of_block(lines, at);
        assert(types@[entries[at].0] == entries[at].1);
        assert(gives_type(lines, place.0, place.1, extension, types@[extension]));
    }
}

/// A `types` block is refused only for a directive without a block, an empty extension, a line that is
/// not headed by a type, or an extension that stands in two places.
pub proof fn types_block_is_refused_for_a_reason(
    directive: AstDirective,
    sources: SourceMap,
    lines: Seq<AstDirective>,
    error: MimeTypesError,
)
    requires
        MimeTypes::reads(directive, sources, Err(error)),
        directive.block() == Some(lines),
    ensures
        exists|line: int, arg: int|
            {
                &&& 0 <= line < lines.len()
                &&& 0 <= arg < lines[line].args@.len()
                &&& {
                    ||| (#[trigger] lines[line].args@[arg]).value@.len() == 0
                    ||| !is_header_value(encode_utf8(lines[line].name.value@))
                    ||| exists|value: Seq<u8>, other: (int, int)|
                        other != (line, arg) && #[trigger] gives_type(
                            lines,
                            other.0,
                            other.1,
                            lines[line].args@[arg].value@,
                            value,
                        )
                }
            },
{
    let entries = block_entries(lines);
    let source = error->Entries_source;
    let at = choose|at: int|
        {
            &&& 0 <= at < entries.len()
            &&& forall|i: int| 0 <= i < at ==> #[trigger] mime_entry_ok(entries, i)
            &&& #[trigger] mime_entry_error(entries, at, source)
        };
    let place = lemma_entry_of_block(lines, at);
    let arg = lines[place.0].args@[place.1];
    if entries[at].0.len() > 0 && is_header_value(entries[at].1) {
        let first = choose|i: int| 0 <= i < at && (#[trigger] entries[i]).0 == entries[at].0;
        let other = lemma_entry_of_block(lines, first);
        assert(gives_type(lines, other.0, other.1, arg.value@, entries[first].1));
    }
}

proof fn lemma_last_entry_counts(entries: Seq<(Seq<char>, Seq<u8>)>, at: int)
    requires
        0 <= at < entries.len(),
    ensures
        mime_table(entries).contains_key(entries[at].0),
        (forall|i: int| at < i < entries.len() ==> (#[trigger] entries[i]).0 != entries[at].0)
            ==> mime_table(entries)[entries[at].0] == entries[at].1,
    decreases entries.len(),
{
    let init = entries.drop_last();
    if at < init.len() {
        lemma_last_entry_counts(init, at);
        if forall|i: int| at < i < entries.len() ==> (#[trigger] entries[i]).0 != entries[at].0 {
            assert forall|i: int| at < i < init.len() implies (#[trigger] init[i]).0 != init[at].0 by {
                assert(entries[i].0 != entries[at].0);
            }
            assert(entries[entries.len() - 1].0 != entries[at].0);
        }
    }
}

proof fn lemma_no_other_key(entries: Seq<(Seq<char>, Seq<u8>)>, key: Seq<char>) -> (at: int)
    requires
        mime_table(entries).contains_key(key),
    ensures
        0 <= at < entries.len(),
        entries[at].0 == key,
        mime_table(entries)[key] == entries[at].1,
    decreases entries.len(),
{
    if entries.last().0 == key {
        entries.len() - 1
    } else {
        lemma_no_other_key(entries.drop_last(), key)
    }
}

/// Where an extension may stand in a table twice, the table of a block knows every extension of each
/// line and no other, and gives each one a type that heads a line with that extension: that of the
/// last such line, where no line behind it has the extension.
pub proof fn last_type_of_an_extension_counts(lines: Seq<AstDirective>, line: int, arg: int)
    requires
        0 <= line < lines.len(),
        0 <= arg < lines[line].args@.len(),
    ensures
        ({
            let table = mime_table(block_entries(lines));
            let extension = lines[line].args@[arg].value@;
            &&& table.contains_key(extension)
            &&& (forall|other: int, place: int|
                line < other < lines.len() && 0 <= place < lines[other].args@.len() ==> (
                #[trigger] lines[other].args@[place]).value@ != extension) ==> table[extension]
                == encode_utf8(lines[line].name.value@)
            &&& forall|known: Seq<char>| #[trigger]
                table.contains_key(known) ==> exists|other: int, place: int| #[trigger]
                    gives_type(lines, other, place, known, table[known])
        }),
{
    let entries = block_entries(lines);
    let table = mime_table(entries);
    let extension = lines[line].args@[arg].value@;
    let at = lemma_block_entry(lines, line, arg);
    lemma_last_entry_counts(entries, at);
    assert forall|known: Seq<char>| #[trigger] table.contains_key(known) implies exists|
        other: int,
        place: int,
    | #[trigger] gives_type(lines, other, place, known, table[known]) by {
        let found = lemma_no_other_key(entries, known);
        let place = lemma_entry_of_block(lines, found);
        assert(gives_type(lines, place.0, place.1, known, table[known]));
    }
    if forall|other: int, place: int|
        line < other < lines.len() && 0 <= place < lines[other].args@.len() ==> (
        #[trigger] lines[other].args@[place]).value@ != extension {
        lemma_last_line_counts(lines, line, arg);
    }
}

proof fn lemma_last_line_counts(lines: Seq<AstDirective>, line: int, arg: int)
    requires
        0 <= line < lines.len(),
        0 <= arg < lines[line].args@.len(),
        forall|other: int, place: int|
            line < other < lines.len() && 0 <= place < lines[other].args@.len() ==> (
            #[trigger] lines[other].args@[place]).value@ != lines[line].args@[arg].value@,
    ensures
        mime_table(block_entries(lines)).contains_key(lines[line].args@[arg].value@),
        mime_table(block_entries(lines))[lines[line].args@[arg].value@] == encode_utf8(
            lines[line].name.value@,
        ),
{
    let entries = block_entries(lines);
    let extension = lines[line].args@[arg].value@;
    let at = lemma_block_entry(lines, line, arg);
    lemma_last_entry_counts(entries, at);
    lemma_last_of_key(entries, at);
    let last = choose|last: int|
        at <= last < entries.len() && (#[trigger] entries[last]).0 == extension && forall|i: int|
            last < i < entries.len() ==> (#[trigger] entries[i]).0 != extension;
    lemma_last_entry_counts(entries, last);
    let place = lemma_entry_of_block(lines, last);
    if place.0 > line {
        assert(lines[place.0].args@[place.1].value@ != extension);
    } else if place.0 < line {
        lemma_entries_grow(lines, place.0, line);
    }
}

proof fn lemma_entries_grow(lines: Seq<AstDirective>, one: int, other: int)
    requires
        0 <= one < other < lines.len(),
    ensures
        block_entries(lines.take(one)).len() + lines[one].args@.len() <= block_entries(
            lines.take(other),
        ).len(),
    decreases other,
{
    let before = lines.take(other - 1);
    assert(lines.take(other).drop_last() =~= before);
    assert(lines.take(other).last() == lines[other - 1]);
    if one < other - 1 {
        lemma_entries_grow(lines, one, other - 1);
    }
}

proof fn lemma_last_of_key(entries: Seq<(Seq<char>, Seq<u8>)>, at: int)
    requires
        0 <= at < entries.len(),
    ensures
        exists|last: int|
            at <= last < entries.len() && (#[trigger] entries[last]).0 == entries[at].0 && forall|
                i: int,
            |
                last < i < entries.len() ==> (#[trigger] entries[i]).0 != entries[at].0,
    decreases entries.len() - at,
{
    if exists|i: int| at < i < entries.len() && (#[trigger] entries[i]).0 == entries[at].0 {
        let i = choose|i: int| at < i < entries.len() && (#[trigger] entries[i]).0 == entries[at].0;
        lemma_last_of_key(entries, i);
    } else {
        assert(entries[at].0 == entries[at].0);
    }
}

} // verus!
