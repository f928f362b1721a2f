//! Directives about names, addresses and listening.
use vstd::prelude::*;

use crate::address::{socket_addr, AddrParseError, SocketAddr};
use crate::number::{parse_u16, parse_u8, unsigned_value, ParseIntError};
use crate::outside::{dhttp_name, http_uri, is_name_fault, is_uri_fault, parse_uri};
use crate::parse::ast::{AstDirective, Spanned};
use crate::parse::builtin::basic::{first_arg_place, only_arg};
use crate::parse::builtin::DirectiveError;
use crate::parse::decode::{first_place, is_count_error, DirectiveValue};
use crate::parse::source::{SourceMap, SourceSpan};
use crate::parse::types::{
    families_of, range_of, ClientNameConfig, DhttpName, IfaceRange, InvalidDhttpName, IpFamilies,
    ListenConfig, Listens, ListensView, RangeView, ResolverConfig, ServerIdConfig, ServerName,
    ServerNames, SocketAddrs,
};
use crate::text::{
    chars_of, contains_char, find_char_from, lemma_find_char, push_str, split_on, str_eq,
    string_of_range, texts, trim_range, trimmed,
};

verus! {

/// Why a text is no URI.
#[derive(Debug, PartialEq, Eq)]
pub struct InvalidUri {
    pub reason: String,
}

impl InvalidUri {
    pub open spec fn text(self) -> Seq<char> {
        self.reason@
    }

    pub fn message(&self) -> (text: String)
        ensures
            text@ == self.text(),
    {
        self.reason.clone()
    }
}

/// Why a directive gives no resolver.
#[derive(Debug)]
pub enum ResolverConfigError {
    InvalidArgumentCount { span: SourceSpan, expected: &'static str, actual: usize },
    Uri { span: SourceSpan, source: InvalidUri },
    DeprecatedResolver { span: SourceSpan, kind: String },
    UnsupportedResolver { span: SourceSpan, kind: String },
}

impl ResolverConfigError {
    /// The message of this error.
    pub open spec fn text(self) -> Seq<char> {
        match self {
            ResolverConfigError::InvalidArgumentCount { .. } => "invalid dns directive argument count"@,
            ResolverConfigError::Uri { .. } => "invalid dns resolver uri directive value"@,
            ResolverConfigError::DeprecatedResolver { kind, .. } => "deprecated resolver kind `"@ + kind@ + "`"@,
            ResolverConfigError::UnsupportedResolver { kind, .. } => "unsupported resolver kind `"@ + kind@ + "`"@,
        }
    }

    /// The message of this error.
    pub fn message(&self) -> (text: String)
        ensures
            text@ == self.text(),
    {
        match self {
            ResolverConfigError::InvalidArgumentCount { .. } => "invalid dns directive argument count".to_owned(),
            ResolverConfigError::Uri { .. } => "invalid dns resolver uri directive value".to_owned(),
            ResolverConfigError::DeprecatedResolver { kind, .. } => {
                let mut text = "deprecated resolver kind `".to_owned();
                push_str(&mut text, kind.as_str());
                push_str(&mut text, "`");
                text
            },
            ResolverConfigError::UnsupportedResolver { kind, .. } => {
                let mut text = "unsupported resolver kind `".to_owned();
                push_str(&mut text, kind.as_str());
                push_str(&mut text, "`");
                text
            },
        }
    }

    /// The messages of this error and of what caused it, outermost first.
    pub open spec fn chain(self) -> Seq<Seq<char>> {
        match self {
            ResolverConfigError::Uri { source, .. } => seq![self.text(), source.text()],
            _ => seq![self.text()],
        }
    }

    /// The messages of this error and of what caused it, outermost first.
    pub fn messages(&self) -> (list: Vec<String>)
        ensures
            texts(list@) == self.chain(),
    {
        let mut list: Vec<String> = Vec::new();
        list.push(self.message());
        match self {
            ResolverConfigError::Uri { source, .. } => {
                list.push(source.message());
            },
            _ => {},
        }
        assert(texts(list@) =~= self.chain());
        list
    }
}

impl DirectiveValue for ResolverConfig {
    type Error = ResolverConfigError;

    open spec fn reads(
        directive: AstDirective,
        sources: SourceMap,
        result: Result<Self, ResolverConfigError>,
    ) -> bool {
        if directive.args@.len() != 2 {
            result matches Err(ResolverConfigError::InvalidArgumentCount { span, expected, actual })
                && is_count_error(directive, span, expected@, actual, "2"@)
        } else if directive.arg(0) == "h3"@ {
            match http_uri(directive.arg(1)) {
                Some(uri) => result matches Ok(resolver) && resolver.0@ == uri,
                None => result matches Err(ResolverConfigError::Uri { span, source }) && span
                    == directive.args@[1].span && is_uri_fault(directive.arg(1), source.text()),
            }
        } else if directive.arg(0) == "udp"@ || directive.arg(0) == "http"@ {
            result matches Err(ResolverConfigError::DeprecatedResolver { span, kind }) && span
                == directive.args@[0].span && kind@ == directive.arg(0)
        } else {
            result matches Err(ResolverConfigError::UnsupportedResolver { span, kind }) && span
                == directive.args@[0].span && kind@ == directive.arg(0)
        }
    }

    open spec fn place(directive: AstDirective) -> SourceSpan {
        directive.span
    }

    open spec fn wrapped(error: ResolverConfigError) -> DirectiveError {
        DirectiveError::ResolverConfig(error)
    }

    proof fn reads_one_way(
        directive: AstDirective,
        sources: SourceMap,
        value: Self,
        error: ResolverConfigError,
    ) {
    }

    fn read(directive: &AstDirective, source_map: &SourceMap) -> (result: Result<Self, ResolverConfigError>) {
        if directive.args.len() != 2 {
            return Err(
                ResolverConfigError::InvalidArgumentCount {
                    span: directive.span,
                    expected: "2",
                    actual: directive.args.len(),
                },
            );
        }
        let kind = &directive.args[0];
        if str_eq(kind.value.as_str(), "h3") {
            match parse_uri(directive.args[1].value.as_str()) {
                Ok(uri) => Ok(ResolverConfig(uri)),
                Err(reason) => Err(
                    ResolverConfigError::Uri {
                        span: directive.args[1].span,
                        source: InvalidUri { reason },
                    },
                ),
            }
        } else if str_eq(kind.value.as_str(), "udp") || str_eq(kind.value.as_str(), "http") {
            Err(
                ResolverConfigError::DeprecatedResolver {
                    span: kind.span,
                    kind: kind.value.clone(),
                },
            )
        } else {
            Err(
                ResolverConfigError::UnsupportedResolver {
                    span: kind.span,
                    kind: kind.value.clone(),
                },
            )
        }
    }

    fn place_of(directive: &AstDirective) -> (span: SourceSpan) {
        directive.span
    }

    fn wrap(error: ResolverConfigError) -> (wrapped: DirectiveError) {
        DirectiveError::ResolverConfig(error)
    }
}

/// Why a directive gives no server number.
#[derive(Debug)]
pub enum ServerIdConfigError {
    InvalidArgumentCount { span: SourceSpan, expected: &'static str, actual: usize },
    Port { span: SourceSpan, source: ParseIntError },
}

impl ServerIdConfigError {
    /// The message of this error.
    pub open spec fn text(self) -> Seq<char> {
        match self {
            ServerIdConfigError::InvalidArgumentCount { .. } => "invalid server_id directive argument count"@,
            ServerIdConfigError::Port { .. } => "invalid server_id directive value"@,
        }
    }

    /// The message of this error.
    pub fn message(&self) -> (text: String)
        ensures
            text@ == self.text(),
    {
        match self {
            ServerIdConfigError::InvalidArgumentCount { .. } => "invalid server_id directive argument count".to_owned(),
            ServerIdConfigError::Port { .. } => "invalid server_id directive value".to_owned(),
        }
    }

    /// The messages of this error and of what caused it, outermost first.
    pub open spec fn chain(self) -> Seq<Seq<char>> {
        match self {
            ServerIdConfigError::Port { source, .. } => seq![self.text(), source.text()],
            _ => seq![self.text()],
        }
    }

    /// The messages of this error and of what caused it, outermost first.
    pub fn messages(&self) -> (list: Vec<String>)
        ensures
            texts(list@) == self.chain(),
    {
        let mut list: Vec<String> = Vec::new();
        list.push(self.message());
        match self {
            ServerIdConfigError::Port { source, .. } => {
                list.push(source.message());
            },
            _ => {},
        }
        assert(texts(list@) =~= self.chain());
        list
    }
}

impl DirectiveValue for ServerIdConfig {
    type Error = ServerIdConfigError;

    open spec fn reads(
        directive: AstDirective,
        sources: SourceMap,
        result: Result<Self, ServerIdConfigError>,
    ) -> bool {
        if directive.args@.len() == 1 {
            match result {
                Ok(id) => unsigned_value(directive.arg(0), 0xff) == Ok::<nat, ParseIntError>(
                    id.0 as nat,
                ),
                Err(ServerIdConfigError::Port { span, source }) => span == directive.args@[0].span
                    && unsigned_value(directive.arg(0), 0xff) == Err::<nat, ParseIntError>(source),
                Err(_) => false,
            }
        } else {
            result matches Err(ServerIdConfigError::InvalidArgumentCount { span, expected, actual })
                && is_count_error(directive, span, expected@, actual, "1"@)
        }
    }

    open spec fn place(directive: AstDirective) -> SourceSpan {
        first_place(directive)
    }

    open spec fn wrapped(error: ServerIdConfigError) -> DirectiveError {
        DirectiveError::ServerIdConfig(error)
    }

    proof fn reads_one_way(
        directive: AstDirective,
        sources: SourceMap,
        value: Self,
        error: ServerIdConfigError,
    ) {
    }

    fn read(directive: &AstDirective, source_map: &SourceMap) -> (result: Result<Self, ServerIdConfigError>) {
        let arg = match only_arg(directive) {
            Some(arg) => arg,
            None => {
                return Err(
                    ServerIdConfigError::InvalidArgumentCount {
                        span: directive.span,
                        expected: "1",
                        actual: directive.args.len(),
                    },
                );
            },
        };
        match parse_u8(arg.value.as_str()) {
            Ok(id) => Ok(ServerIdConfig(id)),
            Err(source) => Err(ServerIdConfigError::Port { span: arg.span, source }),
        }
    }

    fn place_of(directive: &AstDirective) -> (span: SourceSpan) {
        first_arg_place(directive)
    }

    fn wrap(error: ServerIdConfigError) -> (wrapped: DirectiveError) {
        DirectiveError::ServerIdConfig(error)
    }
}

/// Why a directive gives no server names.
#[derive(Debug)]
pub enum ServerNamesError {
    ServerName { span: SourceSpan, source: InvalidDhttpName },
}

impl ServerNamesError {
    /// The message of this error.
    pub open spec fn text(self) -> Seq<char> {
        match self {
            ServerNamesError::ServerName { .. } => "invalid server_name directive value"@,
        }
    }

    /// The message of this error.
    pub fn message(&self) -> (text: String)
        ensures
            text@ == self.text(),
    {
        match self {
            ServerNamesError::ServerName { .. } => "invalid server_name directive value".to_owned(),
        }
    }

    /// The messages of this error and of what caused it, outermost first.
    pub open spec fn chain(self) -> Seq<Seq<char>> {
        match self {
            ServerNamesError::ServerName { source, .. } => seq![self.text(), source.text()],
        }
    }

    /// The messages of this error and of what caused it, outermost first.
    pub fn messages(&self) -> (list: Vec<String>)
        ensures
            texts(list@) == self.chain(),
    {
        let mut list: Vec<String> = Vec::new();
        list.push(self.message());
        match self {
            ServerNamesError::ServerName { source, .. } => {
                list.push(source.message());
            },
        }
        assert(texts(list@) =~= self.chain());
        list
    }
}

/// The full names that server names hold.
pub open spec fn server_name_views(names: Seq<ServerName>) -> Seq<Seq<char>> {
    names.map_values(|name: ServerName| name.name@)
}

/// Whether every argument up to `count` spells a name.
pub open spec fn all_names(args: Seq<Spanned<String>>, count: int) -> bool {
    forall|i: int| 0 <= i < count ==> dhttp_name((#[trigger] args[i]).value@) is Some
}

impl DirectiveValue for ServerNames {
    type Error = ServerNamesError;

    open spec fn reads(
        directive: AstDirective,
        sources: SourceMap,
        result: Result<Self, ServerNamesError>,
    ) -> bool {
        match result {
            Ok(names) => {
                &&& all_names(directive.args@, directive.args@.len() as int)
                &&& server_name_views(names.0@) == directive.args@.map_values(
                    |arg: Spanned<String>| dhttp_name(arg.value@)->0,
                )
            },
            Err(ServerNamesError::ServerName { span, source }) => exists|at: int|
                {
                    &&& 0 <= at < directive.args@.len()
                    &&& all_names(directive.args@, at)
                    &&& is_name_fault((#[trigger] directive.args@[at]).value@, source.text())
                    &&& span == directive.args@[at].span
                },
        }
    }

    open spec fn place(directive: AstDirective) -> SourceSpan {
        directive.span
    }

    open spec fn wrapped(error: ServerNamesError) -> DirectiveError {
        DirectiveError::ServerNames(error)
    }

    proof fn reads_one_way(
        directive: AstDirective,
        sources: SourceMap,
        value: Self,
        error: ServerNamesError,
    ) {
    }

    fn read(directive: &AstDirective, source_map: &SourceMap) -> (result: Result<Self, ServerNamesError>) {
        let mut names: Vec<ServerName> = Vec::new();
        let ghost wanted = directive.args@.map_values(
            |arg: Spanned<String>| dhttp_name(arg.value@)->0,
        );
        let mut i: usize = 0;
        assert(server_name_views(names@) =~= wanted.take(0));
        while i < directive.args.len()
            invariant
                i <= directive.args@.len(),
                all_names(directive.args@, i as int),
                wanted == directive.args@.map_values(
                    |arg: Spanned<String>| dhttp_name(arg.value@)->0,
                ),
                server_name_views(names@) == wanted.take(i as int),
            decreases directive.args@.len() - i,
        {
            let arg = &directive.args[i];
            match DhttpName::try_from(arg.value.as_str()) {
                Ok(name) => {
                    let ghost before = names@;
                    names.push(ServerName { name });
                    assert(server_name_views(names@) =~= server_name_views(before).push(name@));
                    assert(wanted.take(i + 1) =~= wanted.take(i as int).push(wanted[i as int]));
                },
                Err(source) => {
                    assert(directive.args@[i as int] == *arg);
                    return Err(ServerNamesError::ServerName { span: arg.span, source });
                },
            }
            i += 1;
        }
        assert(wanted.take(i as int) =~= wanted);
        Ok(ServerNames(names))
    }

    fn place_of(directive: &AstDirective) -> (span: SourceSpan) {
        directive.span
    }

    fn wrap(error: ServerNamesError) -> (wrapped: DirectiveError) {
        DirectiveError::ServerNames(error)
    }
}

/// Why a directive gives no client name.
#[derive(Debug)]
pub enum ClientNameConfigError {
    InvalidArgumentCount { span: SourceSpan, expected: &'static str, actual: usize },
    ClientName { span: SourceSpan, source: InvalidDhttpName },
}

impl ClientNameConfigError {
    /// The message of this error.
    pub open spec fn text(self) -> Seq<char> {
        match self {
            ClientNameConfigError::InvalidArgumentCount { .. } => "invalid client_name directive argument count"@,
            ClientNameConfigError::ClientName { .. } => "invalid client_name directive value"@,
        }
    }

    /// The message of this error.
    pub fn message(&self) -> (text: String)
        ensures
            text@ == self.text(),
    {
        match self {
            ClientNameConfigError::InvalidArgumentCount { .. } => "invalid client_name directive argument count".to_owned(),
            ClientNameConfigError::ClientName { .. } => "invalid client_name directive value".to_owned(),
        }
    }

    /// The messages of this error and of what caused it, outermost first.
    pub open spec fn chain(self) -> Seq<Seq<char>> {
        match self {
            ClientNameConfigError::ClientName { source, .. } => seq![self.text(), source.text()],
            _ => seq![self.text()],
        }
    }

    /// The messages of this error and of what caused it, outermost first.
    pub fn messages(&self) -> (list: Vec<String>)
        ensures
            texts(list@) == self.chain(),
    {
        let mut list: Vec<String> = Vec::new();
        list.push(self.message());
        match self {
            ClientNameConfigError::ClientName { source, .. } => {
                list.push(source.message());
            },
            _ => {},
        }
        assert(texts(list@) =~= self.chain());
        list
    }
}

impl DirectiveValue for ClientNameConfig {
    type Error = ClientNameConfigError;

    open spec fn reads(
        directive: AstDirective,
        sources: SourceMap,
        result: Result<Self, ClientNameConfigError>,
    ) -> bool {
        if directive.args@.len() == 1 {
            match dhttp_name(directive.arg(0)) {
                Some(full) => result matches Ok(name) && name.0@ == full,
                None => result matches Err(ClientNameConfigError::ClientName { span, source })
                    && span == directive.args@[0].span && is_name_fault(
                    directive.arg(0),
                    source.text(),
                ),
            }
        } else {
            result matches Err(ClientNameConfigError::InvalidArgumentCount { span, expected, actual })
                && is_count_error(directive, span, expected@, actual, "1"@)
        }
    }

    open spec fn place(directive: AstDirective) -> SourceSpan {
        first_place(directive)
    }

    open spec fn wrapped(error: ClientNameConfigError) -> DirectiveError {
        DirectiveError::ClientNameConfig(error)
    }

    proof fn reads_one_way(
        directive: AstDirective,
        sources: SourceMap,
        value: Self,
        error: ClientNameConfigError,
    ) {
    }

    fn read(directive: &AstDirective, source_map: &SourceMap) -> (result: Result<Self, ClientNameConfigError>) {
        let arg = match only_arg(directive) {
            Some(arg) => arg,
            None => {
                return Err(
                    ClientNameConfigError::InvalidArgumentCount {
                        span: directive.span,
                        expected: "1",
                        actual: directive.args.len(),
                    },
                );
            },
        };
        match DhttpName::try_from(arg.value.as_str()) {
            Ok(name) => Ok(ClientNameConfig(name)),
            Err(source) => Err(ClientNameConfigError::ClientName { span: arg.span, source }),
        }
    }

    fn place_of(directive: &AstDirective) -> (span: SourceSpan) {
        first_arg_place(directive)
    }

    fn wrap(error: ClientNameConfigError) -> (wrapped: DirectiveError) {
        DirectiveError::ClientNameConfig(error)
    }
}

/// The addresses that a text lists between commas, each with white space around it or not; none
/// where some part is no address.
pub open spec fn address_list(text: Seq<char>) -> Option<Seq<SocketAddr>> {
    let parts = split_on(text, ',');
    if forall|i: int| 0 <= i < parts.len() ==> socket_addr(trimmed(#[trigger] parts[i])) is Some {
        Some(parts.map_values(|part: Seq<char>| socket_addr(trimmed(part))->0))
    } else {
        None
    }
}

/// The first of some parts, from the one at `from` on, that is no address.
pub open spec fn first_bad_address(parts: Seq<Seq<char>>, from: int) -> Option<Seq<char>>
    decreases parts.len() - from,
{
    if from < 0 || from >= parts.len() {
        None
    } else if socket_addr(trimmed(parts[from])) is None {
        Some(parts[from])
    } else {
        first_bad_address(parts, from + 1)
    }
}

/// Parts that are addresses are not the first that is none.
proof fn lemma_first_bad(parts: Seq<Seq<char>>, from: int, at: int)
    requires
        0 <= from <= at < parts.len(),
        forall|i: int| from <= i < at ==> socket_addr(trimmed(#[trigger] parts[i])) is Some,
        socket_addr(trimmed(parts[at])) is None,
    ensures
        first_bad_address(parts, from) == Some(parts[at]),
    decreases at - from,
{
    if from < at {
        lemma_first_bad(parts, from + 1, at);
    }
}

/// Reads the addresses that a text lists between commas.
pub fn parse_address_list(text: &str) -> (addrs: Option<Vec<SocketAddr>>)
    ensures
        match addrs {
            Some(addrs) => address_list(text@) == Some(addrs@),
            None => address_list(text@) is None,
        },
{
    match parse_address_parts(text) {
        Ok(addrs) => Some(addrs),
        Err(_) => None,
    }
}

/// Reads the addresses that a text lists between commas, or else finds the first part that is none.
pub fn parse_address_parts(text: &str) -> (addrs: Result<Vec<SocketAddr>, String>)
    ensures
        match addrs {
            Ok(addrs) => address_list(text@) == Some(addrs@),
            Err(part) => address_list(text@) is None && first_bad_address(
                split_on(text@, ','),
                0,
            ) == Some(part@),
        },
{
    let chars = chars_of(text);
    let ghost parts = split_on(text@, ',');
    let mut addrs: Vec<SocketAddr> = Vec::new();
    let mut from: usize = 0;
    let ghost mut done: Seq<Seq<char>> = seq![];
    assert(chars@.skip(0) =~= chars@);
    assert(parts =~= done + split_on(chars@.skip(0), ','));
    loop
        invariant
            from <= chars@.len(),
            chars@ == text@,
            parts == split_on(text@, ','),
            parts == done + split_on(chars@.skip(from as int), ','),
            addrs@.len() == done.len(),
            forall|i: int|
                0 <= i < done.len() ==> socket_addr(trimmed(#[trigger] done[i])) == Some(addrs@[i]),
        decreases chars@.len() - from,
    {
        let at = find_char_from(&chars, from, ',');
        let ghost rest = chars@.skip(from as int);
        let ghost part = chars@.subrange(from as int, at as int);
        proof {
            lemma_find_char(rest, ',');
            assert(part =~= rest.take(at - from));
            if at == chars@.len() {
                assert(rest.take(at - from) =~= rest);
                assert(split_on(rest, ',') =~= seq![part]);
            } else {
                assert(rest.skip(at - from + 1) =~= chars@.skip(at + 1));
                assert(split_on(rest, ',') =~= seq![part] + split_on(chars@.skip(at + 1), ','));
            }
            assert(parts[done.len() as int] == part);
        }
        let piece = trim_range(&chars, from, at);
        match SocketAddr::parse(piece.as_str()) {
            Ok(addr) => {
                addrs.push(addr);
                proof {
                    let before = done;
                    done = before.push(part);
                }
            },
            Err(_) => {
                proof {
                    assert forall|i: int| 0 <= i < done.len() implies socket_addr(
                        trimmed(#[trigger] parts[i]),
                    ) is Some by {
                        assert(parts[i] == done[i]);
                        assert(socket_addr(trimmed(done[i])) == Some(addrs@[i]));
                    }
                    lemma_first_bad(parts, 0, done.len() as int);
                    assert(socket_addr(trimmed(parts[done.len() as int])) is None);
                }
                return Err(string_of_range(&chars, from, at));
            },
        }
        if at == chars.len() {
            proof {
                assert(done =~= parts);
                assert forall|i: int| 0 <= i < parts.len() implies socket_addr(
                    trimmed(#[trigger] parts[i]),
                ) is Some by {
                    assert(socket_addr(trimmed(done[i])) == Some(addrs@[i]));
                }
                let wanted = parts.map_values(|part: Seq<char>| socket_addr(trimmed(part))->0);
                assert forall|i: int| 0 <= i < parts.len() implies addrs@[i] == wanted[i] by {
                    assert(socket_addr(trimmed(done[i])) == Some(addrs@[i]));
                }
                assert(addrs@ =~= wanted);
            }
            return Ok(addrs);
        }
        from = at + 1;
        assert(parts =~= done + split_on(chars@.skip(from as int), ','));
    }
}

/// Why a directive gives no addresses.
#[derive(Debug)]
pub enum SocketAddrsError {
    InvalidArgumentCount { span: SourceSpan, expected: &'static str, actual: usize },
    SocketAddr { span: SourceSpan, source: AddrParseError },
}

impl SocketAddrsError {
    /// The message of this error.
    pub open spec fn text(self) -> Seq<char> {
        match self {
            SocketAddrsError::InvalidArgumentCount { .. } => "invalid socket address directive argument count"@,
            SocketAddrsError::SocketAddr { .. } => "invalid socket address directive value"@,
        }
    }

    /// The message of this error.
    pub fn message(&self) -> (text: String)
        ensures
            text@ == self.text(),
    {
        match self {
            SocketAddrsError::InvalidArgumentCount { .. } => "invalid socket address directive argument count".to_owned(),
            SocketAddrsError::SocketAddr { .. } => "invalid socket address directive value".to_owned(),
        }
    }

    /// The messages of this error and of what caused it, outermost first.
    pub open spec fn chain(self) -> Seq<Seq<char>> {
        match self {
            SocketAddrsError::SocketAddr { source, .. } => seq![self.text(), source.text()],
            _ => seq![self.text()],
        }
    }

    /// The messages of this error and of what caused it, outermost first.
    pub fn messages(&self) -> (list: Vec<String>)
        ensures
            texts(list@) == self.chain(),
    {
        let mut list: Vec<String> = Vec::new();
        list.push(self.message());
        match self {
            SocketAddrsError::SocketAddr { source, .. } => {
                list.push(source.message());
            },
            _ => {},
        }
        assert(texts(list@) =~= self.chain());
        list
    }
}

impl DirectiveValue for SocketAddrs {
    type Error = SocketAddrsError;

    open spec fn reads(
        directive: AstDirective,
        sources: SourceMap,
        result: Result<Self, SocketAddrsError>,
    ) -> bool {
        if directive.args@.len() == 1 {
            match address_list(directive.arg(0)) {
                Some(addrs) => result matches Ok(list) && list.0@ == addrs,
                None => result matches Err(SocketAddrsError::SocketAddr { span, .. }) && span
                    == directive.args@[0].span,
            }
        } else {
            result matches Err(SocketAddrsError::InvalidArgumentCount { span, expected, actual })
                && is_count_error(directive, span, expected@, actual, "1"@)
        }
    }

    open spec fn place(directive: AstDirective) -> SourceSpan {
        first_place(directive)
    }

    open spec fn wrapped(error: SocketAddrsError) -> DirectiveError {
        DirectiveError::SocketAddrs(error)
    }

    proof fn reads_one_way(
        directive: AstDirective,
        sources: SourceMap,
        value: Self,
        error: SocketAddrsError,
    ) {
    }

    fn read(directive: &AstDirective, source_map: &SourceMap) -> (result: Result<Self, SocketAddrsError>) {
        let arg = match only_arg(directive) {
            Some(arg) => arg,
            None => {
                return Err(
                    SocketAddrsError::InvalidArgumentCount {
                        span: directive.span,
                        expected: "1",
                        actual: directive.args.len(),
                    },
                );
            },
        };
        match parse_address_list(arg.value.as_str()) {
            Some(addrs) => Ok(SocketAddrs(addrs)),
            None => Err(SocketAddrsError::SocketAddr { span: arg.span, source: AddrParseError }),
        }
    }

    fn place_of(directive: &AstDirective) -> (span: SourceSpan) {
        first_arg_place(directive)
    }

    fn wrap(error: SocketAddrsError) -> (wrapped: DirectiveError) {
        DirectiveError::SocketAddrs(error)
    }
}

/// Why a directive does not say what to listen on.
#[derive(Debug)]
#[allow(inconsistent_fields)]
pub enum ListenConfigError {
    InvalidArgumentCount { span: SourceSpan, expected: &'static str, actual: usize },
    SocketAddr { span: SourceSpan, source: AddrParseError },
    Port { span: SourceSpan, source: ParseIntError },
    IpFamilies { span: SourceSpan, value: String },
}

impl ListenConfigError {
    /// The message of this error.
    pub open spec fn text(self) -> Seq<char> {
        match self {
            ListenConfigError::InvalidArgumentCount { .. } => "invalid listen directive argument count"@,
            ListenConfigError::SocketAddr { .. } => "invalid listen socket address directive value"@,
            ListenConfigError::Port { .. } => "invalid listen port directive value"@,
            ListenConfigError::IpFamilies { value, .. } => "invalid listen ip family directive value `"@ + value@ + "`"@,
        }
    }

    /// The message of this error.
    pub fn message(&self) -> (text: String)
        ensures
            text@ == self.text(),
    {
        match self {
            ListenConfigError::InvalidArgumentCount { .. } => "invalid listen directive argument count".to_owned(),
            ListenConfigError::SocketAddr { .. } => "invalid listen socket address directive value".to_owned(),
            ListenConfigError::Port { .. } => "invalid listen port directive value".to_owned(),
            ListenConfigError::IpFamilies { value, .. } => {
                let mut text = "invalid listen ip family directive value `".to_owned();
                push_str(&mut text, value.as_str());
                push_str(&mut text, "`");
                text
            },
        }
    }

    /// The messages of this error and of what caused it, outermost first.
    pub open spec fn chain(self) -> Seq<Seq<char>> {
        match self {
            ListenConfigError::SocketAddr { source, .. } => seq![self.text(), source.text()],
            ListenConfigError::Port { source, .. } => seq![self.text(), source.text()],
            _ => seq![self.text()],
        }
    }

    /// The messages of this error and of what caused it, outermost first.
    pub fn messages(&self) -> (list: Vec<String>)
        ensures
            texts(list@) == self.chain(),
    {
        let mut list: Vec<String> = Vec::new();
        list.push(self.message());
        match self {
            ListenConfigError::SocketAddr { source, .. } => {
                list.push(source.message());
            },
            ListenConfigError::Port { source, .. } => {
                list.push(source.message());
            },
            _ => {},
        }
        assert(texts(list@) =~= self.chain());
        list
    }
}

/// Listening on the interfaces of a range.
pub open spec fn range_listens(range: RangeView, families: IpFamilies, port: u16) -> ListensView {
    ListensView { range, families, port, specific_addrs: None }
}

/// Listening on given addresses.
pub open spec fn addr_listens(addrs: Seq<SocketAddr>) -> ListensView {
    ListensView {
        range: RangeView::All,
        families: IpFamilies::Dual,
        port: 0,
        specific_addrs: Some(addrs),
    }
}

/// What reading the only argument of `listen` gives: a list of addresses where it holds a comma or
/// is an address, else the name of an interface or of a group of them.
pub open spec fn reads_one_listen(
    arg: Spanned<String>,
    result: Result<ListensView, ListenConfigError>,
) -> bool {
    if arg.value@.contains(',') || socket_addr(arg.value@) is Some {
        match address_list(arg.value@) {
            Some(addrs) => result matches Ok(listens) && listens == addr_listens(addrs),
            None => result matches Err(ListenConfigError::SocketAddr { span, .. }) && span
                == arg.span,
        }
    } else {
        result matches Ok(listens) && listens == range_listens(
            range_of(arg.value@),
            IpFamilies::Dual,
            0,
        )
    }
}

/// What reading a port gives, given what else is listened on.
pub open spec fn reads_port(
    port: Spanned<String>,
    range: RangeView,
    families: IpFamilies,
    result: Result<ListensView, ListenConfigError>,
) -> bool {
    match unsigned_value(port.value@, 0xffff) {
        Ok(number) => result matches Ok(listens) && listens == range_listens(
            range,
            families,
            number as u16,
        ),
        Err(error) => result matches Err(ListenConfigError::Port { span, source }) && span
            == port.span && source == error,
    }
}

/// What reading a `listen` directive gives.
pub open spec fn reads_listen(
    directive: AstDirective,
    result: Result<ListensView, ListenConfigError>,
) -> bool {
    let args = directive.args@;
    if args.len() == 1 {
        reads_one_listen(args[0], result)
    } else if args.len() == 2 {
        match families_of(args[1].value@) {
            Some(families) => result matches Ok(listens) && listens == range_listens(
                range_of(args[0].value@),
                families,
                0,
            ),
            None => reads_port(args[1], range_of(args[0].value@), IpFamilies::Dual, result),
        }
    } else if args.len() == 3 {
        match families_of(args[1].value@) {
            Some(families) => reads_port(args[2], range_of(args[0].value@), families, result),
            None => result matches Err(ListenConfigError::IpFamilies { span, value }) && span
                == args[1].span && value@ == args[1].value@,
        }
    } else {
        result matches Err(ListenConfigError::InvalidArgumentCount { span, expected, actual })
            && is_count_error(directive, span, expected@, actual, "1, 2, or 3"@)
    }
}

fn read_one_listen(arg: &Spanned<String>) -> (result: Result<Listens, ListenConfigError>)
    ensures
        match result {
            Ok(listens) => reads_one_listen(*arg, Ok(listens@)),
            Err(error) => reads_one_listen(*arg, Err(error)),
        },
{
    let text = arg.value.as_str();
    if contains_char(&chars_of(text), ',') || SocketAddr::parse(text).is_ok() {
        match parse_address_list(text) {
            Some(addrs) => Ok(
                Listens {
                    range: IfaceRange::All,
                    families: IpFamilies::Dual,
                    port: 0,
                    specific_addrs: Some(addrs),
                },
            ),
            None => Err(ListenConfigError::SocketAddr { span: arg.span, source: AddrParseError }),
        }
    } else {
        Ok(Listens::new(IfaceRange::from_text(text), IpFamilies::default(), 0))
    }
}

fn read_port(port: &Spanned<String>, range: IfaceRange, families: IpFamilies) -> (result: Result<
    Listens,
    ListenConfigError,
>)
    ensures
        match result {
            Ok(listens) => reads_port(*port, range@, families, Ok(listens@)),
            Err(error) => reads_port(*port, range@, families, Err(error)),
        },
{
    match parse_u16(port.value.as_str()) {
        Ok(number) => Ok(Listens::new(range, families, number)),
        Err(source) => Err(ListenConfigError::Port { span: port.span, source }),
    }
}

/// Reads what a `listen` directive says to listen on.
pub fn read_listen(directive: &AstDirective) -> (result: Result<Listens, ListenConfigError>)
    ensures
        match result {
            Ok(listens) => reads_listen(*directive, Ok(listens@)),
            Err(error) => reads_listen(*directive, Err(error)),
        },
{
    let args = &directive.args;
    if args.len() == 1 {
        read_one_listen(&args[0])
    } else if args.len() == 2 {
        let range = IfaceRange::from_text(args[0].value.as_str());
        match IpFamilies::from_str(args[1].value.as_str()) {
            Ok(families) => Ok(Listens::new(range, families, 0)),
            Err(_) => read_port(&args[1], range, IpFamilies::default()),
        }
    } else if args.len() == 3 {
        match IpFamilies::from_str(args[1].value.as_str()) {
            Ok(families) => {
                let range = IfaceRange::from_text(args[0].value.as_str());
                read_port(&args[2], range, families)
            },
            Err(error) => Err(
                ListenConfigError::IpFamilies { span: args[1].span, value: error.value },
            ),
        }
    } else {
        Err(
            ListenConfigError::InvalidArgumentCount {
                span: directive.span,
                expected: "1, 2, or 3",
                actual: args.len(),
            },
        )
    }
}

impl DirectiveValue for ListenConfig {
    type Error = ListenConfigError;

    open spec fn reads(
        directive: AstDirective,
        sources: SourceMap,
        result: Result<Self, ListenConfigError>,
    ) -> bool {
        match result {
            Ok(config) => config.0@.len() == 1 && reads_listen(directive, Ok(config.0@[0]@)),
            Err(error) => reads_listen(directive, Err(error)),
        }
    }

    open spec fn place(directive: AstDirective) -> SourceSpan {
        directive.span
    }

    open spec fn wrapped(error: ListenConfigError) -> DirectiveError {
        DirectiveError::ListenConfig(error)
    }

    proof fn reads_one_way(
        directive: AstDirective,
        sources: SourceMap,
        value: Self,
        error: ListenConfigError,
    ) {
    }

    fn read(directive: &AstDirective, source_map: &SourceMap) -> (result: Result<Self, ListenConfigError>) {
        match read_listen(directive) {
            Ok(listens) => {
                let mut list: Vec<Listens> = Vec::new();
                list.push(listens);
                Ok(ListenConfig(list))
            },
            Err(error) => Err(error),
        }
    }

    fn place_of(directive: &AstDirective) -> (span: SourceSpan) {
        directive.span
    }

    fn wrap(error: ListenConfigError) -> (wrapped: DirectiveError) {
        DirectiveError::ListenConfig(error)
    }
}

} // verus!
