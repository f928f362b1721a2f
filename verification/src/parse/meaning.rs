//! What the values of directives mean, by the words that they are written with.
use vstd::prelude::*;
use vstd::utf8::encode_utf8;

use crate::address::socket_addr;
use crate::number::{decimal, decimal_reads_back, numbers_have_bounds};
use crate::outside::{dhttp_name, http_uri, is_header_name, is_header_value, text_view, UriView};
use crate::parse::ast::{named, AstDirective, Spanned};
use crate::parse::builtin::basic::{
    BoolConfigError, StringConfigError, StringListError,
};
use crate::parse::builtin::http::{
    find_text, suffix_start, written_suffix, DefaultTypeError, GzipCompLevelError,
    GzipMinLengthError, HeaderRulesError, ProxyPassError,
};
use crate::parse::builtin::net::{
    address_list, server_name_views, ListenConfigError, ResolverConfigError, ServerNamesError,
    SocketAddrsError,
};
use crate::parse::builtin::ssh::{SshLoginMethodsError, SshSslUsersError};
use crate::parse::builtin::stun::{
    bind_options, bind_value, fallback_addr, fallback_port, fallbacks_of, is_bind_option,
    stun_binds, stun_child_ok, with_bind_option, with_fallbacks,
};
use crate::parse::decode::DirectiveValue;
use crate::parse::source::SourceMap;
use crate::parse::types::{
    listen_words_have_a_meaning, BoolConfig, DefaultType, GzipCompLevel, GzipMinLength, HeaderRules,
    IpFamilies, ListenConfig, ProxyPass,
    RangeView, ResolverConfig, ServerNames, SocketAddrs, SshLoginMethods, SshSslUsers, StringConfig,
    StringList, StunBindConfigValue, StunServerConfigValue,
};
use crate::text::{find_char, split_on, trimmed};

verus! {

/// A switch is on for the word `on` and off for the word `off`, and for no other word.
pub proof fn switches_are_on_or_off(
    directive: AstDirective,
    sources: SourceMap,
    result: Result<BoolConfig, BoolConfigError>,
)
    requires
        BoolConfig::reads(directive, sources, result),
    ensures
        result == Ok::<BoolConfig, BoolConfigError>(BoolConfig(true)) <==> directive.args@.len() == 1
            && directive.args@[0].value@ == seq!['o', 'n'],
        result == Ok::<BoolConfig, BoolConfigError>(BoolConfig(false)) <==> directive.args@.len() == 1
            && directive.args@[0].value@ == seq!['o', 'f', 'f'],
{
    reveal_strlit("on");
    reveal_strlit("off");
    assert("on"@ =~= seq!['o', 'n']);
    assert("off"@ =~= seq!['o', 'f', 'f']);
    assert("on"@.len() == 2 && "off"@.len() == 3);
}

/// A text is the only argument, as it stands; there is none where there are more or fewer arguments.
pub proof fn texts_stay_as_they_are(
    directive: AstDirective,
    sources: SourceMap,
    result: Result<StringConfig, StringConfigError>,
)
    requires
        StringConfig::reads(directive, sources, result),
    ensures
        match result {
            Ok(value) => directive.args@.len() == 1 && value.0@ == directive.args@[0].value@,
            Err(_) => directive.args@.len() != 1,
        },
{
}

/// A list of words is all arguments, in their order; only types to compress must not be empty.
pub proof fn lists_hold_every_argument(
    directive: AstDirective,
    sources: SourceMap,
    result: Result<StringList, StringListError>,
)
    requires
        StringList::reads(directive, sources, result),
    ensures
        match result {
            Ok(list) => {
                &&& list@.len() == directive.args@.len()
                &&& forall|i: int|
                    0 <= i < list@.len() ==> (#[trigger] list@[i])@ == directive.args@[i].value@
                &&& directive.name.value@ == "gzip_types"@ ==> forall|i: int|
                    0 <= i < directive.args@.len() ==> (#[trigger] directive.args@[i]).value@.len() > 0
            },
            Err(_) => directive.name.value@ == "gzip_types"@ && exists|i: int|
                0 <= i < directive.args@.len() && (#[trigger] directive.args@[i]).value@.len() == 0,
        },
{
    let values = directive.arg_values();
    assert forall|i: int| 0 <= i < values.len() implies #[trigger] values[i] == directive.args@[i].value by {
    }
    if directive.name.value@ == "gzip_types"@ {
        assert forall|i: int|
            0 <= i < directive.args@.len() && (#[trigger] directive.args@[i]).value@.len()
                == 0 implies result is Err by {
            assert(values[i]@.len() == 0);
        }
    }
}

/// A least length is the number that its only argument spells, up to the largest of 64 bits.
pub proof fn least_length_is_its_number(
    directive: AstDirective,
    sources: SourceMap,
    n: nat,
    result: Result<GzipMinLength, GzipMinLengthError>,
)
    requires
        GzipMinLength::reads(directive, sources, result),
        directive.args@.len() == 1,
        directive.args@[0].value@ == decimal(n),
    ensures
        n <= u64::MAX ==> (result matches Ok(value) && value.0 == n),
        n > u64::MAX ==> result is Err,
{
    numbers_have_bounds(n, u64::MAX as nat);
    if n <= u64::MAX {
        decimal_reads_back(n, u64::MAX as nat);
    }
}

/// A compression level is the number that its only argument spells, above zero or below.
pub proof fn compression_level_is_its_number(
    directive: AstDirective,
    sources: SourceMap,
    n: nat,
    result: Result<GzipCompLevel, GzipCompLevelError>,
)
    requires
        GzipCompLevel::reads(directive, sources, result),
        directive.args@.len() == 1,
    ensures
        directive.args@[0].value@ == decimal(n) && n <= i32::MAX ==> (result matches Ok(value)
            && value.0 == n),
        directive.args@[0].value@ == decimal(n) && n > i32::MAX ==> result is Err,
        directive.args@[0].value@ == seq!['-'] + decimal(n) && n <= i32::MAX + 1 ==> (result matches Ok(
            value,
        ) && value.0 == -n),
{
    numbers_have_bounds(n, i32::MAX as nat);
}

/// A default type is its only argument, byte for byte, where that may stand in a header.
pub proof fn default_type_is_its_argument(
    directive: AstDirective,
    sources: SourceMap,
    result: Result<DefaultType, DefaultTypeError>,
)
    requires
        DefaultType::reads(directive, sources, result),
    ensures
        match result {
            Ok(kind) => directive.args@.len() == 1 && kind.0@ == encode_utf8(
                directive.args@[0].value@,
            ),
            Err(_) => directive.args@.len() != 1 || !is_header_value(
                encode_utf8(directive.args@[0].value@),
            ),
        },
{
}

/// A header that is added goes out with answers that are no errors, unless the third word asks for it
/// always; a header of requests that are passed on is always set. The rule keeps the value byte for
/// byte, and the name in small letters.
pub proof fn header_rules_say_when_they_hold(
    directive: AstDirective,
    sources: SourceMap,
    rules: HeaderRules,
)
    requires
        HeaderRules::reads(directive, sources, Ok(rules)),
    ensures
        rules.0@.len() == 1,
        directive.args@.len() == 2 || directive.args@.len() == 3,
        rules.0@[0].value@ == encode_utf8(directive.args@[1].value@),
        rules.0@[0].always <==> directive.name.value@ != "add_header"@ || directive.args@.len() == 3,
        directive.args@.len() == 3 ==> directive.name.value@ == "add_header"@
            && directive.args@[2].value@ == "always"@,
        encode_utf8(rules.0@[0].name@).len() == encode_utf8(directive.args@[0].value@).len(),
        forall|i: int|
            0 <= i < encode_utf8(directive.args@[0].value@).len() ==> {
                let b = #[trigger] encode_utf8(directive.args@[0].value@)[i];
                let small = encode_utf8(rules.0@[0].name@)[i];
                small == if 65 <= b && b <= 90 {
                    (b + 32) as u8
                } else {
                    b
                }
            },
{
    let bytes = encode_utf8(directive.args@[0].value@);
    let name = encode_utf8(rules.0@[0].name@);
    assert forall|i: int| 0 <= i < bytes.len() implies {
        let b = #[trigger] bytes[i];
        name[i] == if 65 <= b && b <= 90 {
            (b + 32) as u8
        } else {
            b
        }
    } by {
        assert(name[i] == bytes.map_values(|b: u8| crate::outside::lower_byte(b))[i]);
    }
}

/// A header rule is refused only for the number of its words, a third word other than `always`, or a
/// name or a value that no header can have.
pub proof fn header_rules_are_refused_for_a_reason(
    directive: AstDirective,
    sources: SourceMap,
    error: HeaderRulesError,
)
    requires
        HeaderRules::reads(directive, sources, Err(error)),
    ensures
        directive.args@.len() < 2 || directive.args@.len() > 3 || directive.args@.len() == 3 && (
        directive.name.value@ != "add_header"@ || directive.args@[2].value@ != "always"@)
            || !is_header_name(encode_utf8(directive.args@[0].value@)) || !is_header_value(
            encode_utf8(directive.args@[1].value@),
        ),
{
}

proof fn lemma_scheme_mark(scheme: Seq<char>, rest: Seq<char>)
    requires
        forall|i: int| 0 <= i < scheme.len() ==> #[trigger] scheme[i] != ':',
    ensures
        find_text(scheme + seq![':', '/', '/'] + rest, "://"@) == Some(scheme.len() as int),
    decreases scheme.len(),
{
    reveal_strlit("://");
    assert("://"@ =~= seq![':', '/', '/']);
    let text = scheme + seq![':', '/', '/'] + rest;
    if scheme.len() == 0 {
        assert(text.take(3) =~= "://"@);
    } else {
        assert(text[0] == scheme[0]);
        assert(text.take(3)[0] != ':');
        let tail = scheme.skip(1);
        assert(text.skip(1) =~= tail + seq![':', '/', '/'] + rest);
        assert forall|i: int| 0 <= i < tail.len() implies #[trigger] tail[i] != ':' by {
            assert(tail[i] == scheme[i + 1]);
        }
        lemma_scheme_mark(tail, rest);
    }
}

proof fn lemma_host_end(host: Seq<char>, suffix: Seq<char>)
    requires
        forall|i: int| 0 <= i < host.len() ==> #[trigger] host[i] != '/' && host[i] != '?',
        suffix.len() > 0 ==> suffix[0] == '/' || suffix[0] == '?',
    ensures
        suffix.len() > 0 ==> suffix_start(host + suffix) == Some(host.len() as int),
        suffix.len() == 0 ==> suffix_start(host + suffix) is None,
    decreases host.len(),
{
    let text = host + suffix;
    if host.len() == 0 {
        assert(text =~= suffix);
    } else {
        assert(text[0] == host[0]);
        let tail = host.skip(1);
        assert(text.skip(1) =~= tail + suffix);
        assert forall|i: int| 0 <= i < tail.len() implies #[trigger] tail[i] != '/' && tail[i] != '?' by {
            assert(tail[i] == host[i + 1]);
        }
        lemma_host_end(tail, suffix);
    }
}

/// A place to pass requests on to keeps its own path and query exactly where it is written with one,
/// from the first slash or question mark behind the host on, and has none where it ends with the host.
pub proof fn passed_on_path_is_what_is_written(
    scheme: Seq<char>,
    host: Seq<char>,
    suffix: Seq<char>,
)
    requires
        forall|i: int| 0 <= i < scheme.len() ==> #[trigger] scheme[i] != ':',
        forall|i: int| 0 <= i < host.len() ==> #[trigger] host[i] != '/' && host[i] != '?',
        suffix.len() > 0 ==> suffix[0] == '/' || suffix[0] == '?',
    ensures
        ({
            let raw = scheme + seq![':', '/', '/'] + (host + suffix);
            if suffix.len() > 0 {
                written_suffix(raw) == Some(suffix)
            } else {
                written_suffix(raw) is None
            }
        }),
{
    let rest = host + suffix;
    let raw = scheme + seq![':', '/', '/'] + rest;
    lemma_scheme_mark(scheme, rest);
    lemma_host_end(host, suffix);
    assert(raw.skip(scheme.len() as int + 3) =~= rest);
    assert(rest.skip(host.len() as int) =~= suffix);
}

/// Requests are passed on to a host by HTTP or HTTPS alone; what is written is kept, with the host and
/// the port that it names.
pub proof fn requests_are_passed_on_by_http(
    directive: AstDirective,
    sources: SourceMap,
    uri: UriView,
    result: Result<ProxyPass, ProxyPassError>,
)
    requires
        ProxyPass::reads(directive, sources, result),
        directive.args@.len() == 1,
        http_uri(directive.args@[0].value@) == Some(uri),
    ensures
        result is Ok <==> (uri.scheme == Some(seq!['h', 't', 't', 'p']) || uri.scheme == Some(
            seq!['h', 't', 't', 'p', 's'],
        )) && uri.authority is Some,
        result matches Ok(pass) ==> {
            &&& pass.raw@ == directive.args@[0].value@
            &&& pass.uri@ == uri
            &&& pass.proxy_host@ == (uri.authority->0).text
            &&& text_view(pass.explicit_path_and_query) == written_suffix(
                directive.args@[0].value@,
            )
        },
{
    reveal_strlit("http");
    reveal_strlit("https");
    assert("http"@ =~= seq!['h', 't', 't', 'p']);
    assert("https"@ =~= seq!['h', 't', 't', 'p', 's']);
}

/// Names of servers are the full names of all arguments, in their order.
pub proof fn server_names_are_all_arguments(
    directive: AstDirective,
    sources: SourceMap,
    result: Result<ServerNames, ServerNamesError>,
)
    requires
        ServerNames::reads(directive, sources, result),
    ensures
        match result {
            Ok(names) => {
                &&& names.0@.len() == directive.args@.len()
                &&& forall|i: int|
                    0 <= i < directive.args@.len() ==> dhttp_name(
                        (#[trigger] directive.args@[i]).value@,
                    ) == Some(names.0@[i].name@)
            },
            Err(_) => exists|i: int|
                0 <= i < directive.args@.len() && dhttp_name((#[trigger] directive.args@[i]).value@) is None,
        },
{
    if let Ok(names) = result {
        let views = server_name_views(names.0@);
        assert(views.len() == names.0@.len());
        assert forall|i: int| 0 <= i < directive.args@.len() implies dhttp_name(
            (#[trigger] directive.args@[i]).value@,
        ) == Some(names.0@[i].name@) by {
            assert(views[i] == names.0@[i].name@);
        }
    }
}

/// A resolver is the URI behind the word `h3`, and no other kind of resolver is taken.
pub proof fn resolvers_speak_h3(
    directive: AstDirective,
    sources: SourceMap,
    result: Result<ResolverConfig, ResolverConfigError>,
)
    requires
        ResolverConfig::reads(directive, sources, result),
    ensures
        result is Ok <==> directive.args@.len() == 2 && directive.args@[0].value@ == seq!['h', '3']
            && http_uri(directive.args@[1].value@) is Some,
        result matches Ok(resolver) ==> http_uri(directive.args@[1].value@) == Some(resolver.0@),
{
    reveal_strlit("h3");
    assert("h3"@ =~= seq!['h', '3']);
}

/// Users are let in by a name and the user that it stands for, in this order.
pub proof fn ssl_users_have_a_name_and_a_user(
    directive: AstDirective,
    sources: SourceMap,
    result: Result<SshSslUsers, SshSslUsersError>,
)
    requires
        SshSslUsers::reads(directive, sources, result),
    ensures
        match result {
            Ok(users) => {
                &&& directive.args@.len() == 2 && users.0@.len() == 1
                &&& users.0@[0].name@ == directive.args@[0].value@
                &&& users.0@[0].user@ == directive.args@[1].value@
            },
            Err(_) => directive.args@.len() != 2,
        },
{
}

/// The only way to log in is the word `ssl`, which must be named.
pub proof fn logins_are_by_certificate(
    directive: AstDirective,
    sources: SourceMap,
    result: Result<SshLoginMethods, SshLoginMethodsError>,
)
    requires
        SshLoginMethods::reads(directive, sources, result),
    ensures
        result is Ok <==> directive.args@.len() > 0 && forall|i: int|
            0 <= i < directive.args@.len() ==> (#[trigger] directive.args@[i]).value@ == seq![
                's',
                's',
                'l',
            ],
        result matches Ok(methods) ==> methods.0@.len() == directive.args@.len() && forall|i: int|
            0 <= i < methods.0@.len() ==> (#[trigger] methods.0@[i])@ == seq!['s', 's', 'l'],
{
    reveal_strlit("ssl");
    assert("ssl"@ =~= seq!['s', 's', 'l']);
    if let Ok(methods) = result {
        assert forall|i: int| 0 <= i < methods.0@.len() implies (#[trigger] methods.0@[i])@ == seq![
            's',
            's',
            'l',
        ] by {
            assert(methods.0@[i] == directive.arg_values()[i]);
            assert(directive.args@[i].value@ == "ssl"@);
        }
    }
}

/// A `listen` directive names interfaces, then perhaps the IP versions, then perhaps a port; without
/// versions both are meant, and without a port none is fixed.
pub proof fn listen_words_come_in_order(
    directive: AstDirective,
    sources: SourceMap,
    n: nat,
    result: Result<ListenConfig, ListenConfigError>,
)
    requires
        ListenConfig::reads(directive, sources, result),
        n <= 0xffff,
    ensures
        result matches Ok(config) ==> config.0@.len() == 1,
        directive.args@.len() == 0 || directive.args@.len() > 3 ==> result is Err,
        directive.args@.len() == 2 && directive.args@[1].value@ == decimal(n) ==> (result matches Ok(
            config,
        ) && {
            let listens = config.0@[0]@;
            &&& listens.families is Dual && listens.port == n && listens.specific_addrs is None
            &&& stands_for(listens.range, directive.args@[0].value@)
        }),
        directive.args@.len() == 2 && families_word(directive.args@[1].value@) is Some ==> (
        result matches Ok(config) && {
            let listens = config.0@[0]@;
            &&& Some(listens.families) == families_word(directive.args@[1].value@)
            &&& listens.port == 0 && listens.specific_addrs is None
            &&& stands_for(listens.range, directive.args@[0].value@)
        }),
        directive.args@.len() == 3 && families_word(directive.args@[1].value@) is Some
            && directive.args@[2].value@ == decimal(n) ==> (result matches Ok(config) && {
            let listens = config.0@[0]@;
            &&& Some(listens.families) == families_word(directive.args@[1].value@)
            &&& listens.port == n && listens.specific_addrs is None
            &&& stands_for(listens.range, directive.args@[0].value@)
        }),
        directive.args@.len() == 3 && families_word(directive.args@[1].value@) is None ==> result is Err,
        directive.args@.len() == 1 && !directive.args@[0].value@.contains(',') && socket_addr(
            directive.args@[0].value@,
        ) is None ==> (result matches Ok(config) && {
            let listens = config.0@[0]@;
            &&& listens.families is Dual && listens.port == 0 && listens.specific_addrs is None
            &&& stands_for(listens.range, directive.args@[0].value@)
        }),
{
    decimal_reads_back(n, 0xffff);
    if directive.args@.len() > 0 {
        listen_words_have_a_meaning(directive.args@[0].value@);
    }
    if directive.args@.len() > 1 {
        listen_words_have_a_meaning(directive.args@[1].value@);
        if directive.args@[1].value@ == decimal(n) {
            crate::number::numbers_are_made_of_digits(decimal(n), 0xffff);
            let word = directive.args@[1].value@;
            assert('0' <= word[0] && word[0] <= '9' || word[0] == '+');
        }
    }
}

/// The IP versions that a word stands for.
pub open spec fn families_word(word: Seq<char>) -> Option<IpFamilies> {
    if word == seq!['v', '4', 'o', 'n', 'l', 'y'] {
        Some(IpFamilies::V4)
    } else if word == seq!['v', '6', 'o', 'n', 'l', 'y'] {
        Some(IpFamilies::V6)
    } else if word == seq!['d', 'u', 'a', 'l'] {
        Some(IpFamilies::Dual)
    } else {
        None
    }
}

/// Whether a range of interfaces is the one that a word stands for.
pub open spec fn stands_for(range: RangeView, word: Seq<char>) -> bool {
    match range {
        RangeView::All => word == seq!['a', 'l', 'l'],
        RangeView::External => word == seq!['e', 'x', 't', 'e', 'r', 'n', 'a', 'l'],
        RangeView::Internal => word == seq!['i', 'n', 't', 'e', 'r', 'n', 'a', 'l'],
        RangeView::Exact(name) => name == word && word != seq!['a', 'l', 'l'] && word != seq![
            'e',
            'x',
            't',
            'e',
            'r',
            'n',
            'a',
            'l',
        ] && word != seq!['i', 'n', 't', 'e', 'r', 'n', 'a', 'l'],
    }
}

/// Texts with a comma between them.
pub open spec fn listed(parts: Seq<Seq<char>>) -> Seq<char>
    decreases parts.len(),
{
    if parts.len() == 0 {
        seq![]
    } else if parts.len() == 1 {
        parts[0]
    } else {
        parts[0] + seq![','] + listed(parts.skip(1))
    }
}

proof fn lemma_first_comma(s: Seq<char>)
    ensures
        0 <= find_char(s, ',') <= s.len(),
        forall|i: int| 0 <= i < find_char(s, ',') ==> s[i] != ',',
        find_char(s, ',') < s.len() ==> s[find_char(s, ',')] == ',',
    decreases s.len(),
{
    if s.len() > 0 && s[0] != ',' {
        lemma_first_comma(s.skip(1));
        assert forall|i: int| 0 <= i < find_char(s, ',') implies s[i] != ',' by {
            if i > 0 {
                assert(s.skip(1)[i - 1] == s[i]);
            }
        }
    }
}

proof fn lemma_split(parts: Seq<Seq<char>>)
    requires
        parts.len() > 0,
        forall|i: int| 0 <= i < parts.len() ==> !(#[trigger] parts[i]).contains(','),
    ensures
        split_on(listed(parts), ',') == parts,
    decreases parts.len(),
{
    let first = parts[0];
    let text = listed(parts);
    lemma_first_comma(text);
    assert(!parts[0].contains(','));
    if parts.len() == 1 {
        assert(text == first);
        let at = find_char(text, ',');
        if at < text.len() {
            assert(first.contains(text[at]));
        }
        assert(split_on(text, ',') =~= parts);
    } else {
        let rest = parts.skip(1);
        assert forall|i: int| 0 <= i < rest.len() implies !(#[trigger] rest[i]).contains(',') by {
            assert(rest[i] == parts[i + 1]);
        }
        lemma_split(rest);
        let n = first.len() as int;
        assert(text[n] == ',');
        let at = find_char(text, ',');
        if at < n {
            assert(text[at] == first[at]);
            assert(first.contains(first[at]));
        }
        assert(at == n);
        assert(text.take(n) =~= first);
        assert(text.skip(n + 1) =~= listed(rest));
        assert(split_on(text, ',') =~= seq![first] + rest);
        assert(seq![first] + rest =~= parts);
    }
}

/// Addresses are read between commas, with the white space around them left out: all of them, in their
/// order, or none where one is no address.
pub proof fn addresses_stand_between_commas(parts: Seq<Seq<char>>)
    requires
        parts.len() > 0,
        forall|i: int| 0 <= i < parts.len() ==> !(#[trigger] parts[i]).contains(','),
    ensures
        match address_list(listed(parts)) {
            Some(addrs) => addrs.len() == parts.len() && forall|i: int|
                0 <= i < parts.len() ==> socket_addr(trimmed(#[trigger] parts[i])) == Some(addrs[i]),
            None => exists|i: int|
                0 <= i < parts.len() && socket_addr(trimmed(#[trigger] parts[i])) is None,
        },
{
    lemma_split(parts);
}

/// A list of addresses is what its only argument lists, and is refused where that lists none.
pub proof fn address_lists_are_their_argument(
    directive: AstDirective,
    sources: SourceMap,
    result: Result<SocketAddrs, SocketAddrsError>,
)
    requires
        SocketAddrs::reads(directive, sources, result),
    ensures
        match result {
            Ok(list) => directive.args@.len() == 1 && address_list(directive.args@[0].value@) == Some(
                list.0@,
            ),
            Err(_) => directive.args@.len() != 1 || address_list(directive.args@[0].value@) is None,
        },
{
}

proof fn lemma_more_options(
    args: Seq<Spanned<String>>,
    at: int,
    bind: StunBindConfigValue,
    name: Spanned<String>,
    value: Spanned<String>,
)
    requires
        0 <= at <= args.len(),
        bind_options(args, at, bind) is Some,
    ensures
        ({
            let more = args.push(name).push(value);
            bind_options(more, at, bind) == if is_bind_option(more, args.len() as int) {
                with_bind_option(more, args.len() as int, bind_options(args, at, bind)->0)
            } else {
                None
            }
        }),
    decreases args.len() - at,
{
    let more = args.push(name).push(value);
    if at < args.len() {
        assert(more[at] == args[at]);
        assert(more[at + 1] == args[at + 1]);
        let next = with_bind_option(args, at, bind)->0;
        assert(with_bind_option(more, at, bind) == with_bind_option(args, at, bind));
        lemma_more_options(args, at + 2, next, name, value);
    } else {
        reveal_with_fuel(bind_options, 2);
    }
}

/// Behind the address of a binding stand options, each a word and its value: an outer address, an
/// address or a port to change to. Each sets its own part and leaves the others, and the last of its
/// kind counts. Other words are refused.
pub proof fn options_of_a_binding_set_their_part(
    args: Seq<Spanned<String>>,
    bind: StunBindConfigValue,
    name: Spanned<String>,
    value: Spanned<String>,
)
    requires
        bind_value(args) == Some(bind),
    ensures
        ({
            let more = bind_value(args.push(name).push(value));
            &&& name.value@ == "outer_addr"@ ==> match socket_addr(value.value@) {
                Some(addr) => more == Some(StunBindConfigValue { outer_addr: Some(addr), ..bind }),
                None => more is None,
            }
            &&& name.value@ == "change_addr"@ ==> match socket_addr(value.value@) {
                Some(addr) => more == Some(StunBindConfigValue { change_addr: Some(addr), ..bind }),
                None => more is None,
            }
            &&& forall|n: nat|
                n <= 0xffff && name.value@ == "change_port"@ && value.value@ == #[trigger] decimal(n)
                    ==> more == Some(StunBindConfigValue { change_port: Some(n as u16), ..bind })
            &&& name.value@ != "outer_addr"@ && name.value@ != "change_addr"@ && name.value@
                != "change_port"@ ==> more is None
        }),
{
    let more = args.push(name).push(value);
    assert(more[0] == args[0]);
    let addr = socket_addr(args[0].value@)->0;
    let start = StunBindConfigValue {
        bind: addr,
        outer_addr: None,
        change_addr: None,
        change_port: None,
    };
    lemma_more_options(args, 1, start, name, value);
    let at = args.len() as int;
    assert(more[at] == name && more[at + 1] == value);
    reveal_strlit("outer_addr");
    reveal_strlit("change_addr");
    reveal_strlit("change_port");
    assert("outer_addr"@.len() == 10 && "change_addr"@.len() == 11 && "change_port"@.len() == 11);
    assert("change_addr"@[7] != "change_port"@[7]);
    assert forall|n: nat|
        n <= 0xffff && name.value@ == "change_port"@ && value.value@ == #[trigger] decimal(
            n,
        ) implies bind_value(more) == Some(
        StunBindConfigValue { change_port: Some(n as u16), ..bind },
    ) by {
        decimal_reads_back(n, 0xffff);
    }
}

/// A binding starts with its address and nothing else.
pub proof fn bindings_begin_with_an_address(args: Seq<Spanned<String>>)
    ensures
        args.len() == 0 ==> bind_value(args) is None,
        bind_value(args) matches Some(bind) ==> socket_addr(args[0].value@) == Some(bind.bind),
        args.len() == 1 ==> match socket_addr(args[0].value@) {
            Some(addr) => bind_value(args) == Some(
                StunBindConfigValue {
                    bind: addr,
                    outer_addr: None,
                    change_addr: None,
                    change_port: None,
                },
            ),
            None => bind_value(args) is None,
        },
{
    if args.len() > 0 && socket_addr(args[0].value@) is Some {
        let start = StunBindConfigValue {
            bind: socket_addr(args[0].value@)->0,
            outer_addr: None,
            change_addr: None,
            change_port: None,
        };
        lemma_address_stays(args, 1, start);
    }
}

proof fn lemma_address_stays(args: Seq<Spanned<String>>, at: int, bind: StunBindConfigValue)
    ensures
        bind_options(args, at, bind) matches Some(more) ==> more.bind == bind.bind,
    decreases args.len() - at,
{
    if at < args.len() && is_bind_option(args, at) {
        if let Some(next) = with_bind_option(args, at, bind) {
            lemma_address_stays(args, at + 2, next);
        }
    }
}

/// A server for address questions has a binding for each of its `bind` directives, in their order. What
/// a binding does not say itself it takes from the directive of the block with that name, and from no
/// other.
pub proof fn bindings_take_what_they_do_not_say(
    directive: AstDirective,
    sources: SourceMap,
    children: Seq<AstDirective>,
    value: StunServerConfigValue,
    at: int,
)
    requires
        StunServerConfigValue::reads(directive, sources, Ok(value)),
        directive.block() == Some(children),
        0 <= at < value.binds@.len(),
    ensures
        value.binds@.len() == named(children, "bind"@).len(),
        bind_value(named(children, "bind"@)[at].args@) is Some,
        ({
            let own = bind_value(named(children, "bind"@)[at].args@)->0;
            let bind = value.binds@[at];
            &&& bind.bind == own.bind
            &&& own.outer_addr is Some ==> bind.outer_addr == own.outer_addr
            &&& own.change_addr is Some ==> bind.change_addr == own.change_addr
            &&& own.change_port is Some ==> bind.change_port == own.change_port
            &&& own.outer_addr is None ==> bind.outer_addr == (if named(children, "outer_addr"@).len()
                > 0 {
                fallback_addr(named(children, "outer_addr"@)[0])
            } else {
                None
            })
            &&& own.change_addr is None ==> bind.change_addr == (if named(
                children,
                "change_addr"@,
            ).len() > 0 {
                fallback_addr(named(children, "change_addr"@)[0])
            } else {
                None
            })
            &&& own.change_port is None ==> bind.change_port == (if named(
                children,
                "change_port"@,
            ).len() > 0 {
                fallback_port(named(children, "change_port"@)[0])
            } else {
                None
            })
        }),
{
    let list = named(children, "bind"@);
    let k = lemma_named_is_child(children, "bind"@, at);
    assert(stun_child_ok(children, k));
    assert(value.binds@[at] == stun_binds(children)[at]);
    assert(stun_binds(children)[at] == with_fallbacks(
        bind_value(list[at].args@)->0,
        fallbacks_of(children),
    ));
}

proof fn lemma_named_is_child(children: Seq<AstDirective>, name: Seq<char>, at: int) -> (k: int)
    requires
        0 <= at < named(children, name).len(),
    ensures
        0 <= k < children.len(),
        children[k] == named(children, name)[at],
        children[k].name_text() == name,
    decreases children.len(),
{
    let before = named(children.drop_last(), name);
    if at < before.len() {
        lemma_named_is_child(children.drop_last(), name, at)
    } else {
        children.len() - 1
    }
}

/// A fallback is the first address, or the port, that its only argument gives.
pub proof fn fallbacks_are_their_argument(directive: AstDirective, n: nat)
    requires
        directive.args@.len() == 1,
    ensures
        fallback_addr(directive) == (match address_list(directive.args@[0].value@) {
            Some(addrs) => Some(addrs[0]),
            None => None,
        }),
        n <= 0xffff && directive.args@[0].value@ == decimal(n) ==> fallback_port(directive) == Some(
            n as u16,
        ),
{
    if n <= 0xffff {
        decimal_reads_back(n, 0xffff);
    }
}

} // verus!
