//! What the directives of a plain configuration come to, in terms of their words.
use std::sync::Arc;

use vstd::prelude::*;
use vstd::utf8::encode_utf8;

use crate::address::{socket_addr, SocketAddr};
use crate::number::{numbers_fit, unsigned_value, ParseIntError};
use crate::outside::{http_uri, is_header_name};
use crate::parse::builtin::net::address_list;
use crate::parse::commands::{
    combined, command_in, completed, completed_location, completed_server, conf_commands,
    default_cert, default_key, gathered, inner_commands, location_commands, opens_block, outcome,
    pishoo_commands, proxy_commands, server_commands, stun_bind_commands, stun_server_commands,
    Command, Head, Outcome, Surroundings,
};
use crate::parse::directives::{
    address_value, boolean_value, first_bad_head, header_always_value, header_value,
    header_value_value, line_types, listen_value, path_value, proxy_pass_value, resolver_value,
    reversed_entries, server_id_value, server_name_value, ssh_login_value, ssh_ssl_user_value,
    string_map_value, string_value, string_vec_value, text_values, type_entries, types_value,
    ExistingPaths,
};
use crate::parse::node::{backtracked, entry, nearest, value_at, walk, Directive, Node, ValueView};
use crate::parse::pattern::PatternView;
use crate::parse::types::{mime_table, IpFamilies, RangeView};
use crate::text::texts;

verus! {

/// A switch has one argument, which is `on` or `off` and nothing else.
pub proof fn switches_have_two_words(directive: Directive)
    ensures
        boolean_value(directive) is Ok == (directive.args@.len() == 1 && (directive.arg(0) == seq![
            'o',
            'n',
        ] || directive.arg(0) == seq!['o', 'f', 'f'])),
        boolean_value(directive) matches Ok(value) ==> value == ValueView::Boolean(
            directive.arg(0) == seq!['o', 'n'],
        ),
{
    reveal_strlit("on");
    reveal_strlit("off");
    assert("on"@ =~= seq!['o', 'n']);
    assert("off"@ =~= seq!['o', 'f', 'f']);
    assert(seq!['o', 'n'].len() != seq!['o', 'f', 'f'].len());
}

/// A text is the only argument as it stands; a list of texts or of names is all the arguments as
/// they stand.
pub proof fn texts_are_their_arguments(directive: Directive)
    ensures
        string_value(directive) is Ok == (directive.args@.len() == 1),
        string_value(directive) matches Ok(value) ==> value == ValueView::String(
            directive.args@[0]@,
        ),
        string_vec_value(directive) matches Ok(ValueView::StringVec(list)) && list.len()
            == directive.args@.len() && forall|i: int|
            0 <= i < list.len() ==> #[trigger] list[i] == directive.args@[i]@,
        server_name_value(directive) matches Ok(ValueView::ServerName(list)) && list.len()
            == directive.args@.len() && forall|i: int|
            0 <= i < list.len() ==> #[trigger] list[i] == directive.args@[i]@,
{
}

/// A header value is the bytes of the only argument, none of which is a control character other than
/// a tab.
pub proof fn header_values_are_their_argument(directive: Directive)
    ensures
        header_value_value(directive) is Ok == (directive.args@.len() == 1 && forall|i: int|
            0 <= i < encode_utf8(directive.arg(0)).len() ==> {
                let b = #[trigger] encode_utf8(directive.arg(0))[i];
                b == 9 || b > 31 && b != 127
            }),
        header_value_value(directive) matches Ok(value) ==> value == ValueView::HeaderValue(
            encode_utf8(directive.arg(0)),
        ),
{
}

/// The number of a server is its only argument, at most 255.
pub proof fn server_numbers_are_their_argument(directive: Directive)
    ensures
        server_id_value(directive) matches Ok(value) ==> directive.args@.len() == 1
            && (value matches
            ValueView::ServerId(number) && unsigned_value(directive.arg(0), 255) == Ok::<
            nat,
            ParseIntError,
        >(number as nat)),
        server_id_value(directive) is Err ==> directive.args@.len() != 1 || unsigned_value(
            directive.arg(0),
            255,
        ) is Err,
{
    if directive.args@.len() == 1 {
        numbers_fit(directive.arg(0), 255);
    }
}

/// Requests are passed on to a server with the scheme `http` or `https` and a name or address.
pub proof fn passed_on_requests_have_a_server(directive: Directive)
    ensures
        proxy_pass_value(directive) is Ok == (directive.args@.len() == 1 && (http_uri(
            directive.arg(0),
        ) matches Some(uri) && uri.authority is Some && (uri.scheme == Some(
            seq!['h', 't', 't', 'p'],
        ) || uri.scheme == Some(seq!['h', 't', 't', 'p', 's'])))),
        proxy_pass_value(directive) matches Ok(value) ==> value == ValueView::Uri(
            http_uri(directive.arg(0))->0,
        ),
{
    reveal_strlit("http");
    reveal_strlit("https");
    assert("http"@ =~= seq!['h', 't', 't', 'p']);
    assert("https"@ =~= seq!['h', 't', 't', 'p', 's']);
}

/// A resolver is asked by `h3` at a URI.
pub proof fn resolvers_are_asked_by_h3(directive: Directive)
    ensures
        resolver_value(directive) is Ok == (directive.args@.len() == 2 && directive.arg(0) == seq![
            'h',
            '3',
        ] && http_uri(directive.arg(1)) is Some),
        resolver_value(directive) matches Ok(value) ==> value == ValueView::Resolver(
            http_uri(directive.arg(1))->0,
        ),
{
    reveal_strlit("h3");
    reveal_strlit("udp");
    reveal_strlit("http");
    assert("h3"@ =~= seq!['h', '3']);
    assert("udp"@.len() == 3 && "http"@.len() == 4 && seq!['h', '3'].len() == 2);
}

/// A path is the bytes of the only argument, and leads to something.
pub proof fn paths_lead_to_something(directive: Directive, existing: ExistingPaths)
    ensures
        path_value(directive, existing) is Ok == (directive.args@.len() == 1 && exists|i: int|
            0 <= i < existing.paths@.len() && (#[trigger] existing.paths@[i])@ == encode_utf8(
                directive.arg(0),
            )),
        path_value(directive, existing) matches Ok(value) ==> value == ValueView::Path(
            encode_utf8(directive.arg(0)),
        ),
{
}

/// An address stands alone; with a comma it is a list of addresses.
pub proof fn addresses_stand_alone_or_in_a_list(directive: Directive)
    ensures
        address_value(directive) is Ok == (directive.args@.len() == 1 && if directive.arg(
            0,
        ).contains(',') {
            address_list(directive.arg(0)) is Some
        } else {
            socket_addr(directive.arg(0)) is Some
        }),
        address_value(directive) matches Ok(value) ==> match value {
            ValueView::Addr(addr) => !directive.arg(0).contains(',') && socket_addr(
                directive.arg(0),
            ) == Some(addr),
            ValueView::AddrVec(addrs) => directive.arg(0).contains(',') && address_list(
                directive.arg(0),
            ) == Some(addrs),
            _ => false,
        },
{
}

/// Behind the interfaces to listen on stand, each where it is given, the families of addresses and
/// the port. Without them all families are meant, and any port.
pub proof fn listen_words_stand_in_order(directive: Directive)
    ensures
        listen_value(directive) matches Ok(value) ==> value matches ValueView::Listen(list)
            && list.len() == 1 && 1 <= directive.args@.len() <= 3,
        directive.args@.len() == 3 ==> listen_value(directive) is Ok == ((directive.arg(1) == seq![
            'v',
            '4',
            'o',
            'n',
            'l',
            'y',
        ] || directive.arg(1) == seq!['v', '6', 'o', 'n', 'l', 'y'] || directive.arg(1) == seq![
            'd',
            'u',
            'a',
            'l',
        ]) && unsigned_value(directive.arg(2), 65535) is Ok),
        directive.args@.len() == 2 ==> listen_value(directive) is Ok == (directive.arg(1) == seq![
            'v',
            '4',
            'o',
            'n',
            'l',
            'y',
        ] || directive.arg(1) == seq!['v', '6', 'o', 'n', 'l', 'y'] || directive.arg(1) == seq![
            'd',
            'u',
            'a',
            'l',
        ] || unsigned_value(directive.arg(1), 65535) is Ok),
        directive.args@.len() == 1 ==> listen_value(directive) is Ok,
        listen_value(directive) matches Ok(ValueView::Listen(list)) ==> {
            let listens = list[0];
            let word = if directive.args@.len() > 1 {
                directive.arg(1)
            } else {
                seq!['d', 'u', 'a', 'l']
            };
            &&& word == seq!['v', '4', 'o', 'n', 'l', 'y'] ==> listens.families == IpFamilies::V4
            &&& word == seq!['v', '6', 'o', 'n', 'l', 'y'] ==> listens.families == IpFamilies::V6
            &&& word != seq!['v', '4', 'o', 'n', 'l', 'y'] && word != seq![
                'v',
                '6',
                'o',
                'n',
                'l',
                'y',
            ] ==> listens.families == IpFamilies::Dual
            &&& directive.args@.len() == 3 ==> unsigned_value(directive.arg(2), 65535) == Ok::<
                nat,
                ParseIntError,
            >(listens.port as nat)
            &&& directive.args@.len() == 2 ==> listens.port == (match unsigned_value(
                directive.arg(1),
                65535,
            ) {
                Ok(port) => port,
                Err(_) => 0,
            })
            &&& directive.args@.len() == 1 ==> listens.port == 0
            &&& listens.specific_addrs matches Some(addrs) ==> directive.args@.len() == 1
                && address_list(directive.arg(0)) == Some(addrs)
            &&& listens.specific_addrs is None ==> match listens.range {
                RangeView::All => directive.arg(0) == seq!['a', 'l', 'l'],
                RangeView::External => directive.arg(0) == seq![
                    'e',
                    'x',
                    't',
                    'e',
                    'r',
                    'n',
                    'a',
                    'l',
                ],
                RangeView::Internal => directive.arg(0) == seq![
                    'i',
                    'n',
                    't',
                    'e',
                    'r',
                    'n',
                    'a',
                    'l',
                ],
                RangeView::Exact(name) => directive.arg(0) == name,
            }
        },
{
    reveal_strlit("v4only");
    reveal_strlit("v6only");
    reveal_strlit("dual");
    reveal_strlit("all");
    reveal_strlit("external");
    reveal_strlit("internal");
    assert("v4only"@ =~= seq!['v', '4', 'o', 'n', 'l', 'y']);
    assert("v6only"@ =~= seq!['v', '6', 'o', 'n', 'l', 'y']);
    assert("dual"@ =~= seq!['d', 'u', 'a', 'l']);
    assert("all"@ =~= seq!['a', 'l', 'l']);
    assert("external"@ =~= seq!['e', 'x', 't', 'e', 'r', 'n', 'a', 'l']);
    assert("internal"@ =~= seq!['i', 'n', 't', 'e', 'r', 'n', 'a', 'l']);
    assert(seq!['v', '4', 'o', 'n', 'l', 'y'][1] != seq!['v', '6', 'o', 'n', 'l', 'y'][1]);
    assert(seq!['v', '4', 'o', 'n', 'l', 'y'].len() != seq!['d', 'u', 'a', 'l'].len());
    assert(seq!['v', '6', 'o', 'n', 'l', 'y'].len() != seq!['d', 'u', 'a', 'l'].len());
    if directive.args@.len() == 2 {
        numbers_fit(directive.arg(1), 65535);
    }
    if directive.args@.len() == 3 {
        numbers_fit(directive.arg(2), 65535);
    }
}

/// A header has its first argument as its name, in small letters, and its second as its value. Set on
/// requests it always is; added to responses, it is on all of them only where `always` stands third.
pub proof fn headers_have_a_name_and_a_value(directive: Directive)
    ensures
        header_value(directive) is Ok ==> directive.args@.len() == 2,
        header_always_value(directive) is Ok ==> directive.args@.len() == 2
            || directive.args@.len() == 3 && directive.arg(2) == seq![
            'a',
            'l',
            'w',
            'a',
            'y',
            's',
        ],
        directive.args@.len() == 2 ==> header_value(directive) is Ok == header_always_value(
            directive,
        ) is Ok,
        directive.args@.len() == 2 || directive.args@.len() == 3 && directive.arg(2) == seq![
            'a',
            'l',
            'w',
            'a',
            'y',
            's',
        ] ==> header_always_value(directive) is Ok == (is_header_name(
            encode_utf8(directive.arg(0)),
        ) && forall|i: int|
            0 <= i < encode_utf8(directive.arg(1)).len() ==> {
                let b = #[trigger] encode_utf8(directive.arg(1))[i];
                b == 9 || b > 31 && b != 127
            }),
        header_value(directive) matches Ok(value) ==> is_one_header(directive, value, true),
        header_always_value(directive) matches Ok(value) ==> is_one_header(
            directive,
            value,
            directive.args@.len() == 3,
        ),
{
    reveal_strlit("always");
    assert("always"@ =~= seq!['a', 'l', 'w', 'a', 'y', 's']);
}

/// Whether a value is one header, of the two words of a directive.
pub open spec fn is_one_header(directive: Directive, value: ValueView, always: bool) -> bool {
    value matches ValueView::Header(list) && list.len() == 1 && {
        let name = encode_utf8(directive.arg(0));
        &&& list[0].always == always
        &&& list[0].value == encode_utf8(directive.arg(1))
        &&& list[0].name.len() == name.len()
        &&& forall|i: int|
            0 <= i < name.len() ==> #[trigger] list[0].name[i] == (if 65 <= name[i] <= 90 {
                (name[i] + 32) as u8
            } else {
                name[i]
            })
    }
}

/// Logins are by `ssl`, at least once; a user of a certificate is its holder and its login.
pub proof fn logins_have_their_words(directive: Directive)
    ensures
        ssh_login_value(directive) is Ok == (directive.args@.len() > 0 && forall|i: int|
            0 <= i < directive.args@.len() ==> (#[trigger] directive.args@[i])@ == seq![
                's',
                's',
                'l',
            ]),
        ssh_login_value(directive) matches Ok(value) ==> value matches ValueView::StringVec(list)
            && list.len() == directive.args@.len(),
        ssh_ssl_user_value(directive) is Ok == (directive.args@.len() == 2),
        ssh_ssl_user_value(directive) matches Ok(value) ==> value == ValueView::SshSslUser(
            seq![(directive.args@[0]@, directive.args@[1]@)],
        ),
{
    reveal_strlit("ssl");
    assert("ssl"@ =~= seq!['s', 's', 'l']);
}

/// Whether a line gives an extension a type: the extension stands behind the type.
pub open spec fn line_gives(line: Directive, extension: Seq<char>) -> bool {
    exists|k: int| 0 <= k < line.args@.len() && (#[trigger] line.args@[k])@ == extension
}

proof fn lemma_types(lines: Seq<Directive>, extension: Seq<char>)
    ensures
        mime_table(type_entries(lines)).contains_key(extension) == exists|i: int|
            0 <= i < lines.len() && line_gives(#[trigger] lines[i], extension),
        mime_table(type_entries(lines)).contains_key(extension) ==> exists|i: int|
            {
                &&& 0 <= i < lines.len()
                &&& line_gives(#[trigger] lines[i], extension)
                &&& mime_table(type_entries(lines))[extension] == encode_utf8(lines[i].name@)
                &&& forall|k: int|
                    i < k < lines.len() ==> !line_gives(#[trigger] lines[k], extension)
            },
    decreases lines.len(),
{
    if lines.len() > 0 {
        let init = lines.drop_last();
        let last = lines.last();
        let before = type_entries(init);
        let added = line_types(last);
        lemma_types(init, extension);
        lemma_line(before, added, extension, encode_utf8(last.name@));
        assert(lines[lines.len() - 1] == last);
        if line_gives(last, extension) {
            let k = choose|k: int|
                0 <= k < last.args@.len() && (#[trigger] last.args@[k])@ == extension;
            assert(added[k].0 == extension);
        } else {
            assert forall|k: int| 0 <= k < added.len() implies (#[trigger] added[k]).0
                != extension by {
                assert(added[k].0 == last.args@[k]@);
            }
            if mime_table(before).contains_key(extension) {
                let i = choose|i: int|
                    {
                        &&& 0 <= i < init.len()
                        &&& line_gives(#[trigger] init[i], extension)
                        &&& mime_table(before)[extension] == encode_utf8(init[i].name@)
                        &&& forall|k: int|
                            i < k < init.len() ==> !line_gives(#[trigger] init[k], extension)
                    };
                assert(lines[i] == init[i]);
                assert forall|k: int| i < k < lines.len() implies !line_gives(
                    #[trigger] lines[k],
                    extension,
                ) by {
                    if k < init.len() {
                        assert(init[k] == lines[k]);
                    }
                }
            }
            assert(forall|i: int| 0 <= i < init.len() ==> #[trigger] init[i] == lines[i]);
            assert(forall|i: int| 0 <= i < init.len() ==> #[trigger] lines[i] == init[i]);
        }
    }
}

proof fn lemma_line(
    before: Seq<(Seq<char>, Seq<u8>)>,
    added: Seq<(Seq<char>, Seq<u8>)>,
    extension: Seq<char>,
    name: Seq<u8>,
)
    requires
        forall|k: int| 0 <= k < added.len() ==> (#[trigger] added[k]).1 == name,
    ensures
        ({
            let table = mime_table(before + added);
            if exists|k: int| 0 <= k < added.len() && (#[trigger] added[k]).0 == extension {
                table.contains_key(extension) && table[extension] == name
            } else {
                table.contains_key(extension) == mime_table(before).contains_key(extension)
                    && table[extension] == mime_table(before)[extension]
            }
        }),
    decreases added.len(),
{
    if added.len() == 0 {
        assert(before + added =~= before);
    } else {
        let init = added.drop_last();
        lemma_line(before, init, extension, name);
        assert((before + added).drop_last() =~= before + init);
        assert((before + added).last() == added.last());
        assert(added[added.len() - 1] == added.last());
        assert(forall|k: int| 0 <= k < init.len() ==> #[trigger] init[k] == added[k]);
        assert(forall|k: int| 0 <= k < init.len() ==> #[trigger] added[k] == init[k]);
    }
}

/// A `types` block knows exactly the extensions behind its types, all of each line, and of several
/// types for an extension the last. It is refused only where a line is not headed by a type.
pub proof fn types_block_gives_every_extension_its_type(
    directive: Directive,
    lines: Seq<Directive>,
    extension: Seq<char>,
)
    requires
        directive.children matches Some(children) && children@ == lines,
    ensures
        types_value(directive) is Ok == forall|i: int|
            0 <= i < lines.len() ==> crate::outside::is_header_value(
                encode_utf8((#[trigger] lines[i]).name@),
            ),
        types_value(directive) matches Ok(value) ==> value matches ValueView::Types(table) && {
            &&& table.contains_key(extension) == exists|i: int|
                0 <= i < lines.len() && line_gives(#[trigger] lines[i], extension)
            &&& table.contains_key(extension) ==> exists|i: int|
                {
                    &&& 0 <= i < lines.len()
                    &&& line_gives(#[trigger] lines[i], extension)
                    &&& table[extension] == encode_utf8(lines[i].name@)
                    &&& forall|k: int|
                        i < k < lines.len() ==> !line_gives(#[trigger] lines[k], extension)
                }
        },
{
    lemma_bad_head(lines, 0);
    lemma_types(lines, extension);
}

proof fn lemma_bad_head(lines: Seq<Directive>, from: int)
    requires
        0 <= from <= lines.len(),
    ensures
        first_bad_head(lines, from) is None == forall|i: int|
            from <= i < lines.len() ==> crate::outside::is_header_value(
                encode_utf8((#[trigger] lines[i]).name@),
            ),
    decreases lines.len() - from,
{
    if from < lines.len() {
        lemma_bad_head(lines, from + 1);
        assert(lines[from] == lines[from]);
    }
}

/// Blocks of one name are kept in their order, and so are headers, users and addresses. Of other
/// values the last stands.
pub proof fn values_of_a_name_are_gathered(earlier: Option<ValueView>, value: ValueView)
    ensures
        match value {
            ValueView::ValueMap(_) | ValueView::Pattern(..) => match combined(earlier, value) {
                Some(ValueView::Nodes(after)) => {
                    let before = match earlier {
                        Some(ValueView::Nodes(before)) => before,
                        _ => seq![],
                    };
                    &&& earlier is None || earlier->0 is Nodes
                    &&& after.len() == before.len() + 1
                    &&& after.last() == value
                    &&& forall|i: int| 0 <= i < before.len() ==> #[trigger] after[i] == before[i]
                },
                Some(_) => false,
                None => earlier is Some && earlier->0 !is Nodes,
            },
            ValueView::Header(added) => match combined(earlier, value) {
                Some(ValueView::Header(after)) => {
                    let before = match earlier {
                        Some(ValueView::Header(before)) => before,
                        _ => seq![],
                    };
                    &&& earlier is None || earlier->0 is Header
                    &&& after.len() == before.len() + added.len()
                    &&& forall|i: int| 0 <= i < before.len() ==> #[trigger] after[i] == before[i]
                    &&& forall|i: int|
                        0 <= i < added.len() ==> after[before.len() + i] == #[trigger] added[i]
                },
                Some(_) => false,
                None => earlier is Some && earlier->0 !is Header,
            },
            ValueView::SshSslUser(added) => match combined(earlier, value) {
                Some(ValueView::SshSslUser(after)) => {
                    let before = match earlier {
                        Some(ValueView::SshSslUser(before)) => before,
                        _ => seq![],
                    };
                    &&& earlier is None || earlier->0 is SshSslUser
                    &&& after.len() == before.len() + added.len()
                    &&& forall|i: int| 0 <= i < before.len() ==> #[trigger] after[i] == before[i]
                    &&& forall|i: int|
                        0 <= i < added.len() ==> after[before.len() + i] == #[trigger] added[i]
                },
                Some(_) => false,
                None => earlier is Some && earlier->0 !is SshSslUser,
            },
            ValueView::Addr(addr) => match (earlier, combined(earlier, value)) {
                (None, after) => after == Some(value),
                (Some(ValueView::Addr(before)), Some(ValueView::AddrVec(after))) => after.len() == 2
                    && after[0] == before && after[1] == addr,
                (Some(ValueView::AddrVec(before)), Some(ValueView::AddrVec(after))) => after.len()
                    == before.len() + 1 && after.last() == addr && forall|i: int|
                    0 <= i < before.len() ==> #[trigger] after[i] == before[i],
                (Some(other), after) => after is None && other !is Addr && other !is AddrVec,
            },
            _ => combined(earlier, value) == Some(value),
        },
{
}

/// A directive adds to the values of its own name and leaves all others as they are.
pub proof fn directives_change_their_own_value(
    commands: Seq<(Seq<char>, Command)>,
    list: Seq<Directive>,
    directive: Directive,
    around: Surroundings<'_>,
    name: Seq<char>,
)
    requires
        gathered(commands, list.push(directive), around) is Value,
    ensures
        gathered(commands, list, around) is Value,
        name != directive.name@ ==> entry(
            gathered(commands, list.push(directive), around)->Value_0,
            name,
        ) == entry(gathered(commands, list, around)->Value_0, name),
        command_in(commands, directive.name@) matches Some(command) && (outcome(
            command,
            directive,
            around,
        ) matches Outcome::Value(value) && entry(
            gathered(commands, list.push(directive), around)->Value_0,
            directive.name@,
        ) == combined(entry(gathered(commands, list, around)->Value_0, directive.name@), value)),
{
    let whole = list.push(directive);
    assert(whole.drop_last() =~= list);
    assert(whole[whole.len() - 1] == directive);
}

/// A command is the one that was entered last under its name; none is found only where none was.
pub proof fn last_command_of_a_name_counts(
    entries: Seq<(Seq<char>, Command)>,
    name: Seq<char>,
)
    ensures
        match command_in(entries, name) {
            Some(command) => exists|i: int|
                {
                    &&& 0 <= i < entries.len()
                    &&& #[trigger] entries[i] == (name, command)
                    &&& forall|k: int| i < k < entries.len() ==> (#[trigger] entries[k]).0 != name
                },
            None => forall|i: int| 0 <= i < entries.len() ==> (#[trigger] entries[i]).0 != name,
        },
    decreases entries.len(),
{
    if entries.len() > 0 {
        let init = entries.drop_last();
        let last = entries.len() - 1;
        assert(entries[last] == entries.last());
        if entries.last().0 == name {
            assert(entries[last] == (name, entries.last().1));
        } else {
            last_command_of_a_name_counts(init, name);
            if let Some(command) = command_in(init, name) {
                let i = choose|i: int|
                    {
                        &&& 0 <= i < init.len()
                        &&& #[trigger] init[i] == (name, command)
                        &&& forall|k: int| i < k < init.len() ==> (#[trigger] init[k]).0 != name
                    };
                assert(entries[i] == init[i]);
                assert forall|k: int| i < k < entries.len() implies (#[trigger] entries[k]).0
                    != name by {
                    if k < init.len() {
                        assert(init[k] == entries[k]);
                    }
                }
            } else {
                assert(forall|i: int| 0 <= i < init.len() ==> #[trigger] entries[i] == init[i]);
            }
        }
    }
}

/// A server that is read has a certificate and a key, and listens on something unless it is that of
/// an identity. What it says stays; only its name, its certificate and its key may be added to it, and
/// only from its identity.
pub proof fn servers_are_completed(
    values: Map<Seq<char>, ValueView>,
    around: Surroundings<'_>,
    name: Seq<char>,
)
    ensures
        ({
            let ssl = seq!['s', 's', 'l', '_'];
            let certificate = ssl + seq!['c', 'e', 'r', 't', 'i', 'f', 'i', 'c', 'a', 't', 'e'];
            let key = certificate + seq!['_', 'k', 'e', 'y'];
            let listen = seq!['l', 'i', 's', 't', 'e', 'n'];
            let server_name = seq!['s', 'e', 'r', 'v', 'e', 'r', '_', 'n', 'a', 'm', 'e'];
            match completed_server(values, around) {
                Outcome::Value(ValueView::ValueMap(after)) => {
                    &&& around.identity is None ==> values.contains_key(listen) && after == values
                    &&& after.contains_key(certificate)
                    &&& after.contains_key(key)
                    &&& values.contains_key(name) ==> after.contains_key(name) && after[name]
                        == values[name]
                    &&& after.contains_key(name) && !values.contains_key(name) ==> {
                        let identity = *around.identity->0;
                        ||| name == server_name && after[name] == ValueView::ServerName(
                            seq![identity.name@],
                        )
                        ||| name == certificate && after[name] == ValueView::Path(
                            default_cert(identity),
                        ) && around.existing.exists_at(default_cert(identity))
                        ||| name == key && after[name] == ValueView::Path(default_key(identity))
                            && around.existing.exists_at(default_key(identity))
                    }
                    &&& around.identity is Some ==> after.contains_key(server_name)
                },
                Outcome::Fault(_) => {
                    ||| around.identity is None && (!values.contains_key(listen)
                        || !values.contains_key(certificate) || !values.contains_key(key))
                    ||| around.identity matches Some(identity) && (!values.contains_key(certificate)
                        && !around.existing.exists_at(default_cert(*identity))
                        || !values.contains_key(key) && !around.existing.exists_at(
                        default_key(*identity),
                    ))
                },
                _ => false,
            }
        }),
{
    reveal_strlit("listen");
    reveal_strlit("server_name");
    reveal_strlit("ssl_certificate");
    reveal_strlit("ssl_certificate_key");
    let ssl = seq!['s', 's', 'l', '_'];
    let certificate = ssl + seq!['c', 'e', 'r', 't', 'i', 'f', 'i', 'c', 'a', 't', 'e'];
    assert("listen"@ =~= seq!['l', 'i', 's', 't', 'e', 'n']);
    assert("server_name"@ =~= seq!['s', 'e', 'r', 'v', 'e', 'r', '_', 'n', 'a', 'm', 'e']);
    assert("ssl_certificate"@ =~= certificate);
    assert("ssl_certificate_key"@ =~= certificate + seq!['_', 'k', 'e', 'y']);
    assert("listen"@.len() == 6 && "server_name"@.len() == 11);
    assert("ssl_certificate"@.len() == 15 && "ssl_certificate_key"@.len() == 19);
}

/// A location keeps its pattern and what it says. Behind the headers that it adds stands one more, on
/// all responses: `server: pishoo`.
pub proof fn locations_name_the_server(
    pattern: PatternView,
    values: Map<Seq<char>, ValueView>,
    name: Seq<char>,
)
    ensures
        ({
            let add_header = seq!['a', 'd', 'd', '_', 'h', 'e', 'a', 'd', 'e', 'r'];
            match completed_location(pattern, values) {
                Outcome::Value(ValueView::Pattern(same, after)) => {
                    &&& same == pattern
                    &&& name != add_header ==> entry(after, name) == entry(values, name)
                    &&& after.contains_key(add_header)
                    &&& after[add_header] matches ValueView::Header(headers) && headers.len() > 0
                        && headers.last().always && headers.last().name == encode_utf8(
                        seq!['s', 'e', 'r', 'v', 'e', 'r'],
                    ) && headers.last().value == encode_utf8(
                        seq!['p', 'i', 's', 'h', 'o', 'o'],
                    ) && match entry(values, add_header) {
                        None => headers.len() == 1,
                        Some(ValueView::Header(own)) => headers.len() == own.len() + 1 && forall|
                            i: int,
                        |
                            0 <= i < own.len() ==> #[trigger] headers[i] == own[i],
                        Some(_) => false,
                    }
                },
                Outcome::Stuck => values.contains_key(add_header) && values[add_header] !is Header,
                _ => false,
            }
        }),
{
    reveal_strlit("add_header");
    reveal_strlit("server");
    reveal_strlit("pishoo");
    assert("add_header"@ =~= seq!['a', 'd', 'd', '_', 'h', 'e', 'a', 'd', 'e', 'r']);
    assert("server"@ =~= seq!['s', 'e', 'r', 'v', 'e', 'r']);
    assert("pishoo"@ =~= seq!['p', 'i', 's', 'h', 'o', 'o']);
}

/// A proxy must listen on something; a binding keeps the address that it stands for; other blocks are
/// what they say.
pub proof fn blocks_are_what_they_say(
    values: Map<Seq<char>, ValueView>,
    around: Surroundings<'_>,
    addr: SocketAddr,
    name: Seq<char>,
)
    ensures
        ({
            let listen = seq!['l', 'i', 's', 't', 'e', 'n'];
            match completed(Command::Proxy, Head::Nothing, values, around) {
                Outcome::Value(ValueView::ValueMap(after)) => values.contains_key(listen) && after
                    == values,
                Outcome::Fault(_) => !values.contains_key(listen),
                _ => false,
            }
        }),
        completed(Command::Pishoo, Head::Nothing, values, around) == Outcome::Value(
            ValueView::ValueMap(values),
        ),
        completed(Command::StunServer, Head::Nothing, values, around) == Outcome::Value(
            ValueView::ValueMap(values),
        ),
        ({
            let address = seq!['b', 'i', 'n', 'd', '_', 'a', 'd', 'd', 'r', 'e', 's', 's'];
            completed(Command::StunBind, Head::Addr(addr), values, around) matches Outcome::Value(
                ValueView::ValueMap(after),
            ) && (values.contains_key(name) ==> entry(after, name) == entry(values, name)) && (
            !values.contains_key(name) ==> entry(after, name) == (if name == address {
                Some(ValueView::Addr(addr))
            } else {
                None
            }))
        }),
{
    reveal_strlit("listen");
    reveal_strlit("bind_address");
    assert("listen"@ =~= seq!['l', 'i', 's', 't', 'e', 'n']);
    assert("bind_address"@ =~= seq!['b', 'i', 'n', 'd', '_', 'a', 'd', 'd', 'r', 'e', 's', 's']);
}

/// A value that a block does not have is that of the nearest block around it that has one.
pub proof fn nearest_block_around_answers(
    node: Node,
    parents: Seq<Arc<Node>>,
    key: Seq<char>,
    at: int,
)
    requires
        node.value.at(key) is None,
        0 <= at <= parents.len(),
        forall|i: int| 0 <= i < at ==> (#[trigger] parents[i]).value.at(key) is None,
        at < parents.len() ==> parents[at].value.at(key) is Some,
    ensures
        backtracked(node, parents, key) == (if at < parents.len() {
            parents[at].value.at(key)
        } else {
            None
        }),
{
    lemma_nearest(parents, key, at);
}

proof fn lemma_nearest(parents: Seq<Arc<Node>>, key: Seq<char>, at: int)
    requires
        0 <= at <= parents.len(),
        forall|i: int| 0 <= i < at ==> (#[trigger] parents[i]).value.at(key) is None,
        at < parents.len() ==> parents[at].value.at(key) is Some,
    ensures
        nearest(parents, key) == (if at < parents.len() {
            Some(at)
        } else {
            None
        }),
    decreases parents.len(),
{
    if at > 0 {
        let rest = parents.drop_first();
        assert(parents[0].value.at(key) is None);
        assert forall|i: int| 0 <= i < at - 1 implies (#[trigger] rest[i]).value.at(
            key,
        ) is None by {
            assert(rest[i] == parents[i + 1]);
        }
        lemma_nearest(rest, key, at - 1);
    }
}

/// A way leads one block further in at every step. Blocks around it stay around it, but for those
/// around a block for certain requests.
pub proof fn ways_lead_inward(
    root: ValueView,
    way: Seq<(Seq<char>, int)>,
    name: Seq<char>,
    at: int,
)
    ensures
        walk(root, seq![]) == Some(seq![root]),
        walk(root, way.push((name, at))) matches Some(chain) ==> (walk(root, way) matches Some(
            outer,
        ) && outer.len() > 0 && match outer[0] {
            ValueView::ValueMap(values) => values.contains_key(name) && (values[name] matches
                ValueView::Nodes(blocks) && 0 <= at < blocks.len() && chain == seq![blocks[at]]
                + outer),
            ValueView::Pattern(_, values) => values.contains_key(name) && (values[name] matches
                ValueView::Nodes(blocks) && 0 <= at < blocks.len() && chain == seq![blocks[at]]),
            _ => false,
        }),
        walk(root, way) matches Some(outer) ==> (value_at(outer[0], name) matches Some(
            ValueView::Nodes(blocks),
        ) ==> 0 <= at < blocks.len() ==> walk(root, way.push((name, at))) is Some),
{
    let whole = way.push((name, at));
    assert(whole.drop_last() =~= way);
    assert(whole.last() == (name, at));
    lemma_chain(root, way);
}

proof fn lemma_chain(root: ValueView, way: Seq<(Seq<char>, int)>)
    ensures
        walk(root, way) matches Some(chain) ==> chain.len() > 0,
    decreases way.len(),
{
    if way.len() > 0 {
        lemma_chain(root, way.drop_last());
    }
}

/// A `location` block knows these words and no others, and reads each as what it is for.
pub proof fn location_blocks_know_their_words(word: Seq<char>)
    ensures
        match command_in(location_commands(), word) {
            Some(Command::Types) => word == seq!['t', 'y', 'p', 'e', 's'],
            Some(Command::Path) => word == seq!['r', 'o', 'o', 't']
                || word == seq!['a', 'l', 'i', 'a', 's'],
            Some(Command::Boolean) => word == seq!['g', 'z', 'i', 'p']
                || word == seq!['g', 'z', 'i', 'p', '_', 'v', 'a', 'r', 'y']
                || word == seq!['r', 'e', 'l', 'a', 'y'],
            Some(Command::Text) => word == seq!['g', 'z', 'i', 'p', '_', 'm', 'i', 'n', '_', 'l',
                'e', 'n', 'g', 't', 'h'] || word == seq!['g', 'z', 'i', 'p', '_', 'c', 'o', 'm',
                'p', '_', 'l', 'e', 'v', 'e', 'l'],
            Some(Command::StringVec) => word == seq!['g', 'z', 'i', 'p', '_', 't', 'y', 'p', 'e',
                's'] || word == seq!['i', 'n', 'd', 'e', 'x']
                || word == seq!['s', 's', 'h', '_', 'd', 'e', 'n', 'y'],
            Some(Command::HeaderAlways) => word == seq!['a', 'd', 'd', '_', 'h', 'e', 'a', 'd',
                'e', 'r'],
            Some(Command::Header) => word == seq!['p', 'r', 'o', 'x', 'y', '_', 's', 'e', 't',
                '_', 'h', 'e', 'a', 'd', 'e', 'r'],
            Some(Command::ProxyPass) => word == seq!['p', 'r', 'o', 'x', 'y', '_', 'p', 'a', 's',
                's'],
            Some(Command::SshLogin) => word == seq!['s', 's', 'h', '_', 'l', 'o', 'g', 'i', 'n'],
            Some(Command::SshSslUser) => word == seq!['s', 's', 'h', '_', 's', 's', 'l', '_',
                'u', 's', 'e', 'r'],
            Some(Command::StunBind) => word == seq!['b', 'i', 'n', 'd'],
            Some(_) => false,
            None => true,
        },
        command_in(location_commands(), seq!['t', 'y', 'p', 'e', 's']) is Some,
        command_in(location_commands(), seq!['r', 'o', 'o', 't']) is Some,
        command_in(location_commands(), seq!['a', 'l', 'i', 'a', 's']) is Some,
        command_in(location_commands(), seq!['g', 'z', 'i', 'p']) is Some,
        command_in(location_commands(), seq!['g', 'z', 'i', 'p', '_', 'v', 'a', 'r', 'y']) is Some,
        command_in(location_commands(), seq!['g', 'z', 'i', 'p', '_', 'm', 'i', 'n', '_', 'l',
            'e', 'n', 'g', 't', 'h']) is Some,
        command_in(location_commands(), seq!['g', 'z', 'i', 'p', '_', 'c', 'o', 'm', 'p', '_',
            'l', 'e', 'v', 'e', 'l']) is Some,
        command_in(location_commands(), seq!['g', 'z', 'i', 'p', '_', 't', 'y', 'p', 'e',
            's']) is Some,
        command_in(location_commands(), seq!['i', 'n', 'd', 'e', 'x']) is Some,
        command_in(location_commands(), seq!['a', 'd', 'd', '_', 'h', 'e', 'a', 'd', 'e',
            'r']) is Some,
        command_in(location_commands(), seq!['p', 'r', 'o', 'x', 'y', '_', 's', 'e', 't', '_',
            'h', 'e', 'a', 'd', 'e', 'r']) is Some,
        command_in(location_commands(), seq!['p', 'r', 'o', 'x', 'y', '_', 'p', 'a', 's',
            's']) is Some,
        command_in(location_commands(), seq!['s', 's', 'h', '_', 'l', 'o', 'g', 'i', 'n']) is Some,
        command_in(location_commands(), seq!['s', 's', 'h', '_', 's', 's', 'l', '_', 'u', 's',
            'e', 'r']) is Some,
        command_in(location_commands(), seq!['s', 's', 'h', '_', 'd', 'e', 'n', 'y']) is Some,
        command_in(location_commands(), seq!['r', 'e', 'l', 'a', 'y']) is Some,
        command_in(location_commands(), seq!['b', 'i', 'n', 'd']) is Some,
{
    let table = location_commands();
    last_command_of_a_name_counts(table, word);
    reveal_strlit("types");
    assert("types"@ =~= seq!['t', 'y', 'p', 'e', 's']);
    assert(table[0] == ("types"@, Command::Types));
    last_command_of_a_name_counts(table, "types"@);
    reveal_strlit("root");
    assert("root"@ =~= seq!['r', 'o', 'o', 't']);
    assert(table[1] == ("root"@, Command::Path));
    last_command_of_a_name_counts(table, "root"@);
    reveal_strlit("alias");
    assert("alias"@ =~= seq!['a', 'l', 'i', 'a', 's']);
    assert(table[2] == ("alias"@, Command::Path));
    last_command_of_a_name_counts(table, "alias"@);
    reveal_strlit("gzip");
    assert("gzip"@ =~= seq!['g', 'z', 'i', 'p']);
    assert(table[3] == ("gzip"@, Command::Boolean));
    last_command_of_a_name_counts(table, "gzip"@);
    reveal_strlit("gzip_vary");
    assert("gzip_vary"@ =~= seq!['g', 'z', 'i', 'p', '_', 'v', 'a', 'r', 'y']);
    assert(table[4] == ("gzip_vary"@, Command::Boolean));
    last_command_of_a_name_counts(table, "gzip_vary"@);
    reveal_strlit("gzip_min_length");
    assert("gzip_min_length"@ =~= seq!['g', 'z', 'i', 'p', '_', 'm', 'i', 'n', '_', 'l', 'e',
        'n', 'g', 't', 'h']);
    assert(table[5] == ("gzip_min_length"@, Command::Text));
    last_command_of_a_name_counts(table, "gzip_min_length"@);
    reveal_strlit("gzip_comp_level");
    assert("gzip_comp_level"@ =~= seq!['g', 'z', 'i', 'p', '_', 'c', 'o', 'm', 'p', '_', 'l',
        'e', 'v', 'e', 'l']);
    assert(table[6] == ("gzip_comp_level"@, Command::Text));
    last_command_of_a_name_counts(table, "gzip_comp_level"@);
    reveal_strlit("gzip_types");
    assert("gzip_types"@ =~= seq!['g', 'z', 'i', 'p', '_', 't', 'y', 'p', 'e', 's']);
    assert(table[7] == ("gzip_types"@, Command::StringVec));
    last_command_of_a_name_counts(table, "gzip_types"@);
    reveal_strlit("index");
    assert("index"@ =~= seq!['i', 'n', 'd', 'e', 'x']);
    assert(table[8] == ("index"@, Command::StringVec));
    last_command_of_a_name_counts(table, "index"@);
    reveal_strlit("add_header");
    assert("add_header"@ =~= seq!['a', 'd', 'd', '_', 'h', 'e', 'a', 'd', 'e', 'r']);
    assert(table[9] == ("add_header"@, Command::HeaderAlways));
    last_command_of_a_name_counts(table, "add_header"@);
    reveal_strlit("proxy_set_header");
    assert("proxy_set_header"@ =~= seq!['p', 'r', 'o', 'x', 'y', '_', 's', 'e', 't', '_', 'h',
        'e', 'a', 'd', 'e', 'r']);
    assert(table[10] == ("proxy_set_header"@, Command::Header));
    last_command_of_a_name_counts(table, "proxy_set_header"@);
    reveal_strlit("proxy_pass");
    assert("proxy_pass"@ =~= seq!['p', 'r', 'o', 'x', 'y', '_', 'p', 'a', 's', 's']);
    assert(table[11] == ("proxy_pass"@, Command::ProxyPass));
    last_command_of_a_name_counts(table, "proxy_pass"@);
    reveal_strlit("ssh_login");
    assert("ssh_login"@ =~= seq!['s', 's', 'h', '_', 'l', 'o', 'g', 'i', 'n']);
    assert(table[12] == ("ssh_login"@, Command::SshLogin));
    last_command_of_a_name_counts(table, "ssh_login"@);
    reveal_strlit("ssh_ssl_user");
    assert("ssh_ssl_user"@ =~= seq!['s', 's', 'h', '_', 's', 's', 'l', '_', 'u', 's', 'e', 'r']);
    assert(table[13] == ("ssh_ssl_user"@, Command::SshSslUser));
    last_command_of_a_name_counts(table, "ssh_ssl_user"@);
    reveal_strlit("ssh_deny");
    assert("ssh_deny"@ =~= seq!['s', 's', 'h', '_', 'd', 'e', 'n', 'y']);
    assert(table[14] == ("ssh_deny"@, Command::StringVec));
    last_command_of_a_name_counts(table, "ssh_deny"@);
    reveal_strlit("relay");
    assert("relay"@ =~= seq!['r', 'e', 'l', 'a', 'y']);
    assert(table[15] == ("relay"@, Command::Boolean));
    last_command_of_a_name_counts(table, "relay"@);
    reveal_strlit("bind");
    assert("bind"@ =~= seq!['b', 'i', 'n', 'd']);
    assert(table[16] == ("bind"@, Command::StunBind));
    last_command_of_a_name_counts(table, "bind"@);
    if let Some(command) = command_in(table, word) {
        let i = choose|i: int| 0 <= i < table.len() && #[trigger] table[i] == (word, command);
        assert(i == 0 || i == 1 || i == 2 || i == 3 || i == 4 || i == 5 || i == 6 || i == 7
            || i == 8 || i == 9 || i == 10 || i == 11 || i == 12 || i == 13 || i == 14
            || i == 15 || i == 16);
    }
}

/// A `bind` block knows these words and no others, and reads each as what it is for.
pub proof fn stun_bind_blocks_know_their_words(word: Seq<char>)
    ensures
        match command_in(stun_bind_commands(), word) {
            Some(Command::Address) => word == seq!['o', 'u', 't', 'e', 'r']
                || word == seq!['c', 'h', 'a', 'n', 'g', 'e', '_', 'a', 'd', 'd', 'r'],
            Some(Command::Text) => word == seq!['c', 'h', 'a', 'n', 'g', 'e', '_', 'p', 'o', 'r',
                't'],
            Some(_) => false,
            None => true,
        },
        command_in(stun_bind_commands(), seq!['o', 'u', 't', 'e', 'r']) is Some,
        command_in(stun_bind_commands(), seq!['c', 'h', 'a', 'n', 'g', 'e', '_', 'a', 'd', 'd',
            'r']) is Some,
        command_in(stun_bind_commands(), seq!['c', 'h', 'a', 'n', 'g', 'e', '_', 'p', 'o', 'r',
            't']) is Some,
{
    let table = stun_bind_commands();
    last_command_of_a_name_counts(table, word);
    reveal_strlit("outer");
    assert("outer"@ =~= seq!['o', 'u', 't', 'e', 'r']);
    assert(table[0] == ("outer"@, Command::Address));
    last_command_of_a_name_counts(table, "outer"@);
    reveal_strlit("change_addr");
    assert("change_addr"@ =~= seq!['c', 'h', 'a', 'n', 'g', 'e', '_', 'a', 'd', 'd', 'r']);
    assert(table[1] == ("change_addr"@, Command::Address));
    last_command_of_a_name_counts(table, "change_addr"@);
    reveal_strlit("change_port");
    assert("change_port"@ =~= seq!['c', 'h', 'a', 'n', 'g', 'e', '_', 'p', 'o', 'r', 't']);
    assert(table[2] == ("change_port"@, Command::Text));
    last_command_of_a_name_counts(table, "change_port"@);
    if let Some(command) = command_in(table, word) {
        let i = choose|i: int| 0 <= i < table.len() && #[trigger] table[i] == (word, command);
        assert(i == 0 || i == 1 || i == 2);
    }
}

/// A `stun_server` block knows these words and no others, and reads each as what it is for.
pub proof fn stun_server_blocks_know_their_words(word: Seq<char>)
    ensures
        match command_in(stun_server_commands(), word) {
            Some(Command::Address) => word == seq!['b', 'i', 'n', 'd']
                || word == seq!['o', 'u', 't', 'e', 'r', '_', 'a', 'd', 'd', 'r']
                || word == seq!['c', 'h', 'a', 'n', 'g', 'e', '_', 'a', 'd', 'd', 'r'],
            Some(Command::Text) => word == seq!['c', 'h', 'a', 'n', 'g', 'e', '_', 'p', 'o', 'r',
                't'],
            Some(_) => false,
            None => true,
        },
        command_in(stun_server_commands(), seq!['b', 'i', 'n', 'd']) is Some,
        command_in(stun_server_commands(), seq!['o', 'u', 't', 'e', 'r', '_', 'a', 'd', 'd',
            'r']) is Some,
        command_in(stun_server_commands(), seq!['c', 'h', 'a', 'n', 'g', 'e', '_', 'a', 'd', 'd',
            'r']) is Some,
        command_in(stun_server_commands(), seq!['c', 'h', 'a', 'n', 'g', 'e', '_', 'p', 'o', 'r',
            't']) is Some,
{
    let table = stun_server_commands();
    last_command_of_a_name_counts(table, word);
    reveal_strlit("bind");
    assert("bind"@ =~= seq!['b', 'i', 'n', 'd']);
    assert(table[0] == ("bind"@, Command::Address));
    last_command_of_a_name_counts(table, "bind"@);
    reveal_strlit("outer_addr");
    assert("outer_addr"@ =~= seq!['o', 'u', 't', 'e', 'r', '_', 'a', 'd', 'd', 'r']);
    assert(table[1] == ("outer_addr"@, Command::Address));
    last_command_of_a_name_counts(table, "outer_addr"@);
    reveal_strlit("change_addr");
    assert("change_addr"@ =~= seq!['c', 'h', 'a', 'n', 'g', 'e', '_', 'a', 'd', 'd', 'r']);
    assert(table[2] == ("change_addr"@, Command::Address));
    last_command_of_a_name_counts(table, "change_addr"@);
    reveal_strlit("change_port");
    assert("change_port"@ =~= seq!['c', 'h', 'a', 'n', 'g', 'e', '_', 'p', 'o', 'r', 't']);
    assert(table[3] == ("change_port"@, Command::Text));
    last_command_of_a_name_counts(table, "change_port"@);
    if let Some(command) = command_in(table, word) {
        let i = choose|i: int| 0 <= i < table.len() && #[trigger] table[i] == (word, command);
        assert(i == 0 || i == 1 || i == 2 || i == 3);
    }
}

/// A `server` block knows these words and no others, and reads each as what it is for.
pub proof fn server_blocks_know_their_words(word: Seq<char>)
    ensures
        match command_in(server_commands(), word) {
            Some(Command::Listen) => word == seq!['l', 'i', 's', 't', 'e', 'n'],
            Some(Command::ServerName) => word == seq!['s', 'e', 'r', 'v', 'e', 'r', '_', 'n',
                'a', 'm', 'e'],
            Some(Command::ServerId) => word == seq!['s', 'e', 'r', 'v', 'e', 'r', '_', 'i', 'd'],
            Some(Command::Resolver) => word == seq!['d', 'n', 's'],
            Some(Command::Boolean) => word == seq!['g', 'z', 'i', 'p']
                || word == seq!['g', 'z', 'i', 'p', '_', 'v', 'a', 'r', 'y']
                || word == seq!['r', 'e', 'l', 'a', 'y'] || word == seq!['s', 't', 'u', 'n'],
            Some(Command::Text) => word == seq!['g', 'z', 'i', 'p', '_', 'm', 'i', 'n', '_', 'l',
                'e', 'n', 'g', 't', 'h'] || word == seq!['g', 'z', 'i', 'p', '_', 'c', 'o', 'm',
                'p', '_', 'l', 'e', 'v', 'e', 'l'] || word == seq!['a', 'c', 'c', 'e', 's', 's',
                '_', 'r', 'u', 'l', 'e', 's'],
            Some(Command::StringVec) => word == seq!['g', 'z', 'i', 'p', '_', 't', 'y', 'p', 'e',
                's'],
            Some(Command::Path) => word == seq!['s', 's', 'l', '_', 'c', 'e', 'r', 't', 'i', 'f',
                'i', 'c', 'a', 't', 'e'] || word == seq!['s', 's', 'l', '_', 'c', 'e', 'r', 't',
                'i', 'f', 'i', 'c', 'a', 't', 'e', '_', 'k', 'e', 'y'],
            Some(Command::Location) => word == seq!['l', 'o', 'c', 'a', 't', 'i', 'o', 'n'],
            Some(Command::Types) => word == seq!['t', 'y', 'p', 'e', 's'],
            Some(Command::HeaderValue) => word == seq!['d', 'e', 'f', 'a', 'u', 'l', 't', '_',
                't', 'y', 'p', 'e'],
            Some(Command::StunServer) => word == seq!['s', 't', 'u', 'n', '_', 's', 'e', 'r',
                'v', 'e', 'r'],
            Some(_) => false,
            None => true,
        },
        command_in(server_commands(), seq!['l', 'i', 's', 't', 'e', 'n']) is Some,
        command_in(server_commands(), seq!['s', 'e', 'r', 'v', 'e', 'r', '_', 'n', 'a', 'm',
            'e']) is Some,
        command_in(server_commands(), seq!['s', 'e', 'r', 'v', 'e', 'r', '_', 'i', 'd']) is Some,
        command_in(server_commands(), seq!['d', 'n', 's']) is Some,
        command_in(server_commands(), seq!['g', 'z', 'i', 'p']) is Some,
        command_in(server_commands(), seq!['g', 'z', 'i', 'p', '_', 'v', 'a', 'r', 'y']) is Some,
        command_in(server_commands(), seq!['g', 'z', 'i', 'p', '_', 'm', 'i', 'n', '_', 'l', 'e',
            'n', 'g', 't', 'h']) is Some,
        command_in(server_commands(), seq!['g', 'z', 'i', 'p', '_', 'c', 'o', 'm', 'p', '_', 'l',
            'e', 'v', 'e', 'l']) is Some,
        command_in(server_commands(), seq!['g', 'z', 'i', 'p', '_', 't', 'y', 'p', 'e',
            's']) is Some,
        command_in(server_commands(), seq!['s', 's', 'l', '_', 'c', 'e', 'r', 't', 'i', 'f', 'i',
            'c', 'a', 't', 'e']) is Some,
        command_in(server_commands(), seq!['s', 's', 'l', '_', 'c', 'e', 'r', 't', 'i', 'f', 'i',
            'c', 'a', 't', 'e', '_', 'k', 'e', 'y']) is Some,
        command_in(server_commands(), seq!['l', 'o', 'c', 'a', 't', 'i', 'o', 'n']) is Some,
        command_in(server_commands(), seq!['t', 'y', 'p', 'e', 's']) is Some,
        command_in(server_commands(), seq!['d', 'e', 'f', 'a', 'u', 'l', 't', '_', 't', 'y', 'p',
            'e']) is Some,
        command_in(server_commands(), seq!['a', 'c', 'c', 'e', 's', 's', '_', 'r', 'u', 'l', 'e',
            's']) is Some,
        command_in(server_commands(), seq!['r', 'e', 'l', 'a', 'y']) is Some,
        command_in(server_commands(), seq!['s', 't', 'u', 'n']) is Some,
        command_in(server_commands(), seq!['s', 't', 'u', 'n', '_', 's', 'e', 'r', 'v', 'e',
            'r']) is Some,
{
    let table = server_commands();
    last_command_of_a_name_counts(table, word);
    reveal_strlit("listen");
    assert("listen"@ =~= seq!['l', 'i', 's', 't', 'e', 'n']);
    assert(table[0] == ("listen"@, Command::Listen));
    last_command_of_a_name_counts(table, "listen"@);
    reveal_strlit("server_name");
    assert("server_name"@ =~= seq!['s', 'e', 'r', 'v', 'e', 'r', '_', 'n', 'a', 'm', 'e']);
    assert(table[1] == ("server_name"@, Command::ServerName));
    last_command_of_a_name_counts(table, "server_name"@);
    reveal_strlit("server_id");
    assert("server_id"@ =~= seq!['s', 'e', 'r', 'v', 'e', 'r', '_', 'i', 'd']);
    assert(table[2] == ("server_id"@, Command::ServerId));
    last_command_of_a_name_counts(table, "server_id"@);
    reveal_strlit("dns");
    assert("dns"@ =~= seq!['d', 'n', 's']);
    assert(table[3] == ("dns"@, Command::Resolver));
    last_command_of_a_name_counts(table, "dns"@);
    reveal_strlit("gzip");
    assert("gzip"@ =~= seq!['g', 'z', 'i', 'p']);
    assert(table[4] == ("gzip"@, Command::Boolean));
    last_command_of_a_name_counts(table, "gzip"@);
    reveal_strlit("gzip_vary");
    assert("gzip_vary"@ =~= seq!['g', 'z', 'i', 'p', '_', 'v', 'a', 'r', 'y']);
    assert(table[5] == ("gzip_vary"@, Command::Boolean));
    last_command_of_a_name_counts(table, "gzip_vary"@);
    reveal_strlit("gzip_min_length");
    assert("gzip_min_length"@ =~= seq!['g', 'z', 'i', 'p', '_', 'm', 'i', 'n', '_', 'l', 'e',
        'n', 'g', 't', 'h']);
    assert(table[6] == ("gzip_min_length"@, Command::Text));
    last_command_of_a_name_counts(table, "gzip_min_length"@);
    reveal_strlit("gzip_comp_level");
    assert("gzip_comp_level"@ =~= seq!['g', 'z', 'i', 'p', '_', 'c', 'o', 'm', 'p', '_', 'l',
        'e', 'v', 'e', 'l']);
    assert(table[7] == ("gzip_comp_level"@, Command::Text));
    last_command_of_a_name_counts(table, "gzip_comp_level"@);
    reveal_strlit("gzip_types");
    assert("gzip_types"@ =~= seq!['g', 'z', 'i', 'p', '_', 't', 'y', 'p', 'e', 's']);
    assert(table[8] == ("gzip_types"@, Command::StringVec));
    last_command_of_a_name_counts(table, "gzip_types"@);
    reveal_strlit("ssl_certificate");
    assert("ssl_certificate"@ =~= seq!['s', 's', 'l', '_', 'c', 'e', 'r', 't', 'i', 'f', 'i',
        'c', 'a', 't', 'e']);
    assert(table[9] == ("ssl_certificate"@, Command::Path));
    last_command_of_a_name_counts(table, "ssl_certificate"@);
    reveal_strlit("ssl_certificate_key");
    assert("ssl_certificate_key"@ =~= seq!['s', 's', 'l', '_', 'c', 'e', 'r', 't', 'i', 'f', 'i',
        'c', 'a', 't', 'e', '_', 'k', 'e', 'y']);
    assert(table[10] == ("ssl_certificate_key"@, Command::Path));
    last_command_of_a_name_counts(table, "ssl_certificate_key"@);
    reveal_strlit("location");
    assert("location"@ =~= seq!['l', 'o', 'c', 'a', 't', 'i', 'o', 'n']);
    assert(table[11] == ("location"@, Command::Location));
    last_command_of_a_name_counts(table, "location"@);
    reveal_strlit("types");
    assert("types"@ =~= seq!['t', 'y', 'p', 'e', 's']);
    assert(table[12] == ("types"@, Command::Types));
    last_command_of_a_name_counts(table, "types"@);
    reveal_strlit("default_type");
    assert("default_type"@ =~= seq!['d', 'e', 'f', 'a', 'u', 'l', 't', '_', 't', 'y', 'p', 'e']);
    assert(table[13] == ("default_type"@, Command::HeaderValue));
    last_command_of_a_name_counts(table, "default_type"@);
    reveal_strlit("access_rules");
    assert("access_rules"@ =~= seq!['a', 'c', 'c', 'e', 's', 's', '_', 'r', 'u', 'l', 'e', 's']);
    assert(table[14] == ("access_rules"@, Command::Text));
    last_command_of_a_name_counts(table, "access_rules"@);
    reveal_strlit("relay");
    assert("relay"@ =~= seq!['r', 'e', 'l', 'a', 'y']);
    assert(table[15] == ("relay"@, Command::Boolean));
    last_command_of_a_name_counts(table, "relay"@);
    reveal_strlit("stun");
    assert("stun"@ =~= seq!['s', 't', 'u', 'n']);
    assert(table[16] == ("stun"@, Command::Boolean));
    last_command_of_a_name_counts(table, "stun"@);
    reveal_strlit("stun_server");
    assert("stun_server"@ =~= seq!['s', 't', 'u', 'n', '_', 's', 'e', 'r', 'v', 'e', 'r']);
    assert(table[17] == ("stun_server"@, Command::StunServer));
    last_command_of_a_name_counts(table, "stun_server"@);
    if let Some(command) = command_in(table, word) {
        let i = choose|i: int| 0 <= i < table.len() && #[trigger] table[i] == (word, command);
        assert(i == 0 || i == 1 || i == 2 || i == 3 || i == 4 || i == 5 || i == 6 || i == 7
            || i == 8 || i == 9 || i == 10 || i == 11 || i == 12 || i == 13 || i == 14
            || i == 15 || i == 16 || i == 17);
    }
}

/// A `proxy` block knows these words and no others, and reads each as what it is for.
pub proof fn proxy_blocks_know_their_words(word: Seq<char>)
    ensures
        match command_in(proxy_commands(), word) {
            Some(Command::Address) => word == seq!['l', 'i', 's', 't', 'e', 'n'],
            Some(Command::Text) => word == seq!['c', 'l', 'i', 'e', 'n', 't', '_', 'n', 'a', 'm',
                'e'],
            Some(Command::Resolver) => word == seq!['r', 'e', 's', 'o', 'l', 'v', 'e', 'r'],
            Some(Command::Path) => word == seq!['s', 's', 'l', '_', 'c', 'e', 'r', 't', 'i', 'f',
                'i', 'c', 'a', 't', 'e'] || word == seq!['s', 's', 'l', '_', 'c', 'e', 'r', 't',
                'i', 'f', 'i', 'c', 'a', 't', 'e', '_', 'k', 'e', 'y'],
            Some(Command::StringVec) => word == seq!['a', 'l', 'l', 'o', 'w']
                || word == seq!['d', 'e', 'n', 'y'],
            Some(Command::Types) => word == seq!['t', 'y', 'p', 'e', 's'],
            Some(Command::HeaderValue) => word == seq!['d', 'e', 'f', 'a', 'u', 'l', 't', '_',
                't', 'y', 'p', 'e'],
            Some(_) => false,
            None => true,
        },
        command_in(proxy_commands(), seq!['l', 'i', 's', 't', 'e', 'n']) is Some,
        command_in(proxy_commands(), seq!['c', 'l', 'i', 'e', 'n', 't', '_', 'n', 'a', 'm',
            'e']) is Some,
        command_in(proxy_commands(), seq!['r', 'e', 's', 'o', 'l', 'v', 'e', 'r']) is Some,
        command_in(proxy_commands(), seq!['s', 's', 'l', '_', 'c', 'e', 'r', 't', 'i', 'f', 'i',
            'c', 'a', 't', 'e']) is Some,
        command_in(proxy_commands(), seq!['s', 's', 'l', '_', 'c', 'e', 'r', 't', 'i', 'f', 'i',
            'c', 'a', 't', 'e', '_', 'k', 'e', 'y']) is Some,
        command_in(proxy_commands(), seq!['a', 'l', 'l', 'o', 'w']) is Some,
        command_in(proxy_commands(), seq!['d', 'e', 'n', 'y']) is Some,
        command_in(proxy_commands(), seq!['t', 'y', 'p', 'e', 's']) is Some,
        command_in(proxy_commands(), seq!['d', 'e', 'f', 'a', 'u', 'l', 't', '_', 't', 'y', 'p',
            'e']) is Some,
{
    let table = proxy_commands();
    last_command_of_a_name_counts(table, word);
    reveal_strlit("listen");
    assert("listen"@ =~= seq!['l', 'i', 's', 't', 'e', 'n']);
    assert(table[0] == ("listen"@, Command::Address));
    last_command_of_a_name_counts(table, "listen"@);
    reveal_strlit("client_name");
    assert("client_name"@ =~= seq!['c', 'l', 'i', 'e', 'n', 't', '_', 'n', 'a', 'm', 'e']);
    assert(table[1] == ("client_name"@, Command::Text));
    last_command_of_a_name_counts(table, "client_name"@);
    reveal_strlit("resolver");
    assert("resolver"@ =~= seq!['r', 'e', 's', 'o', 'l', 'v', 'e', 'r']);
    assert(table[2] == ("resolver"@, Command::Resolver));
    last_command_of_a_name_counts(table, "resolver"@);
    reveal_strlit("ssl_certificate");
    assert("ssl_certificate"@ =~= seq!['s', 's', 'l', '_', 'c', 'e', 'r', 't', 'i', 'f', 'i',
        'c', 'a', 't', 'e']);
    assert(table[3] == ("ssl_certificate"@, Command::Path));
    last_command_of_a_name_counts(table, "ssl_certificate"@);
    reveal_strlit("ssl_certificate_key");
    assert("ssl_certificate_key"@ =~= seq!['s', 's', 'l', '_', 'c', 'e', 'r', 't', 'i', 'f', 'i',
        'c', 'a', 't', 'e', '_', 'k', 'e', 'y']);
    assert(table[4] == ("ssl_certificate_key"@, Command::Path));
    last_command_of_a_name_counts(table, "ssl_certificate_key"@);
    reveal_strlit("allow");
    assert("allow"@ =~= seq!['a', 'l', 'l', 'o', 'w']);
    assert(table[5] == ("allow"@, Command::StringVec));
    last_command_of_a_name_counts(table, "allow"@);
    reveal_strlit("deny");
    assert("deny"@ =~= seq!['d', 'e', 'n', 'y']);
    assert(table[6] == ("deny"@, Command::StringVec));
    last_command_of_a_name_counts(table, "deny"@);
    reveal_strlit("types");
    assert("types"@ =~= seq!['t', 'y', 'p', 'e', 's']);
    assert(table[7] == ("types"@, Command::Types));
    last_command_of_a_name_counts(table, "types"@);
    reveal_strlit("default_type");
    assert("default_type"@ =~= seq!['d', 'e', 'f', 'a', 'u', 'l', 't', '_', 't', 'y', 'p', 'e']);
    assert(table[8] == ("default_type"@, Command::HeaderValue));
    last_command_of_a_name_counts(table, "default_type"@);
    if let Some(command) = command_in(table, word) {
        let i = choose|i: int| 0 <= i < table.len() && #[trigger] table[i] == (word, command);
        assert(i == 0 || i == 1 || i == 2 || i == 3 || i == 4 || i == 5 || i == 6 || i == 7
            || i == 8);
    }
}

/// A `pishoo` block knows these words and no others, and reads each as what it is for.
pub proof fn pishoo_blocks_know_their_words(word: Seq<char>)
    ensures
        match command_in(pishoo_commands(), word) {
            Some(Command::Text) => word == seq!['p', 'i', 'd']
                || word == seq!['g', 'z', 'i', 'p', '_', 'm', 'i', 'n', '_', 'l', 'e', 'n', 'g',
                't', 'h'] || word == seq!['g', 'z', 'i', 'p', '_', 'c', 'o', 'm', 'p', '_', 'l',
                'e', 'v', 'e', 'l'] || word == seq!['a', 'c', 'c', 'e', 's', 's', '_', 'r', 'u',
                'l', 'e', 's'],
            Some(Command::Boolean) => word == seq!['g', 'z', 'i', 'p']
                || word == seq!['g', 'z', 'i', 'p', '_', 'v', 'a', 'r', 'y'],
            Some(Command::StringVec) => word == seq!['g', 'z', 'i', 'p', '_', 't', 'y', 'p', 'e',
                's'] || word == seq!['w', 'o', 'r', 'k', 'e', 'r', 's']
                || word == seq!['g', 'r', 'o', 'u', 'p', 's'],
            Some(Command::Types) => word == seq!['t', 'y', 'p', 'e', 's'],
            Some(Command::HeaderValue) => word == seq!['d', 'e', 'f', 'a', 'u', 'l', 't', '_',
                't', 'y', 'p', 'e'],
            Some(Command::Server) => word == seq!['s', 'e', 'r', 'v', 'e', 'r'],
            Some(Command::Proxy) => word == seq!['p', 'r', 'o', 'x', 'y'],
            Some(_) => false,
            None => true,
        },
        command_in(pishoo_commands(), seq!['p', 'i', 'd']) is Some,
        command_in(pishoo_commands(), seq!['g', 'z', 'i', 'p']) is Some,
        command_in(pishoo_commands(), seq!['g', 'z', 'i', 'p', '_', 'v', 'a', 'r', 'y']) is Some,
        command_in(pishoo_commands(), seq!['g', 'z', 'i', 'p', '_', 'm', 'i', 'n', '_', 'l', 'e',
            'n', 'g', 't', 'h']) is Some,
        command_in(pishoo_commands(), seq!['g', 'z', 'i', 'p', '_', 'c', 'o', 'm', 'p', '_', 'l',
            'e', 'v', 'e', 'l']) is Some,
        command_in(pishoo_commands(), seq!['g', 'z', 'i', 'p', '_', 't', 'y', 'p', 'e',
            's']) is Some,
        command_in(pishoo_commands(), seq!['t', 'y', 'p', 'e', 's']) is Some,
        command_in(pishoo_commands(), seq!['a', 'c', 'c', 'e', 's', 's', '_', 'r', 'u', 'l', 'e',
            's']) is Some,
        command_in(pishoo_commands(), seq!['d', 'e', 'f', 'a', 'u', 'l', 't', '_', 't', 'y', 'p',
            'e']) is Some,
        command_in(pishoo_commands(), seq!['w', 'o', 'r', 'k', 'e', 'r', 's']) is Some,
        command_in(pishoo_commands(), seq!['g', 'r', 'o', 'u', 'p', 's']) is Some,
        command_in(pishoo_commands(), seq!['s', 'e', 'r', 'v', 'e', 'r']) is Some,
        command_in(pishoo_commands(), seq!['p', 'r', 'o', 'x', 'y']) is Some,
{
    let table = pishoo_commands();
    last_command_of_a_name_counts(table, word);
    reveal_strlit("pid");
    assert("pid"@ =~= seq!['p', 'i', 'd']);
    assert(table[0] == ("pid"@, Command::Text));
    last_command_of_a_name_counts(table, "pid"@);
    reveal_strlit("gzip");
    assert("gzip"@ =~= seq!['g', 'z', 'i', 'p']);
    assert(table[1] == ("gzip"@, Command::Boolean));
    last_command_of_a_name_counts(table, "gzip"@);
    reveal_strlit("gzip_vary");
    assert("gzip_vary"@ =~= seq!['g', 'z', 'i', 'p', '_', 'v', 'a', 'r', 'y']);
    assert(table[2] == ("gzip_vary"@, Command::Boolean));
    last_command_of_a_name_counts(table, "gzip_vary"@);
    reveal_strlit("gzip_min_length");
    assert("gzip_min_length"@ =~= seq!['g', 'z', 'i', 'p', '_', 'm', 'i', 'n', '_', 'l', 'e',
        'n', 'g', 't', 'h']);
    assert(table[3] == ("gzip_min_length"@, Command::Text));
    last_command_of_a_name_counts(table, "gzip_min_length"@);
    reveal_strlit("gzip_comp_level");
    assert("gzip_comp_level"@ =~= seq!['g', 'z', 'i', 'p', '_', 'c', 'o', 'm', 'p', '_', 'l',
        'e', 'v', 'e', 'l']);
    assert(table[4] == ("gzip_comp_level"@, Command::Text));
    last_command_of_a_name_counts(table, "gzip_comp_level"@);
    reveal_strlit("gzip_types");
    assert("gzip_types"@ =~= seq!['g', 'z', 'i', 'p', '_', 't', 'y', 'p', 'e', 's']);
    assert(table[5] == ("gzip_types"@, Command::StringVec));
    last_command_of_a_name_counts(table, "gzip_types"@);
    reveal_strlit("types");
    assert("types"@ =~= seq!['t', 'y', 'p', 'e', 's']);
    assert(table[6] == ("types"@, Command::Types));
    last_command_of_a_name_counts(table, "types"@);
    reveal_strlit("access_rules");
    assert("access_rules"@ =~= seq!['a', 'c', 'c', 'e', 's', 's', '_', 'r', 'u', 'l', 'e', 's']);
    assert(table[7] == ("access_rules"@, Command::Text));
    last_command_of_a_name_counts(table, "access_rules"@);
    reveal_strlit("default_type");
    assert("default_type"@ =~= seq!['d', 'e', 'f', 'a', 'u', 'l', 't', '_', 't', 'y', 'p', 'e']);
    assert(table[8] == ("default_type"@, Command::HeaderValue));
    last_command_of_a_name_counts(table, "default_type"@);
    reveal_strlit("workers");
    assert("workers"@ =~= seq!['w', 'o', 'r', 'k', 'e', 'r', 's']);
    assert(table[9] == ("workers"@, Command::StringVec));
    last_command_of_a_name_counts(table, "workers"@);
    reveal_strlit("groups");
    assert("groups"@ =~= seq!['g', 'r', 'o', 'u', 'p', 's']);
    assert(table[10] == ("groups"@, Command::StringVec));
    last_command_of_a_name_counts(table, "groups"@);
    reveal_strlit("server");
    assert("server"@ =~= seq!['s', 'e', 'r', 'v', 'e', 'r']);
    assert(table[11] == ("server"@, Command::Server));
    last_command_of_a_name_counts(table, "server"@);
    reveal_strlit("proxy");
    assert("proxy"@ =~= seq!['p', 'r', 'o', 'x', 'y']);
    assert(table[12] == ("proxy"@, Command::Proxy));
    last_command_of_a_name_counts(table, "proxy"@);
    if let Some(command) = command_in(table, word) {
        let i = choose|i: int| 0 <= i < table.len() && #[trigger] table[i] == (word, command);
        assert(i == 0 || i == 1 || i == 2 || i == 3 || i == 4 || i == 5 || i == 6 || i == 7
            || i == 8 || i == 9 || i == 10 || i == 11 || i == 12);
    }
}

/// A whole configuration knows exactly the blocks that it is made of.
pub proof fn configurations_know_their_words(word: Seq<char>)
    ensures
        match command_in(conf_commands(), word) {
            Some(Command::Pishoo) => word == seq!['p', 'i', 's', 'h', 'o', 'o'],
            Some(_) => false,
            None => true,
        },
        command_in(conf_commands(), seq!['p', 'i', 's', 'h', 'o', 'o']) is Some,
{
    let table = conf_commands();
    last_command_of_a_name_counts(table, word);
    reveal_strlit("pishoo");
    assert("pishoo"@ =~= seq!['p', 'i', 's', 'h', 'o', 'o']);
    assert(table[0] == ("pishoo"@, Command::Pishoo));
    last_command_of_a_name_counts(table, "pishoo"@);
    if let Some(command) = command_in(table, word) {
        let i = choose|i: int| 0 <= i < table.len() && #[trigger] table[i] == (word, command);
        assert(i == 0);
    }
}

/// What a directive opens is read with the words of its own block.
pub proof fn blocks_are_read_with_their_own_words(command: Command)
    ensures
        opens_block(command) == (command is StunBind || command is StunServer || command is Location
            || command is Server || command is Proxy || command is Pishoo),
        match command {
            Command::StunBind => inner_commands(command) == stun_bind_commands(),
            Command::StunServer => inner_commands(command) == stun_server_commands(),
            Command::Location => inner_commands(command) == location_commands(),
            Command::Server => inner_commands(command) == server_commands(),
            Command::Proxy => inner_commands(command) == proxy_commands(),
            Command::Pishoo => inner_commands(command) == pishoo_commands(),
            _ => inner_commands(command).len() == 0,
        },
{
}

/// A block of texts gives every argument the name that it stands behind, and of several the last.
pub proof fn texts_stand_behind_their_name(
    directive: Directive,
    lines: Seq<Directive>,
    word: Seq<char>,
)
    requires
        directive.children matches Some(children) && children@ == lines,
    ensures
        string_map_value(directive) matches Ok(ValueView::StringMap(table)) && {
            &&& table.contains_key(word) == exists|i: int|
                0 <= i < lines.len() && line_gives(#[trigger] lines[i], word)
            &&& table.contains_key(word) ==> exists|i: int|
                {
                    &&& 0 <= i < lines.len()
                    &&& line_gives(#[trigger] lines[i], word)
                    &&& table[word] == ValueView::String(lines[i].name@)
                    &&& forall|k: int| i < k < lines.len() ==> !line_gives(#[trigger] lines[k],
                        word)
                }
        },
{
    lemma_text_lines(lines, word);
}

proof fn lemma_text_lines(lines: Seq<Directive>, word: Seq<char>)
    ensures
        ({
            let table = text_values(reversed_entries(lines));
            &&& table.contains_key(word) == exists|i: int|
                0 <= i < lines.len() && line_gives(#[trigger] lines[i], word)
            &&& table.contains_key(word) ==> exists|i: int|
                {
                    &&& 0 <= i < lines.len()
                    &&& line_gives(#[trigger] lines[i], word)
                    &&& table[word] == ValueView::String(lines[i].name@)
                    &&& forall|k: int| i < k < lines.len() ==> !line_gives(#[trigger] lines[k],
                        word)
                }
        }),
    decreases lines.len(),
{
    if lines.len() > 0 {
        let init = lines.drop_last();
        let last = lines.last();
        let before = reversed_entries(init);
        let added = texts(last.args@).map_values(|arg: Seq<char>| (arg, last.name@));
        let table = text_values(before);
        lemma_text_lines(init, word);
        lemma_text_line(before, added, word, last.name@);
        assert(reversed_entries(lines) == before + added);
        assert(lines[lines.len() - 1] == last);
        if line_gives(last, word) {
            let k = choose|k: int| 0 <= k < last.args@.len() && (#[trigger] last.args@[k])@ == word;
            assert(added[k].0 == word);
        } else {
            assert forall|k: int| 0 <= k < added.len() implies (#[trigger] added[k]).0 != word by {
                assert(added[k].0 == last.args@[k]@);
            }
            if table.contains_key(word) {
                let i = choose|i: int|
                    {
                        &&& 0 <= i < init.len()
                        &&& line_gives(#[trigger] init[i], word)
                        &&& table[word] == ValueView::String(init[i].name@)
                        &&& forall|k: int|
                            i < k < init.len() ==> !line_gives(#[trigger] init[k], word)
                    };
                assert(lines[i] == init[i]);
                assert forall|k: int| i < k < lines.len() implies !line_gives(
                    #[trigger] lines[k],
                    word,
                ) by {
                    if k < init.len() {
                        assert(init[k] == lines[k]);
                    }
                }
            }
            assert(forall|i: int| 0 <= i < init.len() ==> #[trigger] init[i] == lines[i]);
            assert(forall|i: int| 0 <= i < init.len() ==> #[trigger] lines[i] == init[i]);
        }
    }
}

proof fn lemma_text_line(
    before: Seq<(Seq<char>, Seq<char>)>,
    added: Seq<(Seq<char>, Seq<char>)>,
    word: Seq<char>,
    name: Seq<char>,
)
    requires
        forall|k: int| 0 <= k < added.len() ==> (#[trigger] added[k]).1 == name,
    ensures
        ({
            let table = text_values(before + added);
            if exists|k: int| 0 <= k < added.len() && (#[trigger] added[k]).0 == word {
                table.contains_key(word) && table[word] == ValueView::String(name)
            } else {
                table.contains_key(word) == text_values(before).contains_key(word) && table[word]
                    == text_values(before)[word]
            }
        }),
    decreases added.len(),
{
    if added.len() == 0 {
        assert(before + added =~= before);
    } else {
        let init = added.drop_last();
        lemma_text_line(before, init, word, name);
        assert((before + added).drop_last() =~= before + init);
        assert((before + added).last() == added.last());
        assert(added[added.len() - 1] == added.last());
        assert(forall|k: int| 0 <= k < init.len() ==> #[trigger] init[k] == added[k]);
        assert(forall|k: int| 0 <= k < init.len() ==> #[trigger] added[k] == init[k]);
    }
}

} // verus!
