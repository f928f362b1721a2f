//! Blocks of plain directives, read with a table of the directives that may stand in them.
use std::sync::Arc;

use vstd::prelude::*;
use vstd::utf8::encode_utf8;

use crate::address::{socket_addr, SocketAddr};
use crate::home::{inside, IdentityProfile};
use crate::number::{decimal, decimal_string};
use crate::outside::{lossy_text, lossy_utf8};
use crate::parse::builder::server_header;
use crate::parse::directives::{
    address_value, boolean_value, header_always_value, header_value, header_value_value,
    listen_value, parse_address, parse_boolean, parse_header, parse_header_always,
    parse_header_value, parse_listen, parse_path, parse_proxy_pass, parse_resolver,
    parse_server_id, parse_server_name, parse_ssh_login, parse_ssh_ssl_user, parse_string,
    parse_string_vec, parse_types, path_value, proxy_pass_value, resolver_value, server_id_value,
    server_name_value, shown, ssh_login_value, ssh_ssl_user_value, string_value,
    string_vec_value, types_value, ExistingPaths, Whatever,
};
use crate::parse::node::{
    entry, header_views, node_views, user_views, Directive, HeaderView, Node, Value, ValueMap,
    ValueView,
};
use crate::parse::pattern::{is_parsed_pattern, parse_pattern, Pattern, PatternView};
use crate::parse::types::{HeaderRule, HeaderRules};
use crate::path::UnixPath;
use crate::text::{join3, push_str, str_eq, texts};

verus! {

/// How a directive is read.
#[derive(Debug, Clone, Copy, PartialEq, Eq, Structural)]
pub enum Command {
    Boolean,
    Text,
    StringVec,
    HeaderValue,
    Types,
    ProxyPass,
    Listen,
    Address,
    Resolver,
    Path,
    ServerName,
    ServerId,
    Header,
    HeaderAlways,
    SshLogin,
    SshSslUser,
    StunBind,
    StunServer,
    Location,
    Server,
    Proxy,
    Pishoo,
}

/// What is known of the world around a configuration: the identity that it belongs to, and the
/// paths that lead to something.
#[derive(Debug, Clone, Copy)]
pub struct Surroundings<'a> {
    pub identity: Option<&'a IdentityProfile>,
    pub existing: &'a ExistingPaths,
}

/// How the directives of a block are read.
#[derive(Debug, Clone)]
pub struct Commands {
    entries: Vec<(&'static str, Command)>,
}

/// The command that is known last under a name.
pub open spec fn command_in(
    entries: Seq<(Seq<char>, Command)>,
    name: Seq<char>,
) -> Option<Command>
    decreases entries.len(),
{
    if entries.len() == 0 {
        None
    } else if entries.last().0 == name {
        Some(entries.last().1)
    } else {
        command_in(entries.drop_last(), name)
    }
}

/// Commands with their names as characters.
spec fn command_views(entries: Seq<(&'static str, Command)>) -> Seq<(Seq<char>, Command)> {
    entries.map_values(|entry: (&'static str, Command)| (entry.0@, entry.1))
}

impl View for Commands {
    type V = Seq<(Seq<char>, Command)>;

    closed spec fn view(&self) -> Seq<(Seq<char>, Command)> {
        command_views(self.entries@)
    }
}

/// The directives of a `location` block.
pub open spec fn location_commands() -> Seq<(Seq<char>, Command)> {
    seq![
        ("types"@, Command::Types),
        ("root"@, Command::Path),
        ("alias"@, Command::Path),
        ("gzip"@, Command::Boolean),
        ("gzip_vary"@, Command::Boolean),
        ("gzip_min_length"@, Command::Text),
        ("gzip_comp_level"@, Command::Text),
        ("gzip_types"@, Command::StringVec),
        ("index"@, Command::StringVec),
        ("add_header"@, Command::HeaderAlways),
        ("proxy_set_header"@, Command::Header),
        ("proxy_pass"@, Command::ProxyPass),
        ("ssh_login"@, Command::SshLogin),
        ("ssh_ssl_user"@, Command::SshSslUser),
        ("ssh_deny"@, Command::StringVec),
        ("relay"@, Command::Boolean),
        ("bind"@, Command::StunBind),
    ]
}

/// The directives of a `bind` block.
pub open spec fn stun_bind_commands() -> Seq<(Seq<char>, Command)> {
    seq![
        ("outer"@, Command::Address),
        ("change_addr"@, Command::Address),
        ("change_port"@, Command::Text),
    ]
}

/// The directives of a `stun_server` block.
pub open spec fn stun_server_commands() -> Seq<(Seq<char>, Command)> {
    seq![
        ("bind"@, Command::Address),
        ("outer_addr"@, Command::Address),
        ("change_addr"@, Command::Address),
        ("change_port"@, Command::Text),
    ]
}

/// The directives of a `server` block.
pub open spec fn server_commands() -> Seq<(Seq<char>, Command)> {
    seq![
        ("listen"@, Command::Listen),
        ("server_name"@, Command::ServerName),
        ("server_id"@, Command::ServerId),
        ("dns"@, Command::Resolver),
        ("gzip"@, Command::Boolean),
        ("gzip_vary"@, Command::Boolean),
        ("gzip_min_length"@, Command::Text),
        ("gzip_comp_level"@, Command::Text),
        ("gzip_types"@, Command::StringVec),
        ("ssl_certificate"@, Command::Path),
        ("ssl_certificate_key"@, Command::Path),
        ("location"@, Command::Location),
        ("types"@, Command::Types),
        ("default_type"@, Command::HeaderValue),
        ("access_rules"@, Command::Text),
        ("relay"@, Command::Boolean),
        ("stun"@, Command::Boolean),
        ("stun_server"@, Command::StunServer),
    ]
}

/// The directives of a `proxy` block.
pub open spec fn proxy_commands() -> Seq<(Seq<char>, Command)> {
    seq![
        ("listen"@, Command::Address),
        ("client_name"@, Command::Text),
        ("resolver"@, Command::Resolver),
        ("ssl_certificate"@, Command::Path),
        ("ssl_certificate_key"@, Command::Path),
        ("allow"@, Command::StringVec),
        ("deny"@, Command::StringVec),
        ("types"@, Command::Types),
        ("default_type"@, Command::HeaderValue),
    ]
}

/// The directives of a `pishoo` block.
pub open spec fn pishoo_commands() -> Seq<(Seq<char>, Command)> {
    seq![
        ("pid"@, Command::Text),
        ("gzip"@, Command::Boolean),
        ("gzip_vary"@, Command::Boolean),
        ("gzip_min_length"@, Command::Text),
        ("gzip_comp_level"@, Command::Text),
        ("gzip_types"@, Command::StringVec),
        ("types"@, Command::Types),
        ("access_rules"@, Command::Text),
        ("default_type"@, Command::HeaderValue),
        ("workers"@, Command::StringVec),
        ("groups"@, Command::StringVec),
        ("server"@, Command::Server),
        ("proxy"@, Command::Proxy),
    ]
}

/// The directives of a whole configuration.
pub open spec fn conf_commands() -> Seq<(Seq<char>, Command)> {
    seq![("pishoo"@, Command::Pishoo)]
}

/// What a value adds to the values of the same name: blocks and headers and users are gathered, so
/// are addresses, and of other values the last one stands. `None` where values of different types
/// would have to be gathered.
pub open spec fn combined(earlier: Option<ValueView>, value: ValueView) -> Option<ValueView> {
    match value {
        ValueView::ValueMap(_) | ValueView::Pattern(..) => match earlier {
            None => Some(ValueView::Nodes(seq![value])),
            Some(ValueView::Nodes(nodes)) => Some(ValueView::Nodes(nodes.push(value))),
            Some(_) => None,
        },
        ValueView::Header(headers) => match earlier {
            None => Some(value),
            Some(ValueView::Header(before)) => Some(ValueView::Header(before + headers)),
            Some(_) => None,
        },
        ValueView::SshSslUser(users) => match earlier {
            None => Some(value),
            Some(ValueView::SshSslUser(before)) => Some(ValueView::SshSslUser(before + users)),
            Some(_) => None,
        },
        ValueView::Addr(addr) => match earlier {
            None => Some(value),
            Some(ValueView::Addr(before)) => Some(ValueView::AddrVec(seq![before, addr])),
            Some(ValueView::AddrVec(before)) => Some(ValueView::AddrVec(before.push(addr))),
            Some(_) => None,
        },
        _ => Some(value),
    }
}

/// What reading a directive comes to. It is stuck where values of different types would have to be
/// gathered under one name.
pub enum Outcome<T> {
    Value(T),
    Fault(Seq<char>),
    Stuck,
}

/// What reading a directive that opens no block comes to.
pub open spec fn leaf_value(
    command: Command,
    directive: Directive,
    around: Surroundings<'_>,
) -> Result<ValueView, Seq<char>> {
    match command {
        Command::Boolean => boolean_value(directive),
        Command::Text => string_value(directive),
        Command::StringVec => string_vec_value(directive),
        Command::HeaderValue => header_value_value(directive),
        Command::Types => types_value(directive),
        Command::ProxyPass => proxy_pass_value(directive),
        Command::Listen => listen_value(directive),
        Command::Address => address_value(directive),
        Command::Resolver => resolver_value(directive),
        Command::Path => path_value(directive, *around.existing),
        Command::ServerName => server_name_value(directive),
        Command::ServerId => server_id_value(directive),
        Command::Header => header_value(directive),
        Command::HeaderAlways => header_always_value(directive),
        Command::SshLogin => ssh_login_value(directive),
        Command::SshSslUser => ssh_ssl_user_value(directive),
        _ => Err(seq![]),
    }
}

/// Whether a directive opens a block with directives of its own.
pub open spec fn opens_block(command: Command) -> bool {
    command == Command::StunBind || command == Command::StunServer || command == Command::Location
        || command == Command::Server || command == Command::Proxy || command == Command::Pishoo
}

/// The directives of the block that a directive opens.
pub open spec fn inner_commands(command: Command) -> Seq<(Seq<char>, Command)> {
    match command {
        Command::StunBind => stun_bind_commands(),
        Command::StunServer => stun_server_commands(),
        Command::Location => location_commands(),
        Command::Server => server_commands(),
        Command::Proxy => proxy_commands(),
        Command::Pishoo => pishoo_commands(),
        _ => seq![],
    }
}

/// The values of the directives of a block, gathered by name; the first directive that is unknown
/// or cannot be read stops it.
pub open spec fn gathered(
    commands: Seq<(Seq<char>, Command)>,
    list: Seq<Directive>,
    around: Surroundings<'_>,
) -> Outcome<Map<Seq<char>, ValueView>>
    decreases list, 0nat,
{
    if list.len() == 0 {
        Outcome::Value(Map::empty())
    } else {
        match gathered(commands, list.drop_last(), around) {
            Outcome::Value(values) => {
                let directive = list[list.len() - 1];
                match command_in(commands, directive.name@) {
                    None => Outcome::Fault("unknown directive `"@ + directive.name@ + "`"@),
                    Some(command) => match outcome(command, directive, around) {
                        Outcome::Value(value) => match combined(
                            entry(values, directive.name@),
                            value,
                        ) {
                            Some(value) => Outcome::Value(
                                values.insert(directive.name@, value),
                            ),
                            None => Outcome::Stuck,
                        },
                        Outcome::Fault(message) => Outcome::Fault(message),
                        Outcome::Stuck => Outcome::Stuck,
                    },
                }
            },
            stopped => stopped,
        }
    }
}

/// The pattern that arguments form, where they form one.
pub open spec fn pattern_of(args: Seq<Seq<char>>) -> Option<PatternView> {
    if exists|pattern: PatternView| is_parsed_pattern(args, Ok(pattern)) {
        Some(choose|pattern: PatternView| is_parsed_pattern(args, Ok(pattern)))
    } else {
        None
    }
}

/// What stands before the block of a directive: the requests that a location is for, the address
/// that is bound to, or else nothing. It is looked at before the block.
pub enum Head {
    Nothing,
    Pattern(PatternView),
    Addr(SocketAddr),
}

/// What stands before the block of a directive.
pub open spec fn head_of(command: Command, directive: Directive) -> Result<Head, Seq<char>> {
    match command {
        Command::Location => match pattern_of(texts(directive.args@)) {
            Some(pattern) => Ok(Head::Pattern(pattern)),
            None => Err("Failed to parse location pattern"@),
        },
        Command::StunBind => if directive.args@.len() != 1 {
            Err(
                "Expected exactly one argument for `bind`, got "@ + decimal(
                    directive.args@.len() as nat,
                ),
            )
        } else {
            match socket_addr(directive.arg(0)) {
                Some(addr) => Ok(Head::Addr(addr)),
                None => Err("Invalid socket address `"@ + directive.arg(0) + "` for `bind`"@),
            }
        },
        _ => Ok(Head::Nothing),
    }
}

/// The header that is added to all responses of a location.
pub open spec fn added_header() -> HeaderView {
    HeaderView { name: encode_utf8("server"@), value: encode_utf8("pishoo"@), always: true }
}

/// What the values of a location come to: its own header stands behind the others.
pub open spec fn completed_location(
    pattern: PatternView,
    values: Map<Seq<char>, ValueView>,
) -> Outcome<ValueView> {
    match combined(entry(values, "add_header"@), ValueView::Header(seq![added_header()])) {
        Some(headers) => Outcome::Value(
            ValueView::Pattern(pattern, values.insert("add_header"@, headers)),
        ),
        None => Outcome::Stuck,
    }
}

/// The certificate that an identity has by default.
pub open spec fn default_cert(identity: IdentityProfile) -> Seq<u8> {
    inside(inside(identity.path@, "ssl"@), "fullchain.crt"@)
}

/// The key that an identity has by default.
pub open spec fn default_key(identity: IdentityProfile) -> Seq<u8> {
    inside(inside(identity.path@, "ssl"@), "privkey.pem"@)
}

/// A value for a name that has none.
pub open spec fn or_else(
    values: Map<Seq<char>, ValueView>,
    name: Seq<char>,
    value: ValueView,
) -> Map<Seq<char>, ValueView> {
    if values.contains_key(name) {
        values
    } else {
        values.insert(name, value)
    }
}

/// What is filled in for the server of an identity: its name, its certificate and its key, as far as
/// they are not configured. Files must be there.
pub open spec fn identity_values(
    values: Map<Seq<char>, ValueView>,
    identity: IdentityProfile,
    existing: ExistingPaths,
) -> Result<Map<Seq<char>, ValueView>, Seq<char>> {
    let cert = default_cert(identity);
    let key = default_key(identity);
    let named = or_else(
        values,
        "server_name"@,
        ValueView::ServerName(seq![identity.name@]),
    );
    if !named.contains_key("ssl_certificate"@) && !existing.exists_at(cert) {
        Err(
            "ssl_certificate not configured and default cert `"@ + lossy_utf8(cert)
                + "` does not exist"@,
        )
    } else {
        let certified = or_else(named, "ssl_certificate"@, ValueView::Path(cert));
        if !certified.contains_key("ssl_certificate_key"@) && !existing.exists_at(key) {
            Err(
                "ssl_certificate_key not configured and default key `"@ + lossy_utf8(key)
                    + "` does not exist"@,
            )
        } else {
            Ok(or_else(certified, "ssl_certificate_key"@, ValueView::Path(key)))
        }
    }
}

/// What the values of a server come to. It must listen on something, unless it is that of an
/// identity, and have a certificate with a key; the server of an identity gets what is missing of
/// name, certificate and key from the identity.
pub open spec fn completed_server(
    values: Map<Seq<char>, ValueView>,
    around: Surroundings<'_>,
) -> Outcome<ValueView> {
    if around.identity is None && !values.contains_key("listen"@) {
        Outcome::Fault("Server directive must have listen directive"@)
    } else {
        let filled = match around.identity {
            Some(identity) => identity_values(values, *identity, *around.existing),
            None => Ok(values),
        };
        match filled {
            Err(message) => Outcome::Fault(message),
            Ok(values) => if !values.contains_key("ssl_certificate"@) {
                Outcome::Fault("Server directive must have ssl_certificate directive"@)
            } else if !values.contains_key("ssl_certificate_key"@) {
                Outcome::Fault("Server directive must have ssl_certificate_key directive"@)
            } else {
                Outcome::Value(ValueView::ValueMap(values))
            },
        }
    }
}

/// What the values of a block come to.
pub open spec fn completed(
    command: Command,
    head: Head,
    values: Map<Seq<char>, ValueView>,
    around: Surroundings<'_>,
) -> Outcome<ValueView> {
    match (command, head) {
        (Command::Location, Head::Pattern(pattern)) => completed_location(pattern, values),
        (Command::StunBind, Head::Addr(addr)) => Outcome::Value(
            ValueView::ValueMap(
                Map::<Seq<char>, ValueView>::empty().insert(
                    "bind_address"@,
                    ValueView::Addr(addr),
                ).union_prefer_right(values),
            ),
        ),
        (Command::Server, _) => completed_server(values, around),
        (Command::Proxy, _) => if values.contains_key("listen"@) {
            Outcome::Value(ValueView::ValueMap(values))
        } else {
            Outcome::Fault("Missing directive listen in proxy block"@)
        },
        _ => Outcome::Value(ValueView::ValueMap(values)),
    }
}

/// What reading a directive comes to.
pub open spec fn outcome(
    command: Command,
    directive: Directive,
    around: Surroundings<'_>,
) -> Outcome<ValueView>
    decreases directive, 1nat,
{
    if !opens_block(command) {
        match leaf_value(command, directive, around) {
            Ok(value) => Outcome::Value(value),
            Err(message) => Outcome::Fault(message),
        }
    } else {
        match head_of(command, directive) {
            Err(message) => Outcome::Fault(message),
            Ok(head) => {
                let inner = match directive.children {
                    Some(children) => gathered(inner_commands(command), children@, around),
                    None => Outcome::Value(Map::empty()),
                };
                match inner {
                    Outcome::Value(values) => completed(command, head, values, around),
                    Outcome::Fault(message) => Outcome::Fault(message),
                    Outcome::Stuck => Outcome::Stuck,
                }
            },
        }
    }
}

/// What stops the directives of a block stops them whatever follows.
pub proof fn first_fault_stands(
    commands: Seq<(Seq<char>, Command)>,
    list: Seq<Directive>,
    around: Surroundings<'_>,
    count: int,
)
    requires
        0 <= count <= list.len(),
        !(gathered(commands, list.take(count), around) is Value),
    ensures
        gathered(commands, list, around) == gathered(commands, list.take(count), around),
    decreases list.len(),
{
    if count == list.len() {
        assert(list.take(count) =~= list);
    } else {
        assert(list.drop_last().take(count) =~= list.take(count));
        first_fault_stands(commands, list.drop_last(), around, count);
    }
}

/// A directive that no command is known for is refused.
pub proof fn unknown_directive_is_refused(
    commands: Seq<(Seq<char>, Command)>,
    list: Seq<Directive>,
    around: Surroundings<'_>,
    at: int,
)
    requires
        0 <= at < list.len(),
        command_in(commands, list[at].name@) is None,
    ensures
        !(gathered(commands, list, around) is Value),
{
    let upto = list.take(at + 1);
    assert(upto[upto.len() - 1] == list[at]);
    assert(!(gathered(commands, upto, around) is Value));
    first_fault_stands(commands, list, around, at + 1);
}

impl Default for Commands {
    fn default() -> (commands: Self)
        ensures
            commands@ == Seq::<(Seq<char>, Command)>::empty(),
    {
        Commands::new()
    }
}

impl Commands {
    pub fn new() -> (commands: Self)
        ensures
            commands@ == Seq::<(Seq<char>, Command)>::empty(),
    {
        let commands = Commands { entries: Vec::new() };
        assert(commands@ =~= Seq::empty());
        commands
    }

    /// Enters how a directive is read, in place of what was known of it.
    pub fn insert(&mut self, name: &'static str, command: Command)
        ensures
            final(self)@ == old(self)@.push((name@, command)),
    {
        let ghost before = self.entries@;
        self.entries.push((name, command));
        assert(command_views(self.entries@) =~= command_views(before).push((name@, command)));
    }

    fn find(&self, name: &str) -> (command: Option<Command>)
        ensures
            command == command_in(self@, name@),
    {
        let mut best: Option<Command> = None;
        let mut i: usize = 0;
        assert(self@.take(0) =~= seq![]);
        while i < self.entries.len()
            invariant
                i <= self.entries@.len(),
                best == command_in(self@.take(i as int), name@),
            decreases self.entries@.len() - i,
        {
            proof {
                assert(self@.take(i + 1).drop_last() =~= self@.take(i as int));
                assert(self@.take(i + 1).last() == self@[i as int]);
            }
            if str_eq(self.entries[i].0, name) {
                best = Some(self.entries[i].1);
            }
            i += 1;
        }
        assert(self@.take(i as int) =~= self@);
        best
    }

    /// Whether reading some directives comes to an end.
    pub fn can_parse(&self, directives: &Vec<Directive>, around: Surroundings<'_>) -> (yes: bool)
        ensures
            yes == !(gathered(self@, directives@, around) is Stuck),
    {
        match gather(self, directives, around) {
            Gathered::Stuck => false,
            _ => true,
        }
    }

    /// Reads the directives of a block.
    pub fn parse(&self, directives: &Vec<Directive>, around: Surroundings<'_>) -> (result: Result<
        ValueMap,
        Whatever,
    >)
        requires
            !(gathered(self@, directives@, around) is Stuck),
        ensures
            match result {
                Ok(values) => gathered(self@, directives@, around) == Outcome::Value(values.view()),
                Err(error) => gathered(self@, directives@, around) == Outcome::<
                    Map<Seq<char>, ValueView>,
                >::Fault(error@),
            },
    {
        match gather(self, directives, around) {
            Gathered::Values(values) => Ok(values),
            Gathered::Fault(error) => Err(error),
            Gathered::Stuck => {
                assert(false);
                Ok(ValueMap::new())
            },
        }
    }
}

fn location_table() -> (commands: Commands)
    ensures
        commands@ == location_commands(),
{
    let mut commands = Commands::new();
    commands.insert("types", Command::Types);
    commands.insert("root", Command::Path);
    commands.insert("alias", Command::Path);
    commands.insert("gzip", Command::Boolean);
    commands.insert("gzip_vary", Command::Boolean);
    commands.insert("gzip_min_length", Command::Text);
    commands.insert("gzip_comp_level", Command::Text);
    commands.insert("gzip_types", Command::StringVec);
    commands.insert("index", Command::StringVec);
    commands.insert("add_header", Command::HeaderAlways);
    commands.insert("proxy_set_header", Command::Header);
    commands.insert("proxy_pass", Command::ProxyPass);
    commands.insert("ssh_login", Command::SshLogin);
    commands.insert("ssh_ssl_user", Command::SshSslUser);
    commands.insert("ssh_deny", Command::StringVec);
    commands.insert("relay", Command::Boolean);
    commands.insert("bind", Command::StunBind);
    assert(commands@ =~= location_commands());
    commands
}

fn stun_bind_table() -> (commands: Commands)
    ensures
        commands@ == stun_bind_commands(),
{
    let mut commands = Commands::new();
    commands.insert("outer", Command::Address);
    commands.insert("change_addr", Command::Address);
    commands.insert("change_port", Command::Text);
    assert(commands@ =~= stun_bind_commands());
    commands
}

fn stun_server_table() -> (commands: Commands)
    ensures
        commands@ == stun_server_commands(),
{
    let mut commands = Commands::new();
    commands.insert("bind", Command::Address);
    commands.insert("outer_addr", Command::Address);
    commands.insert("change_addr", Command::Address);
    commands.insert("change_port", Command::Text);
    assert(commands@ =~= stun_server_commands());
    commands
}

fn server_table() -> (commands: Commands)
    ensures
        commands@ == server_commands(),
{
    let mut commands = Commands::new();
    commands.insert("listen", Command::Listen);
    commands.insert("server_name", Command::ServerName);
    commands.insert("server_id", Command::ServerId);
    commands.insert("dns", Command::Resolver);
    commands.insert("gzip", Command::Boolean);
    commands.insert("gzip_vary", Command::Boolean);
    commands.insert("gzip_min_length", Command::Text);
    commands.insert("gzip_comp_level", Command::Text);
    commands.insert("gzip_types", Command::StringVec);
    commands.insert("ssl_certificate", Command::Path);
    commands.insert("ssl_certificate_key", Command::Path);
    commands.insert("location", Command::Location);
    commands.insert("types", Command::Types);
    commands.insert("default_type", Command::HeaderValue);
    commands.insert("access_rules", Command::Text);
    commands.insert("relay", Command::Boolean);
    commands.insert("stun", Command::Boolean);
    commands.insert("stun_server", Command::StunServer);
    assert(commands@ =~= server_commands());
    commands
}

fn proxy_table() -> (commands: Commands)
    ensures
        commands@ == proxy_commands(),
{
    let mut commands = Commands::new();
    commands.insert("listen", Command::Address);
    commands.insert("client_name", Command::Text);
    commands.insert("resolver", Command::Resolver);
    commands.insert("ssl_certificate", Command::Path);
    commands.insert("ssl_certificate_key", Command::Path);
    commands.insert("allow", Command::StringVec);
    commands.insert("deny", Command::StringVec);
    commands.insert("types", Command::Types);
    commands.insert("default_type", Command::HeaderValue);
    assert(commands@ =~= proxy_commands());
    commands
}

fn pishoo_table() -> (commands: Commands)
    ensures
        commands@ == pishoo_commands(),
{
    let mut commands = Commands::new();
    commands.insert("pid", Command::Text);
    commands.insert("gzip", Command::Boolean);
    commands.insert("gzip_vary", Command::Boolean);
    commands.insert("gzip_min_length", Command::Text);
    commands.insert("gzip_comp_level", Command::Text);
    commands.insert("gzip_types", Command::StringVec);
    commands.insert("types", Command::Types);
    commands.insert("access_rules", Command::Text);
    commands.insert("default_type", Command::HeaderValue);
    commands.insert("workers", Command::StringVec);
    commands.insert("groups", Command::StringVec);
    commands.insert("server", Command::Server);
    commands.insert("proxy", Command::Proxy);
    assert(commands@ =~= pishoo_commands());
    commands
}

fn conf_table() -> (commands: Commands)
    ensures
        commands@ == conf_commands(),
{
    let mut commands = Commands::new();
    commands.insert("pishoo", Command::Pishoo);
    assert(commands@ =~= conf_commands());
    commands
}

fn inner_table(command: Command) -> (commands: Commands)
    requires
        opens_block(command),
    ensures
        commands@ == inner_commands(command),
{
    match command {
        Command::StunBind => stun_bind_table(),
        Command::StunServer => stun_server_table(),
        Command::Location => location_table(),
        Command::Server => server_table(),
        Command::Proxy => proxy_table(),
        _ => pishoo_table(),
    }
}

/// What reading a directive came to.
enum Parsed {
    Value(Value),
    Fault(Whatever),
    Stuck,
}

impl Parsed {
    spec fn shown(self) -> Outcome<ValueView> {
        match self {
            Parsed::Value(value) => Outcome::Value(value.view()),
            Parsed::Fault(error) => Outcome::Fault(error@),
            Parsed::Stuck => Outcome::Stuck,
        }
    }
}

/// What reading the directives of a block came to.
enum Gathered {
    Values(ValueMap),
    Fault(Whatever),
    Stuck,
}

impl Gathered {
    spec fn shown(self) -> Outcome<Map<Seq<char>, ValueView>> {
        match self {
            Gathered::Values(values) => Outcome::Value(values.view()),
            Gathered::Fault(error) => Outcome::Fault(error@),
            Gathered::Stuck => Outcome::Stuck,
        }
    }
}

proof fn lemma_nodes(nodes: Vec<Arc<Node>>)
    ensures
        Value::Nodes(nodes).view() == ValueView::Nodes(node_views(nodes@)),
{
    assert(Value::Nodes(nodes).view()->Nodes_0 =~= node_views(nodes@));
}

fn one_node(value: Value) -> (nodes: Value)
    requires
        value is ValueMap || value is Pattern,
    ensures
        nodes.view() == ValueView::Nodes(seq![value.view()]),
{
    let ghost view = value.view();
    let mut nodes: Vec<Arc<Node>> = Vec::new();
    nodes.push(Arc::new(Node::new(value)));
    proof {
        lemma_nodes(nodes);
        assert(node_views(nodes@) =~= seq![view]);
    }
    Value::Nodes(nodes)
}

fn more_nodes(nodes: Vec<Arc<Node>>, value: Value) -> (more: Value)
    requires
        value is ValueMap || value is Pattern,
    ensures
        more.view() == ValueView::Nodes(node_views(nodes@).push(value.view())),
{
    let ghost view = value.view();
    let ghost before = nodes@;
    let mut nodes = nodes;
    nodes.push(Arc::new(Node::new(value)));
    proof {
        lemma_nodes(nodes);
        assert(node_views(nodes@) =~= node_views(before).push(view));
    }
    Value::Nodes(nodes)
}

fn combine_block(earlier: Option<Value>, value: Value) -> (together: Option<Value>)
    requires
        value is ValueMap || value is Pattern,
    ensures
        combines(earlier, value, together),
{
    match earlier {
        None => Some(one_node(value)),
        Some(Value::Nodes(nodes)) => {
            proof {
                lemma_nodes(nodes);
            }
            Some(more_nodes(nodes, value))
        },
        Some(_) => None,
    }
}

/// Whether a value is what two values come to.
spec fn combines(earlier: Option<Value>, value: Value, together: Option<Value>) -> bool {
    let before = match earlier {
        Some(earlier) => Some(earlier.view()),
        None => None,
    };
    match together {
        Some(together) => combined(before, value.view()) == Some(together.view()),
        None => combined(before, value.view()) is None,
    }
}

fn combine_headers(earlier: Option<Value>, rules: Vec<HeaderRule>) -> (together: Option<Value>)
    ensures
        combines(earlier, Value::Header(rules), together),
{
    match earlier {
        None => Some(Value::Header(rules)),
        Some(Value::Header(before)) => {
            let mut before = before;
            let mut rules = rules;
            let ghost one = before@;
            let ghost other = rules@;
            before.append(&mut rules);
            assert(header_views(before@) =~= header_views(one) + header_views(other));
            Some(Value::Header(before))
        },
        Some(_) => None,
    }
}

fn combine_users(earlier: Option<Value>, users: Vec<(String, String)>) -> (together: Option<Value>)
    ensures
        combines(earlier, Value::SshSslUser(users), together),
{
    match earlier {
        None => Some(Value::SshSslUser(users)),
        Some(Value::SshSslUser(before)) => {
            let mut before = before;
            let mut users = users;
            let ghost one = before@;
            let ghost other = users@;
            before.append(&mut users);
            assert(user_views(before@) =~= user_views(one) + user_views(other));
            Some(Value::SshSslUser(before))
        },
        Some(_) => None,
    }
}

fn combine_addr(earlier: Option<Value>, addr: SocketAddr) -> (together: Option<Value>)
    ensures
        combines(earlier, Value::Addr(addr), together),
{
    match earlier {
        None => Some(Value::Addr(addr)),
        Some(Value::Addr(before)) => {
            let mut list: Vec<SocketAddr> = Vec::new();
            list.push(before);
            list.push(addr);
            assert(list@ =~= seq![before, addr]);
            Some(Value::AddrVec(list))
        },
        Some(Value::AddrVec(before)) => {
            let mut list = before;
            list.push(addr);
            Some(Value::AddrVec(list))
        },
        Some(_) => None,
    }
}

fn combine(earlier: Option<Value>, value: Value) -> (together: Option<Value>)
    ensures
        combines(earlier, value, together),
{
    match value {
        Value::ValueMap(map) => combine_block(earlier, Value::ValueMap(map)),
        Value::Pattern(pattern, map) => combine_block(earlier, Value::Pattern(pattern, map)),
        Value::Header(rules) => combine_headers(earlier, rules),
        Value::SshSslUser(users) => combine_users(earlier, users),
        Value::Addr(addr) => combine_addr(earlier, addr),
        other => Some(other),
    }
}

fn of_result(result: Result<Value, Whatever>) -> (parsed: Parsed)
    ensures
        parsed.shown() == (match shown(result) {
            Ok(value) => Outcome::Value(value),
            Err(message) => Outcome::Fault(message),
        }),
{
    match result {
        Ok(value) => Parsed::Value(value),
        Err(error) => Parsed::Fault(error),
    }
}

fn run_leaf(command: Command, directive: &Directive, around: Surroundings<'_>) -> (parsed: Parsed)
    requires
        !opens_block(command),
    ensures
        parsed.shown() == (match leaf_value(command, *directive, around) {
            Ok(value) => Outcome::Value(value),
            Err(message) => Outcome::Fault(message),
        }),
{
    let result = match command {
        Command::Boolean => parse_boolean(directive),
        Command::Text => parse_string(directive),
        Command::StringVec => parse_string_vec(directive),
        Command::HeaderValue => parse_header_value(directive),
        Command::Types => parse_types(directive),
        Command::ProxyPass => parse_proxy_pass(directive),
        Command::Listen => parse_listen(directive),
        Command::Address => parse_address(directive),
        Command::Resolver => parse_resolver(directive),
        Command::Path => parse_path(directive, around.existing),
        Command::ServerName => parse_server_name(directive),
        Command::ServerId => parse_server_id(directive),
        Command::Header => parse_header(directive),
        Command::HeaderAlways => parse_header_always(directive),
        Command::SshLogin => parse_ssh_login(directive),
        _ => parse_ssh_ssl_user(directive),
    };
    of_result(result)
}

/// What stands before a block.
enum HeadValue {
    Nothing,
    Pattern(Pattern),
    Addr(SocketAddr),
}

impl HeadValue {
    spec fn shown(self) -> Head {
        match self {
            HeadValue::Nothing => Head::Nothing,
            HeadValue::Pattern(pattern) => Head::Pattern(pattern@),
            HeadValue::Addr(addr) => Head::Addr(addr),
        }
    }
}

proof fn lemma_pattern(args: Seq<Seq<char>>, pattern: PatternView)
    requires
        is_parsed_pattern(args, Ok(pattern)),
    ensures
        pattern_of(args) == Some(pattern),
{
    let other = choose|pattern: PatternView| is_parsed_pattern(args, Ok(pattern));
    assert(is_parsed_pattern(args, Ok(other)));
}

fn read_head(command: Command, directive: &Directive) -> (result: Result<HeadValue, Whatever>)
    ensures
        match result {
            Ok(head) => head_of(command, *directive) == Ok::<Head, Seq<char>>(head.shown()),
            Err(error) => head_of(command, *directive) == Err::<Head, Seq<char>>(error@),
        },
{
    match command {
        Command::Location => match parse_pattern(&directive.args) {
            Ok(pattern) => {
                proof {
                    lemma_pattern(texts(directive.args@), pattern@);
                }
                Ok(HeadValue::Pattern(pattern))
            },
            Err(error) => {
                assert(is_parsed_pattern(texts(directive.args@), Err(error)));
                assert(forall|pattern: PatternView|
                    !is_parsed_pattern(texts(directive.args@), Ok(pattern)));
                Err(Whatever { message: "Failed to parse location pattern".to_owned() })
            },
        },
        Command::StunBind => if directive.args.len() != 1 {
            let mut message = "Expected exactly one argument for `bind`, got ".to_owned();
            let count = decimal_string(directive.args.len() as u64);
            push_str(&mut message, count.as_str());
            Err(Whatever { message })
        } else {
            match SocketAddr::parse(directive.args[0].as_str()) {
                Ok(addr) => Ok(HeadValue::Addr(addr)),
                Err(_) => Err(
                    Whatever {
                        message: join3(
                            "Invalid socket address `",
                            directive.args[0].as_str(),
                            "` for `bind`",
                        ),
                    },
                ),
            }
        },
        _ => Ok(HeadValue::Nothing),
    }
}

fn complete_location(pattern: Pattern, values: ValueMap) -> (parsed: Parsed)
    ensures
        parsed.shown() == completed_location(pattern@, values.view()),
{
    let ghost before = values.view();
    let mut values = values;
    let earlier = values.take("add_header");
    let HeaderRules(rules) = server_header();
    proof {
        assert(header_views(rules@) =~= seq![added_header()]);
    }
    match combine_headers(earlier, rules) {
        Some(headers) => {
            let ghost view = headers.view();
            values.insert("add_header".to_owned(), headers);
            assert(values.view() =~= before.insert("add_header"@, view));
            Parsed::Value(Value::Pattern(pattern, values))
        },
        None => Parsed::Stuck,
    }
}

fn missing_file(what: &str, path: &UnixPath) -> (error: Whatever)
    ensures
        error@ == what@ + lossy_utf8(path@) + "` does not exist"@,
{
    let name = lossy_text(path.bytes.as_slice());
    Whatever { message: join3(what, name.as_str(), "` does not exist") }
}

fn fill_identity(values: ValueMap, identity: &IdentityProfile, existing: &ExistingPaths) -> (result:
    Result<ValueMap, Whatever>)
    ensures
        match result {
            Ok(filled) => identity_values(values.view(), *identity, *existing) == Ok::<
                Map<Seq<char>, ValueView>,
                Seq<char>,
            >(filled.view()),
            Err(error) => identity_values(values.view(), *identity, *existing) == Err::<
                Map<Seq<char>, ValueView>,
                Seq<char>,
            >(error@),
        },
{
    let mut values = values;
    if !values.contains_key("server_name") {
        let mut names: Vec<String> = Vec::new();
        names.push(identity.name.as_full().to_owned());
        assert(texts(names@) =~= seq![identity.name@]);
        values.insert("server_name".to_owned(), Value::ServerName(names));
    }
    if !values.contains_key("ssl_certificate") {
        let cert = identity.certificate_path();
        if !existing.contains(&cert) {
            return Err(
                missing_file("ssl_certificate not configured and default cert `", &cert),
            );
        }
        values.insert("ssl_certificate".to_owned(), Value::Path(cert));
    }
    if !values.contains_key("ssl_certificate_key") {
        let key = identity.private_key_path();
        if !existing.contains(&key) {
            return Err(
                missing_file("ssl_certificate_key not configured and default key `", &key),
            );
        }
        values.insert("ssl_certificate_key".to_owned(), Value::Path(key));
    }
    Ok(values)
}

fn fault(message: &str) -> (parsed: Parsed)
    ensures
        parsed.shown() == Outcome::<ValueView>::Fault(message@),
{
    Parsed::Fault(Whatever { message: message.to_owned() })
}

fn complete_server(values: ValueMap, around: Surroundings<'_>) -> (parsed: Parsed)
    ensures
        parsed.shown() == completed_server(values.view(), around),
{
    if around.identity.is_none() && !values.contains_key("listen") {
        return fault("Server directive must have listen directive");
    }
    let values = match around.identity {
        Some(identity) => match fill_identity(values, identity, around.existing) {
            Ok(values) => values,
            Err(error) => {
                return Parsed::Fault(error);
            },
        },
        None => values,
    };
    if !values.contains_key("ssl_certificate") {
        fault("Server directive must have ssl_certificate directive")
    } else if !values.contains_key("ssl_certificate_key") {
        fault("Server directive must have ssl_certificate_key directive")
    } else {
        Parsed::Value(Value::ValueMap(values))
    }
}

fn complete(command: Command, head: HeadValue, values: ValueMap, around: Surroundings<'_>) -> (parsed:
    Parsed)
    ensures
        parsed.shown() == completed(command, head.shown(), values.view(), around),
{
    match (command, head) {
        (Command::Location, HeadValue::Pattern(pattern)) => complete_location(pattern, values),
        (Command::StunBind, HeadValue::Addr(addr)) => {
            let ghost before = values.view();
            let mut values = values;
            if !values.contains_key("bind_address") {
                values.insert("bind_address".to_owned(), Value::Addr(addr));
            }
            assert(values.view() =~= Map::<Seq<char>, ValueView>::empty().insert(
                "bind_address"@,
                ValueView::Addr(addr),
            ).union_prefer_right(before));
            Parsed::Value(Value::ValueMap(values))
        },
        (Command::Server, _) => complete_server(values, around),
        (Command::Proxy, _) => if values.contains_key("listen") {
            Parsed::Value(Value::ValueMap(values))
        } else {
            fault("Missing directive listen in proxy block")
        },
        _ => Parsed::Value(Value::ValueMap(values)),
    }
}

fn run(command: Command, directive: &Directive, around: Surroundings<'_>) -> (parsed: Parsed)
    ensures
        parsed.shown() == outcome(command, *directive, around),
    decreases directive, 1nat,
{
    let opens = match command {
        Command::StunBind => true,
        Command::StunServer => true,
        Command::Location => true,
        Command::Server => true,
        Command::Proxy => true,
        Command::Pishoo => true,
        _ => false,
    };
    if !opens {
        return run_leaf(command, directive, around);
    }
    let head = match read_head(command, directive) {
        Ok(head) => head,
        Err(error) => {
            return Parsed::Fault(error);
        },
    };
    let inner = match &directive.children {
        Some(children) => gather(&inner_table(command), children, around),
        None => Gathered::Values(ValueMap::new()),
    };
    match inner {
        Gathered::Values(values) => complete(command, head, values, around),
        Gathered::Fault(error) => Parsed::Fault(error),
        Gathered::Stuck => Parsed::Stuck,
    }
}

fn gather(commands: &Commands, list: &Vec<Directive>, around: Surroundings<'_>) -> (inner: Gathered)
    ensures
        inner.shown() == gathered(commands@, list@, around),
    decreases list@, 0nat,
{
    let mut values = ValueMap::new();
    let mut i: usize = 0;
    assert(list@.take(0) =~= seq![]);
    while i < list.len()
        invariant
            i <= list@.len(),
            gathered(commands@, list@.take(i as int), around) == Outcome::Value(values.view()),
        decreases list@.len() - i,
    {
        let directive = &list[i];
        let ghost upto = list@.take(i + 1);
        let ghost before = values.view();
        proof {
            assert(upto.drop_last() =~= list@.take(i as int));
            assert(upto[upto.len() - 1] == *directive);
        }
        let command = match commands.find(directive.name.as_str()) {
            Some(command) => command,
            None => {
                proof {
                    first_fault_stands(commands@, list@, around, i + 1);
                }
                return Gathered::Fault(
                    Whatever { message: join3("unknown directive `", directive.name.as_str(), "`") },
                );
            },
        };
        let value = match run(command, directive, around) {
            Parsed::Value(value) => value,
            Parsed::Fault(error) => {
                proof {
                    first_fault_stands(commands@, list@, around, i + 1);
                }
                return Gathered::Fault(error);
            },
            Parsed::Stuck => {
                proof {
                    first_fault_stands(commands@, list@, around, i + 1);
                }
                return Gathered::Stuck;
            },
        };
        let earlier = values.take(directive.name.as_str());
        match combine(earlier, value) {
            Some(together) => {
                let ghost view = together.view();
                values.insert(directive.name.clone(), together);
                assert(values.view() =~= before.insert(directive.name@, view));
            },
            None => {
                proof {
                    first_fault_stands(commands@, list@, around, i + 1);
                }
                return Gathered::Stuck;
            },
        }
        i += 1;
    }
    assert(list@.take(i as int) =~= list@);
    Gathered::Values(values)
}

/// Whether reading a directive came to what it should come to.
pub open spec fn gives(
    command: Command,
    directive: Directive,
    around: Surroundings<'_>,
    result: Result<Value, Whatever>,
) -> bool {
    outcome(command, directive, around) == (match shown(result) {
        Ok(value) => Outcome::Value(value),
        Err(message) => Outcome::Fault(message),
    })
}

fn settled(parsed: Parsed) -> (result: Result<Value, Whatever>)
    requires
        !(parsed is Stuck),
    ensures
        parsed.shown() == (match shown(result) {
            Ok(value) => Outcome::Value(value),
            Err(message) => Outcome::Fault(message),
        }),
{
    match parsed {
        Parsed::Value(value) => Ok(value),
        Parsed::Fault(error) => Err(error),
        Parsed::Stuck => {
            assert(false);
            Err(Whatever { message: String::new() })
        },
    }
}

/// Reads a `location` block.
pub fn parse_location(directive: &Directive, around: Surroundings<'_>) -> (result: Result<
    Value,
    Whatever,
>)
    requires
        !(outcome(Command::Location, *directive, around) is Stuck),
    ensures
        gives(Command::Location, *directive, around, result),
{
    settled(run(Command::Location, directive, around))
}

/// Reads a `bind` block.
pub fn parse_stun_bind(directive: &Directive, around: Surroundings<'_>) -> (result: Result<
    Value,
    Whatever,
>)
    requires
        !(outcome(Command::StunBind, *directive, around) is Stuck),
    ensures
        gives(Command::StunBind, *directive, around, result),
{
    settled(run(Command::StunBind, directive, around))
}

/// Reads a `server` block.
pub fn parse_server(directive: &Directive, around: Surroundings<'_>) -> (result: Result<
    Value,
    Whatever,
>)
    requires
        !(outcome(Command::Server, *directive, around) is Stuck),
    ensures
        gives(Command::Server, *directive, around, result),
{
    settled(run(Command::Server, directive, around))
}

/// Reads a `stun_server` block.
pub fn parse_stun_server(directive: &Directive, around: Surroundings<'_>) -> (result: Result<
    Value,
    Whatever,
>)
    requires
        !(outcome(Command::StunServer, *directive, around) is Stuck),
    ensures
        gives(Command::StunServer, *directive, around, result),
{
    settled(run(Command::StunServer, directive, around))
}

/// Reads a `proxy` block.
pub fn parse_proxy(directive: &Directive, around: Surroundings<'_>) -> (result: Result<
    Value,
    Whatever,
>)
    requires
        !(outcome(Command::Proxy, *directive, around) is Stuck),
    ensures
        gives(Command::Proxy, *directive, around, result),
{
    settled(run(Command::Proxy, directive, around))
}

/// Reads a `pishoo` block.
pub fn parse_pishoo(directive: &Directive, around: Surroundings<'_>) -> (result: Result<
    Value,
    Whatever,
>)
    requires
        !(outcome(Command::Pishoo, *directive, around) is Stuck),
    ensures
        gives(Command::Pishoo, *directive, around, result),
{
    settled(run(Command::Pishoo, directive, around))
}

/// Whether reading a whole configuration comes to an end.
pub fn can_parse_conf(directives: &Vec<Directive>, around: Surroundings<'_>) -> (yes: bool)
    ensures
        yes == !(gathered(conf_commands(), directives@, around) is Stuck),
{
    conf_table().can_parse(directives, around)
}

/// Reads a whole configuration.
pub fn parse_conf(directives: &Vec<Directive>, around: Surroundings<'_>) -> (result: Result<
    Arc<Node>,
    Whatever,
>)
    requires
        !(gathered(conf_commands(), directives@, around) is Stuck),
    ensures
        match result {
            Ok(root) => root.value is ValueMap && (root.value.view() matches ValueView::ValueMap(
                values,
            ) && gathered(conf_commands(), directives@, around) == Outcome::Value(values)),
            Err(error) => gathered(conf_commands(), directives@, around) == Outcome::<
                Map<Seq<char>, ValueView>,
            >::Fault(error@),
        },
{
    match conf_table().parse(directives, around) {
        Ok(values) => Ok(Arc::new(Node::new(Value::ValueMap(values)))),
        Err(error) => Err(error),
    }
}

/// Reads a whole configuration. Nothing comes back where its values cannot be gathered: where
/// `types` without a block follows `types` with one.
pub fn try_parse_conf(directives: &Vec<Directive>, around: Surroundings<'_>) -> (result: Option<
    Result<Arc<Node>, Whatever>,
>)
    ensures
        match result {
            None => gathered(conf_commands(), directives@, around) is Stuck,
            Some(Ok(root)) => root.value.view() matches ValueView::ValueMap(values) && gathered(
                conf_commands(),
                directives@,
                around,
            ) == Outcome::Value(values),
            Some(Err(error)) => gathered(conf_commands(), directives@, around) == Outcome::<
                Map<Seq<char>, ValueView>,
            >::Fault(error@),
        },
{
    if can_parse_conf(directives, around) {
        Some(parse_conf(directives, around))
    } else {
        None
    }
}

} // verus!
