//! The values of all directives, read from the syntax tree.
pub mod access;
pub mod basic;
pub mod common;
pub mod http;
pub mod location;
pub mod net;
pub mod pishoo;
pub mod proxy;
pub mod server;
pub mod ssh;
pub mod stun;

use vstd::prelude::*;

use crate::parse::pattern::ParsePatternError;
use self::basic::{StringConfigError, StringListError, BoolConfigError, PathConfigError, ResolvedConfigPathValueError};
use self::net::{ResolverConfigError, ServerIdConfigError, ServerNamesError, ClientNameConfigError, SocketAddrsError, ListenConfigError};
use self::stun::{StunBindConfigValueError, StunChangePortError, StunServerConfigValueError};
use self::http::{DefaultTypeError, GzipMinLengthError, GzipCompLevelError, ProxyPassError, HeaderRulesError, MimeTypesError};
use self::ssh::{SshLoginMethodsError, SshSslUsersError};
use self::access::{AccessRulesUriError};
use crate::parse::context::{contexts_differ, PISHOO};
use crate::parse::registry::{ConfigRegistry, RegistryView};
use crate::parse::schema::{
    conforms, is_extra, is_v1_name, reserved_name, v1_directives, validates,
};
use crate::text::texts;

verus! {

/// Why a directive gives no value.
#[derive(Debug)]
pub enum DirectiveError {
    StringConfig(StringConfigError),
    StringList(StringListError),
    BoolConfig(BoolConfigError),
    PathConfig(PathConfigError),
    ResolvedConfigPath(ResolvedConfigPathValueError),
    ResolverConfig(ResolverConfigError),
    ServerIdConfig(ServerIdConfigError),
    ServerNames(ServerNamesError),
    ClientNameConfig(ClientNameConfigError),
    SocketAddrs(SocketAddrsError),
    ListenConfig(ListenConfigError),
    StunBindConfigValue(StunBindConfigValueError),
    StunChangePort(StunChangePortError),
    StunServerConfigValue(StunServerConfigValueError),
    DefaultType(DefaultTypeError),
    GzipMinLength(GzipMinLengthError),
    GzipCompLevel(GzipCompLevelError),
    ProxyPass(ProxyPassError),
    HeaderRules(HeaderRulesError),
    MimeTypes(MimeTypesError),
    SshLoginMethods(SshLoginMethodsError),
    SshSslUsers(SshSslUsersError),
    AccessRulesUri(AccessRulesUriError),
    Pattern(ParsePatternError),
}

impl DirectiveError {
    /// The message of this error.
    pub open spec fn text(self) -> Seq<char> {
        match self {
            DirectiveError::StringConfig(error) => error.text(),
            DirectiveError::StringList(error) => error.text(),
            DirectiveError::BoolConfig(error) => error.text(),
            DirectiveError::PathConfig(error) => error.text(),
            DirectiveError::ResolvedConfigPath(error) => error.text(),
            DirectiveError::ResolverConfig(error) => error.text(),
            DirectiveError::ServerIdConfig(error) => error.text(),
            DirectiveError::ServerNames(error) => error.text(),
            DirectiveError::ClientNameConfig(error) => error.text(),
            DirectiveError::SocketAddrs(error) => error.text(),
            DirectiveError::ListenConfig(error) => error.text(),
            DirectiveError::StunBindConfigValue(error) => error.text(),
            DirectiveError::StunChangePort(error) => error.text(),
            DirectiveError::StunServerConfigValue(error) => error.text(),
            DirectiveError::DefaultType(error) => error.text(),
            DirectiveError::GzipMinLength(error) => error.text(),
            DirectiveError::GzipCompLevel(error) => error.text(),
            DirectiveError::ProxyPass(error) => error.text(),
            DirectiveError::HeaderRules(error) => error.text(),
            DirectiveError::MimeTypes(error) => error.text(),
            DirectiveError::SshLoginMethods(error) => error.text(),
            DirectiveError::SshSslUsers(error) => error.text(),
            DirectiveError::AccessRulesUri(error) => error.text(),
            DirectiveError::Pattern(error) => error.text(),
        }
    }

    /// The message of this error.
    pub fn message(&self) -> (text: String)
        ensures
            text@ == self.text(),
    {
        match self {
            DirectiveError::StringConfig(error) => error.message(),
            DirectiveError::StringList(error) => error.message(),
            DirectiveError::BoolConfig(error) => error.message(),
            DirectiveError::PathConfig(error) => error.message(),
            DirectiveError::ResolvedConfigPath(error) => error.message(),
            DirectiveError::ResolverConfig(error) => error.message(),
            DirectiveError::ServerIdConfig(error) => error.message(),
            DirectiveError::ServerNames(error) => error.message(),
            DirectiveError::ClientNameConfig(error) => error.message(),
            DirectiveError::SocketAddrs(error) => error.message(),
            DirectiveError::ListenConfig(error) => error.message(),
            DirectiveError::StunBindConfigValue(error) => error.message(),
            DirectiveError::StunChangePort(error) => error.message(),
            DirectiveError::StunServerConfigValue(error) => error.message(),
            DirectiveError::DefaultType(error) => error.message(),
            DirectiveError::GzipMinLength(error) => error.message(),
            DirectiveError::GzipCompLevel(error) => error.message(),
            DirectiveError::ProxyPass(error) => error.message(),
            DirectiveError::HeaderRules(error) => error.message(),
            DirectiveError::MimeTypes(error) => error.message(),
            DirectiveError::SshLoginMethods(error) => error.message(),
            DirectiveError::SshSslUsers(error) => error.message(),
            DirectiveError::AccessRulesUri(error) => error.message(),
            DirectiveError::Pattern(error) => error.message(),
        }
    }

    /// The messages of this error and of what caused it, outermost first.
    pub open spec fn chain(self) -> Seq<Seq<char>> {
        match self {
            DirectiveError::StringConfig(error) => error.chain(),
            DirectiveError::StringList(error) => error.chain(),
            DirectiveError::BoolConfig(error) => error.chain(),
            DirectiveError::PathConfig(error) => error.chain(),
            DirectiveError::ResolvedConfigPath(error) => error.chain(),
            DirectiveError::ResolverConfig(error) => error.chain(),
            DirectiveError::ServerIdConfig(error) => error.chain(),
            DirectiveError::ServerNames(error) => error.chain(),
            DirectiveError::ClientNameConfig(error) => error.chain(),
            DirectiveError::SocketAddrs(error) => error.chain(),
            DirectiveError::ListenConfig(error) => error.chain(),
            DirectiveError::StunBindConfigValue(error) => error.chain(),
            DirectiveError::StunChangePort(error) => error.chain(),
            DirectiveError::StunServerConfigValue(error) => error.chain(),
            DirectiveError::DefaultType(error) => error.chain(),
            DirectiveError::GzipMinLength(error) => error.chain(),
            DirectiveError::GzipCompLevel(error) => error.chain(),
            DirectiveError::ProxyPass(error) => error.chain(),
            DirectiveError::HeaderRules(error) => error.chain(),
            DirectiveError::MimeTypes(error) => error.chain(),
            DirectiveError::SshLoginMethods(error) => error.chain(),
            DirectiveError::SshSslUsers(error) => error.chain(),
            DirectiveError::AccessRulesUri(error) => error.chain(),
            DirectiveError::Pattern(error) => error.chain(),
        }
    }

    /// The messages of this error and of what caused it, outermost first.
    pub fn messages(&self) -> (list: Vec<String>)
        ensures
            texts(list@) == self.chain(),
    {
        match self {
            DirectiveError::StringConfig(error) => error.messages(),
            DirectiveError::StringList(error) => error.messages(),
            DirectiveError::BoolConfig(error) => error.messages(),
            DirectiveError::PathConfig(error) => error.messages(),
            DirectiveError::ResolvedConfigPath(error) => error.messages(),
            DirectiveError::ResolverConfig(error) => error.messages(),
            DirectiveError::ServerIdConfig(error) => error.messages(),
            DirectiveError::ServerNames(error) => error.messages(),
            DirectiveError::ClientNameConfig(error) => error.messages(),
            DirectiveError::SocketAddrs(error) => error.messages(),
            DirectiveError::ListenConfig(error) => error.messages(),
            DirectiveError::StunBindConfigValue(error) => error.messages(),
            DirectiveError::StunChangePort(error) => error.messages(),
            DirectiveError::StunServerConfigValue(error) => error.messages(),
            DirectiveError::DefaultType(error) => error.messages(),
            DirectiveError::GzipMinLength(error) => error.messages(),
            DirectiveError::GzipCompLevel(error) => error.messages(),
            DirectiveError::ProxyPass(error) => error.messages(),
            DirectiveError::HeaderRules(error) => error.messages(),
            DirectiveError::MimeTypes(error) => error.messages(),
            DirectiveError::SshLoginMethods(error) => error.messages(),
            DirectiveError::SshSslUsers(error) => error.messages(),
            DirectiveError::AccessRulesUri(error) => error.messages(),
            DirectiveError::Pattern(error) => error.messages(),
        }
    }
}

/// A registry once the directives of a gateway are entered.
pub open spec fn with_gateway_directives(registry: RegistryView) -> RegistryView {
    stun::registered(
        proxy::registered(
            location::registered(server::registered(pishoo::registered(registry))),
        ),
    )
}

/// Enters the directives of a gateway.
pub fn register_gateway_directives(registry: &mut ConfigRegistry)
    ensures
        final(registry)@ == with_gateway_directives(old(registry)@),
{
    pishoo::register(registry);
    server::register(registry);
    location::register(registry);
    proxy::register(registry);
    stun::register(registry);
}

/// A registry that knows the directives of a gateway.
pub fn default_registry() -> (registry: ConfigRegistry)
    ensures
        exists|identity: u64|
            registry@ == with_gateway_directives(#[trigger] RegistryView::empty(identity)),
{
    let mut registry = ConfigRegistry::new();
    assert(registry@ == RegistryView::empty(registry@.contract.identity));
    register_gateway_directives(&mut registry);
    registry
}

/// The names of the directives of a `pishoo` block are all different.
proof fn lemma_names_differ()
    ensures
        forall|i: int, j: int|
            0 <= i < j < 8 ==> (#[trigger] v1_directives()[i]).name != (
            #[trigger] v1_directives()[j]).name,
        forall|i: int|
            0 <= i < 8 ==> {
                let name = (#[trigger] v1_directives()[i]).name;
                &&& name != reserved_name()
                &&& name != "server"@
                &&& name != "proxy"@
            },
        reserved_name() != "pid"@,
        reserved_name() != "workers"@,
        reserved_name() != "groups"@,
        reserved_name() != "server"@,
        reserved_name() != "proxy"@,
{
    reveal_strlit("access_rules");
    reveal_strlit("gzip");
    reveal_strlit("gzip_vary");
    reveal_strlit("gzip_min_length");
    reveal_strlit("gzip_comp_level");
    reveal_strlit("gzip_types");
    reveal_strlit("default_type");
    reveal_strlit("types");
    reveal_strlit("access_log");
    reveal_strlit("pid");
    reveal_strlit("workers");
    reveal_strlit("groups");
    reveal_strlit("server");
    reveal_strlit("proxy");
    assert("access_rules"@[0] != "default_type"@[0]);
    assert("gzip_min_length"@[5] != "gzip_comp_level"@[5]);
    assert("gzip_types"@[0] != "access_log"@[0]);
    assert("types"@[0] != "proxy"@[0]);
    assert(v1_directives()[0].name == "access_rules"@);
    assert(v1_directives()[1].name == "gzip"@);
    assert(v1_directives()[2].name == "gzip_vary"@);
    assert(v1_directives()[3].name == "gzip_min_length"@);
    assert(v1_directives()[4].name == "gzip_comp_level"@);
    assert(v1_directives()[5].name == "gzip_types"@);
    assert(v1_directives()[6].name == "default_type"@);
    assert(v1_directives()[7].name == "types"@);
    assert forall|i: int, j: int| 0 <= i < j < 8 implies (#[trigger] v1_directives()[i]).name != (
    #[trigger] v1_directives()[j]).name by {
        assert(i == 0 || i == 1 || i == 2 || i == 3 || i == 4 || i == 5 || i == 6);
        assert(j == 1 || j == 2 || j == 3 || j == 4 || j == 5 || j == 6 || j == 7);
    }
    assert forall|i: int| 0 <= i < 8 implies {
        let name = (#[trigger] v1_directives()[i]).name;
        &&& name != reserved_name()
        &&& name != "server"@
        &&& name != "proxy"@
    } by {
        assert(i == 0 || i == 1 || i == 2 || i == 3 || i == 4 || i == 5 || i == 6 || i == 7);
    }
}

/// Entering the directives of servers changes one directive of `pishoo` blocks.
proof fn lemma_server_block(registry: RegistryView, name: Seq<char>)
    ensures
        server::registered(registry).directive(PISHOO@, name) == (if name == "server"@ {
            Some(server::server_block(PISHOO@))
        } else {
            registry.directive(PISHOO@, name)
        }),
{
    contexts_differ();
}

/// Entering the directives of locations changes no directive of `pishoo` blocks.
proof fn lemma_location_block(registry: RegistryView, name: Seq<char>)
    ensures
        location::registered(registry).directive(PISHOO@, name) == registry.directive(
            PISHOO@,
            name,
        ),
{
    contexts_differ();
}

/// Entering the directives of proxies changes one directive of `pishoo` blocks.
proof fn lemma_proxy_block(registry: RegistryView, name: Seq<char>)
    ensures
        proxy::registered(registry).directive(PISHOO@, name) == (if name == "proxy"@ {
            Some(proxy::proxy_block(PISHOO@))
        } else {
            registry.directive(PISHOO@, name)
        }),
{
    contexts_differ();
}

/// The directives of `pishoo` blocks once those of a gateway are entered.
proof fn lemma_gateway_blocks(registry: RegistryView, name: Seq<char>)
    ensures
        with_gateway_directives(registry).directive(PISHOO@, name) == (if name == "proxy"@ {
            Some(proxy::proxy_block(PISHOO@))
        } else if name == "server"@ {
            Some(server::server_block(PISHOO@))
        } else {
            pishoo::registered(registry).directive(PISHOO@, name)
        }),
{
    contexts_differ();
    let first = pishoo::registered(registry);
    let second = server::registered(first);
    let third = location::registered(second);
    let fourth = proxy::registered(third);
    lemma_server_block(first, name);
    lemma_location_block(second, name);
    lemma_proxy_block(third, name);
    assert(stun::registered(fourth).directive(PISHOO@, name) == fourth.directive(PISHOO@, name));
}

/// A registry that knew no directives of `pishoo` blocks serves the snapshot of the root once the
/// directives of a gateway are entered.
pub proof fn gateway_registry_serves_snapshot(registry: RegistryView)
    requires
        forall|name: Seq<char>| #[trigger] registry.directive(PISHOO@, name) is None,
    ensures
        validates(with_gateway_directives(registry), Ok(())),
{
    let full = with_gateway_directives(registry);
    let first = pishoo::registered(registry);
    lemma_names_differ();
    contexts_differ();
    assert forall|i: int| 0 <= i < v1_directives().len() implies conforms(
        full,
        #[trigger] v1_directives()[i],
    ) by {
        let name = v1_directives()[i].name;
        lemma_gateway_blocks(registry, name);
        assert(first.directive(PISHOO@, name) == Some(v1_directives()[i]));
    }
    assert forall|name: Seq<char>| !(#[trigger] is_extra(full, name)) by {
        lemma_gateway_blocks(registry, name);
        assert(registry.directive(PISHOO@, name) is None);
        if !is_v1_name(name) {
            assert(forall|i: int| 0 <= i < 8 ==> (#[trigger] v1_directives()[i]).name != name);
        }
    }
    lemma_gateway_blocks(registry, reserved_name());
    assert(registry.directive(PISHOO@, reserved_name()) is None);
    assert(first.directive(PISHOO@, reserved_name()) is None);
}

} // verus!
