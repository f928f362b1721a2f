//! The words that the blocks of a gateway know, and what becomes of their values.
use vstd::prelude::*;

use crate::parse::builtin::{location, pishoo, proxy, server, stun, with_gateway_directives};
use crate::parse::context::{contexts_differ, LOCATION, PISHOO, PROXY, ROOT, SERVER};
use crate::parse::contract::{
    CascadePolicy, DirectiveShape, DuplicatePolicy, PayloadMode, ReloadImpact, TransportPolicy,
};
use crate::parse::registry::{DirectiveParser, DirectiveView, RegistryView};
use crate::parse::schema::{v1_directives, with_v1_directives};
use crate::parse::value::ValueKind;

verus! {

/// Whether a directive gives values of the given kind, with what becomes of them.
pub open spec fn is_value_directive(
    spec: DirectiveView,
    kind: ValueKind,
    shape: DirectiveShape,
    duplicate: DuplicatePolicy,
    cascade: CascadePolicy,
    transport: TransportPolicy,
    reload: ReloadImpact,
) -> bool {
    &&& spec.parser == DirectiveParser::Slot(kind)
    &&& spec.shape == shape
    &&& spec.duplicate == duplicate
    &&& spec.cascade == cascade
    &&& spec.transport == transport
    &&& spec.reload == reload
}

/// Whether a directive opens a block of the given context, any number of times, with its arguments
/// read as the given kind, where they are read at all.
pub open spec fn is_block_directive(
    spec: DirectiveView,
    context: Seq<char>,
    kind: Option<ValueKind>,
) -> bool {
    &&& spec.shape matches DirectiveShape::ContextBlock { child_context, payload }
        && child_context.text() == context && (payload == PayloadMode::Parser) == (kind is Some)
    &&& spec.parser == (match kind {
        Some(kind) => DirectiveParser::Payload(kind),
        None => DirectiveParser::Empty,
    })
    &&& spec.duplicate == DuplicatePolicy::Append
    &&& spec.cascade == CascadePolicy::Nothing
}

proof fn lemma_pishoo_in_root(registry: RegistryView, word: Seq<char>)
    ensures
        ({
            let before = registry.directive(ROOT@, word);
            let after = pishoo::registered(registry).directive(ROOT@, word);
            &&& after matches Some(spec) ==> {
                ||| word == "pishoo"@ && is_block_directive(spec, PISHOO@, None)
                ||| after == before
            }
            &&& before is Some ==> after is Some
            &&& word == "pishoo"@ ==> after is Some
        }),
{
    contexts_differ();
}

proof fn lemma_pishoo_in_pishoo(registry: RegistryView, word: Seq<char>)
    ensures
        ({
            let before = registry.directive(PISHOO@, word);
            let after = pishoo::registered(registry).directive(PISHOO@, word);
            &&& after matches Some(spec) ==> {
                ||| word == "pid"@ && is_value_directive(spec, ValueKind::ResolvedConfigPath,
                    DirectiveShape::Leaf, DuplicatePolicy::Reject, CascadePolicy::Nothing,
                    TransportPolicy::HypervisorOnly, ReloadImpact::Supervisor)
                ||| (word == "workers"@ || word == "groups"@)
                    && is_value_directive(spec, ValueKind::StringList, DirectiveShape::Leaf,
                    DuplicatePolicy::Reject, CascadePolicy::Nothing,
                    TransportPolicy::HypervisorOnly, ReloadImpact::Supervisor)
                ||| word == "access_rules"@ && is_value_directive(spec,
                    ValueKind::AccessRulesUri, DirectiveShape::Leaf, DuplicatePolicy::Reject,
                    CascadePolicy::NearestWins, TransportPolicy::WorkerInheritable,
                    ReloadImpact::RuntimeState)
                ||| (word == "gzip"@ || word == "gzip_vary"@)
                    && is_value_directive(spec, ValueKind::BoolConfig, DirectiveShape::Leaf,
                    DuplicatePolicy::Reject, CascadePolicy::NearestWins,
                    TransportPolicy::WorkerInheritable, ReloadImpact::RuntimeState)
                ||| word == "gzip_min_length"@ && is_value_directive(spec,
                    ValueKind::GzipMinLength, DirectiveShape::Leaf, DuplicatePolicy::Reject,
                    CascadePolicy::NearestWins, TransportPolicy::WorkerInheritable,
                    ReloadImpact::RuntimeState)
                ||| word == "gzip_comp_level"@ && is_value_directive(spec,
                    ValueKind::GzipCompLevel, DirectiveShape::Leaf, DuplicatePolicy::Reject,
                    CascadePolicy::NearestWins, TransportPolicy::WorkerInheritable,
                    ReloadImpact::RuntimeState)
                ||| word == "gzip_types"@ && is_value_directive(spec, ValueKind::StringList,
                    DirectiveShape::Leaf, DuplicatePolicy::Reject, CascadePolicy::NearestWins,
                    TransportPolicy::WorkerInheritable, ReloadImpact::RuntimeState)
                ||| word == "default_type"@ && is_value_directive(spec, ValueKind::DefaultType,
                    DirectiveShape::Leaf, DuplicatePolicy::Reject, CascadePolicy::NearestWins,
                    TransportPolicy::WorkerInheritable, ReloadImpact::RuntimeState)
                ||| word == "types"@ && is_value_directive(spec, ValueKind::MimeTypes,
                    DirectiveShape::RawBlock, DuplicatePolicy::Reject,
                    CascadePolicy::ReplaceWhole, TransportPolicy::WorkerInheritable,
                    ReloadImpact::RuntimeState)
                ||| after == before
            }
            &&& before is Some ==> after is Some
            &&& word == "pid"@ ==> after is Some
            &&& word == "workers"@ ==> after is Some
            &&& word == "groups"@ ==> after is Some
            &&& word == "access_rules"@ ==> after is Some
            &&& word == "gzip"@ ==> after is Some
            &&& word == "gzip_vary"@ ==> after is Some
            &&& word == "gzip_min_length"@ ==> after is Some
            &&& word == "gzip_comp_level"@ ==> after is Some
            &&& word == "gzip_types"@ ==> after is Some
            &&& word == "default_type"@ ==> after is Some
            &&& word == "types"@ ==> after is Some
        }),
{
    contexts_differ();
    let start = registry.with_context(PISHOO@, None).with_directive(ROOT@,
        pishoo::pishoo_block(ROOT@)).with_directive(PISHOO@,
        pishoo::pid_directive()).with_directive(PISHOO@,
        pishoo::workers_directive()).with_directive(PISHOO@, pishoo::groups_directive());
    assert(pishoo::registered(registry) == with_v1_directives(start));
    assert(v1_directives()[0].name == "access_rules"@);
    assert(v1_directives()[1].name == "gzip"@);
    assert(v1_directives()[2].name == "gzip_vary"@);
    assert(v1_directives()[3].name == "gzip_min_length"@);
    assert(v1_directives()[4].name == "gzip_comp_level"@);
    assert(v1_directives()[5].name == "gzip_types"@);
    assert(v1_directives()[6].name == "default_type"@);
    assert(v1_directives()[7].name == "types"@);
}

proof fn lemma_pishoo_in_server(registry: RegistryView, word: Seq<char>)
    ensures
        ({
            let before = registry.directive(SERVER@, word);
            let after = pishoo::registered(registry).directive(SERVER@, word);
            after == before
        }),
{
    contexts_differ();
}

proof fn lemma_pishoo_in_location(registry: RegistryView, word: Seq<char>)
    ensures
        ({
            let before = registry.directive(LOCATION@, word);
            let after = pishoo::registered(registry).directive(LOCATION@, word);
            after == before
        }),
{
    contexts_differ();
}

proof fn lemma_pishoo_in_proxy(registry: RegistryView, word: Seq<char>)
    ensures
        ({
            let before = registry.directive(PROXY@, word);
            let after = pishoo::registered(registry).directive(PROXY@, word);
            after == before
        }),
{
    contexts_differ();
}

proof fn lemma_server_in_root(registry: RegistryView, word: Seq<char>)
    ensures
        ({
            let before = registry.directive(ROOT@, word);
            let after = server::registered(registry).directive(ROOT@, word);
            &&& after matches Some(spec) ==> {
                ||| word == "server"@ && is_block_directive(spec, SERVER@, None)
                ||| after == before
            }
            &&& before is Some ==> after is Some
            &&& word == "server"@ ==> after is Some
        }),
{
    contexts_differ();
}

proof fn lemma_server_in_pishoo(registry: RegistryView, word: Seq<char>)
    ensures
        ({
            let before = registry.directive(PISHOO@, word);
            let after = server::registered(registry).directive(PISHOO@, word);
            &&& after matches Some(spec) ==> {
                ||| word == "server"@ && is_block_directive(spec, SERVER@, None)
                ||| after == before
            }
            &&& before is Some ==> after is Some
            &&& word == "server"@ ==> after is Some
        }),
{
    contexts_differ();
}

proof fn lemma_server_in_server(registry: RegistryView, word: Seq<char>)
    ensures
        ({
            let before = registry.directive(SERVER@, word);
            let after = server::registered(registry).directive(SERVER@, word);
            &&& after matches Some(spec) ==> {
                ||| word == "listen"@ && is_value_directive(spec, ValueKind::ListenConfig,
                    DirectiveShape::Leaf, DuplicatePolicy::Append, CascadePolicy::NearestWins,
                    TransportPolicy::WorkerLocalOnly, ReloadImpact::ListenerSet)
                ||| word == "server_name"@ && is_value_directive(spec, ValueKind::ServerNames,
                    DirectiveShape::Leaf, DuplicatePolicy::Reject, CascadePolicy::NearestWins,
                    TransportPolicy::WorkerLocalOnly, ReloadImpact::ListenerSet)
                ||| word == "dns"@ && is_value_directive(spec, ValueKind::ResolverConfig,
                    DirectiveShape::Leaf, DuplicatePolicy::Reject, CascadePolicy::NearestWins,
                    TransportPolicy::WorkerLocalOnly, ReloadImpact::ListenerSet)
                ||| (word == "gzip"@ || word == "gzip_vary"@ || word == "relay"@
                    || word == "stun"@) && is_value_directive(spec, ValueKind::BoolConfig,
                    DirectiveShape::Leaf, DuplicatePolicy::Reject, CascadePolicy::NearestWins,
                    TransportPolicy::WorkerLocalOnly, ReloadImpact::RuntimeState)
                ||| word == "gzip_min_length"@ && is_value_directive(spec,
                    ValueKind::GzipMinLength, DirectiveShape::Leaf, DuplicatePolicy::Reject,
                    CascadePolicy::NearestWins, TransportPolicy::WorkerLocalOnly,
                    ReloadImpact::RuntimeState)
                ||| word == "gzip_comp_level"@ && is_value_directive(spec,
                    ValueKind::GzipCompLevel, DirectiveShape::Leaf, DuplicatePolicy::Reject,
                    CascadePolicy::NearestWins, TransportPolicy::WorkerLocalOnly,
                    ReloadImpact::RuntimeState)
                ||| word == "gzip_types"@ && is_value_directive(spec, ValueKind::StringList,
                    DirectiveShape::Leaf, DuplicatePolicy::Reject, CascadePolicy::NearestWins,
                    TransportPolicy::WorkerLocalOnly, ReloadImpact::RuntimeState)
                ||| (word == "ssl_certificate"@ || word == "ssl_certificate_key"@)
                    && is_value_directive(spec, ValueKind::ResolvedConfigPath,
                    DirectiveShape::Leaf, DuplicatePolicy::Reject, CascadePolicy::NearestWins,
                    TransportPolicy::WorkerLocalOnly, ReloadImpact::ListenerSet)
                ||| word == "default_type"@ && is_value_directive(spec, ValueKind::DefaultType,
                    DirectiveShape::Leaf, DuplicatePolicy::Reject, CascadePolicy::NearestWins,
                    TransportPolicy::WorkerLocalOnly, ReloadImpact::RuntimeState)
                ||| word == "access_rules"@ && is_value_directive(spec,
                    ValueKind::AccessRulesUri, DirectiveShape::Leaf, DuplicatePolicy::Reject,
                    CascadePolicy::NearestWins, TransportPolicy::WorkerLocalOnly,
                    ReloadImpact::RuntimeState)
                ||| word == "types"@ && is_value_directive(spec, ValueKind::MimeTypes,
                    DirectiveShape::RawBlock, DuplicatePolicy::Reject,
                    CascadePolicy::ReplaceWhole, TransportPolicy::WorkerLocalOnly,
                    ReloadImpact::RuntimeState)
                ||| after == before
            }
            &&& before is Some ==> after is Some
            &&& word == "listen"@ ==> after is Some
            &&& word == "server_name"@ ==> after is Some
            &&& word == "dns"@ ==> after is Some
            &&& word == "gzip"@ ==> after is Some
            &&& word == "gzip_vary"@ ==> after is Some
            &&& word == "gzip_min_length"@ ==> after is Some
            &&& word == "gzip_comp_level"@ ==> after is Some
            &&& word == "gzip_types"@ ==> after is Some
            &&& word == "ssl_certificate"@ ==> after is Some
            &&& word == "ssl_certificate_key"@ ==> after is Some
            &&& word == "default_type"@ ==> after is Some
            &&& word == "access_rules"@ ==> after is Some
            &&& word == "relay"@ ==> after is Some
            &&& word == "stun"@ ==> after is Some
            &&& word == "types"@ ==> after is Some
        }),
{
    contexts_differ();
}

proof fn lemma_server_in_location(registry: RegistryView, word: Seq<char>)
    ensures
        ({
            let before = registry.directive(LOCATION@, word);
            let after = server::registered(registry).directive(LOCATION@, word);
            after == before
        }),
{
    contexts_differ();
}

proof fn lemma_server_in_proxy(registry: RegistryView, word: Seq<char>)
    ensures
        ({
            let before = registry.directive(PROXY@, word);
            let after = server::registered(registry).directive(PROXY@, word);
            after == before
        }),
{
    contexts_differ();
}

proof fn lemma_location_in_root(registry: RegistryView, word: Seq<char>)
    ensures
        ({
            let before = registry.directive(ROOT@, word);
            let after = location::registered(registry).directive(ROOT@, word);
            after == before
        }),
{
    contexts_differ();
}

proof fn lemma_location_in_pishoo(registry: RegistryView, word: Seq<char>)
    ensures
        ({
            let before = registry.directive(PISHOO@, word);
            let after = location::registered(registry).directive(PISHOO@, word);
            after == before
        }),
{
    contexts_differ();
}

proof fn lemma_location_in_server(registry: RegistryView, word: Seq<char>)
    ensures
        ({
            let before = registry.directive(SERVER@, word);
            let after = location::registered(registry).directive(SERVER@, word);
            &&& after matches Some(spec) ==> {
                ||| word == "location"@ && is_block_directive(spec, LOCATION@,
                    Some(ValueKind::Pattern))
                ||| after == before
            }
            &&& before is Some ==> after is Some
            &&& word == "location"@ ==> after is Some
        }),
{
    contexts_differ();
}

proof fn lemma_location_in_location(registry: RegistryView, word: Seq<char>)
    ensures
        ({
            let before = registry.directive(LOCATION@, word);
            let after = location::registered(registry).directive(LOCATION@, word);
            &&& after matches Some(spec) ==> {
                ||| (word == "root"@ || word == "alias"@ || word == "proxy_ssl_certificate"@
                    || word == "proxy_ssl_certificate_key"@
                    || word == "proxy_ssl_trusted_certificate"@)
                    && is_value_directive(spec, ValueKind::ResolvedConfigPath,
                    DirectiveShape::Leaf, DuplicatePolicy::Reject, CascadePolicy::NearestWins,
                    TransportPolicy::WorkerLocalOnly, ReloadImpact::RuntimeState)
                ||| (word == "gzip"@ || word == "gzip_vary"@)
                    && is_value_directive(spec, ValueKind::BoolConfig, DirectiveShape::Leaf,
                    DuplicatePolicy::Reject, CascadePolicy::NearestWins,
                    TransportPolicy::WorkerLocalOnly, ReloadImpact::RuntimeState)
                ||| word == "gzip_min_length"@ && is_value_directive(spec,
                    ValueKind::GzipMinLength, DirectiveShape::Leaf, DuplicatePolicy::Reject,
                    CascadePolicy::NearestWins, TransportPolicy::WorkerLocalOnly,
                    ReloadImpact::RuntimeState)
                ||| word == "gzip_comp_level"@ && is_value_directive(spec,
                    ValueKind::GzipCompLevel, DirectiveShape::Leaf, DuplicatePolicy::Reject,
                    CascadePolicy::NearestWins, TransportPolicy::WorkerLocalOnly,
                    ReloadImpact::RuntimeState)
                ||| (word == "gzip_types"@ || word == "index"@ || word == "ssh_deny"@)
                    && is_value_directive(spec, ValueKind::StringList, DirectiveShape::Leaf,
                    DuplicatePolicy::Reject, CascadePolicy::NearestWins,
                    TransportPolicy::WorkerLocalOnly, ReloadImpact::RuntimeState)
                ||| (word == "add_header"@ || word == "proxy_set_header"@)
                    && is_value_directive(spec, ValueKind::HeaderRules, DirectiveShape::Leaf,
                    DuplicatePolicy::Append, CascadePolicy::NearestWins,
                    TransportPolicy::WorkerLocalOnly, ReloadImpact::RuntimeState)
                ||| word == "proxy_pass"@ && is_value_directive(spec, ValueKind::ProxyPass,
                    DirectiveShape::Leaf, DuplicatePolicy::Reject, CascadePolicy::NearestWins,
                    TransportPolicy::WorkerLocalOnly, ReloadImpact::RuntimeState)
                ||| word == "ssh_login"@ && is_value_directive(spec,
                    ValueKind::SshLoginMethods, DirectiveShape::Leaf, DuplicatePolicy::Reject,
                    CascadePolicy::NearestWins, TransportPolicy::WorkerLocalOnly,
                    ReloadImpact::RuntimeState)
                ||| word == "ssh_ssl_user"@ && is_value_directive(spec, ValueKind::SshSslUsers,
                    DirectiveShape::Leaf, DuplicatePolicy::Append, CascadePolicy::NearestWins,
                    TransportPolicy::WorkerLocalOnly, ReloadImpact::RuntimeState)
                ||| word == "default_type"@ && is_value_directive(spec, ValueKind::DefaultType,
                    DirectiveShape::Leaf, DuplicatePolicy::Reject, CascadePolicy::NearestWins,
                    TransportPolicy::WorkerLocalOnly, ReloadImpact::RuntimeState)
                ||| word == "types"@ && is_value_directive(spec, ValueKind::MimeTypes,
                    DirectiveShape::RawBlock, DuplicatePolicy::Reject,
                    CascadePolicy::ReplaceWhole, TransportPolicy::WorkerLocalOnly,
                    ReloadImpact::RuntimeState)
                ||| after == before
            }
            &&& before is Some ==> after is Some
            &&& word == "root"@ ==> after is Some
            &&& word == "alias"@ ==> after is Some
            &&& word == "gzip"@ ==> after is Some
            &&& word == "gzip_vary"@ ==> after is Some
            &&& word == "gzip_min_length"@ ==> after is Some
            &&& word == "gzip_comp_level"@ ==> after is Some
            &&& word == "gzip_types"@ ==> after is Some
            &&& word == "index"@ ==> after is Some
            &&& word == "add_header"@ ==> after is Some
            &&& word == "proxy_set_header"@ ==> after is Some
            &&& word == "proxy_pass"@ ==> after is Some
            &&& word == "proxy_ssl_certificate"@ ==> after is Some
            &&& word == "proxy_ssl_certificate_key"@ ==> after is Some
            &&& word == "proxy_ssl_trusted_certificate"@ ==> after is Some
            &&& word == "ssh_login"@ ==> after is Some
            &&& word == "ssh_ssl_user"@ ==> after is Some
            &&& word == "ssh_deny"@ ==> after is Some
            &&& word == "default_type"@ ==> after is Some
            &&& word == "types"@ ==> after is Some
        }),
{
    contexts_differ();
}

proof fn lemma_location_in_proxy(registry: RegistryView, word: Seq<char>)
    ensures
        ({
            let before = registry.directive(PROXY@, word);
            let after = location::registered(registry).directive(PROXY@, word);
            after == before
        }),
{
    contexts_differ();
}

proof fn lemma_proxy_in_root(registry: RegistryView, word: Seq<char>)
    ensures
        ({
            let before = registry.directive(ROOT@, word);
            let after = proxy::registered(registry).directive(ROOT@, word);
            after == before
        }),
{
    contexts_differ();
}

proof fn lemma_proxy_in_pishoo(registry: RegistryView, word: Seq<char>)
    ensures
        ({
            let before = registry.directive(PISHOO@, word);
            let after = proxy::registered(registry).directive(PISHOO@, word);
            &&& after matches Some(spec) ==> {
                ||| word == "proxy"@ && is_block_directive(spec, PROXY@, None)
                ||| after == before
            }
            &&& before is Some ==> after is Some
            &&& word == "proxy"@ ==> after is Some
        }),
{
    contexts_differ();
}

proof fn lemma_proxy_in_server(registry: RegistryView, word: Seq<char>)
    ensures
        ({
            let before = registry.directive(SERVER@, word);
            let after = proxy::registered(registry).directive(SERVER@, word);
            after == before
        }),
{
    contexts_differ();
}

proof fn lemma_proxy_in_location(registry: RegistryView, word: Seq<char>)
    ensures
        ({
            let before = registry.directive(LOCATION@, word);
            let after = proxy::registered(registry).directive(LOCATION@, word);
            after == before
        }),
{
    contexts_differ();
}

proof fn lemma_proxy_in_proxy(registry: RegistryView, word: Seq<char>)
    ensures
        ({
            let before = registry.directive(PROXY@, word);
            let after = proxy::registered(registry).directive(PROXY@, word);
            &&& after matches Some(spec) ==> {
                ||| word == "listen"@ && is_value_directive(spec, ValueKind::SocketAddrs,
                    DirectiveShape::Leaf, DuplicatePolicy::Reject, CascadePolicy::Nothing,
                    TransportPolicy::WorkerLocalOnly, ReloadImpact::ListenerSet)
                ||| word == "client_name"@ && is_value_directive(spec,
                    ValueKind::ClientNameConfig, DirectiveShape::Leaf, DuplicatePolicy::Reject,
                    CascadePolicy::Nothing, TransportPolicy::WorkerLocalOnly,
                    ReloadImpact::ListenerSet)
                ||| word == "dns"@ && is_value_directive(spec, ValueKind::ResolverConfig,
                    DirectiveShape::Leaf, DuplicatePolicy::Reject, CascadePolicy::Nothing,
                    TransportPolicy::WorkerLocalOnly, ReloadImpact::ListenerSet)
                ||| (word == "ssl_certificate"@ || word == "ssl_certificate_key"@)
                    && is_value_directive(spec, ValueKind::PathConfig, DirectiveShape::Leaf,
                    DuplicatePolicy::Reject, CascadePolicy::Nothing,
                    TransportPolicy::WorkerLocalOnly, ReloadImpact::ListenerSet)
                ||| (word == "allow"@ || word == "deny"@) && is_value_directive(spec,
                    ValueKind::StringList, DirectiveShape::Leaf, DuplicatePolicy::Reject,
                    CascadePolicy::Nothing, TransportPolicy::WorkerLocalOnly,
                    ReloadImpact::ListenerSet)
                ||| word == "default_type"@ && is_value_directive(spec, ValueKind::DefaultType,
                    DirectiveShape::Leaf, DuplicatePolicy::Reject, CascadePolicy::Nothing,
                    TransportPolicy::WorkerLocalOnly, ReloadImpact::ListenerSet)
                ||| word == "types"@ && is_value_directive(spec, ValueKind::MimeTypes,
                    DirectiveShape::RawBlock, DuplicatePolicy::Reject, CascadePolicy::Nothing,
                    TransportPolicy::WorkerLocalOnly, ReloadImpact::ListenerSet)
                ||| after == before
            }
            &&& before is Some ==> after is Some
            &&& word == "listen"@ ==> after is Some
            &&& word == "client_name"@ ==> after is Some
            &&& word == "dns"@ ==> after is Some
            &&& word == "ssl_certificate"@ ==> after is Some
            &&& word == "ssl_certificate_key"@ ==> after is Some
            &&& word == "allow"@ ==> after is Some
            &&& word == "deny"@ ==> after is Some
            &&& word == "default_type"@ ==> after is Some
            &&& word == "types"@ ==> after is Some
        }),
{
    contexts_differ();
}

proof fn lemma_stun_in_root(registry: RegistryView, word: Seq<char>)
    ensures
        ({
            let before = registry.directive(ROOT@, word);
            let after = stun::registered(registry).directive(ROOT@, word);
            after == before
        }),
{
    contexts_differ();
}

proof fn lemma_stun_in_pishoo(registry: RegistryView, word: Seq<char>)
    ensures
        ({
            let before = registry.directive(PISHOO@, word);
            let after = stun::registered(registry).directive(PISHOO@, word);
            after == before
        }),
{
    contexts_differ();
}

proof fn lemma_stun_in_server(registry: RegistryView, word: Seq<char>)
    ensures
        ({
            let before = registry.directive(SERVER@, word);
            let after = stun::registered(registry).directive(SERVER@, word);
            &&& after matches Some(spec) ==> {
                ||| word == "stun_server"@ && is_value_directive(spec,
                    ValueKind::StunServerConfigValue, DirectiveShape::RawBlock,
                    DuplicatePolicy::Append, CascadePolicy::Nothing,
                    TransportPolicy::WorkerLocalOnly, ReloadImpact::ListenerSet)
                ||| after == before
            }
            &&& before is Some ==> after is Some
            &&& word == "stun_server"@ ==> after is Some
        }),
{
    contexts_differ();
}

proof fn lemma_stun_in_location(registry: RegistryView, word: Seq<char>)
    ensures
        ({
            let before = registry.directive(LOCATION@, word);
            let after = stun::registered(registry).directive(LOCATION@, word);
            after == before
        }),
{
    contexts_differ();
}

proof fn lemma_stun_in_proxy(registry: RegistryView, word: Seq<char>)
    ensures
        ({
            let before = registry.directive(PROXY@, word);
            let after = stun::registered(registry).directive(PROXY@, word);
            after == before
        }),
{
    contexts_differ();
}

/// A whole configuration knows these words and no others, each with the values that it gives and what becomes of
/// them.
pub proof fn configurations_know_these_words(identity: u64, word: Seq<char>)
    ensures
        ({
            let found = with_gateway_directives(RegistryView::empty(identity)).directive(
                seq!['g', 'a', 't', 'e', 'w', 'a', 'y', '.', 'r', 'o', 'o', 't'],
                word,
            );
            &&& found matches Some(spec) ==> {
                ||| word == seq!['p', 'i', 's', 'h', 'o', 'o']
                    && is_block_directive(spec, seq!['g', 'a', 't', 'e', 'w', 'a', 'y', '.', 'p',
                    'i', 's', 'h', 'o', 'o'], None)
                ||| word == seq!['s', 'e', 'r', 'v', 'e', 'r']
                    && is_block_directive(spec, seq!['g', 'a', 't', 'e', 'w', 'a', 'y', '.', 's',
                    'e', 'r', 'v', 'e', 'r'], None)
            }
            &&& word == seq!['p', 'i', 's', 'h', 'o', 'o'] ==> found is Some
            &&& word == seq!['s', 'e', 'r', 'v', 'e', 'r'] ==> found is Some
        }),
{
    contexts_differ();
    reveal_strlit("gateway.root");
    assert("gateway.root"@ =~= seq!['g', 'a', 't', 'e', 'w', 'a', 'y', '.', 'r', 'o', 'o', 't']);
    reveal_strlit("gateway.pishoo");
    assert("gateway.pishoo"@ =~= seq!['g', 'a', 't', 'e', 'w', 'a', 'y', '.', 'p', 'i', 's', 'h',
        'o', 'o']);
    reveal_strlit("gateway.server");
    assert("gateway.server"@ =~= seq!['g', 'a', 't', 'e', 'w', 'a', 'y', '.', 's', 'e', 'r', 'v',
        'e', 'r']);
    reveal_strlit("gateway.location");
    assert("gateway.location"@ =~= seq!['g', 'a', 't', 'e', 'w', 'a', 'y', '.', 'l', 'o', 'c',
        'a', 't', 'i', 'o', 'n']);
    reveal_strlit("gateway.proxy");
    assert("gateway.proxy"@ =~= seq!['g', 'a', 't', 'e', 'w', 'a', 'y', '.', 'p', 'r', 'o', 'x',
        'y']);
    reveal_strlit("pishoo");
    assert("pishoo"@ =~= seq!['p', 'i', 's', 'h', 'o', 'o']);
    reveal_strlit("server");
    assert("server"@ =~= seq!['s', 'e', 'r', 'v', 'e', 'r']);
    let zero = RegistryView::empty(identity);
    let pishoo_known = pishoo::registered(zero);
    lemma_pishoo_in_root(zero, word);
    let server_known = server::registered(pishoo_known);
    lemma_server_in_root(pishoo_known, word);
    let location_known = location::registered(server_known);
    lemma_location_in_root(server_known, word);
    let proxy_known = proxy::registered(location_known);
    lemma_proxy_in_root(location_known, word);
    let stun_known = stun::registered(proxy_known);
    lemma_stun_in_root(proxy_known, word);
    assert(with_gateway_directives(zero) == stun_known);
    assert(zero.directive(ROOT@, word) is None);
}

/// A `pishoo` block knows these words and no others, each with the values that it gives and what becomes of
/// them.
pub proof fn pishoo_blocks_know_these_words(identity: u64, word: Seq<char>)
    ensures
        ({
            let found = with_gateway_directives(RegistryView::empty(identity)).directive(
                seq!['g', 'a', 't', 'e', 'w', 'a', 'y', '.', 'p', 'i', 's', 'h', 'o', 'o'],
                word,
            );
            &&& found matches Some(spec) ==> {
                ||| (word == seq!['p', 'i', 'd']) && is_value_directive(spec,
                    ValueKind::ResolvedConfigPath, DirectiveShape::Leaf, DuplicatePolicy::Reject,
                    CascadePolicy::Nothing, TransportPolicy::HypervisorOnly,
                    ReloadImpact::Supervisor)
                ||| (word == seq!['w', 'o', 'r', 'k', 'e', 'r', 's']
                    || word == seq!['g', 'r', 'o', 'u', 'p', 's'])
                    && is_value_directive(spec, ValueKind::StringList, DirectiveShape::Leaf,
                    DuplicatePolicy::Reject, CascadePolicy::Nothing,
                    TransportPolicy::HypervisorOnly, ReloadImpact::Supervisor)
                ||| (word == seq!['a', 'c', 'c', 'e', 's', 's', '_', 'r', 'u', 'l', 'e', 's'])
                    && is_value_directive(spec, ValueKind::AccessRulesUri, DirectiveShape::Leaf,
                    DuplicatePolicy::Reject, CascadePolicy::NearestWins,
                    TransportPolicy::WorkerInheritable, ReloadImpact::RuntimeState)
                ||| (word == seq!['g', 'z', 'i', 'p'] || word == seq!['g', 'z', 'i', 'p', '_',
                    'v', 'a', 'r', 'y']) && is_value_directive(spec, ValueKind::BoolConfig,
                    DirectiveShape::Leaf, DuplicatePolicy::Reject, CascadePolicy::NearestWins,
                    TransportPolicy::WorkerInheritable, ReloadImpact::RuntimeState)
                ||| (word == seq!['g', 'z', 'i', 'p', '_', 'm', 'i', 'n', '_', 'l', 'e', 'n',
                    'g', 't', 'h']) && is_value_directive(spec, ValueKind::GzipMinLength,
                    DirectiveShape::Leaf, DuplicatePolicy::Reject, CascadePolicy::NearestWins,
                    TransportPolicy::WorkerInheritable, ReloadImpact::RuntimeState)
                ||| (word == seq!['g', 'z', 'i', 'p', '_', 'c', 'o', 'm', 'p', '_', 'l', 'e',
                    'v', 'e', 'l']) && is_value_directive(spec, ValueKind::GzipCompLevel,
                    DirectiveShape::Leaf, DuplicatePolicy::Reject, CascadePolicy::NearestWins,
                    TransportPolicy::WorkerInheritable, ReloadImpact::RuntimeState)
                ||| (word == seq!['g', 'z', 'i', 'p', '_', 't', 'y', 'p', 'e', 's'])
                    && is_value_directive(spec, ValueKind::StringList, DirectiveShape::Leaf,
                    DuplicatePolicy::Reject, CascadePolicy::NearestWins,
                    TransportPolicy::WorkerInheritable, ReloadImpact::RuntimeState)
                ||| (word == seq!['d', 'e', 'f', 'a', 'u', 'l', 't', '_', 't', 'y', 'p', 'e'])
                    && is_value_directive(spec, ValueKind::DefaultType, DirectiveShape::Leaf,
                    DuplicatePolicy::Reject, CascadePolicy::NearestWins,
                    TransportPolicy::WorkerInheritable, ReloadImpact::RuntimeState)
                ||| (word == seq!['t', 'y', 'p', 'e', 's']) && is_value_directive(spec,
                    ValueKind::MimeTypes, DirectiveShape::RawBlock, DuplicatePolicy::Reject,
                    CascadePolicy::ReplaceWhole, TransportPolicy::WorkerInheritable,
                    ReloadImpact::RuntimeState)
                ||| word == seq!['s', 'e', 'r', 'v', 'e', 'r']
                    && is_block_directive(spec, seq!['g', 'a', 't', 'e', 'w', 'a', 'y', '.', 's',
                    'e', 'r', 'v', 'e', 'r'], None)
                ||| word == seq!['p', 'r', 'o', 'x', 'y'] && is_block_directive(spec, seq!['g',
                    'a', 't', 'e', 'w', 'a', 'y', '.', 'p', 'r', 'o', 'x', 'y'], None)
            }
            &&& word == seq!['p', 'i', 'd'] ==> found is Some
            &&& word == seq!['w', 'o', 'r', 'k', 'e', 'r', 's'] ==> found is Some
            &&& word == seq!['g', 'r', 'o', 'u', 'p', 's'] ==> found is Some
            &&& word == seq!['a', 'c', 'c', 'e', 's', 's', '_', 'r', 'u', 'l', 'e', 's']
                ==> found is Some
            &&& word == seq!['g', 'z', 'i', 'p'] ==> found is Some
            &&& word == seq!['g', 'z', 'i', 'p', '_', 'v', 'a', 'r', 'y'] ==> found is Some
            &&& word == seq!['g', 'z', 'i', 'p', '_', 'm', 'i', 'n', '_', 'l', 'e', 'n', 'g',
                't', 'h'] ==> found is Some
            &&& word == seq!['g', 'z', 'i', 'p', '_', 'c', 'o', 'm', 'p', '_', 'l', 'e', 'v',
                'e', 'l'] ==> found is Some
            &&& word == seq!['g', 'z', 'i', 'p', '_', 't', 'y', 'p', 'e', 's'] ==> found is Some
            &&& word == seq!['d', 'e', 'f', 'a', 'u', 'l', 't', '_', 't', 'y', 'p', 'e']
                ==> found is Some
            &&& word == seq!['t', 'y', 'p', 'e', 's'] ==> found is Some
            &&& word == seq!['s', 'e', 'r', 'v', 'e', 'r'] ==> found is Some
            &&& word == seq!['p', 'r', 'o', 'x', 'y'] ==> found is Some
        }),
{
    contexts_differ();
    reveal_strlit("gateway.root");
    assert("gateway.root"@ =~= seq!['g', 'a', 't', 'e', 'w', 'a', 'y', '.', 'r', 'o', 'o', 't']);
    reveal_strlit("gateway.pishoo");
    assert("gateway.pishoo"@ =~= seq!['g', 'a', 't', 'e', 'w', 'a', 'y', '.', 'p', 'i', 's', 'h',
        'o', 'o']);
    reveal_strlit("gateway.server");
    assert("gateway.server"@ =~= seq!['g', 'a', 't', 'e', 'w', 'a', 'y', '.', 's', 'e', 'r', 'v',
        'e', 'r']);
    reveal_strlit("gateway.location");
    assert("gateway.location"@ =~= seq!['g', 'a', 't', 'e', 'w', 'a', 'y', '.', 'l', 'o', 'c',
        'a', 't', 'i', 'o', 'n']);
    reveal_strlit("gateway.proxy");
    assert("gateway.proxy"@ =~= seq!['g', 'a', 't', 'e', 'w', 'a', 'y', '.', 'p', 'r', 'o', 'x',
        'y']);
    reveal_strlit("pid");
    assert("pid"@ =~= seq!['p', 'i', 'd']);
    reveal_strlit("workers");
    assert("workers"@ =~= seq!['w', 'o', 'r', 'k', 'e', 'r', 's']);
    reveal_strlit("groups");
    assert("groups"@ =~= seq!['g', 'r', 'o', 'u', 'p', 's']);
    reveal_strlit("access_rules");
    assert("access_rules"@ =~= seq!['a', 'c', 'c', 'e', 's', 's', '_', 'r', 'u', 'l', 'e', 's']);
    reveal_strlit("gzip");
    assert("gzip"@ =~= seq!['g', 'z', 'i', 'p']);
    reveal_strlit("gzip_vary");
    assert("gzip_vary"@ =~= seq!['g', 'z', 'i', 'p', '_', 'v', 'a', 'r', 'y']);
    reveal_strlit("gzip_min_length");
    assert("gzip_min_length"@ =~= seq!['g', 'z', 'i', 'p', '_', 'm', 'i', 'n', '_', 'l', 'e',
        'n', 'g', 't', 'h']);
    reveal_strlit("gzip_comp_level");
    assert("gzip_comp_level"@ =~= seq!['g', 'z', 'i', 'p', '_', 'c', 'o', 'm', 'p', '_', 'l',
        'e', 'v', 'e', 'l']);
    reveal_strlit("gzip_types");
    assert("gzip_types"@ =~= seq!['g', 'z', 'i', 'p', '_', 't', 'y', 'p', 'e', 's']);
    reveal_strlit("default_type");
    assert("default_type"@ =~= seq!['d', 'e', 'f', 'a', 'u', 'l', 't', '_', 't', 'y', 'p', 'e']);
    reveal_strlit("types");
    assert("types"@ =~= seq!['t', 'y', 'p', 'e', 's']);
    reveal_strlit("server");
    assert("server"@ =~= seq!['s', 'e', 'r', 'v', 'e', 'r']);
    reveal_strlit("proxy");
    assert("proxy"@ =~= seq!['p', 'r', 'o', 'x', 'y']);
    let zero = RegistryView::empty(identity);
    let pishoo_known = pishoo::registered(zero);
    lemma_pishoo_in_pishoo(zero, word);
    let server_known = server::registered(pishoo_known);
    lemma_server_in_pishoo(pishoo_known, word);
    let location_known = location::registered(server_known);
    lemma_location_in_pishoo(server_known, word);
    let proxy_known = proxy::registered(location_known);
    lemma_proxy_in_pishoo(location_known, word);
    let stun_known = stun::registered(proxy_known);
    lemma_stun_in_pishoo(proxy_known, word);
    assert(with_gateway_directives(zero) == stun_known);
    assert(zero.directive(PISHOO@, word) is None);
}

/// A `server` block knows these words and no others, each with the values that it gives and what becomes of
/// them.
pub proof fn server_blocks_know_these_words(identity: u64, word: Seq<char>)
    ensures
        ({
            let found = with_gateway_directives(RegistryView::empty(identity)).directive(
                seq!['g', 'a', 't', 'e', 'w', 'a', 'y', '.', 's', 'e', 'r', 'v', 'e', 'r'],
                word,
            );
            &&& found matches Some(spec) ==> {
                ||| (word == seq!['l', 'i', 's', 't', 'e', 'n'])
                    && is_value_directive(spec, ValueKind::ListenConfig, DirectiveShape::Leaf,
                    DuplicatePolicy::Append, CascadePolicy::NearestWins,
                    TransportPolicy::WorkerLocalOnly, ReloadImpact::ListenerSet)
                ||| (word == seq!['s', 'e', 'r', 'v', 'e', 'r', '_', 'n', 'a', 'm', 'e'])
                    && is_value_directive(spec, ValueKind::ServerNames, DirectiveShape::Leaf,
                    DuplicatePolicy::Reject, CascadePolicy::NearestWins,
                    TransportPolicy::WorkerLocalOnly, ReloadImpact::ListenerSet)
                ||| (word == seq!['d', 'n', 's']) && is_value_directive(spec,
                    ValueKind::ResolverConfig, DirectiveShape::Leaf, DuplicatePolicy::Reject,
                    CascadePolicy::NearestWins, TransportPolicy::WorkerLocalOnly,
                    ReloadImpact::ListenerSet)
                ||| (word == seq!['g', 'z', 'i', 'p'] || word == seq!['g', 'z', 'i', 'p', '_',
                    'v', 'a', 'r', 'y'] || word == seq!['r', 'e', 'l', 'a', 'y']
                    || word == seq!['s', 't', 'u', 'n']) && is_value_directive(spec,
                    ValueKind::BoolConfig, DirectiveShape::Leaf, DuplicatePolicy::Reject,
                    CascadePolicy::NearestWins, TransportPolicy::WorkerLocalOnly,
                    ReloadImpact::RuntimeState)
                ||| (word == seq!['g', 'z', 'i', 'p', '_', 'm', 'i', 'n', '_', 'l', 'e', 'n',
                    'g', 't', 'h']) && is_value_directive(spec, ValueKind::GzipMinLength,
                    DirectiveShape::Leaf, DuplicatePolicy::Reject, CascadePolicy::NearestWins,
                    TransportPolicy::WorkerLocalOnly, ReloadImpact::RuntimeState)
                ||| (word == seq!['g', 'z', 'i', 'p', '_', 'c', 'o', 'm', 'p', '_', 'l', 'e',
                    'v', 'e', 'l']) && is_value_directive(spec, ValueKind::GzipCompLevel,
                    DirectiveShape::Leaf, DuplicatePolicy::Reject, CascadePolicy::NearestWins,
                    TransportPolicy::WorkerLocalOnly, ReloadImpact::RuntimeState)
                ||| (word == seq!['g', 'z', 'i', 'p', '_', 't', 'y', 'p', 'e', 's'])
                    && is_value_directive(spec, ValueKind::StringList, DirectiveShape::Leaf,
                    DuplicatePolicy::Reject, CascadePolicy::NearestWins,
                    TransportPolicy::WorkerLocalOnly, ReloadImpact::RuntimeState)
                ||| (word == seq!['s', 's', 'l', '_', 'c', 'e', 'r', 't', 'i', 'f', 'i', 'c',
                    'a', 't', 'e'] || word == seq!['s', 's', 'l', '_', 'c', 'e', 'r', 't', 'i',
                    'f', 'i', 'c', 'a', 't', 'e', '_', 'k', 'e', 'y'])
                    && is_value_directive(spec, ValueKind::ResolvedConfigPath,
                    DirectiveShape::Leaf, DuplicatePolicy::Reject, CascadePolicy::NearestWins,
                    TransportPolicy::WorkerLocalOnly, ReloadImpact::ListenerSet)
                ||| (word == seq!['d', 'e', 'f', 'a', 'u', 'l', 't', '_', 't', 'y', 'p', 'e'])
                    && is_value_directive(spec, ValueKind::DefaultType, DirectiveShape::Leaf,
                    DuplicatePolicy::Reject, CascadePolicy::NearestWins,
                    TransportPolicy::WorkerLocalOnly, ReloadImpact::RuntimeState)
                ||| (word == seq!['a', 'c', 'c', 'e', 's', 's', '_', 'r', 'u', 'l', 'e', 's'])
                    && is_value_directive(spec, ValueKind::AccessRulesUri, DirectiveShape::Leaf,
                    DuplicatePolicy::Reject, CascadePolicy::NearestWins,
                    TransportPolicy::WorkerLocalOnly, ReloadImpact::RuntimeState)
                ||| (word == seq!['t', 'y', 'p', 'e', 's']) && is_value_directive(spec,
                    ValueKind::MimeTypes, DirectiveShape::RawBlock, DuplicatePolicy::Reject,
                    CascadePolicy::ReplaceWhole, TransportPolicy::WorkerLocalOnly,
                    ReloadImpact::RuntimeState)
                ||| (word == seq!['s', 't', 'u', 'n', '_', 's', 'e', 'r', 'v', 'e', 'r'])
                    && is_value_directive(spec, ValueKind::StunServerConfigValue,
                    DirectiveShape::RawBlock, DuplicatePolicy::Append, CascadePolicy::Nothing,
                    TransportPolicy::WorkerLocalOnly, ReloadImpact::ListenerSet)
                ||| word == seq!['l', 'o', 'c', 'a', 't', 'i', 'o', 'n']
                    && is_block_directive(spec, seq!['g', 'a', 't', 'e', 'w', 'a', 'y', '.', 'l',
                    'o', 'c', 'a', 't', 'i', 'o', 'n'], Some(ValueKind::Pattern))
            }
            &&& word == seq!['l', 'i', 's', 't', 'e', 'n'] ==> found is Some
            &&& word == seq!['s', 'e', 'r', 'v', 'e', 'r', '_', 'n', 'a', 'm', 'e']
                ==> found is Some
            &&& word == seq!['d', 'n', 's'] ==> found is Some
            &&& word == seq!['g', 'z', 'i', 'p'] ==> found is Some
            &&& word == seq!['g', 'z', 'i', 'p', '_', 'v', 'a', 'r', 'y'] ==> found is Some
            &&& word == seq!['g', 'z', 'i', 'p', '_', 'm', 'i', 'n', '_', 'l', 'e', 'n', 'g',
                't', 'h'] ==> found is Some
            &&& word == seq!['g', 'z', 'i', 'p', '_', 'c', 'o', 'm', 'p', '_', 'l', 'e', 'v',
                'e', 'l'] ==> found is Some
            &&& word == seq!['g', 'z', 'i', 'p', '_', 't', 'y', 'p', 'e', 's'] ==> found is Some
            &&& word == seq!['s', 's', 'l', '_', 'c', 'e', 'r', 't', 'i', 'f', 'i', 'c', 'a',
                't', 'e'] ==> found is Some
            &&& word == seq!['s', 's', 'l', '_', 'c', 'e', 'r', 't', 'i', 'f', 'i', 'c', 'a',
                't', 'e', '_', 'k', 'e', 'y'] ==> found is Some
            &&& word == seq!['d', 'e', 'f', 'a', 'u', 'l', 't', '_', 't', 'y', 'p', 'e']
                ==> found is Some
            &&& word == seq!['a', 'c', 'c', 'e', 's', 's', '_', 'r', 'u', 'l', 'e', 's']
                ==> found is Some
            &&& word == seq!['r', 'e', 'l', 'a', 'y'] ==> found is Some
            &&& word == seq!['s', 't', 'u', 'n'] ==> found is Some
            &&& word == seq!['t', 'y', 'p', 'e', 's'] ==> found is Some
            &&& word == seq!['s', 't', 'u', 'n', '_', 's', 'e', 'r', 'v', 'e', 'r']
                ==> found is Some
            &&& word == seq!['l', 'o', 'c', 'a', 't', 'i', 'o', 'n'] ==> found is Some
        }),
{
    contexts_differ();
    reveal_strlit("gateway.root");
    assert("gateway.root"@ =~= seq!['g', 'a', 't', 'e', 'w', 'a', 'y', '.', 'r', 'o', 'o', 't']);
    reveal_strlit("gateway.pishoo");
    assert("gateway.pishoo"@ =~= seq!['g', 'a', 't', 'e', 'w', 'a', 'y', '.', 'p', 'i', 's', 'h',
        'o', 'o']);
    reveal_strlit("gateway.server");
    assert("gateway.server"@ =~= seq!['g', 'a', 't', 'e', 'w', 'a', 'y', '.', 's', 'e', 'r', 'v',
        'e', 'r']);
    reveal_strlit("gateway.location");
    assert("gateway.location"@ =~= seq!['g', 'a', 't', 'e', 'w', 'a', 'y', '.', 'l', 'o', 'c',
        'a', 't', 'i', 'o', 'n']);
    reveal_strlit("gateway.proxy");
    assert("gateway.proxy"@ =~= seq!['g', 'a', 't', 'e', 'w', 'a', 'y', '.', 'p', 'r', 'o', 'x',
        'y']);
    reveal_strlit("listen");
    assert("listen"@ =~= seq!['l', 'i', 's', 't', 'e', 'n']);
    reveal_strlit("server_name");
    assert("server_name"@ =~= seq!['s', 'e', 'r', 'v', 'e', 'r', '_', 'n', 'a', 'm', 'e']);
    reveal_strlit("dns");
    assert("dns"@ =~= seq!['d', 'n', 's']);
    reveal_strlit("gzip");
    assert("gzip"@ =~= seq!['g', 'z', 'i', 'p']);
    reveal_strlit("gzip_vary");
    assert("gzip_vary"@ =~= seq!['g', 'z', 'i', 'p', '_', 'v', 'a', 'r', 'y']);
    reveal_strlit("gzip_min_length");
    assert("gzip_min_length"@ =~= seq!['g', 'z', 'i', 'p', '_', 'm', 'i', 'n', '_', 'l', 'e',
        'n', 'g', 't', 'h']);
    reveal_strlit("gzip_comp_level");
    assert("gzip_comp_level"@ =~= seq!['g', 'z', 'i', 'p', '_', 'c', 'o', 'm', 'p', '_', 'l',
        'e', 'v', 'e', 'l']);
    reveal_strlit("gzip_types");
    assert("gzip_types"@ =~= seq!['g', 'z', 'i', 'p', '_', 't', 'y', 'p', 'e', 's']);
    reveal_strlit("ssl_certificate");
    assert("ssl_certificate"@ =~= seq!['s', 's', 'l', '_', 'c', 'e', 'r', 't', 'i', 'f', 'i',
        'c', 'a', 't', 'e']);
    reveal_strlit("ssl_certificate_key");
    assert("ssl_certificate_key"@ =~= seq!['s', 's', 'l', '_', 'c', 'e', 'r', 't', 'i', 'f', 'i',
        'c', 'a', 't', 'e', '_', 'k', 'e', 'y']);
    reveal_strlit("default_type");
    assert("default_type"@ =~= seq!['d', 'e', 'f', 'a', 'u', 'l', 't', '_', 't', 'y', 'p', 'e']);
    reveal_strlit("access_rules");
    assert("access_rules"@ =~= seq!['a', 'c', 'c', 'e', 's', 's', '_', 'r', 'u', 'l', 'e', 's']);
    reveal_strlit("relay");
    assert("relay"@ =~= seq!['r', 'e', 'l', 'a', 'y']);
    reveal_strlit("stun");
    assert("stun"@ =~= seq!['s', 't', 'u', 'n']);
    reveal_strlit("types");
    assert("types"@ =~= seq!['t', 'y', 'p', 'e', 's']);
    reveal_strlit("stun_server");
    assert("stun_server"@ =~= seq!['s', 't', 'u', 'n', '_', 's', 'e', 'r', 'v', 'e', 'r']);
    reveal_strlit("location");
    assert("location"@ =~= seq!['l', 'o', 'c', 'a', 't', 'i', 'o', 'n']);
    let zero = RegistryView::empty(identity);
    let pishoo_known = pishoo::registered(zero);
    lemma_pishoo_in_server(zero, word);
    let server_known = server::registered(pishoo_known);
    lemma_server_in_server(pishoo_known, word);
    let location_known = location::registered(server_known);
    lemma_location_in_server(server_known, word);
    let proxy_known = proxy::registered(location_known);
    lemma_proxy_in_server(location_known, word);
    let stun_known = stun::registered(proxy_known);
    lemma_stun_in_server(proxy_known, word);
    assert(with_gateway_directives(zero) == stun_known);
    assert(zero.directive(SERVER@, word) is None);
}

/// A `location` block knows these words and no others, each with the values that it gives and what becomes of
/// them.
pub proof fn location_blocks_know_these_words(identity: u64, word: Seq<char>)
    ensures
        ({
            let found = with_gateway_directives(RegistryView::empty(identity)).directive(
                seq!['g', 'a', 't', 'e', 'w', 'a', 'y', '.', 'l', 'o', 'c', 'a', 't', 'i', 'o',
                    'n'],
                word,
            );
            &&& found matches Some(spec) ==> {
                ||| (word == seq!['r', 'o', 'o', 't'] || word == seq!['a', 'l', 'i', 'a', 's']
                    || word == seq!['p', 'r', 'o', 'x', 'y', '_', 's', 's', 'l', '_', 'c', 'e',
                    'r', 't', 'i', 'f', 'i', 'c', 'a', 't', 'e']
                    || word == seq!['p', 'r', 'o', 'x', 'y', '_', 's', 's', 'l', '_', 'c', 'e',
                    'r', 't', 'i', 'f', 'i', 'c', 'a', 't', 'e', '_', 'k', 'e', 'y']
                    || word == seq!['p', 'r', 'o', 'x', 'y', '_', 's', 's', 'l', '_', 't', 'r',
                    'u', 's', 't', 'e', 'd', '_', 'c', 'e', 'r', 't', 'i', 'f', 'i', 'c', 'a',
                    't', 'e']) && is_value_directive(spec, ValueKind::ResolvedConfigPath,
                    DirectiveShape::Leaf, DuplicatePolicy::Reject, CascadePolicy::NearestWins,
                    TransportPolicy::WorkerLocalOnly, ReloadImpact::RuntimeState)
                ||| (word == seq!['g', 'z', 'i', 'p'] || word == seq!['g', 'z', 'i', 'p', '_',
                    'v', 'a', 'r', 'y']) && is_value_directive(spec, ValueKind::BoolConfig,
                    DirectiveShape::Leaf, DuplicatePolicy::Reject, CascadePolicy::NearestWins,
                    TransportPolicy::WorkerLocalOnly, ReloadImpact::RuntimeState)
                ||| (word == seq!['g', 'z', 'i', 'p', '_', 'm', 'i', 'n', '_', 'l', 'e', 'n',
                    'g', 't', 'h']) && is_value_directive(spec, ValueKind::GzipMinLength,
                    DirectiveShape::Leaf, DuplicatePolicy::Reject, CascadePolicy::NearestWins,
                    TransportPolicy::WorkerLocalOnly, ReloadImpact::RuntimeState)
                ||| (word == seq!['g', 'z', 'i', 'p', '_', 'c', 'o', 'm', 'p', '_', 'l', 'e',
                    'v', 'e', 'l']) && is_value_directive(spec, ValueKind::GzipCompLevel,
                    DirectiveShape::Leaf, DuplicatePolicy::Reject, CascadePolicy::NearestWins,
                    TransportPolicy::WorkerLocalOnly, ReloadImpact::RuntimeState)
                ||| (word == seq!['g', 'z', 'i', 'p', '_', 't', 'y', 'p', 'e', 's']
                    || word == seq!['i', 'n', 'd', 'e', 'x']
                    || word == seq!['s', 's', 'h', '_', 'd', 'e', 'n', 'y'])
                    && is_value_directive(spec, ValueKind::StringList, DirectiveShape::Leaf,
                    DuplicatePolicy::Reject, CascadePolicy::NearestWins,
                    TransportPolicy::WorkerLocalOnly, ReloadImpact::RuntimeState)
                ||| (word == seq!['a', 'd', 'd', '_', 'h', 'e', 'a', 'd', 'e', 'r']
                    || word == seq!['p', 'r', 'o', 'x', 'y', '_', 's', 'e', 't', '_', 'h', 'e',
                    'a', 'd', 'e', 'r']) && is_value_directive(spec, ValueKind::HeaderRules,
                    DirectiveShape::Leaf, DuplicatePolicy::Append, CascadePolicy::NearestWins,
                    TransportPolicy::WorkerLocalOnly, ReloadImpact::RuntimeState)
                ||| (word == seq!['p', 'r', 'o', 'x', 'y', '_', 'p', 'a', 's', 's'])
                    && is_value_directive(spec, ValueKind::ProxyPass, DirectiveShape::Leaf,
                    DuplicatePolicy::Reject, CascadePolicy::NearestWins,
                    TransportPolicy::WorkerLocalOnly, ReloadImpact::RuntimeState)
                ||| (word == seq!['s', 's', 'h', '_', 'l', 'o', 'g', 'i', 'n'])
                    && is_value_directive(spec, ValueKind::SshLoginMethods, DirectiveShape::Leaf,
                    DuplicatePolicy::Reject, CascadePolicy::NearestWins,
                    TransportPolicy::WorkerLocalOnly, ReloadImpact::RuntimeState)
                ||| (word == seq!['s', 's', 'h', '_', 's', 's', 'l', '_', 'u', 's', 'e', 'r'])
                    && is_value_directive(spec, ValueKind::SshSslUsers, DirectiveShape::Leaf,
                    DuplicatePolicy::Append, CascadePolicy::NearestWins,
                    TransportPolicy::WorkerLocalOnly, ReloadImpact::RuntimeState)
                ||| (word == seq!['d', 'e', 'f', 'a', 'u', 'l', 't', '_', 't', 'y', 'p', 'e'])
                    && is_value_directive(spec, ValueKind::DefaultType, DirectiveShape::Leaf,
                    DuplicatePolicy::Reject, CascadePolicy::NearestWins,
                    TransportPolicy::WorkerLocalOnly, ReloadImpact::RuntimeState)
                ||| (word == seq!['t', 'y', 'p', 'e', 's']) && is_value_directive(spec,
                    ValueKind::MimeTypes, DirectiveShape::RawBlock, DuplicatePolicy::Reject,
                    CascadePolicy::ReplaceWhole, TransportPolicy::WorkerLocalOnly,
                    ReloadImpact::RuntimeState)
            }
            &&& word == seq!['r', 'o', 'o', 't'] ==> found is Some
            &&& word == seq!['a', 'l', 'i', 'a', 's'] ==> found is Some
            &&& word == seq!['g', 'z', 'i', 'p'] ==> found is Some
            &&& word == seq!['g', 'z', 'i', 'p', '_', 'v', 'a', 'r', 'y'] ==> found is Some
            &&& word == seq!['g', 'z', 'i', 'p', '_', 'm', 'i', 'n', '_', 'l', 'e', 'n', 'g',
                't', 'h'] ==> found is Some
            &&& word == seq!['g', 'z', 'i', 'p', '_', 'c', 'o', 'm', 'p', '_', 'l', 'e', 'v',
                'e', 'l'] ==> found is Some
            &&& word == seq!['g', 'z', 'i', 'p', '_', 't', 'y', 'p', 'e', 's'] ==> found is Some
            &&& word == seq!['i', 'n', 'd', 'e', 'x'] ==> found is Some
            &&& word == seq!['a', 'd', 'd', '_', 'h', 'e', 'a', 'd', 'e', 'r'] ==> found is Some
            &&& word == seq!['p', 'r', 'o', 'x', 'y', '_', 's', 'e', 't', '_', 'h', 'e', 'a',
                'd', 'e', 'r'] ==> found is Some
            &&& word == seq!['p', 'r', 'o', 'x', 'y', '_', 'p', 'a', 's', 's'] ==> found is Some
            &&& word == seq!['p', 'r', 'o', 'x', 'y', '_', 's', 's', 'l', '_', 'c', 'e', 'r',
                't', 'i', 'f', 'i', 'c', 'a', 't', 'e'] ==> found is Some
            &&& word == seq!['p', 'r', 'o', 'x', 'y', '_', 's', 's', 'l', '_', 'c', 'e', 'r',
                't', 'i', 'f', 'i', 'c', 'a', 't', 'e', '_', 'k', 'e', 'y'] ==> found is Some
            &&& word == seq!['p', 'r', 'o', 'x', 'y', '_', 's', 's', 'l', '_', 't', 'r', 'u',
                's', 't', 'e', 'd', '_', 'c', 'e', 'r', 't', 'i', 'f', 'i', 'c', 'a', 't',
                'e'] ==> found is Some
            &&& word == seq!['s', 's', 'h', '_', 'l', 'o', 'g', 'i', 'n'] ==> found is Some
            &&& word == seq!['s', 's', 'h', '_', 's', 's', 'l', '_', 'u', 's', 'e', 'r']
                ==> found is Some
            &&& word == seq!['s', 's', 'h', '_', 'd', 'e', 'n', 'y'] ==> found is Some
            &&& word == seq!['d', 'e', 'f', 'a', 'u', 'l', 't', '_', 't', 'y', 'p', 'e']
                ==> found is Some
            &&& word == seq!['t', 'y', 'p', 'e', 's'] ==> found is Some
        }),
{
    contexts_differ();
    reveal_strlit("gateway.root");
    assert("gateway.root"@ =~= seq!['g', 'a', 't', 'e', 'w', 'a', 'y', '.', 'r', 'o', 'o', 't']);
    reveal_strlit("gateway.pishoo");
    assert("gateway.pishoo"@ =~= seq!['g', 'a', 't', 'e', 'w', 'a', 'y', '.', 'p', 'i', 's', 'h',
        'o', 'o']);
    reveal_strlit("gateway.server");
    assert("gateway.server"@ =~= seq!['g', 'a', 't', 'e', 'w', 'a', 'y', '.', 's', 'e', 'r', 'v',
        'e', 'r']);
    reveal_strlit("gateway.location");
    assert("gateway.location"@ =~= seq!['g', 'a', 't', 'e', 'w', 'a', 'y', '.', 'l', 'o', 'c',
        'a', 't', 'i', 'o', 'n']);
    reveal_strlit("gateway.proxy");
    assert("gateway.proxy"@ =~= seq!['g', 'a', 't', 'e', 'w', 'a', 'y', '.', 'p', 'r', 'o', 'x',
        'y']);
    reveal_strlit("root");
    assert("root"@ =~= seq!['r', 'o', 'o', 't']);
    reveal_strlit("alias");
    assert("alias"@ =~= seq!['a', 'l', 'i', 'a', 's']);
    reveal_strlit("gzip");
    assert("gzip"@ =~= seq!['g', 'z', 'i', 'p']);
    reveal_strlit("gzip_vary");
    assert("gzip_vary"@ =~= seq!['g', 'z', 'i', 'p', '_', 'v', 'a', 'r', 'y']);
    reveal_strlit("gzip_min_length");
    assert("gzip_min_length"@ =~= seq!['g', 'z', 'i', 'p', '_', 'm', 'i', 'n', '_', 'l', 'e',
        'n', 'g', 't', 'h']);
    reveal_strlit("gzip_comp_level");
    assert("gzip_comp_level"@ =~= seq!['g', 'z', 'i', 'p', '_', 'c', 'o', 'm', 'p', '_', 'l',
        'e', 'v', 'e', 'l']);
    reveal_strlit("gzip_types");
    assert("gzip_types"@ =~= seq!['g', 'z', 'i', 'p', '_', 't', 'y', 'p', 'e', 's']);
    reveal_strlit("index");
    assert("index"@ =~= seq!['i', 'n', 'd', 'e', 'x']);
    reveal_strlit("add_header");
    assert("add_header"@ =~= seq!['a', 'd', 'd', '_', 'h', 'e', 'a', 'd', 'e', 'r']);
    reveal_strlit("proxy_set_header");
    assert("proxy_set_header"@ =~= seq!['p', 'r', 'o', 'x', 'y', '_', 's', 'e', 't', '_', 'h',
        'e', 'a', 'd', 'e', 'r']);
    reveal_strlit("proxy_pass");
    assert("proxy_pass"@ =~= seq!['p', 'r', 'o', 'x', 'y', '_', 'p', 'a', 's', 's']);
    reveal_strlit("proxy_ssl_certificate");
    assert("proxy_ssl_certificate"@ =~= seq!['p', 'r', 'o', 'x', 'y', '_', 's', 's', 'l', '_',
        'c', 'e', 'r', 't', 'i', 'f', 'i', 'c', 'a', 't', 'e']);
    reveal_strlit("proxy_ssl_certificate_key");
    assert("proxy_ssl_certificate_key"@ =~= seq!['p', 'r', 'o', 'x', 'y', '_', 's', 's', 'l',
        '_', 'c', 'e', 'r', 't', 'i', 'f', 'i', 'c', 'a', 't', 'e', '_', 'k', 'e', 'y']);
    reveal_strlit("proxy_ssl_trusted_certificate");
    assert("proxy_ssl_trusted_certificate"@ =~= seq!['p', 'r', 'o', 'x', 'y', '_', 's', 's', 'l',
        '_', 't', 'r', 'u', 's', 't', 'e', 'd', '_', 'c', 'e', 'r', 't', 'i', 'f', 'i', 'c', 'a',
        't', 'e']);
    reveal_strlit("ssh_login");
    assert("ssh_login"@ =~= seq!['s', 's', 'h', '_', 'l', 'o', 'g', 'i', 'n']);
    reveal_strlit("ssh_ssl_user");
    assert("ssh_ssl_user"@ =~= seq!['s', 's', 'h', '_', 's', 's', 'l', '_', 'u', 's', 'e', 'r']);
    reveal_strlit("ssh_deny");
    assert("ssh_deny"@ =~= seq!['s', 's', 'h', '_', 'd', 'e', 'n', 'y']);
    reveal_strlit("default_type");
    assert("default_type"@ =~= seq!['d', 'e', 'f', 'a', 'u', 'l', 't', '_', 't', 'y', 'p', 'e']);
    reveal_strlit("types");
    assert("types"@ =~= seq!['t', 'y', 'p', 'e', 's']);
    let zero = RegistryView::empty(identity);
    let pishoo_known = pishoo::registered(zero);
    lemma_pishoo_in_location(zero, word);
    let server_known = server::registered(pishoo_known);
    lemma_server_in_location(pishoo_known, word);
    let location_known = location::registered(server_known);
    lemma_location_in_location(server_known, word);
    let proxy_known = proxy::registered(location_known);
    lemma_proxy_in_location(location_known, word);
    let stun_known = stun::registered(proxy_known);
    lemma_stun_in_location(proxy_known, word);
    assert(with_gateway_directives(zero) == stun_known);
    assert(zero.directive(LOCATION@, word) is None);
}

/// A `proxy` block knows these words and no others, each with the values that it gives and what becomes of
/// them.
pub proof fn proxy_blocks_know_these_words(identity: u64, word: Seq<char>)
    ensures
        ({
            let found = with_gateway_directives(RegistryView::empty(identity)).directive(
                seq!['g', 'a', 't', 'e', 'w', 'a', 'y', '.', 'p', 'r', 'o', 'x', 'y'],
                word,
            );
            &&& found matches Some(spec) ==> {
                ||| (word == seq!['l', 'i', 's', 't', 'e', 'n'])
                    && is_value_directive(spec, ValueKind::SocketAddrs, DirectiveShape::Leaf,
                    DuplicatePolicy::Reject, CascadePolicy::Nothing,
                    TransportPolicy::WorkerLocalOnly, ReloadImpact::ListenerSet)
                ||| (word == seq!['c', 'l', 'i', 'e', 'n', 't', '_', 'n', 'a', 'm', 'e'])
                    && is_value_directive(spec, ValueKind::ClientNameConfig,
                    DirectiveShape::Leaf, DuplicatePolicy::Reject, CascadePolicy::Nothing,
                    TransportPolicy::WorkerLocalOnly, ReloadImpact::ListenerSet)
                ||| (word == seq!['d', 'n', 's']) && is_value_directive(spec,
                    ValueKind::ResolverConfig, DirectiveShape::Leaf, DuplicatePolicy::Reject,
                    CascadePolicy::Nothing, TransportPolicy::WorkerLocalOnly,
                    ReloadImpact::ListenerSet)
                ||| (word == seq!['s', 's', 'l', '_', 'c', 'e', 'r', 't', 'i', 'f', 'i', 'c',
                    'a', 't', 'e'] || word == seq!['s', 's', 'l', '_', 'c', 'e', 'r', 't', 'i',
                    'f', 'i', 'c', 'a', 't', 'e', '_', 'k', 'e', 'y'])
                    && is_value_directive(spec, ValueKind::PathConfig, DirectiveShape::Leaf,
                    DuplicatePolicy::Reject, CascadePolicy::Nothing,
                    TransportPolicy::WorkerLocalOnly, ReloadImpact::ListenerSet)
                ||| (word == seq!['a', 'l', 'l', 'o', 'w'] || word == seq!['d', 'e', 'n',
                    'y']) && is_value_directive(spec, ValueKind::StringList,
                    DirectiveShape::Leaf, DuplicatePolicy::Reject, CascadePolicy::Nothing,
                    TransportPolicy::WorkerLocalOnly, ReloadImpact::ListenerSet)
                ||| (word == seq!['d', 'e', 'f', 'a', 'u', 'l', 't', '_', 't', 'y', 'p', 'e'])
                    && is_value_directive(spec, ValueKind::DefaultType, DirectiveShape::Leaf,
                    DuplicatePolicy::Reject, CascadePolicy::Nothing,
                    TransportPolicy::WorkerLocalOnly, ReloadImpact::ListenerSet)
                ||| (word == seq!['t', 'y', 'p', 'e', 's']) && is_value_directive(spec,
                    ValueKind::MimeTypes, DirectiveShape::RawBlock, DuplicatePolicy::Reject,
                    CascadePolicy::Nothing, TransportPolicy::WorkerLocalOnly,
                    ReloadImpact::ListenerSet)
            }
            &&& word == seq!['l', 'i', 's', 't', 'e', 'n'] ==> found is Some
            &&& word == seq!['c', 'l', 'i', 'e', 'n', 't', '_', 'n', 'a', 'm', 'e']
                ==> found is Some
            &&& word == seq!['d', 'n', 's'] ==> found is Some
            &&& word == seq!['s', 's', 'l', '_', 'c', 'e', 'r', 't', 'i', 'f', 'i', 'c', 'a',
                't', 'e'] ==> found is Some
            &&& word == seq!['s', 's', 'l', '_', 'c', 'e', 'r', 't', 'i', 'f', 'i', 'c', 'a',
                't', 'e', '_', 'k', 'e', 'y'] ==> found is Some
            &&& word == seq!['a', 'l', 'l', 'o', 'w'] ==> found is Some
            &&& word == seq!['d', 'e', 'n', 'y'] ==> found is Some
            &&& word == seq!['d', 'e', 'f', 'a', 'u', 'l', 't', '_', 't', 'y', 'p', 'e']
                ==> found is Some
            &&& word == seq!['t', 'y', 'p', 'e', 's'] ==> found is Some
        }),
{
    contexts_differ();
    reveal_strlit("gateway.root");
    assert("gateway.root"@ =~= seq!['g', 'a', 't', 'e', 'w', 'a', 'y', '.', 'r', 'o', 'o', 't']);
    reveal_strlit("gateway.pishoo");
    assert("gateway.pishoo"@ =~= seq!['g', 'a', 't', 'e', 'w', 'a', 'y', '.', 'p', 'i', 's', 'h',
        'o', 'o']);
    reveal_strlit("gateway.server");
    assert("gateway.server"@ =~= seq!['g', 'a', 't', 'e', 'w', 'a', 'y', '.', 's', 'e', 'r', 'v',
        'e', 'r']);
    reveal_strlit("gateway.location");
    assert("gateway.location"@ =~= seq!['g', 'a', 't', 'e', 'w', 'a', 'y', '.', 'l', 'o', 'c',
        'a', 't', 'i', 'o', 'n']);
    reveal_strlit("gateway.proxy");
    assert("gateway.proxy"@ =~= seq!['g', 'a', 't', 'e', 'w', 'a', 'y', '.', 'p', 'r', 'o', 'x',
        'y']);
    reveal_strlit("listen");
    assert("listen"@ =~= seq!['l', 'i', 's', 't', 'e', 'n']);
    reveal_strlit("client_name");
    assert("client_name"@ =~= seq!['c', 'l', 'i', 'e', 'n', 't', '_', 'n', 'a', 'm', 'e']);
    reveal_strlit("dns");
    assert("dns"@ =~= seq!['d', 'n', 's']);
    reveal_strlit("ssl_certificate");
    assert("ssl_certificate"@ =~= seq!['s', 's', 'l', '_', 'c', 'e', 'r', 't', 'i', 'f', 'i',
        'c', 'a', 't', 'e']);
    reveal_strlit("ssl_certificate_key");
    assert("ssl_certificate_key"@ =~= seq!['s', 's', 'l', '_', 'c', 'e', 'r', 't', 'i', 'f', 'i',
        'c', 'a', 't', 'e', '_', 'k', 'e', 'y']);
    reveal_strlit("allow");
    assert("allow"@ =~= seq!['a', 'l', 'l', 'o', 'w']);
    reveal_strlit("deny");
    assert("deny"@ =~= seq!['d', 'e', 'n', 'y']);
    reveal_strlit("default_type");
    assert("default_type"@ =~= seq!['d', 'e', 'f', 'a', 'u', 'l', 't', '_', 't', 'y', 'p', 'e']);
    reveal_strlit("types");
    assert("types"@ =~= seq!['t', 'y', 'p', 'e', 's']);
    let zero = RegistryView::empty(identity);
    let pishoo_known = pishoo::registered(zero);
    lemma_pishoo_in_proxy(zero, word);
    let server_known = server::registered(pishoo_known);
    lemma_server_in_proxy(pishoo_known, word);
    let location_known = location::registered(server_known);
    lemma_location_in_proxy(server_known, word);
    let proxy_known = proxy::registered(location_known);
    lemma_proxy_in_proxy(location_known, word);
    let stun_known = stun::registered(proxy_known);
    lemma_stun_in_proxy(proxy_known, word);
    assert(with_gateway_directives(zero) == stun_known);
    assert(zero.directive(PROXY@, word) is None);
}

} // verus!
