//! Documents that serve a purpose: what they must hold and may hold.
use std::sync::Arc;

use vstd::prelude::*;

use crate::parse::ast::{lemma_named_step, named, AstBody, AstDirective};
use crate::parse::builder::{document_place, document_span};
use crate::parse::completion::BuildOptions;
use crate::parse::construct::builds;
use crate::parse::context::{ContextKey, PISHOO, ROOT, SERVER};
use crate::parse::contract::{DirectiveShape, PayloadMode, TransportPolicy};
use crate::parse::document::{ConfigNode, NodeView};
use crate::parse::domain::{ConfigDocumentRoleKind, ConfigSourceSpan, DirectiveName};
use crate::parse::error::{BuildDocumentError, ConfigDocumentRoleError};
use crate::parse::fragment::{
    are_servers, server_fragments, ParsedConfigDocument, ParsedPishooFragment,
};
use crate::parse::registry::{context_texts, ConfigRegistry, DirectiveSpec, DirectiveView, RegistryView};
use crate::parse::source::{ConfigDocumentSourceMap, SourceSpan};
use crate::text::str_eq;

verus! {

/// Why a document is not built for its role.
#[derive(Debug)]
pub enum RoleDocumentBuildError {
    Role(ConfigDocumentRoleError),
    Build(BuildDocumentError),
}

/// The block that a document of the given role is about.
pub open spec fn role_block(role: ConfigDocumentRoleKind) -> Seq<char> {
    match role {
        ConfigDocumentRoleKind::IdentityServer => "server"@,
        _ => "pishoo"@,
    }
}

/// The context of the block that a document of the given role is about.
pub open spec fn role_context(role: ConfigDocumentRoleKind) -> Seq<char> {
    match role {
        ConfigDocumentRoleKind::IdentityServer => SERVER@,
        _ => PISHOO@,
    }
}

/// Whether a registry knows the block that documents of the given role are about.
pub open spec fn knows_role(registry: RegistryView, role: ConfigDocumentRoleKind) -> bool {
    registry.directive(ROOT@, role_block(role)) matches Some(spec) && {
        &&& spec.allowed_in.contains(ROOT@)
        &&& spec.shape matches DirectiveShape::ContextBlock { child_context, payload }
            && child_context.text() == role_context(role) && payload == PayloadMode::Nothing
        &&& registry.contexts.contains_key(role_context(role))
    }
}

/// The place of the name of the first directive that is spelled `name`, or of the document.
pub open spec fn name_place(list: Seq<AstDirective>, name: Seq<char>) -> SourceSpan {
    if named(list, name).len() > 0 {
        named(list, name)[0].name.span
    } else {
        document_place(list)
    }
}

/// What is wrong with the blocks that a document holds.
pub open spec fn shape_error(
    list: Seq<AstDirective>,
    role: ConfigDocumentRoleKind,
    doc: ConfigDocumentSourceMap,
    error: ConfigDocumentRoleError,
) -> bool {
    match role {
        ConfigDocumentRoleKind::IdentityServer => error matches
            ConfigDocumentRoleError::MissingIdentityServer { role: kind, span } && kind == role
            && span == ConfigSourceSpan::of(doc.document(), document_place(list)),
        _ => {
            let blocks = named(list, "pishoo"@);
            let place = if blocks.len() > 1 {
                blocks[1].span
            } else {
                document_place(list)
            };
            error matches ConfigDocumentRoleError::ExpectedSinglePishoo { role: kind, found, span }
                && kind == role && found == blocks.len() && span == ConfigSourceSpan::of(
                doc.document(),
                place,
            )
        },
    }
}

/// Whether a document holds the blocks that its role asks for: one `pishoo` block, or a `server`.
pub open spec fn has_role_blocks(list: Seq<AstDirective>, role: ConfigDocumentRoleKind) -> bool {
    match role {
        ConfigDocumentRoleKind::IdentityServer => named(list, "server"@).len() > 0,
        _ => named(list, "pishoo"@).len() == 1,
    }
}

/// Whether a directive may stand in a document of the given role.
pub open spec fn is_allowed(
    directive: DirectiveView,
    context: Seq<char>,
    role: ConfigDocumentRoleKind,
) -> bool {
    match role {
        ConfigDocumentRoleKind::HypervisorRoot => context != ROOT@ || directive.name == "pishoo"@,
        ConfigDocumentRoleKind::WorkerPishoo => directive.transport
            != TransportPolicy::HypervisorOnly,
        ConfigDocumentRoleKind::IdentityServer => context != ROOT@ || directive.name == "server"@,
    }
}

/// The first directive of a list, or inside one of its blocks, that may not stand there: its name
/// and the place of it.
pub open spec fn list_offender(
    registry: RegistryView,
    list: Seq<AstDirective>,
    context: Seq<char>,
    role: ConfigDocumentRoleKind,
) -> Option<(Seq<char>, SourceSpan)>
    decreases list,
{
    if list.len() == 0 {
        None
    } else {
        match offender(registry, list[0], context, role) {
            Some(found) => Some(found),
            None => list_offender(registry, list.skip(1), context, role),
        }
    }
}

/// The directive itself or the first inside its block that may not stand there. Directives that
/// are not known are not looked at.
pub open spec fn offender(
    registry: RegistryView,
    directive: AstDirective,
    context: Seq<char>,
    role: ConfigDocumentRoleKind,
) -> Option<(Seq<char>, SourceSpan)>
    decreases directive,
{
    match registry.directive(context, directive.name_text()) {
        None => None,
        Some(spec) => if !is_allowed(spec, context, role) {
            Some((spec.name, directive.name.span))
        } else {
            match (spec.shape, directive.body) {
                (
                    DirectiveShape::ContextBlock { child_context, .. },
                    AstBody::Block { children, .. },
                ) => list_offender(registry, children@, child_context.text(), role),
                _ => None,
            }
        },
    }
}

/// What a built document gives for its role.
pub open spec fn is_role_document(
    registry: RegistryView,
    sources: Arc<ConfigDocumentSourceMap>,
    root: NodeView,
    role: ConfigDocumentRoleKind,
    result: Result<ParsedConfigDocument, RoleDocumentBuildError>,
) -> bool {
    let nodes = root.child(role_block(role));
    if nodes.len() == 0 {
        result matches Err(
            RoleDocumentBuildError::Role(
                ConfigDocumentRoleError::MissingBuiltDirective { directive, role: kind, span },
            ),
        ) && directive.text() == role_block(role) && kind == role && span == ConfigSourceSpan::of(
            sources.document(),
            root.span,
        )
    } else {
        let fragment = ParsedPishooFragment {
            sources,
            node: nodes[0],
            registry_contract: registry.contract,
        };
        match role {
            ConfigDocumentRoleKind::HypervisorRoot => result matches Ok(
                ParsedConfigDocument::HypervisorRoot(found),
            ) && found == fragment,
            ConfigDocumentRoleKind::WorkerPishoo => result matches Ok(
                ParsedConfigDocument::WorkerPishoo(found),
            ) && found == fragment,
            ConfigDocumentRoleKind::IdentityServer => result matches Ok(
                ParsedConfigDocument::IdentityServers(servers),
            ) && are_servers(servers@, nodes, sources, registry.contract),
        }
    }
}

/// What building a document for a role gives: first the registry is asked whether it knows the
/// role, then the document whether it has the right blocks and nothing that may not stand in it.
pub open spec fn builds_for_role(
    registry: RegistryView,
    sources: Arc<ConfigDocumentSourceMap>,
    options: BuildOptions<'_>,
    list: Seq<AstDirective>,
    role: ConfigDocumentRoleKind,
    result: Result<ParsedConfigDocument, RoleDocumentBuildError>,
) -> bool {
    if !knows_role(registry, role) {
        result matches Err(
            RoleDocumentBuildError::Role(
                ConfigDocumentRoleError::InvalidDirectiveRegistration {
                    directive,
                    role: kind,
                    expected_child_context,
                    span,
                },
            ),
        ) && directive.text() == role_block(role) && kind == role && expected_child_context.text()
            == role_context(role) && span == ConfigSourceSpan::of(
            sources.document(),
            name_place(list, role_block(role)),
        )
    } else if !has_role_blocks(list, role) {
        result matches Err(RoleDocumentBuildError::Role(error)) && shape_error(
            list,
            role,
            *sources,
            error,
        )
    } else {
        match list_offender(registry, list, ROOT@, role) {
            Some((name, place)) => result matches Err(
                RoleDocumentBuildError::Role(
                    ConfigDocumentRoleError::DirectiveNotAllowed { directive, role: kind, span },
                ),
            ) && directive.text() == name && kind == role && span == ConfigSourceSpan::of(
                sources.document(),
                place,
            ),
            None => {
                let start = NodeView::empty(ROOT@, None, document_place(list));
                ||| result matches Err(RoleDocumentBuildError::Build(error)) && builds(
                    registry,
                    sources.sources(),
                    options,
                    ROOT@,
                    list,
                    start,
                    Err(error),
                )
                ||| exists|root: NodeView| #[trigger]
                    builds(registry, sources.sources(), options, ROOT@, list, start, Ok(root))
                        && is_role_document(registry, sources, root, role, result)
            },
        }
    }
}

/// A document that was built for a worker holds nothing that is meant for the hypervisor alone,
/// and one `pishoo` block.
pub proof fn worker_documents_are_local(
    registry: RegistryView,
    sources: Arc<ConfigDocumentSourceMap>,
    options: BuildOptions<'_>,
    list: Seq<AstDirective>,
    fragment: ParsedPishooFragment,
)
    requires
        builds_for_role(
            registry,
            sources,
            options,
            list,
            ConfigDocumentRoleKind::WorkerPishoo,
            Ok(ParsedConfigDocument::WorkerPishoo(fragment)),
        ),
    ensures
        named(list, "pishoo"@).len() == 1,
        list_offender(registry, list, ROOT@, ConfigDocumentRoleKind::WorkerPishoo) is None,
        forall|i: int|
            0 <= i < list.len() ==> (registry.directive(
                ROOT@,
                (#[trigger] list[i]).name_text(),
            ) matches Some(spec) ==> spec.transport != TransportPolicy::HypervisorOnly),
{
    let role = ConfigDocumentRoleKind::WorkerPishoo;
    assert forall|i: int| 0 <= i < list.len() implies (registry.directive(
        ROOT@,
        (#[trigger] list[i]).name_text(),
    ) matches Some(spec) ==> spec.transport != TransportPolicy::HypervisorOnly) by {
        lemma_none_offends(registry, list, ROOT@, role, i);
    }
}

/// Where no directive of a list offends, each of them may stand there.
proof fn lemma_none_offends(
    registry: RegistryView,
    list: Seq<AstDirective>,
    context: Seq<char>,
    role: ConfigDocumentRoleKind,
    at: int,
)
    requires
        0 <= at < list.len(),
        list_offender(registry, list, context, role) is None,
    ensures
        offender(registry, list[at], context, role) is None,
    decreases at,
{
    if at > 0 {
        assert(list.skip(1)[at - 1] == list[at]);
        lemma_none_offends(registry, list.skip(1), context, role, at - 1);
    }
}

fn contains_context(list: &Vec<ContextKey>, wanted: ContextKey) -> (found: bool)
    ensures
        found == context_texts(list@).contains(wanted.text()),
{
    let ghost all = context_texts(list@);
    let mut i: usize = 0;
    while i < list.len()
        invariant
            i <= list@.len(),
            all == context_texts(list@),
            forall|k: int| 0 <= k < i ==> #[trigger] all[k] != wanted.text(),
        decreases list@.len() - i,
    {
        if list[i].is(wanted) {
            assert(all[i as int] == wanted.text());
            return true;
        }
        i += 1;
    }
    false
}

fn block_name(role: ConfigDocumentRoleKind) -> (name: &'static str)
    ensures
        name@ == role_block(role),
{
    match role {
        ConfigDocumentRoleKind::IdentityServer => "server",
        _ => "pishoo",
    }
}

fn block_context(role: ConfigDocumentRoleKind) -> (context: ContextKey)
    ensures
        context.text() == role_context(role),
{
    match role {
        ConfigDocumentRoleKind::IdentityServer => ContextKey(SERVER),
        _ => ContextKey(PISHOO),
    }
}

/// The directives that are spelled `name`, by their index.
fn find_named(list: &Vec<AstDirective>, name: &str) -> (found: Vec<usize>)
    ensures
        found@.len() == named(list@, name@).len(),
        forall|i: int|
            0 <= i < found@.len() ==> (#[trigger] found@[i]) < list@.len() && list@[found@[i] as int]
                == named(list@, name@)[i],
{
    let mut found: Vec<usize> = Vec::new();
    let mut i: usize = 0;
    assert(list@.take(0) =~= Seq::empty());
    while i < list.len()
        invariant
            i <= list@.len(),
            found@.len() == named(list@.take(i as int), name@).len(),
            forall|k: int|
                0 <= k < found@.len() ==> (#[trigger] found@[k]) < list@.len()
                    && list@[found@[k] as int] == named(list@.take(i as int), name@)[k],
        decreases list@.len() - i,
    {
        proof {
            lemma_named_step(list@, i as int, name@);
        }
        if list[i].is_named(name) {
            found.push(i);
        }
        i += 1;
    }
    assert(list@.take(i as int) =~= list@);
    found
}

fn directive_allowed_for_role(
    spec: &DirectiveSpec,
    context: ContextKey,
    role: ConfigDocumentRoleKind,
) -> (allowed: bool)
    ensures
        allowed == is_allowed(spec@, context.text(), role),
{
    match role {
        ConfigDocumentRoleKind::HypervisorRoot => !context.is(ContextKey(ROOT))
            || str_eq(spec.name.as_str(), "pishoo"),
        ConfigDocumentRoleKind::WorkerPishoo => spec.transport != TransportPolicy::HypervisorOnly,
        ConfigDocumentRoleKind::IdentityServer => !context.is(ContextKey(ROOT))
            || str_eq(spec.name.as_str(), "server"),
    }
}

fn validate_document_shape(
    sources: &ConfigDocumentSourceMap,
    directives: &Vec<AstDirective>,
    role: ConfigDocumentRoleKind,
) -> (result: Result<(), ConfigDocumentRoleError>)
    ensures
        match result {
            Ok(_) => has_role_blocks(directives@, role),
            Err(error) => !has_role_blocks(directives@, role) && shape_error(
                directives@,
                role,
                *sources,
                error,
            ),
        },
{
    match role {
        ConfigDocumentRoleKind::IdentityServer => {
            let servers = find_named(directives, "server");
            if servers.len() == 0 {
                return Err(
                    ConfigDocumentRoleError::MissingIdentityServer {
                        role,
                        span: sources.config_span(document_span(directives)),
                    },
                );
            }
        },
        _ => {
            let blocks = find_named(directives, "pishoo");
            if blocks.len() != 1 {
                let span = if blocks.len() > 1 {
                    directives[blocks[1]].span
                } else {
                    document_span(directives)
                };
                return Err(
                    ConfigDocumentRoleError::ExpectedSinglePishoo {
                        role,
                        found: blocks.len(),
                        span: sources.config_span(span),
                    },
                );
            }
        },
    }
    Ok(())
}

impl ConfigRegistry {
    fn knows_role_block(&self, role: ConfigDocumentRoleKind) -> (known: bool)
        ensures
            known == knows_role(self@, role),
    {
        let spec = match self.directive_spec(ContextKey(ROOT), block_name(role)) {
            Some(spec) => spec,
            None => {
                return false;
            },
        };
        if !contains_context(&spec.allowed_in, ContextKey(ROOT)) {
            return false;
        }
        let opens = match spec.shape {
            DirectiveShape::ContextBlock { child_context, payload } => payload
                == PayloadMode::Nothing && child_context.is(block_context(role)),
            _ => false,
        };
        opens && self.has_context(block_context(role))
    }

    fn validate_role_registration(
        &self,
        sources: &ConfigDocumentSourceMap,
        directives: &Vec<AstDirective>,
        role: ConfigDocumentRoleKind,
    ) -> (result: Result<(), ConfigDocumentRoleError>)
        ensures
            match result {
                Ok(_) => knows_role(self@, role),
                Err(error) => !knows_role(self@, role) && (error matches
                    ConfigDocumentRoleError::InvalidDirectiveRegistration {
                    directive,
                    role: kind,
                    expected_child_context,
                    span,
                } && directive.text() == role_block(role) && kind == role
                    && expected_child_context.text() == role_context(role) && span
                    == ConfigSourceSpan::of(
                    sources.document(),
                    name_place(directives@, role_block(role)),
                )),
            },
    {
        if self.knows_role_block(role) {
            return Ok(());
        }
        let blocks = find_named(directives, block_name(role));
        let span = if blocks.len() > 0 {
            directives[blocks[0]].name.span
        } else {
            document_span(directives)
        };
        Err(
            ConfigDocumentRoleError::InvalidDirectiveRegistration {
                directive: DirectiveName::new(block_name(role)),
                role,
                expected_child_context: block_context(role),
                span: sources.config_span(span),
            },
        )
    }

    fn find_offender(
        &self,
        directives: &Vec<AstDirective>,
        context: ContextKey,
        role: ConfigDocumentRoleKind,
    ) -> (found: Option<(DirectiveName, SourceSpan)>)
        ensures
            match found {
                Some((name, place)) => list_offender(self@, directives@, context.text(), role)
                    == Some((name.text(), place)),
                None => list_offender(self@, directives@, context.text(), role) is None,
            },
        decreases directives@,
    {
        let ghost all = directives@;
        let ghost registry = self@;
        let ghost place = context.text();
        let mut i: usize = 0;
        assert(all.skip(0) =~= all);
        while i < directives.len()
            invariant
                i <= directives@.len(),
                all == directives@,
                registry == self@,
                place == context.text(),
                list_offender(registry, all.skip(i as int), place, role) == list_offender(
                    registry,
                    all,
                    place,
                    role,
                ),
            decreases directives@.len() - i,
        {
            let directive = &directives[i];
            proof {
                assert(all.skip(i as int)[0] == all[i as int]);
                assert(all.skip(i as int).skip(1) =~= all.skip(i + 1));
                assert(decreases_to!(directives@ => directives@[i as int]));
            }
            match self.directive_spec(context, directive.name.value.as_str()) {
                Some(spec) => {
                    if !directive_allowed_for_role(spec, context, role) {
                        assert(offender(registry, all[i as int], place, role) == Some(
                            (spec.name.text(), directive.name.span),
                        ));
                        return Some((spec.name, directive.name.span));
                    }
                    match (spec.shape, &directive.body) {
                        (
                            DirectiveShape::ContextBlock { child_context, .. },
                            AstBody::Block { children, .. },
                        ) => {
                            match self.find_offender(children, child_context, role) {
                                Some(found) => {
                                    assert(offender(registry, all[i as int], place, role) == Some(
                                        (found.0.text(), found.1),
                                    ));
                                    return Some(found);
                                },
                                None => {},
                            }
                        },
                        _ => {},
                    }
                },
                None => {},
            }
            i += 1;
        }
        assert(all.skip(i as int) =~= Seq::empty());
        None
    }

    /// Builds a document for a role.
    pub fn build_for_role(
        &self,
        sources: Arc<ConfigDocumentSourceMap>,
        directives: &Vec<AstDirective>,
        options: BuildOptions<'_>,
        role: ConfigDocumentRoleKind,
    ) -> (result: Result<ParsedConfigDocument, RoleDocumentBuildError>)
        ensures
            builds_for_role(self@, sources, options, directives@, role, result),
    {
        match self.validate_role_registration(&sources, directives, role) {
            Ok(_) => {},
            Err(error) => {
                return Err(RoleDocumentBuildError::Role(error));
            },
        }
        match validate_document_shape(&sources, directives, role) {
            Ok(_) => {},
            Err(error) => {
                return Err(RoleDocumentBuildError::Role(error));
            },
        }
        match self.find_offender(directives, ContextKey(ROOT), role) {
            Some((directive, place)) => {
                return Err(
                    RoleDocumentBuildError::Role(
                        ConfigDocumentRoleError::DirectiveNotAllowed {
                            directive,
                            role,
                            span: sources.config_span(place),
                        },
                    ),
                );
            },
            None => {},
        }
        let span = document_span(directives);
        let mut root = ConfigNode::new(ContextKey(ROOT), None, span);
        match self.build_into(
            sources.source_map(),
            &mut root,
            ContextKey(ROOT),
            directives,
            &options,
        ) {
            Ok(_) => {},
            Err(error) => {
                return Err(RoleDocumentBuildError::Build(error));
            },
        }
        let ghost built = root@;
        proof {
            assert(builds(
                self@,
                sources.sources(),
                options,
                ROOT@,
                directives@,
                NodeView::empty(ROOT@, None, document_place(directives@)),
                Ok(built),
            ));
        }
        let nodes = root.children_optional(block_name(role));
        if nodes.len() == 0 {
            let error = RoleDocumentBuildError::Role(
                ConfigDocumentRoleError::MissingBuiltDirective {
                    directive: DirectiveName::new(block_name(role)),
                    role,
                    span: sources.config_span(root.span),
                },
            );
            assert(is_role_document(self@, sources, built, role, Err(error)));
            return Err(error);
        }
        let contract = self.contract();
        let ghost kept = sources;
        let document = match role {
            ConfigDocumentRoleKind::HypervisorRoot => ParsedConfigDocument::HypervisorRoot(
                ParsedPishooFragment::new(sources, Arc::clone(&nodes[0]), contract),
            ),
            ConfigDocumentRoleKind::WorkerPishoo => ParsedConfigDocument::WorkerPishoo(
                ParsedPishooFragment::new(sources, Arc::clone(&nodes[0]), contract),
            ),
            ConfigDocumentRoleKind::IdentityServer => ParsedConfigDocument::IdentityServers(
                server_fragments(nodes, &sources, contract),
            ),
        };
        assert(is_role_document(self@, kept, built, role, Ok(document)));
        Ok(document)
    }
}

/// In a document where nothing offends, no directive stands where its role does not let it: beside
/// the block of the role none stands in the documents of the root and of identities, and what is for
/// the hypervisor alone stands nowhere in that of a worker. The same holds inside every block.
pub proof fn directives_keep_to_their_role(
    registry: RegistryView,
    list: Seq<AstDirective>,
    context: Seq<char>,
    role: ConfigDocumentRoleKind,
    at: int,
    spec: DirectiveView,
)
    requires
        list_offender(registry, list, context, role) is None,
        0 <= at < list.len(),
        registry.directive(context, list[at].name_text()) == Some(spec),
    ensures
        ({
            let root = seq!['g', 'a', 't', 'e', 'w', 'a', 'y', '.', 'r', 'o', 'o', 't'];
            &&& role is HypervisorRoot && context == root ==> spec.name == seq![
                'p',
                'i',
                's',
                'h',
                'o',
                'o',
            ]
            &&& role is IdentityServer && context == root ==> spec.name == seq![
                's',
                'e',
                'r',
                'v',
                'e',
                'r',
            ]
            &&& role is WorkerPishoo ==> spec.transport !is HypervisorOnly
        }),
        spec.shape is ContextBlock && list[at].body is Block ==> list_offender(
            registry,
            list[at].body->children@,
            spec.shape->child_context.text(),
            role,
        ) is None,
    decreases at,
{
    reveal_strlit("gateway.root");
    reveal_strlit("pishoo");
    reveal_strlit("server");
    assert("gateway.root"@ =~= seq!['g', 'a', 't', 'e', 'w', 'a', 'y', '.', 'r', 'o', 'o', 't']);
    assert("pishoo"@ =~= seq!['p', 'i', 's', 'h', 'o', 'o']);
    assert("server"@ =~= seq!['s', 'e', 'r', 'v', 'e', 'r']);
    assert(offender(registry, list[0], context, role) is None);
    if at > 0 {
        assert(list.skip(1)[at - 1] == list[at]);
        directives_keep_to_their_role(registry, list.skip(1), context, role, at - 1, spec);
    }
}

/// A directive that its role lets stand, with nothing inside that offends, does not offend.
pub proof fn allowed_directives_do_not_offend(
    registry: RegistryView,
    directive: AstDirective,
    context: Seq<char>,
    role: ConfigDocumentRoleKind,
)
    requires
        offender(registry, directive, context, role) is Some,
    ensures
        ({
            let root = seq!['g', 'a', 't', 'e', 'w', 'a', 'y', '.', 'r', 'o', 'o', 't'];
            &&& registry.directive(context, directive.name_text()) matches Some(spec) && ({
                ||| role is HypervisorRoot && context == root && spec.name != seq![
                    'p',
                    'i',
                    's',
                    'h',
                    'o',
                    'o',
                ]
                ||| role is IdentityServer && context == root && spec.name != seq![
                    's',
                    'e',
                    'r',
                    'v',
                    'e',
                    'r',
                ]
                ||| role is WorkerPishoo && spec.transport is HypervisorOnly
                ||| spec.shape is ContextBlock && directive.body is Block && list_offender(
                    registry,
                    directive.body->children@,
                    spec.shape->child_context.text(),
                    role,
                ) is Some
            })
        }),
{
    reveal_strlit("gateway.root");
    reveal_strlit("pishoo");
    reveal_strlit("server");
    assert("gateway.root"@ =~= seq!['g', 'a', 't', 'e', 'w', 'a', 'y', '.', 'r', 'o', 'o', 't']);
    assert("pishoo"@ =~= seq!['p', 'i', 's', 'h', 'o', 'o']);
    assert("server"@ =~= seq!['s', 'e', 'r', 'v', 'e', 'r']);
}

proof fn lemma_named(list: Seq<AstDirective>, name: Seq<char>)
    ensures
        named(list, name).len() > 0 <==> exists|i: int|
            0 <= i < list.len() && (#[trigger] list[i]).name_text() == name,
        named(list, name).len() == 1 ==> forall|i: int, j: int|
            0 <= i < list.len() && 0 <= j < list.len() && (#[trigger] list[i]).name_text() == name
                && (#[trigger] list[j]).name_text() == name ==> i == j,
    decreases list.len(),
{
    if list.len() > 0 {
        let init = list.drop_last();
        lemma_named(init, name);
        assert(list[list.len() - 1] == list.last());
        assert(forall|i: int| 0 <= i < init.len() ==> #[trigger] list[i] == init[i]);
        assert(forall|i: int| 0 <= i < init.len() ==> #[trigger] init[i] == list[i]);
    }
}

/// A document that is built for its role is about the block of that role: of the root and of a worker
/// about the one `pishoo` block that it has, of an identity about its servers, of which it has some.
pub proof fn documents_are_about_the_block_of_their_role(
    registry: RegistryView,
    sources: Arc<ConfigDocumentSourceMap>,
    options: BuildOptions<'_>,
    list: Seq<AstDirective>,
    role: ConfigDocumentRoleKind,
    document: ParsedConfigDocument,
)
    requires
        builds_for_role(registry, sources, options, list, role, Ok(document)),
    ensures
        ({
            let pishoo = seq!['p', 'i', 's', 'h', 'o', 'o'];
            let server = seq!['s', 'e', 'r', 'v', 'e', 'r'];
            &&& role is IdentityServer ==> document is IdentityServers && exists|i: int|
                0 <= i < list.len() && (#[trigger] list[i]).name_text() == server
            &&& role is HypervisorRoot ==> document is HypervisorRoot
            &&& role is WorkerPishoo ==> document is WorkerPishoo
            &&& role !is IdentityServer ==> exists|i: int|
                0 <= i < list.len() && (#[trigger] list[i]).name_text() == pishoo
            &&& role !is IdentityServer ==> forall|i: int, j: int|
                0 <= i < list.len() && 0 <= j < list.len() && (#[trigger] list[i]).name_text()
                    == pishoo && (#[trigger] list[j]).name_text() == pishoo ==> i == j
            &&& list_offender(
                registry,
                list,
                seq!['g', 'a', 't', 'e', 'w', 'a', 'y', '.', 'r', 'o', 'o', 't'],
                role,
            ) is None
        }),
{
    reveal_strlit("gateway.root");
    reveal_strlit("pishoo");
    reveal_strlit("server");
    assert("gateway.root"@ =~= seq!['g', 'a', 't', 'e', 'w', 'a', 'y', '.', 'r', 'o', 'o', 't']);
    assert("pishoo"@ =~= seq!['p', 'i', 's', 'h', 'o', 'o']);
    assert("server"@ =~= seq!['s', 'e', 'r', 'v', 'e', 'r']);
    lemma_named(list, "pishoo"@);
    lemma_named(list, "server"@);
}

} // verus!
