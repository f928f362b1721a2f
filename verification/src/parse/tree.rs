//! The tree of all blocks of a home: one `pishoo` block, its servers, and their locations.
use std::sync::Arc;

use vstd::prelude::*;

use crate::parse::context::{ContextKey, LOCATION, PISHOO, ROOT, SERVER};
use crate::parse::contract::DirectiveContract;
use crate::parse::document::{gets_payload, ConfigNode, NodeView};
use crate::parse::domain::{
    ConfigDocumentId, ConfigDocumentIdAllocator, ConfigDocumentIdError, ConfigSourceSpan,
};
use crate::parse::finalize::{FinalizeError, FinalizeServerError};
use crate::parse::fragment::{ParsedPishooFragment, ParsedServerFragment};
use crate::parse::pattern::Pattern;
use crate::parse::query::source_at;
use crate::parse::registry::{
    is_contract_list, AttachedFinalizer, ConfigRegistry, ConfigRegistryContract, RegistryView,
};
use crate::parse::schema::{validates, V1SnapshotSchemaError, ValidatedV1SnapshotSchema};
use crate::parse::snapshot::{RootConfigSnapshot, RootInheritedConfigV1};
use crate::parse::source::{ConfigDocumentSourceMap, SourceId, SourceSpan};
use crate::parse::value::ConfigValue;
use crate::path::UnixPath;
use crate::text::texts;

verus! {

/// Names a node of a tree: its index.
#[derive(Debug, Clone, Copy, PartialEq, Eq, Hash, Structural)]
pub struct ConfigNodeId(pub usize);

/// The node around a node.
#[derive(Debug, Clone, Copy, PartialEq, Eq, Structural)]
pub enum ParentLink {
    Root,
    Node(ConfigNodeId),
}

/// A block with its place in a tree.
#[derive(Debug)]
pub struct SealedConfigNode {
    pub document_id: Option<ConfigDocumentId>,
    pub node: Arc<ConfigNode>,
    pub parent: ParentLink,
    pub children: Vec<ConfigNodeId>,
}

/// A block with its place in a tree; its document is named by its index.
#[verifier::ext_equal]
pub struct SealedView {
    pub document: Option<u32>,
    pub node: Arc<ConfigNode>,
    pub parent: ParentLink,
    pub children: Seq<ConfigNodeId>,
}

/// The index of an optional document.
pub open spec fn document_index(document: Option<ConfigDocumentId>) -> Option<u32> {
    match document {
        Some(id) => Some(id.index()),
        None => None,
    }
}

impl View for SealedConfigNode {
    type V = SealedView;

    open spec fn view(&self) -> SealedView {
        SealedView {
            document: document_index(self.document_id),
            node: self.node,
            parent: self.parent,
            children: self.children@,
        }
    }
}

/// The blocks of a tree.
pub open spec fn sealed_views(nodes: Seq<SealedConfigNode>) -> Seq<SealedView> {
    nodes.map_values(|node: SealedConfigNode| node@)
}

/// A server and the index of its document.
pub struct Placed {
    pub node: Arc<ConfigNode>,
    pub document: u32,
}

/// The locations of a server.
pub open spec fn locations_of(server: Arc<ConfigNode>) -> Seq<Arc<ConfigNode>> {
    server@.child("location"@)
}

/// A server with the index `at` and, behind it, its locations.
pub open spec fn server_part(server: Placed, at: int) -> Seq<SealedView> {
    let locations = locations_of(server.node);
    seq![
        SealedView {
            document: Some(server.document),
            node: server.node,
            parent: ParentLink::Node(ConfigNodeId(1)),
            children: Seq::new(locations.len(), |i: int| ConfigNodeId((at + 1 + i) as usize)),
        },
    ] + Seq::new(
        locations.len(),
        |i: int|
            SealedView {
                document: Some(server.document),
                node: locations[i],
                parent: ParentLink::Node(ConfigNodeId(at as usize)),
                children: seq![],
            },
    )
}

/// All servers, each followed by its locations.
pub open spec fn server_parts(servers: Seq<Placed>) -> Seq<SealedView>
    decreases servers.len(),
{
    if servers.len() == 0 {
        seq![]
    } else {
        let before = server_parts(servers.drop_last());
        before + server_part(servers.last(), before.len() + 2int)
    }
}

/// The nodes that the servers are.
pub open spec fn server_ids(servers: Seq<Placed>) -> Seq<ConfigNodeId>
    decreases servers.len(),
{
    if servers.len() == 0 {
        seq![]
    } else {
        server_ids(servers.drop_last()).push(
            ConfigNodeId((2 + server_parts(servers.drop_last()).len()) as usize),
        )
    }
}

/// The blocks of a tree: the outermost, the `pishoo` block, and the servers with their locations.
pub open spec fn tree_nodes(
    root: Arc<ConfigNode>,
    pishoo: Arc<ConfigNode>,
    document: Option<u32>,
    servers: Seq<Placed>,
) -> Seq<SealedView> {
    seq![
        SealedView {
            document: None,
            node: root,
            parent: ParentLink::Root,
            children: seq![ConfigNodeId(1)],
        },
        SealedView {
            document,
            node: pishoo,
            parent: ParentLink::Node(ConfigNodeId(0)),
            children: server_ids(servers),
        },
    ] + server_parts(servers)
}

/// The servers of one document.
pub open spec fn placed(nodes: Seq<Arc<ConfigNode>>, document: u32) -> Seq<Placed> {
    Seq::new(nodes.len(), |i: int| Placed { node: nodes[i], document })
}

/// The blocks of a list of fragments.
pub open spec fn fragment_nodes(fragments: Seq<ParsedServerFragment>) -> Seq<Arc<ConfigNode>> {
    Seq::new(fragments.len(), |i: int| fragments[i].node)
}

/// What is put into a tree: the servers, the documents with their sources, and the number of the next
/// document.
pub struct Gathered {
    pub servers: Seq<Placed>,
    pub owners: Seq<(u32, Arc<ConfigDocumentSourceMap>)>,
    pub next: nat,
}

/// The number of the document with the given sources, where it is known.
pub open spec fn owner_of(
    owners: Seq<(u32, Arc<ConfigDocumentSourceMap>)>,
    sources: Arc<ConfigDocumentSourceMap>,
) -> Option<u32>
    decreases owners.len(),
{
    if owners.len() == 0 {
        None
    } else {
        match owner_of(owners.drop_last(), sources) {
            Some(number) => Some(number),
            None => if owners.last().1.mark() == sources.mark() {
                Some(owners.last().0)
            } else {
                None
            },
        }
    }
}

/// What stands in the way of taking in a server.
pub enum FragmentFault {
    Contract,
    Number(u64),
}

/// One more server: it belongs to the document that it was read from, which gets a number when its
/// first server is taken in.
pub open spec fn gather_one(
    parts: Gathered,
    fragment: ParsedServerFragment,
    contract: ConfigRegistryContract,
) -> Result<Gathered, FragmentFault> {
    if fragment.registry_contract != contract {
        Err(FragmentFault::Contract)
    } else {
        match owner_of(parts.owners, fragment.sources) {
            Some(document) => Ok(
                Gathered {
                    servers: parts.servers.push(Placed { node: fragment.node, document }),
                    ..parts
                },
            ),
            None => if parts.next > u32::MAX {
                Err(FragmentFault::Number(parts.next as u64))
            } else {
                let document = parts.next as u32;
                Ok(
                    Gathered {
                        servers: parts.servers.push(Placed { node: fragment.node, document }),
                        owners: parts.owners.push((document, fragment.sources)),
                        next: parts.next + 1,
                    },
                )
            },
        }
    }
}

/// Servers one after the other; the first that cannot be taken in ends it.
pub open spec fn gather(
    start: Gathered,
    fragments: Seq<ParsedServerFragment>,
    contract: ConfigRegistryContract,
) -> Result<Gathered, FragmentFault>
    decreases fragments.len(),
{
    if fragments.len() == 0 {
        Ok(start)
    } else {
        match gather(start, fragments.drop_last(), contract) {
            Ok(parts) => gather_one(parts, fragments.last(), contract),
            Err(fault) => Err(fault),
        }
    }
}

/// Why a tree cannot be put together.
#[derive(Debug)]
#[allow(inconsistent_fields)]
pub enum HomeConfigTreeError {
    DocumentId { source: ConfigDocumentIdError },
    InvalidContext { node: ConfigNodeId },
    FinalizeAttached { node: ConfigNodeId, source: FinalizeError },
    SnapshotContract { source: V1SnapshotSchemaError },
    RegistryContractMismatch,
}

impl HomeConfigTreeError {
    /// The message of this error.
    pub open spec fn text(self) -> Seq<char> {
        match self {
            HomeConfigTreeError::DocumentId {
                ..
            } => "failed to allocate a sealed configuration document identity"@,
            HomeConfigTreeError::InvalidContext {
                ..
            } => "sealed configuration node has an invalid context"@,
            HomeConfigTreeError::FinalizeAttached {
                ..
            } => "failed to finalize an attached configuration context"@,
            HomeConfigTreeError::SnapshotContract {
                ..
            } => "registry is incompatible with the root snapshot schema"@,
            HomeConfigTreeError::RegistryContractMismatch =>
                "detached configuration fragment was parsed with another registry contract"@,
        }
    }

    /// The message of this error.
    pub fn message(&self) -> (text: String)
        ensures
            text@ == self.text(),
    {
        match self {
            HomeConfigTreeError::DocumentId {
                ..
            } => "failed to allocate a sealed configuration document identity".to_owned(),
            HomeConfigTreeError::InvalidContext {
                ..
            } => "sealed configuration node has an invalid context".to_owned(),
            HomeConfigTreeError::FinalizeAttached {
                ..
            } => "failed to finalize an attached configuration context".to_owned(),
            HomeConfigTreeError::SnapshotContract {
                ..
            } => "registry is incompatible with the root snapshot schema".to_owned(),
            HomeConfigTreeError::RegistryContractMismatch =>
                "detached configuration fragment was parsed with another registry contract".to_owned(),
        }
    }

    /// The messages of this error and of what caused it, outermost first.
    pub open spec fn chain(self) -> Seq<Seq<char>> {
        match self {
            HomeConfigTreeError::DocumentId { source } => seq![self.text(), source.text()],
            HomeConfigTreeError::FinalizeAttached { source, .. } => seq![self.text()]
                + source.chain(),
            HomeConfigTreeError::SnapshotContract { source } => seq![self.text()] + source.chain(),
            _ => seq![self.text()],
        }
    }

    /// The messages of this error and of what caused it, outermost first.
    pub fn messages(&self) -> (list: Vec<String>)
        ensures
            texts(list@) == self.chain(),
    {
        let mut list: Vec<String> = Vec::new();
        list.push(self.message());
        let ghost head = list@;
        assert(texts(head) =~= seq![self.text()]);
        match self {
            HomeConfigTreeError::DocumentId { source } => {
                list.push(source.message());
                assert(texts(list@) =~= self.chain());
            },
            HomeConfigTreeError::FinalizeAttached { source, .. } => {
                let mut causes = source.messages();
                let ghost tail = causes@;
                list.append(&mut causes);
                assert(texts(list@) =~= texts(head) + texts(tail));
            },
            HomeConfigTreeError::SnapshotContract { source } => {
                let mut causes = source.messages();
                let ghost tail = causes@;
                list.append(&mut causes);
                assert(texts(list@) =~= texts(head) + texts(tail));
            },
            _ => {},
        }
        list
    }
}

/// The context that a node must have by its place.
pub open spec fn expected_context(nodes: Seq<SealedView>, at: int) -> Seq<char> {
    match nodes[at].parent {
        ParentLink::Root => ROOT@,
        ParentLink::Node(parent) => if parent.0 == 0 {
            PISHOO@
        } else if parent.0 == 1 {
            SERVER@
        } else {
            LOCATION@
        },
    }
}

/// Whether a node has the context that its place asks for.
pub open spec fn context_ok(nodes: Seq<SealedView>, at: int) -> bool {
    nodes[at].node@.context == expected_context(nodes, at)
}

/// Whether a location inside a server has a pattern.
pub open spec fn has_pattern(location: NodeView) -> bool {
    location.payload matches Some(value) && Pattern::in_data(value.data()) is Some
}

/// Why a location inside a server has no pattern.
pub open spec fn pattern_error(location: NodeView, error: FinalizeError) -> bool {
    if location.payload is None {
        error matches FinalizeError::Server(
            FinalizeServerError::MissingAttachedLocationPattern { span },
        ) && span == location.span
    } else {
        error matches FinalizeError::Query(query) && gets_payload::<Pattern>(location, Err(query))
    }
}

/// Whether a server stands in a `pishoo` block and all its locations have patterns.
pub open spec fn server_attaches(nodes: Seq<SealedView>, at: int) -> bool {
    &&& nodes[at].parent matches ParentLink::Node(parent) && nodes[parent.0 as int].node@.context
        == PISHOO@
    &&& forall|i: int|
        0 <= i < nodes[at].children.len() ==> has_pattern(
            nodes[(#[trigger] nodes[at].children[i]).0 as int].node@,
        )
}

/// Why a server cannot stay where it stands.
pub open spec fn attach_error(nodes: Seq<SealedView>, at: int, error: FinalizeError) -> bool {
    if !(nodes[at].parent matches ParentLink::Node(parent) && nodes[parent.0 as int].node@.context
        == PISHOO@) {
        error matches FinalizeError::Server(FinalizeServerError::InvalidAttachedParent { span })
            && span == nodes[at].node@.span
    } else {
        exists|i: int|
            {
                &&& 0 <= i < nodes[at].children.len()
                &&& forall|k: int|
                    0 <= k < i ==> has_pattern(
                        nodes[(#[trigger] nodes[at].children[k]).0 as int].node@,
                    )
                &&& !has_pattern(nodes[nodes[at].children[i].0 as int].node@)
                &&& #[trigger] pattern_error(
                    nodes[nodes[at].children[i].0 as int].node@,
                    error,
                )
            }
    }
}

/// Whether a node passes the step that its context asks for.
pub open spec fn node_attaches(
    registry: RegistryView,
    nodes: Seq<SealedView>,
    at: int,
) -> bool {
    registry.attached.contains_key(nodes[at].node@.context) ==> match registry.attached[nodes[at].node@.context] {
        AttachedFinalizer::Server => server_attaches(nodes, at),
    }
}

/// What checking the nodes of a tree gives: first all contexts, then all steps, in the order of the
/// nodes.
pub open spec fn check_error(
    registry: RegistryView,
    nodes: Seq<SealedView>,
    error: HomeConfigTreeError,
) -> bool {
    ||| exists|at: int|
        {
            &&& 0 <= at < nodes.len()
            &&& forall|i: int| 0 <= i < at ==> #[trigger] context_ok(nodes, i)
            &&& !#[trigger] context_ok(nodes, at)
            &&& error matches HomeConfigTreeError::InvalidContext { node } && node.0 == at
        }
    ||| {
        &&& forall|i: int| 0 <= i < nodes.len() ==> #[trigger] context_ok(nodes, i)
        &&& exists|at: int|
            {
                &&& 0 <= at < nodes.len()
                &&& forall|i: int| 0 <= i < at ==> #[trigger] node_attaches(registry, nodes, i)
                &&& !#[trigger] node_attaches(registry, nodes, at)
                &&& error matches HomeConfigTreeError::FinalizeAttached { node, source } && node.0
                    == at && attach_error(nodes, at, source)
            }
    }
}

/// Whether all nodes of a tree are in order.
pub open spec fn nodes_ok(registry: RegistryView, nodes: Seq<SealedView>) -> bool {
    &&& forall|i: int| 0 <= i < nodes.len() ==> #[trigger] context_ok(nodes, i)
    &&& forall|i: int| 0 <= i < nodes.len() ==> #[trigger] node_attaches(registry, nodes, i)
}

/// The sources of a document.
#[derive(Debug)]
pub struct ConfigSourceOwner {
    pub document_id: ConfigDocumentId,
    pub sources: Arc<ConfigDocumentSourceMap>,
}

/// The documents of a tree by their index.
pub open spec fn owner_views(owners: Seq<ConfigSourceOwner>) -> Seq<
    (u32, Arc<ConfigDocumentSourceMap>),
> {
    owners.map_values(
        |owner: ConfigSourceOwner| (owner.document_id.index(), owner.sources),
    )
}

/// The documents that a tree was read from.
#[derive(Debug)]
pub struct ConfigSourceBundle {
    pub owners: Vec<ConfigSourceOwner>,
}

/// The tree of all blocks of a home.
#[derive(Debug)]
pub struct HomeConfigTree {
    nodes: Vec<SealedConfigNode>,
    servers: Vec<ConfigNodeId>,
    inherited_root: Option<RootConfigSnapshot>,
    contracts: Vec<DirectiveContract>,
    sources: ConfigSourceBundle,
    schema: ValidatedV1SnapshotSchema,
}

/// Whether the nodes of a tree hang together: every node but the first hangs under an earlier one.
pub open spec fn hangs_together(nodes: Seq<SealedView>) -> bool {
    &&& nodes.len() >= 2
    &&& nodes[0].parent == ParentLink::Root
    &&& forall|i: int|
        0 < i < nodes.len() ==> ((#[trigger] nodes[i]).parent matches ParentLink::Node(parent)
            && parent.0 < i)
    &&& forall|i: int, k: int|
        0 <= i < nodes.len() && 0 <= k < nodes[i].children.len() ==> (
        #[trigger] nodes[i].children[k]).0 < nodes.len()
}

impl HomeConfigTree {
    /// The blocks.
    pub closed spec fn sealed(self) -> Seq<SealedView> {
        sealed_views(self.nodes@)
    }

    /// The nodes that are servers.
    pub closed spec fn server_nodes(self) -> Seq<ConfigNodeId> {
        self.servers@
    }

    /// What was taken over from the root.
    pub closed spec fn inherited(self) -> Option<RootInheritedConfigV1> {
        match self.inherited_root {
            Some(snapshot) => Some(snapshot.config()),
            None => None,
        }
    }

    /// What is agreed on directives.
    pub closed spec fn agreed(self) -> Seq<DirectiveContract> {
        self.contracts@
    }

    /// The documents with their sources.
    pub closed spec fn documents(self) -> Seq<(u32, Arc<ConfigDocumentSourceMap>)> {
        owner_views(self.sources.owners@)
    }

    #[verifier::type_invariant]
    spec fn checked(self) -> bool {
        &&& hangs_together(self.sealed())
        &&& forall|i: int|
            0 <= i < self.servers@.len() ==> (#[trigger] self.servers@[i]).0 < self.nodes@.len()
        &&& forall|i: int|
            0 <= i < self.sources.owners@.len() ==> (
            #[trigger] self.sources.owners@[i]).sources.sources().wf()
    }
}

impl HomeConfigTree {
    /// The block with the given index.
    pub fn node(&self, at: usize) -> (node: &SealedConfigNode)
        requires
            at < self.sealed().len(),
        ensures
            node@ == self.sealed()[at as int],
            hangs_together(self.sealed()),
    {
        proof {
            use_type_invariant(self);
        }
        &self.nodes[at]
    }

    /// How many blocks there are: at least the outermost and the `pishoo` block.
    pub fn node_count(&self) -> (count: usize)
        ensures
            count == self.sealed().len(),
            count >= 2,
    {
        proof {
            use_type_invariant(self);
        }
        self.nodes.len()
    }

    /// The nodes that are servers.
    pub fn server_list(&self) -> (servers: &Vec<ConfigNodeId>)
        ensures
            servers@ == self.server_nodes(),
            forall|i: int|
                0 <= i < servers@.len() ==> (#[trigger] servers@[i]).0 < self.sealed().len(),
    {
        proof {
            use_type_invariant(self);
        }
        &self.servers
    }

    /// What is agreed on directives.
    pub fn contracts(&self) -> (contracts: &Vec<DirectiveContract>)
        ensures
            contracts@ == self.agreed(),
    {
        &self.contracts
    }

    /// What was taken over from the root.
    pub fn inherited_config(&self) -> (config: Option<&RootInheritedConfigV1>)
        ensures
            match config {
                Some(config) => self.inherited() == Some(*config),
                None => self.inherited() is None,
            },
    {
        match &self.inherited_root {
            Some(snapshot) => Some(snapshot.v1()),
            None => None,
        }
    }

    /// The documents that the tree was read from.
    pub fn sources(&self) -> (sources: &ConfigSourceBundle)
        ensures
            owner_views(sources.owners@) == self.documents(),
            sources.wf(),
    {
        proof {
            use_type_invariant(self);
        }
        &self.sources
    }

    /// The path of the source that holds a place.
    pub fn source_path(&self, span: ConfigSourceSpan) -> (path: Option<&UnixPath>)
        ensures
            match path {
                Some(path) => source_at(self.documents(), span) matches Some(file) && file.path
                    == Some(*path),
                None => source_at(self.documents(), span) matches Some(file) ==> file.path is None,
            },
    {
        self.sources.source_path(span)
    }

    /// The schema of the snapshot, which the registry was found to serve.
    pub closed spec fn checked_schema(self) -> ValidatedV1SnapshotSchema {
        self.schema
    }

    pub fn v1_snapshot_schema(&self) -> (schema: ValidatedV1SnapshotSchema)
        ensures
            schema == self.checked_schema(),
    {
        self.schema
    }
}

impl ConfigSourceBundle {
    /// Whether all sources are in order.
    pub open spec fn wf(self) -> bool {
        forall|i: int|
            0 <= i < self.owners@.len() ==> (#[trigger] self.owners@[i]).sources.sources().wf()
    }
}

/// A tree is made of the given parts.
pub open spec fn is_tree(
    registry: RegistryView,
    tree: HomeConfigTree,
    nodes: Seq<SealedView>,
    servers: Seq<ConfigNodeId>,
    inherited: Option<RootInheritedConfigV1>,
    documents: Seq<(u32, Arc<ConfigDocumentSourceMap>)>,
) -> bool {
    &&& tree.sealed() == nodes
    &&& tree.server_nodes() == servers
    &&& tree.inherited() == inherited
    &&& tree.documents() == documents
    &&& is_contract_list(registry, tree.agreed())
}

/// A block without contents, as the outermost block or as the `pishoo` block of a home that has
/// none.
pub open spec fn is_blank(node: Arc<ConfigNode>, context: Seq<char>, span: SourceSpan) -> bool {
    node@ == NodeView::empty(context, None, span)
}

/// What putting a tree together gives once the registry is found to serve it.
pub open spec fn seals(
    registry: RegistryView,
    root: Arc<ConfigNode>,
    pishoo: Arc<ConfigNode>,
    document: Option<u32>,
    servers: Seq<Placed>,
    inherited: Option<RootInheritedConfigV1>,
    documents: Seq<(u32, Arc<ConfigDocumentSourceMap>)>,
    result: Result<Arc<HomeConfigTree>, HomeConfigTreeError>,
) -> bool {
    let nodes = tree_nodes(root, pishoo, document, servers);
    match result {
        Ok(tree) => nodes_ok(registry, nodes) && is_tree(
            registry,
            *tree,
            nodes,
            server_ids(servers),
            inherited,
            documents,
        ),
        Err(error) => check_error(registry, nodes, error),
    }
}

/// What a server that cannot be taken in gives.
pub open spec fn is_fault(
    fault: FragmentFault,
    result: Result<Arc<HomeConfigTree>, HomeConfigTreeError>,
) -> bool {
    match fault {
        FragmentFault::Contract => result matches Err(HomeConfigTreeError::RegistryContractMismatch),
        FragmentFault::Number(number) => result matches Err(HomeConfigTreeError::DocumentId { source })
            && source == (ConfigDocumentIdError::IndexOverflow { index: number }),
    }
}

/// The tree of a hypervisor before the servers of the identities: the servers of the root document.
pub open spec fn global_start(fragment: ParsedPishooFragment) -> Gathered {
    Gathered {
        servers: placed(fragment.node@.child("server"@), 0),
        owners: seq![(0u32, fragment.sources)],
        next: 1,
    }
}

/// The tree of a worker before the servers of the identities: the worker's document, where there is
/// one.
pub open spec fn worker_start(fragment: Option<ParsedPishooFragment>) -> Gathered {
    match fragment {
        Some(fragment) => Gathered {
            servers: seq![],
            owners: seq![(0u32, fragment.sources)],
            next: 1,
        },
        None => Gathered { servers: seq![], owners: seq![], next: 0 },
    }
}

/// What putting together the tree of a hypervisor gives: the block of the root document with its
/// servers, and the servers of the identities in their order, each document with a number of its own.
pub open spec fn builds_global_tree(
    registry: RegistryView,
    fragment: ParsedPishooFragment,
    fragments: Seq<ParsedServerFragment>,
    result: Result<Arc<HomeConfigTree>, HomeConfigTreeError>,
) -> bool {
    if fragment.registry_contract != registry.contract {
        result matches Err(HomeConfigTreeError::RegistryContractMismatch)
    } else {
        ||| result matches Err(HomeConfigTreeError::SnapshotContract { source }) && validates(
            registry,
            Err(source),
        )
        ||| validates(registry, Ok(())) && match gather(
            global_start(fragment),
            fragments,
            registry.contract,
        ) {
            Err(fault) => is_fault(fault, result),
            Ok(parts) => exists|root: Arc<ConfigNode>| #[trigger]
                is_blank(root, ROOT@, fragment.node@.span) && seals(
                    registry,
                    root,
                    fragment.node,
                    Some(0),
                    parts.servers,
                    None,
                    parts.owners,
                    result,
                ),
        }
    }
}

/// The place of a block that no document holds.
pub open spec fn synthetic_place() -> SourceSpan {
    SourceSpan { source_id: SourceId(0), start: 0, end: 0 }
}

/// What putting together the tree of a worker gives: the block of the worker's document, or an
/// empty one, over what is taken over from the root, and the servers of the identities.
pub open spec fn builds_worker_tree(
    registry: RegistryView,
    snapshot: RootConfigSnapshot,
    fragment: Option<ParsedPishooFragment>,
    fragments: Seq<ParsedServerFragment>,
    result: Result<Arc<HomeConfigTree>, HomeConfigTreeError>,
) -> bool {
    if fragment matches Some(fragment) && fragment.registry_contract != registry.contract {
        result matches Err(HomeConfigTreeError::RegistryContractMismatch)
    } else {
        ||| result matches Err(HomeConfigTreeError::SnapshotContract { source }) && validates(
            registry,
            Err(source),
        )
        ||| validates(registry, Ok(())) && match gather(
            worker_start(fragment),
            fragments,
            registry.contract,
        ) {
            Err(fault) => is_fault(fault, result),
            Ok(parts) => exists|root: Arc<ConfigNode>, pishoo: Arc<ConfigNode>| #[trigger]
                is_worker_base(fragment, root, pishoo) && seals(
                    registry,
                    root,
                    pishoo,
                    if fragment is Some {
                        Some(0)
                    } else {
                        None
                    },
                    parts.servers,
                    Some(snapshot.config()),
                    parts.owners,
                    result,
                ),
        }
    }
}

/// The two outermost blocks of a worker's tree.
pub open spec fn is_worker_base(
    fragment: Option<ParsedPishooFragment>,
    root: Arc<ConfigNode>,
    pishoo: Arc<ConfigNode>,
) -> bool {
    match fragment {
        Some(fragment) => is_blank(root, ROOT@, fragment.node@.span) && pishoo == fragment.node,
        None => is_blank(root, ROOT@, synthetic_place()) && is_blank(
            pishoo,
            PISHOO@,
            synthetic_place(),
        ),
    }
}

/// A tree that is being put together.
struct HomeConfigTreeBuilder {
    nodes: Vec<SealedConfigNode>,
    servers: Vec<ConfigNodeId>,
    owners: Vec<ConfigSourceOwner>,
    document_ids: ConfigDocumentIdAllocator,
}

/// The nodes of a tree that is being put together.
spec fn is_built(
    builder: HomeConfigTreeBuilder,
    root: Arc<ConfigNode>,
    pishoo: Arc<ConfigNode>,
    document: Option<u32>,
    servers: Seq<Placed>,
) -> bool {
    &&& builder.nodes@.len() == 2 + server_parts(servers).len()
    &&& sealed_views(builder.nodes@)[0] == (SealedView {
        document: None,
        node: root,
        parent: ParentLink::Root,
        children: seq![ConfigNodeId(1)],
    })
    &&& sealed_views(builder.nodes@)[1] == (SealedView {
        document,
        node: pishoo,
        parent: ParentLink::Node(ConfigNodeId(0)),
        children: seq![],
    })
    &&& sealed_views(builder.nodes@).skip(2) == server_parts(servers)
    &&& builder.servers@ == server_ids(servers)
    &&& forall|i: int|
        0 <= i < builder.owners@.len() ==> (#[trigger] builder.owners@[i]).sources.sources().wf()
}

impl HomeConfigTreeBuilder {
    fn new(
        root: Arc<ConfigNode>,
        pishoo: Arc<ConfigNode>,
        document_id: Option<ConfigDocumentId>,
        document_ids: ConfigDocumentIdAllocator,
    ) -> (builder: Self)
        ensures
            is_built(builder, root, pishoo, document_index(document_id), seq![]),
            builder.owners@.len() == 0,
            builder.document_ids == document_ids,
    {
        let mut nodes: Vec<SealedConfigNode> = Vec::new();
        let mut children: Vec<ConfigNodeId> = Vec::new();
        children.push(ConfigNodeId(1));
        assert(children@ =~= seq![ConfigNodeId(1)]);
        nodes.push(
            SealedConfigNode { document_id: None, node: root, parent: ParentLink::Root, children },
        );
        nodes.push(
            SealedConfigNode {
                document_id,
                node: pishoo,
                parent: ParentLink::Node(ConfigNodeId(0)),
                children: Vec::new(),
            },
        );
        assert(nodes@[1].children@ =~= seq![]);
        assert(sealed_views(nodes@).skip(2) =~= seq![]);
        HomeConfigTreeBuilder {
            nodes,
            servers: Vec::new(),
            owners: Vec::new(),
            document_ids,
        }
    }

    /// Adds a server and its locations.
    fn attach_server(
        &mut self,
        fragment: &ParsedServerFragment,
        document_id: ConfigDocumentId,
        Ghost(root): Ghost<Arc<ConfigNode>>,
        Ghost(pishoo): Ghost<Arc<ConfigNode>>,
        Ghost(document): Ghost<Option<u32>>,
        Ghost(servers): Ghost<Seq<Placed>>,
    )
        requires
            is_built(*old(self), root, pishoo, document, servers),
        ensures
            is_built(
                *final(self),
                root,
                pishoo,
                document,
                servers.push(Placed { node: fragment.node, document: document_id.index() }),
            ),
            final(self).owners == old(self).owners,
            final(self).document_ids == old(self).document_ids,
    {
        let ghost placed_here = Placed { node: fragment.node, document: document_id.index() };
        let ghost part_start = sealed_views(self.nodes@);
        let at = self.nodes.len();
        let server = ConfigNodeId(at);
        let locations = fragment.locations();
        let ghost inside = locations_of(fragment.node);
        let mut children: Vec<ConfigNodeId> = Vec::new();
        self.nodes.push(
            SealedConfigNode {
                document_id: Some(document_id),
                node: Arc::clone(&fragment.node),
                parent: ParentLink::Node(ConfigNodeId(1)),
                children: Vec::new(),
            },
        );
        let ghost with_server = sealed_views(self.nodes@);
        let mut i: usize = 0;
        while i < locations.len()
            invariant
                i <= locations@.len(),
                at == part_start.len(),
                server == ConfigNodeId(at),
                inside == locations_of(fragment.node),
                locations@.len() == inside.len(),
                forall|k: int|
                    0 <= k < locations@.len() ==> (#[trigger] locations@[k]).node == inside[k],
                self.owners == old(self).owners,
                self.servers == old(self).servers,
                self.document_ids == old(self).document_ids,
                with_server.len() == at + 1,
                self.nodes@.len() == at + 1 + i,
                sealed_views(self.nodes@).take(at + 1) == with_server,
                forall|k: int|
                    0 <= k < i ==> #[trigger] sealed_views(self.nodes@)[at + 1 + k] == (SealedView {
                        document: Some(document_id.index()),
                        node: inside[k],
                        parent: ParentLink::Node(ConfigNodeId(at)),
                        children: seq![],
                    }),
                children@.len() == i,
                forall|k: int|
                    0 <= k < i ==> #[trigger] children@[k] == ConfigNodeId((at + 1 + k) as usize),
            decreases locations@.len() - i,
        {
            let ghost before = sealed_views(self.nodes@);
            children.push(ConfigNodeId(self.nodes.len()));
            self.nodes.push(
                SealedConfigNode {
                    document_id: Some(document_id),
                    node: Arc::clone(&locations[i].node),
                    parent: ParentLink::Node(server),
                    children: Vec::new(),
                },
            );
            proof {
                let now = sealed_views(self.nodes@);
                assert(now.last().children =~= seq![]);
                assert(now =~= before.push(now.last()));
                assert(now.take(at + 1) =~= before.take(at + 1));
                assert forall|k: int| 0 <= k <= i implies #[trigger] now[at + 1 + k] == (SealedView {
                    document: Some(document_id.index()),
                    node: inside[k],
                    parent: ParentLink::Node(ConfigNodeId(at)),
                    children: seq![],
                }) by {
                    if k < i {
                        assert(now[at + 1 + k] == before[at + 1 + k]);
                    }
                }
            }
            i += 1;
        }
        let ghost full = sealed_views(self.nodes@);
        let ghost listed = children@;
        self.nodes.set(
            at,
            SealedConfigNode {
                document_id: Some(document_id),
                node: Arc::clone(&fragment.node),
                parent: ParentLink::Node(ConfigNodeId(1)),
                children,
            },
        );
        self.servers.push(server);
        proof {
            let now = sealed_views(self.nodes@);
            let list = servers.push(placed_here);
            assert(list.drop_last() =~= servers);
            let part = server_part(placed_here, at as int);
            let head = SealedView {
                document: Some(document_id.index()),
                node: fragment.node,
                parent: ParentLink::Node(ConfigNodeId(1)),
                children: listed,
            };
            assert(now =~= full.update(at as int, head));
            assert(listed =~= part[0].children);
            assert(full.take(at + 1)[0] == with_server[0]);
            assert(full.take(at + 1)[1] == with_server[1]);
            assert(with_server[0] == part_start[0] && with_server[1] == part_start[1]);
            let tail = now.skip(2);
            let known = part_start.skip(2);
            assert forall|k: int| 0 <= k < tail.len() implies #[trigger] tail[k] == (known
                + part)[k] by {
                if k + 2 < at {
                    assert(full.take(at + 1)[k + 2] == with_server[k + 2]);
                    assert(with_server[k + 2] == part_start[k + 2]);
                    assert(known[k] == part_start[k + 2]);
                } else if k + 2 == at {
                } else {
                    let j = k + 2 - at - 1;
                    assert(full[at + 1 + j] == part[1 + j]);
                }
            }
            assert(tail =~= known + part);
        }
    }

    /// Adds the servers of one document.
    fn attach_all(
        &mut self,
        fragments: &Vec<ParsedServerFragment>,
        document_id: ConfigDocumentId,
        Ghost(root): Ghost<Arc<ConfigNode>>,
        Ghost(pishoo): Ghost<Arc<ConfigNode>>,
        Ghost(document): Ghost<Option<u32>>,
        Ghost(servers): Ghost<Seq<Placed>>,
    )
        requires
            is_built(*old(self), root, pishoo, document, servers),
        ensures
            is_built(
                *final(self),
                root,
                pishoo,
                document,
                servers + placed(fragment_nodes(fragments@), document_id.index()),
            ),
            final(self).owners == old(self).owners,
            final(self).document_ids == old(self).document_ids,
    {
        let ghost all = placed(fragment_nodes(fragments@), document_id.index());
        let mut i: usize = 0;
        assert(servers + all.take(0) =~= servers);
        while i < fragments.len()
            invariant
                i <= fragments@.len(),
                all == placed(fragment_nodes(fragments@), document_id.index()),
                is_built(*self, root, pishoo, document, servers + all.take(i as int)),
                self.owners == old(self).owners,
                self.document_ids == old(self).document_ids,
            decreases fragments@.len() - i,
        {
            self.attach_server(
                &fragments[i],
                document_id,
                Ghost(root),
                Ghost(pishoo),
                Ghost(document),
                Ghost(servers + all.take(i as int)),
            );
            assert((servers + all.take(i as int)).push(all[i as int]) =~= servers + all.take(
                i + 1,
            ));
            i += 1;
        }
        assert(all.take(i as int) =~= all);
    }

    fn own(&mut self, document_id: ConfigDocumentId, sources: Arc<ConfigDocumentSourceMap>)
        requires
            sources.sources().wf(),
        ensures
            final(self).nodes == old(self).nodes,
            final(self).servers == old(self).servers,
            final(self).document_ids == old(self).document_ids,
            final(self).owners@ == old(self).owners@.push(
                ConfigSourceOwner { document_id, sources },
            ),
    {
        self.owners.push(ConfigSourceOwner { document_id, sources });
    }
}

/// A server that cannot be taken in stays the first, whatever servers follow it.
proof fn lemma_fault_stays(
    start: Gathered,
    fragments: Seq<ParsedServerFragment>,
    count: int,
    contract: ConfigRegistryContract,
)
    requires
        0 <= count <= fragments.len(),
        gather(start, fragments.take(count), contract) is Err,
    ensures
        gather(start, fragments, contract) == gather(start, fragments.take(count), contract),
    decreases fragments.len(),
{
    if count == fragments.len() {
        assert(fragments.take(count) =~= fragments);
    } else {
        assert(fragments.drop_last().take(count) =~= fragments.take(count));
        lemma_fault_stays(start, fragments.drop_last(), count, contract);
    }
}

/// A document that is found first stays the one that is found.
proof fn lemma_owner_stays(
    owners: Seq<(u32, Arc<ConfigDocumentSourceMap>)>,
    count: int,
    sources: Arc<ConfigDocumentSourceMap>,
)
    requires
        0 <= count <= owners.len(),
        owner_of(owners.take(count), sources) is Some,
    ensures
        owner_of(owners, sources) == owner_of(owners.take(count), sources),
    decreases owners.len(),
{
    if count == owners.len() {
        assert(owners.take(count) =~= owners);
    } else {
        assert(owners.drop_last().take(count) =~= owners.take(count));
        lemma_owner_stays(owners.drop_last(), count, sources);
    }
}

/// Every server of an identity belongs to the document whose sources it was read from, so that two
/// servers share a document exactly when they share their sources.
pub proof fn servers_belong_to_their_documents(
    start: Gathered,
    fragments: Seq<ParsedServerFragment>,
    contract: ConfigRegistryContract,
    parts: Gathered,
)
    requires
        gather(start, fragments, contract) == Ok::<Gathered, FragmentFault>(parts),
    ensures
        parts.servers.len() == start.servers.len() + fragments.len(),
        forall|i: int|
            0 <= i < fragments.len() ==> parts.servers[start.servers.len() + i] == (Placed {
                node: fragments[i].node,
                document: owner_of(parts.owners, (#[trigger] fragments[i]).sources)->0,
            }) && owner_of(parts.owners, fragments[i].sources) is Some,
    decreases fragments.len(),
{
    if fragments.len() > 0 {
        let init = fragments.drop_last();
        let before = gather(start, init, contract)->Ok_0;
        servers_belong_to_their_documents(start, init, contract, before);
        let known = before.owners.len() as int;
        assert(parts.owners.take(known) =~= before.owners);
        assert forall|i: int| 0 <= i < fragments.len() implies parts.servers[start.servers.len() + i]
            == (Placed {
            node: fragments[i].node,
            document: owner_of(parts.owners, (#[trigger] fragments[i]).sources)->0,
        }) && owner_of(parts.owners, fragments[i].sources) is Some by {
            if i < init.len() {
                assert(init[i] == fragments[i]);
                lemma_owner_stays(parts.owners, known, fragments[i].sources);
            } else if owner_of(before.owners, fragments[i].sources) is Some {
                lemma_owner_stays(parts.owners, known, fragments[i].sources);
            } else {
                assert(parts.owners.drop_last() =~= before.owners);
            }
        }
    }
}

/// Whether the sources of all servers are in order.
pub open spec fn fragments_wf(fragments: Seq<ParsedServerFragment>) -> bool {
    forall|i: int| 0 <= i < fragments.len() ==> (#[trigger] fragments[i]).sources.sources().wf()
}

/// Whether what is gathered stands in the tree that is being put together.
spec fn has_gathered(
    builder: HomeConfigTreeBuilder,
    root: Arc<ConfigNode>,
    pishoo: Arc<ConfigNode>,
    document: Option<u32>,
    parts: Gathered,
) -> bool {
    &&& is_built(builder, root, pishoo, document, parts.servers)
    &&& owner_views(builder.owners@) == parts.owners
    &&& builder.document_ids.next() == parts.next
}

impl HomeConfigTreeBuilder {
    fn find_owner(&self, sources: &Arc<ConfigDocumentSourceMap>) -> (id: Option<ConfigDocumentId>)
        ensures
            document_index(id) == owner_of(owner_views(self.owners@), *sources),
    {
        let ghost all = owner_views(self.owners@);
        let mut i: usize = 0;
        assert(all.take(0) =~= seq![]);
        while i < self.owners.len()
            invariant
                i <= self.owners@.len(),
                all == owner_views(self.owners@),
                owner_of(all.take(i as int), *sources) is None,
            decreases self.owners@.len() - i,
        {
            proof {
                assert(all.take(i + 1).drop_last() =~= all.take(i as int));
                assert(all.take(i + 1).last() == all[i as int]);
            }
            if self.owners[i].sources.is_same(sources) {
                proof {
                    lemma_owner_stays(all, i + 1, *sources);
                }
                return Some(self.owners[i].document_id);
            }
            i += 1;
        }
        assert(all.take(i as int) =~= all);
        None
    }

    /// Adds a server of an identity.
    fn attach_fragment(
        &mut self,
        registry: &ConfigRegistry,
        fragment: &ParsedServerFragment,
        Ghost(root): Ghost<Arc<ConfigNode>>,
        Ghost(pishoo): Ghost<Arc<ConfigNode>>,
        Ghost(document): Ghost<Option<u32>>,
        Ghost(parts): Ghost<Gathered>,
    ) -> (result: Result<(), HomeConfigTreeError>)
        requires
            has_gathered(*old(self), root, pishoo, document, parts),
            fragment.sources.sources().wf(),
        ensures
            match gather_one(parts, *fragment, registry@.contract) {
                Ok(more) => result is Ok && has_gathered(
                    *final(self),
                    root,
                    pishoo,
                    document,
                    more,
                ),
                Err(fault) => result matches Err(error) && is_fault(fault, Err(error)),
            },
    {
        if !registry.matches_contract(&fragment.registry_contract) {
            return Err(HomeConfigTreeError::RegistryContractMismatch);
        }
        match self.find_owner(&fragment.sources) {
            Some(document_id) => {
                self.attach_server(
                    fragment,
                    document_id,
                    Ghost(root),
                    Ghost(pishoo),
                    Ghost(document),
                    Ghost(parts.servers),
                );
            },
            None => {
                let document_id = match self.document_ids.allocate() {
                    Ok(id) => id,
                    Err(source) => {
                        return Err(HomeConfigTreeError::DocumentId { source });
                    },
                };
                assert(is_built(*self, root, pishoo, document, parts.servers));
                self.attach_server(
                    fragment,
                    document_id,
                    Ghost(root),
                    Ghost(pishoo),
                    Ghost(document),
                    Ghost(parts.servers),
                );
                let ghost before = self.owners@;
                self.own(document_id, Arc::clone(&fragment.sources));
                assert(owner_views(self.owners@) =~= owner_views(before).push(
                    (document_id.index(), fragment.sources),
                ));
            },
        }
        Ok(())
    }

    /// Adds the servers of identities one after the other.
    fn attach_fragments(
        &mut self,
        registry: &ConfigRegistry,
        fragments: &Vec<ParsedServerFragment>,
        Ghost(root): Ghost<Arc<ConfigNode>>,
        Ghost(pishoo): Ghost<Arc<ConfigNode>>,
        Ghost(document): Ghost<Option<u32>>,
        Ghost(start): Ghost<Gathered>,
    ) -> (result: Result<(), HomeConfigTreeError>)
        requires
            has_gathered(*old(self), root, pishoo, document, start),
            fragments_wf(fragments@),
        ensures
            match gather(start, fragments@, registry@.contract) {
                Ok(parts) => result is Ok && has_gathered(
                    *final(self),
                    root,
                    pishoo,
                    document,
                    parts,
                ),
                Err(fault) => result matches Err(error) && is_fault(fault, Err(error)),
            },
    {
        let ghost all = fragments@;
        let ghost contract = registry@.contract;
        let ghost mut parts = start;
        let mut i: usize = 0;
        assert(all.take(0) =~= seq![]);
        while i < fragments.len()
            invariant
                i <= fragments@.len(),
                all == fragments@,
                contract == registry@.contract,
                fragments_wf(all),
                gather(start, all.take(i as int), contract) == Ok::<Gathered, FragmentFault>(parts),
                has_gathered(*self, root, pishoo, document, parts),
            decreases fragments@.len() - i,
        {
            let fragment = &fragments[i];
            proof {
                assert(all.take(i + 1).drop_last() =~= all.take(i as int));
                assert(all.take(i + 1).last() == *fragment);
            }
            match self.attach_fragment(
                registry,
                fragment,
                Ghost(root),
                Ghost(pishoo),
                Ghost(document),
                Ghost(parts),
            ) {
                Ok(_) => {},
                Err(error) => {
                    proof {
                        lemma_fault_stays(start, all, i + 1, contract);
                    }
                    return Err(error);
                },
            }
            proof {
                parts = gather_one(parts, *fragment, contract)->Ok_0;
            }
            i += 1;
        }
        assert(all.take(i as int) =~= all);
        Ok(())
    }
}

/// Every server and location hangs under an earlier node.
proof fn lemma_parts(servers: Seq<Placed>)
    requires
        2 + server_parts(servers).len() <= usize::MAX,
    ensures
        forall|k: int|
            0 <= k < server_parts(servers).len() ==> ((
            #[trigger] server_parts(servers)[k]).parent matches ParentLink::Node(parent)
                && parent.0 < k + 2 && parent.0 > 0),
        forall|k: int, j: int|
            0 <= k < server_parts(servers).len() && 0 <= j < server_parts(servers)[k].children.len()
                ==> (#[trigger] server_parts(servers)[k].children[j]).0 < 2 + server_parts(
                servers,
            ).len(),
        forall|j: int|
            0 <= j < server_ids(servers).len() ==> (#[trigger] server_ids(servers)[j]).0 < 2
                + server_parts(servers).len(),
    decreases servers.len(),
{
    if servers.len() > 0 {
        let before = server_parts(servers.drop_last());
        let parts = server_parts(servers);
        let at = before.len() + 2;
        let part = server_part(servers.last(), at as int);
        lemma_parts(servers.drop_last());
        assert(parts == before + part);
        assert forall|k: int| 0 <= k < parts.len() implies ((
        #[trigger] parts[k]).parent matches ParentLink::Node(parent) && parent.0 < k + 2
            && parent.0 > 0) by {
            if k < before.len() {
                assert(parts[k] == before[k]);
            } else {
                assert(parts[k] == part[k - before.len()]);
            }
        }
        assert forall|k: int, j: int|
            0 <= k < parts.len() && 0 <= j < parts[k].children.len() implies (
        #[trigger] parts[k].children[j]).0 < 2 + parts.len() by {
            if k < before.len() {
                assert(parts[k] == before[k]);
                assert(before[k].children[j].0 < 2 + before.len());
            } else {
                assert(parts[k] == part[k - before.len()]);
            }
        }
        let ids = server_ids(servers);
        let earlier = server_ids(servers.drop_last());
        assert(ids == earlier.push(ConfigNodeId(at as usize)));
        assert forall|j: int| 0 <= j < ids.len() implies (#[trigger] ids[j]).0 < 2
            + parts.len() by {
            if j < earlier.len() {
                assert(ids[j] == earlier[j]);
            }
        }
    }
}

proof fn lemma_tree_hangs(
    root: Arc<ConfigNode>,
    pishoo: Arc<ConfigNode>,
    document: Option<u32>,
    servers: Seq<Placed>,
)
    requires
        2 + server_parts(servers).len() <= usize::MAX,
    ensures
        hangs_together(tree_nodes(root, pishoo, document, servers)),
        forall|j: int|
            0 <= j < server_ids(servers).len() ==> (#[trigger] server_ids(servers)[j]).0
                < tree_nodes(root, pishoo, document, servers).len(),
{
    let nodes = tree_nodes(root, pishoo, document, servers);
    let parts = server_parts(servers);
    lemma_parts(servers);
    assert forall|i: int| 0 < i < nodes.len() implies ((
    #[trigger] nodes[i]).parent matches ParentLink::Node(parent) && parent.0 < i) by {
        if i >= 2 {
            assert(nodes[i] == parts[i - 2]);
        }
    }
    assert forall|i: int, k: int|
        0 <= i < nodes.len() && 0 <= k < nodes[i].children.len() implies (
    #[trigger] nodes[i].children[k]).0 < nodes.len() by {
        if i >= 2 {
            assert(nodes[i] == parts[i - 2]);
            assert(parts[i - 2].children[k].0 < 2 + parts.len());
        } else if i == 1 {
            assert(nodes[1].children[k] == server_ids(servers)[k]);
        }
    }
}

fn context_at(nodes: &Vec<SealedConfigNode>, at: usize) -> (context: ContextKey)
    requires
        at < nodes@.len(),
    ensures
        context.text() == expected_context(sealed_views(nodes@), at as int),
{
    match nodes[at].parent {
        ParentLink::Root => ContextKey(ROOT),
        ParentLink::Node(parent) => if parent.0 == 0 {
            ContextKey(PISHOO)
        } else if parent.0 == 1 {
            ContextKey(SERVER)
        } else {
            ContextKey(LOCATION)
        },
    }
}

fn verify_nodes(nodes: &Vec<SealedConfigNode>) -> (result: Result<(), usize>)
    ensures
        match result {
            Ok(_) => forall|i: int|
                0 <= i < nodes@.len() ==> #[trigger] context_ok(sealed_views(nodes@), i),
            Err(at) => {
                &&& at < nodes@.len()
                &&& forall|i: int| 0 <= i < at ==> #[trigger] context_ok(sealed_views(nodes@), i)
                &&& !context_ok(sealed_views(nodes@), at as int)
            },
        },
{
    let ghost views = sealed_views(nodes@);
    let mut i: usize = 0;
    while i < nodes.len()
        invariant
            i <= nodes@.len(),
            views == sealed_views(nodes@),
            forall|k: int| 0 <= k < i ==> #[trigger] context_ok(views, k),
        decreases nodes@.len() - i,
    {
        let same = nodes[i].node.context.is(context_at(nodes, i));
        assert(views[i as int].node@.context == nodes@[i as int].node.context.text());
        if !same {
            return Err(i);
        }
        assert(context_ok(views, i as int));
        i += 1;
    }
    Ok(())
}

/// Looks whether a server can stay where it stands.
fn finalize_attached_server(nodes: &Vec<SealedConfigNode>, at: usize) -> (result: Result<
    (),
    FinalizeError,
>)
    requires
        hangs_together(sealed_views(nodes@)),
        at < nodes@.len(),
    ensures
        match result {
            Ok(_) => server_attaches(sealed_views(nodes@), at as int),
            Err(error) => !server_attaches(sealed_views(nodes@), at as int) && attach_error(
                sealed_views(nodes@),
                at as int,
                error,
            ),
        },
{
    let ghost views = sealed_views(nodes@);
    let here = &nodes[at];
    assert(views[at as int] == here@);
    let in_pishoo = match here.parent {
        ParentLink::Root => false,
        ParentLink::Node(parent) => {
            assert(views[at as int].parent == ParentLink::Node(parent));
            if at == 0 {
                assert(false);
            }
            assert(parent.0 < at);
            assert(views[parent.0 as int].node@.context
                == nodes@[parent.0 as int].node.context.text());
            nodes[parent.0].node.context.is(ContextKey(PISHOO))
        },
    };
    if !in_pishoo {
        return Err(
            FinalizeError::Server(
                FinalizeServerError::InvalidAttachedParent { span: here.node.span },
            ),
        );
    }
    let mut i: usize = 0;
    while i < here.children.len()
        invariant
            i <= here.children@.len(),
            views == sealed_views(nodes@),
            hangs_together(views),
            at < nodes@.len(),
            *here == nodes@[at as int],
            views[at as int] == here@,
            views[at as int].parent matches ParentLink::Node(parent)
                && views[parent.0 as int].node@.context == PISHOO@,
            forall|k: int|
                0 <= k < i ==> has_pattern(
                    views[(#[trigger] views[at as int].children[k]).0 as int].node@,
                ),
        decreases here.children@.len() - i,
    {
        let child = here.children[i];
        assert(views[at as int].children[i as int] == child);
        assert(child.0 < views.len());
        let location = &nodes[child.0].node;
        assert(views[child.0 as int].node == *location);
        match location.payload::<Pattern>() {
            Ok(Some(_)) => {},
            Ok(None) => {
                let error = FinalizeError::Server(
                    FinalizeServerError::MissingAttachedLocationPattern { span: location.span },
                );
                proof {
                    assert(pattern_error(
                        views[views[at as int].children[i as int].0 as int].node@,
                        error,
                    ));
                    assert(!has_pattern(
                        views[views[at as int].children[i as int].0 as int].node@,
                    ));
                }
                return Err(error);
            },
            Err(query) => {
                let error = FinalizeError::Query(query);
                proof {
                    assert(pattern_error(
                        views[views[at as int].children[i as int].0 as int].node@,
                        error,
                    ));
                    assert(!has_pattern(
                        views[views[at as int].children[i as int].0 as int].node@,
                    ));
                }
                return Err(error);
            },
        }
        i += 1;
    }
    Ok(())
}

fn finalize_nodes(nodes: &Vec<SealedConfigNode>, registry: &ConfigRegistry) -> (result: Result<
    (),
    HomeConfigTreeError,
>)
    requires
        hangs_together(sealed_views(nodes@)),
    ensures
        match result {
            Ok(_) => nodes_ok(registry@, sealed_views(nodes@)),
            Err(error) => check_error(registry@, sealed_views(nodes@), error),
        },
{
    let ghost views = sealed_views(nodes@);
    match verify_nodes(nodes) {
        Ok(_) => {},
        Err(at) => {
            assert(!context_ok(views, at as int));
            return Err(HomeConfigTreeError::InvalidContext { node: ConfigNodeId(at) });
        },
    }
    let mut i: usize = 0;
    while i < nodes.len()
        invariant
            i <= nodes@.len(),
            views == sealed_views(nodes@),
            hangs_together(views),
            forall|k: int| 0 <= k < nodes@.len() ==> #[trigger] context_ok(views, k),
            forall|k: int| 0 <= k < i ==> #[trigger] node_attaches(registry@, views, k),
        decreases nodes@.len() - i,
    {
        assert(views[i as int].node@.context == nodes@[i as int].node.context.text());
        match registry.attached_finalizer(nodes[i].node.context) {
            Some(AttachedFinalizer::Server) => match finalize_attached_server(nodes, i) {
                Ok(_) => {},
                Err(source) => {
                    assert(!node_attaches(registry@, views, i as int));
                    return Err(
                        HomeConfigTreeError::FinalizeAttached { node: ConfigNodeId(i), source },
                    );
                },
            },
            None => {},
        }
        assert(node_attaches(registry@, views, i as int));
        i += 1;
    }
    Ok(())
}

fn copy_ids(list: &Vec<ConfigNodeId>) -> (copy: Vec<ConfigNodeId>)
    ensures
        copy@ == list@,
{
    let mut copy: Vec<ConfigNodeId> = Vec::new();
    let mut i: usize = 0;
    while i < list.len()
        invariant
            i <= list@.len(),
            copy@ == list@.take(i as int),
        decreases list@.len() - i,
    {
        copy.push(list[i]);
        assert(list@.take(i + 1) =~= list@.take(i as int).push(list@[i as int]));
        i += 1;
    }
    assert(list@.take(i as int) =~= list@);
    copy
}

impl HomeConfigTreeBuilder {
    fn seal(
        self,
        registry: &ConfigRegistry,
        inherited_root: Option<RootConfigSnapshot>,
        schema: ValidatedV1SnapshotSchema,
        Ghost(root): Ghost<Arc<ConfigNode>>,
        Ghost(pishoo): Ghost<Arc<ConfigNode>>,
        Ghost(document): Ghost<Option<u32>>,
        Ghost(servers): Ghost<Seq<Placed>>,
    ) -> (result: Result<Arc<HomeConfigTree>, HomeConfigTreeError>)
        requires
            is_built(self, root, pishoo, document, servers),
        ensures
            seals(
                registry@,
                root,
                pishoo,
                document,
                servers,
                match inherited_root {
                    Some(snapshot) => Some(snapshot.config()),
                    None => None,
                },
                owner_views(self.owners@),
                result,
            ),
    {
        let ghost before = sealed_views(self.nodes@);
        let HomeConfigTreeBuilder { nodes, servers: ids, owners, document_ids: _ } = self;
        let mut nodes = nodes;
        let document_id = nodes[1].document_id;
        let node = Arc::clone(&nodes[1].node);
        let ghost full = nodes.len();
        nodes.set(
            1,
            SealedConfigNode {
                document_id,
                node,
                parent: ParentLink::Node(ConfigNodeId(0)),
                children: copy_ids(&ids),
            },
        );
        proof {
            let views = sealed_views(nodes@);
            let wanted = tree_nodes(root, pishoo, document, servers);
            assert(before[1] == self.nodes@[1]@);
            assert(views[1].children =~= wanted[1].children);
            assert(views[1] == wanted[1]);
            assert forall|i: int| 0 <= i < views.len() implies #[trigger] views[i] == wanted[i] by {
                if i >= 2 {
                    assert(views[i] == before[i]);
                    assert(before.skip(2)[i - 2] == before[i]);
                } else if i == 0 {
                    assert(views[0] == before[0]);
                }
            }
            assert(views =~= wanted);
            lemma_tree_hangs(root, pishoo, document, servers);
        }
        match finalize_nodes(&nodes, registry) {
            Ok(_) => {},
            Err(error) => {
                return Err(error);
            },
        }
        Ok(
            Arc::new(
                HomeConfigTree {
                    nodes,
                    servers: ids,
                    inherited_root,
                    contracts: registry.frozen_contracts(),
                    sources: ConfigSourceBundle { owners },
                    schema,
                },
            ),
        )
    }
}

/// Puts together the tree of a hypervisor. A server of an identity belongs to the document that it
/// was read from.
pub fn build_global_tree(
    registry: &ConfigRegistry,
    root_fragment: ParsedPishooFragment,
    identity_fragments: &Vec<ParsedServerFragment>,
) -> (result: Result<Arc<HomeConfigTree>, HomeConfigTreeError>)
    requires
        root_fragment.sources.sources().wf(),
        fragments_wf(identity_fragments@),
    ensures
        builds_global_tree(registry@, root_fragment, identity_fragments@, result),
{
    if !registry.matches_contract(&root_fragment.registry_contract) {
        return Err(HomeConfigTreeError::RegistryContractMismatch);
    }
    let schema = match registry.validate_v1_snapshot_schema() {
        Ok(schema) => schema,
        Err(source) => {
            return Err(HomeConfigTreeError::SnapshotContract { source });
        },
    };
    let span = root_fragment.node.span;
    let root = Arc::new(ConfigNode::new(ContextKey(ROOT), None, span));
    let ghost root_node = root;
    let mut document_ids = ConfigDocumentIdAllocator::new();
    let document_id = match document_ids.allocate() {
        Ok(id) => id,
        Err(source) => {
            return Err(HomeConfigTreeError::DocumentId { source });
        },
    };
    let ghost pishoo = root_fragment.node;
    let mut builder = HomeConfigTreeBuilder::new(
        root,
        Arc::clone(&root_fragment.node),
        Some(document_id),
        document_ids,
    );
    let own = root_fragment.servers();
    builder.attach_all(
        &own,
        document_id,
        Ghost(root_node),
        Ghost(pishoo),
        Ghost(Some(0)),
        Ghost(Seq::empty()),
    );
    let ghost local = placed(root_fragment.node@.child("server"@), 0);
    proof {
        assert(fragment_nodes(own@) =~= root_fragment.node@.child("server"@));
        assert(seq![] + placed(fragment_nodes(own@), document_id.index()) =~= local);
    }
    builder.own(document_id, Arc::clone(&root_fragment.sources));
    let ghost start = global_start(root_fragment);
    assert(owner_views(builder.owners@) =~= start.owners);
    match builder.attach_fragments(
        registry,
        identity_fragments,
        Ghost(root_node),
        Ghost(pishoo),
        Ghost(Some(0)),
        Ghost(start),
    ) {
        Ok(_) => {},
        Err(error) => {
            return Err(error);
        },
    }
    assert(is_blank(root_node, ROOT@, root_fragment.node@.span));
    builder.seal(
        registry,
        None,
        schema,
        Ghost(root_node),
        Ghost(pishoo),
        Ghost(Some(0)),
        Ghost(gather(start, identity_fragments@, registry@.contract)->Ok_0.servers),
    )
}

/// Puts together the tree of a worker. A server of an identity belongs to the document that it
/// was read from.
pub fn build_worker_tree(
    registry: &ConfigRegistry,
    root_snapshot: RootConfigSnapshot,
    worker_fragment: Option<ParsedPishooFragment>,
    identity_fragments: &Vec<ParsedServerFragment>,
) -> (result: Result<Arc<HomeConfigTree>, HomeConfigTreeError>)
    requires
        worker_fragment matches Some(fragment) ==> fragment.sources.sources().wf(),
        fragments_wf(identity_fragments@),
    ensures
        builds_worker_tree(
            registry@,
            root_snapshot,
            worker_fragment,
            identity_fragments@,
            result,
        ),
{
    if let Some(fragment) = &worker_fragment {
        if !registry.matches_contract(&fragment.registry_contract) {
            return Err(HomeConfigTreeError::RegistryContractMismatch);
        }
    }
    let schema = match registry.validate_v1_snapshot_schema() {
        Ok(schema) => schema,
        Err(source) => {
            return Err(HomeConfigTreeError::SnapshotContract { source });
        },
    };
    let mut document_ids = ConfigDocumentIdAllocator::new();
    match worker_fragment {
        Some(fragment) => {
            let document_id = match document_ids.allocate() {
                Ok(id) => id,
                Err(source) => {
                    return Err(HomeConfigTreeError::DocumentId { source });
                },
            };
            let root = Arc::new(ConfigNode::new(ContextKey(ROOT), None, fragment.node.span));
            let ghost root_node = root;
            let ghost pishoo = fragment.node;
            let mut builder = HomeConfigTreeBuilder::new(
                root,
                Arc::clone(&fragment.node),
                Some(document_id),
                document_ids,
            );
            builder.own(document_id, Arc::clone(&fragment.sources));
            let ghost start = worker_start(worker_fragment);
            assert(owner_views(builder.owners@) =~= start.owners);
            assert(is_worker_base(worker_fragment, root_node, pishoo));
            match builder.attach_fragments(
                registry,
                identity_fragments,
                Ghost(root_node),
                Ghost(pishoo),
                Ghost(Some(0)),
                Ghost(start),
            ) {
                Ok(_) => {},
                Err(error) => {
                    return Err(error);
                },
            }
            builder.seal(
                registry,
                Some(root_snapshot),
                schema,
                Ghost(root_node),
                Ghost(pishoo),
                Ghost(Some(0)),
                Ghost(gather(start, identity_fragments@, registry@.contract)->Ok_0.servers),
            )
        },
        None => {
            let span = SourceSpan::new(SourceId(0), 0, 0);
            let root = Arc::new(ConfigNode::new(ContextKey(ROOT), None, span));
            let block = Arc::new(ConfigNode::new(ContextKey(PISHOO), None, span));
            let ghost root_node = root;
            let ghost pishoo = block;
            let mut builder = HomeConfigTreeBuilder::new(root, block, None, document_ids);
            let ghost start = worker_start(worker_fragment);
            assert(owner_views(builder.owners@) =~= start.owners);
            assert(is_worker_base(worker_fragment, root_node, pishoo));
            match builder.attach_fragments(
                registry,
                identity_fragments,
                Ghost(root_node),
                Ghost(pishoo),
                Ghost(None),
                Ghost(start),
            ) {
                Ok(_) => {},
                Err(error) => {
                    return Err(error);
                },
            }
            builder.seal(
                registry,
                Some(root_snapshot),
                schema,
                Ghost(root_node),
                Ghost(pishoo),
                Ghost(None),
                Ghost(gather(start, identity_fragments@, registry@.contract)->Ok_0.servers),
            )
        },
    }
}

proof fn lemma_server_parts(servers: Seq<Placed>, k: int)
    requires
        0 <= k < servers.len(),
        2 + server_parts(servers).len() <= usize::MAX,
    ensures
        server_ids(servers).len() == servers.len(),
        ({
            let at = server_ids(servers)[k].0 as int;
            let part = server_part(servers[k], at);
            &&& 2 <= at
            &&& at + part.len() <= 2 + server_parts(servers).len()
            &&& forall|i: int|
                0 <= i < part.len() ==> server_parts(servers)[at - 2 + i] == #[trigger] part[i]
        }),
    decreases servers.len(),
{
    let init = servers.drop_last();
    let before = server_parts(init);
    if init.len() == 0 {
        assert(server_ids(init).len() == 0);
    } else {
        lemma_server_parts(init, if k < init.len() {
            k
        } else {
            0
        });
    }
    if k < init.len() {
        assert(init[k] == servers[k]);
        assert(server_ids(servers)[k] == server_ids(init)[k]);
        let at = server_ids(servers)[k].0 as int;
        let part = server_part(servers[k], at);
        assert forall|i: int| 0 <= i < part.len() implies server_parts(servers)[at - 2 + i]
            == #[trigger] part[i] by {
            assert(server_parts(servers)[at - 2 + i] == before[at - 2 + i]);
        }
    } else {
        let at = before.len() + 2int;
        assert(server_ids(servers)[k].0 == at);
        let part = server_part(servers[k], at);
        assert(server_parts(servers) == before + part);
    }
}

/// In a tree the second block hangs under the first, every server under the second, and every
/// location under its server, each in its order. A server belongs to its document, and so do its
/// locations.
pub proof fn blocks_hang_where_they_stand(
    root: Arc<ConfigNode>,
    pishoo: Arc<ConfigNode>,
    document: Option<u32>,
    servers: Seq<Placed>,
    k: int,
)
    requires
        tree_nodes(root, pishoo, document, servers).len() <= usize::MAX,
        0 <= k < servers.len(),
    ensures
        ({
            let nodes = tree_nodes(root, pishoo, document, servers);
            let ids = nodes[1].children;
            let server = nodes[ids[k].0 as int];
            let locations = servers[k].node@.child(
                seq!['l', 'o', 'c', 'a', 't', 'i', 'o', 'n'],
            );
            &&& nodes[0].node == root
            &&& nodes[0].document is None
            &&& nodes[0].parent == ParentLink::Root
            &&& nodes[0].children == seq![ConfigNodeId(1)]
            &&& nodes[1].node == pishoo
            &&& nodes[1].document == document
            &&& nodes[1].parent == ParentLink::Node(ConfigNodeId(0))
            &&& ids.len() == servers.len()
            &&& 2 <= ids[k].0 < nodes.len()
            &&& server.node == servers[k].node
            &&& server.document == Some(servers[k].document)
            &&& server.parent == ParentLink::Node(ConfigNodeId(1))
            &&& server.children.len() == locations.len()
            &&& forall|i: int|
                0 <= i < locations.len() ==> {
                    let location = nodes[(#[trigger] server.children[i]).0 as int];
                    &&& server.children[i].0 < nodes.len()
                    &&& location.node == locations[i]
                    &&& location.document == Some(servers[k].document)
                    &&& location.parent == ParentLink::Node(ids[k])
                    &&& location.children.len() == 0
                }
        }),
{
    reveal_strlit("location");
    assert("location"@ =~= seq!['l', 'o', 'c', 'a', 't', 'i', 'o', 'n']);
    lemma_server_parts(servers, k);
    let nodes = tree_nodes(root, pishoo, document, servers);
    let parts = server_parts(servers);
    let at = server_ids(servers)[k].0 as int;
    let part = server_part(servers[k], at);
    assert(forall|i: int| 0 <= i < parts.len() ==> nodes[2 + i] == #[trigger] parts[i]);
    assert(nodes[at] == parts[at - 2 + 0] && parts[at - 2 + 0] == part[0]);
    let server = nodes[at];
    let locations = locations_of(servers[k].node);
    assert forall|i: int| 0 <= i < locations.len() implies {
        let location = nodes[(#[trigger] server.children[i]).0 as int];
        &&& server.children[i].0 < nodes.len()
        &&& location.node == locations[i]
        &&& location.document == Some(servers[k].document)
        &&& location.parent == ParentLink::Node(server_ids(servers)[k])
        &&& location.children.len() == 0
    } by {
        assert(part[1 + i] == parts[at - 2 + (1 + i)]);
        assert(server.children[i] == ConfigNodeId((at + 1 + i) as usize));
        assert(nodes[2 + (at - 2 + 1 + i)] == parts[at - 2 + (1 + i)]);
        assert(ConfigNodeId(at as usize) == server_ids(servers)[k]);
    }
    assert(nodes[1].children == server_ids(servers));
}

/// Documents are numbered from zero, each with a number of its own, and every server of an identity
/// has the number of a document with the sources that it was read from.
pub proof fn documents_are_numbered_in_turn(
    start: Gathered,
    fragments: Seq<ParsedServerFragment>,
    contract: ConfigRegistryContract,
    parts: Gathered,
)
    requires
        gather(start, fragments, contract) == Ok::<Gathered, FragmentFault>(parts),
        start.next == start.owners.len(),
        start.owners.len() <= 1,
        start.owners.len() > 0 ==> start.owners[0].0 == 0,
    ensures
        parts.next == parts.owners.len(),
        parts.owners.len() >= start.owners.len(),
        start.owners.len() > 0 ==> parts.owners[0] == start.owners[0],
        forall|i: int| 0 <= i < parts.owners.len() ==> (#[trigger] parts.owners[i]).0 == i,
        forall|i: int, j: int|
            0 <= i < j < parts.owners.len() ==> (#[trigger] parts.owners[i]).1.mark() != (
            #[trigger] parts.owners[j]).1.mark(),
        forall|i: int|
            0 <= i < fragments.len() ==> (#[trigger] fragments[i]).registry_contract == contract,
        parts.servers.len() == start.servers.len() + fragments.len(),
        forall|i: int|
            0 <= i < start.servers.len() ==> #[trigger] parts.servers[i] == start.servers[i],
        forall|i: int|
            0 <= i < fragments.len() ==> {
                let server = parts.servers[start.servers.len() + i];
                &&& server.node == (#[trigger] fragments[i]).node
                &&& server.document < parts.owners.len()
                &&& parts.owners[server.document as int].1.mark() == fragments[i].sources.mark()
            },
    decreases fragments.len(),
{
    if fragments.len() > 0 {
        let init = fragments.drop_last();
        let before = gather(start, init, contract)->Ok_0;
        documents_are_numbered_in_turn(start, init, contract, before);
        let last = fragments.last();
        lemma_owner(before.owners, last.sources);
        assert(forall|i: int| 0 <= i < init.len() ==> #[trigger] fragments[i] == init[i]);
        assert(fragments[fragments.len() - 1] == last);
        assert forall|i: int| 0 <= i < fragments.len() implies {
            let server = parts.servers[start.servers.len() + i];
            &&& server.node == (#[trigger] fragments[i]).node
            &&& server.document < parts.owners.len()
            &&& parts.owners[server.document as int].1.mark() == fragments[i].sources.mark()
        } by {
            if i < init.len() {
                assert(init[i] == fragments[i]);
                assert(parts.servers[start.servers.len() + i] == before.servers[start.servers.len()
                    + i]);
            }
        }
    }
}

proof fn lemma_owner(
    owners: Seq<(u32, Arc<ConfigDocumentSourceMap>)>,
    sources: Arc<ConfigDocumentSourceMap>,
)
    ensures
        match owner_of(owners, sources) {
            Some(number) => exists|i: int|
                0 <= i < owners.len() && (#[trigger] owners[i]).0 == number && owners[i].1.mark()
                    == sources.mark(),
            None => forall|i: int|
                0 <= i < owners.len() ==> (#[trigger] owners[i]).1.mark() != sources.mark(),
        },
    decreases owners.len(),
{
    if owners.len() > 0 {
        let init = owners.drop_last();
        lemma_owner(init, sources);
        if let Some(number) = owner_of(init, sources) {
            let i = choose|i: int|
                0 <= i < init.len() && (#[trigger] init[i]).0 == number && init[i].1.mark()
                    == sources.mark();
            assert(owners[i] == init[i]);
        } else {
            assert(forall|i: int| 0 <= i < init.len() ==> #[trigger] owners[i] == init[i]);
            assert(owners[owners.len() - 1] == owners.last());
        }
    }
}

/// In a tree that is put together the first block has the context of the root, the second that of
/// `pishoo`, what hangs under the second that of a server, and what hangs deeper that of a location.
/// Where servers are looked at again, all their locations have patterns.
pub proof fn blocks_have_the_context_of_their_place(
    registry: RegistryView,
    nodes: Seq<SealedView>,
    at: int,
)
    requires
        nodes_ok(registry, nodes),
        0 <= at < nodes.len(),
    ensures
        ({
            let gateway = seq!['g', 'a', 't', 'e', 'w', 'a', 'y', '.'];
            let pishoo = gateway + seq!['p', 'i', 's', 'h', 'o', 'o'];
            let context = nodes[at].node@.context;
            &&& nodes[at].parent is Root ==> context == gateway + seq!['r', 'o', 'o', 't']
            &&& nodes[at].parent == ParentLink::Node(ConfigNodeId(0)) ==> context == pishoo
            &&& nodes[at].parent == ParentLink::Node(ConfigNodeId(1)) ==> context == gateway
                + seq!['s', 'e', 'r', 'v', 'e', 'r']
            &&& nodes[at].parent matches ParentLink::Node(parent) ==> parent.0 > 1 ==> context
                == gateway + seq!['l', 'o', 'c', 'a', 't', 'i', 'o', 'n']
            &&& registry.attached.contains_key(context) ==> (nodes[at].parent matches
                ParentLink::Node(parent) && nodes[parent.0 as int].node@.context == pishoo)
                && forall|i: int|
                0 <= i < nodes[at].children.len() ==> (nodes[(
                #[trigger] nodes[at].children[i]).0 as int].node@.payload matches Some(value)
                    && Pattern::in_data(value.data()) is Some)
        }),
{
    let gateway = seq!['g', 'a', 't', 'e', 'w', 'a', 'y', '.'];
    reveal_strlit("gateway.root");
    reveal_strlit("gateway.pishoo");
    reveal_strlit("gateway.server");
    reveal_strlit("gateway.location");
    assert("gateway.root"@ =~= gateway + seq!['r', 'o', 'o', 't']);
    assert("gateway.pishoo"@ =~= gateway + seq!['p', 'i', 's', 'h', 'o', 'o']);
    assert("gateway.server"@ =~= gateway + seq!['s', 'e', 'r', 'v', 'e', 'r']);
    assert("gateway.location"@ =~= gateway + seq!['l', 'o', 'c', 'a', 't', 'i', 'o', 'n']);
    assert(context_ok(nodes, at));
    assert(node_attaches(registry, nodes, at));
}

/// The servers of the root document come first, all in document zero; a worker's document has no
/// servers of its own in the tree.
pub proof fn root_document_comes_first(fragment: ParsedPishooFragment)
    ensures
        ({
            let own = fragment.node@.child(seq!['s', 'e', 'r', 'v', 'e', 'r']);
            let start = global_start(fragment);
            &&& start.servers.len() == own.len()
            &&& forall|i: int|
                0 <= i < own.len() ==> (#[trigger] start.servers[i]).node == own[i]
                    && start.servers[i].document == 0
            &&& start.owners == seq![(0u32, fragment.sources)]
            &&& start.next == 1
        }),
        worker_start(Some(fragment)).servers.len() == 0,
        worker_start(Some(fragment)).owners == seq![(0u32, fragment.sources)],
        worker_start(None).owners.len() == 0,
        worker_start(None).servers.len() == 0,
{
    reveal_strlit("server");
    assert("server"@ =~= seq!['s', 'e', 'r', 'v', 'e', 'r']);
}

} // verus!
