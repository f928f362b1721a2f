//! Blocks of documents that have no place in a tree yet.
use std::sync::Arc;

use vstd::prelude::*;

use crate::parse::document::ConfigNode;
use crate::parse::domain::{ConfigDocumentId, ConfigSourceSpan};
use crate::parse::registry::ConfigRegistryContract;
use crate::parse::source::{ConfigDocumentSourceMap, SourceMap};

verus! {

/// What a document holds, by its role.
#[derive(Debug)]
pub enum ParsedConfigDocument {
    HypervisorRoot(ParsedPishooFragment),
    WorkerPishoo(ParsedPishooFragment),
    IdentityServers(Vec<ParsedServerFragment>),
}

/// A `pishoo` block.
#[derive(Debug)]
pub struct ParsedPishooFragment {
    pub sources: Arc<ConfigDocumentSourceMap>,
    pub node: Arc<ConfigNode>,
    pub registry_contract: ConfigRegistryContract,
}

/// A `server` block.
#[derive(Debug)]
pub struct ParsedServerFragment {
    pub sources: Arc<ConfigDocumentSourceMap>,
    pub node: Arc<ConfigNode>,
    pub registry_contract: ConfigRegistryContract,
}

/// A `location` block.
#[derive(Debug)]
pub struct ParsedLocationFragment {
    pub sources: Arc<ConfigDocumentSourceMap>,
    pub node: Arc<ConfigNode>,
}

/// The servers of a document, one for each of the given blocks.
pub open spec fn are_servers(
    list: Seq<ParsedServerFragment>,
    nodes: Seq<Arc<ConfigNode>>,
    sources: Arc<ConfigDocumentSourceMap>,
    contract: ConfigRegistryContract,
) -> bool {
    &&& list.len() == nodes.len()
    &&& forall|i: int|
        0 <= i < list.len() ==> #[trigger] list[i] == (ParsedServerFragment {
            sources,
            node: nodes[i],
            registry_contract: contract,
        })
}

/// One server for each of the given blocks.
pub fn server_fragments(
    nodes: &[Arc<ConfigNode>],
    sources: &Arc<ConfigDocumentSourceMap>,
    contract: ConfigRegistryContract,
) -> (list: Vec<ParsedServerFragment>)
    ensures
        are_servers(list@, nodes@, *sources, contract),
{
    let mut list: Vec<ParsedServerFragment> = Vec::new();
    let mut i: usize = 0;
    while i < nodes.len()
        invariant
            i <= nodes@.len(),
            are_servers(list@, nodes@.take(i as int), *sources, contract),
        decreases nodes@.len() - i,
    {
        list.push(
            ParsedServerFragment {
                sources: Arc::clone(sources),
                node: Arc::clone(&nodes[i]),
                registry_contract: contract,
            },
        );
        i += 1;
    }
    assert(nodes@.take(i as int) =~= nodes@);
    list
}

impl ParsedPishooFragment {
    pub fn new(
        sources: Arc<ConfigDocumentSourceMap>,
        node: Arc<ConfigNode>,
        registry_contract: ConfigRegistryContract,
    ) -> (fragment: Self)
        ensures
            fragment == (ParsedPishooFragment { sources, node, registry_contract }),
    {
        ParsedPishooFragment { sources, node, registry_contract }
    }

    pub fn document_id(&self) -> (id: ConfigDocumentId)
        ensures
            id == self.sources.document(),
    {
        self.sources.document_id()
    }

    pub fn span(&self) -> (span: ConfigSourceSpan)
        ensures
            span == ConfigSourceSpan::of(self.sources.document(), self.node.span),
    {
        self.sources.config_span(self.node.span)
    }

    /// The servers inside the block.
    pub fn servers(&self) -> (list: Vec<ParsedServerFragment>)
        ensures
            are_servers(
                list@,
                self.node@.child("server"@),
                self.sources,
                self.registry_contract,
            ),
    {
        server_fragments(
            self.node.children_optional("server"),
            &self.sources,
            self.registry_contract,
        )
    }

    pub fn source_map(&self) -> (sources: &SourceMap)
        ensures
            *sources == self.sources.sources(),
    {
        self.sources.source_map()
    }
}

impl ParsedServerFragment {
    pub fn new(
        sources: Arc<ConfigDocumentSourceMap>,
        node: Arc<ConfigNode>,
        registry_contract: ConfigRegistryContract,
    ) -> (fragment: Self)
        ensures
            fragment == (ParsedServerFragment { sources, node, registry_contract }),
    {
        ParsedServerFragment { sources, node, registry_contract }
    }

    pub fn document_id(&self) -> (id: ConfigDocumentId)
        ensures
            id == self.sources.document(),
    {
        self.sources.document_id()
    }

    pub fn span(&self) -> (span: ConfigSourceSpan)
        ensures
            span == ConfigSourceSpan::of(self.sources.document(), self.node.span),
    {
        self.sources.config_span(self.node.span)
    }

    /// The locations inside the block.
    pub fn locations(&self) -> (list: Vec<ParsedLocationFragment>)
        ensures
            list@.len() == self.node@.child("location"@).len(),
            forall|i: int|
                0 <= i < list@.len() ==> #[trigger] list@[i] == (ParsedLocationFragment {
                    sources: self.sources,
                    node: self.node@.child("location"@)[i],
                }),
    {
        let mut list: Vec<ParsedLocationFragment> = Vec::new();
        let nodes = self.node.children_optional("location");
        let mut i: usize = 0;
        while i < nodes.len()
            invariant
                i <= nodes@.len(),
                nodes@ == self.node@.child("location"@),
                list@.len() == i,
                forall|k: int|
                    0 <= k < i ==> #[trigger] list@[k] == (ParsedLocationFragment {
                        sources: self.sources,
                        node: nodes@[k],
                    }),
            decreases nodes@.len() - i,
        {
            list.push(
                ParsedLocationFragment {
                    sources: Arc::clone(&self.sources),
                    node: Arc::clone(&nodes[i]),
                },
            );
            i += 1;
        }
        list
    }

    pub fn source_map(&self) -> (sources: &SourceMap)
        ensures
            *sources == self.sources.sources(),
    {
        self.sources.source_map()
    }
}

impl ParsedLocationFragment {
    pub fn document_id(&self) -> (id: ConfigDocumentId)
        ensures
            id == self.sources.document(),
    {
        self.sources.document_id()
    }

    pub fn span(&self) -> (span: ConfigSourceSpan)
        ensures
            span == ConfigSourceSpan::of(self.sources.document(), self.node.span),
    {
        self.sources.config_span(self.node.span)
    }

    pub fn source_map(&self) -> (sources: &SourceMap)
        ensures
            *sources == self.sources.sources(),
    {
        self.sources.source_map()
    }
}

} // verus!
