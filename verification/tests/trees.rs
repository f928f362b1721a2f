use std::sync::Arc;

use gateway::home::DhttpHome;
use gateway::parse::builtin::stun::stun_server_definition;
use gateway::parse::builtin::{default_registry, register_gateway_directives};
use gateway::parse::cascade::ConfigOrigin;
use gateway::parse::contract::DirectiveContractMismatch;
use gateway::parse::error::{ConfigDocumentRoleError, ConfigQueryError, LoadConfigError};
use gateway::parse::fragment::{ParsedConfigDocument, ParsedPishooFragment, ParsedServerFragment};
use gateway::parse::inclusion::IncludeFiles;
use gateway::parse::loader::{ConfigDocumentParser, ConfigDocumentRole};
use gateway::parse::projection::{v1_gzip_key, v1_gzip_min_length_key, v1_types_key};
use gateway::parse::query::ServerConfigRef;
use gateway::parse::registry::ConfigRegistry;
use gateway::parse::schema::v1_snapshot_field_names;
use gateway::parse::snapshot::{InheritedOrigin, RootConfigSnapshot};
use gateway::parse::transport::RootConfigSnapshotError;
use gateway::parse::tree::{
    build_global_tree, build_worker_tree, HomeConfigTree, HomeConfigTreeError, ParentLink,
};
use gateway::parse::types::{DhttpName, StunServerConfigValue};
use gateway::path::UnixPath;

const SERVER: &str = "listen all 5378; server_name example.com; \
     ssl_certificate /tmp/c; ssl_certificate_key /tmp/k;";

fn load(
    parser: &mut ConfigDocumentParser<'_>,
    text: &str,
    path: &str,
    role: ConfigDocumentRole<'_>,
) -> ParsedConfigDocument {
    match parser.parse_text(text, &UnixPath::new(path), role, &IncludeFiles::new()) {
        Ok(document) => document,
        Err(failure) => panic!("{}", failure.messages().join("\n")),
    }
}

fn root_fragment(parser: &mut ConfigDocumentParser<'_>, text: &str) -> ParsedPishooFragment {
    let role = ConfigDocumentRole::HypervisorRoot { home: None };
    match load(parser, text, "/etc/pishoo/pishoo.conf", role) {
        ParsedConfigDocument::HypervisorRoot(root) => root,
        _ => panic!("expected root fragment"),
    }
}

fn global_tree(text: &str) -> Arc<HomeConfigTree> {
    let registry = default_registry();
    let mut parser = ConfigDocumentParser::new(&registry);
    let root = root_fragment(&mut parser, text);
    let fragments: Vec<ParsedServerFragment> = Vec::new();
    match build_global_tree(&registry, root, &fragments) {
        Ok(tree) => tree,
        Err(error) => panic!("{}", error.messages().join("\n")),
    }
}

fn sealed_server(stun: &str) -> ServerConfigRef {
    let tree = global_tree(&format!("pishoo {{ server {{ {SERVER} {stun} }} }}"));
    HomeConfigTree::servers(&tree).remove(0)
}

fn stun_values(server: &ServerConfigRef) -> Vec<&StunServerConfigValue> {
    server
        .node()
        .repeated(&stun_server_definition().repeated_key())
        .unwrap()
}

#[test]
fn stun_compounds_preserve_block_and_bind_order() {
    let server = sealed_server(
        "stun_server { bind 127.0.0.1:1000; bind 127.0.0.1:1001; } stun_server { bind 127.0.0.1:2000; }",
    );
    let addresses: Vec<String> = stun_values(&server)
        .iter()
        .flat_map(|value| value.binds.iter().map(|bind| bind.bind.to_text()))
        .collect();
    assert_eq!(addresses, ["127.0.0.1:1000", "127.0.0.1:1001", "127.0.0.1:2000"]);
}

#[test]
fn stun_bind_explicit_values_override_block_fallbacks() {
    let server = sealed_server(
        "stun_server { outer_addr 127.0.0.1:3000; change_port 4000; bind 127.0.0.1:1000 outer_addr 127.0.0.1:3001 change_port 4001; }",
    );
    let values = stun_values(&server);
    let bind = &values[0].binds[0];
    assert_eq!(bind.outer_addr.unwrap().to_text(), "127.0.0.1:3001");
    assert_eq!(bind.change_port, Some(4001));
}

#[test]
fn empty_stun_server_block_remains_a_noop_compound() {
    let server = sealed_server("stun_server {}");
    let values = stun_values(&server);
    assert_eq!(values.len(), 1);
    assert!(values[0].binds.is_empty());
}

#[test]
fn trees_number_blocks_from_the_outside_in() {
    let tree = global_tree(&format!(
        "pishoo {{ server {{ {SERVER} location / {{ }} location /a {{ }} }} server {{ {SERVER} }} }}"
    ));
    let root = HomeConfigTree::root(&tree);
    let pishoo = HomeConfigTree::pishoo(&tree);
    let servers = HomeConfigTree::servers(&tree);

    assert_eq!(root.id().0, 0);
    assert!(matches!(root.parent_link(), ParentLink::Root));
    assert!(matches!(pishoo.parent_link(), ParentLink::Node(parent) if parent.0 == 0));
    assert_eq!(servers.len(), 2);
    assert_eq!(servers[0].locations().len(), 2);
    assert_eq!(servers[1].locations().len(), 0);
    for location in servers[0].locations() {
        assert!(
            matches!(location.node().parent_link(), ParentLink::Node(parent) if parent.0 == servers[0].node().id().0)
        );
    }
    let span = servers[0].node().source_span().expect("servers stand in a document");
    assert_eq!(
        tree.sources().source_path(span),
        Some(&UnixPath::new("/etc/pishoo/pishoo.conf"))
    );
    assert_eq!(tree.source_path(span), Some(&UnixPath::new("/etc/pishoo/pishoo.conf")));
}

#[test]
fn root_values_reach_the_snapshot_with_their_places() {
    let tree = global_tree("pishoo {\n  gzip on;\n  gzip_min_length 91;\n}");
    let pishoo = HomeConfigTree::pishoo(&tree);

    let key = v1_gzip_key();
    let gzip = pishoo.cascaded(&key).unwrap().unwrap();
    assert!(gzip.effective().0);
    assert_eq!(gzip.lineage().len(), 2);
    assert!(matches!(gzip.lineage()[0], ConfigOrigin::Builtin { .. }));
    assert!(matches!(gzip.lineage()[1], ConfigOrigin::Source(_)));
    assert!(pishoo.cascaded(&v1_types_key()).unwrap().is_none());

    let snapshot = HomeConfigTree::root_snapshot(&tree).unwrap();
    assert!(snapshot.gzip().0);
    assert!(!snapshot.gzip_vary().0);
    assert_eq!(snapshot.gzip_min_length().0, 91);
    assert_eq!(snapshot.gzip_comp_level().0, 1);
    assert!(snapshot.types().is_none());
    let RootConfigSnapshot::V1(config) = &snapshot;
    match &config.gzip_min_length.origin {
        InheritedOrigin::Source(place) => {
            assert_eq!(place.document(), Some(&UnixPath::new("/etc/pishoo/pishoo.conf")));
            assert_eq!((place.line().get(), place.column().get()), (3, 19));
        }
        InheritedOrigin::Builtin => panic!("the value is set in the document"),
    }
    assert!(matches!(config.gzip_vary.origin, InheritedOrigin::Builtin));
}

#[test]
fn snapshots_survive_the_way_to_a_worker() {
    let text = "pishoo { gzip on; gzip_types a b; default_type text/html; \
         types { text/plain txt; text/css css; } access_rules sqlite:///tmp/r.db; }";
    let snapshot = HomeConfigTree::root_snapshot(&global_tree(text)).unwrap();
    let wire = snapshot.to_wire().unwrap();
    let back = RootConfigSnapshot::from_wire(wire).unwrap();

    assert_eq!(back.gzip(), snapshot.gzip());
    assert_eq!(back.gzip_types(), snapshot.gzip_types());
    assert_eq!(back.access_rules().unwrap().0.text, "sqlite:///tmp/r.db");
    assert_eq!(back.types().unwrap().get("css").unwrap().as_bytes(), b"text/css");
    assert_eq!(back.default_type().unwrap().0.as_bytes(), b"text/html");
}

fn worker_tree(root: &str, worker: &str) -> Arc<HomeConfigTree> {
    let registry = default_registry();
    let mut parser = ConfigDocumentParser::new(&registry);
    let fragment = root_fragment(&mut parser, root);
    let none: Vec<ParsedServerFragment> = Vec::new();
    let global = build_global_tree(&registry, fragment, &none).unwrap();
    let snapshot = HomeConfigTree::root_snapshot(&global).unwrap();
    let home = DhttpHome::for_user_home_dir(&UnixPath::new("/home/alice"));
    let role = ConfigDocumentRole::WorkerPishoo { home: &home };
    let document = load(&mut parser, worker, "/home/alice/.dhttp/pishoo.conf", role);
    let fragment = match document {
        ParsedConfigDocument::WorkerPishoo(fragment) => fragment,
        _ => panic!("expected worker fragment"),
    };
    match build_worker_tree(&registry, snapshot, Some(fragment), &none) {
        Ok(tree) => tree,
        Err(error) => panic!("{}", error.messages().join("\n")),
    }
}

#[test]
fn workers_take_over_what_they_do_not_set() {
    let tree = worker_tree("pishoo { gzip on; gzip_min_length 7; }", "pishoo { gzip off; }");
    let pishoo = HomeConfigTree::pishoo(&tree);

    let key = v1_gzip_key();
    let gzip = pishoo.cascaded(&key).unwrap().unwrap();
    assert!(!gzip.effective().0);
    assert_eq!(gzip.lineage().len(), 3);
    assert!(matches!(gzip.lineage()[1], ConfigOrigin::RootInherited { .. }));

    let key = v1_gzip_min_length_key();
    let length = pishoo.cascaded(&key).unwrap().unwrap();
    assert_eq!(length.effective().0, 7);
    assert!(matches!(
        length.lineage().last(),
        Some(ConfigOrigin::RootInherited { source: Some(_), .. })
    ));
}

#[test]
fn keys_must_fit_the_block_that_is_asked() {
    let server = sealed_server("");
    let key = v1_gzip_key();
    let error = server.node().cascaded(&key).expect_err("the key is for pishoo blocks");
    assert!(matches!(
        error,
        ConfigQueryError::ContractMismatch {
            mismatch: DirectiveContractMismatch::Context { .. },
            ..
        }
    ));
}

#[test]
fn changed_registries_are_noticed() {
    let registry = default_registry();
    let mut parser = ConfigDocumentParser::new(&registry);
    let root = root_fragment(&mut parser, "pishoo { }");
    let mut other = ConfigRegistry::new();
    register_gateway_directives(&mut other);
    register_gateway_directives(&mut other);
    let fragments: Vec<ParsedServerFragment> = Vec::new();
    assert!(matches!(
        build_global_tree(&other, root, &fragments),
        Err(HomeConfigTreeError::RegistryContractMismatch { .. })
    ));
}

#[test]
fn fragments_of_other_registries_are_refused() {
    let registry = default_registry();
    let mut parser = ConfigDocumentParser::new(&registry);
    let root = root_fragment(&mut parser, "pishoo { }");
    let other = default_registry();
    assert!(!other.matches_contract(&registry.contract()));
    let fragments: Vec<ParsedServerFragment> = Vec::new();
    assert!(matches!(
        build_global_tree(&other, root, &fragments),
        Err(HomeConfigTreeError::RegistryContractMismatch { .. })
    ));
}

#[test]
fn documents_must_fit_their_role() {
    let registry = default_registry();
    let mut parser = ConfigDocumentParser::new(&registry);
    let home = DhttpHome::for_user_home_dir(&UnixPath::new("/home/alice"));
    let worker = ConfigDocumentRole::WorkerPishoo { home: &home };
    let failure = parser
        .parse_text(
            "pishoo { pid /tmp/p; }",
            &UnixPath::new("/home/alice/.dhttp/pishoo.conf"),
            worker,
            &IncludeFiles::new(),
        )
        .expect_err("workers have no pid");
    assert!(matches!(
        failure.error,
        LoadConfigError::DocumentRole { source: ConfigDocumentRoleError::DirectiveNotAllowed { .. } }
    ));

    let name = DhttpName::try_from("alice.dhttp.net").unwrap();
    let profile = home.identity_profile(&name);
    let identity = ConfigDocumentRole::IdentityServer { home: &home, profile: &profile };
    let failure = parser
        .parse_text("pishoo { }", &profile.server_conf_path(), identity, &IncludeFiles::new())
        .expect_err("identities have one server");
    assert!(matches!(failure.error, LoadConfigError::DocumentRole { .. }));
    assert_eq!(failure.document_id.unwrap().to_text(), "document:1");

    match load(&mut parser, "server { listen all 1; }", "/tmp/server.conf", identity) {
        ParsedConfigDocument::IdentityServers(servers) => {
            assert_eq!(servers.len(), 1);
            assert_eq!(servers[0].locations().len(), 0);
        }
        _ => panic!("expected an identity server"),
    }
}

#[test]
fn gateway_directives_serve_the_snapshot() {
    let registry = default_registry();
    assert!(registry.validate_v1_snapshot_schema().is_ok());
    assert!(ConfigRegistry::new().validate_v1_snapshot_schema().is_err());
    assert_eq!(
        v1_snapshot_field_names(),
        vec![
            "access_rules",
            "gzip",
            "gzip_vary",
            "gzip_min_length",
            "gzip_comp_level",
            "gzip_types",
            "default_type",
            "types",
            "access_log",
        ]
    );
}

#[test]
fn places_in_documents_without_an_absolute_path_cannot_be_named() {
    let registry = default_registry();
    let mut parser = ConfigDocumentParser::new(&registry);
    let role = ConfigDocumentRole::HypervisorRoot { home: None };
    let root = match load(&mut parser, "pishoo { gzip on; }", "pishoo.conf", role) {
        ParsedConfigDocument::HypervisorRoot(root) => root,
        _ => panic!("expected root fragment"),
    };
    let fragments: Vec<ParsedServerFragment> = Vec::new();
    let tree = build_global_tree(&registry, root, &fragments).unwrap();
    assert!(matches!(
        HomeConfigTree::root_snapshot(&tree),
        Err(RootConfigSnapshotError::SourcePath { .. })
    ));
}

#[test]
fn servers_keep_the_document_that_they_were_read_from() {
    let registry = default_registry();
    let mut parser = ConfigDocumentParser::new(&registry);
    let root = root_fragment(&mut parser, "pishoo { }");
    let home = DhttpHome::for_user_home_dir(&UnixPath::new("/home/alice"));
    let mut read = |name: &str| -> ParsedServerFragment {
        let profile = home.identity_profile(&DhttpName::try_from(name).unwrap());
        let role = ConfigDocumentRole::IdentityServer { home: &home, profile: &profile };
        // Each document is read by a parser of its own, so that all have the same number there.
        let mut parser = ConfigDocumentParser::new(&registry);
        match load(&mut parser, "server { }", "/home/alice/server.conf", role) {
            ParsedConfigDocument::IdentityServers(mut servers) => servers.remove(0),
            _ => panic!("expected an identity server"),
        }
    };
    let one = read("one.example");
    let other = read("other.example");
    let again = ParsedServerFragment {
        sources: one.sources.clone(),
        node: one.node.clone(),
        registry_contract: one.registry_contract,
    };
    let tree = build_global_tree(&registry, root, &vec![one, other, again]).unwrap();
    let documents: Vec<_> = HomeConfigTree::servers(&tree)
        .iter()
        .map(|server| server.node().source_span().unwrap().document_id())
        .collect();
    assert_eq!(documents.len(), 3);
    assert_eq!(documents[0], documents[2]);
    assert_ne!(documents[0], documents[1]);
}
