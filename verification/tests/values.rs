use std::sync::Arc;

use gateway::home::DhttpHome;
use gateway::parse::ast::Spanned;
use gateway::parse::builtin::location::location_definition;
use gateway::parse::builtin::pishoo::pid_definition;
use gateway::parse::builtin::default_registry;
use gateway::parse::completion::{finalize_location, finalize_server, BuildOptions};
use gateway::parse::context::{ContextKey, LOCATION, PISHOO, ROOT, SERVER};
use gateway::parse::document::ConfigNode;
use gateway::parse::domain::ResolvedConfigPath;
use gateway::parse::finalize::{FinalizeError, FinalizeServerError};
use gateway::parse::fragment::{ParsedConfigDocument, ParsedServerFragment};
use gateway::parse::grammar::parse_source;
use gateway::parse::inclusion::{expand_includes, IncludeAnswer, IncludeEntry, IncludeFiles};
use gateway::parse::loader::{ConfigDocumentParser, ConfigDocumentRole};
use gateway::parse::parser::TypedConfigParser;
use gateway::parse::pattern::Pattern;
use gateway::parse::source::{SourceId, SourceMap, SourceSpan};
use gateway::parse::tree::{build_global_tree, HomeConfigTree};
use gateway::parse::types::{
    BoolConfig, DhttpName, HeaderName, HeaderValue, MimeTypes, ServerNames, StringList,
};
use gateway::parse::value::TypedValue;
use gateway::path::UnixPath;

fn nowhere() -> SourceSpan {
    SourceSpan::new(SourceId(0), 0, 0)
}

#[test]
fn values_are_found_under_their_own_type_only() {
    let value = TypedValue::new(BoolConfig(true), nowhere());
    assert_eq!(value.downcast::<BoolConfig>(), Some(&BoolConfig(true)));
    assert!(value.downcast::<StringList>().is_none());
    assert_eq!(value.span(), nowhere());
}

#[test]
fn slots_of_a_node_do_not_touch_each_other() {
    let mut node = ConfigNode::new(ContextKey(SERVER), None, nowhere());
    node.insert_slot("gzip", TypedValue::new(BoolConfig(true), nowhere()));
    node.insert_slot("relay", TypedValue::new(BoolConfig(false), nowhere()));
    node.insert_slot("relay", TypedValue::new(BoolConfig(true), nowhere()));
    assert_eq!(node.get::<BoolConfig>("gzip").unwrap(), Some(&BoolConfig(true)));
    assert_eq!(node.get_all::<BoolConfig>("relay").unwrap().len(), 2);
    node.replace_slot("relay", TypedValue::new(BoolConfig(false), nowhere()));
    assert_eq!(node.require::<BoolConfig>("relay").unwrap(), &BoolConfig(false));
    assert_eq!(node.require::<BoolConfig>("gzip").unwrap(), &BoolConfig(true));

    let child = Arc::new(ConfigNode::new(ContextKey(PISHOO), None, nowhere()));
    node.insert_child("a", child.clone());
    node.insert_child("b", child.clone());
    node.insert_child("a", child);
    let mut sizes: Vec<usize> = node.child_groups().iter().map(|group| group.len()).collect();
    sizes.sort();
    assert_eq!(sizes, [1, 2]);

    let (found, above) = node.block_at(&vec![("a".to_owned(), 1)]).unwrap();
    assert_eq!(found.context.0, PISHOO);
    assert_eq!(above.len(), 1);
    assert_eq!(above[0].require::<BoolConfig>("gzip").unwrap(), &BoolConfig(true));
    assert!(node.block_at(&vec![("a".to_owned(), 2)]).is_none());
    assert!(node.block_at(&vec![("b".to_owned(), 0), ("a".to_owned(), 0)]).is_none());
    assert_eq!(node.block_at(&Vec::new()).unwrap().1.len(), 0);

    assert!(node.payload::<Pattern>().unwrap().is_none());
    node.set_payload(TypedValue::new(BoolConfig(true), nowhere()));
    let error = node.payload::<Pattern>().unwrap_err();
    assert_eq!(error.message(), "directive `<payload>` has unexpected value type");
    node.name = Some(Spanned::new("here".to_owned(), nowhere()));
    let error = node.payload::<Pattern>().unwrap_err();
    assert_eq!(error.message(), "directive `here` has unexpected value type");
}

#[test]
fn spans_cut_out_what_was_read() {
    let text = "# \u{e9}\u{4e2d}\nname \"v\u{1f600}\" \u{e9}; block { inner; }";
    let directives = parse_source(text, SourceId(7)).unwrap();
    let cut = |span: SourceSpan| &text[span.start..span.end];
    assert_eq!(cut(directives[0].name.span), "name");
    assert_eq!(cut(directives[0].args[0].span), "\"v\u{1f600}\"");
    assert_eq!(directives[0].args[0].value, "v\u{1f600}");
    assert_eq!(cut(directives[0].args[1].span), "\u{e9}");
    assert_eq!(cut(directives[0].span), "name \"v\u{1f600}\" \u{e9};");
    assert_eq!(cut(directives[1].span), "block { inner; }");
    assert_eq!(cut(directives[1].children().unwrap()[0].span), "inner;");
    assert_eq!(directives[1].span.source_id, SourceId(7));
}

#[test]
fn includes_leave_other_directives_alone() {
    let text = "a 1; include x; b { include x; c; }";
    let mut files = IncludeFiles::new();
    files.add_answer(
        UnixPath::new("/d/x"),
        IncludeAnswer::Entries(vec![
            IncludeEntry::Read { path: UnixPath::new("/d/x1"), text: "m;".to_owned() },
            IncludeEntry::Read { path: UnixPath::new("/d/x2"), text: "n 2; o;".to_owned() },
        ]),
    );
    files.add_answer(UnixPath::new("/d/x"), IncludeAnswer::Entries(vec![]));
    let mut sources = SourceMap::default();
    let id = sources.add_source(Some(UnixPath::new("/d/p")), text.to_owned(), None, None);
    let parsed = parse_source(text, id).unwrap();
    let dir = UnixPath::new("/d");
    let whole = expand_includes(parsed, &mut sources, Some(&dir), &files).unwrap();
    let names: Vec<&str> = whole.iter().map(|directive| directive.name.value.as_str()).collect();
    assert_eq!(names, ["a", "m", "n", "o", "b"]);
    assert_eq!(whole[0].args[0].value, "1");
    let inner: Vec<&str> = whole[4]
        .children()
        .unwrap()
        .iter()
        .map(|directive| directive.name.value.as_str())
        .collect();
    assert_eq!(inner, ["m", "n", "o", "c"]);
    assert_eq!(sources.count(), 5);
    let place = sources.get(SourceId(2)).unwrap();
    assert_eq!(place.path, Some(UnixPath::new("/d/x2")));
    assert_eq!(place.included_from.unwrap().parent, id);
}

#[test]
fn names_are_spelled_in_full() {
    let name = DhttpName::try_from("alice.dhttp.net").unwrap();
    assert_eq!((name.as_full(), name.as_partial().as_str()), ("alice.dhttp.net", "alice"));
    assert!(DhttpName::try_from("a b").is_err());
    let home = DhttpHome::new(UnixPath::new("/h"));
    let profile = home.identity_profile(&name);
    assert_eq!(profile.ssl_dir(), UnixPath::new("/h/alice/ssl"));
    assert_eq!(profile.certificate_path(), UnixPath::new("/h/alice/ssl/fullchain.crt"));
    assert_eq!(profile.private_key_path(), UnixPath::new("/h/alice/ssl/privkey.pem"));
}

#[test]
fn header_fields_are_checked() {
    assert_eq!(HeaderName::from_bytes(b"X-Up").unwrap().as_str(), "x-up");
    assert!(HeaderName::from_bytes(b"").is_err());
    assert_eq!(HeaderValue::from_bytes(b"a\tb\xff").unwrap().as_bytes(), b"a\tb\xff");
    assert!(HeaderValue::from_bytes(b"a\nb").is_err());
}

#[test]
fn unreadable_paths_are_shown_as_far_as_they_go() {
    let mut path = UnixPath::new("/tmp/");
    path.bytes.push(0xff);
    let failure = TypedConfigParser::new()
        .parse_root("pishoo { gzip maybe; }", &path, None, &IncludeFiles::new())
        .unwrap_err();
    assert!(failure.diagnostic().render().contains("/tmp/\u{fffd}:1:"));
}

#[test]
fn keys_of_definitions_ask_sealed_trees() {
    let registry = default_registry();
    let mut parser = ConfigDocumentParser::new(&registry);
    let role = ConfigDocumentRole::HypervisorRoot { home: None };
    let text = "pishoo { pid /run/p; server { listen all 1; server_name a.com; \
         ssl_certificate /c; ssl_certificate_key /k; location = /x { } } }";
    let loaded = parser
        .parse_text(text, &UnixPath::new("/etc/p.conf"), role, &IncludeFiles::new())
        .unwrap();
    let root = match loaded {
        ParsedConfigDocument::HypervisorRoot(root) => root,
        _ => panic!("expected root fragment"),
    };
    let fragments: Vec<ParsedServerFragment> = Vec::new();
    let tree = build_global_tree(&registry, root, &fragments).unwrap();
    assert_eq!(tree.node_count(), 4);
    assert_eq!(tree.node(0).node.context.0, ROOT);

    let pishoo = HomeConfigTree::pishoo(&tree);
    let pid = pid_definition().local_key();
    let found = pishoo.local(&pid).unwrap().unwrap();
    assert_eq!(found.as_path(), &UnixPath::new("/run/p"));
    assert!(HomeConfigTree::root(&tree).local(&pid).is_err());

    let server = HomeConfigTree::servers(&tree).remove(0);
    let location = server.locations().remove(0);
    let pattern = location.payload(&location_definition().payload_key()).unwrap();
    assert_eq!(pattern, &Pattern::Exact("/x".to_owned()));
}

#[test]
fn values_are_copied_whole() {
    let mut node = ConfigNode::new(ContextKey(SERVER), None, nowhere());
    assert!(node.config_slot("relay").is_none());
    node.insert_slot("relay", TypedValue::new(BoolConfig(false), nowhere()));
    node.insert_slot("relay", TypedValue::new(BoolConfig(true), nowhere()));
    let slot = node.config_slot("relay").unwrap();
    assert_eq!(slot.values.len(), 2);
    let copy = slot.values[1].clone();
    assert_eq!(copy.downcast::<BoolConfig>(), Some(&BoolConfig(true)));
    assert_eq!(copy.span(), nowhere());
}

#[test]
fn files_may_be_nested_as_deeply_as_there_are_files() {
    let depth = 400;
    let mut files = IncludeFiles::new();
    for level in 0..depth {
        let text = if level + 1 < depth {
            format!("include {};", level + 1)
        } else {
            "deep;".to_owned()
        };
        let path = UnixPath::new(&format!("/d/{}", level));
        files.add_answer(
            path.clone(),
            IncludeAnswer::Entries(vec![IncludeEntry::Read { path, text }]),
        );
    }
    let mut sources = SourceMap::default();
    let id = sources.add_source(Some(UnixPath::new("/d/p")), "include 0;".to_owned(), None, None);
    let parsed = parse_source("include 0;", id).unwrap();
    let dir = UnixPath::new("/d");
    let whole = expand_includes(parsed, &mut sources, Some(&dir), &files).unwrap();
    assert_eq!(whole.len(), 1);
    assert_eq!(whole[0].name.value, "deep");
    assert_eq!(sources.count(), depth + 1);
    assert_eq!(sources.get(SourceId(400)).unwrap().id, SourceId(400));
}

#[test]
fn quoted_texts_read_back() {
    for quote in ['"', '\''] {
        for text in ["", "a b", "\\", "it's \"so\"", "\\n\\\\\"'", "\u{e9};{}#"] {
            let mut written = String::new();
            for c in text.chars() {
                if c == quote || c == '\\' {
                    written.push('\\');
                }
                written.push(c);
            }
            let source = format!("name {quote}{written}{quote};");
            let directives = parse_source(&source, SourceId(0)).unwrap();
            assert_eq!(directives[0].args[0].value, text);
        }
    }
}

#[test]
fn refused_locations_stay_as_they_were() {
    let mut node = ConfigNode::new(ContextKey(LOCATION), None, nowhere());
    assert!(finalize_location(&mut node).is_err());
    assert!(node.get_all_untyped("add_header").is_empty());
    node.set_payload(TypedValue::new(Pattern::Exact("/".to_owned()), nowhere()));
    let path = ResolvedConfigPath::try_from(UnixPath::new("/c")).unwrap();
    node.insert_slot("proxy_ssl_certificate", TypedValue::new(path, nowhere()));
    assert!(finalize_location(&mut node).is_err());
    assert!(node.get_all_untyped("add_header").is_empty());
    let path = ResolvedConfigPath::try_from(UnixPath::new("/k")).unwrap();
    node.insert_slot("proxy_ssl_certificate_key", TypedValue::new(path, nowhere()));
    finalize_location(&mut node).unwrap();
    assert_eq!(node.get_all_untyped("add_header").len(), 1);
}

#[test]
fn identity_servers_need_not_listen() {
    let home = DhttpHome::for_user_home_dir(&UnixPath::new("/home/alice"));
    let profile = home.identity_profile(&DhttpName::try_from("your.name").unwrap());
    let text = "server {
        location / {
            root  templates;
            index index.html;
        }

        location /app {
            proxy_pass http://127.0.0.1:8081;
        }
    }";

    let registry = default_registry();
    let mut parser = ConfigDocumentParser::new(&registry);
    let role = ConfigDocumentRole::IdentityServer { home: &home, profile: &profile };
    let loaded = parser
        .parse_text(text, &profile.server_conf_path(), role, &IncludeFiles::new())
        .unwrap_or_else(|failure| panic!("{}", failure.messages().join("\n")));
    let servers = match loaded {
        ParsedConfigDocument::IdentityServers(servers) => servers,
        _ => panic!("expected an identity server"),
    };
    assert_eq!(servers[0].locations().len(), 2);
    let node = &servers[0].node;
    let names = node.require::<ServerNames>("server_name").unwrap();
    assert_eq!(names.0.len(), 1);
    assert_eq!(names.0[0].name.as_full(), "your.name.dhttp.net");
    for name in ["listen", "ssl_certificate", "ssl_certificate_key"] {
        assert!(node.get_all_untyped(name).is_empty());
    }

    let root = TypedConfigParser::new()
        .parse_root("pishoo {}", &UnixPath::new("/etc/pishoo.conf"), None, &IncludeFiles::new())
        .unwrap();
    let defaults = root.pishoo().worker_defaults();
    let path = profile.server_conf_path();
    let candidate = TypedConfigParser::new()
        .parse_identity(text, &path, profile, &defaults, &IncludeFiles::new())
        .unwrap();
    let server = candidate.result().as_ref().unwrap();
    assert!(server.listens().is_empty());
    assert_eq!(server.names()[0].as_full(), "your.name.dhttp.net");
    assert_eq!(server.locations().len(), 2);
}

#[test]
fn servers_without_an_identity_must_listen() {
    let mut node = ConfigNode::new(ContextKey(SERVER), None, nowhere());
    let options = BuildOptions::new();
    assert!(matches!(
        finalize_server(&mut node, &options),
        Err(FinalizeError::Server(FinalizeServerError::MissingListen { .. }))
    ));
    assert!(node.get_all_untyped("server_name").is_empty());
}

#[test]
fn paths_with_the_same_components_are_equal() {
    assert_eq!(UnixPath::new("/a//b/./c/"), UnixPath::new("/a/b/c"));
    assert_ne!(UnixPath::new("./a"), UnixPath::new("a"));
    assert_ne!(UnixPath::new("/a"), UnixPath::new("a"));
    assert_ne!(UnixPath::new("/a/b/.."), UnixPath::new("/a"));
}

#[test]
fn tables_of_types_are_equal_whatever_their_order() {
    let value = |text: &str| HeaderValue::from_bytes(text.as_bytes()).unwrap();
    let table = |entries: &[(&str, &str)]| {
        entries.iter().fold(MimeTypes::new(), |types, (extension, text)| {
            types.insert(extension.to_string(), value(text))
        })
    };
    let one = table(&[("a", "x/a"), ("b", "x/b")]);
    assert_eq!(one, table(&[("b", "x/b"), ("a", "x/a")]));
    assert_eq!(one, one.clone());
    assert_ne!(one, table(&[("a", "x/a")]));
    assert_ne!(table(&[("a", "x/a")]), one);
    assert_ne!(one, table(&[("a", "x/a"), ("b", "x/c")]));
    assert_eq!(ContextKey(SERVER), ContextKey("gateway.server"));
    assert_ne!(ContextKey(SERVER), ContextKey(PISHOO));
}
