use std::sync::Arc;

use gateway::home::DhttpHome;
use gateway::parse::commands::{
    can_parse_conf, parse_conf, parse_stun_bind, try_parse_conf, Command, Commands, Surroundings,
};
use gateway::parse::directives::{parse_listen, parse_string_map, ExistingPaths};
use gateway::parse::node::{Directive, Node, Value};
use gateway::parse::types::{DhttpName, IfaceRange, IpFamilies};
use gateway::path::UnixPath;

fn leaf(words: &str) -> Directive {
    let mut words = words.split(' ').map(|word| word.to_owned());
    Directive {
        name: words.next().unwrap(),
        args: words.collect(),
        children: None,
    }
}

fn block(words: &str, children: Vec<Directive>) -> Directive {
    Directive { children: Some(children), ..leaf(words) }
}

fn existing(paths: &[&str]) -> ExistingPaths {
    ExistingPaths { paths: paths.iter().map(|path| UnixPath::new(path)).collect() }
}

fn parse(directives: Vec<Directive>, paths: &[&str]) -> Result<Arc<Node>, String> {
    let existing = existing(paths);
    let around = Surroundings { identity: None, existing: &existing };
    let parsed = try_parse_conf(&directives, around).expect("values can be gathered");
    parsed.map_err(|error| error.message)
}

fn nodes<'a>(node: &'a Node, name: &str) -> &'a Vec<Arc<Node>> {
    match node.get(name) {
        Some(Value::Nodes(nodes)) => nodes,
        _ => panic!("no blocks named {}", name),
    }
}

fn server(more: Vec<Directive>) -> Directive {
    let mut children = vec![
        leaf("listen all 443"),
        leaf("ssl_certificate /c"),
        leaf("ssl_certificate_key /k"),
    ];
    children.extend(more);
    block("server", children)
}

#[test]
fn blocks_are_gathered_and_asked_through_their_parents() {
    let location = block(
        "location /api",
        vec![leaf("gzip on"), leaf("add_header X-A b always"), leaf("add_header X-C d")],
    );
    let root = parse(
        vec![block(
            "pishoo",
            vec![
                leaf("gzip off"),
                leaf("gzip_types a b"),
                leaf("pid /run/p"),
                block("types", vec![leaf("text/plain txt log")]),
                leaf("default_type text/html"),
                server(vec![location]),
                server(vec![]),
            ],
        )],
        &["/c", "/k"],
    )
    .unwrap();

    let pishoo = nodes(&root, "pishoo")[0].clone();
    let servers = nodes(&pishoo, "server");
    assert_eq!(servers.len(), 2);
    let server = servers[0].clone();
    let location = nodes(&server, "location")[0].clone();
    let parents = vec![server.clone(), pishoo.clone(), root.clone()];

    assert_eq!(location.get_bool(&parents, "gzip"), Some(true));
    assert_eq!(server.get_bool(&vec![pishoo.clone(), root.clone()], "gzip"), Some(false));
    assert_eq!(
        location.get_string_vec(&parents, "gzip_types"),
        Some(&vec!["a".to_owned(), "b".to_owned()])
    );
    assert_eq!(location.get_str(&parents, "pid"), Some("/run/p"));
    assert_eq!(location.get_str(&parents, "gzip"), None);
    assert_eq!(
        location.get_types(&parents, "types").unwrap().get("log").unwrap().as_bytes(),
        b"text/plain"
    );
    assert_eq!(
        location.get_header_value(&parents, "default_type").unwrap().as_bytes(),
        b"text/html"
    );
    assert!(location.backtrack_node(&parents, "nothing").is_none());

    let way: Vec<(String, usize)> = [("pishoo", 0), ("server", 0), ("location", 0)]
        .iter()
        .map(|(name, index)| (name.to_string(), *index))
        .collect();
    let (found, above) = Node::block_at(&root, &way).unwrap();
    assert!(Arc::ptr_eq(&found, &location));
    assert_eq!(above.len(), 3);
    for (one, other) in above.iter().zip(&parents) {
        assert!(Arc::ptr_eq(one, other));
    }
    assert!(Node::block_at(&root, &vec![("pishoo".to_owned(), 1)]).is_none());
    assert!(Node::block_at(&pishoo, &vec![("gzip".to_owned(), 0)]).is_none());

    match location.get("add_header") {
        Some(Value::Header(rules)) => {
            let names: Vec<(&str, bool)> =
                rules.iter().map(|rule| (rule.name.as_str(), rule.always)).collect();
            assert_eq!(names, [("x-a", true), ("x-c", false), ("server", true)]);
        }
        _ => panic!("headers expected"),
    }
}

#[test]
fn the_first_fault_is_reported() {
    let fault = |children: Vec<Directive>| parse(vec![block("pishoo", children)], &["/c"]).unwrap_err();

    assert_eq!(fault(vec![leaf("gzip on"), leaf("nope")]), "unknown directive `nope`");
    assert_eq!(
        fault(vec![leaf("gzip maybe"), leaf("nope")]),
        "invalid boolean value `maybe`, expected `on` or `off`"
    );
    assert_eq!(
        fault(vec![leaf("pid")]),
        "invalid number of arguments for directive: pid"
    );
    assert_eq!(
        fault(vec![block("server", vec![])]),
        "Server directive must have listen directive"
    );
    assert_eq!(
        fault(vec![block("server", vec![leaf("listen all"), leaf("ssl_certificate /c")])]),
        "Server directive must have ssl_certificate_key directive"
    );
    assert_eq!(
        fault(vec![block("server", vec![leaf("listen all"), leaf("ssl_certificate /x")])]),
        "path `/x` does not exist"
    );
    assert_eq!(
        fault(vec![block("proxy", vec![leaf("allow a")])]),
        "Missing directive listen in proxy block"
    );
    assert_eq!(
        fault(vec![block("proxy", vec![leaf("listen 1.2.3.4:5, x")])]),
        "invalid number of arguments for directive: listen"
    );
    assert_eq!(
        fault(vec![block("proxy", vec![leaf("listen 1.2.3.4:5,x")])]),
        "invalid socket address `x` while parsing directive listen"
    );
    assert_eq!(
        fault(vec![block("server", vec![block("location a b c", vec![])])]),
        "Failed to parse location pattern"
    );
    assert_eq!(
        fault(vec![block("types", vec![leaf("text/plain txt"), leaf("a\nb c")])]),
        "failed to parse `a\nb` to header value"
    );
}

#[test]
fn addresses_of_one_name_are_gathered() {
    let root = parse(
        vec![block(
            "pishoo",
            vec![block("proxy", vec![leaf("listen 1.2.3.4:5"), leaf("listen 1.2.3.4:6")])],
        )],
        &[],
    )
    .unwrap();
    let pishoo = &nodes(&root, "pishoo")[0];
    match nodes(pishoo, "proxy")[0].get("listen") {
        Some(Value::AddrVec(addrs)) => {
            let texts: Vec<String> = addrs.iter().map(|addr| addr.to_text()).collect();
            assert_eq!(texts, ["1.2.3.4:5", "1.2.3.4:6"]);
        }
        _ => panic!("addresses expected"),
    }
}

#[test]
fn identities_fill_in_their_server() {
    let home = DhttpHome::new(UnixPath::new("/h"));
    let profile = home.identity_profile(&DhttpName::try_from("alice.dhttp.net").unwrap());
    let conf = vec![block("pishoo", vec![block("server", vec![leaf("listen all 1")])])];

    let present = existing(&[
        "/h/alice/ssl/fullchain.crt",
        "/h/alice/ssl/privkey.pem",
    ]);
    let around = Surroundings { identity: Some(&profile), existing: &present };
    let root = parse_conf(&conf, around).unwrap();
    let server = nodes(&nodes(&root, "pishoo")[0], "server")[0].clone();
    match server.get("server_name") {
        Some(Value::ServerName(names)) => assert_eq!(names, &vec!["alice.dhttp.net"]),
        _ => panic!("a name is filled in"),
    }
    match server.get("ssl_certificate") {
        Some(Value::Path(path)) => {
            assert_eq!(path, &UnixPath::new("/h/alice/ssl/fullchain.crt"))
        }
        _ => panic!("a certificate is filled in"),
    }

    let silent = vec![block("pishoo", vec![block("server", vec![])])];
    let root = parse_conf(&silent, around).unwrap();
    let server = nodes(&nodes(&root, "pishoo")[0], "server")[0].clone();
    assert!(server.get("listen").is_none());
    assert!(server.get("server_name").is_some());

    let absent = existing(&[]);
    let around = Surroundings { identity: Some(&profile), existing: &absent };
    assert_eq!(
        parse_conf(&conf, around).unwrap_err().message,
        "ssl_certificate not configured and default cert `/h/alice/ssl/fullchain.crt` does not exist"
    );
}

#[test]
fn types_without_a_block_behind_a_block_cannot_be_gathered() {
    let conf = vec![block(
        "pishoo",
        vec![block("types", vec![leaf("text/plain txt")]), leaf("types")],
    )];
    let none = existing(&[]);
    let around = Surroundings { identity: None, existing: &none };
    assert!(!can_parse_conf(&conf, around));
    assert!(try_parse_conf(&conf, around).is_none());
}

#[test]
fn stun_bindings_keep_their_address() {
    let none = existing(&[]);
    let around = Surroundings { identity: None, existing: &none };
    let bind = block("bind 1.2.3.4:5", vec![leaf("outer 6.7.8.9:10"), leaf("change_port 11")]);
    match parse_stun_bind(&bind, around).unwrap() {
        Value::ValueMap(values) => {
            assert!(matches!(values.get("bind_address"), Some(Value::Addr(_))));
            assert!(matches!(values.get("outer"), Some(Value::Addr(_))));
            assert!(matches!(values.get("change_port"), Some(Value::String(port)) if port == "11"));
        }
        _ => panic!("values expected"),
    }
    assert_eq!(
        parse_stun_bind(&leaf("bind"), around).unwrap_err().message,
        "Expected exactly one argument for `bind`, got 0"
    );
    assert_eq!(
        parse_stun_bind(&leaf("bind x"), around).unwrap_err().message,
        "Invalid socket address `x` for `bind`"
    );
}

#[test]
fn listening_falls_back_to_interfaces() {
    match parse_listen(&leaf("listen a,b")).unwrap() {
        Value::Listen(list) => {
            assert_eq!(list[0].range, IfaceRange::Exact("a,b".to_owned()));
            assert_eq!(list[0].families, IpFamilies::Dual);
        }
        _ => panic!("something to listen on expected"),
    }
    assert_eq!(
        parse_listen(&leaf("listen all v5only 1")).unwrap_err().message,
        "invalid ip families: v5only, expected `v4only`, `v6only` or `dual`"
    );
    assert_eq!(
        parse_listen(&leaf("listen all x")).unwrap_err().message,
        "invalid argument for directive: listen:x"
    );
    assert_eq!(
        parse_listen(&leaf("listen all dual x")).unwrap_err().message,
        "invalid port number `x` while parsing directive listen"
    );
}

#[test]
fn texts_are_found_by_their_arguments() {
    match parse_string_map(&block("map", vec![leaf("a x y"), leaf("b y")])).unwrap() {
        Value::StringMap(map) => {
            assert!(matches!(map.get("x"), Some(Value::String(text)) if text == "a"));
            assert!(matches!(map.get("y"), Some(Value::String(text)) if text == "b"));
            assert!(map.get("z").is_none());
        }
        _ => panic!("texts expected"),
    }
}

#[test]
fn later_commands_replace_earlier_ones() {
    let mut commands = Commands::new();
    commands.insert("a", Command::Boolean);
    commands.insert("a", Command::Text);
    let none = existing(&[]);
    let around = Surroundings { identity: None, existing: &none };
    let values = commands.parse(&vec![leaf("a b")], around).unwrap();
    assert!(matches!(values.get("a"), Some(Value::String(text)) if text == "b"));
}
