use gateway::home::DhttpHome;
use gateway::parse::builtin::default_registry;
use gateway::parse::completion::BuildOptions;
use gateway::parse::document::{ConfigDocument, ConfigNode};
use gateway::parse::domain::ResolvedConfigPath;
use gateway::parse::error::ConfigLoadFailure;
use gateway::parse::inclusion::{IncludeAnswer, IncludeEntry, IncludeFiles};
use gateway::parse::loader::ConfigDocumentParser;
use gateway::parse::parser::TypedConfigParser;
use gateway::parse::pattern::Pattern;
use gateway::parse::types::{
    AccessRulesUri, BoolConfig, ClientNameConfig, DefaultType, DhttpName, GzipCompLevel,
    HeaderRules, HeaderValue, IfaceRange, IpFamilies, ListenConfig, MimeTypes, PathConfig,
    ProxyPass, ResolverConfig, ServerNames, SocketAddrs, StringList, StunServerConfigValue,
};
use gateway::path::UnixPath;

const CERT: &str = "/tmp/server.crt";
const KEY: &str = "/tmp/server.key";

fn load_at(conf: &str, path: &str, files: &IncludeFiles) -> Result<ConfigDocument, ConfigLoadFailure> {
    let registry = default_registry();
    let mut parser = ConfigDocumentParser::new(&registry);
    parser.load_text(conf, &UnixPath::new(path), BuildOptions::new(), files)
}

fn load(conf: &str) -> Result<ConfigDocument, ConfigLoadFailure> {
    load_at(conf, "/tmp/pishoo.conf", &IncludeFiles::new())
}

fn parse_doc(conf: &str) -> ConfigDocument {
    match load(conf) {
        Ok(document) => document,
        Err(failure) => panic!("{}", report(&failure)),
    }
}

fn report(failure: &ConfigLoadFailure) -> String {
    failure.error.messages().join("\n")
}

fn assert_error_chain_display_single_line(failure: &ConfigLoadFailure) {
    for message in failure.error.messages() {
        assert!(!message.contains('\n'));
    }
}

fn first_pishoo(document: &ConfigDocument) -> &ConfigNode {
    &document.root.children("pishoo").expect("pishoo children")[0]
}

fn first_server(document: &ConfigDocument) -> &ConfigNode {
    &first_pishoo(document).children("server").expect("server children")[0]
}

fn first_location(document: &ConfigDocument) -> &ConfigNode {
    &first_server(document).children("location").expect("location exists")[0]
}

fn first_proxy(document: &ConfigDocument) -> &ConfigNode {
    &first_pishoo(document).children("proxy").expect("proxy exists")[0]
}

fn build_server_conf(body: &str) -> String {
    format!(
        "pishoo {{ server {{ listen all 5378; server_name example.com; \
         ssl_certificate {CERT}; ssl_certificate_key {KEY}; {body} }} }}"
    )
}

fn build_proxy_conf(body: &str) -> String {
    build_server_conf(&format!("location / {{ {body} }}"))
}

fn text_of(value: &HeaderValue) -> &str {
    std::str::from_utf8(value.as_bytes()).expect("header value should be text")
}

fn path_of(path: &ResolvedConfigPath) -> &UnixPath {
    path.as_path()
}

#[test]
fn parse_access_rules_rejects_invalid_uri() {
    let conf = "pishoo { access_rules not-a-uri; }";

    let failure = load(conf).expect_err("invalid access_rules URI should fail");

    assert!(report(&failure).contains("failed to parse directive `access_rules`"));
    assert_error_chain_display_single_line(&failure);
}

#[test]
fn parse_access_rules_rejects_non_sqlite_scheme() {
    let conf = "pishoo { access_rules https://example.com/rules.db; }";
    let failure = load(conf).expect_err("non-sqlite access_rules must fail");

    assert!(report(&failure).contains("unsupported access_rules uri scheme"));
}

#[test]
fn parse_access_rules_rejects_sqlite_authority_form() {
    let conf = "pishoo { access_rules sqlite://localhost/tmp/rules.db; }";
    let failure = load(conf).expect_err("authority-form sqlite URI must fail");

    assert!(report(&failure).contains("unsupported sqlite access_rules uri form"));
}

#[test]
fn parse_access_rules_relative_sqlite_preserves_os_path_bytes() {
    let cases: Vec<(&str, Vec<u8>)> = vec![
        ("sqlite:a:b.db?mode=ro%23strict", b"/srv/rules/a:b.db".to_vec()),
        (r"sqlite:a\b.db?mode=ro%23strict", br"/srv/rules/a\b.db".to_vec()),
        ("sqlite:a%5Cb.db?mode=ro%23strict", br"/srv/rules/a\b.db".to_vec()),
        (
            "sqlite:a%3Fb%23c%FF.db?mode=ro%23strict",
            b"/srv/rules/a?b#c\xff.db".to_vec(),
        ),
    ];
    let servers: String = cases
        .iter()
        .enumerate()
        .map(|(index, (access_rules, _))| {
            format!(
                "server {{\n    listen all {};\n    server_name example-{index}.com;\n    \
                 ssl_certificate ./server.crt;\n    ssl_certificate_key ./server.key;\n    \
                 access_rules {access_rules};\n}}\n",
                5378 + index,
            )
        })
        .collect();
    let conf = format!("pishoo {{ {servers} }}");

    let parsed = TypedConfigParser::new()
        .parse_root(&conf, &UnixPath::new("/srv/rules/server.conf"), None, &IncludeFiles::new())
        .expect("config should load");

    assert_eq!(parsed.servers().len(), cases.len());
    for (server, (_, expected_path)) in parsed.servers().iter().zip(cases) {
        let uri = &server
            .result()
            .as_ref()
            .unwrap()
            .http()
            .access_rules()
            .effective()
            .as_ref()
            .unwrap()
            .0;
        let path = AccessRulesUri::decoded_sqlite_path(uri)
            .expect("access_rules path should decode");
        assert_eq!(path.bytes, expected_path);
        assert_eq!(uri.query.as_deref(), Some("mode=ro%23strict"));
    }
}

#[test]
fn access_rules_paths_with_dots_are_shortened() {
    let read = |access_rules: &str| {
        let conf = build_server_conf(&format!("access_rules {access_rules};"));
        let document = load_at(&conf, "/srv/rules/server.conf", &IncludeFiles::new())
            .expect("config should load");
        let rules = first_server(&document)
            .require::<AccessRulesUri>("access_rules")
            .expect("access_rules should be typed");
        (rules.0.text.clone(), rules.0.query.clone())
    };
    assert_eq!(read("sqlite:../b.db"), ("sqlite:///srv/b.db".to_owned(), None));
    assert_eq!(
        read("sqlite:.d/..b?x"),
        ("sqlite:///srv/rules/.d/..b?x".to_owned(), Some("x".to_owned()))
    );
    assert_eq!(
        read("sqlite:/a%20b.db"),
        ("sqlite:/a%20b.db".to_owned(), None)
    );
}

#[test]
fn parse_bool_directive_rejects_invalid_value() {
    let conf = build_server_conf("gzip yes;");

    let failure = load(&conf).expect_err("invalid bool value should fail");

    assert!(report(&failure).contains("invalid boolean directive value"));
    assert_error_chain_display_single_line(&failure);
}

#[test]
fn parse_socket_addrs_keeps_multiple_addresses() {
    let conf = "pishoo { proxy { listen 127.0.0.1:8080,127.0.0.2:8081; allow any; deny none; } }";

    let document = parse_doc(conf);
    let listen = first_proxy(&document).require::<SocketAddrs>("listen").unwrap();

    let texts: Vec<String> = listen.0.iter().map(|addr| addr.to_text()).collect();
    assert_eq!(texts, vec!["127.0.0.1:8080", "127.0.0.2:8081"]);
}

#[test]
fn parse_socket_addrs_rejects_invalid_address() {
    let conf = "pishoo { proxy { listen not-a-socket; } }";

    let failure = load(conf).expect_err("invalid socket addr should fail");

    assert!(report(&failure).contains("failed to parse directive `listen`"));
}

#[test]
fn parse_address_directives_keep_socket_addrs_type() {
    let conf = "pishoo { proxy { listen 127.0.0.1:8080; } }";

    let document = parse_doc(conf);
    let listen = first_proxy(&document)
        .require::<SocketAddrs>("listen")
        .expect("proxy listen should be typed");

    assert_eq!(listen.0.len(), 1);
    assert_eq!(listen.0[0].to_text(), "127.0.0.1:8080");
}

#[test]
fn parse_ssh_ssl_users_rejects_invalid_argument_count() {
    let conf = build_proxy_conf("ssh_ssl_user alice; ");

    let failure = load(&conf).expect_err("ssh_ssl_user requires two args");

    assert!(report(&failure).contains("invalid ssh_ssl_user directive argument count"));
}

#[test]
fn parse_ssh_login_rejects_invalid_method() {
    let missing = load(&build_proxy_conf("ssh_login;"))
        .expect_err("missing ssh login method should fail");
    assert!(report(&missing).contains("missing ssh login method"));

    let invalid = load(&build_proxy_conf("ssh_login tls;"))
        .expect_err("invalid ssh login method should fail");
    assert!(report(&invalid).contains("invalid ssh login method"));
}

#[test]
fn parse_pishoo_groups_collects_all_values() {
    let document = parse_doc("pishoo { groups admin viewer api; }");

    let groups = first_pishoo(&document)
        .require::<StringList>("groups")
        .expect("groups should be typed");
    assert_eq!(groups.0, vec!["admin", "viewer", "api"]);
}

#[test]
fn parse_pishoo_gzip_types_collects_extensions() {
    let document = parse_doc("pishoo { gzip_types txt css js; }");

    let gzip_types = first_pishoo(&document)
        .require::<StringList>("gzip_types")
        .expect("gzip_types should be typed");
    assert_eq!(gzip_types.0, vec!["txt", "css", "js"]);
}

#[test]
fn parse_pishoo_types_block_parses_mime_types() {
    let document = parse_doc("pishoo { types { text/plain txt; application/json json; } }");

    let types = first_pishoo(&document)
        .require::<MimeTypes>("types")
        .expect("types should be typed");

    assert_eq!(text_of(types.get("txt").unwrap()), "text/plain");
    assert_eq!(text_of(types.get("json").unwrap()), "application/json");
}

#[test]
fn parse_string_list_directive_collects_all_values() {
    let document = parse_doc("pishoo { workers admin viewer api; }");

    let workers = first_pishoo(&document)
        .require::<StringList>("workers")
        .expect("workers should be typed");
    assert_eq!(workers.0, vec!["admin", "viewer", "api"]);
}

#[test]
fn parse_pid_and_access_rules_keep_domain_types() {
    let document = parse_doc(
        "pishoo { pid /tmp/pishoo-test.pid; access_rules sqlite:///tmp/rules.db?mode=ro; }",
    );
    let pishoo = first_pishoo(&document);

    assert_eq!(
        path_of(pishoo.require::<ResolvedConfigPath>("pid").expect("pid should be typed")),
        &UnixPath::new("/tmp/pishoo-test.pid")
    );
    assert_eq!(
        pishoo
            .require::<AccessRulesUri>("access_rules")
            .expect("access_rules should be typed")
            .0
            .text,
        "sqlite:///tmp/rules.db?mode=ro"
    );
}

#[test]
fn parse_relative_pid_uses_root_config_dir() {
    let document = load_at(
        "pishoo { pid ./run/pishoo.pid; }",
        "/srv/site/pishoo.conf",
        &IncludeFiles::new(),
    )
    .expect("config should load");

    assert_eq!(
        path_of(
            first_pishoo(&document)
                .require::<ResolvedConfigPath>("pid")
                .expect("pid should be typed")
        ),
        &UnixPath::new("/srv/site/run/pishoo.pid")
    );
}

#[test]
fn parse_client_name_directive_and_rejects_invalid_name() {
    let conf = format!(
        "pishoo {{ server {{ listen all 5378; server_name example.com; ssl_certificate {CERT}; \
         ssl_certificate_key {KEY}; }} proxy {{ listen 127.0.0.1:8080; \
         client_name good.example.com; }} }}"
    );

    let document = parse_doc(&conf);

    assert_eq!(
        first_proxy(&document)
            .require::<ClientNameConfig>("client_name")
            .expect("client_name should be typed")
            .0
            .as_partial(),
        "good.example.com"
    );
}

#[test]
fn parse_client_name_rejects_invalid_value() {
    let conf = "pishoo { proxy { listen 127.0.0.1:8080; client_name not host@@; } }";

    let failure = load(conf).expect_err("invalid client_name should fail");

    let report = report(&failure);
    assert!(
        report.contains("invalid client_name directive value")
            || report.contains("invalid dhttp name")
            || report.contains("failed to parse directive `client_name`")
    );
}

#[test]
fn parse_default_type_in_proxy_context() {
    let document =
        parse_doc("pishoo { proxy { listen 127.0.0.1:8080; default_type text/plain; } }");

    assert_eq!(
        text_of(
            &first_proxy(&document)
                .require::<DefaultType>("default_type")
                .expect("default_type should be typed")
                .0
        ),
        "text/plain"
    );
}

#[test]
fn parse_mime_types_in_proxy_context() {
    let document = parse_doc(
        "pishoo { proxy { listen 127.0.0.1:8080; types { text/plain txt; text/css css; } } }",
    );

    let types = first_proxy(&document)
        .require::<MimeTypes>("types")
        .expect("types should be typed");

    assert_eq!(text_of(types.get("txt").unwrap()), "text/plain");
    assert_eq!(text_of(types.get("css").unwrap()), "text/css");
}

#[test]
fn parse_proxy_allow_and_deny_collects_values() {
    let document = parse_doc(
        "pishoo { proxy { listen 127.0.0.1:8080; allow admin viewer; deny none; } }",
    );
    let proxy = first_proxy(&document);

    assert_eq!(
        proxy.require::<StringList>("allow").expect("allow should be typed").0,
        vec!["admin", "viewer"]
    );
    assert_eq!(
        proxy.require::<StringList>("deny").expect("deny should be typed").0,
        vec!["none"]
    );
}

#[test]
fn parse_proxy_dns_directive_accepts_h3_uri() {
    let document = parse_doc(
        "pishoo { proxy { listen 127.0.0.1:8080; dns h3 https://dns.genmeta.net/dns-query; } }",
    );

    assert_eq!(
        first_proxy(&document)
            .require::<ResolverConfig>("dns")
            .expect("dns should be typed")
            .0
            .text,
        "https://dns.genmeta.net/dns-query"
    );
}

#[test]
fn parse_proxy_ssl_certificate_and_key_path_types() {
    let document = parse_doc(
        "pishoo { proxy { listen 127.0.0.1:8080; ssl_certificate /tmp/client.crt; \
         ssl_certificate_key /tmp/client.key; } }",
    );
    let proxy = first_proxy(&document);

    assert_eq!(
        proxy
            .require::<PathConfig>("ssl_certificate")
            .expect("proxy ssl certificate should be typed")
            .0,
        UnixPath::new("/tmp/client.crt")
    );
    assert_eq!(
        proxy
            .require::<PathConfig>("ssl_certificate_key")
            .expect("proxy ssl certificate key should be typed")
            .0,
        UnixPath::new("/tmp/client.key")
    );
}

#[test]
fn parse_default_type_rejects_invalid_argument_count() {
    let failure = load("pishoo { default_type text/plain text/html; }")
        .expect_err("default_type requires one arg");

    assert!(report(&failure).contains("invalid default_type directive argument count"));
}

#[test]
fn http_parse_gzip_numeric_directives_reject_invalid_values() {
    let conf = format!(
        "pishoo {{ server {{ listen all 5378; server_name example.com; gzip_min_length invalid; \
         ssl_certificate {CERT}; ssl_certificate_key {KEY}; }} }}"
    );

    let failure = load(&conf).expect_err("invalid gzip number should fail");

    assert!(report(&failure).contains("failed to parse directive `gzip_min_length`"));
    assert_error_chain_display_single_line(&failure);
}

#[test]
fn parse_proxy_pass_rejects_missing_host() {
    let conf = build_server_conf("location /api { proxy_pass http:///path; }");

    let failure = load(&conf).expect_err("missing proxy_pass host should fail");

    let report = report(&failure);
    assert!(
        report.contains("missing proxy_pass host")
            || report.contains("invalid proxy_pass uri directive value")
            || report.contains("failed to parse directive `proxy_pass`")
    );
}

#[test]
fn parse_proxy_pass_rejects_unsupported_scheme() {
    let conf = build_proxy_conf("proxy_pass ftp://backend.example.com;");

    let failure = load(&conf).expect_err("unsupported scheme should fail");

    assert!(report(&failure).contains("unsupported proxy_pass uri scheme"));
    assert_error_chain_display_single_line(&failure);
}

#[test]
fn parse_path_list_directives_keep_path_config() {
    let document = parse_doc(&build_proxy_conf("root /var/www/site;"));

    assert_eq!(
        path_of(
            first_location(&document)
                .require::<ResolvedConfigPath>("root")
                .expect("root should be typed")
        ),
        &UnixPath::new("/var/www/site")
    );
}

#[test]
fn parse_default_type_in_location_context() {
    let document = parse_doc(&build_server_conf(
        "location / { root /tmp; default_type text/plain; }",
    ));

    assert_eq!(
        text_of(
            &first_location(&document)
                .require::<DefaultType>("default_type")
                .expect("default_type should be typed")
                .0
        ),
        "text/plain"
    );
}

#[test]
fn parse_location_alias_index_and_ssh_deny_and_gzip_types() {
    let document = parse_doc(&build_server_conf(
        "location /assets { alias /mnt/assets; index index.html index.txt; ssh_deny ip1 ip2; \
         gzip on; gzip_vary off; gzip_types txt css; }",
    ));
    let location = first_location(&document);

    assert_eq!(
        path_of(
            location
                .require::<ResolvedConfigPath>("alias")
                .expect("alias should be typed")
        ),
        &UnixPath::new("/mnt/assets")
    );
    assert_eq!(
        location.require::<StringList>("index").expect("index should be typed").0,
        vec!["index.html", "index.txt"],
    );
    assert_eq!(
        location
            .require::<StringList>("ssh_deny")
            .expect("ssh_deny should be typed")
            .0,
        vec!["ip1", "ip2"]
    );
    assert!(location.require::<BoolConfig>("gzip").expect("gzip").0);
    assert!(!location.require::<BoolConfig>("gzip_vary").expect("gzip_vary").0);
    assert_eq!(
        location
            .require::<StringList>("gzip_types")
            .expect("gzip_types should be typed")
            .0,
        vec!["txt", "css"],
    );
}

#[test]
fn parse_location_pattern_variants_from_context_payload() {
    let document = parse_doc(&build_server_conf(
        "location / { root /tmp; }\nlocation = /login { root /var; }\nlocation ~ \\.(gif|png)$ { root /var/www; }",
    ));
    let locations = first_server(&document)
        .children("location")
        .expect("location should exist");

    let common = locations[0]
        .payload::<Pattern>()
        .expect("common payload")
        .expect("common location payload");
    let exact = locations[1]
        .payload::<Pattern>()
        .expect("exact payload")
        .expect("exact location payload");
    let regex = locations[2]
        .payload::<Pattern>()
        .expect("regex payload")
        .expect("regex location payload");

    assert!(matches!(common, Pattern::Common));
    assert!(matches!(exact, Pattern::Exact(_)));
    assert!(matches!(regex, Pattern::Regex(_)));
}

#[test]
fn parse_location_pattern_rejects_invalid_argument_count() {
    let conf = build_server_conf("location /foo bar baz { root /tmp; }");

    let failure = load(&conf).expect_err("pattern with invalid arg count should fail");

    assert!(report(&failure).contains("number of location args must be 1 or 2"));
}

#[test]
fn parse_https_proxy_with_optional_trusted_certificate() {
    let document = parse_doc(&build_proxy_conf(
        "proxy_pass https://backend.example.com; proxy_ssl_trusted_certificate /tmp/trusted.crt;",
    ));
    let location = first_location(&document);

    assert!(location.require::<ProxyPass>("proxy_pass").is_ok());
    assert!(location
        .require::<ResolvedConfigPath>("proxy_ssl_trusted_certificate")
        .is_ok());
}

#[test]
fn parse_proxy_ssl_certificate_requires_matching_key() {
    let conf = build_proxy_conf(
        "proxy_pass https://backend.example.com; proxy_ssl_certificate /tmp/client.crt;",
    );

    let failure = load(&conf).expect_err("missing proxy key should fail");

    assert!(report(&failure).contains("failed to finalize configuration context"));
}

#[test]
fn parse_http_proxy_allows_proxy_ssl_directives() {
    let document = parse_doc(&build_proxy_conf(
        "proxy_pass http://backend.example.com; proxy_ssl_certificate /tmp/client.crt; \
         proxy_ssl_certificate_key /tmp/client.key; proxy_ssl_trusted_certificate /tmp/trusted.crt;",
    ));
    let location = first_location(&document);

    assert!(location
        .require::<ResolvedConfigPath>("proxy_ssl_certificate")
        .is_ok());
    assert!(location
        .require::<ResolvedConfigPath>("proxy_ssl_certificate_key")
        .is_ok());
}

#[test]
fn parse_regex_location_rejects_proxy_pass_with_explicit_uri() {
    let conf = build_server_conf(
        r"location ~ \.php$ { proxy_pass http://backend.example.com/base/; }",
    );

    let failure = load(&conf).expect_err("regex location proxy_pass with uri should fail");

    assert!(report(&failure)
        .contains("proxy_pass cannot include a uri part inside regex location"));
}

#[test]
fn parse_regex_location_allows_proxy_pass_without_explicit_uri() {
    let document = parse_doc(&build_server_conf(
        r"location ~ \.php$ { proxy_pass http://backend.example.com; }",
    ));
    let proxy_pass = first_location(&document)
        .require::<ProxyPass>("proxy_pass")
        .expect("proxy_pass should be typed");

    assert!(!proxy_pass.has_explicit_uri());
}

#[test]
fn parse_header_rules_accepts_add_header_and_proxy_set_header() {
    let document = parse_doc(&build_proxy_conf(
        "proxy_set_header X-Trace test; add_header X-Custom yes always;",
    ));
    let location = first_location(&document);

    let proxy_set = location
        .require::<HeaderRules>("proxy_set_header")
        .expect("proxy_set_header should be typed");
    assert_eq!(proxy_set.0.len(), 1);
    assert_eq!(proxy_set.0[0].name.as_str(), "x-trace");
    assert_eq!(text_of(&proxy_set.0[0].value), "test");
    assert!(proxy_set.0[0].always);

    let add_header_rules = location
        .get_all::<HeaderRules>("add_header")
        .expect("add_header values should be typed");
    let header_names: Vec<&str> = add_header_rules
        .iter()
        .flat_map(|entry| entry.0.iter())
        .map(|rule| rule.name.as_str())
        .collect();
    assert!(header_names.iter().any(|name| name.eq_ignore_ascii_case("x-custom")));
    assert!(header_names.iter().any(|name| name.eq_ignore_ascii_case("server")));
}

#[test]
fn parse_header_rules_rejects_invalid_always_marker() {
    let conf = build_proxy_conf("add_header X-Trace test sometimes;");

    let failure = load(&conf).expect_err("invalid header add_marker should fail");

    assert!(report(&failure).contains("invalid add_header always marker"));
}

#[test]
fn parse_location_root_is_relative_to_source_file() {
    let conf = "server {\n    listen all 5378;\n    server_name example.com;\n    ssl_certificate ./server.crt;\n    ssl_certificate_key ./server.key;\n    location / { root .; }\n}\n";
    let document = load_at(conf, "/srv/site/server.conf", &IncludeFiles::new())
        .expect("config should load");
    let server = &document.root.children("server").expect("server children")[0];
    let location = &server.children("location").expect("location children")[0];

    assert_eq!(
        path_of(
            location
                .require::<ResolvedConfigPath>("root")
                .expect("root should be typed")
        ),
        &UnixPath::new("/srv/site")
    );
}

#[test]
fn parse_included_location_root_is_relative_to_included_file() {
    let conf = "server {\n    listen all 5378;\n    server_name example.com;\n    ssl_certificate ./server.crt;\n    ssl_certificate_key ./server.key;\n    include sites/static.conf;\n}\n";
    let mut files = IncludeFiles::new();
    files.add_answer(
        UnixPath::new("/srv/site/sites/static.conf"),
        IncludeAnswer::Entries(vec![IncludeEntry::Read {
            path: UnixPath::new("/srv/site/sites/static.conf"),
            text: "location / { root .; }\n".to_owned(),
        }]),
    );
    let document = load_at(conf, "/srv/site/server.conf", &files).expect("config should load");
    let server = &document.root.children("server").expect("server children")[0];
    let location = &server.children("location").expect("location children")[0];

    assert_eq!(
        path_of(
            location
                .require::<ResolvedConfigPath>("root")
                .expect("root should be typed")
        ),
        &UnixPath::new("/srv/site/sites")
    );
}

#[test]
fn parse_server_rejects_legacy_server_id_directive() {
    let conf = format!(
        "pishoo {{ server {{ listen all 5378; server_name example.com; server_id 1; \
         ssl_certificate {CERT}; ssl_certificate_key {KEY}; }} }}"
    );

    let failure = load(&conf).expect_err("legacy server_id directive must be rejected");

    let report = failure.messages().join("\n");
    assert!(
        report.contains("server_id"),
        "error report should name the rejected directive: {report}"
    );
    assert_error_chain_display_single_line(&failure);
}

#[test]
fn parse_bool_directives_accept_on_off_values() {
    let document = parse_doc(&build_server_conf(
        "gzip on; gzip_vary off; relay on; stun off;",
    ));
    let server = first_server(&document);

    assert!(server.require::<BoolConfig>("gzip").unwrap().0);
    assert!(!server.require::<BoolConfig>("gzip_vary").unwrap().0);
    assert!(server.require::<BoolConfig>("relay").unwrap().0);
    assert!(!server.require::<BoolConfig>("stun").unwrap().0);
}

#[test]
fn parse_server_path_directives_preserve_path_values() {
    let document = parse_doc(&build_server_conf(""));
    let server = first_server(&document);

    assert_eq!(
        path_of(
            server
                .require::<ResolvedConfigPath>("ssl_certificate")
                .expect("ssl_certificate should be typed")
        ),
        &UnixPath::new(CERT)
    );
    assert_eq!(
        path_of(
            server
                .require::<ResolvedConfigPath>("ssl_certificate_key")
                .expect("ssl_certificate_key should be typed")
        ),
        &UnixPath::new(KEY)
    );
}

#[test]
fn identity_profile_server_conf_can_omit_name_and_tls_with_home_context() {
    let home = DhttpHome::new(UnixPath::new("/tmp/pishoo-identity"));
    let name = DhttpName::try_from("alice.dhttp.net").unwrap();
    let profile = home.identity_profile(&name);
    let registry = default_registry();
    let mut parser = ConfigDocumentParser::new(&registry);
    let document = parser
        .load_text(
            "server { listen all 443; location / { root .; } }",
            &profile.server_conf_path(),
            BuildOptions { dhttp_home: Some(&home), identity_profile: Some(&profile) },
            &IncludeFiles::new(),
        )
        .expect("identity service config should parse");

    let server = &document.root.children("server").expect("server children")[0];
    let names = server.require::<ServerNames>("server_name").unwrap();
    assert_eq!(names.0[0].name, name);
    assert!(server
        .get::<ResolvedConfigPath>("ssl_certificate")
        .unwrap()
        .is_none());
    assert!(server
        .get::<ResolvedConfigPath>("ssl_certificate_key")
        .unwrap()
        .is_none());
}

#[test]
fn explicit_config_still_requires_tls_paths() {
    let failure = load("pishoo { server { listen all 443; server_name alice.dhttp.net; } }")
        .expect_err("standalone config must reject missing tls paths");

    assert!(report(&failure).contains("missing ssl_certificate directive in server context"));
}

#[test]
fn parse_server_accepts_default_type_and_access_rules() {
    let document = parse_doc(&build_server_conf(
        "default_type application/octet-stream; access_rules sqlite:///tmp/access.db;",
    ));
    let server = first_server(&document);

    assert_eq!(
        text_of(
            &server
                .require::<DefaultType>("default_type")
                .expect("default_type should be typed")
                .0
        ),
        "application/octet-stream"
    );
    assert_eq!(
        server
            .require::<AccessRulesUri>("access_rules")
            .expect("access_rules should be typed")
            .0
            .text,
        "sqlite:///tmp/access.db"
    );
}

#[test]
fn parse_server_accepts_gzip_comp_level() {
    let document = parse_doc(&build_server_conf("gzip_comp_level 6;"));

    assert_eq!(
        first_server(&document)
            .require::<GzipCompLevel>("gzip_comp_level")
            .expect("gzip_comp_level should be typed")
            .0,
        6
    );
}

#[test]
fn parse_resolver_config_rejects_deprecated_kind() {
    let conf = build_server_conf("dns udp https://dns.example.com/dns-query;");

    let failure = load(&conf).expect_err("deprecated dns resolver kind should fail");

    assert!(report(&failure).contains("deprecated resolver kind `udp`"));
}

#[test]
fn parse_resolver_config_rejects_unsupported_kind() {
    let conf = build_server_conf("dns tcp https://dns.example.com/dns-query;");

    let failure = load(&conf).expect_err("unsupported dns resolver kind should fail");

    assert!(report(&failure).contains("unsupported resolver kind `tcp`"));
}

#[test]
fn parse_resolver_config_rejects_invalid_uri() {
    let conf = build_server_conf("dns h3 http://[::1;");

    let failure = load(&conf).expect_err("resolver URI should parse fail");

    assert!(report(&failure).contains("invalid dns resolver uri directive value"));
}

#[test]
fn parse_dns_resolver_and_publisher() {
    let conf = format!(
        "pishoo {{ server {{ listen all 5378; server_name example.com; \
         dns h3 https://dns.example.com/dns-query; ssl_certificate {CERT}; \
         ssl_certificate_key {KEY}; }} }}"
    );

    let document = parse_doc(&conf);
    let resolver = first_server(&document)
        .require::<ResolverConfig>("dns")
        .expect("dns should exist");

    assert_eq!(resolver.0.text, "https://dns.example.com/dns-query");
}

#[test]
fn parse_server_names_with_multiple_values() {
    let conf = format!(
        "pishoo {{ server {{ listen all 5378; server_name main.example.com backup.example.com; \
         ssl_certificate {CERT}; ssl_certificate_key {KEY}; }} }}"
    );

    let document = parse_doc(&conf);
    let names = first_server(&document)
        .require::<ServerNames>("server_name")
        .expect("server_name should be typed");

    assert_eq!(names.0.len(), 2);
    assert_eq!(names.0[0].name.as_partial(), "main.example.com");
    assert_eq!(names.0[1].name.as_partial(), "backup.example.com");
}

#[test]
fn parse_server_names_rejects_invalid_value() {
    let conf = build_server_conf("server_name invalid_host@@; ");

    let failure = load(&conf).expect_err("invalid server_name should fail");

    assert!(report(&failure).contains("invalid server_name directive value"));
}

fn listening_conf(listen: &str) -> String {
    format!(
        "pishoo {{ server {{ {listen} server_name example.com; ssl_certificate {CERT}; \
         ssl_certificate_key {KEY}; }} }}"
    )
}

#[test]
fn parse_listen_config_with_interface_only() {
    let document = parse_doc(&listening_conf("listen all;"));
    let listen = first_server(&document)
        .require::<ListenConfig>("listen")
        .expect("listen should be typed");
    assert_eq!(listen.0[0].port, 0);
    assert_eq!(listen.0[0].range, IfaceRange::All);
}

#[test]
fn parse_listen_config_with_address_and_families() {
    let document = parse_doc(&listening_conf("listen 127.0.0.1:443,127.0.0.2:8443;"));
    let listen = first_server(&document)
        .require::<ListenConfig>("listen")
        .expect("listen should be typed");

    assert_eq!(listen.0.len(), 1);
    let only = &listen.0[0];
    assert_eq!(only.port, 0);
    assert!(only.specific_addrs.is_some());
}

#[test]
fn parse_listen_config_with_interface_and_port() {
    let document = parse_doc(&listening_conf("listen all 8443;"));
    let listen = first_server(&document)
        .require::<ListenConfig>("listen")
        .expect("listen should be typed");
    assert_eq!(listen.0[0].port, 8443);
}

#[test]
fn parse_listen_config_rejects_invalid_family() {
    let failure = load(&build_server_conf("listen all ipv9 8443;"))
        .expect_err("invalid family should fail");

    assert!(report(&failure).contains("invalid listen ip family"));
}

#[test]
fn parse_listen_config_with_interface_and_family() {
    let document = parse_doc(&listening_conf("listen eth0 v4only;"));
    let listen = first_server(&document)
        .require::<ListenConfig>("listen")
        .expect("listen should be typed");

    assert_eq!(listen.0[0].port, 0);
    assert_eq!(listen.0[0].families, IpFamilies::V4);
    assert_eq!(listen.0[0].range, IfaceRange::Exact("eth0".to_owned()));
}

#[test]
fn parse_listen_config_with_interface_family_and_port() {
    let document = parse_doc(&listening_conf("listen eth0 v6only 9443;"));
    let listen = first_server(&document)
        .require::<ListenConfig>("listen")
        .expect("listen should be typed");

    assert_eq!(listen.0[0].port, 9443);
    assert_eq!(listen.0[0].families, IpFamilies::V6);
    assert_eq!(listen.0[0].range, IfaceRange::Exact("eth0".to_owned()));
}

#[test]
fn parse_listen_config_rejects_too_many_arguments() {
    let failure = load(&build_server_conf("listen all v4only 443 extra;"))
        .expect_err("too many listen args should fail");

    assert!(report(&failure).contains("invalid listen directive argument count"));
}

#[test]
fn parse_gzip_comp_level_rejects_invalid_value() {
    let conf = "pishoo { server { listen all 5378; server_name example.com; ssl_certificate /tmp/server.pem; ssl_certificate_key /tmp/key.pem; gzip_comp_level bad; } }";

    let failure = load(conf).expect_err("invalid gzip_comp_level should fail");

    assert!(report(&failure).contains("failed to parse directive `gzip_comp_level`"));
}

#[test]
fn parse_mime_types_directive_parses_block() {
    let document = parse_doc(&build_server_conf(
        "types { text/plain txt; application/json json; }",
    ));
    let types = first_server(&document)
        .require::<MimeTypes>("types")
        .expect("types should be typed");

    assert_eq!(text_of(types.get("txt").unwrap()), "text/plain");
    assert_eq!(text_of(types.get("json").unwrap()), "application/json");
}

#[test]
fn parse_mime_types_rejects_non_block_form() {
    let failure = load(&build_server_conf("types text/plain txt;"))
        .expect_err("mime type map requires block form");

    assert!(report(&failure).contains("types directive must be a block"));
}

#[test]
fn server_parse_gzip_numeric_directives_reject_invalid_values() {
    let conf = format!(
        "pishoo {{ server {{ listen all 5378; server_name example.com; gzip_min_length invalid; \
         ssl_certificate {CERT}; ssl_certificate_key {KEY}; }} }}"
    );

    let failure = load(&conf).expect_err("invalid gzip number should fail");

    assert!(report(&failure).contains("failed to parse directive `gzip_min_length`"));
    assert_error_chain_display_single_line(&failure);
}

#[test]
fn stun_server_fallbacks_may_stand_anywhere() {
    let binds = |body: &str| {
        let document = parse_doc(&build_server_conf(&format!("stun_server {{ {body} }}")));
        let configs = first_server(&document)
            .require::<StunServerConfigValue>("stun_server")
            .expect("stun_server should be typed");
        let ports: Vec<(String, Option<u16>, Option<String>)> = configs
            .binds
            .iter()
            .map(|value| {
                let outer = value.outer_addr.as_ref().map(|addr| addr.to_text());
                (value.bind.to_text(), value.change_port, outer)
            })
            .collect();
        ports
    };
    let expected = vec![
        ("1.1.1.1:1".to_owned(), Some(7), Some("3.3.3.3:3".to_owned())),
        ("2.2.2.2:2".to_owned(), Some(9), Some("3.3.3.3:3".to_owned())),
    ];
    let first = "bind 1.1.1.1:1;";
    let second = "bind 2.2.2.2:2 change_port 9;";
    assert_eq!(
        binds(&format!("change_port 7; outer_addr 3.3.3.3:3; {first} {second}")),
        expected
    );
    assert_eq!(
        binds(&format!("{first} outer_addr 3.3.3.3:3; {second} change_port 7;")),
        expected
    );
}

#[test]
fn stun_server_leaf_form_is_rejected() {
    let failure = load(
        "pishoo { server { listen all 1; server_name x; ssl_certificate /tmp/c; ssl_certificate_key /tmp/k; stun_server value; } }",
    )
    .expect_err("stun_server must be a block");

    assert!(report(&failure).contains("stun_server must use block form"));
}
