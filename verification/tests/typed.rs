use gateway::home::DhttpHome;
use gateway::parse::builder::ParsedPishooConfig;
use gateway::parse::config::{
    AccessLogDirective, OriginScope, ResolvedAccessLogConfig, RootWorkerDefaultsSnapshot,
    ServerConfig,
};
use gateway::parse::domain::ResolvedConfigPath;
use gateway::parse::error::ConfigLoadFailure;
use gateway::parse::inclusion::IncludeFiles;
use gateway::parse::parser::TypedConfigParser;
use gateway::parse::types::{DhttpName, HeaderValue};
use gateway::path::UnixPath;

const CERT: &str = "/tmp/server.crt";
const KEY: &str = "/tmp/server.key";

fn path(text: &str) -> UnixPath {
    UnixPath::new(text)
}

fn no_files() -> IncludeFiles {
    IncludeFiles::new()
}

fn parse_root(text: &str) -> Result<ParsedPishooConfig, ConfigLoadFailure> {
    TypedConfigParser::new().parse_root(text, &path("/tmp/pishoo.conf"), None, &no_files())
}

fn first_server(text: &str) -> Result<ServerConfig, String> {
    let parsed = parse_root(text).map_err(|failure| failure.messages().join("\n"))?;
    parsed
        .into_parts()
        .1
        .into_iter()
        .next()
        .expect("fixture has one server")
        .into_result()
        .map_err(|error| error.messages().join("\n"))
}

fn parse_direct_server(extra: &str) -> Result<ServerConfig, String> {
    first_server(&build_server_conf(extra))
}

fn build_server_conf(body: &str) -> String {
    format!(
        "pishoo {{ server {{ listen all 5378; server_name example.com; \
         ssl_certificate {CERT}; ssl_certificate_key {KEY}; {body} }} }}"
    )
}

fn build_proxy_conf(body: &str) -> String {
    build_server_conf(&format!("location / {{ {body} }}"))
}

fn text_of(value: &HeaderValue) -> &str {
    std::str::from_utf8(value.as_bytes()).expect("header value should be text")
}

#[test]
fn concrete_tree_computes_full_lineage_during_construction() {
    let root = TypedConfigParser::new()
        .parse_root("pishoo { gzip off; }", &path("/tmp/root.conf"), None, &no_files())
        .unwrap();
    let root_defaults = root.pishoo().worker_defaults();
    let home = DhttpHome::for_user_home_dir(&path("/tmp/home"));
    let worker = TypedConfigParser::new()
        .parse_worker(
            "pishoo { gzip on; }",
            &path("/tmp/home/.config/dhttp/pishoo.conf"),
            &home,
            &root_defaults,
            &no_files(),
        )
        .unwrap();
    let worker_defaults = worker.pishoo().worker_defaults();
    let profile = home.identity_profile(&DhttpName::try_from("example.com").unwrap());
    let identity = TypedConfigParser::new()
        .parse_identity(
            "server { listen all 443; location / { gzip off; } }",
            &path("/tmp/home/.config/dhttp/identity/example.com/server.conf"),
            profile,
            &worker_defaults,
            &no_files(),
        )
        .unwrap();
    let server = identity.result().as_ref().unwrap();
    let gzip = server.locations()[0].http().gzip();

    assert!(!gzip.effective().0);
    assert_eq!(
        gzip.lineage()
            .iter()
            .map(|origin| origin.scope())
            .collect::<Vec<_>>(),
        [
            OriginScope::Builtin,
            OriginScope::RootPishoo,
            OriginScope::WorkerPishoo,
            OriginScope::Location,
        ]
    );
}

#[test]
fn lineage_points_to_the_explicit_directive() {
    let parsed = TypedConfigParser::new()
        .parse_root(
            "pishoo {\n    gzip on;\n}",
            &path("/etc/pishoo/pishoo.conf"),
            None,
            &no_files(),
        )
        .unwrap();
    let origin = parsed.pishoo().http().gzip().lineage().last().unwrap();

    assert_eq!(origin.path(), Some(&path("/etc/pishoo/pishoo.conf")));
    assert_eq!(origin.line(), Some(2));
    assert_eq!(origin.column(), Some(5));
}

#[test]
fn direct_server_semantic_failure_is_isolated_as_candidate() {
    let parsed = parse_root(
        "pishoo { server { listen all 443; server_name bad.example; } \
         server { listen all 444; server_name good.example; ssl_certificate /tmp/c; ssl_certificate_key /tmp/k; } }",
    )
    .unwrap();

    assert!(parsed.servers()[0].result().is_err());
    assert!(parsed.servers()[1].result().is_ok());
}

#[test]
fn duplicate_scalar_directive_is_rejected() {
    let failure = parse_root("pishoo { gzip on; gzip off; }").unwrap_err();
    assert!(failure
        .messages()
        .join("\n")
        .contains("duplicate directive `gzip`"));
}

#[test]
fn server_accepts_multiple_location_blocks() {
    let server = parse_direct_server("location / {} location /files {}").unwrap();

    assert_eq!(server.locations().len(), 2);
}

#[test]
fn root_snapshot_checked_serde_round_trip_preserves_every_field() {
    let parsed = parse_root(
        "pishoo { gzip on; gzip_vary on; gzip_min_length 91; gzip_comp_level 4; \
         gzip_types text/plain application/json; default_type application/octet-stream; \
         access_log /tmp/access.log; }",
    )
    .unwrap();
    let expected = parsed.pishoo().worker_defaults();
    let actual = RootWorkerDefaultsSnapshot::from_wire(expected.to_wire())
        .unwrap_or_else(|error| panic!("{}", error.message()));

    let (one, other) = (expected.http(), actual.http());
    assert_eq!(one.gzip().effective(), other.gzip().effective());
    assert_eq!(one.gzip().lineage(), other.gzip().lineage());
    assert!(other.gzip().effective().0);
    assert_eq!(one.gzip_vary().effective(), other.gzip_vary().effective());
    assert_eq!(one.gzip_vary().lineage(), other.gzip_vary().lineage());
    assert_eq!(other.gzip_min_length().effective().0, 91);
    assert_eq!(one.gzip_min_length().lineage(), other.gzip_min_length().lineage());
    assert_eq!(other.gzip_comp_level().effective().0, 4);
    assert_eq!(one.gzip_comp_level().lineage(), other.gzip_comp_level().lineage());
    assert_eq!(one.gzip_types().effective(), other.gzip_types().effective());
    assert_eq!(one.gzip_types().lineage(), other.gzip_types().lineage());
    assert_eq!(
        text_of(&other.default_type().effective().as_ref().unwrap().0),
        "application/octet-stream"
    );
    assert_eq!(one.default_type().lineage(), other.default_type().lineage());
    assert!(other.types().effective().is_none());
    assert!(other.access_rules().effective().is_none());
    assert_eq!(one.access_log().effective(), other.access_log().effective());
    assert_eq!(one.access_log().lineage(), other.access_log().lineage());
}

#[test]
fn access_log_defaults_follow_server_identity_ownership() {
    let direct = parse_direct_server("").unwrap();
    assert_eq!(direct.http().access_log().effective(), &AccessLogDirective::Off);

    let home = DhttpHome::for_user_home_dir(&path("/tmp/alice"));
    let profile = home.identity_profile(&DhttpName::try_from("alice.dhttp.net").unwrap());
    let defaults = TypedConfigParser::new()
        .parse_root("pishoo {}", &path("/etc/pishoo/pishoo.conf"), Some(&home), &no_files())
        .unwrap()
        .pishoo()
        .worker_defaults();
    let identity = TypedConfigParser::new()
        .parse_identity(
            "server { listen all 443; location / {} }",
            &profile.server_conf_path(),
            profile.clone(),
            &defaults,
            &no_files(),
        )
        .unwrap();
    let server = identity.result().as_ref().unwrap();

    assert_eq!(
        server.http().access_log().effective(),
        &AccessLogDirective::ProfileDefault
    );
    assert_eq!(
        server
            .http()
            .access_log()
            .effective()
            .materialize(server.identity())
            .unwrap(),
        ResolvedAccessLogConfig::Enabled(
            ResolvedConfigPath::try_from(profile.access_log_path()).unwrap()
        )
    );
}

#[test]
fn location_access_log_override_keeps_location_lineage() {
    let server = first_server(
        "pishoo { access_log /tmp/root.log; server { listen all 443; \
         server_name example.com; ssl_certificate /tmp/c; ssl_certificate_key /tmp/k; \
         location /private { access_log off; } } }",
    )
    .unwrap();
    let access_log = server.locations()[0].http().access_log();

    assert_eq!(access_log.effective(), &AccessLogDirective::Off);
    assert_eq!(
        access_log.lineage().last().unwrap().scope(),
        OriginScope::Location
    );
}

#[test]
fn root_access_log_path_survives_worker_snapshot_without_rebasing() {
    let home = DhttpHome::for_user_home_dir(&path("/home/alice"));
    let root = TypedConfigParser::new()
        .parse_root(
            "pishoo { access_log logs/access.log; }",
            &path("/etc/pishoo/pishoo.conf"),
            Some(&home),
            &no_files(),
        )
        .unwrap()
        .pishoo()
        .worker_defaults();
    let worker = TypedConfigParser::new()
        .parse_worker(
            "pishoo {}",
            &path("/home/alice/.config/dhttp/pishoo.conf"),
            &home,
            &root,
            &no_files(),
        )
        .unwrap();

    assert_eq!(
        worker
            .pishoo()
            .http()
            .access_log()
            .effective()
            .resolved_path(),
        Some(&path("/etc/pishoo/logs/access.log"))
    );
}

#[test]
fn parse_default_type_accepts_single_header_value() {
    let parsed = parse_root("pishoo { default_type text/html; }").unwrap();
    let value = parsed
        .pishoo()
        .http()
        .default_type()
        .effective()
        .as_ref()
        .unwrap();

    assert_eq!(text_of(&value.0), "text/html");
}

#[test]
fn parse_numeric_and_identity_directives_keep_typed_values() {
    let parsed = parse_root("pishoo { gzip_min_length 1100; gzip_comp_level 6; }").unwrap();
    let pishoo = parsed.pishoo();

    assert_eq!(pishoo.http().gzip_min_length().effective().0, 1100);
    assert_eq!(pishoo.http().gzip_comp_level().effective().0, 6);
}

#[test]
fn parse_proxy_pass_preserves_no_explicit_uri() {
    let server = first_server(&build_server_conf(
        "location /api { proxy_pass http://backend.example.com; }",
    ))
    .unwrap();
    let proxy_pass = server.locations()[0].proxy_pass().unwrap();

    assert_eq!(proxy_pass.proxy_host, "backend.example.com");
    assert!(!proxy_pass.has_explicit_uri());
    assert_eq!(proxy_pass.explicit_path_and_query(), None);
}

#[test]
fn parse_proxy_pass_preserves_explicit_root_uri() {
    let server = first_server(&build_server_conf(
        "location /api { proxy_pass http://backend.example.com/; }",
    ))
    .unwrap();
    let proxy_pass = server.locations()[0].proxy_pass().unwrap();

    assert!(proxy_pass.has_explicit_uri());
    assert_eq!(proxy_pass.explicit_path_and_query(), Some("/"));
}

#[test]
fn parse_proxy_pass_preserves_explicit_nested_uri_and_port() {
    let server = first_server(&build_server_conf(
        "location /api { proxy_pass https://backend.example.com:8443/base/?v=1; }",
    ))
    .unwrap();
    let proxy_pass = server.locations()[0].proxy_pass().unwrap();

    assert_eq!(proxy_pass.proxy_host, "backend.example.com:8443");
    assert!(proxy_pass.has_explicit_uri());
    assert_eq!(proxy_pass.explicit_path_and_query(), Some("/base/?v=1"));
    assert_eq!(proxy_pass.port_u16(), Some(8443));
}

#[test]
fn parse_proxy_pass_accepts_http_and_https() {
    let server = first_server(&build_server_conf(
        "location /api { proxy_pass http://backend.example.com; }",
    ))
    .unwrap();
    assert_eq!(server.locations()[0].proxy_pass().unwrap().scheme_str(), "http");

    let server = first_server(&build_server_conf(
        "location /api { proxy_pass https://backend.example.com; }",
    ))
    .unwrap();
    assert_eq!(server.locations()[0].proxy_pass().unwrap().scheme_str(), "https");
}

#[test]
fn parse_ssh_ssl_users_keeps_name_user_tuple() {
    let server = first_server(&build_proxy_conf("ssh_ssl_user alice aliceroot;")).unwrap();
    let users = &server.locations()[0].ssh_users()[0].0;

    assert_eq!(users[0].name, "alice");
    assert_eq!(users[0].user, "aliceroot");
}

#[test]
fn parse_ssh_login_keeps_semantic_type() {
    let server = first_server(&build_proxy_conf("ssh_login ssl;")).unwrap();

    assert_eq!(
        server.locations()[0].ssh_login().unwrap().0,
        vec!["ssl".to_owned()]
    );
}

#[test]
fn values_are_taken_over_level_by_level() {
    let server = first_server(
        "pishoo { gzip_min_length 7; server { listen all 443; server_name example.com; \
         ssl_certificate /tmp/c; ssl_certificate_key /tmp/k; gzip_comp_level 3; \
         location / { } location /b { gzip_min_length 9; } } }",
    )
    .unwrap();
    let (plain, own) = (&server.locations()[0], &server.locations()[1]);

    assert_eq!(plain.http().gzip_min_length().effective().0, 7);
    assert_eq!(plain.http().gzip_comp_level().effective().0, 3);
    assert_eq!(own.http().gzip_min_length().effective().0, 9);
    assert_eq!(
        plain
            .http()
            .gzip_min_length()
            .lineage()
            .iter()
            .map(|origin| origin.scope())
            .collect::<Vec<_>>(),
        [OriginScope::Builtin, OriginScope::RootPishoo]
    );
    assert_eq!(own.http().gzip_min_length().lineage().len(), 3);
}

#[test]
fn diagnostics_point_into_the_source() {
    let failure = parse_root("pishoo {\n  gzip maybe;\n}").unwrap_err();
    let text = failure.diagnostic().render();

    assert!(text.contains("/tmp/pishoo.conf:2:"), "{}", text);
    assert!(text.contains("gzip maybe;"), "{}", text);
}
