use gateway::home::DhttpHome;
use gateway::number::{decimal_string, parse_i32, parse_u16, parse_u64, parse_u8, ParseIntError};
use gateway::parse::block::BuildTypedConfigError;
use gateway::parse::builtin::default_registry;
use gateway::parse::cascade::OneBased;
use gateway::parse::completion::BuildOptions;
use gateway::parse::config::{
    AccessLogDirective, MaterializeAccessLogError, RootWorkerDefaultsSnapshot, ServerIdentity,
};
use gateway::parse::domain::{ResolvedConfigPath, ResolvedConfigPathError};
use gateway::parse::error::{
    BuildDocumentError, ConfigDocumentRoleError, ConfigQueryError, LoadConfigError,
};
use gateway::parse::inclusion::{IncludeAnswer, IncludeEntry, IncludeFiles, ResolveIncludeError};
use gateway::parse::loader::{ConfigDocumentParser, ConfigDocumentRole};
use gateway::parse::normalize::{resolve_config_path, NormalizeDirectiveValueError};
use gateway::parse::parser::{missing_include, TypedConfigParser};
use gateway::parse::snapshot::RootConfigSnapshot;
use gateway::parse::source::{SourceId, SourceMap, SourceSpan};
use gateway::parse::transport::{
    AccessLogDirectiveV1, InheritedOriginV1, InheritedValueV1, RootConfigSnapshotError,
    RootConfigSnapshotWire, RootInheritedConfigV1Wire,
};
use gateway::parse::types::{BoolConfig, DhttpName, MimeTypes, MimeTypesValidationError, StringList};
use gateway::parse::wire::{AccessLogWire, RootWorkerDefaultsWireError};
use gateway::path::UnixPath;

const SERVER: &str =
    "listen all 1; server_name a.com; ssl_certificate /c; ssl_certificate_key /k;";

fn path(text: &str) -> UnixPath {
    UnixPath::new(text)
}

/// All messages of loading a text as the document of the root, or of its first server.
fn typed(text: &str) -> Vec<String> {
    let mut parser = TypedConfigParser::new();
    match parser.parse_root(text, &path("/tmp/p.conf"), None, &IncludeFiles::new()) {
        Err(failure) => failure.error.messages(),
        Ok(parsed) => match parsed.servers().first().map(|server| server.result()) {
            Some(Err(error)) => error.messages(),
            _ => Vec::new(),
        },
    }
}

fn in_server(body: &str) -> Vec<String> {
    typed(&format!("pishoo {{ server {{ {SERVER} {body} }} }}"))
}

fn in_location(body: &str) -> Vec<String> {
    in_server(&format!("location / {{ {body} }}"))
}

/// All messages of loading a text with what the gateway knows.
fn loaded(text: &str) -> Vec<String> {
    let registry = default_registry();
    let mut parser = ConfigDocumentParser::new(&registry);
    let files = IncludeFiles::new();
    match parser.load_text(text, &path("/tmp/p.conf"), BuildOptions::new(), &files) {
        Err(failure) => failure.error.messages(),
        Ok(_) => Vec::new(),
    }
}

fn ends_with(messages: Vec<String>, expected: &[&str]) {
    assert!(messages.len() >= expected.len(), "{:?}", messages);
    assert_eq!(&messages[messages.len() - expected.len()..], expected);
}

#[test]
fn typed_documents_must_have_one_pishoo_block() {
    let cardinality = "configuration must contain exactly one pishoo block";
    ends_with(typed(""), &["failed to build typed configuration", cardinality]);
    ends_with(typed("pishoo {} pishoo {}"), &[cardinality]);
    ends_with(typed("server {}"), &[cardinality]);
    ends_with(typed("pishoo;"), &["directive `pishoo` has the wrong shape"]);
    ends_with(typed("pishoo { nope 1; }"), &["unknown directive `nope` in pishoo"]);
    ends_with(typed("pishoo { gzip on; gzip on; }"), &["duplicate directive `gzip`"]);
    ends_with(typed("pishoo {"), &["failed to parse configuration syntax"]);
}

#[test]
fn workers_have_no_servers_and_no_proxies() {
    let home = DhttpHome::for_user_home_dir(&path("/home/a"));
    let mut parser = TypedConfigParser::new();
    let files = IncludeFiles::new();
    let root = parser.parse_root("pishoo {}", &path("/p"), None, &files).unwrap();
    let defaults = root.pishoo().worker_defaults();
    let mut fault = |text: &str| {
        let failure = parser
            .parse_worker(text, &path("/home/a/p"), &home, &defaults, &files)
            .expect_err("workers cannot have this");
        failure.error.messages().pop().unwrap()
    };
    assert_eq!(fault("pishoo { server {} }"), "worker configuration cannot contain server blocks");
    assert_eq!(fault("pishoo { proxy {} }"), "unknown directive `proxy` in worker pishoo");
}

#[test]
fn typed_servers_need_a_place_and_an_identity() {
    let server = |body: &str| typed(&format!("pishoo {{ server {{ {body} }} }}"));
    ends_with(server("server_name a.com;"), &["missing required directive `listen`"]);
    ends_with(
        server("listen all 1; server_name a.com; ssl_certificate /c;"),
        &["server certificate and private key must be configured together"],
    );
    ends_with(
        server("listen all 1; server_name a.com;"),
        &["standalone server requires certificate and private key"],
    );
    ends_with(in_server("nope;"), &["unknown directive `nope` in server"]);
    ends_with(
        in_server("access_log default;"),
        &["access_log default is invalid for a direct server"],
    );
    ends_with(in_server("access_log a b;"), &["access_log expects exactly one argument"]);
}

#[test]
fn identities_keep_their_name_and_their_files() {
    let home = DhttpHome::for_user_home_dir(&path("/home/a"));
    let name = DhttpName::try_from("alice.dhttp.net").unwrap();
    let profile = home.identity_profile(&name);
    let files = IncludeFiles::new();
    let mut parser = TypedConfigParser::new();
    let root = parser.parse_root("pishoo {}", &path("/p"), Some(&home), &files).unwrap();
    let defaults = root.pishoo().worker_defaults();
    let mut fault = |text: &str| {
        let place = profile.server_conf_path();
        let candidate = parser
            .parse_identity(text, &place, profile.clone(), &defaults, &files)
            .unwrap();
        candidate.result().as_ref().expect_err("identities cannot have this").message()
    };
    assert_eq!(
        fault("server { listen all 1; server_name bob.dhttp.net; }"),
        "identity server must bind exactly its profile name"
    );
    assert_eq!(
        fault("server { listen all 1; ssl_certificate /c; }"),
        "identity server cannot override profile TLS paths"
    );

    let failure = parser
        .parse_identity("pishoo {}", &path("/s"), profile, &defaults, &files)
        .expect_err("identities have one server");
    assert!(matches!(
        failure.error,
        LoadConfigError::BuildTyped { source: BuildTypedConfigError::Missing { name: "server", .. } }
    ));

    let ambiguous = parser
        .parse_root(
            "pishoo { server { listen all 1; server_name a.dhttp.net b.dhttp.net; } }",
            &path("/p"),
            Some(&home),
            &files,
        )
        .unwrap();
    assert_eq!(
        ambiguous.servers()[0].result().as_ref().unwrap_err().message(),
        "implicit profile TLS requires exactly one server_name"
    );
}

#[test]
fn typed_locations_and_proxies_are_checked() {
    ends_with(in_location("nope;"), &["unknown directive `nope` in location"]);
    ends_with(
        in_location("proxy_ssl_certificate /c;"),
        &["proxy certificate and private key must be configured together"],
    );
    ends_with(
        in_server("location ~ a { proxy_pass http://h/x; }"),
        &["proxy_pass cannot include a URI part in a regex location"],
    );
    let proxy = |body: &str| typed(&format!("pishoo {{ proxy {{ {body} }} }}"));
    let one = "forward proxy requires exactly one listen address";
    ends_with(proxy(""), &[one]);
    ends_with(proxy("listen 1.1.1.1:1,2.2.2.2:2;"), &[one]);
}

#[test]
fn values_of_directives_are_checked() {
    let cases: &[(Vec<String>, &[&str])] = &[
        (typed("pishoo { gzip; }"), &["invalid boolean directive argument count"]),
        (typed("pishoo { gzip 1; }"), &["invalid boolean directive value"]),
        (typed("pishoo { pid; }"), &["invalid path directive argument count"]),
        (
            typed("pishoo { gzip_min_length -1; }"),
            &["invalid gzip_min_length directive value", "invalid digit found in string"],
        ),
        (
            typed("pishoo { gzip_min_length a b; }"),
            &["invalid gzip_min_length directive argument count"],
        ),
        (
            typed("pishoo { gzip_comp_level x; }"),
            &["invalid gzip_comp_level directive value", "invalid digit found in string"],
        ),
        (
            typed("pishoo { gzip_comp_level; }"),
            &["invalid gzip_comp_level directive argument count"],
        ),
        (
            typed("pishoo { gzip_types \"\"; }"),
            &["invalid gzip_types directive value", "gzip_types contains an empty MIME token"],
        ),
        (typed("pishoo { default_type; }"), &["invalid default_type directive argument count"]),
        (
            typed("pishoo { default_type \"a\u{7f}\"; }"),
            &["invalid default_type directive value", "failed to parse header value"],
        ),
        (typed("pishoo { types a b; }"), &["types directive must be a block"]),
        (
            typed("pishoo { types { \"a\u{7f}\" b; } }"),
            &[
                "invalid types directive entries",
                "invalid MIME type header value",
                "failed to parse header value",
            ],
        ),
        (
            typed("pishoo { access_rules a b; }"),
            &["invalid access_rules uri directive argument count"],
        ),
        (
            typed("pishoo { access_rules x; }"),
            &["invalid access_rules uri directive value", "relative URL without a base"],
        ),
        (
            typed("pishoo { access_rules http://a/b; }"),
            &["invalid access_rules uri domain", "unsupported access_rules uri scheme `http`"],
        ),
        (
            typed("pishoo { access_rules sqlite://h/b; }"),
            &["invalid access_rules uri domain", "unsupported sqlite access_rules uri form"],
        ),
        (
            typed("pishoo { access_rules sqlite:///a%00; }"),
            &["invalid access_rules uri domain", "access_rules sqlite path contains a NUL byte"],
        ),
        (in_server("dns h3;"), &["invalid dns directive argument count"]),
        (
            in_server("dns h3 \"a b\";"),
            &["invalid dns resolver uri directive value", "invalid uri character"],
        ),
        (in_server("relay x;"), &["invalid boolean directive value"]),
        (in_location("proxy_pass;"), &["invalid proxy_pass directive argument count"]),
        (
            in_location("proxy_pass \"a b\";"),
            &["invalid proxy_pass uri directive value", "invalid uri character"],
        ),
        (in_location("proxy_pass /a;"), &["missing proxy_pass uri scheme"]),
        (in_location("proxy_pass ftp://a;"), &["unsupported proxy_pass uri scheme `ftp`"]),
        (in_location("add_header a;"), &["invalid header directive argument count"]),
        (in_location("add_header a b c;"), &["invalid add_header always marker"]),
        (
            in_location("add_header \"a b\" c;"),
            &["invalid header directive name", "invalid HTTP header name"],
        ),
        (
            in_location("add_header a \"\u{7f}\";"),
            &["invalid header directive value", "failed to parse header value"],
        ),
        (in_location("ssh_login;"), &["missing ssh login method"]),
        (in_location("ssh_login x;"), &["invalid ssh login method `x`"]),
        (in_location("ssh_ssl_user a;"), &["invalid ssh_ssl_user directive argument count"]),
        (
            in_server("location ! a {}"),
            &["Unsupported location symbol `!`"],
        ),
        (in_server("location a b c {}"), &["number of location args must be 1 or 2, got 3"]),
    ];
    let regex = in_server("location ~ ( {}");
    assert_eq!(regex[regex.len() - 2], "Invalid regex `(`");
    assert!(regex[regex.len() - 1].contains("unclosed group"));
    for (messages, expected) in cases {
        ends_with(messages.clone(), expected);
    }
}

#[test]
fn listens_and_stun_servers_are_checked() {
    let listen = |args: &str| {
        typed(&format!(
            "pishoo {{ server {{ listen {args}; server_name a.com; ssl_certificate /c; \
             ssl_certificate_key /k; }} }}"
        ))
    };
    ends_with(listen(""), &["invalid listen directive argument count"]);
    ends_with(listen("all v5only 1"), &["invalid listen ip family directive value `v5only`"]);
    ends_with(
        listen("all dual x"),
        &["invalid listen port directive value", "invalid digit found in string"],
    );
    ends_with(
        listen("all dual 65536"),
        &["invalid listen port directive value", "number too large to fit in target type"],
    );

    let stun = |body: &str| in_server(&format!("stun_server {{ {body} }}"));
    ends_with(in_server("stun_server a;"), &["stun_server must use block form"]);
    ends_with(stun("x;"), &["unknown stun_server child directive `x`"]);
    ends_with(stun("bind {}"), &["stun_server child directive `bind` must use leaf form"]);
    ends_with(
        stun("change_port 1; change_port 2;"),
        &["duplicate stun_server fallback directive `change_port`"],
    );
    ends_with(
        stun("change_port x;"),
        &[
            "invalid stun_server change_port fallback",
            "invalid stun_server change_port directive value",
            "invalid digit found in string",
        ],
    );
    ends_with(
        stun("change_port;"),
        &["invalid stun_server change_port directive argument count"],
    );
    ends_with(
        stun("outer_addr x;"),
        &[
            "invalid stun_server address fallback",
            "invalid socket address directive value",
            "invalid socket address syntax",
        ],
    );
    ends_with(stun("bind;"), &["invalid stun_server bind directive argument count"]);
    ends_with(
        stun("bind x;"),
        &[
            "invalid stun_server bind directive",
            "invalid stun_server bind socket address directive value",
            "invalid socket address syntax",
        ],
    );
    ends_with(
        stun("bind 1.1.1.1:1 change_port x;"),
        &[
            "invalid stun_server bind change_port directive value",
            "invalid digit found in string",
        ],
    );
    ends_with(stun("bind 1.1.1.1:1 x y;"), &["invalid stun_server bind directive option"]);
}

#[test]
fn documents_are_checked_against_the_registry() {
    let server = |body: &str| loaded(&format!("pishoo {{ server {{ {body} }} }}"));
    ends_with(loaded("pishoo { nope; }"), &["unknown directive `nope`"]);
    ends_with(loaded("pishoo { location / {} }"), &["unknown directive `location`"]);
    ends_with(loaded("pishoo { gzip {} }"), &["invalid directive shape for `gzip`"]);
    ends_with(loaded("pishoo { gzip on; gzip on; }"), &["duplicate directive `gzip`"]);
    ends_with(
        loaded("pishoo { gzip maybe; }"),
        &["failed to parse directive `gzip`", "invalid boolean directive value"],
    );
    let finalize = "failed to finalize configuration context";
    ends_with(server(""), &[finalize, "missing listen directive in server context"]);
    ends_with(
        server("listen all 1;"),
        &[finalize, "missing ssl_certificate directive in server context"],
    );
    ends_with(
        server("listen all 1; ssl_certificate /c;"),
        &[finalize, "missing ssl_certificate_key directive in server context"],
    );
    ends_with(
        loaded("pishoo { proxy {} }"),
        &[finalize, "missing listen directive in proxy context"],
    );
    let location =
        |head: &str, body: &str| server(&format!("{SERVER} location {head} {{ {body} }}"));
    ends_with(
        location("/", "proxy_ssl_certificate /c;"),
        &[
            finalize,
            "proxy_ssl_certificate and proxy_ssl_certificate_key must be configured together",
        ],
    );
    ends_with(
        location("~ a", "proxy_pass http://a/b;"),
        &[finalize, "proxy_pass cannot include a uri part inside regex location"],
    );

    let registry = default_registry();
    let mut parser = ConfigDocumentParser::new(&registry);
    let failure = parser
        .load_text("pishoo { pid p; }", &path(""), BuildOptions::new(), &IncludeFiles::new())
        .expect_err("there is no directory to read the path in");
    assert!(matches!(
        failure.error,
        LoadConfigError::BuildDocument { source: BuildDocumentError::DirectiveParse { .. } }
    ));
}

#[test]
fn questions_to_nodes_are_checked() {
    let registry = default_registry();
    let mut parser = ConfigDocumentParser::new(&registry);
    let text = format!(
        "pishoo {{ gzip on; server {{ {SERVER} location / {{ add_header a b; add_header c d; }} }} }}"
    );
    let document = parser
        .load_text(&text, &path("/p"), BuildOptions::new(), &IncludeFiles::new())
        .unwrap();
    let pishoo = &document.root.children("pishoo").unwrap()[0];
    let location = &pishoo.children("server").unwrap()[0].children("location").unwrap()[0];

    assert!(matches!(
        pishoo.require::<BoolConfig>("gzip_vary"),
        Err(ConfigQueryError::MissingRequired { .. })
    ));
    assert!(matches!(
        pishoo.get::<StringList>("gzip"),
        Err(ConfigQueryError::TypeMismatch { expected, .. }) if expected.contains("StringList")
    ));
    assert!(matches!(
        location.get::<BoolConfig>("add_header"),
        Err(ConfigQueryError::MultipleValues { .. })
    ));
    assert!(matches!(
        location.get_all::<BoolConfig>("add_header"),
        Err(ConfigQueryError::TypeMismatch { .. })
    ));
    assert!(matches!(
        pishoo.children("proxy"),
        Err(ConfigQueryError::MissingChild { .. })
    ));
    assert_eq!(location.get_all_untyped("add_header").len(), 3);
    assert!(pishoo.children_optional("proxy").is_empty());
    assert_eq!(pishoo.child_groups().len(), 1);
    assert_eq!(document.root.child_groups()[0].len(), 1);
    let parents = vec![&**pishoo, &*document.root];
    let inherited = location.inherited::<BoolConfig>("gzip", &parents).unwrap();
    assert_eq!(inherited, Some(&BoolConfig(true)));
    assert_eq!(location.inherited::<BoolConfig>("relay", &parents).unwrap(), None);
}

#[test]
fn roles_ask_for_their_shape() {
    let registry = default_registry();
    let home = DhttpHome::for_user_home_dir(&path("/home/a"));
    let name = DhttpName::try_from("alice.dhttp.net").unwrap();
    let profile = home.identity_profile(&name);
    let mut parser = ConfigDocumentParser::new(&registry);
    let files = IncludeFiles::new();
    let worker = ConfigDocumentRole::WorkerPishoo { home: &home };
    let failure = parser
        .parse_text("pishoo {} pishoo {}", &path("/p"), worker, &files)
        .expect_err("workers have one block");
    assert_eq!(
        failure.error.messages().pop().unwrap(),
        "worker pishoo configuration document must contain exactly one top-level pishoo block, found 2"
    );
    let identity = ConfigDocumentRole::IdentityServer { home: &home, profile: &profile };
    let failure = parser
        .parse_text("", &path("/p"), identity, &files)
        .expect_err("identities have a server");
    assert!(matches!(
        failure.error,
        LoadConfigError::DocumentRole {
            source: ConfigDocumentRoleError::MissingIdentityServer { .. }
        }
    ));
    let failure = parser
        .parse_text("pishoo { server {} }", &path("/p"), worker, &files)
        .expect_err("workers have no servers");
    assert_eq!(
        failure.error.messages().pop().unwrap(),
        "directive `server` is not allowed in a worker pishoo configuration document"
    );
}

#[test]
fn includes_are_asked_for_one_by_one() {
    let here = path("/etc/p.conf");
    let text = "include a.conf; pishoo { include b.conf; }";
    let mut files = IncludeFiles::new();
    assert_eq!(missing_include(text, &here, &files), Some(path("/etc/a.conf")));
    let nested = IncludeEntry::Read {
        path: path("/etc/a.conf"),
        text: "include c/*.conf;".to_owned(),
    };
    files.add_answer(path("/etc/a.conf"), IncludeAnswer::Entries(vec![nested]));
    assert_eq!(missing_include(text, &here, &files), Some(path("/etc/c/*.conf")));
    files.add_answer(path("/etc/c/*.conf"), IncludeAnswer::Entries(vec![]));
    assert_eq!(missing_include(text, &here, &files), Some(path("/etc/b.conf")));
    files.add_answer(path("/etc/b.conf"), IncludeAnswer::Entries(vec![]));
    assert_eq!(missing_include(text, &here, &files), None);
    assert_eq!(missing_include("pishoo {", &here, &files), None);

    let mut looping = IncludeFiles::new();
    let again = IncludeEntry::Read { path: path("/etc/p.conf"), text: "include p.conf;".to_owned() };
    looping.add_answer(path("/etc/p.conf"), IncludeAnswer::Entries(vec![again]));
    let failure = TypedConfigParser::new()
        .parse_root("include p.conf;", &here, None, &looping)
        .expect_err("the file pulls itself in");
    assert!(matches!(
        failure.error,
        LoadConfigError::ResolveInclude { source: ResolveIncludeError::Endless { .. } }
    ));
}

#[test]
fn numbers_are_read_as_the_language_reads_them() {
    assert_eq!(parse_u8("+255").unwrap(), 255);
    assert_eq!(parse_u8("256"), Err(ParseIntError::PosOverflow));
    assert_eq!(parse_u16(""), Err(ParseIntError::Empty));
    assert_eq!(parse_u16("-"), Err(ParseIntError::InvalidDigit));
    assert_eq!(parse_u16("-1"), Err(ParseIntError::InvalidDigit));
    assert_eq!(parse_u64("18446744073709551615").unwrap(), u64::MAX);
    assert_eq!(parse_u64("18446744073709551616"), Err(ParseIntError::PosOverflow));
    assert_eq!(parse_i32("-2147483648").unwrap(), i32::MIN);
    assert_eq!(parse_i32("-2147483649"), Err(ParseIntError::NegOverflow));
    assert_eq!(parse_i32("2147483648"), Err(ParseIntError::PosOverflow));
    for n in [0u64, 9, 10, 65535, u64::MAX] {
        assert_eq!(parse_u64(&decimal_string(n)).unwrap(), n);
    }
    for error in [
        ParseIntError::Empty,
        ParseIntError::InvalidDigit,
        ParseIntError::PosOverflow,
        ParseIntError::NegOverflow,
    ] {
        let expected = match error {
            ParseIntError::Empty => "".parse::<i32>().unwrap_err().to_string(),
            ParseIntError::InvalidDigit => "x".parse::<i32>().unwrap_err().to_string(),
            ParseIntError::PosOverflow => "99999999999".parse::<i32>().unwrap_err().to_string(),
            ParseIntError::NegOverflow => "-99999999999".parse::<i32>().unwrap_err().to_string(),
        };
        assert_eq!(error.message(), expected);
    }
}

#[test]
fn paths_resolve_once_and_for_all() {
    let mut sources = SourceMap::default();
    let id = sources.add_source(Some(path("/etc/p/p.conf")), String::new(), None, None);
    let bare = sources.add_source(None, String::new(), None, None);
    let odd = sources.add_source(None, String::new(), Some(path("rel")), None);
    let at = |id: SourceId| SourceSpan::new(id, 0, 0);

    for (given, full) in [
        ("a//b/./c/", "/etc/p/a/b/c"),
        ("../x", "/etc/p/../x"),
        ("/x/./y//", "/x/y"),
        (".", "/etc/p"),
        ("/", "/"),
    ] {
        let resolved = resolve_config_path(&path(given), at(id), &sources).unwrap();
        assert_eq!(resolved.as_path(), &path(full));
        for other in [id, bare, odd] {
            let again = resolve_config_path(resolved.as_path(), at(other), &sources).unwrap();
            assert_eq!(again.as_path(), resolved.as_path());
        }
    }
    assert!(matches!(
        resolve_config_path(&path("x"), at(bare), &sources),
        Err(NormalizeDirectiveValueError::MissingBaseDir { .. })
    ));
    assert!(matches!(
        resolve_config_path(&path("x"), at(odd), &sources),
        Err(NormalizeDirectiveValueError::InvalidResolvedPath {
            source: ResolvedConfigPathError::Relative { .. },
            ..
        })
    ));
    assert!(matches!(
        resolve_config_path(&path("a\0"), at(id), &sources),
        Err(NormalizeDirectiveValueError::InvalidResolvedPath {
            source: ResolvedConfigPathError::Nul { .. },
            ..
        })
    ));
}

#[test]
fn access_logs_of_direct_servers_have_no_default() {
    let certificate = ResolvedConfigPath::try_from(path("/c")).unwrap();
    let private_key = ResolvedConfigPath::try_from(path("/k")).unwrap();
    let direct = ServerIdentity::Direct { certificate, private_key };
    assert_eq!(
        AccessLogDirective::ProfileDefault.materialize(&direct).unwrap_err().message(),
        "direct server cannot use the identity-profile access log default"
    );
    let home = DhttpHome::new(path("relative"));
    let name = DhttpName::try_from("alice.dhttp.net").unwrap();
    let profile = ServerIdentity::Profile(home.identity_profile(&name));
    assert!(matches!(
        AccessLogDirective::ProfileDefault.materialize(&profile),
        Err(MaterializeAccessLogError::InvalidProfilePath { .. })
    ));
}

fn builtin<T>(value: T) -> InheritedValueV1<T> {
    InheritedValueV1 { value, origin: InheritedOriginV1::Builtin }
}

fn plain_wire() -> RootInheritedConfigV1Wire {
    RootInheritedConfigV1Wire {
        access_rules: builtin(None),
        gzip: builtin(true),
        gzip_vary: builtin(false),
        gzip_min_length: builtin(3),
        gzip_comp_level: builtin(4),
        gzip_types: builtin(None),
        default_type: builtin(None),
        types: builtin(None),
        access_log: builtin(None),
    }
}

fn received(wire: RootInheritedConfigV1Wire) -> Result<RootConfigSnapshot, RootConfigSnapshotError> {
    RootConfigSnapshot::from_wire(RootConfigSnapshotWire::V1(wire))
}

#[test]
fn snapshots_are_checked_when_they_arrive() {
    assert_eq!(received(plain_wire()).unwrap().gzip_min_length().0, 3);

    let mut wire = plain_wire();
    wire.access_rules = builtin(Some("sqlite:relative.db".to_owned()));
    assert!(matches!(received(wire), Err(RootConfigSnapshotError::AccessRules { .. })));

    let mut wire = plain_wire();
    wire.default_type = builtin(Some(vec![127]));
    assert!(matches!(received(wire), Err(RootConfigSnapshotError::HeaderValue { .. })));

    let mut wire = plain_wire();
    wire.gzip_types = builtin(Some(vec![String::new()]));
    assert!(matches!(received(wire), Err(RootConfigSnapshotError::GzipTypes { .. })));

    let mut wire = plain_wire();
    let entry = |text: &str| ("a".to_owned(), text.as_bytes().to_vec());
    wire.types = builtin(Some(vec![entry("x"), entry("y")]));
    assert!(matches!(
        received(wire),
        Err(RootConfigSnapshotError::MimeTypes {
            source: MimeTypesValidationError::DuplicateExtension { .. }
        })
    ));

    let mut wire = plain_wire();
    wire.access_log = builtin(Some(AccessLogDirectiveV1::Resolved(b"log".to_vec())));
    assert!(matches!(received(wire), Err(RootConfigSnapshotError::AbsolutePath { .. })));

    let mut wire = plain_wire();
    let one = OneBased::new(1).unwrap();
    assert!(OneBased::new(0).is_none());
    wire.gzip.origin =
        InheritedOriginV1::Source { document: Some(b"p.conf".to_vec()), line: one, column: one };
    assert!(matches!(received(wire), Err(RootConfigSnapshotError::AbsolutePath { .. })));
}

#[test]
fn worker_defaults_are_checked_when_they_arrive() {
    let mut parser = TypedConfigParser::new();
    let files = IncludeFiles::new();
    let root = parser.parse_root("pishoo {}", &path("/p"), None, &files).unwrap();
    let wire = || root.pishoo().worker_defaults().to_wire();

    let mut changed = wire();
    changed.access_rules.effective = Some("x".to_owned());
    assert!(matches!(
        RootWorkerDefaultsSnapshot::from_wire(changed),
        Err(RootWorkerDefaultsWireError::Url { .. })
    ));
    let mut changed = wire();
    changed.access_rules.effective = Some("http://a".to_owned());
    assert!(matches!(
        RootWorkerDefaultsSnapshot::from_wire(changed),
        Err(RootWorkerDefaultsWireError::AccessRules { .. })
    ));
    let mut changed = wire();
    changed.gzip_types.effective = vec![String::new()];
    assert!(matches!(
        RootWorkerDefaultsSnapshot::from_wire(changed),
        Err(RootWorkerDefaultsWireError::GzipTypes { .. })
    ));
    let mut changed = wire();
    changed.default_type.effective = Some(vec![0]);
    assert!(matches!(
        RootWorkerDefaultsSnapshot::from_wire(changed),
        Err(RootWorkerDefaultsWireError::DefaultType { .. })
    ));
    let mut changed = wire();
    changed.types.effective = Some(vec![(String::new(), b"x".to_vec())]);
    assert!(matches!(
        RootWorkerDefaultsSnapshot::from_wire(changed),
        Err(RootWorkerDefaultsWireError::Types { source: MimeTypesValidationError::EmptyExtension })
    ));
    let mut changed = wire();
    changed.access_log.effective = AccessLogWire::Resolved(path("log"));
    assert!(matches!(
        RootWorkerDefaultsSnapshot::from_wire(changed),
        Err(RootWorkerDefaultsWireError::AccessLog { .. })
    ));
}

#[test]
fn mime_types_are_checked() {
    let entry = |extension: &str, value: &str| (extension.to_owned(), value.as_bytes().to_vec());
    let types = MimeTypes::checked_from_bytes(&vec![entry("a", "x"), entry("b", "y")]).unwrap();
    assert_eq!(types.get("b").unwrap().as_bytes(), b"y");
    assert_eq!(types.entries().len(), 2);
    assert!(matches!(
        MimeTypes::checked_from_bytes(&vec![entry("a", "\u{7f}")]),
        Err(MimeTypesValidationError::HeaderValue { .. })
    ));
}
