use gateway::address::SocketAddr;
use gateway::parse::ast::{AstBody, AstDirective, Spanned};
use gateway::parse::context::{ContextKey, PISHOO, SERVER};
use gateway::parse::contract::CascadePolicy;
use gateway::parse::domain::{
    ConfigDocumentId, ConfigDocumentIdAllocator, ConfigDocumentIdError,
};
use gateway::parse::error::{ConfigLoadFailure, ConfigQueryError, LoadConfigError};
use gateway::parse::grammar::{decode_quoted, parse_source};
use gateway::parse::inclusion::{
    expand_includes, IncludeAnswer, IncludeEntry, IncludeFiles, ResolveIncludeError,
};
use gateway::parse::pattern::{
    match_location, parse_pattern, ParsePatternError, Pattern, Regex,
};
use gateway::parse::source::{LineColumn, SourceId, SourceMap, SourceSpan};
use gateway::parse::types::{BindPattern, IfaceRange, IpFamilies, ListenBindPatternError, Listens};
use gateway::path::UnixPath;

#[test]
fn ast_distinguishes_leaf_and_block() {
    let source = SourceId(0);
    let span = SourceSpan::new(source, 0, 4);
    let directive = AstDirective {
        name: Spanned::new("pid".to_owned(), span),
        args: Vec::new(),
        body: AstBody::Leaf { semicolon: span },
        span,
    };
    assert!(directive.is_leaf());
    assert!(directive.children().is_none());
}

#[test]
fn source_map_resolves_line_and_column() {
    let mut sources = SourceMap::default();
    let id = sources.add_source(None, "one\ntwo\nthree".to_owned(), None, None);

    assert_eq!(
        sources.line_column(SourceSpan::new(id, 4, 7)),
        Some(LineColumn { line: 2, column: 1 })
    );
    assert_eq!(
        sources.line_column(SourceSpan::new(id, 5, 8)),
        Some(LineColumn { line: 2, column: 2 })
    );
    assert_eq!(sources.line_text(SourceSpan::new(id, 4, 7)), Some("two"));
}

#[test]
fn config_load_failure_display_describes_only_wrapper() {
    let failure = ConfigLoadFailure {
        error: LoadConfigError::ResolveInclude {
            source: ResolveIncludeError::InvalidArgumentCount {
                span: SourceSpan::new(SourceId(0), 0, 7),
                count: 0,
            },
        },
        source_map: SourceMap::default(),
        document_id: None,
    };

    assert_eq!(failure.message(), "failed to load configuration");
    assert!(failure.messages().len() > 1);
}

#[test]
fn cascade_policy_mismatch_display_names_both_contexts() {
    let error = ConfigQueryError::CascadePolicyMismatch {
        directive: "gzip".to_owned(),
        inherited_context: ContextKey(PISHOO),
        inherited: CascadePolicy::NearestWins,
        local_context: ContextKey(SERVER),
        local: CascadePolicy::ReplaceWhole,
    };
    let rendered = error.message();

    assert!(rendered.contains(PISHOO));
    assert!(rendered.contains(SERVER));
    assert!(rendered.contains("NearestWins"));
    assert!(rendered.contains("ReplaceWhole"));
}

#[test]
fn document_id_allocator_errors_after_allocating_maximum_id() {
    let maximum_index = u64::from(u32::MAX);
    let mut allocator = ConfigDocumentIdAllocator::with_next_index(maximum_index);

    assert_eq!(
        allocator.allocate().expect("maximum id should allocate"),
        ConfigDocumentId::try_from_index(maximum_index)
            .expect("maximum index should be a valid document id")
    );
    let error = allocator
        .allocate()
        .expect_err("allocator must not reuse the maximum id");
    assert!(matches!(
        error,
        ConfigDocumentIdError::IndexOverflow { index, .. }
            if index == maximum_index + 1
    ));
}

#[test]
fn parses_leaf_directive() {
    let parsed = parse_source("pid /tmp/pishoo.pid;", SourceId(0)).expect("parse should succeed");
    assert_eq!(parsed.len(), 1);
    assert_eq!(parsed[0].name.value, "pid");
    assert_eq!(parsed[0].args[0].value, "/tmp/pishoo.pid");
    assert!(matches!(parsed[0].body, AstBody::Leaf { .. }));
}

#[test]
fn parses_nested_block() {
    let parsed = parse_source("pishoo { server { listen all 443; } }", SourceId(0))
        .expect("parse should succeed");
    let AstBody::Block { children, .. } = &parsed[0].body else {
        panic!("pishoo should be a block");
    };
    assert_eq!(children[0].name.value, "server");
}

#[test]
fn parses_multiple_sibling_directives() {
    let parsed = parse_source(
        "pid /tmp/pishoo.pid;\nworker admin { server { listen all 443; } }",
        SourceId(0),
    )
    .expect("parse should succeed");
    assert_eq!(parsed.len(), 2);
    assert_eq!(parsed[0].name.value, "pid");
    assert_eq!(parsed[1].name.value, "worker");
}

#[test]
fn parses_comments_and_quotes() {
    let parsed = parse_source("# top\npid \"/tmp/pishoo pid\";\n", SourceId(0))
        .expect("parse should succeed");
    assert_eq!(parsed[0].args[0].value, "/tmp/pishoo pid");
}

#[test]
fn decodes_quoted_escapes_left_to_right() {
    let parsed = parse_source(r#"pid "\\\"";"#, SourceId(0)).expect("parse should succeed");
    assert_eq!(parsed[0].args[0].value, "\\\"");

    let parsed = parse_source(r#"pid '\\\'';"#, SourceId(0)).expect("parse should succeed");
    assert_eq!(parsed[0].args[0].value, "\\'");

    let parsed = parse_source("pid \"\\\\\n\";", SourceId(0)).expect("parse should succeed");
    assert_eq!(parsed[0].args[0].value, "\\\n");
}

#[test]
fn quoted_content_is_decoded() {
    assert_eq!(decode_quoted(r#"a\"b\\c"#, '"'), r#"a"b\c"#);
    assert_eq!(decode_quoted(r#"a\"b\n"#, '\''), r#"a\"b\n"#);
    assert_eq!(decode_quoted(r"a\'b\", '\''), r"a'b\");
}

#[test]
fn rejects_unclosed_block() {
    let error = parse_source("pishoo { server {", SourceId(0)).expect_err("parse should fail");
    assert!(!error.message().contains('\n'));
}

#[test]
fn test_try_match_exact() {
    let pattern = Pattern::Exact("/login".to_string());
    assert_eq!(pattern.try_match("/login"), Some("/login"), "Exact match positive");
    assert_eq!(pattern.try_match("/login/"), None, "Exact match negative (extra slash)");
    assert_eq!(pattern.try_match("/logi"), None, "Exact match negative (shorter)");
    assert_eq!(pattern.try_match("/Login"), None, "Exact match negative (case)");
}

#[test]
fn test_try_match_prefix() {
    let pattern = Pattern::Prefix("/api/v1".to_string());
    assert_eq!(pattern.try_match("/api/v1/users"), Some("/api/v1"), "Prefix match positive");
    assert_eq!(pattern.try_match("/api/v1"), Some("/api/v1"), "Prefix match exact");
    assert_eq!(pattern.try_match("/api/v2"), None, "Prefix match negative (different)");
    assert_eq!(pattern.try_match("/API/v1"), None, "Prefix match negative (case)");
    assert_eq!(pattern.try_match("/other/api/v1"), None, "Prefix match negative (not at start)");
}

#[test]
fn test_try_match_regex() {
    let pattern = Pattern::Regex(Regex::new(r"\.(jpg|gif)$").unwrap());
    assert_eq!(pattern.try_match("/images/cat.jpg"), Some(".jpg"), "Regex match positive (jpg)");
    assert_eq!(pattern.try_match("/images/dog.gif"), Some(".gif"), "Regex match positive (gif)");
    assert_eq!(pattern.try_match("/images/cat.JPG"), None, "Regex match negative (case)");
    assert_eq!(
        pattern.try_match("/images/cat.png"),
        None,
        "Regex match negative (wrong extension)"
    );
    assert_eq!(pattern.try_match("cat.jpg/images/"), None, "Regex match negative (not at end)");
}

#[test]
fn test_try_match_cregex() {
    let pattern = Pattern::CRegex(Regex::new(r"(?i)\.(jpg|gif)$").unwrap());
    assert_eq!(pattern.try_match("/images/cat.jpg"), Some(".jpg"), "CRegex match positive (jpg)");
    assert_eq!(pattern.try_match("/images/cat.JPG"), Some(".JPG"), "CRegex match positive (JPG)");
    assert_eq!(
        pattern.try_match("/images/DOG.gif"),
        Some(".gif"),
        "CRegex match positive (DOG.gif)"
    );
    assert_eq!(
        pattern.try_match("/images/cat.png"),
        None,
        "CRegex match negative (wrong extension)"
    );
    assert_eq!(pattern.try_match("cat.jpg/images/"), None, "CRegex match negative (not at end)");
}

#[test]
fn test_try_match_normal_prefix() {
    let pattern = Pattern::NormalPrefix("/static/".to_string());
    assert_eq!(
        pattern.try_match("/static/css/style.css"),
        Some("/static/"),
        "NormalPrefix match positive"
    );
    assert_eq!(pattern.try_match("/static/"), Some("/static/"), "NormalPrefix match exact");
    assert_eq!(
        pattern.try_match("/static"),
        None,
        "NormalPrefix match negative (no trailing slash)"
    );
    assert_eq!(pattern.try_match("/Static/js/app.js"), None, "NormalPrefix match negative (case)");
    assert_eq!(
        pattern.try_match("/other/static/"),
        None,
        "NormalPrefix match negative (not at start)"
    );
}

#[test]
fn test_try_match_common() {
    let pattern = Pattern::Common;
    assert_eq!(pattern.try_match("/anything"), Some("/"), "Common match any path");
    assert_eq!(pattern.try_match("/"), Some("/"), "Common match root path");
    assert_eq!(pattern.try_match(""), Some("/"), "Common match empty path");
}

#[test]
fn test_parse_pattern_invalid_symbol() {
    let args = vec!["??".to_string(), "/path".to_string()];
    let result = parse_pattern(&args);
    assert!(matches!(result, Err(ParsePatternError::UnsupportedSymbol { .. })));
}

#[test]
fn test_parse_pattern_invalid_args_count() {
    let args0: Vec<String> = vec![];
    let result0 = parse_pattern(&args0);
    assert!(matches!(result0, Err(ParsePatternError::UnexpectedArgs { .. })));
    let args3 = vec!["~".to_string(), "pattern".to_string(), "extra".to_string()];
    let result3 = parse_pattern(&args3);
    assert!(matches!(result3, Err(ParsePatternError::UnexpectedArgs { .. })));
}

#[test]
fn test_parse_pattern_invalid_regex() {
    let args_regex = vec!["~".to_string(), "[invalid".to_string()];
    let result_regex = parse_pattern(&args_regex);
    assert!(
        matches!(result_regex, Err(ParsePatternError::RegexError { .. })),
        "Expected RegexError for ~"
    );
    let args_cregex = vec!["~*".to_string(), "(?invalid".to_string()];
    let result_cregex = parse_pattern(&args_cregex);
    assert!(
        matches!(result_cregex, Err(ParsePatternError::RegexError { .. })),
        "Expected RegexError for ~*"
    );
}

fn chosen<'s>(patterns: &'s Vec<Pattern>, path: &'s str) -> Option<(&'s Pattern, &'s str)> {
    match_location(patterns, path).map(|(at, matched)| (&patterns[at], matched))
}

#[test]
fn test_match_location_priority_and_length() {
    let locations = vec![
        Pattern::Common,
        Pattern::NormalPrefix("/images/".into()),
        Pattern::NormalPrefix("/images/icons/".into()),
        Pattern::Regex(Regex::new(r"\.png$").unwrap()),
        Pattern::CRegex(Regex::new(r"(?i)/Images/icons/.*").unwrap()),
        Pattern::Prefix("/images".to_string()),
        Pattern::Exact("/images/icons/logo.png".into()),
    ];
    let (pattern, matched) = chosen(&locations, "/images/icons/logo.png").unwrap();
    assert!(matches!(pattern, Pattern::Exact(_)), "Expected Exact match");
    assert_eq!(matched, "/images/icons/logo.png");

    let (pattern, matched) = chosen(&locations, "/images/other.jpg").unwrap();
    assert!(matches!(pattern, Pattern::Prefix(_)), "Expected Prefix match");
    assert_eq!(matched, "/images");

    let (pattern, matched) = chosen(&locations, "/data/file.png").unwrap();
    assert!(matches!(pattern, Pattern::Regex(_)), "Expected Regex match");
    assert_eq!(matched, ".png");

    let (pattern, matched) = chosen(&locations, "/Images/icons/avatar.svg").unwrap();
    assert!(matches!(pattern, Pattern::CRegex(_)), "Expected CRegex match");
    assert_eq!(matched, "/Images/icons/avatar.svg");

    for path in [
        "/images/icons/favicon.ico",
        "/images/icons/extra/stuff",
        "/images/other_stuff",
    ] {
        let (pattern, matched) = chosen(&locations, path).unwrap();
        assert!(
            matches!(pattern, Pattern::Prefix(_)),
            "Expected Prefix match due to higher priority"
        );
        assert_eq!(matched, "/images");
    }

    let (pattern, matched) = chosen(&locations, "/unmatched/path").unwrap();
    assert!(matches!(pattern, Pattern::Common), "Expected Common match");
    assert_eq!(matched, "/");

    let locations_no_common = vec![
        Pattern::NormalPrefix("/images/".into()),
        Pattern::Regex(Regex::new(r"\.png$").unwrap()),
        Pattern::Exact("/login".into()),
    ];
    assert!(chosen(&locations_no_common, "/unmatched/path").is_none());
}

fn addr(text: &str) -> SocketAddr {
    SocketAddr::parse(text).expect("address should parse")
}

fn try_pattern_strings(listen: Listens) -> Result<Vec<String>, ListenBindPatternError> {
    let patterns = listen.checked_bind_patterns().expect("the patterns should be short")?;
    Ok(patterns.iter().map(|pattern| pattern.as_str().to_owned()).collect())
}

fn pattern_strings(listen: Listens) -> Vec<String> {
    try_pattern_strings(listen).expect("listen should produce bind patterns")
}

#[test]
fn listens_all_dual_preserves_wildcard_pattern() {
    let listen = Listens::new(IfaceRange::All, IpFamilies::Dual, 443);

    assert_eq!(pattern_strings(listen), vec!["iface://*:443"]);
}

#[test]
fn listens_exact_family_preserves_family_pattern() {
    assert_eq!(
        pattern_strings(Listens::new(
            IfaceRange::Exact("eth0".to_owned()),
            IpFamilies::V4,
            443
        )),
        vec!["iface://v4.eth0:443"]
    );
    assert_eq!(
        pattern_strings(Listens::new(
            IfaceRange::Exact("eth0".to_owned()),
            IpFamilies::V6,
            443
        )),
        vec!["iface://v6.eth0:443"]
    );
}

#[test]
fn listens_specific_addrs_become_inet_patterns() {
    let mut listen = Listens::new(IfaceRange::All, IpFamilies::Dual, 443);
    listen.specific_addrs = Some(vec![addr("127.0.0.1:8443"), addr("[::1]:9443")]);

    assert_eq!(
        pattern_strings(listen),
        vec!["inet://127.0.0.1:8443", "inet://[::1]:9443"]
    );
}

#[test]
fn listens_internal_dual_becomes_loopback_patterns() {
    assert_eq!(
        try_pattern_strings(Listens::new(IfaceRange::Internal, IpFamilies::Dual, 443))
            .expect("internal dual listen should be supported"),
        vec!["inet://127.0.0.1:443", "inet://[::1]:443"]
    );
}

#[test]
fn listens_internal_family_becomes_matching_loopback_pattern() {
    assert_eq!(
        try_pattern_strings(Listens::new(IfaceRange::Internal, IpFamilies::V4, 443))
            .expect("internal v4 listen should be supported"),
        vec!["inet://127.0.0.1:443"]
    );
    assert_eq!(
        try_pattern_strings(Listens::new(IfaceRange::Internal, IpFamilies::V6, 443))
            .expect("internal v6 listen should be supported"),
        vec!["inet://[::1]:443"]
    );
}

#[test]
fn listens_with_an_impossible_name_give_no_pattern() {
    let listen = Listens::new(IfaceRange::Exact("a[b".to_owned()), IpFamilies::Dual, 443);
    assert_eq!(listen.bind_pattern_texts().unwrap(), vec!["iface://a[b:443"]);
    let error = listen.try_to_bind_patterns().expect_err("the bracket is not closed");
    assert!(matches!(
        &error,
        ListenBindPatternError::GeneratedBindPattern { input, reason }
            if input == "iface://a[b:443" && reason.starts_with("error at 1:")
    ));
    assert_eq!(
        error.message(),
        "failed to construct generated bind pattern `iface://a[b:443`"
    );
    assert_eq!(BindPattern::parse("127.0.0.1").unwrap().as_str(), "inet://127.0.0.1");
    assert_eq!(BindPattern::parse("V4.eth0").unwrap().as_str(), "iface://v4.eth0");
}

#[test]
fn bind_patterns_have_bounded_braces() {
    let nested = |depth: usize| format!("{}a{}", "{".repeat(depth), "}".repeat(depth));
    let deepest = format!("iface://{}:443", nested(80));
    assert_eq!(BindPattern::parse(&deepest).unwrap().as_str(), deepest);
    let mixed = format!("iface://{}a{}", "{x,b*".repeat(80), "[cd],y}".repeat(80));
    assert_eq!(BindPattern::parse(&mixed).unwrap().as_str(), mixed);
    let longest = "a".repeat(0x10000);
    assert!(BindPattern::can_parse(&longest));
    assert!(BindPattern::parse(&longest).is_ok());

    assert!(!BindPattern::can_parse(&nested(81)));
    assert!(!BindPattern::can_parse(&"a".repeat(0x10001)));
    assert!(!BindPattern::can_parse(&"\u{1f600}".repeat(0x4001)));
    assert!(!BindPattern::can_parse(&"[a]{b}".repeat(81)));
    assert!(BindPattern::can_parse(&"a{b}".repeat(81)));
    let listen = Listens::new(IfaceRange::Exact(nested(81)), IpFamilies::Dual, 443);
    assert!(listen.checked_bind_patterns().is_none());
}

#[test]
fn long_bind_patterns_are_read() {
    let group = "{a*,?b,[c-e\u{e9}],\u{1f600}}";
    let hosts = [
        "\u{1f600}".repeat(0x4000),
        "*".repeat(0x10000),
        "a*".repeat(0x8000),
        "[a-z]".repeat(0x3333),
        "[!\u{e9}-\u{1f600}]".repeat(0x1999),
        format!("{{{}b}}", "a,".repeat(0x7ffe)),
        format!("{{{}b}}", "a*,".repeat(0x5550)),
        format!("{{{}b}}", "*,".repeat(0x7ffe)),
        format!("{{{}b}}", "\u{1f600}?,".repeat(0x2aa0)),
        "{a*,?b}".repeat(0x2492),
        group.repeat(80),
    ];
    for host in hosts {
        assert!(BindPattern::can_parse(&host));
        assert!(BindPattern::parse(&host).is_ok());
    }
}

#[test]
fn listens_external_returns_typed_error() {
    let error = Listens::new(IfaceRange::External, IpFamilies::Dual, 443)
        .try_to_bind_patterns()
        .expect_err("external listen should be explicitly unsupported");

    assert!(matches!(error, ListenBindPatternError::UnsupportedIfaceRange { .. }));
}

fn file(path: &str, text: &str) -> IncludeAnswer {
    IncludeAnswer::Entries(vec![IncludeEntry::Read {
        path: UnixPath::new(path),
        text: text.to_owned(),
    }])
}

#[test]
fn expand_includes_expands_file_and_records_trace() {
    let dir = UnixPath::new("/etc/gateway");
    let mut files = IncludeFiles::new();
    files.add_answer(
        UnixPath::new("/etc/gateway/child.conf"),
        file("/etc/gateway/child.conf", "pid /tmp/pishoo.pid;"),
    );

    let root_text = "include child.conf;";
    let mut source_map = SourceMap::default();
    let root = source_map.add_source(None, root_text.to_owned(), None, None);
    let directives = parse_source(root_text, root).expect("root should parse");

    let expanded = expand_includes(directives, &mut source_map, Some(&dir), &files)
        .expect("include should expand");

    assert_eq!(expanded.len(), 1);
    assert_eq!(expanded[0].name.value, "pid");
    let child = source_map
        .get(SourceId(1))
        .expect("included source should be registered");
    assert_eq!(child.path, Some(UnixPath::new("/etc/gateway/child.conf")));
    let trace = child
        .included_from
        .as_ref()
        .expect("included source should record include trace");
    assert_eq!(trace.parent, root);
}

#[test]
fn expand_includes_preserves_nested_include_trace() {
    let dir = UnixPath::new("/etc/gateway");
    let mut files = IncludeFiles::new();
    files.add_answer(
        UnixPath::new("/etc/gateway/child.conf"),
        file("/etc/gateway/child.conf", "include grandchild.conf;"),
    );
    files.add_answer(
        UnixPath::new("/etc/gateway/grandchild.conf"),
        file("/etc/gateway/grandchild.conf", "pid /tmp/pishoo.pid;"),
    );

    let root_text = "include child.conf;";
    let mut source_map = SourceMap::default();
    let root = source_map.add_source(None, root_text.to_owned(), None, None);
    let directives = parse_source(root_text, root).expect("root should parse");

    let expanded = expand_includes(directives, &mut source_map, Some(&dir), &files)
        .expect("include should expand");

    assert_eq!(expanded.len(), 1);
    assert_eq!(expanded[0].name.value, "pid");
    let child = source_map
        .get(SourceId(1))
        .expect("child source should be registered");
    let child_trace = child
        .included_from
        .as_ref()
        .expect("child source should record include trace");
    assert_eq!(child_trace.parent, root);
    let grandchild = source_map
        .get(SourceId(2))
        .expect("grandchild source should be registered");
    let grandchild_trace = grandchild
        .included_from
        .as_ref()
        .expect("grandchild source should record include trace");
    assert_eq!(grandchild_trace.parent, SourceId(1));
}

#[test]
fn expand_includes_preserves_parse_source_error_trace() {
    let dir = UnixPath::new("/etc/gateway");
    let mut files = IncludeFiles::new();
    files.add_answer(
        UnixPath::new("/etc/gateway/child.conf"),
        file("/etc/gateway/child.conf", "server {\n"),
    );

    let root_text = "include child.conf;";
    let mut source_map = SourceMap::default();
    let root = source_map.add_source(None, root_text.to_owned(), None, None);
    let directives = parse_source(root_text, root).expect("root should parse");

    let error = expand_includes(directives, &mut source_map, Some(&dir), &files)
        .expect_err("included syntax error should fail");

    let ResolveIncludeError::ParseSource { source_id, .. } = error else {
        panic!("expected parse source error");
    };
    let child = source_map
        .get(source_id)
        .expect("failed included source should be registered");
    assert!(child.included_from.is_some());
}

#[test]
fn expand_includes_reports_read_source_error() {
    let dir = UnixPath::new("/etc/gateway");
    let mut files = IncludeFiles::new();
    files.add_answer(
        UnixPath::new("/etc/gateway/child.conf"),
        IncludeAnswer::Entries(vec![IncludeEntry::Unreadable {
            path: UnixPath::new("/etc/gateway/child.conf"),
            reason: "Is a directory".to_owned(),
        }]),
    );

    let root_text = "include child.conf;";
    let mut source_map = SourceMap::default();
    let root = source_map.add_source(None, root_text.to_owned(), None, None);
    let directives = parse_source(root_text, root).expect("root should parse");

    let error = expand_includes(directives, &mut source_map, Some(&dir), &files)
        .expect_err("directory include should fail to read as file");

    assert!(matches!(error, ResolveIncludeError::ReadSource { .. }));
}

#[test]
fn include_errors_name_what_is_wrong() {
    let dir = UnixPath::new("/etc/gateway");
    let mut files = IncludeFiles::new();
    let reason = || "no such thing".to_owned();
    files.add_answer(
        UnixPath::new("/etc/gateway/***"),
        IncludeAnswer::BadPattern { reason: reason() },
    );
    files.add_answer(
        UnixPath::new("/etc/gateway/lost"),
        IncludeAnswer::Entries(vec![IncludeEntry::Failed { reason: reason() }]),
    );
    files.add_answer(
        UnixPath::new("/etc/gateway/self.conf"),
        file("/etc/gateway/self.conf", "include self.conf;"),
    );
    let run = |text: &str| {
        let mut source_map = SourceMap::default();
        let root = source_map.add_source(None, text.to_owned(), None, None);
        let directives = parse_source(text, root).expect("root should parse");
        expand_includes(directives, &mut source_map, Some(&dir), &files)
    };
    assert!(matches!(
        run("include a { }").unwrap_err(),
        ResolveIncludeError::InvalidShape { .. }
    ));
    assert!(matches!(
        run("include a b;").unwrap_err(),
        ResolveIncludeError::InvalidArgumentCount { count: 2, .. }
    ));
    assert!(matches!(
        run("include ***;").unwrap_err(),
        ResolveIncludeError::GlobPattern { .. }
    ));
    assert!(matches!(
        run("include lost;").unwrap_err(),
        ResolveIncludeError::GlobEntry { .. }
    ));
    assert_eq!(
        run("include ***;").unwrap_err().messages(),
        ["invalid include glob pattern", "no such thing"]
    );
    assert!(run("include self.conf;").is_err());
}

#[test]
fn positions_count_bytes_behind_line_feeds() {
    let mut sources = SourceMap::default();
    let id = sources.add_source(None, "\u{e4}b\n\nc".to_owned(), None, None);

    assert_eq!(
        sources.line_column(SourceSpan::new(id, 2, 3)),
        Some(LineColumn { line: 1, column: 3 })
    );
    assert_eq!(
        sources.line_column(SourceSpan::new(id, 4, 4)),
        Some(LineColumn { line: 2, column: 1 })
    );
    assert_eq!(
        sources.line_column(SourceSpan::new(id, 5, 6)),
        Some(LineColumn { line: 3, column: 1 })
    );
    assert_eq!(sources.line_column(SourceSpan::new(SourceId(7), 0, 0)), None);
}

#[test]
fn addresses_read_back_as_they_are_written() {
    for text in [
        "127.0.0.1:80",
        "[::1]:443",
        "[2001:db8::7:0]:65535",
        "[fe80::1%3]:9",
    ] {
        assert_eq!(addr(text).to_text(), text);
    }
    for text in ["127.0.0.1", "256.0.0.1:1", "[::1]", "1.2.3.4:65536", "[1::2::3]:1", "01.2.3.4:1"] {
        assert!(SocketAddr::parse(text).is_err(), "{}", text);
    }
}
