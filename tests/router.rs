use agena::config::{Config, Server, ServerCfg, LogLevel, lookup};
use agena::request::{handle_request, normalize_request, resolve_path, route_url, Route};
use agena::status::{Status, Category, Severity};
use agena::urls::{parse_url, url_decode};

fn server(host: &str) -> Server {
    Server {
        hostname: host.to_string(),
        dir: "/srv/gemini".to_string(),
        key: "key.pem".to_string(),
        cert: "cert.pem".to_string(),
        index: None,
        lang: None,
        cgi: None,
        cgipath: None,
        cgienv: None,
        usrdir: None,
        proxy: None,
        redirect: None,
        scgi: None,
    }
}

fn cfg(srv: Server) -> ServerCfg {
    ServerCfg { port: 1965, server: srv }
}

fn route_of(srv: &ServerCfg, line: &str) -> Route {
    handle_request(srv, Some(line.as_bytes())).route
}

#[test]
fn status_codes_and_reasons() {
    assert_eq!(Status::Success.code(), 20);
    assert_eq!(Status::NotFound.code(), 51);
    assert_eq!(Status::ProxyRequestRefused.code(), 53);
    assert_eq!(Status::CGIError.code(), 42);
    assert_eq!(Status::BadRequest.code(), 59);
    assert_eq!(Status::ExpiredCertificateRejected.code(), 65);
    assert_eq!(Status::NotFound.to_str(), "Not Found!");
    assert_eq!(Status::CGIError.to_str(), "CGI Error!");
    assert_eq!(Status::SuccessEndOfSession.to_str(), "Success End Of Session");
    assert_eq!(Status::ProxyRequestRefused.name(), "ProxyRequestRefused");
    assert_eq!(Status::Input.category(), Category::Input);
    assert_eq!(Status::RedirectPermanent.category(), Category::Redirect);
    assert_eq!(Status::SlowDown.category(), Category::TemporaryFailure);
    assert_eq!(Status::Gone.category(), Category::PermanentFailure);
    assert_eq!(Status::CertificateNotAccepted.category(), Category::ClientCertificate);
    assert_eq!(Status::SuccessEndOfSession.severity(), Severity::Info);
    assert_eq!(Status::NotFound.severity(), Severity::Warn);
}

#[test]
fn normalizes_request_lines() {
    assert_eq!(normalize_request("gemini://example.org/\r\n"), "gemini://example.org/");
    assert_eq!(normalize_request("gemini://example.org/\n"), "gemini://example.org/");
    assert_eq!(normalize_request("//example.org/a\r\n"), "gemini://example.org/a");
    assert_eq!(normalize_request("gemini://example.org/\r"), "gemini://example.org/\r");
}

#[test]
fn parses_urls() {
    let u = parse_url("gemini://example.org:1965/a/b?x=1").unwrap();
    assert_eq!(u.scheme, "gemini");
    assert_eq!(u.host.as_deref(), Some("example.org"));
    assert_eq!(u.port, Some(1965));
    assert_eq!(u.path, "/a/b");
    assert_eq!(u.query.as_deref(), Some("x=1"));
    assert!(parse_url("not a url").is_none());
}

#[test]
fn decodes_percent_escapes() {
    assert_eq!(url_decode(b"a%20b"), "a b");
    assert_eq!(url_decode(b"caf%C3%A9.gmi"), "café.gmi");
    assert_eq!(url_decode(b""), "");
}

#[test]
fn request_to_root_is_served_from_document_root() {
    let srv = cfg(server("example.org"));
    match route_of(&srv, "gemini://example.org/\r\n") {
        Route::Serve { path } => assert_eq!(path, "/srv/gemini/"),
        _ => panic!("expected a file-system route"),
    }
}

#[test]
fn foreign_host_is_refused() {
    let srv = cfg(server("example.org"));
    match route_of(&srv, "gemini://other.org/\r\n") {
        Route::Respond { status, meta } => {
            assert_eq!(status, Status::ProxyRequestRefused);
            assert_eq!(status.code(), 53);
            assert!(meta.is_none());
        },
        _ => panic!("expected a refusal"),
    }
}

#[test]
fn wrong_port_and_scheme_are_refused() {
    let srv = cfg(server("example.org"));
    for line in ["gemini://example.org:1966/\r\n", "https://example.org/\r\n"] {
        match route_of(&srv, line) {
            Route::Respond { status, .. } => assert_eq!(status, Status::ProxyRequestRefused),
            _ => panic!("expected a refusal"),
        }
    }
    match route_of(&srv, "gemini://example.org:1965/\r\n") {
        Route::Serve { .. } => {},
        _ => panic!("the listening port is accepted"),
    }
}

#[test]
fn bad_requests() {
    let srv = cfg(server("example.org"));
    let h = handle_request(&srv, None);
    assert!(matches!(h.route, Route::Respond { status: Status::BadRequest, .. }));
    let h = handle_request(&srv, Some(&[0xff, 0xfe, 0x0d, 0x0a]));
    assert!(matches!(h.route, Route::Respond { status: Status::BadRequest, .. }));
    assert_eq!(h.line, "");
    let h = handle_request(&srv, Some(b"no scheme here\r\n"));
    assert!(matches!(h.route, Route::Respond { status: Status::BadRequest, .. }));
    assert_eq!(h.line, "no scheme here");
}

#[test]
fn redirects_proxies_and_scgi_in_order() {
    let mut s = server("example.org");
    s.redirect = Some(vec![("/old".to_string(), "gemini://example.org/new".to_string())]);
    s.proxy = Some(vec![("up".to_string(), "127.0.0.1:1966".to_string())]);
    s.scgi = Some(vec![("/app".to_string(), "127.0.0.1:4000".to_string())]);
    let srv = cfg(s);
    match route_of(&srv, "gemini://example.org/old/\r\n") {
        Route::Respond { status, meta } => {
            assert_eq!(status, Status::RedirectTemporary);
            assert_eq!(meta.as_deref(), Some("gemini://example.org/new"));
        },
        _ => panic!("expected a redirect"),
    }
    match route_of(&srv, "gemini://example.org/up/page\r\n") {
        Route::Proxy { backend } => assert_eq!(backend, "127.0.0.1:1966"),
        _ => panic!("expected the reverse proxy"),
    }
    match route_of(&srv, "gemini://example.org/app/\r\n") {
        Route::Scgi { backend } => assert_eq!(backend, "127.0.0.1:4000"),
        _ => panic!("expected the SCGI gateway"),
    }
}

#[test]
fn resolves_paths_and_rejects_escapes() {
    let mut s = server("example.org");
    assert_eq!(resolve_path(&s, "/a%20b.gmi").as_deref(), Some("/srv/gemini/a b.gmi"));
    assert_eq!(resolve_path(&s, "/../etc/passwd"), None);
    assert_eq!(resolve_path(&s, "/%2Fetc/passwd"), None);
    assert_eq!(resolve_path(&s, "/~bob/x.gmi").as_deref(), Some("/srv/gemini/~bob/x.gmi"));
    s.usrdir = Some(true);
    assert_eq!(resolve_path(&s, "/~bob/x.gmi").as_deref(), Some("/home/bob/public_gemini/x.gmi"));
    assert_eq!(resolve_path(&s, "/~bob").as_deref(), Some("/home/bob/public_gemini/"));
    assert_eq!(resolve_path(&s, "/~../x"), None);
    assert_eq!(resolve_path(&s, "/~/x"), None);
}

#[test]
fn route_from_parsed_url() {
    let srv = cfg(server("example.org"));
    let u = parse_url("gemini://example.org/missing").unwrap();
    match route_url(&srv, &u) {
        Route::Serve { path } => assert_eq!(path, "/srv/gemini/missing"),
        _ => panic!("expected a file-system route"),
    }
}

#[test]
fn virtual_host_table_selects_by_server_name() {
    let c = Config {
        port: 1965,
        host: "0.0.0.0".to_string(),
        log: None,
        server: vec![server("a.org"), server("b.org")],
    };
    let t = c.to_map();
    assert_eq!(t.entries.len(), 2);
    assert_eq!(t.entries[1].port, 1965);
    assert_eq!(t.select(Some("b.org")).unwrap().server.hostname, "b.org");
    assert_eq!(t.select(Some("c.org")).unwrap().server.hostname, "a.org");
    assert_eq!(t.select(None).unwrap().server.hostname, "a.org");
    let empty = Config { port: 1965, host: "h".to_string(), log: None, server: vec![] }.to_map();
    assert!(empty.select(None).is_none());
}

#[test]
fn log_levels() {
    let mut c = Config { port: 1965, host: "h".to_string(), log: None, server: vec![] };
    assert_eq!(c.log_level(), Some(LogLevel::Info));
    c.log = Some("warn".to_string());
    assert_eq!(c.log_level(), Some(LogLevel::Warn));
    c.log = Some("error".to_string());
    assert_eq!(c.log_level(), Some(LogLevel::Error));
    c.log = Some("debug".to_string());
    assert_eq!(c.log_level(), None);
}

#[test]
fn lookup_takes_the_first_match() {
    let v = vec![("a".to_string(), "1".to_string()), ("a".to_string(), "2".to_string())];
    assert_eq!(lookup(&v, "a").map(|s| s.as_str()), Some("1"));
    assert!(lookup(&v, "b").is_none());
}

#[test]
fn escaping_paths_are_not_found() {
    let srv = cfg(server("example.org"));
    match route_of(&srv, "gemini://example.org/%2Fetc/passwd\r\n") {
        Route::Respond { status, meta } => {
            assert_eq!(status, Status::NotFound);
            assert!(meta.is_none());
        },
        _ => panic!("expected not found"),
    }
}

#[test]
fn later_host_of_the_same_name_wins() {
    let mut second = server("a.org");
    second.dir = "/srv/second".to_string();
    let c = Config { port: 1965, host: "h".to_string(), log: None, server: vec![server("a.org"), second] };
    let t = c.to_map();
    assert_eq!(t.select(Some("a.org")).unwrap().server.dir, "/srv/second");
}
