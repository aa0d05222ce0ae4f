use agena::config::Server;
use agena::gateway::{
    cgi_command, cgi_outcome, check, gateway_env, proxy_outcome, proxy_request, scgi_outcome,
    start_search, BackendResult, ClientCert, GatewayOutcome, Peer, ProcessResult, SearchStep,
    Verdict,
};
use agena::scgi::scgi_frame;
use agena::status::Status;
use agena::urls::parse_url;

fn server() -> Server {
    Server {
        hostname: "example.org".to_string(),
        dir: "/srv/gemini".to_string(),
        key: "key.pem".to_string(),
        cert: "cert.pem".to_string(),
        index: None,
        lang: None,
        cgi: Some(true),
        cgipath: None,
        cgienv: None,
        usrdir: None,
        proxy: None,
        redirect: None,
        scgi: None,
    }
}

fn peer() -> Peer {
    Peer { addr: "10.0.0.1".to_string(), port: 5555 }
}

fn keys(env: &[(String, String)]) -> Vec<&str> {
    env.iter().map(|(k, _)| k.as_str()).collect()
}

fn get<'a>(env: &'a [(String, String)], k: &str) -> Option<&'a str> {
    env.iter().find(|(n, _)| n == k).map(|(_, v)| v.as_str())
}

#[test]
fn failing_script_is_a_cgi_error() {
    let o = cgi_outcome(ProcessResult::Exited { success: false, stdout: b"20 text/gemini\r\nhello".to_vec() });
    match o {
        GatewayOutcome::Fail { status } => {
            assert_eq!(status, Status::CGIError);
            assert_eq!(status.code(), 42);
        },
        _ => panic!("expected a gateway error"),
    }
}

#[test]
fn script_outcomes() {
    assert!(matches!(cgi_outcome(ProcessResult::TimedOut), GatewayOutcome::Fail { status: Status::CGIError }));
    assert!(matches!(cgi_outcome(ProcessResult::SpawnFailed), GatewayOutcome::Fail { status: Status::CGIError }));
    assert!(matches!(
        cgi_outcome(ProcessResult::Exited { success: true, stdout: vec![] }),
        GatewayOutcome::Fail { status: Status::CGIError }
    ));
    assert!(matches!(
        cgi_outcome(ProcessResult::Exited { success: true, stdout: b"hello".to_vec() }),
        GatewayOutcome::Fail { status: Status::CGIError }
    ));
    let out = b"20\ttext/gemini\r\nhi".to_vec();
    let first = cgi_outcome(ProcessResult::Exited { success: true, stdout: out.clone() });
    let second = cgi_outcome(ProcessResult::Exited { success: true, stdout: out.clone() });
    match (first, second) {
        (GatewayOutcome::Relay { bytes: a, log: la }, GatewayOutcome::Relay { bytes: b, log: lb }) => {
            assert_eq!(a, out);
            assert_eq!(a, b);
            assert_eq!(la, Some(Status::Success));
            assert_eq!(lb, Some(Status::Success));
        },
        _ => panic!("expected relays"),
    }
}

#[test]
fn leading_status_digits() {
    assert_eq!(check(b"10\tquery\r\n"), Verdict::Relay { log: Some(Status::Input) });
    assert_eq!(check(b"20\ttext/gemini\r\n"), Verdict::Relay { log: Some(Status::Success) });
    assert_eq!(check(b"31\tgemini://x/\r\n"), Verdict::Relay { log: None });
    assert_eq!(check(b"44\t5\r\n"), Verdict::Relay { log: None });
    assert_eq!(check(b"51\tgone\r\n"), Verdict::Relay { log: Some(Status::CGIError) });
    assert_eq!(check(b"60\tcert\r\n"), Verdict::Relay { log: None });
    assert_eq!(check(b"70\tno\r\n"), Verdict::Reject);
    assert_eq!(check(b"0"), Verdict::Reject);
    assert_eq!(check(b""), Verdict::Reject);
}

#[test]
fn backend_outcomes() {
    assert!(matches!(scgi_outcome(BackendResult::ConnectFailed), GatewayOutcome::Fail { status: Status::CGIError }));
    assert!(matches!(scgi_outcome(BackendResult::TimedOut), GatewayOutcome::Fail { status: Status::CGIError }));
    assert!(matches!(
        scgi_outcome(BackendResult::Received { bytes: b"x".to_vec() }),
        GatewayOutcome::Fail { status: Status::CGIError }
    ));
    assert!(matches!(
        scgi_outcome(BackendResult::Received { bytes: b"20\ttext/plain\r\n".to_vec() }),
        GatewayOutcome::Relay { log: Some(Status::Success), .. }
    ));
    assert!(matches!(proxy_outcome(BackendResult::ConnectFailed), GatewayOutcome::Fail { status: Status::ProxyError }));
    assert!(matches!(proxy_outcome(BackendResult::TimedOut), GatewayOutcome::Fail { status: Status::ProxyError }));
    match proxy_outcome(BackendResult::Received { bytes: b"anything".to_vec() }) {
        GatewayOutcome::Relay { bytes, log } => {
            assert_eq!(bytes, b"anything".to_vec());
            assert!(log.is_none());
        },
        _ => panic!("expected a relay"),
    }
}

#[test]
fn proxy_request_lines() {
    assert_eq!(proxy_request("/up/page/x").as_deref(), Some("page/x\r\n"));
    assert_eq!(proxy_request("//up/page").as_deref(), Some("page\r\n"));
    assert_eq!(proxy_request("/up"), None);
    assert_eq!(proxy_request("/up/"), None);
    assert_eq!(proxy_request("/up//"), None);
}

#[test]
fn gateway_environment() {
    let mut srv = server();
    srv.cgienv = Some(vec![
        ("SERVER_SOFTWARE".to_string(), "custom".to_string()),
        ("EXTRA".to_string(), "v".to_string()),
    ]);
    let url = parse_url("gemini://example.org/cgi/x?q=1").unwrap();
    let env = gateway_env(&peer(), &None, &srv, &url);
    assert_eq!(
        keys(&env),
        vec![
            "GATEWAY_INTERFACE", "GEMINI_URL", "SERVER_NAME", "SERVER_PROTOCOL", "REMOTE_ADDR",
            "REMOTE_HOST", "REMOTE_PORT", "SERVER_SOFTWARE", "QUERY_STRING", "EXTRA",
        ]
    );
    assert_eq!(get(&env, "GATEWAY_INTERFACE"), Some("CGI/1.1"));
    assert_eq!(get(&env, "GEMINI_URL"), Some("gemini://example.org/cgi/x?q=1"));
    assert_eq!(get(&env, "SERVER_NAME"), Some("example.org"));
    assert_eq!(get(&env, "SERVER_PROTOCOL"), Some("GEMINI"));
    assert_eq!(get(&env, "REMOTE_ADDR"), Some("10.0.0.1"));
    assert_eq!(get(&env, "REMOTE_PORT"), Some("5555"));
    assert_eq!(get(&env, "SERVER_SOFTWARE"), Some("custom"));
    assert_eq!(get(&env, "QUERY_STRING"), Some("q=1"));
    assert_eq!(get(&env, "AUTH_TYPE"), None);
}

#[test]
fn certificate_variables() {
    let url = parse_url("gemini://example.org/cgi/x").unwrap();
    let cert = ClientCert { common_names: vec!["alice".to_string()], sha256: vec![0xab, 0x01] };
    let env = gateway_env(&peer(), &Some(cert), &server(), &url);
    assert_eq!(get(&env, "AUTH_TYPE"), Some("Certificate"));
    assert_eq!(get(&env, "REMOTE_USER"), Some("alice"));
    assert_eq!(get(&env, "TLS_CLIENT_HASH"), Some("SHA256:AB01"));
    assert_eq!(get(&env, "QUERY_STRING"), None);
}

#[test]
fn ancestor_search_splits_script_and_path_info() {
    let url = parse_url("gemini://example.org/cgi/script/extra/more").unwrap();
    let s = start_search("/srv/gemini/cgi/script/extra/more", &url).unwrap();
    let s = match s.step(false) {
        SearchStep::Continue { search } => search,
        _ => panic!("expected another step"),
    };
    assert_eq!(s.path, "/srv/gemini/cgi/script/extra");
    assert_eq!(s.path_info, "/more");
    let s = match s.step(false) {
        SearchStep::Continue { search } => search,
        _ => panic!("expected another step"),
    };
    match s.step(true) {
        SearchStep::Found { path, script_name, path_info } => {
            assert_eq!(path, "/srv/gemini/cgi/script");
            assert_eq!(script_name, "/cgi/script");
            assert_eq!(path_info, "/extra/more");
            let cmd = cgi_command(&peer(), &None, &server(), &url, &path, script_name, path_info);
            assert_eq!(cmd.program, "/srv/gemini/cgi/script");
            assert_eq!(cmd.dir, "/srv/gemini/cgi");
            assert_eq!(get(&cmd.env, "SCRIPT_NAME"), Some("/cgi/script"));
            assert_eq!(get(&cmd.env, "PATH_INFO"), Some("/extra/more"));
        },
        _ => panic!("expected the script"),
    }
}

#[test]
fn ancestor_search_runs_out() {
    let url = parse_url("gemini://example.org/a").unwrap();
    let s = start_search("/srv/gemini/a", &url).unwrap();
    let s = match s.step(false) {
        SearchStep::Continue { search } => search,
        _ => panic!("expected another step"),
    };
    assert!(s.segments.is_empty());
    assert!(matches!(s.step(false), SearchStep::NotFound));
}

#[test]
fn scgi_netstring() {
    let env = vec![("A".to_string(), "1".to_string())];
    let frame = scgi_frame(&env, "/app");
    let payload = "CONTENT_LENGTH\u{0}0\u{0}SCGI\u{0}1\u{0}REQUEST_METHOD\u{0}POST\u{0}REQUEST_URI\u{0}/app\u{0}A\u{0}1\u{0}";
    assert_eq!(payload.len(), 65);
    assert_eq!(frame, format!("65:{},", payload).into_bytes());
    let empty = scgi_frame(&vec![], "/");
    assert!(empty.starts_with(b"58:CONTENT_LENGTH\0"));
    assert!(empty.ends_with(b"/\0,"));
}
