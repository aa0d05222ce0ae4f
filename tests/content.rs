use agena::config::Server;
use agena::files::{get_mime, content_meta, FileStat, extension, file_name_of, parent_of};
use agena::listing::{directory_listing, DirEntry, less_than};
use agena::response::{status_line, response_text, log_record};
use agena::serve::{on_lookup, on_index, on_resource, FileStep, ResourceStep, Delivery};
use agena::session::{advance, begin, Action, FsEvent};
use agena::status::{Status, Severity};
use agena::text::{decimal, hex_upper};
use agena::urls::parse_url;

fn server() -> Server {
    Server {
        hostname: "example.org".to_string(),
        dir: "/srv/gemini".to_string(),
        key: "key.pem".to_string(),
        cert: "cert.pem".to_string(),
        index: None,
        lang: None,
        cgi: None,
        cgipath: None,
        cgienv: None,
        usrdir: None,
        proxy: None,
        redirect: None,
        scgi: None,
    }
}

fn dir_stat() -> FileStat {
    FileStat { is_dir: true, is_file: false, mode: 0o755 }
}

fn file_stat(mode: u32) -> FileStat {
    FileStat { is_dir: false, is_file: true, mode }
}

#[test]
fn index_of_document_root_is_served_as_gemini_text() {
    let srv = server();
    let url = parse_url("gemini://example.org/").unwrap();
    let idx = match on_lookup(&srv, &url, "/srv/gemini/", Some(dir_stat())) {
        FileStep::CheckIndex { index_path } => index_path,
        _ => panic!("expected an index lookup"),
    };
    assert_eq!(idx, "/srv/gemini/index.gemini");
    let (path, stat) = on_index("/srv/gemini/", dir_stat(), &idx, Some(file_stat(0o644)));
    assert_eq!(path, "/srv/gemini/index.gemini");
    match on_resource(&srv, &path, stat) {
        ResourceStep::Deliver { kind, meta } => {
            assert_eq!(kind, Delivery::Text);
            assert_eq!(meta, "text/gemini");
            let r = response_text(Status::Success, Some(&meta), Some("# Welcome\n"));
            assert_eq!(r, "20\ttext/gemini\r\n# Welcome\n");
        },
        _ => panic!("expected content"),
    }
}

#[test]
fn missing_path_is_not_found() {
    let srv = server();
    let url = parse_url("gemini://example.org/missing").unwrap();
    match on_lookup(&srv, &url, "/srv/gemini/missing", None) {
        FileStep::Respond { status, meta } => {
            assert_eq!(status, Status::NotFound);
            assert_eq!(status.code(), 51);
            assert!(meta.is_none());
        },
        _ => panic!("expected not found"),
    }
    let mut cgi = server();
    cgi.cgi = Some(true);
    assert!(matches!(on_lookup(&cgi, &url, "/srv/gemini/missing", None), FileStep::SearchCgi));
}

#[test]
fn directory_without_slash_is_redirected() {
    let srv = server();
    let url = parse_url("gemini://example.org/dir").unwrap();
    match on_lookup(&srv, &url, "/srv/gemini/dir", Some(dir_stat())) {
        FileStep::Respond { status, meta } => {
            assert_eq!(status, Status::RedirectPermanent);
            assert_eq!(meta.as_deref(), Some("gemini://example.org/dir/"));
        },
        _ => panic!("expected a redirect"),
    }
}

#[test]
fn unreadable_index_falls_back_to_the_directory() {
    let (path, stat) = on_index("/srv/gemini/d/", dir_stat(), "/srv/gemini/d/index.gemini", Some(file_stat(0o600)));
    assert_eq!(path, "/srv/gemini/d/");
    assert!(stat.is_dir);
    let (path, _) = on_index("/srv/gemini/d/", dir_stat(), "/srv/gemini/d/index.gemini", None);
    assert_eq!(path, "/srv/gemini/d/");
}

#[test]
fn executables_and_unreadable_files_are_not_served() {
    let srv = server();
    assert!(matches!(on_resource(&srv, "/srv/gemini/run", file_stat(0o755)), ResourceStep::Respond { status: Status::NotFound }));
    assert!(matches!(on_resource(&srv, "/srv/gemini/run", file_stat(0o744)), ResourceStep::Respond { status: Status::NotFound }));
    assert!(matches!(on_resource(&srv, "/srv/gemini/a.gmi", file_stat(0o640)), ResourceStep::Respond { status: Status::NotFound }));
    let mut cgi = server();
    cgi.cgi = Some(true);
    assert!(matches!(on_resource(&cgi, "/srv/gemini/run", file_stat(0o755)), ResourceStep::RunCgi));
    assert!(matches!(on_resource(&cgi, "/srv/gemini/run", file_stat(0o744)), ResourceStep::Respond { status: Status::NotFound }));
    cgi.cgipath = Some("/srv/gemini/cgi/".to_string());
    assert!(matches!(on_resource(&cgi, "/srv/gemini/run", file_stat(0o755)), ResourceStep::Respond { status: Status::NotFound }));
    assert!(matches!(on_resource(&cgi, "/srv/gemini/cgi/run", file_stat(0o755)), ResourceStep::RunCgi));
    assert!(matches!(on_resource(&cgi, "/srv/gemini/cgi/notes", file_stat(0o644)), ResourceStep::Respond { status: Status::NotFound }));
    assert!(matches!(on_resource(&cgi, "/srv/gemini/cgix/run", file_stat(0o755)), ResourceStep::Respond { status: Status::NotFound }));
}

#[test]
fn binary_content_is_streamed() {
    let srv = server();
    match on_resource(&srv, "/srv/gemini/pic.png", file_stat(0o644)) {
        ResourceStep::Deliver { kind, meta } => {
            assert_eq!(kind, Delivery::Binary);
            assert_eq!(meta, "image/png");
        },
        _ => panic!("expected content"),
    }
}

#[test]
fn media_types() {
    assert_eq!(get_mime(true, "/srv/gemini/dir"), "text/gemini");
    assert_eq!(get_mime(false, "/x/a.gmi"), "text/gemini");
    assert_eq!(get_mime(false, "/x/a.gemini"), "text/gemini");
    assert_eq!(get_mime(false, "/x/a.png"), "image/png");
    assert_eq!(get_mime(false, "/x/README"), "text/plain");
    assert_eq!(get_mime(false, "/x/.profile"), "text/plain");
    assert_eq!(get_mime(false, "/x/a.nosuchextension"), "text/plain");
    assert_eq!(content_meta("text/gemini", &Some("en".to_string())), "text/gemini; lang=en");
    assert_eq!(content_meta("text/plain", &Some("en".to_string())), "text/plain");
    assert_eq!(content_meta("text/gemini", &None), "text/gemini");
}

#[test]
fn path_pieces() {
    assert_eq!(extension("a.tar.gz").as_deref(), Some("gz"));
    assert_eq!(extension(".bashrc"), None);
    assert_eq!(extension("noext"), None);
    assert_eq!(file_name_of("/a/b/c.gmi"), "c.gmi");
    assert_eq!(file_name_of("/a/b/"), "b");
    assert_eq!(parent_of("/a/b/c"), "/a/b");
    assert_eq!(parent_of("/a"), "/");
    assert_eq!(parent_of("a"), "");
}

#[test]
fn listing_puts_directories_first_in_sorted_order() {
    let url = parse_url("gemini://example.org/dir/").unwrap();
    let entries = vec![
        DirEntry { name: "b.gmi".to_string(), is_dir: false, mode: 0o644 },
        DirEntry { name: "c".to_string(), is_dir: true, mode: 0o755 },
        DirEntry { name: "secret".to_string(), is_dir: false, mode: 0o600 },
        DirEntry { name: "a".to_string(), is_dir: true, mode: 0o755 },
        DirEntry { name: "Z.txt".to_string(), is_dir: false, mode: 0o644 },
    ];
    let expected = "# Directory Listing\r\n\r\nPath: /dir/\r\n\r\n\
=> gemini://example.org/dir/a/ a/\r\n\
=> gemini://example.org/dir/c/ c/\r\n\
=> gemini://example.org/dir/Z.txt Z.txt\r\n\
=> gemini://example.org/dir/b.gmi b.gmi\r\n";
    let first = directory_listing(&url, &entries);
    assert_eq!(first, expected);
    let mut reversed = entries;
    reversed.reverse();
    assert_eq!(directory_listing(&url, &reversed), first);
}

#[test]
fn empty_listing_has_only_the_heading() {
    let url = parse_url("gemini://example.org/").unwrap();
    assert_eq!(directory_listing(&url, &vec![]), "# Directory Listing\r\n\r\nPath: /\r\n\r\n");
}

#[test]
fn lexicographic_order() {
    assert!(less_than("a", "b"));
    assert!(less_than("B", "a"));
    assert!(less_than("ab", "abc"));
    assert!(!less_than("abc", "ab"));
    assert!(!less_than("a", "a"));
}

#[test]
fn status_lines_and_logs() {
    assert_eq!(status_line(Status::NotFound, None), "51\tNot Found!\r\n");
    assert_eq!(status_line(Status::RedirectTemporary, Some("gemini://x/")), "30\tgemini://x/\r\n");
    assert_eq!(response_text(Status::CGIError, None, None), "42\tCGI Error!\r\n");
    let (sev, line) = log_record("10.0.0.1:5555", Status::Success, "gemini://example.org/");
    assert_eq!(sev, Severity::Info);
    assert_eq!(line, "remote=10.0.0.1:5555 status=20 request=gemini://example.org/");
    let (sev, line) = log_record("10.0.0.1:5555", Status::NotFound, "x");
    assert_eq!(sev, Severity::Warn);
    assert_eq!(line, "remote=10.0.0.1:5555 status=51 request=x");
}

#[test]
fn numbers_as_text() {
    assert_eq!(decimal(0), "0");
    assert_eq!(decimal(1965), "1965");
    assert_eq!(decimal(u64::MAX), "18446744073709551615");
    assert_eq!(hex_upper(&[0x00, 0xab, 0x7f]), "00AB7F");
}

#[test]
fn session_serves_the_index_of_a_directory() {
    let srv = server();
    let url = parse_url("gemini://example.org/").unwrap();
    let (phase, action) = begin("/srv/gemini/".to_string());
    assert!(matches!(action, Action::Stat { ref path } if path == "/srv/gemini/"));
    let (phase, action) = advance(&srv, &url, phase, FsEvent::Stat { stat: Some(dir_stat()) });
    assert!(matches!(action, Action::Stat { ref path } if path == "/srv/gemini/index.gemini"));
    let (phase, action) = advance(&srv, &url, phase.unwrap(), FsEvent::Stat { stat: Some(file_stat(0o644)) });
    assert!(phase.is_none());
    match action {
        Action::Deliver { path, kind, meta } => {
            assert_eq!(path, "/srv/gemini/index.gemini");
            assert_eq!(kind, Delivery::Text);
            assert_eq!(meta, "text/gemini");
        },
        _ => panic!("expected content"),
    }
}

#[test]
fn session_finds_a_script_above_a_missing_path() {
    let mut srv = server();
    srv.cgi = Some(true);
    let url = parse_url("gemini://example.org/run/extra").unwrap();
    let (phase, _) = begin("/srv/gemini/run/extra".to_string());
    let (phase, action) = advance(&srv, &url, phase, FsEvent::Stat { stat: None });
    assert!(matches!(action, Action::Exists { ref path } if path == "/srv/gemini/run/extra"));
    let (phase, action) = advance(&srv, &url, phase.unwrap(), FsEvent::Exists { exists: false });
    assert!(matches!(action, Action::Exists { ref path } if path == "/srv/gemini/run"));
    let (phase, action) = advance(&srv, &url, phase.unwrap(), FsEvent::Exists { exists: true });
    assert!(matches!(action, Action::Stat { ref path } if path == "/srv/gemini/run"));
    let (phase, action) = advance(&srv, &url, phase.unwrap(), FsEvent::Stat { stat: Some(file_stat(0o755)) });
    assert!(phase.is_none());
    match action {
        Action::RunCgi { path, script_name, path_info } => {
            assert_eq!(path, "/srv/gemini/run");
            assert_eq!(script_name, "/run");
            assert_eq!(path_info, "/extra");
        },
        _ => panic!("expected the script to run"),
    }
    let (phase, _) = begin("/srv/gemini/run/extra".to_string());
    let (phase, _) = advance(&srv, &url, phase, FsEvent::Stat { stat: None });
    let (_, action) = advance(&srv, &url, phase.unwrap(), FsEvent::Stat { stat: None });
    assert!(matches!(action, Action::Respond { status: Status::NotFound, .. }));
}

#[test]
fn session_runs_an_existing_script() {
    let mut srv = server();
    srv.cgi = Some(true);
    let url = parse_url("gemini://example.org/cgi/hello").unwrap();
    let (phase, _) = begin("/srv/gemini/cgi/hello".to_string());
    let (_, action) = advance(&srv, &url, phase, FsEvent::Stat { stat: Some(file_stat(0o755)) });
    match action {
        Action::RunCgi { path, script_name, path_info } => {
            assert_eq!(path, "/srv/gemini/cgi/hello");
            assert_eq!(script_name, "/cgi/hello");
            assert_eq!(path_info, "");
        },
        _ => panic!("expected the script to run"),
    }
}
