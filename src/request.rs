use vstd::prelude::*;
use vstd::utf8::{valid_utf8, decode_utf8, encode_utf8};
use crate::config::{Server, ServerCfg, ServerView, lookup_in, lookup_opt};
use crate::status::Status;
use crate::text::{push_char, push_str, chars_of, string_of, has_prefix, same_text};
use crate::urls::split_chars;
use crate::urls::{ParsedUrl, UrlView, parse_url, parsed_url_of, url_decode, url_decode_spec, split_on};

verus! {

/// The scheme that a request line may leave out.
pub open spec fn gemini_colon() -> Seq<char> {
    seq!['g', 'e', 'm', 'i', 'n', 'i', ':']
}

/// `gemini`, the only scheme served.
pub open spec fn gemini_scheme() -> Seq<char> {
    seq!['g', 'e', 'm', 'i', 'n', 'i']
}

/// A line without its final LF, and without the CR before that LF.
pub open spec fn strip_newline(l: Seq<char>) -> Seq<char> {
    if l.len() > 0 && l.last() == '\n' {
        let b = l.drop_last();
        if b.len() > 0 && b.last() == '\r' {
            b.drop_last()
        } else {
            b
        }
    } else {
        l
    }
}

/// A request line made ready for the URL parser: the line ending goes, and a
/// line that starts with `//` gets the scheme in front.
pub open spec fn normalize_spec(l: Seq<char>) -> Seq<char> {
    if has_prefix(l, seq!['/', '/']) {
        gemini_colon() + strip_newline(l)
    } else {
        strip_newline(l)
    }
}

/// The request line made ready for the URL parser.
pub fn normalize_request(line: &str) -> (r: String)
    ensures
        r@ == normalize_spec(line@),
{
    let v = chars_of(line);
    let n = v.len();
    let mut end: usize = n;
    if end > 0 && v[end - 1] == '\n' {
        end = end - 1;
        if end > 0 && v[end - 1] == '\r' {
            end = end - 1;
        }
    }
    assert(v@.subrange(0, end as int) == strip_newline(v@)) by {
        if n > 0 && v@[n - 1] == '\n' {
            assert(v@.drop_last() == v@.subrange(0, n - 1));
            if n > 1 && v@[n - 2] == '\r' {
                assert(v@.drop_last().drop_last() == v@.subrange(0, n - 2));
            }
        } else {
            assert(v@.subrange(0, n as int) == v@);
        }
    }
    let slashed = n >= 2 && v[0] == '/' && v[1] == '/';
    assert(slashed == has_prefix(v@, seq!['/', '/'])) by {
        if n >= 2 {
            if v@[0] == '/' && v@[1] == '/' {
                assert(v@.subrange(0, 2) =~= seq!['/', '/']);
            }
            if has_prefix(v@, seq!['/', '/']) {
                assert(v@.subrange(0, 2)[0] == v@[0]);
                assert(v@.subrange(0, 2)[1] == v@[1]);
            }
        }
    }
    let mut r = String::new();
    if slashed {
        push_str(&mut r, "gemini:");
        proof {
            reveal_strlit("gemini:");
            assert(r@ =~= gemini_colon());
        }
    }
    let rest = string_of(v.as_slice(), 0, end);
    push_str(&mut r, rest.as_str());
    r
}

/// Relies on std::str::from_utf8: bytes are text exactly when they are valid
/// UTF-8, and then decode as UTF-8.
#[verifier::external_body]
fn utf8_text(b: &[u8]) -> (r: Option<String>)
    ensures
        r is Some <==> valid_utf8(b@),
        r matches Some(s) ==> s@ == decode_utf8(b@),
{
    std::str::from_utf8(b).ok().map(|s| s.to_string())
}

/// `p` without its trailing `/` characters.
pub open spec fn trim_end_slashes(p: Seq<char>) -> Seq<char>
    decreases p.len(),
{
    if p.len() > 0 && p.last() == '/' {
        trim_end_slashes(p.drop_last())
    } else {
        p
    }
}

/// `p` without its leading `/` characters.
pub open spec fn trim_start_slashes(p: Seq<char>) -> Seq<char>
    decreases p.len(),
{
    if p.len() > 0 && p[0] == '/' {
        trim_start_slashes(p.drop_first())
    } else {
        p
    }
}

} // verus!

verus! {

/// The first index at or after `i` where `s` holds `c`.
pub open spec fn find_from(s: Seq<char>, c: char, i: int) -> Option<int>
    decreases s.len() - i,
{
    if i < 0 || i >= s.len() {
        None
    } else if s[i] == c {
        Some(i)
    } else {
        find_from(s, c, i + 1)
    }
}

pub proof fn lemma_find_from(s: Seq<char>, c: char, i: int)
    requires
        0 <= i,
    ensures
        find_from(s, c, i) matches Some(j) ==> i <= j < s.len() && s[j] == c,
        find_from(s, c, i) is None ==> forall|j: int| i <= j < s.len() ==> s[j] != c,
    decreases s.len() - i,
{
    if i < s.len() && s[i] != c {
        lemma_find_from(s, c, i + 1);
    }
}

/// The first index at or after `from` where `v` holds `c`.
pub fn find_char(v: &Vec<char>, c: char, from: usize) -> (r: Option<usize>)
    ensures
        match r {
            Some(j) => find_from(v@, c, from as int) == Some(j as int),
            None => find_from(v@, c, from as int) is None,
        },
{
    let mut i: usize = from;
    if i >= v.len() {
        return None;
    }
    while i < v.len()
        invariant
            from <= i,
            find_from(v@, c, from as int) == find_from(v@, c, i as int),
        decreases v@.len() - i,
    {
        if v[i] == c {
            return Some(i);
        }
        i = i + 1;
    }
    None
}

/// Where the trailing `/` characters of `v[..end]` start.
fn trim_end_slashes_at(v: &Vec<char>) -> (r: usize)
    ensures
        r <= v@.len(),
        v@.subrange(0, r as int) == trim_end_slashes(v@),
{
    let mut e: usize = v.len();
    assert(v@.subrange(0, e as int) == v@);
    while e > 0 && v[e - 1] == '/'
        invariant
            e <= v@.len(),
            trim_end_slashes(v@) == trim_end_slashes(v@.subrange(0, e as int)),
        decreases e,
    {
        assert(v@.subrange(0, e as int).drop_last() == v@.subrange(0, e - 1));
        e = e - 1;
    }
    e
}

/// Where the leading `/` characters of `v` end.
pub fn trim_start_slashes_at(v: &Vec<char>) -> (r: usize)
    ensures
        r <= v@.len(),
        v@.subrange(r as int, v@.len() as int) == trim_start_slashes(v@),
{
    let mut s: usize = 0;
    assert(v@.subrange(0, v@.len() as int) == v@);
    while s < v.len() && v[s] == '/'
        invariant
            s <= v@.len(),
            trim_start_slashes(v@) == trim_start_slashes(v@.subrange(s as int, v@.len() as int)),
        decreases v@.len() - s,
    {
        assert(v@.subrange(s as int, v@.len() as int).drop_first() == v@.subrange(
            s + 1,
            v@.len() as int,
        ));
        s = s + 1;
    }
    s
}

/// A path with its trailing `/` characters removed.
pub fn trim_end_slashes_of(p: &str) -> (r: String)
    ensures
        r@ == trim_end_slashes(p@),
{
    let v = chars_of(p);
    let e = trim_end_slashes_at(&v);
    string_of(v.as_slice(), 0, e)
}

/// `/home/`, under which each user's public directory lies.
pub open spec fn home_root() -> Seq<char> {
    seq!['/', 'h', 'o', 'm', 'e', '/']
}

/// `/public_gemini/`, the directory of a user's home that is served.
pub open spec fn public_dir() -> Seq<char> {
    seq!['/', 'p', 'u', 'b', 'l', 'i', 'c', '_', 'g', 'e', 'm', 'i', 'n', 'i', '/']
}

pub open spec fn dot_dot() -> Seq<char> {
    seq!['.', '.']
}

/// A relative path that stays below the directory it is joined to: it is not
/// absolute and has no `..` component.
pub open spec fn safe_rel(r: Seq<char>) -> bool {
    &&& !(r.len() > 0 && r[0] == '/')
    &&& forall|i: int| 0 <= i < split_on(r, '/').len() ==> split_on(r, '/')[i] != dot_dot()
}

/// `rel` below `base`, with one separator between them.
pub open spec fn join_path(base: Seq<char>, rel: Seq<char>) -> Seq<char> {
    if base.len() > 0 && base.last() == '/' {
        base + rel
    } else {
        base.push('/') + rel
    }
}

/// The percent-decoded text of a path's characters.
pub open spec fn decode_text(p: Seq<char>) -> Seq<char> {
    url_decode_spec(encode_utf8(p))
}

/// The file-system path that a URL path names under the document root.
pub open spec fn docroot_path(dir: Seq<char>, path: Seq<char>) -> Option<Seq<char>> {
    let rel = decode_text(trim_start_slashes(path));
    if safe_rel(rel) {
        Some(join_path(dir, rel))
    } else {
        None
    }
}

/// The file-system path that `/~user/rest` names: `rest`, percent-decoded,
/// under the user's public directory. `u` is what follows `/~`.
pub open spec fn userdir_path(u: Seq<char>) -> Option<Seq<char>> {
    let user = user_part(u);
    let rest = rest_part(u);
    if user.len() > 0 && user != dot_dot() && user != seq!['.'] && safe_rel(rest) {
        Some(home_root() + user + public_dir() + rest)
    } else {
        None
    }
}

/// The user name in what follows `/~`: up to the first `/`.
pub open spec fn user_part(u: Seq<char>) -> Seq<char> {
    match find_from(u, '/', 0) {
        Some(i) => u.subrange(0, i),
        None => u,
    }
}

/// The decoded rest of what follows `/~user/`; empty where no `/` follows the name.
pub open spec fn rest_part(u: Seq<char>) -> Seq<char> {
    match find_from(u, '/', 0) {
        Some(i) => decode_text(u.subrange(i + 1, u.len() as int)),
        None => Seq::empty(),
    }
}

/// Whether a URL path is served from a user's public directory.
pub open spec fn is_userdir(srv: ServerView, path: Seq<char>) -> bool {
    has_prefix(path, seq!['/', '~']) && srv.usrdir == Some(true)
}

/// The file-system path that a URL path resolves to; none where it would
/// leave the directory it is resolved under.
pub open spec fn resolve_spec(srv: ServerView, path: Seq<char>) -> Option<Seq<char>> {
    if is_userdir(srv, path) {
        userdir_path(path.subrange(2, path.len() as int))
    } else {
        docroot_path(srv.dir, path)
    }
}

} // verus!

verus! {

/// Whether a relative path stays below the directory it is joined to.
pub fn is_safe_rel(r: &str) -> (b: bool)
    ensures
        b == safe_rel(r@),
{
    let v = chars_of(r);
    if v.len() > 0 && v[0] == '/' {
        return false;
    }
    let pieces = split_chars(&v, 0, '/');
    assert(v@.subrange(0, v@.len() as int) == v@);
    let ghost sp = split_on(r@, '/');
    assert(pieces@.map_values(|x: String| x@) == sp);
    let mut i: usize = 0;
    while i < pieces.len()
        invariant
            i <= pieces@.len(),
            pieces@.map_values(|x: String| x@) == sp,
            sp == split_on(r@, '/'),
            forall|j: int| 0 <= j < i ==> sp[j] != dot_dot(),
        decreases pieces@.len() - i,
    {
        assert(sp[i as int] == pieces@[i as int]@);
        proof {
            reveal_strlit("..");
            assert(".."@ =~= dot_dot());
        }
        if same_text(pieces[i].as_str(), "..") {
            assert(split_on(r@, '/')[i as int] == dot_dot());
            return false;
        }
        i = i + 1;
    }
    true
}

/// The percent-decoded text of a path.
pub fn decode_path(p: &str) -> (r: String)
    ensures
        r@ == decode_text(p@),
{
    url_decode(p.as_bytes())
}

/// `rel` below `base`, with one separator between them.
pub fn join_paths(base: &str, rel: &str) -> (r: String)
    ensures
        r@ == join_path(base@, rel@),
{
    let n = base.unicode_len();
    let mut r = String::new();
    push_str(&mut r, base);
    if !(n > 0 && base.get_char(n - 1) == '/') {
        push_char(&mut r, '/');
    }
    push_str(&mut r, rel);
    r
}

/// The file-system path that a URL path resolves to; none where it would
/// leave the directory it is resolved under.
pub fn resolve_path(srv: &Server, path: &str) -> (r: Option<String>)
    ensures
        match r {
            Some(p) => resolve_spec(srv@, path@) == Some(p@),
            None => resolve_spec(srv@, path@) is None,
        },
{
    let v = chars_of(path);
    let userdir = match srv.usrdir {
        Some(b) => b,
        None => false,
    };
    let tilde = v.len() >= 2 && v[0] == '/' && v[1] == '~';
    assert(tilde == has_prefix(path@, seq!['/', '~'])) by {
        if v@.len() >= 2 {
            if has_prefix(path@, seq!['/', '~']) {
                assert(v@.subrange(0, 2)[0] == v@[0]);
                assert(v@.subrange(0, 2)[1] == v@[1]);
            }
            if v@[0] == '/' && v@[1] == '~' {
                assert(v@.subrange(0, 2) =~= seq!['/', '~']);
            }
        }
    }
    if tilde && userdir {
        let ghost u = path@.subrange(2, path@.len() as int);
        let (user, rest) = match find_char(&v, '/', 2) {
            Some(i) => {
                proof { lemma_find_from(v@, '/', 2); }
                assert(find_from(u, '/', 0) == Some(i - 2)) by {
                    assert forall|j: int| 0 <= j < i - 2 implies u[j] != '/' by {
                        lemma_find_from_none_before(v@, '/', 2, i as int, j + 2);
                    }
                    lemma_find_first(u, '/', 0, i - 2);
                }
                let raw = string_of(v.as_slice(), i + 1, v.len());
                assert(raw@ == u.subrange(i - 2 + 1, u.len() as int));
                let us = string_of(v.as_slice(), 2, i);
                assert(us@ == u.subrange(0, i - 2));
                (us, decode_path(raw.as_str()))
            },
            None => {
                proof { lemma_find_from(v@, '/', 2); }
                assert(find_from(u, '/', 0) is None) by {
                    lemma_find_none(u, '/', 0);
                }
                (string_of(v.as_slice(), 2, v.len()), String::new())
            },
        };
        assert(user@ == user_part(u) && rest@ == rest_part(u));
        proof {
            reveal_strlit("..");
            reveal_strlit(".");
            assert(".."@ =~= dot_dot());
            assert("."@ =~= seq!['.']);
        }
        if user.unicode_len() == 0 || same_text(user.as_str(), "..") || same_text(user.as_str(), ".")
            || !is_safe_rel(rest.as_str()) {
            return None;
        }
        let mut r = String::new();
        push_str(&mut r, "/home/");
        push_str(&mut r, user.as_str());
        push_str(&mut r, "/public_gemini/");
        push_str(&mut r, rest.as_str());
        proof {
            reveal_strlit("/home/");
            reveal_strlit("/public_gemini/");
            assert("/home/"@ =~= home_root());
            assert("/public_gemini/"@ =~= public_dir());
        }
        Some(r)
    } else {
        let s = trim_start_slashes_at(&v);
        let trimmed = string_of(v.as_slice(), s, v.len());
        let rel = decode_path(trimmed.as_str());
        if !is_safe_rel(rel.as_str()) {
            return None;
        }
        Some(join_paths(srv.dir.as_str(), rel.as_str()))
    }
}

proof fn lemma_find_from_none_before(s: Seq<char>, c: char, i: int, k: int, j: int)
    requires
        0 <= i <= j < k,
        find_from(s, c, i) == Some(k),
    ensures
        s[j] != c,
    decreases k - i,
{
    if i < j {
        lemma_find_from_none_before(s, c, i + 1, k, j);
    }
}

proof fn lemma_find_first(s: Seq<char>, c: char, i: int, k: int)
    requires
        0 <= i <= k < s.len(),
        s[k] == c,
        forall|j: int| i <= j < k ==> s[j] != c,
    ensures
        find_from(s, c, i) == Some(k),
    decreases k - i,
{
    if i < k {
        lemma_find_first(s, c, i + 1, k);
    }
}

proof fn lemma_find_none(s: Seq<char>, c: char, i: int)
    requires
        0 <= i,
        forall|j: int| i <= j < s.len() ==> s[j] != c,
    ensures
        find_from(s, c, i) is None,
    decreases s.len() - i,
{
    if i < s.len() {
        lemma_find_none(s, c, i + 1);
    }
}

} // verus!

verus! {

/// Where the router sends a request.
pub enum Route {
    /// Answer at once with this status and meta (the status's reason where absent).
    Respond { status: Status, meta: Option<String> },
    /// Relay to the reverse-proxy backend at this address.
    Proxy { backend: String },
    /// Hand to the SCGI backend at this address.
    Scgi { backend: String },
    /// Look up this file-system path.
    Serve { path: String },
}

/// The mathematical value of a [`Route`].
pub enum RouteView {
    Respond { status: Status, meta: Option<Seq<char>> },
    Proxy { backend: Seq<char> },
    Scgi { backend: Seq<char> },
    Serve { path: Seq<char> },
}

impl View for Route {
    type V = RouteView;

    open spec fn view(&self) -> RouteView {
        match self {
            Route::Respond { status, meta } => RouteView::Respond {
                status: *status,
                meta: match meta {
                    Some(m) => Some(m@),
                    None => None,
                },
            },
            Route::Proxy { backend } => RouteView::Proxy { backend: backend@ },
            Route::Scgi { backend } => RouteView::Scgi { backend: backend@ },
            Route::Serve { path } => RouteView::Serve { path: path@ },
        }
    }
}

/// The first segment of a path that starts with `/`: up to the next `/`.
pub open spec fn first_segment(path: Seq<char>) -> Seq<char> {
    match find_from(path, '/', 1) {
        Some(i) => path.subrange(1, i),
        None => path.subrange(1, path.len() as int),
    }
}

/// The reverse-proxy backend for a path: the one mapped to its first segment.
pub open spec fn proxy_backend(srv: ServerView, path: Seq<char>) -> Option<Seq<char>> {
    if path.len() > 0 && path[0] == '/' {
        lookup_opt(srv.proxy, first_segment(path))
    } else {
        None
    }
}

/// The host, port and scheme of a URL are the ones this virtual host serves.
pub open spec fn serves_url(srv: ServerView, port: u16, u: UrlView) -> bool {
    &&& u.host == Some(srv.hostname)
    &&& (u.port matches Some(p) ==> p == port)
    &&& u.scheme == gemini_scheme()
}

/// Where a parsed request goes, checked in order: a URL this host does not
/// serve is refused; then come the redirects, the reverse proxies, the SCGI
/// backends, and last the file system.
pub open spec fn route_spec(srv: ServerView, port: u16, u: UrlView) -> RouteView {
    if !serves_url(srv, port, u) {
        RouteView::Respond { status: Status::ProxyRequestRefused, meta: None }
    } else if let Some(t) = lookup_opt(srv.redirect, trim_end_slashes(u.path)) {
        RouteView::Respond { status: Status::RedirectTemporary, meta: Some(t) }
    } else if let Some(b) = proxy_backend(srv, u.path) {
        RouteView::Proxy { backend: b }
    } else if let Some(b) = lookup_opt(srv.scgi, trim_end_slashes(u.path)) {
        RouteView::Scgi { backend: b }
    } else if let Some(p) = resolve_spec(srv, u.path) {
        RouteView::Serve { path: p }
    } else {
        RouteView::Respond { status: Status::NotFound, meta: None }
    }
}

/// Whether the URL's host, port and scheme are the ones this virtual host serves.
pub fn serves(srv: &ServerCfg, url: &ParsedUrl) -> (r: bool)
    ensures
        r == serves_url(srv.server@, srv.port, url@),
{
    let host_ok = match &url.host {
        Some(h) => same_text(h.as_str(), srv.server.hostname.as_str()),
        None => false,
    };
    let port_ok = match url.port {
        Some(p) => p == srv.port,
        None => true,
    };
    proof {
        reveal_strlit("gemini");
        assert("gemini"@ =~= gemini_scheme());
    }
    host_ok && port_ok && same_text(url.scheme.as_str(), "gemini")
}

/// Where a parsed request goes.
pub fn route_url(srv: &ServerCfg, url: &ParsedUrl) -> (r: Route)
    ensures
        r@ == route_spec(srv.server@, srv.port, url@),
{
    if !serves(srv, url) {
        return Route::Respond { status: Status::ProxyRequestRefused, meta: None };
    }
    let trimmed = trim_end_slashes_of(url.path.as_str());
    if let Some(t) = lookup_in(&srv.server.redirect, trimmed.as_str()) {
        return Route::Respond { status: Status::RedirectTemporary, meta: Some(t.clone()) };
    }
    let v = chars_of(url.path.as_str());
    if v.len() > 0 && v[0] == '/' {
        proof { lemma_find_from(v@, '/', 1); }
        let end = match find_char(&v, '/', 1) {
            Some(i) => i,
            None => v.len(),
        };
        let seg = string_of(v.as_slice(), 1, end);
        assert(seg@ == first_segment(url@.path));
        if let Some(b) = lookup_in(&srv.server.proxy, seg.as_str()) {
            return Route::Proxy { backend: b.clone() };
        }
    }
    if let Some(b) = lookup_in(&srv.server.scgi, trimmed.as_str()) {
        return Route::Scgi { backend: b.clone() };
    }
    match resolve_path(&srv.server, url.path.as_str()) {
        Some(p) => Route::Serve { path: p },
        None => Route::Respond { status: Status::NotFound, meta: None },
    }
}

/// A request as read and routed.
pub struct Handled {
    /// The request line as normalised; empty where the bytes were not text.
    pub line: String,
    pub url: Option<ParsedUrl>,
    pub route: Route,
}

/// What the router makes of the bytes read from a connection; none where the
/// read failed or timed out.
pub open spec fn handle_spec(srv: ServerView, port: u16, raw: Option<Seq<u8>>) -> (Seq<char>, Option<UrlView>, RouteView) {
    let bad = RouteView::Respond { status: Status::BadRequest, meta: None };
    match raw {
        None => (Seq::empty(), None, bad),
        Some(b) => if !valid_utf8(b) {
            (Seq::empty(), None, bad)
        } else {
            let line = normalize_spec(decode_utf8(b));
            match parsed_url_of(line) {
                None => (line, None, bad),
                Some(u) => (line, Some(u), route_spec(srv, port, u)),
            }
        },
    }
}

pub open spec fn opt_bytes(raw: Option<&[u8]>) -> Option<Seq<u8>> {
    match raw {
        Some(b) => Some(b@),
        None => None,
    }
}

pub open spec fn opt_url(u: Option<ParsedUrl>) -> Option<UrlView> {
    match u {
        Some(x) => Some(x@),
        None => None,
    }
}

/// Reads, normalises, parses and routes a request: the bytes that came in, or
/// none where the read failed or timed out.
pub fn handle_request(srv: &ServerCfg, raw: Option<&[u8]>) -> (r: Handled)
    ensures
        (r.line@, opt_url(r.url), r.route@) == handle_spec(srv.server@, srv.port, opt_bytes(raw)),
{
    let bad = Route::Respond { status: Status::BadRequest, meta: None };
    let b = match raw {
        None => return Handled { line: String::new(), url: None, route: bad },
        Some(b) => b,
    };
    let text = match utf8_text(b) {
        None => return Handled { line: String::new(), url: None, route: bad },
        Some(t) => t,
    };
    let line = normalize_request(text.as_str());
    match parse_url(line.as_str()) {
        None => Handled { line, url: None, route: bad },
        Some(u) => {
            let route = route_url(srv, &u);
            Handled { line, url: Some(u), route }
        },
    }
}

} // verus!

verus! {

/// A request whose URL names another host than the virtual host that the
/// handshake selected is refused as a proxy request, before any path is
/// looked at: the route is a response, not a lookup or a gateway.
pub proof fn lemma_foreign_host_refused(srv: ServerView, port: u16, raw: Seq<u8>, u: UrlView)
    requires
        valid_utf8(raw),
        parsed_url_of(normalize_spec(decode_utf8(raw))) == Some(u),
        u.host != Some(srv.hostname),
    ensures
        handle_spec(srv, port, Some(raw)).2 == (RouteView::Respond {
            status: Status::ProxyRequestRefused,
            meta: None,
        }),
        route_spec(srv, port, u) == (RouteView::Respond {
            status: Status::ProxyRequestRefused,
            meta: None,
        }),
{
}

} // verus!
