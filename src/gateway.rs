use vstd::prelude::*;
use crate::config::{Server, ServerView, pairs_of};
use crate::files::{parent_path, parent_of};
use crate::request::{trim_start_slashes, find_from, find_char, lemma_find_from};
use crate::status::Status;
use crate::text::{push_char, push_str, chars_of, string_of, decimal, decimal_of, hex_upper, hex_of, same_text, opt_chars, texts};
use crate::urls::{ParsedUrl, UrlView, segments_of, split_chars};

verus! {

/// `segs` joined with `sep` between each two.
pub open spec fn join_with(segs: Seq<Seq<char>>, sep: char) -> Seq<char>
    decreases segs.len(),
{
    if segs.len() == 0 {
        Seq::empty()
    } else if segs.len() == 1 {
        segs[0]
    } else {
        join_with(segs.drop_last(), sep).push(sep) + segs.last()
    }
}


/// The search for a CGI script among the ancestors of a missing path. Each
/// step pops the last URL segment off the path and puts it in front of the
/// path info.
pub struct CgiSearch {
    /// The candidate to look up next.
    pub path: String,
    /// The URL segments not yet popped.
    pub segments: Vec<String>,
    /// The popped segments, each after a `/`.
    pub path_info: String,
}

/// The outcome of one step of the search.
pub enum SearchStep {
    /// An entry exists at `path`: it is the candidate script.
    Found { path: String, script_name: String, path_info: String },
    /// Look up the next candidate.
    Continue { search: CgiSearch },
    /// The segments ran out: nothing is there.
    NotFound,
}

/// The script name that the remaining segments give.
pub open spec fn script_name_of(segs: Seq<Seq<char>>) -> Seq<char> {
    seq!['/'] + join_with(segs, '/')
}

/// The search for a script among the ancestors of `path`, with the segments
/// of the URL path; none where the URL path has no segments.
pub fn start_search(path: &str, url: &ParsedUrl) -> (r: Option<CgiSearch>)
    ensures
        segments_of(url@.path) is None ==> r is None,
        segments_of(url@.path) matches Some(s) ==> (r matches Some(c) && c.path@ == path@
            && texts(c.segments@) == s && c.path_info@.len() == 0),
{
    let v = chars_of(url.path.as_str());
    if v.len() == 0 || v[0] != '/' {
        return None;
    }
    let segs = split_chars(&v, 1, '/');
    assert(v@.subrange(1, v@.len() as int) == url@.path.drop_first());
    assert(texts(segs@) == segs@.map_values(|x: String| x@));
    Some(CgiSearch { path: String::from_str(path), segments: segs, path_info: String::new() })
}

/// Joins strings with `/` between each two.
fn join_slash(v: &Vec<String>) -> (r: String)
    ensures
        r@ == join_with(texts(v@), '/'),
{
    let mut r = String::new();
    let mut i: usize = 0;
    while i < v.len()
        invariant
            i <= v@.len(),
            r@ == join_with(texts(v@.subrange(0, i as int)), '/'),
        decreases v@.len() - i,
    {
        let ghost pre = texts(v@.subrange(0, i as int + 1));
        assert(pre.drop_last() == texts(v@.subrange(0, i as int)));
        assert(pre.last() == v@[i as int]@);
        if i > 0 {
            push_char(&mut r, '/');
        } else {
            assert(texts(v@.subrange(0, 0)) =~= Seq::<Seq<char>>::empty());
        }
        push_str(&mut r, v[i].as_str());
        i = i + 1;
    }
    assert(v@.subrange(0, v@.len() as int) == v@);
    r
}

impl CgiSearch {
    /// One step of the search, given whether an entry exists at `self.path`.
    pub fn step(self, exists: bool) -> (r: SearchStep)
        ensures
            exists ==> (r matches SearchStep::Found { path, script_name, path_info } && path@
                == self.path@ && script_name@ == script_name_of(texts(self.segments@))
                && path_info@ == self.path_info@),
            !exists && self.segments@.len() == 0 ==> r is NotFound,
            !exists && self.segments@.len() > 0 ==> (r matches SearchStep::Continue { search }
                && search.path@ == parent_path(self.path@) && texts(search.segments@) == texts(
                self.segments@,
            ).drop_last() && search.path_info@ == seq!['/'] + texts(self.segments@).last()
                + self.path_info@),
    {
        let CgiSearch { path, mut segments, path_info } = self;
        if exists {
            let mut s = String::new();
            push_char(&mut s, '/');
            let j = join_slash(&segments);
            push_str(&mut s, j.as_str());
            assert(s@ =~= script_name_of(texts(segments@)));
            return SearchStep::Found { path, script_name: s, path_info };
        }
        if segments.len() == 0 {
            return SearchStep::NotFound;
        }
        let ghost old_segs = segments@;
        let last = segments.pop().unwrap();
        assert(texts(segments@) =~= texts(old_segs).drop_last());
        let mut info = String::new();
        push_char(&mut info, '/');
        push_str(&mut info, last.as_str());
        push_str(&mut info, path_info.as_str());
        assert(info@ =~= seq!['/'] + texts(old_segs).last() + path_info@);
        let parent = parent_of(path.as_str());
        SearchStep::Continue { search: CgiSearch { path: parent, segments, path_info: info } }
    }
}

} // verus!

verus! {

/// The remote end of a connection.
pub struct Peer {
    /// The IP address, in its usual notation.
    pub addr: String,
    pub port: u16,
}

/// What the gateways read of a client certificate.
pub struct ClientCert {
    /// The common names of its subject, in order.
    pub common_names: Vec<String>,
    /// The SHA-256 digest of the certificate.
    pub sha256: Vec<u8>,
}

/// The first index at or after `i` of a variable named `k`.
pub open spec fn key_from(env: Seq<(Seq<char>, Seq<char>)>, k: Seq<char>, i: int) -> Option<int>
    decreases env.len() - i,
{
    if i < 0 || i >= env.len() {
        None
    } else if env[i].0 == k {
        Some(i)
    } else {
        key_from(env, k, i + 1)
    }
}

/// `env` with `k` set to `v`: in its place where `k` is there, else at the end.
pub open spec fn env_insert(env: Seq<(Seq<char>, Seq<char>)>, k: Seq<char>, v: Seq<char>) -> Seq<(Seq<char>, Seq<char>)> {
    match key_from(env, k, 0) {
        Some(i) => env.update(i, (k, v)),
        None => env.push((k, v)),
    }
}

/// `env` with each pair of `ps` set in turn.
pub open spec fn insert_all(env: Seq<(Seq<char>, Seq<char>)>, ps: Seq<(Seq<char>, Seq<char>)>) -> Seq<(Seq<char>, Seq<char>)>
    decreases ps.len(),
{
    if ps.len() == 0 {
        env
    } else {
        let e = insert_all(env, ps.drop_last());
        env_insert(e, ps.last().0, ps.last().1)
    }
}

proof fn lemma_key_from(env: Seq<(Seq<char>, Seq<char>)>, k: Seq<char>, i: int)
    requires
        0 <= i,
    ensures
        key_from(env, k, i) matches Some(j) ==> i <= j < env.len(),
    decreases env.len() - i,
{
    if i < env.len() && env[i].0 != k {
        lemma_key_from(env, k, i + 1);
    }
}

/// Sets the variable `k` to `v`.
pub fn set_var(env: &mut Vec<(String, String)>, k: String, v: String)
    ensures
        pairs_of(*final(env)) == env_insert(pairs_of(*old(env)), k@, v@),
{
    let ghost e = pairs_of(*env);
    proof { lemma_key_from(e, k@, 0); }
    let mut i: usize = 0;
    while i < env.len()
        invariant
            i <= env@.len(),
            e == pairs_of(*env),
            e == pairs_of(*old(env)),
            key_from(e, k@, 0) == key_from(e, k@, i as int),
        decreases env@.len() - i,
    {
        if same_text(env[i].0.as_str(), k.as_str()) {
            assert(e[i as int].0 == k@);
            assert(key_from(e, k@, i as int) == Some(i as int));
            let ghost kv = (k@, v@);
            assert(env_insert(e, k@, v@) == e.update(i as int, kv));
            env.set(i, (k, v));
            assert(pairs_of(*env) =~= e.update(i as int, kv));
            return;
        }
        i = i + 1;
    }
    env.push((k, v));
    assert(pairs_of(*env) =~= e.push((k@, v@)));
}

/// Sets each pair of `ps` in turn.
pub fn set_vars(env: &mut Vec<(String, String)>, ps: Vec<(String, String)>)
    ensures
        pairs_of(*final(env)) == insert_all(pairs_of(*old(env)), pairs_of(ps)),
{
    let ghost e0 = pairs_of(*env);
    let n = ps.len();
    let mut i: usize = 0;
    while i < n
        invariant
            n == ps@.len(),
            i <= n,
            pairs_of(*env) == insert_all(e0, pairs_of(ps).subrange(0, i as int)),
        decreases n - i,
    {
        let ghost sub = pairs_of(ps).subrange(0, i as int + 1);
        assert(sub.drop_last() == pairs_of(ps).subrange(0, i as int));
        let k = ps[i].0.clone();
        let v = ps[i].1.clone();
        set_var(env, k, v);
        i = i + 1;
    }
    assert(pairs_of(ps).subrange(0, n as int) == pairs_of(ps));
}

pub open spec fn cert_pairs(c: ClientCert) -> Seq<(Seq<char>, Seq<char>)> {
    seq![("AUTH_TYPE"@, "Certificate"@)] + texts(c.common_names@).map_values(
        |n: Seq<char>| ("REMOTE_USER"@, n),
    ) + seq![("TLS_CLIENT_HASH"@, "SHA256:"@ + hex_of(c.sha256@))]
}

/// The variables every gateway gets, in the order they are set.
pub open spec fn base_pairs(peer: Peer, cert: Option<ClientCert>, u: UrlView) -> Seq<(Seq<char>, Seq<char>)> {
    let fixed = seq![
        ("GATEWAY_INTERFACE"@, "CGI/1.1"@),
        ("GEMINI_URL"@, u.serialization),
        ("SERVER_NAME"@, match u.host {
            Some(h) => h,
            None => Seq::empty(),
        }),
        ("SERVER_PROTOCOL"@, "GEMINI"@),
        ("REMOTE_ADDR"@, peer.addr@),
        ("REMOTE_HOST"@, peer.addr@),
        ("REMOTE_PORT"@, decimal_of(peer.port as nat)),
        ("SERVER_SOFTWARE"@, "agena"@),
    ];
    let query = match u.query {
        Some(q) => seq![("QUERY_STRING"@, q)],
        None => Seq::empty(),
    };
    let certs = match cert {
        Some(c) => cert_pairs(c),
        None => Seq::empty(),
    };
    fixed + query + certs
}

/// The environment of a gateway: the common variables, then the extra ones of
/// the virtual host, each set in turn so that a later one replaces an earlier.
pub open spec fn gateway_env_spec(peer: Peer, cert: Option<ClientCert>, srv: ServerView, u: UrlView) -> Seq<(Seq<char>, Seq<char>)> {
    let extra = match srv.cgienv {
        Some(e) => e,
        None => Seq::empty(),
    };
    insert_all(Seq::empty(), base_pairs(peer, cert, u) + extra)
}

fn push_pair(ps: &mut Vec<(String, String)>, k: &str, v: String)
    ensures
        pairs_of(*final(ps)) == pairs_of(*old(ps)).push((k@, v@)),
{
    ps.push((String::from_str(k), v));
    assert(pairs_of(*ps) =~= pairs_of(*old(ps)).push((k@, v@)));
}

/// The environment of a gateway.
pub fn gateway_env(peer: &Peer, cert: &Option<ClientCert>, srv: &Server, url: &ParsedUrl) -> (r: Vec<(String, String)>)
    ensures
        pairs_of(r) == gateway_env_spec(*peer, *cert, srv@, url@),
{
    let mut ps: Vec<(String, String)> = Vec::new();
    push_pair(&mut ps, "GATEWAY_INTERFACE", String::from_str("CGI/1.1"));
    push_pair(&mut ps, "GEMINI_URL", url.serialization.clone());
    let host = match &url.host {
        Some(h) => h.clone(),
        None => String::new(),
    };
    push_pair(&mut ps, "SERVER_NAME", host);
    push_pair(&mut ps, "SERVER_PROTOCOL", String::from_str("GEMINI"));
    push_pair(&mut ps, "REMOTE_ADDR", peer.addr.clone());
    push_pair(&mut ps, "REMOTE_HOST", peer.addr.clone());
    push_pair(&mut ps, "REMOTE_PORT", decimal(peer.port as u64));
    push_pair(&mut ps, "SERVER_SOFTWARE", String::from_str("agena"));
    let ghost fixed = pairs_of(ps);
    if let Some(q) = &url.query {
        push_pair(&mut ps, "QUERY_STRING", q.clone());
    }
    let ghost with_query = pairs_of(ps);
    if let Some(c) = cert {
        push_pair(&mut ps, "AUTH_TYPE", String::from_str("Certificate"));
        let mut i: usize = 0;
        while i < c.common_names.len()
            invariant
                i <= c.common_names@.len(),
                pairs_of(ps) == with_query + seq![("AUTH_TYPE"@, "Certificate"@)] + texts(
                    c.common_names@.subrange(0, i as int),
                ).map_values(|n: Seq<char>| ("REMOTE_USER"@, n)),
            decreases c.common_names@.len() - i,
        {
            push_pair(&mut ps, "REMOTE_USER", c.common_names[i].clone());
            assert(texts(c.common_names@.subrange(0, i as int + 1)).map_values(
                |n: Seq<char>| ("REMOTE_USER"@, n),
            ) =~= texts(c.common_names@.subrange(0, i as int)).map_values(
                |n: Seq<char>| ("REMOTE_USER"@, n),
            ).push(("REMOTE_USER"@, c.common_names@[i as int]@)));
            i = i + 1;
        }
        assert(c.common_names@.subrange(0, c.common_names@.len() as int) == c.common_names@);
        let mut h = String::from_str("SHA256:");
        let hex = hex_upper(c.sha256.as_slice());
        push_str(&mut h, hex.as_str());
        push_pair(&mut ps, "TLS_CLIENT_HASH", h);
    }
    assert(pairs_of(ps) =~= base_pairs(*peer, *cert, url@));
    match &srv.cgienv {
        Some(e) => {
            let extra = crate::text::clone_pairs(e);
            let mut i: usize = 0;
            while i < extra.len()
                invariant
                    i <= extra@.len(),
                    extra@ == e@,
                    pairs_of(ps) == base_pairs(*peer, *cert, url@) + pairs_of(extra).subrange(0, i as int),
                decreases extra@.len() - i,
            {
                let k = extra[i].0.clone();
                push_pair(&mut ps, k.as_str(), extra[i].1.clone());
                assert(pairs_of(extra).subrange(0, i as int + 1) =~= pairs_of(extra).subrange(0, i as int).push(pairs_of(extra)[i as int]));
                i = i + 1;
            }
            assert(pairs_of(extra).subrange(0, extra@.len() as int) == pairs_of(*e));
        },
        None => {
            assert(base_pairs(*peer, *cert, url@) + Seq::empty() == base_pairs(*peer, *cert, url@));
        },
    }
    let mut env: Vec<(String, String)> = Vec::new();
    assert(pairs_of(env) =~= Seq::empty());
    set_vars(&mut env, ps);
    env
}

} // verus!

verus! {

/// What the leading byte of a gateway's output says.
#[derive(Debug, Clone, Copy, PartialEq, Eq, Structural)]
pub enum Verdict {
    /// Relay the output as it is, logging it with this status where there is one.
    Relay { log: Option<Status> },
    /// The output does not start with a status digit: a gateway error.
    Reject,
}

/// The output of a gateway must start with a status category digit, `1` to
/// `6`. Input and success are logged as such, a permanent failure as a
/// gateway error; the others pass without a log of their own.
pub open spec fn verdict_spec(out: Seq<u8>) -> Verdict {
    if out.len() == 0 {
        Verdict::Reject
    } else if out[0] == 49u8 {
        Verdict::Relay { log: Some(Status::Input) }
    } else if out[0] == 50u8 {
        Verdict::Relay { log: Some(Status::Success) }
    } else if out[0] == 53u8 {
        Verdict::Relay { log: Some(Status::CGIError) }
    } else if out[0] == 51u8 || out[0] == 52u8 || out[0] == 54u8 {
        Verdict::Relay { log: None }
    } else {
        Verdict::Reject
    }
}

/// Checks the leading status digit of a gateway's output.
pub fn check(out: &[u8]) -> (r: Verdict)
    ensures
        r == verdict_spec(out@),
{
    if out.len() == 0 {
        return Verdict::Reject;
    }
    let b = out[0];
    if b == 49u8 {
        Verdict::Relay { log: Some(Status::Input) }
    } else if b == 50u8 {
        Verdict::Relay { log: Some(Status::Success) }
    } else if b == 53u8 {
        Verdict::Relay { log: Some(Status::CGIError) }
    } else if b == 51u8 || b == 52u8 || b == 54u8 {
        Verdict::Relay { log: None }
    } else {
        Verdict::Reject
    }
}

/// How a CGI script's run ended.
pub enum ProcessResult {
    /// It could not be started.
    SpawnFailed,
    /// It ran past the time limit and was killed.
    TimedOut,
    /// It exited, successfully or not, with this standard output.
    Exited { success: bool, stdout: Vec<u8> },
}

/// How an exchange with a network backend ended.
pub enum BackendResult {
    /// The address did not resolve, or the connection or handshake failed.
    ConnectFailed,
    /// No complete answer came within the time limit.
    TimedOut,
    /// The whole answer, up to the backend's close.
    Received { bytes: Vec<u8> },
}

/// What a gateway's outcome becomes on the client connection.
pub enum GatewayOutcome {
    /// Send these bytes as they are, logging with the status where there is one.
    Relay { bytes: Vec<u8>, log: Option<Status> },
    /// Send this failure status.
    Fail { status: Status },
}

/// The outcome of a CGI run: anything but a successful exit whose output
/// starts with a status digit is a gateway error.
pub open spec fn cgi_outcome_spec(r: ProcessResult) -> (Option<Status>, Seq<u8>, Option<Status>) {
    match r {
        ProcessResult::Exited { success: true, stdout } => match verdict_spec(stdout@) {
            Verdict::Relay { log } => (None, stdout@, log),
            Verdict::Reject => (Some(Status::CGIError), Seq::empty(), None),
        },
        _ => (Some(Status::CGIError), Seq::empty(), None),
    }
}

/// A gateway outcome as values: the failure status, else the bytes and the log status.
pub open spec fn outcome_view(o: GatewayOutcome) -> (Option<Status>, Seq<u8>, Option<Status>) {
    match o {
        GatewayOutcome::Relay { bytes, log } => (None, bytes@, log),
        GatewayOutcome::Fail { status } => (Some(status), Seq::empty(), None),
    }
}

fn relay_checked(out: Vec<u8>) -> (r: GatewayOutcome)
    ensures
        outcome_view(r) == match verdict_spec(out@) {
            Verdict::Relay { log } => (None, out@, log),
            Verdict::Reject => (Some(Status::CGIError), Seq::<u8>::empty(), None::<Status>),
        },
{
    match check(out.as_slice()) {
        Verdict::Relay { log } => GatewayOutcome::Relay { bytes: out, log },
        Verdict::Reject => GatewayOutcome::Fail { status: Status::CGIError },
    }
}

/// What a CGI run becomes on the client connection.
pub fn cgi_outcome(r: ProcessResult) -> (o: GatewayOutcome)
    ensures
        outcome_view(o) == cgi_outcome_spec(r),
{
    match r {
        ProcessResult::Exited { success, stdout } => {
            if success {
                relay_checked(stdout)
            } else {
                GatewayOutcome::Fail { status: Status::CGIError }
            }
        },
        _ => GatewayOutcome::Fail { status: Status::CGIError },
    }
}

/// The outcome of an SCGI exchange: a connection failure or a timeout is a
/// gateway error; an answer is checked as a script's output is.
pub open spec fn scgi_outcome_spec(r: BackendResult) -> (Option<Status>, Seq<u8>, Option<Status>) {
    match r {
        BackendResult::Received { bytes } => match verdict_spec(bytes@) {
            Verdict::Relay { log } => (None, bytes@, log),
            Verdict::Reject => (Some(Status::CGIError), Seq::empty(), None),
        },
        _ => (Some(Status::CGIError), Seq::empty(), None),
    }
}

/// What an SCGI exchange becomes on the client connection.
pub fn scgi_outcome(r: BackendResult) -> (o: GatewayOutcome)
    ensures
        outcome_view(o) == scgi_outcome_spec(r),
{
    match r {
        BackendResult::Received { bytes } => relay_checked(bytes),
        _ => GatewayOutcome::Fail { status: Status::CGIError },
    }
}

/// The outcome of a reverse-proxy exchange: any failure is a proxy error; an
/// answer is relayed unmodified.
pub open spec fn proxy_outcome_spec(r: BackendResult) -> (Option<Status>, Seq<u8>, Option<Status>) {
    match r {
        BackendResult::Received { bytes } => (None, bytes@, None),
        _ => (Some(Status::ProxyError), Seq::empty(), None),
    }
}

/// What a reverse-proxy exchange becomes on the client connection.
pub fn proxy_outcome(r: BackendResult) -> (o: GatewayOutcome)
    ensures
        outcome_view(o) == proxy_outcome_spec(r),
{
    match r {
        BackendResult::Received { bytes } => GatewayOutcome::Relay { bytes, log: None },
        _ => GatewayOutcome::Fail { status: Status::ProxyError },
    }
}

/// What the reverse proxy asks its backend for: the path after its first
/// segment, as a request line; none where nothing follows the segment but
/// at most a slash.
pub open spec fn proxy_request_spec(path: Seq<char>) -> Option<Seq<char>> {
    let t = trim_start_slashes(path);
    match find_from(t, '/', 0) {
        None => None,
        Some(i) => {
            let rest = t.subrange(i + 1, t.len() as int);
            if rest.len() == 0 || rest == seq!['/'] {
                None
            } else {
                Some(rest + seq!['\r', '\n'])
            }
        },
    }
}

/// The request line that the reverse proxy sends upstream.
pub fn proxy_request(path: &str) -> (r: Option<String>)
    ensures
        opt_chars(r) == proxy_request_spec(path@),
{
    let v0 = chars_of(path);
    let start = crate::request::trim_start_slashes_at(&v0);
    let t = string_of(v0.as_slice(), start, v0.len());
    let v = chars_of(t.as_str());
    proof { lemma_find_from(v@, '/', 0); }
    match find_char(&v, '/', 0) {
        None => None,
        Some(i) => {
            let rest = string_of(v.as_slice(), i + 1, v.len());
            let n = rest.unicode_len();
            if n == 0 || (n == 1 && rest.get_char(0) == '/') {
                assert(n == 1 && rest@[0] == '/' ==> rest@ =~= seq!['/']);
                return None;
            }
            assert(rest@ != seq!['/']) by {
                if rest@ == seq!['/'] {
                    assert(rest@[0] == '/');
                }
            }
            let mut line = rest;
            push_char(&mut line, '\r');
            push_char(&mut line, '\n');
            assert(line@ =~= rest@ + seq!['\r', '\n']);
            Some(line)
        },
    }
}

/// A CGI script ready to run: the program, the directory to run it in, and
/// its whole environment.
pub struct CgiCommand {
    pub program: String,
    pub dir: String,
    pub env: Vec<(String, String)>,
}

/// The environment of a CGI script: the gateway's, with the script name and
/// the path info set last.
pub open spec fn cgi_env_spec(
    peer: Peer,
    cert: Option<ClientCert>,
    srv: ServerView,
    u: UrlView,
    script_name: Seq<char>,
    path_info: Seq<char>,
) -> Seq<(Seq<char>, Seq<char>)> {
    env_insert(
        env_insert(gateway_env_spec(peer, cert, srv, u), "SCRIPT_NAME"@, script_name),
        "PATH_INFO"@,
        path_info,
    )
}

/// The command that runs the script at `path`.
pub fn cgi_command(
    peer: &Peer,
    cert: &Option<ClientCert>,
    srv: &Server,
    url: &ParsedUrl,
    path: &str,
    script_name: String,
    path_info: String,
) -> (r: CgiCommand)
    ensures
        r.program@ == path@,
        r.dir@ == parent_path(path@),
        pairs_of(r.env) == cgi_env_spec(*peer, *cert, srv@, url@, script_name@, path_info@),
{
    let mut env = gateway_env(peer, cert, srv, url);
    set_var(&mut env, String::from_str("SCRIPT_NAME"), script_name);
    set_var(&mut env, String::from_str("PATH_INFO"), path_info);
    CgiCommand { program: String::from_str(path), dir: parent_of(path), env }
}

} // verus!

verus! {

/// Two runs that ended alike: the same way, with the same output.
pub open spec fn same_run(a: ProcessResult, b: ProcessResult) -> bool {
    match (a, b) {
        (ProcessResult::SpawnFailed, ProcessResult::SpawnFailed) => true,
        (ProcessResult::TimedOut, ProcessResult::TimedOut) => true,
        (
            ProcessResult::Exited { success: s1, stdout: o1 },
            ProcessResult::Exited { success: s2, stdout: o2 },
        ) => s1 == s2 && o1@ == o2@,
        _ => false,
    }
}

/// Running a script twice with the same environment gives the same command
/// both times, and runs that end alike give byte-identical responses; a run
/// past the time limit is always a gateway error.
pub proof fn lemma_cgi_repeatable(
    peer: Peer,
    cert: Option<ClientCert>,
    srv: ServerView,
    u: UrlView,
    script_name: Seq<char>,
    path_info: Seq<char>,
    r1: ProcessResult,
    r2: ProcessResult,
)
    ensures
        cgi_env_spec(peer, cert, srv, u, script_name, path_info) == cgi_env_spec(
            peer,
            cert,
            srv,
            u,
            script_name,
            path_info,
        ),
        same_run(r1, r2) ==> cgi_outcome_spec(r1) == cgi_outcome_spec(r2),
        r1 is TimedOut ==> cgi_outcome_spec(r1).0 == Some(Status::CGIError),
{
}

} // verus!
