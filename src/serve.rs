use vstd::prelude::*;
use crate::config::{Server, ServerView};
use crate::files::{
    FileStat, world_readable, world_executable, any_executable, is_world_readable,
    is_world_executable, is_any_executable, mime_spec, meta_spec, get_mime, content_meta,
    text_slash,
};
use crate::request::{join_path, join_paths, trim_end_slashes};
use crate::status::Status;
use crate::text::{push_char, chars_of, has_prefix, has_suffix, opt_chars};
use crate::urls::{ParsedUrl, UrlView};

verus! {

/// `index.gemini`, the index file name where none is configured.
pub open spec fn default_index() -> Seq<char> {
    seq!['i', 'n', 'd', 'e', 'x', '.', 'g', 'e', 'm', 'i', 'n', 'i']
}

/// The index file name of a virtual host.
pub open spec fn index_name(srv: ServerView) -> Seq<char> {
    match srv.index {
        Some(i) => i,
        None => default_index(),
    }
}

/// Whether the virtual host runs CGI scripts.
pub open spec fn cgi_enabled(srv: ServerView) -> bool {
    srv.cgi == Some(true)
}

/// What to do after looking up the path that a request resolved to.
pub enum FileStep {
    /// Answer at once.
    Respond { status: Status, meta: Option<String> },
    /// The path is missing: look for a CGI script among its ancestors.
    SearchCgi,
    /// The path is a directory: look up its index file at this path.
    CheckIndex { index_path: String },
    /// The path names an existing resource.
    Resource { path: String, stat: FileStat },
}

/// The mathematical value of a [`FileStep`].
pub enum FileStepView {
    Respond { status: Status, meta: Option<Seq<char>> },
    SearchCgi,
    CheckIndex { index_path: Seq<char> },
    Resource { path: Seq<char>, stat: FileStat },
}

impl View for FileStep {
    type V = FileStepView;

    open spec fn view(&self) -> FileStepView {
        match self {
            FileStep::Respond { status, meta } => FileStepView::Respond {
                status: *status,
                meta: opt_chars(*meta),
            },
            FileStep::SearchCgi => FileStepView::SearchCgi,
            FileStep::CheckIndex { index_path } => FileStepView::CheckIndex {
                index_path: index_path@,
            },
            FileStep::Resource { path, stat } => FileStepView::Resource {
                path: path@,
                stat: *stat,
            },
        }
    }
}

/// After the lookup of `path`: a missing path is not found unless a CGI script
/// may claim it; a directory named without a trailing slash is redirected to
/// the URL with the slash; another directory is served through its index.
pub open spec fn lookup_spec(srv: ServerView, u: UrlView, path: Seq<char>, stat: Option<FileStat>) -> FileStepView {
    match stat {
        None => if cgi_enabled(srv) {
            FileStepView::SearchCgi
        } else {
            FileStepView::Respond { status: Status::NotFound, meta: None }
        },
        Some(st) => if st.is_dir && !has_suffix(u.path, seq!['/']) {
            FileStepView::Respond {
                status: Status::RedirectPermanent,
                meta: Some(u.serialization.push('/')),
            }
        } else if st.is_dir {
            FileStepView::CheckIndex { index_path: join_path(path, index_name(srv)) }
        } else {
            FileStepView::Resource { path, stat: st }
        },
    }
}

/// What to do after looking up `path`, which the request resolved to.
pub fn on_lookup(srv: &Server, url: &ParsedUrl, path: &str, stat: Option<FileStat>) -> (r: FileStep)
    ensures
        r@ == lookup_spec(srv@, url@, path@, stat),
{
    match stat {
        None => {
            if srv.cgi == Some(true) {
                FileStep::SearchCgi
            } else {
                FileStep::Respond { status: Status::NotFound, meta: None }
            }
        },
        Some(st) => {
            let p = chars_of(url.path.as_str());
            let slash = p.len() > 0 && p[p.len() - 1] == '/';
            assert(slash == has_suffix(url@.path, seq!['/'])) by {
                let n = p@.len();
                if n > 0 {
                    if p@[n - 1] == '/' {
                        assert(p@.subrange(n - 1, n as int) =~= seq!['/']);
                    }
                    if has_suffix(url@.path, seq!['/']) {
                        assert(p@.subrange(n - 1, n as int)[0] == p@[n - 1]);
                    }
                }
            }
            if st.is_dir && !slash {
                let mut m = url.serialization.clone();
                push_char(&mut m, '/');
                FileStep::Respond { status: Status::RedirectPermanent, meta: Some(m) }
            } else if st.is_dir {
                proof {
                    reveal_strlit("index.gemini");
                    assert("index.gemini"@ =~= default_index());
                }
                let idx = match &srv.index {
                    Some(i) => join_paths(path, i.as_str()),
                    None => join_paths(path, "index.gemini"),
                };
                FileStep::CheckIndex { index_path: idx }
            } else {
                FileStep::Resource { path: String::from_str(path), stat: st }
            }
        },
    }
}

/// The resource a directory stands for: its index file where that exists and
/// others may read it, else the directory itself.
pub open spec fn index_spec(
    dir: Seq<char>,
    dir_stat: FileStat,
    index_path: Seq<char>,
    index_stat: Option<FileStat>,
) -> (Seq<char>, FileStat) {
    match index_stat {
        Some(s) => if world_readable(s.mode) {
            (index_path, s)
        } else {
            (dir, dir_stat)
        },
        None => (dir, dir_stat),
    }
}

/// The resource a directory stands for, after the lookup of its index file.
pub fn on_index(dir: &str, dir_stat: FileStat, index_path: &str, index_stat: Option<FileStat>) -> (r: (
    String,
    FileStat,
))
    ensures
        (r.0@, r.1) == index_spec(dir@, dir_stat, index_path@, index_stat),
{
    match index_stat {
        Some(s) => {
            if is_world_readable(s.mode) {
                (String::from_str(index_path), s)
            } else {
                (String::from_str(dir), dir_stat)
            }
        },
        None => (String::from_str(dir), dir_stat),
    }
}

/// `path` lies in the directory `root` or is that directory.
pub open spec fn within(path: Seq<char>, root: Seq<char>) -> bool {
    let r = trim_end_slashes(root);
    path == r || has_prefix(path, r.push('/'))
}

/// What the CGI policy says of an existing resource.
#[derive(Debug, Clone, Copy, PartialEq, Eq, Structural)]
pub enum CgiVerdict {
    /// Run it as a script.
    Run,
    /// It lies where scripts live but may not be run: not found.
    Refuse,
    /// Not a script: serve it as content, if at all.
    Decline,
}

/// The CGI policy: where a script directory is configured, whatever lies in it
/// is a script, run where others may execute it; where none is, every regular
/// file that others may execute is a script.
pub open spec fn cgi_spec(srv: ServerView, path: Seq<char>, stat: FileStat) -> CgiVerdict {
    if !cgi_enabled(srv) {
        CgiVerdict::Decline
    } else {
        match srv.cgipath {
            Some(c) => if within(path, c) {
                if world_executable(stat.mode) {
                    CgiVerdict::Run
                } else {
                    CgiVerdict::Refuse
                }
            } else {
                CgiVerdict::Decline
            },
            None => if stat.is_file && world_executable(stat.mode) {
                CgiVerdict::Run
            } else {
                CgiVerdict::Decline
            },
        }
    }
}

/// Whether `path` lies in the directory `root`.
pub fn is_within(path: &str, root: &str) -> (r: bool)
    ensures
        r == within(path@, root@),
{
    let r0 = crate::request::trim_end_slashes_of(root);
    if crate::text::same_text(path, r0.as_str()) {
        return true;
    }
    let mut pre = r0.clone();
    push_char(&mut pre, '/');
    starts_with(path, pre.as_str())
}

/// Whether `p` is a prefix of `s`.
pub fn starts_with(s: &str, p: &str) -> (r: bool)
    ensures
        r == has_prefix(s@, p@),
{
    let n = s.unicode_len();
    let m = p.unicode_len();
    if m > n {
        return false;
    }
    let mut i: usize = 0;
    while i < m
        invariant
            n == s@.len(),
            m == p@.len(),
            m <= n,
            i <= m,
            s@.subrange(0, i as int) == p@.subrange(0, i as int),
        decreases m - i,
    {
        if s.get_char(i) != p.get_char(i) {
            assert(s@.subrange(0, m as int)[i as int] != p@[i as int]);
            return false;
        }
        assert(s@.subrange(0, i as int + 1) == s@.subrange(0, i as int).push(s@[i as int]));
        assert(p@.subrange(0, i as int + 1) == p@.subrange(0, i as int).push(p@[i as int]));
        i = i + 1;
    }
    assert(p@.subrange(0, m as int) == p@);
    true
}

/// What the CGI policy says of the resource at `path`.
pub fn cgi_policy(srv: &Server, path: &str, stat: FileStat) -> (r: CgiVerdict)
    ensures
        r == cgi_spec(srv@, path@, stat),
{
    if srv.cgi != Some(true) {
        return CgiVerdict::Decline;
    }
    match &srv.cgipath {
        Some(c) => {
            if is_within(path, c.as_str()) {
                if is_world_executable(stat.mode) {
                    CgiVerdict::Run
                } else {
                    CgiVerdict::Refuse
                }
            } else {
                CgiVerdict::Decline
            }
        },
        None => {
            if stat.is_file && is_world_executable(stat.mode) {
                CgiVerdict::Run
            } else {
                CgiVerdict::Decline
            }
        },
    }
}

/// How content goes out.
#[derive(Debug, Clone, Copy, PartialEq, Eq, Structural)]
pub enum Delivery {
    /// Not text: streamed in chunks after the status line.
    Binary,
    /// A directory: a listing is generated.
    Listing,
    /// A text file, read whole.
    Text,
}

/// How a resource that no script claimed is answered.
pub enum Content {
    Respond { status: Status },
    Deliver { kind: Delivery, meta: String },
}

/// A resource that no script claimed: executable files and what others may
/// not read are not found; the rest goes out by its media type.
pub open spec fn content_spec(srv: ServerView, path: Seq<char>, stat: FileStat) -> (Option<Status>, Delivery, Seq<char>) {
    let mime = mime_spec(stat.is_dir, path);
    let meta = meta_spec(mime, srv.lang);
    if stat.is_file && any_executable(stat.mode) {
        (Some(Status::NotFound), Delivery::Text, Seq::empty())
    } else if !world_readable(stat.mode) {
        (Some(Status::NotFound), Delivery::Text, Seq::empty())
    } else if !has_prefix(mime, text_slash()) {
        (None, Delivery::Binary, meta)
    } else if stat.is_dir {
        (None, Delivery::Listing, meta)
    } else {
        (None, Delivery::Text, meta)
    }
}

pub open spec fn content_view(c: Content) -> (Option<Status>, Delivery, Seq<char>) {
    match c {
        Content::Respond { status } => (Some(status), Delivery::Text, Seq::empty()),
        Content::Deliver { kind, meta } => (None, kind, meta@),
    }
}

/// How a resource that no script claimed is answered.
pub fn content_for(srv: &Server, path: &str, stat: FileStat) -> (r: Content)
    ensures
        content_view(r) == content_spec(srv@, path@, stat),
{
    if stat.is_file && is_any_executable(stat.mode) {
        return Content::Respond { status: Status::NotFound };
    }
    if !is_world_readable(stat.mode) {
        return Content::Respond { status: Status::NotFound };
    }
    let mime = get_mime(stat.is_dir, path);
    let meta = content_meta(mime.as_str(), &srv.lang);
    proof {
        reveal_strlit("text/");
        assert("text/"@ =~= text_slash());
    }
    if !starts_with(mime.as_str(), "text/") {
        Content::Deliver { kind: Delivery::Binary, meta }
    } else if stat.is_dir {
        Content::Deliver { kind: Delivery::Listing, meta }
    } else {
        Content::Deliver { kind: Delivery::Text, meta }
    }
}

} // verus!

verus! {

/// What becomes of an existing resource.
pub enum ResourceStep {
    /// Run the script at this path.
    RunCgi,
    /// Answer with this status.
    Respond { status: Status },
    /// Send the content.
    Deliver { kind: Delivery, meta: String },
}

/// An existing resource: a script runs where the CGI policy says so; one the
/// policy refuses is not found; everything else is content.
pub open spec fn resource_spec(srv: ServerView, path: Seq<char>, stat: FileStat) -> (Option<Status>, Delivery, Seq<char>, bool) {
    match cgi_spec(srv, path, stat) {
        CgiVerdict::Run => (None, Delivery::Text, Seq::empty(), true),
        CgiVerdict::Refuse => (Some(Status::NotFound), Delivery::Text, Seq::empty(), false),
        CgiVerdict::Decline => {
            let c = content_spec(srv, path, stat);
            (c.0, c.1, c.2, false)
        },
    }
}

pub open spec fn resource_view(r: ResourceStep) -> (Option<Status>, Delivery, Seq<char>, bool) {
    match r {
        ResourceStep::RunCgi => (None, Delivery::Text, Seq::empty(), true),
        ResourceStep::Respond { status } => (Some(status), Delivery::Text, Seq::empty(), false),
        ResourceStep::Deliver { kind, meta } => (None, kind, meta@, false),
    }
}

/// What becomes of the existing resource at `path`.
pub fn on_resource(srv: &Server, path: &str, stat: FileStat) -> (r: ResourceStep)
    ensures
        resource_view(r) == resource_spec(srv@, path@, stat),
{
    match cgi_policy(srv, path, stat) {
        CgiVerdict::Run => ResourceStep::RunCgi,
        CgiVerdict::Refuse => ResourceStep::Respond { status: Status::NotFound },
        CgiVerdict::Decline => match content_for(srv, path, stat) {
            Content::Respond { status } => ResourceStep::Respond { status },
            Content::Deliver { kind, meta } => ResourceStep::Deliver { kind, meta },
        },
    }
}

/// A directory named by a URL path without a trailing slash is answered with
/// a permanent redirect to the same URL with the slash appended, and nothing
/// is read from it.
pub proof fn lemma_directory_redirect(srv: ServerView, u: UrlView, path: Seq<char>, stat: FileStat)
    requires
        stat.is_dir,
        !has_suffix(u.path, seq!['/']),
    ensures
        lookup_spec(srv, u, path, Some(stat)) == (FileStepView::Respond {
            status: Status::RedirectPermanent,
            meta: Some(u.serialization.push('/')),
        }),
{
}

/// Nothing that others may not read is served, and no executable regular
/// file is served as content: unless the CGI policy runs it, it is not found.
/// A missing path that no script claims is not found either.
pub proof fn lemma_not_found(srv: ServerView, u: UrlView, path: Seq<char>, stat: FileStat)
    ensures
        !cgi_enabled(srv) ==> lookup_spec(srv, u, path, None) == (FileStepView::Respond {
            status: Status::NotFound,
            meta: None,
        }),
        cgi_spec(srv, path, stat) != CgiVerdict::Run && (!world_readable(stat.mode) || (stat.is_file
            && any_executable(stat.mode))) ==> resource_spec(srv, path, stat).0 == Some(
            Status::NotFound,
        ),
        stat.is_file && world_executable(stat.mode) && cgi_spec(srv, path, stat) != CgiVerdict::Run
            ==> resource_spec(srv, path, stat).0 == Some(Status::NotFound),
{
    let m = stat.mode;
    assert(m & 1u32 != 0 ==> m & 73u32 != 0) by (bit_vector);
}

} // verus!

verus! {

/// Whether the entry that the ancestor search found is run as a script: only
/// where it exists and the CGI policy runs it. Otherwise the missing path that
/// led to the search is not found.
pub fn runs_found_script(srv: &Server, path: &str, stat: Option<FileStat>) -> (r: bool)
    ensures
        r == (stat matches Some(st) && cgi_spec(srv@, path@, st) == CgiVerdict::Run),
{
    match stat {
        Some(st) => match cgi_policy(srv, path, st) {
            CgiVerdict::Run => true,
            _ => false,
        },
        None => false,
    }
}

} // verus!
