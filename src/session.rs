use vstd::prelude::*;
use crate::config::{Server, ServerView};
use crate::files::{FileStat, parent_path};
use crate::gateway::{CgiSearch, SearchStep, start_search, script_name_of};
use crate::serve::{
    Delivery, FileStep, FileStepView, ResourceStep, lookup_spec, index_spec, resource_spec,
    on_lookup, on_index, on_resource, runs_found_script, cgi_spec, CgiVerdict,
};
use crate::status::Status;
use crate::text::{opt_chars, texts};
use crate::urls::{ParsedUrl, UrlView, segments_of};

verus! {

/// What the caller learnt from the file system, as the last action asked.
pub enum FsEvent {
    /// The lookup of the path: what is there, if anything.
    Stat { stat: Option<FileStat> },
    /// Whether an entry exists at the path.
    Exists { exists: bool },
}

/// Where the serving of a path stands, waiting for the file system.
pub enum Phase {
    /// Waiting for the lookup of the resolved path.
    Lookup { path: String },
    /// Waiting for the lookup of a directory's index file.
    Index { dir: String, dir_stat: FileStat, index_path: String },
    /// Waiting to learn whether the next ancestor exists.
    Search { search: CgiSearch },
    /// Waiting for the lookup of the script that the search found.
    Candidate { path: String, script_name: String, path_info: String },
}

/// What the caller is to do next.
pub enum Action {
    /// Look up this path and report an [`FsEvent::Stat`].
    Stat { path: String },
    /// Report whether an entry exists at this path, as an [`FsEvent::Exists`].
    Exists { path: String },
    /// Answer with this status and meta; done.
    Respond { status: Status, meta: Option<String> },
    /// Run the script at this path; done.
    RunCgi { path: String, script_name: String, path_info: String },
    /// Send the content at this path; done.
    Deliver { path: String, kind: Delivery, meta: String },
}

/// The value of a [`CgiSearch`].
pub struct SearchView {
    pub path: Seq<char>,
    pub segments: Seq<Seq<char>>,
    pub path_info: Seq<char>,
}

pub enum PhaseView {
    Lookup { path: Seq<char> },
    Index { dir: Seq<char>, dir_stat: FileStat, index_path: Seq<char> },
    Search { search: SearchView },
    Candidate { path: Seq<char>, script_name: Seq<char>, path_info: Seq<char> },
}

pub enum ActionView {
    Stat { path: Seq<char> },
    Exists { path: Seq<char> },
    Respond { status: Status, meta: Option<Seq<char>> },
    RunCgi { path: Seq<char>, script_name: Seq<char>, path_info: Seq<char> },
    Deliver { path: Seq<char>, kind: Delivery, meta: Seq<char> },
}

pub open spec fn search_view(s: CgiSearch) -> SearchView {
    SearchView { path: s.path@, segments: texts(s.segments@), path_info: s.path_info@ }
}

pub open spec fn phase_view(p: Phase) -> PhaseView {
    match p {
        Phase::Lookup { path } => PhaseView::Lookup { path: path@ },
        Phase::Index { dir, dir_stat, index_path } => PhaseView::Index {
            dir: dir@,
            dir_stat,
            index_path: index_path@,
        },
        Phase::Search { search } => PhaseView::Search { search: search_view(search) },
        Phase::Candidate { path, script_name, path_info } => PhaseView::Candidate {
            path: path@,
            script_name: script_name@,
            path_info: path_info@,
        },
    }
}

pub open spec fn action_view(a: Action) -> ActionView {
    match a {
        Action::Stat { path } => ActionView::Stat { path: path@ },
        Action::Exists { path } => ActionView::Exists { path: path@ },
        Action::Respond { status, meta } => ActionView::Respond { status, meta: opt_chars(meta) },
        Action::RunCgi { path, script_name, path_info } => ActionView::RunCgi {
            path: path@,
            script_name: script_name@,
            path_info: path_info@,
        },
        Action::Deliver { path, kind, meta } => ActionView::Deliver { path: path@, kind, meta: meta@ },
    }
}

pub open spec fn opt_phase_view(p: Option<Phase>) -> Option<PhaseView> {
    match p {
        Some(x) => Some(phase_view(x)),
        None => None,
    }
}

pub open spec fn not_found() -> ActionView {
    ActionView::Respond { status: Status::NotFound, meta: None }
}

/// A search for a script among the ancestors of `path`, begun: look whether
/// the path itself exists.
pub open spec fn search_spec(u: UrlView, path: Seq<char>) -> (Option<PhaseView>, ActionView) {
    match segments_of(u.path) {
        None => (None, not_found()),
        Some(segs) => (
            Some(PhaseView::Search { search: SearchView { path, segments: segs, path_info: Seq::empty() } }),
            ActionView::Exists { path },
        ),
    }
}

/// An existing resource: a script runs with the URL's segments as its name,
/// the rest answers or goes out as content.
pub open spec fn resource_step_spec(srv: ServerView, u: UrlView, path: Seq<char>, stat: FileStat) -> (Option<PhaseView>, ActionView) {
    let r = resource_spec(srv, path, stat);
    if r.3 {
        match segments_of(u.path) {
            Some(segs) => (None, ActionView::RunCgi {
                path,
                script_name: script_name_of(segs),
                path_info: Seq::empty(),
            }),
            None => (None, not_found()),
        }
    } else {
        match r.0 {
            Some(s) => (None, ActionView::Respond { status: s, meta: None }),
            None => (None, ActionView::Deliver { path, kind: r.1, meta: r.2 }),
        }
    }
}

/// One step of serving a path. An event that does not answer the action
/// asked last ends the serving as not found.
pub open spec fn advance_spec(srv: ServerView, u: UrlView, p: PhaseView, e: FsEvent) -> (Option<PhaseView>, ActionView) {
    match (p, e) {
        (PhaseView::Lookup { path }, FsEvent::Stat { stat }) => match lookup_spec(srv, u, path, stat) {
            FileStepView::Respond { status, meta } => (None, ActionView::Respond { status, meta }),
            FileStepView::SearchCgi => search_spec(u, path),
            FileStepView::CheckIndex { index_path } => (
                Some(PhaseView::Index { dir: path, dir_stat: stat->Some_0, index_path }),
                ActionView::Stat { path: index_path },
            ),
            FileStepView::Resource { path, stat } => resource_step_spec(srv, u, path, stat),
        },
        (PhaseView::Index { dir, dir_stat, index_path }, FsEvent::Stat { stat }) => {
            let (p2, s2) = index_spec(dir, dir_stat, index_path, stat);
            resource_step_spec(srv, u, p2, s2)
        },
        (PhaseView::Search { search }, FsEvent::Exists { exists }) => if exists {
            (
                Some(PhaseView::Candidate {
                    path: search.path,
                    script_name: script_name_of(search.segments),
                    path_info: search.path_info,
                }),
                ActionView::Stat { path: search.path },
            )
        } else if search.segments.len() == 0 {
            (None, not_found())
        } else {
            let next = SearchView {
                path: parent_path(search.path),
                segments: search.segments.drop_last(),
                path_info: seq!['/'] + search.segments.last() + search.path_info,
            };
            (Some(PhaseView::Search { search: next }), ActionView::Exists { path: next.path })
        },
        (PhaseView::Candidate { path, script_name, path_info }, FsEvent::Stat { stat }) => {
            if stat matches Some(st) && cgi_spec(srv, path, st) == CgiVerdict::Run {
                (None, ActionView::RunCgi { path, script_name, path_info })
            } else {
                (None, not_found())
            }
        },
        _ => (None, not_found()),
    }
}

/// The first step of serving the path that a request resolved to.
pub fn begin(path: String) -> (r: (Phase, Action))
    ensures
        phase_view(r.0) == (PhaseView::Lookup { path: path@ }),
        action_view(r.1) == (ActionView::Stat { path: path@ }),
{
    let p = path.clone();
    (Phase::Lookup { path }, Action::Stat { path: p })
}

fn respond_not_found() -> (r: (Option<Phase>, Action))
    ensures
        opt_phase_view(r.0) is None,
        action_view(r.1) == not_found(),
{
    (None, Action::Respond { status: Status::NotFound, meta: None })
}

fn search_from(url: &ParsedUrl, path: &str) -> (r: (Option<Phase>, Action))
    ensures
        (opt_phase_view(r.0), action_view(r.1)) == search_spec(url@, path@),
{
    match start_search(path, url) {
        None => respond_not_found(),
        Some(s) => {
            let p = s.path.clone();
            assert(s.path_info@ =~= Seq::<char>::empty());
            assert(search_view(s) == SearchView { path: path@, segments: segments_of(url@.path)->Some_0, path_info: Seq::empty() });
            (Some(Phase::Search { search: s }), Action::Exists { path: p })
        },
    }
}

fn resource_step(srv: &Server, url: &ParsedUrl, path: String, stat: FileStat) -> (r: (Option<Phase>, Action))
    ensures
        (opt_phase_view(r.0), action_view(r.1)) == resource_step_spec(srv@, url@, path@, stat),
{
    match on_resource(srv, path.as_str(), stat) {
        ResourceStep::RunCgi => match start_search(path.as_str(), url) {
            None => respond_not_found(),
            Some(s) => match s.step(true) {
                SearchStep::Found { path, script_name, path_info } => {
                    assert(path_info@ =~= Seq::<char>::empty());
                    (None, Action::RunCgi { path, script_name, path_info })
                },
                _ => respond_not_found(),
            },
        },
        ResourceStep::Respond { status } => (None, Action::Respond { status, meta: None }),
        ResourceStep::Deliver { kind, meta } => (None, Action::Deliver { path, kind, meta }),
    }
}

/// One step of serving a path: the next phase, if serving goes on, and what
/// the caller is to do.
pub fn advance(srv: &Server, url: &ParsedUrl, phase: Phase, event: FsEvent) -> (r: (Option<Phase>, Action))
    ensures
        (opt_phase_view(r.0), action_view(r.1)) == advance_spec(srv@, url@, phase_view(phase), event),
{
    match (phase, event) {
        (Phase::Lookup { path }, FsEvent::Stat { stat }) => match on_lookup(srv, url, path.as_str(), stat) {
            FileStep::Respond { status, meta } => (None, Action::Respond { status, meta }),
            FileStep::SearchCgi => search_from(url, path.as_str()),
            FileStep::CheckIndex { index_path } => {
                let dir_stat = match stat {
                    Some(s) => s,
                    None => {
                        return respond_not_found();
                    },
                };
                let ip = index_path.clone();
                (Some(Phase::Index { dir: path, dir_stat, index_path }), Action::Stat { path: ip })
            },
            FileStep::Resource { path, stat } => resource_step(srv, url, path, stat),
        },
        (Phase::Index { dir, dir_stat, index_path }, FsEvent::Stat { stat }) => {
            let (p, s) = on_index(dir.as_str(), dir_stat, index_path.as_str(), stat);
            resource_step(srv, url, p, s)
        },
        (Phase::Search { search }, FsEvent::Exists { exists }) => {
            let ghost sv = search_view(search);
            match search.step(exists) {
                SearchStep::Found { path, script_name, path_info } => {
                    let p = path.clone();
                    (Some(Phase::Candidate { path, script_name, path_info }), Action::Stat { path: p })
                },
                SearchStep::Continue { search } => {
                    let p = search.path.clone();
                    assert(search_view(search).path_info == seq!['/'] + sv.segments.last() + sv.path_info);
                    (Some(Phase::Search { search }), Action::Exists { path: p })
                },
                SearchStep::NotFound => respond_not_found(),
            }
        },
        (Phase::Candidate { path, script_name, path_info }, FsEvent::Stat { stat }) => {
            if runs_found_script(srv, path.as_str(), stat) {
                (None, Action::RunCgi { path, script_name, path_info })
            } else {
                respond_not_found()
            }
        },
        _ => respond_not_found(),
    }
}

} // verus!
