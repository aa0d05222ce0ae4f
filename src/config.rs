use vstd::prelude::*;
use crate::text::{same_text, clone_pairs, opt_chars, opt_str};

verus! {

/// One virtual host as configured.
pub struct Server {
    pub hostname: String,
    /// The document root.
    pub dir: String,
    pub key: String,
    pub cert: String,
    /// The index file name; `index.gemini` where absent.
    pub index: Option<String>,
    /// The content language announced with native text.
    pub lang: Option<String>,
    pub cgi: Option<bool>,
    /// Where set, only scripts under this directory run.
    pub cgipath: Option<String>,
    /// Extra variables handed to gateways.
    pub cgienv: Option<Vec<(String, String)>>,
    /// Whether `/~user` paths map to users' public directories.
    pub usrdir: Option<bool>,
    /// First path segment to reverse-proxy backend.
    pub proxy: Option<Vec<(String, String)>>,
    /// Exact path to redirect target.
    pub redirect: Option<Vec<(String, String)>>,
    /// Exact path to SCGI backend address.
    pub scgi: Option<Vec<(String, String)>>,
}

/// Name/value pairs as values.
pub open spec fn pairs_of(v: Vec<(String, String)>) -> Seq<(Seq<char>, Seq<char>)> {
    v@.map_values(|p: (String, String)| (p.0@, p.1@))
}

pub open spec fn opt_pairs(o: Option<Vec<(String, String)>>) -> Option<Seq<(Seq<char>, Seq<char>)>> {
    match o {
        Some(v) => Some(pairs_of(v)),
        None => None,
    }
}

/// The mathematical value of a [`Server`].
pub struct ServerView {
    pub hostname: Seq<char>,
    pub dir: Seq<char>,
    pub key: Seq<char>,
    pub cert: Seq<char>,
    pub index: Option<Seq<char>>,
    pub lang: Option<Seq<char>>,
    pub cgi: Option<bool>,
    pub cgipath: Option<Seq<char>>,
    pub cgienv: Option<Seq<(Seq<char>, Seq<char>)>>,
    pub usrdir: Option<bool>,
    pub proxy: Option<Seq<(Seq<char>, Seq<char>)>>,
    pub redirect: Option<Seq<(Seq<char>, Seq<char>)>>,
    pub scgi: Option<Seq<(Seq<char>, Seq<char>)>>,
}

impl View for Server {
    type V = ServerView;

    open spec fn view(&self) -> ServerView {
        ServerView {
            hostname: self.hostname@,
            dir: self.dir@,
            key: self.key@,
            cert: self.cert@,
            index: opt_chars(self.index),
            lang: opt_chars(self.lang),
            cgi: self.cgi,
            cgipath: opt_chars(self.cgipath),
            cgienv: opt_pairs(self.cgienv),
            usrdir: self.usrdir,
            proxy: opt_pairs(self.proxy),
            redirect: opt_pairs(self.redirect),
            scgi: opt_pairs(self.scgi),
        }
    }
}

/// The whole configuration: where to listen, the log level and the virtual hosts.
pub struct Config {
    pub port: u16,
    pub host: String,
    pub log: Option<String>,
    pub server: Vec<Server>,
}

/// A virtual host together with the port the server listens on.
pub struct ServerCfg {
    pub port: u16,
    pub server: Server,
}

/// The virtual hosts by hostname; the first configured one is the default.
pub struct VHostTable {
    pub entries: Vec<ServerCfg>,
}

/// The log levels that a configuration may name.
#[derive(Debug, Clone, Copy, PartialEq, Eq, Structural)]
pub enum LogLevel {
    Error,
    Warn,
    Info,
}

/// The value that `key` maps to: the first pair with that name.
pub open spec fn lookup_spec(ps: Seq<(Seq<char>, Seq<char>)>, key: Seq<char>) -> Option<Seq<char>>
    decreases ps.len(),
{
    if ps.len() == 0 {
        None
    } else if ps[0].0 == key {
        Some(ps[0].1)
    } else {
        lookup_spec(ps.drop_first(), key)
    }
}

/// `lookup_spec` on an optional list; an absent list maps nothing.
pub open spec fn lookup_opt(ps: Option<Seq<(Seq<char>, Seq<char>)>>, key: Seq<char>) -> Option<Seq<char>> {
    match ps {
        Some(v) => lookup_spec(v, key),
        None => None,
    }
}

/// The value of the first pair named `key`.
pub fn lookup<'a>(ps: &'a Vec<(String, String)>, key: &str) -> (r: Option<&'a String>)
    ensures
        match r {
            Some(v) => lookup_spec(pairs_of(*ps), key@) == Some(v@),
            None => lookup_spec(pairs_of(*ps), key@) is None,
        },
{
    let ghost all = pairs_of(*ps);
    let mut i: usize = 0;
    assert(all.subrange(0, all.len() as int) == all);
    while i < ps.len()
        invariant
            i <= ps@.len(),
            all == pairs_of(*ps),
            lookup_spec(all, key@) == lookup_spec(all.subrange(i as int, all.len() as int), key@),
        decreases ps@.len() - i,
    {
        let ghost rest = all.subrange(i as int, all.len() as int);
        assert(rest.drop_first() == all.subrange(i as int + 1, all.len() as int));
        assert(rest[0] == (ps@[i as int].0@, ps@[i as int].1@));
        if same_text(ps[i].0.as_str(), key) {
            return Some(&ps[i].1);
        }
        i = i + 1;
    }
    None
}

/// `lookup` on an optional list.
pub fn lookup_in<'a>(ps: &'a Option<Vec<(String, String)>>, key: &str) -> (r: Option<&'a String>)
    ensures
        match r {
            Some(v) => lookup_opt(opt_pairs(*ps), key@) == Some(v@),
            None => lookup_opt(opt_pairs(*ps), key@) is None,
        },
{
    match ps {
        Some(v) => lookup(v, key),
        None => None,
    }
}

fn clone_opt_text(o: &Option<String>) -> (r: Option<String>)
    ensures
        r == *o,
{
    match o {
        Some(s) => Some(s.clone()),
        None => None,
    }
}

fn clone_opt_pairs(o: &Option<Vec<(String, String)>>) -> (r: Option<Vec<(String, String)>>)
    ensures
        opt_pairs(r) == opt_pairs(*o),
{
    match o {
        Some(v) => {
            let c = clone_pairs(v);
            assert(pairs_of(c) == pairs_of(*v));
            Some(c)
        },
        None => None,
    }
}

impl Server {
    /// A copy of this virtual host.
    pub fn duplicate(&self) -> (r: Server)
        ensures
            r@ == self@,
    {
        Server {
            hostname: self.hostname.clone(),
            dir: self.dir.clone(),
            key: self.key.clone(),
            cert: self.cert.clone(),
            index: clone_opt_text(&self.index),
            lang: clone_opt_text(&self.lang),
            cgi: self.cgi,
            cgipath: clone_opt_text(&self.cgipath),
            cgienv: clone_opt_pairs(&self.cgienv),
            usrdir: self.usrdir,
            proxy: clone_opt_pairs(&self.proxy),
            redirect: clone_opt_pairs(&self.redirect),
            scgi: clone_opt_pairs(&self.scgi),
        }
    }
}

/// The entry that a hostname selects: the last one configured under that name.
pub open spec fn host_index(entries: Seq<ServerCfg>, host: Seq<char>) -> Option<int>
    decreases entries.len(),
{
    if entries.len() == 0 {
        None
    } else if entries.last().server@.hostname == host {
        Some(entries.len() - 1)
    } else {
        host_index(entries.drop_last(), host)
    }
}

/// The entry that a handshake selects: the one named by its server name where
/// there is one, else the first.
pub open spec fn select_index(entries: Seq<ServerCfg>, sni: Option<Seq<char>>) -> int {
    match sni {
        Some(h) => match host_index(entries, h) {
            Some(i) => i,
            None => 0,
        },
        None => 0,
    }
}

impl Config {
    /// The virtual-host table: one entry per configured server, in order, each
    /// with the listening port.
    pub fn to_map(&self) -> (r: VHostTable)
        ensures
            r.entries@.len() == self.server@.len(),
            forall|i: int|
                0 <= i < self.server@.len() ==> (#[trigger] r.entries@[i]).port == self.port
                    && r.entries@[i].server@ == self.server@[i]@,
    {
        let mut entries: Vec<ServerCfg> = Vec::new();
        let mut i: usize = 0;
        while i < self.server.len()
            invariant
                i <= self.server@.len(),
                entries@.len() == i,
                forall|j: int|
                    0 <= j < i ==> (#[trigger] entries@[j]).port == self.port
                        && entries@[j].server@ == self.server@[j]@,
            decreases self.server@.len() - i,
        {
            entries.push(ServerCfg { port: self.port, server: self.server[i].duplicate() });
            i = i + 1;
        }
        VHostTable { entries }
    }

    /// The log level that the configuration names: `info` where it names none,
    /// nothing where it names an unknown one.
    pub fn log_level(&self) -> (r: Option<LogLevel>)
        ensures
            r == log_level_spec(opt_chars(self.log)),
    {
        match &self.log {
            None => Some(LogLevel::Info),
            Some(l) => {
                if same_text(l.as_str(), "error") {
                    Some(LogLevel::Error)
                } else if same_text(l.as_str(), "warn") {
                    Some(LogLevel::Warn)
                } else if same_text(l.as_str(), "info") {
                    Some(LogLevel::Info)
                } else {
                    None
                }
            },
        }
    }
}


pub open spec fn log_level_spec(l: Option<Seq<char>>) -> Option<LogLevel> {
    match l {
        None => Some(LogLevel::Info),
        Some(s) => if s == "error"@ {
            Some(LogLevel::Error)
        } else if s == "warn"@ {
            Some(LogLevel::Warn)
        } else if s == "info"@ {
            Some(LogLevel::Info)
        } else {
            None
        },
    }
}


impl VHostTable {
    /// The virtual host that a TLS handshake selects by its server name; the
    /// first entry where the name is absent or unknown; none in an empty table.
    pub fn select(&self, sni: Option<&str>) -> (r: Option<&ServerCfg>)
        ensures
            self.entries@.len() == 0 <==> r is None,
            r matches Some(s) ==> *s == self.entries@[select_index(self.entries@, opt_str(sni))],
    {
        if self.entries.len() == 0 {
            return None;
        }
        match sni {
            None => Some(&self.entries[0]),
            Some(h) => {
                let mut i: usize = self.entries.len();
                assert(self.entries@.subrange(0, i as int) == self.entries@);
                while i > 0
                    invariant
                        i <= self.entries@.len(),
                        opt_str(sni) == Some(h@),
                        host_index(self.entries@, h@) == host_index(
                            self.entries@.subrange(0, i as int),
                            h@,
                        ),
                    decreases i,
                {
                    let ghost pre = self.entries@.subrange(0, i as int);
                    assert(pre.drop_last() == self.entries@.subrange(0, i as int - 1));
                    if same_text(self.entries[i - 1].server.hostname.as_str(), h) {
                        assert(pre.last() == self.entries@[i - 1]);
                        assert(host_index(pre, h@) == Some(i - 1));
                        assert(select_index(self.entries@, opt_str(sni)) == i - 1);
                        return Some(&self.entries[i - 1]);
                    }
                    i = i - 1;
                }
                Some(&self.entries[0])
            },
        }
    }
}

} // verus!
