use vstd::prelude::*;
use crate::text::{push_char, push_str, opt_chars};

verus! {

/// What the library reads of a parsed URL, as plain values.
pub struct ParsedUrl {
    /// The whole URL as the parser serialises it.
    pub serialization: String,
    pub scheme: String,
    pub host: Option<String>,
    pub port: Option<u16>,
    pub path: String,
    pub query: Option<String>,
}

/// The mathematical value of a [`ParsedUrl`].
pub struct UrlView {
    pub serialization: Seq<char>,
    pub scheme: Seq<char>,
    pub host: Option<Seq<char>>,
    pub port: Option<u16>,
    pub path: Seq<char>,
    pub query: Option<Seq<char>>,
}


impl View for ParsedUrl {
    type V = UrlView;

    open spec fn view(&self) -> UrlView {
        UrlView {
            serialization: self.serialization@,
            scheme: self.scheme@,
            host: opt_chars(self.host),
            port: self.port,
            path: self.path@,
            query: opt_chars(self.query),
        }
    }
}

/// What the URL parser makes of a string, if it accepts it.
pub uninterp spec fn parsed_url_of(s: Seq<char>) -> Option<UrlView>;

/// The serialisation of a relative reference resolved against a base URL, if it resolves.
pub uninterp spec fn joined_url_of(base: Seq<char>, rel: Seq<char>) -> Option<Seq<char>>;

/// The name/value pairs that form-urlencoded parsing finds in some bytes.
pub uninterp spec fn form_pairs_of(b: Seq<u8>) -> Seq<(Seq<char>, Seq<char>)>;

/// Relies on url::Url::parse, and on the accessors of the parsed value, to read a URL.
#[verifier::external_body]
fn url_crate_parse(s: &str) -> (r: Option<ParsedUrl>)
    ensures
        r is None <==> parsed_url_of(s@) is None,
        r matches Some(u) ==> parsed_url_of(s@) == Some(u@),
{
    url::Url::parse(s).ok().map(|u| ParsedUrl {
        serialization: u.as_str().to_string(),
        scheme: u.scheme().to_string(),
        host: u.host_str().map(|h| h.to_string()),
        port: u.port(),
        path: u.path().to_string(),
        query: u.query().map(|q| q.to_string()),
    })
}

/// Parses a URL into the parts the library reads.
pub fn parse_url(s: &str) -> (r: Option<ParsedUrl>)
    ensures
        r is None <==> parsed_url_of(s@) is None,
        r matches Some(u) ==> parsed_url_of(s@) == Some(u@),
{
    url_crate_parse(s)
}

/// Relies on url::Url::join to resolve `rel` against the URL serialised as `base`.
#[verifier::external_body]
pub(crate) fn join_url(base: &str, rel: &str) -> (r: Option<String>)
    ensures
        r is None <==> joined_url_of(base@, rel@) is None,
        r matches Some(j) ==> joined_url_of(base@, rel@) == Some(j@),
{
    match url::Url::parse(base) {
        Ok(b) => b.join(rel).ok().map(|j| j.as_str().to_string()),
        Err(_) => None,
    }
}

pub open spec fn pairs_view(v: Seq<(String, String)>) -> Seq<(Seq<char>, Seq<char>)> {
    v.map_values(|p: (String, String)| (p.0@, p.1@))
}

/// Relies on url::form_urlencoded::parse: the decoded name/value pairs, in order.
#[verifier::external_body]
fn form_pairs(b: &[u8]) -> (r: Vec<(String, String)>)
    ensures
        pairs_view(r@) == form_pairs_of(b@),
        b@.len() == 0 ==> r@.len() == 0,
{
    url::form_urlencoded::parse(b).into_owned().collect()
}

/// Each pair's name followed by its value, all pairs in order.
pub open spec fn concat_pairs(ps: Seq<(Seq<char>, Seq<char>)>) -> Seq<char>
    decreases ps.len(),
{
    if ps.len() == 0 {
        Seq::empty()
    } else {
        concat_pairs(ps.drop_last()) + ps.last().0 + ps.last().1
    }
}

/// The text of percent-encoded bytes, decoded as form data with every name
/// and value joined together.
pub open spec fn url_decode_spec(b: Seq<u8>) -> Seq<char> {
    concat_pairs(form_pairs_of(b))
}

/// Decodes percent-encoded bytes as form data, joining every name and value.
pub fn url_decode(url: &[u8]) -> (r: String)
    ensures
        r@ == url_decode_spec(url@),
{
    let pairs = form_pairs(url);
    let mut r = String::new();
    let mut i: usize = 0;
    while i < pairs.len()
        invariant
            i <= pairs@.len(),
            pairs_view(pairs@) == form_pairs_of(url@),
            r@ == concat_pairs(pairs_view(pairs@).subrange(0, i as int)),
        decreases pairs@.len() - i,
    {
        push_str(&mut r, pairs[i].0.as_str());
        push_str(&mut r, pairs[i].1.as_str());
        proof {
            let ps = pairs_view(pairs@);
            let p = ps.subrange(0, i as int + 1);
            assert(p.drop_last() == ps.subrange(0, i as int));
            assert(p.last() == ps[i as int]);
        }
        i = i + 1;
    }
    assert(pairs_view(pairs@).subrange(0, pairs@.len() as int) == pairs_view(pairs@));
    r
}

/// `s` split at every `c`; there is always at least one piece.
pub open spec fn split_on(s: Seq<char>, c: char) -> Seq<Seq<char>>
    decreases s.len(),
{
    if s.len() == 0 {
        seq![Seq::empty()]
    } else {
        let init = split_on(s.drop_last(), c);
        if s.last() == c {
            init.push(Seq::empty())
        } else {
            init.update(init.len() - 1, init.last().push(s.last()))
        }
    }
}

/// The path segments of a URL path: what follows its leading `/`, split at
/// every `/`; none where the path does not start with `/`.
pub open spec fn segments_of(path: Seq<char>) -> Option<Seq<Seq<char>>> {
    if path.len() > 0 && path[0] == '/' {
        Some(split_on(path.drop_first(), '/'))
    } else {
        None
    }
}

/// The pieces of `s[from..]` between the occurrences of `c`.
pub(crate) fn split_chars(s: &Vec<char>, from: usize, c: char) -> (r: Vec<String>)
    requires
        from <= s@.len(),
    ensures
        r@.map_values(|x: String| x@) == split_on(s@.subrange(from as int, s@.len() as int), c),
{
    let mut r: Vec<String> = Vec::new();
    let mut cur = String::new();
    let mut i: usize = from;
    while i < s.len()
        invariant
            from <= i <= s@.len(),
            r@.map_values(|x: String| x@).push(cur@) == split_on(
                s@.subrange(from as int, i as int),
                c,
            ),
        decreases s@.len() - i,
    {
        let ghost sub = s@.subrange(from as int, i as int + 1);
        let ghost m = r@.map_values(|x: String| x@);
        let ghost init = split_on(s@.subrange(from as int, i as int), c);
        assert(sub.drop_last() == s@.subrange(from as int, i as int));
        assert(sub.last() == s@[i as int]);
        if s[i] == c {
            let done = cur;
            r.push(done);
            cur = String::new();
            assert(r@.map_values(|x: String| x@) =~= m.push(done@));
        } else {
            push_char(&mut cur, s[i]);
            assert(m.push(cur@) =~= init.update(init.len() - 1, init.last().push(s@[i as int])));
        }
        i = i + 1;
    }
    assert(s@.subrange(from as int, s@.len() as int) == s@.subrange(from as int, i as int));
    r.push(cur);
    r
}

} // verus!
