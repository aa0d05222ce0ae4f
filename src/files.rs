use vstd::prelude::*;
use crate::request::trim_end_slashes;
use crate::text::{push_char, push_str, chars_of, string_of, same_text, opt_chars};

verus! {

/// What a file-system lookup found at a path.
#[derive(Debug, Clone, Copy, PartialEq, Eq, Structural)]
pub struct FileStat {
    pub is_dir: bool,
    pub is_file: bool,
    /// The permission bits.
    pub mode: u32,
}

/// Others may read the entry.
pub open spec fn world_readable(mode: u32) -> bool {
    mode & 4u32 != 0
}

/// Others may execute the entry.
pub open spec fn world_executable(mode: u32) -> bool {
    mode & 1u32 != 0
}

/// Someone may execute the entry.
pub open spec fn any_executable(mode: u32) -> bool {
    mode & 73u32 != 0
}

/// Whether others may read an entry with these permission bits.
pub fn is_world_readable(mode: u32) -> (r: bool)
    ensures
        r == world_readable(mode),
{
    mode & 4u32 != 0
}

/// Whether others may execute an entry with these permission bits.
pub fn is_world_executable(mode: u32) -> (r: bool)
    ensures
        r == world_executable(mode),
{
    mode & 1u32 != 0
}

/// Whether anyone may execute an entry with these permission bits.
pub fn is_any_executable(mode: u32) -> (r: bool)
    ensures
        r == any_executable(mode),
{
    mode & 73u32 != 0
}

/// The last index before `end` where `s` holds `c`.
pub open spec fn find_last(s: Seq<char>, c: char, end: int) -> Option<int>
    decreases end,
{
    if end <= 0 || end > s.len() {
        None
    } else if s[end - 1] == c {
        Some(end - 1)
    } else {
        find_last(s, c, end - 1)
    }
}

pub proof fn lemma_find_last(s: Seq<char>, c: char, end: int)
    requires
        0 <= end <= s.len(),
    ensures
        find_last(s, c, end) matches Some(j) ==> 0 <= j < end && s[j] == c,
    decreases end,
{
    if end > 0 && s[end - 1] != c {
        lemma_find_last(s, c, end - 1);
    }
}

/// The last index before `end` where `v` holds `c`.
pub fn rfind_char(v: &Vec<char>, c: char, end: usize) -> (r: Option<usize>)
    requires
        end <= v@.len(),
    ensures
        match r {
            Some(j) => find_last(v@, c, end as int) == Some(j as int) && j < end,
            None => find_last(v@, c, end as int) is None,
        },
{
    let mut e: usize = end;
    while e > 0
        invariant
            e <= end <= v@.len(),
            find_last(v@, c, end as int) == find_last(v@, c, e as int),
        decreases e,
    {
        if v[e - 1] == c {
            return Some(e - 1);
        }
        e = e - 1;
    }
    None
}

/// The last component of a path.
pub open spec fn file_name(p: Seq<char>) -> Seq<char> {
    let t = trim_end_slashes(p);
    match find_last(t, '/', t.len() as int) {
        Some(i) => t.subrange(i + 1, t.len() as int),
        None => t,
    }
}

/// The extension of a file name: what follows its last dot, where something
/// precedes that dot.
pub open spec fn extension_of(name: Seq<char>) -> Option<Seq<char>> {
    if name == seq!['.', '.'] {
        None
    } else {
        match find_last(name, '.', name.len() as int) {
            Some(i) => if i == 0 {
                None
            } else {
                Some(name.subrange(i + 1, name.len() as int))
            },
            None => None,
        }
    }
}

/// The parent of a path: what precedes its last component.
pub open spec fn parent_path(p: Seq<char>) -> Seq<char> {
    let t = trim_end_slashes(p);
    match find_last(t, '/', t.len() as int) {
        Some(i) => if i == 0 {
            seq!['/']
        } else {
            t.subrange(0, i)
        },
        None => Seq::empty(),
    }
}

/// The file name of a path.
pub fn file_name_of(p: &str) -> (r: String)
    ensures
        r@ == file_name(p@),
{
    let t0 = crate::request::trim_end_slashes_of(p);
    let t = chars_of(t0.as_str());
    proof { lemma_find_last(t@, '/', t@.len() as int); }
    match rfind_char(&t, '/', t.len()) {
        Some(i) => string_of(t.as_slice(), i + 1, t.len()),
        None => string_of(t.as_slice(), 0, t.len()),
    }
}

/// The parent of a path.
pub fn parent_of(p: &str) -> (r: String)
    ensures
        r@ == parent_path(p@),
{
    let t0 = crate::request::trim_end_slashes_of(p);
    let t = chars_of(t0.as_str());
    proof { lemma_find_last(t@, '/', t@.len() as int); }
    match rfind_char(&t, '/', t.len()) {
        Some(i) => {
            if i == 0 {
                let mut r = String::new();
                push_char(&mut r, '/');
                assert(r@ =~= seq!['/']);
                r
            } else {
                string_of(t.as_slice(), 0, i)
            }
        },
        None => String::new(),
    }
}

/// The extension of a file name.
pub fn extension(name: &str) -> (r: Option<String>)
    ensures
        opt_chars(r) == extension_of(name@),
{
    let v = chars_of(name);
    if v.len() == 2 && v[0] == '.' && v[1] == '.' {
        assert(name@ =~= seq!['.', '.']);
        return None;
    }
    assert(name@ != seq!['.', '.']) by {
        if name@ == seq!['.', '.'] {
            assert(v@.len() == 2 && v@[0] == '.' && v@[1] == '.');
        }
    }
    proof { lemma_find_last(v@, '.', v@.len() as int); }
    match rfind_char(&v, '.', v.len()) {
        Some(i) => {
            if i == 0 {
                None
            } else {
                Some(string_of(v.as_slice(), i + 1, v.len()))
            }
        },
        None => None,
    }
}

/// The media type that the MIME table gives first for an extension.
pub uninterp spec fn mime_of(ext: Seq<char>) -> Option<Seq<char>>;

/// Relies on mime_guess::from_ext and the essence of its first guess: the
/// media type for an extension, without parameters; none for an empty one.
#[verifier::external_body]
fn guess_mime(ext: &str) -> (r: Option<String>)
    ensures
        opt_chars(r) == mime_of(ext@),
        ext@.len() == 0 ==> r is None,
{
    mime_guess::from_ext(ext).first().map(|m| m.essence_str().to_string())
}

pub open spec fn text_gemini() -> Seq<char> {
    seq!['t', 'e', 'x', 't', '/', 'g', 'e', 'm', 'i', 'n', 'i']
}

pub open spec fn text_plain() -> Seq<char> {
    seq!['t', 'e', 'x', 't', '/', 'p', 'l', 'a', 'i', 'n']
}

pub open spec fn text_slash() -> Seq<char> {
    seq!['t', 'e', 'x', 't', '/']
}

/// The media type served for a path: the native type for directories and for
/// the native extensions, plain text where the extension is missing or
/// unknown, else what the MIME table gives.
pub open spec fn mime_spec(is_dir: bool, path: Seq<char>) -> Seq<char> {
    if is_dir {
        text_gemini()
    } else {
        match extension_of(file_name(path)) {
            None => text_plain(),
            Some(e) => if e == seq!['g', 'e', 'm', 'i', 'n', 'i'] || e == seq!['g', 'm', 'i'] {
                text_gemini()
            } else {
                match mime_of(e) {
                    Some(m) => m,
                    None => text_plain(),
                }
            },
        }
    }
}

/// The media type served for a path.
pub fn get_mime(is_dir: bool, path: &str) -> (r: String)
    ensures
        r@ == mime_spec(is_dir, path@),
{
    proof {
        reveal_strlit("text/gemini");
        reveal_strlit("text/plain");
        reveal_strlit("gemini");
        reveal_strlit("gmi");
        assert("text/gemini"@ =~= text_gemini());
        assert("text/plain"@ =~= text_plain());
        assert("gemini"@ =~= seq!['g', 'e', 'm', 'i', 'n', 'i']);
        assert("gmi"@ =~= seq!['g', 'm', 'i']);
    }
    if is_dir {
        return String::from_str("text/gemini");
    }
    let name = file_name_of(path);
    match extension(name.as_str()) {
        None => String::from_str("text/plain"),
        Some(e) => {
            if same_text(e.as_str(), "gemini") || same_text(e.as_str(), "gmi") {
                String::from_str("text/gemini")
            } else {
                match guess_mime(e.as_str()) {
                    Some(m) => m,
                    None => String::from_str("text/plain"),
                }
            }
        },
    }
}

/// The meta line for content of a media type: native text carries the
/// configured language.
pub open spec fn meta_spec(mime: Seq<char>, lang: Option<Seq<char>>) -> Seq<char> {
    match lang {
        Some(l) => if mime == text_gemini() {
            mime + seq![';', ' ', 'l', 'a', 'n', 'g', '='] + l
        } else {
            mime
        },
        None => mime,
    }
}

/// The meta line for content of a media type.
pub fn content_meta(mime: &str, lang: &Option<String>) -> (r: String)
    ensures
        r@ == meta_spec(mime@, opt_chars(*lang)),
{
    proof {
        reveal_strlit("text/gemini");
        reveal_strlit("; lang=");
        assert("text/gemini"@ =~= text_gemini());
        assert("; lang="@ =~= seq![';', ' ', 'l', 'a', 'n', 'g', '=']);
    }
    let mut r = String::from_str(mime);
    if let Some(l) = lang {
        if same_text(mime, "text/gemini") {
            push_str(&mut r, "; lang=");
            push_str(&mut r, l.as_str());
        }
    }
    r
}

} // verus!
