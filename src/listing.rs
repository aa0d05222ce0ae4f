use vstd::prelude::*;
use crate::files::world_readable;
use crate::text::{push_str, chars_of, texts};
use crate::urls::{ParsedUrl, joined_url_of, join_url};

verus! {

/// An entry of a directory, as the file system reports it.
pub struct DirEntry {
    pub name: String,
    pub is_dir: bool,
    /// The permission bits.
    pub mode: u32,
}

/// `a` sorts strictly before `b`, comparing characters by their code.
pub open spec fn lex_lt(a: Seq<char>, b: Seq<char>) -> bool
    decreases a.len(),
{
    if b.len() == 0 {
        false
    } else if a.len() == 0 {
        true
    } else if a[0] != b[0] {
        (a[0] as u32) < (b[0] as u32)
    } else {
        lex_lt(a.drop_first(), b.drop_first())
    }
}

/// Whether `a` sorts strictly before `b`.
pub fn less_than(a: &str, b: &str) -> (r: bool)
    ensures
        r == lex_lt(a@, b@),
{
    let x = chars_of(a);
    let y = chars_of(b);
    let mut i: usize = 0;
    assert(x@.subrange(0, x@.len() as int) =~= a@);
    assert(y@.subrange(0, y@.len() as int) =~= b@);
    while i < x.len() && i < y.len() && x[i] == y[i]
        invariant
            i <= x@.len(),
            i <= y@.len(),
            lex_lt(a@, b@) == lex_lt(x@.subrange(i as int, x@.len() as int), y@.subrange(i as int, y@.len() as int)),
        decreases x@.len() - i,
    {
        assert(x@.subrange(i as int, x@.len() as int).drop_first() =~= x@.subrange(i + 1, x@.len() as int));
        assert(y@.subrange(i as int, y@.len() as int).drop_first() =~= y@.subrange(i + 1, y@.len() as int));
        i = i + 1;
    }
    if i == y.len() {
        false
    } else if i == x.len() {
        true
    } else {
        assert(x@.subrange(i as int, x@.len() as int)[0] == x@[i as int]);
        assert(y@.subrange(i as int, y@.len() as int)[0] == y@[i as int]);
        (x[i] as u32) < (y[i] as u32)
    }
}

/// The first index at or after `i` of a name that `x` sorts strictly before.
pub open spec fn insert_pos(s: Seq<Seq<char>>, x: Seq<char>, i: int) -> int
    decreases s.len() - i,
{
    if i < 0 || i >= s.len() {
        s.len() as int
    } else if lex_lt(x, s[i]) {
        i
    } else {
        insert_pos(s, x, i + 1)
    }
}

/// `x` put into `s` after every name that does not sort after it.
pub open spec fn insert_sorted(s: Seq<Seq<char>>, x: Seq<char>) -> Seq<Seq<char>> {
    s.insert(insert_pos(s, x, 0), x)
}

/// The names in sorted order, equal names in the order they came.
pub open spec fn sort_names(s: Seq<Seq<char>>) -> Seq<Seq<char>>
    decreases s.len(),
{
    if s.len() == 0 {
        Seq::empty()
    } else {
        insert_sorted(sort_names(s.drop_last()), s.last())
    }
}

proof fn lemma_insert_pos(s: Seq<Seq<char>>, x: Seq<char>, i: int)
    requires
        0 <= i <= s.len(),
    ensures
        i <= insert_pos(s, x, i) <= s.len(),
    decreases s.len() - i,
{
    if i < s.len() && !lex_lt(x, s[i]) {
        lemma_insert_pos(s, x, i + 1);
    }
}

pub proof fn lemma_sort_len(s: Seq<Seq<char>>)
    ensures
        sort_names(s).len() == s.len(),
    decreases s.len(),
{
    if s.len() > 0 {
        lemma_sort_len(s.drop_last());
        lemma_insert_pos(sort_names(s.drop_last()), s.last(), 0);
    }
}


/// The names sorted.
pub fn sorted(names: Vec<String>) -> (r: Vec<String>)
    ensures
        texts(r@) == sort_names(texts(names@)),
{
    let mut r: Vec<String> = Vec::new();
    let ghost all = texts(names@);
    let n = names.len();
    let mut names = names;
    let mut rest: Vec<String> = Vec::new();
    let mut k: usize = 0;
    assert(texts(r@) =~= sort_names(all.subrange(0, 0)));
    while k < n
        invariant
            n == names@.len(),
            all == texts(names@),
            k <= n,
            texts(r@) == sort_names(all.subrange(0, k as int)),
        decreases n - k,
    {
        let ghost before = texts(r@);
        let x = names[k].clone();
        proof { lemma_sort_len(all.subrange(0, k as int)); }
        let mut j: usize = 0;
        while j < r.len() && !less_than(x.as_str(), r[j].as_str())
            invariant
                j <= r@.len(),
                before == texts(r@),
                insert_pos(before, x@, 0) == insert_pos(before, x@, j as int),
            decreases r@.len() - j,
        {
            j = j + 1;
        }
        proof { lemma_insert_pos(before, x@, j as int); }
        let ghost xv = x@;
        r.insert(j, x);
        assert(texts(r@) =~= before.insert(j as int, xv));
        let ghost sub = all.subrange(0, k as int + 1);
        assert(sub.drop_last() =~= all.subrange(0, k as int));
        assert(sub.last() == xv);
        k = k + 1;
    }
    assert(all.subrange(0, n as int) =~= all);
    r
}

/// The names of the entries that are listed: those others may read, of
/// directories or else of files, whose link resolves against the base URL.
pub open spec fn listed_names(base: Seq<char>, es: Seq<DirEntry>, dirs: bool) -> Seq<Seq<char>>
    decreases es.len(),
{
    if es.len() == 0 {
        Seq::empty()
    } else {
        let init = listed_names(base, es.drop_last(), dirs);
        let e = es.last();
        if world_readable(e.mode) && e.is_dir == dirs && joined_url_of(base, e.name@) is Some {
            init.push(e.name@)
        } else {
            init
        }
    }
}

/// The link line of one entry: `=> `, the link, a space and the name; a
/// directory's link and name end in `/`.
pub open spec fn link_line(base: Seq<char>, name: Seq<char>, dir: bool) -> Seq<char> {
    let link = joined_url_of(base, name)->Some_0;
    if dir {
        "=> "@ + link + "/ "@ + name + "/\r\n"@
    } else {
        "=> "@ + link + " "@ + name + "\r\n"@
    }
}

/// The link lines of the names, in order.
pub open spec fn link_lines(base: Seq<char>, names: Seq<Seq<char>>, dir: bool) -> Seq<char>
    decreases names.len(),
{
    if names.len() == 0 {
        Seq::empty()
    } else {
        link_lines(base, names.drop_last(), dir) + link_line(base, names.last(), dir)
    }
}

/// The heading of a listing and the line with the URL path.
pub open spec fn listing_head(path: Seq<char>) -> Seq<char> {
    "# Directory Listing\r\n\r\n"@ + "Path: "@ + path + "\r\n\r\n"@
}

/// A directory listing: the heading, then a link line per listed entry,
/// directories first, each group sorted by name.
pub open spec fn listing_spec(u_serialization: Seq<char>, u_path: Seq<char>, es: Seq<DirEntry>) -> Seq<char> {
    listing_head(u_path) + link_lines(
        u_serialization,
        sort_names(listed_names(u_serialization, es, true)),
        true,
    ) + link_lines(u_serialization, sort_names(listed_names(u_serialization, es, false)), false)
}

fn listed(url: &ParsedUrl, entries: &Vec<DirEntry>, dirs: bool) -> (r: Vec<String>)
    ensures
        texts(r@) == listed_names(url@.serialization, entries@, dirs),
{
    let mut r: Vec<String> = Vec::new();
    let mut i: usize = 0;
    while i < entries.len()
        invariant
            i <= entries@.len(),
            texts(r@) == listed_names(url@.serialization, entries@.subrange(0, i as int), dirs),
        decreases entries@.len() - i,
    {
        let ghost sub = entries@.subrange(0, i as int + 1);
        assert(sub.drop_last() =~= entries@.subrange(0, i as int));
        assert(sub.last() == entries@[i as int]);
        let e = &entries[i];
        if crate::files::is_world_readable(e.mode) && e.is_dir == dirs {
            match join_url(url.serialization.as_str(), e.name.as_str()) {
                Some(_) => {
                    let ghost before = texts(r@);
                    r.push(e.name.clone());
                    assert(texts(r@) =~= before.push(e.name@));
                },
                None => {},
            }
        }
        i = i + 1;
    }
    assert(entries@.subrange(0, entries@.len() as int) =~= entries@);
    r
}

fn push_lines(out: &mut String, url: &ParsedUrl, names: &Vec<String>, dir: bool)
    requires
        forall|i: int| 0 <= i < names@.len() ==> joined_url_of(url@.serialization, #[trigger] names@[i]@) is Some,
    ensures
        final(out)@ == old(out)@ + link_lines(url@.serialization, texts(names@), dir),
{
    let mut i: usize = 0;
    assert(texts(names@).subrange(0, 0) =~= Seq::<Seq<char>>::empty());
    while i < names.len()
        invariant
            i <= names@.len(),
            forall|i: int| 0 <= i < names@.len() ==> joined_url_of(url@.serialization, #[trigger] names@[i]@) is Some,
            out@ == old(out)@ + link_lines(url@.serialization, texts(names@).subrange(0, i as int), dir),
        decreases names@.len() - i,
    {
        let ghost sub = texts(names@).subrange(0, i as int + 1);
        assert(sub.drop_last() =~= texts(names@).subrange(0, i as int));
        assert(sub.last() == names@[i as int]@);
        let ghost before = out@;
        let link = match join_url(url.serialization.as_str(), names[i].as_str()) {
            Some(l) => l,
            None => {
                assert(false);
                String::new()
            },
        };
        push_str(out, "=> ");
        push_str(out, link.as_str());
        if dir {
            push_str(out, "/ ");
        } else {
            push_str(out, " ");
        }
        push_str(out, names[i].as_str());
        if dir {
            push_str(out, "/\r\n");
        } else {
            push_str(out, "\r\n");
        }
        assert(out@ =~= before + link_line(url@.serialization, names@[i as int]@, dir));
        i = i + 1;
    }
    assert(texts(names@).subrange(0, names@.len() as int) =~= texts(names@));
}

proof fn lemma_listed_join(base: Seq<char>, es: Seq<DirEntry>, dirs: bool)
    ensures
        forall|i: int| 0 <= i < listed_names(base, es, dirs).len() ==> joined_url_of(base, #[trigger] listed_names(base, es, dirs)[i]) is Some,
    decreases es.len(),
{
    if es.len() > 0 {
        lemma_listed_join(base, es.drop_last(), dirs);
    }
}

proof fn lemma_sort_members(s: Seq<Seq<char>>)
    ensures
        forall|i: int| 0 <= i < sort_names(s).len() ==> s.contains(#[trigger] sort_names(s)[i]),
    decreases s.len(),
{
    if s.len() > 0 {
        let init = s.drop_last();
        lemma_sort_members(init);
        let t = sort_names(init);
        let p = insert_pos(t, s.last(), 0);
        lemma_insert_pos(t, s.last(), 0);
        assert forall|i: int| 0 <= i < sort_names(s).len() implies s.contains(#[trigger] sort_names(s)[i]) by {
            let r = t.insert(p, s.last());
            if i < p {
                assert(r[i] == t[i]);
                let k = choose|k: int| 0 <= k < init.len() && init[k] == t[i];
                assert(s[k] == init[k]);
            } else if i == p {
                assert(s[s.len() - 1] == s.last());
            } else {
                assert(r[i] == t[i - 1]);
                let k = choose|k: int| 0 <= k < init.len() && init[k] == t[i - 1];
                assert(s[k] == init[k]);
            }
        }
    }
}

/// The listing of a directory with these entries, at this URL.
pub fn directory_listing(url: &ParsedUrl, entries: &Vec<DirEntry>) -> (r: String)
    ensures
        r@ == listing_spec(url@.serialization, url@.path, entries@),
{
    let ghost base = url@.serialization;
    let dirs = sorted(listed(url, entries, true));
    let files = sorted(listed(url, entries, false));
    proof {
        lemma_listed_join(base, entries@, true);
        lemma_listed_join(base, entries@, false);
        lemma_sort_members(listed_names(base, entries@, true));
        lemma_sort_members(listed_names(base, entries@, false));
        assert forall|i: int| 0 <= i < dirs@.len() implies joined_url_of(base, #[trigger] dirs@[i]@) is Some by {
            assert(texts(dirs@)[i] == dirs@[i]@);
            let s = listed_names(base, entries@, true);
            let k = choose|k: int| 0 <= k < s.len() && s[k] == sort_names(s)[i];
        }
        assert forall|i: int| 0 <= i < files@.len() implies joined_url_of(base, #[trigger] files@[i]@) is Some by {
            assert(texts(files@)[i] == files@[i]@);
            let s = listed_names(base, entries@, false);
            let k = choose|k: int| 0 <= k < s.len() && s[k] == sort_names(s)[i];
        }
    }
    let mut r = String::from_str("# Directory Listing\r\n\r\n");
    push_str(&mut r, "Path: ");
    push_str(&mut r, url.path.as_str());
    push_str(&mut r, "\r\n\r\n");
    push_lines(&mut r, url, &dirs, true);
    push_lines(&mut r, url, &files, false);
    r
}

} // verus!

verus! {

/// No name sorts strictly before one that precedes it.
pub open spec fn is_sorted(s: Seq<Seq<char>>) -> bool {
    forall|i: int, j: int| 0 <= i < j < s.len() ==> !lex_lt(#[trigger] s[j], #[trigger] s[i])
}

proof fn lemma_lex_asym(a: Seq<char>, b: Seq<char>)
    ensures
        lex_lt(a, b) ==> !lex_lt(b, a),
    decreases a.len(),
{
    if a.len() > 0 && b.len() > 0 && a[0] == b[0] {
        lemma_lex_asym(a.drop_first(), b.drop_first());
    }
}

proof fn lemma_lex_trans(a: Seq<char>, b: Seq<char>, c: Seq<char>)
    ensures
        lex_lt(a, b) && lex_lt(b, c) ==> lex_lt(a, c),
    decreases a.len(),
{
    if a.len() > 0 && b.len() > 0 && c.len() > 0 && a[0] == b[0] && b[0] == c[0] {
        lemma_lex_trans(a.drop_first(), b.drop_first(), c.drop_first());
    }
}

proof fn lemma_insert_pos_facts(t: Seq<Seq<char>>, x: Seq<char>, i: int)
    requires
        0 <= i <= t.len(),
    ensures
        i <= insert_pos(t, x, i) <= t.len(),
        forall|k: int| i <= k < insert_pos(t, x, i) ==> !lex_lt(x, #[trigger] t[k]),
        insert_pos(t, x, i) < t.len() ==> lex_lt(x, t[insert_pos(t, x, i)]),
    decreases t.len() - i,
{
    if i < t.len() && !lex_lt(x, t[i]) {
        lemma_insert_pos_facts(t, x, i + 1);
    }
}

proof fn lemma_insert_sorted(t: Seq<Seq<char>>, x: Seq<char>)
    requires
        is_sorted(t),
    ensures
        is_sorted(insert_sorted(t, x)),
{
    let p = insert_pos(t, x, 0);
    lemma_insert_pos_facts(t, x, 0);
    let r = t.insert(p, x);
    assert forall|i: int, j: int| 0 <= i < j < r.len() implies !lex_lt(#[trigger] r[j], #[trigger] r[i]) by {
        if j < p {
            assert(r[i] == t[i] && r[j] == t[j]);
        } else if j == p {
            assert(r[i] == t[i]);
            assert(!lex_lt(x, t[i]));
        } else if i < p {
            assert(r[i] == t[i] && r[j] == t[j - 1]);
        } else if i == p {
            assert(r[j] == t[j - 1]);
            lemma_lex_asym(x, t[p]);
            if j - 1 > p {
                assert(!lex_lt(t[j - 1], t[p]));
                lemma_lex_trans(t[j - 1], x, t[p]);
            }
        } else {
            assert(r[i] == t[i - 1] && r[j] == t[j - 1]);
        }
    }
}

proof fn lemma_sort_sorted(s: Seq<Seq<char>>)
    ensures
        is_sorted(sort_names(s)),
    decreases s.len(),
{
    if s.len() > 0 {
        lemma_sort_sorted(s.drop_last());
        lemma_insert_sorted(sort_names(s.drop_last()), s.last());
    }
}

/// A listing is determined by the entries it is made of: the same entries
/// give the same listing, byte for byte. Its directories come first, then
/// its files, and each of the two groups is in sorted order of names.
pub proof fn lemma_listing_order(base: Seq<char>, path: Seq<char>, es: Seq<DirEntry>)
    ensures
        listing_spec(base, path, es) == listing_head(path) + link_lines(
            base,
            sort_names(listed_names(base, es, true)),
            true,
        ) + link_lines(base, sort_names(listed_names(base, es, false)), false),
        is_sorted(sort_names(listed_names(base, es, true))),
        is_sorted(sort_names(listed_names(base, es, false))),
{
    lemma_sort_sorted(listed_names(base, es, true));
    lemma_sort_sorted(listed_names(base, es, false));
}

} // verus!

verus! {

broadcast use vstd::seq_lib::group_to_multiset_ensures;

proof fn lemma_lex_total(a: Seq<char>, b: Seq<char>)
    requires
        !lex_lt(a, b),
        !lex_lt(b, a),
    ensures
        a == b,
    decreases a.len(),
{
    if a.len() > 0 && b.len() > 0 {
        if a[0] == b[0] {
            lemma_lex_total(a.drop_first(), b.drop_first());
            assert(a =~= seq![a[0]] + a.drop_first());
            assert(b =~= seq![b[0]] + b.drop_first());
        } else {
            vstd::utf8::char_u32_cast(a[0], a[0] as u32);
            vstd::utf8::char_u32_cast(b[0], b[0] as u32);
        }
    } else {
        assert(a.len() == 0 && b.len() == 0);
        assert(a =~= b);
    }
}

proof fn lemma_sort_multiset(s: Seq<Seq<char>>)
    ensures
        sort_names(s).to_multiset() == s.to_multiset(),
    decreases s.len(),
{
    if s.len() > 0 {
        lemma_sort_multiset(s.drop_last());
        let t = sort_names(s.drop_last());
        lemma_insert_pos(t, s.last(), 0);
        vstd::seq_lib::to_multiset_insert(t, insert_pos(t, s.last(), 0), s.last());
        assert(s.drop_last().push(s.last()) =~= s);
    }
}

proof fn lemma_sorted_unique(a: Seq<Seq<char>>, b: Seq<Seq<char>>)
    requires
        is_sorted(a),
        is_sorted(b),
        a.to_multiset() == b.to_multiset(),
    ensures
        a == b,
    decreases a.len(),
{
    assert(a.to_multiset().len() == a.len());
    assert(b.to_multiset().len() == b.len());
    if a.len() == 0 {
        assert(b.len() == 0);
        assert(a =~= b);
    } else {
        let n = a.len() as int;
        let x = a.last();
        let y = b.last();
        assert(b.to_multiset().count(y) > 0) by {
            assert(b.contains(y)) by {
                assert(b[b.len() - 1] == y);
            }
        }
        assert(a.to_multiset().count(y) > 0);
        assert(a.contains(y));
        let k = choose|k: int| 0 <= k < a.len() && a[k] == y;
        if k != n - 1 {
            assert(!lex_lt(a[n - 1], a[k]));
        }
        assert(a.contains(x)) by {
            assert(a[n - 1] == x);
        }
        assert(a.to_multiset().count(x) > 0);
        assert(b.to_multiset().count(x) > 0);
        assert(b.contains(x));
        let m = choose|m: int| 0 <= m < b.len() && b[m] == x;
        if m != b.len() - 1 {
            assert(!lex_lt(b[b.len() - 1], b[m]));
        }
        lemma_lex_asym(x, x);
        lemma_lex_total(x, y);
        let a0 = a.drop_last();
        let b0 = b.drop_last();
        assert(a.remove(n - 1) =~= a0);
        assert(b.remove(b.len() - 1) =~= b0);
        assert(a0.to_multiset() == b0.to_multiset());
        assert(is_sorted(a0)) by {
            assert forall|i: int, j: int| 0 <= i < j < a0.len() implies !lex_lt(#[trigger] a0[j], #[trigger] a0[i]) by {
                assert(a0[i] == a[i] && a0[j] == a[j]);
            }
        }
        assert(is_sorted(b0)) by {
            assert forall|i: int, j: int| 0 <= i < j < b0.len() implies !lex_lt(#[trigger] b0[j], #[trigger] b0[i]) by {
                assert(b0[i] == b[i] && b0[j] == b[j]);
            }
        }
        lemma_sorted_unique(a0, b0);
        assert(a =~= a0.push(x));
        assert(b =~= b0.push(y));
    }
}

/// Whether an entry's name is listed among the directories (or the files).
pub open spec fn is_listed(base: Seq<char>, e: DirEntry, dirs: bool) -> bool {
    world_readable(e.mode) && e.is_dir == dirs && joined_url_of(base, e.name@) is Some
}

proof fn lemma_listed_remove(base: Seq<char>, es: Seq<DirEntry>, j: int, dirs: bool)
    requires
        0 <= j < es.len(),
    ensures
        listed_names(base, es, dirs).to_multiset() == if is_listed(base, es[j], dirs) {
            listed_names(base, es.remove(j), dirs).to_multiset().insert(es[j].name@)
        } else {
            listed_names(base, es.remove(j), dirs).to_multiset()
        },
    decreases es.len(),
{
    let n = es.len() as int;
    if j == n - 1 {
        assert(es.remove(j) =~= es.drop_last());
    } else {
        lemma_listed_remove(base, es.drop_last(), j, dirs);
        assert(es.remove(j).drop_last() =~= es.drop_last().remove(j));
        assert(es.remove(j).last() == es.last());
        assert(es.drop_last()[j] == es[j]);
        let r = listed_names(base, es.drop_last().remove(j), dirs).to_multiset();
        if is_listed(base, es[j], dirs) && is_listed(base, es.last(), dirs) {
            assert(r.insert(es[j].name@).insert(es.last().name@) =~= r.insert(es.last().name@).insert(
                es[j].name@,
            ));
        }
    }
}

proof fn lemma_listed_perm(base: Seq<char>, es1: Seq<DirEntry>, es2: Seq<DirEntry>, dirs: bool)
    requires
        es1.to_multiset() == es2.to_multiset(),
    ensures
        listed_names(base, es1, dirs).to_multiset() == listed_names(base, es2, dirs).to_multiset(),
    decreases es1.len(),
{
    assert(es1.to_multiset().len() == es1.len());
    assert(es2.to_multiset().len() == es2.len());
    if es1.len() == 0 {
        assert(es2.len() == 0);
        assert(es2 =~= es1);
    } else {
        let x = es1.last();
        assert(es1.contains(x)) by {
            assert(es1[es1.len() - 1] == x);
        }
        assert(es1.to_multiset().count(x) > 0);
        assert(es2.to_multiset().count(x) > 0);
        assert(es2.contains(x));
        let j = choose|j: int| 0 <= j < es2.len() && es2[j] == x;
        let rest2 = es2.remove(j);
        assert(es1.remove(es1.len() - 1) =~= es1.drop_last());
        assert(es1.drop_last().to_multiset() == rest2.to_multiset());
        lemma_listed_perm(base, es1.drop_last(), rest2, dirs);
        lemma_listed_remove(base, es2, j, dirs);
    }
}

/// Listings do not depend on the order in which the directory's entries
/// come: two listings of the same entries, in any order, are byte-identical.
pub proof fn lemma_listing_deterministic(base: Seq<char>, path: Seq<char>, es1: Seq<DirEntry>, es2: Seq<DirEntry>)
    requires
        es1.to_multiset() == es2.to_multiset(),
    ensures
        listing_spec(base, path, es1) == listing_spec(base, path, es2),
{
    lemma_listed_perm(base, es1, es2, true);
    lemma_listed_perm(base, es1, es2, false);
    let d1 = listed_names(base, es1, true);
    let d2 = listed_names(base, es2, true);
    let f1 = listed_names(base, es1, false);
    let f2 = listed_names(base, es2, false);
    lemma_sort_multiset(d1);
    lemma_sort_multiset(d2);
    lemma_sort_multiset(f1);
    lemma_sort_multiset(f2);
    lemma_sort_sorted(d1);
    lemma_sort_sorted(d2);
    lemma_sort_sorted(f1);
    lemma_sort_sorted(f2);
    lemma_sorted_unique(sort_names(d1), sort_names(d2));
    lemma_sorted_unique(sort_names(f1), sort_names(f2));
}

} // verus!
