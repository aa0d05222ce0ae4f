use vstd::prelude::*;
use vstd::utf8::encode_utf8;
use crate::config::pairs_of;

verus! {

/// One name/value pair of an SCGI header block: each followed by a NUL byte.
pub open spec fn entry_bytes(k: Seq<u8>, v: Seq<u8>) -> Seq<u8> {
    k + seq![0u8] + v + seq![0u8]
}

/// The header block of name/value pairs, in order.
pub open spec fn encode_pairs(ps: Seq<(Seq<u8>, Seq<u8>)>) -> Seq<u8>
    decreases ps.len(),
{
    if ps.len() == 0 {
        Seq::empty()
    } else {
        encode_pairs(ps.drop_last()) + entry_bytes(ps.last().0, ps.last().1)
    }
}

/// The ASCII decimal notation of `n`.
pub open spec fn decimal_bytes(n: nat) -> Seq<u8>
    decreases n,
{
    if n < 10 {
        seq![(48 + n) as u8]
    } else {
        decimal_bytes(n / 10).push((48 + n % 10) as u8)
    }
}

/// A netstring: the payload's length in decimal, a colon, the payload, a comma.
pub open spec fn netstring(payload: Seq<u8>) -> Seq<u8> {
    decimal_bytes(payload.len()) + seq![58u8] + payload + seq![44u8]
}

/// The pairs that head every SCGI request: no body, the protocol version,
/// the method and the requested path.
pub open spec fn scgi_head(path: Seq<char>) -> Seq<(Seq<u8>, Seq<u8>)> {
    seq![
        (encode_utf8("CONTENT_LENGTH"@), encode_utf8("0"@)),
        (encode_utf8("SCGI"@), encode_utf8("1"@)),
        (encode_utf8("REQUEST_METHOD"@), encode_utf8("POST"@)),
        (encode_utf8("REQUEST_URI"@), encode_utf8(path)),
    ]
}

/// Text pairs as their UTF-8 bytes.
pub open spec fn utf8_pairs(env: Seq<(Seq<char>, Seq<char>)>) -> Seq<(Seq<u8>, Seq<u8>)> {
    env.map_values(|p: (Seq<char>, Seq<char>)| (encode_utf8(p.0), encode_utf8(p.1)))
}

/// The pairs of an SCGI request for `path` with the gateway environment `env`.
pub open spec fn scgi_pairs(env: Seq<(Seq<char>, Seq<char>)>, path: Seq<char>) -> Seq<(Seq<u8>, Seq<u8>)> {
    scgi_head(path) + utf8_pairs(env)
}

fn push_bytes(out: &mut Vec<u8>, b: &[u8])
    ensures
        final(out)@ == old(out)@ + b@,
{
    let mut i: usize = 0;
    while i < b.len()
        invariant
            i <= b@.len(),
            out@ == old(out)@ + b@.subrange(0, i as int),
        decreases b@.len() - i,
    {
        out.push(b[i]);
        assert(out@ =~= old(out)@ + b@.subrange(0, i as int + 1));
        i = i + 1;
    }
    assert(b@.subrange(0, b@.len() as int) == b@);
}

fn push_entry(out: &mut Vec<u8>, k: &[u8], v: &[u8])
    ensures
        final(out)@ == old(out)@ + entry_bytes(k@, v@),
{
    push_bytes(out, k);
    out.push(0u8);
    push_bytes(out, v);
    out.push(0u8);
    assert(out@ =~= old(out)@ + entry_bytes(k@, v@));
}

/// Appends the ASCII decimal notation of `n`.
fn push_decimal_bytes(out: &mut Vec<u8>, n: usize)
    ensures
        final(out)@ == old(out)@ + decimal_bytes(n as nat),
    decreases n,
{
    if n >= 10 {
        push_decimal_bytes(out, n / 10);
    }
    out.push((48 + n % 10) as u8);
    proof {
        if n >= 10 {
            assert(old(out)@ + decimal_bytes(n as nat) =~= (old(out)@ + decimal_bytes((n / 10) as nat)).push(
                (48 + n % 10) as u8,
            ));
        } else {
            assert(decimal_bytes(n as nat) == seq![(48 + n) as u8]);
            assert(out@ =~= old(out)@ + decimal_bytes(n as nat));
        }
    }
}

proof fn lemma_encode_step(ps: Seq<(Seq<u8>, Seq<u8>)>, k: int)
    requires
        0 < k <= ps.len(),
    ensures
        encode_pairs(ps.subrange(0, k)) == encode_pairs(ps.subrange(0, k - 1)) + entry_bytes(
            ps[k - 1].0,
            ps[k - 1].1,
        ),
{
    let sub = ps.subrange(0, k);
    assert(sub.drop_last() =~= ps.subrange(0, k - 1));
    assert(sub.last() == ps[k - 1]);
}

/// The netstring of an SCGI request for `path` with the gateway environment `env`.
pub fn scgi_frame(env: &Vec<(String, String)>, path: &str) -> (r: Vec<u8>)
    ensures
        r@ == netstring(encode_pairs(scgi_pairs(pairs_of(*env), path@))),
{
    let ghost ps = scgi_pairs(pairs_of(*env), path@);
    let mut body: Vec<u8> = Vec::new();
    assert(ps[0] == (encode_utf8("CONTENT_LENGTH"@), encode_utf8("0"@)));
    assert(ps[1] == (encode_utf8("SCGI"@), encode_utf8("1"@)));
    assert(ps[2] == (encode_utf8("REQUEST_METHOD"@), encode_utf8("POST"@)));
    assert(ps[3] == (encode_utf8("REQUEST_URI"@), encode_utf8(path@)));
    proof {
        assert(encode_pairs(ps.subrange(0, 0)) =~= Seq::<u8>::empty());
        lemma_encode_step(ps, 1);
        lemma_encode_step(ps, 2);
        lemma_encode_step(ps, 3);
        lemma_encode_step(ps, 4);
    }
    assert(body@ =~= encode_pairs(ps.subrange(0, 0)));
    push_entry(&mut body, "CONTENT_LENGTH".as_bytes(), "0".as_bytes());
    push_entry(&mut body, "SCGI".as_bytes(), "1".as_bytes());
    push_entry(&mut body, "REQUEST_METHOD".as_bytes(), "POST".as_bytes());
    push_entry(&mut body, "REQUEST_URI".as_bytes(), path.as_bytes());
    let mut i: usize = 0;
    while i < env.len()
        invariant
            i <= env@.len(),
            ps == scgi_pairs(pairs_of(*env), path@),
            ps.len() == 4 + env@.len(),
            body@ == encode_pairs(ps.subrange(0, 4 + i)),
        decreases env@.len() - i,
    {
        proof { lemma_encode_step(ps, 4 + i + 1); }
        assert(ps[4 + i] == (encode_utf8(env@[i as int].0@), encode_utf8(env@[i as int].1@)));
        push_entry(&mut body, env[i].0.as_str().as_bytes(), env[i].1.as_str().as_bytes());
        i = i + 1;
    }
    assert(ps.subrange(0, ps.len() as int) == ps);
    let mut r: Vec<u8> = Vec::new();
    push_decimal_bytes(&mut r, body.len());
    r.push(58u8);
    push_bytes(&mut r, body.as_slice());
    r.push(44u8);
    assert(r@ =~= netstring(body@));
    r
}

} // verus!

verus! {

/// `s` split at every NUL byte; there is always at least one piece.
pub open spec fn split_nul(s: Seq<u8>) -> Seq<Seq<u8>>
    decreases s.len(),
{
    if s.len() == 0 {
        seq![Seq::empty()]
    } else {
        let init = split_nul(s.drop_last());
        if s.last() == 0u8 {
            init.push(Seq::empty())
        } else {
            init.update(init.len() - 1, init.last().push(s.last()))
        }
    }
}

/// Consecutive pieces taken two by two as name and value.
pub open spec fn group_pairs(f: Seq<Seq<u8>>) -> Seq<(Seq<u8>, Seq<u8>)>
    decreases f.len(),
{
    if f.len() < 2 {
        Seq::empty()
    } else {
        group_pairs(f.subrange(0, f.len() - 2)).push((f[f.len() - 2], f[f.len() - 1]))
    }
}

/// The name/value pairs of a header block: NUL-terminated names and values,
/// alternating; none where the block is not of that shape.
pub open spec fn decode_pairs(payload: Seq<u8>) -> Option<Seq<(Seq<u8>, Seq<u8>)>> {
    let s = split_nul(payload);
    if s.len() % 2 == 1 && s.last().len() == 0 {
        Some(group_pairs(s.drop_last()))
    } else {
        None
    }
}

/// The first index at or after `i` where `s` holds `c`.
pub open spec fn find_byte(s: Seq<u8>, c: u8, i: int) -> Option<int>
    decreases s.len() - i,
{
    if i < 0 || i >= s.len() {
        None
    } else if s[i] == c {
        Some(i)
    } else {
        find_byte(s, c, i + 1)
    }
}

/// All bytes are ASCII digits.
pub open spec fn all_digits(ds: Seq<u8>) -> bool {
    forall|i: int| 0 <= i < ds.len() ==> 48 <= #[trigger] ds[i] <= 57
}

/// The value of ASCII decimal digits.
pub open spec fn parse_decimal(ds: Seq<u8>) -> nat
    decreases ds.len(),
{
    if ds.len() == 0 {
        0
    } else {
        parse_decimal(ds.drop_last()) * 10 + (ds.last() - 48) as nat
    }
}

/// The payload of a netstring: the digits before the first colon give its
/// length, and a comma closes it; none where the bytes are not of that shape.
pub open spec fn decode_netstring(f: Seq<u8>) -> Option<Seq<u8>> {
    match find_byte(f, 58u8, 0) {
        None => None,
        Some(i) => {
            let ds = f.subrange(0, i);
            if ds.len() == 0 || !all_digits(ds) {
                None
            } else {
                let n = parse_decimal(ds);
                if f.len() == i + n + 2 && f.last() == 44u8 {
                    Some(f.subrange(i + 1, i + 1 + n))
                } else {
                    None
                }
            }
        },
    }
}

/// The pieces of `ps` listed one after another, each name before its value.
pub open spec fn flatten(ps: Seq<(Seq<u8>, Seq<u8>)>) -> Seq<Seq<u8>>
    decreases ps.len(),
{
    if ps.len() == 0 {
        Seq::empty()
    } else {
        flatten(ps.drop_last()).push(ps.last().0).push(ps.last().1)
    }
}

/// No name and no value holds a NUL byte.
pub open spec fn nul_free(ps: Seq<(Seq<u8>, Seq<u8>)>) -> bool {
    forall|i: int| 0 <= i < ps.len() ==> no_nul(#[trigger] ps[i].0) && no_nul(ps[i].1)
}

/// The bytes hold no NUL.
pub open spec fn no_nul(b: Seq<u8>) -> bool {
    forall|j: int| 0 <= j < b.len() ==> #[trigger] b[j] != 0u8
}

proof fn lemma_split_extend(p: Seq<u8>, x: Seq<u8>)
    requires
        forall|j: int| 0 <= j < x.len() ==> x[j] != 0u8,
    ensures
        split_nul(p + x) == split_nul(p).update(
            split_nul(p).len() - 1,
            split_nul(p).last() + x,
        ),
        split_nul(p + x).len() == split_nul(p).len(),
    decreases x.len(),
{
    lemma_split_len(p);
    if x.len() == 0 {
        assert(p + x =~= p);
        assert(split_nul(p).last() + x =~= split_nul(p).last());
        assert(split_nul(p).update(split_nul(p).len() - 1, split_nul(p).last()) =~= split_nul(p));
    } else {
        let x0 = x.drop_last();
        lemma_split_extend(p, x0);
        assert((p + x).drop_last() =~= p + x0);
        assert((p + x).last() == x.last());
        let s = split_nul(p);
        assert((s.last() + x0).push(x.last()) =~= s.last() + x);
        assert(s.update(s.len() - 1, s.last() + x0).update(s.len() - 1, s.last() + x) =~= s.update(
            s.len() - 1,
            s.last() + x,
        ));
    }
}

proof fn lemma_split_len(p: Seq<u8>)
    ensures
        split_nul(p).len() >= 1,
    decreases p.len(),
{
    if p.len() > 0 {
        lemma_split_len(p.drop_last());
    }
}

proof fn lemma_split_nul_end(p: Seq<u8>)
    ensures
        split_nul(p.push(0u8)) == split_nul(p).push(Seq::empty()),
{
    assert(p.push(0u8).drop_last() =~= p);
}

proof fn lemma_split_encode(ps: Seq<(Seq<u8>, Seq<u8>)>)
    requires
        nul_free(ps),
    ensures
        split_nul(encode_pairs(ps)) == flatten(ps).push(Seq::empty()),
    decreases ps.len(),
{
    if ps.len() == 0 {
        assert(split_nul(Seq::empty()) =~= seq![Seq::<u8>::empty()]);
        assert(flatten(ps).push(Seq::empty()) =~= seq![Seq::<u8>::empty()]);
    } else {
        let init = ps.drop_last();
        assert(nul_free(init)) by {
            assert forall|i: int| 0 <= i < init.len() implies no_nul(#[trigger] init[i].0) && no_nul(
                init[i].1,
            ) by {
                assert(init[i] == ps[i]);
            }
        }
        lemma_split_encode(init);
        let e = encode_pairs(init);
        let f = flatten(init);
        let (k, v) = ps.last();
        assert(no_nul(ps[ps.len() - 1].0) && no_nul(ps[ps.len() - 1].1));
        lemma_split_extend(e, k);
        assert(f.push(Seq::empty()).update(f.len() as int, Seq::<u8>::empty() + k) =~= f.push(k));
        lemma_split_nul_end(e + k);
        lemma_split_extend((e + k).push(0u8), v);
        assert(f.push(k).push(Seq::empty()).update(f.len() as int + 1, Seq::<u8>::empty() + v) =~= f.push(
            k,
        ).push(v));
        lemma_split_nul_end((e + k).push(0u8) + v);
        assert(encode_pairs(ps) =~= ((e + k).push(0u8) + v).push(0u8));
    }
}

proof fn lemma_flatten_len(ps: Seq<(Seq<u8>, Seq<u8>)>)
    ensures
        flatten(ps).len() == 2 * ps.len(),
    decreases ps.len(),
{
    if ps.len() > 0 {
        lemma_flatten_len(ps.drop_last());
    }
}

proof fn lemma_group_flatten(ps: Seq<(Seq<u8>, Seq<u8>)>)
    ensures
        group_pairs(flatten(ps)) == ps,
    decreases ps.len(),
{
    lemma_flatten_len(ps);
    if ps.len() == 0 {
        assert(group_pairs(flatten(ps)) =~= ps);
    } else {
        let f = flatten(ps);
        lemma_group_flatten(ps.drop_last());
        assert(f.subrange(0, f.len() - 2) =~= flatten(ps.drop_last()));
        assert(ps.drop_last().push(ps.last()) =~= ps);
    }
}

proof fn lemma_decimal(n: nat)
    ensures
        decimal_bytes(n).len() >= 1,
        all_digits(decimal_bytes(n)),
        parse_decimal(decimal_bytes(n)) == n,
    decreases n,
{
    let d = decimal_bytes(n);
    if n >= 10 {
        lemma_decimal(n / 10);
        assert(d.drop_last() =~= decimal_bytes(n / 10));
        assert(d.last() == (48 + n % 10) as u8);
        assert((d.last() - 48) as nat == n % 10);
        assert(parse_decimal(d) == parse_decimal(d.drop_last()) * 10 + (d.last() - 48) as nat);
        assert(n == (n / 10) * 10 + n % 10);
    } else {
        assert(d.drop_last() =~= Seq::<u8>::empty());
        assert(d.last() == (48 + n) as u8);
        assert(parse_decimal(d.drop_last()) == 0);
        assert(parse_decimal(d) == parse_decimal(d.drop_last()) * 10 + (d.last() - 48) as nat);
    }
}

proof fn lemma_find_colon(ds: Seq<u8>, rest: Seq<u8>, i: int)
    requires
        all_digits(ds),
        0 <= i <= ds.len(),
    ensures
        find_byte(ds + seq![58u8] + rest, 58u8, i) == Some(ds.len() as int),
    decreases ds.len() - i,
{
    let f = ds + seq![58u8] + rest;
    if i < ds.len() {
        assert(f[i] == ds[i]);
        lemma_find_colon(ds, rest, i + 1);
    } else {
        assert(f[i] == 58u8);
    }
}

/// An SCGI frame round-trips: the netstring's declared length is the length
/// of its payload, so decoding the netstring gives the payload back, and
/// decoding the payload gives back every name/value pair, in order, as long as
/// no name or value holds a NUL byte.
pub proof fn lemma_scgi_round_trip(ps: Seq<(Seq<u8>, Seq<u8>)>)
    requires
        nul_free(ps),
    ensures
        decode_netstring(netstring(encode_pairs(ps))) == Some(encode_pairs(ps)),
        decode_pairs(encode_pairs(ps)) == Some(ps),
{
    let payload = encode_pairs(ps);
    let ds = decimal_bytes(payload.len());
    let f = netstring(payload);
    lemma_decimal(payload.len());
    assert(f =~= ds + seq![58u8] + (payload + seq![44u8]));
    lemma_find_colon(ds, payload + seq![44u8], 0);
    assert(f.subrange(0, ds.len() as int) =~= ds);
    assert(f.subrange(ds.len() as int + 1, ds.len() as int + 1 + payload.len() as int) =~= payload);
    lemma_split_encode(ps);
    lemma_flatten_len(ps);
    lemma_group_flatten(ps);
    assert(flatten(ps).push(Seq::empty()).drop_last() =~= flatten(ps));
}

} // verus!
