use vstd::prelude::*;
use crate::status::{Status, Severity};
use crate::text::{push_char, push_str, push_decimal, decimal_of, opt_str};

verus! {

/// The status line of a response: the two-digit code, a tab, the meta (the
/// status's reason where none is given), CR LF.
pub open spec fn status_line_spec(stat: Status, meta: Option<Seq<char>>) -> Seq<char> {
    let m = match meta {
        Some(m) => m,
        None => stat.spec_reason(),
    };
    decimal_of(stat.spec_code() as nat).push('\t') + m + seq!['\r', '\n']
}


/// The status line of a response.
pub fn status_line(stat: Status, meta: Option<&str>) -> (r: String)
    ensures
        r@ == status_line_spec(stat, opt_str(meta)),
{
    let mut r = String::new();
    push_decimal(&mut r, stat.code() as u64);
    push_char(&mut r, '\t');
    match meta {
        Some(m) => push_str(&mut r, m),
        None => push_str(&mut r, stat.to_str()),
    }
    push_char(&mut r, '\r');
    push_char(&mut r, '\n');
    assert(r@ =~= status_line_spec(stat, opt_str(meta)));
    r
}

/// A whole response: the status line, then the body where there is one.
pub fn response_text(stat: Status, meta: Option<&str>, body: Option<&str>) -> (r: String)
    ensures
        r@ == status_line_spec(stat, opt_str(meta)) + match body {
            Some(b) => b@,
            None => Seq::empty(),
        },
{
    let mut r = status_line(stat, meta);
    match body {
        Some(b) => push_str(&mut r, b),
        None => {
            assert(r@ + Seq::<char>::empty() =~= r@);
        },
    }
    r
}

/// The record of a terminal outcome: who asked, the numeric status and the
/// request line; successes are information, the rest warnings.
pub open spec fn log_spec(addr: Seq<char>, stat: Status, req: Seq<char>) -> (Severity, Seq<char>) {
    (
        stat.spec_severity(),
        "remote="@ + addr + " status="@ + decimal_of(stat.spec_code() as nat) + " request="@ + req,
    )
}

/// The record of a terminal outcome.
pub fn log_record(addr: &str, stat: Status, req: &str) -> (r: (Severity, String))
    ensures
        (r.0, r.1@) == log_spec(addr@, stat, req@),
{
    let mut s = String::from_str("remote=");
    push_str(&mut s, addr);
    push_str(&mut s, " status=");
    push_decimal(&mut s, stat.code() as u64);
    push_str(&mut s, " request=");
    push_str(&mut s, req);
    (stat.severity(), s)
}

} // verus!
