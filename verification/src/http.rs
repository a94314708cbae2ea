//! HTTP status decisions shared by the downloaders: which statuses are
//! worth retrying, how long to wait, and how a status reads.
use vstd::prelude::*;

use crate::chars::{push_chars, push_str, string_from_chars};
use crate::formatting::{decimal, decimal_chars};

verus! {

/// Whether a request that ended with `status` may succeed when repeated:
/// 408, 429, 500, 502, 503 and 504.
pub open spec fn retryable(status: u16) -> bool {
    status == 408 || status == 429 || status == 500 || status == 502 || status == 503 || status
        == 504
}

/// Whether a request that ended with `status` is worth repeating.
pub fn is_retryable_status(status: u16) -> (res: bool)
    ensures
        res == retryable(status),
{
    status == 408 || status == 429 || status == 500 || status == 502 || status == 503 || status
        == 504
}

/// The wait before repeating attempt `attempt`, in seconds: the square of
/// the attempt number.
pub fn backoff_delay(attempt: u32) -> (res: u64)
    requires
        attempt <= 65535,
    ensures
        res == attempt * attempt,
{
    assert(attempt * attempt <= 65535 * 65535) by (nonlinear_arith)
        requires
            attempt <= 65535,
    ;
    (attempt * attempt) as u64
}

/// Whether `status` is a success status (200 to 299).
pub open spec fn success(status: u16) -> bool {
    200 <= status < 300
}

/// Whether `status` is a success status.
pub fn is_success(status: u16) -> (res: bool)
    ensures
        res == success(status),
{
    200 <= status && status < 300
}

/// The canonical reason phrase that the `http` crate gives a status code,
/// if it knows one.
pub uninterp spec fn canonical_reason_of(status: u16) -> Option<Seq<char>>;

pub open spec fn opt_str_view(o: Option<&str>) -> Option<Seq<char>> {
    match o {
        Some(s) => Some(s@),
        None => None,
    }
}

/// `http::StatusCode::canonical_reason` for the status code `status`
/// (through `StatusCode::from_u16`, which has no status outside 100 to
/// 999, and so no reason). Claims only that the result is the crate's
/// reason phrase for that code; which codes have one is left unsaid.
#[verifier::external_body]
fn canonical_reason(status: u16) -> (res: Option<&'static str>)
    ensures
        opt_str_view(res) == canonical_reason_of(status),
{
    reqwest::StatusCode::from_u16(status).ok().and_then(|code| code.canonical_reason())
}

/// How a status reads, given its reason phrase: its code, a space, and the
/// phrase, or `<unknown status code>` where it has none.
pub open spec fn status_text_with(status: u16, reason: Option<Seq<char>>) -> Seq<char> {
    decimal(status as nat) + " "@ + match reason {
        Some(reason) => reason,
        None => "<unknown status code>"@,
    }
}

/// How a status reads, with the reason phrase the `http` crate gives it.
pub open spec fn status_text(status: u16) -> Seq<char> {
    status_text_with(status, canonical_reason_of(status))
}

/// The text of a status with the given reason phrase, as `404 Not Found`.
pub fn status_text_of(status: u16, reason: Option<&str>) -> (res: String)
    ensures
        res@ == status_text_with(status, opt_str_view(reason)),
{
    let mut out = decimal_chars(status as u64);
    push_str(&mut out, " ");
    match reason {
        Some(reason) => push_str(&mut out, reason),
        None => push_str(&mut out, "<unknown status code>"),
    }
    string_from_chars(&out)
}

/// The text of a status, as `404 Not Found`.
pub fn status_display(status: u16) -> (res: String)
    requires
        100 <= status <= 999,
    ensures
        res@ == status_text(status),
{
    status_text_of(status, canonical_reason(status))
}

} // verus!
