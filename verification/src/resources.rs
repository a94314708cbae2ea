//! The upstream resources: where each is stored, and the decisions of the
//! download loop (when to retry, how long to wait, when to give up).
use vstd::prelude::*;

use crate::chars::{chars_of, parse_u64, parse_u64_exec, push_chars, push_str, string_from_chars};
use crate::formatting::{decimal, decimal_chars};
use crate::http::{retryable, status_display, status_text, success};
use crate::urls::ResourceUrlKey;

verus! {

/// The directory that holds the downloaded resources.
pub const ASSETS_DIR: &'static str = "assets";

/// How many times a resource download is tried.
pub const MAX_DOWNLOAD_ATTEMPTS: u32 = 4;

/// The least wait after the server asked to slow down, in seconds.
pub const RATE_LIMIT_DELAY_SECS: u64 = 60;

/// An upstream resource: its name, its URL's key, and where it is stored
/// under the assets directory.
#[derive(Debug, Clone, Copy)]
pub struct ResourceDefinition {
    pub name: &'static str,
    pub url: ResourceUrlKey,
    pub directory: &'static str,
    pub file: &'static str,
}

/// The upstream resources, in download order.
pub open spec fn resource_table() -> Seq<(Seq<char>, ResourceUrlKey, Seq<char>, Seq<char>)> {
    seq![
        ("ot cards database"@, ResourceUrlKey::OtCardsDatabase, "ot"@, "cards.cdb"@),
        ("ot forbidden list"@, ResourceUrlKey::OtForbiddenList, "ot"@, "lflist.conf"@),
        ("rd cards database"@, ResourceUrlKey::RdCardsDatabase, "rd"@, "rd_standard.cdb"@),
        ("rd forbidden list"@, ResourceUrlKey::RdForbiddenList, "rd"@, "lflist.conf"@),
    ]
}

pub open spec fn definition_view(d: ResourceDefinition) -> (Seq<char>, ResourceUrlKey, Seq<char>, Seq<char>) {
    (d.name@, d.url, d.directory@, d.file@)
}

/// The upstream resources, in download order.
pub fn resource_definitions() -> (res: Vec<ResourceDefinition>)
    ensures
        res@.len() == resource_table().len(),
        forall|i: int| 0 <= i < res@.len() ==> definition_view(#[trigger] res@[i]) == resource_table()[i],
{
    let res = vec![
        ResourceDefinition {
            name: "ot cards database",
            url: ResourceUrlKey::OtCardsDatabase,
            directory: "ot",
            file: "cards.cdb",
        },
        ResourceDefinition {
            name: "ot forbidden list",
            url: ResourceUrlKey::OtForbiddenList,
            directory: "ot",
            file: "lflist.conf",
        },
        ResourceDefinition {
            name: "rd cards database",
            url: ResourceUrlKey::RdCardsDatabase,
            directory: "rd",
            file: "rd_standard.cdb",
        },
        ResourceDefinition {
            name: "rd forbidden list",
            url: ResourceUrlKey::RdForbiddenList,
            directory: "rd",
            file: "lflist.conf",
        },
    ];
    res
}

/// Where a resource is stored: `assets/<directory>/<file>`.
pub open spec fn asset_path_of(directory: Seq<char>, file: Seq<char>) -> Seq<char> {
    "assets"@ + seq!['/'] + directory + seq!['/'] + file
}

/// Where a resource is stored.
pub fn asset_path(definition: &ResourceDefinition) -> (res: String)
    ensures
        res@ == asset_path_of(definition.directory@, definition.file@),
{
    let mut out = chars_of(ASSETS_DIR);
    out.push('/');
    push_str(&mut out, definition.directory);
    out.push('/');
    push_str(&mut out, definition.file);
    string_from_chars(&out)
}

/// Every resource is stored under the assets directory, and no two
/// resources share a path.
pub proof fn lemma_asset_paths_unique_and_scoped()
    ensures
        forall|i: int| 0 <= i < resource_table().len() ==> crate::chars::starts_with(
            #[trigger] asset_path_of(resource_table()[i].2, resource_table()[i].3),
            "assets/"@,
        ),
        forall|i: int, j: int|
            0 <= i < j < resource_table().len() ==> #[trigger] asset_path_of(
                resource_table()[i].2,
                resource_table()[i].3,
            ) != #[trigger] asset_path_of(resource_table()[j].2, resource_table()[j].3),
{
    reveal_strlit("assets");
    reveal_strlit("assets/");
    reveal_strlit("ot");
    reveal_strlit("rd");
    reveal_strlit("cards.cdb");
    reveal_strlit("lflist.conf");
    reveal_strlit("rd_standard.cdb");
    let t = resource_table();
    assert forall|i: int| 0 <= i < t.len() implies crate::chars::starts_with(
        #[trigger] asset_path_of(t[i].2, t[i].3),
        "assets/"@,
    ) by {
        let p = asset_path_of(t[i].2, t[i].3);
        assert(p.subrange(0, 7) =~= "assets/"@);
    }
    assert forall|i: int, j: int| 0 <= i < j < t.len() implies #[trigger] asset_path_of(t[i].2, t[i].3)
        != #[trigger] asset_path_of(t[j].2, t[j].3) by {
        let a = asset_path_of(t[i].2, t[i].3);
        let b = asset_path_of(t[j].2, t[j].3);
        if i == 0 || i == 1 {
            if j >= 2 {
                assert(a[7] != b[7]);
            } else {
                assert(a.len() != b.len());
            }
        } else {
            assert(a.len() != b.len());
        }
    }
}

/// Why a downloaded file is refused: it is empty, or its size differs from
/// the length the server announced.
pub open spec fn download_size_problem(name: Seq<char>, bytes: u64, expected: Option<u64>) -> Option<Seq<char>> {
    if bytes == 0 {
        Some("downloaded empty asset for "@ + name)
    } else {
        match expected {
            Some(e) => if bytes != e {
                Some("downloaded "@ + decimal(bytes as nat) + " bytes for "@ + name + ", expected "@ + decimal(e as nat))
            } else {
                None
            },
            None => None,
        }
    }
}

/// Checks the size of a downloaded file.
pub fn validate_download_size(name: &str, bytes: u64, expected_length: Option<u64>) -> (res: Result<(), String>)
    ensures
        match download_size_problem(name@, bytes, expected_length) {
            None => res is Ok,
            Some(m) => res matches Err(e) && e@ == m,
        },
{
    if bytes == 0 {
        let mut out = chars_of("downloaded empty asset for ");
        push_str(&mut out, name);
        return Err(string_from_chars(&out));
    }
    match expected_length {
        Some(expected) => {
            if bytes != expected {
                let mut out = chars_of("downloaded ");
                push_chars(&mut out, &decimal_chars(bytes));
                push_str(&mut out, " bytes for ");
                push_str(&mut out, name);
                push_str(&mut out, ", expected ");
                push_chars(&mut out, &decimal_chars(expected));
                return Err(string_from_chars(&out));
            }
            Ok(())
        },
        None => Ok(()),
    }
}

pub open spec fn opt_header_view(o: Option<&str>) -> Option<Seq<char>> {
    match o {
        Some(s) => Some(s@),
        None => None,
    }
}

/// The wait before repeating a download, in seconds: the `Retry-After`
/// value when it is a whole number of seconds, else the square of the
/// attempt; at least a minute when the server answered 429.
pub open spec fn retry_delay_of(retry_after: Option<Seq<char>>, status: u16, attempt: u32) -> u64 {
    let base = match retry_after {
        Some(v) => match parse_u64(v) {
            Some(secs) => secs,
            None => (attempt * attempt) as u64,
        },
        None => (attempt * attempt) as u64,
    };
    if status == 429 && base < 60 {
        60
    } else {
        base
    }
}

/// The wait before repeating a download, in seconds.
pub fn retry_delay(retry_after: Option<&str>, status: u16, attempt: u32) -> (res: u64)
    requires
        attempt <= 65535,
    ensures
        res == retry_delay_of(opt_header_view(retry_after), status, attempt),
{
    let parsed: Option<u64> = match retry_after {
        Some(v) => parse_u64_exec(&chars_of(v)),
        None => None,
    };
    let base = match parsed {
        Some(secs) => secs,
        None => crate::http::backoff_delay(attempt),
    };
    if status == 429 && base < RATE_LIMIT_DELAY_SECS {
        RATE_LIMIT_DELAY_SECS
    } else {
        base
    }
}

/// How one request for a resource ended.
#[derive(Debug)]
pub enum ResourceResponse {
    /// The server answered with this status, and this `Retry-After` value
    /// if it sent one.
    Responded { status: u16, retry_after: Option<String> },
    /// The request failed; the error's text.
    Failed(String),
}

/// What to do after a request for a resource.
#[derive(Debug)]
pub enum ResourceRequestDecision {
    /// Read the response's body.
    Accept,
    /// Wait `delay_secs` seconds, warn and try again.
    Retry { delay_secs: u64, warning: String },
    /// Give up with this message (before the request's error, if any).
    GiveUp(String),
}

pub open spec fn resource_decision_view(d: ResourceRequestDecision) -> (bool, Option<(u64, Seq<char>)>, Option<Seq<char>>) {
    match d {
        ResourceRequestDecision::Accept => (true, None, None),
        ResourceRequestDecision::Retry { delay_secs, warning } => (false, Some((delay_secs, warning@)), None),
        ResourceRequestDecision::GiveUp(m) => (false, None, Some(m@)),
    }
}

pub open spec fn opt_string_view(o: Option<String>) -> Option<Seq<char>> {
    match o {
        Some(s) => Some(s@),
        None => None,
    }
}

/// The start of a warning about a resource request: its resource, URL
/// and attempt.
pub open spec fn request_prefix(name: Seq<char>, url: Seq<char>, attempt: u32) -> Seq<char> {
    "resource request will be retried: resource=\""@ + name + "\" url="@ + url + " attempt="@ + decimal(
        attempt as nat,
    ) + "/4"@
}

/// What follows attempt `attempt` of the request for a resource: a
/// success is read; a status worth retrying, or a failed request, is
/// repeated while attempts remain; anything else is given up.
pub open spec fn resource_request_decision(name: Seq<char>, url: Seq<char>, attempt: u32, response: ResourceResponse) -> (bool, Option<(u64, Seq<char>)>, Option<Seq<char>>) {
    match response {
        ResourceResponse::Responded { status, retry_after } => {
            if success(status) {
                (true, None, None)
            } else if !retryable(status) || attempt == MAX_DOWNLOAD_ATTEMPTS {
                (false, None, Some("failed to download "@ + name + " from "@ + url + ": HTTP "@ + status_text(status)))
            } else {
                let delay = retry_delay_of(opt_string_view(retry_after), status, attempt);
                (
                    false,
                    Some((delay, request_prefix(name, url, attempt) + " status=\"HTTP "@ + status_text(status)
                        + "\" retry_in="@ + decimal(delay as nat) + seq!['s'])),
                    None,
                )
            }
        },
        ResourceResponse::Failed(error) => {
            if attempt == MAX_DOWNLOAD_ATTEMPTS {
                (false, None, Some("failed to download "@ + name + " from "@ + url + " after 4 attempts"@))
            } else {
                let delay = (attempt * attempt) as u64;
                (
                    false,
                    Some((delay, request_prefix(name, url, attempt) + " reason="@ + error@ + "; retry_in="@
                        + decimal(delay as nat) + seq!['s'])),
                    None,
                )
            }
        },
    }
}

fn push_request_prefix(out: &mut Vec<char>, name: &str, url: &str, attempt: u32)
    ensures
        final(out)@ == old(out)@ + request_prefix(name@, url@, attempt),
{
    push_str(out, "resource request will be retried: resource=\"");
    push_str(out, name);
    push_str(out, "\" url=");
    push_str(out, url);
    push_str(out, " attempt=");
    push_chars(out, &decimal_chars(attempt as u64));
    push_str(out, "/4");
}

/// Decides what follows attempt `attempt` of the request for the resource
/// `name` at `url`.
pub fn resource_request_step(name: &str, url: &str, attempt: u32, response: &ResourceResponse) -> (res: ResourceRequestDecision)
    requires
        1 <= attempt <= MAX_DOWNLOAD_ATTEMPTS,
        response matches ResourceResponse::Responded { status, .. } ==> 100 <= *status <= 999,
    ensures
        resource_decision_view(res) == resource_request_decision(name@, url@, attempt, *response),
        attempt == MAX_DOWNLOAD_ATTEMPTS ==> !(res is Retry),
{
    match response {
        ResourceResponse::Responded { status, retry_after } => {
            let status = *status;
            if crate::http::is_success(status) {
                return ResourceRequestDecision::Accept;
            }
            let line = status_display(status);
            if !crate::http::is_retryable_status(status) || attempt == MAX_DOWNLOAD_ATTEMPTS {
                let mut out = chars_of("failed to download ");
                push_str(&mut out, name);
                push_str(&mut out, " from ");
                push_str(&mut out, url);
                push_str(&mut out, ": HTTP ");
                push_str(&mut out, line.as_str());
                return ResourceRequestDecision::GiveUp(string_from_chars(&out));
            }
            let header: Option<&str> = match retry_after {
                Some(v) => Some(v.as_str()),
                None => None,
            };
            let delay = retry_delay(header, status, attempt);
            proof {
                assert(opt_header_view(header) == opt_string_view(*retry_after));
            }
            let mut out: Vec<char> = Vec::new();
            push_request_prefix(&mut out, name, url, attempt);
            push_str(&mut out, " status=\"HTTP ");
            push_str(&mut out, line.as_str());
            push_str(&mut out, "\" retry_in=");
            push_chars(&mut out, &decimal_chars(delay));
            out.push('s');
            ResourceRequestDecision::Retry { delay_secs: delay, warning: string_from_chars(&out) }
        },
        ResourceResponse::Failed(error) => {
            if attempt == MAX_DOWNLOAD_ATTEMPTS {
                let mut out = chars_of("failed to download ");
                push_str(&mut out, name);
                push_str(&mut out, " from ");
                push_str(&mut out, url);
                push_str(&mut out, " after 4 attempts");
                return ResourceRequestDecision::GiveUp(string_from_chars(&out));
            }
            let delay = crate::http::backoff_delay(attempt);
            let mut out: Vec<char> = Vec::new();
            push_request_prefix(&mut out, name, url, attempt);
            push_str(&mut out, " reason=");
            push_str(&mut out, error.as_str());
            push_str(&mut out, "; retry_in=");
            push_chars(&mut out, &decimal_chars(delay));
            out.push('s');
            ResourceRequestDecision::Retry { delay_secs: delay, warning: string_from_chars(&out) }
        },
    }
}

/// A downloaded resource: where it was stored, its size, and how many
/// attempts it took.
#[derive(Debug)]
pub struct DownloadedResource {
    pub path: String,
    pub bytes: u64,
    pub attempts: u32,
}

/// What one attempt to download a resource gave: a temporary file of
/// `bytes` bytes, with the length the server announced, or an error.
#[derive(Debug)]
pub enum DownloadOutcome {
    Written { bytes: u64, expected_length: Option<u64> },
    Failed(String),
}

/// What to do after one attempt to download a resource.
#[derive(Debug)]
pub enum DownloadDecision {
    /// The file is whole: move it into place.
    Done(DownloadedResource),
    /// Wait `delay_secs` seconds, warn and try again.
    Retry { delay_secs: u64, warning: String },
    /// Give up: the last attempt's error, with `context` around it. The
    /// error is `cause` where the file had the wrong size, else the
    /// attempt's own error.
    GiveUp { context: String, cause: Option<String> },
}

/// Why an attempt failed, if it did: its own error, or the problem with
/// the size of the file it wrote.
pub open spec fn attempt_failure(name: Seq<char>, outcome: DownloadOutcome) -> Option<Seq<char>> {
    match outcome {
        DownloadOutcome::Written { bytes, expected_length } => download_size_problem(name, bytes, expected_length),
        DownloadOutcome::Failed(e) => Some(e@),
    }
}

/// What follows attempt `attempt` to download the resource `name` from
/// `url` to `path`: a file of the right size is done; a failed attempt, or
/// one that wrote an empty file or one of another length than announced,
/// is repeated while attempts remain, else given up.
pub fn download_step(name: &str, url: &str, path: &str, attempt: u32, outcome: &DownloadOutcome) -> (res: DownloadDecision)
    requires
        1 <= attempt <= MAX_DOWNLOAD_ATTEMPTS,
    ensures
        match attempt_failure(name@, *outcome) {
            None => res matches DownloadDecision::Done(d) && d.path@ == path@ && d.attempts == attempt
                && (outcome matches DownloadOutcome::Written { bytes, .. } && d.bytes == bytes),
            Some(error) => if attempt < MAX_DOWNLOAD_ATTEMPTS {
                res matches DownloadDecision::Retry { delay_secs, warning } && delay_secs == attempt
                    * attempt && warning@ == "resource download attempt failed: resource=\""@ + name@
                    + "\" url="@ + url@ + " destination="@ + path@ + " attempt="@ + decimal(
                    attempt as nat,
                ) + "/4 reason="@ + error + "; retry_in="@ + decimal(delay_secs as nat) + seq!['s']
            } else {
                res matches DownloadDecision::GiveUp { context, cause } && context@ == "failed to download "@
                    + name@ + " from "@ + url@ + " to "@ + path@ && match outcome {
                    DownloadOutcome::Written { .. } => cause matches Some(c) && c@ == error,
                    DownloadOutcome::Failed(_) => cause is None,
                }
            },
        },
        res matches DownloadDecision::Done(d) ==> (outcome matches DownloadOutcome::Written { bytes, expected_length }
            && bytes > 0 && d.bytes == bytes && (expected_length matches Some(e) ==> bytes == e)),
{
    let error: String = match outcome {
        DownloadOutcome::Written { bytes, expected_length } => match validate_download_size(name, *bytes, *expected_length) {
            Ok(()) => {
                return DownloadDecision::Done(
                    DownloadedResource { path: string_from_chars(&chars_of(path)), bytes: *bytes, attempts: attempt },
                );
            },
            Err(problem) => problem,
        },
        DownloadOutcome::Failed(e) => string_from_chars(&chars_of(e.as_str())),
    };
    if attempt < MAX_DOWNLOAD_ATTEMPTS {
        let delay = crate::http::backoff_delay(attempt);
        let mut out = chars_of("resource download attempt failed: resource=\"");
        push_str(&mut out, name);
        push_str(&mut out, "\" url=");
        push_str(&mut out, url);
        push_str(&mut out, " destination=");
        push_str(&mut out, path);
        push_str(&mut out, " attempt=");
        push_chars(&mut out, &decimal_chars(attempt as u64));
        push_str(&mut out, "/4 reason=");
        push_str(&mut out, error.as_str());
        push_str(&mut out, "; retry_in=");
        push_chars(&mut out, &decimal_chars(delay));
        out.push('s');
        DownloadDecision::Retry { delay_secs: delay, warning: string_from_chars(&out) }
    } else {
        let mut out = chars_of("failed to download ");
        push_str(&mut out, name);
        push_str(&mut out, " from ");
        push_str(&mut out, url);
        push_str(&mut out, " to ");
        push_str(&mut out, path);
        let cause = match outcome {
            DownloadOutcome::Written { .. } => Some(error),
            DownloadOutcome::Failed(_) => None,
        };
        DownloadDecision::GiveUp { context: string_from_chars(&out), cause }
    }
}

} // verus!
