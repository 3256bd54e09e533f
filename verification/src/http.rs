//! The HTTP probe strategy: a plain-HTTP GET of `http://<address>` that
//! counts any response as success, whatever its status.
//!
//! The request itself is made by the caller. This module says where it
//! goes and what to make of the answer.

use vstd::prelude::*;
use vstd::string::*;
use crate::outcome::{failure_message, failure_text, OutcomeView, ProbeOutcome};
use crate::probe::ProbeStrategy;
use crate::text::{decimal, occurs_at};
use crate::{HttpError, HttpResult};

verus! {

/// The status line that `reqwest` shows for a status code: the code in
/// decimal, a space, and the reason phrase it knows for the code.
pub uninterp spec fn status_text(code: u16) -> Seq<char>;

/// A three-digit HTTP status code.
#[derive(Clone, Copy, Debug)]
pub struct HttpStatus {
    code: u16,
}

impl HttpStatus {
    #[verifier::type_invariant]
    spec fn in_range(self) -> bool {
        100 <= self.code <= 999
    }

    /// The status code as a number.
    pub closed spec fn spec_code(self) -> u16 {
        self.code
    }

    /// Accepts exactly the codes from 100 to 999.
    pub fn new(code: u16) -> (status: Option<HttpStatus>)
        ensures
            status is Some <==> 100 <= code <= 999,
            status is Some ==> status.unwrap().spec_code() == code,
    {
        if 100 <= code && code <= 999 {
            Some(HttpStatus { code })
        } else {
            None
        }
    }

    /// The status code as a number.
    pub fn code(&self) -> (code: u16)
        ensures
            code == self.spec_code(),
            100 <= code <= 999,
    {
        proof {
            use_type_invariant(self);
        }
        self.code
    }
}

/// What came of one HTTP request.
#[derive(Debug)]
pub enum HttpExchange {
    /// A response arrived.
    Response {
        /// Its status.
        status: HttpStatus,
        /// Its header set, as it is shown in verbose details.
        headers: String,
    },
    /// No connection could be made, or the request could not be sent.
    Failed {
        /// The underlying error, as text.
        reason: String,
    },
}

/// Where the probe of `ip` sends its request.
pub open spec fn url_of(ip: Seq<char>) -> Seq<char> {
    "http://"@ + ip
}

/// The detail line of an answered probe: the status always, the headers
/// when `verbose`.
pub open spec fn success_detail(
    verbose: bool,
    ip: Seq<char>,
    status: Seq<char>,
    headers: Seq<char>,
) -> Seq<char> {
    if verbose {
        "Success from "@ + ip + " - Status Code "@ + status + " - Headers "@ + headers
    } else {
        "Success from "@ + ip + " - Status Code "@ + status
    }
}

/// How the probe of `ip` is classified, given what the request came to.
pub open spec fn http_probe(verbose: bool, ip: Seq<char>, exchange: HttpExchange) -> Result<
    OutcomeView,
    Seq<char>,
> {
    match exchange {
        HttpExchange::Response { status, headers } => Ok(
            OutcomeView {
                target: ip,
                success: true,
                detail: success_detail(verbose, ip, status_text(status.spec_code()), headers@),
            },
        ),
        HttpExchange::Failed { reason } => Err(failure_message(ip, reason@)),
    }
}

/// An HTTP result with its texts as character sequences.
pub open spec fn http_view(result: HttpResult<ProbeOutcome>) -> Result<OutcomeView, Seq<char>> {
    match result {
        Ok(outcome) => Ok(outcome@),
        Err(error) => Err(error@),
    }
}

/// Where the status stands in the detail line of an answered probe.
pub open spec fn status_offset(ip: Seq<char>) -> int {
    ("Success from "@.len() + ip.len() + " - Status Code "@.len()) as int
}

/// Shows a status code as `reqwest::StatusCode` displays it. Trusted:
/// `StatusCode::from_u16` accepts exactly 100..=999, and the display of
/// the code it gives is the text named `status_text`, which begins with
/// the code in decimal.
#[verifier::external_body]
fn show_status(code: u16) -> (shown: Option<String>)
    ensures
        shown is Some <==> 100 <= code <= 999,
        shown is Some ==> shown.unwrap()@ == status_text(code),
        shown is Some ==> decimal(code as int).is_prefix_of(shown.unwrap()@),
{
    match reqwest::StatusCode::from_u16(code) {
        Ok(status) => Some(status.to_string()),
        Err(_) => None,
    }
}

/// The URL that the probe of `ip` requests.
pub fn http_url(ip: &str) -> (url: String)
    ensures
        url@ == url_of(ip@),
{
    let mut url = String::from_str("http://");
    url.append(ip);
    url
}

/// Writes the detail line of an answered probe from the status text and
/// the header text.
pub fn http_detail(verbose: bool, ip: &str, status: &str, headers: &str) -> (detail: String)
    ensures
        detail@ == success_detail(verbose, ip@, status@, headers@),
{
    let mut detail = String::from_str("Success from ");
    detail.append(ip);
    detail.append(" - Status Code ");
    detail.append(status);
    if verbose {
        detail.append(" - Headers ");
        detail.append(headers);
    }
    detail
}

/// Classifies one HTTP probe of `ip`. Any response is a success, whatever
/// its status; only a request that could not be made is an error.
pub fn send_http(verbose: bool, ip: &str, exchange: HttpExchange) -> (result: HttpResult<
    ProbeOutcome,
>)
    ensures
        http_view(result) == http_probe(verbose, ip@, exchange),
        exchange matches HttpExchange::Response { status, .. } ==> result is Ok && occurs_at(
            result.unwrap().detail@,
            decimal(status.spec_code() as int),
            status_offset(ip@),
        ),
{
    match exchange {
        HttpExchange::Response { status, headers } => {
            let shown = match show_status(status.code()) {
                Some(shown) => shown,
                // A status always holds a code that can be shown.
                None => vstd::pervasive::unreached(),
            };
            let detail = http_detail(verbose, ip, shown.as_str(), headers.as_str());
            proof {
                let code = decimal(status.spec_code() as int);
                let at = status_offset(ip@);
                assert(shown@.subrange(0, code.len() as int) == code);
                assert(detail@.subrange(at, at + code.len()) =~= shown@.subrange(
                    0,
                    code.len() as int,
                ));
            }
            Ok(ProbeOutcome { target: String::from_str(ip), success: true, detail })
        },
        HttpExchange::Failed { reason } => Err(
            HttpError::ErrorMessage(failure_text(ip, reason.as_str())),
        ),
    }
}

/// The HTTP probe strategy.
pub struct Http;

impl ProbeStrategy for Http {
    type Exchange = HttpExchange;

    type Failure = HttpError;

    open spec fn classifies(
        verbose: bool,
        target: Seq<char>,
        exchange: HttpExchange,
        result: HttpResult<ProbeOutcome>,
    ) -> bool {
        http_view(result) == http_probe(verbose, target, exchange)
    }

    fn classify(verbose: bool, target: &str, exchange: HttpExchange) -> (result: HttpResult<
        ProbeOutcome,
    >) {
        send_http(verbose, target, exchange)
    }
}

} // verus!
