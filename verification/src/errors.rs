//! The error the client reports when a request fails: a human-readable
//! message carrying the endpoint, the status code and whatever the
//! upstream error payload offered, plus a help line per status code.

use vstd::prelude::*;
use vstd::string::StringExecFns;
use crate::client::opt_view;
use crate::endpoints::Endpoint;
use crate::text::dec_rep;
use crate::text::u64_to_dec;

verus! {

/// The help line offered for an HTTP status code.
pub open spec fn spec_status_help(status: u16) -> Seq<char> {
    if status == 400 || status == 404 {
        "check if this link is actually valid"@
    } else if status == 401 {
        "authentication needed. (you shouldn't be seeing this!)"@
    } else if status == 403 {
        "you lack permission to access this. try something else"@
    } else if status == 429 {
        "you've been ratelimited. i swear i'll implement ratelimit handling later"@
    } else if status == 500 {
        "something went wrong with mangadex, consider retrying"@
    } else if status == 503 {
        "try again in a few minutes"@
    } else {
        "no reason found, sorry :("@
    }
}

/// The message composed when the payload offered no error details.
pub open spec fn spec_blank_text(uri: Seq<char>, status: u16) -> Seq<char> {
    "api error\n\nendpoint: "@ + uri + "\nstatus code: "@ + dec_rep(status as nat)
        + "\n(missing 'errors' field, couldn't gather more info)\n"@
}

/// The message composed from the first entry of the payload's error
/// list.
pub open spec fn spec_error_text(
    number_of_errors: nat,
    uri: Seq<char>,
    status: u16,
    title: Seq<char>,
    detail: Seq<char>,
) -> Seq<char> {
    "api error; displaying 1 of "@ + dec_rep(number_of_errors) + "\n\nendpoint: "@ + uri
        + "\nstatus code: "@ + dec_rep(status as nat) + "\ntitle: "@ + title + "\ndetail: "@
        + detail + "\n"@
}

/// How many entries the payload's top-level `errors` array holds:
/// `None` when the text is not JSON or `errors` is absent or not an
/// array. A fixed function of the text.
pub uninterp spec fn error_count_of(s: Seq<char>) -> Option<nat>;

/// The `title` string of the first entry of the payload's `errors`
/// array, when there is one. A fixed function of the text.
pub uninterp spec fn error_title_of(s: Seq<char>) -> Option<Seq<char>>;

/// The `detail` string of the first entry of the payload's `errors`
/// array, when there is one. A fixed function of the text.
pub uninterp spec fn error_detail_of(s: Seq<char>) -> Option<Seq<char>>;

/// Relies on serde_json::from_str, Value::get, Value::as_array and
/// Value::as_str: reads the `errors` array's length and the first
/// entry's `title` and `detail` straight from the text.
#[verifier::external_body]
fn read_error_details(s: &str) -> (r: (Option<usize>, Option<String>, Option<String>))
    ensures
        (match r.0 {
            Option::Some(n) => Option::Some(n as nat),
            Option::None => Option::None,
        }) == error_count_of(s@),
        opt_view(r.1) == error_title_of(s@),
        opt_view(r.2) == error_detail_of(s@),
{
    let parsed = serde_json::from_str::<serde_json::Value>(s).ok();
    let arr = parsed.as_ref().and_then(|v| v.get("errors")).and_then(|e| e.as_array());
    match arr {
        None => (None, None, None),
        Some(list) => {
            let title = list.first().and_then(|e| e.get("title")).and_then(|t| t.as_str());
            let detail = list.first().and_then(|e| e.get("detail")).and_then(|d| d.as_str());
            (Some(list.len()), title.map(|t| t.to_owned()), detail.map(|d| d.to_owned()))
        },
    }
}

/// The first error entry's title, or the placeholder when the
/// payload carried none.
pub open spec fn spec_title_or_placeholder(t: Option<Seq<char>>) -> Seq<char> {
    match t {
        Option::Some(t) => t,
        Option::None => "unknown title"@,
    }
}

/// The first error entry's detail, or the placeholder when the
/// payload carried none.
pub open spec fn spec_detail_or_placeholder(d: Option<Seq<char>>) -> Seq<char> {
    match d {
        Option::Some(d) => d,
        Option::None => "unknown detail"@,
    }
}

/// The message `ApiError::new` composes for a payload text: the
/// blank form when the payload offers no (or an empty) error list,
/// else the composed form over the first entry's title and detail.
pub open spec fn spec_new_message(uri: Seq<char>, body: Seq<char>, status: u16) -> Seq<char> {
    match error_count_of(body) {
        Option::None => spec_blank_text(uri, status),
        Option::Some(n) => if n == 0 {
            spec_blank_text(uri, status)
        } else {
            spec_error_text(
                n,
                uri,
                status,
                spec_title_or_placeholder(error_title_of(body)),
                spec_detail_or_placeholder(error_detail_of(body)),
            )
        },
    }
}

/// An API request failure, with a composed message and a help line.
#[derive(Debug, Clone)]
pub struct ApiError {
    error: String,
    help: String,
}

impl ApiError {
    /// The composed error message.
    pub closed spec fn spec_message(self) -> Seq<char> {
        self.error@
    }

    /// The help line.
    pub closed spec fn spec_help(self) -> Seq<char> {
        self.help@
    }

    /// The composed error message.
    pub fn message(&self) -> (r: &String)
        ensures
            r@ == self.spec_message(),
    {
        &self.error
    }

    /// The help line.
    pub fn help_text(&self) -> (r: &String)
        ensures
            r@ == self.spec_help(),
    {
        &self.help
    }

    /// The help line offered for an HTTP status code.
    pub fn get_status_code_help(status: u16) -> (r: String)
        ensures
            r@ == spec_status_help(status),
    {
        if status == 400 || status == 404 {
            "check if this link is actually valid".to_owned()
        } else if status == 401 {
            "authentication needed. (you shouldn't be seeing this!)".to_owned()
        } else if status == 403 {
            "you lack permission to access this. try something else".to_owned()
        } else if status == 429 {
            "you've been ratelimited. i swear i'll implement ratelimit handling later".to_owned()
        } else if status == 500 {
            "something went wrong with mangadex, consider retrying".to_owned()
        } else if status == 503 {
            "try again in a few minutes".to_owned()
        } else {
            "no reason found, sorry :(".to_owned()
        }
    }

    /// The error used when the payload held no (or an empty) error
    /// list: endpoint and status code only.
    pub fn blank(endpoint: Endpoint, status: u16) -> (r: ApiError)
        ensures
            r.spec_message() == spec_blank_text(endpoint.spec_uri(), status),
            r.spec_help() == spec_status_help(status),
    {
        let uri = endpoint.as_string();
        let status_text = u64_to_dec(status as u64);
        let mut error = "api error\n\nendpoint: ".to_owned();
        error.append(uri.as_str());
        error.append("\nstatus code: ");
        error.append(status_text.as_str());
        error.append("\n(missing 'errors' field, couldn't gather more info)\n");
        assert(error@ =~= spec_blank_text(endpoint.spec_uri(), status));
        ApiError { error, help: Self::get_status_code_help(status) }
    }

    /// Composes the message for the first of `number_of_errors` errors
    /// the payload reported.
    pub fn format_error_text(
        number_of_errors: usize,
        endpoint: &Endpoint,
        status: u16,
        title: &str,
        detail: &str,
    ) -> (r: String)
        ensures
            r@ == spec_error_text(
                number_of_errors as nat,
                endpoint.spec_uri(),
                status,
                title@,
                detail@,
            ),
    {
        let uri = endpoint.as_string();
        let status_text = u64_to_dec(status as u64);
        let count_text = u64_to_dec(number_of_errors as u64);
        let mut error = "api error; displaying 1 of ".to_owned();
        error.append(count_text.as_str());
        error.append("\n\nendpoint: ");
        error.append(uri.as_str());
        error.append("\nstatus code: ");
        error.append(status_text.as_str());
        error.append("\ntitle: ");
        error.append(title);
        error.append("\ndetail: ");
        error.append(detail);
        error.append("\n");
        assert(error@ =~= spec_error_text(
            number_of_errors as nat,
            endpoint.spec_uri(),
            status,
            title@,
            detail@,
        ));
        error
    }

    /// Builds the error for a rejected response from the body text:
    /// the first entry of the payload's `errors` list when one is
    /// there, the blank form otherwise. The message is exactly
    /// [`spec_new_message`] of the text; the help line follows the
    /// status code.
    pub fn new(endpoint: Endpoint, body: &str, status: u16) -> (r: ApiError)
        ensures
            r.spec_help() == spec_status_help(status),
            r.spec_message() == spec_new_message(endpoint.spec_uri(), body@, status),
    {
        let details = read_error_details(body);
        let count = match details.0 {
            Option::Some(n) => n,
            Option::None => {
                return Self::blank(endpoint, status);
            },
        };
        if count == 0 {
            return Self::blank(endpoint, status);
        }
        let title = match details.1 {
            Option::Some(t) => t,
            Option::None => "unknown title".to_owned(),
        };
        let detail = match details.2 {
            Option::Some(d) => d,
            Option::None => "unknown detail".to_owned(),
        };
        let error = Self::format_error_text(count, &endpoint, status, title.as_str(), detail.as_str());
        ApiError { error, help: Self::get_status_code_help(status) }
    }
}

} // verus!
