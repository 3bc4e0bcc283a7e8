//! What the directory client decides without touching the network: the
//! queries it sends, the header that carries the token, and how a response's
//! status is read.

use vstd::prelude::*;
use vstd::string::*;

verus! {

/// How many directory calls may be outstanding at once, run-wide.
pub const MAX_CONCURRENT_REQUESTS: usize = 10;

/// The pause before each directory call, in milliseconds. It is the same for
/// every call and does not grow.
pub const PACING_DELAY_MILLIS: u64 = 1;

/// The status line that `reqwest::StatusCode` prints for a status number:
/// the number, a space, and the canonical reason phrase of that number.
pub uninterp spec fn status_line(code: u16) -> Seq<char>;

/// Calls `reqwest::StatusCode::is_success` on the status with this number.
/// The claims: `StatusCode::from_u16` takes exactly the numbers from 100 to
/// 999, and `is_success` is true exactly for those from 200 to 299.
#[verifier::external_body]
fn http_status_is_success(code: u16) -> (r: Option<bool>)
    ensures
        r is Some <==> 100 <= code <= 999,
        r matches Some(success) ==> success == (200 <= code < 300),
{
    match reqwest::StatusCode::from_u16(code) {
        Ok(status) => Some(status.is_success()),
        Err(_) => None,
    }
}

/// Prints the status with this number through the `Display` impl of
/// `reqwest::StatusCode`. The claims: `StatusCode::from_u16` takes exactly
/// the numbers from 100 to 999, and what is printed depends on the number
/// alone.
#[verifier::external_body]
fn http_status_line(code: u16) -> (r: Option<String>)
    ensures
        r is Some <==> 100 <= code <= 999,
        r matches Some(line) ==> line@ == status_line(code),
{
    match reqwest::StatusCode::from_u16(code) {
        Ok(status) => Some(status.to_string()),
        Err(_) => None,
    }
}

/// The status of an HTTP response: a number from 100 to 999.
#[derive(Clone, Copy, Debug, PartialEq, Eq)]
pub struct HttpStatus {
    code: u16,
}

impl View for HttpStatus {
    type V = u16;

    closed spec fn view(&self) -> u16 {
        self.code
    }
}

impl HttpStatus {
    #[verifier::type_invariant]
    spec fn three_digits(self) -> bool {
        100 <= self.code <= 999
    }

    /// The status with this number, where the number has three digits.
    pub fn new(code: u16) -> (r: Option<HttpStatus>)
        ensures
            r is Some <==> 100 <= code <= 999,
            r matches Some(status) ==> status@ == code,
    {
        if 100 <= code && code <= 999 {
            Some(HttpStatus { code })
        } else {
            None
        }
    }

    /// The status number.
    pub fn code(&self) -> (r: u16)
        ensures
            r == self@,
            100 <= r <= 999,
    {
        proof {
            use_type_invariant(self);
        }
        self.code
    }

    /// Whether the status reports success: a number from 200 to 299.
    pub fn is_success(&self) -> (r: bool)
        ensures
            r == (200 <= self@ < 300),
    {
        proof {
            use_type_invariant(self);
        }
        http_status_is_success(self.code).unwrap()
    }

    /// The status as it is printed: the number and its reason phrase.
    pub fn line(&self) -> (r: String)
        ensures
            r@ == status_line(self@),
    {
        proof {
            use_type_invariant(self);
        }
        http_status_line(self.code).unwrap()
    }
}

/// Why a directory call failed. Any of these ends the whole run.
#[derive(Clone, Debug, PartialEq, Eq)]
pub enum DirectoryError {
    /// The request did not get through; the text says why.
    Transport(String),
    /// The directory answered with a status outside 200 to 299.
    Remote { status: HttpStatus, body: String },
    /// The answer was not a page of users; the text says why.
    Deserialization(String),
}

impl DirectoryError {
    /// The text of the error.
    pub open spec fn message_text(self) -> Seq<char> {
        match self {
            DirectoryError::Transport(reason) => reason@,
            DirectoryError::Remote { status, body } => "fetching users; "@ + status_line(status@)
                + ": "@ + body@,
            DirectoryError::Deserialization(reason) => reason@,
        }
    }

    /// The text of the error. For a refused request it holds the status line
    /// and the body of the response.
    pub fn message(&self) -> (r: String)
        ensures
            r@ == self.message_text(),
    {
        match self {
            DirectoryError::Transport(reason) => reason.clone(),
            DirectoryError::Remote { status, body } => {
                let mut text = String::from_str("fetching users; ");
                let line = status.line();
                text.append(line.as_str());
                text.append(": ");
                text.append(body.as_str());
                text
            },
            DirectoryError::Deserialization(reason) => reason.clone(),
        }
    }
}

/// Reads a response by its status: the body of a successful one is handed
/// on, any other status makes the response an error that keeps status and
/// body.
pub fn check_response(status: HttpStatus, body: String) -> (r: Result<String, DirectoryError>)
    ensures
        r == if 200 <= status@ < 300 {
            Ok::<String, DirectoryError>(body)
        } else {
            Err::<String, DirectoryError>(DirectoryError::Remote { status, body })
        },
{
    if status.is_success() {
        Ok(body)
    } else {
        Err(DirectoryError::Remote { status, body })
    }
}

/// The value of the authorization header for a bearer token.
pub open spec fn authorization_text(token: Seq<char>) -> Seq<char> {
    "Bearer "@ + token
}

/// The query for the direct reports of the user with this id.
pub open spec fn reports_query(user_id: Seq<char>) -> Seq<char> {
    "https://graph.microsoft.com/beta/users/"@ + user_id + "/directReports"@
}

/// The query for the users whose display name starts with `name`.
pub open spec fn search_query(name: Seq<char>) -> Seq<char> {
    "https://graph.microsoft.com/beta/users?$filter=startswith(displayName, '"@ + name + "')"@
}

/// The value of the authorization header for a bearer token.
pub fn authorization_value(token: &str) -> (r: String)
    ensures
        r@ == authorization_text(token@),
{
    let mut value = String::from_str("Bearer ");
    value.append(token);
    value
}

/// The content type that every request names.
pub fn content_type() -> (r: &'static str)
    ensures
        r@ == "application/json"@,
{
    "application/json"
}

/// The query for the direct reports of the user with this id.
pub fn reports_url(user_id: &str) -> (r: String)
    ensures
        r@ == reports_query(user_id@),
{
    let mut url = String::from_str("https://graph.microsoft.com/beta/users/");
    url.append(user_id);
    url.append("/directReports");
    url
}

/// The query for the users whose display name starts with `name`.
pub fn search_url(name: &str) -> (r: String)
    ensures
        r@ == search_query(name@),
{
    let mut url = String::from_str(
        "https://graph.microsoft.com/beta/users?$filter=startswith(displayName, '",
    );
    url.append(name);
    url.append("')");
    url
}

} // verus!
