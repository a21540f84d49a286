//! The error vocabulary of the request-serving tier and its mapping to
//! response bodies.
//!
//! Backend failures are carried as plain values: what the handler logic
//! reads of a driver error is its SQL state code, so the duplicate-key
//! decision is ordinary verified code.  Turning the body into an HTTP
//! response, and converting driver errors into these values, happens at
//! the edge.

use vstd::prelude::*;
use crate::codec::dec_chars;
use crate::codec::dec_u128;

verus! {

/// The SQL state a database reports for a unique-constraint violation.
pub const SQLSTATE_UNIQUE_VIOLATION: u32 = 23505;

/// One JSON error body: the HTTP status it travels with, the message, and
/// whether the condition is a bug worth reporting.
#[derive(Debug)]
pub struct ErrorJson {
    pub code: u16,
    pub message: String,
    pub is_bug: bool,
    pub link: Option<String>,
}

impl ErrorJson {
    /// A client-fault body with the given status.
    pub fn new_client(code: u16, message: String) -> (r: ErrorJson)
        ensures
            r.code == code,
            r.message == message,
            !r.is_bug,
            r.link is None,
    {
        ErrorJson { code, message, is_bug: false, link: Option::None }
    }

    /// A 400 Bad Request body.
    pub fn new_400(message: String) -> (r: ErrorJson)
        ensures
            r.code == 400 && r.message == message && !r.is_bug && r.link is None,
    {
        Self::new_client(400, message)
    }

    /// A 403 Forbidden body.
    pub fn new_403(message: String) -> (r: ErrorJson)
        ensures
            r.code == 403 && r.message == message && !r.is_bug && r.link is None,
    {
        Self::new_client(403, message)
    }

    /// A 404 Not Found body.
    pub fn new_404(message: String) -> (r: ErrorJson)
        ensures
            r.code == 404 && r.message == message && !r.is_bug && r.link is None,
    {
        Self::new_client(404, message)
    }

    /// A 409 Conflict body.
    pub fn new_409(message: String) -> (r: ErrorJson)
        ensures
            r.code == 409 && r.message == message && !r.is_bug && r.link is None,
    {
        Self::new_client(409, message)
    }

    /// A 500 Internal Server Error body.
    pub fn new_500(message: String, is_bug: bool, link: Option<String>) -> (r: ErrorJson)
        ensures
            r.code == 500 && r.message == message && r.is_bug == is_bug && r.link == link,
    {
        ErrorJson { code: 500, message, is_bug, link }
    }

    /// The HTTP status this body travels with.
    pub fn get_code(&self) -> (c: u16)
        ensures
            c == self.code,
    {
        self.code
    }
}

/// Everything a request handler can fail with.  Backend errors carry what
/// the response mapping reads: the SQL state of a database error, the
/// driver's message text otherwise.
#[derive(Debug)]
pub enum WebServerError {
    Database { sqlstate: Option<u32>, detail: String },
    MissingDatabase,
    Json { detail: String },
    Redis { detail: String },
    MissingRedis,
    RedisPool { detail: String },
    Http(ErrorJson),
    RandomGenerationFailure,
    MissingHasher,
    MissingVerifier,
    MissingNodeId,
}

/// `"prefix" + detail` as one message.
fn prefixed(prefix: &str, detail: &str) -> (r: String)
    ensures
        r@ == prefix@ + detail@,
{
    let mut r = String::from_str(prefix);
    r.append(detail);
    r
}

impl WebServerError {
    /// The response body of each failure.  A database error whose SQL
    /// state is the unique-violation code is the caller's duplicate, a 409;
    /// every other backend failure is a 500, with the bug flag set on the
    /// conditions that should never happen in a healthy deployment.
    pub fn into_response(self) -> (r: ErrorJson)
        ensures
            match self {
                WebServerError::Database { sqlstate, detail } => {
                    if sqlstate == Option::Some(SQLSTATE_UNIQUE_VIOLATION) {
                        r.code == 409 && r.message@ == "This object is a duplicate."@ && !r.is_bug
                    } else {
                        r.code == 500 && r.message@ == "Database returned an error: "@ + detail@
                            && !r.is_bug
                    }
                },
                WebServerError::MissingDatabase => r.code == 500 && r.message@
                    == "Database pool was not found"@ && !r.is_bug,
                WebServerError::Json { detail } => r.code == 500 && r.message@
                    == "JSON (de)serialization failed: "@ + detail@ && !r.is_bug,
                WebServerError::Redis { detail } => r.code == 500 && r.message@
                    == "Redis returned an error: "@ + detail@ && !r.is_bug,
                WebServerError::MissingRedis => r.code == 500 && r.message@
                    == "Redis pool missing"@ && !r.is_bug,
                WebServerError::RedisPool { detail } => r.code == 500 && r.message@
                    == "Redis pool returned an error: "@ + detail@ && !r.is_bug,
                WebServerError::Http(e) => r == e,
                WebServerError::RandomGenerationFailure => r.code == 500 && r.message@
                    == "failed to generate random bits for token generation"@ && r.is_bug,
                WebServerError::MissingHasher => r.code == 500 && r.message@
                    == "password hasher not found"@ && !r.is_bug,
                WebServerError::MissingVerifier => r.code == 500 && r.message@
                    == "password verifier not found"@ && r.is_bug,
                WebServerError::MissingNodeId => r.code == 500 && r.message@
                    == "Redis has not been set up yet"@ && r.is_bug,
            },
    {
        match self {
            WebServerError::Database { sqlstate, detail } => {
                let duplicate = match sqlstate {
                    Option::Some(code) => code == SQLSTATE_UNIQUE_VIOLATION,
                    Option::None => false,
                };
                if duplicate {
                    ErrorJson::new_409(String::from_str("This object is a duplicate."))
                } else {
                    ErrorJson::new_500(
                        prefixed("Database returned an error: ", detail.as_str()),
                        false,
                        Option::None,
                    )
                }
            },
            WebServerError::MissingDatabase => ErrorJson::new_500(
                String::from_str("Database pool was not found"),
                false,
                Option::None,
            ),
            WebServerError::Json { detail } => ErrorJson::new_500(
                prefixed("JSON (de)serialization failed: ", detail.as_str()),
                false,
                Option::None,
            ),
            WebServerError::Redis { detail } => ErrorJson::new_500(
                prefixed("Redis returned an error: ", detail.as_str()),
                false,
                Option::None,
            ),
            WebServerError::MissingRedis => ErrorJson::new_500(
                String::from_str("Redis pool missing"),
                false,
                Option::None,
            ),
            WebServerError::RedisPool { detail } => ErrorJson::new_500(
                prefixed("Redis pool returned an error: ", detail.as_str()),
                false,
                Option::None,
            ),
            WebServerError::Http(e) => e,
            WebServerError::RandomGenerationFailure => ErrorJson::new_500(
                String::from_str("failed to generate random bits for token generation"),
                true,
                Option::None,
            ),
            WebServerError::MissingHasher => ErrorJson::new_500(
                String::from_str("password hasher not found"),
                false,
                Option::None,
            ),
            WebServerError::MissingVerifier => ErrorJson::new_500(
                String::from_str("password verifier not found"),
                true,
                Option::None,
            ),
            WebServerError::MissingNodeId => ErrorJson::new_500(
                String::from_str("Redis has not been set up yet"),
                true,
                Option::None,
            ),
        }
    }

    /// A 404 with `"prefix" + <decimal id>` as its message.
    pub fn unknown_entity(prefix: &str, id: u128) -> (r: WebServerError)
        ensures
            r matches WebServerError::Http(e) && e.code == 404 && e.message@ == prefix@
                + dec_chars(id as nat) && !e.is_bug,
    {
        let mut message = String::from_str(prefix);
        let digits = dec_u128(id);
        message.append(digits.as_str());
        WebServerError::Http(ErrorJson::new_404(message))
    }
}

impl From<ErrorJson> for WebServerError {
    /// An explicit HTTP error body passes through unchanged.
    fn from(e: ErrorJson) -> (r: WebServerError) {
        WebServerError::Http(e)
    }
}

impl vstd::std_specs::convert::FromSpecImpl<ErrorJson> for WebServerError {
    open spec fn obeys_from_spec() -> bool {
        true
    }

    open spec fn from_spec(e: ErrorJson) -> WebServerError {
        WebServerError::Http(e)
    }
}

} // verus!
