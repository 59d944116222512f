//! The error type of the library and the HTTP status each error maps to.

use crate::numeric::u64_to_decimal;
use crate::text::push_char;
use vstd::prelude::*;

verus! {

/// Errors produced by request handling.
#[derive(Debug, Clone)]
pub enum Error {
    /// The caller is not allowed to perform the operation.
    Unauthorized,
    /// No credential exists for the given access key id.
    IdentityNotFound { key_id: String },
    /// No user exists with the given email.
    UserNotFound { email: String },
    /// A required header is absent.
    MissingHeader { header: String },
    /// A header value could not be read.
    InvalidHeader { header: String },
    /// The `X-Amz-Target` value names no supported SQS method.
    InvalidMethod { message: String },
    /// A required request parameter is absent.
    MissingParameter { message: String },
    /// A request parameter is malformed or out of range.
    InvalidParameter { message: String },
    /// The namespace does not exist.
    NamespaceNotFound { namespace: String },
    /// The queue does not exist in the namespace.
    QueueNotFound { queue: String, namespace: String },
    /// Some other entity does not exist.
    NotFound { message: String },
    /// The request body exceeds the accepted size.
    PayloadTooLarge,
    /// An unexpected failure.
    InternalServerError { message: String },
}

/// HTTP status code of an error.
pub open spec fn status_of(e: Error) -> u16 {
    match e {
        Error::Unauthorized => 401,
        Error::IdentityNotFound { .. } => 401,
        Error::UserNotFound { .. } => 401,
        Error::MissingHeader { .. } => 400,
        Error::InvalidHeader { .. } => 400,
        Error::InvalidMethod { .. } => 400,
        Error::MissingParameter { .. } => 400,
        Error::InvalidParameter { .. } => 400,
        Error::NamespaceNotFound { .. } => 404,
        Error::QueueNotFound { .. } => 404,
        Error::NotFound { .. } => 404,
        Error::PayloadTooLarge => 413,
        Error::InternalServerError { .. } => 500,
    }
}

/// The canonical reason phrase of each status code the errors use.
pub open spec fn reason_phrase(code: u16) -> Seq<char> {
    if code == 400 {
        "Bad Request"@
    } else if code == 401 {
        "Unauthorized"@
    } else if code == 404 {
        "Not Found"@
    } else if code == 413 {
        "Payload Too Large"@
    } else {
        "Internal Server Error"@
    }
}

/// The status line of an error: its code in decimal, a space, and the
/// reason phrase.
pub open spec fn status_line_spec(e: Error) -> Seq<char> {
    crate::numeric::decimal((status_of(e) as nat)) + seq![' '] + reason_phrase(status_of(e))
}

/// The human-readable message of an error.
pub open spec fn error_message(e: Error) -> Seq<char> {
    match e {
        Error::Unauthorized => "unauthorized"@,
        Error::IdentityNotFound { key_id } => "identity not found: "@ + key_id@,
        Error::UserNotFound { email } => "user not found: "@ + email@,
        Error::MissingHeader { header } => "missing header: "@ + header@,
        Error::InvalidHeader { header } => "invalid header: "@ + header@,
        Error::InvalidMethod { message } => message@,
        Error::MissingParameter { message } => "missing parameter: "@ + message@,
        Error::InvalidParameter { message } => "invalid parameter: "@ + message@,
        Error::NamespaceNotFound { namespace } => "namespace not found: "@ + namespace@,
        Error::QueueNotFound { queue, namespace } => "queue not found: "@ + namespace@ + "/"@
            + queue@,
        Error::NotFound { message } => "not found: "@ + message@,
        Error::PayloadTooLarge => "payload too large"@,
        Error::InternalServerError { message } => "internal server error: "@ + message@,
    }
}

impl Error {
    /// The human-readable message of this error.
    pub fn message(&self) -> (r: String)
        ensures
            r@ == error_message(*self),
    {
        match self {
            Error::Unauthorized => String::from_str("unauthorized"),
            Error::IdentityNotFound { key_id } => prefixed("identity not found: ", key_id),
            Error::UserNotFound { email } => prefixed("user not found: ", email),
            Error::MissingHeader { header } => prefixed("missing header: ", header),
            Error::InvalidHeader { header } => prefixed("invalid header: ", header),
            Error::InvalidMethod { message } => message.clone(),
            Error::MissingParameter { message } => prefixed("missing parameter: ", message),
            Error::InvalidParameter { message } => prefixed("invalid parameter: ", message),
            Error::NamespaceNotFound { namespace } => prefixed("namespace not found: ", namespace),
            Error::QueueNotFound { queue, namespace } => {
                let mut s = prefixed("queue not found: ", namespace);
                s.append("/");
                s.append(queue.as_str());
                s
            },
            Error::NotFound { message } => prefixed("not found: ", message),
            Error::PayloadTooLarge => String::from_str("payload too large"),
            Error::InternalServerError { message } => prefixed("internal server error: ", message),
        }
    }

    /// A missing-parameter error.
    pub fn missing_parameter(message: &str) -> (r: Error)
        ensures
            r matches Error::MissingParameter { message: m } && m@ == message@,
    {
        Error::MissingParameter { message: message.to_owned() }
    }

    /// An invalid-parameter error.
    pub fn invalid_parameter(message: String) -> (r: Error)
        ensures
            r matches Error::InvalidParameter { message: m } && m@ == message@,
    {
        Error::InvalidParameter { message }
    }

    /// A namespace-not-found error.
    pub fn namespace_not_found(namespace: &str) -> (r: Error)
        ensures
            r matches Error::NamespaceNotFound { namespace: n } && n@ == namespace@,
    {
        Error::NamespaceNotFound { namespace: namespace.to_owned() }
    }

    /// A queue-not-found error.
    pub fn queue_not_found(queue: &str, namespace: &str) -> (r: Error)
        ensures
            r matches Error::QueueNotFound { queue: q, namespace: n } && q@ == queue@ && n@
                == namespace@,
    {
        Error::QueueNotFound { queue: queue.to_owned(), namespace: namespace.to_owned() }
    }

    /// A generic not-found error.
    pub fn not_found(message: String) -> (r: Error)
        ensures
            r matches Error::NotFound { message: m } && m@ == message@,
    {
        Error::NotFound { message }
    }

    /// An internal error.
    pub fn internal(message: String) -> (r: Error)
        ensures
            r matches Error::InternalServerError { message: m } && m@ == message@,
    {
        Error::InternalServerError { message }
    }

    /// The HTTP status code this error is reported with.
    pub fn status_code(&self) -> (r: u16)
        ensures
            r == status_of(*self),
    {
        match self {
            Error::Unauthorized => 401,
            Error::IdentityNotFound { .. } => 401,
            Error::UserNotFound { .. } => 401,
            Error::MissingHeader { .. } => 400,
            Error::InvalidHeader { .. } => 400,
            Error::InvalidMethod { .. } => 400,
            Error::MissingParameter { .. } => 400,
            Error::InvalidParameter { .. } => 400,
            Error::NamespaceNotFound { .. } => 404,
            Error::QueueNotFound { .. } => 404,
            Error::NotFound { .. } => 404,
            Error::PayloadTooLarge => 413,
            Error::InternalServerError { .. } => 500,
        }
    }

    /// The status line of this error: the code, a space and the reason
    /// phrase (as `http::StatusCode` displays it).
    pub fn status_line(&self) -> (r: String)
        ensures
            r@ == status_line_spec(*self),
    {
        let code = self.status_code();
        let mut s = u64_to_decimal(code as u64);
        push_char(&mut s, ' ');
        let reason = if code == 400 {
            "Bad Request"
        } else if code == 401 {
            "Unauthorized"
        } else if code == 404 {
            "Not Found"
        } else if code == 413 {
            "Payload Too Large"
        } else {
            "Internal Server Error"
        };
        s.append(reason);
        s
    }
}

/// `prefix` followed by `rest`.
fn prefixed(prefix: &str, rest: &String) -> (r: String)
    ensures
        r@ == prefix@ + rest@,
{
    let mut s = String::from_str(prefix);
    s.append(rest.as_str());
    s
}

} // verus!
