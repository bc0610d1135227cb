//! What a client is told: a status code and a short plain-text body that never
//! carries a path or any other internal detail.

use vstd::prelude::*;

verus! {

/// Why a request could not be served.
#[derive(Debug, Clone, Copy, PartialEq, Eq, Structural)]
pub enum Failure {
    /// The identifier is malformed or unknown, or the stored file is absent.
    NotFound,
    /// The request body is larger than the upload cap.
    PayloadTooLarge,
    /// The form holds no part named `file`.
    MissingFilePart,
    /// A stored file has no readable, well-formed sidecar record.
    StorageCorruption,
    /// The storage volume could not be read, written or queried.
    Io,
}

/// A plain-text response.
#[derive(Debug, Clone, PartialEq, Eq)]
pub struct Reply {
    pub status: u16,
    pub body: String,
}

/// The status code that reports `f`.
pub open spec fn status_of(f: Failure) -> u16 {
    match f {
        Failure::NotFound => 404,
        Failure::PayloadTooLarge => 400,
        Failure::MissingFilePart => 400,
        Failure::StorageCorruption => 500,
        Failure::Io => 500,
    }
}

/// The body that reports `f`.
pub open spec fn message_of(f: Failure) -> Seq<char> {
    match f {
        Failure::NotFound => "Not Found"@,
        Failure::PayloadTooLarge => "Payload too large"@,
        Failure::MissingFilePart => "Bad Request"@,
        Failure::StorageCorruption => "Internal Server Error"@,
        Failure::Io => "Internal Server Error"@,
    }
}

/// The response that reports `f`.
pub fn failure_reply(f: Failure) -> (r: Reply)
    ensures
        r.status == status_of(f),
        r.body@ == message_of(f),
{
    match f {
        Failure::NotFound => Reply { status: 404, body: String::from_str("Not Found") },
        Failure::PayloadTooLarge => Reply {
            status: 400,
            body: String::from_str("Payload too large"),
        },
        Failure::MissingFilePart => Reply { status: 400, body: String::from_str("Bad Request") },
        Failure::StorageCorruption => Reply {
            status: 500,
            body: String::from_str("Internal Server Error"),
        },
        Failure::Io => Reply { status: 500, body: String::from_str("Internal Server Error") },
    }
}

/// The response that carries `body` as a success.
pub fn text_reply(body: String) -> (r: Reply)
    ensures
        r.status == 200,
        r.body@ == body@,
{
    Reply { status: 200, body }
}

/// No failure is reported with a body that names a path: every body is one of
/// four fixed texts, and the status is a client or a server error.
pub proof fn lemma_failure_is_generic(f: Failure)
    ensures
        status_of(f) == 400 || status_of(f) == 404 || status_of(f) == 500,
        message_of(f) == "Not Found"@ || message_of(f) == "Payload too large"@ || message_of(f)
            == "Bad Request"@ || message_of(f) == "Internal Server Error"@,
{
}

} // verus!
