//! Reporting the free space of the storage volume.

use vstd::prelude::*;
use crate::respond::{failure_reply, message_of, status_of, text_reply, Failure, Reply};

verus! {

/// The text that `humansize` gives for a byte count under its binary options:
/// the count scaled by powers of 1024, a space, and the unit's short name.
pub uninterp spec fn binary_size_text(bytes: u64) -> Seq<char>;

/// The human-readable form of a byte count, in binary units.
///
/// Trusted: this is `humansize::FileSize::file_size` on a `u64` with
/// `file_size_opts::BINARY`, which returns `Ok` for every unsigned count. The
/// contract only gives the text the name `binary_size_text`.
#[verifier::external_body]
fn render_binary_size(bytes: u64) -> (r: String)
    ensures
        r@ == binary_size_text(bytes),
{
    humansize::FileSize::file_size(&bytes, humansize::file_size_opts::BINARY).unwrap()
}

/// What the free-space request is answered with, given the rendered count or
/// the failure of the query.
pub open spec fn space_reply_of(rendered: Option<Seq<char>>) -> (u16, Seq<char>) {
    match rendered {
        Some(text) => (200, text),
        None => (status_of(Failure::Io), message_of(Failure::Io)),
    }
}

/// The answer to a free-space request for which the count was rendered as
/// `rendered`, or for which the query failed.
pub fn space_reply(rendered: Option<String>) -> (r: Reply)
    ensures
        (r.status, r.body@) == space_reply_of(
            match rendered {
                Some(t) => Some(t@),
                None => None,
            },
        ),
{
    match rendered {
        Some(text) => text_reply(text),
        None => failure_reply(Failure::Io),
    }
}

/// The answer to a free-space request, given the available bytes that the
/// volume reported, or `None` where the query failed.
pub fn free_space_reply(available: Option<u64>) -> (r: Reply)
    ensures
        (r.status, r.body@) == space_reply_of(
            match available {
                Some(n) => Some(binary_size_text(n)),
                None => None,
            },
        ),
{
    match available {
        Some(n) => space_reply(Some(render_binary_size(n))),
        None => space_reply(None),
    }
}

} // verus!
