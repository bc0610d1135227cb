//! Rebuilding the download headers from a stored sidecar record.

use vstd::prelude::*;
use crate::codec::{decode, decoded, FileMetadata, MetadataView};
use crate::layout::{blob_path, blob_path_of, metadata_path_of, sidecar_of, valid_id};
use crate::name::{lemma_safe_name_ascii, lemma_sanitized_safe, sanitize_name, sanitized};
use crate::respond::Failure;
use crate::text::push_char;

verus! {

/// The two paths that belong to one identifier.
#[derive(Debug, Clone, PartialEq, Eq)]
pub struct StoredPaths {
    pub blob: String,
    pub metadata: String,
}

/// The headers that restore a file's declared name and content type.
#[derive(Debug, Clone, PartialEq, Eq)]
pub struct DownloadHeaders {
    pub content_disposition: String,
    pub content_type: String,
}

/// What stands before the file name in the disposition header.
pub open spec fn disposition_prefix() -> Seq<char> {
    "attachment; filename=\""@
}

/// The disposition header for a file declared as `name`: the sanitized name
/// between quotes.
pub open spec fn disposition_of(name: Seq<char>) -> Seq<char> {
    disposition_prefix() + sanitized(name) + seq!['"']
}

/// Whether a header value may hold `c`: the tab, and everything from the space
/// on but the delete character.
pub open spec fn is_header_char(c: char) -> bool {
    c == '\t' || (c as int >= 32 && c as int != 127)
}

/// Whether `s` can be sent as a header value.
pub open spec fn is_header_text(s: Seq<char>) -> bool {
    forall|i: int| 0 <= i < s.len() ==> is_header_char(#[trigger] s[i])
}

/// Whether the HTTP library takes `s` as a header value.
///
/// Trusted: this is `HeaderValue::from_str` of the `http` crate, reached as
/// `warp::http`. It succeeds exactly when every byte of the string is a tab,
/// or is 32 or more and not 127. In UTF-8 a character below 128 is the one
/// byte of its code, and every byte of any other character is 128 or more, so
/// the contract states the same test character by character.
#[verifier::external_body]
fn is_header_value(s: &str) -> (r: bool)
    ensures
        r == is_header_text(s@),
{
    warp::http::HeaderValue::from_str(s).is_ok()
}

/// The disposition header cannot be broken out of: besides the two quotes
/// that frame the file name it holds no quote, and it holds no backslash and
/// no control character, so neither a line break nor a second header can be
/// slipped in.
pub proof fn lemma_disposition_safe(name: Seq<char>, i: int)
    requires
        0 <= i < disposition_of(name).len(),
    ensures
        disposition_of(name)[i] as int >= 32,
        disposition_of(name)[i] as int != 127,
        disposition_of(name)[i] != '\\',
        disposition_of(name)[i] == '"' <==> (i == disposition_prefix().len() - 1 || i
            == disposition_of(name).len() - 1),
        disposition_of(name).len() == disposition_prefix().len() + sanitized(name).len() + 1,
{
    reveal_strlit("attachment; filename=\"");
    lemma_sanitized_safe(name);
    let p = disposition_prefix();
    let t = sanitized(name);
    let d = disposition_of(name);
    if i < p.len() {
        assert(d[i] == p[i]);
    } else if i < p.len() + t.len() {
        let k = i - p.len();
        assert(d[i] == t[k]);
        if t[k] as int <= 127 {
            lemma_safe_name_ascii(t, k);
        }
    } else {
        assert(d[i] == '"');
    }
}

/// The disposition header of any name can be sent as a header value.
pub proof fn lemma_disposition_is_header_text(name: Seq<char>)
    ensures
        is_header_text(disposition_of(name)),
{
    assert forall|i: int| 0 <= i < disposition_of(name).len() implies is_header_char(
        #[trigger] disposition_of(name)[i],
    ) by {
        lemma_disposition_safe(name, i);
    }
}

/// What a download is answered with, given what reading the sidecar record
/// gave: its bytes, or `None` where it is missing or unreadable. The record
/// is refused where its content type cannot be sent as a header value.
pub open spec fn download_outcome(sidecar: Option<Seq<u8>>) -> Result<MetadataView, Failure> {
    match sidecar {
        None => Err(Failure::StorageCorruption),
        Some(bytes) => match decoded(bytes) {
            Ok(m) => if is_header_text(m.mime_type) {
                Ok(m)
            } else {
                Err(Failure::StorageCorruption)
            },
            Err(_) => Err(Failure::StorageCorruption),
        },
    }
}

/// Finds the paths of `id` under `root`.
///
/// Fails with `NotFound`, before any path is made, exactly when `id` is not a
/// valid identifier.
pub fn locate(root: &str, id: &str) -> (r: Result<StoredPaths, Failure>)
    ensures
        r is Ok <==> valid_id(id@),
        r is Ok ==> r->Ok_0.blob@ == blob_path_of(root@, id@) && r->Ok_0.metadata@
            == metadata_path_of(root@, id@),
        r is Err ==> r->Err_0 == Failure::NotFound,
{
    match blob_path(root, id) {
        Some(blob) => {
            let metadata = sidecar_of(blob.as_str());
            Ok(StoredPaths { blob, metadata })
        },
        None => Err(Failure::NotFound),
    }
}

/// The download headers for a record: the sanitized name in the disposition,
/// the declared content type as it is.
///
/// Fails with `StorageCorruption` exactly when the content type cannot be sent
/// as a header value; the disposition always can.
pub fn download_headers(m: &FileMetadata) -> (r: Result<DownloadHeaders, Failure>)
    ensures
        r is Ok <==> is_header_text(m.mime_type@),
        r is Ok ==> r->Ok_0.content_disposition@ == disposition_of(m.original_name@)
            && r->Ok_0.content_type@ == m.mime_type@,
        r is Ok ==> is_header_text(r->Ok_0.content_disposition@) && is_header_text(
            r->Ok_0.content_type@,
        ),
        r is Err ==> r->Err_0 == Failure::StorageCorruption,
{
    if !is_header_value(m.mime_type.as_str()) {
        return Err(Failure::StorageCorruption);
    }
    proof {
        lemma_disposition_is_header_text(m.original_name@);
    }
    let mut value = String::from_str("attachment; filename=\"");
    let name = sanitize_name(m.original_name.as_str());
    value.append(name.as_str());
    push_char(&mut value, '"');
    Ok(DownloadHeaders { content_disposition: value, content_type: m.mime_type.clone() })
}

/// Finishes a download whose file exists, given what reading its sidecar
/// record gave: its bytes, or `None` where it is missing or unreadable.
///
/// Fails with `StorageCorruption` exactly when the record is missing, is not
/// text, is malformed, or declares a content type that cannot be sent as a
/// header value; no default name or type is ever made up.
pub fn finish_download(sidecar: Option<&[u8]>) -> (r: Result<DownloadHeaders, Failure>)
    ensures
        match (
            r,
            download_outcome(
                match sidecar {
                    Some(b) => Some(b@),
                    None => None,
                },
            ),
        ) {
            (Ok(h), Ok(m)) => h.content_disposition@ == disposition_of(m.original_name)
                && h.content_type@ == m.mime_type && is_header_text(h.content_disposition@)
                && is_header_text(h.content_type@),
            (Err(e), Err(f)) => e == f,
            _ => false,
        },
{
    match sidecar {
        None => Err(Failure::StorageCorruption),
        Some(bytes) => match decode(bytes) {
            Ok(m) => download_headers(&m),
            Err(_) => Err(Failure::StorageCorruption),
        },
    }
}

} // verus!
