//! Deciding what an upload stores, and where.

use vstd::prelude::*;
use crate::codec::{
    decoded, encode, encoded, lemma_round_trip, DecodeError, FileMetadata, MetadataView,
};
use crate::layout::{
    blob_path_of, join, lemma_blob_is_no_sidecar, lemma_paths_distinct, metadata_path_of,
    sidecar_of, valid_id,
};
use crate::respond::Failure;

verus! {

/// The largest request body that is accepted, in bytes.
pub const MAX_UPLOAD_BYTES: u64 = 5_000_000;

/// What one part of a multipart form declares about itself.
#[derive(Debug, Clone, PartialEq, Eq)]
pub struct FormPart {
    pub name: String,
    pub filename: Option<String>,
    pub content_type: Option<String>,
}

/// Everything an upload writes: the part whose bytes are stored, the new
/// identifier, both paths, and the sidecar record with its stored form.
#[derive(Debug, Clone, PartialEq, Eq)]
pub struct UploadPlan {
    pub part_index: usize,
    pub id: String,
    pub blob_path: String,
    pub metadata_path: String,
    pub metadata: FileMetadata,
    pub metadata_bytes: Vec<u8>,
}

/// The name of the form field that carries the file.
pub open spec fn file_field() -> Seq<char> {
    "file"@
}

/// The content type recorded where the client declared none.
pub open spec fn default_mime_type() -> Seq<char> {
    "application/octet-stream"@
}

/// Whether `i` is the first part of the form that is named `file`.
pub open spec fn is_file_part(parts: Seq<FormPart>, i: int) -> bool {
    &&& 0 <= i < parts.len()
    &&& parts[i].name@ == file_field()
    &&& forall|j: int| 0 <= j < i ==> (#[trigger] parts[j]).name@ != file_field()
}

/// Whether no part of the form is named `file`.
pub open spec fn has_no_file_part(parts: Seq<FormPart>) -> bool {
    forall|j: int| 0 <= j < parts.len() ==> (#[trigger] parts[j]).name@ != file_field()
}

/// The name recorded for a part stored under `id`: the declared file name, or
/// the identifier where none was declared.
pub open spec fn recorded_name(part: FormPart, id: Seq<char>) -> Seq<char> {
    match part.filename {
        Some(n) => n@,
        None => id,
    }
}

/// The content type recorded for a part.
pub open spec fn recorded_mime_type(part: FormPart) -> Seq<char> {
    match part.content_type {
        Some(t) => t@,
        None => default_mime_type(),
    }
}

/// Whether `plan` is what storing the form's file part under `id` means.
pub open spec fn is_plan_for(
    plan: UploadPlan,
    parts: Seq<FormPart>,
    root: Seq<char>,
    id: Seq<char>,
) -> bool {
    &&& is_file_part(parts, plan.part_index as int)
    &&& plan.id@ == id
    &&& plan.blob_path@ == blob_path_of(root, id)
    &&& plan.metadata_path@ == metadata_path_of(root, id)
    &&& plan.metadata.original_name@ == recorded_name(parts[plan.part_index as int], id)
    &&& plan.metadata.mime_type@ == recorded_mime_type(parts[plan.part_index as int])
    &&& plan.metadata_bytes@ == encoded(plan.metadata@)
}

/// What the server last saw happen while it carried out an upload plan.
#[derive(Debug, Clone, Copy, PartialEq, Eq, Structural)]
pub enum UploadEvent {
    /// The plan was made; nothing has been done yet.
    Planned,
    /// The body of the file part was read in full; it has this many bytes.
    BodyRead(u64),
    /// The client went away, or the body could not be read.
    BodyFailed,
    /// The file was written.
    BlobWritten,
    /// The file could not be written.
    BlobFailed,
    /// The sidecar record was written.
    SidecarWritten,
    /// The sidecar record could not be written.
    SidecarFailed,
}

/// What the server does next with an upload plan.
#[derive(Debug, Clone, Copy, PartialEq, Eq, Structural)]
pub enum UploadAction {
    /// Read the body of the planned part into memory.
    ReadBody,
    /// Write the body to the plan's file path.
    WriteBlob,
    /// Write the plan's record bytes to its sidecar path.
    WriteSidecar,
    /// Answer with the new identifier.
    Succeed,
    /// Answer with the failure; nothing is rolled back.
    Fail(Failure),
}

/// The action that follows an event: body, file, sidecar and answer in that
/// order; a client error for a body over the cap, and a server error at the
/// first thing that fails.
pub open spec fn action_after(event: UploadEvent) -> UploadAction {
    match event {
        UploadEvent::Planned => UploadAction::ReadBody,
        UploadEvent::BodyRead(len) => if len <= MAX_UPLOAD_BYTES {
            UploadAction::WriteBlob
        } else {
            UploadAction::Fail(Failure::PayloadTooLarge)
        },
        UploadEvent::BlobWritten => UploadAction::WriteSidecar,
        UploadEvent::SidecarWritten => UploadAction::Succeed,
        UploadEvent::BodyFailed => UploadAction::Fail(Failure::Io),
        UploadEvent::BlobFailed => UploadAction::Fail(Failure::Io),
        UploadEvent::SidecarFailed => UploadAction::Fail(Failure::Io),
    }
}

/// The file is written only once the whole body is in memory and within the
/// cap, the sidecar record only once the file is written, and success is
/// reported only once the sidecar record is written.
pub proof fn lemma_upload_order(event: UploadEvent)
    ensures
        action_after(event) == UploadAction::WriteBlob <==> (event matches UploadEvent::BodyRead(
            len,
        ) && len <= 5_000_000),
        action_after(event) == UploadAction::WriteSidecar <==> event == UploadEvent::BlobWritten,
        action_after(event) == UploadAction::Succeed <==> event == UploadEvent::SidecarWritten,
{
}

/// What to do next, given what happened last.
pub fn next_upload_action(event: UploadEvent) -> (r: UploadAction)
    ensures
        r == action_after(event),
{
    match event {
        UploadEvent::Planned => UploadAction::ReadBody,
        UploadEvent::BodyRead(len) => {
            if within_size_cap(len) {
                UploadAction::WriteBlob
            } else {
                UploadAction::Fail(Failure::PayloadTooLarge)
            }
        },
        UploadEvent::BlobWritten => UploadAction::WriteSidecar,
        UploadEvent::SidecarWritten => UploadAction::Succeed,
        UploadEvent::BodyFailed | UploadEvent::BlobFailed | UploadEvent::SidecarFailed => {
            UploadAction::Fail(Failure::Io)
        },
    }
}

/// A fresh random identifier.
///
/// Trusted: this is `uuid::Uuid::new_v4` rendered by the `Display` impl of
/// `Uuid`, which writes the hyphenated lowercase form: 32 hexadecimal digits in
/// groups of 8, 4, 4, 4 and 12. Which digits come out is left open. The call
/// fails only where the system has no source of random bytes.
#[verifier::external_body]
fn random_id() -> (r: String)
    ensures
        valid_id(r@),
{
    uuid::Uuid::new_v4().to_string()
}

/// Whether a body of `len` bytes is within the upload cap.
pub fn within_size_cap(len: u64) -> (r: bool)
    ensures
        r == (len <= 5_000_000),
{
    len <= MAX_UPLOAD_BYTES
}

/// The first part named `file`, if there is one.
pub fn find_file_part(parts: &Vec<FormPart>) -> (r: Option<usize>)
    ensures
        match r {
            Some(i) => is_file_part(parts@, i as int),
            None => has_no_file_part(parts@),
        },
{
    let wanted = String::from_str("file");
    let mut i: usize = 0;
    while i < parts.len()
        invariant
            i <= parts.len(),
            wanted@ == file_field(),
            forall|j: int| 0 <= j < i ==> (#[trigger] parts@[j]).name@ != file_field(),
        decreases parts.len() - i,
    {
        if parts[i].name == wanted {
            return Some(i);
        }
        i += 1;
    }
    None
}

/// The plan that stores part `index` under the identifier `id`.
fn plan_for_part(parts: &Vec<FormPart>, index: usize, root: &str, id: String) -> (plan: UploadPlan)
    requires
        is_file_part(parts@, index as int),
        valid_id(id@),
    ensures
        is_plan_for(plan, parts@, root@, id@),
{
    let part = &parts[index];
    let original_name = match &part.filename {
        Some(n) => n.clone(),
        None => id.clone(),
    };
    let mime_type = match &part.content_type {
        Some(t) => t.clone(),
        None => String::from_str("application/octet-stream"),
    };
    let metadata = FileMetadata { original_name, mime_type };
    let metadata_bytes = encode(&metadata);
    let blob_path = join(root, id.as_str());
    let metadata_path = sidecar_of(blob_path.as_str());
    UploadPlan { part_index: index, id, blob_path, metadata_path, metadata, metadata_bytes }
}

/// Plans the upload of a form under the identifier `id`.
///
/// Fails with `MissingFilePart` exactly when the form has no part named
/// `file`.
pub fn plan_upload_as(parts: &Vec<FormPart>, root: &str, id: String) -> (r: Result<
    UploadPlan,
    Failure,
>)
    requires
        valid_id(id@),
    ensures
        match r {
            Ok(plan) => is_plan_for(plan, parts@, root@, id@),
            Err(f) => f == Failure::MissingFilePart && has_no_file_part(parts@),
        },
{
    match find_file_part(parts) {
        Some(index) => Ok(plan_for_part(parts, index, root, id)),
        None => Err(Failure::MissingFilePart),
    }
}

/// Plans the upload of a form under a fresh random identifier.
///
/// Fails with `MissingFilePart` exactly when the form has no part named
/// `file`; no identifier is drawn then. The identifier comes from the random
/// source alone: nothing that the client sent enters it.
pub fn plan_upload(parts: &Vec<FormPart>, root: &str) -> (r: Result<UploadPlan, Failure>)
    ensures
        match r {
            Ok(plan) => valid_id(plan.id@) && is_plan_for(plan, parts@, root@, plan.id@),
            Err(f) => f == Failure::MissingFilePart && has_no_file_part(parts@),
        },
{
    match find_file_part(parts) {
        Some(index) => Ok(plan_for_part(parts, index, root, random_id())),
        None => Err(Failure::MissingFilePart),
    }
}

/// Two uploads whose identifiers differ never touch the same path, whatever
/// their forms hold, and the record of each reads back as its own.
pub proof fn lemma_uploads_independent(
    p: UploadPlan,
    q: UploadPlan,
    parts_p: Seq<FormPart>,
    parts_q: Seq<FormPart>,
    root: Seq<char>,
)
    requires
        valid_id(p.id@),
        valid_id(q.id@),
        p.id@ != q.id@,
        is_plan_for(p, parts_p, root, p.id@),
        is_plan_for(q, parts_q, root, q.id@),
    ensures
        p.blob_path@ != q.blob_path@,
        p.metadata_path@ != q.metadata_path@,
        p.blob_path@ != q.metadata_path@,
        p.metadata_path@ != q.blob_path@,
        decoded(p.metadata_bytes@) == Ok::<MetadataView, DecodeError>(p.metadata@),
        decoded(q.metadata_bytes@) == Ok::<MetadataView, DecodeError>(q.metadata@),
{
    lemma_paths_distinct(root, p.id@, q.id@);
    lemma_blob_is_no_sidecar(root, p.id@, q.id@);
    lemma_blob_is_no_sidecar(root, q.id@, p.id@);
    lemma_round_trip(p.metadata@);
    lemma_round_trip(q.metadata@);
}

} // verus!
