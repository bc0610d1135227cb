use filedrop::download::{download_headers, finish_download, locate};
use filedrop::codec::{encode, FileMetadata};
use filedrop::layout::{blob_path, is_valid_id, metadata_path, ID_LENGTH};
use filedrop::respond::{failure_reply, text_reply, Failure};
use filedrop::space::{free_space_reply, space_reply};
use filedrop::upload::{
    find_file_part, next_upload_action, plan_upload, plan_upload_as, within_size_cap, FormPart,
    UploadAction, UploadEvent, MAX_UPLOAD_BYTES,
};

const ID: &str = "936da01f-9abd-4d9d-80c7-02af85c822a8";

fn part(name: &str, filename: Option<&str>, content_type: Option<&str>) -> FormPart {
    FormPart {
        name: name.to_string(),
        filename: filename.map(|s| s.to_string()),
        content_type: content_type.map(|s| s.to_string()),
    }
}

#[test]
fn generated_form_is_valid() {
    assert_eq!(ID.len(), ID_LENGTH);
    assert!(is_valid_id(ID));
    assert!(is_valid_id("00000000-0000-0000-0000-000000000000"));
}

#[test]
fn other_forms_are_invalid() {
    assert!(!is_valid_id(""));
    assert!(!is_valid_id("936da01f9abd4d9d80c702af85c822a8"));
    assert!(!is_valid_id("936DA01F-9ABD-4D9D-80C7-02AF85C822A8"));
    assert!(!is_valid_id("936da01f-9abd-4d9d-80c7-02af85c822a"));
    assert!(!is_valid_id("936da01f-9abd-4d9d-80c7-02af85c822a8a"));
    assert!(!is_valid_id("936da01f-9abd-4d9d-80c7-02af85c822g8"));
    assert!(!is_valid_id("936da01f-9abd-4d9d-80c7002af85c822a8"));
    assert!(!is_valid_id("936da01f-9abd-4d9d-80c7-02af85c8/../"));
    assert!(!is_valid_id("../../etc/passwd"));
    assert!(!is_valid_id("................................/..."));
    assert!(!is_valid_id("936da01f-9abd-4d9d-80c7-02af85c822é8"));
}

#[test]
fn paths_are_siblings_under_the_root() {
    assert_eq!(
        blob_path("/srv/uploads", ID),
        Some("/srv/uploads/936da01f-9abd-4d9d-80c7-02af85c822a8".to_string())
    );
    assert_eq!(
        metadata_path("/srv/uploads", ID),
        Some("/srv/uploads/936da01f-9abd-4d9d-80c7-02af85c822a8.meta.json".to_string())
    );
    assert_eq!(blob_path("/srv/uploads/", ID), blob_path("/srv/uploads", ID));
    assert_eq!(blob_path("", ID), Some(ID.to_string()));
    assert_eq!(blob_path("/", ID), Some(format!("/{}", ID)));
}

#[test]
fn invalid_ids_have_no_path() {
    assert_eq!(blob_path("/srv/uploads", "../../etc/passwd"), None);
    assert_eq!(metadata_path("/srv/uploads", "../../etc/passwd"), None);
    assert_eq!(blob_path("/srv/uploads", ""), None);
}

#[test]
fn traversal_ids_are_not_found() {
    assert_eq!(locate("/srv/uploads", "../../etc/passwd"), Err(Failure::NotFound));
    assert_eq!(locate("/srv/uploads", ".."), Err(Failure::NotFound));
    assert_eq!(locate("/srv/uploads", "a/b"), Err(Failure::NotFound));
    let found = locate("/srv/uploads", ID).unwrap();
    assert_eq!(found.blob, "/srv/uploads/936da01f-9abd-4d9d-80c7-02af85c822a8");
    assert_eq!(found.metadata, "/srv/uploads/936da01f-9abd-4d9d-80c7-02af85c822a8.meta.json");
}

#[test]
fn size_cap_is_five_million_bytes() {
    assert_eq!(MAX_UPLOAD_BYTES, 5_000_000);
    assert!(within_size_cap(0));
    assert!(within_size_cap(5_000_000));
    assert!(!within_size_cap(5_000_001));
    assert!(!within_size_cap(u64::MAX));
}

#[test]
fn first_file_part_is_chosen() {
    let parts = vec![
        part("note", None, None),
        part("file", Some("a.txt"), Some("text/plain")),
        part("file", Some("b.txt"), None),
    ];
    assert_eq!(find_file_part(&parts), Some(1));
    assert_eq!(find_file_part(&vec![part("File", None, None), part("files", None, None)]), None);
    assert_eq!(find_file_part(&Vec::new()), None);
}

#[test]
fn upload_without_file_part_is_refused() {
    let parts = vec![part("note", Some("file"), None)];
    assert_eq!(plan_upload(&parts, "/srv/uploads"), Err(Failure::MissingFilePart));
    assert_eq!(
        plan_upload_as(&parts, "/srv/uploads", ID.to_string()),
        Err(Failure::MissingFilePart)
    );
    assert_eq!(plan_upload(&Vec::new(), "/srv/uploads"), Err(Failure::MissingFilePart));
    assert_eq!(failure_reply(Failure::MissingFilePart).status, 400);
}

#[test]
fn upload_plan_is_exact() {
    let parts = vec![part("file", Some("report.v1.pdf"), Some("application/pdf"))];
    let plan = plan_upload_as(&parts, "/srv/uploads", ID.to_string()).unwrap();
    assert_eq!(plan.part_index, 0);
    assert_eq!(plan.id, ID);
    assert_eq!(plan.blob_path, "/srv/uploads/936da01f-9abd-4d9d-80c7-02af85c822a8");
    assert_eq!(plan.metadata_path, "/srv/uploads/936da01f-9abd-4d9d-80c7-02af85c822a8.meta.json");
    assert_eq!(plan.metadata.original_name, "report.v1.pdf");
    assert_eq!(plan.metadata.mime_type, "application/pdf");
    assert_eq!(
        plan.metadata_bytes,
        b"{\"original_name\":\"report.v1.pdf\",\"mime_type\":\"application/pdf\"}".to_vec()
    );
}

#[test]
fn upload_then_download_restores_headers() {
    let parts = vec![part("file", Some("report.v1.pdf"), Some("application/pdf"))];
    let plan = plan_upload(&parts, "/srv/uploads").unwrap();
    let headers = finish_download(Some(&plan.metadata_bytes)).unwrap();
    assert_eq!(headers.content_type, "application/pdf");
    assert_eq!(headers.content_disposition, "attachment; filename=\"report.v_.pdf\"");
}

#[test]
fn upload_defaults_apply() {
    let parts = vec![part("file", None, None)];
    let plan = plan_upload_as(&parts, "/srv/uploads", ID.to_string()).unwrap();
    assert_eq!(plan.metadata.original_name, ID);
    assert_eq!(plan.metadata.mime_type, "application/octet-stream");
    let headers = finish_download(Some(&plan.metadata_bytes)).unwrap();
    assert_eq!(headers.content_type, "application/octet-stream");
    assert_eq!(
        headers.content_disposition,
        "attachment; filename=\"_da_f_abd_d_d_c_af_c_a_\""
    );
}

#[test]
fn fresh_ids_are_valid_and_distinct() {
    let parts = vec![part("file", None, None)];
    let a = plan_upload(&parts, "/srv/uploads").unwrap();
    let b = plan_upload(&parts, "/srv/uploads").unwrap();
    assert!(is_valid_id(&a.id));
    assert!(is_valid_id(&b.id));
    assert_ne!(a.id, b.id);
    assert_ne!(a.blob_path, b.blob_path);
    assert_ne!(a.metadata_path, b.metadata_path);
    assert_eq!(a.metadata.original_name, a.id);
    assert_eq!(Some(a.blob_path.clone()), blob_path("/srv/uploads", &a.id));
}

#[test]
fn download_headers_are_rebuilt() {
    let m = FileMetadata {
        original_name: "evil\"\r\nX-Injected: 1".to_string(),
        mime_type: "text/html; charset=utf-8".to_string(),
    };
    let headers = download_headers(&m).unwrap();
    assert_eq!(headers.content_disposition, "attachment; filename=\"evil_X_Injected_\"");
    assert_eq!(headers.content_type, "text/html; charset=utf-8");
    assert_eq!(finish_download(Some(&encode(&m))), Ok(headers));
}

#[test]
fn missing_or_corrupt_sidecar_is_a_server_error() {
    assert_eq!(finish_download(None), Err(Failure::StorageCorruption));
    assert_eq!(finish_download(Some(b"")), Err(Failure::StorageCorruption));
    assert_eq!(finish_download(Some(b"{\"original_name\":\"a\"}")), Err(Failure::StorageCorruption));
    assert_eq!(finish_download(Some(&[0xff, 0xff])), Err(Failure::StorageCorruption));
    assert_eq!(failure_reply(Failure::StorageCorruption).status, 500);
}

#[test]
fn failures_have_fixed_replies() {
    let r = failure_reply(Failure::NotFound);
    assert_eq!((r.status, r.body.as_str()), (404, "Not Found"));
    let r = failure_reply(Failure::PayloadTooLarge);
    assert_eq!((r.status, r.body.as_str()), (400, "Payload too large"));
    let r = failure_reply(Failure::MissingFilePart);
    assert_eq!((r.status, r.body.as_str()), (400, "Bad Request"));
    let r = failure_reply(Failure::StorageCorruption);
    assert_eq!((r.status, r.body.as_str()), (500, "Internal Server Error"));
    let r = failure_reply(Failure::Io);
    assert_eq!((r.status, r.body.as_str()), (500, "Internal Server Error"));
    let r = text_reply(ID.to_string());
    assert_eq!((r.status, r.body.as_str()), (200, ID));
}

#[test]
fn free_space_is_rendered_in_binary_units() {
    let r = free_space_reply(Some(0));
    assert_eq!((r.status, r.body.as_str()), (200, "0 B"));
    let r = free_space_reply(Some(1023));
    assert_eq!((r.status, r.body.as_str()), (200, "1023 B"));
    let r = free_space_reply(Some(1024));
    assert_eq!((r.status, r.body.as_str()), (200, "1 KiB"));
    let r = free_space_reply(Some(1536));
    assert_eq!((r.status, r.body.as_str()), (200, "1.50 KiB"));
    let r = free_space_reply(Some(512 * 1024 * 1024));
    assert_eq!((r.status, r.body.as_str()), (200, "512 MiB"));
    let r = free_space_reply(Some(u64::MAX));
    assert_eq!((r.status, r.body.as_str()), (200, "16 EiB"));
}

#[test]
fn failed_space_query_is_a_server_error() {
    let r = free_space_reply(None);
    assert_eq!((r.status, r.body.as_str()), (500, "Internal Server Error"));
    let r = space_reply(None);
    assert_eq!(r.status, 500);
    let r = space_reply(Some("7 GiB".to_string()));
    assert_eq!((r.status, r.body.as_str()), (200, "7 GiB"));
}

#[test]
fn upload_steps_follow_in_order() {
    assert_eq!(next_upload_action(UploadEvent::Planned), UploadAction::ReadBody);
    assert_eq!(next_upload_action(UploadEvent::BodyRead(0)), UploadAction::WriteBlob);
    assert_eq!(next_upload_action(UploadEvent::BodyRead(5_000_000)), UploadAction::WriteBlob);
    assert_eq!(next_upload_action(UploadEvent::BlobWritten), UploadAction::WriteSidecar);
    assert_eq!(next_upload_action(UploadEvent::SidecarWritten), UploadAction::Succeed);
}

#[test]
fn oversized_body_is_a_client_error() {
    assert_eq!(
        next_upload_action(UploadEvent::BodyRead(5_000_001)),
        UploadAction::Fail(Failure::PayloadTooLarge)
    );
    assert_eq!(failure_reply(Failure::PayloadTooLarge).status, 400);
}

#[test]
fn failed_upload_steps_are_server_errors() {
    assert_eq!(next_upload_action(UploadEvent::BodyFailed), UploadAction::Fail(Failure::Io));
    assert_eq!(next_upload_action(UploadEvent::BlobFailed), UploadAction::Fail(Failure::Io));
    assert_eq!(next_upload_action(UploadEvent::SidecarFailed), UploadAction::Fail(Failure::Io));
    assert_eq!(failure_reply(Failure::Io).status, 500);
}

#[test]
fn unsendable_content_type_is_a_server_error() {
    let record = |mime: &str| FileMetadata {
        original_name: "a.txt".to_string(),
        mime_type: mime.to_string(),
    };
    for mime in ["text/plain\r\nX-Injected: 1", "a\nb", "a\u{0}b", "a\u{7f}b", "\u{1f}"] {
        assert_eq!(download_headers(&record(mime)), Err(Failure::StorageCorruption));
        assert_eq!(
            finish_download(Some(&encode(&record(mime)))),
            Err(Failure::StorageCorruption)
        );
    }
    for mime in ["", "text/plain", "a\tb", "a b", "text/x-\u{e9}", "~"] {
        let headers = download_headers(&record(mime)).unwrap();
        assert_eq!(headers.content_type, mime);
        assert_eq!(headers.content_disposition, "attachment; filename=\"a.txt\"");
    }
}

#[test]
fn sidecars_and_files_never_collide() {
    let parts = vec![part("file", Some("a.meta.json"), None)];
    let a = plan_upload(&parts, "/srv/uploads").unwrap();
    let b = plan_upload(&parts, "/srv/uploads").unwrap();
    assert_ne!(a.blob_path, b.metadata_path);
    assert_ne!(a.metadata_path, b.blob_path);
    assert_ne!(a.blob_path, a.metadata_path);
    assert_eq!(finish_download(Some(&a.metadata_bytes)), finish_download(Some(&b.metadata_bytes)));
}
