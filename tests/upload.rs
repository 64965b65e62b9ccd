use watch_upload::event::{settled_candidates, ChangeKind, RawEvent};
use watch_upload::upload::{classify_response, plan_upload, PipelineConfig, SkipReason, UploadOutcome, UploadRequest};

fn config(routing: bool, suffix: Option<&str>) -> PipelineConfig {
    PipelineConfig::new(
        "/data".to_string(),
        true,
        "http://localhost:8080/upload".to_string(),
        suffix.map(|s| s.to_string()),
        Some(vec!["XLS".to_string()]),
        routing,
    )
}

#[test]
fn status_200_is_success() {
    assert_eq!(classify_response(&Ok(200)), UploadOutcome::Success);
    assert_eq!(classify_response(&Ok(204)), UploadOutcome::Success);
    assert_eq!(classify_response(&Ok(299)), UploadOutcome::Success);
}

#[test]
fn status_500_is_server_rejected() {
    assert_eq!(classify_response(&Ok(500)), UploadOutcome::ServerRejected(500));
    assert_eq!(classify_response(&Ok(300)), UploadOutcome::ServerRejected(300));
    assert_eq!(classify_response(&Ok(199)), UploadOutcome::ServerRejected(199));
    assert_eq!(classify_response(&Ok(0)), UploadOutcome::ServerRejected(0));
}

#[test]
fn connection_refused_is_transport_error() {
    let cause = "connection refused".to_string();
    assert_eq!(classify_response(&Err(cause.clone())), UploadOutcome::TransportError(cause));
}

#[test]
fn new_config_lower_cases_allow_list() {
    let c = config(true, None);
    assert_eq!(c.allow_list, Some(vec!["xls".to_string()]));
    assert_eq!(c.root, "/data");
    assert!(c.recursive);
}

#[test]
fn new_file_under_root_is_sent_once_with_empty_path_part() {
    let c = config(true, None);
    let batch = vec![
        RawEvent { kind: ChangeKind::Created, paths: vec!["/data/notes.xls".to_string()] },
        RawEvent { kind: ChangeKind::Modified, paths: vec!["/data/notes.xls".to_string()] },
        RawEvent { kind: ChangeKind::Modified, paths: vec!["/data/notes.xls".to_string()] },
    ];
    let requests: Vec<UploadRequest> = settled_candidates(&batch)
        .iter()
        .filter_map(|p| plan_upload(&c, p, true, Some(p.clone())).ok())
        .collect();
    assert_eq!(
        requests,
        vec![UploadRequest {
            file: "/data/notes.xls".to_string(),
            url: "http://localhost:8080/upload".to_string(),
            path_field: Some(String::new()),
        }]
    );
}

#[test]
fn png_under_root_is_never_sent() {
    let c = config(true, None);
    let p = "/data/img.png";
    assert_eq!(plan_upload(&c, p, true, Some(p.to_string())), Err(SkipReason::NotQualifying));
    let c = config(false, None);
    assert_eq!(plan_upload(&c, p, true, None), Err(SkipReason::NotQualifying));
}

#[test]
fn nested_file_carries_routing_segments() {
    let c = config(true, Some("/files"));
    let r = plan_upload(&c, "/data/a/b/Report.XLS", true, Some("/data/a/b/Report.XLS".to_string()));
    assert_eq!(
        r,
        Ok(UploadRequest {
            file: "/data/a/b/Report.XLS".to_string(),
            url: "http://localhost:8080/upload/files".to_string(),
            path_field: Some("a,b".to_string()),
        })
    );
}

#[test]
fn without_routing_no_path_part_is_sent() {
    let c = config(false, None);
    let r = plan_upload(&c, "/data/a/report.xls", true, None);
    assert_eq!(r.map(|q| q.path_field), Ok(None));
}

#[test]
fn vanished_file_is_unresolvable() {
    let c = config(true, None);
    assert_eq!(plan_upload(&c, "/data/a/report.xls", true, None), Err(SkipReason::Unresolvable));
}

#[test]
fn symlink_escape_is_outside_root() {
    let c = config(true, None);
    assert_eq!(
        plan_upload(&c, "/data/link.xls", true, Some("/srv/elsewhere/link.xls".to_string())),
        Err(SkipReason::OutsideRoot)
    );
}

#[test]
fn deleted_file_is_not_qualifying() {
    let c = config(true, None);
    assert_eq!(plan_upload(&c, "/data/gone.xls", false, None), Err(SkipReason::NotQualifying));
}
