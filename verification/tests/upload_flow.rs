use fabbit_file_agent::import_state::{ImportState, ImportStatus};
use fabbit_file_agent::model::{
    ImportAnalysis, ImportFileType, ImportManifest, ImportManifestFile, ImportSummary,
    PreparedImport, ScannedFile,
};
use fabbit_file_agent::upload::{
    migration_url, status_is_success, UploadFailure, UploadMethod, UploadRun, UploadTarget,
};

fn prepared() -> PreparedImport {
    let files = vec![
        ScannedFile {
            absolute_path: "/ws/a.ipt".to_string(),
            manifest: ImportManifestFile {
                path: "a.ipt".to_string(),
                file_type: ImportFileType::Part,
                size_bytes: 10,
            },
        },
        ScannedFile {
            absolute_path: "/ws/b.iam".to_string(),
            manifest: ImportManifestFile {
                path: "b.iam".to_string(),
                file_type: ImportFileType::Assembly,
                size_bytes: 5,
            },
        },
    ];
    PreparedImport {
        analysis: ImportAnalysis {
            selected_root: "/ws".to_string(),
            ipj_path: "p.ipj".to_string(),
            workspace_path: "/ws".to_string(),
            project_name: "P".to_string(),
            project_type: None,
            inventor_version: None,
            summary: ImportSummary {
                total_files: 2,
                total_bytes: 15,
                part_count: 1,
                assembly_count: 1,
                drawing_count: 0,
                attachment_count: 0,
            },
            warnings: vec![],
        },
        manifest: ImportManifest {
            project_name: "P".to_string(),
            ipj_path: "p.ipj".to_string(),
            inventor_version: None,
            files: files.iter().map(|f| f.manifest.clone()).collect(),
        },
        files,
    }
}

fn target(path: Option<&str>, url: &str, method: Option<&str>) -> UploadTarget {
    UploadTarget {
        path: path.map(|p| p.to_string()),
        upload_url: url.to_string(),
        method: method.map(|m| m.to_string()),
        headers: vec![("x-id".to_string(), url.to_string())],
    }
}

#[test]
fn import_state_transitions() {
    let mut state = ImportState::default();
    assert_eq!(state.snapshot().status, "idle");
    assert!(state.check_can_analyze().is_ok());

    let e = state.begin_upload(Some("tok".to_string())).err().unwrap();
    assert_eq!(e, "먼저 IPJ 폴더를 분석해 주세요.");
    let e = state.begin_upload(None).err().unwrap();
    assert_eq!(e, "로그인이 필요합니다. 트레이 메뉴에서 먼저 로그인해 주세요.");

    let analysis = state.set_prepared(prepared());
    assert_eq!(analysis.project_name, "P");
    let snap = state.snapshot();
    assert_eq!(snap.status, "ready");
    assert!(snap.analysis.is_some());
    assert!(snap.progress.is_none());

    let (p, token) = state.begin_upload(Some("tok".to_string())).unwrap();
    assert_eq!(token, "tok");
    assert_eq!(p.files.len(), 2);
    assert_eq!(state.status, ImportStatus::Uploading);
    let progress = state.snapshot().progress.unwrap();
    assert_eq!(progress.total_files, 2);
    assert_eq!(progress.total_bytes, 15);
    assert_eq!(progress.uploaded_files, 0);
    assert_eq!(progress.current_file, None);

    assert_eq!(
        state.check_can_analyze().err().unwrap(),
        "업로드가 진행 중입니다. 완료 후 다시 시도해 주세요."
    );
    assert_eq!(
        state.begin_upload(Some("tok".to_string())).err().unwrap(),
        "이미 업로드가 진행 중입니다."
    );

    state.fail_upload("boom".to_string());
    let snap = state.snapshot();
    assert_eq!(snap.status, "failed");
    assert_eq!(snap.last_error.as_deref(), Some("boom"));

    state.begin_upload(Some("tok".to_string())).unwrap();
    assert_eq!(state.last_error, None);
    state.complete_upload(2, 15);
    let snap = state.snapshot();
    assert_eq!(snap.status, "completed");
    let progress = snap.progress.unwrap();
    assert_eq!(progress.uploaded_files, 2);
    assert_eq!(progress.uploaded_bytes, 15);
}

#[test]
fn upload_run_rejects_bad_manifest_answers() {
    let p = prepared();
    let f = UploadRun::start(&p, 500, "oops", Ok(vec![])).err().unwrap();
    assert_eq!(f.message(), "매니페스트 전송이 실패했습니다. (500) oops");
    let f = UploadRun::start(&p, 200, "{", Err("EOF".to_string())).err().unwrap();
    assert_eq!(f.message(), "업로드 대상 응답을 해석하지 못했습니다: EOF. 응답 본문: {");
    let f = UploadRun::start(&p, 201, "{}", Ok(vec![])).err().unwrap();
    assert_eq!(f.message(), "업로드 대상 정보가 비어 있습니다.");
    assert!(status_is_success(299));
    assert!(!status_is_success(300));
    assert!(!status_is_success(199));
}

#[test]
fn upload_run_picks_targets_and_counts_progress() {
    let p = prepared();
    let targets = vec![
        target(Some("b.iam"), "u-b-first", None),
        target(None, "u-1", Some("post")),
        target(Some("b.iam"), "u-b-last", Some("PUT")),
    ];
    let mut run = UploadRun::start(&p, 200, "{}", Ok(targets)).unwrap();
    assert!(!run.is_finished());

    // a.ipt has no target of its own: it takes the one at its index.
    let up = run.next_upload().unwrap();
    assert_eq!(up.url, "u-b-first");
    assert_eq!(up.method, UploadMethod::Put);
    assert_eq!(up.absolute_path, "/ws/a.ipt");
    assert_eq!(up.headers, vec![("x-id".to_string(), "u-b-first".to_string())]);
    let progress = run.file_uploaded();
    assert_eq!(progress.uploaded_files, 1);
    assert_eq!(progress.uploaded_bytes, 10);
    assert_eq!(progress.total_bytes, 15);
    assert_eq!(progress.current_file.as_deref(), Some("a.ipt"));

    // b.iam takes the last target naming it.
    let up = run.next_upload().unwrap();
    assert_eq!(up.url, "u-b-last");
    assert_eq!(up.size_bytes, 5);
    let progress = run.file_uploaded();
    assert_eq!(progress.uploaded_files, 2);
    assert_eq!(progress.uploaded_bytes, 15);
    assert!(run.is_finished());
}

#[test]
fn upload_run_methods_and_missing_targets() {
    let p = prepared();
    let mut run = UploadRun::start(&p, 200, "{}", Ok(vec![target(None, "u0", Some("pOsT"))])).unwrap();
    let up = run.next_upload().unwrap();
    assert_eq!(up.method, UploadMethod::Post);
    run.file_uploaded();
    let f = run.next_upload().err().unwrap();
    assert_eq!(f.message(), "'b.iam' 파일의 업로드 대상을 찾지 못했습니다.");
}

#[test]
fn upload_failure_messages() {
    let cases = vec![
        (UploadFailure::ClientInit { error: "e".to_string() }, "HTTP 클라이언트를 초기화하지 못했습니다: e"),
        (UploadFailure::ManifestSend { error: "e".to_string() }, "매니페스트 전송에 실패했습니다: e"),
        (UploadFailure::ManifestRead { error: "e".to_string() }, "매니페스트 응답을 읽지 못했습니다: e"),
        (
            UploadFailure::FileRead { path: "a".to_string(), error: "e".to_string() },
            "'a' 파일을 읽지 못했습니다: e",
        ),
        (
            UploadFailure::FileSend { path: "a".to_string(), error: "e".to_string() },
            "'a' 파일 업로드에 실패했습니다: e",
        ),
        (
            UploadFailure::FileStatus { path: "a".to_string(), code: 403, body: "no".to_string() },
            "'a' 파일 업로드가 실패했습니다. (403) no",
        ),
        (
            UploadFailure::ManifestStatus { code: 0, body: String::new() },
            "매니페스트 전송이 실패했습니다. (0) ",
        ),
    ];
    for (f, m) in cases {
        assert_eq!(f.message(), m);
    }
    assert_eq!(migration_url("https://api.fabbit.io"), "https://api.fabbit.io/api/v1/migrations/inventor");
}

#[test]
fn file_answers_decide_progress() {
    let p = prepared();
    let mut run = UploadRun::start(&p, 200, "{}", Ok(vec![target(None, "u0", None)])).unwrap();
    let f = run.file_sent(403, "denied".to_string()).err().unwrap();
    assert_eq!(f.message(), "'a.ipt' 파일 업로드가 실패했습니다. (403) denied");
    assert_eq!(run.uploaded_files, 0);
    assert_eq!(run.uploaded_bytes, 0);
    let progress = run.file_sent(204, String::new()).unwrap();
    assert_eq!(progress.uploaded_files, 1);
    assert_eq!(progress.uploaded_bytes, 10);
    assert_eq!(progress.current_file.as_deref(), Some("a.ipt"));
    let f = run.file_sent(199, "x".to_string()).err().unwrap();
    assert_eq!(f.message(), "'b.iam' 파일 업로드가 실패했습니다. (199) x");
    let progress = run.file_sent(299, String::new()).unwrap();
    assert_eq!(progress.uploaded_bytes, 15);
    assert!(run.is_finished());
}
