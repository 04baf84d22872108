use fabbit_file_agent::ipj::{normalize_name, normalized_node_path, parse_ipj, push_unique};
use fabbit_file_agent::model::ImportFileType;
use fabbit_file_agent::prepare::{
    resolve_workspace_root, workspace_candidate, ImportPreparation, PrepareRequest, WalkEntry,
};
use fabbit_file_agent::scan::{ScanEntry};

fn listing(entries: &[(&str, bool)]) -> Vec<Result<WalkEntry, String>> {
    entries
        .iter()
        .map(|(p, f)| Ok(WalkEntry { path: p.to_string(), is_file: *f }))
        .collect()
}

fn scan_items(entries: &[(&str, bool, u64)]) -> Vec<Result<ScanEntry, String>> {
    entries
        .iter()
        .map(|(p, f, s)| Ok(ScanEntry { path: p.to_string(), is_file: *f, size: Ok(*s) }))
        .collect()
}

#[test]
fn parse_ipj_extracts_core_fields() {
    let xml = r#"
        <Project inventorVersion="2024">
          <ProjectName>Motor Assembly</ProjectName>
          <ProjectType>Vault</ProjectType>
          <WorkspacePath>Workspace</WorkspacePath>
          <LibraryPaths>
            <LibraryPath>Libraries/Common</LibraryPath>
          </LibraryPaths>
          <ContentCenterPaths>
            <ContentCenterPath>ContentCenter</ContentCenterPath>
          </ContentCenterPaths>
        </Project>
        "#;

    let parsed = parse_ipj(xml).unwrap();
    assert_eq!(parsed.project_name.as_deref(), Some("Motor Assembly"));
    assert_eq!(parsed.project_type.as_deref(), Some("Vault"));
    assert_eq!(parsed.workspace_path.as_deref(), Some("Workspace"));
    assert_eq!(parsed.inventor_version.as_deref(), Some("2024"));
    assert_eq!(parsed.library_paths, vec!["Libraries/Common"]);
    assert_eq!(parsed.content_center_paths, vec!["ContentCenter"]);
}

#[test]
fn build_prepared_import_requires_single_ipj() {
    let (mut prep, first) = ImportPreparation::new("/tmp/fabbit-file-agent-single-ipj");
    assert!(matches!(first, PrepareRequest::CheckFolder { .. }));
    let next = prep.folder_checked(true);
    assert!(matches!(next, PrepareRequest::ListFolder { .. }));
    let result = prep.folder_listed(&listing(&[
        ("/tmp/fabbit-file-agent-single-ipj", false),
        ("/tmp/fabbit-file-agent-single-ipj/a.ipj", true),
        ("/tmp/fabbit-file-agent-single-ipj/b.ipj", true),
    ]));
    match result {
        PrepareRequest::Finished(Err(error)) => assert!(error.contains("여러 IPJ 파일")),
        _ => panic!("expected an error"),
    }
}

#[test]
fn build_prepared_import_scans_workspace_and_classifies_files() {
    let root = "/tmp/fabbit-file-agent-scan-workspace";
    let (mut prep, _) = ImportPreparation::new(root);
    prep.folder_checked(true);
    let read = prep.folder_listed(&listing(&[
        (root, false),
        ("/tmp/fabbit-file-agent-scan-workspace/Workspace", false),
        ("/tmp/fabbit-file-agent-scan-workspace/project.ipj", true),
    ]));
    match &read {
        PrepareRequest::ReadProjectFile { path } => {
            assert_eq!(path, "/tmp/fabbit-file-agent-scan-workspace/project.ipj")
        }
        _ => panic!("expected a read request"),
    }
    let xml = r#"
            <Project>
              <ProjectName>Motor Assembly</ProjectName>
              <ProjectType>Vault</ProjectType>
              <WorkspacePath>Workspace</WorkspacePath>
            </Project>
            "#;
    let check = prep.project_file_read(Ok(xml.to_string()));
    match &check {
        PrepareRequest::CheckWorkspace { path } => {
            assert_eq!(path, "/tmp/fabbit-file-agent-scan-workspace/Workspace")
        }
        _ => panic!("expected a workspace check"),
    }
    let scan = prep.workspace_checked(true);
    assert!(matches!(scan, PrepareRequest::ScanWorkspace { .. }));
    let ws = "/tmp/fabbit-file-agent-scan-workspace/Workspace";
    let items = scan_items(&[
        (ws, false, 0),
        ("/tmp/fabbit-file-agent-scan-workspace/Workspace/Drawings", false, 0),
        ("/tmp/fabbit-file-agent-scan-workspace/Workspace/Docs", false, 0),
        ("/tmp/fabbit-file-agent-scan-workspace/Workspace/shaft.ipt", true, 4),
        ("/tmp/fabbit-file-agent-scan-workspace/Workspace/motor.iam", true, 8),
        ("/tmp/fabbit-file-agent-scan-workspace/Workspace/Drawings/shaft.dwg", true, 7),
        ("/tmp/fabbit-file-agent-scan-workspace/Workspace/Docs/spec.pdf", true, 3),
        ("/tmp/fabbit-file-agent-scan-workspace/Workspace/~temp.tmp", true, 4),
    ]);
    let prepared = match prep.workspace_scanned(&items) {
        PrepareRequest::Finished(Ok(p)) => p,
        _ => panic!("expected a prepared import"),
    };

    assert_eq!(prepared.analysis.project_name, "Motor Assembly");
    assert_eq!(prepared.analysis.summary.total_files, 4);
    assert_eq!(prepared.analysis.summary.part_count, 1);
    assert_eq!(prepared.analysis.summary.assembly_count, 1);
    assert_eq!(prepared.analysis.summary.drawing_count, 1);
    assert_eq!(prepared.analysis.summary.attachment_count, 1);
    assert_eq!(prepared.manifest.files.len(), 4);
    assert!(prepared
        .manifest
        .files
        .iter()
        .any(|file| file.path == "Drawings/shaft.dwg"));
}

#[test]
fn resolve_workspace_root_falls_back_to_ipj_dir_when_missing() {
    let dir = "/tmp/fabbit-file-agent-workspace-fallback";
    let mut warnings = Vec::new();
    let resolved = resolve_workspace_root(dir, Some("Missing"), false, &mut warnings);

    assert_eq!(resolved, dir.to_string());
    assert_eq!(warnings.len(), 1);
}

#[test]
fn prepared_import_details() {
    let root = "/tmp/p";
    let (mut prep, _) = ImportPreparation::new(root);
    prep.folder_checked(true);
    prep.folder_listed(&listing(&[("/tmp/p/sub/demo.IPJ", true)]));
    let xml = r#"<Project><Library><Path>lib</Path></Library></Project>"#;
    let next = prep.project_file_read(Ok(xml.to_string()));
    // No workspace in the file: the project folder is scanned right away.
    match &next {
        PrepareRequest::ScanWorkspace { root } => assert_eq!(root, "/tmp/p/sub"),
        _ => panic!("expected a scan request"),
    }
    let items = scan_items(&[
        ("/tmp/p/sub/z.ipt", true, 10),
        ("/tmp/p/sub/demo.IPJ", true, 5),
        ("/tmp/p/sub/a.IAM", true, 20),
        ("/tmp/p/sub/.hidden", true, 1),
    ]);
    let prepared = match prep.workspace_scanned(&items) {
        PrepareRequest::Finished(Ok(p)) => p,
        _ => panic!("expected a prepared import"),
    };
    // The name falls back to the project file's stem.
    assert_eq!(prepared.analysis.project_name, "demo");
    assert_eq!(prepared.manifest.project_name, "demo");
    assert_eq!(prepared.analysis.ipj_path, "sub/demo.IPJ");
    assert_eq!(prepared.manifest.ipj_path, "sub/demo.IPJ");
    assert_eq!(prepared.analysis.workspace_path, "/tmp/p/sub");
    assert_eq!(prepared.analysis.selected_root, "/tmp/p");
    assert_eq!(prepared.analysis.summary.total_files, 2);
    assert_eq!(prepared.analysis.summary.total_bytes, 30);
    // Files come in path order.
    let paths: Vec<&str> = prepared.manifest.files.iter().map(|f| f.path.as_str()).collect();
    assert_eq!(paths, vec!["a.IAM", "z.ipt"]);
    assert_eq!(prepared.manifest.files[0].file_type, ImportFileType::Assembly);
    assert_eq!(prepared.files[1].absolute_path, "/tmp/p/sub/z.ipt");
    assert_eq!(
        prepared.analysis.warnings,
        vec![
            "workspace path가 없어 IPJ 폴더를 기준으로 스캔합니다.",
            "IPJ에서 프로젝트 이름을 찾지 못해 파일명으로 대체했습니다.",
            "Inventor 버전을 IPJ에서 찾지 못했습니다.",
            "1차 버전에서는 workspace만 스캔하고 library/content center 경로는 업로드하지 않습니다.",
        ]
    );
}

#[test]
fn preparation_failures() {
    let (mut prep, _) = ImportPreparation::new("/nowhere");
    match prep.folder_checked(false) {
        PrepareRequest::Finished(Err(e)) => assert_eq!(e, "선택한 폴더를 찾을 수 없습니다."),
        _ => panic!(),
    }

    let (mut prep, _) = ImportPreparation::new("/tmp/q");
    prep.folder_checked(true);
    match prep.folder_listed(&listing(&[("/tmp/q/readme.txt", true), ("/tmp/q/x.ipj", false)])) {
        PrepareRequest::Finished(Err(e)) => {
            assert_eq!(e, "선택한 폴더에서 IPJ 파일을 찾을 수 없습니다.")
        }
        _ => panic!(),
    }

    let (mut prep, _) = ImportPreparation::new("/tmp/q");
    prep.folder_checked(true);
    let items = vec![
        Ok(WalkEntry { path: "/tmp/q/a.ipj".to_string(), is_file: true }),
        Err("permission denied".to_string()),
    ];
    match prep.folder_listed(&items) {
        PrepareRequest::Finished(Err(e)) => {
            assert_eq!(e, "폴더를 탐색하지 못했습니다: permission denied")
        }
        _ => panic!(),
    }

    let (mut prep, _) = ImportPreparation::new("/tmp/q");
    prep.folder_checked(true);
    prep.folder_listed(&listing(&[("/tmp/q/a.ipj", true)]));
    match prep.project_file_read(Err("disk error".to_string())) {
        PrepareRequest::Finished(Err(e)) => assert_eq!(e, "IPJ 파일을 읽지 못했습니다: disk error"),
        _ => panic!(),
    }

    let (mut prep, _) = ImportPreparation::new("/tmp/q");
    prep.folder_checked(true);
    prep.folder_listed(&listing(&[("/tmp/q/a.ipj", true)]));
    match prep.project_file_read(Ok("<Project>".to_string())) {
        PrepareRequest::Finished(Err(e)) => assert!(e.starts_with("IPJ XML 파싱에 실패했습니다: ")),
        _ => panic!(),
    }
}

#[test]
fn workspace_missing_falls_back_with_warning() {
    let (mut prep, _) = ImportPreparation::new("/tmp/r");
    prep.folder_checked(true);
    prep.folder_listed(&listing(&[("/tmp/r/a.ipj", true)]));
    let xml = r#"<Project inventorVersion="2023"><ProjectName>P</ProjectName><WorkspacePath> /abs/ws </WorkspacePath></Project>"#;
    match prep.project_file_read(Ok(xml.to_string())) {
        PrepareRequest::CheckWorkspace { path } => assert_eq!(path, "/abs/ws"),
        _ => panic!(),
    }
    match prep.workspace_checked(false) {
        PrepareRequest::ScanWorkspace { root } => assert_eq!(root, "/tmp/r"),
        _ => panic!(),
    }
    assert_eq!(
        prep.warnings,
        vec!["workspace path '/abs/ws' 를 찾지 못해 IPJ 폴더를 기준으로 스캔합니다."]
    );
    let items = vec![
        Ok(ScanEntry { path: "/tmp/r/a.ipt".to_string(), is_file: true, size: Ok(1) }),
        Err("loop detected".to_string()),
    ];
    match prep.workspace_scanned(&items) {
        PrepareRequest::Finished(Err(e)) => {
            assert_eq!(e, "workspace를 스캔하지 못했습니다: loop detected")
        }
        _ => panic!(),
    }
}

#[test]
fn workspace_candidate_joins_relative_values() {
    assert_eq!(workspace_candidate("/d", None), None);
    assert_eq!(workspace_candidate("/d", Some("   ")), None);
    assert_eq!(
        workspace_candidate("/d", Some(" ws ")),
        Some(("ws".to_string(), "/d/ws".to_string()))
    );
    assert_eq!(
        workspace_candidate("/d", Some("/e/ws")),
        Some(("/e/ws".to_string(), "/e/ws".to_string()))
    );
    let mut warnings = vec!["earlier".to_string()];
    assert_eq!(resolve_workspace_root("/d", Some("ws"), true, &mut warnings), "/d/ws");
    assert_eq!(warnings, vec!["earlier"]);
    assert_eq!(resolve_workspace_root("/d", None, true, &mut warnings), "/d");
    assert_eq!(
        warnings,
        vec!["earlier", "workspace path가 없어 IPJ 폴더를 기준으로 스캔합니다."]
    );
}

#[test]
fn parse_ipj_fields_by_path_and_first_match() {
    let xml = r#"<Project>
        <Name>First</Name>
        <Name>Second</Name>
        <Workspace><Path>  WS  </Path></Workspace>
        <Library><Location>L1</Location><Location>L1</Location><Location>L2</Location></Library>
        <Inventor><Version>2022</Version></Inventor>
        <Type>Single</Type>
    </Project>"#;
    let parsed = parse_ipj(xml).unwrap();
    assert_eq!(parsed.project_name.as_deref(), Some("First"));
    assert_eq!(parsed.workspace_path.as_deref(), Some("WS"));
    assert_eq!(parsed.library_paths, vec!["L1", "L2"]);
    assert_eq!(parsed.inventor_version.as_deref(), Some("2022"));
    assert_eq!(parsed.project_type.as_deref(), Some("Single"));
    assert!(parsed.content_center_paths.is_empty());
}

#[test]
fn parse_ipj_version_attribute_skips_blank_values() {
    let xml = r#"<Root Version=" " app-version="7"><X/></Root>"#;
    let parsed = parse_ipj(xml).unwrap();
    // `appversion` is neither `version` nor mentions inventor: no version from attributes.
    assert_eq!(parsed.inventor_version, None);
    let xml = r#"<Root Version=" " Inventor_Version=" 2025 "/>"#;
    let parsed = parse_ipj(xml).unwrap();
    assert_eq!(parsed.inventor_version.as_deref(), Some("2025"));
}

#[test]
fn parse_ipj_rejects_malformed_xml() {
    let error = parse_ipj("<Project><Name>x</Project>").err().unwrap();
    assert!(error.starts_with("IPJ XML 파싱에 실패했습니다: "));
    assert!(error.len() > "IPJ XML 파싱에 실패했습니다: ".len());
}

#[test]
fn normalize_name_keeps_lowercase_alphanumerics() {
    assert_eq!(normalize_name("Workspace_Path-1"), "workspacepath1");
    assert_eq!(normalize_name("ÄProjectName"), "projectname");
    assert_eq!(normalize_name(&normalize_name("A.b C")), normalize_name("A.b C"));
}

#[test]
fn node_path_joins_element_names() {
    let ancestors = vec![
        (true, "Path".to_string()),
        (true, "Work_Space".to_string()),
        (true, "Project".to_string()),
        (false, String::new()),
    ];
    let path: String = normalized_node_path(&ancestors).into_iter().collect();
    assert_eq!(path, "project/workspace/path");
}

#[test]
fn push_unique_adds_once() {
    let mut v = vec!["a".to_string()];
    push_unique(&mut v, "b");
    push_unique(&mut v, "a");
    push_unique(&mut v, "b");
    assert_eq!(v, vec!["a", "b"]);
}
