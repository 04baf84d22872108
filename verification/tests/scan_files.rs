use fabbit_file_agent::model::{ImportFileType, ImportManifestFile, ScannedFile};
use fabbit_file_agent::scan::{
    classify_extension_of, classify_file, extension_matches, has_extension, is_hidden_or_temp,
    normalize_relative_path, relative_display_path, relative_or_full, scan_workspace,
    should_skip_file, sort_files, summarize_files, ScanEntry,
};

#[test]
fn classify_file_by_extension() {
    assert_eq!(classify_file("/w/shaft.ipt"), ImportFileType::Part);
    assert_eq!(classify_file("/w/SHAFT.IPT"), ImportFileType::Part);
    assert_eq!(classify_file("/w/motor.Iam"), ImportFileType::Assembly);
    assert_eq!(classify_file("/w/d.idw"), ImportFileType::Drawing);
    assert_eq!(classify_file("/w/d.DWG"), ImportFileType::Drawing);
    assert_eq!(classify_file("/w/spec.pdf"), ImportFileType::Attachment);
    assert_eq!(classify_file("/w/noext"), ImportFileType::Attachment);
    assert_eq!(classify_file("/w/.ipt"), ImportFileType::Attachment);
    assert_eq!(classify_file("/w/archive.ipt.bak"), ImportFileType::Attachment);
    assert_eq!(classify_extension_of(Some("iPt")), ImportFileType::Part);
    assert_eq!(classify_extension_of(None), ImportFileType::Attachment);
}

#[test]
fn skip_hidden_and_temporary_files() {
    assert!(should_skip_file("/w/.DS_Store"));
    assert!(should_skip_file("/w/~lock.ipt"));
    assert!(!should_skip_file("/w/part~1.ipt"));
    assert!(!should_skip_file("/w/.dir/part.ipt"));
    assert!(!should_skip_file("/"));
    assert!(is_hidden_or_temp(Some("~x")));
    assert!(!is_hidden_or_temp(Some("")));
    assert!(!is_hidden_or_temp(None));
}

#[test]
fn extension_comparison_ignores_ascii_case() {
    assert!(has_extension("/a/b.IPJ", "ipj"));
    assert!(has_extension("/a/b.ipj", "IPJ"));
    assert!(!has_extension("/a/b.ipjx", "ipj"));
    assert!(!has_extension("/a/ipj", "ipj"));
    assert!(extension_matches(Some("Ipj"), "ipJ"));
    assert!(!extension_matches(None, "ipj"));
}

#[test]
fn relative_paths_use_forward_slashes() {
    assert_eq!(normalize_relative_path("a\\b\\c.ipt"), "a/b/c.ipt");
    assert_eq!(relative_display_path("/root", "/root/x/y.ipj"), "x/y.ipj");
    assert_eq!(relative_display_path("/root", "/other/y.ipj"), "/other/y.ipj");
    assert_eq!(relative_or_full(Some("a\\b"), "/full"), "a/b");
    assert_eq!(relative_or_full(None, "/full"), "/full");
}

fn entry(path: &str, is_file: bool, size: Result<u64, String>) -> Result<ScanEntry, String> {
    Ok(ScanEntry { path: path.to_string(), is_file, size })
}

#[test]
fn scan_sorts_and_filters() {
    let items = vec![
        entry("/ws", false, Ok(0)),
        entry("/ws/b.ipt", true, Ok(2)),
        entry("/ws/project.ipj", true, Ok(9)),
        entry("/ws/A.iam", true, Ok(3)),
        entry("/ws/~tmp.ipt", true, Err("gone".to_string())),
        entry("/ws/sub/a.idw", true, Ok(4)),
    ];
    let files = scan_workspace("/ws", "/ws/project.ipj", &items).unwrap();
    let paths: Vec<&str> = files.iter().map(|f| f.manifest.path.as_str()).collect();
    assert_eq!(paths, vec!["A.iam", "b.ipt", "sub/a.idw"]);
    assert_eq!(files[2].manifest.file_type, ImportFileType::Drawing);
    assert_eq!(files[2].absolute_path, "/ws/sub/a.idw");
    assert_eq!(files[1].manifest.size_bytes, 2);
    // The project file is left out even when written differently.
    let items = vec![entry("/ws/./project.ipj", true, Ok(9))];
    assert!(scan_workspace("/ws", "/ws/project.ipj", &items).unwrap().is_empty());
}

#[test]
fn scan_reports_metadata_and_walk_errors() {
    let items = vec![entry("/ws/a.ipt", true, Err("denied".to_string()))];
    assert_eq!(
        scan_workspace("/ws", "/ws/p.ipj", &items).err().unwrap(),
        "파일 메타데이터를 읽지 못했습니다: denied"
    );
    let items = vec![entry("/ws/a.ipt", true, Ok(1)), Err("walk broke".to_string())];
    assert_eq!(
        scan_workspace("/ws", "/ws/p.ipj", &items).err().unwrap(),
        "workspace를 스캔하지 못했습니다: walk broke"
    );
}

fn scanned(path: &str, size: u64, t: ImportFileType) -> ScannedFile {
    ScannedFile {
        absolute_path: format!("/abs/{path}"),
        manifest: ImportManifestFile { path: path.to_string(), file_type: t, size_bytes: size },
    }
}

#[test]
fn sort_is_stable_and_by_path() {
    let files = vec![
        scanned("b", 1, ImportFileType::Part),
        scanned("a", 2, ImportFileType::Part),
        scanned("b", 3, ImportFileType::Part),
        scanned("ab", 4, ImportFileType::Part),
        scanned("B", 5, ImportFileType::Part),
    ];
    let sorted = sort_files(&files);
    let got: Vec<(String, u64)> =
        sorted.iter().map(|f| (f.manifest.path.clone(), f.manifest.size_bytes)).collect();
    assert_eq!(
        got,
        vec![
            ("B".to_string(), 5),
            ("a".to_string(), 2),
            ("ab".to_string(), 4),
            ("b".to_string(), 1),
            ("b".to_string(), 3)
        ]
    );
}

#[test]
fn summary_counts_kinds_and_bytes() {
    let files = vec![
        scanned("a", 10, ImportFileType::Part),
        scanned("b", 20, ImportFileType::Part),
        scanned("c", 5, ImportFileType::Drawing),
        scanned("d", 1, ImportFileType::Attachment),
    ];
    let s = summarize_files(&files);
    assert_eq!(s.total_files, 4);
    assert_eq!(s.total_bytes, 36);
    assert_eq!(s.part_count, 2);
    assert_eq!(s.assembly_count, 0);
    assert_eq!(s.drawing_count, 1);
    assert_eq!(s.attachment_count, 1);
    assert_eq!(s.part_count + s.assembly_count + s.drawing_count + s.attachment_count, s.total_files);
}
