//! Analysing a selected folder for import.
//!
//! Analysis alternates questions about the file system with decisions, so it is a state
//! machine: each method takes the answer to the last request and returns the next request,
//! until a request `Finished` carries the prepared import or the reason it failed. The caller
//! answers the requests: whether a folder exists, the entries of a directory walk, a file's
//! text.
use vstd::prelude::*;
use crate::ipj::{ipj_fold, parse_ipj, strings_view, ParsedIpj, ParsedIpjView};
use crate::model::{
    copy_opt, manifest_entries, ImportAnalysis, ImportAnalysisView,
    ImportManifest, ImportManifestView, PreparedImport, PreparedImportView, ScannedFile,
    ScannedFileView, scanned_view,
};
use crate::paths::{
    file_stem_of, is_absolute_path, join_path, parent_of, path_file_stem, path_is_absolute,
    path_join, path_parent,
};
use crate::scan::{
    has_extension, has_extension_spec, relative_display, relative_display_path, scan_spec,
    scan_workspace, summarize_files, summary_spec, total_size, total_size_checked, walk_view,
    ScanEntry,
};
use crate::text::{chars_of, string_of, trim, trim_chars};
use crate::xml::xml_parse;
use vstd::string::StringExecFns;

verus! {

/// An entry met while walking the selected folder.
pub struct WalkEntry {
    pub path: String,
    pub is_file: bool,
}

pub struct WalkEntryView {
    pub path: Seq<char>,
    pub is_file: bool,
}

impl View for WalkEntry {
    type V = WalkEntryView;

    open spec fn view(&self) -> WalkEntryView {
        WalkEntryView { path: self.path@, is_file: self.is_file }
    }
}

pub open spec fn listing_view(items: Seq<Result<WalkEntry, String>>) -> Seq<Result<WalkEntryView, Seq<char>>> {
    items.map_values(
        |i: Result<WalkEntry, String>|
            match i {
                Ok(e) => Ok(e@),
                Err(m) => Err(m@),
            },
    )
}

/// The project files among the walked entries, or the first walk error.
pub open spec fn project_files_found(items: Seq<Result<WalkEntryView, Seq<char>>>) -> Result<Seq<Seq<char>>, Seq<char>>
    decreases items.len(),
{
    if items.len() == 0 {
        Ok(Seq::empty())
    } else {
        match project_files_found(items.drop_last()) {
            Err(m) => Err(m),
            Ok(found) => match items.last() {
                Err(e) => Err("폴더를 탐색하지 못했습니다: "@ + e),
                Ok(entry) => if entry.is_file && has_extension_spec(entry.path, "ipj"@) {
                    Ok(found.push(entry.path))
                } else {
                    Ok(found)
                },
            },
        }
    }
}

/// The message for a folder that does not exist or is no directory.
pub open spec fn folder_missing_message() -> Seq<char> {
    "선택한 폴더를 찾을 수 없습니다."@
}

pub open spec fn no_project_message() -> Seq<char> {
    "선택한 폴더에서 IPJ 파일을 찾을 수 없습니다."@
}

pub open spec fn several_projects_message() -> Seq<char> {
    "선택한 폴더에서 여러 IPJ 파일이 발견되었습니다. 1차 버전은 단일 IPJ 폴더만 지원합니다."@
}

pub open spec fn no_parent_message() -> Seq<char> {
    "IPJ 파일의 부모 폴더를 확인할 수 없습니다."@
}

pub open spec fn no_workspace_warning() -> Seq<char> {
    "workspace path가 없어 IPJ 폴더를 기준으로 스캔합니다."@
}

pub open spec fn missing_workspace_warning(raw: Seq<char>) -> Seq<char> {
    "workspace path '"@ + raw + "' 를 찾지 못해 IPJ 폴더를 기준으로 스캔합니다."@
}

/// The workspace value of the project file, trimmed, when it is not blank.
pub open spec fn workspace_value(value: Option<Seq<char>>) -> Option<Seq<char>> {
    match value {
        Some(v) => if trim(v).len() > 0 {
            Some(trim(v))
        } else {
            None
        },
        None => None,
    }
}

/// Where a workspace value points: itself when absolute, else under the project's folder.
pub open spec fn workspace_candidate_spec(ipj_dir: Seq<char>, raw: Seq<char>) -> Seq<char> {
    if path_is_absolute(raw) {
        raw
    } else {
        path_join(ipj_dir, raw)
    }
}

/// The warnings that follow the workspace resolution, in order.
pub open spec fn project_warnings(p: ParsedIpjView) -> Seq<Seq<char>> {
    (if p.project_name is None {
        seq!["IPJ에서 프로젝트 이름을 찾지 못해 파일명으로 대체했습니다."@]
    } else {
        Seq::empty()
    }) + (if p.inventor_version is None {
        seq!["Inventor 버전을 IPJ에서 찾지 못했습니다."@]
    } else {
        Seq::empty()
    }) + (if p.library_paths.len() > 0 || p.content_center_paths.len() > 0 {
        seq![
            "1차 버전에서는 workspace만 스캔하고 library/content center 경로는 업로드하지 않습니다."@,
        ]
    } else {
        Seq::empty()
    })
}

/// The project's name: the one the file gives, else the project file's stem.
pub open spec fn project_name_spec(p: ParsedIpjView, ipj_path: Seq<char>) -> Seq<char> {
    match p.project_name {
        Some(n) => n,
        None => match path_file_stem(ipj_path) {
            Some(s) => s,
            None => Seq::empty(),
        },
    }
}

/// Where the workspace resolves to, and the warning that resolution adds, if any.
pub open spec fn resolved_workspace(
    ipj_dir: Seq<char>,
    value: Option<Seq<char>>,
    candidate_exists: bool,
) -> (Seq<char>, Seq<Seq<char>>) {
    match workspace_value(value) {
        None => (ipj_dir, seq![no_workspace_warning()]),
        Some(raw) => if candidate_exists {
            (workspace_candidate_spec(ipj_dir, raw), Seq::empty())
        } else {
            (ipj_dir, seq![missing_workspace_warning(raw)])
        },
    }
}

/// The workspace value and where it points, when the project file names a workspace.
pub fn workspace_candidate(ipj_dir: &str, workspace_value_text: Option<&str>) -> (r: Option<(String, String)>)
    ensures
        match workspace_value(
            match workspace_value_text {
                Some(t) => Some(t@),
                None => None,
            },
        ) {
            Some(raw) => r matches Some(p) && p.0@ == raw && p.1@ == workspace_candidate_spec(
                ipj_dir@,
                raw,
            ),
            None => r is None,
        },
{
    match workspace_value_text {
        None => None,
        Some(t) => {
            let trimmed = trim_chars(&chars_of(t));
            if trimmed.len() == 0 {
                None
            } else {
                let raw = string_of(&trimmed);
                let candidate = if is_absolute_path(raw.as_str()) {
                    raw.clone()
                } else {
                    join_path(ipj_dir, raw.as_str())
                };
                Some((raw, candidate))
            }
        },
    }
}

/// Resolves the workspace of a project: the folder the project file names when it exists
/// (`candidate_exists` tells whether the `workspace_candidate` does), else the project file's
/// folder, with a warning saying why.
pub fn resolve_workspace_root(
    ipj_dir: &str,
    workspace_value_text: Option<&str>,
    candidate_exists: bool,
    warnings: &mut Vec<String>,
) -> (root: String)
    ensures
        ({
            let (r, w) = resolved_workspace(
                ipj_dir@,
                match workspace_value_text {
                    Some(t) => Some(t@),
                    None => None,
                },
                candidate_exists,
            );
            &&& root@ == r
            &&& strings_view(final(warnings)@) == strings_view(old(warnings)@) + w
        }),
{
    let ghost old_w = strings_view(warnings@);
    match workspace_candidate(ipj_dir, workspace_value_text) {
        None => {
            let mut w = String::new();
            w.append("workspace path가 없어 IPJ 폴더를 기준으로 스캔합니다.");
            warnings.push(w);
            assert(strings_view(warnings@) =~= old_w + seq![no_workspace_warning()]);
            ipj_dir.to_owned()
        },
        Some((raw, candidate)) => {
            if candidate_exists {
                assert(strings_view(warnings@) =~= old_w + Seq::<Seq<char>>::empty());
                candidate
            } else {
                let mut w = String::new();
                w.append("workspace path '");
                w.append(raw.as_str());
                w.append("' 를 찾지 못해 IPJ 폴더를 기준으로 스캔합니다.");
                warnings.push(w);
                assert(strings_view(warnings@) =~= old_w + seq![missing_workspace_warning(raw@)]);
                ipj_dir.to_owned()
            }
        },
    }
}

/// What the analysis waits for.
#[derive(Clone, Copy, PartialEq, Eq, Debug, Structural)]
pub enum PrepareStage {
    /// Whether the selected folder is a directory.
    Folder,
    /// The entries of a walk over the selected folder.
    Listing,
    /// The text of the project file.
    ProjectText,
    /// Whether the workspace the project file names exists.
    WorkspaceCheck,
    /// The entries of a walk over the workspace, with sizes.
    WorkspaceScan,
    /// Nothing: the analysis is over.
    Done,
}

/// The next thing the analysis needs.
pub enum PrepareRequest {
    /// Is `path` an existing directory?
    CheckFolder { path: String },
    /// Walk the tree under `root` (not following links), listing each entry and whether it
    /// is a regular file; stop at the first error.
    ListFolder { root: String },
    /// Read the file at `path` as text.
    ReadProjectFile { path: String },
    /// Does `path` exist?
    CheckWorkspace { path: String },
    /// Walk the tree under `root` (not following links), listing each entry, whether it is a
    /// regular file, and its size; stop at the first walk error.
    ScanWorkspace { root: String },
    /// The analysis is over.
    Finished(Result<PreparedImport, String>),
}

pub open spec fn finished_ok(r: PrepareRequest, p: PreparedImportView) -> bool {
    r matches PrepareRequest::Finished(Ok(q)) && q@ == p
}

pub open spec fn finished_err(r: PrepareRequest, m: Seq<char>) -> bool {
    r matches PrepareRequest::Finished(Err(e)) && e@ == m
}

/// An analysis in progress.
pub struct ImportPreparation {
    pub stage: PrepareStage,
    pub selected_root: String,
    pub ipj_path: String,
    pub ipj_dir: String,
    pub parsed: ParsedIpj,
    pub workspace_raw: String,
    pub workspace_candidate: String,
    pub workspace_root: String,
    pub warnings: Vec<String>,
}

/// The analysis of a folder whose workspace scan found `files`.
pub open spec fn prepared_spec(
    selected_root: Seq<char>,
    ipj_path: Seq<char>,
    workspace_root: Seq<char>,
    parsed: ParsedIpjView,
    warnings: Seq<Seq<char>>,
    files: Seq<ScannedFileView>,
) -> PreparedImportView {
    PreparedImportView {
        analysis: ImportAnalysisView {
            selected_root: selected_root,
            ipj_path: relative_display(selected_root, ipj_path),
            workspace_path: workspace_root,
            project_name: project_name_spec(parsed, ipj_path),
            project_type: parsed.project_type,
            inventor_version: parsed.inventor_version,
            summary: summary_spec(files),
            warnings: warnings,
        },
        manifest: ImportManifestView {
            project_name: project_name_spec(parsed, ipj_path),
            ipj_path: relative_display(selected_root, ipj_path),
            inventor_version: parsed.inventor_version,
            files: files.map_values(|f: ScannedFileView| f.manifest),
        },
        files: files,
    }
}

impl ImportPreparation {
    /// Starts the analysis of the folder at `folder_path`.
    pub fn new(folder_path: &str) -> (r: (ImportPreparation, PrepareRequest))
        ensures
            r.0.stage == PrepareStage::Folder,
            r.0.selected_root@ == folder_path@,
            r.1 matches PrepareRequest::CheckFolder { path } && path@ == folder_path@,
    {
        let prep = ImportPreparation {
            stage: PrepareStage::Folder,
            selected_root: folder_path.to_owned(),
            ipj_path: String::new(),
            ipj_dir: String::new(),
            parsed: ParsedIpj::default(),
            workspace_raw: String::new(),
            workspace_candidate: String::new(),
            workspace_root: String::new(),
            warnings: Vec::new(),
        };
        (prep, PrepareRequest::CheckFolder { path: folder_path.to_owned() })
    }

    /// Takes whether the selected folder is an existing directory.
    pub fn folder_checked(&mut self, is_dir: bool) -> (r: PrepareRequest)
        requires
            old(self).stage == PrepareStage::Folder,
        ensures
            final(self).selected_root == old(self).selected_root,
            is_dir ==> final(self).stage == PrepareStage::Listing && (r matches PrepareRequest::ListFolder {
                root,
            } && root@ == old(self).selected_root@),
            !is_dir ==> final(self).stage == PrepareStage::Done && finished_err(
                r,
                folder_missing_message(),
            ),
    {
        if !is_dir {
            self.stage = PrepareStage::Done;
            let mut m = String::new();
            m.append("선택한 폴더를 찾을 수 없습니다.");
            return PrepareRequest::Finished(Err(m));
        }
        self.stage = PrepareStage::Listing;
        PrepareRequest::ListFolder { root: self.selected_root.clone() }
    }

    /// Takes the entries of the walk over the selected folder, in walk order. Exactly one
    /// project file must be among them.
    pub fn folder_listed(&mut self, items: &Vec<Result<WalkEntry, String>>) -> (r: PrepareRequest)
        requires
            old(self).stage == PrepareStage::Listing,
        ensures
            final(self).selected_root == old(self).selected_root,
            match project_files_found(listing_view(items@)) {
                Err(m) => final(self).stage == PrepareStage::Done && finished_err(r, m),
                Ok(found) => if found.len() == 0 {
                    final(self).stage == PrepareStage::Done && finished_err(r, no_project_message())
                } else if found.len() == 1 {
                    &&& final(self).stage == PrepareStage::ProjectText
                    &&& final(self).ipj_path@ == found[0]
                    &&& r matches PrepareRequest::ReadProjectFile { path } && path@ == found[0]
                } else {
                    final(self).stage == PrepareStage::Done && finished_err(
                        r,
                        several_projects_message(),
                    )
                },
            },
    {
        let ghost lv = listing_view(items@);
        let mut found: Vec<String> = Vec::new();
        let mut i: usize = 0;
        assert(lv.take(0).len() == 0);
        assert(strings_view(found@) =~= Seq::<Seq<char>>::empty());
        while i < items.len()
            invariant
                0 <= i <= items.len(),
                lv == listing_view(items@),
                project_files_found(lv.take(i as int)) == Ok::<Seq<Seq<char>>, Seq<char>>(
                    strings_view(found@),
                ),
                self.stage == PrepareStage::Listing,
                self.selected_root == old(self).selected_root,
            decreases items.len() - i,
        {
            assert(lv.take(i + 1).drop_last() =~= lv.take(i as int));
            assert(lv.take(i + 1).last() == lv[i as int]);
            match &items[i] {
                Err(e) => {
                    proof {
                        lemma_listing_error_persists(lv, i + 1);
                    }
                    let mut m = String::new();
                    m.append("폴더를 탐색하지 못했습니다: ");
                    m.append(e.as_str());
                    self.stage = PrepareStage::Done;
                    return PrepareRequest::Finished(Err(m));
                },
                Ok(entry) => {
                    if entry.is_file && has_extension(entry.path.as_str(), "ipj") {
                        let ghost before = strings_view(found@);
                        found.push(entry.path.clone());
                        assert(strings_view(found@) =~= before.push(entry.path@));
                    }
                },
            }
            i = i + 1;
        }
        assert(lv.take(items.len() as int) =~= lv);
        if found.len() == 0 {
            self.stage = PrepareStage::Done;
            let mut m = String::new();
            m.append("선택한 폴더에서 IPJ 파일을 찾을 수 없습니다.");
            PrepareRequest::Finished(Err(m))
        } else if found.len() == 1 {
            assert(strings_view(found@)[0] == found@[0]@);
            self.stage = PrepareStage::ProjectText;
            self.ipj_path = found[0].clone();
            PrepareRequest::ReadProjectFile { path: found[0].clone() }
        } else {
            self.stage = PrepareStage::Done;
            let mut m = String::new();
            m.append("선택한 폴더에서 여러 IPJ 파일이 발견되었습니다. 1차 버전은 단일 IPJ 폴더만 지원합니다.");
            PrepareRequest::Finished(Err(m))
        }
    }
}

impl ImportPreparation {
    /// Adds the warnings about the project's fields and asks for the workspace scan.
    fn request_scan(&mut self) -> (r: PrepareRequest)
        ensures
            final(self).stage == PrepareStage::WorkspaceScan,
            final(self).selected_root == old(self).selected_root,
            final(self).ipj_path == old(self).ipj_path,
            final(self).ipj_dir == old(self).ipj_dir,
            final(self).parsed == old(self).parsed,
            final(self).workspace_root == old(self).workspace_root,
            strings_view(final(self).warnings@) == strings_view(old(self).warnings@)
                + project_warnings(old(self).parsed@),
            r matches PrepareRequest::ScanWorkspace { root } && root@ == old(self).workspace_root@,
    {
        let ghost w0 = strings_view(self.warnings@);
        if self.parsed.project_name.is_none() {
            let mut w = String::new();
            w.append("IPJ에서 프로젝트 이름을 찾지 못해 파일명으로 대체했습니다.");
            self.warnings.push(w);
        }
        let ghost w1 = strings_view(self.warnings@);
        if self.parsed.inventor_version.is_none() {
            let mut w = String::new();
            w.append("Inventor 버전을 IPJ에서 찾지 못했습니다.");
            self.warnings.push(w);
        }
        let ghost w2 = strings_view(self.warnings@);
        if self.parsed.library_paths.len() > 0 || self.parsed.content_center_paths.len() > 0 {
            let mut w = String::new();
            w.append(
                "1차 버전에서는 workspace만 스캔하고 library/content center 경로는 업로드하지 않습니다.",
            );
            self.warnings.push(w);
        }
        proof {
            let p = self.parsed@;
            let a = if p.project_name is None {
                seq!["IPJ에서 프로젝트 이름을 찾지 못해 파일명으로 대체했습니다."@]
            } else {
                Seq::<Seq<char>>::empty()
            };
            let b = if p.inventor_version is None {
                seq!["Inventor 버전을 IPJ에서 찾지 못했습니다."@]
            } else {
                Seq::<Seq<char>>::empty()
            };
            assert(w1 =~= w0 + a);
            assert(w2 =~= w0 + a + b);
            assert(strings_view(self.warnings@) =~= w0 + project_warnings(p));
        }
        self.stage = PrepareStage::WorkspaceScan;
        PrepareRequest::ScanWorkspace { root: self.workspace_root.clone() }
    }

    /// Takes the text of the project file, or the text of the error met reading it.
    pub fn project_file_read(&mut self, text: Result<String, String>) -> (r: PrepareRequest)
        requires
            old(self).stage == PrepareStage::ProjectText,
        ensures
            final(self).selected_root == old(self).selected_root,
            final(self).ipj_path == old(self).ipj_path,
            match text {
                Err(e) => final(self).stage == PrepareStage::Done && finished_err(
                    r,
                    "IPJ 파일을 읽지 못했습니다: "@ + e@,
                ),
                Ok(xml) => match xml_parse(xml@) {
                    Err(e) => final(self).stage == PrepareStage::Done && finished_err(
                        r,
                        "IPJ XML 파싱에 실패했습니다: "@ + e,
                    ),
                    Ok(nodes) => match path_parent(old(self).ipj_path@) {
                        None => final(self).stage == PrepareStage::Done && finished_err(
                            r,
                            no_parent_message(),
                        ),
                        Some(dir) => {
                            &&& final(self).parsed@ == ipj_fold(nodes)
                            &&& final(self).ipj_dir@ == dir
                            &&& match workspace_value(ipj_fold(nodes).workspace_path) {
                                None => {
                                    &&& final(self).stage == PrepareStage::WorkspaceScan
                                    &&& final(self).workspace_root@ == dir
                                    &&& strings_view(final(self).warnings@) == seq![
                                        no_workspace_warning(),
                                    ] + project_warnings(ipj_fold(nodes))
                                    &&& r matches PrepareRequest::ScanWorkspace { root }
                                        && root@ == dir
                                },
                                Some(raw) => {
                                    &&& final(self).stage == PrepareStage::WorkspaceCheck
                                    &&& strings_view(final(self).warnings@).len() == 0
                                    &&& r matches PrepareRequest::CheckWorkspace { path }
                                        && path@ == workspace_candidate_spec(dir, raw)
                                },
                            }
                        },
                    },
                },
            },
    {
        let xml = match text {
            Err(e) => {
                self.stage = PrepareStage::Done;
                let mut m = String::new();
                m.append("IPJ 파일을 읽지 못했습니다: ");
                m.append(e.as_str());
                return PrepareRequest::Finished(Err(m));
            },
            Ok(xml) => xml,
        };
        let parsed = match parse_ipj(xml.as_str()) {
            Err(m) => {
                self.stage = PrepareStage::Done;
                return PrepareRequest::Finished(Err(m));
            },
            Ok(p) => p,
        };
        let dir = match parent_of(self.ipj_path.as_str()) {
            None => {
                self.stage = PrepareStage::Done;
                let mut m = String::new();
                m.append("IPJ 파일의 부모 폴더를 확인할 수 없습니다.");
                return PrepareRequest::Finished(Err(m));
            },
            Some(d) => d,
        };
        self.parsed = parsed;
        self.ipj_dir = dir;
        self.warnings = Vec::new();
        let value = match &self.parsed.workspace_path {
            Some(v) => Some(v.as_str()),
            None => None,
        };
        match workspace_candidate(self.ipj_dir.as_str(), value) {
            Some((raw, candidate)) => {
                self.workspace_raw = raw;
                self.workspace_candidate = candidate.clone();
                self.stage = PrepareStage::WorkspaceCheck;
                assert(strings_view(self.warnings@) =~= Seq::<Seq<char>>::empty());
                PrepareRequest::CheckWorkspace { path: candidate }
            },
            None => {
                assert(strings_view(self.warnings@) =~= Seq::<Seq<char>>::empty());
                let root = resolve_workspace_root(
                    self.ipj_dir.as_str(),
                    value,
                    false,
                    &mut self.warnings,
                );
                self.workspace_root = root;
                self.request_scan()
            },
        }
    }

    /// Takes whether the workspace the project file names exists.
    pub fn workspace_checked(&mut self, exists: bool) -> (r: PrepareRequest)
        requires
            old(self).stage == PrepareStage::WorkspaceCheck,
        ensures
            final(self).selected_root == old(self).selected_root,
            final(self).ipj_path == old(self).ipj_path,
            final(self).parsed == old(self).parsed,
            final(self).stage == PrepareStage::WorkspaceScan,
            ({
                let (root, w) = resolved_workspace(
                    old(self).ipj_dir@,
                    old(self).parsed@.workspace_path,
                    exists,
                );
                &&& final(self).workspace_root@ == root
                &&& strings_view(final(self).warnings@) == strings_view(old(self).warnings@) + w
                    + project_warnings(old(self).parsed@)
                &&& r matches PrepareRequest::ScanWorkspace { root: scan_root } && scan_root@
                    == root
            }),
    {
        let value = match &self.parsed.workspace_path {
            Some(v) => Some(v.as_str()),
            None => None,
        };
        let root = resolve_workspace_root(self.ipj_dir.as_str(), value, exists, &mut self.warnings);
        self.workspace_root = root;
        self.request_scan()
    }

    /// Takes the entries of the walk over the workspace, in walk order, and finishes the
    /// analysis.
    pub fn workspace_scanned(&mut self, items: &Vec<Result<ScanEntry, String>>) -> (r: PrepareRequest)
        requires
            old(self).stage == PrepareStage::WorkspaceScan,
            scan_spec(walk_view(items@), old(self).workspace_root@, old(self).ipj_path@) matches Ok(
                files,
            ) ==> total_size(files) <= u64::MAX,
        ensures
            final(self).stage == PrepareStage::Done,
            match scan_spec(walk_view(items@), old(self).workspace_root@, old(self).ipj_path@) {
                Err(m) => finished_err(r, m),
                Ok(files) => finished_ok(
                    r,
                    prepared_spec(
                        old(self).selected_root@,
                        old(self).ipj_path@,
                        old(self).workspace_root@,
                        old(self).parsed@,
                        strings_view(old(self).warnings@),
                        files,
                    ),
                ),
            },
    {
        self.stage = PrepareStage::Done;
        match scan_workspace(self.workspace_root.as_str(), self.ipj_path.as_str(), items) {
            Err(m) => PrepareRequest::Finished(Err(m)),
            Ok(files) => self.finish(files),
        }
    }

    /// Takes the entries of the walk over the workspace, in walk order, and finishes the
    /// analysis, as `workspace_scanned` does; where the files' sizes add up to more than a
    /// `u64` holds, it returns `None` and leaves the analysis as it was.
    pub fn workspace_scanned_checked(&mut self, items: &Vec<Result<ScanEntry, String>>) -> (r:
        Option<PrepareRequest>)
        requires
            old(self).stage == PrepareStage::WorkspaceScan,
        ensures
            match scan_spec(walk_view(items@), old(self).workspace_root@, old(self).ipj_path@) {
                Err(m) => final(self).stage == PrepareStage::Done && (r matches Some(q)
                    && finished_err(q, m)),
                Ok(files) => if total_size(files) <= u64::MAX {
                    &&& final(self).stage == PrepareStage::Done
                    &&& r matches Some(q) && finished_ok(
                        q,
                        prepared_spec(
                            old(self).selected_root@,
                            old(self).ipj_path@,
                            old(self).workspace_root@,
                            old(self).parsed@,
                            strings_view(old(self).warnings@),
                            files,
                        ),
                    )
                } else {
                    r is None && *final(self) == *old(self)
                },
            },
    {
        match scan_workspace(self.workspace_root.as_str(), self.ipj_path.as_str(), items) {
            Err(m) => {
                self.stage = PrepareStage::Done;
                Some(PrepareRequest::Finished(Err(m)))
            },
            Ok(files) => match total_size_checked(&files) {
                None => None,
                Some(_) => {
                    self.stage = PrepareStage::Done;
                    Some(self.finish(files))
                },
            },
        }
    }

    /// Builds the prepared import from the workspace's files.
    fn finish(&mut self, files: Vec<ScannedFile>) -> (r: PrepareRequest)
        requires
            total_size(scanned_view(files@)) <= u64::MAX,
        ensures
            *final(self) == *old(self),
            finished_ok(
                r,
                prepared_spec(
                    old(self).selected_root@,
                    old(self).ipj_path@,
                    old(self).workspace_root@,
                    old(self).parsed@,
                    strings_view(old(self).warnings@),
                    scanned_view(files@),
                ),
            ),
    {
        let summary = summarize_files(&files);
        let project_name = match &self.parsed.project_name {
            Some(n) => n.clone(),
            None => match file_stem_of(self.ipj_path.as_str()) {
                Some(s) => s,
                None => String::new(),
            },
        };
        let relative_ipj = relative_display_path(self.selected_root.as_str(), self.ipj_path.as_str());
        let analysis = ImportAnalysis {
            selected_root: self.selected_root.clone(),
            ipj_path: relative_ipj.clone(),
            workspace_path: self.workspace_root.clone(),
            project_name: project_name.clone(),
            project_type: copy_opt(&self.parsed.project_type),
            inventor_version: copy_opt(&self.parsed.inventor_version),
            summary,
            warnings: crate::model::copy_strings(&self.warnings),
        };
        let manifest = ImportManifest {
            project_name,
            ipj_path: relative_ipj,
            inventor_version: copy_opt(&self.parsed.inventor_version),
            files: manifest_entries(&files),
        };
        PrepareRequest::Finished(Ok(PreparedImport { analysis, manifest, files }))
    }
}

proof fn lemma_listing_error_persists(items: Seq<Result<WalkEntryView, Seq<char>>>, k: int)
    requires
        0 <= k <= items.len(),
        project_files_found(items.take(k)) is Err,
    ensures
        project_files_found(items) == project_files_found(items.take(k)),
    decreases items.len() - k,
{
    if k < items.len() {
        assert(items.take(k + 1).drop_last() =~= items.take(k));
        lemma_listing_error_persists(items, k + 1);
    } else {
        assert(items.take(k) =~= items);
    }
}

/// The manifest sent to the server carries what the project file says: its Inventor version,
/// the project's name (the one the file gives, else the project file's stem), and the project
/// file's path as the analysis shows it; it lists every scanned file's entry, in order. The
/// analysis shows the same version, type, name and workspace.
pub proof fn lemma_prepared_carries_project(
    selected_root: Seq<char>,
    ipj_path: Seq<char>,
    workspace_root: Seq<char>,
    parsed: ParsedIpjView,
    warnings: Seq<Seq<char>>,
    files: Seq<ScannedFileView>,
)
    ensures
        ({
            let p = prepared_spec(selected_root, ipj_path, workspace_root, parsed, warnings, files);
            &&& p.manifest.inventor_version == parsed.inventor_version
            &&& p.analysis.inventor_version == parsed.inventor_version
            &&& p.analysis.project_type == parsed.project_type
            &&& p.manifest.project_name == p.analysis.project_name
            &&& parsed.project_name matches Some(n) ==> p.manifest.project_name == n
            &&& parsed.project_name is None ==> p.manifest.project_name == match path_file_stem(
                ipj_path,
            ) {
                Some(s) => s,
                None => Seq::<char>::empty(),
            }
            &&& p.manifest.ipj_path == p.analysis.ipj_path
            &&& p.analysis.selected_root == selected_root
            &&& p.analysis.workspace_path == workspace_root
            &&& p.analysis.warnings == warnings
            &&& p.files == files
            &&& p.manifest.files.len() == files.len()
            &&& forall|i: int| 0 <= i < files.len() ==> #[trigger] p.manifest.files[i]
                == files[i].manifest
        }),
{
}

/// The analysis' summary agrees with its manifest: as many files, their sizes' sum, and kind
/// counts that add up to the number of files.
pub proof fn lemma_prepared_summary_matches_manifest(
    selected_root: Seq<char>,
    ipj_path: Seq<char>,
    workspace_root: Seq<char>,
    parsed: ParsedIpjView,
    warnings: Seq<Seq<char>>,
    files: Seq<ScannedFileView>,
)
    requires
        files.len() <= usize::MAX,
        total_size(files) <= u64::MAX,
    ensures
        ({
            let p = prepared_spec(selected_root, ipj_path, workspace_root, parsed, warnings, files);
            &&& p.analysis.summary.total_files == p.manifest.files.len()
            &&& p.analysis.summary.total_bytes == total_size(files)
            &&& p.analysis.summary.part_count + p.analysis.summary.assembly_count
                + p.analysis.summary.drawing_count + p.analysis.summary.attachment_count
                == p.manifest.files.len()
        }),
{
    crate::scan::lemma_summary_counts_add_up(files);
}

} // verus!
