//! The values an import is made of: the manifest sent to the server, the analysis shown to the
//! user, and the upload's progress.
use vstd::prelude::*;
use crate::ipj::strings_view;
use crate::paths::opt_view;

verus! {

/// The kind of an imported file, by its extension.
#[derive(Clone, Copy, PartialEq, Eq, Debug, Structural)]
pub enum ImportFileType {
    Part,
    Assembly,
    Drawing,
    Attachment,
}

/// One file of the manifest: its path relative to the workspace, its kind and its size.
#[derive(Debug)]
pub struct ImportManifestFile {
    pub path: String,
    pub file_type: ImportFileType,
    pub size_bytes: u64,
}

pub struct ImportManifestFileView {
    pub path: Seq<char>,
    pub file_type: ImportFileType,
    pub size_bytes: u64,
}

impl View for ImportManifestFile {
    type V = ImportManifestFileView;

    open spec fn view(&self) -> ImportManifestFileView {
        ImportManifestFileView { path: self.path@, file_type: self.file_type, size_bytes: self.size_bytes }
    }
}

impl Clone for ImportManifestFile {
    fn clone(&self) -> (r: Self)
        ensures
            r@ == self@,
    {
        ImportManifestFile {
            path: self.path.clone(),
            file_type: self.file_type,
            size_bytes: self.size_bytes,
        }
    }
}

/// A file found in the workspace: where it is on disk, and its manifest entry.
#[derive(Debug)]
pub struct ScannedFile {
    pub absolute_path: String,
    pub manifest: ImportManifestFile,
}

pub struct ScannedFileView {
    pub absolute_path: Seq<char>,
    pub manifest: ImportManifestFileView,
}

impl View for ScannedFile {
    type V = ScannedFileView;

    open spec fn view(&self) -> ScannedFileView {
        ScannedFileView { absolute_path: self.absolute_path@, manifest: self.manifest@ }
    }
}

impl Clone for ScannedFile {
    fn clone(&self) -> (r: Self)
        ensures
            r@ == self@,
    {
        ScannedFile { absolute_path: self.absolute_path.clone(), manifest: self.manifest.clone() }
    }
}

/// The views of a sequence of scanned files.
pub open spec fn scanned_view(files: Seq<ScannedFile>) -> Seq<ScannedFileView> {
    files.map_values(|f: ScannedFile| f@)
}

/// The views of a sequence of manifest entries.
pub open spec fn manifest_files_view(files: Seq<ImportManifestFile>) -> Seq<ImportManifestFileView> {
    files.map_values(|f: ImportManifestFile| f@)
}

/// Counts of the scanned files by kind, with their total size.
#[derive(Clone, Copy, PartialEq, Eq, Debug, Structural)]
pub struct ImportSummary {
    pub total_files: usize,
    pub total_bytes: u64,
    pub part_count: usize,
    pub assembly_count: usize,
    pub drawing_count: usize,
    pub attachment_count: usize,
}

/// What the analysis of a selected folder found.
#[derive(Debug)]
pub struct ImportAnalysis {
    pub selected_root: String,
    pub ipj_path: String,
    pub workspace_path: String,
    pub project_name: String,
    pub project_type: Option<String>,
    pub inventor_version: Option<String>,
    pub summary: ImportSummary,
    pub warnings: Vec<String>,
}

pub struct ImportAnalysisView {
    pub selected_root: Seq<char>,
    pub ipj_path: Seq<char>,
    pub workspace_path: Seq<char>,
    pub project_name: Seq<char>,
    pub project_type: Option<Seq<char>>,
    pub inventor_version: Option<Seq<char>>,
    pub summary: ImportSummary,
    pub warnings: Seq<Seq<char>>,
}

impl View for ImportAnalysis {
    type V = ImportAnalysisView;

    open spec fn view(&self) -> ImportAnalysisView {
        ImportAnalysisView {
            selected_root: self.selected_root@,
            ipj_path: self.ipj_path@,
            workspace_path: self.workspace_path@,
            project_name: self.project_name@,
            project_type: opt_view(self.project_type),
            inventor_version: opt_view(self.inventor_version),
            summary: self.summary,
            warnings: strings_view(self.warnings@),
        }
    }
}

/// A copy of a list of strings.
pub fn copy_strings(v: &Vec<String>) -> (r: Vec<String>)
    ensures
        strings_view(r@) == strings_view(v@),
{
    let mut r: Vec<String> = Vec::new();
    let mut i: usize = 0;
    while i < v.len()
        invariant
            0 <= i <= v.len(),
            r@.len() == i,
            strings_view(r@) == strings_view(v@).take(i as int),
        decreases v.len() - i,
    {
        let c = v[i].clone();
        r.push(c);
        assert(strings_view(r@) =~= strings_view(v@).take(i + 1)) by {
            assert(strings_view(r@)[i as int] == c@);
        }
        i = i + 1;
    }
    assert(strings_view(v@).take(v.len() as int) =~= strings_view(v@));
    r
}

/// A copy of an optional string.
pub fn copy_opt(o: &Option<String>) -> (r: Option<String>)
    ensures
        opt_view(r) == opt_view(*o),
{
    match o {
        Some(s) => Some(s.clone()),
        None => None,
    }
}

impl Clone for ImportAnalysis {
    fn clone(&self) -> (r: Self)
        ensures
            r@ == self@,
    {
        ImportAnalysis {
            selected_root: self.selected_root.clone(),
            ipj_path: self.ipj_path.clone(),
            workspace_path: self.workspace_path.clone(),
            project_name: self.project_name.clone(),
            project_type: copy_opt(&self.project_type),
            inventor_version: copy_opt(&self.inventor_version),
            summary: self.summary,
            warnings: copy_strings(&self.warnings),
        }
    }
}

/// The manifest sent to the server when an upload starts.
#[derive(Debug)]
pub struct ImportManifest {
    pub project_name: String,
    pub ipj_path: String,
    pub inventor_version: Option<String>,
    pub files: Vec<ImportManifestFile>,
}

pub struct ImportManifestView {
    pub project_name: Seq<char>,
    pub ipj_path: Seq<char>,
    pub inventor_version: Option<Seq<char>>,
    pub files: Seq<ImportManifestFileView>,
}

impl View for ImportManifest {
    type V = ImportManifestView;

    open spec fn view(&self) -> ImportManifestView {
        ImportManifestView {
            project_name: self.project_name@,
            ipj_path: self.ipj_path@,
            inventor_version: opt_view(self.inventor_version),
            files: manifest_files_view(self.files@),
        }
    }
}

/// A copy of a list of scanned files.
pub fn copy_scanned(v: &Vec<ScannedFile>) -> (r: Vec<ScannedFile>)
    ensures
        scanned_view(r@) == scanned_view(v@),
{
    let mut r: Vec<ScannedFile> = Vec::new();
    let mut i: usize = 0;
    while i < v.len()
        invariant
            0 <= i <= v.len(),
            r@.len() == i,
            scanned_view(r@) == scanned_view(v@).take(i as int),
        decreases v.len() - i,
    {
        let c = v[i].clone();
        r.push(c);
        assert(scanned_view(r@) =~= scanned_view(v@).take(i + 1)) by {
            assert(scanned_view(r@)[i as int] == c@);
        }
        i = i + 1;
    }
    assert(scanned_view(v@).take(v.len() as int) =~= scanned_view(v@));
    r
}

/// The manifest entries of the scanned files, in the same order.
pub fn manifest_entries(files: &Vec<ScannedFile>) -> (r: Vec<ImportManifestFile>)
    ensures
        manifest_files_view(r@) == scanned_view(files@).map_values(|f: ScannedFileView| f.manifest),
{
    let ghost target = scanned_view(files@).map_values(|f: ScannedFileView| f.manifest);
    let mut r: Vec<ImportManifestFile> = Vec::new();
    let mut i: usize = 0;
    while i < files.len()
        invariant
            0 <= i <= files.len(),
            target == scanned_view(files@).map_values(|f: ScannedFileView| f.manifest),
            r@.len() == i,
            manifest_files_view(r@) == target.take(i as int),
        decreases files.len() - i,
    {
        let c = files[i].manifest.clone();
        r.push(c);
        assert(manifest_files_view(r@) =~= target.take(i + 1)) by {
            assert(manifest_files_view(r@)[i as int] == c@);
            assert(target[i as int] == files@[i as int].manifest@);
        }
        i = i + 1;
    }
    assert(target.take(files.len() as int) =~= target);
    r
}

impl Clone for ImportManifest {
    fn clone(&self) -> (r: Self)
        ensures
            r@ == self@,
    {
        let mut files: Vec<ImportManifestFile> = Vec::new();
        let mut i: usize = 0;
        while i < self.files.len()
            invariant
                0 <= i <= self.files.len(),
                files@.len() == i,
                manifest_files_view(files@) == manifest_files_view(self.files@).take(i as int),
            decreases self.files.len() - i,
        {
            let c = self.files[i].clone();
            files.push(c);
            assert(manifest_files_view(files@) =~= manifest_files_view(self.files@).take(i + 1))
                by {
                assert(manifest_files_view(files@)[i as int] == c@);
            }
            i = i + 1;
        }
        assert(manifest_files_view(self.files@).take(self.files.len() as int)
            =~= manifest_files_view(self.files@));
        ImportManifest {
            project_name: self.project_name.clone(),
            ipj_path: self.ipj_path.clone(),
            inventor_version: copy_opt(&self.inventor_version),
            files,
        }
    }
}

/// An analysed folder, ready for upload.
#[derive(Debug)]
pub struct PreparedImport {
    pub analysis: ImportAnalysis,
    pub manifest: ImportManifest,
    pub files: Vec<ScannedFile>,
}

pub struct PreparedImportView {
    pub analysis: ImportAnalysisView,
    pub manifest: ImportManifestView,
    pub files: Seq<ScannedFileView>,
}

impl View for PreparedImport {
    type V = PreparedImportView;

    open spec fn view(&self) -> PreparedImportView {
        PreparedImportView {
            analysis: self.analysis@,
            manifest: self.manifest@,
            files: scanned_view(self.files@),
        }
    }
}

impl Clone for PreparedImport {
    fn clone(&self) -> (r: Self)
        ensures
            r@ == self@,
    {
        PreparedImport {
            analysis: self.analysis.clone(),
            manifest: self.manifest.clone(),
            files: copy_scanned(&self.files),
        }
    }
}

/// How far an upload has got.
#[derive(Debug)]
pub struct UploadProgress {
    pub total_files: usize,
    pub uploaded_files: usize,
    pub total_bytes: u64,
    pub uploaded_bytes: u64,
    pub current_file: Option<String>,
}

pub struct UploadProgressView {
    pub total_files: usize,
    pub uploaded_files: usize,
    pub total_bytes: u64,
    pub uploaded_bytes: u64,
    pub current_file: Option<Seq<char>>,
}

impl View for UploadProgress {
    type V = UploadProgressView;

    open spec fn view(&self) -> UploadProgressView {
        UploadProgressView {
            total_files: self.total_files,
            uploaded_files: self.uploaded_files,
            total_bytes: self.total_bytes,
            uploaded_bytes: self.uploaded_bytes,
            current_file: opt_view(self.current_file),
        }
    }
}

impl Clone for UploadProgress {
    fn clone(&self) -> (r: Self)
        ensures
            r@ == self@,
    {
        UploadProgress {
            total_files: self.total_files,
            uploaded_files: self.uploaded_files,
            total_bytes: self.total_bytes,
            uploaded_bytes: self.uploaded_bytes,
            current_file: copy_opt(&self.current_file),
        }
    }
}

} // verus!
