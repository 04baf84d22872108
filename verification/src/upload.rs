//! Uploading a prepared import.
//!
//! The server answers the manifest with one upload target per file. Each file is then sent to
//! its target, in manifest order; the first failure ends the upload. The network work is the
//! caller's: this module decides what to send where, what counts as a failure, and how far the
//! upload has got.
use vstd::prelude::*;
use crate::model::{scanned_view, PreparedImport, ScannedFile, ScannedFileView, UploadProgress, UploadProgressView};
use crate::import_state::{prepared_bytes, sum_sizes};
use crate::paths::opt_view;
use crate::scan::{lemma_total_size_prefix, total_size};
use crate::text::{chars_eq, chars_of, decimal, decimal_string, upper_all, upper_chars};
use vstd::string::StringExecFns;

verus! {

/// Where the server wants one file sent.
#[derive(Debug)]
pub struct UploadTarget {
    /// The manifest path of the file this target is for, when the server says.
    pub path: Option<String>,
    pub upload_url: String,
    /// The HTTP method; `PUT` when absent.
    pub method: Option<String>,
    /// Headers to send along, as (name, value) pairs.
    pub headers: Vec<(String, String)>,
}

pub struct UploadTargetView {
    pub path: Option<Seq<char>>,
    pub upload_url: Seq<char>,
    pub method: Option<Seq<char>>,
    pub headers: Seq<(Seq<char>, Seq<char>)>,
}

pub open spec fn pairs_view(v: Seq<(String, String)>) -> Seq<(Seq<char>, Seq<char>)> {
    v.map_values(|p: (String, String)| (p.0@, p.1@))
}

impl View for UploadTarget {
    type V = UploadTargetView;

    open spec fn view(&self) -> UploadTargetView {
        UploadTargetView {
            path: opt_view(self.path),
            upload_url: self.upload_url@,
            method: opt_view(self.method),
            headers: pairs_view(self.headers@),
        }
    }
}

pub open spec fn targets_view(v: Seq<UploadTarget>) -> Seq<UploadTargetView> {
    v.map_values(|t: UploadTarget| t@)
}

/// A copy of a list of string pairs.
pub fn copy_pairs(v: &Vec<(String, String)>) -> (r: Vec<(String, String)>)
    ensures
        pairs_view(r@) == pairs_view(v@),
{
    let mut r: Vec<(String, String)> = Vec::new();
    let mut i: usize = 0;
    while i < v.len()
        invariant
            0 <= i <= v.len(),
            r@.len() == i,
            pairs_view(r@) == pairs_view(v@).take(i as int),
        decreases v.len() - i,
    {
        let p = (v[i].0.clone(), v[i].1.clone());
        r.push(p);
        assert(pairs_view(r@) =~= pairs_view(v@).take(i + 1)) by {
            assert(pairs_view(r@)[i as int] == (p.0@, p.1@));
        }
        i = i + 1;
    }
    assert(pairs_view(v@).take(v.len() as int) =~= pairs_view(v@));
    r
}

/// How a file is sent.
#[derive(Clone, Copy, PartialEq, Eq, Debug, Structural)]
pub enum UploadMethod {
    Post,
    Put,
}

/// `POST` when the target asks for it in any case, `PUT` otherwise.
pub open spec fn method_of(m: Option<Seq<char>>) -> UploadMethod {
    match m {
        Some(s) => if upper_all(s) == "POST"@ {
            UploadMethod::Post
        } else {
            UploadMethod::Put
        },
        None => UploadMethod::Put,
    }
}

/// The method a target asks for: `POST` in any case gives a post, anything else, or nothing,
/// a put; the case of the name never matters.
pub proof fn lemma_method_choice(m: Seq<char>)
    ensures
        method_of(None) == UploadMethod::Put,
        method_of(Some(m)) == UploadMethod::Post <==> upper_all(m) == "POST"@,
        method_of(Some(m)) == method_of(Some(upper_all(m))),
{
    assert forall|i: int| 0 <= i < m.len() implies #[trigger] upper_all(upper_all(m))[i]
        == upper_all(m)[i] by {
        let c = m[i];
        if 97 <= c as u32 <= 122 {
            let d = ((c as u32) - 32) as char;
            assert(d as u32 == (c as u32) - 32);
        }
    }
    assert(upper_all(upper_all(m)) =~= upper_all(m));
}

/// Why an upload failed.
#[derive(Debug)]
pub enum UploadFailure {
    ClientInit { error: String },
    ManifestSend { error: String },
    ManifestRead { error: String },
    ManifestStatus { code: u16, body: String },
    TargetsUnreadable { error: String, body: String },
    NoTargets,
    NoTarget { path: String },
    FileRead { path: String, error: String },
    FileSend { path: String, error: String },
    FileStatus { path: String, code: u16, body: String },
}

/// The message shown for a failure.
pub open spec fn failure_message(f: UploadFailure) -> Seq<char> {
    match f {
        UploadFailure::ClientInit { error } => "HTTP 클라이언트를 초기화하지 못했습니다: "@ + error@,
        UploadFailure::ManifestSend { error } => "매니페스트 전송에 실패했습니다: "@ + error@,
        UploadFailure::ManifestRead { error } => "매니페스트 응답을 읽지 못했습니다: "@ + error@,
        UploadFailure::ManifestStatus { code, body } => "매니페스트 전송이 실패했습니다. ("@
            + decimal(code as nat) + ") "@ + body@,
        UploadFailure::TargetsUnreadable { error, body } => "업로드 대상 응답을 해석하지 못했습니다: "@
            + error@ + ". 응답 본문: "@ + body@,
        UploadFailure::NoTargets => "업로드 대상 정보가 비어 있습니다."@,
        UploadFailure::NoTarget { path } => "'"@ + path@ + "' 파일의 업로드 대상을 찾지 못했습니다."@,
        UploadFailure::FileRead { path, error } => "'"@ + path@ + "' 파일을 읽지 못했습니다: "@
            + error@,
        UploadFailure::FileSend { path, error } => "'"@ + path@ + "' 파일 업로드에 실패했습니다: "@
            + error@,
        UploadFailure::FileStatus { path, code, body } => "'"@ + path@
            + "' 파일 업로드가 실패했습니다. ("@ + decimal(code as nat) + ") "@ + body@,
    }
}

impl UploadFailure {
    /// The message shown for this failure.
    pub fn message(&self) -> (m: String)
        ensures
            m@ == failure_message(*self),
    {
        let mut m = String::new();
        match self {
            UploadFailure::ClientInit { error } => {
                m.append("HTTP 클라이언트를 초기화하지 못했습니다: ");
                m.append(error.as_str());
            },
            UploadFailure::ManifestSend { error } => {
                m.append("매니페스트 전송에 실패했습니다: ");
                m.append(error.as_str());
            },
            UploadFailure::ManifestRead { error } => {
                m.append("매니페스트 응답을 읽지 못했습니다: ");
                m.append(error.as_str());
            },
            UploadFailure::ManifestStatus { code, body } => {
                m.append("매니페스트 전송이 실패했습니다. (");
                m.append(decimal_string(*code as u64).as_str());
                m.append(") ");
                m.append(body.as_str());
            },
            UploadFailure::TargetsUnreadable { error, body } => {
                m.append("업로드 대상 응답을 해석하지 못했습니다: ");
                m.append(error.as_str());
                m.append(". 응답 본문: ");
                m.append(body.as_str());
            },
            UploadFailure::NoTargets => {
                m.append("업로드 대상 정보가 비어 있습니다.");
            },
            UploadFailure::NoTarget { path } => {
                m.append("'");
                m.append(path.as_str());
                m.append("' 파일의 업로드 대상을 찾지 못했습니다.");
            },
            UploadFailure::FileRead { path, error } => {
                m.append("'");
                m.append(path.as_str());
                m.append("' 파일을 읽지 못했습니다: ");
                m.append(error.as_str());
            },
            UploadFailure::FileSend { path, error } => {
                m.append("'");
                m.append(path.as_str());
                m.append("' 파일 업로드에 실패했습니다: ");
                m.append(error.as_str());
            },
            UploadFailure::FileStatus { path, code, body } => {
                m.append("'");
                m.append(path.as_str());
                m.append("' 파일 업로드가 실패했습니다. (");
                m.append(decimal_string(*code as u64).as_str());
                m.append(") ");
                m.append(body.as_str());
            },
        }
        m
    }
}

/// An HTTP status in the success class (200 to 299).
pub open spec fn is_success(code: u16) -> bool {
    200 <= code <= 299
}

pub fn status_is_success(code: u16) -> (r: bool)
    ensures
        r == is_success(code),
{
    200 <= code && code <= 299
}

/// The endpoint that receives a migration manifest.
pub fn migration_url(api_url: &str) -> (r: String)
    ensures
        r@ == api_url@ + "/api/v1/migrations/inventor"@,
{
    let mut r = api_url.to_owned();
    r.append("/api/v1/migrations/inventor");
    r
}

/// The index of the last target meant for `path`.
pub open spec fn last_target_for(targets: Seq<UploadTargetView>, path: Seq<char>) -> Option<int>
    decreases targets.len(),
{
    if targets.len() == 0 {
        None
    } else if targets.last().path == Some(path) {
        Some(targets.len() - 1)
    } else {
        last_target_for(targets.drop_last(), path)
    }
}

/// The target of the file at `index` with manifest path `path`: the last target naming that
/// path, else the target at the same index.
pub open spec fn target_index(targets: Seq<UploadTargetView>, path: Seq<char>, index: int) -> Option<int> {
    match last_target_for(targets, path) {
        Some(k) => Some(k),
        None => if 0 <= index < targets.len() {
            Some(index)
        } else {
            None
        },
    }
}

/// One file to send.
#[derive(Debug)]
pub struct FileUpload {
    /// The file's path relative to the workspace.
    pub path: String,
    /// Where the file is on disk.
    pub absolute_path: String,
    pub url: String,
    pub method: UploadMethod,
    pub headers: Vec<(String, String)>,
    pub size_bytes: u64,
}

/// An upload in progress.
pub struct UploadRun {
    pub files: Vec<ScannedFile>,
    pub targets: Vec<UploadTarget>,
    pub uploaded_files: usize,
    pub uploaded_bytes: u64,
    pub total_bytes: u64,
}

impl UploadRun {
    /// The counters agree with the files sent so far.
    pub open spec fn wf(&self) -> bool {
        &&& total_size(scanned_view(self.files@)) <= u64::MAX
        &&& self.total_bytes == total_size(scanned_view(self.files@))
        &&& self.uploaded_files <= self.files@.len()
        &&& self.uploaded_bytes == total_size(
            scanned_view(self.files@).take(self.uploaded_files as int),
        )
        &&& self.targets@.len() > 0
    }

    /// The file that goes next, if any file is left.
    pub open spec fn next_file(&self) -> ScannedFileView {
        scanned_view(self.files@)[self.uploaded_files as int]
    }
}

proof fn lemma_last_target_bound(targets: Seq<UploadTargetView>, path: Seq<char>)
    ensures
        last_target_for(targets, path) matches Some(k) ==> 0 <= k < targets.len() && targets[k].path
            == Some(path),
    decreases targets.len(),
{
    if targets.len() > 0 {
        lemma_last_target_bound(targets.drop_last(), path);
    }
}

proof fn lemma_last_target_exact(targets: Seq<UploadTargetView>, path: Seq<char>)
    ensures
        match last_target_for(targets, path) {
            Some(k) => {
                &&& 0 <= k < targets.len()
                &&& targets[k].path == Some(path)
                &&& forall|j: int| k < j < targets.len() ==> targets[j].path != Some(path)
            },
            None => forall|j: int| 0 <= j < targets.len() ==> targets[j].path != Some(path),
        },
    decreases targets.len(),
{
    if targets.len() > 0 {
        lemma_last_target_exact(targets.drop_last(), path);
        assert forall|j: int| 0 <= j < targets.len() - 1 implies targets[j] == targets.drop_last()[j] by {}
    }
}

/// How a file finds its upload target. Where some target names the file's path, the file goes
/// to the last target naming it, wherever that target stands in the list; only where none
/// names it does the file take the target at its own index, and with no target there it has
/// none.
pub proof fn lemma_target_choice(targets: Seq<UploadTargetView>, path: Seq<char>, index: int)
    ensures
        (exists|k: int| 0 <= k < targets.len() && #[trigger] targets[k].path == Some(path)) ==> (
        target_index(targets, path, index) matches Some(k) && {
            &&& 0 <= k < targets.len()
            &&& targets[k].path == Some(path)
            &&& forall|j: int| k < j < targets.len() ==> targets[j].path != Some(path)
        }),
        (forall|k: int| 0 <= k < targets.len() ==> #[trigger] targets[k].path != Some(path)) ==> (
        target_index(targets, path, index) == if 0 <= index < targets.len() {
            Some(index)
        } else {
            None::<int>
        }),
{
    lemma_last_target_exact(targets, path);
}

/// A copy of a target list.
fn copy_targets(v: &Vec<UploadTarget>) -> (r: Vec<UploadTarget>)
    ensures
        targets_view(r@) == targets_view(v@),
{
    let mut r: Vec<UploadTarget> = Vec::new();
    let mut i: usize = 0;
    while i < v.len()
        invariant
            0 <= i <= v.len(),
            r@.len() == i,
            targets_view(r@) == targets_view(v@).take(i as int),
        decreases v.len() - i,
    {
        let t = v[i].clone();
        r.push(t);
        assert(targets_view(r@) =~= targets_view(v@).take(i + 1)) by {
            assert(targets_view(r@)[i as int] == t@);
        }
        i = i + 1;
    }
    assert(targets_view(v@).take(v.len() as int) =~= targets_view(v@));
    r
}

impl Clone for UploadTarget {
    fn clone(&self) -> (r: Self)
        ensures
            r@ == self@,
    {
        UploadTarget {
            path: crate::model::copy_opt(&self.path),
            upload_url: self.upload_url.clone(),
            method: crate::model::copy_opt(&self.method),
            headers: copy_pairs(&self.headers),
        }
    }
}

impl UploadRun {
    /// Starts the file uploads from the server's answer to the manifest: its status, its body
    /// and the targets read from the body (or the reason they could not be read).
    pub fn start(
        prepared: &PreparedImport,
        status: u16,
        body: &str,
        targets: Result<Vec<UploadTarget>, String>,
    ) -> (r: Result<UploadRun, UploadFailure>)
        requires
            prepared_bytes(prepared@) <= u64::MAX,
        ensures
            !is_success(status) ==> (r matches Err(f) && failure_message(f) == "매니페스트 전송이 실패했습니다. ("@
                + decimal(status as nat) + ") "@ + body@),
            is_success(status) ==> match targets {
                Err(e) => r matches Err(f) && failure_message(f) == "업로드 대상 응답을 해석하지 못했습니다: "@
                    + e@ + ". 응답 본문: "@ + body@,
                Ok(t) => if t@.len() == 0 {
                    r matches Err(f) && failure_message(f) == "업로드 대상 정보가 비어 있습니다."@
                } else {
                    &&& r matches Ok(run) && {
                        &&& run.wf()
                        &&& scanned_view(run.files@) == prepared@.files
                        &&& targets_view(run.targets@) == targets_view(t@)
                        &&& run.uploaded_files == 0
                    }
                },
            },
    {
        if !status_is_success(status) {
            return Err(UploadFailure::ManifestStatus { code: status, body: body.to_owned() });
        }
        let targets = match targets {
            Err(e) => {
                return Err(UploadFailure::TargetsUnreadable { error: e, body: body.to_owned() });
            },
            Ok(t) => t,
        };
        if targets.len() == 0 {
            return Err(UploadFailure::NoTargets);
        }
        let total_bytes = sum_sizes(prepared);
        let files = crate::model::copy_scanned(&prepared.files);
        assert(scanned_view(files@).take(0) =~= Seq::<ScannedFileView>::empty());
        Ok(UploadRun { files, targets, uploaded_files: 0, uploaded_bytes: 0, total_bytes })
    }

    /// Whether every file has been sent.
    pub fn is_finished(&self) -> (r: bool)
        requires
            self.wf(),
        ensures
            r == (self.uploaded_files == self.files@.len()),
    {
        self.uploaded_files == self.files.len()
    }

    /// Where and how the next file goes: to the last target naming its path, else to the target
    /// at its index.
    pub fn next_upload(&self) -> (r: Result<FileUpload, UploadFailure>)
        requires
            self.wf(),
            self.uploaded_files < self.files@.len(),
        ensures
            match target_index(
                targets_view(self.targets@),
                self.next_file().manifest.path,
                self.uploaded_files as int,
            ) {
                None => r matches Err(f) && failure_message(f) == "'"@
                    + self.next_file().manifest.path + "' 파일의 업로드 대상을 찾지 못했습니다."@,
                Some(k) => r matches Ok(u) && {
                    let t = targets_view(self.targets@)[k];
                    &&& u.path@ == self.next_file().manifest.path
                    &&& u.absolute_path@ == self.next_file().absolute_path
                    &&& u.size_bytes == self.next_file().manifest.size_bytes
                    &&& u.url@ == t.upload_url
                    &&& u.method == method_of(t.method)
                    &&& pairs_view(u.headers@) == t.headers
                },
            },
    {
        let ghost tv = targets_view(self.targets@);
        let file = &self.files[self.uploaded_files];
        assert(scanned_view(self.files@)[self.uploaded_files as int] == file@);
        let key = chars_of(file.manifest.path.as_str());
        let mut k: usize = self.targets.len();
        let mut found: Option<usize> = None;
        assert(tv.take(k as int) =~= tv);
        while k > 0 && found.is_none()
            invariant
                0 <= k <= self.targets@.len(),
                tv == targets_view(self.targets@),
                key@ == file.manifest.path@,
                found is None ==> last_target_for(tv, key@) == last_target_for(
                    tv.take(k as int),
                    key@,
                ),
                found matches Some(j) ==> last_target_for(tv, key@) == Some(j as int),
            decreases k,
        {
            let t = &self.targets[k - 1];
            assert(tv.take(k as int).last() == t@);
            assert(tv.take(k as int).drop_last() =~= tv.take(k - 1));
            let matches = match &t.path {
                Some(p) => chars_eq(&chars_of(p.as_str()), &key),
                None => false,
            };
            if matches {
                found = Some(k - 1);
            }
            k = k - 1;
        }
        if found.is_none() {
            assert(tv.take(0) =~= Seq::<UploadTargetView>::empty());
        }
        proof {
            lemma_last_target_bound(tv, key@);
        }
        let index = match found {
            Some(j) => j,
            None => {
                if self.uploaded_files < self.targets.len() {
                    self.uploaded_files
                } else {
                    return Err(UploadFailure::NoTarget { path: file.manifest.path.clone() });
                }
            },
        };
        let target = &self.targets[index];
        assert(tv[index as int] == target@);
        let method = match &target.method {
            Some(m) => {
                if chars_eq(&upper_chars(&chars_of(m.as_str())), &chars_of("POST")) {
                    UploadMethod::Post
                } else {
                    UploadMethod::Put
                }
            },
            None => UploadMethod::Put,
        };
        Ok(
            FileUpload {
                path: file.manifest.path.clone(),
                absolute_path: file.absolute_path.clone(),
                url: target.upload_url.clone(),
                method,
                headers: copy_pairs(&target.headers),
                size_bytes: file.manifest.size_bytes,
            },
        )
    }

    /// Counts the next file as sent and gives the progress to show.
    pub fn file_uploaded(&mut self) -> (p: UploadProgress)
        requires
            old(self).wf(),
            old(self).uploaded_files < old(self).files@.len(),
        ensures
            final(self).wf(),
            final(self).files == old(self).files,
            final(self).targets == old(self).targets,
            final(self).total_bytes == old(self).total_bytes,
            final(self).uploaded_files == old(self).uploaded_files + 1,
            final(self).uploaded_bytes == old(self).uploaded_bytes + old(
                self,
            ).next_file().manifest.size_bytes,
            p@ == (UploadProgressView {
                total_files: old(self).files@.len() as usize,
                uploaded_files: final(self).uploaded_files,
                total_bytes: old(self).total_bytes,
                uploaded_bytes: final(self).uploaded_bytes,
                current_file: Some(old(self).next_file().manifest.path),
            }),
    {
        let ghost all = scanned_view(self.files@);
        let i = self.uploaded_files;
        let n = self.files.len();
        assert(i < n);
        proof {
            assert(all.take(i + 1).drop_last() =~= all.take(i as int));
            assert(all.take(i + 1).last() == self.files@[i as int]@);
            lemma_total_size_prefix(all, i + 1);
        }
        let size = self.files[i].manifest.size_bytes;
        self.uploaded_bytes = self.uploaded_bytes + size;
        self.uploaded_files = i + 1;
        UploadProgress {
            total_files: self.files.len(),
            uploaded_files: self.uploaded_files,
            total_bytes: self.total_bytes,
            uploaded_bytes: self.uploaded_bytes,
            current_file: Some(self.files[i].manifest.path.clone()),
        }
    }
}

impl UploadRun {
    /// Takes the server's answer to the next file: a success status counts the file as sent
    /// and gives the progress to show; any other status fails the upload, naming the file,
    /// the status and the answer's body, and counts nothing.
    pub fn file_sent(&mut self, status: u16, body: String) -> (r: Result<UploadProgress, UploadFailure>)
        requires
            old(self).wf(),
            old(self).uploaded_files < old(self).files@.len(),
        ensures
            final(self).wf(),
            final(self).files == old(self).files,
            final(self).targets == old(self).targets,
            final(self).total_bytes == old(self).total_bytes,
            !is_success(status) ==> {
                &&& r matches Err(f) && failure_message(f) == "'"@
                    + old(self).next_file().manifest.path + "' 파일 업로드가 실패했습니다. ("@
                    + decimal(status as nat) + ") "@ + body@
                &&& final(self).uploaded_files == old(self).uploaded_files
                &&& final(self).uploaded_bytes == old(self).uploaded_bytes
            },
            is_success(status) ==> {
                &&& final(self).uploaded_files == old(self).uploaded_files + 1
                &&& final(self).uploaded_bytes == old(self).uploaded_bytes + old(
                    self,
                ).next_file().manifest.size_bytes
                &&& r matches Ok(p) && p@ == (UploadProgressView {
                    total_files: old(self).files@.len() as usize,
                    uploaded_files: final(self).uploaded_files,
                    total_bytes: old(self).total_bytes,
                    uploaded_bytes: final(self).uploaded_bytes,
                    current_file: Some(old(self).next_file().manifest.path),
                })
            },
    {
        if !status_is_success(status) {
            let path = self.files[self.uploaded_files].manifest.path.clone();
            assert(scanned_view(self.files@)[self.uploaded_files as int] == self.files@[self.uploaded_files as int]@);
            return Err(UploadFailure::FileStatus { path, code: status, body });
        }
        Ok(self.file_uploaded())
    }
}

/// While an upload runs, the bytes sent never exceed the bytes to send, and once every file is
/// sent they are equal.
pub proof fn lemma_upload_progress_bounded(run: UploadRun)
    requires
        run.wf(),
    ensures
        run.uploaded_bytes <= run.total_bytes,
        run.uploaded_files == run.files@.len() ==> run.uploaded_bytes == run.total_bytes,
{
    lemma_total_size_prefix(scanned_view(run.files@), run.uploaded_files as int);
    if run.uploaded_files == run.files@.len() {
        assert(scanned_view(run.files@).take(run.uploaded_files as int) =~= scanned_view(
            run.files@,
        ));
    }
}

} // verus!
