//! The state of the import shown to the user: idle, analysed and ready, uploading, completed or
//! failed, with the analysis, the upload's progress and the last error.
use vstd::prelude::*;
use crate::model::{
    copy_opt, scanned_view, ImportAnalysis, ImportAnalysisView, PreparedImport, PreparedImportView,
    UploadProgress, UploadProgressView,
};
use crate::paths::opt_view;
use crate::scan::total_size;
use vstd::string::StringExecFns;

verus! {

/// Where the import stands.
#[derive(Clone, Copy, PartialEq, Eq, Debug, Structural)]
pub enum ImportStatus {
    Idle,
    Ready,
    Uploading,
    Completed,
    Failed,
}

/// The name of a status as the user interface receives it.
pub open spec fn status_name(s: ImportStatus) -> Seq<char> {
    match s {
        ImportStatus::Idle => "idle"@,
        ImportStatus::Ready => "ready"@,
        ImportStatus::Uploading => "uploading"@,
        ImportStatus::Completed => "completed"@,
        ImportStatus::Failed => "failed"@,
    }
}

impl ImportStatus {
    pub fn as_str(self) -> (r: &'static str)
        ensures
            r@ == status_name(self),
    {
        match self {
            ImportStatus::Idle => "idle",
            ImportStatus::Ready => "ready",
            ImportStatus::Uploading => "uploading",
            ImportStatus::Completed => "completed",
            ImportStatus::Failed => "failed",
        }
    }
}

/// The user interface receives each status under its own name, `idle`, `ready`,
/// `uploading`, `completed` and `failed`, and no two statuses share a name.
pub proof fn lemma_status_names()
    ensures
        status_name(ImportStatus::Idle) == "idle"@,
        status_name(ImportStatus::Ready) == "ready"@,
        status_name(ImportStatus::Uploading) == "uploading"@,
        status_name(ImportStatus::Completed) == "completed"@,
        status_name(ImportStatus::Failed) == "failed"@,
        forall|a: ImportStatus, b: ImportStatus|
            #[trigger] status_name(a) == #[trigger] status_name(b) ==> a == b,
{
    reveal_strlit("idle");
    reveal_strlit("ready");
    reveal_strlit("uploading");
    reveal_strlit("completed");
    reveal_strlit("failed");
    assert forall|a: ImportStatus, b: ImportStatus|
        #[trigger] status_name(a) == #[trigger] status_name(b) implies a == b by {
        if a != b {
            let x = status_name(a);
            let y = status_name(b);
            assert(x.len() != y.len() || x[0] != y[0]);
        }
    }
}

/// What the user interface is shown of the import state.
#[derive(Debug)]
pub struct ImportStateSnapshot {
    pub status: String,
    pub analysis: Option<ImportAnalysis>,
    pub progress: Option<UploadProgress>,
    pub last_error: Option<String>,
}

pub open spec fn opt_analysis_view(o: Option<ImportAnalysis>) -> Option<ImportAnalysisView> {
    match o {
        Some(a) => Some(a@),
        None => None,
    }
}

pub open spec fn opt_progress_view(o: Option<UploadProgress>) -> Option<UploadProgressView> {
    match o {
        Some(p) => Some(p@),
        None => None,
    }
}

pub open spec fn opt_prepared_view(o: Option<PreparedImport>) -> Option<PreparedImportView> {
    match o {
        Some(p) => Some(p@),
        None => None,
    }
}

/// The sum of the sizes of a prepared import's files.
pub open spec fn prepared_bytes(p: PreparedImportView) -> nat {
    total_size(p.files)
}

/// The import state.
pub struct ImportState {
    pub status: ImportStatus,
    pub analysis: Option<ImportAnalysis>,
    pub progress: Option<UploadProgress>,
    pub last_error: Option<String>,
    pub prepared: Option<PreparedImport>,
}

impl ImportState {
    /// The sizes of the prepared files add up to a `u64`.
    pub open spec fn wf(&self) -> bool {
        self.prepared matches Some(p) ==> prepared_bytes(p@) <= u64::MAX
    }
}

fn copy_analysis(a: &Option<ImportAnalysis>) -> (r: Option<ImportAnalysis>)
    ensures
        opt_analysis_view(r) == opt_analysis_view(*a),
{
    match a {
        Some(x) => Some(x.clone()),
        None => None,
    }
}

fn copy_progress(p: &Option<UploadProgress>) -> (r: Option<UploadProgress>)
    ensures
        opt_progress_view(r) == opt_progress_view(*p),
{
    match p {
        Some(x) => Some(x.clone()),
        None => None,
    }
}

impl Default for ImportState {
    fn default() -> (s: Self)
        ensures
            s.status == ImportStatus::Idle,
            s.analysis is None,
            s.progress is None,
            s.last_error is None,
            s.prepared is None,
    {
        ImportState {
            status: ImportStatus::Idle,
            analysis: None,
            progress: None,
            last_error: None,
            prepared: None,
        }
    }
}

pub open spec fn uploading_message() -> Seq<char> {
    "업로드가 진행 중입니다. 완료 후 다시 시도해 주세요."@
}

pub open spec fn login_required_message() -> Seq<char> {
    "로그인이 필요합니다. 트레이 메뉴에서 먼저 로그인해 주세요."@
}

pub open spec fn already_uploading_message() -> Seq<char> {
    "이미 업로드가 진행 중입니다."@
}

pub open spec fn not_analysed_message() -> Seq<char> {
    "먼저 IPJ 폴더를 분석해 주세요."@
}

/// The progress of an upload that has just started.
pub open spec fn initial_progress(p: PreparedImportView) -> UploadProgressView {
    UploadProgressView {
        total_files: p.files.len() as usize,
        uploaded_files: 0,
        total_bytes: prepared_bytes(p) as u64,
        uploaded_bytes: 0,
        current_file: None,
    }
}

impl ImportState {
    /// What the user interface is shown.
    pub fn snapshot(&self) -> (s: ImportStateSnapshot)
        ensures
            s.status@ == status_name(self.status),
            opt_analysis_view(s.analysis) == opt_analysis_view(self.analysis),
            opt_progress_view(s.progress) == opt_progress_view(self.progress),
            opt_view(s.last_error) == opt_view(self.last_error),
    {
        ImportStateSnapshot {
            status: self.status.as_str().to_owned(),
            analysis: copy_analysis(&self.analysis),
            progress: copy_progress(&self.progress),
            last_error: copy_opt(&self.last_error),
        }
    }

    /// A new analysis may not start while an upload runs.
    pub fn check_can_analyze(&self) -> (r: Result<(), String>)
        ensures
            self.status == ImportStatus::Uploading ==> (r matches Err(m) && m@ == uploading_message()),
            self.status != ImportStatus::Uploading ==> r is Ok,
    {
        if self.status == ImportStatus::Uploading {
            let mut m = String::new();
            m.append("업로드가 진행 중입니다. 완료 후 다시 시도해 주세요.");
            Err(m)
        } else {
            Ok(())
        }
    }

    /// Keeps a finished analysis: the import is ready, with no progress and no error.
    pub fn set_prepared(&mut self, prepared: PreparedImport) -> (a: ImportAnalysis)
        requires
            prepared_bytes(prepared@) <= u64::MAX,
        ensures
            final(self).wf(),
            final(self).status == ImportStatus::Ready,
            opt_analysis_view(final(self).analysis) == Some(prepared@.analysis),
            final(self).progress is None,
            final(self).last_error is None,
            opt_prepared_view(final(self).prepared) == Some(prepared@),
            a@ == prepared@.analysis,
    {
        let analysis = prepared.analysis.clone();
        self.status = ImportStatus::Ready;
        self.analysis = Some(analysis.clone());
        self.progress = None;
        self.last_error = None;
        self.prepared = Some(prepared);
        analysis
    }

    /// Starts an upload of the prepared import with the given access token. Fails without a
    /// token, while another upload runs, or before any analysis.
    pub fn begin_upload(&mut self, access_token: Option<String>) -> (r: Result<(PreparedImport, String), String>)
        requires
            old(self).wf(),
        ensures
            final(self).wf(),
            match access_token {
                None => r matches Err(m) && m@ == login_required_message() && *final(self) == *old(
                    self,
                ),
                Some(token) => if old(self).status == ImportStatus::Uploading {
                    r matches Err(m) && m@ == already_uploading_message() && *final(self) == *old(
                        self,
                    )
                } else {
                    match old(self).prepared {
                        None => r matches Err(m) && m@ == not_analysed_message() && *final(self)
                            == *old(self),
                        Some(p) => {
                            &&& r matches Ok((q, t)) && q@ == p@ && t@ == token@
                            &&& final(self).status == ImportStatus::Uploading
                            &&& final(self).last_error is None
                            &&& opt_progress_view(final(self).progress) == Some(
                                initial_progress(p@),
                            )
                            &&& final(self).analysis == old(self).analysis
                            &&& final(self).prepared == old(self).prepared
                        },
                    }
                },
            },
    {
        let token = match access_token {
            None => {
                let mut m = String::new();
                m.append("로그인이 필요합니다. 트레이 메뉴에서 먼저 로그인해 주세요.");
                return Err(m);
            },
            Some(t) => t,
        };
        if self.status == ImportStatus::Uploading {
            let mut m = String::new();
            m.append("이미 업로드가 진행 중입니다.");
            return Err(m);
        }
        let prepared = match &self.prepared {
            None => {
                let mut m = String::new();
                m.append("먼저 IPJ 폴더를 분석해 주세요.");
                return Err(m);
            },
            Some(p) => p.clone(),
        };
        let total_bytes = sum_sizes(&prepared);
        self.status = ImportStatus::Uploading;
        self.last_error = None;
        self.progress = Some(
            UploadProgress {
                total_files: prepared.files.len(),
                uploaded_files: 0,
                total_bytes,
                uploaded_bytes: 0,
                current_file: None,
            },
        );
        Ok((prepared, token))
    }

    /// Shows the upload's progress.
    pub fn set_progress(&mut self, progress: UploadProgress)
        requires
            old(self).wf(),
        ensures
            final(self).wf(),
            opt_progress_view(final(self).progress) == Some(progress@),
            final(self).status == old(self).status,
            final(self).analysis == old(self).analysis,
            final(self).last_error == old(self).last_error,
            final(self).prepared == old(self).prepared,
    {
        self.progress = Some(progress);
    }

    /// Ends an upload that sent every file: completed, with all files and bytes uploaded.
    pub fn complete_upload(&mut self, total_files: usize, total_bytes: u64)
        requires
            old(self).wf(),
        ensures
            final(self).wf(),
            final(self).status == ImportStatus::Completed,
            final(self).last_error is None,
            opt_progress_view(final(self).progress) == Some(
                UploadProgressView {
                    total_files,
                    uploaded_files: total_files,
                    total_bytes,
                    uploaded_bytes: total_bytes,
                    current_file: None,
                },
            ),
            final(self).analysis == old(self).analysis,
            final(self).prepared == old(self).prepared,
    {
        self.status = ImportStatus::Completed;
        self.last_error = None;
        self.progress = Some(
            UploadProgress {
                total_files,
                uploaded_files: total_files,
                total_bytes,
                uploaded_bytes: total_bytes,
                current_file: None,
            },
        );
    }

    /// Ends an upload that failed, keeping the reason.
    pub fn fail_upload(&mut self, message: String)
        requires
            old(self).wf(),
        ensures
            final(self).wf(),
            final(self).status == ImportStatus::Failed,
            opt_view(final(self).last_error) == Some(message@),
            final(self).progress == old(self).progress,
            final(self).analysis == old(self).analysis,
            final(self).prepared == old(self).prepared,
    {
        self.status = ImportStatus::Failed;
        self.last_error = Some(message);
    }
}

/// The sum of the sizes of the prepared files.
pub fn sum_sizes(prepared: &PreparedImport) -> (total: u64)
    requires
        prepared_bytes(prepared@) <= u64::MAX,
    ensures
        total == prepared_bytes(prepared@),
{
    let ghost all = scanned_view(prepared.files@);
    let mut total: u64 = 0;
    let mut i: usize = 0;
    while i < prepared.files.len()
        invariant
            0 <= i <= prepared.files.len(),
            all == scanned_view(prepared.files@),
            total_size(all) <= u64::MAX,
            total == total_size(all.take(i as int)),
        decreases prepared.files.len() - i,
    {
        proof {
            assert(all.take(i + 1).drop_last() =~= all.take(i as int));
            assert(all.take(i + 1).last() == prepared.files@[i as int]@);
            crate::scan::lemma_total_size_prefix(all, i + 1);
        }
        total = total + prepared.files[i].manifest.size_bytes;
        i = i + 1;
    }
    assert(all.take(prepared.files.len() as int) =~= all);
    total
}

} // verus!
