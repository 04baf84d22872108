//! Update checks and what the user is told about an available update.
use vstd::prelude::*;
use crate::paths::{join_path, path_join};
use crate::text::{chars_eq, chars_of};
use vstd::string::StringExecFns;

verus! {

/// What an update check found.
#[derive(Debug)]
pub struct UpdateInfo {
    pub current_version: String,
    pub latest_version: String,
    pub update_available: bool,
    pub mandatory: bool,
    pub download_url: String,
    pub release_notes: String,
}

impl Clone for UpdateInfo {
    fn clone(&self) -> (r: Self)
        ensures
            r == *self,
    {
        UpdateInfo {
            current_version: self.current_version.clone(),
            latest_version: self.latest_version.clone(),
            update_available: self.update_available,
            mandatory: self.mandatory,
            download_url: self.download_url.clone(),
            release_notes: self.release_notes.clone(),
        }
    }
}

/// Checks for an update. No release feed is consulted: the running version is reported as the
/// latest, with no update available.
pub fn check(current_version: &str) -> (info: UpdateInfo)
    ensures
        info.current_version@ == current_version@,
        info.latest_version@ == current_version@,
        !info.update_available,
        !info.mandatory,
        info.download_url@ == Seq::<char>::empty(),
        info.release_notes@ == Seq::<char>::empty(),
{
    UpdateInfo {
        current_version: current_version.to_owned(),
        latest_version: current_version.to_owned(),
        update_available: false,
        mandatory: false,
        download_url: String::new(),
        release_notes: String::new(),
    }
}

/// The installer the mock release feed offers, under the user's home folder.
pub open spec fn mock_installer_path(home_dir: Seq<char>) -> Seq<char> {
    path_join(
        path_join(path_join(home_dir, "Fabbit"@), "_updates"@),
        "Fabbit_0.2.0_x64-setup.exe"@,
    )
}

/// Checks for an update against the mock release feed, which always offers version 0.2.0 with
/// an installer under `home_dir`.
pub fn check_mock(current_version: &str, home_dir: &str) -> (info: UpdateInfo)
    ensures
        info.current_version@ == current_version@,
        info.latest_version@ == "0.2.0"@,
        info.update_available == (current_version@ != "0.2.0"@),
        !info.mandatory,
        info.download_url@ == mock_installer_path(home_dir@),
        info.release_notes@ == "새 기능: 파일 자동 업로드, 버그 수정"@,
{
    let latest = "0.2.0".to_owned();
    let update_available = !chars_eq(&chars_of(latest.as_str()), &chars_of(current_version));
    let fabbit = join_path(home_dir, "Fabbit");
    let updates = join_path(fabbit.as_str(), "_updates");
    let installer = join_path(updates.as_str(), "Fabbit_0.2.0_x64-setup.exe");
    UpdateInfo {
        current_version: current_version.to_owned(),
        latest_version: latest,
        update_available,
        mandatory: false,
        download_url: installer,
        release_notes: "새 기능: 파일 자동 업로드, 버그 수정".to_owned(),
    }
}

/// A desktop notification.
#[derive(Debug)]
pub struct UpdateNotice {
    pub title: String,
    pub body: String,
}

/// The notification for an update check: none without an update; for a mandatory update a
/// security notice naming both versions; otherwise the versions and the release notes.
pub open spec fn notice_spec(info: UpdateInfo) -> Option<(Seq<char>, Seq<char>)> {
    if !info.update_available {
        None
    } else if info.mandatory {
        Some(
            (
                "Fabbit 필수 업데이트"@,
                "보안 업데이트가 필요합니다. (v"@ + info.current_version@ + " → v"@
                    + info.latest_version@ + ")"@,
            ),
        )
    } else {
        Some(
            (
                "Fabbit 업데이트 가능"@,
                "v"@ + info.current_version@ + " → v"@ + info.latest_version@ + "\n"@
                    + info.release_notes@,
            ),
        )
    }
}

/// The notification to show after an update check, if any.
pub fn update_notice(info: &UpdateInfo) -> (r: Option<UpdateNotice>)
    ensures
        match notice_spec(*info) {
            None => r is None,
            Some((title, body)) => r matches Some(n) && n.title@ == title && n.body@ == body,
        },
{
    if !info.update_available {
        return None;
    }
    let mut title = String::new();
    let mut body = String::new();
    if info.mandatory {
        title.append("Fabbit 필수 업데이트");
        body.append("보안 업데이트가 필요합니다. (v");
        body.append(info.current_version.as_str());
        body.append(" → v");
        body.append(info.latest_version.as_str());
        body.append(")");
    } else {
        title.append("Fabbit 업데이트 가능");
        body.append("v");
        body.append(info.current_version.as_str());
        body.append(" → v");
        body.append(info.latest_version.as_str());
        body.append("\n");
        body.append(info.release_notes.as_str());
    }
    Some(UpdateNotice { title, body })
}

/// The tray menu's label for an available update.
pub fn update_menu_label(info: &UpdateInfo) -> (r: String)
    ensures
        info.mandatory ==> r@ == "⚠ 필수 업데이트 (v"@ + info.latest_version@ + ")"@,
        !info.mandatory ==> r@ == "업데이트 설치 (v"@ + info.latest_version@ + ")"@,
{
    let mut r = String::new();
    if info.mandatory {
        r.append("⚠ 필수 업데이트 (v");
    } else {
        r.append("업데이트 설치 (v");
    }
    r.append(info.latest_version.as_str());
    r.append(")");
    r
}

/// The tray icon's tooltip once an update is available.
pub fn update_tooltip(mandatory: bool) -> (r: &'static str)
    ensures
        mandatory ==> r@ == "Fabbit - 필수 업데이트 필요"@,
        !mandatory ==> r@ == "Fabbit - 업데이트 가능"@,
{
    if mandatory {
        "Fabbit - 필수 업데이트 필요"
    } else {
        "Fabbit - 업데이트 가능"
    }
}

/// Whether an install may start: only when an update is available.
pub fn install_decision(info: &UpdateInfo) -> (r: Result<(), String>)
    ensures
        info.update_available ==> r is Ok,
        !info.update_available ==> (r matches Err(m) && m@ == "No update available"@),
{
    if info.update_available {
        Ok(())
    } else {
        let mut m = String::new();
        m.append("No update available");
        Err(m)
    }
}

} // verus!
