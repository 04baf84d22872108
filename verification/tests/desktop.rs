use fabbit_file_agent::server::AuthState;
use fabbit_file_agent::shell::{normalize_target_folder, saved_target_folder, shell_uri};
use fabbit_file_agent::tray::{draw_badge, greet, menu_action, tray_display_name, MenuAction};
use fabbit_file_agent::updater::{
    check, check_mock, install_decision, update_menu_label, update_notice, update_tooltip, UpdateInfo,
};
use fabbit_file_agent::watcher::{
    upload_reminder, PendingUploads, WatchController, WatchEvent, UPLOAD_REMINDER_AFTER_MS,
};

#[test]
fn greeting() {
    assert_eq!(greet("Kim"), "Hello, Kim! Fabbit에서 인사드립니다!");
}

#[test]
fn tray_texts_and_actions() {
    let mut state = AuthState::default();
    assert_eq!(tray_display_name(&state), "로그인 필요");
    state.logged_in = true;
    state.username = "lee".to_string();
    assert_eq!(tray_display_name(&state), "lee");
    assert_eq!(menu_action("user"), MenuAction::SignIn);
    assert_eq!(menu_action("open_folder"), MenuAction::OpenFolder);
    assert_eq!(menu_action("autostart"), MenuAction::ToggleAutostart);
    assert_eq!(menu_action("update"), MenuAction::InstallUpdate);
    assert_eq!(menu_action("quit"), MenuAction::Quit);
    assert_eq!(menu_action("app_title"), MenuAction::Ignore);
}

#[test]
fn badge_paints_bottom_right_disc() {
    let (w, h) = (8u32, 8u32);
    let mut rgba: Vec<u8> = (0..(w * h * 4)).map(|i| (i % 7) as u8).collect();
    let before = rgba.clone();
    draw_badge(&mut rgba, w, h, true);
    // radius 2, centre (5, 5)
    let px = |x: u32, y: u32| ((y * w + x) * 4) as usize;
    assert_eq!(&rgba[px(5, 5)..px(5, 5) + 4], &[220, 38, 38, 255]);
    assert_eq!(&rgba[px(7, 5)..px(7, 5) + 4], &[220, 38, 38, 255]);
    assert_eq!(&rgba[px(7, 7)..px(7, 7) + 4], &before[px(7, 7)..px(7, 7) + 4]);
    assert_eq!(&rgba[px(0, 0)..px(0, 0) + 4], &before[px(0, 0)..px(0, 0) + 4]);
    let changed = (0..(w * h) as usize).filter(|q| rgba[4 * q..4 * q + 4] != before[4 * q..4 * q + 4]).count();
    assert_eq!(changed, 13);
    let mut rgba2 = before.clone();
    draw_badge(&mut rgba2, w, h, false);
    assert_eq!(&rgba2[px(4, 6)..px(4, 6) + 4], &[245, 158, 11, 255]);
    let mut empty: Vec<u8> = vec![];
    draw_badge(&mut empty, 0, 0, true);
    assert!(empty.is_empty());
    let mut none_high: Vec<u8> = vec![];
    draw_badge(&mut none_high, 100_000, 0, true);
    assert!(none_high.is_empty());
}

#[test]
fn badge_on_wide_icon() {
    // radius 1, centre (8, 2): the disc is the centre and its four neighbours
    let (w, h) = (10u32, 4u32);
    let mut rgba: Vec<u8> = vec![0; (w * h * 4) as usize];
    draw_badge(&mut rgba, w, h, false);
    let painted: Vec<(u32, u32)> = (0..h)
        .flat_map(|y| (0..w).map(move |x| (x, y)))
        .filter(|&(x, y)| rgba[((y * w + x) * 4) as usize + 3] == 255)
        .collect();
    assert_eq!(painted, vec![(8, 1), (7, 2), (8, 2), (9, 2), (8, 3)]);
}

#[test]
fn update_texts() {
    let info = check("0.1.0");
    assert_eq!(info.current_version, "0.1.0");
    assert_eq!(info.latest_version, "0.1.0");
    assert!(!info.update_available && !info.mandatory);
    assert!(info.download_url.is_empty() && info.release_notes.is_empty());
    assert!(update_notice(&info).is_none());
    assert_eq!(install_decision(&info).err().unwrap(), "No update available");

    let mut info = UpdateInfo {
        current_version: "0.1.0".to_string(),
        latest_version: "0.2.0".to_string(),
        update_available: true,
        mandatory: false,
        download_url: "/x".to_string(),
        release_notes: "notes".to_string(),
    };
    assert!(install_decision(&info).is_ok());
    let n = update_notice(&info).unwrap();
    assert_eq!(n.title, "Fabbit 업데이트 가능");
    assert_eq!(n.body, "v0.1.0 → v0.2.0\nnotes");
    assert_eq!(update_menu_label(&info), "업데이트 설치 (v0.2.0)");
    assert_eq!(update_tooltip(false), "Fabbit - 업데이트 가능");
    info.mandatory = true;
    let n = update_notice(&info).unwrap();
    assert_eq!(n.title, "Fabbit 필수 업데이트");
    assert_eq!(n.body, "보안 업데이트가 필요합니다. (v0.1.0 → v0.2.0)");
    assert_eq!(update_menu_label(&info), "⚠ 필수 업데이트 (v0.2.0)");
    assert_eq!(update_tooltip(true), "Fabbit - 필수 업데이트 필요");
}

#[test]
fn watch_controller_switches() {
    let mut c = WatchController::default();
    assert!(!c.is_watching("/f"));
    let (tx1, rx1) = std::sync::mpsc::channel::<()>();
    assert!(c.switch_to("/f".to_string(), tx1).is_none());
    assert!(c.is_watching("/f"));
    assert!(c.is_watching("/f/"));
    assert!(!c.is_watching("/g"));
    let (tx2, _rx2) = std::sync::mpsc::channel::<()>();
    let prev = c.switch_to("/g".to_string(), tx2).unwrap();
    prev.send(()).unwrap();
    assert!(rx1.try_recv().is_ok());
    assert!(c.is_watching("/g"));
}

fn ev(path: &str, any_kind: bool, is_file: bool) -> WatchEvent {
    WatchEvent { path: path.to_string(), any_kind, is_file }
}

#[test]
fn pending_uploads_collect_changed_files() {
    let mut p = PendingUploads::new();
    assert!(p.record(&vec![ev("/f/dir", true, false)], 1).is_none());
    let r = p
        .record(
            &vec![
                ev("/f/a.ipt", true, true),
                ev("/f/.a.swp", true, true),
                ev("/f/~lock", true, true),
                ev("/f/b.ipt", false, true),
                ev("/f/a.ipt", true, true),
                ev("/f//a.ipt", true, true),
            ],
            10,
        )
        .unwrap();
    assert_eq!(r.count, 1);
    assert_eq!(r.files, vec!["/f/a.ipt"]);
    let r = p.record(&vec![ev("/f/c.iam", true, true), ev("/f/a.ipt", true, true)], 20).unwrap();
    assert_eq!(r.count, 2);
    assert_eq!(r.files, vec!["/f/a.ipt", "/f/c.iam"]);
    assert_eq!(p.entries[0].since, 10);
    assert_eq!(p.entries[1].since, 20);
    assert_eq!(p.paths(), vec!["/f/a.ipt", "/f/c.iam"]);
}

#[test]
fn files_left_unuploaded_are_reminded_once() {
    let mut p = PendingUploads::new();
    p.record(&vec![ev("/f/a.ipt", true, true)], 1_000);
    p.record(&vec![ev("/f/b.ipt", true, true)], 2_000);
    let after = UPLOAD_REMINDER_AFTER_MS;
    assert_eq!(after, 300_000);
    assert!(p.due_reminders(1_000 + after - 1, after).is_empty());
    assert_eq!(p.due_reminders(1_000 + after, after), vec!["/f/a.ipt"]);
    assert!(p.entries[0].reminded);
    assert!(!p.entries[1].reminded);
    assert_eq!(p.due_reminders(10_000_000, after), vec!["/f/b.ipt"]);
    assert!(p.due_reminders(20_000_000, after).is_empty());
    // a clock that went back reminds of nothing
    let mut q = PendingUploads::new();
    q.record(&vec![ev("/f/c.ipt", true, true)], 5_000);
    assert!(q.due_reminders(4_000, 0).is_empty());
    assert_eq!(q.due_reminders(5_000, 0), vec!["/f/c.ipt"]);
}

#[test]
fn reminder_notice_counts_files() {
    assert!(upload_reminder(&vec![]).is_none());
    let n = upload_reminder(&vec!["/f/a.ipt".to_string(), "/f/b.ipt".to_string()]).unwrap();
    assert_eq!(n.title, "업로드되지 않은 변경");
    assert_eq!(n.body, "2개 파일이 수정된 뒤 아직 업로드되지 않았습니다. Fabbit에 동기화하세요.");
}

#[test]
fn target_folder_choice() {
    assert_eq!(normalize_target_folder("/a/./b//c/", "/base"), "/a/b/c");
    assert_eq!(normalize_target_folder("d/e", "/base"), "/base/d/e");
    assert_eq!(saved_target_folder(None, "/base"), None);
    assert_eq!(saved_target_folder(Some("  \t"), "/base"), None);
    assert_eq!(saved_target_folder(Some("x"), "/base"), Some("/base/x".to_string()));
}

#[test]
fn saved_folder_reads_back() {
    let choices = [
        ("/a/./b//c/", "/w"),
        ("d/./e/", "/base"),
        ("/", "/w"),
        ("./x", "/w"),
        ("..", "/w/v"),
        ("", "/w"),
        ("a:b", "/w"),
    ];
    for (chosen, base) in choices {
        let n = normalize_target_folder(chosen, base);
        assert_eq!(saved_target_folder(Some(&n), "/elsewhere"), Some(n.clone()));
        assert_eq!(normalize_target_folder(&n, "/other"), n);
    }
}

#[test]
fn mock_update_check_offers_next_release() {
    let info = check_mock("0.1.0", "/home/u");
    assert_eq!(info.latest_version, "0.2.0");
    assert!(info.update_available);
    assert!(!info.mandatory);
    assert_eq!(info.download_url, "/home/u/Fabbit/_updates/Fabbit_0.2.0_x64-setup.exe");
    assert_eq!(info.release_notes, "새 기능: 파일 자동 업로드, 버그 수정");
    assert!(!check_mock("0.2.0", "/home/u").update_available);
}
