use runitgui::app::{App, Key, Reply, Request};
use runitgui::listing::DirEntry;
use runitgui::runit::{Runit, SvOutput, SvVerb};
use runitgui::scan::{AvailableScan, EnabledScan};
use runitgui::service::Service;
use runitgui::table::{service_rows, StatusTone};
use runitgui::text::{chars_le_exec, chars_of, contains, find};

fn svc(name: &str, enabled: bool) -> Service {
    let mut s = Service::new(name.to_string(), format!("/etc/sv/{}", name));
    s.enabled = enabled;
    s
}

fn out(success: bool, stdout: &str, stderr: &str) -> SvOutput {
    SvOutput { success, stdout: stdout.to_string(), stderr: stderr.to_string() }
}

fn entries(names: &[&str]) -> Vec<DirEntry> {
    names
        .iter()
        .map(|n| DirEntry {
            name: n.to_string(),
            path: format!("/etc/sv/{}", n),
            is_dir: true,
            is_symlink: false,
            has_run_script: true,
        })
        .collect()
}

fn enabled_scan(names: &[&str]) -> EnabledScan {
    Runit::new().scan_enabled(&entries(names), Vec::new())
}

fn available_scan(names: &[&str]) -> AvailableScan {
    Runit::new().scan_available(&entries(names), Vec::new())
}

fn app_with(names: &[&str]) -> App {
    App::new(Ok(enabled_scan(names)), Ok(available_scan(&[]))).unwrap()
}

fn scan(names: &[&str]) -> Reply {
    Reply::Scan { enabled: Some(enabled_scan(names)), available: None }
}

fn failed_with(r: &Request) -> Option<String> {
    match r {
        Request::Failed { error } => Some(error.clone()),
        _ => None,
    }
}

fn is_done(r: &Request) -> bool {
    matches!(r, Request::Done)
}

fn is_rescan(r: &Request) -> bool {
    matches!(r, Request::Rescan)
}

#[test]
fn new_app_is_ready() {
    let app = App::new(Ok(enabled_scan(&["b"])), Ok(available_scan(&["a"]))).unwrap();
    assert_eq!(app.message(), "Ready. Use arrow keys to navigate, keys below to act.");
    assert_eq!(app.selected_index(), 0);
    let names: Vec<&str> = app.services().iter().map(|s| s.name.as_str()).collect();
    assert_eq!(names, vec!["a", "b"]);
}

#[test]
fn arrows_move_within_bounds() {
    let mut app = app_with(&["a", "b", "c"]);
    assert!(is_rescan(&app.handle_key(Key::Up)));
    assert!(is_done(&app.resume(scan(&["a", "b", "c"]))));
    assert_eq!(app.selected_index(), 0);
    app.handle_key(Key::Down);
    app.resume(scan(&["a", "b", "c"]));
    app.handle_key(Key::Down);
    app.resume(scan(&["a", "b", "c"]));
    assert_eq!(app.selected_index(), 2);
    app.handle_key(Key::Down);
    app.resume(scan(&["a", "b", "c"]));
    assert_eq!(app.selected_index(), 2);
    app.handle_key(Key::Up);
    app.resume(scan(&["a", "b", "c"]));
    assert_eq!(app.selected_index(), 1);
}

#[test]
fn arrows_on_empty_list() {
    let mut app = app_with(&[]);
    app.handle_key(Key::Down);
    app.resume(scan(&[]));
    assert_eq!(app.selected_index(), 0);
    app.handle_key(Key::Up);
    app.resume(scan(&[]));
    assert_eq!(app.selected_index(), 0);
}

#[test]
fn selection_clamped_after_scan() {
    let mut app = app_with(&["a", "b", "c"]);
    app.handle_key(Key::Down);
    app.resume(scan(&["a", "b", "c"]));
    app.handle_key(Key::Down);
    app.resume(scan(&["a", "b", "c"]));
    assert_eq!(app.selected_index(), 2);
    app.handle_key(Key::Other);
    app.resume(scan(&["a"]));
    assert_eq!(app.selected_index(), 0);
    app.handle_key(Key::Other);
    app.resume(scan(&[]));
    assert_eq!(app.selected_index(), 0);
}

#[test]
fn quit_key() {
    let mut app = app_with(&["a"]);
    assert!(matches!(app.handle_key(Key::Char('q')), Request::Quit));
    assert_eq!(app.message(), "Ready. Use arrow keys to navigate, keys below to act.");
}

#[test]
fn start_succeeds() {
    let mut app = app_with(&["sshd"]);
    match app.handle_key(Key::Char('s')) {
        Request::Command { verb: SvVerb::Start, name } => assert_eq!(name, "sshd"),
        other => panic!("unexpected {:?}", other),
    }
    match app.resume(Reply::Command(Ok(out(true, "ok: run: sshd: (pid 9) 0s", "")))) {
        Request::Status { name } => assert_eq!(name, "sshd"),
        other => panic!("unexpected {:?}", other),
    }
    assert!(is_rescan(&app.resume(Reply::Status(Some(out(true, "run: sshd: (pid 9) 0s", ""))))));
    assert_eq!(app.message(), "Started service: sshd");
    assert_eq!(app.services()[0].status, "run");
    assert_eq!(app.services()[0].pid, Some("9".to_string()));
    assert!(is_done(&app.resume(scan(&["sshd"]))));
    assert_eq!(app.message(), "Started service: sshd");
}

#[test]
fn stop_and_restart_messages() {
    let mut app = app_with(&["a"]);
    app.handle_key(Key::Char('x'));
    app.resume(Reply::Command(Ok(out(true, "", ""))));
    app.resume(Reply::Status(Some(out(true, "down: a: 0s", ""))));
    assert_eq!(app.message(), "Stopped service: a");
    app.resume(scan(&["a"]));
    match app.handle_key(Key::Char('r')) {
        Request::Command { verb: SvVerb::Restart, .. } => {}
        other => panic!("unexpected {:?}", other),
    }
    app.resume(Reply::Command(Ok(out(true, "", ""))));
    app.resume(Reply::Status(None));
    assert_eq!(app.message(), "Restarted service: a");
    assert_eq!(app.services()[0].status, "unknown");
}

#[test]
fn start_fails() {
    let mut app = app_with(&["a"]);
    app.handle_key(Key::Char('s'));
    assert!(is_rescan(&app.resume(Reply::Command(Ok(out(false, "", "fail: a: runsv not running"))))));
    assert_eq!(app.message(), "Error: Failed to start service: fail: a: runsv not running");
    app.handle_key(Key::Char('s'));
    app.resume(Reply::Command(Err("No such file or directory (os error 2)".to_string())));
    assert_eq!(app.message(), "Error: No such file or directory (os error 2)");
}

#[test]
fn enable_flow() {
    let mut app = App::new(Ok(enabled_scan(&[])), Ok(available_scan(&["ntpd"]))).unwrap();
    match app.handle_key(Key::Char('e')) {
        Request::Link { link, target } => {
            assert_eq!(link, "/run/runit/service/ntpd");
            assert_eq!(target, "/etc/sv/ntpd");
        }
        other => panic!("unexpected {:?}", other),
    }
    match app.resume(Reply::Link(Ok(true))) {
        Request::Command { verb: SvVerb::Start, name } => assert_eq!(name, "ntpd"),
        other => panic!("unexpected {:?}", other),
    }
    assert!(app.services()[0].enabled);
    app.resume(Reply::Command(Ok(out(true, "", ""))));
    assert!(is_rescan(&app.resume(Reply::Status(Some(out(true, "run: ntpd: (pid 3) 0s", ""))))));
    assert_eq!(app.message(), "Enabled and started service: ntpd");
}

#[test]
fn enable_link_fails() {
    let mut app = App::new(Ok(enabled_scan(&[])), Ok(available_scan(&["ntpd"]))).unwrap();
    app.handle_key(Key::Char('e'));
    assert!(is_rescan(&app.resume(Reply::Link(Err("Permission denied (os error 13)".to_string())))));
    assert_eq!(app.message(), "Error: Permission denied (os error 13)");
    assert!(!app.services()[0].enabled);
}

#[test]
fn enable_start_fails_keeps_enabled() {
    let mut app = App::new(Ok(enabled_scan(&[])), Ok(available_scan(&["ntpd"]))).unwrap();
    app.handle_key(Key::Char('e'));
    app.resume(Reply::Link(Ok(false)));
    app.resume(Reply::Command(Ok(out(false, "", "boom"))));
    assert_eq!(app.message(), "Error: Failed to start service: boom");
    assert!(app.services()[0].enabled);
}

#[test]
fn disable_flow() {
    let mut app = app_with(&["cron"]);
    match app.handle_key(Key::Char('d')) {
        Request::Command { verb: SvVerb::Stop, name } => assert_eq!(name, "cron"),
        other => panic!("unexpected {:?}", other),
    }
    app.resume(Reply::Command(Ok(out(true, "", ""))));
    match app.resume(Reply::Status(Some(out(true, "down: cron: 0s", "")))) {
        Request::Unlink { link } => assert_eq!(link, "/run/runit/service/cron"),
        other => panic!("unexpected {:?}", other),
    }
    assert!(is_rescan(&app.resume(Reply::Unlink(Ok(())))));
    assert!(!app.services()[0].enabled);
    assert_eq!(app.message(), "Disabled and stopped service: cron");
}

#[test]
fn disable_unlink_fails() {
    let mut app = app_with(&["cron"]);
    app.handle_key(Key::Char('d'));
    app.resume(Reply::Command(Ok(out(true, "", ""))));
    app.resume(Reply::Status(Some(out(true, "down: cron: 0s", ""))));
    app.resume(Reply::Unlink(Err("Read-only file system (os error 30)".to_string())));
    assert_eq!(app.message(), "Error: Read-only file system (os error 30)");
    assert!(app.services()[0].enabled);
}

#[test]
fn action_without_services_rescans() {
    let mut app = app_with(&[]);
    assert!(is_rescan(&app.handle_key(Key::Char('s'))));
    assert!(is_rescan(&app.handle_key(Key::Char('e'))));
    assert!(is_rescan(&app.handle_key(Key::Char('z'))));
}

#[test]
fn unexpected_reply_changes_nothing() {
    let mut app = app_with(&["a", "b"]);
    assert!(is_done(&app.resume(Reply::Link(Ok(false)))));
    assert!(app.services()[0].enabled);
    assert_eq!(app.message(), "Ready. Use arrow keys to navigate, keys below to act.");
    app.handle_key(Key::Char('s'));
    assert!(is_done(&app.resume(scan(&[]))));
    assert_eq!(app.services().len(), 2);
    match app.resume(Reply::Command(Ok(out(true, "", "")))) {
        Request::Status { name } => assert_eq!(name, "a"),
        other => panic!("unexpected {:?}", other),
    }
}

#[test]
fn table_rows() {
    let mut a = svc("a", true);
    a.status = "run".to_string();
    a.pid = Some("12".to_string());
    let mut b = svc("b", false);
    b.status = "finish".to_string();
    let c = svc("c", false);
    let mut d = svc("d", false);
    d.status = "unknown".to_string();
    let rows = service_rows(&[a, b, c, d], 1);
    assert_eq!(rows.len(), 4);
    assert_eq!(rows[0].tone, StatusTone::Green);
    assert_eq!(rows[0].enabled_mark, "\u{25cf}");
    assert_eq!(rows[0].pid, "12");
    assert!(!rows[0].selected);
    assert_eq!(rows[1].tone, StatusTone::Yellow);
    assert_eq!(rows[1].enabled_mark, "\u{25cb}");
    assert_eq!(rows[1].pid, "-");
    assert!(rows[1].selected);
    assert_eq!(rows[2].tone, StatusTone::Red);
    assert_eq!(rows[3].tone, StatusTone::Gray);
    assert_eq!(rows[3].name, "d");
    assert_eq!(rows[3].status, "unknown");
}

#[test]
fn text_search_and_order() {
    let hay = chars_of("ab(pid 1)(pid 2)");
    assert_eq!(find(&hay, &chars_of("(pid ")), Some(2));
    assert_eq!(find(&hay, &chars_of("zz")), None);
    assert_eq!(find(&hay, &chars_of("")), Some(0));
    assert!(contains(&hay, &chars_of("2)")));
    assert!(!contains(&chars_of("ab"), &chars_of("abc")));
    assert!(chars_le_exec(&chars_of("a"), &chars_of("ab")));
    assert!(!chars_le_exec(&chars_of("b"), &chars_of("ab")));
    assert!(chars_le_exec(&chars_of("Z"), &chars_of("a")));
    assert!(chars_le_exec(&chars_of(""), &chars_of("")));
}

#[test]
fn discovery_failure_is_an_error() {
    let r = App::new(Err("Permission denied (os error 13)".to_string()), Ok(available_scan(&["a"])));
    assert_eq!(r.err(), Some("Permission denied (os error 13)".to_string()));
    let r = App::new(Ok(enabled_scan(&["a"])), Err("Input/output error (os error 5)".to_string()));
    assert_eq!(r.err(), Some("Input/output error (os error 5)".to_string()));
    let r = App::new(Err("first".to_string()), Err("second".to_string()));
    assert_eq!(r.err(), Some("first".to_string()));
}

#[test]
fn failed_operation_ends_step_with_error() {
    let mut app = app_with(&["a"]);
    app.handle_key(Key::Char('s'));
    app.resume(Reply::Command(Ok(out(false, "", "fail: a: down"))));
    let end = app.resume(scan(&["a"]));
    assert_eq!(failed_with(&end), Some("Failed to start service: fail: a: down".to_string()));
    // The next step starts afresh.
    app.handle_key(Key::Down);
    assert!(is_done(&app.resume(scan(&["a"]))));
    assert_eq!(app.message(), "Error: Failed to start service: fail: a: down");
}

#[test]
fn failed_link_ends_step_with_error() {
    let mut app = App::new(Ok(enabled_scan(&[])), Ok(available_scan(&["ntpd"]))).unwrap();
    app.handle_key(Key::Char('e'));
    app.resume(Reply::Link(Err("Permission denied (os error 13)".to_string())));
    let end = app.resume(Reply::Scan { enabled: None, available: Some(available_scan(&["ntpd"])) });
    assert_eq!(failed_with(&end), Some("Permission denied (os error 13)".to_string()));
}

#[test]
fn duplicate_entries_are_shown_once() {
    let mut app = app_with(&["a", "b", "a"]);
    let names: Vec<&str> = app.services().iter().map(|s| s.name.as_str()).collect();
    assert_eq!(names, vec!["a", "b"]);
    app.handle_key(Key::Other);
    app.resume(scan(&["c", "c", "b"]));
    let names: Vec<&str> = app.services().iter().map(|s| s.name.as_str()).collect();
    assert_eq!(names, vec!["b", "c"]);
}
