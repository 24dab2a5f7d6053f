use runitgui::listing::DirEntry;
use runitgui::runit::{Runit, SvOutput, SvVerb};
use runitgui::service::Service;

fn out(success: bool, stdout: &str, stderr: &str) -> SvOutput {
    SvOutput { success, stdout: stdout.to_string(), stderr: stderr.to_string() }
}

fn svc(name: &str, enabled: bool) -> Service {
    let mut s = Service::new(name.to_string(), format!("/etc/sv/{}", name));
    s.enabled = enabled;
    s
}

fn names(v: &[Service]) -> Vec<String> {
    v.iter().map(|s| s.name.clone()).collect()
}

fn entry(name: &str, is_dir: bool, is_symlink: bool, has_run_script: bool) -> DirEntry {
    DirEntry {
        name: name.to_string(),
        path: format!("/dir/{}", name),
        is_dir,
        is_symlink,
        has_run_script,
    }
}

#[test]
fn service_new_is_down_and_disabled() {
    let s = Service::new("sshd".to_string(), "/etc/sv/sshd".to_string());
    assert_eq!(s.name, "sshd");
    assert_eq!(s.path, "/etc/sv/sshd");
    assert_eq!(s.status, "down");
    assert_eq!(s.pid, None);
    assert!(!s.enabled);
}

#[test]
fn runit_directories() {
    let r = Runit::new();
    assert_eq!(r.enabled_dirs(), vec!["/run/runit/service".to_string(), "/etc/runit/runsvdir/default".to_string()]);
    assert_eq!(r.available_dirs(), vec!["/etc/runit".to_string(), "/etc/runit/sv".to_string()]);
}

#[test]
fn link_path_joins_service_dir() {
    let r = Runit::new();
    assert_eq!(r.link_path("sshd"), "/run/runit/service/sshd");
    assert_eq!(r.link_path("/elsewhere/x"), "/elsewhere/x");
    assert_eq!(r.link_path(""), "/run/runit/service/");
}

#[test]
fn extract_pid_finds_the_id() {
    let r = Runit::new();
    assert_eq!(r.extract_pid("run: sshd: (pid 1234) 56s; run: log: (pid 99) 56s"), Some("1234".to_string()));
    assert_eq!(r.extract_pid("down: sshd: 3s"), None);
    assert_eq!(r.extract_pid("run: x: (pid 12"), None);
    assert_eq!(r.extract_pid("(pid )"), Some(String::new()));
    assert_eq!(r.extract_pid("é(pid 7ü)"), Some("7ü".to_string()));
}

#[test]
fn status_run_with_pid() {
    let r = Runit::new();
    let mut s = svc("sshd", true);
    r.update_service_status(&mut s, Some(out(true, "run: sshd: (pid 42) 10s\n", "")));
    assert_eq!(s.status, "run");
    assert_eq!(s.pid, Some("42".to_string()));
    assert!(s.enabled);
}

#[test]
fn status_run_without_pid_keeps_old_pid() {
    let r = Runit::new();
    let mut s = svc("sshd", true);
    s.pid = Some("7".to_string());
    r.update_service_status(&mut s, Some(out(true, "run: sshd: 10s\n", "")));
    assert_eq!(s.status, "run");
    assert_eq!(s.pid, Some("7".to_string()));
}

#[test]
fn status_down_finish_unknown() {
    let r = Runit::new();
    let mut s = svc("a", false);
    s.pid = Some("1".to_string());
    r.update_service_status(&mut s, Some(out(true, "down: a: 3s\n", "")));
    assert_eq!((s.status.as_str(), s.pid.clone()), ("down", None));
    s.pid = Some("1".to_string());
    r.update_service_status(&mut s, Some(out(true, "finish: a: (pid 5) 3s\n", "")));
    assert_eq!((s.status.as_str(), s.pid.clone()), ("finish", None));
    r.update_service_status(&mut s, Some(out(true, "something else", "")));
    assert_eq!((s.status.as_str(), s.pid.clone()), ("unknown", None));
    s.status = "run".to_string();
    r.update_service_status(&mut s, None);
    assert_eq!((s.status.as_str(), s.pid.clone()), ("unknown", None));
}

#[test]
fn status_warning_depends_on_success() {
    let r = Runit::new();
    let mut s = svc("a", false);
    r.update_service_status(&mut s, Some(out(true, "", "warning: a: unable to open supervise/ok\n")));
    assert_eq!(s.status, "run");
    r.update_service_status(&mut s, Some(out(false, "", "warning: a: unable to open supervise/ok\n")));
    assert_eq!(s.status, "down");
}

#[test]
fn status_output_is_stdout_then_stderr() {
    let r = Runit::new();
    let mut s = svc("a", false);
    // "ru" + "n:" only forms the marker once both streams are joined.
    r.update_service_status(&mut s, Some(out(false, "ru", "n: a: (pid 3) 1s")));
    assert_eq!(s.status, "run");
    assert_eq!(s.pid, Some("3".to_string()));
}

#[test]
fn command_results() {
    let r = Runit::new();
    assert_eq!(r.command_result(SvVerb::Start, &Ok(out(true, "ok: run: a", ""))), Ok(()));
    assert_eq!(r.command_result(SvVerb::Start, &Ok(out(false, "", "fail: a: unable"))), Err("Failed to start service: fail: a: unable".to_string()));
    assert_eq!(r.command_result(SvVerb::Stop, &Ok(out(false, "", "x"))), Err("Failed to stop service: x".to_string()));
    assert_eq!(r.command_result(SvVerb::Restart, &Ok(out(false, "", "y"))), Err("Failed to restart service: y".to_string()));
    assert_eq!(r.command_result(SvVerb::Start, &Err("No such file or directory (os error 2)".to_string())), Err("No such file or directory (os error 2)".to_string()));
}

#[test]
fn start_refreshes_status_on_success() {
    let r = Runit::new();
    let mut s = svc("sshd", true);
    let res = r.start(&mut s, &Ok(out(true, "ok: run: sshd", "")), Some(out(true, "run: sshd: (pid 77) 1s", "")));
    assert_eq!(res, Ok(()));
    assert_eq!(s.status, "run");
    assert_eq!(s.pid, Some("77".to_string()));
    assert!(s.enabled);
    assert_eq!(s.name, "sshd");
}

#[test]
fn stop_and_restart_refresh_or_fail() {
    let r = Runit::new();
    let mut s = svc("a", false);
    s.status = "run".to_string();
    s.pid = Some("5".to_string());
    assert_eq!(r.stop(&mut s, &Ok(out(true, "", "")), Some(out(true, "down: a: 0s", ""))), Ok(()));
    assert_eq!((s.status.as_str(), s.pid.clone()), ("down", None));
    assert_eq!(r.restart(&mut s, &Ok(out(false, "", "timeout")), Some(out(true, "run: a: (pid 9) 0s", ""))), Err("Failed to restart service: timeout".to_string()));
    assert_eq!((s.status.as_str(), s.pid.clone()), ("down", None));
    assert_eq!(r.run_verb(SvVerb::Restart, &mut s, &Err("spawn failed".to_string()), None), Err("spawn failed".to_string()));
    assert_eq!(s.status, "down");
    assert_eq!(r.restart(&mut s, &Ok(out(true, "", "")), None), Ok(()));
    assert_eq!(s.status, "unknown");
}

#[test]
fn scans_apply_statuses_in_order() {
    let r = Runit::new();
    let entries = vec![
        entry("sshd", true, false, true),
        entry("log", true, false, true),
        entry("cron", false, true, false),
        entry("ntpd", true, false, true),
    ];
    let scan = r.scan_enabled(&entries, vec![Some(out(true, "run: sshd: (pid 1) 2s", "")), None]);
    let found = scan.into_services();
    assert_eq!(names(&found), vec!["sshd", "cron", "ntpd"]);
    assert_eq!((found[0].status.as_str(), found[0].pid.clone()), ("run", Some("1".to_string())));
    assert_eq!(found[1].status, "unknown");
    assert_eq!(found[2].status, "unknown");
    assert!(found.iter().all(|s| s.enabled));
    let avail = r.scan_available(&entries, vec![Some(out(true, "down: sshd: 4s", "")), Some(out(true, "finish: ntpd: 1s", ""))]);
    let found = avail.into_services();
    assert_eq!(names(&found), vec!["sshd", "log", "ntpd"]);
    assert_eq!(found[0].status, "down");
    assert_eq!(found[1].status, "finish");
    assert_eq!(found[2].status, "unknown");
    assert!(found.iter().all(|s| !s.enabled));
}

#[test]
fn enable_and_disable() {
    let r = Runit::new();
    let mut s = svc("a", false);
    assert_eq!(r.enable(&mut s, Err("denied".to_string())), Err("denied".to_string()));
    assert!(!s.enabled);
    assert_eq!(r.enable(&mut s, Ok(false)), Ok(()));
    assert!(s.enabled);
    let mut t = svc("b", false);
    assert_eq!(r.enable(&mut t, Ok(true)), Ok(()));
    assert!(t.enabled);
    assert_eq!(r.disable(&mut s, Err("busy".to_string())), Err("busy".to_string()));
    assert!(s.enabled);
    assert_eq!(r.disable(&mut s, Ok(())), Ok(()));
    assert!(!s.enabled);
}

#[test]
fn enabled_services_filter_and_dedupe() {
    let r = Runit::new();
    let entries = vec![
        entry("sshd", true, false, true),
        entry("log", true, false, true),
        entry("current", false, true, false),
        entry("file.txt", false, false, false),
        entry("cron", false, true, false),
        entry("sshd", true, true, true),
    ];
    let found = r.list_enabled_services(&entries);
    assert_eq!(names(&found), vec!["sshd", "cron"]);
    assert!(found.iter().all(|s| s.enabled && s.status == "down" && s.pid.is_none()));
    assert_eq!(found[0].path, "/dir/sshd");
}

#[test]
fn available_services_filter() {
    let r = Runit::new();
    let entries = vec![
        entry("ntpd", true, false, true),
        entry("template", true, false, true),
        entry("services", true, false, true),
        entry("runsvdir", true, false, true),
        entry("norun", true, false, false),
        entry("link", false, true, true),
        entry("ntpd", true, false, true),
    ];
    let found = r.list_available_services(&entries);
    assert_eq!(names(&found), vec!["ntpd", "ntpd"]);
    assert!(found.iter().all(|s| !s.enabled && s.status == "down"));
}

#[test]
fn list_services_merges_and_sorts() {
    let r = Runit::new();
    let enabled = vec![svc("sshd", true), svc("cron", true)];
    let available = vec![svc("ntpd", false), svc("sshd", false), svc("acpid", false), svc("ntpd", false)];
    let list = r.list_services(Some(enabled), Some(available));
    assert_eq!(names(&list), vec!["acpid", "cron", "ntpd", "sshd"]);
    // The enabled sshd wins over the available one.
    assert!(list[3].enabled);
    assert!(!list[2].enabled);
}

#[test]
fn list_services_when_a_scan_failed() {
    let r = Runit::new();
    let list = r.list_services(None, Some(vec![svc("b", false), svc("a", false)]));
    assert_eq!(names(&list), vec!["a", "b"]);
    let list = r.list_services(Some(vec![svc("b", true), svc("a", true)]), None);
    assert_eq!(names(&list), vec!["a", "b"]);
    assert!(r.list_services(None, None).is_empty());
}

#[test]
fn list_services_orders_like_strings() {
    let r = Runit::new();
    let input = vec![svc("b", false), svc("ab", false), svc("a", false), svc("Zeta", false), svc("é", false), svc("z", false)];
    let list = r.list_services(None, Some(input));
    let mut expected: Vec<String> = vec!["b", "ab", "a", "Zeta", "é", "z"].into_iter().map(String::from).collect();
    expected.sort();
    assert_eq!(names(&list), expected);
}

#[test]
fn list_services_sort_is_stable() {
    let r = Runit::new();
    let mut first = svc("dup", true);
    first.path = "/one".to_string();
    let mut second = svc("dup", true);
    second.path = "/two".to_string();
    let list = r.list_services(Some(vec![svc("zz", true), first, second]), None);
    assert_eq!(names(&list), vec!["dup", "dup", "zz"]);
    assert_eq!(list[0].path, "/one");
    assert_eq!(list[1].path, "/two");
}
