use scx_loader::tui::MonitorOutcome;
use scx_loader::backend::{Capabilities, Status};
use scx_loader::journal::LogLine;
use scx_loader::sched::SchedMode;
use scx_loader::tui::{key_help, refresh_due, Action, App, Key, Request, Tone, View};

fn caps() -> Capabilities {
    Capabilities { live_switch: true, modes: true, restore_default: true }
}

fn scheds() -> Vec<String> {
    vec!["scx_bpfland".to_string(), "scx_lavd".to_string(), "scx_rusty".to_string()]
}

fn kinds(reqs: &[Request]) -> Vec<String> {
    reqs.iter()
        .map(|r| match r {
            Request::Perform(Action::Start(s, m)) => format!("start {s} {}", m.name()),
            Request::Perform(Action::Switch(s, m)) => format!("switch {s} {}", m.name()),
            Request::Perform(Action::Stop) => "stop".to_string(),
            Request::Perform(Action::Restart) => "restart".to_string(),
            Request::Perform(Action::RestoreDefault) => "restore".to_string(),
            Request::QueryStatus => "status".to_string(),
            Request::QueryModes(s) => format!("modes {s}"),
            Request::FetchLogs(u, b) => format!("logs {u} {b}"),
            Request::Notify(t) => format!("notify {t}"),
        })
        .collect()
}

#[test]
fn new_app_loads_status_and_modes() {
    let (app, reqs) = App::new("test", caps(), scheds());
    assert_eq!(kinds(&reqs), vec!["status", "modes scx_bpfland"]);
    assert_eq!(app.selected(), 0);
    assert_eq!(app.selected_mode(), SchedMode::Auto);
    assert_eq!(app.selected_scheduler(), Some("scx_bpfland"));
    assert_eq!(app.backend_label(), "test");
    assert_eq!(app.capabilities(), caps());
    let (app, reqs) = App::new("test", Capabilities { live_switch: false, modes: false, restore_default: false }, vec![]);
    assert_eq!(kinds(&reqs), vec!["status"]);
    assert_eq!(app.selected_scheduler(), None);
}

#[test]
fn cursor_and_mode_cycle() {
    let (mut app, _) = App::new("t", caps(), scheds());
    assert_eq!(kinds(&app.on_key(Key::Up, 0)), vec!["modes scx_rusty"]);
    assert_eq!(app.selected(), 2);
    assert_eq!(kinds(&app.on_key(Key::Char('j'), 0)), vec!["modes scx_bpfland"]);
    assert_eq!(app.selected(), 0);
    app.on_key(Key::Tab, 0);
    assert_eq!(app.selected_mode(), SchedMode::Gaming);
    app.on_key(Key::BackTab, 0);
    app.on_key(Key::Char('M'), 0);
    assert_eq!(app.selected_mode(), SchedMode::Server);
    for _ in 0..5 {
        app.on_key(Key::Char('m'), 0);
    }
    assert_eq!(app.selected_mode(), SchedMode::Server);
}

#[test]
fn enter_starts_or_switches_with_debounce() {
    let (mut app, _) = App::new("t", caps(), scheds());
    assert_eq!(kinds(&app.on_key(Key::Enter, 1000)), vec!["start scx_bpfland Auto", "status"]);
    // within 500 ms: swallowed
    assert!(app.on_key(Key::Enter, 1200).is_empty());
    assert!(app.on_key(Key::Char('s'), 1499).is_empty());
    app.apply_status(Ok(Status {
        current: Some("scx_bpfland".to_string()),
        mode: SchedMode::Auto,
        args: vec![],
        default_sched: None,
        default_mode: SchedMode::Auto,
    }));
    assert_eq!(kinds(&app.on_key(Key::Enter, 1500)), vec!["switch scx_bpfland Auto", "status"]);
    assert_eq!(kinds(&app.on_key(Key::Char('s'), 2000)), vec!["stop", "status"]);
    assert_eq!(kinds(&app.on_key(Key::Char('r'), 2600)), vec!["restart", "status"]);
    assert_eq!(kinds(&app.on_key(Key::Char('d'), 3200)), vec!["restore", "status"]);
    assert_eq!(kinds(&app.on_key(Key::Char('R'), 3300)), vec!["status", "modes scx_bpfland", "notify refreshed"]);
}

#[test]
fn action_messages() {
    let (mut app, _) = App::new("t", caps(), scheds());
    app.on_key(Key::Tab, 0);
    app.apply_modes(Some(vec![SchedMode::Auto]));
    assert!(!app.selected_mode_configured());
    app.finish_action(&Action::Start("scx_bpfland".to_string(), SchedMode::Gaming), Ok(()));
    let m = app.message().unwrap();
    assert_eq!(m.text, "started scx_bpfland with its own defaults (Gaming not configured)");
    assert!(!m.is_error);
    app.apply_modes(None);
    assert!(app.selected_mode_configured());
    app.finish_action(&Action::Switch("scx_lavd".to_string(), SchedMode::Gaming), Ok(()));
    assert_eq!(app.message().unwrap().text, "switched to scx_lavd in Gaming mode");
    app.finish_action(&Action::Start("scx_lavd".to_string(), SchedMode::Gaming), Err("boom".to_string()));
    assert_eq!(app.message().unwrap().text, "started scx_lavd failed: boom");
    assert!(app.message().unwrap().is_error);
    app.finish_action(&Action::Stop, Ok(()));
    assert_eq!(app.message().unwrap().text, "stopped");
    app.finish_action(&Action::RestoreDefault, Ok(()));
    assert_eq!(app.message().unwrap().text, "restored default scheduler");
    app.apply_status(Err("no bus".to_string()));
    assert_eq!(app.message().unwrap().text, "status query failed: no bus");
}

fn line(t: &str) -> LogLine {
    LogLine { time: String::new(), priority: 6, text: t.to_string(), continuation: false }
}

#[test]
fn log_view_keys_and_window() {
    let (mut app, _) = App::new("t", caps(), scheds());
    assert_eq!(kinds(&app.on_key(Key::Char('l'), 0)), vec!["logs 0 false"]);
    assert_eq!(app.current_view(), View::Logs);
    app.apply_logs(Ok((0..30).map(|i| line(&i.to_string())).collect()));
    assert_eq!(app.message().unwrap().text, "loaded 30 lines from scx_loader.service (boot 0)");
    assert_eq!(kinds(&app.on_key(Key::Char('u'), 0)), vec!["logs 1 false"]);
    assert_eq!(kinds(&app.on_key(Key::Char('b'), 0)), vec!["logs 1 true"]);
    app.apply_logs(Ok((0..30).map(|i| line(&i.to_string())).collect()));
    assert_eq!(app.message().unwrap().text, "loaded 30 lines from scx.service (boot -1)");
    assert_eq!(app.fit_log_window(12), (20, 30));
    assert_eq!(app.log_page(), 10);
    app.on_key(Key::PageUp, 0);
    app.on_key(Key::Char('k'), 0);
    assert_eq!(app.log_scroll(), 11);
    assert_eq!(app.fit_log_window(12), (9, 19));
    app.on_key(Key::Char('g'), 0);
    assert_eq!(app.log_scroll(), usize::MAX);
    assert_eq!(app.fit_log_window(12), (0, 10));
    assert_eq!(app.log_scroll(), 20);
    app.on_key(Key::PageDown, 0);
    app.on_key(Key::PageDown, 0);
    app.on_key(Key::PageDown, 0);
    assert_eq!(app.log_scroll(), 0);
    app.on_key(Key::Char('G'), 0);
    assert_eq!(app.fit_log_window(1), (30, 30));
    assert_eq!(app.log_page(), 1);
    app.apply_logs(Err("journalctl failed".to_string()));
    assert!(app.log_lines().is_empty());
    app.on_key(Key::Esc, 0);
    assert_eq!(app.current_view(), View::Schedulers);
    app.on_key(Key::Char('q'), 0);
    assert!(app.should_quit());
}

#[test]
fn monitor_and_refresh() {
    let (mut app, _) = App::new("t", caps(), scheds());
    assert!(!app.take_pending_monitor());
    app.on_key(Key::Char('t'), 0);
    assert!(app.take_pending_monitor());
    assert!(!app.take_pending_monitor());
    assert!(!refresh_due(4999));
    assert!(refresh_due(5000));
}

#[test]
fn footer_and_status_rows() {
    assert_eq!(
        key_help(View::Schedulers, Capabilities { live_switch: false, modes: false, restore_default: false }),
        " ↑/↓ select · Tab mode · Enter start · s stop · r restart · l logs · R refresh · q quit"
    );
    assert_eq!(
        key_help(View::Schedulers, caps()),
        " ↑/↓ select · Tab mode · Enter start/switch · s stop · r restart · d restore · l logs · R refresh · q quit"
    );
    let (mut app, _) = App::new("t", caps(), scheds());
    let rows = app.status_rows();
    assert_eq!(rows.len(), 1);
    assert_eq!(rows[0].value, "unknown");
    assert_eq!(rows[0].tone, Tone::Bad);
    app.apply_status(Ok(Status {
        current: Some("scx_lavd".to_string()),
        mode: SchedMode::PowerSave,
        args: vec![],
        default_sched: Some("scx_cosmos".to_string()),
        default_mode: SchedMode::Gaming,
    }));
    let rows = app.status_rows();
    let pairs: Vec<(String, String)> = rows.iter().map(|r| (r.key.clone(), r.value.clone())).collect();
    assert_eq!(
        pairs,
        vec![
            ("State".to_string(), "running".to_string()),
            ("Scheduler".to_string(), "lavd".to_string()),
            ("Mode".to_string(), "PowerSave".to_string()),
            ("Default".to_string(), "cosmos (Gaming)".to_string()),
        ]
    );
    app.apply_status(Ok(Status {
        current: Some("scx_lavd".to_string()),
        mode: SchedMode::Auto,
        args: vec!["-a".to_string(), "-b".to_string()],
        default_sched: None,
        default_mode: SchedMode::Auto,
    }));
    let rows = app.status_rows();
    assert_eq!(rows[2].value, "-a -b");
    assert_eq!(rows[3].value, "not configured");
}

#[test]
fn monitor_messages() {
    let (mut app, _) = App::new("t", caps(), scheds());
    app.finish_monitor(MonitorOutcome::Success);
    assert_eq!(app.message().unwrap().text, "scxtop exited");
    assert!(!app.message().unwrap().is_error);
    app.finish_monitor(MonitorOutcome::Failed("exit status: 1".to_string()));
    assert_eq!(
        app.message().unwrap().text,
        "scxtop exited with exit status: 1 — it needs root/CAP_BPF; try running scxtui as root or granting scxtop capabilities"
    );
    app.finish_monitor(MonitorOutcome::NotFound);
    assert!(app.message().unwrap().text.starts_with("scxtop not found in PATH"));
    app.finish_monitor(MonitorOutcome::LaunchError("denied".to_string()));
    assert_eq!(app.message().unwrap().text, "failed to launch scxtop: denied");
    assert!(app.message().unwrap().is_error);
}

#[test]
fn scheduler_rows_mark_the_running_one() {
    let (mut app, _) = App::new("t", caps(), scheds());
    assert_eq!(
        app.scheduler_rows(),
        vec![("bpfland".to_string(), false), ("lavd".to_string(), false), ("rusty".to_string(), false)]
    );
    app.apply_status(Ok(Status {
        current: Some("scx_lavd".to_string()),
        mode: SchedMode::Auto,
        args: vec![],
        default_sched: None,
        default_mode: SchedMode::Auto,
    }));
    assert_eq!(
        app.scheduler_rows(),
        vec![("bpfland".to_string(), false), ("lavd".to_string(), true), ("rusty".to_string(), false)]
    );
}
