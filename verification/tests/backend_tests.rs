use scx_loader::backend::{
    collect_scheduler_names, insert_sorted, none_if_unknown, unquote, Capabilities, LoaderBackend,
    ServiceBackend,
};
use scx_loader::sched::SchedMode;

#[test]
fn unknown_means_none() {
    assert_eq!(none_if_unknown("unknown".to_string()), None);
    assert_eq!(none_if_unknown("scx_lavd".to_string()), Some("scx_lavd".to_string()));
}

#[test]
fn loader_status_and_capabilities() {
    let b = LoaderBackend;
    assert_eq!(b.label(), "scx_loader (D-Bus)");
    assert_eq!(b.capabilities(), Capabilities { live_switch: true, modes: true, restore_default: true });
    let st = b.status_from("unknown".to_string(), SchedMode::Gaming, vec![], "scx_cosmos".to_string(), SchedMode::Auto);
    assert_eq!(st.current, None);
    assert_eq!(st.default_sched, Some("scx_cosmos".to_string()));
    assert_eq!(st.mode, SchedMode::Gaming);
}

#[test]
fn unquoting() {
    assert_eq!(unquote("  \"scx_lavd\" "), "scx_lavd");
    assert_eq!(unquote("'-m auto'"), "-m auto");
    assert_eq!(unquote("\""), "\"");
    assert_eq!(unquote("\"x'"), "\"x'");
    assert_eq!(unquote("plain"), "plain");
}

#[test]
fn service_config_is_read() {
    let content = "# comment\nSCX_SCHEDULER=\"scx_bpfland\"\n  SCX_FLAGS='-m  auto -w'\n#SCX_SCHEDULER=scx_lavd\nOTHER=1\n";
    let (sched, flags) = ServiceBackend::parse_config(content);
    assert_eq!(sched, Some("scx_bpfland".to_string()));
    assert_eq!(flags, vec!["-m".to_string(), "auto".to_string(), "-w".to_string()]);
    let (sched, flags) = ServiceBackend::parse_config("SCX_SCHEDULER=\"\"\n");
    assert_eq!(sched, None);
    assert!(flags.is_empty());
    assert_eq!(ServiceBackend::parse_config(""), (None, vec![]));
}

#[test]
fn service_config_is_rewritten() {
    let content = "# c\nSCX_SCHEDULER=scx_old\nSCX_FLAGS=-x";
    let text = ServiceBackend::rewrite_config(content, "scx_new");
    assert_eq!(text, "# c\nSCX_SCHEDULER=scx_new\nSCX_FLAGS=-x\n");
    let text = ServiceBackend::rewrite_config("A=1\r\n", "scx_new");
    assert_eq!(text, "A=1\nSCX_SCHEDULER=scx_new\n");
    assert_eq!(ServiceBackend::rewrite_config("", "scx_a"), "SCX_SCHEDULER=scx_a\n");
    // what a read gives back of a write
    let (sched, _) = ServiceBackend::parse_config(&ServiceBackend::rewrite_config("  SCX_SCHEDULER=x\r\r\nSCX_SCHEDULER=y\n", "scx_z"));
    assert_eq!(sched, Some("scx_z".to_string()));
}

#[test]
fn service_backend_basics() {
    let b = ServiceBackend::for_present_config(&vec![false, true]);
    assert_eq!(b.config_path, "/etc/sysconfig/scx");
    let b = ServiceBackend::for_present_config(&vec![false, false]);
    assert_eq!(b.config_path, "/etc/default/scx");
    let b = ServiceBackend::for_present_config(&vec![true, true]);
    assert_eq!(b.config_path, "/etc/default/scx");
    assert_eq!(b.label(), "scx.service (systemd)");
    assert_eq!(b.capabilities(), Capabilities { live_switch: false, modes: false, restore_default: false });
    let st = b.status_from((None, vec!["-a".to_string()]), true);
    assert_eq!(st.current, Some("scx_(unset)".to_string()));
    assert_eq!(st.args, vec!["-a".to_string()]);
    let st = b.status_from((Some("scx_lavd".to_string()), vec![]), false);
    assert_eq!(st.current, None);
    assert_eq!(st.default_sched, Some("scx_lavd".to_string()));
}

#[test]
fn scheduler_binaries_are_sorted_and_unique() {
    let names: Vec<String> = ["scx_rusty", "scx_loader", "ls", "scx_bpfland", "scx_rusty", "scx_dir"]
        .iter()
        .map(|s| s.to_string())
        .collect();
    let is_executable = vec![true, true, true, true, true, false];
    assert_eq!(collect_scheduler_names(&names, &is_executable), vec!["scx_bpfland".to_string(), "scx_rusty".to_string()]);
    assert_eq!(ServiceBackend::supported_schedulers_from(&names, &vec![false; 6]), None);
    let mut v = vec!["b".to_string(), "d".to_string()];
    insert_sorted(&mut v, "c".to_string());
    insert_sorted(&mut v, "a".to_string());
    insert_sorted(&mut v, "d".to_string());
    assert_eq!(v, vec!["a", "b", "c", "d"]);
}

#[test]
fn service_error_texts() {
    assert_eq!(
        ServiceBackend::systemctl_failure("start", "  Access denied\n"),
        "systemctl start scx.service failed: Access denied (controlling the unit may require root)"
    );
    let b = ServiceBackend::for_present_config(&vec![true, false]);
    assert_eq!(
        b.write_failure(),
        "cannot write /etc/default/scx — editing it requires root; run scxtui as root to control scx.service"
    );
}

#[test]
fn rewritten_config_reads_back_with_flags_kept() {
    let content = "# scx\nSCX_FLAGS='-m performance  -k'\r\n  SCX_SCHEDULER=\"scx_old\"\nOTHER=1\n";
    let (_, flags_before) = ServiceBackend::parse_config(content);
    assert_eq!(flags_before, vec!["-m".to_string(), "performance".to_string(), "-k".to_string()]);
    for name in ["scx_lavd", "scx lavd", "a\"b", "'x"] {
        let text = ServiceBackend::rewrite_config(content, name);
        assert_eq!(ServiceBackend::parse_config(&text), (Some(name.to_string()), flags_before.clone()));
    }
    let text = ServiceBackend::rewrite_config("SCX_FLAGS=-a\r\r\n", "scx_b");
    assert_eq!(ServiceBackend::parse_config(&text), (Some("scx_b".to_string()), vec!["-a".to_string()]));
}
