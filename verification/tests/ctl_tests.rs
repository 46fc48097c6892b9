use scx_loader::ctl::{
    check_mode_configured, choose_switch_mode, ensure_scx_prefix, is_running, launch_refused,
    mode_query_needed, modes_from_codes, parse_current_scheduler, plan_launch, remove_scx_prefix,
    validate_sched, LaunchKind, LaunchPlan, ModeChoice, SchedChoiceError,
};
use scx_loader::sched::{SchedMode, SupportedSched};

#[test]
fn prefix_is_added_and_removed() {
    assert_eq!(ensure_scx_prefix("lavd".to_string()), "scx_lavd");
    assert_eq!(ensure_scx_prefix("scx_lavd".to_string()), "scx_lavd");
    assert_eq!(remove_scx_prefix("scx_lavd"), "lavd");
    assert_eq!(remove_scx_prefix("lavd"), "lavd");
    // removing after adding is the same as removing
    assert_eq!(remove_scx_prefix(&ensure_scx_prefix("scx_scx_a".to_string())), remove_scx_prefix("scx_scx_a"));
}

#[test]
fn typed_scheduler_names_are_checked() {
    let advertised = vec!["scx_bpfland".to_string(), "scx_lavd".to_string(), "scx_timely".to_string()];
    assert_eq!(validate_sched(&advertised, "lavd".to_string()), Ok(SupportedSched::Lavd));
    assert_eq!(validate_sched(&advertised, "scx_bpfland".to_string()), Ok(SupportedSched::Bpfland));
    assert_eq!(validate_sched(&advertised, "rusty".to_string()), Err(SchedChoiceError::NotSupported));
    assert_eq!(validate_sched(&advertised, "timely".to_string()), Err(SchedChoiceError::UnknownName));
}

#[test]
fn running_scheduler_is_read() {
    assert!(!is_running("unknown"));
    assert!(is_running("scx_lavd"));
    assert_eq!(parse_current_scheduler("unknown"), Ok(None));
    assert_eq!(parse_current_scheduler("scx_cake"), Ok(Some(SupportedSched::Cake)));
    assert_eq!(parse_current_scheduler("scx_nope"), Err(()));
}

#[test]
fn mode_check_before_start() {
    let listed = vec![SchedMode::Auto, SchedMode::Gaming];
    assert!(check_mode_configured(SchedMode::Auto, Some(&vec![])));
    assert!(check_mode_configured(SchedMode::Gaming, Some(&listed)));
    assert!(!check_mode_configured(SchedMode::Server, Some(&listed)));
    assert!(check_mode_configured(SchedMode::Server, None));
}

#[test]
fn switch_mode_choice() {
    assert_eq!(
        choose_switch_mode(Some(SchedMode::Server), &SupportedSched::Lavd, "scx_lavd"),
        ModeChoice::Use(SchedMode::Server)
    );
    assert_eq!(choose_switch_mode(None, &SupportedSched::Lavd, "scx_bpfland"), ModeChoice::Use(SchedMode::Auto));
    assert_eq!(choose_switch_mode(None, &SupportedSched::Lavd, "scx_lavd"), ModeChoice::KeepCurrent);
}

#[test]
fn launches_are_planned() {
    assert!(launch_refused(LaunchKind::Start, "scx_lavd"));
    assert!(!launch_refused(LaunchKind::Start, "unknown"));
    assert!(launch_refused(LaunchKind::Switch, "unknown"));
    assert!(!launch_refused(LaunchKind::Switch, "scx_lavd"));
    let lavd = SupportedSched::Lavd;
    assert_eq!(plan_launch(LaunchKind::Start, true, Some(SchedMode::Gaming), &lavd, "unknown"), LaunchPlan::WithArgs);
    assert_eq!(
        plan_launch(LaunchKind::Start, false, None, &lavd, "unknown"),
        LaunchPlan::InMode(ModeChoice::Use(SchedMode::Auto))
    );
    assert_eq!(
        plan_launch(LaunchKind::Switch, false, None, &lavd, "scx_lavd"),
        LaunchPlan::InMode(ModeChoice::KeepCurrent)
    );
    assert_eq!(
        plan_launch(LaunchKind::Switch, false, None, &lavd, "scx_bpfland"),
        LaunchPlan::InMode(ModeChoice::Use(SchedMode::Auto))
    );
}

#[test]
fn mode_queries_are_needed_only_off_auto() {
    assert!(!mode_query_needed(SchedMode::Auto));
    assert!(mode_query_needed(SchedMode::Gaming));
    assert_eq!(modes_from_codes(&vec![1, 4]), Some(vec![SchedMode::Gaming, SchedMode::Server]));
    assert_eq!(modes_from_codes(&vec![1, 9]), None);
    assert_eq!(modes_from_codes(&vec![]), Some(vec![]));
}
