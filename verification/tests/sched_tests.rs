use scx_loader::sched::{all_modes, all_scheds, SchedMode, SupportedSched};

#[test]
fn scheduler_names_round_trip() {
    for sched in all_scheds() {
        assert_eq!(SupportedSched::from_name(sched.name()), Some(sched));
    }
    assert_eq!(SupportedSched::P2DQ.name(), "scx_p2dq");
    assert_eq!(SupportedSched::from_name("scx_timely"), None);
    assert_eq!(SupportedSched::from_name("bpfland"), None);
}

#[test]
fn modes_in_enumeration_order() {
    assert_eq!(
        all_modes(),
        vec![SchedMode::Auto, SchedMode::Gaming, SchedMode::PowerSave, SchedMode::LowLatency, SchedMode::Server]
    );
    assert_eq!(SchedMode::LowLatency.name(), "LowLatency");
    assert_eq!(SchedMode::PowerSave.name(), "PowerSave");
}

#[test]
fn mode_codes_and_names() {
    for m in all_modes() {
        assert_eq!(SchedMode::from_code(m.code()), Some(m));
        assert_eq!(SchedMode::from_name(m.name()), Some(m));
    }
    assert_eq!(SchedMode::from_code(5), None);
    assert_eq!(SchedMode::from_name("auto"), None);
    assert_eq!(SchedMode::Server.code(), 4);
}
