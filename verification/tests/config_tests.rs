use scx_loader::config::{default_mode_from_setting, default_sched_from_setting};
use scx_loader::config::{
    check_config_content, config_path_candidates, get_config_path, get_configured_modes,
    get_default_config, get_default_scx_flags_for_mode, get_scx_flags_for_mode, init_config,
    mode_lacks_args, vendor_dir_or_default, Config, ConfigError, Sched, SchedTable,
};
use scx_loader::sched::{SchedMode, SupportedSched};

fn strings(xs: &[&str]) -> Vec<String> {
    xs.iter().map(|s| s.to_string()).collect()
}

fn config_with(default_mode: Option<SchedMode>, entries: Vec<(&str, Sched)>) -> Config {
    let mut scheds = SchedTable::new();
    for (name, sched) in entries {
        scheds.insert(name.to_string(), sched);
    }
    Config { default_sched: None, default_mode, scheds }
}

#[test]
fn test_simple_fallback_config_flags() {
    // default_mode = "Auto", no scheduler sections
    let parsed_config = config_with(Some(SchedMode::Auto), vec![]);

    let bpfland_flags =
        get_scx_flags_for_mode(&parsed_config, &SupportedSched::Bpfland, SchedMode::Gaming);
    let expected_flags = get_default_scx_flags_for_mode(&SupportedSched::Bpfland, SchedMode::Gaming);
    assert_eq!(
        bpfland_flags.iter().map(std::string::String::as_str).collect::<Vec<&str>>(),
        expected_flags
    );
}

#[test]
fn test_sched_fallback_config_flags() {
    // [scheds.scx_lavd] auto_mode = ["--help"]
    let lavd = Sched { auto_mode: Some(strings(&["--help"])), ..Sched::default() };
    let parsed_config = config_with(Some(SchedMode::Auto), vec![("scx_lavd", lavd)]);

    let lavd_flags = get_scx_flags_for_mode(&parsed_config, &SupportedSched::Lavd, SchedMode::Gaming);
    let expected_flags = get_default_scx_flags_for_mode(&SupportedSched::Lavd, SchedMode::Gaming);
    assert_eq!(
        lavd_flags.iter().map(std::string::String::as_str).collect::<Vec<&str>>(),
        expected_flags
    );

    let lavd_flags = get_scx_flags_for_mode(&parsed_config, &SupportedSched::Lavd, SchedMode::Auto);
    assert_eq!(
        lavd_flags.iter().map(std::string::String::as_str).collect::<Vec<&str>>(),
        vec!["--help"]
    );
}

#[test]
fn test_empty_config() {
    let config_str = "";
    let result = check_config_content(config_str);
    assert!(result.is_err());
}

#[test]
fn test_auto_mode_never_lacks_args() {
    // [scheds.scx_lavd] auto_mode = []
    let lavd = Sched { auto_mode: Some(vec![]), ..Sched::default() };
    let parsed_config = config_with(None, vec![("scx_lavd", lavd)]);

    assert!(!mode_lacks_args(&parsed_config, &SupportedSched::Lavd, SchedMode::Auto));
}

#[test]
fn test_mode_lacks_args_when_explicitly_empty() {
    // [scheds.scx_lavd] gaming_mode = []
    let lavd = Sched { gaming_mode: Some(vec![]), ..Sched::default() };
    let parsed_config = config_with(None, vec![("scx_lavd", lavd)]);

    assert!(mode_lacks_args(&parsed_config, &SupportedSched::Lavd, SchedMode::Gaming));
}

#[test]
fn test_mode_lacks_args_falls_back_to_defaults() {
    // scx_rusty doesn't define any hardcoded mode flags, so every non-auto
    // mode resolves to an empty argument list unless the user configures one.
    let parsed_config = get_default_config();

    assert!(mode_lacks_args(&parsed_config, &SupportedSched::Rusty, SchedMode::Gaming));
    // scx_lavd does define hardcoded flags for gaming mode.
    assert!(!mode_lacks_args(&parsed_config, &SupportedSched::Lavd, SchedMode::Gaming));
}

#[test]
fn test_get_configured_modes() {
    let cake = Sched {
        auto_mode: Some(strings(&["--profile", "default"])),
        gaming_mode: Some(vec![]),
        lowlatency_mode: Some(strings(&["--profile", "esports"])),
        powersave_mode: Some(strings(&["--profile", "battery"])),
        server_mode: Some(vec![]),
    };
    let parsed_config = config_with(None, vec![("scx_cake", cake)]);

    let configured_modes = get_configured_modes(&parsed_config, &SupportedSched::Cake);

    // Auto is always included, LowLatency/PowerSave were explicitly given
    // non-empty args, but Gaming/Server were explicitly emptied out.
    assert_eq!(configured_modes, vec![SchedMode::Auto, SchedMode::PowerSave, SchedMode::LowLatency]);
}

#[test]
fn default_config_holds_builtin_flags_for_every_scheduler() {
    let config = get_default_config();
    assert_eq!(config.default_sched, None);
    assert_eq!(config.default_mode, Some(SchedMode::Auto));
    let keys = config.scheds.keys();
    assert_eq!(keys.len(), 13);
    for sched in scx_loader::sched::all_scheds() {
        for mode in scx_loader::sched::all_modes() {
            let flags = get_scx_flags_for_mode(&config, &sched, mode);
            assert_eq!(
                flags.iter().map(String::as_str).collect::<Vec<&str>>(),
                get_default_scx_flags_for_mode(&sched, mode)
            );
        }
    }
}

#[test]
fn builtin_flag_table_values() {
    assert_eq!(
        get_default_scx_flags_for_mode(&SupportedSched::Bpfland, SchedMode::PowerSave),
        vec!["-s", "20000", "-m", "powersave", "-I", "100", "-t", "100"]
    );
    assert_eq!(
        get_default_scx_flags_for_mode(&SupportedSched::Lavd, SchedMode::LowLatency),
        vec!["--performance", "--pinned-slice-us", "500"]
    );
    assert_eq!(
        get_default_scx_flags_for_mode(&SupportedSched::Lavd, SchedMode::Server),
        vec!["--performance", "--slice-min-us", "3000", "--slice-max-us", "10000", "--pinned-slice-us", "3000"]
    );
    assert_eq!(get_default_scx_flags_for_mode(&SupportedSched::Tickless, SchedMode::Auto), Vec::<&str>::new());
    assert_eq!(get_default_scx_flags_for_mode(&SupportedSched::Cosmos, SchedMode::Server), Vec::<&str>::new());
    assert_eq!(
        get_default_scx_flags_for_mode(&SupportedSched::Cake, SchedMode::Server),
        vec!["--profile", "gaming"]
    );
    assert_eq!(get_default_scx_flags_for_mode(&SupportedSched::Forge, SchedMode::Gaming), Vec::<&str>::new());
}

#[test]
fn configured_modes_of_default_config() {
    let config = get_default_config();
    assert_eq!(get_configured_modes(&config, &SupportedSched::Rusty), vec![SchedMode::Auto]);
    assert_eq!(
        get_configured_modes(&config, &SupportedSched::Cosmos),
        vec![SchedMode::Auto, SchedMode::Gaming, SchedMode::PowerSave, SchedMode::LowLatency]
    );
    assert_eq!(
        get_configured_modes(&config, &SupportedSched::Bpfland),
        vec![SchedMode::Auto, SchedMode::Gaming, SchedMode::PowerSave, SchedMode::LowLatency, SchedMode::Server]
    );
}

#[test]
fn configured_flags_override_builtin_ones() {
    let bpfland = Sched { server_mode: Some(strings(&["-x"])), ..Sched::default() };
    let config = config_with(None, vec![("scx_bpfland", bpfland)]);
    assert_eq!(get_scx_flags_for_mode(&config, &SupportedSched::Bpfland, SchedMode::Server), strings(&["-x"]));
    assert_eq!(
        get_scx_flags_for_mode(&config, &SupportedSched::Bpfland, SchedMode::Gaming),
        strings(&["-m", "all"])
    );
}

#[test]
fn unknown_scheduler_sections_are_ignored() {
    let timely = Sched { gaming_mode: Some(strings(&["--mode", "desktop"])), ..Sched::default() };
    let config = config_with(None, vec![("scx_timely", timely)]);
    assert!(config.scheds.contains_key("scx_timely"));
    assert_eq!(
        get_scx_flags_for_mode(&config, &SupportedSched::Rusty, SchedMode::Gaming),
        Vec::<String>::new()
    );
}

#[test]
fn sched_table_insert_replaces() {
    let mut table = SchedTable::new();
    table.insert("scx_a".to_string(), Sched { auto_mode: Some(strings(&["1"])), ..Sched::default() });
    table.insert("scx_b".to_string(), Sched::default());
    table.insert("scx_a".to_string(), Sched { auto_mode: Some(strings(&["2"])), ..Sched::default() });
    assert_eq!(table.keys().len(), 2);
    assert_eq!(table.get("scx_a").unwrap().auto_mode, Some(strings(&["2"])));
    assert!(table.get("scx_c").is_none());
}

#[test]
fn config_paths_in_lookup_order() {
    let candidates = config_path_candidates("/usr/share");
    assert_eq!(
        candidates,
        strings(&[
            "/etc/scx_loader/config.toml",
            "/etc/scx_loader.toml",
            "/usr/share/scx_loader/config.toml",
            "/usr/share/scx_loader.toml"
        ])
    );
    let found = get_config_path(&candidates, &vec![false, true, true, false]).unwrap();
    assert_eq!(found, "/etc/scx_loader.toml");
    let none = get_config_path(&candidates, &vec![false, false, false, false]);
    assert!(matches!(none, Err(ConfigError::NotFound)));
    assert_eq!(vendor_dir_or_default(None), "/usr/share");
    assert_eq!(vendor_dir_or_default(Some("/opt/share")), "/opt/share");
}

#[test]
fn init_config_falls_back_to_defaults_without_file() {
    let config = init_config(None).unwrap();
    assert_eq!(config.default_mode, Some(SchedMode::Auto));
    assert!(config.scheds.contains_key("scx_cosmos"));
    let err = init_config(Some(Err(ConfigError::Empty)));
    assert!(matches!(err, Err(ConfigError::Empty)));
    let loaded = init_config(Some(Ok(config_with(Some(SchedMode::Gaming), vec![])))).unwrap();
    assert_eq!(loaded.default_mode, Some(SchedMode::Gaming));
    assert!(check_config_content("default_mode = \"Auto\"").is_ok());
}

#[test]
fn default_settings_from_file() {
    assert_eq!(default_sched_from_setting(None), Ok(None));
    assert_eq!(default_sched_from_setting(Some("")), Ok(None));
    assert_eq!(default_sched_from_setting(Some("scx_cosmos")), Ok(Some(SupportedSched::Cosmos)));
    assert_eq!(default_sched_from_setting(Some("scx_timely")), Err(()));
    assert_eq!(default_mode_from_setting(None), Ok(None));
    assert_eq!(default_mode_from_setting(Some("LowLatency")), Ok(Some(SchedMode::LowLatency)));
    assert_eq!(default_mode_from_setting(Some("Turbo")), Err(()));
}
