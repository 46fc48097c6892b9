use scx_loader::install::{join_path, prepare_dest_path, DistConfig};

fn dist() -> DistConfig {
    DistConfig::from_settings(None, None, None, None)
}

#[test]
fn dist_defaults() {
    let d = dist();
    assert_eq!(d.prefix, "/usr");
    assert_eq!(d.datadir, "/usr/share");
    assert_eq!(d.sysconfdir, "/etc");
    assert_eq!(d.libdir, "/usr/lib");
    let d = DistConfig::from_settings(Some("/usr/local".to_string()), None, None, None);
    assert_eq!(d.libdir, "/usr/local/lib");
}

#[test]
fn destination_paths() {
    let d = dist();
    assert_eq!(prepare_dest_path(None, "$libdir/systemd/system/x.service", &d), "/usr/lib/systemd/system/x.service");
    assert_eq!(prepare_dest_path(Some("/tmp/pkg"), "$datadir/scx_loader/config.toml", &d), "/tmp/pkg/usr/share/scx_loader/config.toml");
    assert_eq!(prepare_dest_path(Some("/tmp/pkg/"), "$sysconfdir/x", &d), "/tmp/pkg/etc/x");
    assert_eq!(prepare_dest_path(Some("/tmp/pkg"), "//abs", &d), "/abs");
    assert_eq!(join_path("a", "b"), std::path::Path::new("a").join("b").to_str().unwrap());
    assert_eq!(join_path("", "b"), std::path::Path::new("").join("b").to_str().unwrap());
    assert_eq!(join_path("a", ""), std::path::Path::new("a").join("").to_str().unwrap());
}
