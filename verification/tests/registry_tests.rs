use snow_plow::errors::{Error, Warning};
use snow_plow::registry::{Interface, ListFilter};

fn fresh(entries: &[(&str, &str, bool)]) -> Interface {
    let mut itf = Interface::new("/cfg".to_string(), false, false);
    let mut text = String::from("name,location,enabled\n");
    for (n, l, e) in entries {
        text.push_str(&format!("{},{},{}\n", n, l, e));
    }
    let warnings = itf.init(&text).unwrap();
    assert!(warnings.is_empty());
    itf
}

#[test]
fn new_builds_config_path() {
    let itf = Interface::new("/home/me/.config/snow-plow".to_string(), true, false);
    assert_eq!(itf.config_path(), "/home/me/.config/snow-plow/config.csv");
    assert!(itf.stdout_style());
    assert!(!itf.stderr_style());
    assert!(!itf.is_cleaned());
    assert_eq!(itf.len(), 0);
}

#[test]
fn new_keeps_trailing_separator() {
    let itf = Interface::new("/etc/".to_string(), false, false);
    assert_eq!(itf.config_path(), "/etc/config.csv");
}

#[test]
fn new_with_empty_dir() {
    let itf = Interface::new(String::new(), false, false);
    assert_eq!(itf.config_path(), "config.csv");
}

#[test]
fn init_loads_entries() {
    let itf = fresh(&[("dots", "/home/me/dots", true), ("sys", "/etc", false)]);
    assert_eq!(itf.len(), 2);
    let f = itf.get_flake("dots").unwrap();
    assert_eq!(f.location, "/home/me/dots");
    assert!(f.enabled);
    let g = itf.get_flake("sys").unwrap();
    assert_eq!(g.location, "/etc");
    assert!(!g.enabled);
}

#[test]
fn init_drops_later_duplicate_with_warning() {
    let mut itf = Interface::new("/cfg".to_string(), false, false);
    let text = "name,location,enabled\nx,/first,true\ny,/other,true\nx,/second,false\n";
    let warnings = itf.init(text).unwrap();
    assert_eq!(warnings.len(), 1);
    match &warnings[0] {
        Warning::DuplicateOnLoad { name, discarded } => {
            assert_eq!(name, "x");
            assert_eq!(discarded, "/second");
        }
        w => panic!("unexpected warning {:?}", w),
    }
    assert_eq!(itf.len(), 2);
    let f = itf.get_flake("x").unwrap();
    assert_eq!(f.location, "/first");
    assert!(f.enabled);
}

#[test]
fn init_rejects_malformed_file() {
    let mut itf = Interface::new("/cfg".to_string(), false, false);
    let es = itf.init("name,location,enabled\nonly-two,fields\n").unwrap_err();
    assert_eq!(es.len(), 1);
    match &es[0] {
        Error::Internal(m) => {
            assert_eq!(m, "configuration record does not have exactly three fields")
        }
        e => panic!("unexpected error {:?}", e),
    }
    assert_eq!(itf.len(), 0);
}

#[test]
fn add_inserts_enabled_entry() {
    let mut itf = fresh(&[]);
    itf.add_flake("dots".to_string(), "/home/me/dots".to_string()).unwrap();
    assert!(itf.has_flake("dots"));
    let f = itf.get_flake("dots").unwrap();
    assert!(f.enabled);
    assert_eq!(f.location, "/home/me/dots");
}

#[test]
fn add_refuses_duplicate_and_keeps_first() {
    let mut itf = fresh(&[]);
    itf.add_flake("x".to_string(), "/p1".to_string()).unwrap();
    let es = itf.add_flake("x".to_string(), "/p2".to_string()).unwrap_err();
    assert_eq!(es.len(), 1);
    assert!(matches!(&es[0], Error::TrackedFlake(n) if n == "x"));
    assert_eq!(itf.len(), 1);
    assert_eq!(itf.get_flake("x").unwrap().location, "/p1");
}

#[test]
fn enable_missing_fails() {
    let mut itf = fresh(&[]);
    let es = itf.enable_flake("ghost".to_string()).unwrap_err();
    assert!(matches!(&es[0], Error::MissingFlake(n) if n == "ghost"));
}

#[test]
fn enable_disabled_entry_no_warning() {
    let mut itf = fresh(&[("x", "/x", false)]);
    let ws = itf.enable_flake("x".to_string()).unwrap();
    assert!(ws.is_empty());
    assert!(itf.get_flake("x").unwrap().enabled);
}

#[test]
fn enable_twice_warns_once() {
    let mut itf = fresh(&[("x", "/x", false)]);
    assert!(itf.enable_flake("x".to_string()).unwrap().is_empty());
    let ws = itf.enable_flake("x".to_string()).unwrap();
    assert_eq!(ws.len(), 1);
    assert!(matches!(&ws[0], Warning::AlreadyEnabled(n) if n == "x"));
    assert!(itf.get_flake("x").unwrap().enabled);
}

#[test]
fn disable_twice_stays_disabled_and_warns_on_second() {
    let mut itf = fresh(&[("x", "/x", true)]);
    let ws1 = itf.disable_flake("x".to_string()).unwrap();
    assert!(ws1.is_empty());
    assert!(!itf.get_flake("x").unwrap().enabled);
    let ws2 = itf.disable_flake("x".to_string()).unwrap();
    assert_eq!(ws2.len(), 1);
    assert!(matches!(&ws2[0], Warning::AlreadyDisabled(n) if n == "x"));
    assert!(!itf.get_flake("x").unwrap().enabled);
}

#[test]
fn remove_tracked_entry() {
    let mut itf = fresh(&[("x", "/x", true), ("y", "/y", false)]);
    let ws = itf.remove_flake("x".to_string()).unwrap();
    assert!(ws.is_empty());
    assert!(!itf.has_flake("x"));
    assert!(itf.has_flake("y"));
}

#[test]
fn remove_absent_warns_only() {
    let mut itf = fresh(&[]);
    let ws = itf.remove_flake("ghost".to_string()).unwrap();
    assert_eq!(ws.len(), 1);
    assert!(matches!(&ws[0], Warning::NotTracked(n) if n == "ghost"));
}

#[test]
fn get_flake_mut_edits_flag_only() {
    let mut itf = fresh(&[("x", "/x", true)]);
    {
        let f = itf.get_flake_mut("x").unwrap();
        f.enabled = false;
        f.location = "/moved".to_string();
    }
    let f = itf.get_flake("x").unwrap();
    assert!(!f.enabled);
    assert_eq!(f.location, "/moved");
    assert!(itf.get_flake_mut("ghost").is_err());
}

#[test]
fn list_without_filter_appends_status() {
    let itf = fresh(&[("a", "/a", true), ("b", "/b", false)]);
    let lines = itf.list_flakes(ListFilter { enabled: false, disabled: false });
    assert_eq!(
        lines,
        vec![
            ("a".to_string(), "/a".to_string(), " enabled".to_string()),
            ("b".to_string(), "/b".to_string(), " disabled".to_string()),
        ]
    );
}

#[test]
fn list_filters_are_exclusive_views() {
    let itf = fresh(&[("a", "/a", true), ("b", "/b", false), ("c", "/c", true)]);
    let on = itf.list_flakes(ListFilter { enabled: true, disabled: false });
    assert_eq!(
        on,
        vec![
            ("a".to_string(), "/a".to_string(), String::new()),
            ("c".to_string(), "/c".to_string(), String::new()),
        ]
    );
    let off = itf.list_flakes(ListFilter { enabled: false, disabled: true });
    assert_eq!(off, vec![("b".to_string(), "/b".to_string(), String::new())]);
}

#[test]
fn info_reports_location_and_status() {
    let itf = fresh(&[("a", "/a", false)]);
    let (loc, enabled) = itf.info_flake("a".to_string()).unwrap();
    assert_eq!(loc, "/a");
    assert!(!enabled);
    let es = itf.info_flake("nope".to_string()).unwrap_err();
    assert!(matches!(&es[0], Error::MissingFlake(n) if n == "nope"));
}

#[test]
fn clean_serializes_and_marks_cleaned() {
    let mut itf = fresh(&[("a", "/a", true), ("b", "/b", false)]);
    assert!(!itf.is_cleaned());
    let text = itf.clean();
    assert_eq!(text, "name,location,enabled\na,/a,true\nb,/b,false\n");
    assert!(itf.is_cleaned());
    assert_eq!(itf.len(), 2);
}

#[test]
fn persist_then_reload_round_trips() {
    let mut itf = fresh(&[]);
    itf.add_flake("dots".to_string(), "/home/me/dots".to_string()).unwrap();
    itf.add_flake("co,mma".to_string(), "/odd\"loc".to_string()).unwrap();
    itf.disable_flake("dots".to_string()).unwrap();
    let text = itf.clean();
    let mut again = Interface::new("/cfg".to_string(), false, false);
    let warnings = again.init(&text).unwrap();
    assert!(warnings.is_empty());
    assert_eq!(again.len(), itf.len());
    for name in ["dots", "co,mma"] {
        let a = itf.get_flake(name).unwrap();
        let b = again.get_flake(name).unwrap();
        assert_eq!(a, b);
    }
    assert!(!again.get_flake("dots").unwrap().enabled);
}
