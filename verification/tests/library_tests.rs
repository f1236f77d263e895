use sonify_health::library::{
    check_override_entry, create_override, create_patch, default_note_patches, dependents,
    install_override, record_param_change, remove_keeping_one, rename_patch, rename_refs,
    reset_override_param, saved_patches, OverrideInfo, OverrideLoadError, SavedForm,
};
use sonify_health::named_map::NamedMap;

fn library(names: &[&str]) -> NamedMap<u32> {
    let mut lib = NamedMap::new();
    for (i, n) in names.iter().enumerate() {
        lib.insert(n.to_string(), i as u32);
    }
    lib
}

#[test]
fn create_patch_refuses_taken_name() {
    let mut lib = library(&["sine"]);
    assert!(create_patch(&mut lib, "mine", 7));
    assert_eq!(lib.get("mine"), Some(&7));
    assert!(!create_patch(&mut lib, "mine", 9));
    assert_eq!(lib.get("mine"), Some(&7));
    assert_eq!(lib.len(), 2);
}

#[test]
fn create_override_clones_base() {
    let mut lib = library(&["sine", "bell"]);
    let mut ovr: NamedMap<OverrideInfo<i64>> = NamedMap::new();
    assert!(create_override(&mut lib, &mut ovr, "bell", "my-bell"));
    assert_eq!(lib.get("my-bell"), Some(&1));
    let info = ovr.get("my-bell").unwrap();
    assert_eq!(info.base, "bell");
    assert_eq!(info.delta.len(), 0);
    // Name taken, base missing, and chained overrides are refused.
    assert!(!create_override(&mut lib, &mut ovr, "bell", "sine"));
    assert!(!create_override(&mut lib, &mut ovr, "nothing", "x"));
    assert!(!create_override(&mut lib, &mut ovr, "my-bell", "x"));
    assert_eq!(lib.len(), 3);
    assert_eq!(ovr.len(), 1);
}

#[test]
fn rename_moves_patch_and_follows_overrides() {
    let mut lib = library(&["sine", "bell"]);
    let mut ovr: NamedMap<OverrideInfo<i64>> = NamedMap::new();
    assert!(create_override(&mut lib, &mut ovr, "bell", "my-bell"));
    assert!(rename_patch(&mut lib, &mut ovr, "bell", "gong"));
    assert!(!lib.contains_key("bell"));
    assert_eq!(lib.get("gong"), Some(&1));
    assert_eq!(ovr.get("my-bell").unwrap().base, "gong");
    // Renaming the override itself moves its table entry.
    assert!(rename_patch(&mut lib, &mut ovr, "my-bell", "their-bell"));
    assert!(ovr.get("my-bell").is_none());
    assert_eq!(ovr.get("their-bell").unwrap().base, "gong");
}

#[test]
fn rename_refusals() {
    let mut lib = library(&["sine", "bell"]);
    let mut ovr: NamedMap<OverrideInfo<i64>> = NamedMap::new();
    assert!(!rename_patch(&mut lib, &mut ovr, "sine", "sine"));
    assert!(!rename_patch(&mut lib, &mut ovr, "sine", ""));
    assert!(!rename_patch(&mut lib, &mut ovr, "nothing", "x"));
    assert!(!rename_patch(&mut lib, &mut ovr, "sine", "bell"));
    assert_eq!(lib.get("sine"), Some(&0));
    assert_eq!(lib.get("bell"), Some(&1));
}

#[test]
fn recorded_param_stops_propagation() {
    let mut lib = library(&["bell"]);
    let mut ovr: NamedMap<OverrideInfo<i64>> = NamedMap::new();
    assert!(create_override(&mut lib, &mut ovr, "bell", "a"));
    assert!(create_override(&mut lib, &mut ovr, "bell", "b"));
    assert_eq!(dependents(&ovr, "bell", "freq"), vec!["a".to_string(), "b".to_string()]);
    assert!(record_param_change(&mut ovr, "a", "freq", 440));
    assert_eq!(ovr.get("a").unwrap().delta.get("freq"), Some(&440));
    assert_eq!(dependents(&ovr, "bell", "freq"), vec!["b".to_string()]);
    assert_eq!(dependents(&ovr, "bell", "drive").len(), 2);
    assert!(dependents(&ovr, "a", "freq").is_empty());
    // A plain patch has no delta to record in.
    assert!(!record_param_change(&mut ovr, "bell", "freq", 1));
}

#[test]
fn reset_param_follows_base_again() {
    let mut lib = library(&["bell"]);
    let mut ovr: NamedMap<OverrideInfo<i64>> = NamedMap::new();
    assert!(create_override(&mut lib, &mut ovr, "bell", "a"));
    record_param_change(&mut ovr, "a", "freq", 440);
    assert_eq!(reset_override_param(&mut ovr, "a", "freq"), Some("bell".to_string()));
    assert!(ovr.get("a").unwrap().delta.get("freq").is_none());
    assert_eq!(dependents(&ovr, "bell", "freq"), vec!["a".to_string()]);
    assert_eq!(reset_override_param(&mut ovr, "bell", "freq"), None);
}

#[test]
fn rename_refs_rewrites_every_reference() {
    let mut names = vec!["bell".to_string(), "sine".to_string(), "bell".to_string()];
    rename_refs(&mut names, "bell", "gong");
    assert_eq!(names, vec!["gong".to_string(), "sine".to_string(), "gong".to_string()]);
}

#[test]
fn last_note_is_kept() {
    let mut notes = vec![1, 2];
    assert!(!remove_keeping_one(&mut notes, 2));
    assert!(remove_keeping_one(&mut notes, 0));
    assert_eq!(notes, vec![2]);
    assert!(!remove_keeping_one(&mut notes, 0));
    assert_eq!(notes, vec![2]);
}

#[test]
fn note_defaults_prefer_alarm() {
    let lib = library(&["warm", "alarm"]);
    assert_eq!(default_note_patches(&lib), ("warm".to_string(), "alarm".to_string()));
    let lib = library(&["warm"]);
    assert_eq!(default_note_patches(&lib), ("warm".to_string(), "warm".to_string()));
    let lib: NamedMap<u32> = NamedMap::new();
    assert_eq!(default_note_patches(&lib), ("sine".to_string(), "sine".to_string()));
}

#[test]
fn override_entries_are_checked() {
    let lib = library(&["bell"]);
    let mut lib2 = library(&["bell"]);
    let mut ovr: NamedMap<OverrideInfo<i64>> = NamedMap::new();
    assert_eq!(check_override_entry(&lib, &ovr, "x", "bell"), Ok(()));
    assert_eq!(
        check_override_entry(&lib, &ovr, "x", "gong"),
        Err(OverrideLoadError::BaseMissing { name: "x".to_string(), base: "gong".to_string() })
    );
    let mut delta = NamedMap::new();
    delta.insert("freq".to_string(), 220);
    install_override(&mut lib2, &mut ovr, "x".to_string(), "bell".to_string(), delta, 5);
    assert_eq!(lib2.get("x"), Some(&5));
    assert_eq!(ovr.get("x").unwrap().delta.get("freq"), Some(&220));
    assert_eq!(
        check_override_entry(&lib2, &ovr, "y", "x"),
        Err(OverrideLoadError::Chained { name: "y".to_string(), base: "x".to_string() })
    );
}

#[test]
fn save_skips_plain_builtins() {
    let mut lib = library(&["sine", "bell", "mine"]);
    let mut ovr: NamedMap<OverrideInfo<i64>> = NamedMap::new();
    assert!(create_override(&mut lib, &mut ovr, "bell", "my-bell"));
    let builtins = vec!["sine".to_string(), "bell".to_string()];
    let saved = saved_patches(&lib, &ovr, &builtins);
    assert_eq!(
        saved,
        vec![("mine".to_string(), SavedForm::Full), ("my-bell".to_string(), SavedForm::Compact)]
    );
}

fn copy_map(m: &NamedMap<i64>) -> NamedMap<i64> {
    let mut out = NamedMap::new();
    for i in 0..m.len() {
        let (k, v) = m.entry(i);
        out.insert(k.clone(), *v);
    }
    out
}

#[test]
fn save_and_reload_gives_the_override_table_back() {
    let mut lib = library(&["sine", "bell", "mine"]);
    let mut ovr: NamedMap<OverrideInfo<i64>> = NamedMap::new();
    assert!(create_override(&mut lib, &mut ovr, "bell", "my-bell"));
    assert!(create_override(&mut lib, &mut ovr, "mine", "my-mine"));
    record_param_change(&mut ovr, "my-bell", "freq", 330);
    let builtins = vec!["sine".to_string(), "bell".to_string()];
    let saved = saved_patches(&lib, &ovr, &builtins);

    // Reload: every patch saved in compact form is checked and installed
    // again with its base and delta, in the order the save wrote them.
    let mut lib2 = library(&["sine", "bell", "mine"]);
    let mut ovr2: NamedMap<OverrideInfo<i64>> = NamedMap::new();
    for (name, form) in &saved {
        if *form == SavedForm::Compact {
            let info = ovr.get(name).unwrap();
            assert_eq!(check_override_entry(&lib2, &ovr2, name, &info.base), Ok(()));
            install_override(
                &mut lib2,
                &mut ovr2,
                name.clone(),
                info.base.clone(),
                copy_map(&info.delta),
                *lib.get(name).unwrap(),
            );
        }
    }
    assert_eq!(ovr2.len(), ovr.len());
    for name in ["my-bell", "my-mine"] {
        let (a, b) = (ovr.get(name).unwrap(), ovr2.get(name).unwrap());
        assert_eq!(a.base, b.base);
        assert_eq!(a.delta.get("freq"), b.delta.get("freq"));
        assert_eq!(a.delta.len(), b.delta.len());
    }
    assert_eq!(ovr2.get("my-bell").unwrap().delta.get("freq"), Some(&330));
}
