use eu_toolkit::recents::{
    annotate_missing, cap, display_name, display_name_with, remove, set_pinned, sort, upsert, RecentProject,
    MAX_UNPINNED,
};

fn entry(path: Option<&str>, install: &str, ts: i64) -> RecentProject {
    RecentProject {
        project_path: path.map(str::to_string),
        install_path: install.to_string(),
        display_name: path.unwrap_or("base").to_string(),
        last_opened: ts,
        pinned: false,
        missing: false,
    }
}

#[test]
fn orders_most_recent_first() {
    let mut list = Vec::new();
    list = upsert(list, entry(Some("a"), "I", 100));
    list = upsert(list, entry(Some("b"), "I", 300));
    list = upsert(list, entry(Some("c"), "I", 200));
    let names: Vec<_> = list.iter().map(|e| e.display_name.as_str()).collect();
    assert_eq!(names, vec!["b", "c", "a"]);
}

#[test]
fn dedupes_by_path_and_bumps_timestamp() {
    let mut list = Vec::new();
    list = upsert(list, entry(Some("a"), "I", 100));
    list = upsert(list, entry(Some("b"), "I", 200));
    // Reopen "a" later — bumps, not duplicates.
    list = upsert(list, entry(Some("a"), "I", 500));
    assert_eq!(list.len(), 2);
    assert_eq!(list[0].display_name, "a");
    assert_eq!(list[0].last_opened, 500);
}

#[test]
fn dedupe_is_path_normalized() {
    let mut list = Vec::new();
    list = upsert(list, entry(Some(r"C:\Mods\MyMod"), "I", 100));
    list = upsert(list, entry(Some("c:/mods/mymod/"), "I", 200));
    assert_eq!(list.len(), 1);
    assert_eq!(list[0].last_opened, 200);
}

#[test]
fn base_sessions_dedupe_by_install() {
    let mut list = Vec::new();
    list = upsert(list, entry(None, "InstallA", 100));
    list = upsert(list, entry(None, "InstallA", 200));
    list = upsert(list, entry(None, "InstallB", 150));
    assert_eq!(list.len(), 2);
    // Two distinct base rows, one per install.
    assert!(list.iter().any(|e| e.install_path == "InstallB"));
}

#[test]
fn pinned_sort_above_unpinned_both_recent_first() {
    let mut list = vec![
        entry(Some("a"), "I", 100),
        entry(Some("b"), "I", 400),
        entry(Some("c"), "I", 300),
    ];
    sort(&mut list);
    // "b" newest first among unpinned.
    assert_eq!(list[0].display_name, "b");
    // Pin the oldest.
    list = set_pinned(list, &Some("a".into()), "I", true);
    assert_eq!(list[0].display_name, "a");
    assert!(list[0].pinned);
    // Remaining unpinned still most-recent-first.
    assert_eq!(list[1].display_name, "b");
    assert_eq!(list[2].display_name, "c");
}

#[test]
fn upsert_preserves_pin_on_bump() {
    let mut list = vec![entry(Some("a"), "I", 100)];
    list = set_pinned(list, &Some("a".into()), "I", true);
    // Recording another open of "a" (pinned=false in the fresh entry).
    list = upsert(list, entry(Some("a"), "I", 900));
    assert!(list[0].pinned);
    assert_eq!(list[0].last_opened, 900);
}

#[test]
fn caps_unpinned_but_keeps_all_pinned() {
    let mut list = Vec::new();
    // 20 unpinned, newest timestamps last.
    for i in 0..20 {
        list = upsert(list, entry(Some(&format!("p{i}")), "I", i as i64));
    }
    let unpinned = list.iter().filter(|e| !e.pinned).count();
    assert_eq!(unpinned, MAX_UNPINNED);
    // The newest survive; oldest ("p0") fell off.
    assert!(list.iter().all(|e| e.display_name != "p0"));
    assert!(list.iter().any(|e| e.display_name == "p19"));

    // Pin an old one back in, then add more — pinned stays regardless of cap.
    list.push(RecentProject {
        pinned: true,
        ..entry(Some("kept"), "I", -1)
    });
    for i in 20..40 {
        list = upsert(list, entry(Some(&format!("p{i}")), "I", i as i64));
    }
    assert!(list.iter().any(|e| e.display_name == "kept" && e.pinned));
    assert_eq!(list.iter().filter(|e| !e.pinned).count(), MAX_UNPINNED);
}

#[test]
fn remove_by_identity() {
    let mut list = vec![entry(Some("a"), "I", 100), entry(None, "I", 200)];
    list = remove(list, &Some("a".into()), "I");
    assert_eq!(list.len(), 1);
    assert!(list[0].project_path.is_none());
    // Removing the base row too.
    list = remove(list, &None, "I");
    assert!(list.is_empty());
}

#[test]
fn remove_is_path_normalized_and_keeps_order() {
    let mut list = Vec::new();
    list = upsert(list, entry(Some(r"C:\Mods\A"), "I", 100));
    list = upsert(list, entry(Some("b"), "I", 300));
    list = upsert(list, entry(Some("c"), "I", 200));
    list = remove(list, &Some("c:/mods/a//".into()), "I");
    let names: Vec<_> = list.iter().map(|e| e.display_name.as_str()).collect();
    assert_eq!(names, vec!["b", "c"]);
}

#[test]
fn sort_is_stable_for_equal_keys() {
    let mut list = vec![entry(Some("x"), "I", 5), entry(Some("y"), "I", 5), entry(Some("z"), "I", 9)];
    sort(&mut list);
    let names: Vec<_> = list.iter().map(|e| e.display_name.as_str()).collect();
    assert_eq!(names, vec!["z", "x", "y"]);
}

#[test]
fn cap_keeps_pinned_and_first_unpinned_rows() {
    let mut list = Vec::new();
    for i in 0..20 {
        let mut e = entry(Some(&format!("q{i}")), "I", 100 - i as i64);
        e.pinned = i % 5 == 0;
        list.push(e);
    }
    cap(&mut list);
    assert_eq!(list.iter().filter(|e| e.pinned).count(), 4);
    assert_eq!(list.iter().filter(|e| !e.pinned).count(), MAX_UNPINNED);
    assert_eq!(list.len(), 19);
    assert!(list.iter().all(|e| e.display_name != "q19"));
}

#[test]
fn unpinning_lets_the_cap_drop_the_row() {
    let mut list = Vec::new();
    let mut old = entry(Some("old"), "I", -5);
    old.pinned = true;
    list.push(old);
    for i in 0..15 {
        list = upsert(list, entry(Some(&format!("n{i}")), "I", i as i64));
    }
    assert_eq!(list.len(), 16);
    list = set_pinned(list, &Some("old".into()), "I", false);
    assert_eq!(list.len(), 15);
    assert!(list.iter().all(|e| e.display_name != "old"));
}

#[test]
fn annotate_missing_uses_the_checks_per_row() {
    let mut list = vec![entry(Some("p"), "I", 1), entry(Some("gone"), "I", 2), entry(None, "X", 3), entry(None, "Y", 4)];
    annotate_missing(&mut list, &[true, true, false, true], &[true, false, true, false]);
    assert!(!list[0].missing);
    assert!(list[1].missing);
    assert!(list[2].missing);
    // A base row never consults the project check.
    assert!(!list[3].missing);
    assert_eq!(list[1].display_name, "gone");
}

#[test]
fn display_name_prefers_descriptor_then_folder_then_path() {
    let p = Some("mods/named".to_string());
    assert_eq!(
        display_name_with(&p, "I", Some("name=\"Fancy Mod\"\n".into()), Some("named".into())),
        "Fancy Mod"
    );
    assert_eq!(
        display_name_with(&p, "I", Some("version=\"1\"\n".into()), Some("PlainFolder".into())),
        "PlainFolder"
    );
    assert_eq!(display_name_with(&p, "I", Some("name = \"  \"".into()), None), "mods/named");
    assert_eq!(display_name_with(&p, "I", None, Some("f".into())), "f");
    assert_eq!(display_name_with(&None, r"C:\Games\EU4", None, None), r"Base game @ C:\Games\EU4");
}

#[test]
fn display_name_reads_the_folder_from_the_path() {
    assert_eq!(display_name(&Some("/tmp/x/PlainFolder".into()), "I", Some("version=\"1\"".into())), "PlainFolder");
    assert_eq!(display_name(&Some("/tmp/x/named".into()), "I", Some("name=\"Fancy Mod\"".into())), "Fancy Mod");
    assert_eq!(display_name(&None, "I", None), "Base game @ I");
}

#[test]
fn upsert_drops_only_the_oldest_unpinned_and_merges_the_pin() {
    let full = || {
        let mut list = Vec::new();
        for i in 0..MAX_UNPINNED {
            list = upsert(list, entry(Some(&format!("p{i}")), "I", 100 + i as i64));
        }
        list
    };
    // A new, older-than-all entry is itself the one dropped.
    let older = upsert(full(), entry(Some("old"), "I", 1));
    assert!(older.iter().all(|e| e.display_name != "old"));
    assert_eq!(older.len(), MAX_UNPINNED);
    // A newer one pushes out the oldest kept row ("p0").
    let newer = upsert(full(), entry(Some("new"), "I", 1000));
    assert!(newer.iter().all(|e| e.display_name != "p0"));
    assert!(newer.iter().any(|e| e.display_name == "new"));
    // Re-opening a pinned row keeps it pinned (and it is never capped away).
    let mut list = full();
    let idx = list.iter().position(|e| e.display_name == "p3").unwrap();
    list[idx].pinned = true;
    let again = upsert(list, entry(Some("p3"), "I", 0));
    let rows: Vec<_> = again.iter().filter(|e| e.display_name == "p3").collect();
    assert_eq!(rows.len(), 1);
    assert!(rows[0].pinned);
}
