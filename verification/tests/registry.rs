use eu_toolkit::registry::{get_known_modifiers, known_modifiers, load_registry, ModifierKind, RawValue, RegistryEntry, RegistryFile};

fn file(name: &str, text: &[u8]) -> RegistryFile {
    RegistryFile { name: name.to_string(), bytes: text.to_vec() }
}

fn loc_pairs(pairs: &[(&str, &str)]) -> Vec<(String, String)> {
    pairs.iter().map(|(k, v)| (k.to_string(), v.to_string())).collect()
}

fn find<'a>(entries: &'a [RegistryEntry], key: &str) -> Option<&'a RegistryEntry> {
    entries.iter().find(|e| e.key == key)
}

#[test]
fn top_level_blocks_multi_file_override_by_key() {
    // The listing yields the base file, then the mod's later-collating file.
    let files = vec![
        file("00_governments.txt", b"# comment\nmonarchy = { reform_levels = { a = 1 } }\nrepublic = { x = yes }\n"),
        file("01_extra.txt", b"monarchy = { overridden = yes }\ntheocracy = { y = 2 }\n"),
    ];
    let loc = loc_pairs(&[("MONARCHY", "Monarchy")]);
    let entries = load_registry("governments", &files, &loc).unwrap();
    let keys: Vec<&str> = entries.iter().map(|e| e.key.as_str()).collect();
    assert_eq!(keys, vec!["monarchy", "republic", "theocracy"]);
    let m = find(&entries, "monarchy").unwrap();
    assert_eq!(m.name, "Monarchy");
    assert_eq!(m.source_file, "common/governments/01_extra.txt");
    if let RawValue::Block(items) = &m.raw {
        assert_eq!(items.len(), 1);
        assert_eq!(items[0].key.as_deref(), Some("overridden"));
    } else {
        panic!("expected block");
    }
    assert_eq!(find(&entries, "republic").unwrap().name, "Republic");
}

#[test]
fn same_named_mod_file_shadows_base() {
    // The mod's same-named file shadows the base file in the listing.
    let files = vec![file("00_buildings.txt", b"temple = { cost = 999 }\n")];
    let entries = load_registry("buildings", &files, &[]).unwrap();
    let keys: Vec<&str> = entries.iter().map(|e| e.key.as_str()).collect();
    assert_eq!(keys, vec!["temple"]);
    if let RawValue::Block(items) = &find(&entries, "temple").unwrap().raw {
        assert_eq!(items[0].key.as_deref(), Some("cost"));
        assert!(matches!(&items[0].value, RawValue::Scalar(s) if s == "999"));
    } else {
        panic!("expected block");
    }
}

#[test]
fn nested_under_parent() {
    let files = vec![file(
        "technology.txt",
        b"# header\ntables = { junk = 1 }\ngroups = {\n western = { start_level = 3 }\n eastern = { start_level = 3 }\n}\n",
    )];
    let loc = loc_pairs(&[("western", "Western"), ("eastern", "Eastern")]);
    let entries = load_registry("technology_groups", &files, &loc).unwrap();
    let keys: Vec<&str> = entries.iter().map(|e| e.key.as_str()).collect();
    assert_eq!(keys, vec!["western", "eastern"]);
    assert_eq!(find(&entries, "western").unwrap().name, "Western");
    assert_eq!(find(&entries, "western").unwrap().source_file, "common/technology.txt");
}

#[test]
fn bare_list_windows_1252_and_comments() {
    let mut bytes: Vec<u8> = b"# graphical culture list\nwesterngfx\neasterngfx # trailing\n# ".to_vec();
    bytes.push(0xE9);
    bytes.extend_from_slice(b" comment\nmuslimgfx\n");
    let files = vec![RegistryFile { name: "graphicalculturetype.txt".to_string(), bytes }];
    let loc = loc_pairs(&[("westerngfx", "Western")]);
    let entries = load_registry("graphical_cultures", &files, &loc).unwrap();
    let keys: Vec<&str> = entries.iter().map(|e| e.key.as_str()).collect();
    assert_eq!(keys, vec!["westerngfx", "easterngfx", "muslimgfx"]);
    assert_eq!(find(&entries, "westerngfx").unwrap().name, "Western");
    assert!(matches!(&find(&entries, "muslimgfx").unwrap().raw, RawValue::Block(v) if v.is_empty()));
}

#[test]
fn subject_type_forward_decl_then_full_def() {
    let files = vec![file(
        "00_subject_types.txt",
        b"vassal = {}\nmarch = {}\ndefault = { template = yes }\nvassal = { copy_from = default count = 1 }\n",
    )];
    let loc = loc_pairs(&[("vassal_title", "Vassal"), ("march_title", "March")]);
    let entries = load_registry("subject_types", &files, &loc).unwrap();
    let keys: Vec<&str> = entries.iter().map(|e| e.key.as_str()).collect();
    assert_eq!(keys, vec!["vassal", "march"]);
    assert_eq!(find(&entries, "vassal").unwrap().name, "Vassal");
    if let RawValue::Block(items) = &find(&entries, "vassal").unwrap().raw {
        assert!(items.iter().any(|i| i.key.as_deref() == Some("copy_from")));
    }
}

#[test]
fn governments_excludes_pre_dharma_mapping() {
    let files = vec![file(
        "00_governments.txt",
        b"monarchy = { a = 1 }\npre_dharma_mapping = { despotic_monarchy = { government = monarchy } }\n",
    )];
    let entries = load_registry("governments", &files, &[]).unwrap();
    let keys: Vec<&str> = entries.iter().map(|e| e.key.as_str()).collect();
    assert_eq!(keys, vec!["monarchy"]);
}

#[test]
fn unknown_registry_errors() {
    let files = vec![file("technology.txt", b"groups = {}\n")];
    let e = load_registry("no_such_registry", &files, &[]).unwrap_err();
    assert_eq!(e, "Unknown registry: no_such_registry");
}

#[test]
fn known_modifiers_curated_and_typed() {
    let mods = known_modifiers();
    assert!(mods.len() >= 80, "expected >=80 known modifiers, got {}", mods.len());
    let mut keys: Vec<&str> = mods.iter().map(|m| m.key).collect();
    keys.sort_unstable();
    let before = keys.len();
    keys.dedup();
    assert_eq!(before, keys.len(), "duplicate modifier keys present");
    let by = |k: &str| mods.iter().find(|m| m.key == k).map(|m| m.kind);
    assert!(matches!(by("discipline"), Some(ModifierKind::Percent)));
    assert!(matches!(by("tolerance_own"), Some(ModifierKind::Flat)));
    assert!(matches!(by("may_recruit_female_generals"), Some(ModifierKind::Boolean)));
    assert!(mods.iter().any(|m| matches!(m.kind, ModifierKind::Percent)));
    assert!(mods.iter().any(|m| matches!(m.kind, ModifierKind::Flat)));
    assert!(mods.iter().any(|m| matches!(m.kind, ModifierKind::Boolean)));
    assert_eq!(get_known_modifiers().len(), mods.len());
}

#[test]
fn folder_skips_non_txt_and_nested_raw_mirrors() {
    let files = vec![
        file("readme.md", b"ignored = { a = 1 }\n"),
        file("00_X.TXT", b"temple = { cost = 100 mods = { a = 1 b } }\n"),
    ];
    let entries = load_registry("buildings", &files, &[]).unwrap();
    assert_eq!(entries.len(), 1);
    assert_eq!(entries[0].source_file, "common/buildings/00_X.TXT");
    if let RawValue::Block(items) = &entries[0].raw {
        assert_eq!(items.len(), 2);
        match &items[1].value {
            RawValue::Block(inner) => {
                assert_eq!(inner.len(), 2);
                assert_eq!(inner[1].key, None);
                assert!(matches!(&inner[1].value, RawValue::Scalar(s) if s == "b"));
            },
            _ => panic!("expected nested block"),
        }
    } else {
        panic!("expected block");
    }
}
