use eu_toolkit::mod_writer::{apply, Edit};
use eu_toolkit::paradox::parse;
use eu_toolkit::rebels::{
    factions_of_file, parse_faction, province_name_from_file, rebel_provinces, revolt_state, scaffold_faction, REBELS_PROJECT_FILE,
};

const REBEL_SRC: &str = "\
nationalist_rebels = {\n\
\tcolor = { 25 180 25 }\n\
\tarea = nation_rebel_tag\n\
\tgovernment = any\n\
\tdefection = nation_rebel_tag\n\
\tindependence = nation_rebel_tag\n\
\tdefect_delay = 60\n\
\tunit_transfer = yes\n\
\tgfx_type = culture_province\n\
\twill_relocate = yes\n\
\tresilient = no\n\
\treinforcing = yes\n\
\tgeneral = yes\n\
\tsmart = yes\n\
\tartillery = 0.1\n\
\tinfantry = 0.6\n\
\tcavalry = 0.3\n\
\tmorale = 1.0\n\
\thandle_action_negotiate = yes\n\
\tspawn_chance = {\n\t\tfactor = 10\n\t\tmodifier = { factor = 5 is_core = owner }\n\t}\n\
\tmovement_evaluation = {\n\t\tfactor = 1\n\t}\n\
\tsiege_won_trigger = {\n\t\tculture = REB\n\t}\n\
\tsiege_won_effect = {\n\t\tadd_nationalism = 10\n\t}\n\
\tcan_negotiate_trigger = {\n\t\tis_at_war = no\n\t}\n\
\tcan_enforce_trigger = {\n\t\talways = yes\n\t}\n\
\tdemands_description = \"nationalist_rebels_demand\"\n\
\tdemands_enforced_effect = {\n\t\tadd_prestige = -10\n\t}\n\
\tsome_unknown_key = yes\n\
}\n";


#[test]
fn parses_rebel_scalars_enums_scripts_and_raw() {
    let block = parse(REBEL_SRC);
    let loc = vec![
        ("nationalist_rebels_title".to_string(), "Separatists".to_string()),
        ("nationalist_rebels_name".to_string(), "$INDEP$ Separatists".to_string()),
    ];
    let (key, b) = block.key_blocks()[0];
    let f = parse_faction(REBEL_SRC.as_bytes(), key, b, &loc, "common/rebel_types/00_test.txt", "base", Some([25, 180, 25]));
    assert_eq!(f.key, "nationalist_rebels");
    assert_eq!(f.title, "Separatists");
    assert_eq!(f.name_loc.as_deref(), Some("$INDEP$ Separatists"));
    assert_eq!(f.color, Some([25, 180, 25]));
    let sc = |k: &str| f.scalars.iter().find(|s| s.key == k).unwrap();
    // Enum scalar carries options + present value.
    let area = sc("area");
    assert_eq!(area.kind, "enum");
    assert_eq!(area.value, "nation_rebel_tag");
    assert!(area.options.contains(&"nation".to_string()));
    assert_eq!(sc("defect_delay").kind, "int");
    assert_eq!(sc("defect_delay").value, "60");
    assert_eq!(sc("morale").kind, "num");
    assert!(sc("unit_transfer").present && sc("unit_transfer").kind == "bool");
    assert_eq!(sc("unit_transfer").value, "yes");
    assert!(sc("reinforcing").present);
    assert!(!sc("disband_on_leader_death").present);
    // Script blocks present + registries.
    let sb = |k: &str| f.script_blocks.iter().find(|s| s.name == k).unwrap();
    assert!(sb("siege_won_trigger").present && sb("siege_won_trigger").registry == "triggers");
    assert!(sb("demands_enforced_effect").present && sb("demands_enforced_effect").registry == "effects");
    assert!(sb("spawn_chance").present && sb("spawn_chance").registry == "triggers");
    assert!(sb("movement_evaluation").present);
    // Preserve-unknown.
    assert!(f.raw_extra.contains(&"some_unknown_key".to_string()));
    assert!(f.raw.starts_with('{') && f.raw.ends_with('}'));
}

#[test]
fn faction_without_loc_falls_back_to_prettified_key() {
    let src = "anti_tax_rebels = {\n\tarea = \" nation \"\n\tx = 1\n\tx = 2\n\tcolor = 3\n}\n";
    let block = parse(src);
    let (key, b) = block.key_blocks()[0];
    let f = parse_faction(src.as_bytes(), key, b, &[], "f.txt", "mod", None);
    assert_eq!(f.title, "Anti Tax Rebels");
    assert_eq!(f.title_loc, None);
    assert_eq!(f.desc_key, "anti_tax_rebels_desc");
    // Quotes are kept, surrounding whitespace trimmed.
    let area = f.scalars.iter().find(|s| s.key == "area").unwrap();
    assert_eq!(area.value, "nation");
    assert_eq!(f.raw_extra, vec!["x"]);
    assert_eq!(f.scalars.len(), 26);
    assert_eq!(f.script_blocks.len(), 7);
    assert!(f.script_blocks.iter().all(|s| !s.present));
}

#[test]
fn scaffold_loc_entries_use_the_prettified_key() {
    let s = scaffold_faction("my_rebels");
    let pairs: Vec<(&str, &str)> = s.loc_entries.iter().map(|e| (e.key.as_str(), e.value.as_str())).collect();
    assert_eq!(
        pairs,
        vec![
            ("my_rebels_name", "My Rebels"),
            ("my_rebels_title", "My Rebels"),
            ("my_rebels_desc", "My Rebels rebels."),
            ("my_rebels_demand", "My Rebels Demands"),
        ]
    );
    assert!(s.text.starts_with("my_rebels = {\n\tcolor = { 150 150 150 }\n"));
    assert!(s.text.ends_with("\tdemands_description = \"my_rebels_demand\"\n\tdemands_enforced_effect = {\n\t\tadd_prestige = -10\n\t}\n}"));
}
#[test]
fn rebel_scalar_edit_is_byte_surgical() {
    let out = apply(
        REBEL_SRC.as_bytes(),
        &Edit::SetScalar {
            path: vec!["nationalist_rebels".into(), "defect_delay".into()],
            value: "48".into(),
            quoted: false,
        },
    )
    .unwrap();
    let text = String::from_utf8(out).unwrap();
    assert!(text.contains("defect_delay = 48"));
    assert!(text.contains("color = { 25 180 25 }"));
    assert!(text.contains("add_nationalism = 10"));
}

#[test]
fn rebel_enum_and_color_edit_round_trip() {
    let out = apply(
        REBEL_SRC.as_bytes(),
        &Edit::SetScalar {
            path: vec!["nationalist_rebels".into(), "government".into()],
            value: "republic".into(),
            quoted: false,
        },
    )
    .unwrap();
    let out = apply(
        &out,
        &Edit::SetBlock {
            path: vec!["nationalist_rebels".into(), "color".into()],
            value: "10 20 30".into(),
        },
    )
    .unwrap();
    let text = String::from_utf8(out).unwrap();
    assert!(text.contains("government = republic"));
    assert!(text.contains("color = { 10 20 30 }"));
    assert!(text.contains("area = nation_rebel_tag"));
}

#[test]
fn rebel_trigger_edit_is_byte_surgical() {
    let out = apply(
        REBEL_SRC.as_bytes(),
        &Edit::SetScalar {
            path: vec!["nationalist_rebels".into(), "can_negotiate_trigger".into(), "is_at_war".into()],
            value: "yes".into(),
            quoted: false,
        },
    )
    .unwrap();
    let text = String::from_utf8(out).unwrap();
    assert!(text.contains("is_at_war = yes"));
    assert!(text.contains("demands_description = \"nationalist_rebels_demand\""));
}

#[test]
fn rebels_scaffold_parses_back_with_required_keys() {
    let s = scaffold_faction("my_rebels");
    assert_eq!(s.file, REBELS_PROJECT_FILE);
    let b = parse(&s.text);
    let f = b.get_block("my_rebels").expect("scaffold parses");
    assert!(f.get_block("color").is_some());
    assert_eq!(f.get_scalar("area"), Some("nation"));
    assert_eq!(f.get_scalar("government"), Some("any"));
    assert!(f.get_block("spawn_chance").is_some());
    assert!(f.get_block("siege_won_effect").is_some());
    assert!(f.get_block("demands_enforced_effect").is_some());
    assert!(f.get_block("can_enforce_trigger").is_some());
    assert_eq!(f.get_scalar("demands_description"), Some("my_rebels_demand"));
    // Loc entries include name/title/desc/demand.
    let keys: Vec<&str> = s.loc_entries.iter().map(|e| e.key.as_str()).collect();
    assert!(keys.contains(&"my_rebels_name"));
    assert!(keys.contains(&"my_rebels_title"));
    assert!(keys.contains(&"my_rebels_desc"));
    assert!(keys.contains(&"my_rebels_demand"));
}

#[test]
fn rebels_scaffold_create_then_delete_is_identity() {
    let base = "existing_rebels = {\n\tarea = nation\n}\n";
    let s = scaffold_faction("brand_new_rebels");
    let appended = apply(base.as_bytes(), &Edit::Append { text: s.text }).unwrap();
    assert!(String::from_utf8_lossy(&appended).contains("brand_new_rebels = {"));
    let deleted = apply(
        &appended,
        &Edit::RemoveStatement {
            block_path: vec![],
            key: "brand_new_rebels".into(),
            value: None,
        },
    )
    .unwrap();
    assert_eq!(deleted, base.as_bytes(), "create then delete restores source");
}

// --- Province revolt round-trips (top-level + dated) ----------------------

#[test]
fn province_revolt_add_edit_remove_top_level() {
    let hist = "owner = SWE\ncontroller = SWE\nculture = swedish\n";
    // Add a top-level revolt block.
    let added = apply(
        hist.as_bytes(),
        &Edit::InsertStatement {
            block_path: vec![],
            statement: "revolt = { type = pretender_rebels size = 1 leader = \"Karl\" }".into(),
        },
    )
    .unwrap();
    let atext = String::from_utf8_lossy(&added);
    assert!(atext.contains("revolt = { type = pretender_rebels size = 1 leader = \"Karl\" }"));
    // Edit its size.
    let edited = apply(
        &added,
        &Edit::SetScalar {
            path: vec!["revolt".into(), "size".into()],
            value: "3".into(),
            quoted: false,
        },
    )
    .unwrap();
    assert!(String::from_utf8_lossy(&edited).contains("size = 3"));
    // Remove it → identity.
    let removed = apply(
        &added,
        &Edit::RemoveStatement {
            block_path: vec![],
            key: "revolt".into(),
            value: None,
        },
    )
    .unwrap();
    assert_eq!(removed, hist.as_bytes(), "add then remove restores history");
}

#[test]
fn province_revolt_dated_insert() {
    let hist = "owner = SWE\n";
    let added = apply(
        hist.as_bytes(),
        &Edit::InsertDatedBlock {
            date: "1500.1.1".into(),
            statement: "1500.1.1 = { revolt = { type = nationalist_rebels size = 2 } controller = REB }".into(),
        },
    )
    .unwrap();
    let text = String::from_utf8(added).unwrap();
    assert!(text.contains("1500.1.1 = {"));
    assert!(text.contains("revolt = { type = nationalist_rebels size = 2 }"));
}


fn history(name: &str, text: &str) -> (String, Vec<u8>) {
    (name.to_string(), text.as_bytes().to_vec())
}

#[test]
fn rebel_provinces_folds_active_at_date() {
    // Province 1: revolt set 1436, cleared 1438 -> not active at 1444.
    // Province 2: revolt set 1450 -> active at 1500 only.
    // Province 3: top-level revolt of the faction -> active at start.
    let files = vec![
        history(
            "1 - Uppland.txt",
            "owner = SWE\n1436.4.28 = { revolt = { type = pretender_rebels size = 1 } controller = REB }\n1438.3.6 = { revolt = {} controller = SWE }\n",
        ),
        history(
            "2 - Genoa.txt",
            "owner = GEN\n1450.1.1 = { revolt = { type = pretender_rebels size = 2 } controller = REB }\n",
        ),
        history("3 - Rebelburg.txt", "owner = FRA\nrevolt = { type = pretender_rebels size = 1 }\n"),
    ];
    let loc = vec![("PROV3".to_string(), "Rebelburg".to_string())];
    let at_start = rebel_provinces(&files, &loc, "pretender_rebels", (1444, 11, 11));
    let ids: Vec<u32> = at_start.iter().map(|p| p.id).collect();
    assert_eq!(ids, vec![3], "only the top-level revolt is active at start");
    assert_eq!(at_start[0].name, "Rebelburg");
    assert!(at_start[0].date.is_none());
    let at_1500 = rebel_provinces(&files, &loc, "pretender_rebels", (1500, 1, 1));
    let ids: Vec<u32> = at_1500.iter().map(|p| p.id).collect();
    assert_eq!(ids, vec![2, 3]);
    let p2 = at_1500.iter().find(|p| p.id == 2).unwrap();
    assert_eq!(p2.date.as_deref(), Some("1450.1.1"));
    assert!(rebel_provinces(&files, &loc, "nationalist_rebels", (1500, 1, 1)).is_empty());
}

#[test]
fn rebel_provinces_sorted_by_id_and_named_from_file() {
    let files = vec![
        history("20 - Zeta.txt", "revolt = { type = x_rebels }\n"),
        history("readme.md", "revolt = { type = x_rebels }\n"),
        history("notes.txt", "revolt = { type = x_rebels }\n"),
        history("7-Alpha.TXT", "revolt = { type = x_rebels }\n"),
        history("9 - Quiet.txt", "owner = FRA\n"),
    ];
    let got = rebel_provinces(&files, &[], "x_rebels", (1444, 11, 11));
    let ids: Vec<u32> = got.iter().map(|p| p.id).collect();
    assert_eq!(ids, vec![7, 20]);
    assert_eq!(got[0].name, "Alpha.TXT");
    assert_eq!(got[1].name, "Zeta");
}

#[test]
fn revolt_state_top_level_then_dated() {
    let b = parse("revolt = { type = a_rebels }\n1450.1.1 = { revolt = { type = b_rebels } }\n1460.1.1 = { revolt = {} }\n");
    assert_eq!(revolt_state(&b, "a_rebels", (1444, 11, 11)), Some((true, None)));
    assert_eq!(revolt_state(&b, "a_rebels", (1455, 1, 1)), Some((false, Some("1450.1.1".to_string()))));
    assert_eq!(revolt_state(&b, "b_rebels", (1450, 1, 1)), Some((true, Some("1450.1.1".to_string()))));
    assert_eq!(revolt_state(&b, "b_rebels", (1470, 1, 1)), Some((false, Some("1460.1.1".to_string()))));
    assert_eq!(revolt_state(&parse("owner = FRA\n"), "a_rebels", (1444, 11, 11)), None);
}

#[test]
fn province_name_from_file_forms() {
    assert_eq!(province_name_from_file("1016 - Ha Tinh.txt"), "Ha Tinh");
    assert_eq!(province_name_from_file("1-Uppland.txt"), "Uppland");
    assert_eq!(province_name_from_file("Plain.txt"), "Plain");
    assert_eq!(province_name_from_file("5 - Nice - Town.txt"), "Nice - Town");
    assert_eq!(province_name_from_file("noext"), "noext");
}

#[test]
fn factions_of_file_reads_each_block_with_its_colour() {
    let src = b"a_rebels = { area = nation }\nloose = yes\nb_rebels = { color = { 1 2 3 } area = religion }\n";
    let fs = factions_of_file(src, "common/rebel_types/00.txt", "mod", &[], &[None, Some([1, 2, 3])]);
    assert_eq!(fs.len(), 2);
    assert_eq!(fs[0].key, "a_rebels");
    assert_eq!(fs[0].color, None);
    assert_eq!(fs[1].key, "b_rebels");
    assert_eq!(fs[1].color, Some([1, 2, 3]));
    assert_eq!(fs[1].origin, "mod");
    assert_eq!(fs[1].file, "common/rebel_types/00.txt");
    let none = factions_of_file(src, "x.txt", "base", &[], &[]);
    assert_eq!(none[1].color, None);
}
