use eu_toolkit::mercenary_companies::{
    companies_of_file, load_with_edits, merc_files, parse_company, province_mercenaries, scaffold_company, MercFile, MERC_PROJECT_FILE,
};
use eu_toolkit::mod_writer::{apply, Edit};
use eu_toolkit::paradox::parse;

const MERC_SRC: &str = "\
merc_black_army = {\n\
\tregiments_per_development = 0.04\n\
\tmercenary_desc_key = FREE_OF_ARMY_PROFESSIONALISM_COST\n\
\tcavalry_weight = 0.2\n\
\tartillery_weight = 0.4\n\
\tcavalry_cap = 4\n\
\thome_province = 153\n\
\tcost_modifier = 1.5\n\
\tsprites = { dlc056_hun_sprite_pack sav_base_sprite_pack westerngfx_sprite_pack }\n\
\ttrigger = {\n\t\tis_allowed_to_recruit_mercenaries = yes\n\t\ttag = HUN\n\t}\n\
\tmodifier = {\n\t\tinfantry_power = 0.05\n\t\tdiscipline = 0.05\n\t}\n\
\tsome_unknown_key = yes\n\
}\n";


#[test]
fn parses_company_scalars_sprites_modifier_and_raw() {
    let block = parse(MERC_SRC);
    let loc = vec![("merc_black_army".to_string(), "Black Army".to_string())];
    let all: Vec<_> = block
        .key_blocks()
        .into_iter()
        .map(|(key, b)| parse_company(MERC_SRC.as_bytes(), key, b, &loc, "common/mercenary_companies/00_test.txt", "base"))
        .collect();
    assert_eq!(all.len(), 1);
    let c = &all[0];
    assert_eq!(c.key, "merc_black_army");
    assert_eq!(c.home_province, 153);
    assert_eq!(c.name_loc.as_deref(), Some("Black Army"));
    let sc = |k: &str| c.scalars.iter().find(|s| s.key == k).unwrap();
    assert_eq!(sc("cost_modifier").value, "1.5");
    assert_eq!(sc("cost_modifier").kind, "num");
    assert_eq!(sc("cavalry_cap").value, "4");
    assert_eq!(sc("cavalry_cap").kind, "int");
    assert_eq!(sc("mercenary_desc_key").value, "FREE_OF_ARMY_PROFESSIONALISM_COST");
    assert!(!sc("min_size").present); // absent int
    // Sprites collapsed to a space-joined string.
    assert!(c.sprites_present);
    assert_eq!(c.sprites, "dlc056_hun_sprite_pack sav_base_sprite_pack westerngfx_sprite_pack");
    // Modifier block is flat + typed.
    assert!(c.modifier.present && c.modifier.flat);
    assert_eq!(c.modifier.rows.len(), 2);
    assert_eq!(c.modifier.rows[0].key, "infantry_power");
    // Trigger present.
    assert!(c.trigger_present);
    // Preserve-unknown.
    assert!(c.raw_extra.contains(&"some_unknown_key".to_string()));
    assert!(c.raw.starts_with('{') && c.raw.ends_with('}'));
}

#[test]
fn nested_modifier_and_bad_home_province() {
    let src = "m = {\n\thome_province = -3\n\tmodifier = { a = 1 b = { c = 2 } }\n\tsprites = { }\n}\n";
    let block = parse(src);
    let (key, b) = block.key_blocks()[0];
    let c = parse_company(src.as_bytes(), key, b, &[], "f.txt", "mod");
    assert_eq!(c.home_province, 0);
    assert!(c.modifier.present && !c.modifier.flat && c.modifier.rows.is_empty());
    assert!(c.sprites_present && c.sprites.is_empty());
    assert!(!c.trigger_present);
    assert_eq!(c.name_loc, None);
    assert_eq!(c.scalars.len(), 13);
}

#[test]
fn scaffold_text_carries_the_province() {
    let s = scaffold_company("merc_x", 4365);
    assert!(s.text.starts_with("merc_x = {\n\tregiments_per_development = 0.04\n\thome_province = 4365\n"));
    assert_eq!(s.loc_entries[0].value, "Merc X");
}
#[test]
fn scalar_edit_is_byte_surgical() {
    let out = apply(
        MERC_SRC.as_bytes(),
        &Edit::SetScalar {
            path: vec!["merc_black_army".into(), "cost_modifier".into()],
            value: "0.75".into(),
            quoted: false,
        },
    )
    .unwrap();
    let text = String::from_utf8(out).unwrap();
    assert!(text.contains("cost_modifier = 0.75"));
    assert!(text.contains("mercenary_desc_key = FREE_OF_ARMY_PROFESSIONALISM_COST"));
    assert!(text.contains("some_unknown_key = yes"));
}

#[test]
fn modifier_block_edit_round_trips() {
    let out = apply(
        MERC_SRC.as_bytes(),
        &Edit::SetBlock {
            path: vec!["merc_black_army".into(), "modifier".into()],
            value: "infantry_power = 0.1 discipline = 0.05 land_morale = 0.1".into(),
        },
    )
    .unwrap();
    let text = String::from_utf8(out).unwrap();
    assert!(text.contains("infantry_power = 0.1 discipline = 0.05 land_morale = 0.1"));
    // trigger untouched.
    assert!(text.contains("is_allowed_to_recruit_mercenaries = yes"));
}

#[test]
fn sprites_edit_round_trips() {
    let out = apply(
        MERC_SRC.as_bytes(),
        &Edit::SetBlock {
            path: vec!["merc_black_army".into(), "sprites".into()],
            value: "westerngfx_sprite_pack".into(),
        },
    )
    .unwrap();
    let text = String::from_utf8(out).unwrap();
    assert!(text.contains("sprites = { westerngfx_sprite_pack }"));
}

#[test]
fn mercenary_companies_scaffold_parses_back_with_required_keys() {
    let s = scaffold_company("merc_my_company", 42);
    assert_eq!(s.file, MERC_PROJECT_FILE);
    let b = parse(&s.text);
    let c = b.get_block("merc_my_company").expect("scaffold parses");
    assert_eq!(c.get_scalar("home_province"), Some("42"));
    assert_eq!(c.get_scalar("regiments_per_development"), Some("0.04"));
    assert!(c.get_block("sprites").is_some());
    assert!(c.get_block("trigger").is_some());
    assert!(c.get_block("modifier").is_some());
    // Sprite pack is a base (non-DLC) pack.
    assert!(s.text.contains("westerngfx_sprite_pack"));
    let keys: Vec<&str> = s.loc_entries.iter().map(|e| e.key.as_str()).collect();
    assert!(keys.contains(&"merc_my_company"));
}

#[test]
fn mercenary_companies_scaffold_create_then_delete_is_identity() {
    let base = "existing_merc = {\n\thome_province = 1\n}\n";
    let s = scaffold_company("merc_new", 7);
    let appended = apply(base.as_bytes(), &Edit::Append { text: "\n".to_string() + &s.text + "\n" }).unwrap();
    assert!(String::from_utf8_lossy(&appended).contains("merc_new = {"));
    let deleted = apply(
        &appended,
        &Edit::RemoveStatement {
            block_path: vec![],
            key: "merc_new".into(),
            value: None,
        },
    )
    .unwrap();
    assert_eq!(String::from_utf8_lossy(&deleted).trim_end(), base.trim_end());
}


#[test]
fn merc_files_filters_sorts_and_adds_project_file() {
    let names = vec![
        "b_mercs.txt".to_string(),
        "notes.md".to_string(),
        "A_mercs.TXT".to_string(),
        "zz_eutoolkit_mercenaries.txt".to_string(),
    ];
    let files = merc_files(&names);
    assert_eq!(
        files,
        vec![
            "common/mercenary_companies/A_mercs.TXT".to_string(),
            "common/mercenary_companies/b_mercs.txt".to_string(),
            MERC_PROJECT_FILE.to_string(),
        ]
    );
    let only = merc_files(&vec!["x.txt".to_string(), "x.txt".to_string()]);
    assert_eq!(only, vec!["common/mercenary_companies/x.txt".to_string(), MERC_PROJECT_FILE.to_string()]);
    assert_eq!(merc_files(&Vec::new()), vec![MERC_PROJECT_FILE.to_string()]);
}

#[test]
fn companies_of_file_and_province_filter() {
    let src = b"merc_a = { home_province = 153 }\nmerc_b = { home_province = 7 }\nloose = yes\nmerc_c = { home_province = 153 }\n";
    let all = companies_of_file(src, "common/mercenary_companies/00.txt", "base", &[]);
    let keys: Vec<&str> = all.iter().map(|c| c.key.as_str()).collect();
    assert_eq!(keys, vec!["merc_a", "merc_b", "merc_c"]);
    assert_eq!(all[1].home_province, 7);
    assert_eq!(all[0].origin, "base");
    let panel = province_mercenaries(all, 153);
    let keys: Vec<&str> = panel.companies.iter().map(|c| c.key.as_str()).collect();
    assert_eq!(keys, vec!["merc_a", "merc_c"]);
    assert_eq!(panel.project_file, MERC_PROJECT_FILE);
}

#[test]
fn load_with_edits_reads_files_in_order_and_skips_empty() {
    let files = vec![
        MercFile { rel: "common/mercenary_companies/a.txt".to_string(), bytes: b"m1 = { home_province = 1 }\n".to_vec(), origin: "base".to_string() },
        MercFile { rel: MERC_PROJECT_FILE.to_string(), bytes: Vec::new(), origin: "mod".to_string() },
        MercFile { rel: "common/mercenary_companies/b.txt".to_string(), bytes: b"m2 = { }\nm3 = { home_province = 9 }\n".to_vec(), origin: "mod".to_string() },
    ];
    let all = load_with_edits(&files, &[]);
    let keys: Vec<&str> = all.iter().map(|c| c.key.as_str()).collect();
    assert_eq!(keys, vec!["m1", "m2", "m3"]);
    assert_eq!(all[0].file, "common/mercenary_companies/a.txt");
    assert_eq!(all[2].origin, "mod");
    assert_eq!(all[2].home_province, 9);
}
