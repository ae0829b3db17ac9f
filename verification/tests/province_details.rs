use eu_toolkit::paradox::parse;
use eu_toolkit::province_details::{
    dated_blocks_of, definition_name, effective_state, geo_options, geography, history_file, province_details,
    province_details_at,
    top_level_of, MapFiles, ProvinceDetails, CONTINENT_FILE,
};

fn some(s: &str) -> Option<String> {
    Some(s.to_string())
}

#[test]
fn top_level_parse_with_remainder_and_buildings() {
    let content = "owner = BYZ\ncontroller = BYZ\nculture = greek\nreligion = orthodox\n\
         capital = \"Constantinople\"\ntrade_goods = glass\nhre = no\n\
         base_tax = 8\nbase_production = 8\nbase_manpower = 4\nis_city = yes\n\
         fort_15th = yes\nadd_core = BYZ\nadd_claim = TUR\n\
         discovered_by = western\ndiscovered_by = ottoman\nextra_cost = 26\ncenter_of_trade = 2\n\
         add_permanent_province_modifier = {\n\tname = bosphorous_sound_toll\n\tduration = -1\n}\n\
         add_province_triggered_modifier = BYZ_galata\n";
    let (top, raw) = top_level_of(&parse(content));

    assert_eq!(top.owner, some("BYZ"));
    assert_eq!(top.controller, some("BYZ"));
    assert_eq!(top.culture, some("greek"));
    assert_eq!(top.religion, some("orthodox"));
    assert_eq!(top.capital, some("Constantinople"));
    assert_eq!(top.trade_goods, some("glass"));
    assert_eq!(top.hre, Some(false));
    assert_eq!(top.is_city, Some(true));
    assert_eq!(top.base_tax.as_deref().map(|t| t.parse::<f64>().unwrap()), Some(8.0));
    assert_eq!(top.base_production.as_deref().map(|t| t.parse::<f64>().unwrap()), Some(8.0));
    assert_eq!(top.base_manpower.as_deref().map(|t| t.parse::<f64>().unwrap()), Some(4.0));
    assert_eq!(top.center_of_trade.as_deref().map(|t| t.parse::<u8>().unwrap()), Some(2));
    assert_eq!(top.extra_cost.as_deref().map(|t| t.parse::<i32>().unwrap()), Some(26));
    assert_eq!(top.cores, vec!["BYZ".to_string()]);
    assert_eq!(top.claims, vec!["TUR".to_string()]);
    assert_eq!(top.discovered_by, vec!["western".to_string(), "ottoman".to_string()]);
    assert_eq!(top.buildings, vec!["fort_15th".to_string()]);
    assert!(!top.buildings.iter().any(|b| b == "is_city"));

    let rem_keys: Vec<&str> = raw.iter().map(|r| r.key.as_str()).collect();
    assert!(rem_keys.contains(&"add_permanent_province_modifier"));
    assert!(rem_keys.contains(&"add_province_triggered_modifier"));
    let modifier = raw.iter().find(|r| r.key == "add_permanent_province_modifier").unwrap();
    assert!(modifier.is_block);
    assert!(modifier.value.contains("bosphorous_sound_toll"));
}

#[test]
fn models_latent_block_autonomy_and_trade_company() {
    let content = "owner = ENG\nlatent_trade_goods = { coal }\n\
         add_local_autonomy = 50\nunrest = 3\nadd_to_trade_company = ENG\n";
    let (top, raw) = top_level_of(&parse(content));
    assert_eq!(top.latent_trade_goods, some("coal"));
    assert_eq!(top.local_autonomy.as_deref().map(|t| t.parse::<f64>().unwrap()), Some(50.0));
    assert_eq!(top.unrest.as_deref().map(|t| t.parse::<f64>().unwrap()), Some(3.0));
    assert_eq!(top.trade_company, some("ENG"));
    let rem: Vec<&str> = raw.iter().map(|r| r.key.as_str()).collect();
    assert!(!rem.contains(&"latent_trade_goods"));
    assert!(!rem.contains(&"add_local_autonomy"));
    assert!(!rem.contains(&"add_to_trade_company"));
}

#[test]
fn remove_core_and_claim_drop_entries() {
    let (top, raw) = top_level_of(&parse(
        "add_core = FRA\nadd_core = ENG\nadd_core = FRA\nremove_core = ENG\nadd_claim = BUR\nremove_claim = BUR\n",
    ));
    assert_eq!(top.cores, vec!["FRA".to_string()]);
    assert!(top.claims.is_empty());
    assert!(raw.is_empty());
}

#[test]
fn bare_items_and_unknown_flags_go_to_remainder() {
    let (top, raw) = top_level_of(&parse("owner = SWE\nfoo\nmarket = yes\nmarket = no\nnote = hello\n"));
    assert_eq!(top.owner, some("SWE"));
    assert_eq!(raw.len(), 2);
    assert_eq!(raw[0].key, "");
    assert_eq!(raw[0].value, "foo");
    assert!(!raw[0].is_block);
    assert_eq!(raw[1].key, "note");
    assert_eq!(raw[1].value, "hello");
    assert!(top.buildings.is_empty());
}

#[test]
fn geo_options_from_map_files() {
    let area = b"thrace_area = { 151 149 }\nmorea_area = { 146 }\n";
    let continent = b"europe = { 1 2 }\nasia = { 3 }\nisland_check_provinces = { 4 }\n";
    let terrain = b"categories = { farmlands = { color = { 1 2 3 } } hills = { } }\n";
    let nodes = vec![
        ("00_tradenodes.txt".to_string(), b"venice = { members = { 1 } }\n".to_vec()),
        ("readme.md".to_string(), b"ignored = { }\n".to_vec()),
    ];
    let loc = vec![("thrace_area".to_string(), "Thrace".to_string())];
    let g = geo_options(Some(area), Some(continent), Some(terrain), &nodes, &loc);

    assert_eq!(g.areas.len(), 2);
    assert_eq!(g.areas[0].key, "thrace_area");
    assert_eq!(g.areas[0].name, "Thrace");
    assert_eq!(g.areas[0].file, "map/area.txt");
    assert_eq!(g.areas[0].list_path, vec!["thrace_area".to_string()]);
    assert_eq!(g.areas[1].name, "morea_area");

    let cont: Vec<&str> = g.continents.iter().map(|c| c.key.as_str()).collect();
    assert_eq!(cont, vec!["europe", "asia"]);
    assert_eq!(g.continent_file, CONTINENT_FILE);
    assert_eq!(g.continent_file, "map/continent.txt");

    let terr: Vec<&str> = g.terrains.iter().map(|t| t.key.as_str()).collect();
    assert_eq!(terr, vec!["farmlands", "hills"]);
    assert_eq!(
        g.terrains[0].list_path,
        vec!["categories".to_string(), "farmlands".to_string(), "terrain_override".to_string()]
    );

    assert_eq!(g.trade_nodes.len(), 1);
    assert_eq!(g.trade_nodes[0].key, "venice");
    assert_eq!(g.trade_nodes[0].file, "common/tradenodes/00_tradenodes.txt");
    assert_eq!(g.trade_nodes[0].list_path.last().map(String::as_str), Some("members"));

    assert_eq!(g.climate_zones.len(), 3);
    assert_eq!(g.winters.len(), 3);
    assert_eq!(g.impassable_file, "map/climate.txt");
}

#[test]
fn geo_options_without_files_are_empty() {
    let g = geo_options(None, None, None, &Vec::new(), &[]);
    assert!(g.areas.is_empty());
    assert!(g.continents.is_empty());
    assert!(g.terrains.is_empty());
    assert!(g.trade_nodes.is_empty());
    assert_eq!(g.climate_zones.len(), 3);
}

#[test]
fn geography_joins_membership() {
    let area = b"thrace_area = { color = { 1 2 3 } 151 149 }\n";
    let region = b"balkan_region = { areas = { morea_area thrace_area } }\n";
    let superregion = b"europe_superregion = { balkan_region }\n";
    let nodes = b"constantinople = { members = { 151 } }\n";
    let climate = b"arid = { 151 }\nsevere_winter = { 151 }\nimpassable = { 9 }\n";
    let continent = b"europe = { 151 }\nasia = { 151 }\n";
    let terrain = b"categories = { farmlands = { terrain_override = { 151 } } }\n";
    let default_map = b"sea_starts = { 1 2 }\nlakes = { 3 }\n";
    let m = MapFiles {
        area: Some(area),
        region: Some(region),
        superregion: Some(superregion),
        tradenodes: Some(nodes),
        climate: Some(climate),
        continent: Some(continent),
        terrain: Some(terrain),
        default_map: Some(default_map),
    };
    let loc = vec![("thrace_area".to_string(), "Thrace".to_string())];
    let g = geography(&m, &loc, 151);
    let area = g.area.unwrap();
    assert_eq!(area.key, "thrace_area");
    assert_eq!(area.name, "Thrace");
    assert_eq!(g.region.unwrap().key, "balkan_region");
    assert_eq!(g.superregion.unwrap().key, "europe_superregion");
    assert_eq!(g.trade_node.unwrap().key, "constantinople");
    assert_eq!(g.climate.unwrap().key, "arid");
    assert_eq!(g.winter.unwrap().key, "severe_winter");
    assert!(g.monsoon.is_none());
    assert!(!g.impassable);
    assert_eq!(g.continent.unwrap().key, "europe");
    assert_eq!(g.terrain_override.unwrap().key, "farmlands");
    assert!(!g.water);

    let w = geography(&m, &loc, 3);
    assert!(w.water);
    assert!(w.area.is_none());
    assert!(w.region.is_none());
    let imp = geography(&m, &loc, 9);
    assert!(imp.impassable);
}

#[test]
fn geography_without_files_is_empty() {
    let m = MapFiles {
        area: None,
        region: None,
        superregion: None,
        tradenodes: None,
        climate: None,
        continent: None,
        terrain: None,
        default_map: None,
    };
    let g = geography(&m, &[], 151);
    assert!(g.area.is_none());
    assert!(g.trade_node.is_none());
    assert!(g.continent.is_none());
    assert!(!g.water);
    assert!(!g.impassable);
}

const START: (u32, u32, u32) = (1444, 11, 11);

fn no_map() -> MapFiles<'static> {
    MapFiles {
        area: None,
        region: None,
        superregion: None,
        tradenodes: None,
        climate: None,
        continent: None,
        terrain: None,
        default_map: None,
    }
}

/// One province history file and its definition line, as a synthetic
/// install would list them.
fn details_at(id: u32, prov_name: &str, content: &str, ask: u32, at: (u32, u32, u32)) -> ProvinceDetails {
    let files = vec![(format!("{id} - {prov_name}.txt"), content.as_bytes().to_vec())];
    let csv = format!("province;red;green;blue;name;x\n{id};10;20;30;{prov_name};x\n");
    province_details_at(ask, &files, Some(csv.as_bytes()), &no_map(), &[], at)
}

#[test]
fn dated_blocks_in_order_with_occurrence_index() {
    let content = "owner = FRA\n\
         1500.1.1 = { unrest = 5 }\n\
         1500.1.1 = { unrest = 6 }\n\
         1600.1.1 = { base_tax = 10 }\n";
    let d = details_at(5, "Test", content, 5, START);
    assert_eq!(d.dated_blocks.len(), 3);
    assert_eq!(d.dated_blocks[0].date, "1500.1.1");
    assert_eq!(d.dated_blocks[0].occurrence_index, 0);
    assert_eq!(d.dated_blocks[1].date, "1500.1.1");
    assert_eq!(d.dated_blocks[1].occurrence_index, 1);
    assert_eq!(d.dated_blocks[2].date, "1600.1.1");
    assert_eq!(d.dated_blocks[2].occurrence_index, 0);
    assert!(d.dated_blocks.iter().all(|b| b.post_start));
    assert_eq!(d.dated_blocks[0].entries[0].key, "unrest");
    assert_eq!(d.dated_blocks[0].entries[0].value, "5");
}

#[test]
fn post_start_flag_boundary() {
    let content = "owner = FRA\n\
         1444.11.11 = { religion = catholic }\n\
         1444.11.12 = { religion = orthodox }\n";
    let d = details_at(6, "Test", content, 6, START);
    assert!(!d.dated_blocks[0].post_start);
    assert!(d.dated_blocks[1].post_start);
}

#[test]
fn effective_1444_reflects_pre_start_override() {
    let content = "owner = FRA\nreligion = catholic\nculture = norman\n\
         1440.1.1 = { religion = protestant add_core = ENG }\n\
         1500.1.1 = { religion = reformed }\n";
    let d = details_at(7, "Test", content, 7, START);
    assert_eq!(d.top_level.religion.as_deref(), Some("catholic"));
    assert!(d.top_level.cores.is_empty());
    assert_eq!(d.effective_1444.religion.as_deref(), Some("protestant"));
    assert_eq!(d.effective_1444.cores, vec!["ENG".to_string()]);
    assert_eq!(d.effective_1444.culture.as_deref(), Some("norman"));
    assert_eq!(d.owner.as_deref(), Some("FRA"));
}

#[test]
fn effective_remove_core_via_pre_start() {
    let content = "owner = FRA\nadd_core = FRA\nadd_core = ENG\n\
         1440.1.1 = { remove_core = ENG }\n";
    let d = details_at(8, "Test", content, 8, START);
    assert_eq!(d.top_level.cores, vec!["FRA".to_string(), "ENG".to_string()]);
    assert_eq!(d.effective_1444.cores, vec!["FRA".to_string()]);
}

#[test]
fn effective_and_post_start_track_selected_date() {
    let content = "owner = FRA\nreligion = catholic\n1450.1.1 = { owner = ENG religion = reformed }\n";
    let d0 = details_at(9, "Test", content, 9, START);
    assert_eq!(d0.effective_1444.owner.as_deref(), Some("FRA"));
    assert_eq!(d0.effective_1444.religion.as_deref(), Some("catholic"));
    assert!(d0.dated_blocks[0].post_start);
    let d1 = details_at(9, "Test", content, 9, (1453, 1, 1));
    assert_eq!(d1.effective_1444.owner.as_deref(), Some("ENG"));
    assert_eq!(d1.effective_1444.religion.as_deref(), Some("reformed"));
    assert!(!d1.dated_blocks[0].post_start);
    assert_eq!(d1.top_level.owner.as_deref(), Some("FRA"));
}

#[test]
fn missing_history_file_synthesizes_path() {
    let d = details_at(1, "Uppland", "owner = SWE\n", 999, START);
    assert!(!d.exists);
    assert!(d.file.starts_with("history/provinces/999"));
    assert_eq!(d.file, "history/provinces/999 - Province 999.txt");
    assert!(d.top_level.owner.is_none());
    assert_eq!(d.localized_name, "Province 999");
}

#[test]
fn details_names_and_existing_file() {
    let d = details_at(1, "Uppland", "owner = SWE\n", 1, START);
    assert!(d.exists);
    assert_eq!(d.file, "history/provinces/1 - Uppland.txt");
    assert_eq!(d.definition_name, "Uppland");
    assert_eq!(d.localized_name, "Uppland");
    assert_eq!(d.top_level.owner.as_deref(), Some("SWE"));
    let files = vec![("1 - Uppland.txt".to_string(), b"owner = SWE\n".to_vec())];
    let loc = vec![("PROV1".to_string(), "Stockholm".to_string())];
    let named = province_details_at(1, &files, None, &no_map(), &loc, START);
    assert_eq!(named.localized_name, "Stockholm");
    assert_eq!(named.definition_name, "");
}

#[test]
fn definition_names_from_csv() {
    let csv = b"province;red;green;blue;name;x\n1;128;34;64;Stockholm;x\r\n2;0;36;128; Osterg\xf6tland ;x\n3;1;2\n1;9;9;9;Later;x\n";
    assert_eq!(definition_name(Some(csv), 1).as_deref(), Some("Later"));
    assert_eq!(definition_name(Some(csv), 2).as_deref(), Some("Osterg\u{FFFD}tland"));
    assert_eq!(definition_name(Some(csv), 3), None);
    assert_eq!(definition_name(Some(csv), 4), None);
    assert_eq!(definition_name(None, 1), None);
}

#[test]
fn history_file_picks_first_matching_txt() {
    let files = vec![
        ("12 - Other.txt".to_string(), b"a = 1".to_vec()),
        ("1 - Notes.md".to_string(), b"b = 2".to_vec()),
        ("1-Uppland.txt".to_string(), b"owner = SWE".to_vec()),
        ("1 - Second.txt".to_string(), b"owner = DAN".to_vec()),
    ];
    let (path, bytes, exists) = history_file(&files, 1, &Some("Uppland".to_string()));
    assert_eq!(path, "history/provinces/1-Uppland.txt");
    assert_eq!(bytes, b"owner = SWE".to_vec());
    assert!(exists);
    let (path, bytes, exists) = history_file(&files, 7, &Some(String::new()));
    assert_eq!(path, "history/provinces/7 - Province 7.txt");
    assert!(bytes.is_empty());
    assert!(!exists);
    let (path, _, _) = history_file(&files, 8, &Some("Gotland".to_string()));
    assert_eq!(path, "history/provinces/8 - Gotland.txt");
}

#[test]
fn dated_blocks_and_effective_state_direct() {
    let b = parse("owner = A\n1400.1.1 = { owner = B }\nnot.a.date = { owner = C }\n1500.1.1 = { owner = D }\n");
    let d = dated_blocks_of(&b, (1450, 1, 1));
    assert_eq!(d.len(), 2);
    assert!(!d[0].post_start);
    assert!(d[1].post_start);
    assert_eq!(effective_state(&b, (1450, 1, 1)).owner.as_deref(), Some("B"));
    assert_eq!(effective_state(&b, (1600, 1, 1)).owner.as_deref(), Some("D"));
    assert_eq!(effective_state(&b, (1300, 1, 1)).owner.as_deref(), Some("A"));
}

#[test]
fn province_details_views_the_start_date() {
    let files = vec![("4 - Test.txt".to_string(), b"owner = FRA\n1444.11.11 = { owner = ENG }\n1444.11.12 = { owner = BUR }\n".to_vec())];
    let d = province_details(4, &files, None, &no_map(), &[]);
    assert_eq!(d.effective_1444.owner.as_deref(), Some("ENG"));
    assert_eq!(d.owner.as_deref(), Some("ENG"));
    assert!(!d.dated_blocks[0].post_start);
    assert!(d.dated_blocks[1].post_start);
    assert_eq!(d.localized_name, "Province 4");
}

#[test]
fn non_numeric_values_clear_numeric_fields() {
    let (top, _) = top_level_of(&parse("base_tax = 3\nbase_tax = lots\nunrest = 2.5\ncenter_of_trade = 1e1\n"));
    assert_eq!(top.base_tax, None);
    assert_eq!(top.unrest, some("2.5"));
    assert_eq!(top.center_of_trade.as_deref().map(|t| t.parse::<f64>().unwrap()), Some(10.0));
}
