use eu_toolkit::mechanics::{
    count_word, event_reference, family_ids, get_mechanic_families, get_mechanic_family, load, scaffold,
    sort_event_refs, SourceFile,
};
use eu_toolkit::mod_writer::{apply, Edit};
use eu_toolkit::paradox::parse;

/// The files of a family directory as the caller reads them (no colours).
fn src_files(list: &[(&str, &str)]) -> Vec<SourceFile> {
    list.iter()
        .map(|(name, text)| SourceFile {
            name: name.to_string(),
            origin: "base".to_string(),
            bytes: text.as_bytes().to_vec(),
            colors: Vec::new(),
        })
        .collect()
}

/// The first file with the colours read from its keyed blocks' `color` blocks.
fn colored(mut files: Vec<SourceFile>, colors: Vec<Option<[u8; 3]>>) -> Vec<SourceFile> {
    files[0].colors = colors;
    files
}

fn loc_pairs(pairs: &[(&str, &str)]) -> Vec<(String, String)> {
    pairs.iter().map(|(k, v)| (k.to_string(), v.to_string())).collect()
}

fn desc_key(id: &str, key: &str) -> String {
    if get_mechanic_family(id.to_string()).unwrap().desc_suffix {
        format!("{key}_desc")
    } else {
        format!("desc_{key}")
    }
}

#[test]
fn every_family_scaffold_parses_back() {
    for id in family_ids() {
        let key = format!("{}_test_key", id);
        let sc = scaffold(id, &key, Some("muslim")).unwrap();
        let b = parse(&sc.text);
        assert!(b.get_block(&key).is_some(), "{} scaffold must parse back to a {key} block:\n{}", id, sc.text);
        assert!(sc.loc_entries.iter().any(|e| e.key == key));
        assert!(sc.loc_entries.iter().any(|e| e.key == desc_key(id, &key)));
    }
}

#[test]
fn every_family_scaffold_create_then_delete_is_identity() {
    for id in family_ids() {
        if get_mechanic_family(id.to_string()).unwrap().group_nested {
            continue;
        }
        let key = format!("{}_rt_key", id);
        let base = "existing = {\n\tfoo = bar\n}\n";
        let sc = scaffold(id, &key, None).unwrap();
        let appended = apply(base.as_bytes(), &Edit::Append { text: sc.text.clone() }).unwrap();
        assert!(String::from_utf8_lossy(&appended).contains(&format!("{key} = {{")));
        let deleted = apply(
            &appended,
            &Edit::RemoveStatement { block_path: vec![], key: key.clone(), value: None },
        )
        .unwrap();
        assert_eq!(deleted, base.as_bytes(), "{}: create then delete restores source", id);
    }
}

#[test]
fn event_references_whole_word_scan() {
    let text = "namespace = court\ncountry_event = { id = court.1\n\ttrigger = { has_disaster = court_and_country }\n}\n# not_court_and_country_extra should not match\n";
    let r = event_reference("court_events.txt", "base", text.as_bytes(), "court_and_country").unwrap();
    let refs = sort_event_refs(vec![r]);
    assert_eq!(refs.len(), 1);
    assert_eq!(refs[0].file, "events/court_events.txt");
    assert_eq!(refs[0].count, 1, "the substring in a longer identifier must not match");
}



const DISASTER_SRC: &str = "\
court_and_country = {\n\
\tpotential = {\n\t\tnum_of_cities = 8\n\t}\n\
\tcan_start = {\n\t\tabsolutism = 50\n\t}\n\
\tcan_stop = {\n\t\tstability = 3\n\t}\n\
\tcan_end = {\n\t\tstability = 0\n\t}\n\
\tprogress = {\n\t\tmodifier = { factor = 1 absolutism = 50 }\n\t}\n\
\tmodifier = {\n\t\tglobal_tax_modifier = -0.2\n\t\tmax_absolutism = -20\n\t}\n\
\ton_start = court_and_country_events.1\n\
\ton_end = court_and_country_events.100\n\
\ton_monthly = {\n\t\tevents = {}\n\t}\n\
}\n";

#[test]
fn parses_disaster_typed_scripts_modifier_and_event_refs() {
    let files = src_files(&[("00_test.txt", DISASTER_SRC)]);
    let loc = loc_pairs(&[("court_and_country", "Court and Country")]);
    let data = load("disasters", &files, &loc).unwrap();
    assert_eq!(data.objects.len(), 1);
    let d = &data.objects[0];
    assert_eq!(d.name, "Court and Country");
    // triggers/weights present
    let sb = |k: &str| d.script_blocks.iter().find(|s| s.name == k).unwrap();
    assert!(sb("potential").present && sb("potential").registry == "triggers");
    assert!(sb("progress").present);
    // modifier block typed + flat
    let m = d.modifier_blocks.iter().find(|m| m.name == "modifier").unwrap();
    assert!(m.present && m.flat);
    assert!(m.rows.iter().any(|r| r.key == "max_absolutism" && r.value == "-20"));
    // event references
    let er = |k: &str| d.event_refs.iter().find(|e| e.key == k).unwrap();
    assert_eq!(er("on_start").id, "court_and_country_events.1");
    assert_eq!(er("on_end").id, "court_and_country_events.100");
    // on_monthly preserved raw
    assert!(d.raw_extra.contains(&"on_monthly".to_string()));
    assert!(d.raw.starts_with('{') && d.raw.ends_with('}'));
}

#[test]
fn disaster_scalar_and_modifier_edits_are_byte_surgical() {
    let out = apply(
        DISASTER_SRC.as_bytes(),
        &Edit::SetScalar {
            path: vec!["court_and_country".into(), "on_start".into()],
            value: "my_events.5".into(),
            quoted: false,
        },
    )
    .unwrap();
    let out = apply(
        &out,
        &Edit::SetBlock {
            path: vec!["court_and_country".into(), "modifier".into()],
            value: "global_tax_modifier = -0.3".into(),
        },
    )
    .unwrap();
    let text = String::from_utf8(out).unwrap();
    assert!(text.contains("on_start = my_events.5"));
    assert!(text.contains("global_tax_modifier = -0.3"));
    // untouched siblings round-trip
    assert!(text.contains("on_end = court_and_country_events.100"));
    assert!(text.contains("num_of_cities = 8"));
}

const DEITY_SRC: &str = "\
odin = {\n\
\tlegitimacy = 0.1\n\
\thorde_unity = 0.1\n\
\tcore_creation = -0.10\n\
\tpotential = { religion = norse_pagan_reformed }\n\
\ttrigger = {}\n\
\tsprite = 7\n\
\teffect = {}\n\
\tremoved_effect = {}\n\
\tai_will_do = { factor = 1 }\n\
}\n";

#[test]
fn parses_deity_self_modifier_rows() {
    let files = src_files(&[("00_test.txt", DEITY_SRC)]);
    let loc = loc_pairs(&[]);
    let data = load("personal_deities", &files, &loc).unwrap();
    let d = data.objects.iter().find(|o| o.key == "odin").unwrap();
    assert!(d.self_modifier);
    // flat modifiers surfaced as self_rows, sprite is a structural scalar.
    let keys: Vec<&str> = d.self_rows.iter().map(|r| r.key.as_str()).collect();
    assert!(keys.contains(&"legitimacy"));
    assert!(keys.contains(&"horde_unity"));
    assert!(keys.contains(&"core_creation"));
    assert!(!keys.contains(&"sprite"), "sprite is a structural scalar, not a modifier row");
    assert_eq!(d.scalars.iter().find(|s| s.key == "sprite").unwrap().value, "7");
    // structural blocks not treated as modifiers; nothing spurious in raw.
    assert!(d.raw_extra.is_empty(), "deity has no unmodeled keys, got {:?}", d.raw_extra);
    // per-row scalar edit is byte-surgical.
    let out = apply(
        DEITY_SRC.as_bytes(),
        &Edit::SetScalar { path: vec!["odin".into(), "legitimacy".into()], value: "0.2".into(), quoted: false },
    )
    .unwrap();
    let text = String::from_utf8(out).unwrap();
    assert!(text.contains("legitimacy = 0.2"));
    assert!(text.contains("horde_unity = 0.1"));
}

const REFORM_SRC: &str = "\
nahuatl_reforms = {\n\
\ttrigger = { religion = nahuatl }\n\
\tcan_buy_idea = { stability = 1 }\n\
\tnahuatl_reform_1 = { war_exhaustion = -0.05 }\n\
\tnahuatl_reform_2 = { diplomatic_upkeep = 1 }\n\
\tnahuatl_reform_3 = { discipline = 0.05 }\n\
\tai_will_do = { factor = 1 }\n\
}\n";

#[test]
fn parses_religious_reform_ordered_children() {
    let files = src_files(&[("00_test.txt", REFORM_SRC)]);
    let loc = loc_pairs(&[]);
    let data = load("religious_reforms", &files, &loc).unwrap();
    let r = data.objects.iter().find(|o| o.key == "nahuatl_reforms").unwrap();
    assert!(r.ordered);
    let names: Vec<&str> = r.ordered_children.iter().map(|c| c.key.as_str()).collect();
    assert_eq!(names, vec!["nahuatl_reform_1", "nahuatl_reform_2", "nahuatl_reform_3"]);
    assert!(r.ordered_children[0].flat);
    assert_eq!(r.ordered_children[0].rows[0].key, "war_exhaustion");
    // trigger + can_buy_idea are structural, not children.
    assert!(r.script_blocks.iter().find(|s| s.name == "can_buy_idea").unwrap().present);
    // a reform step modifier edit is byte-surgical.
    let out = apply(
        REFORM_SRC.as_bytes(),
        &Edit::SetBlock {
            path: vec!["nahuatl_reforms".into(), "nahuatl_reform_2".into()],
            value: "diplomatic_upkeep = 2".into(),
        },
    )
    .unwrap();
    let text = String::from_utf8(out).unwrap();
    assert!(text.contains("diplomatic_upkeep = 2"));
    assert!(text.contains("war_exhaustion = -0.05"));
}

const RELIGION_SRC: &str = "\
muslim = {\n\
\tdefender_of_faith = yes\n\
\treligious_schools = {\n\
\t\thanafi_school = {\n\
\t\t\tpotential_invite_scholar = { always = yes }\n\
\t\t\tcan_invite_scholar = { adm_power_cost = 50 }\n\
\t\t\ton_invite_scholar = { adm_power_cost = 50 }\n\
\t\t\tpicture = \"GFX_icon_muslim_school_hanafi\"\n\
\t\t\tadm_tech_cost_modifier = -0.05\n\
\t\t}\n\
\t\tmaliki_school = {\n\
\t\t\tpicture = \"GFX_icon_muslim_school_maliki\"\n\
\t\t\tland_morale = 0.05\n\
\t\t}\n\
\t}\n\
}\n\
sunni = {\n\
\ticon = 1\n\
}\n";

#[test]
fn parses_group_nested_religious_schools() {
    let files = src_files(&[("00_religion.txt", RELIGION_SRC)]);
    let loc = loc_pairs(&[("hanafi_school", "Hanafi")]);
    let data = load("religious_schools", &files, &loc).unwrap();
    assert_eq!(data.objects.len(), 2);
    let h = data.objects.iter().find(|o| o.key == "hanafi_school").unwrap();
    assert_eq!(h.group.as_deref(), Some("muslim"));
    assert_eq!(h.name, "Hanafi");
    // The paradox parser strips surrounding quotes from scalar values.
    assert_eq!(h.scalars.iter().find(|s| s.key == "picture").unwrap().value, "GFX_icon_muslim_school_hanafi");
    assert!(h.self_modifier);
    assert!(h.self_rows.iter().any(|r| r.key == "adm_tech_cost_modifier"));
    assert!(h.script_blocks.iter().find(|s| s.name == "can_invite_scholar").unwrap().present);
    // raw span is the nested block.
    assert!(h.raw.contains("adm_tech_cost_modifier"));
    // A nested scalar edit resolves through the group path.
    let out = apply(
        RELIGION_SRC.as_bytes(),
        &Edit::SetScalar {
            path: vec!["muslim".into(), "religious_schools".into(), "hanafi_school".into(), "adm_tech_cost_modifier".into()],
            value: "-0.1".into(),
            quoted: false,
        },
    )
    .unwrap();
    let text = String::from_utf8(out).unwrap();
    assert!(text.contains("adm_tech_cost_modifier = -0.1"));
    assert!(text.contains("GFX_icon_muslim_school_maliki"), "sibling school untouched");
}

#[test]
fn group_nested_scaffold_inserts_into_group() {
    let sc = scaffold("religious_schools", "my_school", Some("muslim")).unwrap();
    assert!(sc.group_nested);
    assert_eq!(sc.group.as_deref(), Some("muslim"));
    // Inserting the scaffold into the religious_schools block round-trips.
    let out = apply(
        RELIGION_SRC.as_bytes(),
        &Edit::InsertStatement {
            block_path: vec!["muslim".into(), "religious_schools".into()],
            statement: sc.text.clone(),
        },
    )
    .unwrap();
    let text = String::from_utf8(out).unwrap();
    assert!(text.contains("my_school = {"));
    assert!(text.contains("hanafi_school = {"), "existing school preserved");
}

#[test]
fn family_ids_include_sprint26_and_wave1() {
    let ids = family_ids();
    assert_eq!(ids.len(), 50);
    for expected in [
        "disasters",
        "parliament_issues",
        "parliament_bribes",
        "factions",
        "personal_deities",
        "church_aspects",
        "fetishist_cults",
        "holy_orders",
        "fervor",
        "isolationism",
        "golden_bulls",
        "religious_reforms",
        "incidents",
        "religious_schools",
        // Sprint 27 Wave 1
        "government_reforms",
        "buildings",
        "institutions",
        // Sprint 27 Wave 2
        "governments",
        "subject_types",
        "subject_type_upgrades",
        "cb_types",
        "wargoal_types",
        "peace_treaties",
        "policies",
        "powerprojection",
        // Sprint 27 Wave 3
        "idea_groups",
        "advisortypes",
        "ruler_personalities",
        "leader_personalities",
        "event_modifiers",
        "opinion_modifiers",
        "static_modifiers",
        "triggered_modifiers",
        "ages",
        "hegemons",
        "government_ranks",
        "state_edicts",
        "natives",
        // Sprint 27 Wave 4
        "trading_policies",
        "tradecompany_investments",
        "centers_of_trade",
        "naval_doctrines",
        "professionalism",
        "flagship_modifications",
        // Sprint 27 Wave 5
        "custom_ideas",
        "ai_personalities",
        "insults",
        // Sprint 29 (Empires — hidden from the Mechanics selector)
        "imperial_reforms",
        "imperial_incidents",
        "decrees",
    ] {
        assert!(ids.contains(&expected), "missing family {expected}");
    }
}

#[test]
fn ai_personalities_forbids_create_others_allow() {
    let metas = get_mechanic_families();
    let ai = metas.iter().find(|m| m.id == "ai_personalities").unwrap();
    assert!(!ai.allow_create, "AI personalities are hardcoded — no create affordance");
    // A representative editable family keeps create.
    let ins = metas.iter().find(|m| m.id == "insults").unwrap();
    assert!(ins.allow_create);
}

#[test]
fn empire_families_hidden_from_selector_but_loadable() {
    let selector: Vec<String> = get_mechanic_families().into_iter().map(|m| m.id).collect();
    for id in ["imperial_reforms", "imperial_incidents", "decrees"] {
        assert!(!selector.contains(&id.to_string()), "{id} must be hidden from the selector");
        assert!(family_ids().contains(&id), "{id} must still exist");
        // Loadable by id (drives the Empires overlay).
        assert!(get_mechanic_family(id.to_string()).is_ok());
    }
}

const GOV_REFORM_SRC: &str = "\
despotic_monarchy = {\n\
\ticon = \"crown\"\n\
\tallow_normal_conversion = yes\n\
\tlegacy_government = yes\n\
\tvalid_for_new_country = yes\n\
\tnation_designer_cost = 0\n\
\tmonarchy = yes\n\
\tmodifiers = {\n\t\tglobal_unrest = -1\n\t\tmax_absolutism = 5\n\t}\n\
\tcustom_attributes = {\n\t\tlocked_government_type = yes\n\t}\n\
\tconditional = {\n\t\tallow = { always = yes }\n\t}\n\
\tai = {\n\t\tfactor = 1\n\t}\n\
}\n";

#[test]
fn parses_government_reform_typed_icon_bools_modifiers() {
    let files = src_files(&[("00_test.txt", GOV_REFORM_SRC)]);
    let loc = loc_pairs(&[("despotic_monarchy", "Despotic Monarchy")]);
    let data = load("government_reforms", &files, &loc).unwrap();
    let r = data.objects.iter().find(|o| o.key == "despotic_monarchy").unwrap();
    assert_eq!(r.name, "Despotic Monarchy");
    // Named icon (quotes stripped by parser).
    assert_eq!(r.icon_kind, "named");
    assert_eq!(r.icon.as_deref(), Some("crown"));
    // desc uses the <key>_desc pattern.
    assert_eq!(r.desc_key, "despotic_monarchy_desc");
    // Typed booleans.
    let sc = |k: &str| r.scalars.iter().find(|s| s.key == k).unwrap();
    assert!(sc("allow_normal_conversion").present && sc("allow_normal_conversion").value == "yes");
    assert!(sc("monarchy").present && sc("monarchy").value == "yes");
    assert!(!sc("valid_for_nation_designer").present);
    // `modifiers` + `custom_attributes` are flat modifier blocks.
    let m = r.modifier_blocks.iter().find(|m| m.name == "modifiers").unwrap();
    assert!(m.present && m.flat);
    assert!(m.rows.iter().any(|x| x.key == "max_absolutism" && x.value == "5"));
    let ca = r.modifier_blocks.iter().find(|m| m.name == "custom_attributes").unwrap();
    assert!(ca.present && ca.rows.iter().any(|x| x.key == "locked_government_type"));
    // `conditional` is unmodeled → preserved raw.
    assert!(r.raw_extra.contains(&"conditional".to_string()));

    // Deep round-trip: a scalar bool + the modifiers block edit byte-surgically.
    let out = apply(
        GOV_REFORM_SRC.as_bytes(),
        &Edit::SetScalar { path: vec!["despotic_monarchy".into(), "monarchy".into()], value: "no".into(), quoted: false },
    )
    .unwrap();
    let out = apply(
        &out,
        &Edit::SetBlock { path: vec!["despotic_monarchy".into(), "modifiers".into()], value: "global_unrest = -2".into() },
    )
    .unwrap();
    let text = String::from_utf8(out).unwrap();
    assert!(text.contains("monarchy = no"));
    assert!(text.contains("global_unrest = -2"));
    // Untouched content round-trips.
    assert!(text.contains("locked_government_type = yes"));
    assert!(text.contains("icon = \"crown\""));
}

#[test]
fn government_reform_scaffold_has_required_keys() {
    let sc = scaffold("government_reforms", "my_reform", None).unwrap();
    let b = parse(&sc.text);
    let rb = b.get_block("my_reform").unwrap();
    assert!(rb.get_scalar("icon").is_some());
    assert!(rb.get_scalar("allow_normal_conversion").is_some());
    assert!(rb.get_block("modifiers").is_some());
    // reforms resolve their icon by name → no gfx side-effect.
    assert!(sc.gfx_file.is_none());
    assert!(sc.loc_entries.iter().any(|e| e.key == "my_reform_desc"));
}

const BUILDING_SRC: &str = "\
wharf = {\n\
\tcost = 100\n\
\ttime = 12\n\
\tmanufactory = {\n\t\tnaval_supplies\n\t\tfish\n\t\tsalt\n\t}\n\
\tonmap = yes\n\
\tmodifier = {\n\t\tlocal_production_efficiency = 0.5\n\t}\n\
\tmake_obsolete = trade_depot\n\
\ton_built = {\n\t\tadd_prosperity = 1\n\t}\n\
\tai_will_do = {\n\t\tfactor = 1\n\t}\n\
}\n";

#[test]
fn parses_building_manufactory_list_and_obsolete_ref() {
    let files = src_files(&[("00_test.txt", BUILDING_SRC)]);
    let loc = loc_pairs(&[("wharf", "Wharf")]);
    let data = load("buildings", &files, &loc).unwrap();
    let w = data.objects.iter().find(|o| o.key == "wharf").unwrap();
    // Bare-token manufactory list.
    let mf = w.list_fields.iter().find(|l| l.name == "manufactory").unwrap();
    assert!(mf.present && mf.picker == "trade_good");
    assert_eq!(mf.tokens, vec!["naval_supplies", "fish", "salt"]);
    // make_obsolete is a bare (token) building reference with a picker.
    let mo = w.scalars.iter().find(|s| s.key == "make_obsolete").unwrap();
    assert!(mo.present && mo.value == "trade_depot" && mo.picker == "building" && mo.kind == "token");
    // onmap bool + cost/time ints.
    assert_eq!(w.scalars.iter().find(|s| s.key == "onmap").unwrap().value, "yes");
    assert_eq!(w.scalars.iter().find(|s| s.key == "cost").unwrap().value, "100");
    // manufactory is structural (not raw_extra).
    assert!(!w.raw_extra.contains(&"manufactory".to_string()));

    // Deep round-trip: rewrite the manufactory list byte-surgically.
    let out = apply(
        BUILDING_SRC.as_bytes(),
        &Edit::SetBlock { path: vec!["wharf".into(), "manufactory".into()], value: "coal iron".into() },
    )
    .unwrap();
    let text = String::from_utf8(out).unwrap();
    assert!(text.contains("coal iron") || text.contains("coal\n") || text.contains("coal iron"));
    assert!(text.contains("make_obsolete = trade_depot"));
    assert!(text.contains("local_production_efficiency = 0.5"));
}

#[test]
fn building_scaffold_emits_named_gfx_sprite() {
    let sc = scaffold("buildings", "my_building", None).unwrap();
    let b = parse(&sc.text);
    let bb = b.get_block("my_building").unwrap();
    assert!(bb.get_scalar("cost").is_some());
    assert!(bb.get_block("modifier").is_some());
    // The building resolves its icon by name → a gfx spriteType is emitted.
    assert_eq!(sc.gfx_file.as_deref(), Some("interface/zz_eutoolkit_buildings.gfx"));
    let gfx = sc.gfx_text.expect("gfx text");
    let gb = parse(&gfx);
    let sprites = gb.get_block("spriteTypes").expect("spriteTypes block");
    let st = sprites.get_block("spriteType").expect("spriteType");
    assert_eq!(st.get_scalar("name"), Some("GFX_my_building"));
    assert!(st.get_scalar("texturefile").unwrap().contains("building_default.tga"));
}

const INSTITUTION_SRC: &str = "\
renaissance = {\n\
\tbonus = {\n\t\tdevelopment_cost = -0.05\n\t}\n\
\ttrade_company_efficiency = 0.4\n\
\thistorical_start_date = 1450.1.1\n\
\thistorical_start_province = 116\n\
\thistory = {\n\t\tis_year = 1450\n\t}\n\
\tcan_start = {\n\t\tis_year = 1450\n\t}\n\
\tstart_chance = 5\n\
\ton_start = institution_events.2\n\
\tcan_embrace = {\n\t\towner = { has_institution = feudalism }\n\t}\n\
\tembracement_speed = {\n\t\tmodifier = { factor = 1 always = yes }\n\t}\n\
\tai_will_do = {\n\t\tfactor = 24\n\t}\n\
}\n";

#[test]
fn parses_institution_origin_province_weight_and_event_ref() {
    let files = src_files(&[("00_test.txt", INSTITUTION_SRC)]);
    let loc = loc_pairs(&[("renaissance", "Renaissance")]);
    let data = load("institutions", &files, &loc).unwrap();
    let r = data.objects.iter().find(|o| o.key == "renaissance").unwrap();
    // The origin-province weight: historical_start_province (province picker) +
    // start_chance (the "in 100" weight).
    let hsp = r.scalars.iter().find(|s| s.key == "historical_start_province").unwrap();
    assert!(hsp.present && hsp.value == "116" && hsp.picker == "province" && hsp.kind == "int");
    assert_eq!(r.scalars.iter().find(|s| s.key == "start_chance").unwrap().value, "5");
    // historical_start_date is a bare token (unquoted date).
    let hsd = r.scalars.iter().find(|s| s.key == "historical_start_date").unwrap();
    assert!(hsd.value == "1450.1.1" && hsd.kind == "token");
    // `bonus` is the modifier block.
    let m = r.modifier_blocks.iter().find(|m| m.name == "bonus").unwrap();
    assert!(m.present && m.rows.iter().any(|x| x.key == "development_cost"));
    // on_start references an event.
    assert_eq!(r.event_refs.iter().find(|e| e.key == "on_start").unwrap().id, "institution_events.2");
    // embracement_speed + history are script blocks.
    assert!(r.script_blocks.iter().find(|s| s.name == "embracement_speed").unwrap().present);
    assert!(r.script_blocks.iter().find(|s| s.name == "history").unwrap().present);

    // Deep round-trip: retarget the origin province byte-surgically.
    let out = apply(
        INSTITUTION_SRC.as_bytes(),
        &Edit::SetScalar { path: vec!["renaissance".into(), "historical_start_province".into()], value: "50".into(), quoted: false },
    )
    .unwrap();
    let text = String::from_utf8(out).unwrap();
    assert!(text.contains("historical_start_province = 50"));
    assert!(text.contains("on_start = institution_events.2"));
    assert!(text.contains("trade_company_efficiency = 0.4"));
}

#[test]
fn institution_scaffold_emits_named_gfx_and_required_keys() {
    let sc = scaffold("institutions", "my_institution", None).unwrap();
    let b = parse(&sc.text);
    let ib = b.get_block("my_institution").unwrap();
    assert!(ib.get_block("bonus").is_some());
    assert!(ib.get_scalar("historical_start_province").is_some());
    assert!(ib.get_scalar("start_chance").is_some());
    // Institutions resolve their icon by name → a gfx spriteType is emitted.
    assert_eq!(sc.gfx_file.as_deref(), Some("interface/zz_eutoolkit_institutions.gfx"));
    let gfx = parse(&sc.gfx_text.unwrap());
    let st = gfx.get_block("spriteTypes").unwrap().get_block("spriteType").unwrap();
    assert_eq!(st.get_scalar("name"), Some("GFX_icon_institution_my_institution"));
}

const GOV_SRC: &str = "\
monarchy = {\n\
\tcolor = { 179 25 25 }\n\
\tbasic_reform = monarchy_mechanic\n\
\tlegacy_government = {\n\t\tdespotic_monarchy\n\t\tfeudal_monarchy\n\t}\n\
\treform_levels = {\n\t\tfeudalism_vs_autocracy = {\n\t\t\treforms = { feudalism_reform autocracy_reform }\n\t\t}\n\t}\n\
\texclusive_reforms = { parliamentary_reform english_monarchy }\n\
\texclusive_reforms = { states_general_reform mughal_government }\n\
}\n\
pre_dharma_mapping = {\n\
\tdespotic_monarchy = { government = monarchy }\n\
}\n";

#[test]
fn parses_government_color_basic_reform_and_legacy_list() {
    let files = colored(src_files(&[("00_test.txt", GOV_SRC)]), vec![Some([179, 25, 25])]);
    let loc = loc_pairs(&[]);
    let data = load("governments", &files, &loc).unwrap();
    // pre_dharma_mapping is excluded — only the monarchy category shows.
    assert_eq!(data.objects.len(), 1, "pre_dharma_mapping must be excluded");
    let g = &data.objects[0];
    assert_eq!(g.key, "monarchy");
    assert_eq!(g.color, Some([179, 25, 25]));
    assert_eq!(g.scalars.iter().find(|s| s.key == "basic_reform").unwrap().value, "monarchy_mechanic");
    // legacy_government is a bare-token list.
    let lg = g.list_fields.iter().find(|l| l.name == "legacy_government").unwrap();
    assert!(lg.present);
    assert_eq!(lg.tokens, vec!["despotic_monarchy", "feudal_monarchy"]);
    // The nested reform_levels + repeated exclusive_reforms round-trip raw.
    assert!(g.raw_extra.contains(&"reform_levels".to_string()));
    assert!(g.raw_extra.contains(&"exclusive_reforms".to_string()));
    // Deep round-trip: the basic_reform token + legacy list edit byte-surgically.
    let out = apply(
        GOV_SRC.as_bytes(),
        &Edit::SetScalar { path: vec!["monarchy".into(), "basic_reform".into()], value: "republic_mechanic".into(), quoted: false },
    )
    .unwrap();
    let out = apply(
        &out,
        &Edit::SetBlock { path: vec!["monarchy".into(), "legacy_government".into()], value: "despotic_monarchy".into() },
    )
    .unwrap();
    let text = String::from_utf8(out).unwrap();
    assert!(text.contains("basic_reform = republic_mechanic"));
    // Untouched deep content preserved.
    assert!(text.contains("feudalism_vs_autocracy"));
    assert!(text.contains("mughal_government"));
}

const SUBJ_SRC: &str = "\
vassal = {}\n\
march = {}\n\
default = {\n\tsprite = GFX_icon_vassal\n\tjoins_overlords_wars = yes\n}\n\
vassal = {\n\
\tcopy_from = default\n\
\tsprite = GFX_subject_vassal\n\
\tis_potential_overlord = { always = no }\n\
\trelative_power_class = 1\n\
\tcan_be_annexed = yes\n\
\tjoins_overlords_wars = yes\n\
\tmodifier_subject = { land_morale = -0.1 }\n\
}\n\
march = {\n\
\tcopy_from = vassal\n\
\tis_march = yes\n\
\tmodifier_subject = { land_morale = 0.1 }\n\
}\n";

#[test]
fn subject_types_dedup_keeps_definition_and_edit_key_addresses_it() {
    let files = src_files(&[("00_test.txt", SUBJ_SRC)]);
    let loc = loc_pairs(&[]);
    let data = load("subject_types", &files, &loc).unwrap();
    // `default` excluded; vassal/march de-duplicated to their rich definitions.
    assert_eq!(data.objects.len(), 2, "default excluded, vassal+march de-duped");
    let v = data.objects.iter().find(|o| o.key == "vassal").unwrap();
    // The definition (occurrence #1) wins over the forward declaration.
    assert_eq!(v.edit_key, "vassal#1");
    // copy_from is a subject-type reference (picker).
    let cf = v.scalars.iter().find(|s| s.key == "copy_from").unwrap();
    assert!(cf.present && cf.value == "default" && cf.picker == "subject_type");
    assert_eq!(v.scalars.iter().find(|s| s.key == "relative_power_class").unwrap().value, "1");
    // The many boolean properties are editable flat rows.
    assert!(v.self_modifier);
    assert!(v.self_rows.iter().any(|r| r.key == "can_be_annexed"));
    assert!(v.self_rows.iter().any(|r| r.key == "joins_overlords_wars"));
    // modifier_subject is a flat modifier block.
    let m = v.modifier_blocks.iter().find(|m| m.name == "modifier_subject").unwrap();
    assert!(m.present && m.rows.iter().any(|x| x.key == "land_morale"));
    // is_potential_overlord is a script trigger.
    assert!(v.script_blocks.iter().find(|s| s.name == "is_potential_overlord").unwrap().present);
    // raw span resolves the DEFINITION, not the empty forward declaration.
    assert!(v.raw.contains("GFX_subject_vassal"), "raw is the definition block: {}", v.raw);

    // Deep round-trip: editing via the occurrence-qualified edit_key touches
    // only the real definition, leaving the forward declaration untouched.
    let out = apply(
        SUBJ_SRC.as_bytes(),
        &Edit::SetScalar { path: vec![v.edit_key.clone(), "relative_power_class".into()], value: "2".into(), quoted: false },
    )
    .unwrap();
    let text = String::from_utf8(out).unwrap();
    assert!(text.contains("relative_power_class = 2"));
    // The forward declaration `vassal = {}` is intact.
    assert!(text.contains("vassal = {}"));
    assert!(text.contains("GFX_subject_vassal"));
}

const SUBJ_UP_SRC: &str = "\
increase_force_limit_from_colony = {\n\
\tcan_upgrade_trigger = { is_subject_of_type = crown_colony }\n\
\tcost = 100\n\
\teffect = { colonial_parent = { adm_power_cost = 25 } }\n\
\tmodifier_overlord = { land_forcelimit = 5 }\n\
\tmodifier_subject = { land_forcelimit = -5 liberty_desire = 10 }\n\
}\n";

#[test]
fn parses_subject_type_upgrade_cost_modifiers_and_trigger() {
    let files = src_files(&[("00_test.txt", SUBJ_UP_SRC)]);
    let loc = loc_pairs(&[]);
    let data = load("subject_type_upgrades", &files, &loc).unwrap();
    let u = data.objects.iter().find(|o| o.key == "increase_force_limit_from_colony").unwrap();
    assert_eq!(u.scalars.iter().find(|s| s.key == "cost").unwrap().value, "100");
    let mo = u.modifier_blocks.iter().find(|m| m.name == "modifier_overlord").unwrap();
    assert!(mo.present && mo.rows.iter().any(|x| x.key == "land_forcelimit"));
    let ms = u.modifier_blocks.iter().find(|m| m.name == "modifier_subject").unwrap();
    assert!(ms.present && ms.rows.iter().any(|x| x.key == "liberty_desire" && x.value == "10"));
    assert!(u.script_blocks.iter().find(|s| s.name == "can_upgrade_trigger").unwrap().present);
    // Deep round-trip: rewrite the subject modifier block.
    let out = apply(
        SUBJ_UP_SRC.as_bytes(),
        &Edit::SetBlock {
            path: vec!["increase_force_limit_from_colony".into(), "modifier_subject".into()],
            value: "liberty_desire = 20".into(),
        },
    )
    .unwrap();
    let text = String::from_utf8(out).unwrap();
    assert!(text.contains("liberty_desire = 20"));
    assert!(text.contains("land_forcelimit = 5"), "overlord modifier untouched");
}

const CB_SRC: &str = "\
cb_conquest = {\n\
\tvalid_for_subject = no\n\
\tis_triggered_only = no\n\
\tprerequisites = {\n\t\tFROM = { NOT = { num_of_cities = 1 } }\n\t}\n\
\tprerequisites_self = {\n\t\tis_subject = no\n\t}\n\
\twar_goal = take_claim\n\
\tattacker_disabled_po = { po_gold po_trade_power }\n\
}\n";

#[test]
fn parses_cb_type_war_goal_picker_and_prereqs() {
    let files = src_files(&[("00_test.txt", CB_SRC)]);
    let loc = loc_pairs(&[("cb_conquest", "Conquest")]);
    let data = load("cb_types", &files, &loc).unwrap();
    let c = data.objects.iter().find(|o| o.key == "cb_conquest").unwrap();
    assert_eq!(c.name, "Conquest");
    // war_goal links to a wargoal_types entry (picker).
    let wg = c.scalars.iter().find(|s| s.key == "war_goal").unwrap();
    assert!(wg.present && wg.value == "take_claim" && wg.picker == "wargoal_type" && wg.kind == "token");
    // valid_for_subject/is_triggered_only bools.
    assert_eq!(c.scalars.iter().find(|s| s.key == "valid_for_subject").unwrap().value, "no");
    // prerequisites triggers present.
    assert!(c.script_blocks.iter().find(|s| s.name == "prerequisites").unwrap().present);
    assert!(c.script_blocks.iter().find(|s| s.name == "prerequisites_self").unwrap().present);
    // attacker_disabled_po is a bare-token list.
    let dp = c.list_fields.iter().find(|l| l.name == "attacker_disabled_po").unwrap();
    assert_eq!(dp.tokens, vec!["po_gold", "po_trade_power"]);
    // Deep round-trip: retarget the war goal byte-surgically.
    let out = apply(
        CB_SRC.as_bytes(),
        &Edit::SetScalar { path: vec!["cb_conquest".into(), "war_goal".into()], value: "take_province".into(), quoted: false },
    )
    .unwrap();
    let text = String::from_utf8(out).unwrap();
    assert!(text.contains("war_goal = take_province"));
    assert!(text.contains("is_subject = no"), "prerequisites_self untouched");
}

const WG_SRC: &str = "\
take_claim = {\n\
\ttype = take_province\n\
\twar_name = ACQUIRE_WARNAME\n\
\tallowed_provinces = { is_claim = yes }\n\
\trequired_treaty_to_take_provinces = po_establish_eyalet\n\
\tattacker = {\n\
\t\tbadboy_factor = 1\n\
\t\tprestige_factor = 2\n\
\t\tpeace_cost_factor = 0.75\n\
\t\tpeace_options = { po_demand_provinces po_gold }\n\
\t}\n\
\tdefender = {\n\
\t\tbadboy_factor = 1\n\
\t\tpeace_options = { po_demand_provinces }\n\
\t}\n\
}\n";

#[test]
fn parses_wargoal_type_enum_treaty_picker_and_peace_option_blocks() {
    let files = src_files(&[("00_test.txt", WG_SRC)]);
    let loc = loc_pairs(&[]);
    let data = load("wargoal_types", &files, &loc).unwrap();
    let w = data.objects.iter().find(|o| o.key == "take_claim").unwrap();
    // type is an enum.
    let ty = w.scalars.iter().find(|s| s.key == "type").unwrap();
    assert!(ty.present && ty.value == "take_province" && ty.kind == "enum");
    assert!(ty.options.contains(&"take_region".to_string()));
    // required_treaty_to_take_provinces links to a peace treaty (picker).
    let rt = w.scalars.iter().find(|s| s.key == "required_treaty_to_take_provinces").unwrap();
    assert!(rt.present && rt.value == "po_establish_eyalet" && rt.picker == "peace_treaty");
    // allowed_provinces trigger present.
    assert!(w.script_blocks.iter().find(|s| s.name == "allowed_provinces").unwrap().present);
    // attacker/defender carry po_* peace options — non-flat, shown read-only.
    let atk = w.modifier_blocks.iter().find(|m| m.name == "attacker").unwrap();
    assert!(atk.present && !atk.flat, "peace-option block must be non-flat (read-only)");
    // Deep round-trip: enum + trigger edit; peace-option blocks round-trip untouched.
    let out = apply(
        WG_SRC.as_bytes(),
        &Edit::SetScalar { path: vec!["take_claim".into(), "type".into()], value: "take_capital".into(), quoted: false },
    )
    .unwrap();
    let out = apply(
        &out,
        &Edit::SetBlock { path: vec!["take_claim".into(), "allowed_provinces".into()], value: "is_core = yes".into() },
    )
    .unwrap();
    let text = String::from_utf8(out).unwrap();
    assert!(text.contains("type = take_capital"));
    assert!(text.contains("is_core = yes"));
    // The po_* peace options survive verbatim.
    assert!(text.contains("po_demand_provinces po_gold"));
    assert!(text.contains("prestige_factor = 2"));
}

const PT_SRC: &str = "\
po_establish_eyalet = {\n\
\tcategory = 6\n\
\tpower_projection = humiliated_rival\n\
\tpower_cost_base = 1.0\n\
\tprestige_base = 1.0\n\
\tae_base = 0.4\n\
\twarscore_cost = { all_provinces = 0.75 no_provinces = 0.0 }\n\
\twarscore_cap = 60\n\
\trequires_demand_independence = yes\n\
\tis_make_subject = yes\n\
\tis_visible = { always = yes }\n\
\tis_allowed = { religion = catholic }\n\
\teffect = { create_subject = { who = FROM subject_type = eyalet } }\n\
\tai_weight = { export_to_variable = { variable_name = ai_value value = 50 } }\n\
}\n";

#[test]
fn parses_peace_treaty_typed_warscore_cost_and_desc_suffix() {
    let files = src_files(&[("00_test.txt", PT_SRC)]);
    let loc = loc_pairs(&[("po_establish_eyalet", "Establish Eyalet")]);
    let data = load("peace_treaties", &files, &loc).unwrap();
    let p = data.objects.iter().find(|o| o.key == "po_establish_eyalet").unwrap();
    assert_eq!(p.name, "Establish Eyalet");
    // desc uses the <key>_desc pattern.
    assert_eq!(p.desc_key, "po_establish_eyalet_desc");
    assert_eq!(p.scalars.iter().find(|s| s.key == "category").unwrap().value, "6");
    assert_eq!(p.scalars.iter().find(|s| s.key == "warscore_cap").unwrap().value, "60");
    assert_eq!(p.scalars.iter().find(|s| s.key == "is_make_subject").unwrap().value, "yes");
    // warscore_cost is a flat modifier block.
    let wc = p.modifier_blocks.iter().find(|m| m.name == "warscore_cost").unwrap();
    assert!(wc.present && wc.flat && wc.rows.iter().any(|r| r.key == "all_provinces" && r.value == "0.75"));
    // is_visible/is_allowed triggers + effect/ai_weight effects.
    assert!(p.script_blocks.iter().find(|s| s.name == "is_allowed").unwrap().present);
    assert!(p.script_blocks.iter().find(|s| s.name == "ai_weight").unwrap().present);
    // Deep round-trip.
    let out = apply(
        PT_SRC.as_bytes(),
        &Edit::SetScalar { path: vec!["po_establish_eyalet".into(), "warscore_cap".into()], value: "40".into(), quoted: false },
    )
    .unwrap();
    let out = apply(
        &out,
        &Edit::SetBlock { path: vec!["po_establish_eyalet".into(), "warscore_cost".into()], value: "all_provinces = 1.0".into() },
    )
    .unwrap();
    let text = String::from_utf8(out).unwrap();
    assert!(text.contains("warscore_cap = 40"));
    assert!(text.contains("all_provinces = 1.0"));
    assert!(text.contains("subject_type = eyalet"), "effect block untouched");
}

const POLICY_SRC: &str = "\
the_combination_act = {\n\
\tmonarch_power = ADM\n\
\tpotential = { has_idea_group = aristocracy_ideas }\n\
\tallow = { full_idea_group = aristocracy_ideas }\n\
\tproduction_efficiency = 0.20\n\
\tglobal_tax_modifier = 0.1\n\
\teffect = {}\n\
\tremoved_effect = {}\n\
\tai_will_do = { factor = 1 }\n\
}\n";

#[test]
fn parses_policy_monarch_power_and_flat_modifiers() {
    let files = src_files(&[("00_adm.txt", POLICY_SRC)]);
    let loc = loc_pairs(&[("the_combination_act", "The Combination Act")]);
    let data = load("policies", &files, &loc).unwrap();
    let p = data.objects.iter().find(|o| o.key == "the_combination_act").unwrap();
    let mp = p.scalars.iter().find(|s| s.key == "monarch_power").unwrap();
    assert!(mp.present && mp.value == "ADM" && mp.kind == "enum");
    // Flat top-level modifiers are editable rows; the script blocks stay structural.
    assert!(p.self_modifier);
    assert!(p.self_rows.iter().any(|r| r.key == "production_efficiency" && r.value == "0.20"));
    assert!(p.self_rows.iter().any(|r| r.key == "global_tax_modifier"));
    assert!(!p.self_rows.iter().any(|r| r.key == "monarch_power"), "monarch_power is a structural scalar");
    assert!(p.script_blocks.iter().find(|s| s.name == "allow").unwrap().present);
    // Deep round-trip: a per-row modifier edit is byte-surgical.
    let out = apply(
        POLICY_SRC.as_bytes(),
        &Edit::SetScalar { path: vec!["the_combination_act".into(), "production_efficiency".into()], value: "0.25".into(), quoted: false },
    )
    .unwrap();
    let text = String::from_utf8(out).unwrap();
    assert!(text.contains("production_efficiency = 0.25"));
    assert!(text.contains("global_tax_modifier = 0.1"));
}

#[test]
fn parses_power_projection_scalars() {
    const PP_SRC: &str = "\
great_power_1 = { power = 25 }\n\
subsidies_to_enemy_of_rival = { power = 50 max = 50 }\n\
embargoing_rival = { power = 3 max = 10 }\n";
    let files = src_files(&[("00_static.txt", PP_SRC)]);
    let loc = loc_pairs(&[]);
    let data = load("powerprojection", &files, &loc).unwrap();
    let s = data.objects.iter().find(|o| o.key == "subsidies_to_enemy_of_rival").unwrap();
    assert_eq!(s.scalars.iter().find(|x| x.key == "power").unwrap().value, "50");
    assert_eq!(s.scalars.iter().find(|x| x.key == "max").unwrap().value, "50");
    let out = apply(
        PP_SRC.as_bytes(),
        &Edit::SetScalar { path: vec!["embargoing_rival".into(), "power".into()], value: "5".into(), quoted: false },
    )
    .unwrap();
    assert!(String::from_utf8(out).unwrap().contains("power = 5"));
}

const IDEA_SRC: &str = "\
aristocracy_ideas = {\n\
\tcategory = MIL\n\
\tbonus = {\n\t\tleader_siege = 1\n\t}\n\
\ttrigger = {\n\t\thas_government_attribute = enables_aristocratic_idea_group\n\t}\n\
\tnoble_knights = {\n\t\tcavalry_power = 0.15\n\t}\n\
\tserfdom = {\n\t\tglobal_manpower_modifier = 0.15\n\t}\n\
\tai_will_do = {\n\t\tfactor = 3.75\n\t}\n\
}\n\
SWE_ideas = {\n\
\tstart = {\n\t\tland_morale = 0.1\n\t}\n\
\tbonus = {\n\t\tdiscipline = 0.05\n\t}\n\
\tswedish_idea_1 = {\n\t\tglobal_tax_modifier = 0.1\n\t}\n\
}\n";

#[test]
fn idea_groups_only_generic_with_category_and_ordered_ideas() {
    let files = src_files(&[("00_test.txt", IDEA_SRC)]);
    let loc = loc_pairs(&[("aristocracy_ideas", "Aristocratic Ideas")]);
    let data = load("idea_groups", &files, &loc).unwrap();
    // SWE_ideas (no category) is excluded; only the generic group loads.
    assert_eq!(data.objects.len(), 1, "national idea sets (no category) excluded");
    let g = &data.objects[0];
    assert_eq!(g.key, "aristocracy_ideas");
    assert_eq!(g.scalars.iter().find(|s| s.key == "category").unwrap().value, "MIL");
    // bonus is a flat modifier block; start absent here.
    assert!(g.modifier_blocks.iter().find(|m| m.name == "bonus").unwrap().present);
    // The individual ideas are ordered children.
    assert!(g.ordered);
    let ideas: Vec<&str> = g.ordered_children.iter().map(|c| c.key.as_str()).collect();
    assert_eq!(ideas, vec!["noble_knights", "serfdom"]);
    assert_eq!(g.ordered_children[0].rows[0].key, "cavalry_power");
    // trigger + ai_will_do are structural scripts, not children.
    assert!(g.script_blocks.iter().find(|s| s.name == "trigger").unwrap().present);
    // Deep round-trip: an idea modifier + the bonus block edit byte-surgically.
    let out = apply(
        IDEA_SRC.as_bytes(),
        &Edit::SetBlock { path: vec!["aristocracy_ideas".into(), "noble_knights".into()], value: "cavalry_power = 0.25".into() },
    )
    .unwrap();
    let text = String::from_utf8(out).unwrap();
    assert!(text.contains("cavalry_power = 0.25"));
    assert!(text.contains("SWE_ideas"), "national set untouched");
}

const ADVISOR_SRC: &str = "\
philosopher = {\n\
\tmonarch_power = ADM\n\
\tskill_scaled_modifier = {\n\t\ttrigger = { owner = { has_country_flag = x } }\n\t\tmodifier = { idea_cost = -0.01 }\n\t}\n\
\tprestige = 1\n\
\tskill_scaled_modifier = {\n\t\ttrigger = { always = yes }\n\t\tmodifier = { meritocracy = 0.25 }\n\t}\n\
\tai_will_do = { factor = 1 }\n\
}\n";

#[test]
fn advisor_type_monarch_power_flat_rows_and_preserved_skill_blocks() {
    let files = src_files(&[("00_test.txt", ADVISOR_SRC)]);
    let loc = loc_pairs(&[("philosopher", "Philosopher")]);
    let data = load("advisortypes", &files, &loc).unwrap();
    let a = data.objects.iter().find(|o| o.key == "philosopher").unwrap();
    assert_eq!(a.name, "Philosopher");
    let mp = a.scalars.iter().find(|s| s.key == "monarch_power").unwrap();
    assert!(mp.present && mp.value == "ADM" && mp.kind == "enum");
    // prestige is a flat modifier row; skill_scaled_modifier blocks preserved.
    assert!(a.self_rows.iter().any(|r| r.key == "prestige" && r.value == "1"));
    assert!(a.raw_extra.contains(&"skill_scaled_modifier".to_string()));
    assert!(a.script_blocks.iter().find(|s| s.name == "ai_will_do").unwrap().present);
    // Deep round-trip: edit the flat row byte-surgically; skill blocks intact.
    let out = apply(
        ADVISOR_SRC.as_bytes(),
        &Edit::SetScalar { path: vec!["philosopher".into(), "prestige".into()], value: "2".into(), quoted: false },
    )
    .unwrap();
    let text = String::from_utf8(out).unwrap();
    assert!(text.contains("prestige = 2"));
    assert!(text.contains("meritocracy = 0.25"), "skill_scaled_modifier preserved");
}

const RULER_PERS_SRC: &str = "\
just_personality = {\n\
\truler_allow = {\n\t\tallow = { NOT = { ruler_has_personality = cruel_personality } }\n\t\tchance = { modifier = { factor = 1 ADM = 6 } }\n\t}\n\
\their_allow = {\n\t\tchance = { modifier = { factor = 1 heir_ADM = 6 } }\n\t}\n\
\teasy_war_chance_multiplier = 0.5\n\
\tfair_fights = yes\n\
\tglobal_unrest = -2\n\
\tnation_designer_cost = 2\n\
}\n";

#[test]
fn ruler_personality_flat_rows_and_allow_trees() {
    let files = src_files(&[("00_test.txt", RULER_PERS_SRC)]);
    let loc = loc_pairs(&[("just_personality", "Just")]);
    let data = load("ruler_personalities", &files, &loc).unwrap();
    let p = data.objects.iter().find(|o| o.key == "just_personality").unwrap();
    assert!(p.self_modifier);
    assert!(p.self_rows.iter().any(|r| r.key == "fair_fights" && r.value == "yes"));
    assert!(p.self_rows.iter().any(|r| r.key == "global_unrest"));
    // nation_designer_cost is a structural scalar (not a modifier row).
    assert!(!p.self_rows.iter().any(|r| r.key == "nation_designer_cost"));
    assert_eq!(p.scalars.iter().find(|s| s.key == "nation_designer_cost").unwrap().value, "2");
    // ruler_allow / heir_allow are script trees.
    assert!(p.script_blocks.iter().find(|s| s.name == "ruler_allow").unwrap().present);
    assert!(p.script_blocks.iter().find(|s| s.name == "heir_allow").unwrap().present);
    // Deep round-trip: a flat row edit; the allow trees survive.
    let out = apply(
        RULER_PERS_SRC.as_bytes(),
        &Edit::SetScalar { path: vec!["just_personality".into(), "easy_war_chance_multiplier".into()], value: "0.75".into(), quoted: false },
    )
    .unwrap();
    let text = String::from_utf8(out).unwrap();
    assert!(text.contains("easy_war_chance_multiplier = 0.75"));
    assert!(text.contains("ruler_has_personality = cruel_personality"), "allow tree preserved");
}

#[test]
fn modifier_registries_self_modifier_rows_and_triggers() {
    const EVMOD: &str = "the_proper_old_ways = {\n\traze_power_gain = 0.2\n\tland_morale = 0.1\n}\n";
    let files = src_files(&[("00_test.txt", EVMOD)]);
    let loc = loc_pairs(&[]);
    let e = load("event_modifiers", &files, &loc).unwrap();
    let m = e.objects.iter().find(|o| o.key == "the_proper_old_ways").unwrap();
    assert!(m.self_modifier && m.self_rows.iter().any(|r| r.key == "land_morale"));

    const OPMOD: &str = "enemy_of_my_enemy = {\n\topinion = 1\n\tmax = 20\n}\n";
    let files2 = src_files(&[("00_test.txt", OPMOD)]);
    let o = load("opinion_modifiers", &files2, &loc).unwrap();
    let om = o.objects.iter().find(|x| x.key == "enemy_of_my_enemy").unwrap();
    assert!(om.self_rows.iter().any(|r| r.key == "opinion" && r.value == "1"));

    const TRMOD: &str = "east_indian_trade_route = {\n\tpotential = { num_of_ports = 1 }\n\ttrigger = { num_of_ports = 4 }\n\ttrade_efficiency = 0.05\n}\n";
    let files3 = src_files(&[("00_test.txt", TRMOD)]);
    let t = load("triggered_modifiers", &files3, &loc).unwrap();
    let tm = t.objects.iter().find(|x| x.key == "east_indian_trade_route").unwrap();
    assert!(tm.self_rows.iter().any(|r| r.key == "trade_efficiency"));
    assert!(tm.script_blocks.iter().find(|s| s.name == "potential").unwrap().present);
    assert!(tm.script_blocks.iter().find(|s| s.name == "trigger").unwrap().present);
    // Deep round-trip: byte-surgical flat-row edit on the triggered modifier.
    let out = apply(
        TRMOD.as_bytes(),
        &Edit::SetScalar { path: vec!["east_indian_trade_route".into(), "trade_efficiency".into()], value: "0.1".into(), quoted: false },
    )
    .unwrap();
    assert!(String::from_utf8(out).unwrap().contains("trade_efficiency = 0.1"));
}

const AGE_SRC: &str = "\
age_of_absolutism = {\n\
\tstart = 1620\n\
\tcan_start = { is_institution_enabled = global_trade }\n\
\tpapacy = 1.5\n\
\tabsolutism = {\n\t\tharsh_treatment = 1\n\t\tstability = 1\n\t}\n\
\tobjectives = {\n\
\t\tobj_3_trade_companies = {\n\t\t\tnum_of_trade_companies = 3\n\t\t}\n\
\t\tobj_universities = {\n\t\t\tnum_of_owned_provinces_with = { has_building = university value = 5 }\n\t\t}\n\
\t}\n\
\tabilities = {\n\
\t\tab_yearly_absolutism = {\n\t\t\teffect = { on_age_ability_taken = { age = age_of_absolutism } }\n\t\t\tmodifier = { yearly_absolutism = 1 }\n\t\t\tai_will_do = { factor = 5 }\n\t\t}\n\
\t}\n\
}\n";

#[test]
fn age_objectives_and_abilities_modeled_as_sub_entries() {
    let files = src_files(&[("00_test.txt", AGE_SRC)]);
    let loc = loc_pairs(&[("age_of_absolutism", "Age of Absolutism")]);
    let data = load("ages", &files, &loc).unwrap();
    let a = data.objects.iter().find(|o| o.key == "age_of_absolutism").unwrap();
    assert_eq!(a.scalars.iter().find(|s| s.key == "start").unwrap().value, "1620");
    assert_eq!(a.scalars.iter().find(|s| s.key == "papacy").unwrap().value, "1.5");
    // absolutism is a flat modifier block.
    let abs = a.modifier_blocks.iter().find(|m| m.name == "absolutism").unwrap();
    assert!(abs.present && abs.flat && abs.rows.iter().any(|r| r.key == "harsh_treatment"));
    // Two sub-groups: objectives (trigger children) + abilities (typed).
    let objectives = a.sub_groups.iter().find(|g| g.container == "objectives").unwrap();
    assert!(objectives.child_is_trigger);
    let obj_keys: Vec<&str> = objectives.entries.iter().map(|e| e.key.as_str()).collect();
    assert_eq!(obj_keys, vec!["obj_3_trade_companies", "obj_universities"]);
    let abilities = a.sub_groups.iter().find(|g| g.container == "abilities").unwrap();
    assert!(!abilities.child_is_trigger);
    let ab = abilities.entries.iter().find(|e| e.key == "ab_yearly_absolutism").unwrap();
    // The ability carries a flat modifier block + effect / ai_will_do scripts.
    assert!(ab.modifier_blocks.iter().find(|m| m.name == "modifier").unwrap().rows.iter().any(|r| r.key == "yearly_absolutism"));
    assert!(ab.script_blocks.iter().find(|s| s.name == "effect").unwrap().present);
    assert!(ab.script_blocks.iter().find(|s| s.name == "ai_will_do").unwrap().present);
    // objectives/abilities are structural, not raw_extra.
    assert!(!a.raw_extra.contains(&"objectives".to_string()));

    // Deep round-trip: edit an objective (trigger child) + an ability modifier.
    let out = apply(
        AGE_SRC.as_bytes(),
        &Edit::SetBlock {
            path: vec!["age_of_absolutism".into(), "objectives".into(), "obj_3_trade_companies".into()],
            value: "num_of_trade_companies = 5".into(),
        },
    )
    .unwrap();
    let out = apply(
        &out,
        &Edit::SetBlock {
            path: vec!["age_of_absolutism".into(), "abilities".into(), "ab_yearly_absolutism".into(), "modifier".into()],
            value: "yearly_absolutism = 2".into(),
        },
    )
    .unwrap();
    let text = String::from_utf8(out).unwrap();
    assert!(text.contains("num_of_trade_companies = 5"));
    assert!(text.contains("yearly_absolutism = 2"));
    assert!(text.contains("is_institution_enabled = global_trade"), "can_start untouched");
}

#[test]
fn hegemon_state_edict_rank_and_native_shapes() {
    const HEG: &str = "economic_hegemon = {\n\tallow = { is_great_power = yes }\n\tbase = { war_exhaustion = -0.1 }\n\tscale = { global_trade_goods_size_modifier = 0.25 }\n\tmax = { governing_capacity_modifier = 0.2 }\n}\n";
    let files = src_files(&[("00_test.txt", HEG)]);
    let loc = loc_pairs(&[]);
    let h = load("hegemons", &files, &loc).unwrap();
    let he = h.objects.iter().find(|o| o.key == "economic_hegemon").unwrap();
    for m in ["base", "scale", "max"] {
        assert!(he.modifier_blocks.iter().find(|x| x.name == m).unwrap().present, "hegemon {m}");
    }
    assert!(he.script_blocks.iter().find(|s| s.name == "allow").unwrap().present);

    const SE: &str = "edict_protect_trade = {\n\tpotential = { always = yes }\n\tallow = { always = yes }\n\tmodifier = { province_trade_power_modifier = 0.5 }\n\tcolor = { 113 11 43 }\n\tai_will_do = { factor = 10 }\n}\n";
    let files2 = colored(src_files(&[("00_test.txt", SE)]), vec![Some([113, 11, 43])]);
    let s = load("state_edicts", &files2, &loc).unwrap();
    let se = s.objects.iter().find(|o| o.key == "edict_protect_trade").unwrap();
    assert_eq!(se.color, Some([113, 11, 43]));
    assert!(se.modifier_blocks.iter().find(|m| m.name == "modifier").unwrap().present);
    assert!(se.script_blocks.iter().find(|x| x.name == "ai_will_do").unwrap().present);

    const GR: &str = "3 = {\n\tgoverning_capacity = 400\n\tmax_absolutism = 5\n\tdiplomats = 1\n}\n";
    let files3 = src_files(&[("00_test.txt", GR)]);
    let g = load("government_ranks", &files3, &loc).unwrap();
    let gr = g.objects.iter().find(|o| o.key == "3").unwrap();
    assert!(gr.self_rows.iter().any(|r| r.key == "max_absolutism" && r.value == "5"));
    // Byte-surgical per-rank modifier edit (rank keyed by number).
    let out = apply(
        GR.as_bytes(),
        &Edit::SetScalar { path: vec!["3".into(), "max_absolutism".into()], value: "10".into(), quoted: false },
    )
    .unwrap();
    assert!(String::from_utf8(out).unwrap().contains("max_absolutism = 10"));

    const NAT: &str = "natives_american_na = {\n\tgraphical_culture = northamericagfx\n\tcolor = { 0 255 0 }\n\ticon = 1\n\tunit = native_indian_archer\n\tprovinces = { 481 867 868 }\n}\n";
    let files4 = colored(src_files(&[("00_test.txt", NAT)]), vec![Some([0, 255, 0])]);
    let n = load("natives", &files4, &loc).unwrap();
    let na = n.objects.iter().find(|o| o.key == "natives_american_na").unwrap();
    assert_eq!(na.color, Some([0, 255, 0]));
    assert_eq!(na.scalars.iter().find(|s| s.key == "graphical_culture").unwrap().value, "northamericagfx");
    let pl = na.list_fields.iter().find(|l| l.name == "provinces").unwrap();
    assert_eq!(pl.tokens, vec!["481", "867", "868"]);
}

const TRADE_POLICY_SRC: &str = "\
maximize_profit = {\n\
\tpotential = { NOT = { has_country_flag = disabled_x } }\n\
\tcan_select = { FROM = { has_trader = ROOT } }\n\
\ttrade_power = { duration = -1 power_modifier = 0.05 key = maximize_profits }\n\
\tcenter_of_reformation = no\n\
\tbutton_gfx = GFX_Trading_Policy_Max_Profit\n\
\tcooldown = no\n\
}\n";

#[test]
fn parses_trading_policy_trade_power_block_and_button_gfx() {
    let files = src_files(&[("00_test.txt", TRADE_POLICY_SRC)]);
    let loc = loc_pairs(&[("maximize_profit", "Maximize Profit")]);
    let data = load("trading_policies", &files, &loc).unwrap();
    let p = data.objects.iter().find(|o| o.key == "maximize_profit").unwrap();
    assert_eq!(p.name, "Maximize Profit");
    // button_gfx is a bare GFX token; center_of_reformation/cooldown bools.
    let bg = p.scalars.iter().find(|s| s.key == "button_gfx").unwrap();
    assert!(bg.present && bg.value == "GFX_Trading_Policy_Max_Profit" && bg.kind == "token");
    assert_eq!(p.scalars.iter().find(|s| s.key == "cooldown").unwrap().value, "no");
    // trade_power is a flat named block (duration/power_modifier/key rows).
    let tp = p.modifier_blocks.iter().find(|m| m.name == "trade_power").unwrap();
    assert!(tp.present && tp.flat && tp.rows.iter().any(|r| r.key == "power_modifier" && r.value == "0.05"));
    // triggers present.
    assert!(p.script_blocks.iter().find(|s| s.name == "can_select").unwrap().present);
    // Deep round-trip: retarget the button + trade_power block byte-surgically.
    let out = apply(
        TRADE_POLICY_SRC.as_bytes(),
        &Edit::SetScalar { path: vec!["maximize_profit".into(), "button_gfx".into()], value: "GFX_new".into(), quoted: false },
    )
    .unwrap();
    let out = apply(
        &out,
        &Edit::SetBlock { path: vec!["maximize_profit".into(), "trade_power".into()], value: "duration = -1 power_modifier = 0.1 key = maximize_profits".into() },
    )
    .unwrap();
    let text = String::from_utf8(out).unwrap();
    assert!(text.contains("button_gfx = GFX_new"));
    assert!(text.contains("power_modifier = 0.1"));
    assert!(text.contains("has_trader = ROOT"), "can_select untouched");
}

const TCI_SRC: &str = "\
local_quarter = {\n\
\tcategory = company_garrison\n\
\tsprite = \"GFX_investment_local_quarter\"\n\
\tupgrades_to = permanent_quarters\n\
\tcost = 200.0\n\
\tcompany_province_area_modifier = { local_defensiveness = 0.15 supply_limit_modifier = 0.25 }\n\
\tai_global_worth = { factor = 0 }\n\
\tai_area_worth = { factor = 1 }\n\
\tai_region_worth = { factor = 0 }\n\
}\n";

#[test]
fn parses_trade_company_investment_category_sprite_cost_and_area_modifier() {
    let files = src_files(&[("00_test.txt", TCI_SRC)]);
    let loc = loc_pairs(&[("local_quarter", "Local Quarter")]);
    let data = load("tradecompany_investments", &files, &loc).unwrap();
    let i = data.objects.iter().find(|o| o.key == "local_quarter").unwrap();
    assert_eq!(i.scalars.iter().find(|s| s.key == "category").unwrap().value, "company_garrison");
    assert_eq!(i.scalars.iter().find(|s| s.key == "cost").unwrap().value, "200.0");
    assert_eq!(i.scalars.iter().find(|s| s.key == "upgrades_to").unwrap().value, "permanent_quarters");
    // sprite is a quoted named reference (parser strips quotes).
    let sp = i.scalars.iter().find(|s| s.key == "sprite").unwrap();
    assert!(sp.present && sp.value == "GFX_investment_local_quarter" && sp.kind == "str");
    // area modifier flat block.
    let m = i.modifier_blocks.iter().find(|m| m.name == "company_province_area_modifier").unwrap();
    assert!(m.present && m.flat && m.rows.iter().any(|r| r.key == "local_defensiveness"));
    // ai_*_worth weight blocks are scripts.
    assert!(i.script_blocks.iter().find(|s| s.name == "ai_area_worth").unwrap().present);
    // Deep round-trip: rewrite the area modifier + cost.
    let out = apply(
        TCI_SRC.as_bytes(),
        &Edit::SetScalar { path: vec!["local_quarter".into(), "cost".into()], value: "300.0".into(), quoted: false },
    )
    .unwrap();
    let out = apply(
        &out,
        &Edit::SetBlock { path: vec!["local_quarter".into(), "company_province_area_modifier".into()], value: "local_defensiveness = 0.3".into() },
    )
    .unwrap();
    let text = String::from_utf8(out).unwrap();
    assert!(text.contains("cost = 300.0"));
    assert!(text.contains("local_defensiveness = 0.3"));
    assert!(text.contains("upgrades_to = permanent_quarters"));
}

const COT_SRC: &str = "\
entrepot = {\n\
\tlevel = 2\n\
\tdevelopment = 10\n\
\tcost = 200\n\
\ttype = coastal\n\
\tprovince_modifiers = { province_trade_power_value = 10 local_development_cost = -0.05 }\n\
\tstate_modifiers = { local_development_cost = -0.1 }\n\
}\n";

#[test]
fn parses_center_of_trade_tier_and_type_enum() {
    let files = src_files(&[("00_test.txt", COT_SRC)]);
    let loc = loc_pairs(&[("entrepot", "Entrepot")]);
    let data = load("centers_of_trade", &files, &loc).unwrap();
    let c = data.objects.iter().find(|o| o.key == "entrepot").unwrap();
    assert_eq!(c.scalars.iter().find(|s| s.key == "level").unwrap().value, "2");
    assert_eq!(c.scalars.iter().find(|s| s.key == "cost").unwrap().value, "200");
    let ty = c.scalars.iter().find(|s| s.key == "type").unwrap();
    assert!(ty.present && ty.value == "coastal" && ty.kind == "enum" && ty.options.contains(&"inland".to_string()));
    let pm = c.modifier_blocks.iter().find(|m| m.name == "province_modifiers").unwrap();
    assert!(pm.present && pm.rows.iter().any(|r| r.key == "province_trade_power_value" && r.value == "10"));
    // Deep round-trip: bump the tier + rewrite province modifiers.
    let out = apply(
        COT_SRC.as_bytes(),
        &Edit::SetScalar { path: vec!["entrepot".into(), "level".into()], value: "3".into(), quoted: false },
    )
    .unwrap();
    let out = apply(
        &out,
        &Edit::SetBlock { path: vec!["entrepot".into(), "province_modifiers".into()], value: "province_trade_power_value = 25".into() },
    )
    .unwrap();
    let text = String::from_utf8(out).unwrap();
    assert!(text.contains("level = 3"));
    assert!(text.contains("province_trade_power_value = 25"));
    assert!(text.contains("local_development_cost = -0.1"), "state_modifiers untouched");
}

#[test]
fn naval_doctrine_professionalism_and_flagship_shapes() {
    let loc = loc_pairs(&[]);

    const ND: &str = "fleet_in_being = {\n\tcan_select = { is_primitive = no }\n\tcost = 0.1\n\tcountry_modifier = { naval_maintenance_modifier = -0.15 }\n\teffect = {}\n\tremoved_effect = {}\n\tbutton_gfx = 1\n}\n";
    let files = src_files(&[("00_test.txt", ND)]);
    let d = load("naval_doctrines", &files, &loc).unwrap();
    let nd = d.objects.iter().find(|o| o.key == "fleet_in_being").unwrap();
    assert_eq!(nd.scalars.iter().find(|s| s.key == "cost").unwrap().value, "0.1");
    assert_eq!(nd.scalars.iter().find(|s| s.key == "button_gfx").unwrap().value, "1");
    assert!(nd.modifier_blocks.iter().find(|m| m.name == "country_modifier").unwrap().present);
    assert!(nd.script_blocks.iter().find(|s| s.name == "can_select").unwrap().present);
    let out = apply(
        ND.as_bytes(),
        &Edit::SetBlock { path: vec!["fleet_in_being".into(), "country_modifier".into()], value: "naval_maintenance_modifier = -0.2".into() },
    )
    .unwrap();
    assert!(String::from_utf8(out).unwrap().contains("naval_maintenance_modifier = -0.2"));

    const PROF: &str = "supply_depot_modifier = {\n\tarmy_professionalism = 0.2\n\tmarker_sprite = GFX_pa_rank_1\n\tunit_sprite_start = \"GFX_ap2_\"\n\ttrigger = { always = yes }\n\tmay_build_supply_depot = yes\n\tdrill_gain_modifier = 0.1\n}\n";
    let files2 = src_files(&[("00_test.txt", PROF)]);
    let p = load("professionalism", &files2, &loc).unwrap();
    let pr = p.objects.iter().find(|o| o.key == "supply_depot_modifier").unwrap();
    // The threshold + sprite refs are structural scalars, not modifier rows.
    assert_eq!(pr.scalars.iter().find(|s| s.key == "army_professionalism").unwrap().value, "0.2");
    assert_eq!(pr.scalars.iter().find(|s| s.key == "marker_sprite").unwrap().value, "GFX_pa_rank_1");
    assert!(pr.self_modifier);
    assert!(pr.self_rows.iter().any(|r| r.key == "may_build_supply_depot" && r.value == "yes"));
    assert!(pr.self_rows.iter().any(|r| r.key == "drill_gain_modifier"));
    assert!(!pr.self_rows.iter().any(|r| r.key == "army_professionalism"), "threshold is structural");
    assert!(pr.script_blocks.iter().find(|s| s.name == "trigger").unwrap().present);
    let out = apply(
        PROF.as_bytes(),
        &Edit::SetScalar { path: vec!["supply_depot_modifier".into(), "drill_gain_modifier".into()], value: "0.2".into(), quoted: false },
    )
    .unwrap();
    assert!(String::from_utf8(out).unwrap().contains("drill_gain_modifier = 0.2"));

    const FLAG: &str = "mass_load_cannons = {\n\ttrigger = { normal_or_historical_nations = no }\n\tmodifier = { number_of_cannons_flagship_modifier = 0.50 naval_maintenance_flagship_modifier = 0.5 }\n\tai_trade_score = { factor = 0 }\n\tai_war_score = { factor = 1 }\n}\n";
    let files3 = src_files(&[("00_test.txt", FLAG)]);
    let f = load("flagship_modifications", &files3, &loc).unwrap();
    let fl = f.objects.iter().find(|o| o.key == "mass_load_cannons").unwrap();
    let m = fl.modifier_blocks.iter().find(|m| m.name == "modifier").unwrap();
    assert!(m.present && m.rows.iter().any(|r| r.key == "number_of_cannons_flagship_modifier"));
    assert!(fl.script_blocks.iter().find(|s| s.name == "trigger").unwrap().present);
    assert!(fl.script_blocks.iter().find(|s| s.name == "ai_war_score").unwrap().present);
    let out = apply(
        FLAG.as_bytes(),
        &Edit::SetBlock { path: vec!["mass_load_cannons".into(), "modifier".into()], value: "flagship_morale = 1".into() },
    )
    .unwrap();
    assert!(String::from_utf8(out).unwrap().contains("flagship_morale = 1"));
}

const CUSTOM_IDEA_SRC: &str = "\
adm_idea_modifiers = {\n\
\tcategory = ADM\n\
\tcustom_idea_global_tax_modifier = {\n\t\tglobal_tax_modifier = 0.05\n\t\tlevel_cost_2 = 3\n\t\tdefault = 2\n\t\tchance = { factor = 1 }\n\t}\n\
\tcustom_idea_production_efficiency = {\n\t\tproduction_efficiency = 0.05\n\t\tdefault = 8\n\t\tchance = { factor = 1 }\n\t}\n\
}\n";

#[test]
fn parses_custom_idea_category_and_ordered_children() {
    let files = src_files(&[("00_test.txt", CUSTOM_IDEA_SRC)]);
    let loc = loc_pairs(&[]);
    let data = load("custom_ideas", &files, &loc).unwrap();
    let c = data.objects.iter().find(|o| o.key == "adm_idea_modifiers").unwrap();
    let cat = c.scalars.iter().find(|s| s.key == "category").unwrap();
    assert!(cat.present && cat.value == "ADM" && cat.kind == "enum");
    // The per-idea children are ordered children (category is structural).
    assert!(c.ordered);
    let ideas: Vec<&str> = c.ordered_children.iter().map(|x| x.key.as_str()).collect();
    assert_eq!(ideas, vec!["custom_idea_global_tax_modifier", "custom_idea_production_efficiency"]);
    // The modifier + level_cost rows are captured; the chance weight is non-flat.
    let first = &c.ordered_children[0];
    assert!(first.rows.iter().any(|r| r.key == "global_tax_modifier"));
    assert!(first.rows.iter().any(|r| r.key == "level_cost_2"));
    assert!(!first.flat, "child carries a chance weight → non-flat");
    // Deep round-trip: edit an idea's modifier byte-surgically.
    let out = apply(
        CUSTOM_IDEA_SRC.as_bytes(),
        &Edit::SetScalar { path: vec!["adm_idea_modifiers".into(), "custom_idea_global_tax_modifier".into(), "global_tax_modifier".into()], value: "0.1".into(), quoted: false },
    )
    .unwrap();
    let text = String::from_utf8(out).unwrap();
    assert!(text.contains("global_tax_modifier = 0.1"));
    assert!(text.contains("production_efficiency = 0.05"), "sibling idea untouched");
}

#[test]
fn parses_ai_personality_and_insult() {
    let loc = loc_pairs(&[]);

    const AIP: &str = "ai_capitalist = {\n\tchance = { factor = 100 modifier = { factor = 1.5 adm = 4 } }\n\ticon = 3\n}\n";
    let files = src_files(&[("00_test.txt", AIP)]);
    let d = load("ai_personalities", &files, &loc).unwrap();
    let a = d.objects.iter().find(|o| o.key == "ai_capitalist").unwrap();
    assert_eq!(a.scalars.iter().find(|s| s.key == "icon").unwrap().value, "3");
    assert!(a.script_blocks.iter().find(|s| s.name == "chance").unwrap().present);
    // The chance weight round-trips on a byte-surgical icon edit.
    let out = apply(
        AIP.as_bytes(),
        &Edit::SetScalar { path: vec!["ai_capitalist".into(), "icon".into()], value: "5".into(), quoted: false },
    )
    .unwrap();
    let text = String::from_utf8(out).unwrap();
    assert!(text.contains("icon = 5"));
    assert!(text.contains("adm = 4"), "chance weight preserved");

    const INS: &str = "insult_default2 = {\n\ttrigger = { FROM = { religion_group = christian } }\n}\n";
    let files2 = src_files(&[("00_test.txt", INS)]);
    let i = load("insults", &files2, &loc).unwrap();
    let ins = i.objects.iter().find(|o| o.key == "insult_default2").unwrap();
    assert!(ins.script_blocks.iter().find(|s| s.name == "trigger").unwrap().present);
    let out = apply(
        INS.as_bytes(),
        &Edit::SetBlock { path: vec!["insult_default2".into(), "trigger".into()], value: "always = yes".into() },
    )
    .unwrap();
    assert!(String::from_utf8(out).unwrap().contains("always = yes"));
}

#[test]
fn count_word_counts_whole_words_only() {
    assert_eq!(count_word("a foo foo_bar barfoo foo", "foo"), 2);
    assert_eq!(count_word("foo", "foo"), 1);
    assert_eq!(count_word("foo.1 (foo)", "foo"), 2);
    assert_eq!(count_word("anything", ""), 0);
    assert_eq!(count_word("", "foo"), 0);
}

#[test]
fn event_reference_none_when_absent() {
    assert!(event_reference("x.txt", "mod", b"namespace = other", "court").is_none());
    let r = event_reference("x.txt", "mod", b"court court", "court").unwrap();
    assert_eq!(r.count, 2);
    assert_eq!(r.origin, "mod");
}

#[test]
fn event_refs_sorted_by_file_stably() {
    let a = event_reference("b.txt", "base", b"k", "k").unwrap();
    let b = event_reference("a.txt", "base", b"k k", "k").unwrap();
    let c = event_reference("a.txt", "mod", b"k", "k").unwrap();
    let refs = sort_event_refs(vec![a, b, c]);
    let files: Vec<(&str, &str)> = refs.iter().map(|r| (r.file.as_str(), r.origin.as_str())).collect();
    assert_eq!(files, vec![("events/a.txt", "base"), ("events/a.txt", "mod"), ("events/b.txt", "base")]);
}

#[test]
fn unknown_family_is_an_error() {
    assert_eq!(scaffold("no_such", "k", None).unwrap_err(), "Unknown mechanics family: no_such");
    assert_eq!(get_mechanic_family("nope".to_string()).unwrap_err(), "Unknown mechanics family: nope");
    assert!(load("nope", &Vec::new(), &[]).is_err());
}

#[test]
fn disaster_scaffold_text_and_loc_entries() {
    let sc = scaffold("disasters", "my_disaster", None).unwrap();
    assert_eq!(sc.file, "common/disasters/zz_eutoolkit_disasters.txt");
    assert!(sc.text.starts_with("my_disaster = {\n\tpotential = {"));
    assert!(sc.text.contains("\ton_start = my_disaster.1\n\ton_end = my_disaster.2\n"));
    assert_eq!(sc.loc_entries[0].key, "my_disaster");
    assert_eq!(sc.loc_entries[0].value, "My Disaster");
    assert_eq!(sc.loc_entries[1].key, "desc_my_disaster");
    assert_eq!(sc.loc_entries[1].value, "My Disaster.");
    assert!(sc.gfx_file.is_none() && sc.gfx_text.is_none() && sc.group.is_none());
}

#[test]
fn non_txt_files_are_skipped_and_case_ignored() {
    let files = src_files(&[("00_a.TXT", "a = { potential = {} }\n"), ("readme.md", "b = { }\n")]);
    let data = load("disasters", &files, &[]).unwrap();
    assert_eq!(data.objects.len(), 1);
    assert_eq!(data.objects[0].key, "a");
    assert_eq!(data.objects[0].file, "common/disasters/00_a.TXT");
    assert_eq!(data.objects[0].name, "a");
}

#[test]
fn repeated_key_gets_occurrence_edit_key() {
    let files = src_files(&[("00.txt", "a = { }\nb = { }\na = { modifier = { x = 1 } }\n")]);
    let data = load("disasters", &files, &[]).unwrap();
    let keys: Vec<&str> = data.objects.iter().map(|o| o.edit_key.as_str()).collect();
    assert_eq!(keys, vec!["a", "b", "a#1"]);
}
