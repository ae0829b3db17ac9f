use eu_toolkit::missions::{collect_file, creates_cycle, series_edges, MissionSeries};
use eu_toolkit::mod_writer::{apply, Edit};
use eu_toolkit::paradox::parse;
use eu_toolkit::script_tree::build_script_block;

const SAMPLE: &[u8] = br#"russia_missions = {
	slot = 1
	generic = no
	ai = yes
	potential = {
		OR = {
			tag = MOS
			tag = RUS
		}
	}
	has_country_shield = yes
	invade_novgorod_mission = {
		icon = mission_build_up_to_force_limit
		required_missions = {  } #None
		completed_by = 1478.1.15
		provinces_to_highlight = {
			owned_by = NOV
		}
		trigger = {
			owns_core_province = 310
		}
		effect = {
			add_permanent_claim = ROOT
		}
	}
	subjugate_novgorod = {
		icon = mission_have_two_subjects
		required_missions = { invade_novgorod_mission }
		trigger = {
			owns = 310
		}
		effect = {
			add_prestige = 10
		}
	}
	partition_poland = {
		icon = mission_assemble_an_army
		required_missions = { subjugate_novgorod }
		position = 5
		effect = {
			add_treasury = 100
		}
	}
}
"#;

fn from_pairs(pairs: &[(&str, &str)]) -> Vec<(String, String)> {
    pairs.iter().map(|(k, v)| (k.to_string(), v.to_string())).collect()
}

fn edge<'a>(edges: &'a [(String, Vec<String>)], key: &str) -> &'a Vec<String> {
    &edges.iter().rev().find(|(k, _)| k == key).unwrap().1
}

fn parse_sample() -> Vec<MissionSeries> {
    let block = parse(&String::from_utf8_lossy(SAMPLE));
    let loc = from_pairs(&[
        ("invade_novgorod_mission_title", "Invade Novgorod"),
        ("invade_novgorod_mission_desc", "Prepare an invasion."),
    ]);
    let mut out = Vec::new();
    collect_file(&block, "missions/Sample.txt", "base", &loc, &mut out);
    out
}

#[test]
fn collects_series_flags_missions_positions_and_loc() {
    let out = parse_sample();
    assert_eq!(out.len(), 1);
    let s = &out[0];
    assert_eq!(s.key, "russia_missions");
    assert_eq!(s.slot, Some(1));
    assert!(!s.generic && s.ai && s.has_country_shield && s.has_potential);
    assert_eq!(s.path, vec!["russia_missions"]);
    assert_eq!(s.potential_path, vec!["russia_missions", "potential"]);
    assert_eq!(s.missions.len(), 3);

    let m0 = &s.missions[0];
    assert_eq!(m0.key, "invade_novgorod_mission");
    assert_eq!(m0.icon.as_deref(), Some("mission_build_up_to_force_limit"));
    assert_eq!(m0.title, "Invade Novgorod");
    assert_eq!(m0.title_key, "invade_novgorod_mission_title");
    assert_eq!(m0.desc_key, "invade_novgorod_mission_desc");
    assert_eq!(m0.completed_by.as_deref(), Some("1478.1.15"));
    // Empty required block: no requirements, but the block IS present.
    assert!(m0.required_missions.is_empty());
    assert!(m0.has_required_block);
    assert!(m0.has_trigger && m0.has_effect && m0.has_provinces);
    // No explicit position ⇒ ordinal 1 ⇒ effective 1.
    assert_eq!(m0.position, None);
    assert_eq!(m0.ordinal, 1);
    assert_eq!(m0.effective_position, 1);
    assert_eq!(m0.path, vec!["russia_missions", "invade_novgorod_mission"]);

    let m1 = &s.missions[1];
    assert_eq!(m1.required_missions, vec!["invade_novgorod_mission"]);
    assert_eq!(m1.ordinal, 2);
    assert_eq!(m1.effective_position, 2);
    // No title loc → prettified key.
    assert_eq!(m1.title, "Subjugate Novgorod");

    // Explicit position wins over ordinal.
    let m2 = &s.missions[2];
    assert_eq!(m2.position, Some(5));
    assert_eq!(m2.ordinal, 3);
    assert_eq!(m2.effective_position, 5);
    assert_eq!(m2.required_missions, vec!["subjugate_novgorod"]);
}

#[test]
fn mission_paths_feed_the_spans_api() {
    let s = &parse_sample()[0];
    let m0 = &s.missions[0];
    let trig = build_script_block(SAMPLE, &m0.trigger_path).unwrap();
    assert!(trig.nodes.iter().any(|n| n.key.as_deref() == Some("owns_core_province")));
    let eff = build_script_block(SAMPLE, &m0.effect_path).unwrap();
    assert!(eff.nodes.iter().any(|n| n.key.as_deref() == Some("add_permanent_claim")));
    let prov = build_script_block(SAMPLE, &m0.provinces_path).unwrap();
    assert!(prov.nodes.iter().any(|n| n.key.as_deref() == Some("owned_by")));
    // The potential block resolves too.
    let pot = build_script_block(SAMPLE, &s.potential_path).unwrap();
    assert!(pot.nodes.iter().any(|n| n.group_kind == "or" || n.key.is_some()));
}

#[test]
fn move_node_position_edit_is_byte_surgical() {
    // partition_poland has position = 5; changing it to 7 splices ONLY that
    // scalar — every other byte (siblings, trigger, effect) round-trips.
    let out = apply(
        SAMPLE,
        &Edit::SetScalar {
            path: vec!["russia_missions".into(), "partition_poland".into(), "position".into()],
            value: "7".into(),
            quoted: false,
        },
    )
    .unwrap();
    let marker = b"position = 5";
    let mpos = SAMPLE.windows(marker.len()).position(|w| w == marker).unwrap();
    let vstart = mpos + b"position = ".len();
    let vend = vstart + b"5".len();
    assert_eq!(&SAMPLE[..vstart], &out[..vstart], "prefix byte-identical");
    assert_eq!(&out[vstart..vstart + 1], b"7", "value changed to 7");
    assert_eq!(&SAMPLE[vend..], &out[vstart + 1..], "suffix byte-identical");
}

#[test]
fn add_position_when_absent_is_insert() {
    // A mission with no position gets one via InsertStatement into its block.
    let out = apply(
        SAMPLE,
        &Edit::InsertStatement {
            block_path: vec!["russia_missions".into(), "invade_novgorod_mission".into()],
            statement: "position = 2".into(),
        },
    )
    .unwrap();
    let text = String::from_utf8_lossy(&out);
    assert!(text.contains("position = 2"));
    // partition_poland's explicit position is untouched.
    assert!(text.contains("position = 5"));
}

#[test]
fn required_missions_graph_matches_links() {
    // The requirement arrows the board draws come straight from
    // required_missions: partition←subjugate←invade is a linear chain.
    let s = &parse_sample()[0];
    let edges = series_edges(s);
    assert_eq!(edge(&edges, "invade_novgorod_mission"), &Vec::<String>::new());
    assert_eq!(edge(&edges, "subjugate_novgorod"), &vec!["invade_novgorod_mission"]);
    assert_eq!(edge(&edges, "partition_poland"), &vec!["subjugate_novgorod"]);
}

#[test]
fn link_edit_cycle_rejection() {
    // Chain invade → subjugate → partition. Adding "invade requires partition"
    // closes the loop and must be rejected; a fresh forward link is fine.
    let s = &parse_sample()[0];
    let edges = series_edges(s);
    // partition already transitively requires invade, so invade⇒partition cycles.
    assert!(creates_cycle(&edges, "invade_novgorod_mission", "partition_poland"));
    // Self-links always cycle.
    assert!(creates_cycle(&edges, "subjugate_novgorod", "subjugate_novgorod"));
    // subjugate already requires invade, so "invade requires subjugate" cycles too.
    assert!(creates_cycle(&edges, "invade_novgorod_mission", "subjugate_novgorod"));
    // "partition requires invade" is a redundant forward link, NOT a cycle.
    assert!(!creates_cycle(&edges, "partition_poland", "invade_novgorod_mission"));
    // A brand-new mission (not yet in the graph) requiring an existing one is acyclic.
    assert!(!creates_cycle(&edges, "brand_new_mission", "invade_novgorod_mission"));
}

#[test]
fn link_add_and_unlink_round_trip() {
    // Linking = AddId into required_missions; unlinking = RemoveId. Add
    // invade→partition's list then remove it: the file returns byte-identical.
    let list_path = vec![
        "russia_missions".to_string(),
        "invade_novgorod_mission".to_string(),
        "required_missions".to_string(),
    ];
    let added = apply(
        SAMPLE,
        &Edit::AddId { list_path: list_path.clone(), id: "subjugate_novgorod".into() },
    )
    .unwrap();
    // Re-parse: invade now requires subjugate.
    let block = parse(&String::from_utf8_lossy(&added));
    let loc = from_pairs(&[]);
    let mut parsed = Vec::new();
    collect_file(&block, "missions/Sample.txt", "base", &loc, &mut parsed);
    let invade = parsed[0].missions.iter().find(|m| m.key == "invade_novgorod_mission").unwrap();
    assert_eq!(invade.required_missions, vec!["subjugate_novgorod"]);

    let removed = apply(
        &added,
        &Edit::RemoveId { list_path, id: "subjugate_novgorod".into() },
    )
    .unwrap();
    // Re-parse: the link is gone again.
    let block2 = parse(&String::from_utf8_lossy(&removed));
    let mut parsed2 = Vec::new();
    collect_file(&block2, "missions/Sample.txt", "base", &loc, &mut parsed2);
    let invade2 = parsed2[0].missions.iter().find(|m| m.key == "invade_novgorod_mission").unwrap();
    assert!(invade2.required_missions.is_empty(), "link removed");
}

#[test]
fn scaffold_series_parses_back() {
    // The exact shape "+ New series" writes into
    // missions/zz_eutoolkit_missions.txt: a series wrapper (slot/generic/ai/
    // potential) around one starter mission. It must parse back as one series
    // with one mission whose blocks reach through the spans API.
    let scaffold = b"my_new_missions = {\n\tslot = 1\n\tgeneric = no\n\tai = yes\n\thas_country_shield = yes\n\tpotential = {\n\t\ttag = FRA\n\t}\n\tmy_first_mission = {\n\t\ticon = mission_locked_treasure_chest\n\t\tposition = 1\n\t\trequired_missions = { }\n\t\ttrigger = {\n\t\t}\n\t\teffect = {\n\t\t}\n\t}\n}\n";
    let block = parse(&String::from_utf8_lossy(scaffold));
    let loc = from_pairs(&[]);
    let mut out = Vec::new();
    collect_file(&block, "missions/zz_eutoolkit_missions.txt", "mod", &loc, &mut out);
    assert_eq!(out.len(), 1);
    let s = &out[0];
    assert_eq!(s.key, "my_new_missions");
    assert_eq!(s.slot, Some(1));
    assert!(s.has_potential);
    assert_eq!(s.missions.len(), 1);
    let m = &s.missions[0];
    assert_eq!(m.key, "my_first_mission");
    assert_eq!(m.position, Some(1));
    assert!(m.has_trigger && m.has_effect && m.has_required_block);
    assert!(build_script_block(scaffold, &m.trigger_path).is_ok());
    assert!(build_script_block(scaffold, &s.potential_path).is_ok());
}


#[test]
fn cycle_check_follows_long_chains_and_ignores_other_series() {
    let e = |k: &str, v: &[&str]| (k.to_string(), v.iter().map(|s| s.to_string()).collect::<Vec<_>>());
    // a requires b requires c requires d; x is unrelated; a later entry for d wins.
    let edges = vec![e("a", &["b"]), e("b", &["c"]), e("c", &["d"]), e("d", &["x"]), e("d", &[]), e("x", &["y"])];
    assert!(creates_cycle(&edges, "d", "a"));
    assert!(creates_cycle(&edges, "c", "a"));
    assert!(!creates_cycle(&edges, "a", "d"));
    // d's last entry has no requirements, so x is not reached from a.
    assert!(!creates_cycle(&edges, "x", "a"));
    assert!(creates_cycle(&edges, "y", "x"));
    // A cycle already in the graph does not loop the search.
    let cyclic = vec![e("p", &["q"]), e("q", &["p"])];
    assert!(creates_cycle(&cyclic, "p", "q"));
    assert!(!creates_cycle(&cyclic, "z", "q"));
}

#[test]
fn repeated_mission_keys_are_occurrence_qualified() {
    let text = "s = {\n\tpotential_on_load = { x = 1 }\n\tm = { }\n\tm = { position = +7 }\n}\ns = { slot = 9000000000 }\n";
    let block = parse(text);
    let mut out = Vec::new();
    collect_file(&block, "missions/x.txt", "mod", &[], &mut out);
    assert_eq!(out.len(), 2);
    assert_eq!(out[1].path, vec!["s#1"]);
    assert_eq!(out[1].slot, None);
    assert!(!out[0].has_potential);
    let ms = &out[0].missions;
    assert_eq!(ms.len(), 2);
    assert_eq!(ms[0].path, vec!["s", "m"]);
    assert_eq!(ms[1].path, vec!["s", "m#1"]);
    assert_eq!(ms[1].position, Some(7));
    assert_eq!(ms[1].ordinal, 2);
    assert_eq!(ms[0].title, "M");
    assert_eq!(ms[1].title_loc, None);
}
