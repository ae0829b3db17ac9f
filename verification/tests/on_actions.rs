use eu_toolkit::mod_writer::{apply, Edit};
use eu_toolkit::on_actions::{collect_file, scaffold_on_action, scan_on_action_refs, OnActionHook, PROJECT_FILE};
use eu_toolkit::paradox::parse;
use eu_toolkit::script_tree::build_script_block;

const SAMPLE: &[u8] = br#"# country
on_startup = {
	save_global_event_target_as = Emperor
	events = {
		muslim_school_events.20 #Pick School
		flavor_mng.42
	}
	some_scripted_effect = yes
}

on_battle_won_by_country = {
	random_events = {
		90 = 0
		10 = friendship_events.1
	}
}

on_startup = {
	events = { extra.1 }
}
"#;

fn parse_sample() -> Vec<OnActionHook> {
    let block = parse(&String::from_utf8_lossy(SAMPLE));
    let mut out = Vec::new();
    collect_file(&block, "common/on_actions/00.txt", "base", &mut out);
    out
}

#[test]
fn collects_hooks_events_and_random_events() {
    let hooks = parse_sample();
    assert_eq!(hooks.len(), 3);

    let startup = &hooks[0];
    assert_eq!(startup.hook, "on_startup");
    assert_eq!(startup.path, vec!["on_startup"]);
    assert!(startup.has_events);
    assert_eq!(startup.events, vec!["muslim_school_events.20", "flavor_mng.42"]);
    // `save_global_event_target_as` + `some_scripted_effect` = 2 remaining stmts.
    assert_eq!(startup.effect_count, 2);
    assert_eq!(startup.events_path, vec!["on_startup", "events"]);

    let battle = &hooks[1];
    assert_eq!(battle.hook, "on_battle_won_by_country");
    assert!(battle.has_random_events);
    assert_eq!(battle.random_events.len(), 2);
    assert_eq!(battle.random_events[0].weight, "90");
    assert_eq!(battle.random_events[0].id, "0");
    assert_eq!(battle.random_events[1].id, "friendship_events.1");

    // The second on_startup is occurrence-qualified.
    let startup2 = &hooks[2];
    assert_eq!(startup2.path, vec!["on_startup#1"]);
    assert_eq!(startup2.events, vec!["extra.1"]);
}

#[test]
fn hook_body_and_lists_resolve_through_spans_api() {
    let hooks = parse_sample();
    let startup = &hooks[0];
    // The hook body parses through the tree editor's spans API.
    let body = build_script_block(SAMPLE, &startup.path).unwrap();
    assert!(body.nodes.iter().any(|n| n.key.as_deref() == Some("events")));
    // The events list is an id-list AddId/RemoveId target.
    let added = apply(
        SAMPLE,
        &Edit::AddId {
            list_path: startup.events_path.clone(),
            id: "new_event.5".into(),
        },
    )
    .unwrap();
    assert!(String::from_utf8_lossy(&added).contains("new_event.5"));
    // The second on_startup#1 events list resolves independently.
    let b2 = build_script_block(SAMPLE, &hooks[2].path).unwrap();
    assert!(b2.nodes.iter().any(|n| n.key.as_deref() == Some("events")));
}

#[test]
fn add_remove_event_round_trip() {
    let hooks = parse_sample();
    let ep = hooks[0].events_path.clone();
    let added = apply(SAMPLE, &Edit::AddId { list_path: ep.clone(), id: "zz.1".into() }).unwrap();
    let removed = apply(&added, &Edit::RemoveId { list_path: ep, id: "zz.1".into() }).unwrap();
    assert_eq!(removed, SAMPLE, "add then remove returns byte-identical");
}

#[test]
fn scan_refs_finds_firing_hooks() {
    let hooks = parse_sample();
    let refs = scan_on_action_refs(&hooks, "flavor_mng.42");
    assert_eq!(refs.len(), 1);
    assert_eq!(refs[0].hook, "on_startup");
    assert_eq!(refs[0].via, "events");
    assert_eq!(refs[0].file, "common/on_actions/00.txt");
    assert_eq!(refs[0].origin, "base");

    let refs = scan_on_action_refs(&hooks, "friendship_events.1");
    assert_eq!(refs.len(), 1);
    assert_eq!(refs[0].via, "random_events");

    assert!(scan_on_action_refs(&hooks, "nonexistent.999").is_empty());
}

#[test]
fn on_actions_scaffold_parses_back() {
    let sc = scaffold_on_action("on_startup".into()).unwrap();
    assert_eq!(sc.file, PROJECT_FILE);
    let b = parse(&sc.statement);
    assert!(b.get_block("on_startup").is_some());
    assert!(scaffold_on_action("bad hook!".into()).is_err());
}

#[test]
fn hook_without_lists_and_keyless_items() {
    let block = parse("on_x = { a = 1 { b } c }\nloose = 1\n");
    let mut out = Vec::new();
    collect_file(&block, "f.txt", "mod", &mut out);
    assert_eq!(out.len(), 1);
    let h = &out[0];
    assert!(!h.has_events && !h.has_random_events);
    assert!(h.events.is_empty() && h.random_events.is_empty());
    assert_eq!(h.effect_count, 3);
    assert_eq!(h.random_events_path, vec!["on_x", "random_events"]);
    assert_eq!(h.origin, "mod");
}
