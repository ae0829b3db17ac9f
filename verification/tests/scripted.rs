use eu_toolkit::paradox::parse;
use eu_toolkit::script_tree::build_script_block;
use eu_toolkit::scripted::{file_definitions, scaffold_scripted, scan_params, EFFECTS_FILE, TRIGGERS_FILE};

#[test]
fn scans_params_distinct_in_order() {
    let p = scan_params("has_country_modifier = $ARG1$_x\n$ARG2$ = { $ARG1$ }\nprice = $10 dollars");
    assert_eq!(p, vec!["ARG1", "ARG2"]);
}

#[test]
fn scan_params_needs_a_closing_dollar_and_a_word() {
    assert!(scan_params("$$ $ a$ $-x$").is_empty());
    assert_eq!(scan_params("$a$$b$"), vec!["a", "b"]);
}

#[test]
fn loads_trigger_and_effect_defs_with_params() {
    let t = b"# comment\nhas_mil_advisor = {\n\tOR = { advisor = army_organiser }\n}\nmeta_t = {\n\thas_country_modifier = $ARG1$\n}\n";
    let e = b"add_loot_from_province_effect = {\n\tadd_prestige = 1\n}\n";
    let mut defs = file_definitions(t, "trigger", "common/scripted_triggers/00_t.txt", "base");
    defs.extend(file_definitions(e, "effect", "common/scripted_effects/00_e.txt", "base"));
    assert_eq!(defs.len(), 3);
    let t = defs.iter().find(|d| d.name == "has_mil_advisor").unwrap();
    assert_eq!(t.kind, "trigger");
    assert_eq!(t.path, vec!["has_mil_advisor"]);
    assert!(t.params.is_empty());
    assert_eq!(t.line_count, 3);
    let meta = defs.iter().find(|d| d.name == "meta_t").unwrap();
    assert_eq!(meta.params, vec!["ARG1"]);
    let e = defs.iter().find(|d| d.name == "add_loot_from_province_effect").unwrap();
    assert_eq!(e.kind, "effect");
    assert_eq!(e.file, "common/scripted_effects/00_e.txt");
}

#[test]
fn def_body_parses_through_spans_api() {
    let bytes = b"has_mil_advisor = {\n\tOR = { advisor = army_organiser }\n}\n";
    let defs = file_definitions(bytes, "trigger", "common/scripted_triggers/00_t.txt", "base");
    let d = &defs[0];
    let block = build_script_block(bytes, &d.path).unwrap();
    assert!(block.nodes.iter().any(|n| n.group_kind == "or"));
}

#[test]
fn repeated_names_and_scalars_are_not_definitions() {
    let bytes = b"a = { x = 1 }\nb = yes\na = { y = 2 }\n{ anon = 1 }\nc = {}\n";
    let defs = file_definitions(bytes, "effect", "f.txt", "mod");
    let names: Vec<_> = defs.iter().map(|d| d.name.as_str()).collect();
    assert_eq!(names, vec!["a", "c"]);
    assert_eq!(defs[0].origin, "mod");
    // A one-line body still counts as one line.
    assert_eq!(defs[1].line_count, 1);
}

#[test]
fn scaffold_parses_back() {
    let sc = scaffold_scripted("trigger".into(), "my_new_trigger".into()).unwrap();
    assert_eq!(sc.file, TRIGGERS_FILE);
    let b = parse(&sc.statement);
    assert!(b.get_block("my_new_trigger").is_some());
    // effect variant.
    let sc = scaffold_scripted("effect".into(), "my_new_effect".into()).unwrap();
    assert_eq!(sc.file, EFFECTS_FILE);
    // bad name rejected.
    assert!(scaffold_scripted("trigger".into(), "bad name!".into()).is_err());
    assert!(scaffold_scripted("nope".into(), "x".into()).is_err());
}

#[test]
fn scaffold_trims_and_reports_errors() {
    let sc = scaffold_scripted("effect".into(), "  spaced_name \n".into()).unwrap();
    assert_eq!(sc.statement, "spaced_name = {\n\tadd_prestige = 0\n}");
    assert_eq!(
        scaffold_scripted("trigger".into(), "   ".into()).unwrap_err(),
        "Name must be a bare identifier (letters, digits, underscore)."
    );
    assert_eq!(scaffold_scripted("decision".into(), "x".into()).unwrap_err(), "Unknown scripted kind: decision");
}
