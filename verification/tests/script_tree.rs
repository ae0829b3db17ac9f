use eu_toolkit::mod_writer::{apply, Edit};
use eu_toolkit::script_tree::{build_nodes, build_script_block, known_effects, known_triggers, validate_script_text};

// FrenchNation-shaped decision: nested OR/AND/NOT, a province-id scope, a
// block-valued leaf, and effect statements.
const DECISION: &[u8] = br#"country_decisions = {
	form_france = {
		major = yes
		potential = {
			NOT = { has_country_flag = formed_france_flag }
			OR = {
				culture_group = french
				primary_culture = cosmopolitan_french
			}
			is_year = 1500
		}
		allow = {
			is_subject = no
			num_of_owned_provinces_with = {
				value = 10
				culture_group = french
				is_core = ROOT
			}
			owns_core_province = 183
		}
		effect = {
			change_tag = FRA
			add_prestige = 25
			183 = { add_permanent_claim = FRA }
		}
	}
}"#;

fn potential_path() -> Vec<String> {
    vec![
        "country_decisions".into(),
        "form_france".into(),
        "potential".into(),
    ]
}

#[test]
fn parses_nested_logical_and_scope_shapes() {
    let block = build_script_block(DECISION, &potential_path()).unwrap();
    assert_eq!(block.nodes.len(), 3);
    // NOT group with a single leaf child.
    let not = &block.nodes[0];
    assert_eq!(not.node_type, "group");
    assert_eq!(not.group_kind, "not");
    assert_eq!(not.children.len(), 1);
    assert_eq!(not.children[0].key.as_deref(), Some("has_country_flag"));
    // OR group with two culture leaves.
    let or = &block.nodes[1];
    assert_eq!(or.group_kind, "or");
    assert_eq!(or.children.len(), 2);
    assert_eq!(or.children[0].value.as_ref().unwrap().text, "french");
    // is_year leaf typed as a number.
    let year = &block.nodes[2];
    assert_eq!(year.node_type, "leaf");
    assert_eq!(year.value.as_ref().unwrap().kind, "number");
}

#[test]
fn block_valued_leaf_and_province_scope() {
    let allow = vec![
        "country_decisions".into(),
        "form_france".into(),
        "allow".into(),
    ];
    let block = build_script_block(DECISION, &allow).unwrap();
    // num_of_owned_provinces_with is a block-valued LEAF, preserved raw.
    let nowp = block
        .nodes
        .iter()
        .find(|n| n.key.as_deref() == Some("num_of_owned_provinces_with"))
        .unwrap();
    assert_eq!(nowp.node_type, "leaf");
    let v = nowp.value.as_ref().unwrap();
    assert_eq!(v.kind, "block");
    assert!(v.text.contains("value = 10"));
    assert!(v.text.contains("is_core = ROOT"));

    // Province-id scope in the effect is a GROUP that recurses.
    let effect = vec![
        "country_decisions".into(),
        "form_france".into(),
        "effect".into(),
    ];
    let eff = build_script_block(DECISION, &effect).unwrap();
    let prov = eff.nodes.iter().find(|n| n.key.as_deref() == Some("183")).unwrap();
    assert_eq!(prov.group_kind, "scope");
    assert_eq!(prov.children[0].key.as_deref(), Some("add_permanent_claim"));
    assert_eq!(prov.children[0].value.as_ref().unwrap().kind, "tag");
}

#[test]
fn unedited_tree_emits_no_changes_and_leaf_edit_is_byte_surgical() {
    // Building the tree does not touch the file (round-trip is free).
    let block = build_script_block(DECISION, &potential_path()).unwrap();
    // Edit the is_year leaf via its emitted path; only that value changes.
    let year = block.nodes.iter().find(|n| n.key.as_deref() == Some("is_year")).unwrap();
    let out = apply(
        DECISION,
        &Edit::SetScalar {
            path: year.path.clone(),
            value: "1450".into(),
            quoted: false,
        },
    )
    .unwrap();
    let text = String::from_utf8(out).unwrap();
    assert!(text.contains("is_year = 1450"));
    // Everything else intact.
    assert!(text.contains("has_country_flag = formed_france_flag"));
    assert!(text.contains("owns_core_province = 183"));
    assert!(text.contains("183 = { add_permanent_claim = FRA }"));
}

#[test]
fn nested_leaf_edit_uses_occurrence_qualified_path() {
    // The OR's second leaf (primary_culture) is edited through its path,
    // which threads the group ancestors' occurrence-qualified segments.
    let block = build_script_block(DECISION, &potential_path()).unwrap();
    let or = block.nodes.iter().find(|n| n.group_kind == "or").unwrap();
    let leaf = &or.children[1];
    assert_eq!(leaf.key.as_deref(), Some("primary_culture"));
    let out = apply(
        DECISION,
        &Edit::SetScalar {
            path: leaf.path.clone(),
            value: "old_frankish".into(),
            quoted: false,
        },
    )
    .unwrap();
    let text = String::from_utf8(out).unwrap();
    assert!(text.contains("primary_culture = old_frankish"));
    assert!(text.contains("culture_group = french"));
}

#[test]
fn validate_accepts_good_and_rejects_bad_fragment() {
    assert!(validate_script_text("tag = FRA\nOR = { a = 1 b = 2 }".into()).valid);
    // Comment/quote-aware: a brace in a comment or string is not counted.
    assert!(validate_script_text("name = \"a { b\" # trailing }".into()).valid);
    let bad = validate_script_text("OR = { a = 1 ".into());
    assert!(!bad.valid);
    assert!(bad.error.unwrap().contains("unclosed"));
    let extra = validate_script_text("a = 1 } }".into());
    assert!(!extra.valid);
}

#[test]
fn known_registries_cover_common_keys() {
    let trig: Vec<&str> = known_triggers().iter().map(|k| k.key).collect();
    for k in ["tag", "religion", "owns_core_province", "is_year", "num_of_cities", "war_with"] {
        assert!(trig.contains(&k), "missing trigger {k}");
    }
    let eff: Vec<&str> = known_effects().iter().map(|k| k.key).collect();
    for k in ["add_prestige", "add_core", "set_country_flag", "country_event", "change_tag"] {
        assert!(eff.contains(&k), "missing effect {k}");
    }
    // No duplicate keys within each table.
    let mut t = trig.clone();
    t.sort_unstable();
    let n = t.len();
    t.dedup();
    assert_eq!(n, t.len(), "duplicate trigger keys");
}

#[test]
fn build_script_block_missing_path_errors() {
    assert!(build_script_block(DECISION, &["nope".into()]).is_err());
}


#[test]
fn known_effects_have_no_duplicate_keys() {
    let mut e: Vec<&str> = known_effects().iter().map(|k| k.key).collect();
    e.sort_unstable();
    let n = e.len();
    e.dedup();
    assert_eq!(n, e.len(), "duplicate effect keys");
}

#[test]
fn validate_reports_line_numbers_and_counts() {
    let r = validate_script_text("a = {\n b = \"x\ny\"\n}".into());
    assert!(!r.valid);
    assert_eq!(r.error.as_deref(), Some("Unterminated string on line 2"));
    let r = validate_script_text("a = 1\n}\n".into());
    assert_eq!(r.error.as_deref(), Some("Unmatched '}' on line 2"));
    let r = validate_script_text("a = { b = {".into());
    assert_eq!(r.error.as_deref(), Some("2 unclosed '{' blocks"));
    let r = validate_script_text("a = \"open".into());
    assert_eq!(r.error.as_deref(), Some("Unterminated string at end of text"));
    let ok = validate_script_text("# only a comment {\n".into());
    assert!(ok.valid && ok.error.is_none());
}

#[test]
fn missing_block_error_names_the_path() {
    let e = build_script_block(DECISION, &["country_decisions".into(), "nope".into()]).unwrap_err();
    assert!(e.contains("nope"));
}

#[test]
fn keyless_nodes_carry_no_path() {
    let nodes = build_nodes(b"x = { 1 2 { a = b } }", &["x".to_string()]);
    assert_eq!(nodes.len(), 3);
    assert!(nodes[0].key.is_none());
    assert_eq!(nodes[0].node_type, "leaf");
    assert_eq!(nodes[0].value.as_ref().unwrap().text, "1");
    assert!(nodes[0].path.is_empty());
    assert_eq!(nodes[2].node_type, "group");
    assert_eq!(nodes[2].group_kind, "anonymous");
    assert!(nodes[2].path.is_empty());
}

#[test]
fn missing_block_error_quotes_the_path() {
    let e = build_script_block(b"a = { b = 1 }", &["a".to_string(), "c\"d".to_string()]).err().unwrap();
    assert_eq!(e, "No block found at path [\"a\", \"c\\\"d\"]");
}
