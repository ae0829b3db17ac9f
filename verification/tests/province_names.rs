use eu_toolkit::mod_writer::{apply, apply_all, Edit};
use eu_toolkit::province_names::{assignments_for, parse_entries, province_names_for, stem_matches, ProvinceNameEntry};

const SINGLE_AND_PAIR: &[u8] = b"# a comment\n236 = \"Londra\"\n4775 = { \"Lippe\" \"Detmold\" }\n183 = \"Paris\" # capital\n";

#[test]
fn parses_single_and_pair_variants() {
    let e = parse_entries(SINGLE_AND_PAIR);
    assert_eq!(
        e,
        vec![
            ProvinceNameEntry { id: 236, name: "Londra".into(), capital: None },
            ProvinceNameEntry { id: 4775, name: "Lippe".into(), capital: Some("Detmold".into()) },
            ProvinceNameEntry { id: 183, name: "Paris".into(), capital: None },
        ]
    );
}

#[test]
fn decodes_latin1_faithfully() {
    // 0xE5 = å in Windows-1252.
    let src = b"6 = \"Sk\xE5ne\"\n";
    let e = parse_entries(src);
    assert_eq!(e.len(), 1);
    assert_eq!(e[0].name, "Sk\u{e5}ne");
}

#[test]
fn skips_inline_comment_bytes() {
    // 0xE9 = é. A trailing comment must not leak into the name.
    let src = b"2151 = \"Qaw\xE9qmayt\xE9\"\t#Watcher\n";
    let e = parse_entries(src);
    assert_eq!(e[0].id, 2151);
    assert_eq!(e[0].name, "Qaw\u{e9}qmayt\u{e9}");
}

/// Editing one single-variant name replaces only that value; every other
/// byte — including a non-ASCII name in an untouched entry — is identical.
#[test]
fn edit_single_name_round_trip_keeps_other_bytes() {
    let mut src = b"236 = \"Londra\"\n6 = \"Sk".to_vec();
    src.push(0xE5);
    src.extend_from_slice(b"ne\"\n");
    let out = apply(
        &src,
        &Edit::SetScalar {
            path: vec!["236".into()],
            value: "Londres".into(),
            quoted: true,
        },
    )
    .unwrap();
    assert_eq!(&out, b"236 = \"Londres\"\n6 = \"Sk\xE5ne\"\n");
    let e = parse_entries(&out);
    assert_eq!(e[0], ProvinceNameEntry { id: 236, name: "Londres".into(), capital: None });
    // The untouched non-ASCII entry survived.
    assert_eq!(e[1].name, "Sk\u{e5}ne");
}

/// A new name with an accented char is written as Latin-1 (0xE9), never UTF-8.
#[test]
fn edit_name_to_non_ascii_encodes_latin1() {
    let src = b"183 = \"Paris\"\n";
    let out = apply(
        src,
        &Edit::SetScalar {
            path: vec!["183".into()],
            value: "Par\u{ed}s".into(),
            quoted: true,
        },
    )
    .unwrap();
    assert_eq!(out, b"183 = \"Par\xEDs\"\n");
    assert_eq!(parse_entries(&out)[0].name, "Par\u{ed}s");
}

#[test]
fn add_entry_round_trip() {
    let src = b"236 = \"Londra\"\n";
    let out = apply(
        src,
        &Edit::InsertStatement {
            block_path: vec![],
            statement: "183 = \"Parigi\"".into(),
        },
    )
    .unwrap();
    let e = parse_entries(&out);
    assert_eq!(e.len(), 2);
    assert_eq!(e[1], ProvinceNameEntry { id: 183, name: "Parigi".into(), capital: None });
}

#[test]
fn remove_entry_round_trip() {
    let src = b"236 = \"Londra\"\n183 = \"Parigi\"\n";
    let out = apply(
        src,
        &Edit::RemoveStatement {
            block_path: vec![],
            key: "236".into(),
            value: None,
        },
    )
    .unwrap();
    assert_eq!(out, b"183 = \"Parigi\"\n");
}

/// Editing the pair variant rewrites just that `{ ... }` value.
#[test]
fn edit_pair_variant_round_trip() {
    let src = b"4775 = { \"Lippe\" \"Detmold\" }\n236 = \"Londra\"\n";
    let out = apply(
        src,
        &Edit::SetBlock {
            path: vec!["4775".into()],
            value: "\"Lippe\" \"Lemgo\"".into(),
        },
    )
    .unwrap();
    assert_eq!(out, b"4775 = { \"Lippe\" \"Lemgo\" }\n236 = \"Londra\"\n");
    let e = parse_entries(&out);
    assert_eq!(e[0], ProvinceNameEntry { id: 4775, name: "Lippe".into(), capital: Some("Lemgo".into()) });
}

/// Adding a capital to a single entry (shape change scalar→block) is a
/// remove + insert; the result parses as the pair variant.
#[test]
fn single_to_pair_round_trip() {
    let src = b"236 = \"Londra\"\n";
    let out = apply_all(
        src,
        &[
            Edit::RemoveStatement { block_path: vec![], key: "236".into(), value: None },
            Edit::InsertStatement {
                block_path: vec![],
                statement: "236 = { \"Londra\" \"City of London\" }".into(),
            },
        ],
    )
    .unwrap();
    let e = parse_entries(&out);
    assert_eq!(
        e[0],
        ProvinceNameEntry { id: 236, name: "Londra".into(), capital: Some("City of London".into()) }
    );
}

/// A brand-new file scaffolded via CreateFile parses back to its entries.
#[test]
fn scaffold_new_file_parses() {
    let out = apply(
        &[],
        &Edit::CreateFile {
            text: "236 = \"Londra\"\n4775 = { \"Lippe\" \"Detmold\" }\n".into(),
        },
    )
    .unwrap();
    let e = parse_entries(&out);
    assert_eq!(e.len(), 2);
    assert_eq!(e[1].capital.as_deref(), Some("Detmold"));
}

#[test]
fn real_missing_file_reports_absent() {
    let none = province_names_for("zzz_not_a_real_key", None);
    assert!(!none.exists);
    assert!(none.entries.is_empty());
    assert_eq!(none.source_file, "common/province_names/zzz_not_a_real_key.txt");
}

#[test]
fn found_file_keeps_its_real_name() {
    let rom = province_names_for("rom", Some(("ROM.txt".into(), b"236 = \"Londinium\"\n".to_vec())));
    assert!(rom.exists);
    assert_eq!(rom.key, "rom");
    assert_eq!(rom.source_file, "common/province_names/ROM.txt");
    assert_eq!(rom.entries, vec![ProvinceNameEntry { id: 236, name: "Londinium".into(), capital: None }]);
}

#[test]
fn stems_match_ignoring_ascii_case() {
    assert!(stem_matches("ROM.txt", "rom"));
    assert!(stem_matches("cornish.TXT", "Cornish"));
    assert!(!stem_matches("cornish.Txt", "cornish"));
    assert!(!stem_matches("cornish.txt.bak", "cornish"));
    assert!(!stem_matches("txt", ""));
    assert!(stem_matches(".txt", ""));
}

#[test]
fn malformed_entries_are_skipped() {
    let src = b"abc = \"x\"\n-4 = \"y\"\n5 = \n7 = { }\n8 = { \"Only\" }\n99999999999 = \"big\"\n\"9\" = \"quoted id\"\n";
    let e = parse_entries(src);
    assert_eq!(
        e,
        vec![
            // `5 =` with no value pairs with the next word.
            ProvinceNameEntry { id: 5, name: "7".into(), capital: None },
            ProvinceNameEntry { id: 8, name: "Only".into(), capital: None },
            ProvinceNameEntry { id: 9, name: "quoted id".into(), capital: None },
        ]
    );
    let empty_pair = parse_entries(b"7 = { }\n");
    assert_eq!(empty_pair, vec![ProvinceNameEntry { id: 7, name: "".into(), capital: None }]);
}

#[test]
fn reverse_view_classifies_and_orders_kinds() {
    let files = vec![
        ("ROM.txt".to_string(), b"236 = \"Londinium\"\n".to_vec()),
        ("latin.txt".to_string(), b"236 = \"Londra\"\n".to_vec()),
        ("cornish.txt".to_string(), b"236 = { \"Loundres\" \"Kernow\" }\n1 = \"Other\"\n".to_vec()),
        ("breton.TXT".to_string(), b"1 = \"Nope\"\n".to_vec()),
        ("anglo.txt".to_string(), b"236 = \"Lunden\"\n236 = \"Second\"\n".to_vec()),
        ("notes.md".to_string(), b"236 = \"Hidden\"\n".to_vec()),
    ];
    let cultures = vec!["cornish".to_string(), "anglo".to_string(), "breton".to_string()];
    let groups = vec!["latin".to_string()];
    let loc = vec![("cornish".to_string(), "Cornish".to_string())];
    let asg = assignments_for(&files, &loc, &cultures, &groups, 236);
    let keys: Vec<&str> = asg.iter().map(|a| a.key.as_str()).collect();
    assert_eq!(keys, vec!["anglo", "cornish", "latin", "ROM"]);
    assert_eq!(asg[0].kind, "culture");
    assert_eq!(asg[0].name, "Lunden");
    assert_eq!(asg[1].label, "Cornish");
    assert_eq!(asg[1].name, "Loundres");
    assert_eq!(asg[1].capital.as_deref(), Some("Kernow"));
    assert_eq!(asg[1].source_file, "common/province_names/cornish.txt");
    assert_eq!(asg[2].kind, "group");
    assert_eq!(asg[2].name, "Londra");
    assert_eq!(asg[3].kind, "tag");
    assert_eq!(asg[3].label, "ROM");
    assert_eq!(asg[3].name, "Londinium");
    assert!(assignments_for(&files, &loc, &cultures, &groups, 999).is_empty());
}
