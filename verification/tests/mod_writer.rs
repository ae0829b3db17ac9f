use eu_toolkit::mod_writer::{apply, block_children, block_span, line_start, rename_ruler, Edit};


const SAMPLE: &[u8] = br#"government = monarchy
capital = 183 # Paris
1422.10.21 = {
	monarch = {
		name = "Charles VII" # le Victorieux
		dynasty = "de Valois"
		adm = 5
	}
}
1445.1.1 = {
	monarch = {
		name = "Too Late"
	}
}
1461.7.22 = {
	monarch = { name = "Louis XI" }
}
"#;

#[test]
fn renames_starting_ruler_only() {
    let out = rename_ruler(SAMPLE, "Karl the Tested").unwrap();
    let text = String::from_utf8(out).unwrap();
    assert!(text.contains("name = \"Karl the Tested\" # le Victorieux"));
    // Later rulers untouched; comments and formatting intact.
    assert!(text.contains("\"Too Late\""));
    assert!(text.contains("\"Louis XI\""));
    assert!(text.contains("capital = 183 # Paris"));
    assert!(text.contains("dynasty = \"de Valois\""));
}

#[test]
fn picks_latest_pre_start_monarch() {
    let src = br#"
1400.1.1 = { monarch = { name = "Old" } }
1440.1.1 = { monarch = { name = "Current" } }
"#;
    let out = rename_ruler(src, "New").unwrap();
    let text = String::from_utf8(out).unwrap();
    assert!(text.contains("name = \"Old\""));
    assert!(text.contains("name = \"New\""));
    assert!(!text.contains("Current"));
}

#[test]
fn errors_without_starting_ruler() {
    let src = br#"1450.1.1 = { monarch = { name = "Post" } }"#;
    assert!(rename_ruler(src, "X").is_err());
}

#[test]
fn preserves_non_ascii_bytes_elsewhere() {
    // 0xE9 = e-acute in Windows-1252; must survive byte-for-byte.
    let src = b"# comment with \xE9\n1444.1.1 = { monarch = { name = \"A\" } }\n";
    let out = rename_ruler(src, "B").unwrap();
    assert!(out.windows(2).any(|w| w == b"\xE9\n"));
}

#[test]
fn encodes_new_name_as_latin1() {
    let src = b"1444.1.1 = { monarch = { name = \"A\" } }".to_vec();
    let out = rename_ruler(&src, "R\u{e9}n\u{e9}").unwrap();
    assert!(out.windows(6).any(|w| w == b"\"R\xE9n\xE9\""));
}

// --- toolkit: shared asserts ----------------------------------------

/// Asserts every byte outside `[start, end)` in `before` equals the
/// corresponding byte in `after` (accounting for the length delta of the
/// edited region). Proves surgical edits leave surroundings byte-identical.
fn assert_outside_identical(before: &[u8], after: &[u8], start: usize, before_end: usize) {
    assert_eq!(&before[..start], &after[..start], "prefix changed");
    let delta = after.len() as isize - before.len() as isize;
    let after_end = (before_end as isize + delta) as usize;
    assert_eq!(
        &before[before_end..],
        &after[after_end..],
        "suffix changed"
    );
}

fn find(haystack: &[u8], needle: &[u8]) -> usize {
    haystack
        .windows(needle.len())
        .position(|w| w == needle)
        .unwrap_or_else(|| panic!("not found: {}", String::from_utf8_lossy(needle)))
}

// --- set scalar ------------------------------------------------------

#[test]
fn set_scalar_top_level_replaces_only_value() {
    let src = b"government = monarchy\ncapital = 183 # Paris\n";
    let out = apply(
        src,
        &Edit::SetScalar {
            path: vec!["government".into()],
            value: "republic".into(),
            quoted: false,
        },
    )
    .unwrap();
    assert_eq!(out, b"government = republic\ncapital = 183 # Paris\n");
    let s = find(src, b"monarchy");
    assert_outside_identical(src, &out, s, s + b"monarchy".len());
}

#[test]
fn set_scalar_nested_and_quoted() {
    let out = apply(
        SAMPLE,
        &Edit::SetScalar {
            path: vec!["1422.10.21".into(), "monarch".into(), "adm".into()],
            value: "3".into(),
            quoted: false,
        },
    )
    .unwrap();
    let text = String::from_utf8(out).unwrap();
    assert!(text.contains("adm = 3"));
    // Everything else intact.
    assert!(text.contains("name = \"Charles VII\" # le Victorieux"));
    assert!(text.contains("dynasty = \"de Valois\""));
}

#[test]
fn set_scalar_crlf_preserved() {
    let src = b"government = monarchy\r\ncapital = 183\r\n";
    let out = apply(
        src,
        &Edit::SetScalar {
            path: vec!["capital".into()],
            value: "42".into(),
            quoted: false,
        },
    )
    .unwrap();
    assert_eq!(out, b"government = monarchy\r\ncapital = 42\r\n");
}

#[test]
fn set_scalar_rejects_non_latin1() {
    let src = b"name = x\n";
    let err = apply(
        src,
        &Edit::SetScalar {
            path: vec!["name".into()],
            value: "\u{4e2d}".into(), // CJK char, not encodable
            quoted: true,
        },
    );
    assert!(err.is_err());
}

// --- set block value (Sprint 1.2) -----------------------------------

#[test]
fn set_block_replaces_only_the_braced_span() {
    // Comments and a Windows-1252 high byte around the color must round-trip.
    let mut src = b"graphical_culture = westerngfx\ncolor = { 20  50  210 } # France blue caf".to_vec();
    src.push(0xE9); // é in Windows-1252, inside the trailing comment
    src.extend_from_slice(b"\nrevolutionary_colors = { 15 0 16 }\n");
    let out = apply(
        &src,
        &Edit::SetBlock {
            path: vec!["color".into()],
            value: "10 20 30".into(),
        },
    )
    .unwrap();
    let text = String::from_utf8_lossy(&out);
    assert!(text.contains("color = { 10 20 30 } # France blue caf"));
    // Sibling block and the surrounding comment/high byte untouched.
    assert!(text.contains("graphical_culture = westerngfx\n"));
    assert!(text.contains("revolutionary_colors = { 15 0 16 }\n"));
    assert!(out.windows(2).any(|w| w == b"\xE9\n"), "high byte preserved");
    // Byte-identical outside the color value's brace span.
    let s = find(&src, b"{ 20  50  210 }");
    assert_outside_identical(&src, &out, s, s + b"{ 20  50  210 }".len());
}

#[test]
fn set_block_revolutionary_colors_indices() {
    let src = b"color = { 1 2 3 }\nrevolutionary_colors = { 5 0 5 }\n";
    let out = apply(
        src,
        &Edit::SetBlock {
            path: vec!["revolutionary_colors".into()],
            value: "8 1 8".into(),
        },
    )
    .unwrap();
    assert_eq!(out, b"color = { 1 2 3 }\nrevolutionary_colors = { 8 1 8 }\n");
}

#[test]
fn set_block_nested_path() {
    let src = b"trigger = {\n\tcolor = { 0 0 0 }\n}\n";
    let out = apply(
        src,
        &Edit::SetBlock {
            path: vec!["trigger".into(), "color".into()],
            value: "9 9 9".into(),
        },
    )
    .unwrap();
    assert_eq!(out, b"trigger = {\n\tcolor = { 9 9 9 }\n}\n");
}

#[test]
fn set_block_occurrence_selects_nth_same_key_block() {
    // Two same-key blocks (like a region's repeated `monsoon = { … }`, S2.6):
    // `#1` edits the second, leaving the first byte-identical.
    let src = b"r = {\n\tmonsoon = { 1 2 }\n\tmonsoon = { 3 4 }\n}\n";
    let out = apply(
        src,
        &Edit::SetBlock {
            path: vec!["r".into(), "monsoon#1".into()],
            value: "7 8".into(),
        },
    )
    .unwrap();
    assert_eq!(out, b"r = {\n\tmonsoon = { 1 2 }\n\tmonsoon = { 7 8 }\n}\n");
    // Bare key (== `#0`) still selects the first.
    let out0 = apply(
        src,
        &Edit::SetBlock {
            path: vec!["r".into(), "monsoon".into()],
            value: "9 9".into(),
        },
    )
    .unwrap();
    assert_eq!(out0, b"r = {\n\tmonsoon = { 9 9 }\n\tmonsoon = { 3 4 }\n}\n");
}

#[test]
fn set_block_missing_key_errors() {
    let src = b"color = { 1 2 3 }\n";
    assert!(apply(
        src,
        &Edit::SetBlock {
            path: vec!["revolutionary_colors".into()],
            value: "1 1 1".into(),
        },
    )
    .is_err());
}

// --- key add / remove ------------------------------------------------

#[test]
fn add_key_top_level_appends_line() {
    let src = b"government = monarchy\ncapital = 183\n";
    let out = apply(
        src,
        &Edit::InsertStatement {
            block_path: vec![],
            statement: "religion = catholic".into(),
        },
    )
    .unwrap();
    assert_eq!(out, b"government = monarchy\ncapital = 183\nreligion = catholic\n");
}

#[test]
fn add_key_inside_multiline_block_is_indented() {
    let out = apply(
        SAMPLE,
        &Edit::InsertStatement {
            block_path: vec!["1422.10.21".into(), "monarch".into()],
            statement: "dip = 4".into(),
        },
    )
    .unwrap();
    let text = String::from_utf8(out).unwrap();
    // New line indented to sibling depth (two tabs), before the block close.
    assert!(text.contains("\t\tadm = 5\n\t\tdip = 4\n\t}"));
    assert!(text.contains("name = \"Charles VII\" # le Victorieux"));
}

#[test]
fn add_key_inside_inline_block() {
    let src = b"monarch = { name = \"Louis XI\" }\n";
    let out = apply(
        src,
        &Edit::InsertStatement {
            block_path: vec!["monarch".into()],
            statement: "adm = 3".into(),
        },
    )
    .unwrap();
    assert_eq!(out, b"monarch = { name = \"Louis XI\" adm = 3 }\n");
}

#[test]
fn remove_key_deletes_whole_line() {
    let src = b"government = monarchy\ncapital = 183 # Paris\nreligion = catholic\n";
    let out = apply(
        src,
        &Edit::RemoveStatement {
            block_path: vec![],
            key: "capital".into(),
            value: None,
        },
    )
    .unwrap();
    assert_eq!(out, b"government = monarchy\nreligion = catholic\n");
}

#[test]
fn remove_key_with_value_filter_among_duplicates() {
    let src = b"add_core = FRA\nadd_core = ENG\nadd_core = CAS\n";
    let out = apply(
        src,
        &Edit::RemoveStatement {
            block_path: vec![],
            key: "add_core".into(),
            value: Some("ENG".into()),
        },
    )
    .unwrap();
    assert_eq!(out, b"add_core = FRA\nadd_core = CAS\n");
}

// --- block insert / delete ------------------------------------------

#[test]
fn insert_heir_block_multiline() {
    let src = b"government = monarchy\n1444.1.1 = {\n\tmonarch = {\n\t\tname = \"A\"\n\t}\n}\n";
    let out = apply(
        src,
        &Edit::InsertStatement {
            block_path: vec!["1444.1.1".into()],
            statement: "heir = {\n\tname = \"B\"\n\tclaim = 90\n}".into(),
        },
    )
    .unwrap();
    let text = String::from_utf8(out).unwrap();
    // Heir block indented one level, nested content two levels.
    assert!(text.contains("\their = {\n\t\tname = \"B\"\n\t\tclaim = 90\n\t}\n}"));
    assert!(text.contains("\t\tname = \"A\"\n"));
}

// --- date-ordered dated-block insert (Sprint 12.3) -------------------

const ORDERED_DATES: &[u8] =
    b"owner = FRA\n1450.1.1 = { unrest = 5 }\n1460.1.1 = { unrest = 6 }\n";

#[test]
fn insert_dated_block_lands_between_neighbors_byte_surgical() {
    let out = apply(
        ORDERED_DATES,
        &Edit::InsertDatedBlock {
            date: "1455.1.1".into(),
            statement: "1455.1.1 = { religion = reformed }".into(),
        },
    )
    .unwrap();
    assert_eq!(
        out,
        b"owner = FRA\n1450.1.1 = { unrest = 5 }\n1455.1.1 = { religion = reformed }\n1460.1.1 = { unrest = 6 }\n"
    );
    // Everything before the 1460 line is byte-identical (pure insert).
    let s = find(ORDERED_DATES, b"1460.1.1");
    let ls = line_start(ORDERED_DATES, s);
    assert_eq!(&out[..ls], &ORDERED_DATES[..ls]);
}

#[test]
fn insert_dated_block_before_all_and_after_all() {
    // Earlier than every existing block → before the first (1450) block.
    let early = apply(
        ORDERED_DATES,
        &Edit::InsertDatedBlock {
            date: "1440.1.1".into(),
            statement: "1440.1.1 = { owner = ENG }".into(),
        },
    )
    .unwrap();
    assert_eq!(
        early,
        b"owner = FRA\n1440.1.1 = { owner = ENG }\n1450.1.1 = { unrest = 5 }\n1460.1.1 = { unrest = 6 }\n"
    );
    // Later than every existing block → appended at EOF.
    let late = apply(
        ORDERED_DATES,
        &Edit::InsertDatedBlock {
            date: "1470.1.1".into(),
            statement: "1470.1.1 = { owner = CAS }".into(),
        },
    )
    .unwrap();
    assert_eq!(
        late,
        b"owner = FRA\n1450.1.1 = { unrest = 5 }\n1460.1.1 = { unrest = 6 }\n1470.1.1 = { owner = CAS }\n"
    );
}

#[test]
fn merge_into_existing_exact_date_block_unchanged() {
    // Merging into an existing exact-date block stays a plain InsertStatement
    // into the ["Y.M.D"] path — byte-surgical, only that block grows.
    let out = apply(
        ORDERED_DATES,
        &Edit::InsertStatement {
            block_path: vec!["1450.1.1".into()],
            statement: "religion = protestant".into(),
        },
    )
    .unwrap();
    assert_eq!(
        out,
        b"owner = FRA\n1450.1.1 = { unrest = 5 religion = protestant }\n1460.1.1 = { unrest = 6 }\n"
    );
}

#[test]
fn insert_dated_block_at_top_level() {
    let src = b"government = monarchy\n";
    let out = apply(
        src,
        &Edit::InsertStatement {
            block_path: vec![],
            statement: "1450.1.1 = { unrest = 5 }".into(),
        },
    )
    .unwrap();
    assert_eq!(out, b"government = monarchy\n1450.1.1 = { unrest = 5 }\n");
}

#[test]
fn delete_dated_block_leaves_rest_intact() {
    let out = apply(
        SAMPLE,
        &Edit::RemoveStatement {
            block_path: vec![],
            key: "1445.1.1".into(),
            value: None,
        },
    )
    .unwrap();
    let text = String::from_utf8(out).unwrap();
    assert!(!text.contains("Too Late"));
    // Surrounding blocks byte-identical.
    assert!(text.contains("\t\tname = \"Charles VII\" # le Victorieux\n"));
    assert!(text.contains("1461.7.22 = {\n\tmonarch = { name = \"Louis XI\" }\n}\n"));
}

#[test]
fn insert_nested_block_into_named_group() {
    // Religion-into-group shape (Sprint 5).
    let src =
        b"christian = {\n\tcatholic = {\n\t\tcolor = { 1 1 0 }\n\t}\n}\n";
    let out = apply(
        src,
        &Edit::InsertStatement {
            block_path: vec!["christian".into()],
            statement: "orthodox = {\n\tcolor = { 0 1 0 }\n}".into(),
        },
    )
    .unwrap();
    let text = String::from_utf8(out).unwrap();
    assert!(text.contains("\torthodox = {\n\t\tcolor = { 0 1 0 }\n\t}\n}"));
    assert!(text.contains("\tcatholic = {\n\t\tcolor = { 1 1 0 }\n\t}\n"));
}

// --- occurrence-indexed dated blocks (Sprint 2.3) --------------------

const DUP_DATES: &[u8] = b"owner = TUR\n\
1481.6.1 = { unrest = 6 }\n\
1482.7.26 = { unrest = 0 }\n\
1481.6.1 = { unrest = 9 base_tax = 5 }\n";

#[test]
fn set_scalar_addresses_second_duplicate_date() {
    // Edit the unrest inside the SECOND 1481.6.1 block; the first is untouched.
    let out = apply(
        DUP_DATES,
        &Edit::SetScalar {
            path: vec!["1481.6.1#1".into(), "unrest".into()],
            value: "3".into(),
            quoted: false,
        },
    )
    .unwrap();
    let text = String::from_utf8(out).unwrap();
    assert!(text.contains("1481.6.1 = { unrest = 6 }\n"), "first block intact");
    assert!(text.contains("1481.6.1 = { unrest = 3 base_tax = 5 }\n"), "second edited");
}

#[test]
fn set_scalar_occurrence_zero_is_first_match() {
    // `#0` must behave exactly like an un-suffixed segment (first match).
    let a = apply(
        DUP_DATES,
        &Edit::SetScalar {
            path: vec!["1481.6.1#0".into(), "unrest".into()],
            value: "1".into(),
            quoted: false,
        },
    )
    .unwrap();
    let text = String::from_utf8(a).unwrap();
    assert!(text.contains("1481.6.1 = { unrest = 1 }\n"), "first block edited");
    assert!(text.contains("1481.6.1 = { unrest = 9 base_tax = 5 }\n"), "second intact");
}

#[test]
fn remove_statement_inside_second_duplicate_date() {
    // Delete base_tax from the second 1481.6.1 block only.
    let out = apply(
        DUP_DATES,
        &Edit::RemoveStatement {
            block_path: vec!["1481.6.1#1".into()],
            key: "base_tax".into(),
            value: None,
        },
    )
    .unwrap();
    let text = String::from_utf8(out).unwrap();
    assert!(text.contains("1481.6.1 = { unrest = 6 }\n"), "first block intact");
    assert!(text.contains("1481.6.1 = { unrest = 9 }\n"), "second lost base_tax");
}

#[test]
fn remove_statement_deletes_second_same_key_sibling_group() {
    // 14B gap fix: two same-key sibling GROUPS (value-disambiguation can't
    // reach them — their value is a `{ … }` block). `key#n` selects the nth,
    // so `OR#1` removes the SECOND OR and leaves the first byte-for-byte.
    let src = b"potential = {\n\tOR = { a = 1 }\n\tOR = { b = 2 }\n\ttag = FRA\n}\n";
    let out = apply(
        src,
        &Edit::RemoveStatement {
            block_path: vec!["potential".into()],
            key: "OR#1".into(),
            value: None,
        },
    )
    .unwrap();
    let text = String::from_utf8(out).unwrap();
    assert!(text.contains("OR = { a = 1 }"), "first OR intact");
    assert!(!text.contains("b = 2"), "second OR removed");
    assert!(text.contains("tag = FRA"), "sibling leaf intact");
    // `OR#0` (or bare `OR`) still removes the first.
    let first = apply(
        src,
        &Edit::RemoveStatement {
            block_path: vec!["potential".into()],
            key: "OR#0".into(),
            value: None,
        },
    )
    .unwrap();
    let ftext = String::from_utf8(first).unwrap();
    assert!(!ftext.contains("a = 1"), "first OR removed by #0");
    assert!(ftext.contains("OR = { b = 2 }"), "second OR intact");
}

#[test]
fn occurrence_beyond_range_errors() {
    assert!(apply(
        DUP_DATES,
        &Edit::SetScalar {
            path: vec!["1481.6.1#2".into(), "unrest".into()],
            value: "0".into(),
            quoted: false,
        },
    )
    .is_err());
}

// --- id-list splice --------------------------------------------------

const CLIMATE: &[u8] = b"tropical = {\n\t746 747 748 # west indies\n\t1097\n}\narctic = {\n\t100\n}\n";

#[test]
fn add_id_to_multiline_list() {
    let out = apply(
        CLIMATE,
        &Edit::AddId {
            list_path: vec!["tropical".into()],
            id: "999".into(),
        },
    )
    .unwrap();
    let text = String::from_utf8(out).unwrap();
    assert!(text.contains("\t1097\n\t999\n}"));
    // Other list and comment untouched.
    assert!(text.contains("746 747 748 # west indies"));
    assert!(text.contains("arctic = {\n\t100\n}"));
}

#[test]
fn remove_first_id_on_line() {
    let out = apply(
        CLIMATE,
        &Edit::RemoveId {
            list_path: vec!["tropical".into()],
            id: "746".into(),
        },
    )
    .unwrap();
    assert_eq!(
        out,
        b"tropical = {\n\t747 748 # west indies\n\t1097\n}\narctic = {\n\t100\n}\n"
    );
}

#[test]
fn remove_middle_id_on_line() {
    let out = apply(
        CLIMATE,
        &Edit::RemoveId {
            list_path: vec!["tropical".into()],
            id: "747".into(),
        },
    )
    .unwrap();
    assert_eq!(
        out,
        b"tropical = {\n\t746 748 # west indies\n\t1097\n}\narctic = {\n\t100\n}\n"
    );
}

#[test]
fn remove_last_id_before_comment() {
    // 748 is followed by a comment, so it is not "line end"; the id and its
    // preceding space go, the comment stays.
    let out = apply(
        CLIMATE,
        &Edit::RemoveId {
            list_path: vec!["tropical".into()],
            id: "748".into(),
        },
    )
    .unwrap();
    assert_eq!(
        out,
        b"tropical = {\n\t746 747 # west indies\n\t1097\n}\narctic = {\n\t100\n}\n"
    );
}

#[test]
fn remove_sole_id_on_line_drops_the_line() {
    let out = apply(
        CLIMATE,
        &Edit::RemoveId {
            list_path: vec!["tropical".into()],
            id: "1097".into(),
        },
    )
    .unwrap();
    assert_eq!(
        out,
        b"tropical = {\n\t746 747 748 # west indies\n}\narctic = {\n\t100\n}\n"
    );
}

#[test]
fn id_in_comment_is_not_removed() {
    // The "747" in the comment must not match; only the real token is gone.
    let src = b"tropical = {\n\t# keep 747 in this note\n\t747 748\n}\n";
    let out = apply(
        src,
        &Edit::RemoveId {
            list_path: vec!["tropical".into()],
            id: "747".into(),
        },
    )
    .unwrap();
    assert_eq!(out, b"tropical = {\n\t# keep 747 in this note\n\t748\n}\n");
}

#[test]
fn add_and_remove_id_inline_list() {
    let src = b"members = { 1 2 3 }\n";
    let added = apply(
        src,
        &Edit::AddId {
            list_path: vec!["members".into()],
            id: "4".into(),
        },
    )
    .unwrap();
    assert_eq!(added, b"members = { 1 2 3 4 }\n");
    let removed = apply(
        &added,
        &Edit::RemoveId {
            list_path: vec!["members".into()],
            id: "1".into(),
        },
    )
    .unwrap();
    assert_eq!(removed, b"members = { 2 3 4 }\n");
}

#[test]
fn id_list_crlf_and_high_bytes_roundtrip() {
    // CRLF endings, a comment with a Windows-1252 high byte (0xE9).
    let src = b"tropical = {\r\n\t10 20 30 # caf\xE9\r\n}\r\n";
    let out = apply(
        src,
        &Edit::AddId {
            list_path: vec!["tropical".into()],
            id: "40".into(),
        },
    )
    .unwrap();
    assert_eq!(out, b"tropical = {\r\n\t10 20 30 # caf\xE9\r\n\t40\r\n}\r\n");
}

// --- append / scaffold ----------------------------------------------

#[test]
fn append_adds_separating_newline() {
    let src = b"FRA = { color = { 1 1 1 } }"; // no trailing newline
    let out = apply(
        src,
        &Edit::Append {
            text: "ENG = { color = { 2 2 2 } }".into(),
        },
    )
    .unwrap();
    assert_eq!(
        out,
        b"FRA = { color = { 1 1 1 } }\nENG = { color = { 2 2 2 } }\n"
    );
}

#[test]
fn create_file_encodes_latin1() {
    let out = apply(
        b"",
        &Edit::CreateFile {
            text: "name = \"Caf\u{e9}\"\n".into(),
        },
    )
    .unwrap();
    assert_eq!(out, b"name = \"Caf\xE9\"\n");
}

#[test]
fn rename_ruler_via_toolkit_still_available() {
    // The original operation is unchanged and coexists with the toolkit.
    let out = rename_ruler(SAMPLE, "Karl").unwrap();
    assert!(String::from_utf8(out).unwrap().contains("\"Karl\""));
}

// --- spans API (Sprint 14.1) ----------------------------------------

const TRIGGER: &[u8] = br#"potential = {
	NOT = { has_country_flag = formed_france }
	OR = {
		tag = FRA
		culture_group = french
	}
	183 = { is_state = yes }
}"#;

#[test]
fn block_span_slices_the_braces_inclusive_block() {
    let (s, e) = block_span(TRIGGER, &["potential".into()]).unwrap();
    let slice = &TRIGGER[s..e];
    assert!(slice.starts_with(b"{"));
    assert!(slice.ends_with(b"}"));
    // The nested OR block is reachable and slices to itself.
    let (os, oe) = block_span(TRIGGER, &["potential".into(), "OR".into()]).unwrap();
    let or = String::from_utf8_lossy(&TRIGGER[os..oe]);
    assert!(or.contains("tag = FRA"));
    assert!(or.contains("culture_group = french"));
    assert!(!or.contains("has_country_flag"));
}

#[test]
fn block_children_reports_keys_kinds_and_occurrence() {
    let kids = block_children(TRIGGER, &["potential".into()]).unwrap();
    assert_eq!(kids.len(), 3);
    assert_eq!(kids[0].key.as_deref(), Some("NOT"));
    assert!(kids[0].is_block);
    assert_eq!(kids[1].key.as_deref(), Some("OR"));
    assert_eq!(kids[2].key.as_deref(), Some("183")); // province-id scope
    // Scalar leaf children inside OR.
    let inner = block_children(TRIGGER, &["potential".into(), "OR".into()]).unwrap();
    assert_eq!(inner.len(), 2);
    assert_eq!(inner[0].key.as_deref(), Some("tag"));
    assert!(!inner[0].is_block);
    let (vs, ve) = inner[0].value_span;
    assert_eq!(&TRIGGER[vs..ve], b"FRA");
}

#[test]
fn block_children_occurrence_matches_locate_addressing() {
    // Two same-key sibling blocks: occurrence 0 and 1, addressable via `#n`.
    let src = b"root = {\n\tOR = { a = 1 }\n\tOR = { b = 2 }\n}";
    let kids = block_children(src, &["root".into()]).unwrap();
    assert_eq!(kids[0].occurrence, 0);
    assert_eq!(kids[1].occurrence, 1);
    // The `#1`-addressed span is the SECOND OR block.
    let (s, e) = block_span(src, &["root".into(), "OR#1".into()]).unwrap();
    assert!(String::from_utf8_lossy(&src[s..e]).contains("b = 2"));
}

#[test]
fn anonymous_nested_block_is_a_keyless_child() {
    let src = b"x = { { a = 1 } b }";
    let k = block_children(src, &["x".to_string()]).unwrap();
    assert_eq!(k.len(), 2);
    assert!(k[0].key.is_none());
    assert!(k[0].is_block);
    assert_eq!(k[0].value_span, (6, 15));
    assert_eq!(k[0].stmt_span, (6, 15));
    assert_eq!(k[0].occurrence, 0);
    assert!(k[1].key.is_none());
    assert!(!k[1].is_block);
    assert_eq!(k[1].value_span, (16, 17));
}

#[test]
fn occurrence_suffix_resolves_each_reported_child() {
    let src = b"root = {\n\tOR = { a = 1 }\n\tx = 2\n\tOR = { b = 2 }\n}";
    let kids = block_children(src, &["root".into()]).unwrap();
    for k in kids.iter().filter(|k| k.is_block) {
        let seg = format!("{}#{}", k.key.as_ref().unwrap(), k.occurrence);
        assert_eq!(block_span(src, &["root".into(), seg]), Some(k.value_span));
    }
    assert_eq!(kids[2].value_span, block_span(src, &["root".into(), "OR#1".into()]).unwrap());
}

#[test]
fn zero_suffix_selects_like_the_bare_key() {
    let src = b"l = {\n\t1\n\t2\n}\nl = {\n\t3\n}\n";
    let bare = apply(src, &Edit::AddId { list_path: vec!["l".into()], id: "9".into() });
    let zero = apply(src, &Edit::AddId { list_path: vec!["l#0".into()], id: "9".into() });
    assert_eq!(bare, zero);
    assert_eq!(String::from_utf8(bare.unwrap()).unwrap(), "l = {\n\t1\n\t2\n\t9\n}\nl = {\n\t3\n}\n");
    let bare = apply(src, &Edit::RemoveStatement { block_path: vec![], key: "l".into(), value: None });
    let zero = apply(src, &Edit::RemoveStatement { block_path: vec![], key: "l#0".into(), value: None });
    assert_eq!(bare, zero);
}

#[test]
fn appended_block_removed_by_key_restores_the_file() {
    let src = b"a = 1\nb = { c = 2 }\n";
    let added = apply(src, &Edit::Append { text: "k = { x = { y = 1 } }".into() }).unwrap();
    assert_eq!(added, b"a = 1\nb = { c = 2 }\nk = { x = { y = 1 } }\n".to_vec());
    let back = apply(&added, &Edit::RemoveStatement { block_path: vec![], key: "k".into(), value: None }).unwrap();
    assert_eq!(back, src.to_vec());
}

#[test]
fn scalar_child_path_rewrites_its_value() {
    let src = b"a = { b = 1 c = { b = 5 } }";
    let kids = block_children(src, &["a".into()]).unwrap();
    let k = &kids[0];
    assert_eq!(k.key.as_deref(), Some("b"));
    let out = apply(src, &Edit::SetScalar { path: vec!["a".into(), "b".into()], value: "7".into(), quoted: false }).unwrap();
    let mut want = src.to_vec();
    want.splice(k.value_span.0..k.value_span.1, b"7".iter().copied());
    assert_eq!(out, want);
}

#[test]
fn unencodable_char_error_names_the_char_and_code_point() {
    let e = apply(b"a = 1\n", &Edit::SetScalar { path: vec!["a".into()], value: "x\u{20ac}".into(), quoted: false })
        .unwrap_err();
    assert_eq!(e, "Character '\u{20ac}' (U+20AC) is not encodable as Windows-1252/Latin-1");
    let e = apply(b"", &Edit::Append { text: "\u{1F600}".into() }).unwrap_err();
    assert_eq!(e, "Character '\u{1F600}' (U+1F600) is not encodable as Windows-1252/Latin-1");
}
