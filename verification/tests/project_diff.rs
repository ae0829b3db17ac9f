use eu_toolkit::project_diff::{classify_entries, diff_texts, is_binary, line_diff, split_lines};

#[test]
fn lcs_pure_add_and_del() {
    let d = line_diff(&["a", "b", "c"], &["a", "x", "b", "c"]);
    assert_eq!(d.iter().filter(|l| l.tag == "add").count(), 1);
    assert_eq!(d.iter().filter(|l| l.tag == "del").count(), 0);
    assert_eq!(d.iter().filter(|l| l.tag == "same").count(), 3);
}

#[test]
fn line_diff_marks_edits() {
    let base = "catholic = { icon = 1 }\nprotestant = { icon = 2 }\northo = { icon = 3 }\n";
    let modv = "catholic = { icon = 1 }\nprotestant = { icon = 99 }\northo = { icon = 3 }\n";
    let d = diff_texts("common/religions/00_religion.txt", Some((base.len() as u64, base.to_string())), modv.len() as u64, modv);
    assert!(!d.binary && !d.added);
    // The changed middle line appears as a del + add pair; the outer lines same.
    assert!(d.lines.iter().any(|l| l.tag == "del" && l.text.contains("icon = 2")));
    assert!(d.lines.iter().any(|l| l.tag == "add" && l.text.contains("icon = 99")));
    assert_eq!(d.lines.iter().filter(|l| l.tag == "same").count(), 2);
}

#[test]
fn added_and_binary_have_no_line_diff() {
    let d = diff_texts("common/cultures/00_cultures.txt", None, 11, "euro = { }\n");
    assert!(d.added && d.lines.is_empty());
    let b = diff_texts("gfx/flags/A38.tga", None, 6, "");
    assert!(b.binary && b.lines.is_empty() && b.mod_size == 6);
    let shadowed = diff_texts("gfx/flags/B.DDS", Some((3, "abc".into())), 4, "abcd");
    assert!(shadowed.binary && !shadowed.added && shadowed.lines.is_empty() && shadowed.base_size == 3);
}

#[test]
fn diff_walk_order_and_sides() {
    let d = line_diff(&["a", "b", "c", "d"], &["b", "x", "d", "e"]);
    let tags: Vec<(&str, &str)> = d.iter().map(|l| (l.tag.as_str(), l.text.as_str())).collect();
    assert_eq!(
        tags,
        vec![("del", "a"), ("same", "b"), ("del", "c"), ("add", "x"), ("same", "d"), ("add", "e")]
    );
    // Base side and mod side come back out of the script.
    let base: Vec<&str> = d.iter().filter(|l| l.tag != "add").map(|l| l.text.as_str()).collect();
    let modv: Vec<&str> = d.iter().filter(|l| l.tag != "del").map(|l| l.text.as_str()).collect();
    assert_eq!(base, vec!["a", "b", "c", "d"]);
    assert_eq!(modv, vec!["b", "x", "d", "e"]);
    assert!(line_diff(&[], &[]).is_empty());
}

#[test]
fn split_lines_matches_str_lines() {
    for t in ["", "a", "a\n", "a\r\nb", "a\n\nb\r\n", "x\r", "\n", "a\rb\n"] {
        let expect: Vec<String> = t.lines().map(str::to_string).collect();
        assert_eq!(split_lines(t), expect, "{t:?}");
    }
}

#[test]
fn binary_extensions_are_case_insensitive() {
    assert!(is_binary("gfx/flags/A38.TGA"));
    assert!(is_binary("music/x.ogg"));
    assert!(!is_binary("common/a.txt"));
    assert!(!is_binary("no_extension"));
    assert!(!is_binary("dir.bmp/file"));
    assert!(is_binary(".webp"));
}

#[test]
fn classify_entries_classes_and_sorts() {
    let files = vec![
        ("history/provinces/1 - Uppland.txt".to_string(), 120u64, true),
        ("gfx/flags/ABC.tga".to_string(), 4000u64, false),
        ("common/ideas/zz.txt".to_string(), 10u64, false),
    ];
    let hidden = vec![("history/provinces".to_string(), 3000usize), ("common/ideas".to_string(), 40usize)];
    let c = classify_entries(files, hidden);
    let rels: Vec<&str> = c.files.iter().map(|f| f.rel.as_str()).collect();
    assert_eq!(rels, vec!["common/ideas/zz.txt", "gfx/flags/ABC.tga", "history/provinces/1 - Uppland.txt"]);
    assert_eq!(c.files[0].class, "added");
    assert!(!c.files[0].binary);
    assert!(c.files[1].binary);
    assert_eq!(c.files[1].size, 4000);
    assert_eq!(c.files[2].class, "shadows");
    let h: Vec<(&str, usize)> = c.hidden.iter().map(|h| (h.rel.as_str(), h.base_file_count)).collect();
    assert_eq!(h, vec![("common/ideas", 40), ("history/provinces", 3000)]);
}
