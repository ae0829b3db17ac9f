use eu_toolkit::mod_loader::{apply_descriptor, mod_info, mod_info_with, parse_descriptor, DescValue, ModInfo};

fn blank_info() -> ModInfo {
    ModInfo {
        path: String::new(),
        name: "fallback".into(),
        version: None,
        supported_version: None,
        tags: Vec::new(),
        replace_paths: Vec::new(),
        has_descriptor: true,
        directories: Vec::new(),
        files: Vec::new(),
    }
}

#[test]
fn parses_typical_descriptor() {
    let text = r#"
name="My Great Mod"
version="1.2"
tags={
	"Gameplay"
	"National Ideas"
}
supported_version="1.37.*"
replace_path="history/wars"
# a comment
path="mod/my_great_mod"
"#;
    let mut info = blank_info();
    apply_descriptor(&mut info, text);
    assert_eq!(info.name, "My Great Mod");
    assert_eq!(info.version.as_deref(), Some("1.2"));
    assert_eq!(info.supported_version.as_deref(), Some("1.37.*"));
    assert_eq!(info.tags, vec!["Gameplay", "National Ideas"]);
    assert_eq!(info.replace_paths, vec!["history/wars"]);
}

#[test]
fn bare_values_comments_and_repeats() {
    let text = "name = Bare # trailing\nreplace_path=\"a\"\nreplace_path=\"b\"\nname=\"Second\"\n=junk\nversion\n";
    let mut info = blank_info();
    apply_descriptor(&mut info, text);
    assert_eq!(info.name, "Second");
    assert_eq!(info.replace_paths, vec!["a", "b"]);
    assert_eq!(info.version, None);
    assert_eq!(info.path, "");
}

#[test]
fn parse_descriptor_pairs_in_order() {
    let pairs = parse_descriptor("a=\"x y\" b={ \"1\" junk \"2\" } c=plain d=\"open");
    assert_eq!(pairs.len(), 4);
    assert_eq!(pairs[0].0, "a");
    assert!(matches!(&pairs[0].1, DescValue::Scalar(s) if s == "x y"));
    assert!(matches!(&pairs[1].1, DescValue::List(v) if v == &vec!["1".to_string(), "2".to_string()]));
    assert!(matches!(&pairs[2].1, DescValue::Scalar(s) if s == "plain"));
    assert!(matches!(&pairs[3].1, DescValue::Scalar(s) if s == "open"));
}

#[test]
fn tags_of_wrong_shape_are_ignored() {
    let mut info = blank_info();
    info.tags = vec!["Keep".into()];
    apply_descriptor(&mut info, "tags=\"not a list\"\nname={ \"not\" \"a scalar\" }");
    assert_eq!(info.tags, vec!["Keep"]);
    assert_eq!(info.name, "fallback");
}

#[test]
fn mod_info_sorts_names_case_insensitively() {
    let dirs = vec!["events".to_string(), "Common".to_string(), "gfx".to_string()];
    let files = vec!["b.txt".to_string(), "A.mod".to_string(), "descriptor.mod".to_string()];
    let info = mod_info_with(
        "/mods/my_mod",
        Some("my_mod".to_string()),
        Some("name = \"My Mod\"\nversion = \"1.2\"\ntags = { \"Gameplay\" }\nreplace_path = \"history/provinces\"\n"),
        dirs,
        files,
    );
    assert_eq!(info.name, "My Mod");
    assert_eq!(info.version.as_deref(), Some("1.2"));
    assert!(info.has_descriptor);
    assert_eq!(info.tags, vec!["Gameplay".to_string()]);
    assert_eq!(info.replace_paths, vec!["history/provinces".to_string()]);
    assert_eq!(info.directories, vec!["Common".to_string(), "events".to_string(), "gfx".to_string()]);
    assert_eq!(info.files, vec!["A.mod".to_string(), "b.txt".to_string(), "descriptor.mod".to_string()]);
}

#[test]
fn mod_info_without_descriptor_uses_folder_then_path() {
    let info = mod_info_with("/mods/x", Some("x".to_string()), None, Vec::new(), Vec::new());
    assert_eq!(info.name, "x");
    assert!(!info.has_descriptor);
    assert!(info.version.is_none());
    let bare = mod_info_with("/", None, None, Vec::new(), Vec::new());
    assert_eq!(bare.name, "/");
    let named = mod_info("/mods/folder_name", None, Vec::new(), Vec::new());
    assert_eq!(named.name, "folder_name");
}
