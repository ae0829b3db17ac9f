use eu_toolkit::paradox::parse;


#[test]
fn parses_nested_script() {
    let text = r#"
# comment
name = "My Mod"
owner = SWE
1450.1.1 = { owner = DAN } # dated block
tags = { 1 2 3 }
group = {
catholic = {
    color = { 0.8 0.6 0.0 }
}
}
"#;
    let b = parse(text);
    assert_eq!(b.get_scalar("name"), Some("My Mod"));
    assert_eq!(b.get_scalar("owner"), Some("SWE"));
    assert_eq!(b.get_block("tags").unwrap().bare_ids(), vec![1, 2, 3]);
    let dated = b.get_block("1450.1.1").unwrap();
    assert_eq!(dated.get_scalar("owner"), Some("DAN"));
    let catholic = b
        .get_block("group")
        .unwrap()
        .get_block("catholic")
        .unwrap();
    // The color channels are floats, read by the app layer; here the block
    // they come from must parse to its three bare channel values.
    assert_eq!(
        catholic.get_block("color").unwrap().bare_scalars(),
        vec!["0.8", "0.6", "0.0"]
    );
}

