use eu_toolkit::province_edit::{
    apply_ops, default_map_max, distinct_color, encode_bmp24, history_text, prepare_add_province, safe_stem,
    BmpOp, SourceState, TypedEdit,
};

/// Decodes BMP bytes back to a top-down RGB buffer for assertions.
fn decode_rgb(bytes: &[u8]) -> (usize, usize, Vec<u8>) {
    let img = image::load_from_memory(bytes).unwrap().to_rgb8();
    let (w, h) = img.dimensions();
    (w as usize, h as usize, img.into_raw())
}

/// Builds a small BMP from a top-down RGB buffer via the module's encoder.
fn make_bmp(width: usize, height: usize, rgb: &[u8]) -> Vec<u8> {
    encode_bmp24(rgb, width, height)
}

#[test]
fn encode_decode_round_trips_with_padding() {
    let w = 3;
    let h = 2;
    let rgb: Vec<u8> = (0..(w * h * 3) as u8).collect();
    let bmp = make_bmp(w, h, &rgb);
    let (dw, dh, back) = decode_rgb(&bmp);
    assert_eq!((dw, dh), (w, h));
    assert_eq!(back, rgb, "pixels survive encode->decode byte-for-byte");
}

#[test]
fn apply_no_ops_is_pixel_identity() {
    let w = 4;
    let h = 4;
    let rgb: Vec<u8> = (0..(w * h * 3)).map(|i| (i % 256) as u8).collect();
    let bmp = make_bmp(w, h, &rgb);
    let out = apply_ops(&bmp, &[]).unwrap();
    let (_, _, back) = decode_rgb(&out);
    assert_eq!(back, rgb);
}

#[test]
fn paint_sets_listed_pixels_only() {
    let rgb = vec![10, 10, 10, 20, 20, 20, 30, 30, 30, 40, 40, 40];
    let bmp = make_bmp(2, 2, &rgb);
    let out = apply_ops(&bmp, &[BmpOp::Paint { pixels: vec![1, 2], color: [99, 88, 77] }]).unwrap();
    let (_, _, back) = decode_rgb(&out);
    assert_eq!(&back[0..3], &[10, 10, 10]);
    assert_eq!(&back[3..6], &[99, 88, 77]);
    assert_eq!(&back[6..9], &[99, 88, 77]);
    assert_eq!(&back[9..12], &[40, 40, 40]);
}

#[test]
fn paint_ignores_out_of_range_indices() {
    let bmp = make_bmp(2, 1, &[1, 1, 1, 2, 2, 2]);
    let out = apply_ops(&bmp, &[BmpOp::Paint { pixels: vec![0, 5], color: [7, 7, 7] }]).unwrap();
    let (_, _, back) = decode_rgb(&out);
    assert_eq!(&back[0..3], &[7, 7, 7]);
    assert_eq!(&back[3..6], &[2, 2, 2]);
}

#[test]
fn dissolve_divides_region_between_two_neighbors() {
    let a = [1u8, 0, 0];
    let x = [9u8, 9, 9];
    let b = [0u8, 0, 1];
    let rgb = vec![a[0], a[1], a[2], x[0], x[1], x[2], x[0], x[1], x[2], b[0], b[1], b[2]];
    let bmp = make_bmp(4, 1, &rgb);
    let out = apply_ops(&bmp, &[BmpOp::Dissolve { from: x, into: vec![a, b] }]).unwrap();
    let (_, _, back) = decode_rgb(&out);
    assert_eq!(&back[0..3], &a);
    assert_eq!(&back[3..6], &a, "left X nearest to A");
    assert_eq!(&back[6..9], &b, "right X nearest to B");
    assert_eq!(&back[9..12], &b);
    assert!(!back.chunks_exact(3).any(|c| c == x));
}

#[test]
fn dissolve_single_target_is_a_plain_merge() {
    let a = [1u8, 2, 3];
    let x = [9u8, 9, 9];
    let rgb = vec![a[0], a[1], a[2], x[0], x[1], x[2], x[0], x[1], x[2]];
    let bmp = make_bmp(3, 1, &rgb);
    let out = apply_ops(&bmp, &[BmpOp::Dissolve { from: x, into: vec![a] }]).unwrap();
    let (_, _, back) = decode_rgb(&out);
    assert!(back.chunks_exact(3).all(|c| c == a));
}

#[test]
fn dissolve_enclosed_region_falls_back_to_first_target() {
    let x = [9u8, 9, 9];
    let c = [5u8, 5, 5];
    let t = [1u8, 1, 1];
    let rgb = vec![c[0], c[1], c[2], x[0], x[1], x[2], c[0], c[1], c[2]];
    let bmp = make_bmp(3, 1, &rgb);
    let out = apply_ops(&bmp, &[BmpOp::Dissolve { from: x, into: vec![t] }]).unwrap();
    let (_, _, back) = decode_rgb(&out);
    assert_eq!(&back[3..6], &t, "unreachable region falls back to into[0]");
    assert!(!back.chunks_exact(3).any(|col| col == x));
}

#[test]
fn add_province_scaffold_builds_and_applies() {
    // A 2x2 base bitmap; two defined provinces (colors match the pixels).
    let mut img = image::RgbImage::new(2, 2);
    img.put_pixel(0, 0, image::Rgb([1, 1, 1]));
    img.put_pixel(1, 0, image::Rgb([2, 2, 2]));
    img.put_pixel(0, 1, image::Rgb([1, 1, 1]));
    img.put_pixel(1, 1, image::Rgb([2, 2, 2]));
    let mut bmp = Vec::new();
    img.write_to(&mut std::io::Cursor::new(&mut bmp), image::ImageFormat::Bmp).unwrap();
    // definition.csv WITHOUT a trailing newline (the real file's shape).
    let csv: &[u8] = b"province;red;green;blue;x;x\n1;1;1;1;Alpha;x\n2;2;2;2;Beta;x";
    let defs = vec![(1u32, [1u8, 1, 1]), (2u32, [2u8, 2, 2])];
    let max = default_map_max(b"max_provinces = 3\nsea_starts = { }\nlakes = { }\n");
    assert_eq!(max, Some(3));
    let areas = vec![("test_area".to_string(), vec![1u32, 2])];
    let histories = vec![(
        1u32,
        SourceState {
            culture: Some("swedish".to_string()),
            religion: Some("catholic".to_string()),
            trade_goods: Some("grain".to_string()),
        },
    )];
    // Carve pixel (1,1) [top-down idx 3] out of province 2 into a new province.
    let scaffold = prepare_add_province(vec![3], "New Land", 1, &defs, &areas, &histories, csv, max).unwrap();

    assert_eq!(scaffold.id, 3, "id = max defined + 1");
    assert_eq!(scaffold.area, "test_area");
    assert_ne!(scaffold.color, [1, 1, 1]);
    assert_ne!(scaffold.color, [2, 2, 2]);

    let [r, g, b] = scaffold.color;
    let mut saw_bmp = false;
    let mut saw_max = false;
    for e in &scaffold.edits {
        match e {
            TypedEdit::ProvinceBmp { file, ops } => {
                assert_eq!(file, "map/provinces.bmp");
                let out = apply_ops(&bmp, ops).unwrap();
                let back = image::load_from_memory(&out).unwrap().to_rgb8();
                assert_eq!(back.get_pixel(1, 1).0, scaffold.color);
                assert_eq!(back.get_pixel(0, 0).0, [1, 1, 1]);
                assert_eq!(back.get_pixel(1, 0).0, [2, 2, 2]);
                saw_bmp = true;
            },
            TypedEdit::AppendText { file, text } => {
                assert_eq!(file, "map/definition.csv");
                let defs_after = format!("{}{}", String::from_utf8_lossy(csv), text);
                assert!(defs_after.contains(&format!("\n3;{r};{g};{b};New Land;x\n")), "row appended: {defs_after:?}");
                assert!(defs_after.contains("2;2;2;2;Beta;x"), "existing rows intact");
            },
            TypedEdit::SetScalar { file, path, value, quoted } => {
                assert_eq!(file, "map/default.map");
                assert_eq!(path, &vec!["max_provinces".to_string()]);
                assert_eq!(value, "4");
                assert!(!quoted);
                saw_max = true;
            },
            TypedEdit::AddId { file, list_path, id } => {
                assert_eq!(file, "map/area.txt");
                assert_eq!(list_path, &vec!["test_area".to_string()]);
                assert_eq!(id, "3");
            },
            TypedEdit::CreateFile { file, text } => {
                assert_eq!(file, "history/provinces/3 - New Land.txt");
                assert!(text.contains("culture = swedish"));
                assert!(text.contains("religion = catholic"));
                assert!(text.contains("trade_goods = grain"));
            },
            TypedEdit::LocOverride { key, value } => {
                assert_eq!(key, "PROV3");
                assert_eq!(value, "New Land");
            },
        }
    }
    assert!(saw_bmp && saw_max);
}

#[test]
fn ops_compose_in_order() {
    let a = [2u8, 2, 2];
    let rgb = vec![a[0], a[1], a[2], 8, 8, 8];
    let bmp = make_bmp(2, 1, &rgb);
    let new = [50u8, 60, 70];
    let out = apply_ops(
        &bmp,
        &[BmpOp::Paint { pixels: vec![1], color: new }, BmpOp::Dissolve { from: new, into: vec![a] }],
    )
    .unwrap();
    let (_, _, back) = decode_rgb(&out);
    assert!(back.chunks_exact(3).all(|c| c == a));
}

#[test]
fn dissolve_without_target_is_an_error() {
    let bmp = make_bmp(1, 1, &[1, 2, 3]);
    let e = apply_ops(&bmp, &[BmpOp::Dissolve { from: [1, 2, 3], into: vec![] }]).unwrap_err();
    assert_eq!(e, "dissolve needs at least one target province");
    assert!(apply_ops(b"not an image", &[]).is_err());
}

#[test]
fn encoded_header_fields() {
    let bmp = encode_bmp24(&[1, 2, 3], 1, 1);
    // 54-byte header + one row of 3 bytes padded to 4.
    assert_eq!(bmp.len(), 58);
    assert_eq!(&bmp[0..2], b"BM");
    assert_eq!(&bmp[2..6], &58u32.to_le_bytes());
    assert_eq!(&bmp[10..14], &54u32.to_le_bytes());
    assert_eq!(&bmp[28..30], &24u16.to_le_bytes());
    assert_eq!(&bmp[54..58], &[3, 2, 1, 0], "stored B, G, R then padding");
}

#[test]
fn stem_and_errors_and_history() {
    assert_eq!(safe_stem("  Nova  Scotia!! "), "Nova Scotia");
    assert_eq!(safe_stem("???"), "Province");
    assert_eq!(safe_stem("Île-de-France"), "le-de-France");
    assert_eq!(history_text("X", None), "# X - added by EU Toolkit\n");
    let defs = vec![(1u32, [1u8, 1, 1])];
    let areas: Vec<(String, Vec<u32>)> = vec![("a".to_string(), vec![1])];
    let none: Vec<(u32, SourceState)> = Vec::new();
    assert_eq!(prepare_add_province(vec![], "N", 1, &defs, &areas, &none, b"", None).unwrap_err(), "No pixels were carved for the new province");
    assert_eq!(prepare_add_province(vec![0], "   ", 1, &defs, &areas, &none, b"", None).unwrap_err(), "The new province needs a name");
    assert_eq!(prepare_add_province(vec![0], "N", 1, &vec![], &areas, &none, b"", None).unwrap_err(), "map/definition.csv has no province definitions");
    assert_eq!(
        prepare_add_province(vec![0], "N", 7, &defs, &areas, &none, b"", None).unwrap_err(),
        "Source province 7 is not in any area; carve from a province that belongs to an area"
    );
    let sc = prepare_add_province(vec![0], " N ", 1, &defs, &areas, &none, b"x\n", Some(10)).unwrap();
    assert_eq!(sc.name, "N");
    assert_eq!(sc.edits.len(), 5, "no ceiling bump when max is high enough");
}

#[test]
fn distinct_color_skips_used() {
    let first = distinct_color(&vec![], 3);
    let second = distinct_color(&vec![first], 3);
    assert_ne!(first, second);
    assert_eq!(distinct_color(&vec![], 3), first, "deterministic");
}

#[test]
fn dissolve_floods_each_pixel_from_its_nearest_target() {
    let a = [10u8, 0, 0];
    let b = [0u8, 20, 0];
    let f = [9u8, 9, 9];
    let row = [a, f, f, f, f, b];
    let mut rgb: Vec<u8> = row.iter().flat_map(|c| c.iter().copied()).collect();
    eu_toolkit::province_edit::dissolve(&mut rgb, 6, 1, f, &vec![a, b]).unwrap();
    let got: Vec<[u8; 3]> = rgb.chunks(3).map(|c| [c[0], c[1], c[2]]).collect();
    assert_eq!(got, vec![a, a, a, b, b, b]);
    // A region no target borders takes the first target.
    let mut lone: Vec<u8> = [f, f].iter().flat_map(|c| c.iter().copied()).collect();
    eu_toolkit::province_edit::dissolve(&mut lone, 2, 1, f, &vec![b, a]).unwrap();
    assert_eq!(lone, vec![0, 20, 0, 0, 20, 0]);
}

#[test]
fn undecodable_bitmap_error_names_the_file() {
    let e = apply_ops(b"not a bitmap", &[]).unwrap_err();
    assert!(e.starts_with("Failed to decode provinces.bmp: "), "{e}");
}

#[test]
fn new_colour_avoids_every_used_colour() {
    let used: Vec<[u8; 3]> = (0..300u32).map(|i| [(i % 7) as u8, (i % 5) as u8, (i % 3) as u8]).collect();
    for seed in [0u32, 1, 2, 1000, u32::MAX] {
        let c = distinct_color(&used, seed);
        assert!(!used.contains(&c));
    }
    // The walk's first colour from seed 0 is 0x000001.
    assert_eq!(distinct_color(&Vec::new(), 0), [0, 0, 1]);
}
