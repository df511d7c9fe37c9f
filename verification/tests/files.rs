use aspect45::files::{
    collect_image_files, generate_output_path, is_supported_image, OutputNames, PathError,
    WalkEntry,
};

fn entry(is_file: bool, extension: Option<&str>) -> WalkEntry {
    WalkEntry { is_file, extension: extension.map(|e| e.to_string()) }
}

#[test]
fn supported_extensions() {
    assert!(is_supported_image(Some("jpg")));
    assert!(is_supported_image(Some("jpeg")));
    assert!(is_supported_image(Some("png")));
    assert!(is_supported_image(Some("webp")));
}

#[test]
fn extension_case_is_ignored() {
    assert!(is_supported_image(Some("JPG")));
    assert!(is_supported_image(Some("Jpeg")));
    assert!(is_supported_image(Some("pNg")));
    assert!(is_supported_image(Some("WEBP")));
    assert!(is_supported_image(Some("jPeG")));
}

#[test]
fn other_extensions_are_not_supported() {
    assert!(!is_supported_image(Some("gif")));
    assert!(!is_supported_image(Some("bmp")));
    assert!(!is_supported_image(Some("jpg2")));
    assert!(!is_supported_image(Some("jp")));
    assert!(!is_supported_image(Some("")));
    assert!(!is_supported_image(Some(".jpg")));
    assert!(!is_supported_image(Some("jpg ")));
    assert!(!is_supported_image(Some("tiff")));
    assert!(!is_supported_image(Some("pn\u{0261}")));
    assert!(!is_supported_image(Some("\u{212A}pg")));
    assert!(!is_supported_image(Some("*PG")));
    assert!(!is_supported_image(Some("Jp\u{47}\u{301}")));
}

#[test]
fn no_extension_is_not_supported() {
    assert!(!is_supported_image(None));
}

#[test]
fn extension_test_agrees_with_lowercasing() {
    let samples: [&str; 14] = [
        "jpg", "JPG", "Jpg", "jpeg", "JPEG", "png", "PNG", "webp", "WebP", "gif", "", "jpe", "pngg",
        "wEbP",
    ];
    for s in samples.iter() {
        let low: String = s.to_lowercase();
        let expected: bool = matches!(low.as_str(), "jpg" | "jpeg" | "png" | "webp");
        assert_eq!(is_supported_image(Some(s)), expected, "{}", s);
    }
}

#[test]
fn collect_keeps_image_files_in_walk_order() {
    let entries: Vec<WalkEntry> = vec![
        entry(false, None),
        entry(true, Some("jpg")),
        entry(true, Some("txt")),
        entry(true, Some("PNG")),
        entry(false, Some("png")),
        entry(true, None),
        entry(true, Some("webp")),
        entry(true, Some("jpeg")),
    ];
    assert_eq!(collect_image_files(&entries), vec![1usize, 3, 6, 7]);
}

#[test]
fn collect_of_nothing_is_nothing() {
    assert_eq!(collect_image_files(&Vec::new()), Vec::<usize>::new());
    let entries: Vec<WalkEntry> = vec![entry(true, Some("gif")), entry(false, Some("jpg"))];
    assert_eq!(collect_image_files(&entries), Vec::<usize>::new());
}

#[test]
fn output_is_named_after_the_stem() {
    assert_eq!(
        generate_output_path(true, Some("photo")),
        Ok(OutputNames {
            file_name: "photo_processed.jpg".to_string(),
            scratch_name: "photo_processed.tmp.jpg".to_string(),
        })
    );
    assert_eq!(
        generate_output_path(true, Some("a.b")).unwrap().file_name,
        "a.b_processed.jpg".to_string()
    );
    assert_eq!(
        generate_output_path(true, Some("")).unwrap().file_name,
        "_processed.jpg".to_string()
    );
}

#[test]
fn output_names_agree_with_std_paths() {
    let input = std::path::Path::new("dir/sub/holiday.PNG");
    let stem: String = input.file_stem().unwrap().to_string_lossy().into_owned();
    let names = generate_output_path(input.parent().is_some(), Some(stem.as_str())).unwrap();
    let output = input.parent().unwrap().join(&names.file_name);
    assert_eq!(output, std::path::Path::new("dir/sub/holiday_processed.jpg"));
    assert_eq!(
        output.with_extension("tmp.jpg"),
        input.parent().unwrap().join(&names.scratch_name)
    );
}

#[test]
fn path_without_parent_is_an_error() {
    assert_eq!(generate_output_path(false, Some("photo")), Err(PathError::NoParent));
    assert_eq!(generate_output_path(false, None), Err(PathError::NoParent));
}

#[test]
fn path_without_stem_is_an_error() {
    assert_eq!(generate_output_path(true, None), Err(PathError::NoStem));
}
