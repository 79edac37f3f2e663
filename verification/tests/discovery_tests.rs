use bayer_dither::discovery::{
    check_image_file, equals_ignoring_ascii_case, has_image_extension, list_image_files, WalkEntry,
    WalkItem,
};

fn file(path: &str, extension: Option<&str>) -> WalkItem {
    WalkItem::Found(WalkEntry {
        path: path.to_string(),
        is_file: true,
        extension: extension.map(|e| e.to_string()),
    })
}

fn directory(path: &str, extension: Option<&str>) -> WalkItem {
    WalkItem::Found(WalkEntry {
        path: path.to_string(),
        is_file: false,
        extension: extension.map(|e| e.to_string()),
    })
}

#[test]
fn the_seven_extensions_are_recognised() {
    for extension in ["jpg", "jpeg", "png", "gif", "webp", "tiff", "bmp"] {
        assert!(has_image_extension(extension));
    }
}

#[test]
fn case_of_the_extension_does_not_matter() {
    for extension in ["JPG", "Jpeg", "pNg", "GIF", "WebP", "TIFF", "Bmp"] {
        assert!(has_image_extension(extension));
    }
}

#[test]
fn other_extensions_are_not_recognised() {
    for extension in ["", "txt", "jp", "jpgg", "tif", "svg", "png ", ".png", "jpég", "ｊｐｇ"] {
        assert!(!has_image_extension(extension));
    }
}

#[test]
fn comparison_folds_only_the_text() {
    assert!(equals_ignoring_ascii_case("ABC", "abc"));
    assert!(equals_ignoring_ascii_case("abc", "abc"));
    assert!(!equals_ignoring_ascii_case("abc", "ABC"));
    assert!(!equals_ignoring_ascii_case("abcd", "abc"));
    assert!(equals_ignoring_ascii_case("", ""));
    assert!(equals_ignoring_ascii_case("Z@[`{", "z@[`{"));
}

#[test]
fn discovery_selects_the_image_and_leaves_the_notes() {
    let items = vec![file("pics/a.jpg", Some("jpg")), file("pics/notes.txt", Some("txt"))];
    assert_eq!(list_image_files(&items), vec![String::from("pics/a.jpg")]);
}

#[test]
fn empty_walk_finds_nothing() {
    let items: Vec<WalkItem> = Vec::new();
    assert!(list_image_files(&items).is_empty());
}

#[test]
fn directories_and_unreadable_entries_are_passed_over() {
    let items = vec![
        directory("pics", None),
        directory("pics/album.png", Some("png")),
        WalkItem::Unreadable,
        file("pics/a.PNG", Some("PNG")),
        file("pics/README", None),
        WalkItem::Unreadable,
        file("pics/sub/b.webp", Some("webp")),
    ];
    assert!(!check_image_file(&items[1]));
    assert!(!check_image_file(&items[2]));
    assert!(check_image_file(&items[3]));
    assert!(!check_image_file(&items[4]));
    assert_eq!(
        list_image_files(&items),
        vec![String::from("pics/a.PNG"), String::from("pics/sub/b.webp")]
    );
}

#[test]
fn walk_order_is_kept() {
    let items = vec![
        file("z.bmp", Some("bmp")),
        file("a.gif", Some("gif")),
        file("m.tiff", Some("tiff")),
    ];
    assert_eq!(
        list_image_files(&items),
        vec![String::from("z.bmp"), String::from("a.gif"), String::from("m.tiff")]
    );
}
