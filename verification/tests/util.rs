use rim::util::get_absolute_path;

#[test]
fn absolute_path_without_marker_is_unchanged() {
    assert_eq!(get_absolute_path("/home/user/pictures/a.png"), "/home/user/pictures/a.png");
    assert_eq!(get_absolute_path("C:\\Users\\me\\a.png"), "C:\\Users\\me\\a.png");
    assert_eq!(get_absolute_path(""), "");
    assert_eq!(get_absolute_path("\\\\?"), "\\\\?");
    assert_eq!(get_absolute_path("\\?\\"), "\\?\\");
}

#[test]
fn absolute_path_loses_its_marker() {
    assert_eq!(get_absolute_path("\\\\?\\C:\\Users\\me\\a.png"), "C:\\Users\\me\\a.png");
    assert_eq!(get_absolute_path("\\\\?\\"), "");
}

#[test]
fn absolute_path_loses_every_marker() {
    assert_eq!(get_absolute_path("\\\\?\\a\\\\?\\b"), "ab");
    assert_eq!(get_absolute_path("\\\\?\\\\\\?\\x"), "x");
    assert_eq!(get_absolute_path("x\\\\?\\"), "x");
}

#[test]
fn absolute_path_finds_markers_from_the_left() {
    // Three backslashes: the first stays, the marker begins at the second.
    assert_eq!(get_absolute_path("\\\\\\?\\x"), "\\x");
    // What is left after a marker is not searched again.
    assert_eq!(get_absolute_path("\\\\\\\\?\\?\\"), "\\\\?\\");
    assert_eq!(get_absolute_path("\\\\?\\\\?\\"), "\\?\\");
}

#[test]
fn absolute_path_keeps_characters_of_any_width() {
    assert_eq!(get_absolute_path("\\\\?\\C:\\Bilder\\grün\\日本.png"), "C:\\Bilder\\grün\\日本.png");
    assert_eq!(get_absolute_path("é\\\\?\\é"), "éé");
}

#[test]
fn absolute_path_agrees_with_replace() {
    let samples = [
        "",
        "\\",
        "\\\\",
        "\\\\?",
        "\\\\?\\",
        "\\\\?\\\\",
        "\\\\\\?\\",
        "\\\\?\\\\?\\",
        "\\\\?\\?\\\\?\\",
        "a\\\\?\\b\\\\?\\c\\\\?",
        "\\\\?\\UNC\\server\\share\\file.jpg",
        "/tmp/\\\\?\\/x",
        "??\\\\??\\\\?\\?",
    ];
    for sample in samples {
        assert_eq!(get_absolute_path(sample), sample.replace("\\\\?\\", ""));
    }
}
