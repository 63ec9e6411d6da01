use bloop::paths::{dropped_path_candidates, extract_dropped_paths, percent_decode, safe_attachment_file_name};

#[test]
fn attachment_file_name_drops_path_components() {
    assert_eq!(
        safe_attachment_file_name("../../outside.txt", "guid-1"),
        "outside.txt"
    );
    assert_eq!(safe_attachment_file_name("/etc/passwd", "guid-1"), "passwd");
    assert_eq!(
        safe_attachment_file_name("C:\\Users\\me\\photo.jpg", "guid-1"),
        "photo.jpg"
    );
}

#[test]
fn attachment_file_name_falls_back_to_guid_for_empty_names() {
    assert_eq!(safe_attachment_file_name("", "guid-1"), "guid-1");
    assert_eq!(safe_attachment_file_name("../", "guid-1"), "guid-1");
    assert_eq!(safe_attachment_file_name("..", "guid-1"), "guid-1");
}

#[test]
fn attachment_file_name_trims_and_replaces_nul() {
    assert_eq!(safe_attachment_file_name("  report.pdf  ", "g"), "report.pdf");
    assert_eq!(safe_attachment_file_name("a\0b.txt", "g"), "a_b.txt");
    assert_eq!(safe_attachment_file_name("dir/.", "g"), "g");
    assert_eq!(safe_attachment_file_name("dir/   ", "g"), "g");
}

#[test]
fn percent_decode_decodes_escapes() {
    assert_eq!(percent_decode("a%20b"), "a b");
    assert_eq!(percent_decode("%41%42c"), "ABc");
    assert_eq!(percent_decode("%7e"), "~");
    assert_eq!(percent_decode("plain"), "plain");
}

#[test]
fn percent_decode_keeps_bad_escapes_as_percent() {
    // A `%` always takes the two bytes after it.
    assert_eq!(percent_decode("100%zz!"), "100%!");
    assert_eq!(percent_decode("end%4"), "end%");
    assert_eq!(percent_decode("%"), "%");
}

#[test]
fn percent_decode_decodes_bytes_one_by_one() {
    // Each byte of a multi-byte character becomes its own character.
    assert_eq!(percent_decode("%C3%A9"), "\u{c3}\u{a9}");
    assert_eq!(percent_decode("é"), "\u{c3}\u{a9}");
}

#[test]
fn dropped_paths_are_split_on_spaces_and_quotes() {
    let c = dropped_path_candidates("/tmp/a.png '/tmp/b c.png' \"/tmp/d.txt\"");
    assert_eq!(c, vec!["/tmp/a.png".to_string(), "/tmp/b c.png".to_string(), "/tmp/d.txt".to_string()]);
}

#[test]
fn dropped_file_uris_are_decoded() {
    let c = dropped_path_candidates("file:///tmp/my%20file.png");
    assert_eq!(c, vec!["/tmp/my file.png".to_string()]);
}

#[test]
fn dropped_paths_empty_text_gives_none() {
    assert!(dropped_path_candidates("   ").is_empty());
    assert!(dropped_path_candidates("").is_empty());
}

#[test]
fn dropped_paths_all_or_nothing() {
    let text = "/tmp/a.png /tmp/b.png";
    let all = extract_dropped_paths(text, &vec![true, true], &vec![true, true]);
    assert_eq!(all, vec!["/tmp/a.png".to_string(), "/tmp/b.png".to_string()]);
    let missing = extract_dropped_paths(text, &vec![true, true], &vec![true, false]);
    assert!(missing.is_empty());
    let relative = extract_dropped_paths("a.png", &vec![false], &vec![true]);
    assert!(relative.is_empty());
    // flags that do not match the paths one for one accept nothing
    let short = extract_dropped_paths(text, &vec![true], &vec![true]);
    assert!(short.is_empty());
}

#[test]
fn percent_decoding_undoes_any_escaping() {
    assert_eq!(percent_decode("100%25%20done"), "100% done");
    assert_eq!(percent_decode("%2Fa%2fb"), "/a/b");
    assert_eq!(percent_decode("%68%69"), "hi");
}
