use playlist_manager::playlist_scanner::{
    filter_line, playlist_copy, process_line, read_playlist, replace_backslash,
};
use playlist_manager::text::split_lines;

#[test]
fn test_process_line_removes_bom() {
    let input = "\u{feff}test line";
    let result = process_line(input.to_string());
    assert_eq!(result, "test line");
}

#[test]
fn test_process_line_removes_carriage_return() {
    let input = "test line\r";
    let result = process_line(input.to_string());
    assert_eq!(result, "test line");
}

#[test]
fn test_process_line_handles_normal_text() {
    let input = "test line";
    let result = process_line(input.to_string());
    assert_eq!(result, "test line");
}

#[test]
fn test_filter_line_skips_comments() {
    let input = "#This is a comment".to_string();
    assert!(!filter_line(&input));
}

#[test]
fn test_filter_line_skips_empty_lines() {
    let input = "".to_string();
    assert!(!filter_line(&input));
}

#[test]
fn test_filter_line_keeps_content_lines() {
    let input = "artist/album/track.flac".to_string();
    assert!(filter_line(&input));
}

#[test]
fn test_replace_backslash() {
    let input = "artist\\album\\track.flac";
    let result = replace_backslash(input.to_string());
    assert_eq!(result, "artist/album/track.flac");
}

#[test]
fn test_read_playlist_integration() {
    let text = "#This is a comment\n\
                artist1\\album1\\track1.flac\r\n\
                \n\
                artist2/album2/track2.flac\n\
                #Another comment\n\
                \u{feff}artist3\\album3\\track3.flac";
    let lines = split_lines(text);
    let playlist_items: Vec<String> = read_playlist(&lines);

    assert_eq!(playlist_items.len(), 3);
    assert_eq!(playlist_items[0], "artist1/album1/track1.flac");
    assert_eq!(playlist_items[1], "artist2/album2/track2.flac");
    assert_eq!(playlist_items[2], "artist3/album3/track3.flac");
}

#[test]
fn process_line_strips_only_one_bom_and_one_cr() {
    assert_eq!(process_line("\u{feff}\u{feff}a\r\r".to_string()), "\u{feff}a\r");
    assert_eq!(process_line("\r".to_string()), "");
    assert_eq!(process_line("".to_string()), "");
}

#[test]
fn bom_before_comment_leaves_a_comment() {
    let lines = vec!["\u{feff}#EXTM3U".to_string(), "a.flac".to_string()];
    assert_eq!(read_playlist(&lines), vec!["a.flac".to_string()]);
}

#[test]
fn read_playlist_of_no_lines_is_empty() {
    let lines: Vec<String> = Vec::new();
    assert!(read_playlist(&lines).is_empty());
}

#[test]
fn split_lines_follows_line_endings() {
    assert_eq!(split_lines("a\r\nb\n\nc"), vec!["a", "b", "", "c"]);
    assert_eq!(split_lines("a\n"), vec!["a"]);
    assert_eq!(split_lines("a\r"), vec!["a\r"]);
    assert!(split_lines("").is_empty());
    assert_eq!(split_lines("\n"), vec![""]);
}

#[test]
fn playlist_without_backslashes_is_copied_as_is() {
    assert_eq!(playlist_copy("#EXTM3U\nartist/a.flac\n"), None);
    assert_eq!(playlist_copy("#c:\\comment\nartist/a.flac"), None);
}

#[test]
fn playlist_with_backslashes_is_rewritten() {
    let r = playlist_copy("#EXTM3U\r\n#c:\\x\nartist1\\album1\\title1.flac\nb/c.flac\n");
    assert_eq!(
        r,
        Some("#EXTM3U\n#c:/x\nartist1/album1/title1.flac\nb/c.flac".to_string())
    );
}
