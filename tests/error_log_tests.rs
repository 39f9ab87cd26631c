use playlist_manager::error_tracker::{
    parse_error_file, parse_failure_log, parse_log_line, ErrorTracker, FailureType,
};

fn records(text: &str) -> Vec<(char, String, String)> {
    parse_failure_log(text)
        .into_iter()
        .map(|f| match f {
            FailureType::Playlist(p) => ('P', p, String::new()),
            FailureType::MediaFile(b, r) => ('M', b, r),
        })
        .collect()
}

#[test]
fn log_lines_keep_failure_order() {
    let mut t = ErrorTracker::new();
    t.add_failed_media_file("/lib/MUSIC".to_string(), "a/b.flac".to_string());
    t.add_failed_playlist("/lib/MUSIC/p.m3u8".to_string());
    t.add_failed_media_file("/other".to_string(), "c.flac".to_string());
    assert_eq!(t.len(), 3);
    assert_eq!(
        t.log_text(),
        "M /lib/MUSIC/a/b.flac\nP /lib/MUSIC/p.m3u8\nM /other/c.flac\n"
    );
}

#[test]
fn log_round_trip_keeps_kinds_paths_and_order() {
    let mut t = ErrorTracker::new();
    t.add_failed_media_file("/lib/MUSIC/".to_string(), "a/b.flac".to_string());
    t.add_failed_playlist("/lib/MUSIC/p.m3u8".to_string());
    t.add_failed_media_file("/other".to_string(), "c.flac".to_string());
    t.add_failed_media_file("".to_string(), "d.flac".to_string());
    let back = records(&t.log_text());
    assert_eq!(
        back,
        vec![
            ('M', "/lib/MUSIC/".to_string(), "a/b.flac".to_string()),
            ('P', "/lib/MUSIC/p.m3u8".to_string(), String::new()),
            ('M', "/other".to_string(), "c.flac".to_string()),
            ('M', "".to_string(), "d.flac".to_string()),
        ]
    );
}

#[test]
fn media_path_splits_after_music_marker() {
    match parse_log_line(&"M /home/u/MUSIC/artist/album/t.flac".to_string()) {
        Some(FailureType::MediaFile(b, r)) => {
            assert_eq!(b, "/home/u/MUSIC/");
            assert_eq!(r, "artist/album/t.flac");
        }
        _ => panic!("expected a media record"),
    }
}

#[test]
fn media_path_without_marker_splits_at_last_slash() {
    match parse_log_line(&"M /srv/tracks/artist/t.flac".to_string()) {
        Some(FailureType::MediaFile(b, r)) => {
            assert_eq!(b, "/srv/tracks/artist");
            assert_eq!(r, "t.flac");
        }
        _ => panic!("expected a media record"),
    }
}

#[test]
fn nested_media_without_marker_loses_its_base() {
    let mut t = ErrorTracker::new();
    t.add_failed_media_file("/srv/tracks".to_string(), "artist/t.flac".to_string());
    let back = records(&t.log_text());
    assert_eq!(
        back,
        vec![('M', "/srv/tracks/artist".to_string(), "t.flac".to_string())]
    );
}

#[test]
fn other_lines_are_ignored_and_entries_trimmed() {
    let text = "# note\nP  /a/p.m3u8  \r\nX /z\nM /lib/MUSIC/\nM \nP\nM /m/x.flac";
    assert_eq!(
        records(text),
        vec![
            ('P', "/a/p.m3u8".to_string(), String::new()),
            ('M', "/m".to_string(), "x.flac".to_string()),
        ]
    );
}

#[test]
fn parse_error_file_separates_playlists_and_media() {
    let text = "M /lib/MUSIC/a.flac\nP /first.m3u8\nM /lib/MUSIC/b/c.flac\nP /second.m3u8\n";
    let (playlists, media) = parse_error_file(text);
    assert_eq!(playlists, vec!["/first.m3u8".to_string(), "/second.m3u8".to_string()]);
    assert_eq!(
        media,
        vec![
            ("/lib/MUSIC/".to_string(), "a.flac".to_string()),
            ("/lib/MUSIC/".to_string(), "b/c.flac".to_string()),
        ]
    );
}

#[test]
fn empty_log_has_no_records() {
    assert!(parse_failure_log("").is_empty());
    assert_eq!(ErrorTracker::new().log_text(), "");
}

#[test]
fn media_record_of_a_playlist_in_a_music_root_names_the_same_file() {
    let mut t = ErrorTracker::new();
    t.add_failed_media_file("/x/MUSIC".to_string(), "artist/a.flac".to_string());
    assert_eq!(
        records(&t.log_text()),
        vec![('M', "/x/MUSIC/".to_string(), "artist/a.flac".to_string())]
    );
}

#[test]
fn retry_playlist_and_media_log_is_split_at_music() {
    let text = "P /d/MUSIC/playlist.m3u8\nM /d/MUSIC/artist1/album1/missing.flac";
    let (playlists, media) = parse_error_file(text);
    assert_eq!(playlists, vec!["/d/MUSIC/playlist.m3u8".to_string()]);
    assert_eq!(
        media,
        vec![(
            "/d/MUSIC/".to_string(),
            "artist1/album1/missing.flac".to_string()
        )]
    );
}
