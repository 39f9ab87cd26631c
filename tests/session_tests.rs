use playlist_manager::error_tracker::{parse_error_file, ErrorTracker};
use playlist_manager::media_file_info::MediaFileInfo;
use playlist_manager::media_set::{collect_media, resolve_playlist, PlaylistEntry};
use playlist_manager::session::{retry_media_set, CommandOptions, PlaylistStep, Session};
use playlist_manager::text::split_lines;

fn options(keep_going: bool, copy_lyrics: bool) -> CommandOptions {
    CommandOptions {
        verbose: false,
        copy_lyrics,
        keep_going,
    }
}

fn entry(path: &str, text: &str) -> PlaylistEntry {
    resolve_playlist(path, &split_lines(text))
}

/// Drives a run the way the put tool does, with `existing` standing for the
/// source files on disk; returns the session and the source paths copied.
fn run(
    playlists: &[(&str, &str)],
    existing: &[&str],
    keep_going: bool,
    track: bool,
) -> (Session, Vec<String>) {
    let entries: Vec<PlaylistEntry> = playlists.iter().map(|(p, t)| entry(p, t)).collect();
    let all = collect_media(&entries);
    let mut session = Session::new(
        options(keep_going, false),
        "/dest".to_string(),
        entries.len(),
        all,
        track,
    );
    let mut copied = Vec::new();
    for e in &entries {
        for item in session.pending_media(&e.base_dir, &e.media) {
            let src = item.source_path();
            if existing.contains(&src.as_str()) {
                assert!(session.record_media_copied(&item).is_some());
                copied.push(src);
            } else {
                assert!(session.record_media_failed(&item));
            }
        }
        session.record_playlist_copied();
    }
    (session, copied)
}

const FOUR: &str = "artist1/album1/title1.flac\nartist1/album1/title2.flac\nartist2/album1/title1.flac\nartist2/album2/title1.flac\n";

#[test]
fn scenario_one_playlist_four_tracks() {
    let existing = [
        "/lib/MUSIC/artist1/album1/title1.flac",
        "/lib/MUSIC/artist1/album1/title2.flac",
        "/lib/MUSIC/artist2/album1/title1.flac",
        "/lib/MUSIC/artist2/album2/title1.flac",
    ];
    let (session, copied) = run(&[("/lib/MUSIC/p.m3u8", FOUR)], &existing, false, false);
    let (a, b) = session.summary();
    assert_eq!(a, "(1/1) playlist copied");
    assert_eq!(b, "(4/4) media files copied");
    assert_eq!(copied.len(), 4);

    let item = MediaFileInfo::new(
        "/lib/MUSIC".to_string(),
        "artist2/album2/title1.flac".to_string(),
    );
    let lyrics = item.lyrics("/dest").unwrap();
    assert_eq!(lyrics.source, "/lib/MUSIC/artist2/album2/title1.lrc");
    assert_eq!(lyrics.dest, "/dest/artist2/album2/title1.lrc");
}

#[test]
fn scenario_two_playlists_share_a_track() {
    let existing = [
        "/lib/MUSIC/artist1/album1/title1.flac",
        "/lib/MUSIC/artist1/album1/title2.flac",
        "/lib/MUSIC/artist2/album1/title1.flac",
        "/lib/MUSIC/artist2/album2/title1.flac",
    ];
    let (session, copied) = run(
        &[
            ("/lib/MUSIC/playlist.m3u8", FOUR),
            (
                "/lib/MUSIC/playlist2.m3u8",
                "artist1/album1/title1.flac\nartist2/album2/title1.flac",
            ),
        ],
        &existing,
        false,
        false,
    );
    let (a, b) = session.summary();
    assert_eq!(a, "(2/2) playlist copied");
    assert_eq!(b, "(4/4) media files copied");
    assert_eq!(copied.len(), 4);
    assert_eq!(session.counters(), (2, 2, 4, 4));
}

#[test]
fn scenario_missing_track_with_keep_going() {
    let (session, copied) = run(
        &[(
            "/lib/MUSIC/playlist_with_missing.m3u8",
            "artist1/album1/title1.flac\nartist1/album1/missing.flac\n",
        )],
        &["/lib/MUSIC/artist1/album1/title1.flac"],
        true,
        true,
    );
    assert_eq!(copied, vec!["/lib/MUSIC/artist1/album1/title1.flac".to_string()]);
    let (a, b) = session.summary();
    assert_eq!(a, "(1/1) playlist copied");
    assert_eq!(b, "(1/2) media files copied");
    let tracker = session.into_tracker().unwrap();
    assert_eq!(
        tracker.log_text(),
        "M /lib/MUSIC/artist1/album1/missing.flac\n"
    );
}

#[test]
fn scenario_retry_of_the_missing_track() {
    let log = "M /lib/MUSIC/artist1/album1/missing.flac\n";
    let (playlists, media) = parse_error_file(log);
    assert!(playlists.is_empty());
    assert_eq!(
        media,
        vec![(
            "/lib/MUSIC/".to_string(),
            "artist1/album1/missing.flac".to_string()
        )]
    );
    let entries: Vec<PlaylistEntry> = Vec::new();
    let all = retry_media_set(&entries, &media);
    let mut session = Session::new(options(true, false), "/dest".to_string(), 0, all, true);
    let item = MediaFileInfo::new(media[0].0.clone(), media[0].1.clone());
    assert!(!session.is_copied(&item));
    assert_eq!(item.source_path(), "/lib/MUSIC/artist1/album1/missing.flac");
    let target = item.target("/dest");
    assert_eq!(target.dir, "/dest/artist1/album1");
    assert_eq!(target.file, "/dest/artist1/album1/missing.flac");
    assert_eq!(session.record_media_copied(&item), Some(1));
    assert!(session.is_copied(&item));
    let (a, b) = session.summary();
    assert_eq!(a, "(0/0) playlist copied");
    assert_eq!(b, "(1/1) media files copied");
    assert_eq!(session.into_tracker().unwrap().log_text(), "");
}

#[test]
fn retried_item_already_copied_by_a_playlist_is_skipped() {
    let entries = vec![entry("/lib/MUSIC/p.m3u8", "a/x.flac\n")];
    let media = vec![("/lib/MUSIC".to_string(), "a/x.flac".to_string())];
    let all = retry_media_set(&entries, &media);
    let mut session = Session::new(options(true, false), "/d".to_string(), 1, all, true);
    let pending = session.pending_media(&entries[0].base_dir, &entries[0].media);
    assert_eq!(pending.len(), 1);
    assert_eq!(session.record_media_copied(&pending[0]), Some(1));
    session.record_playlist_copied();
    let item = MediaFileInfo::new(media[0].0.clone(), media[0].1.clone());
    assert!(session.is_copied(&item));
    assert_eq!(session.counters(), (1, 1, 1, 1));
}

#[test]
fn total_union_not_sum_across_playlists() {
    let entries = vec![
        entry("/m/first.m3u8", "a.flac\nb.flac\n"),
        entry("/m/second.m3u8", "b.flac\nc.flac\n"),
        entry("/n/third.m3u8", "a.flac\n"),
    ];
    let all = collect_media(&entries);
    assert_eq!(all.len(), 4);
}

#[test]
fn duplicate_within_a_playlist_is_pending_once() {
    let e = entry("/m/p.m3u8", "a.flac\na.flac\nb.flac\na.flac");
    let all = collect_media(&vec![entry("/m/p.m3u8", "a.flac\na.flac\nb.flac\na.flac")]);
    let session = Session::new(options(false, false), "/d".to_string(), 1, all, false);
    let pending = session.pending_media(&e.base_dir, &e.media);
    let files: Vec<String> = pending.iter().map(|m| m.file.clone()).collect();
    assert_eq!(files, vec!["a.flac".to_string(), "b.flac".to_string()]);
}

#[test]
fn copy_at_most_once_across_playlists() {
    let existing = ["/m/a.flac", "/m/b.flac", "/m/c.flac"];
    let (_, copied) = run(
        &[
            ("/m/first.m3u8", "a.flac\nb.flac"),
            ("/m/second.m3u8", "b.flac\nc.flac\na.flac"),
        ],
        &existing,
        false,
        false,
    );
    assert_eq!(copied, vec!["/m/a.flac", "/m/b.flac", "/m/c.flac"]);
}

#[test]
fn failed_item_is_not_attempted_again() {
    let (session, copied) = run(
        &[("/m/first.m3u8", "a.flac\nb.flac"), ("/m/second.m3u8", "b.flac")],
        &["/m/a.flac"],
        true,
        true,
    );
    assert_eq!(copied, vec!["/m/a.flac"]);
    assert_eq!(session.into_tracker().unwrap().len(), 1);
}

#[test]
fn progress_counters_increase_up_to_total() {
    let entries = vec![entry("/m/p.m3u8", "a\nb\nc\n")];
    let all = collect_media(&entries);
    let mut session = Session::new(options(false, false), "/d".to_string(), 1, all, false);
    let pending = session.pending_media(&entries[0].base_dir, &entries[0].media);
    let mut seen = Vec::new();
    for item in &pending {
        seen.push(session.record_media_copied(item).unwrap());
    }
    assert_eq!(seen, vec![1, 2, 3]);
    assert_eq!(session.record_media_copied(&pending[0]), None);
    assert_eq!(session.counters().2, 3);
    assert_eq!(session.counters().3, 3);
}

#[test]
fn media_failure_without_keep_going_ends_the_run() {
    let entries = vec![entry("/m/p.m3u8", "a\n")];
    let all = collect_media(&entries);
    let mut session = Session::new(options(false, false), "/d".to_string(), 1, all, true);
    let pending = session.pending_media(&entries[0].base_dir, &entries[0].media);
    assert!(!session.record_media_failed(&pending[0]));
    assert!(session.lyrics_failure_is_fatal());
    assert_eq!(session.into_tracker().unwrap().len(), 0);
}

#[test]
fn playlist_failure_is_recorded() {
    let entries: Vec<PlaylistEntry> = Vec::new();
    let all = collect_media(&entries);
    let mut session = Session::new(options(true, false), "/d".to_string(), 2, all, true);
    assert_eq!(session.next_playlist_number(), 1);
    assert!(session.record_playlist_failed("/m/missing.m3u8".to_string()));
    assert!(session.has_playlists_left());
    assert_eq!(session.next_playlist_number(), 2);
    session.record_playlist_copied();
    assert!(!session.has_playlists_left());
    let (a, _) = session.summary();
    assert_eq!(a, "(1/2) playlist copied");
    let mut expected = ErrorTracker::new();
    expected.add_failed_playlist("/m/missing.m3u8".to_string());
    assert_eq!(
        session.into_tracker().unwrap().log_text(),
        expected.log_text()
    );
}

#[test]
fn playlist_base_dir_is_its_parent() {
    let e = entry("/lib/MUSIC/sub/p.m3u8", "x.flac");
    assert_eq!(e.base_dir, "/lib/MUSIC/sub");
    assert_eq!(e.path, "/lib/MUSIC/sub/p.m3u8");
    assert_eq!(entry("p.m3u8", "").base_dir, "");
    assert_eq!(entry("/p.m3u8", "").base_dir, "/");
}

#[test]
fn playlist_step_hands_out_media_or_records_failure() {
    let e1 = entry("/m/first.m3u8", "a.flac\nb.flac");
    let e2 = entry("/m/second.m3u8", "b.flac\nc.flac");
    let all = collect_media(&vec![entry("/m/first.m3u8", "a.flac\nb.flac"), entry("/m/second.m3u8", "b.flac\nc.flac")]);
    let mut session = Session::new(options(true, false), "/d".to_string(), 3, all, true);
    match session.playlist_step("/m/first.m3u8".to_string(), true, Some(&e1)) {
        PlaylistStep::CopyMedia(v) => {
            assert_eq!(v.len(), 2);
            for item in &v {
                session.record_media_copied(item);
            }
        }
        _ => panic!("expected media to copy"),
    }
    match session.playlist_step("/m/second.m3u8".to_string(), true, Some(&e2)) {
        PlaylistStep::CopyMedia(v) => {
            assert_eq!(v.len(), 1);
            assert_eq!(v[0].file, "c.flac");
        }
        _ => panic!("expected media to copy"),
    }
    assert!(matches!(
        session.playlist_step("/m/gone.m3u8".to_string(), false, None),
        PlaylistStep::Next
    ));
    assert_eq!(session.counters(), (2, 3, 2, 3));
    assert_eq!(session.into_tracker().unwrap().log_text(), "P /m/gone.m3u8\n");
}

#[test]
fn playlist_failure_without_keep_going_aborts() {
    let e = entry("/m/p.m3u8", "a.flac");
    let all = collect_media(&vec![entry("/m/p.m3u8", "a.flac")]);
    let mut session = Session::new(options(false, false), "/d".to_string(), 1, all, false);
    assert!(matches!(
        session.playlist_step("/m/p.m3u8".to_string(), false, Some(&e)),
        PlaylistStep::Abort
    ));
    assert_eq!(session.counters(), (0, 1, 0, 1));
}

fn retry_after_playlist(playlist: &str, log: &str) -> (Session, MediaFileInfo, usize) {
    let (playlists, media) = parse_error_file(log);
    assert_eq!(playlists, vec![playlist.to_string()]);
    let entries = vec![entry(playlist, "a.flac\n")];
    let all = retry_media_set(&entries, &media);
    let total = all.len();
    let mut session = Session::new(options(true, false), "/d".to_string(), 1, all, true);
    match session.playlist_step(playlist.to_string(), true, Some(&entries[0])) {
        PlaylistStep::CopyMedia(v) => {
            for item in &v {
                assert!(session.record_media_copied(item).is_some());
            }
        }
        _ => panic!("expected media to copy"),
    }
    let item = MediaFileInfo::new(media[0].0.clone(), media[0].1.clone());
    (session, item, total)
}

#[test]
fn retry_skips_track_copied_by_a_retried_playlist_in_music_root() {
    let (mut session, item, total) =
        retry_after_playlist("/x/MUSIC/p.m3u8", "P /x/MUSIC/p.m3u8\nM /x/MUSIC/a.flac\n");
    assert_eq!(total, 1);
    assert!(session.is_copied(&item));
    assert!(session.pending_media(&item.src_basedir, &vec![item.file.clone()]).is_empty());
    assert_eq!(session.record_media_copied(&item), None);
    let (_, b) = session.summary();
    assert_eq!(b, "(1/1) media files copied");
}

#[test]
fn retry_skips_track_copied_by_a_retried_playlist_below_music_root() {
    let (session, item, total) = retry_after_playlist(
        "/x/MUSIC/sub/p.m3u8",
        "P /x/MUSIC/sub/p.m3u8\nM /x/MUSIC/sub/a.flac\n",
    );
    assert_eq!(item.src_basedir, "/x/MUSIC/");
    assert_eq!(item.file, "sub/a.flac");
    assert_eq!(total, 1);
    assert!(session.is_copied(&item));
    let (_, b) = session.summary();
    assert_eq!(b, "(1/1) media files copied");
}
