use playlist_manager::media_file_info::MediaFileInfo;
use playlist_manager::paths::{
    file_name, file_stem, join_path, lyrics_name, parent_dir, playlist_destination,
};

#[test]
fn parent_and_name_of_paths() {
    assert_eq!(parent_dir("a/b/c.flac"), "a/b");
    assert_eq!(parent_dir("c.flac"), "");
    assert_eq!(parent_dir("/c.flac"), "/");
    assert_eq!(file_name("a/b/c.flac"), "c.flac");
    assert_eq!(file_name("c.flac"), "c.flac");
    assert_eq!(file_name("a/"), "");
}

#[test]
fn join_adds_one_separator() {
    assert_eq!(join_path("/music", "song.mp3"), "/music/song.mp3");
    assert_eq!(join_path("/lib/MUSIC/", "a/b.flac"), "/lib/MUSIC/a/b.flac");
    assert_eq!(join_path("", "a.flac"), "a.flac");
    assert_eq!(join_path("/x", "/abs"), "/abs");
    assert_eq!(join_path("/x", ""), "/x/");
}

#[test]
fn stems_and_lyrics_names() {
    assert_eq!(file_stem("title1.flac"), "title1");
    assert_eq!(file_stem("a.tar.gz"), "a.tar");
    assert_eq!(file_stem(".hidden"), ".hidden");
    assert_eq!(file_stem("noext"), "noext");
    assert_eq!(lyrics_name("title1.flac"), "title1.lrc");
}

#[test]
fn playlists_go_to_the_destination_root() {
    assert_eq!(
        playlist_destination("/lib/MUSIC/sub/p.m3u8", "/dest"),
        Some("/dest/p.m3u8".to_string())
    );
    assert_eq!(playlist_destination("/lib/", "/dest"), None);
}

#[test]
fn media_targets_mirror_relative_directories() {
    let m = MediaFileInfo::new("/lib/MUSIC".to_string(), "artist1/album1/title1.flac".to_string());
    assert_eq!(m.source_path(), "/lib/MUSIC/artist1/album1/title1.flac");
    let t = m.target("/dest");
    assert_eq!(t.dir, "/dest/artist1/album1");
    assert_eq!(t.file, "/dest/artist1/album1/title1.flac");
    let flat = MediaFileInfo::new("/lib".to_string(), "t.flac".to_string());
    assert_eq!(flat.target("/dest").file, "/dest/t.flac");
    let l = flat.lyrics("/dest").unwrap();
    assert_eq!(l.source, "/lib/t.lrc");
    assert_eq!(l.dest, "/dest/t.lrc");
    let dir_only = MediaFileInfo::new("/lib".to_string(), "a/".to_string());
    assert!(dir_only.lyrics("/dest").is_none());
    let d = m.duplicate();
    assert_eq!(d.src_basedir, m.src_basedir);
    assert_eq!(d.file, m.file);
}
