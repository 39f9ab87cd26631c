use playlist_manager::logger::{fill_template, format_counter, CounterKind, Logger};

#[test]
fn quiet_logger_shows_nothing() {
    let l = Logger::new(false);
    assert_eq!(l.log("x"), None);
    assert_eq!(l.log_formatted("a {}", &["b"]), None);
    assert_eq!(l.log_with_counters("a", &[], Some(1), Some(2), None), None);
}

#[test]
fn templates_are_filled_in_order() {
    let l = Logger::new(true);
    assert_eq!(l.log("plain"), Some("plain".to_string()));
    assert_eq!(
        l.log_formatted("Copy track \"{}\" to \"{}\"", &["/a/x.flac", "/d/x.flac"]),
        Some("Copy track \"/a/x.flac\" to \"/d/x.flac\"".to_string())
    );
    assert_eq!(fill_template("{} and {}", &["{}", "z"]), "z and {}");
    assert_eq!(fill_template("none", &["a"]), "none");
}

#[test]
fn counters_prefix_messages() {
    let l = Logger::new(true);
    assert_eq!(
        l.log_with_counters("Copy track \"{}\"", &["t"], Some(3), Some(12), Some("media")),
        Some("(3-M/12) Copy track \"t\"".to_string())
    );
    assert_eq!(
        l.log_with_counters("Copy lyrics", &[], Some(10), Some(10), Some("lyrics")),
        Some("(10-L/10) Copy lyrics".to_string())
    );
    assert_eq!(
        l.log_with_counters("Copy playlist", &[], Some(1), Some(2), None),
        Some("(1/2) Copy playlist".to_string())
    );
    assert_eq!(
        l.log_with_counters("Copy playlist", &[], Some(1), None, Some("media")),
        Some("Copy playlist".to_string())
    );
    assert_eq!(format_counter(0, 105, &CounterKind::Plain), "(0/105)");
}
