use unixbar::data::Format;
use unixbar::music::{
    pick_player, playback_info_from, song_info_from, unavailable_song, MPRISMusic,
};

#[test]
fn picks_first_player_name() {
    let names = vec![
        "org.freedesktop.DBus".to_string(),
        "org.mpris.MediaPlayer2.vlc".to_string(),
        "org.mpris.MediaPlayer2.spotify".to_string(),
    ];
    assert_eq!(pick_player(&names).as_deref(), Some("org.mpris.MediaPlayer2.vlc"));
}

#[test]
fn no_player_no_pick() {
    let names = vec![
        "org.freedesktop.DBus".to_string(),
        "org.mpris.MediaPlayer".to_string(),
    ];
    assert!(pick_player(&names).is_none());
    let empty: Vec<String> = vec![];
    assert!(pick_player(&empty).is_none());
}

#[test]
fn playback_from_properties() {
    let p = playback_info_from("Playing", 5_500_000, 180_000_000);
    assert!(p.playing);
    assert_eq!(p.progress_ms, 5_500);
    assert_eq!(p.total_ms, 180_000);
    assert_eq!(p.playlist_index, 0);
    assert_eq!(p.playlist_total, 0);
}

#[test]
fn playback_absent_properties_read_as_zero() {
    let p = playback_info_from("Paused", -1, -1);
    assert!(!p.playing);
    assert_eq!(p.progress_ms, 0);
    assert_eq!(p.total_ms, 0);
}

#[test]
fn song_info_defaults_missing_entries() {
    let s = song_info_from(
        Some("Title".to_string()),
        None,
        None,
        Some("file:///a.flac".to_string()),
        None,
        Some("mb-artist".to_string()),
        None,
        None,
    );
    assert_eq!(s.title, "Title");
    assert_eq!(s.artist, "");
    assert_eq!(s.album, "");
    assert_eq!(s.filename, "file:///a.flac");
    assert!(s.musicbrainz_track.is_none());
    assert_eq!(s.musicbrainz_artist.as_deref(), Some("mb-artist"));
    assert!(s.playback.is_none());
}

#[test]
fn unavailable_song_is_all_empty() {
    let s = unavailable_song();
    assert_eq!(s.title, "");
    assert_eq!(s.artist, "");
    assert_eq!(s.album, "");
    assert_eq!(s.filename, "");
    assert!(s.musicbrainz_track.is_none());
    assert!(s.musicbrainz_artist.is_none());
    assert!(s.musicbrainz_album.is_none());
    assert!(s.playback.is_none());
}

#[test]
fn new_widget_shows_empty_text() {
    let w = MPRISMusic::new();
    match unixbar::bar::Widget::current_value(&w) {
        Format::Str(s) => assert_eq!(s, ""),
        _ => panic!("a fresh music widget must show plain empty text"),
    }
}

#[test]
fn set_value_replaces_snapshot() {
    let mut w = MPRISMusic::default();
    w.set_value(Format::Str("artist - song".to_string()));
    match unixbar::bar::Widget::current_value(&w) {
        Format::Str(s) => assert_eq!(s, "artist - song"),
        _ => panic!("the snapshot must be the plain text that was set"),
    }
}
