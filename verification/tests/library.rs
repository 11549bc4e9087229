use mediaplayerofdoom::library::{
    avoid_repeat, band_of, band_of_file, fill_unknown, tag_fields, folder_artist_album, index_of, lyrics_query, make_display,
    playing_display, playlist_display, search_rows, song_sort_key, str_eq, strip_track_no, wants_web_art,
};

fn v(items: &[&str]) -> Vec<String> {
    items.iter().map(|s| s.to_string()).collect()
}

#[test]
fn display_names() {
    let p = "C:\\Music\\Band - Album\\01 Song.mp3";
    assert_eq!(make_display(p), "Band - Album - Song");
    assert_eq!(playing_display(p), "Band - Album > Song");
    assert_eq!(make_display("loose.mp3"), "? - loose");
    assert_eq!(playing_display("loose.mp3"), "? > loose");
}

#[test]
fn playlist_rows_prefer_tags() {
    let p = "C:\\Music\\Band - Album\\01 Song.mp3";
    assert_eq!(playlist_display(" Artist ", " Title ", p), "Artist - Title");
    assert_eq!(playlist_display("", "Title", p), "Title");
    assert_eq!(playlist_display("Artist", "  ", p), "Artist - Song");
    assert_eq!(playlist_display("", "", p), "Band - Album - Song");
}

#[test]
fn sort_keys() {
    let (a, t) = song_sort_key("C:\\M\\Rock\\01 - Bohemian Rhapsody (Queen).mp3");
    assert_eq!((a.as_str(), t.as_str()), ("queen", "bohemian rhapsody"));
    let (a, t) = song_sort_key("C:\\M\\ABBA\\Waterloo.mp3");
    assert_eq!((a.as_str(), t.as_str()), ("abba", "waterloo"));
    let (a, t) = song_sort_key("C:\\M\\Best Of\\Intro - Part One.mp3");
    assert_eq!((a.as_str(), t.as_str()), ("best of", "part one"));
}

#[test]
fn bands_from_folders() {
    assert_eq!(band_of("C:\\M\\Queen - Greatest Hits\\x.mp3"), "Queen");
    assert_eq!(band_of("C:\\M\\Hits (Various)\\x.mp3"), "Various");
    assert_eq!(band_of("C:\\M\\Hits ( )\\x.mp3"), "Hits ( )");
    assert_eq!(band_of("C:\\M\\Solo\\x.mp3"), "Solo");
    assert_eq!(band_of("x.mp3"), "");
}

#[test]
fn bands_from_file_names() {
    assert_eq!(band_of_file("C:\\M\\x\\Song - Title (Artist).mp3"), "Artist");
    assert_eq!(band_of_file("C:\\M\\Folder\\Band - Song.mp3"), "Band");
    assert_eq!(band_of_file("C:\\M\\Queen - Hits\\track.mp3"), "Queen");
}

#[test]
fn artist_and_album_from_folder() {
    assert_eq!(
        folder_artist_album("C:\\M\\Queen - Greatest Hits (1981)\\x.mp3"),
        Some(("Queen".to_string(), "Greatest Hits".to_string()))
    );
    assert_eq!(folder_artist_album("C:\\M\\Solo\\x.mp3"), Some(("Solo".to_string(), String::new())));
    assert_eq!(folder_artist_album("C:\\M\\ - Album\\x.mp3"), Some(("- Album".to_string(), String::new())));
    assert_eq!(folder_artist_album("x.mp3"), None);
}

#[test]
fn track_numbers_come_off_titles() {
    assert_eq!(strip_track_no("01 - Song"), Some("Song".to_string()));
    assert_eq!(strip_track_no("1.2 - x "), Some("x".to_string()));
    assert_eq!(strip_track_no("Band - Song"), None);
    assert_eq!(strip_track_no("no dash"), None);
    assert_eq!(strip_track_no(" - x"), None);
}

#[test]
fn finding_paths() {
    let pl = v(&["a", "b", "c", "b"]);
    assert_eq!(index_of(&pl, "b"), Some(1));
    assert_eq!(index_of(&pl, "z"), None);
    assert!(str_eq("x", "x") && !str_eq("x", "y"));
}

#[test]
fn random_pick_avoids_the_playing_song() {
    let pl = v(&["a", "b", "c"]);
    assert_eq!(avoid_repeat(Some("b"), &pl, "b".to_string()), "c");
    assert_eq!(avoid_repeat(Some("c"), &pl, "c".to_string()), "a");
    assert_eq!(avoid_repeat(Some("a"), &pl, "b".to_string()), "b");
    assert_eq!(avoid_repeat(None, &pl, "b".to_string()), "b");
    assert_eq!(avoid_repeat(Some("a"), &v(&["a"]), "a".to_string()), "a");
}

#[test]
fn unknown_tags_filled_from_folder() {
    let p = "C:\\M\\Queen - Hits\\x.mp3";
    let u = "Unknown".to_string();
    assert_eq!(fill_unknown(p, u.clone(), u.clone()), ("Queen".to_string(), "Hits".to_string()));
    assert_eq!(fill_unknown(p, "Band".to_string(), u.clone()), ("Band".to_string(), "Hits".to_string()));
    assert_eq!(fill_unknown(p, "A".to_string(), "B".to_string()), ("A".to_string(), "B".to_string()));
    assert_eq!(fill_unknown("x.mp3", u.clone(), u.clone()), (u.clone(), u.clone()));
    assert!(wants_web_art("Queen", "Hits"));
    assert!(!wants_web_art("Unknown", "Hits"));
    assert!(!wants_web_art("Queen", "Unknown"));
}

#[test]
fn lyrics_lookup_names() {
    let q = lyrics_query("C:\\Music\\Queen - Greatest\\01.mp3", "Unknown", "01 - Bohemian Rhapsody");
    assert_eq!(q, ("Queen".to_string(), "Bohemian Rhapsody".to_string()));
    let q = lyrics_query("song.mp3", "", "Queen - Bohemian Rhapsody");
    assert_eq!(q, ("Queen".to_string(), "Bohemian Rhapsody".to_string()));
    let q = lyrics_query("song.mp3", "Artist", "3 - Title");
    assert_eq!(q, ("Artist".to_string(), "Title".to_string()));
    let q = lyrics_query("song.mp3", "Unknown", "Title");
    assert_eq!(q, ("Unknown".to_string(), "Title".to_string()));
}

#[test]
fn search_filters_rows() {
    let names = v(&["Queen - Bohemian Rhapsody", "ABBA - Waterloo", "Misc - Track"]);
    let paths = v(&["C:\\M\\a.mp3", "C:\\M\\b.mp3", "C:\\Queen\\c.mp3"]);
    assert_eq!(search_rows(&names, &paths, ""), vec![0, 1, 2]);
    assert_eq!(search_rows(&names, &paths, "QUEEN"), vec![0, 2]);
    assert_eq!(search_rows(&names, &paths, "waterloo"), vec![1]);
    assert_eq!(search_rows(&names, &paths, "zzz"), Vec::<usize>::new());
}

#[test]
fn missing_tags_fall_back() {
    let p = "C:\\Music\\Queen\\01 - Bohemian.mp3";
    let e = String::new;
    assert_eq!(
        tag_fields(p, e(), e(), e()),
        ("01 - Bohemian".to_string(), "Unknown".to_string(), "Unknown".to_string())
    );
    assert_eq!(
        tag_fields(p, "Song".into(), "Queen".into(), "Opera".into()),
        ("Song".to_string(), "Queen".to_string(), "Opera".to_string())
    );
}
