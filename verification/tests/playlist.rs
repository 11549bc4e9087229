use std::collections::HashMap;

use mediaplayerofdoom::playlist::{
    add_files, choose_next, choose_prev, cycle_rating_filter, decrease_volume, dir_pick,
    increase_volume, merge_unique, move_playlist, rated_slots, save_song, set_volume,
    shuffle_playlist, shuffle_with, NextChoice, PlayOrder, Ratings,
};

fn v(items: &[&str]) -> Vec<String> {
    items.iter().map(|s| s.to_string()).collect()
}

fn order(disc_in: bool, random_on: bool, playlist_only: bool, seq: bool, dir_seq: bool) -> PlayOrder {
    PlayOrder {
        disc_in,
        random_on,
        playlist_only,
        playlist_only_sequential: seq,
        dir_sequential: dir_seq,
    }
}

fn slot(c: NextChoice) -> Option<(usize, String)> {
    match c {
        NextChoice::Slot { index, path } => Some((index, path)),
        _ => None,
    }
}

fn counts(v: &[String]) -> HashMap<String, usize> {
    let mut m = HashMap::new();
    for s in v {
        *m.entry(s.clone()).or_insert(0) += 1;
    }
    m
}

#[test]
fn ratings_read_back_what_was_written() {
    let mut r = Ratings::new();
    assert_eq!(r.song_rating("a"), 0);
    r.rate_song("a", 4);
    r.rate_song("b", 9);
    assert_eq!(r.song_rating("a"), 4);
    assert_eq!(r.song_rating("b"), 5);
    r.rate_song("a", 2);
    assert_eq!(r.song_rating("a"), 2);
    assert_eq!(r.song_rating("b"), 5);
    r.rate_song("a", 0);
    assert_eq!(r.song_rating("a"), 0);
    assert_eq!(r.pairs(), vec![("b".to_string(), 5u8)]);
}

#[test]
fn ratings_from_saved_pairs() {
    let r = Ratings::from_pairs(vec![("x".to_string(), 3), ("y".to_string(), 200)]);
    assert_eq!(r.song_rating("x"), 3);
    assert_eq!(r.song_rating("y"), 5);
    assert_eq!(r.pairs().len(), 2);
}

#[test]
fn star_filter_cycles_through_six_settings() {
    let mut f = 0u8;
    let mut seen = Vec::new();
    for _ in 0..6 {
        f = cycle_rating_filter(f);
        seen.push(f);
    }
    assert_eq!(seen, vec![1, 2, 3, 4, 5, 0]);
}

#[test]
fn filtered_slots_keep_places() {
    let pl = v(&["a", "b", "c", "d"]);
    let mut r = Ratings::new();
    r.rate_song("b", 3);
    r.rate_song("d", 5);
    assert_eq!(rated_slots(&pl, &r, 0).len(), 4);
    assert_eq!(rated_slots(&pl, &r, 3), vec![(1, "b".to_string()), (3, "d".to_string())]);
    assert_eq!(rated_slots(&pl, &r, 4), vec![(3, "d".to_string())]);
}

#[test]
fn next_in_order_wraps() {
    let pl = v(&["a", "b", "c"]);
    let r = Ratings::new();
    let o = order(false, false, false, false, false);
    assert_eq!(slot(choose_next(&pl, &r, 0, Some("b"), o, 0, false, false)), Some((2, "c".to_string())));
    assert_eq!(slot(choose_next(&pl, &r, 0, Some("c"), o, 0, false, false)), Some((0, "a".to_string())));
    assert_eq!(slot(choose_next(&pl, &r, 0, None, o, 0, false, false)), Some((1, "b".to_string())));
    assert_eq!(slot(choose_next(&pl, &r, 0, Some("zzz"), o, 0, false, false)), Some((1, "b".to_string())));
}

#[test]
fn next_decisions_by_switches() {
    let pl = v(&["a", "b", "c"]);
    let r = Ratings::new();
    assert!(matches!(choose_next(&Vec::new(), &r, 0, None, order(false, false, false, false, false), 0, false, false), NextChoice::Idle));
    assert!(matches!(choose_next(&pl, &r, 0, None, order(false, false, false, false, false), 0, true, false), NextChoice::Idle));
    assert!(matches!(choose_next(&pl, &r, 5, None, order(false, false, false, false, false), 0, false, false), NextChoice::NoMatch));
    assert_eq!(slot(choose_next(&pl, &r, 0, Some("a"), order(true, true, true, true, true), 0, false, true)), Some((1, "b".to_string())));
    assert_eq!(slot(choose_next(&pl, &r, 0, Some("a"), order(false, true, true, true, false), 7, false, false)), Some((1, "b".to_string())));
    assert!(matches!(choose_next(&pl, &r, 0, None, order(false, true, true, false, false), 0, false, false), NextChoice::Random));
    assert!(matches!(choose_next(&pl, &r, 0, None, order(false, true, false, false, true), 0, false, true), NextChoice::FromDir));
    assert!(matches!(choose_next(&pl, &r, 0, None, order(false, true, false, false, true), 0, false, false), NextChoice::Random));
    assert!(matches!(choose_next(&pl, &r, 0, None, order(false, true, false, false, false), 0, false, true), NextChoice::Random));
}

#[test]
fn next_and_prev_respect_the_star_filter() {
    let pl = v(&["a", "b", "c", "d"]);
    let mut r = Ratings::new();
    r.rate_song("a", 4);
    r.rate_song("c", 4);
    let o = order(false, false, false, false, false);
    assert_eq!(slot(choose_next(&pl, &r, 4, Some("a"), o, 0, false, false)), Some((2, "c".to_string())));
    assert_eq!(slot(choose_next(&pl, &r, 4, Some("b"), o, 0, false, false)), Some((2, "c".to_string())));
    assert_eq!(slot(choose_prev(&pl, &r, 4, Some("a"), false)), Some((2, "c".to_string())));
    assert!(matches!(choose_prev(&pl, &r, 5, Some("a"), false), NextChoice::NoMatch));
    assert!(matches!(choose_prev(&pl, &r, 0, Some("a"), true), NextChoice::Idle));
}

#[test]
fn prev_after_next_returns_to_the_song() {
    let pl = v(&["a", "b", "c", "d"]);
    let r = Ratings::new();
    let o = order(false, false, false, false, false);
    for cur in ["a", "b", "c", "d"] {
        let (_, next) = slot(choose_next(&pl, &r, 0, Some(cur), o, 0, false, false)).unwrap();
        let (_, back) = slot(choose_prev(&pl, &r, 0, Some(next.as_str()), false)).unwrap();
        assert_eq!(back, cur);
    }
}

#[test]
fn folder_order_pick() {
    let files = v(&["x1", "x2", "x3"]);
    let mut r = Ratings::new();
    assert_eq!(dir_pick(&files, &r, 0, 4), Some("x2".to_string()));
    r.rate_song("x3", 5);
    assert_eq!(dir_pick(&files, &r, 5, 4), Some("x3".to_string()));
    assert_eq!(dir_pick(&files, &Ratings::new(), 1, 0), None);
}

#[test]
fn volume_steps() {
    assert_eq!(set_volume(150), 100);
    assert_eq!(set_volume(42), 42);
    assert_eq!(increase_volume(50), 55);
    assert_eq!(increase_volume(98), 100);
    assert_eq!(decrease_volume(3), 0);
    assert_eq!(decrease_volume(100), 95);
    for vol in 0..=95u32 {
        assert_eq!(decrease_volume(increase_volume(vol)), vol);
    }
}

#[test]
fn moving_entries() {
    let mut pl = v(&["a", "b", "c", "d"]);
    move_playlist(&mut pl, 0, 2);
    assert_eq!(pl, v(&["b", "c", "a", "d"]));
    move_playlist(&mut pl, 2, 0);
    assert_eq!(pl, v(&["a", "b", "c", "d"]));
    move_playlist(&mut pl, 3, 1);
    assert_eq!(pl, v(&["a", "d", "b", "c"]));
    move_playlist(&mut pl, 9, 1);
    move_playlist(&mut pl, 1, 1);
    assert_eq!(pl, v(&["a", "d", "b", "c"]));
}

#[test]
fn saving_the_playing_song() {
    let mut pl = v(&["a", "b"]);
    assert!(save_song(&mut pl, Some("c")));
    assert_eq!(pl, v(&["a", "b", "c"]));
    assert!(!save_song(&mut pl, Some("a")));
    assert!(!save_song(&mut pl, None));
    assert_eq!(pl, v(&["a", "b", "c"]));
}

#[test]
fn shuffle_with_given_draws() {
    let mut pl = v(&["a", "b", "c", "d"]);
    shuffle_with(&mut pl, &vec![0, 0, 0, 0]);
    assert_eq!(pl, v(&["b", "c", "d", "a"]));
    let mut pl = v(&["a", "b", "c", "d"]);
    shuffle_with(&mut pl, &vec![0, 1, 2, 3]);
    assert_eq!(pl, v(&["a", "b", "c", "d"]));
}

#[test]
fn random_shuffle_keeps_every_song() {
    let start = v(&["a", "b", "c", "d", "e", "f", "a"]);
    for _ in 0..20 {
        let mut pl = start.clone();
        shuffle_playlist(&mut pl);
        assert_eq!(counts(&pl), counts(&start));
    }
    let mut empty: Vec<String> = Vec::new();
    shuffle_playlist(&mut empty);
    assert!(empty.is_empty());
}

#[test]
fn merging_skips_known_files() {
    let mut pl = v(&["a", "b"]);
    let n = merge_unique(&mut pl, &v(&["b", "c", "c", "d"]));
    assert_eq!(n, 2);
    assert_eq!(pl, v(&["a", "b", "c", "d"]));
}

#[test]
fn added_files_are_sorted_by_artist_and_title() {
    let mut pl = v(&["C:\\M\\Zed\\Song.mp3"]);
    let n = add_files(&mut pl, &v(&["C:\\M\\Abba\\Waterloo.mp3", "C:\\M\\Zed\\Song.mp3", "C:\\M\\abba\\Fernando.mp3"]));
    assert_eq!(n, 2);
    assert_eq!(pl, v(&["C:\\M\\abba\\Fernando.mp3", "C:\\M\\Abba\\Waterloo.mp3", "C:\\M\\Zed\\Song.mp3"]));
}
