use std::collections::HashSet;

use mediaplayerofdoom::bands::BandLibrary;
use mediaplayerofdoom::order::{chars_less, sort_paths, sort_songs};

fn v(items: &[&str]) -> Vec<String> {
    items.iter().map(|s| s.to_string()).collect()
}

fn cv(s: &str) -> Vec<char> {
    s.chars().collect()
}

#[test]
fn text_order_matches_string_order() {
    let words = ["", "a", "ab", "b", "B", "é", "z", "aa", "a b"];
    for x in words {
        for y in words {
            assert_eq!(chars_less(&cv(x), &cv(y)), x < y, "{:?} < {:?}", x, y);
        }
    }
}

#[test]
fn paths_sort_like_strings() {
    let mut pl = v(&["c", "a", "B", "b", "a"]);
    let mut expected = pl.clone();
    expected.sort();
    sort_paths(&mut pl);
    assert_eq!(pl, expected);
}

#[test]
fn songs_sort_stably_by_key() {
    let mut pl = v(&[
        "C:\\M\\Zed\\B.mp3",
        "C:\\M\\abba\\Song.mp3",
        "C:\\N\\ABBA\\song.mp3",
        "C:\\M\\Abba\\Alpha.mp3",
    ]);
    sort_songs(&mut pl);
    assert_eq!(
        pl,
        v(&["C:\\M\\Abba\\Alpha.mp3", "C:\\M\\abba\\Song.mp3", "C:\\N\\ABBA\\song.mp3", "C:\\M\\Zed\\B.mp3"])
    );
}

#[test]
fn filing_songs_under_bands() {
    let mut lib = BandLibrary::new();
    assert!(lib.file("Queen", "q1"));
    assert!(!lib.file("Queen", "q1"));
    assert!(lib.file("Abba", "q1"));
    assert!(!lib.file("", "z"));
    assert_eq!(lib.library(), v(&["q1"]));
    assert_eq!(
        lib.bands(),
        vec![("Queen".to_string(), v(&["q1"])), ("Abba".to_string(), v(&["q1"]))]
    );
}

#[test]
fn ingest_by_folder_or_group() {
    let mut lib = BandLibrary::new();
    let files = v(&["C:\\M\\Queen - Hits\\b.mp3", "C:\\M\\Queen - Hits\\a.mp3", "C:\\M\\Abba\\x.mp3", "loose.mp3"]);
    assert!(lib.ingest_bands(&files, None));
    assert_eq!(lib.songs_of("Queen"), v(&["C:\\M\\Queen - Hits\\a.mp3", "C:\\M\\Queen - Hits\\b.mp3"]));
    assert_eq!(lib.songs_of("Abba"), v(&["C:\\M\\Abba\\x.mp3"]));
    assert_eq!(lib.songs_of("Nobody"), Vec::<String>::new());
    assert_eq!(lib.library().len(), 3);
    assert!(!lib.ingest_bands(&files, None));
    assert!(lib.ingest_bands(&v(&["C:\\CD\\t1.mp3"]), Some("My Disc")));
    assert_eq!(lib.songs_of("My Disc"), v(&["C:\\CD\\t1.mp3"]));
}

#[test]
fn whole_library_listing() {
    let lib = BandLibrary::from_parts(
        v(&["C:\\M\\Zed\\z.mp3", "C:\\M\\Abba\\b.mp3", "C:\\M\\Queen\\extra.mp3", "C:\\M\\Abba\\a.mp3"]),
        vec![
            ("Zed".to_string(), v(&["C:\\M\\Zed\\z.mp3"])),
            ("abba".to_string(), v(&["C:\\M\\Abba\\b.mp3", "C:\\M\\Abba\\a.mp3"])),
        ],
    );
    let all = lib.all_songs_ordered();
    assert_eq!(
        all,
        v(&["C:\\M\\Abba\\a.mp3", "C:\\M\\Abba\\b.mp3", "C:\\M\\Queen\\extra.mp3", "C:\\M\\Zed\\z.mp3"])
    );
}

#[test]
fn whole_library_lists_each_song_once() {
    let mut lib = BandLibrary::new();
    lib.ingest_bands(&v(&["C:\\M\\A - X\\1.mp3", "C:\\M\\B - Y\\2.mp3", "C:\\M\\C\\3.mp3"]), None);
    lib.ingest_bands(&v(&["C:\\M\\A - X\\1.mp3", "C:\\M\\C\\3.mp3"]), Some("Mix"));
    let all = lib.all_songs_ordered();
    let set: HashSet<&String> = all.iter().collect();
    assert_eq!(all.len(), 3);
    assert_eq!(set.len(), 3);
}

#[test]
fn sorting_and_clearing_the_library() {
    let mut lib = BandLibrary::from_parts(
        v(&["C:\\M\\B\\z.mp3", "C:\\M\\A\\y.mp3"]),
        vec![("B".to_string(), v(&["C:\\M\\B\\z.mp3", "C:\\M\\B\\a.mp3"]))],
    );
    lib.sort_all();
    assert_eq!(lib.library(), v(&["C:\\M\\A\\y.mp3", "C:\\M\\B\\z.mp3"]));
    assert_eq!(lib.bands()[0].1, v(&["C:\\M\\B\\a.mp3", "C:\\M\\B\\z.mp3"]));
    lib.clear();
    assert!(lib.library().is_empty() && lib.bands().is_empty());
}
