use mediaplayerofdoom::prefetch::{cover_search, PrefetchJob, PrefetchStart};
use mediaplayerofdoom::bands::BandLibrary;
use mediaplayerofdoom::batch::{chunks_of, select_missing, BATCH};
use mediaplayerofdoom::library::row_name;
use mediaplayerofdoom::playlist::{playlist_from_json, playlist_to_json};

fn v(items: &[&str]) -> Vec<String> {
    items.iter().map(|s| s.to_string()).collect()
}

#[test]
fn batches_of_fixed_size() {
    let items: Vec<String> = (0..5).map(|i| i.to_string()).collect();
    assert_eq!(chunks_of(&items, 2), vec![v(&["0", "1"]), v(&["2", "3"]), v(&["4"])]);
    assert_eq!(chunks_of(&items, 5), vec![items.clone()]);
    assert_eq!(chunks_of(&Vec::new(), 3), Vec::<Vec<String>>::new());
    let many: Vec<String> = (0..(BATCH * 2 + 1)).map(|i| i.to_string()).collect();
    let b = chunks_of(&many, BATCH);
    assert_eq!(b.len(), 3);
    assert_eq!(b.concat(), many);
}

#[test]
fn songs_still_to_fetch() {
    let pl = v(&["a", "b", "c"]);
    assert_eq!(select_missing(&pl, &vec![true, false, false]), v(&["b", "c"]));
    assert_eq!(select_missing(&pl, &vec![true, true, true]), Vec::<String>::new());
}

#[test]
fn playlist_rows() {
    let p = "C:\\M\\Band - Album\\01 Song.mp3";
    assert_eq!(row_name(p, Some("Tagged Name"), Some(("A", "T"))), "Tagged Name");
    assert_eq!(row_name(p, None, Some(("A", "T"))), "A - T");
    assert_eq!(row_name(p, None, None), "Band - Album - Song");
}

#[test]
fn playlist_files_in_json() {
    assert_eq!(playlist_from_json("[\"b\", \"a\", \"C\"]"), Some(v(&["C", "a", "b"])));
    assert_eq!(playlist_from_json("{\"not\": 1}"), None);
    assert_eq!(playlist_from_json("nonsense"), None);
    let text = playlist_to_json(&v(&["x\\y.mp3", "z"])).unwrap();
    assert_eq!(text, "[\"x\\\\y.mp3\",\"z\"]");
    assert_eq!(playlist_from_json(&text), Some(v(&["x\\y.mp3", "z"])));
}

#[test]
fn scanned_library_folder() {
    let mut lib = BandLibrary::new();
    let files = v(&["R\\Queen\\a.mp3", "R\\Queen\\Live\\b.mp3", "R\\Abba\\c.mp3", "R\\Song - Title (Artist).mp3"]);
    let rels = vec![
        Some(v(&["Queen", "a.mp3"])),
        Some(v(&["Queen", "Live", "b.mp3"])),
        Some(v(&["Abba", "c.mp3"])),
        Some(v(&["Song - Title (Artist).mp3"])),
    ];
    assert!(lib.ingest_dir("C:\\R", &files, &rels));
    assert_eq!(lib.songs_of("Queen"), v(&["R\\Queen\\Live\\b.mp3", "R\\Queen\\a.mp3"]));
    assert_eq!(lib.songs_of("Abba"), v(&["R\\Abba\\c.mp3"]));
    assert_eq!(lib.songs_of("Artist"), v(&["R\\Song - Title (Artist).mp3"]));
}

#[test]
fn scanned_album_folder() {
    let mut lib = BandLibrary::new();
    let files = v(&["C:\\Albums\\Jazz\\1.mp3", "C:\\Albums\\Jazz\\2.mp3", "C:\\Albums\\Jazz\\cd2\\3.mp3"]);
    let rels = vec![Some(v(&["1.mp3"])), Some(v(&["2.mp3"])), Some(v(&["cd2", "3.mp3"]))];
    assert!(lib.ingest_dir("C:\\Albums\\Jazz\\", &files, &rels));
    assert_eq!(lib.songs_of("Jazz").len(), 3);
    assert_eq!(lib.bands().len(), 1);
}

#[test]
fn saved_playlist_loads_back_in_path_order() {
    let pl = v(&["D:\\Zed\\b.mp3", "C:\\Ann\\a.mp3", "C:\\Ann\\a.mp3", "say \"hi\".mp3"]);
    let text = playlist_to_json(&pl).unwrap();
    let back = playlist_from_json(&text).unwrap();
    assert_eq!(back, v(&["C:\\Ann\\a.mp3", "C:\\Ann\\a.mp3", "D:\\Zed\\b.mp3", "say \"hi\".mp3"]));
}

#[test]
fn meta_all_run_tracks_its_work() {
    let mut job = PrefetchJob::new();
    let pl = v(&["a.mp3", "b.mp3", "c.mp3"]);
    let (step, tags, covers) = job.start(&v(&[]), &vec![], &vec![]);
    assert_eq!((step, tags.len(), covers.len()), (PrefetchStart::NoPlaylist, 0, 0));
    let (step, _, _) = job.start(&pl, &vec![true, true, true], &vec![true, true, true]);
    assert_eq!(step, PrefetchStart::AllCached);
    let (step, tags, covers) = job.start(&pl, &vec![true, false, false], &vec![false, true, true]);
    assert_eq!(step, PrefetchStart::Started);
    assert_eq!((tags, covers), (v(&["b.mp3", "c.mp3"]), v(&["a.mp3"])));
    assert!(job.is_active() && job.tags_pending("b.mp3") && job.cover_pending("a.mp3"));
    assert_eq!(job.start(&pl, &vec![false; 3], &vec![false; 3]).0, PrefetchStart::StillRunning);
    assert_eq!(job.counts(), (2, 1, 0));
    job.tags_done("b.mp3");
    job.tags_done("c.mp3");
    job.cover_done("a.mp3");
    assert!(job.web_wanted("a.mp3"));
    assert!(!job.web_wanted("a.mp3"));
    assert!(!job.finish_if_done());
    job.web_done("a.mp3");
    assert!(job.finish_if_done());
    assert!(!job.finish_if_done());
    assert!(!job.is_active());
}

#[test]
fn cover_search_fills_unknown_tags_from_the_folder() {
    let p = "C:\\Music\\Queen - Greatest Hits\\01.mp3";
    assert_eq!(
        cover_search(p, "Unknown".into(), "Unknown".into()),
        Some(("Queen".to_string(), "Greatest Hits".to_string()))
    );
    assert_eq!(
        cover_search("C:\\Music\\Loose\\01.mp3", "Unknown".into(), "Unknown".into()),
        Some(("Loose".to_string(), String::new()))
    );
    assert_eq!(cover_search("01.mp3", "Unknown".into(), "Gold".into()), None);
    assert_eq!(cover_search(p, "ABBA".into(), "Gold".into()), Some(("ABBA".to_string(), "Gold".to_string())));
}
