use mediaplayerofdoom::stored::{bands_from_json, history_from_json, no_art_from_json};

fn s(v: &[&str]) -> Vec<String> {
    v.iter().map(|x| x.to_string()).collect()
}

#[test]
fn saved_bands_load_into_the_library() {
    let text = r#"{"Metallica":["a.mp3","b.mp3"],"Slayer":["c.mp3"]}"#;
    let b = bands_from_json(text, s(&["x.mp3"])).expect("a band object");
    assert_eq!(b.library(), s(&["x.mp3"]));
    let mut bands = b.bands();
    bands.sort();
    assert_eq!(
        bands,
        vec![
            ("Metallica".to_string(), s(&["a.mp3", "b.mp3"])),
            ("Slayer".to_string(), s(&["c.mp3"])),
        ]
    );
}

#[test]
fn saved_bands_refuse_other_text() {
    assert!(bands_from_json("", Vec::new()).is_none());
    assert!(bands_from_json("[1, 2]", Vec::new()).is_none());
    assert!(bands_from_json(r#"{"Metallica": 3}"#, Vec::new()).is_none());
    let b = bands_from_json("{}", Vec::new()).expect("an empty object");
    assert!(b.bands().is_empty());
}

#[test]
fn saved_history_loads_each_count() {
    let mut h = history_from_json(r#"{"a.mp3": 3, "b.mp3": 1}"#).expect("a count object");
    h.sort();
    assert_eq!(h, vec![("a.mp3".to_string(), 3), ("b.mp3".to_string(), 1)]);
    assert!(history_from_json(r#"{"a.mp3": -1}"#).is_none());
    assert!(history_from_json("not json").is_none());
}

#[test]
fn saved_no_art_list_loads_each_song_once() {
    let mut v = no_art_from_json(r#"["x.mp3", "y.mp3", "x.mp3"]"#).expect("a list");
    v.sort();
    assert_eq!(v, s(&["x.mp3", "y.mp3"]));
    assert!(no_art_from_json(r#"{"x": 1}"#).is_none());
}
