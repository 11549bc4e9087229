use mediaplayerofdoom::paths::{
    extension_of, file_name_of, file_stem_of, folder_name_of, is_separator, join_path,
};
use mediaplayerofdoom::text::{
    chars_of, dec_chars, dec_pad_chars, find_seq, first_line_chars, replace_all_chars, seq_eq,
    string_of, trim_str,
};

fn cv(s: &str) -> Vec<char> {
    s.chars().collect()
}

fn sv(v: &Vec<char>) -> String {
    v.iter().collect()
}

#[test]
fn chars_round_trip() {
    let v = chars_of("héllo wörld");
    assert_eq!(v, cv("héllo wörld"));
    assert_eq!(string_of(&v), "héllo wörld");
}

#[test]
fn trim_drops_outer_whitespace() {
    assert_eq!(sv(&trim_str("  \t a b \n")), "a b");
    assert_eq!(sv(&trim_str("   ")), "");
}

#[test]
fn find_gives_first_match() {
    assert_eq!(find_seq(&cv("a - b - c"), &cv(" - ")), Some(1));
    assert_eq!(find_seq(&cv("abc"), &cv("x")), None);
    assert!(seq_eq(&cv("abc"), &cv("abc")));
    assert!(!seq_eq(&cv("abc"), &cv("abd")));
}

#[test]
fn replace_all_replaces_each_match() {
    let r = replace_all_chars(&cv("a\\b\\c"), &cv("\\"), &cv("/"));
    assert_eq!(sv(&r), "a/b/c");
}

#[test]
fn first_line_stops_at_newline() {
    assert_eq!(sv(&first_line_chars(&cv("one\r\ntwo"))), "one");
    assert_eq!(sv(&first_line_chars(&cv("single"))), "single");
}

#[test]
fn decimal_digits() {
    assert_eq!(sv(&dec_chars(0)), "0");
    assert_eq!(sv(&dec_chars(1234)), "1234");
    assert_eq!(sv(&dec_pad_chars(7, 3)), "007");
    assert_eq!(sv(&dec_pad_chars(1234, 2)), "1234");
}

#[test]
fn path_parts() {
    let p = cv("C:\\Music\\Band - Album\\01 Song.mp3");
    assert_eq!(file_name_of(&p).map(|v| sv(&v)), Some("01 Song.mp3".to_string()));
    assert_eq!(folder_name_of(&p).map(|v| sv(&v)), Some("Band - Album".to_string()));
    assert_eq!(file_stem_of(&p).map(|v| sv(&v)), Some("01 Song".to_string()));
    assert_eq!(extension_of(&p).map(|v| sv(&v)), Some("mp3".to_string()));
}

#[test]
fn path_parts_edge_cases() {
    assert_eq!(file_name_of(&cv("C:\\")), None);
    assert_eq!(file_name_of(&cv("dir/sub/")).map(|v| sv(&v)), Some("sub".to_string()));
    assert_eq!(file_stem_of(&cv("C:\\x\\.hidden")).map(|v| sv(&v)), Some(".hidden".to_string()));
    assert_eq!(extension_of(&cv("C:\\x\\.hidden")), None);
    assert_eq!(folder_name_of(&cv("song.mp3")), None);
    assert!(is_separator('/') && is_separator('\\') && !is_separator(':'));
}

#[test]
fn join_adds_one_separator() {
    assert_eq!(join_path("C:\\tools", "x.exe"), "C:\\tools\\x.exe");
    assert_eq!(join_path("C:\\tools\\", "x.exe"), "C:\\tools\\x.exe");
    assert_eq!(join_path("", "x.exe"), "x.exe");
}
