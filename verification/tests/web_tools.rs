use mediaplayerofdoom::ffmpeg::{
    cut_file_name, fit_video_dims, fmt_timestamp, is_cut_copy, parse_probe_dims, parse_u32,
    probe_line, split_parts,
};
use mediaplayerofdoom::network::{
    art_search_term, art_url_from_reply, artwork_url, lyrics_from_reply, lyrics_url, percent_encode,
};
use mediaplayerofdoom::ytdlp::{
    album_folder_name, is_yt_log_line, matching_folder, parse_yt_lookup, pick_artist,
    push_yt_log, split_yt_progress, track_file_name, yt_resolve_title, yt_search_target,
    YT_LOG_MAX,
};

fn v(items: &[&str]) -> Vec<String> {
    items.iter().map(|s| s.to_string()).collect()
}

fn s(x: &str) -> String {
    x.to_string()
}

fn float_fit(w: u32, h: u32, max_w: u32, max_h: u32) -> (u32, u32) {
    if w == 0 || h == 0 || max_w == 0 || max_h == 0 {
        return (640, 360);
    }
    let mut tw = w;
    let mut th = h;
    let sc = (max_w as f32 / tw as f32).min(max_h as f32 / th as f32);
    if sc < 1.0 {
        tw = ((tw as f32) * sc) as u32;
        th = ((th as f32) * sc) as u32;
    }
    if tw % 2 != 0 {
        tw -= 1;
    }
    if th % 2 != 0 {
        th -= 1;
    }
    (tw.max(2), th.max(2))
}

#[test]
fn percent_encoding() {
    assert_eq!(percent_encode("a b&c"), "a%20b%26c");
    assert_eq!(percent_encode("AZaz09-_.~"), "AZaz09-_.~");
    assert_eq!(percent_encode("é/"), "%C3%A9%2F");
    assert_eq!(percent_encode(""), "");
}

#[test]
fn lyrics_and_cover_addresses() {
    assert_eq!(lyrics_url("AC/DC", "Back In Black"), "https://api.lyrics.ovh/v1/AC%2FDC/Back%20In%20Black");
    assert_eq!(art_search_term("Queen", "Jazz"), "Queen Jazz");
    assert_eq!(
        artwork_url(Some(1), Some(s("https://x/100x100bb.jpg"))),
        Some(s("https://x/500x500bb.jpg"))
    );
    assert_eq!(artwork_url(Some(0), Some(s("https://x/100x100bb.jpg"))), None);
    assert_eq!(artwork_url(None, Some(s("u"))), None);
    assert_eq!(artwork_url(Some(2), None), None);
    assert_eq!(artwork_url(Some(1), Some(s("plain"))), Some(s("plain")));
}

#[test]
fn yt_progress_lines() {
    assert_eq!(
        split_yt_progress("  [download]  42.0% of 3.00MiB at 1.00MiB/s ETA 00:02 "),
        Some((s("42.0"), s("1.00MiB/s"), s("00:02")))
    );
    assert_eq!(split_yt_progress("[download] 100% of 3.00MiB"), Some((s("100"), s(""), s(""))));
    assert_eq!(split_yt_progress("[download] Destination: x.mp3"), None);
    assert_eq!(split_yt_progress("[info] 50%"), None);
}

#[test]
fn yt_log_lines() {
    assert!(is_yt_log_line("[download] 5% of x"));
    assert!(is_yt_log_line("ERROR: boom"));
    assert!(is_yt_log_line("[ExtractAudio] Destination: a.mp3"));
    assert!(!is_yt_log_line("WARNING: something"));
    assert!(!is_yt_log_line(" [info] leading space"));
}

#[test]
fn yt_log_keeps_the_last_lines() {
    let mut log: Vec<String> = Vec::new();
    for i in 0..(YT_LOG_MAX + 5) {
        push_yt_log(&mut log, format!("line {}", i));
    }
    assert_eq!(log.len(), YT_LOG_MAX);
    assert_eq!(log[0], "line 5");
    assert_eq!(log[YT_LOG_MAX - 1], format!("line {}", YT_LOG_MAX + 4));
}

#[test]
fn yt_lookup_and_titles() {
    assert_eq!(
        parse_yt_lookup("id1|My Title|Artist|Uploader|Album\nextra"),
        Some((s("id1"), s("My Title"), s("Artist"), s("Uploader"), s("Album")))
    );
    assert_eq!(parse_yt_lookup("id2|T"), Some((s("id2"), s("T"), s(""), s(""), s(""))));
    assert_eq!(parse_yt_lookup("\nsecond"), None);
    assert_eq!(yt_search_target("  cool song "), Some(s("ytsearch1:cool song")));
    assert_eq!(yt_search_target("https://youtu.be/x"), Some(s("https://youtu.be/x")));
    assert_eq!(yt_search_target("   "), None);
    let found = Some((s("id"), s("Real Title"), s(""), s(""), s("")));
    assert_eq!(yt_resolve_title("q", found), "Real Title");
    assert_eq!(yt_resolve_title("q", Some((s("id"), s(""), s(""), s(""), s("")))), "q");
    assert_eq!(yt_resolve_title("q", None), "q");
}

#[test]
fn download_file_names() {
    assert_eq!(pick_artist(s(""), s("Uploader")), "Uploader");
    assert_eq!(pick_artist(s("Band"), s("Uploader")), "Band");
    assert_eq!(pick_artist(s(""), s("")), "Unknown");
    assert_eq!(album_folder_name("AC/DC", "  "), "AC_DC - Singles");
    assert_eq!(album_folder_name("Queen", "Jazz?"), "Queen - Jazz_");
    assert_eq!(track_file_name(7, 0, "A:B"), "007 - A_B.mp3");
    assert_eq!(track_file_name(1234, 2, "x"), "1234.2 - x.mp3");
    let names = v(&["Other", "queen - JAZZ", "Queen - Jazz"]);
    assert_eq!(matching_folder(&names, "Queen - Jazz"), Some(1));
    assert_eq!(matching_folder(&names, "Nope"), None);
}

#[test]
fn video_decode_size() {
    assert_eq!(fit_video_dims(3840, 2160, 1920, 1080), (1920, 1080));
    assert_eq!(fit_video_dims(1280, 720, 1920, 1080), (1280, 720));
    assert_eq!(fit_video_dims(0, 720, 1920, 1080), (640, 360));
    assert_eq!(fit_video_dims(1001, 3, 1920, 1080), (1000, 2));
    for (w, h) in [(3840, 1600), (720, 576), (4096, 2160), (1000, 4000), (1921, 1081)] {
        let r = fit_video_dims(w, h, 1920, 1080);
        assert_eq!(r, float_fit(w, h, 1920, 1080), "{}x{}", w, h);
        assert!(r.0 <= 1920 && r.1 <= 1080 && r.0 % 2 == 0 && r.1 % 2 == 0);
    }
}

#[test]
fn ffprobe_output() {
    assert_eq!(parse_probe_dims("1920\n1080\n24000/1001\n"), (1920, 1080));
    assert_eq!(parse_probe_dims(" 640 \r\n 0 \n"), (0, 0));
    assert_eq!(parse_probe_dims("abc\n480\n"), (0, 0));
    assert_eq!(probe_line("a\n b \nc", 1), Some(s("b")));
    assert_eq!(probe_line("a\n", 1), None);
    assert_eq!(parse_u32("+42"), Some(42));
    assert_eq!(parse_u32("4294967295"), Some(u32::MAX));
    assert_eq!(parse_u32("4294967296"), None);
    assert_eq!(parse_u32("-1"), None);
    assert_eq!(parse_u32(""), None);
}

#[test]
fn mkvmerge_split_ranges() {
    let t: String = fmt_timestamp(3725).iter().collect();
    assert_eq!(t, "01:02:05.000");
    assert_eq!(split_parts(90, 1300), Some(s("parts:00:01:30.000-00:21:40.000")));
    assert_eq!(split_parts(90, 0), Some(s("parts:00:01:30.000-")));
    assert_eq!(split_parts(0, 1300), Some(s("parts:-00:21:40.000")));
    assert_eq!(split_parts(500, 400), Some(s("parts:00:08:20.000-")));
    assert_eq!(split_parts(0, 0), None);
    assert_eq!(cut_file_name("Episode 1"), "Episode 1_cut.mkv");
    assert!(is_cut_copy("C:\\V\\Episode 1_cut.mkv"));
    assert!(!is_cut_copy("C:\\V\\Episode 1.mkv"));
}

#[test]
fn web_replies_are_read() {
    let reply = r#"{"resultCount":1,"results":[{"artworkUrl100":"https://x/a/100x100bb.jpg"}]}"#;
    assert_eq!(art_url_from_reply(reply), Some("https://x/a/500x500bb.jpg".to_string()));
    assert_eq!(art_url_from_reply(r#"{"resultCount":0,"results":[]}"#), None);
    assert_eq!(art_url_from_reply(r#"{"results":[{"artworkUrl100":"u"}]}"#), None);
    assert_eq!(art_url_from_reply("<html>"), None);
    assert_eq!(lyrics_from_reply(r#"{"lyrics":"la la\nla"}"#), Some("la la\nla".to_string()));
    assert_eq!(lyrics_from_reply(r#"{"error":"No lyrics found"}"#), None);
    assert_eq!(lyrics_from_reply("oops"), None);
}

#[test]
fn escaped_text_has_url_characters_only() {
    let e = percent_encode("a b/é~");
    assert_eq!(e, "a%20b%2F%C3%A9~");
    assert!(e.chars().all(|c| c.is_ascii_alphanumeric() || "-_.~%".contains(c)));
    assert_eq!(e.len(), 1 + 3 + 1 + 3 + 6 + 1);
}
