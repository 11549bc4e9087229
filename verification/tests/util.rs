use std::time::Duration;

use mediaplayerofdoom::settings::{default_video_volume, loaded_levels};
use mediaplayerofdoom::tools::{
    entry_file_name, ffmpeg_path, ffprobe_path, mkvmerge_path, wanted_tool, ytdlp_path,
};
use mediaplayerofdoom::util::{
    beautify_name, fmt_hms, fmt_min_sec, fmt_min_sec_padded, fmt_run, is_audio, meta_cache_path, data_dir, tools_dir,
    next_track_num, sanitize_win, stem, track_num, truncate_mid,
};

#[test]
fn audio_extensions_ignore_case() {
    assert!(is_audio("C:\\Music\\a.mp3"));
    assert!(is_audio("C:\\Music\\a.FLAC"));
    assert!(is_audio("song.Opus"));
    assert!(!is_audio("cover.jpg"));
    assert!(!is_audio("noext"));
    assert!(!is_audio("C:\\Music\\.mp3"));
}

#[test]
fn stem_or_whole_path() {
    assert_eq!(stem("C:\\Music\\Band\\01 Song.mp3"), "01 Song");
    assert_eq!(stem("archive.tar.gz"), "archive.tar");
    assert_eq!(stem("C:\\"), "C:\\");
}

#[test]
fn run_time_formats() {
    assert_eq!(fmt_run(Duration::from_secs(3725)), "1:02:05");
    assert_eq!(fmt_run(Duration::from_millis(59_999)), "0:00:59");
    assert_eq!(fmt_run(Duration::from_secs(36_000 * 3)), "30:00:00");
    assert_eq!(fmt_hms(0), "0:00:00");
    assert_eq!(fmt_min_sec(125), "2:05");
    assert_eq!(fmt_min_sec_padded(65), "01:05");
    assert_eq!(fmt_min_sec_padded(6000), "100:00");
}

#[test]
fn cache_and_tool_paths() {
    assert_eq!(meta_cache_path("C:\\Data\\MediaPlayerOFDOOM"), "C:\\Data\\MediaPlayerOFDOOM\\metacache.json");
    assert_eq!(ytdlp_path("C:\\T"), "C:\\T\\yt-dlp.exe");
    assert_eq!(ffmpeg_path("C:\\T\\"), "C:\\T\\ffmpeg.exe");
    assert_eq!(ffprobe_path("C:\\T"), "C:\\T\\ffprobe.exe");
    assert_eq!(mkvmerge_path("C:\\T"), "C:\\T\\mkvmerge.exe");
    assert_eq!(default_video_volume(), 100);
}

#[test]
fn archive_entries_holding_tools() {
    assert_eq!(entry_file_name("ffmpeg-7.1-essentials/bin/ffmpeg.exe"), "ffmpeg.exe");
    assert_eq!(entry_file_name("dir\\sub\\ffprobe.exe"), "ffprobe.exe");
    assert_eq!(entry_file_name("plain"), "plain");
    assert_eq!(entry_file_name("dir/"), "");
    assert_eq!(wanted_tool("x/bin/ffmpeg.exe", true), Some("ffmpeg.exe".to_string()));
    assert_eq!(wanted_tool("x/bin/ffmpeg.exe", false), None);
    assert_eq!(wanted_tool("x\\bin\\ffprobe.exe", false), Some("ffprobe.exe".to_string()));
    assert_eq!(wanted_tool("x/bin/ffplay.exe", true), None);
}

#[test]
fn truncate_mid_keeps_both_ends() {
    assert_eq!(truncate_mid("abcdefghij", 7), "ab...ij");
    assert_eq!(truncate_mid("abc", 5), "abc");
    assert_eq!(truncate_mid("abcde", 5), "abcde");
    assert_eq!(truncate_mid("abcdef", 2), "...");
    assert_eq!(truncate_mid("ääääääääää", 8), "ää...ää");
}

#[test]
fn truncate_mid_fits() {
    for max in 3..12usize {
        let t = truncate_mid("The quick brown fox jumps", max);
        assert!(t.chars().count() <= max);
    }
}

#[test]
fn sanitize_replaces_reserved_characters() {
    assert_eq!(sanitize_win("  a:b*c?.  "), "a_b_c_");
    assert_eq!(sanitize_win("AC/DC <Live> \"x\" | y\\z"), "AC_DC _Live_ _x_ _ y_z");
    assert_eq!(sanitize_win("..."), "untitled");
    assert_eq!(sanitize_win("   "), "untitled");
    assert_eq!(sanitize_win("Song. . "), "Song");
}

#[test]
fn sanitized_names_are_safe() {
    for s in ["a:b", " . ", "x?*", "ok name", "trail. "] {
        let t = sanitize_win(s);
        assert!(!t.is_empty());
        assert!(!t.chars().any(|c| "\\/:*?\"<>|".contains(c)));
        assert!(!t.ends_with('.') && !t.ends_with(' '));
    }
}

#[test]
fn track_numbers() {
    assert_eq!(track_num("012 - x.mp3"), Some(12));
    assert_eq!(track_num("7"), Some(7));
    assert_eq!(track_num("abc"), None);
    assert_eq!(track_num("99999999999 - big.mp3"), None);
    let names = vec!["001 - a.mp3".to_string(), "007 - b.mp3".to_string(), "x.jpg".to_string()];
    assert_eq!(next_track_num(&names), 8);
    assert_eq!(next_track_num(&Vec::new()), 1);
}

#[test]
fn beautify_takes_off_numbers_and_remarks() {
    assert_eq!(beautify_name("03 Song Title (Remastered)"), "Song Title");
    assert_eq!(beautify_name("CD1 Intro"), "Intro");
    assert_eq!(beautify_name("Plain"), "Plain");
    assert_eq!(beautify_name("01"), "01");
    assert_eq!(beautify_name("Track 320kbps"), "Track");
}

#[test]
fn saved_levels_are_bounded() {
    assert_eq!(loaded_levels(250, 300, 9), (100, 200, 5));
    assert_eq!(loaded_levels(40, 150, 3), (40, 150, 3));
    assert_eq!(loaded_levels(100, 200, 5), (100, 200, 5));
}

#[test]
fn data_and_tools_folders() {
    let roaming = Some("C:\\Users\\me\\AppData\\Roaming");
    let home = Some("C:\\Users\\me");
    assert_eq!(data_dir(roaming, home), "C:\\Users\\me\\AppData\\Roaming\\MediaPlayerOFDOOM");
    assert_eq!(data_dir(None, home), "C:\\Users\\me\\MediaPlayerOFDOOM");
    assert_eq!(data_dir(None, None), ".\\MediaPlayerOFDOOM");
    let tools = tools_dir(roaming, None);
    assert_eq!(tools, "C:\\Users\\me\\AppData\\Roaming\\MediaPlayerOFDOOM\\tools");
    assert_eq!(ytdlp_path(&tools), "C:\\Users\\me\\AppData\\Roaming\\MediaPlayerOFDOOM\\tools\\yt-dlp.exe");
    assert_eq!(ffmpeg_path(&tools), "C:\\Users\\me\\AppData\\Roaming\\MediaPlayerOFDOOM\\tools\\ffmpeg.exe");
    assert_eq!(mkvmerge_path(&tools), "C:\\Users\\me\\AppData\\Roaming\\MediaPlayerOFDOOM\\tools\\mkvmerge.exe");
    assert_eq!(
        meta_cache_path(&data_dir(roaming, home)),
        "C:\\Users\\me\\AppData\\Roaming\\MediaPlayerOFDOOM\\metacache.json"
    );
}

#[test]
fn audio_extensions_in_any_case() {
    assert!(is_audio("C:\\Music\\Song.FLAC"));
    assert!(is_audio("a.Mp3"));
    assert!(!is_audio("x.part"));
}

#[test]
fn sanitized_names_stay_sanitized() {
    for name in ["  a:b*c?.  ", "AC/DC <Live>", "...", "", "x. . ."] {
        let once = sanitize_win(name);
        assert_eq!(sanitize_win(&once), once);
    }
}
