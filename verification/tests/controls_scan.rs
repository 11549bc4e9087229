use std::time::Duration;

use mediaplayerofdoom::controls::{
    char_action, deck_step, key_actions, next_deck_mode, play_press, run_status, scan_status, song_end_step,
    text_actions, DeckStep, EndStep, KeyAction, KeyState, PressPlan, PressStep, tape_track_step,
};
use mediaplayerofdoom::scan::{
    best_music_folder, collect_audio, cover_names, cover_pictures, drive_roots, is_picture,
    keep_audio, needs_ffmpeg,
};
use mediaplayerofdoom::types::DeckMode;

fn v(items: &[&str]) -> Vec<String> {
    items.iter().map(|s| s.to_string()).collect()
}

fn keys() -> KeyState {
    KeyState {
        focused: false,
        video_on: false,
        video_fs: false,
        space: false,
        left: false,
        right: false,
        up: false,
        down: false,
        f: false,
        f10: false,
        esc: false,
        shift: false,
        alt_enter: false,
    }
}

#[test]
fn transport_keys() {
    let mut k = keys();
    k.space = true;
    k.right = true;
    k.up = true;
    assert_eq!(key_actions(k), vec![KeyAction::TogglePause, KeyAction::Skip, KeyAction::VolumeUp]);
    k.shift = true;
    assert_eq!(key_actions(k), vec![KeyAction::TogglePause, KeyAction::SkipForward, KeyAction::VolumeUp]);
    let mut k = keys();
    k.left = true;
    k.down = true;
    assert_eq!(key_actions(k), vec![KeyAction::Prev, KeyAction::VolumeDown]);
}

#[test]
fn video_and_window_keys() {
    let mut k = keys();
    k.video_on = true;
    k.space = true;
    k.left = true;
    k.up = true;
    k.alt_enter = true;
    assert_eq!(
        key_actions(k),
        vec![KeyAction::ToggleVideoPlay, KeyAction::VideoBack, KeyAction::SetVideoFullscreen(true)]
    );
    let mut k = keys();
    k.focused = true;
    k.space = true;
    k.f = true;
    k.esc = true;
    k.f10 = true;
    assert_eq!(key_actions(k), vec![KeyAction::ToggleFullscreen, KeyAction::Escape, KeyAction::Quit]);
    let mut k = keys();
    k.alt_enter = true;
    assert_eq!(key_actions(k), vec![KeyAction::ToggleFullscreen]);
    assert_eq!(key_actions(keys()), Vec::<KeyAction>::new());
}

#[test]
fn typed_keys() {
    assert_eq!(char_action('+'), Some(KeyAction::VolumeUp));
    assert_eq!(char_action('_'), Some(KeyAction::VolumeDown));
    assert_eq!(char_action('p'), Some(KeyAction::TogglePause));
    assert_eq!(char_action('P'), Some(KeyAction::TogglePause));
    assert_eq!(char_action('S'), Some(KeyAction::Skip));
    assert_eq!(char_action('n'), Some(KeyAction::Skip));
    assert_eq!(char_action('r'), Some(KeyAction::Record));
    assert_eq!(char_action('M'), Some(KeyAction::ToggleMute));
    assert_eq!(char_action('d'), Some(KeyAction::CycleDeck));
    assert_eq!(char_action('v'), Some(KeyAction::ToggleVideo));
    assert_eq!(char_action('L'), Some(KeyAction::ToggleLyrics));
    assert_eq!(char_action('f'), None);
    assert_eq!(char_action('t'), Some(KeyAction::CycleTheme));
    assert_eq!(char_action('z'), Some(KeyAction::Prev));
    assert_eq!(char_action('X'), Some(KeyAction::TogglePause));
    assert_eq!(char_action('c'), Some(KeyAction::Stop));
    assert_eq!(char_action('B'), Some(KeyAction::ToggleRepeat));
    assert_eq!(char_action('j'), Some(KeyAction::FocusSearch));
    assert_eq!(char_action('q'), None);
    let typed: Vec<char> = "a+Tq-".chars().collect();
    assert_eq!(
        text_actions(false, false, &typed),
        vec![KeyAction::VolumeUp, KeyAction::CycleTheme, KeyAction::VolumeDown]
    );
    assert!(text_actions(true, false, &typed).is_empty());
    assert!(text_actions(false, true, &typed).is_empty());
    let typed: Vec<char> = "pNd".chars().collect();
    assert_eq!(
        text_actions(false, false, &typed),
        vec![KeyAction::TogglePause, KeyAction::Skip, KeyAction::CycleDeck]
    );
}

#[test]
fn deck_mode_key_cycles() {
    assert_eq!(next_deck_mode(DeckMode::Tape), DeckMode::Disc);
    assert_eq!(next_deck_mode(DeckMode::Disc), DeckMode::Radio);
    assert_eq!(next_deck_mode(DeckMode::Radio), DeckMode::Tape);
    for m in [DeckMode::Tape, DeckMode::Disc, DeckMode::Radio] {
        assert_eq!(next_deck_mode(next_deck_mode(next_deck_mode(m))), m);
    }
}

#[test]
fn deck_buttons() {
    assert_eq!(deck_step(DeckMode::Radio, DeckMode::Radio, false, true), DeckStep::Stay);
    assert_eq!(deck_step(DeckMode::Tape, DeckMode::Tape, false, false), DeckStep::ResumeTape);
    assert_eq!(deck_step(DeckMode::Tape, DeckMode::Tape, true, false), DeckStep::Stay);
    assert_eq!(deck_step(DeckMode::Disc, DeckMode::Tape, true, false), DeckStep::EnterTape { from_disc: true });
    assert_eq!(deck_step(DeckMode::Radio, DeckMode::Tape, false, true), DeckStep::EnterTape { from_disc: false });
    assert_eq!(deck_step(DeckMode::Tape, DeckMode::Radio, true, false), DeckStep::Switch { keep_tape_place: true });
    assert_eq!(deck_step(DeckMode::Disc, DeckMode::Radio, true, false), DeckStep::Switch { keep_tape_place: false });
}

#[test]
fn play_button() {
    let p = |step, forget| PressPlan { step, forget_saved: forget };
    assert_eq!(play_press(true, false, false, Some(true), false, 3, None), p(PressStep::TogglePause, false));
    assert_eq!(play_press(false, true, true, None, true, 3, None), p(PressStep::TogglePause, false));
    assert_eq!(play_press(false, false, false, Some(true), false, 3, None), p(PressStep::ResumeSaved, true));
    assert_eq!(play_press(false, false, false, Some(false), false, 3, Some(2)), p(PressStep::PlayEntry(2), true));
    assert_eq!(play_press(false, true, false, Some(true), true, 3, None), p(PressStep::ResumeCurrent, false));
    assert_eq!(play_press(false, true, false, None, false, 3, Some(7)), p(PressStep::PlayEntry(0), false));
    assert_eq!(play_press(false, false, false, None, false, 0, None), p(PressStep::NothingToPlay, false));
}

#[test]
fn status_lines() {
    assert_eq!(scan_status(0, 12), "SCANNING.  12 songs found");
    assert_eq!(scan_status(650, 0), "SCANNING...  0 songs found");
    assert_eq!(scan_status(900, 5), "SCANNING.  5 songs found");
    assert_eq!(run_status(3, 1, Duration::from_secs(61)), "Songs: 3 | Skips: 1 | 0:01:01");
}

#[test]
fn end_of_song() {
    assert_eq!(song_end_step(false, Some(601), true, true, 1501, false), EndStep::Next);
    assert_eq!(song_end_step(false, Some(601), true, true, 1501, true), EndStep::Replay);
    assert_eq!(song_end_step(false, Some(600), true, true, 1501, false), EndStep::Wait);
    assert_eq!(song_end_step(false, Some(9000), true, true, 1500, false), EndStep::Wait);
    assert_eq!(song_end_step(true, Some(9000), true, true, 9000, false), EndStep::Wait);
    assert_eq!(song_end_step(false, None, true, true, 9000, false), EndStep::Wait);
    assert_eq!(song_end_step(false, Some(9000), false, true, 9000, false), EndStep::Wait);
}

#[test]
fn folder_walk_keeps_sorted_audio() {
    let walk = v(&["C:\\M\\b.mp3", "C:\\M\\cover.jpg", "C:\\M\\A.FLAC", "C:\\M\\notes.txt"]);
    assert_eq!(keep_audio(&walk), v(&["C:\\M\\b.mp3", "C:\\M\\A.FLAC"]));
    assert_eq!(collect_audio(&walk), v(&["C:\\M\\A.FLAC", "C:\\M\\b.mp3"]));
}

#[test]
fn drives_from_bit_mask() {
    assert_eq!(drive_roots(0b101), v(&["A:\\", "C:\\"]));
    assert_eq!(drive_roots(0), Vec::<String>::new());
    assert_eq!(drive_roots(u32::MAX).len(), 26);
    assert_eq!(drive_roots(1 << 25), v(&["Z:\\"]));
}

#[test]
fn music_folder_with_most_songs() {
    let c = |p: &str, n: usize| (p.to_string(), n);
    assert_eq!(
        best_music_folder(&vec![c("home", 10), c("onedrive", 0), c("D:\\Music", 200)]),
        Some("D:\\Music".to_string())
    );
    // A home folder has no edge over a fuller drive folder.
    assert_eq!(best_music_folder(&vec![c("home", 10), c("E:\\Music", 50)]), Some("E:\\Music".to_string()));
    // The earliest wins a tie.
    assert_eq!(best_music_folder(&vec![c("home", 50), c("E:\\Music", 50)]), Some("home".to_string()));
    assert_eq!(best_music_folder(&vec![c("home", 0), c("E:\\Music", 0)]), None);
    assert_eq!(best_music_folder(&vec![]), None);
}

#[test]
fn cover_pictures_next_to_a_song() {
    assert_eq!(cover_names(), vec!["cover.jpg", "cover.png", "folder.jpg", "album.jpg", "front.jpg", "default.jpg"]);
    assert!(is_picture("x\\Scan.JPEG"));
    assert!(!is_picture("x\\a.gif"));
    let listing = v(&["d\\z.png", "d\\song.mp3", "d\\B.jpg", "d\\a.JPG"]);
    assert_eq!(cover_pictures(&listing), v(&["d\\B.jpg", "d\\a.JPG", "d\\z.png"]));
}

#[test]
fn mpeg4_audio_needs_ffmpeg() {
    assert!(needs_ffmpeg("C:\\a.M4A", "C:\\a.M4A"));
    assert!(needs_ffmpeg("x.m4b", "x.m4b"));
    assert!(!needs_ffmpeg("C:\\tc\\1.wav", "C:\\a.m4a"));
    assert!(!needs_ffmpeg("x.mp3", "x.mp3"));
}

#[test]
fn tape_turns_over_after_a_full_side() {
    let mut state = (0u32, true);
    let mut turns = Vec::new();
    for _ in 0..11 {
        let (n, side_a, turned) = tape_track_step(state.0, 5, state.1);
        state = (n, side_a);
        turns.push(turned);
    }
    assert_eq!(turns, vec![false, false, false, false, false, true, false, false, false, false, true]);
    assert_eq!(state, (1, true));
    assert_eq!(tape_track_step(4, 5, false), (5, false, false));
}
