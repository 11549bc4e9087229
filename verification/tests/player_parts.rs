use std::time::Duration;

use mediaplayerofdoom::audio::SkipFirst;
use mediaplayerofdoom::download::{QueueStep, YtQueue};
use mediaplayerofdoom::pipe::PcmQueue;
use mediaplayerofdoom::theme::{hex, next_eq_preset, next_theme, palette, prev_eq_preset, Rgb};
use mediaplayerofdoom::types::{DeckMode, VideoAspect, YtCmd};
use mediaplayerofdoom::video::{rgb_to_rgba, tag_video_clock, video_clock_ms, VideoEnd, VideoQueue};
use mediaplayerofdoom::windows::build_icon_fallback_rgba;

fn v(items: &[&str]) -> Vec<String> {
    items.iter().map(|s| s.to_string()).collect()
}

#[test]
fn colors_from_hex_text() {
    assert_eq!(hex("#1ce0ff"), Rgb { r: 28, g: 224, b: 255 });
    assert_eq!(hex("##0a0B0c"), Rgb { r: 10, g: 11, b: 12 });
    assert_eq!(hex("zz00+f"), Rgb { r: 0, g: 0, b: 15 });
    assert_eq!(hex("#\u{e9}\u{e9}\u{e9}"), Rgb { r: 0, g: 0, b: 0 });
    assert_eq!(hex("#\u{e9}12ff"), Rgb { r: 0, g: 0x12, b: 0xff });
}

#[test]
fn theme_palettes() {
    let w = palette("Winamp");
    assert_eq!(w.accent, Rgb { r: 0x1c, g: 0xe0, b: 0xff });
    assert_eq!(w.bg, Rgb { r: 0x0b, g: 0x0b, b: 0x0b });
    assert_eq!(palette("No Such Theme"), palette("Matrix"));
    let mut t = "Winamp";
    let mut seen = Vec::new();
    for _ in 0..5 {
        t = next_theme(t);
        seen.push(t);
    }
    assert_eq!(seen, vec!["Matrix", "Cyberpunk", "Amber", "Ocean", "Winamp"]);
    assert_eq!(next_theme("???"), "Matrix");
}

#[test]
fn eq_presets_step_both_ways() {
    assert_eq!(next_eq_preset("Flat"), "Metal");
    assert_eq!(next_eq_preset("Vocal"), "Flat");
    assert_eq!(prev_eq_preset("Flat"), "Vocal");
    assert_eq!(prev_eq_preset("Metal"), "Flat");
    assert_eq!(next_eq_preset("custom"), "Metal");
    assert_eq!(prev_eq_preset("custom"), "Vocal");
    for p in ["Flat", "Metal", "Rock", "Pop", "Heavy Metal", "Death Metal", "Punk Rock", "Bass Boost", "Treble Boost", "Vocal"] {
        assert_eq!(prev_eq_preset(next_eq_preset(p)), p);
    }
}

#[test]
fn aspect_button_and_deck_faces() {
    let a = VideoAspect::default();
    assert_eq!(a, VideoAspect::Original);
    assert_eq!(a.label(), "ORIG");
    assert_eq!(a.next().label(), "4:3");
    assert_eq!(a.next().next().label(), "16:9");
    assert_eq!(a.next().next().next(), a);
    assert!(DeckMode::Tape != DeckMode::Disc);
}

#[test]
fn video_clock_words() {
    let c = tag_video_clock(3, 1234);
    assert_eq!(c, (3u64 << 48) + 1235);
    assert_eq!(video_clock_ms(c, 3), Some(1234));
    assert_eq!(video_clock_ms(c, 4), None);
    assert_eq!(video_clock_ms(c, 3 + 0x10000), Some(1234));
    assert_eq!(video_clock_ms(0, 0), None);
    assert_eq!(video_clock_ms(tag_video_clock(7, 0), 7), Some(0));
}

#[test]
fn frames_gain_an_alpha_channel() {
    assert_eq!(rgb_to_rgba(&[1, 2, 3, 4, 5, 6, 7]), vec![1, 2, 3, 255, 4, 5, 6, 255]);
    assert!(rgb_to_rgba(&[9, 9]).is_empty());
}

#[test]
fn video_queue_steps() {
    let mut q = VideoQueue::new();
    assert_eq!(q.next(), None);
    assert_eq!(q.enqueue(v(&["a", "b", "c"]), false), Some("a".to_string()));
    assert_eq!(q.enqueue(v(&["d"]), true), None);
    assert_eq!(q.len(), 4);
    assert_eq!(q.next(), Some("b".to_string()));
    assert_eq!(q.prev(), Some("a".to_string()));
    assert_eq!(q.prev(), Some("d".to_string()));
    assert_eq!(q.next(), Some("a".to_string()));
    assert_eq!(q.select(2), Some("c".to_string()));
    assert_eq!(q.select(9), None);
    q.remove(0);
    assert_eq!(q.current_index(), 1);
    assert_eq!(q.replay(), Some("c".to_string()));
    q.remove(2);
    assert_eq!(q.items(), &v(&["b", "c"]));
    assert_eq!(q.get(1), Some("c".to_string()));
    q.remove(1);
    assert_eq!(q.current_index(), 0);
    q.clear();
    assert_eq!(q.len(), 0);
}

#[test]
fn download_queue_runs_in_order() {
    let mut q = YtQueue::new();
    assert!(q.add("   ").is_none());
    match q.add("  first song ") {
        Some(YtCmd::Resolve { idx, query }) => {
            assert_eq!(idx, 0);
            assert_eq!(query, "first song");
        }
        _ => panic!("expected a lookup"),
    }
    q.add("second");
    q.resolved(0, "first song", "First Song (Official)".to_string());
    q.resolved(1, "other", "ignored".to_string());
    assert_eq!(
        q.entries(),
        vec![
            ("first song".to_string(), "First Song (Official)".to_string()),
            ("second".to_string(), "second".to_string())
        ]
    );
    match q.start() {
        QueueStep::Download { cmd: YtCmd::Download { query, auto_play, chunks }, shown } => {
            assert_eq!(query, "first song");
            assert!(!auto_play);
            assert_eq!(chunks, 8);
            assert_eq!(shown, "First Song (Official)");
        }
        _ => panic!("expected a download"),
    }
    assert!(q.is_processing());
    assert!(matches!(q.start(), QueueStep::Nothing));
    assert!(!q.clear());
    assert!(!q.remove_query("second"));
    match q.advance() {
        QueueStep::Download { shown, .. } => assert_eq!(shown, "second"),
        _ => panic!("expected the second download"),
    }
    assert_eq!(q.active(), Some("second".to_string()));
    assert!(matches!(q.advance(), QueueStep::Finished));
    assert!(!q.is_processing());
    assert_eq!(q.active(), None);
}

#[test]
fn download_queue_edits_while_idle() {
    let mut q = YtQueue::new();
    q.add("a");
    q.add("b");
    q.add("a");
    assert!(q.remove_query("a"));
    assert_eq!(q.len(), 2);
    assert!(!q.remove_query("zzz"));
    assert!(q.clear());
    assert_eq!(q.len(), 0);
    assert!(matches!(q.start(), QueueStep::Nothing));
}

#[test]
fn skipping_the_start_of_a_source() {
    let mut s = SkipFirst::new((), Duration::from_millis(500), 44100, 2);
    let mut dropped = 0u64;
    while s.skip_pending() {
        s.skipped_one();
        dropped += 1;
    }
    assert_eq!(dropped, 44100);
    assert_eq!(s.channels(), 2);
    assert_eq!(s.total_duration(Some(Duration::from_secs(3))), Some(Duration::from_millis(2500)));
    assert_eq!(s.total_duration(Some(Duration::from_millis(100))), Some(Duration::ZERO));
    assert_eq!(s.total_duration(None), None);
    let z = SkipFirst::new(5u8, Duration::from_secs(2), 0, 0);
    assert_eq!(z.channels(), 1);
    assert_eq!(*z.inner(), 5);
}

#[test]
fn pcm_samples_from_pipe_bytes() {
    let mut q = PcmQueue::new();
    assert!(q.is_empty());
    q.push_chunk(&[0x01, 0x00, 0xff, 0xff, 0x00, 0x80, 0x07], 7);
    assert_eq!(q.pop(), Some(1));
    assert_eq!(q.pop(), Some(-1));
    assert_eq!(q.pop(), Some(-32768));
    assert_eq!(q.pop(), None);
    q.push_chunk(&[0xff, 0x7f, 0x01, 0x02], 2);
    assert_eq!(q.pop(), Some(32767));
    assert!(q.is_empty());
}

fn float_icon() -> Vec<u8> {
    fn cross(px: f32, py: f32, a: (f32, f32), b: (f32, f32)) -> f32 {
        (b.0 - a.0) * (py - a.1) - (b.1 - a.1) * (px - a.0)
    }
    let (t1, t2, t3) = ((9.0, 13.0), (9.0, 25.0), (24.0, 19.0));
    let mut out = vec![0u8; 32 * 32 * 4];
    for y in 0..32 {
        for x in 0..32 {
            let px = x as f32 + 0.5;
            let py = y as f32 + 0.5;
            let d = ((px - 16.0) * (px - 16.0) + (py - 16.0) * (py - 16.0)).sqrt();
            let (d1, d2, d3) = (cross(px, py, t1, t2), cross(px, py, t2, t3), cross(px, py, t3, t1));
            let inside = !((d1 < 0.0 || d2 < 0.0 || d3 < 0.0) && (d1 > 0.0 || d2 > 0.0 || d3 > 0.0));
            let c = if inside && d <= 14.5 {
                [0, 255, 0, 255]
            } else if d <= 15.0 {
                [42, 42, 42, 255]
            } else if d <= 16.5 {
                [0, 170, 0, 255]
            } else {
                [0, 0, 0, 0]
            };
            let i = (y * 32 + x) * 4;
            out[i..i + 4].copy_from_slice(&c);
        }
    }
    out
}

#[test]
fn tray_icon_pixels() {
    let icon = build_icon_fallback_rgba();
    assert_eq!(icon.len(), 4096);
    assert_eq!(icon, float_icon());
    assert_eq!(&icon[0..4], &[0, 0, 0, 0]);
}

#[test]
fn video_end_moves_the_queue_on() {
    let mut q = VideoQueue::new();
    assert_eq!(q.stream_ended(3, 3, false), VideoEnd::Ended);
    q.enqueue(vec!["a.mkv".to_string(), "b.mkv".to_string()], false);
    assert_eq!(q.stream_ended(2, 3, false), VideoEnd::Stale);
    assert_eq!(q.stream_ended(3, 3, true), VideoEnd::Stale);
    assert_eq!(q.current_index(), 0);
    assert_eq!(q.stream_ended(3, 3, false), VideoEnd::Next("b.mkv".to_string()));
    assert_eq!(q.stream_ended(4, 4, false), VideoEnd::Next("a.mkv".to_string()));
}
