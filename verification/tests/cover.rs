use mediaplayerofdoom::cover::{CoverState, CoverStep};

#[test]
fn cached_cover_shows_at_once() {
    let mut c = CoverState::new();
    assert_eq!(c.start("a.mp3", true, true), CoverStep::Show);
    assert!(c.local_shown());
    assert_eq!(c.web(true), CoverStep::Nothing);
}

#[test]
fn local_cover_wins_over_the_web() {
    let mut c = CoverState::new();
    assert_eq!(c.start("a.mp3", false, true), CoverStep::AskLocal);
    assert_eq!(c.local(true), CoverStep::Show);
    assert_eq!(c.web(true), CoverStep::Nothing);
}

#[test]
fn web_is_searched_only_without_local_art() {
    let mut c = CoverState::new();
    c.start("a.mp3", false, true);
    assert_eq!(c.local(false), CoverStep::SearchWeb);
    assert_eq!(c.web(true), CoverStep::Show);
    assert_eq!(c.web(false), CoverStep::Nothing);
    let mut d = CoverState::new();
    d.start("b.mp3", false, false);
    assert_eq!(d.local(false), CoverStep::Nothing);
    d.tags("other.mp3", true);
    assert!(!d.want_web());
    d.tags("b.mp3", true);
    assert!(d.want_web());
    assert_eq!(d.local(false), CoverStep::SearchWeb);
}

#[test]
fn late_web_reply_for_an_old_song_is_dropped() {
    let mut c = CoverState::new();
    c.start("a.mp3", false, true);
    assert_eq!(c.local(false), CoverStep::SearchWeb);
    c.start("b.mp3", false, true);
    assert_eq!(c.web(true), CoverStep::Nothing);
    c.stop();
    assert!(!c.local_shown());
}

#[test]
fn web_picture_is_only_cached_once_tags_forbid_showing_it() {
    let mut c = CoverState::new();
    c.start("a.mp3", false, true);
    assert_eq!(c.local(false), CoverStep::SearchWeb);
    c.tags("a.mp3", false);
    assert_eq!(c.web(true), CoverStep::CacheOnly);
}
