//! What the controls decide: the keyboard, the deck face buttons, the PLAY
//! button, and the status-bar lines.
use vstd::prelude::*;
use std::time::Duration;
use crate::text::{dec, dec_chars, push_all, push_str, string_of};
use crate::time::whole_secs;
use crate::types::DeckMode;
use crate::util::{fmt_run, hms};

verus! {

/// What a key asks the player to do.
#[derive(Clone, Copy, PartialEq, Eq, Structural, Debug)]
pub enum KeyAction {
    TogglePause,
    Skip,
    Prev,
    /// Seek ten seconds ahead in the song.
    SkipForward,
    /// Seek ten seconds back in the song.
    SkipBackward,
    VolumeUp,
    VolumeDown,
    ToggleVideoPlay,
    /// Seek the video five seconds back.
    VideoBack,
    /// Seek the video five seconds ahead.
    VideoForward,
    ToggleFullscreen,
    /// Put the video full screen (`true`) or back in its window.
    SetVideoFullscreen(bool),
    /// Leave window and video full screen, whichever is on.
    Escape,
    Quit,
    SmartShuffle,
    CycleTheme,
    Stop,
    TogglePlaylistOnly,
    ToggleRepeat,
    FocusSearch,
    /// Start or stop recording what plays.
    Record,
    /// Silence the output, or give it back its volume.
    ToggleMute,
    /// Turn the deck to its next face.
    CycleDeck,
    /// Open the video of the playing song, or close the video player.
    ToggleVideo,
    /// Fetch the lyrics of the playing song, or hide them.
    ToggleLyrics,
}

/// The keys pressed in one frame and the state they are read in.
#[derive(Clone, Copy)]
pub struct KeyState {
    /// A text field has the keyboard.
    pub focused: bool,
    /// The video player is open.
    pub video_on: bool,
    /// The video is full screen.
    pub video_fs: bool,
    pub space: bool,
    pub left: bool,
    pub right: bool,
    pub up: bool,
    pub down: bool,
    pub f: bool,
    pub f10: bool,
    pub esc: bool,
    pub shift: bool,
    /// Alt+Enter.
    pub alt_enter: bool,
}

pub open spec fn when(b: bool, a: KeyAction) -> Seq<KeyAction> {
    if b {
        seq![a]
    } else {
        seq![]
    }
}

/// The actions of the pressed keys, in the order they are carried out.
pub open spec fn key_actions_spec(k: KeyState) -> Seq<KeyAction> {
    let transport = if k.focused {
        seq![]
    } else if k.video_on {
        when(k.space, KeyAction::ToggleVideoPlay) + when(k.left, KeyAction::VideoBack) + when(
            k.right,
            KeyAction::VideoForward,
        )
    } else {
        when(k.space, KeyAction::TogglePause) + when(
            k.right,
            if k.shift {
                KeyAction::SkipForward
            } else {
                KeyAction::Skip
            },
        ) + when(
            k.left,
            if k.shift {
                KeyAction::SkipBackward
            } else {
                KeyAction::Prev
            },
        ) + when(k.up, KeyAction::VolumeUp) + when(k.down, KeyAction::VolumeDown)
    };
    transport + when(k.f, KeyAction::ToggleFullscreen) + when(
        k.alt_enter,
        if k.video_on {
            KeyAction::SetVideoFullscreen(!k.video_fs)
        } else {
            KeyAction::ToggleFullscreen
        },
    ) + when(k.esc, KeyAction::Escape) + when(k.f10, KeyAction::Quit)
}

fn push_when(out: &mut Vec<KeyAction>, b: bool, a: KeyAction)
    ensures
        final(out)@ == old(out)@ + when(b, a),
{
    if b {
        out.push(a);
    }
    assert(final(out)@ =~= old(out)@ + when(b, a));
}

/// The actions of the keys pressed in one frame.
pub fn key_actions(k: KeyState) -> (r: Vec<KeyAction>)
    ensures
        r@ == key_actions_spec(k),
{
    let mut r: Vec<KeyAction> = Vec::new();
    if !k.focused {
        if k.video_on {
            push_when(&mut r, k.space, KeyAction::ToggleVideoPlay);
            push_when(&mut r, k.left, KeyAction::VideoBack);
            push_when(&mut r, k.right, KeyAction::VideoForward);
        } else {
            push_when(&mut r, k.space, KeyAction::TogglePause);
            push_when(
                &mut r,
                k.right,
                if k.shift {
                    KeyAction::SkipForward
                } else {
                    KeyAction::Skip
                },
            );
            push_when(
                &mut r,
                k.left,
                if k.shift {
                    KeyAction::SkipBackward
                } else {
                    KeyAction::Prev
                },
            );
            push_when(&mut r, k.up, KeyAction::VolumeUp);
            push_when(&mut r, k.down, KeyAction::VolumeDown);
        }
    }
    push_when(&mut r, k.f, KeyAction::ToggleFullscreen);
    push_when(
        &mut r,
        k.alt_enter,
        if k.video_on {
            KeyAction::SetVideoFullscreen(!k.video_fs)
        } else {
            KeyAction::ToggleFullscreen
        },
    );
    push_when(&mut r, k.esc, KeyAction::Escape);
    push_when(&mut r, k.f10, KeyAction::Quit);
    assert(r@ =~= key_actions_spec(k));
    r
}

/// The action of a typed character, when the player (not a text field or
/// the video) has the keyboard: `P` play/pause, `S`/`N` skip, `R` record,
/// `+`/`-` volume, `M` mute, `D` deck face, `V` video, `L` lyrics, and the
/// player's further keys `T` theme, `Z` previous, `X` pause, `C` stop,
/// `B` repeat and `J` search. `F` and the arrows are keys, not text: see
/// `key_actions`.
pub open spec fn char_action_spec(c: char) -> Option<KeyAction> {
    if c == '+' || c == '=' {
        Some(KeyAction::VolumeUp)
    } else if c == '-' || c == '_' {
        Some(KeyAction::VolumeDown)
    } else if c == 'p' || c == 'P' || c == 'x' || c == 'X' {
        Some(KeyAction::TogglePause)
    } else if c == 's' || c == 'S' || c == 'n' || c == 'N' {
        Some(KeyAction::Skip)
    } else if c == 'r' || c == 'R' {
        Some(KeyAction::Record)
    } else if c == 'm' || c == 'M' {
        Some(KeyAction::ToggleMute)
    } else if c == 'd' || c == 'D' {
        Some(KeyAction::CycleDeck)
    } else if c == 'v' || c == 'V' {
        Some(KeyAction::ToggleVideo)
    } else if c == 'l' || c == 'L' {
        Some(KeyAction::ToggleLyrics)
    } else if c == 't' || c == 'T' {
        Some(KeyAction::CycleTheme)
    } else if c == 'z' || c == 'Z' {
        Some(KeyAction::Prev)
    } else if c == 'c' || c == 'C' {
        Some(KeyAction::Stop)
    } else if c == 'b' || c == 'B' {
        Some(KeyAction::ToggleRepeat)
    } else if c == 'j' || c == 'J' {
        Some(KeyAction::FocusSearch)
    } else {
        None
    }
}

pub fn char_action(c: char) -> (r: Option<KeyAction>)
    ensures
        r == char_action_spec(c),
{
    if c == '+' || c == '=' {
        Some(KeyAction::VolumeUp)
    } else if c == '-' || c == '_' {
        Some(KeyAction::VolumeDown)
    } else if c == 'p' || c == 'P' || c == 'x' || c == 'X' {
        Some(KeyAction::TogglePause)
    } else if c == 's' || c == 'S' || c == 'n' || c == 'N' {
        Some(KeyAction::Skip)
    } else if c == 'r' || c == 'R' {
        Some(KeyAction::Record)
    } else if c == 'm' || c == 'M' {
        Some(KeyAction::ToggleMute)
    } else if c == 'd' || c == 'D' {
        Some(KeyAction::CycleDeck)
    } else if c == 'v' || c == 'V' {
        Some(KeyAction::ToggleVideo)
    } else if c == 'l' || c == 'L' {
        Some(KeyAction::ToggleLyrics)
    } else if c == 't' || c == 'T' {
        Some(KeyAction::CycleTheme)
    } else if c == 'z' || c == 'Z' {
        Some(KeyAction::Prev)
    } else if c == 'c' || c == 'C' {
        Some(KeyAction::Stop)
    } else if c == 'b' || c == 'B' {
        Some(KeyAction::ToggleRepeat)
    } else if c == 'j' || c == 'J' {
        Some(KeyAction::FocusSearch)
    } else {
        None
    }
}

/// The deck face that the mode key turns to: TAPE, then CD, then RADIO,
/// then TAPE again.
pub open spec fn next_deck_mode_spec(m: DeckMode) -> DeckMode {
    match m {
        DeckMode::Tape => DeckMode::Disc,
        DeckMode::Disc => DeckMode::Radio,
        DeckMode::Radio => DeckMode::Tape,
    }
}

pub fn next_deck_mode(m: DeckMode) -> (r: DeckMode)
    ensures
        r == next_deck_mode_spec(m),
{
    match m {
        DeckMode::Tape => DeckMode::Disc,
        DeckMode::Disc => DeckMode::Radio,
        DeckMode::Radio => DeckMode::Tape,
    }
}

/// Three presses of the mode key bring the deck back to the face it showed,
/// and no single press leaves it where it was.
pub proof fn deck_cycle_returns(m: DeckMode)
    ensures
        next_deck_mode_spec(next_deck_mode_spec(next_deck_mode_spec(m))) == m,
        next_deck_mode_spec(m) != m,
{
}

/// The actions of the characters typed in one frame, in order.
pub open spec fn text_actions_spec(chars: Seq<char>) -> Seq<KeyAction>
    decreases chars.len(),
{
    if chars.len() == 0 {
        seq![]
    } else {
        let pre = text_actions_spec(chars.drop_last());
        match char_action_spec(chars.last()) {
            Some(a) => pre.push(a),
            None => pre,
        }
    }
}

/// The actions of typed characters; none while a text field or the video
/// has the keyboard.
pub fn text_actions(focused: bool, video_on: bool, chars: &Vec<char>) -> (r: Vec<KeyAction>)
    ensures
        r@ == if focused || video_on {
            seq![]
        } else {
            text_actions_spec(chars@)
        },
{
    let mut r: Vec<KeyAction> = Vec::new();
    if focused || video_on {
        return r;
    }
    let mut i: usize = 0;
    while i < chars.len()
        invariant
            i <= chars.len(),
            r@ == text_actions_spec(chars@.take(i as int)),
        decreases chars.len() - i,
    {
        assert(chars@.take(i + 1).drop_last() =~= chars@.take(i as int));
        match char_action(chars[i]) {
            Some(a) => r.push(a),
            None => {},
        }
        i += 1;
    }
    assert(chars@.take(chars.len() as int) =~= chars@);
    r
}

/// What pressing a deck face button (TAPE, DISC, RADIO) does.
#[derive(Clone, Copy, PartialEq, Eq, Structural, Debug)]
pub enum DeckStep {
    /// Nothing changes.
    Stay,
    /// TAPE again with nothing playing: pick up the tape where it stopped.
    ResumeTape,
    /// Switch to the tape; coming from the disc, the disc is ejected and
    /// the whole library comes back.
    EnterTape { from_disc: bool },
    /// Switch to another face, remembering the tape's place when leaving it.
    Switch { keep_tape_place: bool },
}

pub open spec fn deck_step_spec(current: DeckMode, target: DeckMode, playing: bool, radio_on: bool) -> DeckStep {
    if current == target {
        if target == DeckMode::Tape && !playing && !radio_on {
            DeckStep::ResumeTape
        } else {
            DeckStep::Stay
        }
    } else if target == DeckMode::Tape {
        DeckStep::EnterTape { from_disc: current == DeckMode::Disc }
    } else {
        DeckStep::Switch { keep_tape_place: current == DeckMode::Tape }
    }
}

/// What a deck face button does, from the face shown, whether a song is
/// playing and whether the radio is on.
pub fn deck_step(current: DeckMode, target: DeckMode, playing: bool, radio_on: bool) -> (r: DeckStep)
    ensures
        r == deck_step_spec(current, target, playing, radio_on),
{
    if current == target {
        if target == DeckMode::Tape && !playing && !radio_on {
            DeckStep::ResumeTape
        } else {
            DeckStep::Stay
        }
    } else if target == DeckMode::Tape {
        DeckStep::EnterTape { from_disc: current == DeckMode::Disc }
    } else {
        DeckStep::Switch { keep_tape_place: current == DeckMode::Tape }
    }
}

/// What the PLAY button does.
#[derive(Clone, Copy, PartialEq, Eq, Structural, Debug)]
pub enum PressStep {
    /// Pause, or carry on when paused.
    TogglePause,
    /// Resume the tape at its remembered place.
    ResumeSaved,
    /// Resume the loaded song at its position.
    ResumeCurrent,
    /// Play the playlist entry at this place.
    PlayEntry(usize),
    /// There is nothing to play.
    NothingToPlay,
}

/// The PLAY button's decision.
#[derive(Clone, Copy, PartialEq, Eq, Structural, Debug)]
pub struct PressPlan {
    pub step: PressStep,
    /// The remembered tape place is used up (taken, whether or not its file
    /// is still there).
    pub forget_saved: bool,
}

/// What PLAY does: `loaded` a song is loaded, `active` it is playing or
/// paused in the output, `saved_exists` a remembered tape place exists and
/// its file is there (`None` when no place is remembered), `current_exists`
/// the loaded song's file is there, `playing_idx` the playlist place last
/// played.
pub open spec fn play_press_spec(
    radio_on: bool,
    loaded: bool,
    active: bool,
    saved_exists: Option<bool>,
    current_exists: bool,
    playlist_len: usize,
    playing_idx: Option<usize>,
) -> PressPlan {
    if radio_on || (loaded && active) {
        PressPlan { step: PressStep::TogglePause, forget_saved: false }
    } else {
        let forget = !loaded && saved_exists is Some;
        if !loaded && saved_exists == Some(true) {
            PressPlan { step: PressStep::ResumeSaved, forget_saved: true }
        } else if loaded && current_exists {
            PressPlan { step: PressStep::ResumeCurrent, forget_saved: forget }
        } else if playlist_len > 0 {
            let idx = match playing_idx {
                Some(i) => if i < playlist_len {
                    i
                } else {
                    0
                },
                None => 0,
            };
            PressPlan { step: PressStep::PlayEntry(idx), forget_saved: forget }
        } else {
            PressPlan { step: PressStep::NothingToPlay, forget_saved: forget }
        }
    }
}

pub fn play_press(
    radio_on: bool,
    loaded: bool,
    active: bool,
    saved_exists: Option<bool>,
    current_exists: bool,
    playlist_len: usize,
    playing_idx: Option<usize>,
) -> (r: PressPlan)
    ensures
        r == play_press_spec(
            radio_on,
            loaded,
            active,
            saved_exists,
            current_exists,
            playlist_len,
            playing_idx,
        ),
{
    if radio_on || (loaded && active) {
        return PressPlan { step: PressStep::TogglePause, forget_saved: false };
    }
    let forget = !loaded && saved_exists.is_some();
    if !loaded && saved_exists == Some(true) {
        PressPlan { step: PressStep::ResumeSaved, forget_saved: true }
    } else if loaded && current_exists {
        PressPlan { step: PressStep::ResumeCurrent, forget_saved: forget }
    } else if playlist_len > 0 {
        let idx = match playing_idx {
            Some(i) => if i < playlist_len {
                i
            } else {
                0
            },
            None => 0,
        };
        PressPlan { step: PressStep::PlayEntry(idx), forget_saved: forget }
    } else {
        PressPlan { step: PressStep::NothingToPlay, forget_saved: forget }
    }
}

/// `n` dots.
pub open spec fn dots(n: nat) -> Seq<char>
    decreases n,
{
    if n == 0 {
        seq![]
    } else {
        dots((n - 1) as nat).push('.')
    }
}

/// The status line while a folder scan runs: `SCANNING`, one to three dots
/// that move every 300 ms, and the count of songs found.
pub open spec fn scan_status_spec(elapsed_ms: u128, found: u64) -> Seq<char> {
    "SCANNING"@ + dots((elapsed_ms / 300 % 3 + 1) as nat) + "  "@ + dec(found as nat)
        + " songs found"@
}

pub fn scan_status(elapsed_ms: u128, found: u64) -> (r: String)
    ensures
        r@ == scan_status_spec(elapsed_ms, found),
{
    let mut out: Vec<char> = Vec::new();
    push_str(&mut out, "SCANNING");
    let n = elapsed_ms / 300 % 3 + 1;
    let mut i: u128 = 0;
    while i < n
        invariant
            i <= n,
            n <= 3,
            out@ == "SCANNING"@ + dots(i as nat),
        decreases n - i,
    {
        out.push('.');
        i += 1;
    }
    push_str(&mut out, "  ");
    let d = dec_chars(found);
    push_all(&mut out, &d);
    push_str(&mut out, " songs found");
    string_of(&out)
}

/// The status line while songs play: songs played, songs skipped, and the
/// running time.
pub open spec fn run_status_spec(songs: u64, skips: u64, run: Duration) -> Seq<char> {
    "Songs: "@ + dec(songs as nat) + " | Skips: "@ + dec(skips as nat) + " | "@ + hms(
        whole_secs(run),
    )
}

pub fn run_status(songs: u64, skips: u64, run: Duration) -> (r: String)
    ensures
        r@ == run_status_spec(songs, skips, run),
{
    let mut out: Vec<char> = Vec::new();
    push_str(&mut out, "Songs: ");
    let a = dec_chars(songs);
    push_all(&mut out, &a);
    push_str(&mut out, " | Skips: ");
    let b = dec_chars(skips);
    push_all(&mut out, &b);
    push_str(&mut out, " | ");
    let t = fmt_run(run);
    push_str(&mut out, t.as_str());
    string_of(&out)
}

/// What happens when the output runs dry.
#[derive(Clone, Copy, PartialEq, Eq, Structural, Debug)]
pub enum EndStep {
    /// Keep waiting.
    Wait,
    /// Play the same song again (repeat is on).
    Replay,
    /// Go on to the next song.
    Next,
}

/// A song counts as over when it has played more than 600 ms, the output is
/// empty, a song is loaded and the last skip is more than 1.5 s ago;
/// `played_ms` is `None` when nothing was started.
pub open spec fn song_end_spec(
    paused: bool,
    played_ms: Option<u128>,
    output_empty: bool,
    loaded: bool,
    since_skip_ms: u128,
    repeat: bool,
) -> EndStep {
    let over = match played_ms {
        Some(ms) => !paused && ms > 600 && output_empty && loaded && since_skip_ms > 1500,
        None => false,
    };
    if over {
        if repeat {
            EndStep::Replay
        } else {
            EndStep::Next
        }
    } else {
        EndStep::Wait
    }
}

pub fn song_end_step(
    paused: bool,
    played_ms: Option<u128>,
    output_empty: bool,
    loaded: bool,
    since_skip_ms: u128,
    repeat: bool,
) -> (r: EndStep)
    ensures
        r == song_end_spec(paused, played_ms, output_empty, loaded, since_skip_ms, repeat),
{
    let over = match played_ms {
        Some(ms) => !paused && ms > 600 && output_empty && loaded && since_skip_ms > 1500,
        None => false,
    };
    if over {
        if repeat {
            EndStep::Replay
        } else {
            EndStep::Next
        }
    } else {
        EndStep::Wait
    }
}

/// The cassette after a new track starts: one more track on this side; past
/// `cap` tracks the tape turns over (auto-reverse) and counts from 1 on the
/// other side. Gives `(tracks on the side, side A, turned over)`.
pub open spec fn tape_step_spec(songs: nat, cap: nat, side_a: bool) -> (nat, bool, bool) {
    if songs + 1 > cap {
        (1, !side_a, true)
    } else {
        (songs + 1, side_a, false)
    }
}

pub fn tape_track_step(songs: u32, cap: u32, side_a: bool) -> (r: (u32, bool, bool))
    requires
        songs < u32::MAX,
    ensures
        (r.0 as nat, r.1, r.2) == tape_step_spec(songs as nat, cap as nat, side_a),
{
    if songs + 1 > cap {
        (1, !side_a, true)
    } else {
        (songs + 1, side_a, false)
    }
}

/// The track count on a side stays between 1 and `cap` once a track has
/// started, and the tape turns over exactly when a side is full.
pub proof fn tape_count_stays_within_side(songs: nat, cap: nat, side_a: bool)
    requires
        cap >= 1,
        songs <= cap,
    ensures
        1 <= tape_step_spec(songs, cap, side_a).0 <= cap,
        tape_step_spec(songs, cap, side_a).2 <==> songs == cap,
        tape_step_spec(songs, cap, side_a).1 != side_a <==> songs == cap,
{
}

} // verus!
