//! Which cover the player shows for the playing song. A local picture (the
//! cache, a picture in the song's folder, or one in its tags) always wins;
//! the web is searched only when the song has none, and a web picture is
//! shown only when no local one is.
use vstd::prelude::*;

verus! {

/// What the player does after a cover event.
#[derive(Clone, Copy, PartialEq, Eq, Structural, Debug)]
pub enum CoverStep {
    /// Nothing to do.
    Nothing,
    /// Show the picture at hand (and keep it in the cache).
    Show,
    /// Look for a picture next to the song or in its tags.
    AskLocal,
    /// Search the web by the song's artist and album.
    SearchWeb,
    /// Keep the picture that came in the cache, without showing it.
    CacheOnly,
}

/// The cover state: the playing song, whether a local picture is shown,
/// whether the song's tags allow a web search, and the song a web search
/// was asked for.
pub struct CoverState {
    song: Option<String>,
    local_shown: bool,
    want_web: bool,
    web_for: Option<String>,
}

pub open spec fn opt_text(o: Option<String>) -> Option<Seq<char>> {
    match o {
        Some(s) => Some(s@),
        None => None,
    }
}

/// The state as plain values: `(song, local_shown, want_web, web_for)`.
pub type CoverView = (Option<Seq<char>>, bool, bool, Option<Seq<char>>);

impl View for CoverState {
    type V = CoverView;

    closed spec fn view(&self) -> CoverView {
        (opt_text(self.song), self.local_shown, self.want_web, opt_text(self.web_for))
    }
}

/// A song starts: the cached picture is shown when there is one, else a
/// local one is looked for.
pub open spec fn start_spec(song: Seq<char>, cached: bool, want_web: bool) -> (CoverStep, CoverView) {
    (
        if cached {
            CoverStep::Show
        } else {
            CoverStep::AskLocal
        },
        (Some(song), cached, want_web, None),
    )
}

/// The look for a local picture ended: show it when found, else search the
/// web when the tags allow it.
pub open spec fn local_spec(s: CoverView, found: bool) -> (CoverStep, CoverView) {
    if found {
        (CoverStep::Show, (s.0, true, s.2, s.3))
    } else if s.2 {
        (CoverStep::SearchWeb, (s.0, s.1, s.2, s.0))
    } else {
        (CoverStep::Nothing, s)
    }
}

/// A web search ended: a picture for the song it was asked for is shown
/// unless a local picture is, and kept in the cache either way.
pub open spec fn web_spec(s: CoverView, found: bool) -> CoverStep {
    if s.3 == s.0 && found {
        if s.2 && !s.1 {
            CoverStep::Show
        } else {
            CoverStep::CacheOnly
        }
    } else {
        CoverStep::Nothing
    }
}

impl CoverState {
    pub fn new() -> (r: CoverState)
        ensures
            r@ == (None::<Seq<char>>, false, false, None::<Seq<char>>),
    {
        CoverState { song: None, local_shown: false, want_web: false, web_for: None }
    }

    /// Whether a local picture is shown.
    pub fn local_shown(&self) -> (b: bool)
        ensures
            b == self@.1,
    {
        self.local_shown
    }

    /// Whether the playing song's tags allow a web search.
    pub fn want_web(&self) -> (b: bool)
        ensures
            b == self@.2,
    {
        self.want_web
    }

    /// The song `song` starts; `cached` says whether the cache holds its
    /// picture and `want_web` whether its cached tags allow a web search.
    pub fn start(&mut self, song: &str, cached: bool, want_web: bool) -> (r: CoverStep)
        ensures
            (r, final(self)@) == start_spec(song@, cached, want_web),
    {
        self.song = Some(song.to_string());
        self.local_shown = cached;
        self.want_web = want_web;
        self.web_for = None;
        if cached {
            CoverStep::Show
        } else {
            CoverStep::AskLocal
        }
    }

    /// Playback stopped: no song, no picture.
    pub fn stop(&mut self)
        ensures
            final(self)@ == (None::<Seq<char>>, false, old(self)@.2, old(self)@.3),
    {
        self.song = None;
        self.local_shown = false;
    }

    /// Fresh tags of `path` came: when it is the playing song, they decide
    /// whether the web may be searched.
    pub fn tags(&mut self, path: &str, want_web: bool)
        ensures
            old(self)@.0 == Some(path@) ==> final(self)@ == (
                old(self)@.0,
                old(self)@.1,
                want_web,
                old(self)@.3,
            ),
            old(self)@.0 != Some(path@) ==> final(self)@ == old(self)@,
    {
        let same = match &self.song {
            Some(s) => crate::library::str_eq(s.as_str(), path),
            None => false,
        };
        if same {
            self.want_web = want_web;
        }
    }

    /// The look for a local picture ended (`found` says whether it found one).
    pub fn local(&mut self, found: bool) -> (r: CoverStep)
        ensures
            (r, final(self)@) == local_spec(old(self)@, found),
    {
        if found {
            self.local_shown = true;
            CoverStep::Show
        } else if self.want_web {
            self.web_for = match &self.song {
                Some(s) => Some(s.clone()),
                None => None,
            };
            CoverStep::SearchWeb
        } else {
            CoverStep::Nothing
        }
    }

    /// A web search ended (`found` says whether it brought a picture).
    pub fn web(&self, found: bool) -> (r: CoverStep)
        ensures
            r == web_spec(self@, found),
    {
        let same = match (&self.web_for, &self.song) {
            (Some(a), Some(b)) => crate::library::str_eq(a.as_str(), b.as_str()),
            (None, None) => true,
            _ => false,
        };
        if same && found {
            if self.want_web && !self.local_shown {
                CoverStep::Show
            } else {
                CoverStep::CacheOnly
            }
        } else {
            CoverStep::Nothing
        }
    }
}

/// A local picture always wins: once one is shown, no web reply is shown in
/// its place, and a search for the web is never started when one is found.
pub proof fn local_cover_wins(s: CoverView, found: bool)
    requires
        s.1,
    ensures
        web_spec(s, found) != CoverStep::Show,
        local_spec(s, true).0 == CoverStep::Show,
        local_spec(s, true).1.1,
{
}

/// A web reply for a song other than the playing one is never shown, and
/// the web is searched only for the playing song, after its local look
/// found nothing.
pub proof fn web_cover_only_for_playing_song(s: CoverView, found: bool)
    ensures
        s.3 != s.0 ==> web_spec(s, found) == CoverStep::Nothing,
        local_spec(s, false).0 == CoverStep::SearchWeb ==> local_spec(s, false).1.3 == s.0 && s.2,
{
}

} // verus!
