//! Shared enums: deck faces, video aspect, and the commands sent to the
//! network and download workers.
use vstd::prelude::*;

verus! {

/// The face the central deck shows.
#[derive(Clone, Copy, PartialEq, Eq, Structural, Debug)]
pub enum DeckMode {
    Tape,
    Disc,
    Radio,
}

/// How a video frame is shaped on screen.
#[derive(Clone, Copy, PartialEq, Eq, Structural, Debug)]
pub enum VideoAspect {
    Original,
    R43,
    R169,
}

impl VideoAspect {
    /// Button text of the aspect.
    pub open spec fn label_spec(self) -> Seq<char> {
        match self {
            VideoAspect::Original => "ORIG"@,
            VideoAspect::R43 => "4:3"@,
            VideoAspect::R169 => "16:9"@,
        }
    }

    /// The aspect the button switches to.
    pub open spec fn next_spec(self) -> VideoAspect {
        match self {
            VideoAspect::Original => VideoAspect::R43,
            VideoAspect::R43 => VideoAspect::R169,
            VideoAspect::R169 => VideoAspect::Original,
        }
    }

    pub fn label(self) -> (r: &'static str)
        ensures
            r@ == self.label_spec(),
    {
        match self {
            VideoAspect::Original => "ORIG",
            VideoAspect::R43 => "4:3",
            VideoAspect::R169 => "16:9",
        }
    }

    pub fn next(self) -> (r: VideoAspect)
        ensures
            r == self.next_spec(),
    {
        match self {
            VideoAspect::Original => VideoAspect::R43,
            VideoAspect::R43 => VideoAspect::R169,
            VideoAspect::R169 => VideoAspect::Original,
        }
    }
}

impl Default for VideoAspect {
    fn default() -> (r: VideoAspect)
        ensures
            r == VideoAspect::Original,
    {
        VideoAspect::Original
    }
}

/// Pressing the aspect button three times comes back to where it started,
/// and every aspect is reached on the way.
pub proof fn aspect_cycle(a: VideoAspect)
    ensures
        a.next_spec().next_spec().next_spec() == a,
        a.next_spec() != a,
        a.next_spec().next_spec() != a,
{
}

/// The labels of the three aspects are distinct.
pub proof fn aspect_labels_distinct(a: VideoAspect, b: VideoAspect)
    ensures
        a != b ==> a.label_spec() != b.label_spec(),
{
    reveal_strlit("ORIG");
    reveal_strlit("4:3");
    reveal_strlit("16:9");
    if a != b {
        assert(a.label_spec().len() != b.label_spec().len() || a.label_spec()[0] != b.label_spec()[0]);
    }
}

/// Work for the network worker.
pub enum NetCmd {
    WebArt(String, String),
    WebArtFor { path: String, artist: String, album: String },
    Lyrics(String, String),
}

/// Work for the download worker.
pub enum YtCmd {
    Download { query: String, auto_play: bool, chunks: u32 },
    Resolve { idx: usize, query: String },
}

} // verus!
