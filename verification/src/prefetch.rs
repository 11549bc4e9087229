//! "Meta All": fetching the tags and covers of a whole playlist into the
//! local caches. The job tracks what is on its way (tag reads, local cover
//! scans, web cover fetches) and ends once nothing is.
use vstd::prelude::*;
use vstd::hash_set::StringHashSet;
use crate::batch::{missing, select_missing};
use crate::video::views;
use crate::library::{fill_unknown, fill_unknown_spec, unknown};

verus! {

/// What pressing Meta All did.
#[derive(Clone, Copy, PartialEq, Eq, Structural, Debug)]
pub enum PrefetchStart {
    /// There is no playlist.
    NoPlaylist,
    /// A run is still going.
    StillRunning,
    /// Every song's tags and cover are cached already.
    AllCached,
    /// A run started.
    Started,
}

/// The work of a Meta All run that is on its way.
pub struct PrefetchJob {
    active: bool,
    tags: StringHashSet,
    covers: StringHashSet,
    web: StringHashSet,
}

/// `(running, tag reads, local cover scans, web cover fetches)`.
pub type PrefetchView = (bool, Set<Seq<char>>, Set<Seq<char>>, Set<Seq<char>>);

impl View for PrefetchJob {
    type V = PrefetchView;

    closed spec fn view(&self) -> PrefetchView {
        (self.active, self.tags@, self.covers@, self.web@)
    }
}

/// Nothing is on its way.
pub open spec fn idle(v: PrefetchView) -> bool {
    v.1.is_empty() && v.2.is_empty() && v.3.is_empty()
}

/// The job's invariant: work is on its way only while a run goes.
pub open spec fn prefetch_wf(v: PrefetchView) -> bool {
    !v.0 ==> idle(v)
}

/// The state after pressing Meta All with the playlist `pl`, whose songs'
/// tags (`have_tags`) and covers (`have_covers`) may be cached already.
pub open spec fn start_spec(
    v: PrefetchView,
    pl: Seq<Seq<char>>,
    have_tags: Seq<bool>,
    have_covers: Seq<bool>,
) -> (PrefetchStart, PrefetchView) {
    let tags = missing(pl, have_tags);
    let covers = missing(pl, have_covers);
    if pl.len() == 0 {
        (PrefetchStart::NoPlaylist, v)
    } else if v.0 {
        (PrefetchStart::StillRunning, v)
    } else if tags.len() == 0 && covers.len() == 0 {
        (PrefetchStart::AllCached, v)
    } else {
        (PrefetchStart::Started, (true, v.1 + tags.to_set(), v.2 + covers.to_set(), v.3))
    }
}

/// The artist and album a web cover search for `path` goes by: its cached
/// tags, with an `Unknown` one filled from the folder name; `None` when
/// either is still unknown (the song is then remembered as having no cover).
pub open spec fn cover_search_spec(path: Seq<char>, artist: Seq<char>, album: Seq<char>) -> Option<
    (Seq<char>, Seq<char>),
> {
    let f = fill_unknown_spec(path, artist, album);
    if f.0 != unknown() && f.1 != unknown() {
        Some(f)
    } else {
        None
    }
}

/// The artist and album to search the web cover of `path` by.
pub fn cover_search(path: &str, artist: String, album: String) -> (r: Option<(String, String)>)
    ensures
        match cover_search_spec(path@, artist@, album@) {
            Some(f) => r matches Some(v) && (v.0@, v.1@) == f,
            None => r is None,
        },
{
    let (a, al) = fill_unknown(path, artist, album);
    if crate::library::wants_web_art(a.as_str(), al.as_str()) {
        Some((a, al))
    } else {
        None
    }
}

fn insert_all(set: &mut StringHashSet, items: &Vec<String>)
    ensures
        final(set)@ == old(set)@ + views(items@).to_set(),
{
    let mut i: usize = 0;
    while i < items.len()
        invariant
            i <= items.len(),
            set@ == old(set)@ + views(items@).take(i as int).to_set(),
        decreases items.len() - i,
    {
        let ghost before = set@;
        set.insert(items[i].clone());
        proof {
            let t = views(items@).take(i as int);
            assert(views(items@).take(i + 1) =~= t.push(items@[i as int]@));
            t.lemma_push_to_set_commute(items@[i as int]@);
            assert(set@ =~= old(set)@ + views(items@).take(i + 1).to_set());
        }
        i += 1;
    }
    assert(views(items@).take(items.len() as int) =~= views(items@));
}

impl PrefetchJob {
    pub fn new() -> (r: PrefetchJob)
        ensures
            r@ == (false, Set::<Seq<char>>::empty(), Set::<Seq<char>>::empty(), Set::<Seq<char>>::empty()),
            prefetch_wf(r@),
    {
        PrefetchJob {
            active: false,
            tags: StringHashSet::new(),
            covers: StringHashSet::new(),
            web: StringHashSet::new(),
        }
    }

    /// Whether a run goes.
    pub fn is_active(&self) -> (b: bool)
        ensures
            b == self@.0,
    {
        self.active
    }

    /// Whether the tags of `path` are on their way.
    pub fn tags_pending(&self, path: &str) -> (b: bool)
        ensures
            b == self@.1.contains(path@),
    {
        self.tags.contains(path)
    }

    /// Whether the local cover scan of `path` is on its way.
    pub fn cover_pending(&self, path: &str) -> (b: bool)
        ensures
            b == self@.2.contains(path@),
    {
        self.covers.contains(path)
    }

    /// How many tag reads, cover scans and web fetches are on their way.
    pub fn counts(&self) -> (r: (usize, usize, usize))
        ensures
            r.0 == self@.1.len(),
            r.1 == self@.2.len(),
            r.2 == self@.3.len(),
    {
        (self.tags.len(), self.covers.len(), self.web.len())
    }

    /// Meta All pressed on the playlist `pl`: `have_tags[i]` and
    /// `have_covers[i]` say whether song `i`'s tags and cover are cached (or
    /// known to be missing). Gives what happened and the songs whose tags and
    /// covers are to be fetched (both empty unless a run started).
    pub fn start(&mut self, pl: &Vec<String>, have_tags: &Vec<bool>, have_covers: &Vec<bool>) -> (r: (
        PrefetchStart,
        Vec<String>,
        Vec<String>,
    ))
        requires
            have_tags.len() == pl.len(),
            have_covers.len() == pl.len(),
        ensures
            prefetch_wf(old(self)@) ==> prefetch_wf(final(self)@),
            (r.0, final(self)@) == start_spec(old(self)@, views(pl@), have_tags@, have_covers@),
            r.0 == PrefetchStart::Started ==> views(r.1@) == missing(views(pl@), have_tags@) && views(
                r.2@,
            ) == missing(views(pl@), have_covers@),
            r.0 != PrefetchStart::Started ==> r.1.len() == 0 && r.2.len() == 0,
    {
        if pl.len() == 0 {
            return (PrefetchStart::NoPlaylist, Vec::new(), Vec::new());
        }
        if self.active {
            return (PrefetchStart::StillRunning, Vec::new(), Vec::new());
        }
        let tags = select_missing(pl, have_tags);
        let covers = select_missing(pl, have_covers);
        if tags.len() == 0 && covers.len() == 0 {
            return (PrefetchStart::AllCached, Vec::new(), Vec::new());
        }
        self.active = true;
        insert_all(&mut self.tags, &tags);
        insert_all(&mut self.covers, &covers);
        (PrefetchStart::Started, tags, covers)
    }

    /// The tags of `path` came.
    pub fn tags_done(&mut self, path: &str)
        ensures
            final(self)@ == (old(self)@.0, old(self)@.1.remove(path@), old(self)@.2, old(self)@.3),
            prefetch_wf(old(self)@) ==> prefetch_wf(final(self)@),
    {
        self.tags.remove(path);
    }

    /// The local cover scan of `path` ended.
    pub fn cover_done(&mut self, path: &str)
        ensures
            final(self)@ == (old(self)@.0, old(self)@.1, old(self)@.2.remove(path@), old(self)@.3),
            prefetch_wf(old(self)@) ==> prefetch_wf(final(self)@),
    {
        self.covers.remove(path);
    }

    /// A web cover fetch for `path` is wanted; gives whether it is to be
    /// sent (it is not when one is on its way already or no run goes).
    pub fn web_wanted(&mut self, path: &str) -> (send: bool)
        ensures
            prefetch_wf(old(self)@) ==> prefetch_wf(final(self)@),
            send == (old(self)@.0 && !old(self)@.3.contains(path@)),
            send ==> final(self)@ == (old(self)@.0, old(self)@.1, old(self)@.2, old(self)@.3.insert(path@)),
            !send ==> final(self)@ == old(self)@,
    {
        if !self.active || self.web.contains(path) {
            return false;
        }
        self.web.insert(path.to_string());
        true
    }

    /// The web cover fetch for `path` ended.
    pub fn web_done(&mut self, path: &str)
        ensures
            final(self)@ == (old(self)@.0, old(self)@.1, old(self)@.2, old(self)@.3.remove(path@)),
            prefetch_wf(old(self)@) ==> prefetch_wf(final(self)@),
    {
        self.web.remove(path);
    }

    /// Ends the run once nothing is on its way; says whether it ended now.
    pub fn finish_if_done(&mut self) -> (ended: bool)
        ensures
            ended == (old(self)@.0 && idle(old(self)@)),
            final(self)@ == (old(self)@.0 && !ended, old(self)@.1, old(self)@.2, old(self)@.3),
            prefetch_wf(old(self)@) ==> prefetch_wf(final(self)@),
    {
        if self.active && self.tags.is_empty() && self.covers.is_empty() && self.web.is_empty() {
            self.active = false;
            true
        } else {
            false
        }
    }
}

/// A run ends exactly once: when nothing is left on its way it ends, and
/// after that nothing more ends until Meta All starts a new run.
pub proof fn run_ends_once(v: PrefetchView)
    requires
        prefetch_wf(v),
        v.0,
        idle(v),
    ensures
        ({
            let after = (false, v.1, v.2, v.3);
            &&& prefetch_wf(after)
            &&& !(after.0 && idle(after))
        }),
{
}

/// A started run fetches exactly the songs whose tags or covers were not
/// cached, and a song never has two fetches of the same kind on their way.
pub proof fn run_fetches_what_is_missing(
    v: PrefetchView,
    pl: Seq<Seq<char>>,
    have_tags: Seq<bool>,
    have_covers: Seq<bool>,
)
    requires
        prefetch_wf(v),
        !v.0,
        have_tags.len() == pl.len(),
        have_covers.len() == pl.len(),
        start_spec(v, pl, have_tags, have_covers).0 == PrefetchStart::Started,
    ensures
        start_spec(v, pl, have_tags, have_covers).1.1 == missing(pl, have_tags).to_set(),
        start_spec(v, pl, have_tags, have_covers).1.2 == missing(pl, have_covers).to_set(),
{
    assert(v.1 + missing(pl, have_tags).to_set() =~= missing(pl, have_tags).to_set());
    assert(v.2 + missing(pl, have_covers).to_set() =~= missing(pl, have_covers).to_set());
}

} // verus!
