//! The playlist rules: star ratings and the star filter, which song comes
//! next or before, reordering and shuffling, and the volume steps.
use vstd::prelude::*;
use rand::Rng;
use crate::text::{chars_of, seq_eq};
use crate::video::views;
use crate::order::{song_key, sort_orders_and_keeps, sort_songs, sort_songs_spec};
use vstd::arithmetic::div_mod::{lemma_mod_add_multiples_vanish, lemma_mod_self_0, lemma_small_mod};

verus! {

/// The first place of key `k` in an association list.
pub open spec fn key_index(s: Seq<(Seq<char>, u8)>, k: Seq<char>) -> Option<int>
    decreases s.len(),
{
    if s.len() == 0 {
        None
    } else if s[0].0 == k {
        Some(0)
    } else {
        match key_index(s.drop_first(), k) {
            Some(i) => Some(i + 1),
            None => None,
        }
    }
}

/// The star rating (1-5) of a song, 0 when unrated.
pub open spec fn rating_spec(s: Seq<(Seq<char>, u8)>, k: Seq<char>) -> u8 {
    match key_index(s, k) {
        Some(i) => if s[i].1 > 5 {
            5
        } else {
            s[i].1
        },
        None => 0,
    }
}

/// Ratings after giving `k` the rating `v`.
pub open spec fn set_rating_spec(s: Seq<(Seq<char>, u8)>, k: Seq<char>, v: u8) -> Seq<(Seq<char>, u8)> {
    match key_index(s, k) {
        Some(i) => s.update(i, (k, v)),
        None => s.push((k, v)),
    }
}

/// Ratings after clearing the rating of `k`.
pub open spec fn clear_rating_spec(s: Seq<(Seq<char>, u8)>, k: Seq<char>) -> Seq<(Seq<char>, u8)> {
    match key_index(s, k) {
        Some(i) => s.remove(i),
        None => s,
    }
}

/// No song is rated twice.
pub open spec fn keys_distinct(s: Seq<(Seq<char>, u8)>) -> bool {
    forall|i: int, j: int| 0 <= i < j < s.len() ==> s[i].0 != s[j].0
}

pub proof fn lemma_key_index(s: Seq<(Seq<char>, u8)>, k: Seq<char>)
    ensures
        key_index(s, k) matches Some(i) ==> 0 <= i < s.len() && s[i].0 == k && forall|j: int|
            0 <= j < i ==> s[j].0 != k,
        key_index(s, k) is None ==> forall|j: int| 0 <= j < s.len() ==> s[j].0 != k,
    decreases s.len(),
{
    if s.len() > 0 && s[0].0 != k {
        lemma_key_index(s.drop_first(), k);
        assert forall|j: int| 1 <= j < s.len() implies s.drop_first()[j - 1] == s[j] by {}
    }
}

proof fn lemma_key_index_unique(s: Seq<(Seq<char>, u8)>, k: Seq<char>, i: int)
    requires
        0 <= i < s.len(),
        s[i].0 == k,
        forall|j: int| 0 <= j < i ==> s[j].0 != k,
    ensures
        key_index(s, k) == Some(i),
{
    lemma_key_index(s, k);
}

/// Star ratings of songs, keyed by path. They are kept as a list of pairs,
/// the first pair of a path counting: the settings file lists every rating,
/// and vstd's string-keyed map offers no way to walk its entries.
pub struct Ratings {
    entries: Vec<(String, u8)>,
}

pub open spec fn rating_views(v: Seq<(String, u8)>) -> Seq<(Seq<char>, u8)> {
    v.map_values(|e: (String, u8)| (e.0@, e.1))
}

impl View for Ratings {
    type V = Seq<(Seq<char>, u8)>;

    closed spec fn view(&self) -> Seq<(Seq<char>, u8)> {
        rating_views(self.entries@)
    }
}

impl Ratings {
    pub fn new() -> (r: Ratings)
        ensures
            r@ == Seq::<(Seq<char>, u8)>::empty(),
    {
        Ratings { entries: Vec::new() }
    }

    /// Ratings from `(path, stars)` pairs.
    pub fn from_pairs(pairs: Vec<(String, u8)>) -> (r: Ratings)
        ensures
            r@ == rating_views(pairs@),
    {
        Ratings { entries: pairs }
    }

    /// The `(path, stars)` pairs.
    pub fn pairs(&self) -> (r: Vec<(String, u8)>)
        ensures
            rating_views(r@) == self@,
    {
        let mut r: Vec<(String, u8)> = Vec::new();
        let mut i: usize = 0;
        while i < self.entries.len()
            invariant
                i <= self.entries.len(),
                r.len() == i,
                forall|j: int|
                    0 <= j < i ==> (#[trigger] r@[j]).0@ == self.entries@[j].0@ && r@[j].1
                        == self.entries@[j].1,
            decreases self.entries.len() - i,
        {
            r.push((self.entries[i].0.clone(), self.entries[i].1));
            i += 1;
        }
        assert(rating_views(r@) =~= rating_views(self.entries@));
        r
    }

    fn find(&self, path: &str) -> (r: Option<usize>)
        ensures
            r matches Some(i) ==> key_index(self@, path@) == Some(i as int) && i
                < self.entries.len(),
            r is None ==> key_index(self@, path@) is None,
    {
        let pv = chars_of(path);
        let mut i: usize = 0;
        while i < self.entries.len()
            invariant
                i <= self.entries.len(),
                pv@ == path@,
                forall|j: int| 0 <= j < i ==> self@[j].0 != path@,
            decreases self.entries.len() - i,
        {
            let e = chars_of(self.entries[i].0.as_str());
            if seq_eq(&e, &pv) {
                proof {
                    lemma_key_index_unique(self@, path@, i as int);
                }
                return Some(i);
            }
            i += 1;
        }
        proof {
            lemma_key_index(self@, path@);
        }
        None
    }

    /// The star rating (1-5) of a song, 0 when unrated.
    pub fn song_rating(&self, path: &str) -> (r: u8)
        ensures
            r == rating_spec(self@, path@),
    {
        match self.find(path) {
            Some(i) => {
                let v = self.entries[i].1;
                if v > 5 {
                    5
                } else {
                    v
                }
            },
            None => 0,
        }
    }

    /// Sets (1-5; more counts as 5) or clears (0) the rating of a song.
    pub fn rate_song(&mut self, path: &str, stars: u8)
        ensures
            stars == 0 ==> final(self)@ == clear_rating_spec(old(self)@, path@),
            stars > 0 ==> final(self)@ == set_rating_spec(
                old(self)@,
                path@,
                if stars > 5 {
                    5
                } else {
                    stars
                },
            ),
    {
        let s = if stars > 5 {
            5
        } else {
            stars
        };
        match self.find(path) {
            Some(i) => {
                if s == 0 {
                    self.entries.remove(i);
                    assert(rating_views(self.entries@) =~= rating_views(old(self).entries@).remove(
                        i as int,
                    ));
                } else {
                    self.entries.set(i, (path.to_string(), s));
                    assert(rating_views(self.entries@) =~= rating_views(old(self).entries@).update(
                        i as int,
                        (path@, s),
                    ));
                }
            },
            None => {
                if s > 0 {
                    self.entries.push((path.to_string(), s));
                    assert(rating_views(self.entries@) =~= rating_views(old(self).entries@).push(
                        (path@, s),
                    ));
                }
            },
        }
    }
}

/// A rating that was just given is the rating read back; other songs keep theirs.
pub proof fn rating_read_after_write(s: Seq<(Seq<char>, u8)>, k: Seq<char>, v: u8, other: Seq<char>)
    requires
        1 <= v <= 5,
        other != k,
    ensures
        rating_spec(set_rating_spec(s, k, v), k) == v,
        rating_spec(set_rating_spec(s, k, v), other) == rating_spec(s, other),
{
    lemma_key_index(s, k);
    lemma_key_index(s, other);
    let t = set_rating_spec(s, k, v);
    match key_index(s, k) {
        Some(i) => {
            lemma_key_index_unique(t, k, i);
            match key_index(s, other) {
                Some(j) => {
                    assert(t[j] == s[j]);
                    lemma_key_index_unique(t, other, j);
                },
                None => {
                    lemma_key_index(t, other);
                    assert forall|j: int| 0 <= j < t.len() implies t[j].0 != other by {
                        if j != i {
                            assert(t[j] == s[j]);
                        }
                    }
                },
            }
        },
        None => {
            lemma_key_index_unique(t, k, s.len() as int);
            match key_index(s, other) {
                Some(j) => {
                    lemma_key_index_unique(t, other, j);
                },
                None => {
                    lemma_key_index(t, other);
                },
            }
        },
    }
}

/// Clearing a rating leaves the song unrated, when no song was rated twice.
pub proof fn rating_cleared(s: Seq<(Seq<char>, u8)>, k: Seq<char>)
    requires
        keys_distinct(s),
    ensures
        rating_spec(clear_rating_spec(s, k), k) == 0,
{
    lemma_key_index(s, k);
    let t = clear_rating_spec(s, k);
    lemma_key_index(t, k);
    match key_index(s, k) {
        Some(i) => {
            assert forall|j: int| 0 <= j < t.len() implies t[j].0 != k by {
                if j < i {
                    assert(t[j] == s[j]);
                } else {
                    assert(t[j] == s[j + 1]);
                }
            }
        },
        None => {},
    }
}

/// The star filter after the filter button: All, 1+, ..., 5+, All.
pub open spec fn next_filter_spec(f: u8) -> u8 {
    ((f + 1) % 6) as u8
}

pub fn cycle_rating_filter(f: u8) -> (r: u8)
    requires
        f < 255,
    ensures
        r == next_filter_spec(f),
{
    (f + 1) % 6
}

/// Six presses of the filter button come back to the filter one started from.
pub proof fn rating_filter_cycle(f: u8)
    requires
        f < 6,
    ensures
        next_filter_spec(next_filter_spec(next_filter_spec(next_filter_spec(next_filter_spec(
            next_filter_spec(f),
        ))))) == f,
{
}

/// The song passes the star filter `min` (0 lets every song pass).
pub open spec fn passes(r: Seq<(Seq<char>, u8)>, min: u8, p: Seq<char>) -> bool {
    min == 0 || rating_spec(r, p) >= min
}

/// The playlist entries that pass the filter, as `(place in playlist, path)`.
pub open spec fn slots_spec(pl: Seq<Seq<char>>, r: Seq<(Seq<char>, u8)>, min: u8) -> Seq<
    (int, Seq<char>),
>
    decreases pl.len(),
{
    if pl.len() == 0 {
        seq![]
    } else {
        let pre = slots_spec(pl.drop_last(), r, min);
        if passes(r, min, pl.last()) {
            pre.push(((pl.len() - 1) as int, pl.last()))
        } else {
            pre
        }
    }
}

pub open spec fn slot_views(v: Seq<(usize, String)>) -> Seq<(int, Seq<char>)> {
    v.map_values(|e: (usize, String)| (e.0 as int, e.1@))
}

/// The playlist entries that pass the star filter `min`.
pub fn rated_slots(pl: &Vec<String>, ratings: &Ratings, min: u8) -> (r: Vec<(usize, String)>)
    ensures
        slot_views(r@) == slots_spec(views(pl@), ratings@, min),
{
    let mut r: Vec<(usize, String)> = Vec::new();
    let mut i: usize = 0;
    while i < pl.len()
        invariant
            i <= pl.len(),
            slot_views(r@) == slots_spec(views(pl@).take(i as int), ratings@, min),
        decreases pl.len() - i,
    {
        let ghost pre = views(pl@).take(i as int);
        assert(views(pl@).take(i + 1).drop_last() == pre);
        let keep = min == 0 || ratings.song_rating(pl[i].as_str()) >= min;
        if keep {
            r.push((i, pl[i].clone()));
        }
        i += 1;
        assert(slot_views(r@) =~= slots_spec(views(pl@).take(i as int), ratings@, min));
    }
    assert(views(pl@).take(pl.len() as int) == views(pl@));
    r
}

/// Facts about the filtered entries: each is the playlist entry at its place,
/// and places only grow.
pub proof fn lemma_slots(pl: Seq<Seq<char>>, r: Seq<(Seq<char>, u8)>, min: u8)
    ensures
        forall|k: int|
            0 <= k < slots_spec(pl, r, min).len() ==> 0 <= #[trigger] slots_spec(pl, r, min)[k].0
                < pl.len() && pl[slots_spec(pl, r, min)[k].0] == slots_spec(pl, r, min)[k].1
                && passes(r, min, slots_spec(pl, r, min)[k].1),
        forall|a: int, b: int|
            0 <= a < b < slots_spec(pl, r, min).len() ==> slots_spec(pl, r, min)[a].0
                < slots_spec(pl, r, min)[b].0,
        forall|i: int|
            0 <= i < pl.len() && passes(r, min, pl[i]) ==> exists|k: int|
                0 <= k < slots_spec(pl, r, min).len() && #[trigger] slots_spec(pl, r, min)[k].0
                    == i,
    decreases pl.len(),
{
    if pl.len() > 0 {
        let q = pl.drop_last();
        lemma_slots(q, r, min);
        let pre = slots_spec(q, r, min);
        let s = slots_spec(pl, r, min);
        assert forall|k: int| 0 <= k < pre.len() implies #[trigger] pre[k].0 < q.len() && pl[pre[k].0]
            == pre[k].1 by {
            assert(q[pre[k].0] == pl[pre[k].0]);
        }
        assert forall|i: int| 0 <= i < pl.len() && passes(r, min, pl[i]) implies exists|k: int|
            0 <= k < s.len() && #[trigger] s[k].0 == i by {
            if i < pl.len() - 1 {
                assert(q[i] == pl[i]);
                let k = choose|k: int| 0 <= k < pre.len() && #[trigger] pre[k].0 == i;
                assert(s[k] == pre[k]);
            } else {
                assert(s[pre.len() as int].0 == i);
            }
        }
    }
}

/// First place of `c` among the paths.
pub open spec fn index_in(pl: Seq<Seq<char>>, c: Seq<char>) -> Option<int>
    decreases pl.len(),
{
    if pl.len() == 0 {
        None
    } else if pl[0] == c {
        Some(0)
    } else {
        match index_in(pl.drop_first(), c) {
            Some(i) => Some(i + 1),
            None => None,
        }
    }
}

pub proof fn lemma_index_in(pl: Seq<Seq<char>>, c: Seq<char>)
    ensures
        index_in(pl, c) matches Some(i) ==> 0 <= i < pl.len() && pl[i] == c && forall|j: int|
            0 <= j < i ==> pl[j] != c,
        index_in(pl, c) is None ==> forall|j: int| 0 <= j < pl.len() ==> pl[j] != c,
    decreases pl.len(),
{
    if pl.len() > 0 && pl[0] != c {
        lemma_index_in(pl.drop_first(), c);
        assert forall|j: int| 1 <= j < pl.len() implies pl.drop_first()[j - 1] == pl[j] by {}
    }
}

/// The filtered entry whose playlist place is `ri`.
pub open spec fn slot_pos(slots: Seq<(int, Seq<char>)>, ri: int) -> Option<int>
    decreases slots.len(),
{
    if slots.len() == 0 {
        None
    } else if slots[0].0 == ri {
        Some(0)
    } else {
        match slot_pos(slots.drop_first(), ri) {
            Some(k) => Some(k + 1),
            None => None,
        }
    }
}

pub proof fn lemma_slot_pos(slots: Seq<(int, Seq<char>)>, ri: int)
    ensures
        slot_pos(slots, ri) matches Some(k) ==> 0 <= k < slots.len() && slots[k].0 == ri
            && forall|j: int| 0 <= j < k ==> slots[j].0 != ri,
        slot_pos(slots, ri) is None ==> forall|j: int| 0 <= j < slots.len() ==> slots[j].0 != ri,
    decreases slots.len(),
{
    if slots.len() > 0 && slots[0].0 != ri {
        lemma_slot_pos(slots.drop_first(), ri);
        assert forall|j: int| 1 <= j < slots.len() implies slots.drop_first()[j - 1] == slots[j] by {}
    }
}

/// Where the playing song stands among the filtered entries (0 when it is
/// not among them).
pub open spec fn cur_slot(pl: Seq<Seq<char>>, slots: Seq<(int, Seq<char>)>, current: Option<Seq<char>>) -> int {
    match current {
        Some(c) => match index_in(pl, c) {
            Some(ri) => match slot_pos(slots, ri) {
                Some(k) => k,
                None => 0,
            },
            None => 0,
        },
        None => 0,
    }
}

/// The playing song's place among the filtered entries is one of them.
pub proof fn lemma_cur_slot_bound(pl: Seq<Seq<char>>, slots: Seq<(int, Seq<char>)>, current: Option<Seq<char>>)
    requires
        slots.len() > 0,
    ensures
        0 <= cur_slot(pl, slots, current) < slots.len(),
{
    match current {
        Some(c) => {
            lemma_index_in(pl, c);
            match index_in(pl, c) {
                Some(ri) => {
                    lemma_slot_pos(slots, ri);
                },
                None => {},
            }
        },
        None => {},
    }
}

pub open spec fn opt_str(o: Option<&str>) -> Option<Seq<char>> {
    match o {
        Some(s) => Some(s@),
        None => None,
    }
}

/// The first place of path `c` in `pl`.
pub fn find_path(pl: &Vec<String>, c: &str) -> (r: Option<usize>)
    ensures
        r matches Some(i) ==> index_in(views(pl@), c@) == Some(i as int),
        r is None ==> index_in(views(pl@), c@) is None,
{
    let cv = chars_of(c);
    let mut i: usize = 0;
    proof {
        lemma_index_in(views(pl@), c@);
    }
    while i < pl.len()
        invariant
            i <= pl.len(),
            cv@ == c@,
            forall|j: int| 0 <= j < i ==> views(pl@)[j] != c@,
        decreases pl.len() - i,
    {
        let e = chars_of(pl[i].as_str());
        assert(views(pl@)[i as int] == e@);
        if seq_eq(&e, &cv) {
            proof {
                lemma_index_in(views(pl@), c@);
            }
            return Some(i);
        }
        i += 1;
    }
    None
}

fn slot_pos_exec(slots: &Vec<(usize, String)>, ri: usize) -> (r: Option<usize>)
    ensures
        r matches Some(k) ==> slot_pos(slot_views(slots@), ri as int) == Some(k as int),
        r is None ==> slot_pos(slot_views(slots@), ri as int) is None,
{
    let mut k: usize = 0;
    proof {
        lemma_slot_pos(slot_views(slots@), ri as int);
    }
    while k < slots.len()
        invariant
            k <= slots.len(),
            forall|j: int| 0 <= j < k ==> slot_views(slots@)[j].0 != ri as int,
        decreases slots.len() - k,
    {
        assert(slot_views(slots@)[k as int].0 == slots@[k as int].0 as int);
        if slots[k].0 == ri {
            proof {
                lemma_slot_pos(slot_views(slots@), ri as int);
            }
            return Some(k);
        }
        k += 1;
    }
    None
}

fn cur_slot_exec(pl: &Vec<String>, slots: &Vec<(usize, String)>, current: Option<&str>) -> (r: usize)
    ensures
        r == cur_slot(views(pl@), slot_views(slots@), opt_str(current)),
{
    match current {
        Some(c) => match find_path(pl, c) {
            Some(ri) => match slot_pos_exec(slots, ri) {
                Some(k) => k,
                None => 0,
            },
            None => 0,
        },
        None => 0,
    }
}

/// The play-order switches that decide what comes next.
#[derive(Clone, Copy)]
pub struct PlayOrder {
    /// A disc is in: play it in order.
    pub disc_in: bool,
    /// The play-order switch is on RANDOM SHUFFLE.
    pub random_on: bool,
    /// Only the playlist plays.
    pub playlist_only: bool,
    /// With `playlist_only`: go through the playlist by the play count.
    pub playlist_only_sequential: bool,
    /// Go through the current folder by the play count.
    pub dir_sequential: bool,
}

/// What to play next (or before).
pub enum NextChoice {
    /// Nothing: the playlist is empty or playback is paused.
    Idle,
    /// The star filter lets no song through.
    NoMatch,
    /// The playlist entry at `index`, which is `path`.
    Slot { index: usize, path: String },
    /// A weighted random pick among the filtered entries.
    Random,
    /// The folder's n-th filtered file, n being the play count (the caller
    /// lists the folder and calls `dir_pick`).
    FromDir,
}

/// The decision `choose_next` makes, by case.
pub open spec fn next_kind(order: PlayOrder, has_dir: bool) -> int {
    if order.disc_in {
        0
    } else if order.playlist_only && order.playlist_only_sequential {
        1
    } else if !order.random_on {
        0
    } else if order.playlist_only {
        2
    } else if order.dir_sequential && has_dir {
        3
    } else {
        2
    }
}

/// With no disc in and the playlist-only sequential mode on, SKIP goes by the
/// play count whatever the random switch and the folder mode say; with the
/// random switch off and that mode off (or a disc in), it goes in order.
pub proof fn sequential_playlist_goes_by_count(order: PlayOrder, has_dir: bool)
    ensures
        !order.disc_in && order.playlist_only && order.playlist_only_sequential ==> next_kind(
            order,
            has_dir,
        ) == 1,
        order.disc_in || (!order.random_on && !(order.playlist_only && order.playlist_only_sequential))
            ==> next_kind(order, has_dir) == 0,
{
}

/// `choice` is filtered entry `k`.
pub open spec fn is_slot(choice: NextChoice, slots: Seq<(int, Seq<char>)>, k: int) -> bool {
    match choice {
        NextChoice::Slot { index, path } => 0 <= k < slots.len() && index as int == slots[k].0
            && path@ == slots[k].1,
        _ => false,
    }
}

/// What plays after the current song (the SKIP button, or the end of a song).
pub fn choose_next(
    pl: &Vec<String>,
    ratings: &Ratings,
    min: u8,
    current: Option<&str>,
    order: PlayOrder,
    song_count: u64,
    is_paused: bool,
    has_dir: bool,
) -> (r: NextChoice)
    ensures
        ({
            let slots = slots_spec(views(pl@), ratings@, min);
            let n = slots.len() as int;
            let i = cur_slot(views(pl@), slots, opt_str(current));
            if pl.len() == 0 || is_paused {
                r is Idle
            } else if n == 0 {
                r is NoMatch
            } else if next_kind(order, has_dir) == 0 {
                is_slot(r, slots, (i + 1) % n)
            } else if next_kind(order, has_dir) == 1 {
                is_slot(r, slots, (song_count as usize) as int % n)
            } else if next_kind(order, has_dir) == 2 {
                r is Random
            } else {
                r is FromDir
            }
        }),
        ({
            let slots = slots_spec(views(pl@), ratings@, min);
            let n = slots.len() as int;
            pl.len() > 0 && !is_paused && n > 0 && !order.disc_in && order.playlist_only
                && order.playlist_only_sequential ==> is_slot(r, slots, (song_count as usize) as int % n)
        }),
        ({
            let slots = slots_spec(views(pl@), ratings@, min);
            let n = slots.len() as int;
            let i = cur_slot(views(pl@), slots, opt_str(current));
            pl.len() > 0 && !is_paused && n > 0 && (order.disc_in || (!order.random_on && !(
            order.playlist_only && order.playlist_only_sequential))) ==> is_slot(r, slots, (i + 1) % n)
        }),
        ({
            let n = slots_spec(views(pl@), ratings@, min).len();
            pl.len() > 0 && !is_paused && n > 0 && !order.disc_in && order.random_on && !(
            order.playlist_only && order.playlist_only_sequential) ==> if !order.playlist_only
                && order.dir_sequential && has_dir {
                r is FromDir
            } else {
                r is Random
            }
        }),
        pl.len() == 0 || is_paused ==> r is Idle,
{
    if pl.len() == 0 || is_paused {
        return NextChoice::Idle;
    }
    let slots = rated_slots(pl, ratings, min);
    let n = slots.len();
    if n == 0 {
        return NextChoice::NoMatch;
    }
    let ghost sv = slot_views(slots@);
    if order.disc_in || (!(order.playlist_only && order.playlist_only_sequential) && !order.random_on) {
        let i = cur_slot_exec(pl, &slots, current);
        proof {
            lemma_cur_slot_bound(views(pl@), sv, opt_str(current));
        }
        let ni = if i + 1 < n {
            i + 1
        } else {
            0
        };
        proof {
            if i + 1 < n {
                lemma_small_mod((i + 1) as nat, n as nat);
            } else {
                lemma_mod_self_0(n as int);
            }
        }
        let (index, path) = (slots[ni].0, slots[ni].1.clone());
        return NextChoice::Slot { index, path };
    }
    if order.playlist_only && order.playlist_only_sequential {
        let count: usize = #[verifier::truncate] (song_count as usize);
        let ni = count % n;
        let (index, path) = (slots[ni].0, slots[ni].1.clone());
        return NextChoice::Slot { index, path };
    }
    if order.playlist_only {
        return NextChoice::Random;
    }
    if order.dir_sequential && has_dir {
        return NextChoice::FromDir;
    }
    NextChoice::Random
}

/// What plays before the current song (the PREV button): the filtered entry
/// before it, wrapping to the last.
pub fn choose_prev(pl: &Vec<String>, ratings: &Ratings, min: u8, current: Option<&str>, is_paused: bool) -> (r: NextChoice)
    ensures
        ({
            let slots = slots_spec(views(pl@), ratings@, min);
            let n = slots.len() as int;
            let i = cur_slot(views(pl@), slots, opt_str(current));
            if pl.len() == 0 || is_paused {
                r is Idle
            } else if n == 0 {
                r is NoMatch
            } else {
                is_slot(r, slots, (i + n - 1) % n)
            }
        }),
{
    if pl.len() == 0 || is_paused {
        return NextChoice::Idle;
    }
    let slots = rated_slots(pl, ratings, min);
    let n = slots.len();
    if n == 0 {
        return NextChoice::NoMatch;
    }
    let ghost sv = slot_views(slots@);
    let i = cur_slot_exec(pl, &slots, current);
    proof {
        lemma_cur_slot_bound(views(pl@), sv, opt_str(current));
    }
    let pi = if i == 0 {
        n - 1
    } else {
        i - 1
    };
    proof {
        lemma_small_mod((n - 1) as nat, n as nat);
        if i > 0 {
            lemma_mod_add_multiples_vanish(i - 1, n as int);
            lemma_small_mod((i - 1) as nat, n as nat);
        }
    }
    let (index, path) = (slots[pi].0, slots[pi].1.clone());
    NextChoice::Slot { index, path }
}


/// In a playlist where no path occurs twice, each filtered entry is where the
/// playing song stands when it is that entry's song.
pub proof fn lemma_cur_slot_of_entry(pl: Seq<Seq<char>>, r: Seq<(Seq<char>, u8)>, min: u8, k: int)
    requires
        pl.no_duplicates(),
        0 <= k < slots_spec(pl, r, min).len(),
    ensures
        cur_slot(pl, slots_spec(pl, r, min), Some(slots_spec(pl, r, min)[k].1)) == k,
{
    let slots = slots_spec(pl, r, min);
    lemma_slots(pl, r, min);
    let ri = slots[k].0;
    let c = slots[k].1;
    lemma_index_in(pl, c);
    assert(pl[ri] == c);
    match index_in(pl, c) {
        Some(i) => {
            assert(i == ri);
        },
        None => {},
    }
    lemma_slot_pos(slots, ri);
    match slot_pos(slots, ri) {
        Some(j) => {
            if j < k {
                assert(slots[j].0 < slots[k].0);
            } else if j > k {
                assert(slots[k].0 < slots[j].0);
            }
        },
        None => {},
    }
}

/// With the playlist in order and no path twice in it, PREV after SKIP plays
/// the song that was playing before the SKIP: the filtered entry after entry
/// `k` has entry `k` before it.
pub proof fn prev_undoes_next(pl: Seq<Seq<char>>, r: Seq<(Seq<char>, u8)>, min: u8, k: int)
    requires
        pl.no_duplicates(),
        0 <= k < slots_spec(pl, r, min).len(),
    ensures
        ({
            let slots = slots_spec(pl, r, min);
            let n = slots.len() as int;
            let i = cur_slot(pl, slots, Some(slots[k].1));
            let j = (i + 1) % n;
            &&& i == k
            &&& (cur_slot(pl, slots, Some(slots[j].1)) + n - 1) % n == k
        }),
{
    let slots = slots_spec(pl, r, min);
    let n = slots.len() as int;
    lemma_cur_slot_of_entry(pl, r, min, k);
    let j = (k + 1) % n;
    if k + 1 < n {
        lemma_small_mod((k + 1) as nat, n as nat);
        lemma_cur_slot_of_entry(pl, r, min, j);
        lemma_mod_add_multiples_vanish(k, n);
        lemma_small_mod(k as nat, n as nat);
    } else {
        lemma_mod_self_0(n);
        lemma_cur_slot_of_entry(pl, r, min, 0);
        lemma_small_mod((n - 1) as nat, n as nat);
    }
}

/// The folder's file that plays next in folder order: the `count`-th (wrapping)
/// of the files that pass the star filter, or `None` when none passes.
pub fn dir_pick(files: &Vec<String>, ratings: &Ratings, min: u8, count: u64) -> (r: Option<String>)
    ensures
        ({
            let slots = slots_spec(views(files@), ratings@, min);
            let n = slots.len() as int;
            if n == 0 {
                r is None
            } else {
                r matches Some(p) && p@ == slots[((count as usize) as int) % n].1
            }
        }),
{
    let slots = rated_slots(files, ratings, min);
    let n = slots.len();
    if n == 0 {
        return None;
    }
    let c: usize = #[verifier::truncate] (count as usize);
    let k = c % n;
    Some(slots[k].1.clone())
}

/// The volume (0-100) set from `level`: above 100 counts as 100.
pub open spec fn volume_spec(level: int) -> int {
    if level > 100 {
        100
    } else {
        level
    }
}

pub fn set_volume(level: u32) -> (v: u32)
    ensures
        v == volume_spec(level as int),
{
    if level > 100 {
        100
    } else {
        level
    }
}

/// The volume after VOL+: five more, at most 100.
pub fn increase_volume(volume: u32) -> (v: u32)
    requires
        volume <= u32::MAX - 5,
    ensures
        v == volume_spec(volume + 5),
{
    set_volume(volume + 5)
}

/// The volume after VOL-: five less, not under 0.
pub fn decrease_volume(volume: u32) -> (v: u32)
    ensures
        v == volume_spec(if volume >= 5 {
            volume - 5
        } else {
            0
        }),
{
    set_volume(volume.saturating_sub(5))
}

/// The volume stays within 0-100, and VOL- after VOL+ gives back any volume up
/// to 95, VOL+ after VOL- any volume from 5 to 100.
pub proof fn volume_steps(volume: u32)
    requires
        volume <= 100,
    ensures
        0 <= volume_spec(volume + 5) <= 100,
        volume <= 95 ==> volume_spec(volume_spec(volume + 5) - 5) == volume,
        volume >= 5 ==> volume_spec(volume_spec(volume - 5) + 5) == volume,
{
}

/// The playlist after dragging entry `from` to place `to`; out-of-range or
/// same-place moves change nothing.
pub open spec fn moved(pl: Seq<Seq<char>>, from: int, to: int) -> Seq<Seq<char>> {
    if from >= pl.len() || to > pl.len() || from == to {
        pl
    } else {
        pl.remove(from).insert(to, pl[from])
    }
}

/// Drags playlist entry `from` to place `to`.
pub fn move_playlist(pl: &mut Vec<String>, from: usize, to: usize)
    requires
        from < old(pl).len() && from != to ==> to < old(pl).len(),
    ensures
        views(final(pl)@) == moved(views(old(pl)@), from as int, to as int),
{
    if from >= pl.len() || to > pl.len() || from == to {
        return;
    }
    let ghost before = views(pl@);
    let s = pl.remove(from);
    pl.insert(to, s);
    proof {
        assert(views(pl@) =~= before.remove(from as int).insert(to as int, before[from as int]));
    }
}

/// A move keeps every song, and moving the entry back from `to` to `from`
/// restores the playlist.
pub proof fn move_keeps_and_undoes(pl: Seq<Seq<char>>, from: int, to: int)
    requires
        0 <= from < pl.len(),
        0 <= to < pl.len(),
    ensures
        moved(pl, from, to).to_multiset() == pl.to_multiset(),
        moved(moved(pl, from, to), to, from) == pl,
{
    if from != to {
        let m = pl.remove(from).insert(to, pl[from]);
        assert(m.to_multiset() == pl.to_multiset()) by {
            broadcast use vstd::seq_lib::to_multiset_remove, vstd::seq_lib::to_multiset_insert;
            broadcast use vstd::multiset::group_multiset_axioms;
            broadcast use vstd::seq_lib::to_multiset_contains;

            assert(pl.contains(pl[from]));
            assert(pl.to_multiset().remove(pl[from]).insert(pl[from]) =~= pl.to_multiset());
        }
        assert(m[to] == pl[from]);
        assert(m.remove(to).insert(from, m[to]) =~= pl);
    }
}

/// The playlist after SAVE SONG: the playing song is added at the end unless
/// it is already there.
pub open spec fn saved(pl: Seq<Seq<char>>, current: Option<Seq<char>>) -> Seq<Seq<char>> {
    match current {
        Some(c) => if pl.contains(c) {
            pl
        } else {
            pl.push(c)
        },
        None => pl,
    }
}

/// Adds the playing song to the playlist unless it is already in it; says
/// whether it was added.
pub fn save_song(pl: &mut Vec<String>, current: Option<&str>) -> (added: bool)
    ensures
        views(final(pl)@) == saved(views(old(pl)@), opt_str(current)),
        added == (views(final(pl)@) != views(old(pl)@)),
{
    match current {
        Some(c) => {
            proof {
                lemma_index_in(views(pl@), c@);
            }
            match find_path(pl, c) {
                Some(i) => {
                    assert(views(pl@)[i as int] == c@);
                    false
                },
                None => {
                    let ghost before = views(pl@);
                    pl.push(c.to_string());
                    proof {
                        assert(views(pl@) =~= before.push(c@));
                        assert(views(pl@).len() != before.len());
                    }
                    true
                },
            }
        },
        None => false,
    }
}

/// The playlist with entries `a` and `b` exchanged.
pub open spec fn swapped(s: Seq<Seq<char>>, a: int, b: int) -> Seq<Seq<char>> {
    s.update(a, s[b]).update(b, s[a])
}

/// The playlist after the shuffle with the draws `d`: from the last place down
/// to place 1, place `i` trades with place `d[i]`.
pub open spec fn shuffled(s: Seq<Seq<char>>, d: Seq<usize>, i: nat) -> Seq<Seq<char>>
    decreases i,
{
    if i <= 1 {
        s
    } else {
        shuffled(swapped(s, i - 1, d[i - 1] as int), d, (i - 1) as nat)
    }
}

/// Draws for a shuffle of `n` entries: place `i` trades with a place no
/// further than itself.
pub open spec fn valid_draws(d: Seq<usize>, n: nat) -> bool {
    d.len() == n && forall|i: int| 0 <= i < n ==> #[trigger] d[i] <= i
}

proof fn lemma_swapped_multiset(s: Seq<Seq<char>>, a: int, b: int)
    requires
        0 <= a < s.len(),
        0 <= b < s.len(),
    ensures
        swapped(s, a, b).to_multiset() == s.to_multiset(),
        swapped(s, a, b).len() == s.len(),
{
    broadcast use vstd::seq_lib::to_multiset_update;
    broadcast use vstd::multiset::group_multiset_axioms;
    broadcast use vstd::seq_lib::to_multiset_contains;

    let t = s.update(a, s[b]);
    assert(t.to_multiset() == s.to_multiset().insert(s[b]).remove(s[a]));
    assert(t[b] == s[b] || a == b);
    assert(swapped(s, a, b).to_multiset() =~= s.to_multiset());
}

/// A shuffle keeps every song and the playlist's length.
pub proof fn lemma_shuffled_multiset(s: Seq<Seq<char>>, d: Seq<usize>, i: nat)
    requires
        i <= s.len(),
        valid_draws(d, s.len()),
    ensures
        shuffled(s, d, i).to_multiset() == s.to_multiset(),
        shuffled(s, d, i).len() == s.len(),
    decreases i,
{
    if i > 1 {
        assert(d[i - 1] <= i - 1);
        lemma_swapped_multiset(s, i - 1, d[i - 1] as int);
        lemma_shuffled_multiset(swapped(s, i - 1, d[i - 1] as int), d, (i - 1) as nat);
    }
}

/// Shuffles the playlist with given draws (`draws[i]` is the place that place
/// `i` trades with).
pub fn shuffle_with(pl: &mut Vec<String>, draws: &Vec<usize>)
    requires
        valid_draws(draws@, old(pl).len() as nat),
    ensures
        views(final(pl)@) == shuffled(views(old(pl)@), draws@, old(pl).len() as nat),
        views(final(pl)@).to_multiset() == views(old(pl)@).to_multiset(),
{
    let n = pl.len();
    let ghost start = views(pl@);
    let mut i = n;
    while i > 1
        invariant
            i <= n,
            pl.len() == n,
            valid_draws(draws@, n as nat),
            shuffled(views(pl@), draws@, i as nat) == shuffled(start, draws@, n as nat),
        decreases i,
    {
        let k = i - 1;
        let j = draws[k];
        assert(draws@[k as int] <= k);
        let ghost before = views(pl@);
        let a = pl[k].clone();
        let b = pl[j].clone();
        pl.set(k, b);
        pl.set(j, a);
        assert(views(pl@) =~= swapped(before, k as int, j as int));
        i = k;
    }
    proof {
        lemma_shuffled_multiset(start, draws@, n as nat);
    }
}

/// A random place from 0 to `i`.
#[verifier::external_body]
fn random_up_to(i: usize) -> (j: usize)
    ensures
        j <= i,
{
    rand::rng().random_range(0..=i)
}

/// Shuffles the playlist at random: every song stays, in some order. The
/// order is that of the swaps of some random draws (one per place, from the
/// last place down, each among the places up to it).
pub fn shuffle_playlist(pl: &mut Vec<String>)
    ensures
        final(pl).len() == old(pl).len(),
        views(final(pl)@).to_multiset() == views(old(pl)@).to_multiset(),
        exists|d: Seq<usize>|
            valid_draws(d, old(pl).len() as nat) && views(final(pl)@) == shuffled(
                views(old(pl)@),
                d,
                old(pl).len() as nat,
            ),
{
    let n = pl.len();
    let mut draws: Vec<usize> = Vec::new();
    let mut k: usize = 0;
    while k < n
        invariant
            k <= n,
            draws.len() == k,
            forall|t: int| 0 <= t < k ==> draws@[t] == 0,
        decreases n - k,
    {
        draws.push(0);
        k += 1;
    }
    let mut i = n;
    while i > 1
        invariant
            i <= n,
            valid_draws(draws@, n as nat),
        decreases i,
    {
        let j = random_up_to(i - 1);
        draws.set(i - 1, j);
        i -= 1;
    }
    proof {
        lemma_shuffled_multiset(views(pl@), draws@, n as nat);
    }
    shuffle_with(pl, &draws);
    assert(valid_draws(draws@, n as nat) && views(pl@) == shuffled(views(old(pl)@), draws@, n as nat));
}

/// The playlist with each of `files` appended unless already in it (a file
/// listed twice is added once).
pub open spec fn merged(pl: Seq<Seq<char>>, files: Seq<Seq<char>>) -> Seq<Seq<char>>
    decreases files.len(),
{
    if files.len() == 0 {
        pl
    } else {
        let m = merged(pl, files.drop_last());
        if m.contains(files.last()) {
            m
        } else {
            m.push(files.last())
        }
    }
}

/// Appends each of `files` not yet in `pl` (a file listed twice is added
/// once); gives how many were added.
pub fn merge_unique(pl: &mut Vec<String>, files: &Vec<String>) -> (added: usize)
    ensures
        views(final(pl)@) == merged(views(old(pl)@), views(files@)),
        added == final(pl).len() - old(pl).len(),
{
    let ghost start = views(pl@);
    let ghost fs = views(files@);
    let mut added: usize = 0;
    let mut i: usize = 0;
    while i < files.len()
        invariant
            i <= files.len(),
            fs == views(files@),
            views(pl@) == merged(start, fs.take(i as int)),
            added == pl.len() - start.len(),
            pl.len() >= start.len(),
        decreases files.len() - i,
    {
        assert(fs.take(i + 1).drop_last() =~= fs.take(i as int));
        assert(fs.take(i + 1).last() == files@[i as int]@);
        let f = files[i].as_str();
        proof {
            lemma_index_in(views(pl@), f@);
        }
        match find_path(pl, f) {
            Some(k) => {
                assert(views(pl@)[k as int] == f@);
            },
            None => {
                let ghost before = views(pl@);
                pl.push(files[i].clone());
                proof {
                    assert(views(pl@) =~= before.push(f@));
                    assert(before.len() + 1 == pl.len());
                }
                added += 1;
            },
        }
        i += 1;
    }
    proof {
        assert(fs.take(files.len() as int) =~= fs);
    }
    added
}

/// Adds dropped or picked files to the playlist, skipping those already in
/// it, and puts the playlist in library order; gives how many were added.
pub fn add_files(pl: &mut Vec<String>, files: &Vec<String>) -> (added: usize)
    ensures
        views(final(pl)@) == sort_songs_spec(merged(views(old(pl)@), views(files@))),
        added == merged(views(old(pl)@), views(files@)).len() - old(pl).len(),
{
    let ghost start = views(pl@);
    let added = merge_unique(pl, files);
    let ghost m = views(pl@);
    sort_songs(pl);
    proof {
        sort_orders_and_keeps(m, |p: Seq<char>| song_key(p));
        vstd::seq_lib::to_multiset_len(views(pl@));
        vstd::seq_lib::to_multiset_len(m);
    }
    added
}

/// Adding files keeps the playlist's entries first and in order, adds every
/// file, adds nothing else, and adds no path twice to a playlist that has
/// none twice.
pub proof fn merge_keeps_and_adds(pl: Seq<Seq<char>>, files: Seq<Seq<char>>)
    ensures
        merged(pl, files).len() >= pl.len(),
        merged(pl, files).take(pl.len() as int) == pl,
        forall|f: Seq<char>| files.contains(f) ==> merged(pl, files).contains(f),
        forall|x: Seq<char>| merged(pl, files).contains(x) ==> pl.contains(x) || files.contains(x),
        pl.no_duplicates() ==> merged(pl, files).no_duplicates(),
    decreases files.len(),
{
    if files.len() > 0 {
        let pre = merged(pl, files.drop_last());
        merge_keeps_and_adds(pl, files.drop_last());
        let x = files.last();
        let m = merged(pl, files);
        if !pre.contains(x) {
            assert(m == pre.push(x));
            assert(m.take(pl.len() as int) =~= pre.take(pl.len() as int));
            assert(m[pre.len() as int] == x);
            assert forall|y: Seq<char>| pre.contains(y) implies m.contains(y) by {
                let k = choose|k: int| 0 <= k < pre.len() && pre[k] == y;
                assert(m[k] == y);
            }
            assert forall|y: Seq<char>| m.contains(y) implies pl.contains(y) || files.contains(y) by {
                let k = choose|k: int| 0 <= k < m.len() && m[k] == y;
                if k < pre.len() {
                    assert(pre[k] == y);
                    assert(pre.contains(y));
                    if files.drop_last().contains(y) {
                        let t = choose|t: int| 0 <= t < files.drop_last().len() && files.drop_last()[t] == y;
                        assert(files[t] == y);
                    }
                } else {
                    assert(files[files.len() - 1] == y);
                }
            }
            if pl.no_duplicates() {
                assert forall|i: int, j: int| 0 <= i < m.len() && 0 <= j < m.len() && i != j implies m[i]
                    != m[j] by {
                    if i < pre.len() && j < pre.len() {
                        assert(m[i] == pre[i] && m[j] == pre[j]);
                    } else if i < pre.len() {
                        assert(m[i] == pre[i]);
                        assert(pre.contains(pre[i]));
                    } else if j < pre.len() {
                        assert(m[j] == pre[j]);
                        assert(pre.contains(pre[j]));
                    }
                }
            }
        } else {
            assert(m == pre);
        }
        assert forall|f: Seq<char>| files.contains(f) implies m.contains(f) by {
            let k = choose|k: int| 0 <= k < files.len() && files[k] == f;
            if k < files.len() - 1 {
                assert(files.drop_last()[k] == f);
                assert(files.drop_last().contains(f));
                assert(pre.contains(f));
                if !pre.contains(x) {
                    let t = choose|t: int| 0 <= t < pre.len() && pre[t] == f;
                    assert(m[t] == f);
                }
            } else {
                assert(f == x);
                if !pre.contains(x) {
                    assert(m[pre.len() as int] == x);
                }
            }
        }
        assert forall|y: Seq<char>| m.contains(y) implies pl.contains(y) || files.contains(y) by {
            if pre.contains(x) {
                if files.drop_last().contains(y) {
                    let t = choose|t: int| 0 <= t < files.drop_last().len() && files.drop_last()[t] == y;
                    assert(files[t] == y);
                }
            }
        }
    } else {
        assert(pl.take(pl.len() as int) =~= pl);
    }
}

/// The list of strings a JSON text holds (`serde_json::from_str::<Vec<String>>`),
/// `None` when it is not one.
pub uninterp spec fn json_string_list(text: Seq<char>) -> Option<Seq<Seq<char>>>;

/// The JSON text of a list of strings (`serde_json::to_string`), `None` when
/// serializing fails.
pub uninterp spec fn json_of_strings(items: Seq<Seq<char>>) -> Option<Seq<char>>;

/// Calls `serde_json::from_str::<Vec<String>>`; its result is named
/// `json_string_list(text)`.
#[verifier::external_body]
fn parse_string_list(text: &str) -> (r: Option<Vec<String>>)
    ensures
        r matches Some(v) ==> json_string_list(text@) == Some(views(v@)),
        r is None ==> json_string_list(text@) is None,
{
    match serde_json::from_str::<Vec<String>>(text) {
        Ok(v) => Some(v),
        Err(_) => None,
    }
}

/// Calls `serde_json::to_string` on a list of strings; its result is named
/// `json_of_strings(items)`, and the text written reads back (with
/// `serde_json::from_str`) as the same list.
#[verifier::external_body]
fn string_list_json(items: &Vec<String>) -> (r: Option<String>)
    ensures
        r matches Some(t) ==> json_of_strings(views(items@)) == Some(t@),
        r matches Some(t) ==> json_string_list(t@) == Some(views(items@)),
        r is None ==> json_of_strings(views(items@)) is None,
{
    match serde_json::to_string(items) {
        Ok(t) => Some(t),
        Err(_) => None,
    }
}

/// A saved playlist file's songs, in text order; `None` when the text is not
/// a JSON list of strings.
pub fn playlist_from_json(text: &str) -> (r: Option<Vec<String>>)
    ensures
        match json_string_list(text@) {
            Some(files) => r matches Some(v) && views(v@) == crate::order::sort_paths_spec(files),
            None => r is None,
        },
{
    match parse_string_list(text) {
        Some(mut files) => {
            crate::order::sort_paths(&mut files);
            Some(files)
        },
        None => None,
    }
}

/// The text a playlist is saved as; `None` when it cannot be written. The
/// text reads back as the playlist's songs.
pub fn playlist_to_json(pl: &Vec<String>) -> (r: Option<String>)
    ensures
        match json_of_strings(views(pl@)) {
            Some(t) => r matches Some(s) && s@ == t,
            None => r is None,
        },
        r matches Some(s) ==> json_string_list(s@) == Some(views(pl@)),
{
    string_list_json(pl)
}

/// Loading a saved playlist gives back its songs: the text `playlist_to_json`
/// writes for `pl` reads back as `pl` (its `ensures`), and `playlist_from_json`
/// then gives `pl`'s songs, each as often as in `pl`, in path order.
pub proof fn saved_playlist_loads_back(pl: Seq<Seq<char>>, text: Seq<char>)
    requires
        json_string_list(text) == Some(pl),
    ensures
        ({
            let loaded = crate::order::sort_paths_spec(json_string_list(text)->0);
            &&& loaded.to_multiset() == pl.to_multiset()
            &&& crate::order::in_key_order(loaded, |p: Seq<char>| crate::order::path_key(p))
        }),
{
    crate::order::sort_orders_and_keeps(pl, |p: Seq<char>| crate::order::path_key(p));
}

} // verus!
