//! The in-app video player's logic: the audio clock shared with the frame
//! reader, frame pixel conversion, and the video queue.
use vstd::prelude::*;
use vstd::arithmetic::div_mod::{
    lemma_add_mod_noop, lemma_mod_add_multiples_vanish, lemma_mod_pos_bound, lemma_mod_self_0,
    lemma_small_mod,
};

verus! {

/// `2^48`: the clock keeps the generation above this and the position below.
pub open spec fn clock_span() -> nat {
    0x1_0000_0000_0000
}

/// The clock word published for the frame reader: the low 16 bits of the
/// video generation, then the audio position in milliseconds plus one
/// (capped below `2^48`), so that 0 always means "no clock".
pub open spec fn tag_clock_spec(gen: u64, audio_ms: u64) -> nat {
    let pos = if audio_ms + 1 > clock_span() - 1 {
        (clock_span() - 1) as nat
    } else {
        (audio_ms + 1) as nat
    };
    (gen as nat % 0x10000) * clock_span() + pos
}

/// The audio position (ms) that a clock word gives the reader of generation
/// `gen`: none for 0, for another generation, or for an empty position.
pub open spec fn clock_ms_spec(c: u64, gen: u64) -> Option<nat> {
    if c != 0 && c as nat / clock_span() == gen as nat % 0x10000 && c as nat % clock_span() != 0 {
        Some((c as nat % clock_span() - 1) as nat)
    } else {
        None
    }
}

pub fn tag_video_clock(gen: u64, audio_ms: u64) -> (c: u64)
    requires
        audio_ms < u64::MAX,
    ensures
        c == tag_clock_spec(gen, audio_ms),
{
    let span: u64 = 0x1_0000_0000_0000;
    let pos = if audio_ms + 1 > span - 1 {
        span - 1
    } else {
        audio_ms + 1
    };
    (gen % 0x10000) * span + pos
}

pub fn video_clock_ms(c: u64, gen: u64) -> (r: Option<u64>)
    ensures
        r matches Some(v) ==> clock_ms_spec(c, gen) == Some(v as nat),
        r is None ==> clock_ms_spec(c, gen) is None,
{
    let span: u64 = 0x1_0000_0000_0000;
    if c != 0 && c / span == gen % 0x10000 && c % span != 0 {
        Some(c % span - 1)
    } else {
        None
    }
}

/// The reader of the same generation reads back the published audio position
/// (positions below `2^48 - 1` ms, about 8900 years).
pub proof fn clock_roundtrip(gen: u64, audio_ms: u64)
    requires
        audio_ms + 1 < clock_span(),
    ensures
        clock_ms_spec(tag_clock_spec(gen, audio_ms) as u64, gen) == Some(audio_ms as nat),
{
    let c = tag_clock_spec(gen, audio_ms);
    let g = gen as nat % 0x10000;
    assert(c == g * clock_span() + audio_ms + 1);
    assert(c < 0x1_0000_0000_0000_0000) by (nonlinear_arith)
        requires
            c == g * clock_span() + audio_ms + 1,
            g < 0x10000,
            audio_ms + 1 < clock_span(),
            clock_span() == 0x1_0000_0000_0000,
    ;
    assert(c / clock_span() == g && c % clock_span() == audio_ms + 1) by (nonlinear_arith)
        requires
            c == g * clock_span() + audio_ms + 1,
            audio_ms + 1 < clock_span(),
            clock_span() == 0x1_0000_0000_0000,
    ;
}

/// A clock published for another generation is never read as a position.
pub proof fn clock_other_generation_ignored(gen: u64, audio_ms: u64, reader: u64)
    requires
        audio_ms + 1 < clock_span(),
        gen as nat % 0x10000 != reader as nat % 0x10000,
    ensures
        clock_ms_spec(tag_clock_spec(gen, audio_ms) as u64, reader) is None,
{
    let c = tag_clock_spec(gen, audio_ms);
    let g = gen as nat % 0x10000;
    assert(c < 0x1_0000_0000_0000_0000) by (nonlinear_arith)
        requires
            c == g * clock_span() + audio_ms + 1,
            g < 0x10000,
            audio_ms + 1 < clock_span(),
            clock_span() == 0x1_0000_0000_0000,
    ;
    assert(c / clock_span() == g) by (nonlinear_arith)
        requires
            c == g * clock_span() + audio_ms + 1,
            audio_ms + 1 < clock_span(),
            clock_span() == 0x1_0000_0000_0000,
    ;
}

/// An RGB24 frame as RGBA with full opacity (a trailing partial pixel is dropped).
pub open spec fn rgba_of(rgb: Seq<u8>) -> Seq<u8> {
    Seq::new(
        (rgb.len() / 3) * 4,
        |i: int|
            if i % 4 == 3 {
                255u8
            } else {
                rgb[(i / 4) * 3 + i % 4]
            },
    )
}

pub fn rgb_to_rgba(rgb: &[u8]) -> (r: Vec<u8>)
    ensures
        r@ == rgba_of(rgb@),
{
    let n = rgb.len() / 3;
    let mut r: Vec<u8> = Vec::new();
    let mut p: usize = 0;
    while p < n
        invariant
            n == rgb.len() / 3,
            p <= n,
            r.len() == 4 * p,
            forall|i: int| 0 <= i < r.len() ==> r@[i] == rgba_of(rgb@)[i],
        decreases n - p,
    {
        let ghost base = r.len() as int;
        r.push(rgb[3 * p]);
        r.push(rgb[3 * p + 1]);
        r.push(rgb[3 * p + 2]);
        r.push(255);
        assert forall|i: int| 0 <= i < r.len() implies r@[i] == rgba_of(rgb@)[i] by {
            if i >= base {
                assert(i / 4 == p);
                assert(i % 4 == i - base);
            }
        }
        p += 1;
    }
    assert(r@ =~= rgba_of(rgb@));
    r
}

/// What the end of a video's stream leads to.
#[derive(Clone, PartialEq, Eq, Debug)]
pub enum VideoEnd {
    /// The stream was of an earlier video, or closed on purpose: nothing.
    Stale,
    /// The video played to its end and the queue is empty: it stops there.
    Ended,
    /// The video played to its end: the queue moves on to this item.
    Next(String),
}

/// The videos queued for playing and the place of the one playing.
pub struct VideoQueue {
    items: Vec<String>,
    idx: usize,
}

pub open spec fn views(v: Seq<String>) -> Seq<Seq<char>> {
    v.map_values(|s: String| s@)
}

impl View for VideoQueue {
    type V = (Seq<Seq<char>>, nat);

    closed spec fn view(&self) -> (Seq<Seq<char>>, nat) {
        (views(self.items@), self.idx as nat)
    }
}

/// The queue place after `i` (wrapping round).
pub open spec fn next_index(i: nat, n: nat) -> nat {
    (i + 1) % n
}

/// The queue place before `i` (wrapping round).
pub open spec fn prev_index(i: nat, n: nat) -> nat {
    ((i + n - 1) % (n as int)) as nat
}

/// The place of the playing item once item `k` is taken out.
pub open spec fn index_after_remove(cur: nat, k: nat, new_len: nat) -> nat {
    let c = if k < cur {
        (cur - 1) as nat
    } else {
        cur
    };
    if new_len > 0 && c >= new_len {
        (new_len - 1) as nat
    } else {
        c
    }
}

impl VideoQueue {
    pub fn new() -> (q: VideoQueue)
        ensures
            q@.0 == Seq::<Seq<char>>::empty(),
            q@.1 == 0,
    {
        VideoQueue { items: Vec::new(), idx: 0 }
    }

    pub fn len(&self) -> (n: usize)
        ensures
            n == self@.0.len(),
    {
        self.items.len()
    }

    pub fn current_index(&self) -> (i: usize)
        ensures
            i == self@.1,
    {
        self.idx
    }

    /// The item at place `i`.
    pub fn get(&self, i: usize) -> (r: Option<String>)
        ensures
            i < self@.0.len() ==> r is Some && r->0@ == self@.0[i as int],
            i >= self@.0.len() ==> r is None,
    {
        if i < self.items.len() {
            Some(self.items[i].clone())
        } else {
            None
        }
    }

    /// The queued items.
    pub fn items(&self) -> (r: &Vec<String>)
        ensures
            views(r@) == self@.0,
    {
        &self.items
    }

    /// Adds `paths`. When nothing is playing (`playing` false) and there is
    /// something to add, the first added item becomes the current one and is
    /// returned to be played.
    pub fn enqueue(&mut self, paths: Vec<String>, playing: bool) -> (r: Option<String>)
        ensures
            paths.len() == 0 ==> final(self)@ == old(self)@ && r is None,
            paths.len() > 0 ==> final(self)@.0 == old(self)@.0 + views(paths@),
            paths.len() > 0 && playing ==> final(self)@.1 == old(self)@.1 && r is None,
            paths.len() > 0 && !playing ==> final(self)@.1 == old(self)@.0.len() && r is Some && r->0@ == paths@[0]@,
    {
        if paths.len() == 0 {
            return None;
        }
        let s = self.items.len();
        let ghost old_items = self.items@;
        let mut i: usize = 0;
        while i < paths.len()
            invariant
                i <= paths.len(),
                self.items@ == old_items + paths@.take(i as int),
                s == old_items.len(),
                self.idx == old(self).idx,
            decreases paths.len() - i,
        {
            self.items.push(paths[i].clone());
            i += 1;
            assert(self.items@ =~= old_items + paths@.take(i as int));
        }
        assert(paths@.take(paths.len() as int) == paths@);
        assert(views(self.items@) =~= views(old_items) + views(paths@));
        if playing {
            None
        } else {
            self.idx = s;
            Some(self.items[s].clone())
        }
    }

    /// Plays place `i` when there is such a place.
    pub fn select(&mut self, i: usize) -> (r: Option<String>)
        ensures
            final(self)@.0 == old(self)@.0,
            i < old(self)@.0.len() ==> final(self)@.1 == i && r is Some && r->0@ == old(
                self,
            )@.0[i as int],
            i >= old(self)@.0.len() ==> final(self)@ == old(self)@ && r is None,
    {
        if i < self.items.len() {
            self.idx = i;
            Some(self.items[i].clone())
        } else {
            None
        }
    }

    /// Plays the next item, wrapping to the first.
    pub fn next(&mut self) -> (r: Option<String>)
        ensures
            final(self)@.0 == old(self)@.0,
            old(self)@.0.len() == 0 ==> final(self)@ == old(self)@ && r is None,
            old(self)@.0.len() > 0 ==> final(self)@.1 == next_index(old(self)@.1, old(self)@.0.len())
                && r is Some && r->0@ == old(self)@.0[final(self)@.1 as int],
    {
        if self.items.len() == 0 {
            return None;
        }
        let n = self.items.len();
        let ni = (self.idx % n + 1) % n;
        proof {
            lemma_add_mod_noop(self.idx as int, 1, n as int);
            lemma_mod_pos_bound(self.idx as int + 1, n as int);
            lemma_mod_pos_bound((self.idx % n) as int + 1, n as int);
            if n > 1 {
                lemma_small_mod(1, n as nat);
            }
        }
        self.select(ni)
    }

    /// The end of stream `gen` while stream `current` plays (`closing` when the
    /// player is being closed on purpose): a stale or deliberate end changes
    /// nothing; a video that played to its end is followed by the next queued
    /// item, or, with an empty queue, ends.
    pub fn stream_ended(&mut self, gen: u64, current: u64, closing: bool) -> (r: VideoEnd)
        ensures
            gen != current || closing ==> r == VideoEnd::Stale && final(self)@ == old(self)@,
            gen == current && !closing && old(self)@.0.len() == 0 ==> r == VideoEnd::Ended
                && final(self)@ == old(self)@,
            gen == current && !closing && old(self)@.0.len() > 0 ==> final(self)@.0 == old(self)@.0
                && final(self)@.1 == next_index(old(self)@.1, old(self)@.0.len())
                && (r matches VideoEnd::Next(p) && p@ == old(self)@.0[final(self)@.1 as int]),
    {
        if gen != current || closing {
            VideoEnd::Stale
        } else {
            match self.next() {
                Some(p) => VideoEnd::Next(p),
                None => VideoEnd::Ended,
            }
        }
    }

    /// Plays the previous item, wrapping to the last.
    pub fn prev(&mut self) -> (r: Option<String>)
        ensures
            final(self)@.0 == old(self)@.0,
            old(self)@.0.len() == 0 ==> final(self)@ == old(self)@ && r is None,
            old(self)@.0.len() > 0 ==> final(self)@.1 == prev_index(old(self)@.1, old(self)@.0.len())
                && r is Some && r->0@ == old(self)@.0[final(self)@.1 as int],
    {
        if self.items.len() == 0 {
            return None;
        }
        let n = self.items.len();
        let r = self.idx % n;
        let pi = if r == 0 {
            n - 1
        } else {
            r - 1
        };
        proof {
            lemma_add_mod_noop(self.idx as int, n - 1, n as int);
            lemma_small_mod((n - 1) as nat, n as nat);
            if r > 0 {
                lemma_mod_add_multiples_vanish(r - 1, n as int);
                lemma_small_mod((r - 1) as nat, n as nat);
            }
        }
        self.select(pi)
    }

    /// The item to play again after the current one ended.
    pub fn replay(&self) -> (r: Option<String>)
        ensures
            self@.1 < self@.0.len() ==> r is Some && r->0@ == self@.0[self@.1 as int],
            self@.1 >= self@.0.len() ==> r is None,
    {
        self.get(self.idx)
    }

    /// Takes item `k` out, keeping the current place on the same item when
    /// that item stays.
    pub fn remove(&mut self, k: usize)
        ensures
            k < old(self)@.0.len() ==> final(self)@.0 == old(self)@.0.remove(k as int)
                && final(self)@.1 == index_after_remove(old(self)@.1, k as nat, final(self)@.0.len()),
            k >= old(self)@.0.len() ==> final(self)@ == old(self)@,
    {
        if k < self.items.len() {
            let ghost before = self.items@;
            self.items.remove(k);
            assert(views(self.items@) =~= views(before).remove(k as int));
            if self.items.len() == 0 {
                if k < self.idx {
                    self.idx = self.idx - 1;
                }
                return;
            }
            if k < self.idx {
                self.idx = self.idx - 1;
            }
            if self.idx >= self.items.len() {
                self.idx = self.items.len() - 1;
            }
        }
    }

    /// Empties the queue.
    pub fn clear(&mut self)
        ensures
            final(self)@.0 == Seq::<Seq<char>>::empty(),
            final(self)@.1 == old(self)@.1,
    {
        self.items.clear();
        assert(views(self.items@) =~= Seq::<Seq<char>>::empty());
    }
}

/// Stepping back after stepping forward returns to the same item.
pub proof fn queue_prev_undoes_next(i: nat, n: nat)
    requires
        i < n,
    ensures
        prev_index(next_index(i, n), n) == i,
        next_index(prev_index(i, n), n) == i,
{
    lemma_small_mod(i, n);
    lemma_small_mod((n - 1) as nat, n);
    lemma_mod_self_0(n as int);
    if i + 1 < n {
        lemma_small_mod(i + 1, n);
        lemma_mod_add_multiples_vanish(i as int, n as int);
    }
    if i > 0 {
        lemma_mod_add_multiples_vanish(i - 1, n as int);
        lemma_small_mod((i - 1) as nat, n);
    }
}

/// After taking an item out of a queue that stays non-empty, the current place
/// is a real place; and if the playing item stays, it stays current.
pub proof fn queue_remove_keeps_place(items: Seq<Seq<char>>, cur: nat, k: nat)
    requires
        k < items.len(),
        items.len() > 1,
        cur < items.len(),
    ensures
        index_after_remove(cur, k, (items.len() - 1) as nat) < items.len() - 1,
        k != cur ==> items.remove(k as int)[index_after_remove(cur, k, (items.len() - 1) as nat) as int]
            == items[cur as int],
{
}

} // verus!
