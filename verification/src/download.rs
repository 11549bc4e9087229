//! The YouTube download queue: queries wait in order, are labelled once their
//! titles are looked up, and are handed to the download worker one at a time.
use vstd::prelude::*;
use crate::text::{chars_of, seq_eq, string_of, trim, trim_str};
use crate::types::YtCmd;

verus! {

/// Parallel fragment downloads asked of yt-dlp for queued downloads.
pub open spec fn queue_chunks() -> u32 {
    8
}

/// A queued download: the query and the label shown for it.
pub struct QueueItem {
    pub query: String,
    pub display: String,
}

/// What the player must do after a queue step.
pub enum QueueStep {
    /// Nothing to do.
    Nothing,
    /// The queue ran dry: the download run is over.
    Finished,
    /// Hand `cmd` to the download worker; `shown` names the download now running.
    Download { cmd: YtCmd, shown: String },
}

pub struct YtQueue {
    items: Vec<QueueItem>,
    processing: bool,
    active: Option<String>,
}

pub open spec fn item_views(v: Seq<QueueItem>) -> Seq<(Seq<char>, Seq<char>)> {
    v.map_values(|q: QueueItem| (q.query@, q.display@))
}

pub open spec fn opt_view(o: Option<String>) -> Option<Seq<char>> {
    match o {
        Some(s) => Some(s@),
        None => None,
    }
}

/// The label a download is shown under: its display text, else its query.
pub open spec fn shown_label(item: (Seq<char>, Seq<char>)) -> Seq<char> {
    if item.1.len() == 0 {
        item.0
    } else {
        item.1
    }
}

/// The step that starts the first waiting item, given what was waiting.
pub open spec fn download_step_ok(step: QueueStep, first: (Seq<char>, Seq<char>)) -> bool {
    match step {
        QueueStep::Download { cmd, shown } => shown@ == shown_label(first) && match cmd {
            YtCmd::Download { query, auto_play, chunks } => query@ == first.0 && !auto_play
                && chunks == queue_chunks(),
            _ => false,
        },
        _ => false,
    }
}

impl View for YtQueue {
    type V = (Seq<(Seq<char>, Seq<char>)>, bool, Option<Seq<char>>);

    closed spec fn view(&self) -> (Seq<(Seq<char>, Seq<char>)>, bool, Option<Seq<char>>) {
        (item_views(self.items@), self.processing, opt_view(self.active))
    }
}

impl YtQueue {
    pub fn new() -> (q: YtQueue)
        ensures
            q@ == (Seq::<(Seq<char>, Seq<char>)>::empty(), false, None::<Seq<char>>),
    {
        YtQueue { items: Vec::new(), processing: false, active: None }
    }

    pub fn len(&self) -> (n: usize)
        ensures
            n == self@.0.len(),
    {
        self.items.len()
    }

    pub fn is_processing(&self) -> (b: bool)
        ensures
            b == self@.1,
    {
        self.processing
    }

    /// The label of the download running now.
    pub fn active(&self) -> (r: Option<String>)
        ensures
            opt_view(r) == self@.2,
    {
        match &self.active {
            Some(s) => Some(s.clone()),
            None => None,
        }
    }

    /// The waiting items as `(query, label)`.
    pub fn entries(&self) -> (r: Vec<(String, String)>)
        ensures
            r@.len() == self@.0.len(),
            forall|i: int| 0 <= i < r@.len() ==> (r@[i].0@, r@[i].1@) == self@.0[i],
    {
        let mut r: Vec<(String, String)> = Vec::new();
        let mut i: usize = 0;
        while i < self.items.len()
            invariant
                i <= self.items.len(),
                r@.len() == i,
                forall|k: int| 0 <= k < i ==> (r@[k].0@, r@[k].1@) == item_views(self.items@)[k],
            decreases self.items.len() - i,
        {
            r.push((self.items[i].query.clone(), self.items[i].display.clone()));
            i += 1;
        }
        r
    }

    /// Queues a query (trimmed), labelled by itself until its title is known.
    /// Returns the lookup to run for the label, or `None` for an empty query.
    pub fn add(&mut self, q: &str) -> (r: Option<YtCmd>)
        ensures
            trim(q@).len() == 0 ==> r is None && final(self)@ == old(self)@,
            trim(q@).len() > 0 ==> final(self)@.0 == old(self)@.0.push((trim(q@), trim(q@)))
                && final(self)@.1 == old(self)@.1 && final(self)@.2 == old(self)@.2 && r is Some
                && match r->0 {
                YtCmd::Resolve { idx, query } => idx == old(self)@.0.len() && query@ == trim(q@),
                _ => false,
            },
    {
        let t = trim_str(q);
        if t.len() == 0 {
            return None;
        }
        let s = string_of(&t);
        let idx = self.items.len();
        self.items.push(QueueItem { query: s.clone(), display: s.clone() });
        assert(item_views(self.items@) =~= item_views(old(self).items@).push((t@, t@)));
        Some(YtCmd::Resolve { idx, query: s })
    }

    /// Labels item `idx` with a looked-up title, if it still holds `query`.
    pub fn resolved(&mut self, idx: usize, query: &str, display: String)
        ensures
            idx < old(self)@.0.len() && old(self)@.0[idx as int].0 == query@ ==> final(self)@.0
                == old(self)@.0.update(idx as int, (query@, display@)),
            !(idx < old(self)@.0.len() && old(self)@.0[idx as int].0 == query@) ==> final(self)@.0
                == old(self)@.0,
            final(self)@.1 == old(self)@.1,
            final(self)@.2 == old(self)@.2,
    {
        if idx < self.items.len() {
            let qv = chars_of(query);
            let cur = chars_of(self.items[idx].query.as_str());
            if seq_eq(&cur, &qv) {
                let query_s = self.items[idx].query.clone();
                self.items.set(idx, QueueItem { query: query_s, display });
                assert(item_views(self.items@) =~= item_views(old(self).items@).update(
                    idx as int,
                    (query@, display@),
                ));
            }
        }
    }

    /// Starts working through the queue, unless it is running or empty.
    pub fn start(&mut self) -> (r: QueueStep)
        ensures
            old(self)@.1 || old(self)@.0.len() == 0 ==> final(self)@ == old(self)@ && r is Nothing,
            !old(self)@.1 && old(self)@.0.len() > 0 ==> final(self)@.1 && final(self)@.0 == old(
                self,
            )@.0.drop_first() && final(self)@.2 == Some(shown_label(old(self)@.0[0]))
                && download_step_ok(r, old(self)@.0[0]),
    {
        if self.processing || self.items.len() == 0 {
            return QueueStep::Nothing;
        }
        self.processing = true;
        self.send_next()
    }

    /// Hands the next waiting item to the worker, or ends the run when none waits.
    pub fn send_next(&mut self) -> (r: QueueStep)
        ensures
            !old(self)@.1 ==> final(self)@ == old(self)@ && r is Nothing,
            old(self)@.1 && old(self)@.0.len() == 0 ==> final(self)@ == (
                old(self)@.0,
                false,
                None::<Seq<char>>,
            ) && r is Finished,
            old(self)@.1 && old(self)@.0.len() > 0 ==> final(self)@.1 && final(self)@.0 == old(
                self,
            )@.0.drop_first() && final(self)@.2 == Some(shown_label(old(self)@.0[0]))
                && download_step_ok(r, old(self)@.0[0]),
    {
        if !self.processing {
            return QueueStep::Nothing;
        }
        if self.items.len() == 0 {
            self.processing = false;
            self.active = None;
            return QueueStep::Finished;
        }
        let item = self.items.remove(0);
        assert(item_views(self.items@) =~= item_views(old(self).items@).drop_first());
        let shown = if item.display.as_str().is_empty() {
            item.query.clone()
        } else {
            item.display
        };
        self.active = Some(shown.clone());
        QueueStep::Download {
            cmd: YtCmd::Download { query: item.query, auto_play: false, chunks: 8 },
            shown,
        }
    }

    /// A queued download finished (or failed): go on with the next one.
    pub fn advance(&mut self) -> (r: QueueStep)
        ensures
            old(self)@.0.len() == 0 ==> final(self)@ == (
                old(self)@.0,
                false,
                None::<Seq<char>>,
            ) && r is Finished,
            old(self)@.0.len() > 0 && !old(self)@.1 ==> final(self)@ == (
                old(self)@.0,
                false,
                None::<Seq<char>>,
            ) && r is Nothing,
            old(self)@.0.len() > 0 && old(self)@.1 ==> final(self)@.1 && final(self)@.0 == old(
                self,
            )@.0.drop_first() && final(self)@.2 == Some(shown_label(old(self)@.0[0]))
                && download_step_ok(r, old(self)@.0[0]),
    {
        self.active = None;
        if self.items.len() == 0 {
            self.processing = false;
            return QueueStep::Finished;
        }
        self.send_next()
    }

    /// Takes out the first waiting item with this query; refused while running.
    pub fn remove_query(&mut self, query: &str) -> (removed: bool)
        ensures
            old(self)@.1 ==> final(self)@ == old(self)@ && !removed,
            final(self)@.1 == old(self)@.1,
            final(self)@.2 == old(self)@.2,
            removed ==> exists|i: int|
                0 <= i < old(self)@.0.len() && old(self)@.0[i].0 == query@ && final(self)@.0 == old(
                    self,
                )@.0.remove(i) && forall|j: int| 0 <= j < i ==> old(self)@.0[j].0 != query@,
            !removed && !old(self)@.1 ==> final(self)@ == old(self)@ && forall|j: int|
                0 <= j < old(self)@.0.len() ==> old(self)@.0[j].0 != query@,
    {
        if self.processing {
            return false;
        }
        let qv = chars_of(query);
        let mut i: usize = 0;
        while i < self.items.len()
            invariant
                i <= self.items.len(),
                qv@ == query@,
                self.items@ == old(self).items@,
                self.processing == old(self).processing,
                !self.processing,
                self.active == old(self).active,
                forall|j: int| 0 <= j < i ==> item_views(self.items@)[j].0 != query@,
            decreases self.items.len() - i,
        {
            let cur = chars_of(self.items[i].query.as_str());
            if seq_eq(&cur, &qv) {
                self.items.remove(i);
                assert(item_views(self.items@) =~= item_views(old(self).items@).remove(i as int));
                assert(item_views(old(self).items@)[i as int].0 == query@);
                assert(old(self)@.0[i as int].0 == query@ && self@.0 == old(self)@.0.remove(
                    i as int,
                ));
                return true;
            }
            i += 1;
        }
        false
    }

    /// Empties the waiting list; refused while running.
    pub fn clear(&mut self) -> (cleared: bool)
        ensures
            old(self)@.1 ==> final(self)@ == old(self)@ && !cleared,
            !old(self)@.1 ==> final(self)@ == (
                Seq::<(Seq<char>, Seq<char>)>::empty(),
                old(self)@.1,
                old(self)@.2,
            ) && cleared,
    {
        if self.processing {
            return false;
        }
        self.items.clear();
        assert(item_views(self.items@) =~= Seq::<(Seq<char>, Seq<char>)>::empty());
        true
    }
}

} // verus!
