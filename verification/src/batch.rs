//! Work handed to the background workers in batches: which songs still need
//! their tags or covers fetched, split into batches of a fixed size.
use vstd::prelude::*;
use crate::video::views;

verus! {

/// Songs go to the tag and cover workers in batches of this many.
pub const BATCH: usize = 200;

/// `s` cut into consecutive pieces of `n` (the last one may be shorter).
pub open spec fn chunked(s: Seq<Seq<char>>, n: nat) -> Seq<Seq<Seq<char>>>
    decreases s.len(),
{
    if n == 0 || s.len() == 0 {
        seq![]
    } else if s.len() <= n {
        seq![s]
    } else {
        seq![s.take(n as int)] + chunked(s.skip(n as int), n)
    }
}

/// The pieces joined again.
pub open spec fn joined(c: Seq<Seq<Seq<char>>>) -> Seq<Seq<char>>
    decreases c.len(),
{
    if c.len() == 0 {
        seq![]
    } else {
        c[0] + joined(c.drop_first())
    }
}

/// Cutting into batches loses and reorders nothing, and every batch holds
/// between one and `n` songs.
pub proof fn batches_rejoin(s: Seq<Seq<char>>, n: nat)
    requires
        n > 0,
    ensures
        joined(chunked(s, n)) == s,
        forall|i: int|
            0 <= i < chunked(s, n).len() ==> 0 < #[trigger] chunked(s, n)[i].len() <= n,
    decreases s.len(),
{
    if s.len() > 0 {
        if s.len() <= n {
            assert(joined(chunked(s, n).drop_first()) =~= seq![]);
            assert(joined(chunked(s, n)) =~= s);
        } else {
            let rest = chunked(s.skip(n as int), n);
            batches_rejoin(s.skip(n as int), n);
            let c = chunked(s, n);
            assert(c.drop_first() =~= rest);
            assert(s.take(n as int) + s.skip(n as int) =~= s);
            assert forall|i: int| 0 <= i < c.len() implies 0 < #[trigger] c[i].len() <= n by {
                if i > 0 {
                    assert(c[i] == rest[i - 1]);
                }
            }
        }
    }
}

pub open spec fn batch_views(v: Seq<Vec<String>>) -> Seq<Seq<Seq<char>>> {
    v.map_values(|c: Vec<String>| views(c@))
}

/// The songs cut into batches of `size`.
pub fn chunks_of(items: &Vec<String>, size: usize) -> (r: Vec<Vec<String>>)
    requires
        size > 0,
    ensures
        batch_views(r@) == chunked(views(items@), size as nat),
{
    let ghost all = views(items@);
    let mut r: Vec<Vec<String>> = Vec::new();
    let mut start: usize = 0;
    assert(all.skip(0) =~= all);
    assert(batch_views(r@) =~= Seq::<Seq<Seq<char>>>::empty());
    assert(batch_views(r@) + chunked(all, size as nat) =~= chunked(all, size as nat));
    while start < items.len()
        invariant
            size > 0,
            start <= items.len(),
            all == views(items@),
            batch_views(r@) + chunked(all.skip(start as int), size as nat) == chunked(all, size as nat),
        decreases items.len() - start,
    {
        let end = if items.len() - start <= size {
            items.len()
        } else {
            start + size
        };
        let mut c: Vec<String> = Vec::new();
        let mut i = start;
        while i < end
            invariant
                start <= i <= end,
                end <= items.len(),
                all == views(items@),
                views(c@) == all.subrange(start as int, i as int),
            decreases end - i,
        {
            let ghost before = views(c@);
            c.push(items[i].clone());
            assert(views(c@) =~= before.push(all[i as int]));
            i += 1;
            assert(views(c@) =~= all.subrange(start as int, i as int));
        }
        let ghost rest = all.skip(start as int);
        proof {
            if rest.len() <= size {
                assert(views(c@) =~= rest);
                assert(all.skip(end as int) =~= Seq::<Seq<char>>::empty());
            } else {
                assert(views(c@) =~= rest.take(size as int));
                assert(rest.skip(size as int) =~= all.skip(end as int));
            }
        }
        let ghost prev = batch_views(r@);
        r.push(c);
        assert(batch_views(r@) =~= prev.push(views(c@)));
        assert(batch_views(r@) + chunked(all.skip(end as int), size as nat) =~= prev + chunked(
            rest,
            size as nat,
        ));
        start = end;
    }
    assert(all.skip(items.len() as int) =~= Seq::<Seq<char>>::empty());
    assert(batch_views(r@) + Seq::<Seq<Seq<char>>>::empty() =~= batch_views(r@));
    r
}

/// The songs whose entry in `have` is false (in playlist order).
pub open spec fn missing(pl: Seq<Seq<char>>, have: Seq<bool>) -> Seq<Seq<char>>
    decreases pl.len(),
{
    if pl.len() == 0 {
        seq![]
    } else {
        let pre = missing(pl.drop_last(), have);
        if have[pl.len() - 1] {
            pre
        } else {
            pre.push(pl.last())
        }
    }
}

/// The songs still to fetch: those `have` marks as not yet cached nor on
/// their way.
pub fn select_missing(pl: &Vec<String>, have: &Vec<bool>) -> (r: Vec<String>)
    requires
        have.len() == pl.len(),
    ensures
        views(r@) == missing(views(pl@), have@),
{
    let ghost all = views(pl@);
    let mut r: Vec<String> = Vec::new();
    let mut i: usize = 0;
    while i < pl.len()
        invariant
            i <= pl.len(),
            have.len() == pl.len(),
            all == views(pl@),
            views(r@) == missing(all.take(i as int), have@),
        decreases pl.len() - i,
    {
        assert(all.take(i + 1).drop_last() =~= all.take(i as int));
        assert(all.take(i + 1).last() == pl@[i as int]@);
        if !have[i] {
            let ghost before = views(r@);
            r.push(pl[i].clone());
            assert(views(r@) =~= before.push(pl@[i as int]@));
        }
        i += 1;
    }
    assert(all.take(pl.len() as int) =~= all);
    r
}

} // verus!
