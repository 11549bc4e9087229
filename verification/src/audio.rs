//! `SkipFirst`: seeking by dropping the first samples of a source, for
//! decoders that cannot seek themselves.
//!
//! The source itself is driven by the caller: before each sample handed on,
//! the caller pulls and drops samples while `skip_pending` holds, reporting
//! each with `skipped_one`.
use vstd::prelude::*;
use std::time::Duration;
use crate::time::{duration_as_nanos, duration_nanos, duration_saturating_sub};

verus! {

/// Samples (over all channels) in `nanos` nanoseconds of audio, capped at `u64::MAX`.
pub open spec fn samples_in(nanos: nat, rate: nat, channels: nat) -> nat {
    let n = nanos * rate * channels / 1_000_000_000;
    if n > u64::MAX {
        u64::MAX as nat
    } else {
        n
    }
}

/// Drops the first `skip` of a source.
pub struct SkipFirst<S> {
    inner: S,
    remaining: u64,
    skip: Duration,
    channels: u16,
}

impl<S> SkipFirst<S> {
    /// Samples still to drop.
    pub closed spec fn remaining_spec(&self) -> nat {
        self.remaining as nat
    }

    /// The time skipped.
    pub closed spec fn skip_spec(&self) -> Duration {
        self.skip
    }

    /// The channel count reported for the skipped source.
    pub closed spec fn channels_spec(&self) -> u16 {
        self.channels
    }

    /// The wrapped source.
    pub closed spec fn inner_spec(&self) -> S {
        self.inner
    }

    /// Wraps `inner`, whose format is `sample_rate` Hz with `channels`
    /// interleaved channels (each at least 1), to drop its first `skip`.
    pub fn new(inner: S, skip: Duration, sample_rate: u32, channels: u16) -> (r: Self)
        ensures
            r.remaining_spec() == samples_in(
                duration_nanos(skip),
                if sample_rate == 0 {
                    1
                } else {
                    sample_rate as nat
                },
                if channels == 0 {
                    1
                } else {
                    channels as nat
                },
            ),
            r.skip_spec() == skip,
            r.channels_spec() == if channels == 0 {
                1
            } else {
                channels
            },
            r.inner_spec() == inner,
    {
        let rate: u128 = if sample_rate == 0 {
            1
        } else {
            sample_rate as u128
        };
        let ch: u16 = if channels == 0 {
            1
        } else {
            channels
        };
        let nanos = duration_as_nanos(&skip);
        let ch128 = ch as u128;
        assert(1 <= rate * ch128 <= 0xffff_ffff_ffff_ffff_ffff) by (nonlinear_arith)
            requires
                1 <= rate <= 0xffff_ffff,
                1 <= ch128 <= 0xffff,
        ;
        let per = rate * ch128;
        let remaining: u64 = if nanos > u128::MAX / per {
            assert(nanos * per / 1_000_000_000 > u64::MAX) by (nonlinear_arith)
                requires
                    nanos > u128::MAX / per,
                    per > 0,
                    per <= 0xffff_ffff_ffff_ffff_ffff,
            ;
            u64::MAX
        } else {
            assert(nanos * per <= u128::MAX) by (nonlinear_arith)
                requires
                    nanos <= u128::MAX / per,
                    per > 0,
            ;
            let total = nanos * per / 1_000_000_000;
            if total > u64::MAX as u128 {
                u64::MAX
            } else {
                total as u64
            }
        };
        assert(nanos * rate * ch == nanos * per) by (nonlinear_arith)
            requires
                per == rate * ch,
        ;
        SkipFirst { inner, remaining, skip, channels: ch }
    }

    /// Whether a sample must still be dropped.
    pub fn skip_pending(&self) -> (b: bool)
        ensures
            b == (self.remaining_spec() > 0),
    {
        self.remaining > 0
    }

    /// Records one sample dropped.
    pub fn skipped_one(&mut self)
        ensures
            final(self).remaining_spec() == if old(self).remaining_spec() > 0 {
                (old(self).remaining_spec() - 1) as nat
            } else {
                0
            },
            final(self).skip_spec() == old(self).skip_spec(),
            final(self).channels_spec() == old(self).channels_spec(),
            final(self).inner_spec() == old(self).inner_spec(),
    {
        if self.remaining > 0 {
            self.remaining = self.remaining - 1;
        }
    }

    /// The wrapped source.
    pub fn inner(&self) -> (r: &S)
        ensures
            *r == self.inner_spec(),
    {
        &self.inner
    }

    /// The wrapped source, for pulling samples.
    pub fn inner_mut(&mut self) -> (r: &mut S)
        ensures
            *r == old(self).inner_spec(),
            final(self).inner_spec() == *final(r),
            final(self).remaining_spec() == old(self).remaining_spec(),
            final(self).skip_spec() == old(self).skip_spec(),
            final(self).channels_spec() == old(self).channels_spec(),
    {
        &mut self.inner
    }

    /// The channel count of the source (at least 1).
    pub fn channels(&self) -> (c: u16)
        ensures
            c == self.channels_spec(),
    {
        self.channels
    }

    /// What is left of the source's length once the skipped time is taken off.
    pub fn total_duration(&self, inner_total: Option<Duration>) -> (r: Option<Duration>)
        ensures
            r is Some <==> inner_total is Some,
            r matches Some(d) ==> duration_nanos(d) == if duration_nanos(inner_total->0)
                >= duration_nanos(self.skip_spec()) {
                (duration_nanos(inner_total->0) - duration_nanos(self.skip_spec())) as nat
            } else {
                0
            },
    {
        match inner_total {
            Some(d) => Some(duration_saturating_sub(d, self.skip)),
            None => None,
        }
    }
}

} // verus!
