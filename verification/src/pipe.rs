//! Raw PCM from an ffmpeg pipe: 16-bit little-endian samples, queued until
//! the player takes them.
use vstd::prelude::*;
use std::collections::VecDeque;

verus! {

/// The signed 16-bit sample stored little-endian in bytes `lo`, `hi`.
pub open spec fn s16(lo: u8, hi: u8) -> i16 {
    let v = lo as int + 256 * hi as int;
    if v >= 32768 {
        (v - 65536) as i16
    } else {
        v as i16
    }
}

/// The little-endian bytes of a sample (`i16::to_le_bytes`).
pub open spec fn le_bytes(v: i16) -> (u8, u8) {
    let u = if v < 0 {
        v as int + 65536
    } else {
        v as int
    };
    ((u % 256) as u8, (u / 256) as u8)
}

/// The samples held in the first `n` bytes (a trailing odd byte is dropped).
pub open spec fn decode_s16le(bytes: Seq<u8>, n: nat) -> Seq<i16> {
    Seq::new(n / 2, |i: int| s16(bytes[2 * i], bytes[2 * i + 1]))
}

/// Reading bytes as a sample and writing the sample back gives the same bytes,
/// and the other way round.
pub proof fn s16_roundtrip(lo: u8, hi: u8, v: i16)
    ensures
        le_bytes(s16(lo, hi)) == (lo, hi),
        s16(le_bytes(v).0, le_bytes(v).1) == v,
{
}

fn sample(lo: u8, hi: u8) -> (r: i16)
    ensures
        r == s16(lo, hi),
{
    let v: i32 = lo as i32 + 256 * hi as i32;
    if v >= 32768 {
        (v - 65536) as i16
    } else {
        v as i16
    }
}

/// Samples read from a pipe and not yet played.
pub struct PcmQueue {
    pending: VecDeque<i16>,
}

impl View for PcmQueue {
    type V = Seq<i16>;

    closed spec fn view(&self) -> Seq<i16> {
        self.pending@
    }
}

impl PcmQueue {
    pub fn new() -> (q: PcmQueue)
        ensures
            q@ == Seq::<i16>::empty(),
    {
        PcmQueue { pending: VecDeque::new() }
    }

    pub fn is_empty(&self) -> (b: bool)
        ensures
            b == (self@.len() == 0),
    {
        self.pending.len() == 0
    }

    /// Queues the samples in the first `n` bytes of `chunk`.
    pub fn push_chunk(&mut self, chunk: &[u8], n: usize)
        requires
            n <= chunk.len(),
        ensures
            final(self)@ == old(self)@ + decode_s16le(chunk@, n as nat),
    {
        let m = n - n % 2;
        let mut i: usize = 0;
        let ghost start = self@;
        while i < m
            invariant
                m == n - n % 2,
                n <= chunk.len(),
                i % 2 == 0,
                i <= m,
                self@ == start + decode_s16le(chunk@, i as nat),
            decreases m - i,
        {
            let s = sample(chunk[i], chunk[i + 1]);
            self.pending.push_back(s);
            i += 2;
            assert(self@ =~= start + decode_s16le(chunk@, i as nat));
        }
        assert(decode_s16le(chunk@, m as nat) =~= decode_s16le(chunk@, n as nat));
    }

    /// The oldest queued sample.
    pub fn pop(&mut self) -> (r: Option<i16>)
        ensures
            old(self)@.len() == 0 ==> r is None && final(self)@ == old(self)@,
            old(self)@.len() > 0 ==> r == Some(old(self)@[0]) && final(self)@
                == old(self)@.drop_first(),
    {
        self.pending.pop_front()
    }
}

} // verus!
