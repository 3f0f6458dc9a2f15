//! Coarse-grained progress: per-mille of input bytes consumed, reported only
//! when the value increases, so a run emits at most a thousand strictly
//! increasing notifications.

use vstd::prelude::*;
use vstd::arithmetic::div_mod::{lemma_div_is_ordered, lemma_div_by_multiple};

verus! {

/// The per-mille value of `read` bytes out of `total`.
pub open spec fn permille(read: int, total: int) -> int {
    read * 1000 / total
}

/// Progress over one input file: how many bytes it holds, how many are
/// consumed, and the last per-mille value reported.
pub struct Progress {
    /// The input's total byte length, computed once at start.
    pub total: u64,
    /// Bytes consumed so far.
    pub read: u64,
    /// The last per-mille value reported.
    pub last: u64,
}

impl Progress {
    /// Fresh progress over an input of `total` bytes.
    pub fn new(total: u64) -> (r: Progress)
        ensures
            r.total == total,
            r.read == 0,
            r.last == 0,
    {
        Progress { total, read: 0, last: 0 }
    }

    /// Accounts for `n` more bytes consumed.  Reports the new per-mille
    /// value exactly when it exceeds the last reported one; what is reported
    /// is strictly increasing and never exceeds one thousand.
    pub fn note_bytes(&mut self, n: u64) -> (emit: Option<u64>)
        requires
            old(self).total > 0,
            old(self).read + n <= old(self).total,
        ensures
            final(self).total == old(self).total,
            final(self).read == old(self).read + n,
            ({
                let p = permille(old(self).read + n, old(self).total as int);
                if p > old(self).last {
                    emit == Some(p as u64) && final(self).last == p
                } else {
                    emit is None && final(self).last == old(self).last
                }
            }),
            emit matches Some(q) ==> old(self).last < q <= 1000,
    {
        let read2 = self.read + n;
        self.read = read2;
        proof {
            assert(read2 * 1000 <= self.total * 1000);
            lemma_div_is_ordered(read2 as int * 1000, self.total as int * 1000, self.total as int);
            lemma_div_by_multiple(1000, self.total as int);
            assert(permille(read2 as int, self.total as int) <= 1000);
            assert(read2 as int * 1000 >= 0);
            assert(permille(read2 as int, self.total as int) >= 0) by {
                vstd::arithmetic::div_mod::lemma_div_pos_is_pos(
                    read2 as int * 1000,
                    self.total as int,
                );
            }
        }
        let p128: u128 = (read2 as u128) * 1000 / (self.total as u128);
        let p: u64 = p128 as u64;
        if p > self.last {
            self.last = p;
            Some(p)
        } else {
            None
        }
    }
}

} // verus!
