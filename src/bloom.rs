//! A small bloom filter over widget ids: a 64-bit set with two probes per id.
//!
//! It answers "may this id have been added?". An id that was added is always
//! reported; an id that was not may be reported too.
use vstd::prelude::*;

verus! {

/// The two bits that stand for `id`.
pub open spec fn probe_mask(id: u64) -> u64 {
    ((1u64 << (id & 63u64)) | (1u64 << ((id >> 6u64) & 63u64))) as u64
}

/// `mask` is set in `bits`.
pub open spec fn holds_mask(bits: u64, mask: u64) -> bool {
    bits & mask == mask
}

proof fn lemma_or_holds(b: u64, m: u64)
    ensures
        holds_mask(b | m, m),
{
    assert((b | m) & m == m) by (bit_vector);
}

proof fn lemma_or_keeps(b: u64, c: u64, m: u64)
    requires
        holds_mask(b, m),
    ensures
        holds_mask(b | c, m),
        holds_mask(c | b, m),
{
    assert(b & m == m ==> (b | c) & m == m && (c | b) & m == m) by (bit_vector);
}

/// A bloom filter of widget ids.
#[derive(Clone, Copy, Debug, PartialEq, Eq, Structural)]
pub struct Bloom {
    pub bits: u64,
}

impl Bloom {
    /// The filter may report `id`.
    pub open spec fn spec_may_contain(self, id: u64) -> bool {
        holds_mask(self.bits, probe_mask(id))
    }

    /// The filter reports every id of `s`: it has no false negative on `s`.
    pub open spec fn covers(self, s: Set<u64>) -> bool {
        forall|id: u64| s.contains(id) ==> #[trigger] self.spec_may_contain(id)
    }

    pub fn new() -> (r: Bloom)
        ensures
            r.bits == 0,
    {
        Bloom { bits: 0 }
    }

    fn mask(id: u64) -> (r: u64)
        ensures
            r == probe_mask(id),
    {
        let lo = id & 63u64;
        let hi = (id >> 6u64) & 63u64;
        assert(lo < 64 && hi < 64) by (bit_vector)
            requires
                lo == id & 63u64,
                hi == (id >> 6u64) & 63u64,
        ;
        (1u64 << lo) | (1u64 << hi)
    }

    /// Add `id`: afterwards it is reported, and so is everything reported before.
    pub fn add(&mut self, id: u64)
        ensures
            final(self).bits == old(self).bits | probe_mask(id),
            final(self).spec_may_contain(id),
            forall|x: u64| old(self).spec_may_contain(x) ==> #[trigger] final(self).spec_may_contain(x),
    {
        let m = Bloom::mask(id);
        proof {
            lemma_or_holds(self.bits, m);
            assert forall|x: u64| old(self).spec_may_contain(x) implies #[trigger] (Bloom {
                bits: old(self).bits | m,
            }).spec_may_contain(x) by {
                lemma_or_keeps(old(self).bits, m, probe_mask(x));
            }
        }
        self.bits = self.bits | m;
    }

    /// Whether `id` may have been added.
    pub fn may_contain(&self, id: u64) -> (r: bool)
        ensures
            r == self.spec_may_contain(id),
    {
        let m = Bloom::mask(id);
        self.bits & m == m
    }

    /// The filter that reports what either reports.
    pub fn union(&self, other: Bloom) -> (r: Bloom)
        ensures
            r.bits == self.bits | other.bits,
            forall|x: u64|
                self.spec_may_contain(x) || other.spec_may_contain(x) ==> #[trigger] r.spec_may_contain(x),
    {
        let r = Bloom { bits: self.bits | other.bits };
        proof {
            assert forall|x: u64|
                self.spec_may_contain(x) || other.spec_may_contain(x) implies #[trigger] r.spec_may_contain(x) by {
                if self.spec_may_contain(x) {
                    lemma_or_keeps(self.bits, other.bits, probe_mask(x));
                } else {
                    lemma_or_keeps(other.bits, self.bits, probe_mask(x));
                }
            }
        }
        r
    }

    /// Forget every id.
    pub fn clear(&mut self)
        ensures
            final(self).bits == 0,
    {
        self.bits = 0;
    }
}

/// Adding one id and joining filters keeps every earlier answer: if `b`
/// covers `s`, then `b` with `id` added covers `s` and `id`, and the union of
/// `b` with any filter covers `s`.
pub proof fn lemma_bloom_no_false_negatives(b: Bloom, other: Bloom, s: Set<u64>, id: u64)
    requires
        b.covers(s),
    ensures
        (Bloom { bits: b.bits | probe_mask(id) }).covers(s.insert(id)),
        (Bloom { bits: b.bits | other.bits }).covers(s),
        (Bloom { bits: other.bits | b.bits }).covers(s),
{
    lemma_or_holds(b.bits, probe_mask(id));
    assert forall|x: u64| s.insert(id).contains(x) implies #[trigger] (Bloom {
        bits: b.bits | probe_mask(id),
    }).spec_may_contain(x) by {
        if x != id {
            assert(b.spec_may_contain(x));
            lemma_or_keeps(b.bits, probe_mask(id), probe_mask(x));
        }
    }
    assert forall|x: u64| s.contains(x) implies #[trigger] (Bloom {
        bits: b.bits | other.bits,
    }).spec_may_contain(x) by {
        assert(b.spec_may_contain(x));
        lemma_or_keeps(b.bits, other.bits, probe_mask(x));
    }
    assert forall|x: u64| s.contains(x) implies #[trigger] (Bloom {
        bits: other.bits | b.bits,
    }).spec_may_contain(x) by {
        assert(b.spec_may_contain(x));
        lemma_or_keeps(b.bits, other.bits, probe_mask(x));
    }
}

} // verus!
