use vstd::prelude::*;

verus! {

/// The score every hit adds to a byte.
pub const HIT_REWARD: usize = 5;

/// A character set: all 256 byte values, each exactly once.
pub open spec fn is_permutation(s: Seq<u8>) -> bool {
    &&& s.len() == 256
    &&& forall|i: int, j: int| 0 <= i < j < 256 ==> s[i] != s[j]
}

/// Whether byte `a` with score `sa` is tried before byte `b` with score `sb`:
/// the higher score first, and among equal scores the smaller byte.
pub open spec fn precedes(sa: usize, a: u8, sb: usize, b: u8) -> bool {
    sa > sb || (sa == sb && a < b)
}

/// Scores for the 256 byte values; the likelier a byte, the higher its score.
#[derive(Debug)]
pub struct PrioQueue {
    scores: Vec<usize>,
}

impl PrioQueue {
    #[verifier::type_invariant]
    spec fn wf(&self) -> bool {
        self.scores@.len() == 256
    }

    /// The score of `byte`.
    pub closed spec fn score(&self, byte: u8) -> usize {
        self.scores@[byte as int]
    }

    /// `order` lists every byte value exactly once, by descending score, equal
    /// scores by ascending byte value.
    pub open spec fn ordered(&self, order: Seq<u8>) -> bool {
        &&& order.len() == 256
        &&& forall|b: u8| order.contains(b)
        &&& forall|i: int, j: int|
            0 <= i < j < 256 ==> precedes(
                self.score(#[trigger] order[i]),
                order[i],
                self.score(#[trigger] order[j]),
                order[j],
            )
    }

    /// Every byte has the same score in `after` as in `self`.
    pub open spec fn same_scores(&self, after: &PrioQueue) -> bool {
        forall|b: u8| after.score(b) == self.score(b)
    }

    /// `after` is `self` with `byte` rewarded: its score has grown by five, up
    /// to the largest score there is, and no other score has changed.
    pub open spec fn rewarded(&self, after: &PrioQueue, byte: u8) -> bool {
        &&& after.score(byte) == if self.score(byte) > usize::MAX - HIT_REWARD {
            usize::MAX
        } else {
            (self.score(byte) + HIT_REWARD) as usize
        }
        &&& forall|b: u8| b != byte ==> after.score(b) == self.score(b)
    }

    /// Scores the bytes of a character set: the first gets 255, the last 0.
    pub fn new(init: Vec<u8>) -> (q: Self)
        requires
            is_permutation(init@),
        ensures
            forall|i: int| 0 <= i < 256 ==> q.score(#[trigger] init@[i]) == 255 - i,
    {
        let mut scores: Vec<usize> = Vec::new();
        let mut n: usize = 0;
        while n < 256
            invariant
                n <= 256,
                scores@.len() == n,
            decreases 256 - n,
        {
            scores.push(0);
            n += 1;
        }
        let mut i: usize = 0;
        while i < 256
            invariant
                i <= 256,
                scores@.len() == 256,
                is_permutation(init@),
                forall|j: int| 0 <= j < i ==> scores@[#[trigger] init@[j] as int] == 255 - j,
            decreases 256 - i,
        {
            let b: u8 = init[i];
            scores[b as usize] = 255 - i;
            i += 1;
        }
        PrioQueue { scores }
    }

    /// Rewards `byte`: its score grows by five, up to the largest score there
    /// is; no other score changes.
    pub fn hit(&mut self, byte: u8)
        ensures
            old(self).rewarded(final(self), byte),
    {
        proof {
            use_type_invariant(&*self);
        }
        let s: usize = self.scores[byte as usize];
        self.scores[byte as usize] = s.saturating_add(HIT_REWARD);
    }

    /// A snapshot of the order in which to try the bytes.
    pub fn iter(&self) -> (order: Vec<u8>)
        ensures
            self.ordered(order@),
            order@.no_duplicates(),
    {
        proof {
            use_type_invariant(self);
        }
        let mut order: Vec<u8> = Vec::new();
        let mut k: usize = 0;
        while k < 256
            invariant
                k <= 256,
                order@.len() == k,
                self.scores@.len() == 256,
                forall|i: int| 0 <= i < k ==> (#[trigger] order@[i] as int) < k,
                forall|b: u8| (b as int) < k ==> order@.contains(b),
                forall|i: int, j: int|
                    0 <= i < j < k ==> precedes(
                        self.score(#[trigger] order@[i]),
                        order@[i],
                        self.score(#[trigger] order@[j]),
                        order@[j],
                    ),
            decreases 256 - k,
        {
            let b: u8 = k as u8;
            let s: usize = self.scores[k];
            let mut p: usize = 0;
            while p < order.len() && self.scores[order[p] as usize] >= s
                invariant
                    p <= order@.len(),
                    order@.len() == k,
                    self.scores@.len() == 256,
                    forall|i: int| 0 <= i < p ==> self.score(#[trigger] order@[i]) >= s,
                decreases order@.len() - p,
            {
                p += 1;
            }
            let ghost before = order@;
            order.insert(p, b);
            proof {
                assert forall|c: u8| (c as int) < k + 1 implies order@.contains(c) by {
                    if c == b {
                        assert(order@[p as int] == c);
                    } else {
                        assert(before.contains(c));
                        let i = choose|i: int| 0 <= i < before.len() && before[i] == c;
                        if i < p {
                            assert(order@[i] == c);
                        } else {
                            assert(order@[i + 1] == c);
                        }
                    }
                }
                assert forall|i: int, j: int| 0 <= i < j < k + 1 implies precedes(
                    self.score(#[trigger] order@[i]),
                    order@[i],
                    self.score(#[trigger] order@[j]),
                    order@[j],
                ) by {
                    if j < p {
                        assert(order@[i] == before[i] && order@[j] == before[j]);
                    } else if j == p {
                        assert(order@[i] == before[i]);
                        assert((before[i] as int) < k);
                    } else if i < p {
                        assert(order@[i] == before[i] && order@[j] == before[j - 1]);
                    } else if i == p {
                        assert(order@[j] == before[j - 1]);
                        if j - 1 > p {
                            assert(precedes(
                                self.score(before[p as int]),
                                before[p as int],
                                self.score(before[j - 1]),
                                before[j - 1],
                            ));
                        }
                    } else {
                        assert(order@[i] == before[i - 1] && order@[j] == before[j - 1]);
                    }
                }
                assert forall|i: int| 0 <= i < k + 1 implies (#[trigger] order@[i] as int) < k
                    + 1 by {
                    if i < p {
                        assert(order@[i] == before[i]);
                    } else if i > p {
                        assert(order@[i] == before[i - 1]);
                    }
                }
            }
            k += 1;
        }
        proof {
            assert forall|i: int, j: int| 0 <= i < j < 256 implies order@[i] != order@[j] by {
                assert(precedes(
                    self.score(order@[i]),
                    order@[i],
                    self.score(order@[j]),
                    order@[j],
                ));
            }
        }
        order
    }
}

/// Tests whether `chars` is a character set.
pub fn is_charset(chars: &[u8]) -> (ok: bool)
    ensures
        ok == is_permutation(chars@),
{
    if chars.len() != 256 {
        return false;
    }
    let mut seen: Vec<bool> = Vec::new();
    let mut n: usize = 0;
    while n < 256
        invariant
            n <= 256,
            seen@.len() == n,
            forall|b: int| 0 <= b < n ==> !seen@[b],
        decreases 256 - n,
    {
        seen.push(false);
        n += 1;
    }
    let mut i: usize = 0;
    while i < 256
        invariant
            i <= 256,
            chars@.len() == 256,
            seen@.len() == 256,
            forall|b: int|
                0 <= b < 256 ==> (#[trigger] seen@[b] <==> exists|j: int|
                    0 <= j < i && chars@[j] == b),
            forall|a: int, j: int| 0 <= a < j < i ==> chars@[a] != chars@[j],
        decreases 256 - i,
    {
        let b: u8 = chars[i];
        if seen[b as usize] {
            proof {
                let j = choose|j: int| 0 <= j < i && chars@[j] == b as int;
                assert(chars@[j] == chars@[i as int]);
            }
            return false;
        }
        let ghost prev = seen@;
        seen[b as usize] = true;
        proof {
            assert forall|c: int| 0 <= c < 256 implies (#[trigger] seen@[c] <==> exists|j: int|
                0 <= j < i + 1 && chars@[j] == c) by {
                if c == b as int {
                    assert(chars@[i as int] == c);
                } else {
                    assert(seen@[c] == prev[c]);
                    if prev[c] {
                        let j = choose|j: int| 0 <= j < i && chars@[j] == c;
                        assert(0 <= j < i + 1 && chars@[j] == c);
                    }
                }
            }
            assert forall|a: int, j: int| 0 <= a < j < i + 1 implies chars@[a] != chars@[j] by {
                if j == i {
                    if chars@[a] == chars@[j] {
                        assert(prev[b as int]);
                    }
                }
            }
        }
        i += 1;
    }
    true
}

} // verus!
