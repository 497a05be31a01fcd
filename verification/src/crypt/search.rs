use vstd::prelude::*;
use crate::crypt::{Dec, Error};
use crate::msg::{Event, Messages, Update};
use crate::oracle;
use crate::prio::PrioQueue;

verus! {

/// Where the search of one block stands.
#[derive(Debug)]
pub enum Phase {
    /// Nothing has been asked yet.
    Idle,
    /// The padding length of the message's last block is being looked for.
    Padding,
    /// A byte is being looked for among all 256 values.
    Guessing,
    /// Every byte is known.
    Solved,
    /// The search was given up.
    Failed,
}

/// The candidates for a padding length in a block of `size` bytes: 1, 2, ...,
/// `size`.
pub open spec fn pad_lengths(size: int) -> Seq<u8> {
    Seq::new(size as nat, |i: int| (i + 1) as u8)
}

/// The search of one block as a value.
///
/// The positions below `unsolved` are still unknown; the search works on the
/// last of them. While a question is with the oracle, `order[next]` is the
/// candidate under test.
pub struct Search {
    /// The block under search.
    pub blk: Seq<u8>,
    /// The block before it in the chain.
    pub iv: Seq<u8>,
    /// Whether the block holds the message's padding.
    pub last: bool,
    /// The number of the block among those to recover.
    pub block: usize,
    /// The intermediate block as far as it is known, zero elsewhere.
    pub inter: Seq<u8>,
    /// The plaintext as far as it is known, zero elsewhere.
    pub plain: Seq<u8>,
    pub phase: Phase,
    /// How many positions, from the block's start, are still unknown.
    pub unsolved: int,
    /// The candidates for the position under search, in the order of trial.
    pub order: Seq<u8>,
    /// Where in `order` the candidate under test stands.
    pub next: int,
}

impl Search {
    /// The block size.
    pub open spec fn size(self) -> int {
        self.blk.len() as int
    }

    /// The position that the search works on.
    pub open spec fn pos(self) -> int {
        self.unsolved - 1
    }

    /// The padding byte that the forged block aims at.
    pub open spec fn pad(self) -> u8 {
        (self.size() - self.pos()) as u8
    }

    /// The candidate under test.
    pub open spec fn candidate(self) -> u8 {
        self.order[self.next]
    }

    /// A question is with the oracle.
    pub open spec fn searching(self) -> bool {
        self.phase is Padding || self.phase is Guessing
    }

    /// The forged predecessor that puts the candidate to the test: zero below
    /// the position, the candidate's guess at it, and behind it the known
    /// bytes turned into padding.
    pub open spec fn forged(self) -> Seq<u8> {
        Seq::new(
            self.size() as nat,
            |j: int|
                if j < self.pos() {
                    0u8
                } else if j == self.pos() {
                    self.candidate() ^ (self.pad() ^ self.iv[j])
                } else {
                    self.pad() ^ self.inter[j]
                },
        )
    }

    /// What is submitted to the oracle: the forged predecessor, then the block.
    pub open spec fn payload(self) -> Seq<u8> {
        self.forged() + self.blk
    }

    /// The search of a block before anything is asked.
    pub open spec fn initial(blk: Seq<u8>, iv: Seq<u8>, block: usize, last: bool) -> Search {
        Search {
            blk,
            iv,
            last,
            block,
            inter: Seq::new(blk.len(), |j: int| 0u8),
            plain: Seq::new(blk.len(), |j: int| 0u8),
            phase: Phase::Idle,
            unsolved: blk.len() as int,
            order: Seq::empty(),
            next: 0,
        }
    }

    /// What holds of every search: the sizes agree, a candidate is at hand
    /// while the oracle is asked, every known plaintext byte is the
    /// intermediate byte chained with the preceding block, and the unknown
    /// bytes are zero.
    pub open spec fn inv(self) -> bool {
        &&& 1 <= self.size() <= 255
        &&& self.iv.len() >= self.size()
        &&& self.inter.len() == self.size()
        &&& self.plain.len() == self.size()
        &&& 0 <= self.unsolved <= self.size()
        &&& self.phase is Idle ==> self.unsolved == self.size()
        &&& self.phase is Solved <==> self.unsolved == 0
        &&& self.phase is Padding ==> self.last && self.unsolved == self.size() && self.order
            == pad_lengths(self.size())
        &&& self.phase is Guessing ==> self.order.len() == 256
        &&& self.searching() ==> 0 <= self.next < self.order.len()
        &&& forall|j: int|
            self.unsolved <= j < self.size() ==> #[trigger] self.plain[j] == self.inter[j]
                ^ self.iv[j]
        &&& forall|j: int|
            0 <= j < self.unsolved ==> #[trigger] self.inter[j] == 0 && self.plain[j] == 0
    }

    /// Every plaintext byte is the intermediate byte chained with the byte
    /// at its position in the preceding block.
    pub open spec fn chained(self) -> bool {
        forall|j: int|
            0 <= j < self.size() ==> #[trigger] self.plain[j] == self.inter[j] ^ self.iv[j]
    }

    /// The number of unknown positions once the candidate is accepted: one
    /// fewer, or, for a padding length, the block without its padding.
    pub open spec fn accepted_unsolved(self) -> int {
        if self.phase is Padding {
            self.size() - self.candidate()
        } else {
            self.unsolved - 1
        }
    }

    /// The intermediate block once the candidate is accepted.
    pub open spec fn accepted_inter(self) -> Seq<u8> {
        Seq::new(
            self.size() as nat,
            |j: int|
                if self.accepted_unsolved() <= j < self.unsolved {
                    self.candidate() ^ self.iv[j]
                } else {
                    self.inter[j]
                },
        )
    }

    /// The plaintext once the candidate is accepted.
    pub open spec fn accepted_plain(self) -> Seq<u8> {
        Seq::new(
            self.size() as nat,
            |j: int|
                if self.accepted_unsolved() <= j < self.unsolved {
                    self.candidate()
                } else {
                    self.plain[j]
                },
        )
    }

    /// The reports of a byte found by guessing: the intermediate block, then
    /// the plaintext, as they stand with the byte in them. A padding length
    /// is found without a report.
    pub open spec fn accepted_events(self) -> Seq<Event> {
        if self.phase is Guessing {
            seq![
                Event::Intermediate(
                    Update {
                        block: self.accepted_inter(),
                        index: self.pos() as u8,
                        block_index: self.block,
                    },
                ),
                Event::Plain(
                    Update {
                        block: self.accepted_plain(),
                        index: self.pos() as u8,
                        block_index: self.block,
                    },
                ),
            ]
        } else {
            Seq::empty()
        }
    }

    /// The same block in the same place of the message.
    pub open spec fn same_block(self, after: Search) -> bool {
        &&& after.blk == self.blk
        &&& after.iv == self.iv
        &&& after.last == self.last
        &&& after.block == self.block
    }

    /// The search once the candidate is accepted: over where every position
    /// is known, else at the first candidate of `order` for the position
    /// before.
    pub open spec fn accepted(self, order: Seq<u8>) -> Search {
        Search {
            inter: self.accepted_inter(),
            plain: self.accepted_plain(),
            unsolved: self.accepted_unsolved(),
            phase: if self.accepted_unsolved() == 0 {
                Phase::Solved
            } else {
                Phase::Guessing
            },
            order: if self.accepted_unsolved() == 0 {
                self.order
            } else {
                order
            },
            next: if self.accepted_unsolved() == 0 {
                self.next
            } else {
                0
            },
            ..self
        }
    }

    /// The step that `start` takes from `self` to `after`: the last block of
    /// a message begins with its padding length, any other with its last
    /// byte, tried in the order that `scores` gives.
    pub open spec fn started(self, after: Search, scores: PrioQueue, step: Step) -> bool {
        &&& self.same_block(after)
        &&& after.inter == self.inter
        &&& after.plain == self.plain
        &&& after.unsolved == self.unsolved
        &&& after.next == 0
        &&& if self.last {
            after.phase is Padding && after.order == pad_lengths(self.size())
        } else {
            after.phase is Guessing && scores.ordered(after.order)
        }
        &&& step.reports() == seq![after.payload_event()]
        &&& step.asks(after.payload())
    }

    /// The step that `answer` takes from `self` to `after` on `reply`.
    ///
    /// A broken oracle ends the search. A refusal moves on to the next
    /// candidate, or ends the search when there is none. An acceptance makes
    /// the candidate known, rewards it if it was guessed, and moves on to the
    /// position before, tried in the order that the scores then give, or ends
    /// the search when every position is known.
    pub open spec fn answered(
        self,
        after: Search,
        scores: PrioQueue,
        scores_after: PrioQueue,
        reply: Result<bool, oracle::Error>,
        step: Step,
    ) -> bool {
        &&& self.same_block(after)
        &&& match reply {
            Err(source) => {
                &&& after == Search { phase: Phase::Failed, ..self }
                &&& scores.same_scores(&scores_after)
                &&& step.reports() == Seq::<Event>::empty()
                &&& step.fails(Error::Oracle { source })
            },
            Ok(false) => {
                &&& scores.same_scores(&scores_after)
                &&& if self.next + 1 < self.order.len() {
                    &&& after == Search { next: self.next + 1, ..self }
                    &&& step.reports() == seq![after.payload_event()]
                    &&& step.asks(after.payload())
                } else {
                    &&& after == Search { phase: Phase::Failed, ..self }
                    &&& step.reports() == Seq::<Event>::empty()
                    &&& step.fails(Error::Tries)
                }
            },
            Ok(true) => {
                &&& after == self.accepted(after.order)
                &&& if self.phase is Guessing {
                    scores.rewarded(&scores_after, self.candidate())
                } else {
                    scores.same_scores(&scores_after)
                }
                &&& if after.unsolved == 0 {
                    &&& step.reports() == self.accepted_events()
                    &&& step.recovers(after.inter, after.plain)
                } else {
                    &&& scores_after.ordered(after.order)
                    &&& step.reports() == self.accepted_events().push(after.payload_event())
                    &&& step.asks(after.payload())
                }
            },
        }
    }

    /// The report that goes with a question to the oracle.
    pub open spec fn payload_event(self) -> Event {
        Event::Payload(
            Update { block: self.forged(), index: self.pos() as u8, block_index: self.block },
        )
    }
}

/// What the driver of a search does next.
pub enum Next {
    /// Submit these bytes to the oracle and come back with its answer.
    Query(Vec<u8>),
    /// The search is over.
    Done(Result<Dec, Error>),
}

/// The outcome of one step of a search: the reports to pass on, in order, and
/// what to do then.
pub struct Step {
    pub events: Vec<Messages>,
    pub next: Next,
}

impl Step {
    /// The step asks the oracle about `payload`.
    pub open spec fn asks(&self, payload: Seq<u8>) -> bool {
        self.next matches Next::Query(v) && v@ == payload
    }

    /// The step ends the search with the block recovered.
    pub open spec fn recovers(&self, intermediate: Seq<u8>, plain: Seq<u8>) -> bool {
        self.next matches Next::Done(Ok(dec)) && dec.intermediate@ == intermediate && dec.plain@
            == plain
    }

    /// The step ends the search with `error`.
    pub open spec fn fails(&self, error: Error) -> bool {
        self.next matches Next::Done(Err(e)) && e == error
    }

    /// The step's reports as values.
    pub open spec fn reports(&self) -> Seq<Event> {
        crate::msg::events(self.events@)
    }
}

/// Accepting a candidate keeps a search in order, and a search that it ends
/// has every plaintext byte chained.
pub(crate) proof fn lemma_accepted(s: Search, order: Seq<u8>)
    requires
        s.inv(),
        s.searching(),
        order.len() == 256 || s.accepted_unsolved() == 0,
    ensures
        0 <= s.accepted_unsolved() < s.unsolved,
        s.accepted(order).inv(),
        s.accepted_unsolved() == 0 ==> s.accepted(order).chained(),
{
    let a = s.accepted(order);
    if s.phase is Padding {
        assert(s.candidate() == s.next + 1);
    }
    assert(0 <= s.accepted_unsolved() < s.unsolved);
    assert forall|j: int| a.unsolved <= j < a.size() implies #[trigger] a.plain[j] == a.inter[j]
        ^ a.iv[j] by {
        if j < s.unsolved {
            lemma_xor_cancel(s.candidate(), s.iv[j]);
        } else {
            assert(s.plain[j] == s.inter[j] ^ s.iv[j]);
        }
    }
    assert forall|j: int| 0 <= j < a.unsolved implies #[trigger] a.inter[j] == 0 && a.plain[j]
        == 0 by {
        assert(s.inter[j] == 0 && s.plain[j] == 0);
    }
}

pub(crate) proof fn lemma_xor_cancel(c: u8, v: u8)
    ensures
        (c ^ v) ^ v == c,
{
    assert((c ^ v) ^ v == c) by (bit_vector);
}

} // verus!
