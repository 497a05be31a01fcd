use vstd::prelude::*;
use crate::crypt::search::{lemma_accepted, pad_lengths, Next, Phase, Search, Step};
use crate::crypt::{copy_bytes, zeros, Dec, Error};
use crate::msg::{inter, plain, pyld, Event, Messages};
use crate::oracle;
use crate::prio::PrioQueue;

verus! {

/// The search of one block, driven by the oracle's answers.
pub struct BlockDecypt {
    b_pyld: Vec<u8>,
    b_inter: Vec<u8>,
    b_plain: Vec<u8>,
    iv: Vec<u8>,
    last: bool,
    block: usize,
    blksz: u8,
    phase: Phase,
    unsolved: u8,
    order: Vec<u8>,
    next: usize,
}

impl View for BlockDecypt {
    type V = Search;

    closed spec fn view(&self) -> Search {
        Search {
            blk: self.b_pyld@.subrange(self.blksz as int, self.b_pyld@.len() as int),
            iv: self.iv@,
            last: self.last,
            block: self.block,
            inter: self.b_inter@,
            plain: self.b_plain@,
            phase: self.phase,
            unsolved: self.unsolved as int,
            order: self.order@,
            next: self.next as int,
        }
    }
}

impl BlockDecypt {
    /// The fields agree with each other and with the search they stand for.
    pub closed spec fn wf(&self) -> bool {
        &&& self.shaped()
        &&& self@.searching() ==> self.b_pyld@ == self@.payload()
    }

    /// The buffers have the block's size, and the forged block is zero
    /// before the position that the search works on.
    spec fn shaped(&self) -> bool {
        &&& self@.inv()
        &&& self.blksz as int == self@.size()
        &&& self.b_pyld@.len() == 2 * self.blksz
        &&& forall|j: int| 0 <= j < self.unsolved - 1 ==> #[trigger] self.b_pyld@[j] == 0
    }

    /// A well-formed search satisfies the invariant of searches.
    pub proof fn lemma_wf_inv(&self)
        requires
            self.wf(),
        ensures
            self@.inv(),
    {
    }

    /// Sets up the search of block `blk`, which follows `iv` in the message,
    /// as block number `block`; `last` says whether it ends the message.
    ///
    /// A block of more than 255 bytes or of none is refused, and so is a
    /// predecessor shorter than the block.
    pub fn new(blk: &[u8], iv: &[u8], block: usize, last: bool) -> (res: Result<Self, Error>)
        ensures
            match res {
                Ok(m) => {
                    &&& 1 <= blk@.len() <= 255
                    &&& blk@.len() <= iv@.len()
                    &&& m.wf()
                    &&& m@ == Search::initial(blk@, iv@, block, last)
                },
                Err(e) => {
                    &&& e matches Error::Input { reason }
                    &&& reason@ == if blk@.len() > 255 {
                        "blocksize must be below 256"@
                    } else if blk@.len() == 0 {
                        "blocksize must be above 0"@
                    } else {
                        "preceding block is shorter than the block"@
                    }
                    &&& blk@.len() > 255 || blk@.len() == 0 || iv@.len() < blk@.len()
                },
            },
    {
        if blk.len() > 255 {
            return Err(Error::Input { reason: "blocksize must be below 256".to_owned() });
        }
        if blk.len() == 0 {
            return Err(Error::Input { reason: "blocksize must be above 0".to_owned() });
        }
        if iv.len() < blk.len() {
            return Err(
                Error::Input { reason: "preceding block is shorter than the block".to_owned() },
            );
        }
        let blksz: usize = blk.len();
        let mut b_pyld: Vec<u8> = zeros(blksz);
        let mut i: usize = 0;
        while i < blksz
            invariant
                i <= blksz,
                blksz == blk@.len(),
                b_pyld@.len() == blksz + i,
                forall|j: int| 0 <= j < blksz ==> b_pyld@[j] == 0,
                b_pyld@.subrange(blksz as int, blksz + i) == blk@.subrange(0, i as int),
            decreases blksz - i,
        {
            b_pyld.push(blk[i]);
            proof {
                assert(b_pyld@.subrange(blksz as int, blksz + i + 1) =~= blk@.subrange(0, i + 1));
            }
            i += 1;
        }
        proof {
            assert(blk@.subrange(0, blksz as int) =~= blk@);
        }
        let m = BlockDecypt {
            b_pyld,
            b_inter: zeros(blksz),
            b_plain: zeros(blksz),
            iv: copy_bytes(iv),
            last,
            block,
            blksz: blksz as u8,
            phase: Phase::Idle,
            unsolved: blksz as u8,
            order: Vec::new(),
            next: 0,
        };
        proof {
            assert(m@.order =~= Seq::<u8>::empty());
            assert(m@ == Search::initial(blk@, iv@, block, last));
        }
        Ok(m)
    }
}

/// Writes into the first `size` bytes of `pyld` the forged predecessor that
/// tests `cand` at position `pos`.
fn forge(pyld: &mut Vec<u8>, known: &Vec<u8>, iv: &Vec<u8>, size: usize, pos: usize, cand: u8)
    requires
        1 <= size <= 255,
        pos < size,
        old(pyld)@.len() == 2 * size,
        known@.len() == size,
        iv@.len() >= size,
        forall|j: int| 0 <= j < pos ==> #[trigger] old(pyld)@[j] == 0,
    ensures
        final(pyld)@.len() == 2 * size,
        forall|j: int| size <= j < 2 * size ==> #[trigger] final(pyld)@[j] == old(pyld)@[j],
        forall|j: int| 0 <= j < pos ==> #[trigger] final(pyld)@[j] == 0,
        final(pyld)@[pos as int] == cand ^ (((size - pos) as u8) ^ iv@[pos as int]),
        forall|j: int|
            pos < j < size ==> #[trigger] final(pyld)@[j] == ((size - pos) as u8) ^ known@[j],
{
    let pad: u8 = (size - pos) as u8;
    let mut j: usize = pos + 1;
    while j < size
        invariant
            pos < j <= size,
            size <= 255,
            pyld@.len() == 2 * size,
            known@.len() == size,
            pad == (size - pos) as u8,
            forall|k: int| size <= k < 2 * size ==> #[trigger] pyld@[k] == old(pyld)@[k],
            forall|k: int| 0 <= k < pos ==> #[trigger] pyld@[k] == 0,
            forall|k: int| pos < k < j ==> #[trigger] pyld@[k] == pad ^ known@[k],
        decreases size - j,
    {
        pyld[j] = pad ^ known[j];
        j += 1;
    }
    pyld[pos] = cand ^ (pad ^ iv[pos]);
}

/// Makes `known[j]` the intermediate byte and `plain[j]` the plaintext byte
/// `value` at each position from `from` up to `to`.
fn settle(
    known: &mut Vec<u8>,
    plain: &mut Vec<u8>,
    iv: &Vec<u8>,
    from: usize,
    to: usize,
    value: u8,
)
    requires
        from <= to <= old(known)@.len(),
        old(plain)@.len() == old(known)@.len(),
        iv@.len() >= old(known)@.len(),
    ensures
        final(known)@.len() == old(known)@.len(),
        final(plain)@.len() == old(plain)@.len(),
        forall|j: int|
            0 <= j < old(known)@.len() ==> #[trigger] final(known)@[j] == if from <= j < to {
                value ^ iv@[j]
            } else {
                old(known)@[j]
            },
        forall|j: int|
            0 <= j < old(plain)@.len() ==> #[trigger] final(plain)@[j] == if from <= j < to {
                value
            } else {
                old(plain)@[j]
            },
{
    let mut j: usize = from;
    while j < to
        invariant
            from <= j <= to,
            to <= known@.len(),
            known@.len() == old(known)@.len(),
            plain@.len() == known@.len(),
            plain@.len() == old(plain)@.len(),
            iv@.len() >= known@.len(),
            forall|k: int|
                0 <= k < known@.len() ==> #[trigger] known@[k] == if from <= k < j {
                    value ^ iv@[k]
                } else {
                    old(known)@[k]
                },
            forall|k: int|
                0 <= k < plain@.len() ==> #[trigger] plain@[k] == if from <= k < j {
                    value
                } else {
                    old(plain)@[k]
                },
        decreases to - j,
    {
        known[j] = value ^ iv[j];
        plain[j] = value;
        j += 1;
    }
}

/// The padding lengths of a block of `size` bytes, in the order of trial.
fn count_up(size: u8) -> (out: Vec<u8>)
    ensures
        out@ == pad_lengths(size as int),
{
    let mut out: Vec<u8> = Vec::new();
    let mut i: u8 = 0;
    while i < size
        invariant
            i <= size,
            out@ == pad_lengths(i as int),
        decreases size - i,
    {
        out.push(i + 1);
        proof {
            assert(out@ =~= pad_lengths(i + 1));
        }
        i += 1;
    }
    out
}

impl BlockDecypt {
    /// Puts the candidate at hand into the forged block and asks the oracle,
    /// after the reports in `events`.
    fn ask(&mut self, events: Vec<Messages>) -> (step: Step)
        requires
            old(self).shaped(),
            old(self)@.searching(),
        ensures
            final(self).wf(),
            final(self)@ == old(self)@,
            step.reports() == crate::msg::events(events@).push(old(self)@.payload_event()),
            step.asks(old(self)@.payload()),
    {
        let size: usize = self.blksz as usize;
        let pos: usize = (self.unsolved - 1) as usize;
        let cand: u8 = self.order[self.next];
        let ghost blk = self@.blk;
        forge(&mut self.b_pyld, &self.b_inter, &self.iv, size, pos, cand);
        proof {
            assert(self@.blk =~= blk);
            assert(self@ == old(self)@);
            assert(self.b_pyld@ =~= self@.payload());
        }
        let lower: Vec<u8> = copy_bytes(
            vstd::slice::slice_subrange(self.b_pyld.as_slice(), 0, size),
        );
        let payload: Vec<u8> = copy_bytes(self.b_pyld.as_slice());
        let mut events = events;
        let ghost before = events@;
        proof {
            assert(lower@ =~= self@.forged());
        }
        events.push(pyld(lower, pos as u8, self.block));
        proof {
            assert(crate::msg::events(events@) =~= crate::msg::events(before).push(
                self@.payload_event(),
            ));
        }
        Step { events, next: Next::Query(payload) }
    }

    /// Begins the search: the step holds the first question to the oracle.
    pub fn start(&mut self, chars: &PrioQueue) -> (step: Step)
        requires
            old(self).wf(),
            old(self)@.phase is Idle,
        ensures
            final(self).wf(),
            old(self)@.started(final(self)@, *chars, step),
    {
        if self.last {
            self.order = count_up(self.blksz);
            self.phase = Phase::Padding;
        } else {
            self.order = chars.iter();
            self.phase = Phase::Guessing;
        }
        self.next = 0;
        let events: Vec<Messages> = Vec::new();
        proof {
            assert(crate::msg::events(events@) =~= Seq::<Event>::empty());
        }
        let step = self.ask(events);
        proof {
            assert(step.reports() =~= seq![self@.payload_event()]);
        }
        step
    }

    /// The candidate at hand was refused: goes on to the next one, or gives
    /// the search up where there is none.
    fn refuse(&mut self) -> (step: Step)
        requires
            old(self).wf(),
            old(self)@.searching(),
        ensures
            final(self).wf(),
            if old(self)@.next + 1 < old(self)@.order.len() {
                &&& final(self)@ == Search { next: old(self)@.next + 1, ..old(self)@ }
                &&& step.reports() == seq![final(self)@.payload_event()]
                &&& step.asks(final(self)@.payload())
            } else {
                &&& final(self)@ == Search { phase: Phase::Failed, ..old(self)@ }
                &&& step.reports() == Seq::<Event>::empty()
                &&& step.fails(Error::Tries)
            },
    {
        let events: Vec<Messages> = Vec::new();
        proof {
            assert(crate::msg::events(events@) =~= Seq::<Event>::empty());
        }
        if self.next + 1 < self.order.len() {
            self.next = self.next + 1;
            let step = self.ask(events);
            proof {
                assert(step.reports() =~= seq![self@.payload_event()]);
            }
            step
        } else {
            self.phase = Phase::Failed;
            Step { events, next: Next::Done(Err(Error::Tries)) }
        }
    }

    /// The candidate at hand was accepted: makes it known, with the padding
    /// behind it where it is a padding length, rewards it where it was
    /// guessed, and turns to the position before, if there is one.
    fn settle_candidate(&mut self, chars: &mut PrioQueue) -> (events: Vec<Messages>)
        requires
            old(self).wf(),
            old(self)@.searching(),
        ensures
            final(self).shaped(),
            final(self)@ == old(self)@.accepted(final(self)@.order),
            final(self)@.unsolved > 0 ==> final(chars).ordered(final(self)@.order),
            if old(self)@.phase is Guessing {
                old(chars).rewarded(final(chars), old(self)@.candidate())
            } else {
                old(chars).same_scores(final(chars))
            },
            crate::msg::events(events@) == old(self)@.accepted_events(),
    {
        let ghost pre = self@;
        let size: usize = self.blksz as usize;
        let found: u8 = self.order[self.next];
        let pos: u8 = self.unsolved - 1;
        let mut events: Vec<Messages> = Vec::new();
        proof {
            assert(pre.inv());
        }
        match self.phase {
            Phase::Padding => {
                proof {
                    assert(found == self.next + 1);
                }
                let rest: usize = size - found as usize;
                settle(&mut self.b_inter, &mut self.b_plain, &self.iv, rest, size, found);
                self.unsolved = rest as u8;
            },
            _ => {
                settle(
                    &mut self.b_inter,
                    &mut self.b_plain,
                    &self.iv,
                    pos as usize,
                    pos as usize + 1,
                    found,
                );
                self.unsolved = pos;
                chars.hit(found);
                events.push(inter(copy_bytes(self.b_inter.as_slice()), pos, self.block));
                events.push(plain(copy_bytes(self.b_plain.as_slice()), pos, self.block));
            },
        }
        proof {
            assert(self@.inter =~= pre.accepted_inter());
            assert(self@.plain =~= pre.accepted_plain());
            assert(self@.unsolved == pre.accepted_unsolved());
            assert(crate::msg::events(events@) =~= pre.accepted_events());
        }
        if self.unsolved == 0 {
            self.phase = Phase::Solved;
        } else {
            self.order = chars.iter();
            self.next = 0;
            self.phase = Phase::Guessing;
        }
        proof {
            lemma_accepted(pre, self@.order);
            assert(self@ == pre.accepted(self@.order));
        }
        events
    }

    /// Takes the oracle's reply to the question that is with it, and says
    /// what to do next.
    ///
    /// When the step recovers the block, every plaintext byte is the
    /// intermediate byte chained with the byte before it in the message.
    pub fn answer(&mut self, chars: &mut PrioQueue, reply: Result<bool, oracle::Error>) -> (step:
        Step)
        requires
            old(self).wf(),
            old(self)@.searching(),
        ensures
            final(self).wf(),
            old(self)@.answered(final(self)@, *old(chars), *final(chars), reply, step),
            final(self)@.phase is Solved ==> final(self)@.chained(),
    {
        match reply {
            Err(source) => {
                self.phase = Phase::Failed;
                let events: Vec<Messages> = Vec::new();
                proof {
                    assert(crate::msg::events(events@) =~= Seq::<Event>::empty());
                }
                Step { events, next: Next::Done(Err(Error::Oracle { source })) }
            },
            Ok(false) => self.refuse(),
            Ok(true) => {
                let ghost pre = self@;
                let events = self.settle_candidate(chars);
                proof {
                    lemma_accepted(pre, self@.order);
                }
                if self.unsolved == 0 {
                    let dec = Dec::new(
                        copy_bytes(self.b_inter.as_slice()),
                        copy_bytes(self.b_plain.as_slice()),
                    );
                    Step { events, next: Next::Done(Ok(dec)) }
                } else {
                    self.ask(events)
                }
            },
        }
    }
}

} // verus!
