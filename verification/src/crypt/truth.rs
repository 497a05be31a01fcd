use vstd::prelude::*;
use crate::crypt::search::{lemma_accepted, Search, Step};
use crate::oracle;
use crate::prio::PrioQueue;

verus! {

/// Two blocks chained byte by byte.
pub open spec fn chained_with(a: Seq<u8>, b: Seq<u8>) -> Seq<u8> {
    Seq::new(a.len(), |j: int| a[j] ^ b[j])
}

/// A block that ends in a valid padding: its last byte is a length from 1
/// to the block's own, and that many bytes at its end hold that length.
pub open spec fn padded(plain: Seq<u8>) -> bool {
    &&& plain.len() >= 1
    &&& 1 <= plain.last() <= plain.len()
    &&& forall|j: int| plain.len() - plain.last() <= j < plain.len() ==> plain[j] == plain.last()
}

/// What an oracle that tells the truth answers when the block under search
/// has the intermediate block `secret` and is preceded by `forged`.
pub open spec fn truthful(secret: Seq<u8>, forged: Seq<u8>) -> bool {
    padded(chained_with(secret, forged))
}

impl Search {
    /// The bytes that the search holds as known are those of `secret`.
    pub open spec fn agrees(self, secret: Seq<u8>) -> bool {
        &&& secret.len() == self.size()
        &&& forall|j: int|
            self.unsolved <= j < self.size() ==> #[trigger] self.inter[j] == secret[j]
    }

    /// The forged block that tests the candidate turns the block under
    /// search into one whose padding is the one aimed at, and no longer one
    /// that the unknown bytes happen to complete.
    pub open spec fn hits_aim(self, secret: Seq<u8>) -> bool {
        chained_with(secret, self.forged()).last() == self.pad()
    }
}

proof fn lemma_xor_solve(s: u8, c: u8, p: u8, v: u8)
    requires
        s ^ (c ^ (p ^ v)) == p,
    ensures
        s == c ^ v,
{
    assert(s ^ (c ^ (p ^ v)) == p ==> s == c ^ v) by (bit_vector);
}

proof fn lemma_xor_aim(s: u8, p: u8)
    ensures
        s ^ (p ^ s) == p,
        (p ^ s) ^ s == p,
        s ^ 0 == s,
{
    assert(s ^ (p ^ s) == p) by (bit_vector);
    assert((p ^ s) ^ s == p) by (bit_vector);
    assert(s ^ 0 == s) by (bit_vector);
}

/// The bytes behind the position under search, once forged, decrypt to the
/// padding aimed at, as far as the known bytes are right.
proof fn lemma_forged_tail(s: Search, secret: Seq<u8>)
    requires
        s.inv(),
        s.searching(),
        s.agrees(secret),
    ensures
        forall|j: int|
            s.unsolved <= j < s.size() ==> #[trigger] chained_with(secret, s.forged())[j]
                == s.pad(),
{
    assert forall|j: int| s.unsolved <= j < s.size() implies #[trigger] chained_with(
        secret,
        s.forged(),
    )[j] == s.pad() by {
        assert(s.inter[j] == secret[j]);
        lemma_xor_aim(secret[j], s.pad());
    }
}

/// Against an oracle that tells the truth, an accepted candidate is right.
///
/// Let the block under search have the intermediate block `secret`, let the
/// bytes known so far be those of `secret`, and let the oracle accept the
/// candidate because the forged block gives a valid padding. Then the bytes
/// known after the step are those of `secret` again, so that a search that
/// ends has recovered `secret`. Left out are the answers on which this
/// fails: the unknown bytes before the last may happen to complete a longer
/// padding than the single byte aimed at; and a padding length is right
/// only where the message does end in a padding.
pub proof fn lemma_truthful_accept(s: Search, secret: Seq<u8>)
    requires
        s.inv(),
        s.searching(),
        s.agrees(secret),
        truthful(secret, s.forged()),
        s.pad() == 1 ==> s.hits_aim(secret),
        s.phase is Padding ==> padded(chained_with(secret, s.iv)),
    ensures
        forall|j: int|
            s.accepted_unsolved() <= j < s.size() ==> #[trigger] s.accepted_inter()[j]
                == secret[j],
        s.accepted_unsolved() == 0 ==> s.accepted_inter() == secret && s.accepted_plain()
            == chained_with(secret, s.iv),
{
    let d = chained_with(secret, s.forged());
    let pos = s.pos();
    let size = s.size();
    lemma_forged_tail(s, secret);
    if pos < size - 1 {
        assert(d[size - 1] == s.pad());
        assert(d.last() == s.pad());
    }
    assert(d.last() == s.pad());
    assert(d[pos] == s.pad());
    assert(d[pos] == secret[pos] ^ (s.candidate() ^ (s.pad() ^ s.iv[pos])));
    lemma_xor_solve(secret[pos], s.candidate(), s.pad(), s.iv[pos]);
    assert(secret[pos] == s.candidate() ^ s.iv[pos]);
    if s.phase is Padding {
        let truth = chained_with(secret, s.iv);
        lemma_xor_aim(s.iv[pos], s.candidate());
        assert(truth[pos] == s.candidate());
        assert(truth.last() == s.candidate());
        assert forall|j: int|
            s.accepted_unsolved() <= j < size implies #[trigger] s.accepted_inter()[j]
            == secret[j] by {
            assert(truth[j] == s.candidate());
            assert(secret[j] ^ s.iv[j] == s.candidate());
            lemma_xor_zero(secret[j], s.candidate(), s.iv[j]);
            lemma_xor_solve(secret[j], s.candidate(), 0, s.iv[j]);
        }
    }
    if s.accepted_unsolved() == 0 {
        assert(s.accepted_inter() =~= secret);
        assert forall|j: int| 0 <= j < size implies s.accepted_plain()[j] == chained_with(
            secret,
            s.iv,
        )[j] by {
            if s.unsolved <= j {
                assert(s.plain[j] == s.inter[j] ^ s.iv[j]);
                assert(s.inter[j] == secret[j]);
            } else {
                lemma_xor_aim(s.iv[j], s.candidate());
            }
        }
        assert(s.accepted_plain() =~= chained_with(secret, s.iv));
    }
}

/// Against an oracle that tells the truth, every step of a search keeps the
/// known bytes right, and a search that ends well has recovered the block.
///
/// Let the block under search have the intermediate block `secret`, and let
/// the bytes known before the step be those of `secret`. Let the reply, where
/// it accepts the candidate, be the truth about the forged block, under the
/// two conditions of `lemma_truthful_accept`. Then the bytes known after the
/// step that `answer` takes are those of `secret`; and where the step ends
/// the search with every position known, the intermediate block is `secret`
/// and the plaintext is `secret` chained with the preceding block.
pub proof fn lemma_truthful_step(
    s: Search,
    after: Search,
    scores: PrioQueue,
    scores_after: PrioQueue,
    reply: Result<bool, oracle::Error>,
    step: Step,
    secret: Seq<u8>,
)
    requires
        s.inv(),
        s.searching(),
        s.agrees(secret),
        s.answered(after, scores, scores_after, reply, step),
        reply == Ok::<bool, oracle::Error>(true) ==> {
            &&& truthful(secret, s.forged())
            &&& s.pad() == 1 ==> s.hits_aim(secret)
            &&& s.phase is Padding ==> padded(chained_with(secret, s.iv))
        },
    ensures
        after.agrees(secret),
        after.phase is Solved ==> after.inter == secret && after.plain == chained_with(
            secret,
            after.iv,
        ),
{
    match reply {
        Ok(true) => {
            lemma_truthful_accept(s, secret);
            lemma_accepted(s, after.order);
        },
        _ => {},
    }
}

/// A search that has not begun knows no byte, so that what it knows is right
/// whatever the block holds; and the first step leaves it so.
pub proof fn lemma_truthful_start(
    s: Search,
    after: Search,
    scores: PrioQueue,
    step: Step,
    secret: Seq<u8>,
)
    requires
        s.inv(),
        s.phase is Idle,
        s.started(after, scores, step),
        secret.len() == s.size(),
    ensures
        s.agrees(secret),
        after.agrees(secret),
{
}

/// Against an oracle that tells the truth, the right candidate is accepted:
/// where the bytes known so far are those of `secret` and the candidate is
/// the plaintext byte at the position under search, the forged block gives
/// a valid padding.
pub proof fn lemma_truthful_right(s: Search, secret: Seq<u8>)
    requires
        s.inv(),
        s.searching(),
        s.agrees(secret),
        s.candidate() == secret[s.pos()] ^ s.iv[s.pos()],
    ensures
        truthful(secret, s.forged()),
{
    let d = chained_with(secret, s.forged());
    let pos = s.pos();
    lemma_forged_tail(s, secret);
    assert(d[pos] == secret[pos] ^ ((secret[pos] ^ s.iv[pos]) ^ (s.pad() ^ s.iv[pos])));
    assert(d[pos] == s.pad()) by {
        lemma_xor_right(secret[pos], s.iv[pos], s.pad());
    }
    assert(d.last() == s.pad());
    assert forall|j: int| d.len() - d.last() <= j < d.len() implies d[j] == d.last() by {
        if j > pos {
            assert(d[j] == s.pad());
        }
    }
}

/// Against an oracle that tells the truth, a search does not run out of
/// candidates before it has tried the right one.
///
/// Let the bytes known so far be those of `secret`, let the plaintext byte
/// at the position under search be among the candidates, as every byte is
/// among those that the scores give, and let it not be among those tried
/// before. If the oracle refuses the candidate at hand because the forged
/// block gives no valid padding, another candidate is left.
pub proof fn lemma_truthful_refuse(s: Search, secret: Seq<u8>)
    requires
        s.inv(),
        s.searching(),
        s.agrees(secret),
        s.order.contains(secret[s.pos()] ^ s.iv[s.pos()]),
        forall|i: int| 0 <= i < s.next ==> s.order[i] != secret[s.pos()] ^ s.iv[s.pos()],
        !truthful(secret, s.forged()),
    ensures
        s.next + 1 < s.order.len(),
{
    let right = secret[s.pos()] ^ s.iv[s.pos()];
    let r = choose|r: int| 0 <= r < s.order.len() && s.order[r] == right;
    if r == s.next {
        lemma_truthful_right(s, secret);
    }
}

/// Against a preceding block of zeros, as stands in for the initialisation
/// vector that a message does not bring, a recovered plaintext is the
/// intermediate block itself.
pub proof fn lemma_zero_chain(s: Search)
    requires
        s.inv(),
        s.chained(),
        forall|j: int| 0 <= j < s.size() ==> #[trigger] s.iv[j] == 0,
    ensures
        s.plain == s.inter,
{
    assert forall|j: int| 0 <= j < s.size() implies s.plain[j] == s.inter[j] by {
        assert(s.plain[j] == s.inter[j] ^ s.iv[j]);
        lemma_xor_aim(s.inter[j], 0);
    }
    assert(s.plain =~= s.inter);
}

proof fn lemma_xor_zero(s: u8, c: u8, v: u8)
    requires
        s ^ v == c,
    ensures
        s ^ (c ^ (0 ^ v)) == 0,
{
    assert(s ^ v == c ==> s ^ (c ^ (0 ^ v)) == 0) by (bit_vector);
}

proof fn lemma_xor_right(s: u8, v: u8, p: u8)
    ensures
        s ^ ((s ^ v) ^ (p ^ v)) == p,
{
    assert(s ^ ((s ^ v) ^ (p ^ v)) == p) by (bit_vector);
}

} // verus!
