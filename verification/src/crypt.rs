use vstd::prelude::*;
use crate::oracle;

pub mod search;
pub mod block;
pub mod truth;
pub mod engine;

pub use self::block::BlockDecypt;
pub use self::engine::{jobs, Job};
pub use self::search::{Next, Phase, Search, Step};

verus! {

/// Why a block could not be recovered.
#[derive(Debug)]
pub enum Error {
    /// The conversation with the oracle broke down.
    Oracle { source: oracle::Error },
    /// The oracle refused every candidate for some byte.
    Tries,
    /// The block cannot be searched at all.
    Input { reason: String },
}

/// A recovered block: the cipher's output before chaining, and the plaintext.
#[derive(Debug)]
pub struct Dec {
    pub intermediate: Vec<u8>,
    pub plain: Vec<u8>,
}

impl Dec {
    pub fn new(intermediate: Vec<u8>, plain: Vec<u8>) -> (dec: Self)
        ensures
            dec.intermediate == intermediate,
            dec.plain == plain,
    {
        Dec { intermediate, plain }
    }
}

/// A copy of the bytes.
pub(crate) fn copy_bytes(src: &[u8]) -> (out: Vec<u8>)
    ensures
        out@ == src@,
{
    let mut out: Vec<u8> = Vec::new();
    let mut i: usize = 0;
    while i < src.len()
        invariant
            i <= src@.len(),
            out@ == src@.subrange(0, i as int),
        decreases src@.len() - i,
    {
        out.push(src[i]);
        proof {
            assert(out@ =~= src@.subrange(0, i + 1));
        }
        i += 1;
    }
    proof {
        assert(src@.subrange(0, src@.len() as int) =~= src@);
    }
    out
}

/// A block of `n` zeros.
pub(crate) fn zeros(n: usize) -> (out: Vec<u8>)
    ensures
        out@ == Seq::new(n as nat, |j: int| 0u8),
{
    let mut out: Vec<u8> = Vec::new();
    let mut i: usize = 0;
    while i < n
        invariant
            i <= n,
            out@ == Seq::new(i as nat, |j: int| 0u8),
        decreases n - i,
    {
        out.push(0);
        proof {
            assert(out@ =~= Seq::new((i + 1) as nat, |j: int| 0u8));
        }
        i += 1;
    }
    out
}

} // verus!
