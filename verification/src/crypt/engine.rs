use vstd::prelude::*;
use crate::crypt::{copy_bytes, zeros};

verus! {

/// The number of blocks that a message of `len` bytes is cut into; the last
/// block is short where `size` does not divide `len`.
pub open spec fn chunk_count(len: int, size: int) -> int {
    (len + size - 1) / size
}

/// Block number `k` of the message.
pub open spec fn chunk(cipher: Seq<u8>, size: int, k: int) -> Seq<u8> {
    cipher.subrange(
        k * size,
        if (k + 1) * size < cipher.len() {
            (k + 1) * size
        } else {
            cipher.len() as int
        },
    )
}

/// The length of the chain of blocks that the search runs along: the
/// message's blocks, after a block of zeros where the message brings no
/// initialisation vector of its own.
pub open spec fn chain_len(len: int, size: int, iv: bool) -> int {
    if iv {
        chunk_count(len, size)
    } else {
        chunk_count(len, size) + 1
    }
}

/// Block number `k` of the chain.
pub open spec fn chain_block(cipher: Seq<u8>, size: int, iv: bool, k: int) -> Seq<u8> {
    if iv {
        chunk(cipher, size, k)
    } else if k == 0 {
        Seq::new(size as nat, |j: int| 0u8)
    } else {
        chunk(cipher, size, k - 1)
    }
}

/// Whether block number `k` of a chain of `n` blocks is searched as the one
/// that holds the message's padding: the last one, unless the chain is an
/// initialisation vector and a single block.
pub open spec fn is_final(n: int, k: int, iv: bool) -> bool {
    k == n - 1 && (!iv || n > 2)
}

/// The search of one block, as work to hand out.
#[derive(Debug)]
pub struct Job {
    /// The block to recover.
    pub target: Vec<u8>,
    /// The block before it in the chain.
    pub prev: Vec<u8>,
    /// The number of the recovered block.
    pub index: usize,
    /// Whether the block holds the message's padding.
    pub last: bool,
}

impl Job {
    /// The job recovers block `k + 1` of the chain of `cipher`.
    pub open spec fn covers(&self, cipher: Seq<u8>, size: int, iv: bool, k: int) -> bool {
        &&& self.target@ == chain_block(cipher, size, iv, k + 1)
        &&& self.prev@ == chain_block(cipher, size, iv, k)
        &&& self.index == k
        &&& self.last == is_final(chain_len(cipher.len() as int, size, iv), k + 1, iv)
    }
}

proof fn lemma_chunk_count(len: int, size: int, c: int)
    requires
        size > 0,
        (c - 1) * size < len <= c * size,
    ensures
        chunk_count(len, size) == c,
{
    let r = len + size - 1 - c * size;
    assert(0 <= r < size) by (nonlinear_arith)
        requires
            r == len + size - 1 - c * size,
            (c - 1) * size < len <= c * size,
    ;
    assert(len + size - 1 == c * size + r);
    vstd::arithmetic::div_mod::lemma_fundamental_div_mod_converse(len + size - 1, size, c, r);
}

/// A message of `n` whole blocks makes `n - 1` jobs where its first block is
/// the initialisation vector, and `n` jobs where it brings none.
pub proof fn lemma_job_count(len: int, size: int, n: int, iv: bool)
    requires
        size >= 1,
        n >= 1,
        len == n * size,
    ensures
        chain_len(len, size, iv) - 1 == if iv {
            n - 1
        } else {
            n
        },
{
    assert((n - 1) * size < n * size) by (nonlinear_arith)
        requires
            size >= 1,
    ;
    lemma_chunk_count(len, size, n);
}

/// Cuts `cipher` into blocks of `blksz` bytes and lists the searches to run:
/// one for each block of the chain but the first, each with the block before
/// it, in the order of the message.
pub fn jobs(cipher: &[u8], blksz: u8, iv: bool) -> (jobs: Vec<Job>)
    requires
        blksz >= 1,
    ensures
        jobs@.len() == if chain_len(cipher@.len() as int, blksz as int, iv) >= 1 {
            chain_len(cipher@.len() as int, blksz as int, iv) - 1
        } else {
            0
        },
        forall|k: int|
            0 <= k < jobs@.len() ==> (#[trigger] jobs@[k]).covers(cipher@, blksz as int, iv, k),
{
    let size: usize = blksz as usize;
    let len: usize = cipher.len();
    let mut out: Vec<Job> = Vec::new();
    let mut prev: Vec<u8>;
    let mut off: usize;
    let ghost mut c: int;
    if iv {
        if len == 0 {
            proof {
                lemma_chunk_count(0, size as int, 0);
            }
            return out;
        }
        off = if len <= size {
            len
        } else {
            size
        };
        prev = copy_bytes(vstd::slice::slice_subrange(cipher, 0, off));
        proof {
            c = 1;
        }
    } else {
        off = 0;
        prev = zeros(size);
        proof {
            c = 0;
        }
    }
    let mut k: usize = 0;
    while off < len
        invariant
            size == blksz,
            size >= 1,
            len == cipher@.len(),
            off <= len,
            c == if iv {
                k + 1
            } else {
                k as int
            },
            off == if c * size < len {
                c * size
            } else {
                len as int
            },
            c >= 1 ==> (c - 1) * size < len,
            k <= off,
            out@.len() == k,
            prev@ == chain_block(cipher@, size as int, iv, k as int),
            forall|i: int|
                0 <= i < k ==> {
                    &&& (#[trigger] out@[i]).target@ == chain_block(cipher@, size as int, iv, i + 1)
                    &&& out@[i].prev@ == chain_block(cipher@, size as int, iv, i)
                    &&& out@[i].index == i
                    &&& out@[i].last == (i + 1 == k && off == len && (!iv || i >= 1))
                },
        decreases len - off,
    {
        let end: usize = if len - off <= size {
            len
        } else {
            off + size
        };
        proof {
            assert((c + 1) * size == c * size + size) by (nonlinear_arith);
        }
        let target: Vec<u8> = copy_bytes(vstd::slice::slice_subrange(cipher, off, end));
        let next_prev: Vec<u8> = copy_bytes(target.as_slice());
        let last: bool = end == len && (!iv || k >= 1);
        proof {
            assert(target@ == chunk(cipher@, size as int, c));
        }
        out.push(Job { target, prev, index: k, last });
        prev = next_prev;
        off = end;
        k += 1;
        proof {
            c = c + 1;
        }
    }
    proof {
        lemma_chunk_count(len as int, size as int, c);
    }
    out
}

} // verus!
