//! Byte statistics of a file taken block by block.
//!
//! The Shannon entropy of a block is a function of its length and of how
//! often each of the 256 byte values occurs in it; this module computes
//! those counts exactly, block by block, with each block's offset.
use vstd::prelude::*;

verus! {

/// How many times `b` occurs in `s`.
pub open spec fn count_of(s: Seq<u8>, b: u8) -> nat
    decreases s.len(),
{
    if s.len() == 0 {
        0
    } else {
        count_of(s.drop_last(), b) + if s.last() == b {
            1nat
        } else {
            0nat
        }
    }
}

/// `counts` holds, for each byte value, how often it occurs in `s`.
pub open spec fn is_histogram_of(counts: Seq<usize>, s: Seq<u8>) -> bool {
    &&& counts.len() == 256
    &&& forall|b: int| 0 <= b < 256 ==> #[trigger] counts[b] == count_of(s, b as u8)
}

/// No byte value occurs more often than the sequence is long.
proof fn lemma_count_bounded(s: Seq<u8>, b: u8)
    ensures
        count_of(s, b) <= s.len(),
    decreases s.len(),
{
    if s.len() > 0 {
        lemma_count_bounded(s.drop_last(), b);
    }
}

/// Counts each byte value of `data`.
pub fn byte_histogram(data: &[u8]) -> (r: Vec<usize>)
    ensures
        is_histogram_of(r@, data@),
{
    let mut counts: Vec<usize> = vec![0usize; 256];
    let mut i: usize = 0;
    while i < data.len()
        invariant
            i <= data@.len(),
            counts@.len() == 256,
            forall|b: int| 0 <= b < 256 ==> #[trigger] counts@[b] == count_of(data@.take(i as int), b as u8),
        decreases data@.len() - i,
    {
        let v = data[i];
        proof {
            let next = data@.take(i + 1);
            assert(next.drop_last() =~= data@.take(i as int));
            lemma_count_bounded(data@.take(i as int), v);
        }
        let c = counts[v as usize];
        counts.set(v as usize, c + 1);
        i = i + 1;
    }
    assert(data@.take(i as int) =~= data@);
    counts
}

/// The byte counts of one block, and where the block starts in the file.
#[derive(Debug)]
pub struct BlockHistogram {
    pub offset: u64,
    pub len: usize,
    pub counts: Vec<usize>,
}

/// Why a file could not be split into blocks.
#[derive(Clone, Copy, Debug, PartialEq, Eq, Structural)]
pub enum AnalysisError {
    ZeroBlockSize,
}

/// How many blocks of `block_size` bytes cover `n` bytes, the last one
/// possibly shorter.
pub open spec fn num_blocks(n: int, block_size: int) -> int {
    (n + block_size - 1) / block_size
}

/// `b` is the `i`-th block of `data` cut into blocks of `block_size` bytes.
pub open spec fn is_block_of(b: BlockHistogram, data: Seq<u8>, block_size: int, i: int) -> bool {
    let start = i * block_size;
    let len = if data.len() - start < block_size {
        data.len() - start
    } else {
        block_size
    };
    &&& b.offset == start
    &&& b.len == len
    &&& is_histogram_of(b.counts@, data.subrange(start, start + len))
}

/// The samples of a file read in sequence: one per non-empty read, at the
/// offset where that read began.
#[derive(Debug)]
pub struct EntropyScan {
    pub next_offset: u64,
    pub blocks: Vec<BlockHistogram>,
}

impl EntropyScan {
    pub fn new() -> (r: EntropyScan)
        ensures
            r.next_offset == 0,
            r.blocks@.len() == 0,
    {
        EntropyScan { next_offset: 0, blocks: Vec::new() }
    }

    /// Records the bytes of one read. An empty read, which ends a file,
    /// records nothing.
    pub fn push_block(&mut self, block: &[u8])
        requires
            old(self).next_offset + block@.len() <= u64::MAX,
        ensures
            block@.len() == 0 ==> *final(self) == *old(self),
            block@.len() > 0 ==> {
                let last = final(self).blocks@.last();
                &&& final(self).blocks@.len() == old(self).blocks@.len() + 1
                &&& final(self).blocks@.drop_last() == old(self).blocks@
                &&& last.offset == old(self).next_offset
                &&& last.len == block@.len()
                &&& is_histogram_of(last.counts@, block@)
            },
            final(self).next_offset == old(self).next_offset + block@.len(),
    {
        if block.len() == 0 {
            return;
        }
        let counts = byte_histogram(block);
        let offset = self.next_offset;
        self.blocks.push(BlockHistogram { offset, len: block.len(), counts });
        self.next_offset = offset + block.len() as u64;
        proof {
            assert(self.blocks@.drop_last() =~= old(self).blocks@);
        }
    }

    /// The offset of the last block, if any.
    pub fn last_offset(&self) -> (r: Option<u64>)
        ensures
            self.blocks@.len() == 0 ==> r is None,
            self.blocks@.len() > 0 ==> r == Some(self.blocks@.last().offset),
    {
        if self.blocks.len() == 0 {
            None
        } else {
            Some(self.blocks[self.blocks.len() - 1].offset)
        }
    }
}

/// Cuts `data` into blocks of `block_size` bytes, the last one possibly
/// shorter, and counts the bytes of each. Fails only on a zero block size.
pub fn analyze_bytes(data: &[u8], block_size: usize) -> (r: Result<Vec<BlockHistogram>, AnalysisError>)
    ensures
        block_size == 0 <==> r is Err,
        r is Ok ==> {
            let blocks = r->Ok_0@;
            &&& blocks.len() == num_blocks(data@.len() as int, block_size as int)
            &&& forall|i: int|
                0 <= i < blocks.len() ==> is_block_of(#[trigger] blocks[i], data@, block_size as int, i)
        },
{
    if block_size == 0 {
        return Err(AnalysisError::ZeroBlockSize);
    }
    let n = data.len();
    let mut scan = EntropyScan::new();
    let mut start: usize = 0;
    while start < n
        invariant
            0 < block_size,
            n == data@.len(),
            start <= n,
            scan.next_offset == start,
            start == n || start == scan.blocks@.len() * block_size,
            scan.blocks@.len() * block_size < n + block_size,
            start < n ==> scan.blocks@.len() * block_size == start,
            start == n ==> scan.blocks@.len() * block_size >= n,
            forall|i: int|
                0 <= i < scan.blocks@.len() ==> is_block_of(
                    #[trigger] scan.blocks@[i],
                    data@,
                    block_size as int,
                    i,
                ),
        decreases n - start,
    {
        let k = Ghost(scan.blocks@.len() as int);
        let end = if n - start > block_size {
            start + block_size
        } else {
            n
        };
        let old_blocks = Ghost(scan.blocks@);
        scan.push_block(&data[start..end]);
        proof {
            assert(scan.blocks@[k@] == scan.blocks@.last());
            assert forall|i: int| 0 <= i < scan.blocks@.len() implies is_block_of(
                #[trigger] scan.blocks@[i],
                data@,
                block_size as int,
                i,
            ) by {
                if i < k@ {
                    assert(scan.blocks@[i] == old_blocks@[i]);
                }
            }
            assert((k@ + 1) * block_size == k@ * block_size + block_size) by (nonlinear_arith);
        }
        start = end;
    }
    proof {
        let k = scan.blocks@.len() as int;
        let bs = block_size as int;
        let nn = n as int;
        assert(k == (nn + bs - 1) / bs) by (nonlinear_arith)
            requires
                bs > 0,
                k >= 0,
                k * bs >= nn,
                k * bs < nn + bs,
        ;
    }
    Ok(scan.blocks)
}

/// A file of `n` bytes gives `n / block_size` full blocks, and one more
/// for a trailing partial block.
pub proof fn lemma_block_count(n: nat, block_size: nat)
    requires
        block_size > 0,
    ensures
        n % block_size == 0 ==> num_blocks(n as int, block_size as int) == n / block_size,
        n % block_size != 0 ==> num_blocks(n as int, block_size as int) == n / block_size + 1,
{
    let q = n / block_size;
    let r = n % block_size;
    assert(n == q * block_size + r && r < block_size) by (nonlinear_arith)
        requires
            block_size > 0,
            q == n / block_size,
            r == n % block_size,
    ;
    assert(r == 0 ==> (n + block_size - 1) / (block_size as int) == q) by (nonlinear_arith)
        requires
            n == q * block_size + r,
            block_size > 0,
    ;
    assert(r != 0 ==> (n + block_size - 1) / (block_size as int) == q + 1) by (nonlinear_arith)
        requires
            n == q * block_size + r,
            r < block_size,
            block_size > 0,
    ;
}

/// A block of one repeated byte value puts its whole length in that value's
/// count and leaves every other count at zero: the counts of a block of
/// entropy zero.
pub proof fn lemma_constant_block_histogram(s: Seq<u8>, v: u8, counts: Seq<usize>)
    requires
        forall|i: int| 0 <= i < s.len() ==> s[i] == v,
        is_histogram_of(counts, s),
    ensures
        counts[v as int] == s.len(),
        forall|b: int| 0 <= b < 256 && b != v ==> counts[b] == 0,
{
    lemma_constant_counts(s, v, v);
    assert forall|b: int| 0 <= b < 256 && b != v implies counts[b] == 0 by {
        lemma_constant_counts(s, v, b as u8);
    }
}

proof fn lemma_constant_counts(s: Seq<u8>, v: u8, b: u8)
    requires
        forall|i: int| 0 <= i < s.len() ==> s[i] == v,
    ensures
        count_of(s, b) == if b == v {
            s.len()
        } else {
            0
        },
    decreases s.len(),
{
    if s.len() > 0 {
        lemma_constant_counts(s.drop_last(), v, b);
    }
}

/// A block that holds the byte values `0, 1, ..., 255` in order counts each
/// value exactly once: the uniform counts of a block of eight bits of
/// entropy.
pub proof fn lemma_all_values_histogram(s: Seq<u8>, counts: Seq<usize>)
    requires
        s.len() == 256,
        forall|i: int| 0 <= i < 256 ==> s[i] == i,
        is_histogram_of(counts, s),
    ensures
        forall|b: int| 0 <= b < 256 ==> counts[b] == 1,
{
    assert forall|b: int| 0 <= b < 256 implies counts[b] == 1 by {
        lemma_ascending_counts(s, b as u8);
    }
}

proof fn lemma_ascending_counts(s: Seq<u8>, b: u8)
    requires
        s.len() <= 256,
        forall|i: int| 0 <= i < s.len() ==> s[i] == i,
    ensures
        count_of(s, b) == if (b as int) < s.len() {
            1nat
        } else {
            0nat
        },
    decreases s.len(),
{
    if s.len() > 0 {
        lemma_ascending_counts(s.drop_last(), b);
    }
}

/// An empty block has every count at zero.
pub proof fn lemma_empty_block_histogram(counts: Seq<usize>)
    requires
        is_histogram_of(counts, Seq::<u8>::empty()),
    ensures
        forall|b: int| 0 <= b < 256 ==> counts[b] == 0,
{
}

} // verus!
