//! The sample window fed to the forward FFT.
//!
//! Every capture block is written twice into a buffer of twice the window's
//! length, at `pos` and at `size + pos`. The window then always stands
//! contiguous at `pos .. pos + size`, oldest sample first, with no copying
//! and no wrap-around when it is read.
use vstd::prelude::*;
use vstd::arithmetic::div_mod::{
    lemma_fundamental_div_mod,
    lemma_mod_multiples_basic,
    lemma_small_mod,
    lemma_mod_self_0,
};

verus! {

/// The window after `block` arrives: its first `block.len()` samples leave
/// and the block joins at the end; the length stays the same.
pub open spec fn slide<T>(window: Seq<T>, block: Seq<T>) -> Seq<T> {
    (window + block).subrange(block.len() as int, (block.len() + window.len()) as int)
}

/// All `blocks` joined end to end, in arrival order.
pub open spec fn joined<T>(blocks: Seq<Seq<T>>) -> Seq<T>
    decreases blocks.len(),
{
    if blocks.len() == 0 {
        Seq::empty()
    } else {
        joined(blocks.drop_last()) + blocks.last()
    }
}

/// The window after each of `blocks` has arrived in turn.
pub open spec fn slide_all<T>(window: Seq<T>, blocks: Seq<Seq<T>>) -> Seq<T>
    decreases blocks.len(),
{
    if blocks.len() == 0 {
        window
    } else {
        slide(slide_all(window, blocks.drop_last()), blocks.last())
    }
}

/// Whatever blocks arrive, the window holds exactly the most recent samples
/// of everything seen so far (the initial window followed by every block),
/// oldest first: the FFT always sees the latest `window.len()` samples in
/// the order they were captured.
pub proof fn lemma_window_holds_latest<T>(window: Seq<T>, blocks: Seq<Seq<T>>)
    ensures
        slide_all(window, blocks) == (window + joined(blocks)).subrange(
            joined(blocks).len() as int,
            (joined(blocks).len() + window.len()) as int,
        ),
    decreases blocks.len(),
{
    if blocks.len() == 0 {
        assert((window + joined(blocks)).subrange(0, window.len() as int) =~= window);
    } else {
        let prev = blocks.drop_last();
        let s = blocks.last();
        lemma_window_holds_latest(window, prev);
        let c0 = joined(prev);
        let p = slide_all(window, prev);
        let all = window + joined(blocks);
        let lhs = slide(p, s);
        let rhs = all.subrange(
            joined(blocks).len() as int,
            (joined(blocks).len() + window.len()) as int,
        );
        assert(joined(blocks) == c0 + s);
        assert(all =~= window + c0 + s);
        assert forall|k: int| 0 <= k < window.len() implies #[trigger] lhs[k] == rhs[k] by {
            if s.len() + k < window.len() {
                assert(lhs[k] == p[s.len() + k]);
                assert(p[s.len() + k] == (window + c0)[c0.len() + s.len() + k]);
            } else {
                assert(lhs[k] == s[s.len() + k - window.len()]);
            }
        }
        assert(lhs =~= rhs);
    }
}

/// A window of the most recent samples, written block by block.
pub struct SampleWindow<T> {
    buf: Vec<T>,
    size: usize,
    block: usize,
    pos: usize,
}

impl<T> View for SampleWindow<T> {
    type V = Seq<T>;

    /// The window, oldest sample first.
    closed spec fn view(&self) -> Seq<T> {
        Seq::new(self.size as nat, |k: int| self.buf@[self.pos + k])
    }
}

/// A block that starts at a multiple of the block length ends inside the
/// window, and the next block starts at a multiple of the block length too.
proof fn lemma_block_step(pos: nat, block: nat, size: nat)
    requires
        pos < size,
        block == 0 || (size % block == 0 && pos % block == 0),
    ensures
        pos + block <= size,
        block == 0 || (pos + block) % block == 0,
{
    if block > 0 {
        lemma_fundamental_div_mod(pos as int, block as int);
        lemma_fundamental_div_mod(size as int, block as int);
        let q1 = pos as int / block as int;
        let q2 = size as int / block as int;
        assert(q1 < q2) by (nonlinear_arith)
            requires
                pos == block * q1,
                size == block * q2,
                pos < size,
                block > 0,
        ;
        assert(pos + block == (q1 + 1) * block) by (nonlinear_arith)
            requires
                pos == block * q1,
        ;
        assert((q1 + 1) * block <= size) by (nonlinear_arith)
            requires
                q1 + 1 <= q2,
                size == block * q2,
                block > 0,
        ;
        lemma_mod_multiples_basic(q1 + 1, block as int);
    }
}

impl<T: Copy> SampleWindow<T> {
    /// The buffer holds the window twice over, and the write position is
    /// aligned to whole blocks.
    pub closed spec fn wf(&self) -> bool {
        &&& 0 < self.size <= usize::MAX / 2
        &&& self.buf@.len() == 2 * self.size
        &&& self.pos < self.size
        &&& (self.block == 0 || (self.size % self.block == 0 && self.pos % self.block == 0))
        &&& forall|j: int| 0 <= j < self.size ==> #[trigger] self.buf@[j] == self.buf@[j + self.size]
    }

    /// Samples per block.
    pub closed spec fn spec_block_len(&self) -> nat {
        self.block as nat
    }

    /// A window of `size` copies of `fill`, written `block` samples at a time.
    pub fn new(fill: T, size: usize, block: usize) -> (w: Self)
        requires
            0 < size <= usize::MAX / 2,
            block == 0 || size % block == 0,
        ensures
            w.wf(),
            w.spec_block_len() == block,
            w@ == Seq::new(size as nat, |k: int| fill),
    {
        let mut buf: Vec<T> = Vec::new();
        let total = 2 * size;
        while buf.len() < total
            invariant
                total == 2 * size,
                buf@.len() <= total,
                forall|j: int| 0 <= j < buf@.len() ==> #[trigger] buf@[j] == fill,
            decreases total - buf@.len(),
        {
            buf.push(fill);
        }
        proof {
            if block > 0 {
                lemma_small_mod(0, block as nat);
            }
        }
        let w = SampleWindow { buf, size, block, pos: 0 };
        assert(w@ =~= Seq::new(size as nat, |k: int| fill));
        w
    }

    /// Samples in the window.
    pub fn len(&self) -> (r: usize)
        requires
            self.wf(),
        ensures
            r == self@.len(),
    {
        self.size
    }

    /// Samples per block.
    pub fn block_len(&self) -> (r: usize)
        ensures
            r == self.spec_block_len(),
    {
        self.block
    }

    /// Appends one block: the oldest `block_len` samples leave the window.
    pub fn push_block(&mut self, samples: &[T])
        requires
            old(self).wf(),
            samples@.len() == old(self).spec_block_len(),
        ensures
            final(self).wf(),
            final(self).spec_block_len() == old(self).spec_block_len(),
            final(self)@ == slide(old(self)@, samples@),
    {
        let size = self.size;
        let block = self.block;
        let pos = self.pos;
        let ghost b0 = self.buf@;
        let ghost w0 = self@;
        proof {
            lemma_block_step(pos as nat, block as nat, size as nat);
        }
        let mut i: usize = 0;
        while i < block
            invariant
                self.size == size,
                self.block == block,
                self.pos == pos,
                pos + block <= size,
                0 < size <= usize::MAX / 2,
                b0.len() == 2 * size,
                samples@.len() == block,
                0 <= i <= block,
                self.buf@.len() == 2 * size,
                forall|j: int|
                    0 <= j < 2 * size ==> #[trigger] self.buf@[j] == if pos <= j < pos + i {
                        samples@[j - pos]
                    } else if size + pos <= j < size + pos + i {
                        samples@[j - size - pos]
                    } else {
                        b0[j]
                    },
            decreases block - i,
        {
            self.buf.set(pos + i, samples[i]);
            self.buf.set(size + pos + i, samples[i]);
            i = i + 1;
        }
        let next = (pos + block) % size;
        proof {
            if pos + block < size {
                lemma_small_mod((pos + block) as nat, size as nat);
            } else {
                lemma_mod_self_0(size as int);
            }
            if block > 0 && next == 0 {
                lemma_small_mod(0, block as nat);
            }
        }
        self.pos = next;
        proof {
            let w1 = self@;
            let expect = slide(w0, samples@);
            assert forall|k: int| 0 <= k < size implies #[trigger] w1[k] == expect[k] by {
                assert(w0[k] == b0[pos + k]);
                if k + block < size {
                    assert(w0[k + block] == b0[pos + k + block]);
                } else {
                    if pos + block < size {
                        assert(self.buf@[next + k] == samples@[k + block - size]);
                    } else {
                        assert(self.buf@[next + k] == samples@[k + block - size]);
                    }
                }
            }
            assert(w1 =~= expect);
        }
    }

    /// The window, oldest sample first.
    pub fn window(&self) -> (r: &[T])
        requires
            self.wf(),
        ensures
            r@ == self@,
    {
        let r = vstd::slice::slice_subrange(self.buf.as_slice(), self.pos, self.pos + self.size);
        assert(r@ =~= self@);
        r
    }
}

} // verus!
