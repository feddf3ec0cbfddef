//! The state the audio callback keeps from one block to the next: the
//! sample window the forward FFT reads, the frame being assembled for the
//! renderer, and which frame buffer receives the next frame.
use vstd::prelude::*;
use crate::settings::{AudioSettings, settings_ok};
use crate::window::{SampleWindow, slide};
use crate::frames::{advance_frame, next_frame, next_slot};
use vstd::arithmetic::div_mod::{lemma_add_mod_noop, lemma_mod_twice, lemma_small_mod};

verus! {

/// The frame buffer that frame number `k` (counting from zero) goes to,
/// when each frame takes the buffer after its predecessor's, round `n`
/// buffers, starting at buffer 0 (as `take_slot` hands them out).
pub open spec fn slot_of_frame(n: nat, k: nat) -> nat
    decreases k,
{
    if k == 0 {
        0
    } else {
        (slot_of_frame(n, (k - 1) as nat) + 1) % n
    }
}

/// Frames go round the buffers in order: frame `k` lands in buffer `k mod n`,
/// so each buffer is reused only after every other one has been.
pub proof fn lemma_slots_round_robin(n: nat, k: nat)
    requires
        n > 0,
    ensures
        slot_of_frame(n, k) == k % n,
    decreases k,
{
    if k > 0 {
        lemma_slots_round_robin(n, (k - 1) as nat);
        let p = (k - 1) as int;
        lemma_add_mod_noop(p, 1, n as int);
        lemma_add_mod_noop(p % (n as int), 1, n as int);
        lemma_mod_twice(p, n as int);
        assert(slot_of_frame(n, k) == (p % (n as int) + 1) % (n as int));
    } else {
        lemma_small_mod(0, n);
    }
}

/// Callback state for samples of type `S` and frame points of type `P`.
pub struct Capture<S, P> {
    window: SampleWindow<S>,
    frame: Vec<P>,
    block: usize,
    slot: usize,
    num_slots: usize,
}

impl<S: Copy, P: Copy> Capture<S, P> {
    /// Sizes agree with one another and with the settings they came from.
    pub closed spec fn wf(&self) -> bool {
        &&& self.window.wf()
        &&& self.window.spec_block_len() == self.block
        &&& self.block + 3 <= self.window@.len()
        &&& self.frame@.len() == self.block + 3
        &&& self.slot < self.num_slots
    }

    /// The samples the forward FFT reads, oldest first.
    pub closed spec fn spec_window(&self) -> Seq<S> {
        self.window@
    }

    /// The frame most recently assembled.
    pub closed spec fn spec_frame(&self) -> Seq<P> {
        self.frame@
    }

    /// Samples per block.
    pub closed spec fn spec_block_len(&self) -> nat {
        self.block as nat
    }

    /// The frame buffer that receives the next frame.
    pub closed spec fn spec_slot(&self) -> nat {
        self.slot as nat
    }

    /// Frame buffers the frames go round.
    pub closed spec fn spec_num_slots(&self) -> nat {
        self.num_slots as nat
    }

    /// The starting state: a window of silence, a blank frame, and the first
    /// frame buffer next.
    pub fn new(settings: &AudioSettings, silence: S, blank: P) -> (c: Self)
        ensures
            c.wf(),
            c.spec_block_len() == settings.spec_buffer_size(),
            c.spec_num_slots() == settings.spec_num_buffers(),
            c.spec_window() == Seq::new(settings.spec_fft_size(), |k: int| silence),
            c.spec_frame() == Seq::new(settings.spec_buffer_size() + 3, |k: int| blank),
            c.spec_slot() == 0,
    {
        let block = settings.buffer_size();
        let size = settings.fft_size();
        let num_slots = settings.num_buffers();
        let window = SampleWindow::new(silence, size, block);
        let len = block + 3;
        let mut frame: Vec<P> = Vec::new();
        while frame.len() < len
            invariant
                frame@.len() <= len,
                forall|j: int| 0 <= j < frame@.len() ==> #[trigger] frame@[j] == blank,
            decreases len - frame@.len(),
        {
            frame.push(blank);
        }
        assert(frame@ =~= Seq::new(len as nat, |k: int| blank));
        Capture { window, frame, block, slot: 0, num_slots }
    }

    /// Samples per block.
    pub fn block_len(&self) -> (r: usize)
        ensures
            r == self.spec_block_len(),
    {
        self.block
    }

    /// Takes in one captured block: the window slides by the block.
    pub fn push_block(&mut self, samples: &[S])
        requires
            old(self).wf(),
            samples@.len() == old(self).spec_block_len(),
        ensures
            final(self).wf(),
            final(self).spec_window() == slide(old(self).spec_window(), samples@),
            final(self).spec_frame() == old(self).spec_frame(),
            final(self).spec_block_len() == old(self).spec_block_len(),
            final(self).spec_slot() == old(self).spec_slot(),
            final(self).spec_num_slots() == old(self).spec_num_slots(),
    {
        self.window.push_block(samples);
    }

    /// The window the forward FFT reads, oldest sample first.
    pub fn window(&self) -> (r: &[S])
        requires
            self.wf(),
        ensures
            r@ == self.spec_window(),
    {
        self.window.window()
    }

    /// Where, in a filtered window, the samples of the newest block begin:
    /// the window's length less a block.
    pub fn newest_block_start(&self) -> (r: usize)
        requires
            self.wf(),
        ensures
            r == self.spec_window().len() - self.spec_block_len(),
            r + self.spec_block_len() == self.spec_window().len(),
    {
        self.window.len() - self.block
    }

    /// Assembles the next frame from the points of the newest block; the
    /// last three points of the previous frame stay in front of them.
    pub fn advance_frame(&mut self, fresh: &[P])
        requires
            old(self).wf(),
            fresh@.len() == old(self).spec_block_len(),
        ensures
            final(self).wf(),
            final(self).spec_frame() == next_frame(old(self).spec_frame(), fresh@),
            final(self).spec_frame() == old(self).spec_frame().subrange(
                old(self).spec_frame().len() - 3,
                old(self).spec_frame().len() as int,
            ) + fresh@,
            final(self).spec_window() == old(self).spec_window(),
            final(self).spec_block_len() == old(self).spec_block_len(),
            final(self).spec_slot() == old(self).spec_slot(),
            final(self).spec_num_slots() == old(self).spec_num_slots(),
    {
        advance_frame(&mut self.frame, fresh);
    }

    /// The frame most recently assembled.
    pub fn frame(&self) -> (r: &[P])
        requires
            self.wf(),
        ensures
            r@ == self.spec_frame(),
    {
        self.frame.as_slice()
    }

    /// The frame buffer for this frame; the next frame goes to the one after
    /// it, round the buffers in order.
    pub fn take_slot(&mut self) -> (slot: usize)
        requires
            old(self).wf(),
        ensures
            final(self).wf(),
            slot == old(self).spec_slot(),
            slot < old(self).spec_num_slots(),
            final(self).spec_slot() == (old(self).spec_slot() + 1) % old(self).spec_num_slots(),
            final(self).spec_window() == old(self).spec_window(),
            final(self).spec_frame() == old(self).spec_frame(),
            final(self).spec_block_len() == old(self).spec_block_len(),
            final(self).spec_num_slots() == old(self).spec_num_slots(),
    {
        let slot = self.slot;
        self.slot = next_slot(slot, self.num_slots);
        slot
    }
}

} // verus!
