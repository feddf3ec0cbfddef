//! Frames handed from the audio callback to the renderer.
//!
//! Each drawn frame is a line strip with adjacency: it begins with the last
//! three points of the previous frame, then the points of the newest block.
//! Finished frames go round a fixed set of buffers; a flag says whether the
//! renderer has drawn the frame a buffer holds.
use vstd::prelude::*;

verus! {

/// Points carried from the end of one frame to the start of the next.
pub const CARRIED_POINTS: usize = 3;

/// The frame that follows `prev` once the points `fresh` are ready: the
/// last three points of `prev`, then `fresh`.
pub open spec fn next_frame<T>(prev: Seq<T>, fresh: Seq<T>) -> Seq<T> {
    prev.subrange(fresh.len() as int, fresh.len() + 3int) + fresh
}

/// Turns `frame` into the next frame: moves its last three points to the
/// front and writes `fresh` after them.
pub fn advance_frame<T: Copy>(frame: &mut Vec<T>, fresh: &[T])
    requires
        old(frame)@.len() == fresh@.len() + CARRIED_POINTS,
    ensures
        final(frame)@ == next_frame(old(frame)@, fresh@),
        final(frame)@ == old(frame)@.subrange(old(frame)@.len() - 3, old(frame)@.len() as int)
            + fresh@,
        final(frame)@.len() == old(frame)@.len(),
        forall|j: int| 0 <= j < 3 ==> #[trigger] final(frame)@[j] == old(frame)@[old(frame)@.len() - 3 + j],
        forall|j: int| 0 <= j < fresh@.len() ==> #[trigger] final(frame)@[j + 3] == fresh@[j],
{
    let n = fresh.len();
    let total = frame.len();
    assert(total == n + 3);
    let ghost f0 = frame@;
    let mut c: usize = 0;
    while c < CARRIED_POINTS
        invariant
            n == fresh@.len(),
            total == n + 3,
            f0.len() == n + 3,
            frame@.len() == n + 3,
            0 <= c <= 3,
            forall|j: int| 0 <= j < c ==> #[trigger] frame@[j] == f0[n + j],
            forall|j: int| c <= j < n + 3 ==> #[trigger] frame@[j] == f0[j],
        decreases 3 - c,
    {
        let v = frame[n + c];
        frame.set(c, v);
        c = c + 1;
    }
    let mut i: usize = 0;
    while i < n
        invariant
            n == fresh@.len(),
            total == n + 3,
            f0.len() == n + 3,
            frame@.len() == n + 3,
            0 <= i <= n,
            forall|j: int| 0 <= j < 3 ==> #[trigger] frame@[j] == f0[n + j],
            forall|j: int| 0 <= j < i ==> #[trigger] frame@[j + 3] == fresh@[j],
        decreases n - i,
    {
        frame.set(i + 3, fresh[i]);
        i = i + 1;
    }
    proof {
        let want = next_frame(f0, fresh@);
        assert forall|j: int| 0 <= j < n + 3 implies #[trigger] frame@[j] == want[j] by {
            if j >= 3 {
                assert(frame@[(j - 3) + 3] == fresh@[j - 3]);
            }
        }
        assert(frame@ =~= want);
        lemma_next_frame_joins(f0, fresh@);
    }
}

/// A frame of `n + 3` points followed by a block of `n` points gives the
/// frame's last three points, then the block: the line strip drawn from
/// consecutive frames joins up, and every point of the block is drawn.
pub proof fn lemma_next_frame_joins<T>(prev: Seq<T>, fresh: Seq<T>)
    requires
        prev.len() == fresh.len() + 3,
    ensures
        next_frame(prev, fresh) == prev.subrange(prev.len() - 3, prev.len() as int) + fresh,
        next_frame(prev, fresh).len() == prev.len(),
        forall|j: int| 0 <= j < 3 ==> #[trigger] next_frame(prev, fresh)[j] == prev[prev.len() - 3 + j],
        forall|j: int| 0 <= j < fresh.len() ==> #[trigger] next_frame(prev, fresh)[j + 3] == fresh[j],
{
    assert(next_frame(prev, fresh) =~= prev.subrange(prev.len() - 3, prev.len() as int) + fresh);
}

/// The buffer after the one at `index`, going round `count` buffers.
pub fn next_slot(index: usize, count: usize) -> (r: usize)
    requires
        index < count,
    ensures
        r == (index + 1) % (count as int),
        r < count,
{
    (index + 1) % count
}

/// State of a frame buffer: whether its frame has been drawn, and the frame.
pub open spec fn buffer_state<T>(rendered: bool, frame: Seq<T>) -> (bool, Seq<T>) {
    (rendered, frame)
}

/// The state after a new frame is published into a buffer.
pub open spec fn after_publish<T>(state: (bool, Seq<T>), frame: Seq<T>) -> (bool, Seq<T>) {
    (false, frame)
}

/// The state after the renderer has looked at a buffer.
pub open spec fn after_take<T>(state: (bool, Seq<T>)) -> (bool, Seq<T>) {
    (true, state.1)
}

/// What the renderer gets from a buffer: its frame if not yet drawn.
pub open spec fn taken<T>(state: (bool, Seq<T>)) -> Option<Seq<T>> {
    if state.0 {
        None
    } else {
        Some(state.1)
    }
}

/// One of the buffers between the audio callback and the renderer.
pub struct AudioBuffer<T> {
    /// The renderer has drawn `analytic` (or there was nothing to draw).
    pub rendered: bool,
    /// The frame's points.
    pub analytic: Vec<T>,
}

impl<T: Copy> AudioBuffer<T> {
    /// The buffer's state, as the laws speak of it.
    pub open spec fn state(&self) -> (bool, Seq<T>) {
        buffer_state(self.rendered, self.analytic@)
    }

    /// A buffer of `len` copies of `fill` with nothing left to draw.
    pub fn new(fill: T, len: usize) -> (b: Self)
        ensures
            b.rendered,
            b.analytic@ == Seq::new(len as nat, |i: int| fill),
    {
        let mut analytic: Vec<T> = Vec::new();
        while analytic.len() < len
            invariant
                analytic@.len() <= len,
                forall|j: int| 0 <= j < analytic@.len() ==> #[trigger] analytic@[j] == fill,
            decreases len - analytic@.len(),
        {
            analytic.push(fill);
        }
        assert(analytic@ =~= Seq::new(len as nat, |i: int| fill));
        AudioBuffer { rendered: true, analytic }
    }

    /// Publishes `frame` into this buffer. Returns whether the frame it
    /// replaces was never drawn (a dropped frame).
    pub fn publish(&mut self, frame: &[T]) -> (dropped: bool)
        requires
            old(self).analytic@.len() == frame@.len(),
        ensures
            final(self).state() == after_publish(old(self).state(), frame@),
            dropped == (taken(old(self).state()) is Some),
    {
        let was_rendered = self.rendered;
        let n = frame.len();
        let mut i: usize = 0;
        while i < n
            invariant
                n == frame@.len(),
                self.analytic@.len() == n,
                0 <= i <= n,
                forall|j: int| 0 <= j < i ==> #[trigger] self.analytic@[j] == frame@[j],
            decreases n - i,
        {
            self.analytic.set(i, frame[i]);
            i = i + 1;
        }
        assert(self.analytic@ =~= frame@);
        self.rendered = false;
        !was_rendered
    }

    /// The renderer's side: when the frame has not been drawn, copies it into
    /// `out`, marks it drawn and returns `true`; otherwise leaves `out` as it
    /// was and returns `false`. Either way the buffer is drawn afterwards.
    pub fn take(&mut self, out: &mut Vec<T>) -> (fresh: bool)
        requires
            old(out)@.len() == old(self).analytic@.len(),
        ensures
            final(self).state() == after_take(old(self).state()),
            fresh == (taken(old(self).state()) is Some),
            taken(old(self).state()) matches Some(f) ==> final(out)@ == f,
            taken(old(self).state()) is None ==> final(out)@ == old(out)@,
    {
        if self.rendered {
            return false;
        }
        let n = self.analytic.len();
        let mut i: usize = 0;
        while i < n
            invariant
                n == self.analytic@.len(),
                out@.len() == n,
                0 <= i <= n,
                forall|j: int| 0 <= j < i ==> #[trigger] out@[j] == self.analytic@[j],
            decreases n - i,
        {
            out.set(i, self.analytic[i]);
            i = i + 1;
        }
        assert(out@ =~= self.analytic@);
        self.rendered = true;
        true
    }
}

/// A frame published into a buffer is what the renderer takes from it next.
pub proof fn lemma_take_returns_published<T>(state: (bool, Seq<T>), frame: Seq<T>)
    ensures
        taken(after_publish(state, frame)) == Some(frame),
{
}

/// Each published frame is taken at most once: once the renderer has taken
/// from a buffer, it gets nothing more from it until the next publish.
pub proof fn lemma_taken_once<T>(state: (bool, Seq<T>))
    ensures
        taken(after_take(state)) is None,
        taken(after_take(after_take(state))) is None,
{
}

/// A second publish into a buffer with no take since the first reports the
/// first frame as dropped (`publish` returns whether `taken` would have
/// given a frame); with a take in between, nothing is dropped.
pub proof fn lemma_unread_frame_is_dropped<T>(state: (bool, Seq<T>), first: Seq<T>)
    ensures
        taken(after_publish(state, first)) is Some,
        taken(after_take(after_publish(state, first))) is None,
{
}

} // verus!
