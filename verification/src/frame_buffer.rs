use vstd::prelude::*;
use crate::types::Frame;

verus! {

/// Cyclic playback cursor over a decoded, owned frame sequence.
///
/// `next` hands out the frame under the cursor and advances the cursor
/// modulo the sequence length, giving infinite wrap-around playback.
pub struct FrameBuffer {
    frames: Vec<Frame>,
    current_index: usize,
}

impl FrameBuffer {
    /// The frames held by the buffer.
    pub closed spec fn spec_frames(&self) -> Seq<Frame> {
        self.frames@
    }

    /// The current cursor position.
    pub closed spec fn cursor(&self) -> int {
        self.current_index as int
    }

    /// The cursor always points at a frame while any frames are held.
    pub open spec fn wf(&self) -> bool {
        if self.spec_frames().len() == 0 {
            self.cursor() == 0
        } else {
            0 <= self.cursor() < self.spec_frames().len()
        }
    }

    pub fn new(frames: Vec<Frame>) -> (buf: FrameBuffer)
        ensures
            buf.wf(),
            buf.spec_frames() == frames@,
            buf.cursor() == 0,
    {
        FrameBuffer { frames, current_index: 0 }
    }

    /// Returns the frame under the cursor and advances the cursor by one,
    /// wrapping around at the end of the sequence.
    ///
    /// Calling this on an empty buffer is a contract violation: decoders
    /// guarantee at least one frame or report an error instead.
    pub fn next(&mut self) -> (frame: &Frame)
        requires
            old(self).wf(),
            old(self).spec_frames().len() > 0,
        ensures
            final(self).wf(),
            final(self).spec_frames() == old(self).spec_frames(),
            *frame == old(self).spec_frames()[old(self).cursor()],
            final(self).cursor() == (old(self).cursor() + 1) % (old(self).spec_frames().len() as int),
    {
        let n = self.frames.len();
        let idx = self.current_index;
        self.current_index = (idx + 1) % n;
        &self.frames[idx]
    }

    /// Rewrites every frame's delay to the fixed value `delay`, forcing a
    /// uniform frame rate irrespective of the file's authored timing.
    /// Nothing else about any frame changes.
    pub fn override_delay(&mut self, delay: u64)
        requires
            old(self).wf(),
        ensures
            final(self).wf(),
            final(self).cursor() == old(self).cursor(),
            final(self).spec_frames().len() == old(self).spec_frames().len(),
            forall|i: int| #![trigger final(self).spec_frames()[i]] 0 <= i < final(self).spec_frames().len() ==> {
                &&& final(self).spec_frames()[i].delay == delay
                &&& final(self).spec_frames()[i].buffer@ == old(self).spec_frames()[i].buffer@
                &&& final(self).spec_frames()[i].width == old(self).spec_frames()[i].width
                &&& final(self).spec_frames()[i].height == old(self).spec_frames()[i].height
            },
    {
        let ghost orig = *old(self);
        let n = self.frames.len();
        let mut i: usize = 0;
        while i < n
            invariant
                n == self.spec_frames().len(),
                n == orig.spec_frames().len(),
                i <= n,
                self.cursor() == orig.cursor(),
                forall|j: int| #![trigger self.spec_frames()[j]] 0 <= j < i ==> {
                    &&& self.spec_frames()[j].delay == delay
                    &&& self.spec_frames()[j].buffer@ == orig.spec_frames()[j].buffer@
                    &&& self.spec_frames()[j].width == orig.spec_frames()[j].width
                    &&& self.spec_frames()[j].height == orig.spec_frames()[j].height
                },
                forall|j: int| i <= j < n ==>
                    #[trigger] self.spec_frames()[j] == orig.spec_frames()[j],
            decreases n - i,
        {
            self.frames[i].delay = delay;
            i = i + 1;
        }
    }

    /// Number of frames held.
    pub fn len(&self) -> (n: usize)
        ensures
            n == self.spec_frames().len(),
    {
        self.frames.len()
    }

    /// Whether the buffer holds no frames at all.
    pub fn is_empty(&self) -> (e: bool)
        ensures
            e == (self.spec_frames().len() == 0),
    {
        self.frames.is_empty()
    }
}

/// Cursor position after `k` calls of `next` on a buffer of `n` frames,
/// starting from position `start`: each call steps by one, modulo `n`.
pub open spec fn cursor_after(start: int, k: nat, n: int) -> int
    decreases k,
{
    if k == 0 {
        start
    } else {
        (cursor_after(start, (k - 1) as nat, n) + 1) % n
    }
}

/// Stepping the cursor `k` times from `start` lands on `(start + k) % n`.
pub proof fn lemma_cursor_after_is_mod(start: int, k: nat, n: int)
    requires
        n > 0,
        0 <= start < n,
    ensures
        cursor_after(start, k, n) == (start + k) % n,
    decreases k,
{
    if k == 0 {
        assert((start + 0) % n == start) by {
            vstd::arithmetic::div_mod::lemma_small_mod(start as nat, n as nat);
        }
    } else {
        lemma_cursor_after_is_mod(start, (k - 1) as nat, n);
        let a = start + k - 1;
        if n == 1 {
            vstd::arithmetic::div_mod::lemma_mod_division_less_than_divisor(a, 1);
            vstd::arithmetic::div_mod::lemma_mod_division_less_than_divisor(a + 1, 1);
            vstd::arithmetic::div_mod::lemma_mod_division_less_than_divisor(a % 1 + 1, 1);
        } else {
            vstd::arithmetic::div_mod::lemma_small_mod(1nat, n as nat);
            vstd::arithmetic::div_mod::lemma_add_mod_noop(a, 1, n);
        }
    }
}

/// Wrap-around playback: after exactly `n` calls of `next` on a buffer of
/// `n` frames the cursor is back where it started, so with `N = n` frames
/// the `N+1`-th call of `next` returns the same frame as the first call.
pub proof fn lemma_next_wraps_around(start: int, n: int)
    requires
        n > 0,
        0 <= start < n,
    ensures
        cursor_after(start, n as nat, n) == start,
{
    lemma_cursor_after_is_mod(start, n as nat, n);
    vstd::arithmetic::div_mod::lemma_mod_add_multiples_vanish(start, n);
    vstd::arithmetic::div_mod::lemma_small_mod(start as nat, n as nat);
}

} // verus!
