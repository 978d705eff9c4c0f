use crate::graphics::triangle::{black, Color};
use vstd::prelude::*;

verus! {

/// A frame of `n` black pixels.
pub open spec fn blank_frame(n: nat) -> Seq<Color> {
    Seq::new(n, |i: int| black())
}

/// `frame` cut down to, or padded with black pixels up to, `n` pixels.
pub open spec fn resized_frame(frame: Seq<Color>, n: nat) -> Seq<Color> {
    if n <= frame.len() {
        frame.take(n as int)
    } else {
        frame + blank_frame((n - frame.len()) as nat)
    }
}

/// The colour side of the rasterizer: a `width` x `height` frame buffer
/// stored row by row.
pub struct Rasterizer {
    pub width: usize,
    pub height: usize,
    pub frame_buff: Vec<Color>,
}

impl Rasterizer {
    /// A rasterizer whose frame holds `width * height` black pixels.
    pub fn new(width: usize, height: usize) -> (r: Self)
        requires
            width * height <= usize::MAX,
        ensures
            r.width == width,
            r.height == height,
            r.frame_buff@ == blank_frame((width * height) as nat),
    {
        let n: usize = width * height;
        let frame_buff: Vec<Color> = vec![Color { r: 0, g: 0, b: 0 }; n];
        assert(frame_buff@ =~= blank_frame(n as nat));
        Self { width, height, frame_buff }
    }

    /// Resizes the frame to `x * y` pixels: a shorter frame keeps its first
    /// pixels, a longer one is padded with black. `width` and `height` are
    /// left as they were.
    pub fn resize(&mut self, x: u32, y: u32)
        requires
            x * y <= u32::MAX,
        ensures
            final(self).width == old(self).width,
            final(self).height == old(self).height,
            final(self).frame_buff@ == resized_frame(old(self).frame_buff@, (x * y) as nat),
    {
        let n: u32 = x * y;
        let ghost before: Seq<Color> = self.frame_buff@;
        self.frame_buff.resize(n as usize, Color::new(0, 0, 0));
        assert(self.frame_buff@ =~= resized_frame(before, n as nat));
    }

    /// Paints every pixel of the frame black.
    pub fn clear(&mut self)
        ensures
            final(self).width == old(self).width,
            final(self).height == old(self).height,
            final(self).frame_buff@ == blank_frame(old(self).frame_buff@.len()),
    {
        let n: usize = self.frame_buff.len();
        let mut i: usize = 0;
        while i < n
            invariant
                0 <= i <= n,
                n == old(self).frame_buff@.len(),
                self.width == old(self).width,
                self.height == old(self).height,
                self.frame_buff@.len() == n,
                forall|k: int| 0 <= k < i ==> #[trigger] self.frame_buff@[k] == black(),
            decreases n - i,
        {
            self.frame_buff.set(i, Color::new(0, 0, 0));
            i = i + 1;
        }
        assert(self.frame_buff@ =~= blank_frame(n as nat));
    }
}

/// A resized frame has exactly the requested number of pixels, keeps the
/// pixels it had below that number, and is black beyond the old frame.
pub proof fn lemma_resized_frame_shape(frame: Seq<Color>, n: nat)
    ensures
        resized_frame(frame, n).len() == n,
        forall|k: int| 0 <= k < n && k < frame.len() ==> #[trigger] resized_frame(frame, n)[k] == frame[k],
        forall|k: int| frame.len() <= k < n ==> #[trigger] resized_frame(frame, n)[k] == black(),
{
}

/// Resizing to the size the frame already has changes nothing.
pub proof fn lemma_resize_same_size(frame: Seq<Color>)
    ensures
        resized_frame(frame, frame.len()) == frame,
{
    assert(resized_frame(frame, frame.len()) =~= frame);
}

/// Resizing twice to the same size is resizing once.
pub proof fn lemma_resize_idempotent(frame: Seq<Color>, n: nat)
    ensures
        resized_frame(resized_frame(frame, n), n) == resized_frame(frame, n),
{
    lemma_resized_frame_shape(frame, n);
    lemma_resize_same_size(resized_frame(frame, n));
}

/// Clearing after a resize to `n` pixels gives the frame a new rasterizer
/// of `n` pixels starts with, whatever the frame held before.
pub proof fn lemma_resize_then_clear(frame: Seq<Color>, n: nat)
    ensures
        blank_frame(resized_frame(frame, n).len()) == blank_frame(n),
{
    lemma_resized_frame_shape(frame, n);
}

/// Clearing a cleared frame changes nothing.
pub proof fn lemma_clear_idempotent(n: nat)
    ensures
        blank_frame(blank_frame(n).len()) == blank_frame(n),
{
}

/// Growing a blank frame keeps it blank.
pub proof fn lemma_resize_blank(m: nat, n: nat)
    ensures
        resized_frame(blank_frame(m), n) == blank_frame(n),
{
    assert(resized_frame(blank_frame(m), n) =~= blank_frame(n));
}

} // verus!
