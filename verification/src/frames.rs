//! Which swapchain image a frame uses, and how many images to ask for.

use vstd::prelude::*;

verus! {

/// The ring of swapchain images frames cycle through.
pub struct FrameRing {
    image_count: usize,
    current_image: usize,
}

impl View for FrameRing {
    type V = (nat, nat);

    /// The number of images and the image of the current frame.
    closed spec fn view(&self) -> (nat, nat) {
        (self.image_count as nat, self.current_image as nat)
    }
}

impl FrameRing {
    #[verifier::type_invariant]
    spec fn wf(self) -> bool {
        self.current_image < self.image_count
    }

    /// A ring of `image_count` images starting at image 0.
    pub fn new(image_count: usize) -> (r: Self)
        requires
            image_count > 0,
        ensures
            r@ == (image_count as nat, 0nat),
    {
        FrameRing { image_count, current_image: 0 }
    }

    /// The number of images.
    pub fn image_count(&self) -> (r: usize)
        ensures
            r == self@.0,
            r > 0,
    {
        proof {
            use_type_invariant(self);
        }
        self.image_count
    }

    /// The image of the current frame.
    pub fn current_image(&self) -> (r: usize)
        ensures
            r == self@.1,
            r < self@.0,
    {
        proof {
            use_type_invariant(self);
        }
        self.current_image
    }

    /// Moves on to the next frame's image, wrapping after the last.
    pub fn advance(&mut self)
        ensures
            final(self)@.0 == old(self)@.0,
            final(self)@.1 == (old(self)@.1 + 1) % old(self)@.0,
    {
        proof {
            use_type_invariant(&*self);
        }
        self.current_image = next_image(self.current_image, self.image_count);
    }
}

/// The image after `current` in a ring of `image_count` images.
pub fn next_image(current: usize, image_count: usize) -> (r: usize)
    requires
        current < image_count,
    ensures
        r == (current + 1) % (image_count as int),
        r < image_count,
{
    (current + 1) % image_count
}

/// How many images to ask the swapchain for: one more than the surface's
/// minimum.
pub fn swapchain_image_count(surface_min_image_count: u32) -> (r: u32)
    requires
        surface_min_image_count < u32::MAX,
    ensures
        r == surface_min_image_count + 1,
{
    surface_min_image_count + 1
}

/// The image `k` frames after image `start` in a ring of `n` images.
pub open spec fn image_after(start: nat, n: nat, k: nat) -> nat
    decreases k,
{
    if k == 0 {
        start
    } else {
        (image_after(start, n, (k - 1) as nat) + 1) % n
    }
}

/// Frames visit the images in turn: `k` frames after image `start` comes
/// image `(start + k) % n`, so after `n` frames the ring is back where it
/// started.
pub proof fn lemma_frames_cycle(start: nat, n: nat, k: nat)
    requires
        start < n,
    ensures
        image_after(start, n, k) == (start + k) % n,
        image_after(start, n, n) == start,
{
    lemma_image_after_formula(start, n, k);
    lemma_image_after_formula(start, n, n);
    vstd::arithmetic::div_mod::lemma_mod_add_multiples_vanish(start as int, n as int);
    vstd::arithmetic::div_mod::lemma_small_mod(start, n);
}

proof fn lemma_image_after_formula(start: nat, n: nat, k: nat)
    requires
        start < n,
    ensures
        image_after(start, n, k) == (start + k) % n,
    decreases k,
{
    if k > 0 {
        lemma_image_after_formula(start, n, (k - 1) as nat);
        let a = (start + k - 1) as int;
        vstd::arithmetic::div_mod::lemma_add_mod_noop(a, 1, n as int);
        vstd::arithmetic::div_mod::lemma_mod_twice(a, n as int);
        if n > 1 {
            vstd::arithmetic::div_mod::lemma_small_mod(1, n);
        }
    } else {
        vstd::arithmetic::div_mod::lemma_small_mod(start, n);
    }
}

} // verus!
