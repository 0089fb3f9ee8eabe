use vstd::prelude::*;

use crate::screen::Screen;

use vstd::arithmetic::div_mod::{lemma_div_multiples_vanish, lemma_mod_multiples_basic};

verus! {

/// Number of entries of the per-step image array: the pixels of the screen
/// shared out among `render_steps` steps (integer division), each pixel
/// sampled `msaa * msaa` times.
pub open spec fn image_array_size(width: int, height: int, render_steps: int, msaa: int) -> int {
    (width * height / render_steps) * (msaa * msaa)
}

/// What the renderer needs to know to size its per-frame GPU work: the
/// screen, the number of steps a frame is rendered in, and the multisampling
/// factor per axis.
#[derive(Debug, Clone, Copy)]
pub struct AppInfo {
    pub screen: Screen,
    pub render_steps: u32,
    pub msaa: u8,
}

impl AppInfo {
    /// `size_of_image_array` is defined and fits in a `u32`.
    pub open spec fn fits(&self) -> bool {
        &&& self.render_steps > 0
        &&& self.screen.spec_size() <= u32::MAX
        &&& self.spec_image_array_size() <= u32::MAX
    }

    pub open spec fn spec_image_array_size(&self) -> int {
        image_array_size(
            self.screen.spec_width() as int,
            self.screen.spec_height() as int,
            self.render_steps as int,
            self.msaa as int,
        )
    }

    /// Samples of the whole screen: pixels times `msaa * msaa`.
    pub open spec fn spec_total_samples(&self) -> int {
        self.screen.spec_size() * (self.msaa * self.msaa)
    }

    pub fn new(screen: Screen, render_steps: u32, msaa: u8) -> (r: Self)
        ensures
            r.screen == screen,
            r.render_steps == render_steps,
            r.msaa == msaa,
    {
        AppInfo { screen, render_steps, msaa }
    }

    /// Number of samples computed in one render step.
    pub fn size_of_image_array(&self) -> (n: usize)
        requires
            self.fits(),
        ensures
            n == self.spec_image_array_size(),
            self.msaa == 0 ==> n == 0,
            self.msaa > 0 ==> {
                let m2: int = self.msaa * self.msaa;
                &&& (n as int) % m2 == 0
                &&& ((n as int) / m2) * self.render_steps <= self.screen.spec_size()
                &&& self.screen.spec_size() < ((n as int) / m2 + 1) * self.render_steps
            },
    {
        proof {
            lemma_image_array_shares_pixels(*self);
        }
        let pixels: u32 = self.screen.size();
        let per_step: u32 = pixels / self.render_steps;
        let m: u32 = self.msaa as u32;
        assert(m * m <= 255 * 255) by (nonlinear_arith)
            requires
                m <= 255,
        ;
        let samples: u32 = m * m;
        assert(per_step * samples == self.spec_image_array_size());
        (per_step * samples) as usize
    }

    /// Index of the first sample of render step `step` in the sample buffer
    /// of the whole frame (the steps are laid out one after the other).
    pub fn render_step_offset(&self, step: u32) -> (offset: u32)
        requires
            self.fits(),
            self.spec_image_array_size() * step <= u32::MAX,
        ensures
            offset == self.spec_image_array_size() * step,
    {
        let size: u32 = self.size_of_image_array() as u32;
        size * step
    }

    /// Workgroups of `local_size` invocations that one render step
    /// dispatches (rounded down, as the shaders expect).
    pub fn dispatch_groups(&self, local_size: u32) -> (groups: u32)
        requires
            self.fits(),
            local_size > 0,
        ensures
            groups == self.spec_image_array_size() / (local_size as int),
    {
        let size: u32 = self.size_of_image_array() as u32;
        size / local_size
    }

    /// Workgroups of `local_size` invocations covering the samples of all
    /// render steps of a frame.
    pub fn frame_dispatch_groups(&self, local_size: u32) -> (groups: u32)
        requires
            self.fits(),
            local_size > 0,
            self.spec_image_array_size() * self.render_steps <= u32::MAX,
        ensures
            groups == (self.spec_image_array_size() * self.render_steps) / (local_size as int),
    {
        let size: u32 = self.size_of_image_array() as u32;
        size * self.render_steps / local_size
    }

    /// Bytes of an RGBA8 copy of one render step's samples.
    pub fn image_array_bytes(&self) -> (n: usize)
        requires
            self.fits(),
            self.spec_image_array_size() * 4 <= usize::MAX,
        ensures
            n == self.spec_image_array_size() * 4,
    {
        self.size_of_image_array() * 4
    }
}

/// One render step samples an equal share of the screen's pixels, rounded
/// down, each `msaa * msaa` times: the image array holds a whole number of
/// `msaa * msaa` samples per pixel, for a number of pixels that the steps
/// together do not exceed and that one more pixel per step would; with no
/// multisampling it is empty.
pub proof fn lemma_image_array_shares_pixels(info: AppInfo)
    requires
        info.fits(),
    ensures
        info.msaa == 0 ==> info.spec_image_array_size() == 0,
        info.msaa > 0 ==> {
            let n: int = info.spec_image_array_size();
            let m2: int = info.msaa * info.msaa;
            &&& n % m2 == 0
            &&& (n / m2) * info.render_steps <= info.screen.spec_size()
            &&& info.screen.spec_size() < (n / m2 + 1) * info.render_steps
        },
{
    let pixels: int = info.screen.spec_size();
    let steps: int = info.render_steps as int;
    let m: int = info.msaa as int;
    let q: int = pixels / steps;
    assert(info.spec_image_array_size() == q * (m * m));
    if m == 0 {
        assert(q * (m * m) == 0) by (nonlinear_arith)
            requires
                m == 0,
        ;
    } else {
        let m2: int = m * m;
        assert(m2 > 0) by (nonlinear_arith)
            requires
                m > 0,
                m2 == m * m,
        ;
        lemma_mod_multiples_basic(q, m2);
        lemma_div_multiples_vanish(q, m2);
        assert(q * m2 == m2 * q) by (nonlinear_arith);
        assert(q * steps <= pixels < (q + 1) * steps) by (nonlinear_arith)
            requires
                steps > 0,
                pixels >= 0,
                q == pixels / steps,
        ;
    }
}

/// The render steps of a frame fill consecutive, disjoint slices of the
/// frame's samples: the slice of every step `step < render_steps` ends within
/// the samples of the whole screen, and all steps together cover them
/// exactly when the pixel count is a multiple of the step count.
pub proof fn lemma_render_steps_within_frame(info: AppInfo, step: u32)
    requires
        info.fits(),
        step < info.render_steps,
    ensures
        info.spec_image_array_size() * step + info.spec_image_array_size()
            <= info.spec_image_array_size() * info.render_steps,
        info.spec_image_array_size() * info.render_steps <= info.spec_total_samples(),
        info.screen.spec_size() % (info.render_steps as int) == 0 ==> info.spec_image_array_size()
            * info.render_steps == info.spec_total_samples(),
{
    let size: int = info.spec_image_array_size();
    let pixels: int = info.screen.spec_size();
    let steps: int = info.render_steps as int;
    let m2: int = (info.msaa * info.msaa) as int;
    assert(size * step + size == size * (step + 1)) by (nonlinear_arith);
    assert(size >= 0) by (nonlinear_arith)
        requires
            size == (pixels / steps) * m2,
            pixels >= 0,
            steps > 0,
            m2 >= 0,
    ;
    assert(size * (step + 1) <= size * steps) by (nonlinear_arith)
        requires
            size >= 0,
            step + 1 <= steps,
    ;
    assert((pixels / steps) * steps <= pixels) by (nonlinear_arith)
        requires
            pixels >= 0,
            steps > 0,
    ;
    assert(size * steps == ((pixels / steps) * steps) * m2) by (nonlinear_arith)
        requires
            size == (pixels / steps) * m2,
    ;
    assert(((pixels / steps) * steps) * m2 <= pixels * m2) by (nonlinear_arith)
        requires
            (pixels / steps) * steps <= pixels,
            m2 >= 0,
    ;
    if pixels % steps == 0 {
        assert((pixels / steps) * steps == pixels) by (nonlinear_arith)
            requires
                pixels % steps == 0,
                steps > 0,
        ;
    }
}

} // verus!
