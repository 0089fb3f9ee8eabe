use vstd::prelude::*;

verus! {

/// Size of the rendered picture in pixels: `[width, height]`.
#[derive(Debug, Clone, Copy)]
pub struct Screen(pub [u32; 2]);

impl Screen {
    /// Width in pixels.
    pub open spec fn spec_width(&self) -> u32 {
        self.0[0]
    }

    /// Height in pixels.
    pub open spec fn spec_height(&self) -> u32 {
        self.0[1]
    }

    /// Number of pixels on the screen.
    pub open spec fn spec_size(&self) -> int {
        self.spec_width() * self.spec_height()
    }

    pub fn new(width: u32, height: u32) -> (s: Self)
        ensures
            s.spec_width() == width,
            s.spec_height() == height,
    {
        Screen([width, height])
    }

    pub fn width(&self) -> (w: u32)
        ensures
            w == self.spec_width(),
    {
        self.0[0]
    }

    pub fn height(&self) -> (h: u32)
        ensures
            h == self.spec_height(),
    {
        self.0[1]
    }

    /// Number of pixels; the product must fit in a `u32`.
    pub fn size(&self) -> (n: u32)
        requires
            self.spec_size() <= u32::MAX,
        ensures
            n == self.spec_size(),
    {
        self.width() * self.height()
    }
}

impl PartialEq for Screen {
    fn eq(&self, other: &Self) -> (r: bool) {
        self.0[0] == other.0[0] && self.0[1] == other.0[1]
    }
}

impl vstd::std_specs::cmp::PartialEqSpecImpl for Screen {
    open spec fn obeys_eq_spec() -> bool {
        true
    }

    open spec fn eq_spec(&self, other: &Self) -> bool {
        self.0[0] == other.0[0] && self.0[1] == other.0[1]
    }
}

impl Eq for Screen {
}

} // verus!
