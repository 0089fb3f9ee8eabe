use vstd::prelude::*;

verus! {

/// Presentation modes a surface may offer.
#[derive(Debug, Clone, Copy, PartialEq, Eq, Structural)]
pub enum PresentMode {
    Immediate,
    Mailbox,
    Fifo,
    Relaxed,
}

/// Which presentation modes a surface supports.
#[derive(Debug, Clone, Copy, PartialEq, Eq, Structural)]
pub struct SupportedPresentModes {
    pub immediate: bool,
    pub mailbox: bool,
    pub fifo: bool,
    pub relaxed: bool,
}

/// Mailbox when available, else immediate, else FIFO (which every surface
/// supports).
pub fn choose_swap_present_mode(available: SupportedPresentModes) -> (mode: PresentMode)
    ensures
        available.mailbox ==> mode == PresentMode::Mailbox,
        !available.mailbox && available.immediate ==> mode == PresentMode::Immediate,
        !available.mailbox && !available.immediate ==> mode == PresentMode::Fifo,
{
    if available.mailbox {
        PresentMode::Mailbox
    } else if available.immediate {
        PresentMode::Immediate
    } else {
        PresentMode::Fifo
    }
}

/// How recreating the swapchain went.
#[derive(Debug, Clone, Copy, PartialEq, Eq, Structural)]
pub enum RecreateOutcome {
    Recreated,
    UnsupportedDimensions,
    Failed,
}

/// How acquiring the next swapchain image went.
#[derive(Debug, Clone, Copy, PartialEq, Eq, Structural)]
pub enum AcquireOutcome {
    Acquired { suboptimal: bool },
    OutOfDate,
    Failed,
}

/// What the frame loop does next.
#[derive(Debug, Clone, Copy, PartialEq, Eq, Structural)]
pub enum FrameStep {
    /// Go on with this frame.
    Continue,
    /// Give up this frame; the next one tries again.
    SkipFrame,
    /// An unrecoverable error: stop.
    Abort,
}

/// Whether the swapchain has to be recreated before the next image is
/// acquired (after a resize, or when the surface reported it stale).
#[derive(Debug, Clone, Copy, PartialEq, Eq, Structural)]
pub struct SwapchainStatus {
    pub must_recreate: bool,
}

impl SwapchainStatus {
    /// A swapchain that was just created.
    pub fn new() -> (r: Self)
        ensures
            !r.must_recreate,
    {
        SwapchainStatus { must_recreate: false }
    }

    /// The window changed: recreate before the next frame.
    pub fn request_recreate(&mut self)
        ensures
            final(self).must_recreate,
    {
        self.must_recreate = true;
    }

    /// Records how an attempt to recreate the swapchain went.
    pub fn after_recreate(&mut self, outcome: RecreateOutcome) -> (step: FrameStep)
        ensures
            outcome == RecreateOutcome::Recreated ==> step == FrameStep::Continue
                && !final(self).must_recreate,
            outcome == RecreateOutcome::UnsupportedDimensions ==> step == FrameStep::SkipFrame
                && *final(self) == *old(self),
            outcome == RecreateOutcome::Failed ==> step == FrameStep::Abort && *final(self)
                == *old(self),
    {
        match outcome {
            RecreateOutcome::Recreated => {
                self.must_recreate = false;
                FrameStep::Continue
            },
            RecreateOutcome::UnsupportedDimensions => FrameStep::SkipFrame,
            RecreateOutcome::Failed => FrameStep::Abort,
        }
    }

    /// Records how acquiring the next image went: a stale or suboptimal
    /// swapchain is recreated before the next frame; a stale one also ends
    /// this frame.
    pub fn after_acquire(&mut self, outcome: AcquireOutcome) -> (step: FrameStep)
        ensures
            outcome matches AcquireOutcome::Acquired { suboptimal } ==> step == FrameStep::Continue
                && final(self).must_recreate == (old(self).must_recreate || suboptimal),
            outcome == AcquireOutcome::OutOfDate ==> step == FrameStep::SkipFrame
                && final(self).must_recreate,
            outcome == AcquireOutcome::Failed ==> step == FrameStep::Abort && *final(self)
                == *old(self),
    {
        match outcome {
            AcquireOutcome::Acquired { suboptimal } => {
                if suboptimal {
                    self.must_recreate = true;
                }
                FrameStep::Continue
            },
            AcquireOutcome::OutOfDate => {
                self.must_recreate = true;
                FrameStep::SkipFrame
            },
            AcquireOutcome::Failed => FrameStep::Abort,
        }
    }
}

} // verus!
