use rencan::queue_families::{
    find_queue_families, unique_queue_families, QueueFamilyIndices, QueueFamilySupport,
};
use rencan::swapchain::{
    choose_swap_present_mode, AcquireOutcome, FrameStep, PresentMode, RecreateOutcome,
    SupportedPresentModes, SwapchainStatus,
};

fn fam(c: bool, p: bool) -> QueueFamilySupport {
    QueueFamilySupport { supports_compute: c, supports_present: p }
}

#[test]
fn new_indices_are_incomplete() {
    let i = QueueFamilyIndices::new();
    assert_eq!(i.graphics_family, -1);
    assert_eq!(i.present_family, -1);
    assert!(!i.is_complete());
    assert!(QueueFamilyIndices { graphics_family: 0, present_family: 2 }.is_complete());
    assert!(!QueueFamilyIndices { graphics_family: 0, present_family: -1 }.is_complete());
}

#[test]
fn one_family_for_both() {
    let r = find_queue_families(&vec![fam(true, true), fam(true, true)]);
    assert_eq!(r, QueueFamilyIndices { graphics_family: 0, present_family: 0 });
}

#[test]
fn search_stops_when_complete() {
    // family 1 completes the choice; family 2 is never looked at
    let r = find_queue_families(&vec![fam(true, false), fam(false, true), fam(true, true)]);
    assert_eq!(r, QueueFamilyIndices { graphics_family: 0, present_family: 1 });
}

#[test]
fn last_seen_family_wins_before_completion() {
    let r = find_queue_families(&vec![fam(true, false), fam(true, false), fam(false, true)]);
    assert_eq!(r, QueueFamilyIndices { graphics_family: 1, present_family: 2 });
}

#[test]
fn missing_support_leaves_search_incomplete() {
    let r = find_queue_families(&vec![fam(true, false), fam(true, false)]);
    assert_eq!(r, QueueFamilyIndices { graphics_family: 1, present_family: -1 });
    assert!(!r.is_complete());
    let r = find_queue_families(&vec![]);
    assert_eq!(r, QueueFamilyIndices::new());
}

#[test]
fn unique_families() {
    let same = QueueFamilyIndices { graphics_family: 3, present_family: 3 };
    assert_eq!(unique_queue_families(&same), vec![3]);
    let two = QueueFamilyIndices { graphics_family: 0, present_family: 1 };
    assert_eq!(unique_queue_families(&two), vec![0, 1]);
}

#[test]
fn present_mode_preference() {
    let all = SupportedPresentModes { immediate: true, mailbox: true, fifo: true, relaxed: true };
    assert_eq!(choose_swap_present_mode(all), PresentMode::Mailbox);
    let no_mailbox = SupportedPresentModes { mailbox: false, ..all };
    assert_eq!(choose_swap_present_mode(no_mailbox), PresentMode::Immediate);
    let fifo_only =
        SupportedPresentModes { immediate: false, mailbox: false, fifo: true, relaxed: false };
    assert_eq!(choose_swap_present_mode(fifo_only), PresentMode::Fifo);
}

#[test]
fn swapchain_recreation_cycle() {
    let mut s = SwapchainStatus::new();
    assert!(!s.must_recreate);
    s.request_recreate();
    assert!(s.must_recreate);
    assert_eq!(s.after_recreate(RecreateOutcome::UnsupportedDimensions), FrameStep::SkipFrame);
    assert!(s.must_recreate);
    assert_eq!(s.after_recreate(RecreateOutcome::Recreated), FrameStep::Continue);
    assert!(!s.must_recreate);
    assert_eq!(s.after_recreate(RecreateOutcome::Failed), FrameStep::Abort);
}

#[test]
fn swapchain_acquire_outcomes() {
    let mut s = SwapchainStatus::new();
    assert_eq!(s.after_acquire(AcquireOutcome::Acquired { suboptimal: false }), FrameStep::Continue);
    assert!(!s.must_recreate);
    assert_eq!(s.after_acquire(AcquireOutcome::Acquired { suboptimal: true }), FrameStep::Continue);
    assert!(s.must_recreate);
    let mut s = SwapchainStatus::new();
    assert_eq!(s.after_acquire(AcquireOutcome::OutOfDate), FrameStep::SkipFrame);
    assert!(s.must_recreate);
    let mut s = SwapchainStatus::new();
    assert_eq!(s.after_acquire(AcquireOutcome::Failed), FrameStep::Abort);
    assert!(!s.must_recreate);
}
