use std::cell::Cell;

use rencan::lightning::cached_for_length;
use rencan::queue_families::{find_queue_families_by, QueueFamilyIndices, QueueFamilySupport};
use rencan::schedule::{render_schedule, RenderAction};
use rencan::setable::Mutable;

#[test]
fn schedule_is_step_major() {
    let s = render_schedule(2, 2);
    assert_eq!(
        s,
        vec![
            RenderAction::ClearImage,
            RenderAction::RunFactory { step: 0, factory: 0 },
            RenderAction::RunFactory { step: 0, factory: 1 },
            RenderAction::RefreshBuffers { step: 0 },
            RenderAction::RunFactory { step: 1, factory: 0 },
            RenderAction::RunFactory { step: 1, factory: 1 },
            RenderAction::RefreshBuffers { step: 1 },
            RenderAction::ResolveMultisampling,
        ]
    );
}

#[test]
fn schedule_edge_cases() {
    assert_eq!(render_schedule(0, 3), vec![RenderAction::ClearImage, RenderAction::ResolveMultisampling]);
    assert_eq!(
        render_schedule(2, 0),
        vec![
            RenderAction::ClearImage,
            RenderAction::RefreshBuffers { step: 0 },
            RenderAction::RefreshBuffers { step: 1 },
            RenderAction::ResolveMultisampling,
        ]
    );
}

#[test]
fn buffer_reused_only_for_same_length() {
    let builds = Cell::new(0u32);
    let mut cell: Mutable<usize, (usize, u32)> = Mutable::new(0);
    let build = |len: &usize| {
        builds.set(builds.get() + 1);
        (*len, builds.get())
    };
    assert_eq!(*cached_for_length(&mut cell, 10, build), (10, 1));
    assert_eq!(*cached_for_length(&mut cell, 10, build), (10, 1));
    assert_eq!(builds.get(), 1);
    assert_eq!(*cached_for_length(&mut cell, 12, build), (12, 2));
    assert_eq!(*cached_for_length(&mut cell, 12, build), (12, 2));
    assert_eq!(builds.get(), 2);
    assert_eq!(*cell.state(), 12);
}

#[test]
fn cell_state_machine_over_a_sequence() {
    let mut m: Mutable<u8, u32> = Mutable::new(1);
    assert!(m.is_changed());
    m.get_depends_or_init(|s| *s as u32 * 100);
    assert!(!m.is_changed());
    let _ = m.state();
    let _ = m.is_changed();
    m.change_with_check_in_place(1);
    assert!(!m.is_changed());
    let mut m = m.change_with_check(2);
    assert!(m.is_changed());
    assert_eq!(*m.get_depends_or_init(|s| *s as u32 * 100), 200);
    let mut m = m.change(|s| s + 1);
    assert!(m.is_changed());
    assert_eq!(*m.state(), 3);
    assert_eq!(*m.get_depends_or_init(|s| *s as u32 * 100), 300);
}

fn fam(c: bool, p: bool) -> QueueFamilySupport {
    QueueFamilySupport { supports_compute: c, supports_present: p }
}

#[test]
fn search_asks_only_up_to_completion() {
    let families = [fam(true, false), fam(false, true), fam(true, true), fam(false, false)];
    let asked = Cell::new(0usize);
    let r = find_queue_families_by(families.len(), |i| {
        asked.set(asked.get() + 1);
        families[i]
    });
    assert_eq!(r, QueueFamilyIndices { graphics_family: 0, present_family: 1 });
    assert_eq!(asked.get(), 2);
}

#[test]
fn search_asks_all_when_incomplete() {
    let families = [fam(true, false), fam(true, false), fam(false, false)];
    let asked = Cell::new(0usize);
    let r = find_queue_families_by(families.len(), |i| {
        asked.set(asked.get() + 1);
        families[i]
    });
    assert_eq!(r, QueueFamilyIndices { graphics_family: 1, present_family: -1 });
    assert_eq!(asked.get(), 3);
}
