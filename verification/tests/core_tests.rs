use rencan::app_info::AppInfo;
use rencan::setable::Mutable;
use rencan::screen::Screen;

#[test]
fn screen_new_keeps_width_and_height() {
    let s = Screen::new(640, 480);
    assert_eq!(s.width(), 640);
    assert_eq!(s.height(), 480);
    assert_eq!(s.0, [640, 480]);
}

#[test]
fn screen_size_is_pixel_count() {
    assert_eq!(Screen::new(640, 480).size(), 307_200);
    assert_eq!(Screen::new(0, 480).size(), 0);
    assert_eq!(Screen::new(65_536, 65_535).size(), 4_294_901_760);
}

#[test]
fn screen_equality_compares_both_sides() {
    assert!(Screen::new(3, 4) == Screen::new(3, 4));
    assert!(Screen::new(3, 4) != Screen::new(4, 3));
    assert!(Screen::new(3, 4) != Screen::new(3, 5));
}

#[test]
fn mutable_new_is_changed() {
    let m: Mutable<u32, String> = Mutable::new(7);
    assert!(m.is_changed());
    assert_eq!(*m.state(), 7);
}

#[test]
fn mutable_builds_derived_value_once() {
    let mut m: Mutable<u32, u64> = Mutable::new(21);
    let first = *m.get_depends_or_init(|s| *s as u64 * 2);
    assert_eq!(first, 42);
    assert!(!m.is_changed());
    let again = *m.get_depends_or_init(|_| 0);
    assert_eq!(again, 42);
    assert_eq!(*m.state(), 21);
}

#[test]
fn mutable_change_drops_derived_value() {
    let mut m: Mutable<u32, u64> = Mutable::new(1);
    m.get_depends_or_init(|s| *s as u64);
    let m = m.change(|s| s + 10);
    assert!(m.is_changed());
    assert_eq!(*m.state(), 11);
}

#[test]
fn mutable_check_keeps_cache_for_equal_state() {
    let mut m: Mutable<usize, u64> = Mutable::new(5);
    m.get_depends_or_init(|s| *s as u64 + 1);
    let mut m = m.change_with_check(5);
    assert!(!m.is_changed());
    assert_eq!(*m.get_depends_or_init(|_| 99), 6);
    let mut m = m.change_with_check(8);
    assert!(m.is_changed());
    assert_eq!(*m.state(), 8);
    assert_eq!(*m.get_depends_or_init(|s| *s as u64 + 1), 9);
}

#[test]
fn mutable_check_in_place() {
    let mut m: Mutable<usize, u64> = Mutable::new(5);
    m.get_depends_or_init(|s| *s as u64);
    m.change_with_check_in_place(5);
    assert!(!m.is_changed());
    m.change_with_check_in_place(6);
    assert!(m.is_changed());
    assert_eq!(*m.state(), 6);
}

#[test]
fn image_array_size_formula() {
    let info = AppInfo::new(Screen::new(1280, 720), 5, 3);
    // 1280 * 720 / 5 * 9
    assert_eq!(info.size_of_image_array(), 1_658_880);
    let info = AppInfo::new(Screen::new(10, 10), 3, 1);
    // 100 / 3 = 33 (integer division)
    assert_eq!(info.size_of_image_array(), 33);
    let info = AppInfo::new(Screen::new(512, 512), 1, 0);
    assert_eq!(info.size_of_image_array(), 0);
}

#[test]
fn render_steps_fill_consecutive_slices() {
    let info = AppInfo::new(Screen::new(1280, 720), 5, 2);
    let size = info.size_of_image_array() as u32;
    assert_eq!(info.render_step_offset(0), 0);
    assert_eq!(info.render_step_offset(1), size);
    assert_eq!(info.render_step_offset(4), 4 * size);
    // the last step ends exactly at the samples of the whole screen
    assert_eq!(info.render_step_offset(4) + size, 1280 * 720 * 4);
}

#[test]
fn dispatch_group_counts() {
    let info = AppInfo::new(Screen::new(100, 10), 2, 1);
    assert_eq!(info.dispatch_groups(32), 15);
    assert_eq!(info.dispatch_groups(64), 7);
    assert_eq!(info.frame_dispatch_groups(32), 31);
    assert_eq!(info.image_array_bytes(), 2000);
}
