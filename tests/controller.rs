use game_of_life::clock::ClockError;
use game_of_life::controller::{Controller, EditMode};

fn controller() -> Controller {
    Controller::new(8, 16, 100, 20).unwrap()
}

fn paint_blinker(c: &mut Controller) {
    for x in 2..5 {
        assert!(c.apply_edit(x * 16 + 3, 3 * 16 + 8, EditMode::Paint));
    }
}

#[test]
fn zero_intervals_are_refused() {
    assert_eq!(Controller::new(8, 16, 0, 20).err(), Some(ClockError::NonPositiveInterval));
    assert_eq!(Controller::new(8, 16, 100, 0).err(), Some(ClockError::NonPositiveInterval));
}

#[test]
fn new_controller_runs_on_an_empty_board() {
    let c = controller();
    assert!(!c.is_paused());
    assert_eq!(c.grid().size(), 8);
    assert_eq!(c.clock().interval(), 100);
    assert_eq!(c.clock().elapsed(), 0);
}

#[test]
fn paint_and_erase_at_pixels() {
    let mut c = controller();
    assert!(c.apply_edit(17, 40, EditMode::Paint));
    assert!(c.grid().get(1, 2));
    assert!(c.apply_edit(31, 47, EditMode::Erase));
    assert!(!c.grid().get(1, 2));
}

#[test]
fn edits_off_the_board_or_idle_do_nothing() {
    let mut c = controller();
    assert!(!c.apply_edit(128, 5, EditMode::Paint));
    assert!(!c.apply_edit(5, 128, EditMode::Paint));
    assert!(!c.apply_edit(-1, 5, EditMode::Paint));
    assert!(!c.apply_edit(5, 5, EditMode::Idle));
    assert!(!c.grid().get(0, 0));
    assert!(c.apply_edit(127, 0, EditMode::Paint));
    assert!(c.grid().get(7, 0));
}

#[test]
fn tick_steps_once_per_interval_and_carries_remainder() {
    let mut c = controller();
    paint_blinker(&mut c);
    assert_eq!(c.tick(60), 0);
    assert!(c.grid().get(2, 3));
    assert_eq!(c.tick(60), 1);
    assert_eq!(c.clock().elapsed(), 20);
    assert!(c.grid().get(3, 2) && c.grid().get(3, 4) && !c.grid().get(2, 3));
}

#[test]
fn tick_catches_up_after_a_stall() {
    let mut c = controller();
    paint_blinker(&mut c);
    assert_eq!(c.tick(250), 2);
    assert_eq!(c.clock().elapsed(), 50);
    assert!(c.grid().get(2, 3) && c.grid().get(4, 3));
}

#[test]
fn paused_ticks_never_step_nor_gather() {
    let mut c = controller();
    paint_blinker(&mut c);
    c.tick(30);
    c.toggle_pause();
    assert!(c.is_paused());
    for _ in 0..50 {
        assert_eq!(c.tick(1_000), 0);
    }
    assert_eq!(c.clock().elapsed(), 30);
    assert!(c.grid().get(2, 3));
    c.toggle_pause();
    assert_eq!(c.tick(10), 0);
    assert_eq!(c.tick(60), 1);
}

#[test]
fn clear_works_while_paused() {
    let mut c = controller();
    paint_blinker(&mut c);
    c.toggle_pause();
    c.clear();
    for y in 0..8 {
        for x in 0..8 {
            assert!(!c.grid().get(x, y));
        }
    }
}

#[test]
fn fast_interval_switches_and_keeps_elapsed() {
    let mut c = controller();
    c.tick(50);
    c.set_fast(true);
    assert_eq!(c.clock().interval(), 20);
    assert_eq!(c.clock().elapsed(), 50);
    c.set_fast(false);
    assert_eq!(c.clock().interval(), 100);
}

#[test]
fn erase_while_painting_keeps_painting() {
    let m = EditMode::Idle.press_paint();
    assert_eq!(m, EditMode::Paint);
    assert_eq!(m.press_erase(), EditMode::Paint);
    assert_eq!(m.press_erase().release_erase(), EditMode::Paint);
    assert_eq!(m.release_paint(), EditMode::Idle);
    assert_eq!(m.release_paint().press_erase(), EditMode::Erase);
}

#[test]
fn paint_while_erasing_keeps_erasing() {
    let m = EditMode::Idle.press_erase();
    assert_eq!(m.press_paint(), EditMode::Erase);
    assert_eq!(m.release_erase(), EditMode::Idle);
    assert_eq!(EditMode::Erase.release_paint(), EditMode::Erase);
}
