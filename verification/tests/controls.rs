use nbody::controls::{first_hit, Controls};

#[test]
fn first_hit_of_no_flags_is_none() {
    assert_eq!(first_hit(&vec![]), None);
    assert_eq!(first_hit(&vec![false, false, false]), None);
}

#[test]
fn first_hit_picks_lowest_index() {
    assert_eq!(first_hit(&vec![false, true, true]), Some(1));
    assert_eq!(first_hit(&vec![true, false, true]), Some(0));
    assert_eq!(first_hit(&vec![false, false, false, true]), Some(3));
}

#[test]
fn new_controls_run_with_nothing_grabbed() {
    let c = Controls::new();
    assert!(c.running);
    assert!(!c.space_down);
    assert_eq!(c.selected_body, None);
}

#[test]
fn space_press_toggles_once_while_held() {
    let mut c = Controls::new();
    c.on_space(true);
    assert!(!c.running);
    assert!(c.space_down);
    for _ in 0..5 {
        c.on_space(true);
        assert!(!c.running);
    }
    c.on_space(false);
    assert!(!c.running);
    assert!(!c.space_down);
    c.on_space(true);
    assert!(c.running);
}

#[test]
fn space_up_leaves_running_alone() {
    let mut c = Controls::new();
    for _ in 0..3 {
        c.on_space(false);
        assert!(c.running);
        assert!(!c.space_down);
    }
}

#[test]
fn mouse_press_grabs_first_body_under_cursor_without_dragging() {
    let mut c = Controls::new();
    let drag = c.on_mouse(true, &vec![false, true, true]);
    assert_eq!(drag, None);
    assert_eq!(c.selected_body, Some(1));
}

#[test]
fn grabbed_body_is_dragged_while_button_held() {
    let mut c = Controls::new();
    c.on_mouse(true, &vec![false, false, true]);
    assert_eq!(c.on_mouse(true, &vec![true, false, false]), Some(2));
    assert_eq!(c.on_mouse(true, &vec![false, false, false]), Some(2));
    assert_eq!(c.selected_body, Some(2));
}

#[test]
fn press_on_empty_space_grabs_nothing() {
    let mut c = Controls::new();
    assert_eq!(c.on_mouse(true, &vec![false, false]), None);
    assert_eq!(c.selected_body, None);
    assert_eq!(c.on_mouse(true, &vec![true, false]), None);
    assert_eq!(c.selected_body, Some(0));
}

#[test]
fn release_lets_go() {
    let mut c = Controls::new();
    c.on_mouse(true, &vec![true]);
    assert_eq!(c.selected_body, Some(0));
    assert_eq!(c.on_mouse(false, &vec![true]), None);
    assert_eq!(c.selected_body, None);
    assert!(c.running);
}

#[test]
fn mouse_does_not_touch_pause_state() {
    let mut c = Controls::new();
    c.on_space(true);
    c.on_mouse(true, &vec![true]);
    c.on_mouse(true, &vec![true]);
    c.on_mouse(false, &vec![]);
    assert!(!c.running);
    assert!(c.space_down);
}
