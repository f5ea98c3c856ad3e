use pico_games::inputs::Inputs;

#[test]
fn fresh_detector_reports_nothing() {
    let i = Inputs::new();
    assert_eq!(*i.is_pressed(), [false; 4]);
}

/// A press edge is reported exactly once: on the sample where the line
/// goes high, not while it stays high, not on release.
#[test]
fn edge_fires_once_per_press() {
    let mut i = Inputs::new();
    i.update([true, false, false, false]);
    assert_eq!(*i.is_pressed(), [true, false, false, false]);
    i.update([true, false, false, false]); // held
    assert_eq!(*i.is_pressed(), [false; 4]);
    i.update([false, false, false, false]); // released
    assert_eq!(*i.is_pressed(), [false; 4]);
    i.update([true, false, false, false]); // pressed again
    assert_eq!(*i.is_pressed(), [true, false, false, false]);
}

#[test]
fn buttons_are_independent() {
    let mut i = Inputs::new();
    i.update([true, false, true, false]);
    assert_eq!(*i.is_pressed(), [true, false, true, false]);
    i.update([true, true, false, false]);
    assert_eq!(*i.is_pressed(), [false, true, false, false]);
    i.update([false, true, false, true]);
    assert_eq!(*i.is_pressed(), [false, false, false, true]);
}

#[test]
fn update_button_touches_only_its_index() {
    let mut i = Inputs::new();
    i.update([true, true, true, true]);
    i.update_button(false, 2);
    assert_eq!(i.pressed, [true, true, false, true]);
    i.update_button(true, 2);
    // button 2 saw a fresh edge; the other flags are untouched
    assert_eq!(*i.is_pressed(), [true, true, true, true]);
}
