use pico_games::games_menu::{GameSelected, GamesMenu};
use pico_games::menu::{center_text, Menu, MenuOption, MenuStep, Selected};

const NONE: [bool; 4] = [false, false, false, false];
const SELECT: [bool; 4] = [true, false, false, false];
const NEXT: [bool; 4] = [false, true, false, false];
const PREV: [bool; 4] = [false, false, true, false];

fn three() -> Menu<'static, u8, 3> {
    Menu::new(
        "Menu",
        [
            MenuOption::new(10u8, "A"),
            MenuOption::new(20u8, "B"),
            MenuOption::new(30u8, "C"),
        ],
    )
}

#[test]
fn cursor_wraps_forward() {
    let mut s = Selected::<3>(0);
    s.inc();
    assert_eq!(s.0, 1);
    s.inc();
    assert_eq!(s.0, 2);
    s.inc();
    assert_eq!(s.0, 0);
}

#[test]
fn cursor_wraps_backward() {
    let mut s = Selected::<3>(0);
    s.dec();
    assert_eq!(s.0, 2);
    s.dec();
    assert_eq!(s.0, 1);
    s.dec();
    assert_eq!(s.0, 0);
}

#[test]
fn cursor_stays_in_range_under_any_presses() {
    let mut s = Selected::<5>(0);
    // an arbitrary mixed sequence of steps in both directions
    for i in 0..1000 {
        if (i * 7 + i / 3) % 3 == 0 {
            s.inc();
        } else {
            s.dec();
        }
        assert!(s.0 < 5);
    }
}

#[test]
fn count_nexts_return_to_start() {
    for count_start in 0..4usize {
        let mut s = Selected::<4>(count_start);
        for _ in 0..4 {
            s.inc();
        }
        assert_eq!(s.0, count_start);
    }
}

#[test]
fn peek_is_next_index() {
    let s = Selected::<3>(2);
    assert_eq!(s.peek(), 0);
    let s = Selected::<3>(1);
    assert_eq!(s.peek(), 2);
}

#[test]
fn select_returns_id_under_cursor() {
    let mut m = three();
    assert!(matches!(m.step(&NEXT), MenuStep::Moved));
    match m.step(&SELECT) {
        MenuStep::Chosen(id) => assert_eq!(id, 20),
        _ => panic!("expected a selection"),
    }
}

/// Two "next" presses then "select" on [A, B, C] must return C's id.
#[test]
fn next_next_select_returns_third() {
    let mut m = three();
    assert!(matches!(m.step(&NEXT), MenuStep::Moved));
    assert!(matches!(m.step(&NEXT), MenuStep::Moved));
    match m.step(&SELECT) {
        MenuStep::Chosen(id) => assert_eq!(id, 30),
        _ => panic!("expected a selection"),
    }
}

#[test]
fn idle_tick_changes_nothing() {
    let mut m = three();
    assert!(matches!(m.step(&NONE), MenuStep::Idle));
    match m.step(&SELECT) {
        MenuStep::Chosen(id) => assert_eq!(id, 10),
        _ => panic!("expected a selection"),
    }
}

#[test]
fn previous_wraps_to_last() {
    let mut m = three();
    assert!(matches!(m.step(&PREV), MenuStep::Moved));
    match m.step(&SELECT) {
        MenuStep::Chosen(id) => assert_eq!(id, 30),
        _ => panic!("expected a selection"),
    }
}

#[test]
fn select_wins_over_navigation() {
    let mut m = three();
    match m.step(&[true, true, true, false]) {
        MenuStep::Chosen(id) => assert_eq!(id, 10),
        _ => panic!("expected a selection"),
    }
}

#[test]
fn single_option_menu_cycles_to_itself() {
    let mut m: Menu<'static, u8, 1> = Menu::new("One", [MenuOption::new(7u8, "only")]);
    assert!(matches!(m.step(&NEXT), MenuStep::Moved));
    match m.step(&SELECT) {
        MenuStep::Chosen(id) => assert_eq!(id, 7),
        _ => panic!("expected a selection"),
    }
}

#[test]
fn games_menu_offers_both_games_and_quit() {
    let mut m = GamesMenu::menu();
    match m.step(&SELECT) {
        MenuStep::Chosen(id) => assert_eq!(id, GameSelected::Snake),
        _ => panic!("expected a selection"),
    }
    let mut m = GamesMenu::menu();
    m.step(&NEXT);
    match m.step(&SELECT) {
        MenuStep::Chosen(id) => assert_eq!(id, GameSelected::Breakout),
        _ => panic!("expected a selection"),
    }
    let mut m = GamesMenu::menu();
    m.step(&PREV);
    match m.step(&SELECT) {
        MenuStep::Chosen(id) => assert_eq!(id, GameSelected::Quit),
        _ => panic!("expected a selection"),
    }
}

#[test]
fn center_text_centres_in_display_width() {
    assert_eq!(center_text(24), 30);
    assert_eq!(center_text(84), 0);
    assert_eq!(center_text(0), 42);
}
