use vstd::prelude::*;
use crate::menu::{Menu, MenuOption};

verus! {

/// The games the picker offers, plus the way back to the root menu.
#[derive(Clone, Copy, Debug, PartialEq, Eq, Structural)]
pub enum GameSelected {
    Snake,
    Breakout,
    Quit,
}

/// The game picker. It builds the second-level menu; the caller runs that
/// menu and dispatches the chosen identifier to the matching engine.
pub struct GamesMenu;

impl GamesMenu {
    /// The picker's option list: the two games and a way back out.
    pub fn menu() -> (m: Menu<'static, GameSelected, 3>)
        ensures
            m.wf(),
            m.selected.0 == 0,
            m.options[0].id == GameSelected::Snake,
            m.options[1].id == GameSelected::Breakout,
            m.options[2].id == GameSelected::Quit,
    {
        Menu::new(
            "Graj",
            [
                MenuOption::new(GameSelected::Snake, "Wensz"),
                MenuOption::new(GameSelected::Breakout, "Breakout"),
                MenuOption::new(GameSelected::Quit, "Wyjdz"),
            ],
        )
    }
}

} // verus!
