//! The screens of the game and the moves between them.
use vstd::prelude::*;
use crate::units::{valid_time, valid_delta, clock_after, advance_clock};
use crate::score::Score;

verus! {

/// How long the game-over screen stays before it can be left.
pub const GAME_OVER_DISPLAY_TIME: i64 = 2_000_000;

/// The screens of the game.
#[derive(Clone, Copy, Debug, PartialEq, Eq, Structural)]
pub enum Screen {
    Title,
    Loading,
    Gameplay,
    GameOver,
}

/// How long the game-over screen has been shown.
#[derive(Clone, Copy, Debug, PartialEq, Eq, Structural)]
pub struct GameOverTimer(pub i64);

/// The screen that comes after the title when play is asked for: the game if
/// everything is loaded, else the loading screen.
pub fn enter_loading_or_gameplay_screen(all_loaded: bool) -> (next: Screen)
    ensures
        next == if all_loaded {
            Screen::Gameplay
        } else {
            Screen::Loading
        },
{
    if all_loaded {
        Screen::Gameplay
    } else {
        Screen::Loading
    }
}

/// The screen that a tick of the level asks for: the game-over screen when
/// the tick ended the game, else none.
pub fn screen_after_tick(game_over: bool) -> (next: Option<Screen>)
    ensures
        next == if game_over {
            Some(Screen::GameOver)
        } else {
            None::<Screen>
        },
{
    if game_over {
        Some(Screen::GameOver)
    } else {
        None
    }
}

/// Counts the time that the game-over screen has been shown.
pub fn update_game_over_timer(timer: &mut GameOverTimer, delta: i64)
    requires
        valid_time(old(timer).0 as int),
        valid_delta(delta as int),
    ensures
        final(timer).0 == clock_after(old(timer).0 as int, delta as int),
        valid_time(final(timer).0 as int),
{
    timer.0 = advance_clock(timer.0, delta);
}

/// Whether the game-over screen has been shown long enough to be left.
pub open spec fn may_leave(timer: GameOverTimer) -> bool {
    timer.0 >= GAME_OVER_DISPLAY_TIME
}

/// Asked to leave the game-over screen: once it has been shown long enough,
/// returns to the title and clears the score; before that, nothing happens.
pub fn go_to_main_menu(timer: &GameOverTimer, score: &mut Score) -> (next: Option<Screen>)
    ensures
        may_leave(*timer) ==> next == Some(Screen::Title) && final(score).0 == 0,
        !may_leave(*timer) ==> next.is_none() && *final(score) == *old(score),
{
    if timer.0 >= GAME_OVER_DISPLAY_TIME {
        score.0 = 0;
        Some(Screen::Title)
    } else {
        None
    }
}

} // verus!
