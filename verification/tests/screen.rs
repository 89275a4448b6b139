use mistery::dialog::dialog_text;
use mistery::movement::{player_movement, Heading};
use mistery::screen::{pause_screen_watch, AppState, Stacking};
use mistery::window::{window_fullscreen, Window, WindowMode};

#[test]
fn sorting_orders_the_layers() {
    assert_eq!(Stacking::InGame.sorting(), 0);
    assert_eq!(Stacking::DialogWindow.sorting(), 1);
    assert_eq!(Stacking::PauseScreen.sorting(), 2);
    assert_eq!(Stacking::MainMenu.sorting(), 3);
    assert_eq!(Stacking::Settings.sorting(), 4);
}

#[test]
fn the_pause_key_of_the_two_screen_game() {
    assert_eq!(pause_screen_watch(AppState::InGame), Some(AppState::PauseScreen));
    assert_eq!(pause_screen_watch(AppState::PauseScreen), Some(AppState::InGame));
    assert_eq!(pause_screen_watch(AppState::MainMenu), None);
    assert_eq!(pause_screen_watch(AppState::Settings), None);
    assert_eq!(pause_screen_watch(AppState::DialogWindow), None);
}

#[test]
fn a_dialog_names_its_speaker() {
    assert_eq!(dialog_text("Joe"), "I'm Joe");
    assert_eq!(dialog_text("Rue"), "I'm Rue");
    assert_eq!(dialog_text(""), "I'm ");
}

fn heading(straight_x: i8, straight_y: i8, diagonal_x: i8, diagonal_y: i8) -> Heading {
    Heading { straight_x, straight_y, diagonal_x, diagonal_y }
}

#[test]
fn a_single_key_moves_along_its_axis() {
    assert_eq!(player_movement(false, false, false, false), heading(0, 0, 0, 0));
    assert_eq!(player_movement(true, false, false, false), heading(0, 1, 0, 0));
    assert_eq!(player_movement(false, true, false, false), heading(-1, 0, 0, 0));
    assert_eq!(player_movement(false, false, true, false), heading(0, -1, 0, 0));
    assert_eq!(player_movement(false, false, false, true), heading(1, 0, 0, 0));
}

#[test]
fn two_keys_move_along_a_diagonal() {
    assert_eq!(player_movement(true, true, false, false), heading(0, 0, -1, 1));
    assert_eq!(player_movement(true, false, false, true), heading(0, 0, 1, 1));
    assert_eq!(player_movement(false, true, true, false), heading(0, 0, -1, -1));
    assert_eq!(player_movement(false, false, true, true), heading(0, 0, 1, -1));
}

#[test]
fn opposite_keys() {
    // Alone, each of two opposite keys moves along its axis, and they cancel.
    assert_eq!(player_movement(true, false, true, false), heading(0, 0, 0, 0));
    assert_eq!(player_movement(false, true, false, true), heading(0, 0, 0, 0));
    // With a third key, both diagonals of that key count.
    assert_eq!(player_movement(true, true, true, false), heading(0, 0, -2, 0));
    assert_eq!(player_movement(true, false, true, true), heading(0, 0, 2, 0));
    assert_eq!(player_movement(true, true, false, true), heading(0, 0, 0, 2));
    assert_eq!(player_movement(false, true, true, true), heading(0, 0, 0, -2));
    assert_eq!(player_movement(true, true, true, true), heading(0, 0, 0, 0));
}

#[test]
fn the_window_switches_between_two_modes() {
    let mut window = Window { mode: WindowMode::Windowed };
    assert!(window.is_windowed());
    assert!(!window.is_fullscreen());
    assert!(window.is_valid_mode());
    assert_eq!(window.go_windowed(), Err(()));
    assert_eq!(window.mode, WindowMode::Windowed);
    assert_eq!(window.go_fullscreen(), Ok(()));
    assert_eq!(window.mode, WindowMode::SizedFullscreen);
    assert!(window.is_fullscreen());
    assert_eq!(window.go_fullscreen(), Err(()));
    assert_eq!(window.mode, WindowMode::SizedFullscreen);
    assert_eq!(window.go_windowed(), Ok(()));
    assert_eq!(window.mode, WindowMode::Windowed);
}

#[test]
fn the_other_modes_are_left_alone() {
    for mode in [WindowMode::BorderlessFullscreen, WindowMode::Fullscreen] {
        let mut window = Window { mode };
        assert!(!window.is_valid_mode());
        assert_eq!(window.go_fullscreen(), Err(()));
        assert_eq!(window.go_windowed(), Err(()));
        assert_eq!(window.mode, mode);
    }
}

#[test]
fn the_full_screen_key() {
    let mut window = Window { mode: WindowMode::Windowed };
    window_fullscreen(&mut window);
    assert_eq!(window.mode, WindowMode::SizedFullscreen);
    window_fullscreen(&mut window);
    assert_eq!(window.mode, WindowMode::Windowed);
}
