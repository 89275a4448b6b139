//! The mode of the game's window, and the switch between windowed and
//! full screen.

use vstd::prelude::*;

verus! {

/// How a window takes up the screen.
#[derive(Clone, Copy, Debug, PartialEq, Eq, Structural)]
pub enum WindowMode {
    Windowed,
    BorderlessFullscreen,
    SizedFullscreen,
    Fullscreen,
}

/// A window, as far as its mode goes.
#[derive(Clone, Copy, Debug, PartialEq, Eq, Structural)]
pub struct Window {
    pub mode: WindowMode,
}

impl Window {
    /// The mode that counts as windowed.
    pub open spec fn windowed() -> WindowMode {
        WindowMode::Windowed
    }

    /// The mode that counts as full screen.
    pub open spec fn fullscreen() -> WindowMode {
        WindowMode::SizedFullscreen
    }

    /// Whether the window is full screen.
    pub fn is_fullscreen(&self) -> (yes: bool)
        ensures
            yes == (self.mode == Window::fullscreen()),
    {
        self.mode == WindowMode::SizedFullscreen
    }

    /// Whether the window is windowed.
    pub fn is_windowed(&self) -> (yes: bool)
        ensures
            yes == (self.mode == Window::windowed()),
    {
        self.mode == WindowMode::Windowed
    }

    /// Whether the window is in one of the two modes between which it
    /// switches.
    pub fn is_valid_mode(&self) -> (yes: bool)
        ensures
            yes == (self.mode == Window::fullscreen() || self.mode == Window::windowed()),
    {
        self.is_fullscreen() || self.is_windowed()
    }

    /// Takes a windowed window to full screen. Fails, and changes nothing,
    /// where the window is not windowed.
    pub fn go_fullscreen(&mut self) -> (result: Result<(), ()>)
        ensures
            old(self).mode == Window::windowed() ==> result is Ok && final(self).mode
                == Window::fullscreen(),
            old(self).mode != Window::windowed() ==> result is Err && *final(self) == *old(self),
    {
        if self.is_windowed() {
            self.mode = WindowMode::SizedFullscreen;
            Ok(())
        } else {
            Err(())
        }
    }

    /// Takes a full-screen window back to windowed. Fails, and changes
    /// nothing, where the window is not full screen.
    pub fn go_windowed(&mut self) -> (result: Result<(), ()>)
        ensures
            old(self).mode == Window::fullscreen() ==> result is Ok && final(self).mode
                == Window::windowed(),
            old(self).mode != Window::fullscreen() ==> result is Err && *final(self) == *old(self),
    {
        if self.is_fullscreen() {
            self.mode = WindowMode::Windowed;
            Ok(())
        } else {
            Err(())
        }
    }
}

/// The full-screen key: a windowed window goes to full screen, a full-screen
/// window back to windowed. The window has to be in one of the two modes.
pub fn window_fullscreen(window: &mut Window)
    requires
        old(window).mode == Window::fullscreen() || old(window).mode == Window::windowed(),
    ensures
        old(window).mode == Window::windowed() ==> final(window).mode == Window::fullscreen(),
        old(window).mode == Window::fullscreen() ==> final(window).mode == Window::windowed(),
{
    if window.is_fullscreen() {
        let _ = window.go_windowed();
    } else if window.is_windowed() {
        let _ = window.go_fullscreen();
    }
}

} // verus!
