//! The game client's window and its client-area geometry.
//!
//! Finding the window, reading its geometry and bringing it to the front are Win32
//! calls; on other platforms (as here) the game cannot run, and these report that the
//! window is not there or not supported.
use vstd::prelude::*;

use crate::capture::CaptureError;
use crate::geom::{Point, Rect};

verus! {

/// The game's process name.
pub const GAME_PROCESS: &'static str = "Arknights.exe";

/// A located game window. Only the handle is kept: the window may close at any time,
/// so its geometry is read again whenever it is needed.
#[derive(Clone, Copy, Debug, PartialEq, Eq, Structural)]
pub struct GameWindow {
    hwnd: isize,
}

impl GameWindow {
    /// The window's handle.
    pub closed spec fn handle(self) -> isize {
        self.hwnd
    }

    /// A window is its handle: two windows are equal exactly when their handles are.
    pub proof fn lemma_window_is_its_handle(a: GameWindow, b: GameWindow)
        ensures
            a == b <==> a.handle() == b.handle(),
    {
    }

    /// Finds the visible main window of the game process.
    pub fn find() -> (r: Result<Self, CaptureError>)
        ensures
            r matches Err(CaptureError::WindowNotFound(p)) && p@ == GAME_PROCESS@,
    {
        GameWindow::find_by_process(GAME_PROCESS)
    }

    /// Finds the visible main window of the process named `process_name`. Without the
    /// Win32 window list there is none to find.
    pub fn find_by_process(process_name: &str) -> (r: Result<Self, CaptureError>)
        ensures
            r matches Err(CaptureError::WindowNotFound(p)) && p@ == process_name@,
    {
        Err(CaptureError::WindowNotFound(process_name.to_string()))
    }

    pub fn raw_handle(self) -> (h: isize)
        ensures
            h == self.handle(),
    {
        self.hwnd
    }

    /// A window from a known handle (for debugging and tests).
    pub fn from_raw(hwnd: isize) -> (w: Self)
        ensures
            w.handle() == hwnd,
    {
        GameWindow { hwnd }
    }

    /// The client-area geometry; there is none without Win32.
    pub fn geometry(self) -> (r: Result<ClientGeometry, CaptureError>)
        ensures
            r matches Err(CaptureError::Unsupported),
    {
        Err(CaptureError::Unsupported)
    }

    /// Whether the game is in the foreground (keyboard input needs it).
    pub fn is_foreground(self) -> (b: bool)
        ensures
            !b,
    {
        false
    }

    /// Brings the game to the front.
    pub fn focus(self) -> (r: Result<(), CaptureError>)
        ensures
            r matches Err(CaptureError::Unsupported),
    {
        Err(CaptureError::Unsupported)
    }
}

/// Client-area geometry, in physical pixels.
#[derive(Clone, Copy, Debug, PartialEq, Eq, Structural)]
pub struct ClientGeometry {
    pub width: u32,
    pub height: u32,
    /// Screen position of the client area's top-left corner.
    pub origin: Point,
}

impl ClientGeometry {
    /// Screen position of a client-area point.
    pub fn client_to_screen(self, client: Point) -> (p: Point)
        requires
            i32::MIN <= self.origin.x + client.x <= i32::MAX,
            i32::MIN <= self.origin.y + client.y <= i32::MAX,
        ensures
            p.x == self.origin.x + client.x,
            p.y == self.origin.y + client.y,
    {
        Point::new(self.origin.x + client.x, self.origin.y + client.y)
    }

    /// Whether a client-area point lies inside the client area.
    pub fn contains(self, client: Point) -> (b: bool)
        ensures
            b == (0 <= client.x < self.width && 0 <= client.y < self.height),
    {
        client.x >= 0 && client.y >= 0 && (client.x as i64) < (self.width as i64) && (client.y as i64)
            < (self.height as i64)
    }

    /// The client area as a rectangle at the origin.
    pub fn as_rect(self) -> (r: Rect)
        ensures
            r.x == 0 && r.y == 0,
            r.width == self.width as i32,
            r.height == self.height as i32,
    {
        #[verifier::truncate]
        let w = self.width as i32;
        #[verifier::truncate]
        let h = self.height as i32;
        Rect::new(0, 0, w, h)
    }
}

} // verus!
