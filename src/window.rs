//! Game window operations.

use vstd::prelude::*;
use vstd::string::StringExecFns;

verus! {

/// The event type of `input`, carried through `Window::poll_event` unread.
#[verifier::external_type_specification]
#[verifier::external_body]
pub struct ExInput(input::Input);

/// Settings for window behavior.
pub struct WindowSettings {
    /// Title of the window.
    pub title: String,
    /// The size of the window.
    pub size: [u32; 2],
    /// Number of samples per pixel (anti-aliasing).
    pub samples: u8,
    /// If true, the window is fullscreen.
    pub fullscreen: bool,
    /// If true, exit when pressing Esc.
    pub exit_on_esc: bool,
}

impl WindowSettings {
    /// Gets default settings: a 640 by 480 window titled "Piston", without
    /// anti-aliasing, not fullscreen, that exits when `Esc` is pressed.
    pub fn default() -> (r: WindowSettings)
        ensures
            r.title@ == "Piston"@,
            r.size@ == seq![640u32, 480u32],
            r.samples == 0,
            !r.fullscreen,
            r.exit_on_esc,
    {
        let r = WindowSettings {
            title: String::from_str("Piston"),
            size: [640, 480],
            samples: 0,
            fullscreen: false,
            exit_on_esc: true,
        };
        assert(r.size@ =~= seq![640u32, 480u32]);
        r
    }
}

/// Implemented by window back-ends.
pub trait Window {
    /// Whether the window has been told to close.
    spec fn closing(&self) -> bool;

    /// The window's settings.
    spec fn settings(&self) -> WindowSettings;

    /// The window's size.
    spec fn size_of(&self) -> (u32, u32);

    /// Get the window's settings.
    fn get_settings(&self) -> (r: &WindowSettings)
        ensures
            *r == self.settings(),
    ;

    /// Returns true if the window should close.
    fn should_close(&self) -> (r: bool)
        ensures
            r == self.closing(),
    ;

    /// Inform the window that it should close. Its settings stay.
    fn close(&mut self)
        ensures
            final(self).closing(),
            final(self).settings() == old(self).settings(),
    ;

    /// Get the window's size. Each back-end says what it is: a window that
    /// does not exist has none, whatever its settings ask for.
    fn get_size(&self) -> (r: (u32, u32))
        ensures
            r == self.size_of(),
    ;

    /// Get the size in drawing coordinates: the window's size.
    fn get_draw_size(&self) -> (r: (u32, u32))
        ensures
            r == self.size_of(),
    {
        self.get_size()
    }

    /// Swap buffers.
    fn swap_buffers(&self) {
    }

    /// When the cursor is captured, it is hidden and the cursor position
    /// does not change. Only relative mouse motion is registered. The
    /// settings, the size and the close flag stay.
    fn capture_cursor(&mut self, _enabled: bool)
        ensures
            final(self).settings() == old(self).settings(),
            final(self).size_of() == old(self).size_of(),
            final(self).closing() == old(self).closing(),
    {
    }

    /// Poll an event from the window's event queue.
    fn poll_event(&mut self) -> Option<input::Input> {
        None
    }
}

/// A window that stands for running without a window at all. Its size is
/// always zero by zero and it has no events.
pub struct NoWindow {
    settings: WindowSettings,
    should_close: bool,
}

impl NoWindow {
    /// Create a new window that does not exist and is not closing.
    pub fn new(settings: WindowSettings) -> (r: NoWindow)
        ensures
            r.settings() == settings,
            !r.closing(),
    {
        NoWindow { settings: settings, should_close: false }
    }
}

impl Window for NoWindow {
    closed spec fn closing(&self) -> bool {
        self.should_close
    }

    closed spec fn settings(&self) -> WindowSettings {
        self.settings
    }

    open spec fn size_of(&self) -> (u32, u32) {
        (0, 0)
    }

    fn get_settings(&self) -> (r: &WindowSettings) {
        &self.settings
    }

    fn should_close(&self) -> (r: bool) {
        self.should_close
    }

    fn close(&mut self) {
        self.should_close = true;
    }

    fn get_size(&self) -> (r: (u32, u32))
        ensures
            r == (0u32, 0u32),
    {
        (0, 0)
    }

    fn poll_event(&mut self) -> (r: Option<input::Input>)
        ensures
            r is None,
            *final(self) == *old(self),
    {
        None
    }
}

} // verus!
