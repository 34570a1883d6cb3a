//! The part of the X11 protocol the engine reads and writes, as plain values.
use vstd::prelude::*;

use crate::messages::{Atom, Window};

verus! {

/// Bit of a ConfigureRequest's value mask that marks `x` as present.
pub const CONFIG_X: u16 = 1;

/// Bit of a ConfigureRequest's value mask that marks `y` as present.
pub const CONFIG_Y: u16 = 2;

/// Bit of a ConfigureRequest's value mask that marks `width` as present.
pub const CONFIG_WIDTH: u16 = 4;

/// Bit of a ConfigureRequest's value mask that marks `height` as present.
pub const CONFIG_HEIGHT: u16 = 8;

/// Whether `bit` is set in `mask`.
pub open spec fn has_bit(mask: u16, bit: u16) -> bool {
    mask & bit != 0
}

#[derive(Clone, Copy, Debug, PartialEq, Eq, Structural)]
pub enum MapState {
    Unmapped,
    Unviewable,
    Viewable,
}

/// The attributes of a window that decide whether the engine manages it.
#[derive(Clone, Copy, Debug, PartialEq, Eq, Structural)]
pub struct WindowAttributes {
    pub override_redirect: bool,
    pub map_state: MapState,
}

#[derive(Clone, Copy, Debug, PartialEq, Eq, Structural)]
pub enum StackMode {
    Above,
    Below,
}

/// A ConfigureRequest sent by a client for one of its windows.
#[derive(Clone, Copy, Debug, PartialEq, Eq, Structural)]
pub struct ConfigureRequestEvent {
    pub window: Window,
    pub value_mask: u16,
    pub x: i16,
    pub y: i16,
    pub width: u16,
    pub height: u16,
}

/// A decoded event from the root window's event stream.
#[derive(Clone, Copy, Debug, PartialEq, Eq, Structural)]
pub enum Event {
    MapRequest(Window),
    UnmapNotify(Window),
    ConfigureRequest(ConfigureRequestEvent),
    /// A client message, by its type atom.
    ClientMessage(Atom),
    Other,
}

/// One `configure_window` request: the fields left `None` are not sent.
#[derive(Clone, Copy, Debug, PartialEq, Eq, Structural)]
pub struct ConfigureWindow {
    pub window: Window,
    pub x: Option<i32>,
    pub y: Option<i32>,
    pub width: Option<u32>,
    pub height: Option<u32>,
    pub stack_mode: StackMode,
}

/// A request that the engine asks the X11 connection to perform.
#[derive(Clone, Copy, Debug, PartialEq, Eq, Structural)]
pub enum X11Request {
    Configure(ConfigureWindow),
    MapWindow(Window),
    /// `set_input_focus(Parent, window, CurrentTime)`, checked by a round trip.
    SetInputFocus(Window),
    Flush,
}

/// Whether the engine takes a window with these attributes under management:
/// it must not be override-redirect and must not be unmapped.
pub open spec fn eligible(attrs: WindowAttributes) -> bool {
    !attrs.override_redirect && attrs.map_state != MapState::Unmapped
}

/// Whether the engine takes a window with these attributes under management.
pub fn is_eligible(attrs: &WindowAttributes) -> (r: bool)
    ensures
        r == eligible(*attrs),
{
    !attrs.override_redirect && !matches!(attrs.map_state, MapState::Unmapped)
}

} // verus!
