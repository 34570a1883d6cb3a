//! Control-plane messages exchanged with an external policy process.
use vstd::prelude::*;

verus! {

/// An X11 window handle; compared by equality, never interpreted.
pub type Window = u32;

/// Stacking key: smaller values stack lower.
pub type ZIndexType = u32;

/// An interned X11 atom.
pub type Atom = u32;

#[derive(Clone, Copy, Debug, PartialEq, Eq, Structural)]
pub struct WinResize {
    pub id: Window,
    pub width: u32,
    pub height: u32,
}

#[derive(Clone, Copy, Debug, PartialEq, Eq, Structural)]
pub struct WinMove {
    pub id: Window,
    pub x: i32,
    pub y: i32,
}

#[derive(Clone, Copy, Debug, PartialEq, Eq, Structural)]
pub struct WinVisbilty {
    pub id: Window,
    pub visible: bool,
}

#[derive(Clone, Copy, Debug, PartialEq, Eq, Structural)]
pub struct WinZIndex {
    pub id: Window,
    pub zindex: ZIndexType,
}

#[derive(Debug, PartialEq, Eq)]
pub enum Request {
    ChangeVisibility(Vec<WinVisbilty>),
    ChangeZIndex(Vec<WinZIndex>),
    ListNewWindows,
    ResizeWindows(Vec<WinResize>),
    MoveWindows(Vec<WinMove>),
    ListVisibleWindows,
    ListHiddenWindows,
    FocusWindow(Window),
    Commit,
}

/// A window as reported to the policy process: its id and its geometry.
#[derive(Clone, Copy, Debug, PartialEq, Eq, Structural)]
pub struct WindowInfo {
    pub id: Window,
    pub x: i32,
    pub y: i32,
    pub width: u32,
    pub height: u32,
}

#[derive(Debug, PartialEq, Eq)]
pub enum Response {
    VisibiltyChanged(Vec<Window>),
    ZIndexChanged(Vec<Window>),
    NewWindows(Vec<WindowInfo>),
    VisibleWindows(Vec<WindowInfo>),
    HiddenWindows(Vec<WindowInfo>),
    CommitComplete,
    MoveComplete,
    ResizeComplete,
    WindowFocused(bool),
}

} // verus!
