//! Window-state engine of a programmable X11 window manager.
//!
//! The engine owns the authoritative registry of top-level windows, turns
//! decoded X11 events and control-plane requests into registry updates, and
//! plans the X11 requests (configure, map, focus) that realise them. Sending
//! those requests and reading events is left to the caller.
pub mod driver;
pub mod laws;
pub mod messages;
pub mod model;
pub mod order;
pub mod protocol;
pub mod windowmanager;

pub use driver::{run, LoopInput, LoopOutput, Step};
pub use model::{RegistryModel, WinInfo};
pub use order::stable_order;
pub use protocol::{
    is_eligible, ConfigureRequestEvent, ConfigureWindow, Event, MapState, StackMode,
    WindowAttributes, X11Request, CONFIG_HEIGHT, CONFIG_WIDTH, CONFIG_X, CONFIG_Y,
};
pub use windowmanager::{handle_request, Waker, WindowManager};
pub use messages::{
    Atom, Request, Response, WinMove, WinResize, WinVisbilty, WinZIndex, Window, WindowInfo,
    ZIndexType,
};

