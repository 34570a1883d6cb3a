//! The arbitration loop's decisions. The engine blocks on X11 events until
//! the wake-up message arrives, then takes at most one control-plane request,
//! answers it, and blocks again. The caller performs the waiting and the
//! sending; `run` decides each turn.
use vstd::prelude::*;

use crate::messages::{Request, Response};
use crate::protocol::{Event, X11Request};
use crate::windowmanager::{handle_request, WindowManager};

verus! {

/// What the loop waits for next.
#[derive(Clone, Copy, Debug, PartialEq, Eq, Structural)]
pub enum Step {
    /// Block on the X11 event stream.
    WaitForEvent,
    /// Take one pending request from the request channel, if there is one.
    TakeRequest,
}

/// What the loop received.
#[derive(Debug, PartialEq, Eq)]
pub enum LoopInput {
    X11Event(Event),
    Request(Request),
    /// The request channel was empty.
    NoRequest,
}

/// The outcome of one turn: what to wait for next, the X11 requests to send
/// (in order), and the response to hand back, if a request was answered.
#[derive(Debug, PartialEq, Eq)]
pub struct LoopOutput {
    pub next: Step,
    pub x11: Vec<X11Request>,
    pub response: Option<Response>,
}

/// Runs one turn of the arbitration loop. An event is applied, and the loop
/// keeps blocking unless it was the wake-up message; a request is answered
/// and the loop blocks again; an empty channel sends it back to blocking.
pub fn run(wm: &mut WindowManager, input: LoopInput) -> (out: LoopOutput)
    requires
        old(wm)@.wf(),
    ensures
        final(wm)@.wf(),
        match input {
            LoopInput::X11Event(ev) => {
                &&& final(wm)@ == old(wm)@.handle_event(ev).0
                &&& out.next == (if old(wm)@.handle_event(ev).1 {
                    Step::WaitForEvent
                } else {
                    Step::TakeRequest
                })
                &&& out.x11@ == old(wm)@.handle_event(ev).2
                &&& out.response.is_none()
            },
            LoopInput::Request(req) => {
                &&& final(wm)@ == old(wm)@.after_request(req)
                &&& out.next == Step::WaitForEvent
                &&& match out.response {
                    Some(resp) => old(wm)@.is_reply(req, resp, out.x11@),
                    None => false,
                }
            },
            LoopInput::NoRequest => {
                &&& final(wm)@ == old(wm)@
                &&& out.next == Step::WaitForEvent
                &&& out.x11@.len() == 0
                &&& out.response.is_none()
            },
        },
{
    match input {
        LoopInput::X11Event(ev) => {
            let (keep_blocking, x11) = wm.handle_event(ev);
            let next = if keep_blocking {
                Step::WaitForEvent
            } else {
                Step::TakeRequest
            };
            LoopOutput { next, x11, response: None }
        },
        LoopInput::Request(req) => {
            let (resp, x11) = handle_request(wm, req);
            LoopOutput { next: Step::WaitForEvent, x11, response: Some(resp) }
        },
        LoopInput::NoRequest => LoopOutput {
            next: Step::WaitForEvent,
            x11: Vec::new(),
            response: None,
        },
    }
}

} // verus!
