//! Typed layer over an e-reader's native graphics and event interface.
//!
//! Two subsystems carry the logic of this crate. The constant classifier
//! (`classify`) buckets named integer constants into enumeration groups by
//! prefix rules and emits value-exact enum descriptions. The dispatch bridge
//! (below) holds the one registered event handler and turns raw integer
//! event codes from the native run loop into typed calls on that handler.

use vstd::prelude::*;

pub mod c_api;
pub mod classify;
pub mod text;

pub use c_api::Event;
pub use c_api::PanelType;

verus! {

/// Dispatch result when the raw code maps to no known event.
pub const UNKNOWN_EVENT_RESULT: i32 = -1;

/// Dispatch result when no handler has been registered.
pub const NO_HANDLER_RESULT: i32 = -2;

/// Color for the native drawing routines, packed as 0x00RRGGBB in an `i32`.
pub struct Color(pub i32);

impl Color {
    /// Packs the three channels into the 0x00RRGGBB layout.
    pub fn rgb(red: u8, green: u8, blue: u8) -> (c: Self)
        ensures
            c.0 == red * 0x10000 + green * 0x100 + blue,
    {
        Self((red as i32) * 0x10000 + (green as i32) * 0x100 + (blue as i32))
    }

    /// A grey level: the same intensity in all three channels.
    pub fn gs(intensity: u8) -> (c: Self)
        ensures
            c.0 == intensity * 0x010101,
    {
        Self((intensity as i32) * 0x010101)
    }

    /// The native palette's white.
    pub fn white() -> (c: Self)
        ensures
            c.0 == 0xFFFFFF,
    {
        Self(0xFFFFFF)
    }

    /// The native palette's light grey.
    pub fn lgray() -> (c: Self)
        ensures
            c.0 == 0xAAAAAA,
    {
        Self(0xAAAAAA)
    }

    /// The native palette's dark grey.
    pub fn dgray() -> (c: Self)
        ensures
            c.0 == 0x555555,
    {
        Self(0x555555)
    }

    /// The native palette's black.
    pub fn black() -> (c: Self)
        ensures
            c.0 == 0,
    {
        Self(0)
    }
}

/// An application event handler.
///
/// `response` and `next_state` are the handler's own statement of what it
/// returns and how its state moves when an event arrives; `handle_event` is
/// held to them. Both default to an arbitrary value, so an implementation
/// that states nothing promises nothing.
pub trait EventHandler: Sized {
    /// The result this handler returns for `event` with the two parameters.
    open spec fn response(&self, event: Event, par1: i32, par2: i32) -> i32 {
        vstd::pervasive::arbitrary()
    }

    /// This handler's state after it has handled `event`.
    open spec fn next_state(&self, event: Event, par1: i32, par2: i32) -> Self {
        vstd::pervasive::arbitrary()
    }

    /// Called for each event; the meaning of `par1` and `par2` depends on
    /// the event.
    fn handle_event(&mut self, event: Event, par1: i32, par2: i32) -> (r: i32)
        ensures
            r == old(self).response(event, par1, par2),
            *final(self) == old(self).next_state(event, par1, par2),
    ;
}

/// The handler slot after a registration: the new handler, whatever was
/// there before.
pub open spec fn spec_register<H: EventHandler>(slot: Option<H>, handler: H) -> Option<H> {
    Some(handler)
}

/// The result and the new slot of one trampoline dispatch: the no-handler
/// sentinel on an empty slot, the unknown-event sentinel on a code with no
/// event, and otherwise the handler's own response, with its state advanced.
pub open spec fn spec_dispatch<H: EventHandler>(
    slot: Option<H>,
    code: i32,
    par1: i32,
    par2: i32,
) -> (i32, Option<H>) {
    match slot {
        None => (NO_HANDLER_RESULT, None::<H>),
        Some(h) => match Event::spec_from_code(code) {
            None => (UNKNOWN_EVENT_RESULT, Some(h)),
            Some(e) => (h.response(e, par1, par2), Some(h.next_state(e, par1, par2))),
        },
    }
}

/// The event dispatch bridge: the process-wide slot that holds at most one
/// registered handler, and the typed dispatch decision made for every raw
/// event the native run loop delivers.
pub struct DispatchBridge<H: EventHandler> {
    handler: Option<H>,
}

impl<H: EventHandler> DispatchBridge<H> {
    /// The registered handler, if any.
    pub closed spec fn registered(&self) -> Option<H> {
        self.handler
    }

    /// A bridge with no handler registered yet.
    pub fn new() -> (b: Self)
        ensures
            b.registered() is None,
    {
        DispatchBridge { handler: None }
    }

    /// Stores `handler` as the one event handler, replacing any previous
    /// registration.
    pub fn register(&mut self, handler: H)
        ensures
            final(self).registered() == spec_register(old(self).registered(), handler),
    {
        self.handler = Some(handler);
    }

    /// One trampoline invocation: turns the raw `code` into a typed event
    /// and forwards it to the registered handler.
    ///
    /// With no handler registered the call returns the no-handler sentinel
    /// and nothing else happens; on a code with no event it returns the
    /// unknown-event sentinel and the handler is not invoked; otherwise it
    /// returns the handler's result verbatim.
    pub fn dispatch(&mut self, code: i32, par1: i32, par2: i32) -> (r: i32)
        ensures
            r == spec_dispatch(old(self).registered(), code, par1, par2).0,
            final(self).registered() == spec_dispatch(old(self).registered(), code, par1, par2).1,
            old(self).registered() is None ==> r == NO_HANDLER_RESULT,
            old(self).registered() is Some && Event::spec_from_code(code) is None ==> r
                == UNKNOWN_EVENT_RESULT && final(self).registered() == old(self).registered(),
    {
        let taken = self.handler.take();
        match taken {
            None => NO_HANDLER_RESULT,
            Some(mut h) => match Event::from_code(code) {
                None => {
                    self.handler = Some(h);
                    UNKNOWN_EVENT_RESULT
                },
                Some(e) => {
                    let r = h.handle_event(e, par1, par2);
                    self.handler = Some(h);
                    r
                },
            },
        }
    }
}

/// Registering a second handler makes every later dispatch behave as if
/// only the second had ever been registered: the first handler receives no
/// further events.
pub proof fn lemma_second_registration_wins<H: EventHandler>(
    slot: Option<H>,
    first: H,
    second: H,
    code: i32,
    par1: i32,
    par2: i32,
)
    ensures
        spec_dispatch(spec_register(spec_register(slot, first), second), code, par1, par2)
            == spec_dispatch(spec_register(slot, second), code, par1, par2),
{
}

} // verus!
