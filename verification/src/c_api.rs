//! The typed constants of the native interface: the event enumeration and
//! the panel control flags, each with an exact, verified mapping to and from
//! the raw integer codes that cross the native boundary.

use vstd::prelude::*;

verus! {

/// An application event delivered by the native run loop.
///
/// Each variant stands for one named event code of the native interface;
/// `code` and `from_code` carry the exact integer mapping.
#[allow(non_camel_case_types)]
#[derive(Clone, Copy, Debug, PartialEq, Eq, Hash, Structural)]
pub enum Event {
    INIT,
    EXIT,
    SHOW,
    HIDE,
    KEYPRESS,
    KEYRELEASE,
    KEYREPEAT,
    POINTERUP,
    POINTERDOWN,
    POINTERMOVE,
    POINTERLONG,
    POINTERHOLD,
    POINTERDRAG,
    POINTERCANCEL,
    MTSYNC,
    TAB,
    PANEL,
    PANEL_ICON,
    PANEL_TEXT,
    PANEL_PROGRESS,
    PANEL_MPLAYER,
    PANEL_USBDRIVE,
    PANEL_NETWORK,
    PANEL_CLOCK,
    PANEL_BLUETOOTH,
    PANEL_TASKLIST,
    PANEL_OBREEY_SYNC,
    PANEL_SETREADINGMODE,
    PANEL_SETREADINGMODE_INVERT,
}

impl Event {
    /// The native integer code of this event.
    pub open spec fn spec_code(self) -> i32 {
        match self {
            Event::INIT => 21,
            Event::EXIT => 22,
            Event::SHOW => 23,
            Event::HIDE => 24,
            Event::KEYPRESS => 25,
            Event::KEYRELEASE => 26,
            Event::KEYREPEAT => 28,
            Event::POINTERUP => 29,
            Event::POINTERDOWN => 30,
            Event::POINTERMOVE => 31,
            Event::POINTERLONG => 34,
            Event::POINTERHOLD => 35,
            Event::MTSYNC => 39,
            Event::POINTERDRAG => 44,
            Event::POINTERCANCEL => 45,
            Event::TAB => 119,
            Event::PANEL => 120,
            Event::PANEL_ICON => 121,
            Event::PANEL_TEXT => 122,
            Event::PANEL_PROGRESS => 123,
            Event::PANEL_MPLAYER => 124,
            Event::PANEL_USBDRIVE => 125,
            Event::PANEL_NETWORK => 126,
            Event::PANEL_CLOCK => 127,
            Event::PANEL_BLUETOOTH => 128,
            Event::PANEL_TASKLIST => 129,
            Event::PANEL_OBREEY_SYNC => 130,
            Event::PANEL_SETREADINGMODE => 131,
            Event::PANEL_SETREADINGMODE_INVERT => 132,
        }
    }

    /// The event, if any, whose native code is `code`.
    pub open spec fn spec_from_code(code: i32) -> Option<Event> {
        if code == 21 { Some(Event::INIT) }
        else if code == 22 { Some(Event::EXIT) }
        else if code == 23 { Some(Event::SHOW) }
        else if code == 24 { Some(Event::HIDE) }
        else if code == 25 { Some(Event::KEYPRESS) }
        else if code == 26 { Some(Event::KEYRELEASE) }
        else if code == 28 { Some(Event::KEYREPEAT) }
        else if code == 29 { Some(Event::POINTERUP) }
        else if code == 30 { Some(Event::POINTERDOWN) }
        else if code == 31 { Some(Event::POINTERMOVE) }
        else if code == 34 { Some(Event::POINTERLONG) }
        else if code == 35 { Some(Event::POINTERHOLD) }
        else if code == 39 { Some(Event::MTSYNC) }
        else if code == 44 { Some(Event::POINTERDRAG) }
        else if code == 45 { Some(Event::POINTERCANCEL) }
        else if code == 119 { Some(Event::TAB) }
        else if code == 120 { Some(Event::PANEL) }
        else if code == 121 { Some(Event::PANEL_ICON) }
        else if code == 122 { Some(Event::PANEL_TEXT) }
        else if code == 123 { Some(Event::PANEL_PROGRESS) }
        else if code == 124 { Some(Event::PANEL_MPLAYER) }
        else if code == 125 { Some(Event::PANEL_USBDRIVE) }
        else if code == 126 { Some(Event::PANEL_NETWORK) }
        else if code == 127 { Some(Event::PANEL_CLOCK) }
        else if code == 128 { Some(Event::PANEL_BLUETOOTH) }
        else if code == 129 { Some(Event::PANEL_TASKLIST) }
        else if code == 130 { Some(Event::PANEL_OBREEY_SYNC) }
        else if code == 131 { Some(Event::PANEL_SETREADINGMODE) }
        else if code == 132 { Some(Event::PANEL_SETREADINGMODE_INVERT) }
        else { None }
    }

    /// The native integer code of this event.
    pub fn code(self) -> (c: i32)
        ensures
            c == self.spec_code(),
    {
        match self {
            Event::INIT => 21,
            Event::EXIT => 22,
            Event::SHOW => 23,
            Event::HIDE => 24,
            Event::KEYPRESS => 25,
            Event::KEYRELEASE => 26,
            Event::KEYREPEAT => 28,
            Event::POINTERUP => 29,
            Event::POINTERDOWN => 30,
            Event::POINTERMOVE => 31,
            Event::POINTERLONG => 34,
            Event::POINTERHOLD => 35,
            Event::MTSYNC => 39,
            Event::POINTERDRAG => 44,
            Event::POINTERCANCEL => 45,
            Event::TAB => 119,
            Event::PANEL => 120,
            Event::PANEL_ICON => 121,
            Event::PANEL_TEXT => 122,
            Event::PANEL_PROGRESS => 123,
            Event::PANEL_MPLAYER => 124,
            Event::PANEL_USBDRIVE => 125,
            Event::PANEL_NETWORK => 126,
            Event::PANEL_CLOCK => 127,
            Event::PANEL_BLUETOOTH => 128,
            Event::PANEL_TASKLIST => 129,
            Event::PANEL_OBREEY_SYNC => 130,
            Event::PANEL_SETREADINGMODE => 131,
            Event::PANEL_SETREADINGMODE_INVERT => 132,
        }
    }

    /// The event whose native code is `code`, or `None` when no event
    /// carries that code.
    pub fn from_code(code: i32) -> (e: Option<Event>)
        ensures
            e == Event::spec_from_code(code),
    {
        match code {
            21 => Some(Event::INIT),
            22 => Some(Event::EXIT),
            23 => Some(Event::SHOW),
            24 => Some(Event::HIDE),
            25 => Some(Event::KEYPRESS),
            26 => Some(Event::KEYRELEASE),
            28 => Some(Event::KEYREPEAT),
            29 => Some(Event::POINTERUP),
            30 => Some(Event::POINTERDOWN),
            31 => Some(Event::POINTERMOVE),
            34 => Some(Event::POINTERLONG),
            35 => Some(Event::POINTERHOLD),
            39 => Some(Event::MTSYNC),
            44 => Some(Event::POINTERDRAG),
            45 => Some(Event::POINTERCANCEL),
            119 => Some(Event::TAB),
            120 => Some(Event::PANEL),
            121 => Some(Event::PANEL_ICON),
            122 => Some(Event::PANEL_TEXT),
            123 => Some(Event::PANEL_PROGRESS),
            124 => Some(Event::PANEL_MPLAYER),
            125 => Some(Event::PANEL_USBDRIVE),
            126 => Some(Event::PANEL_NETWORK),
            127 => Some(Event::PANEL_CLOCK),
            128 => Some(Event::PANEL_BLUETOOTH),
            129 => Some(Event::PANEL_TASKLIST),
            130 => Some(Event::PANEL_OBREEY_SYNC),
            131 => Some(Event::PANEL_SETREADINGMODE),
            132 => Some(Event::PANEL_SETREADINGMODE_INVERT),
            _ => None,
        }
    }

    /// True exactly for the key events.
    pub fn is_key(&self) -> (r: bool)
        ensures
            r == (*self == Event::KEYPRESS || *self == Event::KEYRELEASE
                || *self == Event::KEYREPEAT),
    {
        match self {
            Event::KEYPRESS | Event::KEYRELEASE | Event::KEYREPEAT => true,
            _ => false,
        }
    }

    /// True exactly for the pointer and touch events.
    pub fn is_pointer(&self) -> (r: bool)
        ensures
            r == (*self == Event::POINTERUP || *self == Event::POINTERDOWN
                || *self == Event::POINTERMOVE || *self == Event::POINTERLONG
                || *self == Event::POINTERHOLD || *self == Event::MTSYNC
                || *self == Event::POINTERDRAG || *self == Event::POINTERCANCEL),
    {
        match self {
            Event::POINTERUP
            | Event::POINTERDOWN
            | Event::POINTERMOVE
            | Event::POINTERLONG
            | Event::POINTERHOLD
            | Event::MTSYNC
            | Event::POINTERDRAG
            | Event::POINTERCANCEL => true,
            _ => false,
        }
    }

    /// True exactly for the header-panel events.
    pub fn is_panel(&self) -> (r: bool)
        ensures
            r == (*self == Event::TAB || *self == Event::PANEL
                || *self == Event::PANEL_ICON || *self == Event::PANEL_TEXT
                || *self == Event::PANEL_PROGRESS || *self == Event::PANEL_MPLAYER
                || *self == Event::PANEL_USBDRIVE || *self == Event::PANEL_NETWORK
                || *self == Event::PANEL_CLOCK || *self == Event::PANEL_BLUETOOTH
                || *self == Event::PANEL_TASKLIST || *self == Event::PANEL_OBREEY_SYNC
                || *self == Event::PANEL_SETREADINGMODE
                || *self == Event::PANEL_SETREADINGMODE_INVERT),
    {
        match self {
            Event::TAB
            | Event::PANEL
            | Event::PANEL_ICON
            | Event::PANEL_TEXT
            | Event::PANEL_PROGRESS
            | Event::PANEL_MPLAYER
            | Event::PANEL_USBDRIVE
            | Event::PANEL_NETWORK
            | Event::PANEL_CLOCK
            | Event::PANEL_BLUETOOTH
            | Event::PANEL_TASKLIST
            | Event::PANEL_OBREEY_SYNC
            | Event::PANEL_SETREADINGMODE
            | Event::PANEL_SETREADINGMODE_INVERT => true,
            _ => false,
        }
    }
}

/// Converting a known event to its integer code and back yields the same
/// event: the code table is injective and `from_code` inverts `code`.
pub proof fn lemma_event_code_round_trip(e: Event)
    ensures
        Event::spec_from_code(e.spec_code()) == Some(e),
{
}

/// The panel is shown.
pub const PANEL_ENABLED: u32 = 1;

/// Panel events are handed to the application instead of being handled
/// natively.
pub const PANEL_EVENT_NO_HANDLING: u32 = 2;

/// The drawing area is not offset below the panel.
pub const PANEL_NO_FB_OFFSET: u32 = 4;

/// Every known panel flag set at once: the largest valid flag value.
pub const PANEL_FLAGS_MASK: u32 = PANEL_ENABLED | PANEL_EVENT_NO_HANDLING | PANEL_NO_FB_OFFSET;

/// The header panel's control flags, a combination of the known flag bits.
#[derive(Clone, Copy, Debug, PartialEq, Eq, Structural)]
pub struct PanelType(pub u32);

impl PanelType {
    /// The panel flags with raw value `value`: accepted exactly when the
    /// value lies within the union of all known flag bits, rejected as a
    /// typed failure otherwise.
    pub fn try_from(value: i32) -> (r: Result<PanelType, &'static str>)
        ensures
            0 <= value <= PANEL_FLAGS_MASK ==> r == Ok::<PanelType, &'static str>(
                PanelType(value as u32),
            ),
            !(0 <= value <= PANEL_FLAGS_MASK) ==> r is Err && r->Err_0@
                == "Invalid panel type value"@,
    {
        if value < 0 {
            return Err("Invalid panel type value");
        }
        let v = value as u32;
        if v > PANEL_FLAGS_MASK {
            Err("Invalid panel type value")
        } else {
            Ok(PanelType(v))
        }
    }
}

} // verus!
