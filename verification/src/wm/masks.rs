//! Event masks: which events the manager asks the server to report on the
//! root window, on its frames and on the client windows.
//!
//! A mask is the 32-bit word of the core protocol, one bit for each class of
//! event.

use vstd::prelude::*;

verus! {

pub const NO_EVENT: u32 = 0x0000_0000;

pub const BUTTON_PRESS: u32 = 0x0000_0004;

pub const BUTTON_RELEASE: u32 = 0x0000_0008;

pub const ENTER_WINDOW: u32 = 0x0000_0010;

pub const POINTER_MOTION: u32 = 0x0000_0040;

pub const BUTTON_MOTION: u32 = 0x0000_2000;

pub const EXPOSURE: u32 = 0x0000_8000;

pub const STRUCTURE_NOTIFY: u32 = 0x0002_0000;

pub const SUBSTRUCTURE_NOTIFY: u32 = 0x0008_0000;

pub const SUBSTRUCTURE_REDIRECT: u32 = 0x0010_0000;

pub const FOCUS_CHANGE: u32 = 0x0020_0000;

pub const PROPERTY_CHANGE: u32 = 0x0040_0000;

/// Key and button state of an input event: the control key is down.
pub const STATE_CONTROL: u32 = 0x0004;

/// Key and button state of an input event: a shift key is down.
pub const STATE_SHIFT: u32 = 0x0001;

/// Key and button state of an input event: the primary button is down.
pub const STATE_BUTTON1: u32 = 0x0100;

/// Key and button state of an input event: the secondary button is down.
pub const STATE_BUTTON3: u32 = 0x0400;

/// What a client that wants to be the window manager selects on the root.
/// The server grants the redirect to one client only.
pub open spec fn manager_events() -> u32 {
    SUBSTRUCTURE_REDIRECT | SUBSTRUCTURE_NOTIFY
}

/// Events of a client window.
pub open spec fn child_window_events() -> u32 {
    PROPERTY_CHANGE | SUBSTRUCTURE_NOTIFY | FOCUS_CHANGE
}

/// Events of a frame: the mouse, redraws, the frame's own fate, and what its
/// client does or asks for.
pub open spec fn frame_window_events() -> u32 {
    BUTTON_PRESS | BUTTON_RELEASE | BUTTON_MOTION | EXPOSURE | STRUCTURE_NOTIFY
        | SUBSTRUCTURE_NOTIFY | SUBSTRUCTURE_REDIRECT | ENTER_WINDOW
}

/// Events of the root window.
pub open spec fn root_window_events() -> u32 {
    BUTTON_PRESS | STRUCTURE_NOTIFY | SUBSTRUCTURE_REDIRECT | POINTER_MOTION | PROPERTY_CHANGE
        | FOCUS_CHANGE | ENTER_WINDOW
}

/// What a button grab on a client reports.
pub open spec fn button_grab_events() -> u32 {
    BUTTON_PRESS | BUTTON_RELEASE | BUTTON_MOTION
}

/// A mask without the report of the pointer entering the window.
pub open spec fn without_enter(mask: u32) -> u32 {
    mask & !ENTER_WINDOW
}

/// Whether all bits of `bits` are set in `state`.
pub open spec fn holds_all(state: u32, bits: u32) -> bool {
    state & bits == bits
}

/// The masks that the manager works with.
#[derive(Debug, Clone, Copy, PartialEq, Eq, Structural)]
pub struct Masks {
    /// Selected on the root to become the window manager.
    pub manager_events: u32,
    /// Events for the child windows (the actual windows).
    pub child_window_events: u32,
    /// Events for the frame windows.
    pub frame_window_events: u32,
    /// Events for the root window.
    pub root_window_events: u32,
    /// Events of the button grab on a child window.
    pub button_grab_events: u32,
}

impl Masks {
    /// The masks as the manager uses them.
    pub open spec fn standard() -> Masks {
        Masks {
            manager_events: manager_events(),
            child_window_events: child_window_events(),
            frame_window_events: frame_window_events(),
            root_window_events: root_window_events(),
            button_grab_events: button_grab_events(),
        }
    }

    pub fn new() -> (masks: Masks)
        ensures
            masks == Masks::standard(),
    {
        Masks {
            manager_events: SUBSTRUCTURE_REDIRECT | SUBSTRUCTURE_NOTIFY,
            child_window_events: PROPERTY_CHANGE | SUBSTRUCTURE_NOTIFY | FOCUS_CHANGE,
            frame_window_events: BUTTON_PRESS | BUTTON_RELEASE | BUTTON_MOTION | EXPOSURE
                | STRUCTURE_NOTIFY | SUBSTRUCTURE_NOTIFY | SUBSTRUCTURE_REDIRECT | ENTER_WINDOW,
            root_window_events: BUTTON_PRESS | STRUCTURE_NOTIFY | SUBSTRUCTURE_REDIRECT
                | POINTER_MOTION | PROPERTY_CHANGE | FOCUS_CHANGE | ENTER_WINDOW,
            button_grab_events: BUTTON_PRESS | BUTTON_RELEASE | BUTTON_MOTION,
        }
    }

    /// The frame mask for the time of a reparent: the pointer entering the
    /// frame is not reported, everything else is as in the full mask.
    pub fn frame_events_while_reparenting(&self) -> (mask: u32)
        ensures
            mask == without_enter(self.frame_window_events),
    {
        self.frame_window_events & !ENTER_WINDOW
    }
}

/// Whether all bits of `bits` are set in `state`.
pub fn state_contains(state: u32, bits: u32) -> (all: bool)
    ensures
        all == holds_all(state, bits),
{
    state & bits == bits
}

/// Taking the pointer-entered bit out of a mask clears that bit and no other.
pub proof fn lemma_without_enter(mask: u32)
    ensures
        without_enter(mask) & ENTER_WINDOW == 0,
        without_enter(mask) | (mask & ENTER_WINDOW) == mask,
        without_enter(mask) | ENTER_WINDOW == mask | ENTER_WINDOW,
{
    assert((mask & !0x10u32) & 0x10u32 == 0) by (bit_vector);
    assert((mask & !0x10u32) | (mask & 0x10u32) == mask) by (bit_vector);
    assert((mask & !0x10u32) | 0x10u32 == mask | 0x10u32) by (bit_vector);
}

/// The full frame mask reports the pointer entering; the mask used while
/// reparenting differs from it in that bit alone.
pub proof fn lemma_frame_masks()
    ensures
        holds_all(frame_window_events(), ENTER_WINDOW),
        !holds_all(without_enter(frame_window_events()), ENTER_WINDOW),
        without_enter(frame_window_events()) | ENTER_WINDOW == frame_window_events(),
{
    assert((0x4u32 | 0x8u32 | 0x2000u32 | 0x8000u32 | 0x20000u32 | 0x80000u32 | 0x100000u32
        | 0x10u32) & 0x10u32 == 0x10u32) by (bit_vector);
    let full: u32 = frame_window_events();
    assert(full & 0x10u32 == 0x10u32);
    assert((full & !0x10u32) & 0x10u32 != 0x10u32) by (bit_vector);
    assert(full & 0x10u32 == 0x10u32 ==> (full & !0x10u32) | 0x10u32 == full) by (bit_vector);
}

} // verus!
