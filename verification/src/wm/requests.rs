//! What the manager sends to the server and what it asks of it, as plain
//! values. The caller turns them into protocol requests and brings the
//! replies back.

use vstd::prelude::*;
use vstd::string::StringExecFns;
use crate::text::{decimal, decimal_string};
use crate::window_geometry::WindowGeometry;

verus! {

/// Width of a frame's border, in pixels.
pub const FRAME_BORDER_WIDTH: u16 = 10;

/// Background colour of a frame.
pub const FRAME_BACKGROUND: u32 = 0x0000ff;

/// Border colour of the frame that holds the focus, and of a new frame.
pub const BORDER_FOCUSED: u32 = 0xff0000;

/// Border colour of the other frames.
pub const BORDER_UNFOCUSED: u32 = 0xaaaaaa;

/// Key code of the key that closes a window and, with shift, ends the manager.
pub const CLOSE_KEY: u8 = 0x18;

/// Where a window goes in the stacking order.
#[derive(Debug, Clone, Copy, PartialEq, Eq)]
pub enum StackMode {
    Above,
    Below,
    TopIf,
    BottomIf,
    Opposite,
}

/// Whether a window enters or leaves the save set.
#[derive(Debug, Clone, Copy, PartialEq, Eq)]
pub enum SetMode {
    Insert,
    Delete,
}

/// The value of a string property that the manager writes.
#[derive(Debug, Clone, Copy, PartialEq, Eq)]
pub enum PropertyValue {
    /// The text `1`: the window is a frame.
    FrameMarker,
    /// The process id of the manager, in decimal.
    ProcessId(u32),
    /// The path of the control socket.
    SocketPath,
}

impl PropertyValue {
    /// The text of the value, where the manager knows it. The path of the
    /// control socket is known to the caller only.
    pub open spec fn text_of(self) -> Option<Seq<char>> {
        match self {
            PropertyValue::FrameMarker => Some("1"@),
            PropertyValue::ProcessId(pid) => Some(decimal(pid as nat)),
            PropertyValue::SocketPath => None,
        }
    }

    /// The text to write for the value, where the manager knows it.
    pub fn text(&self) -> (text: Option<String>)
        ensures
            match text {
                Some(written) => self.text_of() == Some(written@),
                None => self.text_of() is None,
            },
    {
        match self {
            PropertyValue::FrameMarker => Some(String::from_str("1")),
            PropertyValue::ProcessId(pid) => Some(decimal_string(*pid as u64)),
            PropertyValue::SocketPath => None,
        }
    }
}

/// The values of a configure request; an absent value leaves that part of
/// the window as it is.
#[derive(Debug, Clone, Copy, PartialEq, Eq)]
pub struct ConfigureValues {
    pub x: Option<i32>,
    pub y: Option<i32>,
    pub width: Option<u32>,
    pub height: Option<u32>,
    pub border_width: Option<u32>,
    pub stack_mode: Option<StackMode>,
}

impl ConfigureValues {
    /// Nothing changes.
    pub open spec fn nothing() -> ConfigureValues {
        ConfigureValues {
            x: None,
            y: None,
            width: None,
            height: None,
            border_width: None,
            stack_mode: None,
        }
    }

    /// Only the position changes.
    pub open spec fn position(x: i32, y: i32) -> ConfigureValues {
        ConfigureValues { x: Some(x), y: Some(y), ..ConfigureValues::nothing() }
    }

    /// Position and size change.
    pub open spec fn placement(x: i32, y: i32, width: u32, height: u32) -> ConfigureValues {
        ConfigureValues {
            x: Some(x),
            y: Some(y),
            width: Some(width),
            height: Some(height),
            ..ConfigureValues::nothing()
        }
    }

    /// Only the place in the stacking order changes.
    pub open spec fn stacking(mode: StackMode) -> ConfigureValues {
        ConfigureValues { stack_mode: Some(mode), ..ConfigureValues::nothing() }
    }

    pub fn none() -> (values: ConfigureValues)
        ensures
            values == ConfigureValues::nothing(),
    {
        ConfigureValues {
            x: None,
            y: None,
            width: None,
            height: None,
            border_width: None,
            stack_mode: None,
        }
    }

    pub fn at(x: i32, y: i32) -> (values: ConfigureValues)
        ensures
            values == ConfigureValues::position(x, y),
    {
        let mut values = ConfigureValues::none();
        values.x = Some(x);
        values.y = Some(y);
        values
    }

    pub fn placed(x: i32, y: i32, width: u32, height: u32) -> (values: ConfigureValues)
        ensures
            values == ConfigureValues::placement(x, y, width, height),
    {
        let mut values = ConfigureValues::none();
        values.x = Some(x);
        values.y = Some(y);
        values.width = Some(width);
        values.height = Some(height);
        values
    }

    pub fn stacked(mode: StackMode) -> (values: ConfigureValues)
        ensures
            values == ConfigureValues::stacking(mode),
    {
        let mut values = ConfigureValues::none();
        values.stack_mode = Some(mode);
        values
    }
}

/// A request to the server.
#[derive(Debug, Clone, Copy, PartialEq, Eq)]
pub enum Request {
    /// Select the events of a window.
    SelectEvents { window: u32, mask: u32 },
    /// Set the colour of a window's border.
    SetBorderColor { window: u32, pixel: u32 },
    /// Keep every other client from talking to the server.
    GrabServer,
    /// End the server grab.
    UngrabServer,
    /// Have a key reported to the manager whatever the modifiers and
    /// wherever the focus is.
    GrabKey { window: u32, key: u8 },
    /// Write a string property of a window, replacing its value.
    SetProperty { window: u32, property: u32, value: PropertyValue },
    /// Create a frame as a child of `parent`.
    CreateFrame {
        frame: u32,
        parent: u32,
        x: i16,
        y: i16,
        width: u16,
        height: u16,
        border_width: u16,
        background: u32,
        border: u32,
        mask: u32,
    },
    /// Put a window into the save set or take it out.
    ChangeSaveSet { window: u32, mode: SetMode },
    /// Make a window a child of `parent`, at the given offset.
    Reparent { window: u32, parent: u32, x: i16, y: i16 },
    MapWindow { window: u32 },
    UnmapWindow { window: u32 },
    DestroyWindow { window: u32 },
    /// Have every button on a window reported to the manager, whatever the
    /// modifiers.
    GrabButtons { window: u32, confine_to: u32, mask: u32 },
    /// Move, resize or restack a window.
    Configure { window: u32, values: ConfigureValues },
    /// Tell a client, by a client message of type `protocols` that names
    /// `delete`, to close its window.
    SendDelete { window: u32, protocols: u32, delete: u32 },
    /// Give a window the input focus; the focus reverts to the pointer root.
    SetInputFocus { focus: u32 },
    /// Send what has been queued.
    Flush,
}

/// What becomes of a failure of a request.
#[derive(Debug, Clone, Copy, PartialEq, Eq)]
pub enum Delivery {
    /// The request is sent and checked at once; a failure ends the work on
    /// the requests that follow.
    Checked,
    /// The request is sent with the others of its pass and checked after the
    /// last of them has been sent.
    Deferred,
    /// The request is sent and a failure is not looked for: the window may
    /// be gone already.
    Unchecked,
}

/// A request with the way it is delivered.
#[derive(Debug, Clone, Copy, PartialEq, Eq)]
pub struct Outgoing {
    pub request: Request,
    pub delivery: Delivery,
}

/// A question to the server.
#[derive(Debug, Clone, Copy, PartialEq, Eq)]
pub enum Query {
    /// The children of a window, bottom-most first.
    Children { window: u32 },
    /// The geometry of a window.
    Geometry { window: u32 },
    /// The attributes of a window.
    Attributes { window: u32 },
    /// An id for a new window.
    FreshId,
    /// The protocols that a client window takes part in.
    Protocols { window: u32 },
}

/// The attributes of a window that the manager reads.
#[derive(Debug, Clone, Copy, PartialEq, Eq)]
pub struct WindowAttributes {
    /// The window asks not to be managed.
    pub override_redirect: bool,
    /// The window is mapped and so are its ancestors.
    pub viewable: bool,
}

/// The server's answer to a question.
#[derive(Debug, Clone, PartialEq, Eq)]
pub enum Reply {
    Children(Vec<u32>),
    Geometry(WindowGeometry),
    Attributes(WindowAttributes),
    FreshId(u32),
    Protocols(Vec<u32>),
}

/// What the caller does next.
#[derive(Debug, Clone, Copy, PartialEq, Eq)]
pub enum Next {
    /// Nothing: the manager has finished with what it was handed.
    Done,
    /// Put the question to the server and hand the answer to
    /// [`crate::wm::WindowManager::resume`].
    Ask(Query),
}

/// The manager's answer to an event, a command or a reply: requests to send,
/// in this order, and what to do after that.
#[derive(Debug, Clone, PartialEq, Eq)]
pub struct Step {
    pub requests: Vec<Outgoing>,
    pub next: Next,
}

/// A request that is checked at once.
pub open spec fn checked(request: Request) -> Outgoing {
    Outgoing { request, delivery: Delivery::Checked }
}

/// A request that is checked after its pass.
pub open spec fn deferred(request: Request) -> Outgoing {
    Outgoing { request, delivery: Delivery::Deferred }
}

/// A request whose failure is not looked for.
pub open spec fn unchecked(request: Request) -> Outgoing {
    Outgoing { request, delivery: Delivery::Unchecked }
}

impl Outgoing {
    pub fn checked(request: Request) -> (out: Outgoing)
        ensures
            out == checked(request),
    {
        Outgoing { request, delivery: Delivery::Checked }
    }

    pub fn deferred(request: Request) -> (out: Outgoing)
        ensures
            out == deferred(request),
    {
        Outgoing { request, delivery: Delivery::Deferred }
    }

    pub fn unchecked(request: Request) -> (out: Outgoing)
        ensures
            out == unchecked(request),
    {
        Outgoing { request, delivery: Delivery::Unchecked }
    }
}

} // verus!
