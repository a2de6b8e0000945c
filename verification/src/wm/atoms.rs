//! The atom table: the named protocol identifiers that the manager needs,
//! interned once at startup.

use vstd::prelude::*;

verus! {

/// How many names the manager interns.
pub const ATOM_COUNT: usize = 10;

/// The identifiers that the server gave to the manager's names.
#[derive(Debug, Clone, Copy, PartialEq, Eq)]
pub struct Atoms {
    /// `WM_PROTOCOLS`: the property in which a client lists its protocols.
    pub wm_protocols: u32,
    /// `WM_DELETE_WINDOW`: the protocol of closing a window on request.
    pub wm_del_window: u32,
    /// `_NET_ACTIVE_WINDOW`
    pub wm_active_window: u32,
    /// `_NET_WM_STATE`
    pub wm_state: u32,
    /// `_NET_WM_STATE_MAXIMIZED_VERT`
    pub wm_state_maxv: u32,
    /// `_NET_WM_STATE_MAXIMIZED_HORZ`
    pub wm_state_maxh: u32,
    /// `R3_PID`: on the root window, the manager's process id.
    pub r3_pid: u32,
    /// `R3_SOCKET_PATH`: on the root window, the path of the control socket.
    pub r3_socket_path: u32,
    /// `R3_SYNC`
    pub r3_sync: u32,
    /// `R3_FRAME`: on a window, the mark of a frame.
    pub r3_frame: u32,
}

/// The names, in the order in which they are interned.
pub open spec fn atom_names() -> Seq<Seq<char>> {
    seq![
        "WM_PROTOCOLS"@,
        "WM_DELETE_WINDOW"@,
        "_NET_ACTIVE_WINDOW"@,
        "_NET_WM_STATE"@,
        "_NET_WM_STATE_MAXIMIZED_VERT"@,
        "_NET_WM_STATE_MAXIMIZED_HORZ"@,
        "R3_PID"@,
        "R3_SOCKET_PATH"@,
        "R3_SYNC"@,
        "R3_FRAME"@,
    ]
}

/// The table that a sequence of identifiers makes, taken in the order of the
/// names.
pub open spec fn atoms_from(ids: Seq<u32>) -> Atoms {
    Atoms {
        wm_protocols: ids[0],
        wm_del_window: ids[1],
        wm_active_window: ids[2],
        wm_state: ids[3],
        wm_state_maxv: ids[4],
        wm_state_maxh: ids[5],
        r3_pid: ids[6],
        r3_socket_path: ids[7],
        r3_sync: ids[8],
        r3_frame: ids[9],
    }
}

/// The name to intern at position `index`, if there is one. Every name is
/// interned whether or not the server knows it already.
pub fn atom_name(index: usize) -> (name: Option<&'static str>)
    ensures
        match name {
            Some(text) => index < ATOM_COUNT && text@ == atom_names()[index as int],
            None => index >= ATOM_COUNT,
        },
{
    match index {
        0 => Some("WM_PROTOCOLS"),
        1 => Some("WM_DELETE_WINDOW"),
        2 => Some("_NET_ACTIVE_WINDOW"),
        3 => Some("_NET_WM_STATE"),
        4 => Some("_NET_WM_STATE_MAXIMIZED_VERT"),
        5 => Some("_NET_WM_STATE_MAXIMIZED_HORZ"),
        6 => Some("R3_PID"),
        7 => Some("R3_SOCKET_PATH"),
        8 => Some("R3_SYNC"),
        9 => Some("R3_FRAME"),
        _ => None,
    }
}

impl Atoms {
    /// The table made of the server's replies, one for each name and in the
    /// order of the names. Nothing if a reply is missing or one is too many.
    pub fn intern_all(ids: &Vec<u32>) -> (atoms: Option<Atoms>)
        ensures
            atoms == if ids@.len() == ATOM_COUNT {
                Some(atoms_from(ids@))
            } else {
                None
            },
    {
        if ids.len() != ATOM_COUNT {
            return None;
        }
        Some(
            Atoms {
                wm_protocols: ids[0],
                wm_del_window: ids[1],
                wm_active_window: ids[2],
                wm_state: ids[3],
                wm_state_maxv: ids[4],
                wm_state_maxh: ids[5],
                r3_pid: ids[6],
                r3_socket_path: ids[7],
                r3_sync: ids[8],
                r3_frame: ids[9],
            },
        )
    }
}

} // verus!
