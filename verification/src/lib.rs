//! The engine of a minimal reparenting window manager for X, free of I/O.
//!
//! The manager wraps every top-level window in a frame of its own, lets the
//! user move and resize the frames with the mouse, and takes commands over a
//! local control socket. This crate holds everything that decides. It is
//! handed protocol events, replies, commands and signals as plain values,
//! and answers with the requests that its caller has to send to the server
//! and with the one thing that the caller has to do next.
//!
//! - [`event_loop`] is the loop that merges the sources of input, as a
//!   state machine.
//! - [`wm`] is the window manager: framing, unframing, closing, dragging,
//!   focus and decoration.
//! - [`ignored_sequences`] is the table of requests whose events are to be
//!   dropped.
//! - [`ipc`] and [`commands`] are the control channel and what goes over it;
//!   [`socket_path`] says where its socket lives.
//! - [`point`], [`rect`] and [`window_geometry`] are the geometry.
//! - [`tiler`] is a layout tree.
//! - [`text`] writes numbers.

pub mod commands;
pub mod event_loop;
pub mod ignored_sequences;
pub mod ipc;
pub mod point;
pub mod rect;
pub mod socket_path;
pub mod text;
pub mod tiler;
pub mod window_geometry;
pub mod wm;
