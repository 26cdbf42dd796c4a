//! Core logic of a matrix-scanned chording keyboard: debounced key-hold
//! tracking, layer resolution, HID report assembly and chord-packet assembly.
//!
//! The electrical matrix scan and the USB transport are collaborators outside
//! this crate; they exchange plain values (observed scan codes in, report and
//! packet frames out) with the verified engine here.

pub mod keymap;
pub mod laws;
pub mod scan;
pub mod steno;
pub mod tracker;
pub mod transport;
