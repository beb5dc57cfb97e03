//! Hardware timing of button presses.
//!
//! The input layer below the compositor only knows relative motion, so it says
//! nothing about where a click landed. What it does know exactly is when a
//! button went down.
use vstd::prelude::*;

verus! {

/// A button transition, with the hardware's own timestamp.
#[derive(Debug, Clone, Copy, PartialEq, Eq, Structural)]
pub struct RawButtonEvent {
    pub button_code: u32,
    pub pressed: bool,
    /// Microseconds, as the hardware stamped them.
    pub time_usec: u64,
}

/// How a device file is to be opened.
#[derive(Debug, Clone, Copy, PartialEq, Eq, Structural)]
pub struct OpenMode {
    pub read: bool,
    pub write: bool,
    /// Further flags for the operating system.
    pub custom_flags: i32,
}

/// How to open a device with the flags that were asked for: always for reading,
/// for writing too if they hold one of `write_flags`.
pub fn open_mode(flags: i32, write_flags: i32) -> (mode: OpenMode)
    ensures
        mode == (OpenMode {
            read: true,
            write: flags & write_flags != 0,
            custom_flags: flags,
        }),
{
    OpenMode { read: true, write: flags & write_flags != 0, custom_flags: flags }
}

/// The error code for a device that could not be opened: the operating system's
/// own, or `unknown` if it gave none.
pub fn open_error(os_error: Option<i32>, unknown: i32) -> (code: i32)
    ensures
        code == (match os_error {
            Some(code) => code,
            None => unknown,
        }),
{
    match os_error {
        Some(code) => code,
        None => unknown,
    }
}

} // verus!
