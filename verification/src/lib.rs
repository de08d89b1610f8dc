//! Typed client engine for a kernel-mode input-filter driver.
//!
//! The library verifies the device-communication engine: the fixed binary
//! stroke codec, per-device control-channel marshalling, typed keyboard
//! and mouse devices, multiplexed wait-for-any over the fixed slot table,
//! and the pure decisions of the driver installer. The OS binding that
//! carries these bytes to a live driver is ordinary, unverified plumbing
//! kept outside this crate's logic.

pub mod channel;
pub mod codec;
pub mod device;
pub mod error;
pub mod hwid;
pub mod installer;
pub mod interception;
pub mod protocol;
pub mod registry;
pub mod stroke;
pub mod sysinfo;
pub mod wait;
pub mod wcstr;

pub use channel::LoopbackChannel;
pub use device::{Device, KeyboardDevice, MouseDevice, MAX_DEVICES, MAX_KEYBOARD, MAX_MOUSE};
pub use error::{InterceptionError, WaitError};
pub use hwid::HardwareId;
pub use interception::Interception;
pub use stroke::{
    Filter, KeyFilter, KeyState, KeyStroke, MouseFilter, MouseFlag, MouseState, MouseStroke,
    Precedence, FILTER_ALL, FILTER_KEY_ALL, FILTER_KEY_DOWN, FILTER_KEY_E0, FILTER_KEY_E1,
    FILTER_KEY_NONE, FILTER_KEY_UP, FILTER_MOUSE_ALL, FILTER_MOUSE_NONE, FILTER_NONE, KEY_DOWN,
    KEY_E0, KEY_E1, KEY_UP, MOUSE_LEFT_BUTTON_DOWN, MOUSE_LEFT_BUTTON_UP, MOUSE_MOVE_ABSOLUTE,
    MOUSE_MOVE_RELATIVE,
};
