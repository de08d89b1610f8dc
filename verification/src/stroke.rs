//! Fixed binary event records for keyboard and mouse input.
//!
//! A keyboard event occupies exactly 12 bytes on the wire and a mouse event
//! exactly 24; the byte images are produced and consumed by the codec.

use vstd::prelude::*;

verus! {

/// Relative priority among consumers competing for a device's events.
pub type Precedence = i32;

/// Keyboard key state flags.
pub type KeyState = u16;

/// Key down event.
pub const KEY_DOWN: KeyState = 0x00;

/// Key up event.
pub const KEY_UP: KeyState = 0x01;

/// Extended key code (E0 prefix).
pub const KEY_E0: KeyState = 0x02;

/// Extended key code (E1 prefix).
pub const KEY_E1: KeyState = 0x04;

/// Terminal Services LED update.
pub const KEY_TERMSRV_SET_LED: KeyState = 0x08;

/// Terminal Services shadow.
pub const KEY_TERMSRV_SHADOW: KeyState = 0x10;

/// Terminal Services virtual key packet.
pub const KEY_TERMSRV_VKPACKET: KeyState = 0x20;

/// Mouse button and wheel state flags.
pub type MouseState = u16;

/// Left mouse button down.
pub const MOUSE_LEFT_BUTTON_DOWN: MouseState = 0x001;

/// Left mouse button up.
pub const MOUSE_LEFT_BUTTON_UP: MouseState = 0x002;

/// Right mouse button down.
pub const MOUSE_RIGHT_BUTTON_DOWN: MouseState = 0x004;

/// Right mouse button up.
pub const MOUSE_RIGHT_BUTTON_UP: MouseState = 0x008;

/// Middle mouse button down.
pub const MOUSE_MIDDLE_BUTTON_DOWN: MouseState = 0x010;

/// Middle mouse button up.
pub const MOUSE_MIDDLE_BUTTON_UP: MouseState = 0x020;

/// Mouse button 4 down.
pub const MOUSE_BUTTON_4_DOWN: MouseState = 0x040;

/// Mouse button 4 up.
pub const MOUSE_BUTTON_4_UP: MouseState = 0x080;

/// Mouse button 5 down.
pub const MOUSE_BUTTON_5_DOWN: MouseState = 0x100;

/// Mouse button 5 up.
pub const MOUSE_BUTTON_5_UP: MouseState = 0x200;

/// Mouse wheel scroll.
pub const MOUSE_WHEEL: MouseState = 0x400;

/// Mouse horizontal wheel scroll.
pub const MOUSE_HWHEEL: MouseState = 0x800;

/// Mouse button 1 down (alias for left button).
pub const MOUSE_BUTTON_1_DOWN: MouseState = MOUSE_LEFT_BUTTON_DOWN;

/// Mouse button 1 up (alias for left button).
pub const MOUSE_BUTTON_1_UP: MouseState = MOUSE_LEFT_BUTTON_UP;

/// Mouse button 2 down (alias for right button).
pub const MOUSE_BUTTON_2_DOWN: MouseState = MOUSE_RIGHT_BUTTON_DOWN;

/// Mouse button 2 up (alias for right button).
pub const MOUSE_BUTTON_2_UP: MouseState = MOUSE_RIGHT_BUTTON_UP;

/// Mouse button 3 down (alias for middle button).
pub const MOUSE_BUTTON_3_DOWN: MouseState = MOUSE_MIDDLE_BUTTON_DOWN;

/// Mouse button 3 up (alias for middle button).
pub const MOUSE_BUTTON_3_UP: MouseState = MOUSE_MIDDLE_BUTTON_UP;

/// Mouse movement flags.
pub type MouseFlag = u16;

/// Relative movement.
pub const MOUSE_MOVE_RELATIVE: MouseFlag = 0x000;

/// Absolute movement.
pub const MOUSE_MOVE_ABSOLUTE: MouseFlag = 0x001;

/// Virtual desktop coordinates.
pub const MOUSE_VIRTUAL_DESKTOP: MouseFlag = 0x002;

/// Mouse attributes changed.
pub const MOUSE_ATTRIBUTES_CHANGED: MouseFlag = 0x004;

/// Don't coalesce mouse movements.
pub const MOUSE_MOVE_NOCOALESCE: MouseFlag = 0x008;

/// Terminal Services source shadow.
pub const MOUSE_TERMSRV_SRC_SHADOW: MouseFlag = 0x100;

/// Filter bitmask selecting which event subtypes a device delivers.
pub type Filter = u16;

/// No filtering.
pub const FILTER_NONE: Filter = 0x0000;

/// Filter all events.
pub const FILTER_ALL: Filter = 0xFFFF;

/// Keyboard filters.
pub type KeyFilter = Filter;

/// No keyboard filtering.
pub const FILTER_KEY_NONE: KeyFilter = FILTER_NONE;

/// Filter all keyboard events.
pub const FILTER_KEY_ALL: KeyFilter = FILTER_ALL;

/// Filter key down events.
pub const FILTER_KEY_DOWN: KeyFilter = 0x01;

/// Filter key up events.
pub const FILTER_KEY_UP: KeyFilter = 0x02;

/// Filter E0 extended keys.
pub const FILTER_KEY_E0: KeyFilter = 0x08;

/// Filter E1 extended keys.
pub const FILTER_KEY_E1: KeyFilter = 0x016;

/// Mouse button filters.
pub type MouseFilter = Filter;

/// No mouse filtering.
pub const FILTER_MOUSE_NONE: MouseFilter = FILTER_NONE;

/// Filter all mouse events.
pub const FILTER_MOUSE_ALL: MouseFilter = FILTER_ALL;

/// Filter left mouse button down.
pub const FILTER_MOUSE_LEFT_BUTTON_DOWN: MouseFilter = 0x001;

/// Filter left mouse button up.
pub const FILTER_MOUSE_LEFT_BUTTON_UP: MouseFilter = 0x002;

/// Filter right mouse button down.
pub const FILTER_MOUSE_RIGHT_BUTTON_DOWN: MouseFilter = 0x004;

/// Filter right mouse button up.
pub const FILTER_MOUSE_RIGHT_BUTTON_UP: MouseFilter = 0x008;

/// Filter middle mouse button down.
pub const FILTER_MOUSE_MIDDLE_BUTTON_DOWN: MouseFilter = 0x010;

/// Filter middle mouse button up.
pub const FILTER_MOUSE_MIDDLE_BUTTON_UP: MouseFilter = 0x020;

/// Filter mouse button 4 down.
pub const FILTER_MOUSE_BUTTON_4_DOWN: MouseFilter = 0x040;

/// Filter mouse button 4 up.
pub const FILTER_MOUSE_BUTTON_4_UP: MouseFilter = 0x080;

/// Filter mouse button 5 down.
pub const FILTER_MOUSE_BUTTON_5_DOWN: MouseFilter = 0x100;

/// Filter mouse button 5 up.
pub const FILTER_MOUSE_BUTTON_5_UP: MouseFilter = 0x200;

/// Filter mouse wheel.
pub const FILTER_MOUSE_WHEEL: MouseFilter = 0x400;

/// Filter mouse horizontal wheel.
pub const FILTER_MOUSE_HWHEEL: MouseFilter = 0x800;

/// Filter mouse movement.
pub const FILTER_MOUSE_MOVE: MouseFilter = 0x1000;

/// One keyboard input event: a 12-byte wire record.
///
/// The unit id and the reserved word are kept so that records read from a
/// device survive a round trip unchanged; callers never set them.
#[derive(Debug, Clone, PartialEq, Eq, Structural)]
pub struct KeyStroke {
    /// Device unit id assigned by the driver; callers never set it.
    pub unit_id: u16,
    /// Virtual key code.
    pub code: u16,
    /// Key state flags.
    pub state: KeyState,
    /// Reserved word of the wire record (unused).
    pub reserved: u16,
    /// Additional information.
    pub information: u32,
}

impl KeyStroke {
    /// Create a new keyboard stroke.
    pub fn new(code: u16, state: u16) -> (r: Self)
        ensures
            r == (KeyStroke { unit_id: 0, code, state, reserved: 0, information: 0 }),
    {
        KeyStroke { unit_id: 0, code, state, reserved: 0, information: 0 }
    }

    /// Create a new keyboard stroke with custom information.
    pub fn with_info(code: u16, state: u16, information: u32) -> (r: Self)
        ensures
            r == (KeyStroke { unit_id: 0, code, state, reserved: 0, information }),
    {
        KeyStroke { unit_id: 0, code, state, reserved: 0, information }
    }

    /// Create a key down stroke.
    pub fn down(code: u16) -> (r: Self)
        ensures
            r == (KeyStroke { unit_id: 0, code, state: KEY_DOWN, reserved: 0, information: 0 }),
    {
        Self::new(code, KEY_DOWN)
    }

    /// Create a key up stroke.
    pub fn up(code: u16) -> (r: Self)
        ensures
            r == (KeyStroke { unit_id: 0, code, state: KEY_UP, reserved: 0, information: 0 }),
    {
        Self::new(code, KEY_UP)
    }
}

impl Default for KeyStroke {
    /// The all-zero keyboard record.
    fn default() -> (r: Self)
        ensures
            r == (KeyStroke { unit_id: 0, code: 0, state: 0, reserved: 0, information: 0 }),
    {
        KeyStroke { unit_id: 0, code: 0, state: 0, reserved: 0, information: 0 }
    }
}

/// One mouse input event: a 24-byte wire record.
#[derive(Debug, Clone, PartialEq, Eq, Structural)]
pub struct MouseStroke {
    /// Device unit id assigned by the driver; callers never set it.
    pub unit_id: u16,
    /// Mouse movement flags.
    pub flags: MouseFlag,
    /// Mouse button and wheel state flags.
    pub state: MouseState,
    /// Mouse wheel delta.
    pub rolling: i16,
    /// Raw buttons state of the wire record (unused).
    pub raw_buttons: u32,
    /// X coordinate.
    pub x: i32,
    /// Y coordinate.
    pub y: i32,
    /// Additional information.
    pub information: u32,
}

impl MouseStroke {
    /// Create a new mouse stroke.
    pub fn new(flags: MouseFlag, state: MouseState, rolling: i16, x: i32, y: i32, information: u32)
        -> (r: Self)
        ensures
            r == (MouseStroke { unit_id: 0, flags, state, rolling, raw_buttons: 0, x, y, information }),
    {
        MouseStroke { unit_id: 0, flags, state, rolling, raw_buttons: 0, x, y, information }
    }
}

impl Default for MouseStroke {
    /// The all-zero mouse record.
    fn default() -> (r: Self)
        ensures
            r == (MouseStroke {
                unit_id: 0,
                flags: 0,
                state: 0,
                rolling: 0,
                raw_buttons: 0,
                x: 0,
                y: 0,
                information: 0,
            }),
    {
        MouseStroke { unit_id: 0, flags: 0, state: 0, rolling: 0, raw_buttons: 0, x: 0, y: 0, information: 0 }
    }
}

} // verus!
