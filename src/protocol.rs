//! Plain values exchanged with the display server: the events the window manager
//! reacts to and the requests it asks the caller to issue.
use vstd::prelude::*;

use crate::registry::Window;

verus! {

/// Border width of every frame, in pixels.
pub const BORDER_WIDTH: u32 = 3;

/// Border colour of every frame.
pub const BORDER_COLOR: u64 = 0xFF00FF;

/// Background colour of every frame.
pub const BACKGROUND_COLOR: u64 = 0x0000FF;

/// Modifier-state bit of the Alt (Mod1) key.
pub const MOD1_MASK: u32 = 0x8;

/// Modifier-state bit set while the first pointer button is held.
pub const BUTTON1_MASK: u32 = 0x100;

/// The first pointer button.
pub const BUTTON1: u32 = 1;

/// Value-mask bits of a configure request, one per field of `WindowChanges`.
pub const CW_X: u64 = 0x1;

pub const CW_Y: u64 = 0x2;

pub const CW_WIDTH: u64 = 0x4;

pub const CW_HEIGHT: u64 = 0x8;

pub const CW_BORDER_WIDTH: u64 = 0x10;

pub const CW_SIBLING: u64 = 0x20;

pub const CW_STACK_MODE: u64 = 0x40;

/// What the server reports of a window before the manager takes it over.
#[derive(Clone, Copy, Debug, PartialEq, Eq, Structural)]
pub struct WindowAttributes {
    pub x: i32,
    pub y: i32,
    pub width: u32,
    pub height: u32,
    /// The window asked to be left alone by window managers (menus, tooltips).
    pub override_redirect: bool,
    /// The window is mapped and all its ancestors are mapped.
    pub viewable: bool,
}

/// A top-level window reported by the server at startup, with its attributes.
#[derive(Clone, Copy, Debug, PartialEq, Eq, Structural)]
pub struct TopLevel {
    pub window: Window,
    pub attrs: WindowAttributes,
}

/// The geometry and stacking values of a configure request.
#[derive(Clone, Copy, Debug, PartialEq, Eq, Structural)]
pub struct WindowChanges {
    pub x: i32,
    pub y: i32,
    pub width: i32,
    pub height: i32,
    pub border_width: i32,
    pub sibling: Window,
    pub stack_mode: i32,
}

/// The key bindings; each is resolved to a live keycode when it is grabbed.
#[derive(Clone, Copy, Debug, PartialEq, Eq, Structural)]
pub enum Binding {
    /// Alt+Q: kill the client under the key press.
    Kill,
    /// Alt+Tab: focus the next client.
    Cycle,
    /// Alt+Space: start the launcher.
    Launch,
}

/// The keycodes the bindings resolve to on the live keyboard.
#[derive(Clone, Copy, Debug, PartialEq, Eq, Structural)]
pub struct Keymap {
    pub kill: u32,
    pub cycle: u32,
    pub launch: u32,
}

/// An event delivered by the display server, reduced to the values the manager reads.
#[derive(Clone, Copy, Debug, PartialEq, Eq, Structural)]
pub enum Event {
    /// A client asks to be mapped; `attrs` are its current attributes.
    MapRequest { window: Window, attrs: WindowAttributes },
    /// `window` was unmapped; `event` is the window the notification was delivered on.
    UnmapNotify { event: Window, window: Window },
    /// A client asks to change its geometry or stacking.
    ConfigureRequest { window: Window, value_mask: u64, changes: WindowChanges },
    ConfigureNotify { window: Window },
    CreateNotify { window: Window },
    DestroyNotify { window: Window },
    ReparentNotify { window: Window },
    /// A grabbed button went down over `window`; `frame_x`, `frame_y` give the
    /// position of its frame at that moment.
    ButtonPress { window: Window, x_root: i32, y_root: i32, frame_x: i32, frame_y: i32 },
    ButtonRelease { window: Window },
    /// The pointer moved to (`x_root`, `y_root`) with modifier and button `state`.
    MotionNotify { window: Window, x_root: i32, y_root: i32, state: u32 },
    /// A grabbed key went down; `keys` are the keycodes of the bindings right now.
    KeyPress { window: Window, keycode: u32, state: u32, keys: Keymap },
    KeyRelease { window: Window, keycode: u32 },
    /// Any other event type.
    Other { kind: i32 },
}

/// A request the caller issues to the display server on the manager's behalf.
#[derive(Clone, Copy, Debug, PartialEq, Eq, Structural)]
#[allow(inconsistent_fields)]
pub enum Request {
    /// Create a frame window for `client`; the caller then reports the new id to
    /// `WindowManager::adopt`.
    CreateFrame {
        client: Window,
        x: i32,
        y: i32,
        width: u32,
        height: u32,
        border_width: u32,
        border_color: u64,
        background: u64,
    },
    /// Subscribe to substructure redirection and notification on `window`.
    SelectSubstructure { window: Window },
    AddToSaveSet { window: Window },
    RemoveFromSaveSet { window: Window },
    Reparent { window: Window, parent: Window, x: i32, y: i32 },
    MapWindow { window: Window },
    UnmapWindow { window: Window },
    DestroyWindow { window: Window },
    /// Grab the key of `binding` with `modifiers` on `window`, asynchronously.
    GrabKey { binding: Binding, modifiers: u32, window: Window },
    /// Grab `button` with `modifiers` on `window`, asynchronously.
    GrabButton { button: u32, modifiers: u32, window: Window },
    /// Apply the fields of `changes` selected by `value_mask` to `window`.
    Configure { window: Window, value_mask: u64, changes: WindowChanges },
    Raise { window: Window },
    Focus { window: Window },
    Move { window: Window, x: i64, y: i64 },
    /// Close the connection of the client that owns `window`.
    Kill { window: Window },
    /// Start the launcher program.
    Launch,
}

/// An event that contradicts the manager's record of the clients.
#[derive(Clone, Copy, Debug, PartialEq, Eq, Structural)]
pub enum WmError {
    /// The window is not a managed client.
    UnknownClient(Window),
    /// The window is already a managed client.
    AlreadyManaged(Window),
    /// The frame id is already the frame of a client.
    FrameInUse(Window),
}

/// `g` with the fields that `value_mask` selects taken from `changes`.
pub open spec fn configured(g: WindowChanges, value_mask: u64, changes: WindowChanges) -> WindowChanges {
    WindowChanges {
        x: if value_mask & CW_X != 0 { changes.x } else { g.x },
        y: if value_mask & CW_Y != 0 { changes.y } else { g.y },
        width: if value_mask & CW_WIDTH != 0 { changes.width } else { g.width },
        height: if value_mask & CW_HEIGHT != 0 { changes.height } else { g.height },
        border_width: if value_mask & CW_BORDER_WIDTH != 0 { changes.border_width } else { g.border_width },
        sibling: if value_mask & CW_SIBLING != 0 { changes.sibling } else { g.sibling },
        stack_mode: if value_mask & CW_STACK_MODE != 0 { changes.stack_mode } else { g.stack_mode },
    }
}

} // verus!
