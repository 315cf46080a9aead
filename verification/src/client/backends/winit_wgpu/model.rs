//! What the backend knows and does, as mathematical values.
use crate::client::backends::winit_wgpu::frames::CursorFrame;
use crate::client::backends::winit_wgpu::input::ResizeDirection;
use crate::client::backends::winit_wgpu::outputs::OutputModel;
use crate::client::config::KeyboardMode;
use crate::models::surface::{BufferMetadata, UncompressedBufferData, WlSurfaceId};
use crate::protocols::wprs::geometry::Point;
use crate::protocols::wprs::types::{ClientId, DisplayConfig};
use crate::protocols::wprs::wayland::{KeyInner, PointerEvent, PointerGestureEvent};
use crate::protocols::wprs::xdg_shell::XdgPopupState;
use crate::utils::ieee::F64;
use vstd::prelude::*;

verus! {

/// The modifier keys that are held.
#[derive(Debug, Clone, Copy, PartialEq, Eq, Structural)]
pub struct Modifiers {
    pub ctrl: bool,
    pub alt: bool,
    pub shift: bool,
    pub logo: bool,
}

/// A pinch or rotation in progress. A scale of zero means that none was set yet.
#[derive(Debug, Clone, Copy, PartialEq, Eq, Structural)]
pub struct PinchGestureState {
    pub active_pinch: bool,
    pub active_rotation: bool,
    pub scale: F64,
}

#[derive(Debug, Clone, Copy, PartialEq, Eq, Structural)]
pub enum TouchPhase {
    Started,
    Moved,
    Ended,
    Cancelled,
}

/// Where a popup goes: an offset in the coordinates of its parent surface, to be scaled and added
/// to the position of the parent's window. Where that position is not known here, the window
/// system has to be asked.
#[derive(Debug, Clone, Copy, PartialEq, Eq, Structural)]
pub struct PopupPlacement {
    pub popup: WlSurfaceId,
    pub parent: WlSurfaceId,
    pub parent_pos: Option<Point<i32>>,
    pub server_scale: i32,
    pub dx: i32,
    pub dy: i32,
}

/// Something to be done that holds nothing but plain values.
#[derive(Debug, Clone, Copy, PartialEq, Eq, Structural)]
pub enum PlainAction {
    /// Tell the server.
    Pointer(PointerEvent),
    Gesture(PointerGestureEvent),
    LeaveKeyboard { serial: u32 },
    Key(KeyInner),
    TellModifiers(Modifiers),
    CloseToplevel { surface_id: WlSurfaceId },
    /// Tell the server the size of the surface's window.
    SendConfigure { surface_id: WlSurfaceId },
    /// Get the keymap and tell it to the server.
    LoadKeymap,
    /// Windows and rendering.
    ResizeRenderer { surface_id: WlSurfaceId },
    Render { surface_id: WlSurfaceId },
    DropWindow { surface_id: WlSurfaceId },
    PlacePopup(PopupPlacement),
    /// Show the current cursor in the surface's window, or none.
    ApplyCursor { surface_id: WlSurfaceId, visible: bool },
    ShowResizeCursor { surface_id: WlSurfaceId, direction: ResizeDirection },
    ShowMoveCursor { surface_id: WlSurfaceId },
    ShowWindowMenu { surface_id: WlSurfaceId, at: Point<F64> },
    DragResize { surface_id: WlSurfaceId, direction: ResizeDirection },
    DragWindow { surface_id: WlSurfaceId },
    RefreshOutputs { force: bool },
}

/// Something to be done.
#[derive(Debug)]
pub enum Action {
    Plain(PlainAction),
    EnterKeyboard { serial: u32, surface_id: WlSurfaceId, keycodes: Vec<u32> },
    /// Undo the filter of a frame.
    Decode {
        surface_id: WlSurfaceId,
        metadata: BufferMetadata,
        filtered: UncompressedBufferData,
    },
}

#[verifier::ext_equal]
pub enum ActionModel {
    Plain(PlainAction),
    EnterKeyboard { serial: u32, surface_id: WlSurfaceId, keycodes: Seq<u32> },
    Decode { surface_id: WlSurfaceId, metadata: BufferMetadata, filtered: Seq<u8> },
}

impl View for Action {
    type V = ActionModel;

    open spec fn view(&self) -> ActionModel {
        match *self {
            Action::Plain(action) => ActionModel::Plain(action),
            Action::EnterKeyboard { serial, surface_id, keycodes } => ActionModel::EnterKeyboard {
                serial,
                surface_id,
                keycodes: keycodes@,
            },
            Action::Decode { surface_id, metadata, filtered } => ActionModel::Decode {
                surface_id,
                metadata,
                filtered: filtered@,
            },
        }
    }
}

pub open spec fn seen(actions: Seq<Action>) -> Seq<ActionModel> {
    Seq::new(actions.len(), |i: int| actions[i]@)
}

pub fn emit(out: &mut Vec<Action>, action: Action)
    ensures
        seen(final(out)@) == seen(old(out)@).push(action@),
{
    let ghost before = seen(out@);
    let ghost new = action@;
    out.push(action);
    assert(seen(out@) =~= before.push(new));
}

#[verifier::ext_equal]
pub struct CursorFrameModel {
    pub width: u16,
    pub height: u16,
    pub rgba: Seq<u8>,
}

impl View for CursorFrame {
    type V = CursorFrameModel;

    open spec fn view(&self) -> CursorFrameModel {
        CursorFrameModel { width: self.width, height: self.height, rgba: self.rgba@ }
    }
}

/// What the backend knows. Windows and surfaces go by their numbers.
#[verifier::ext_equal]
pub struct AppModel {
    /// A filtered frame that waits for its commit.
    pub cache: Option<Seq<u8>>,
    /// The window of each surface, and the surface of each window.
    pub windows: Map<u64, u64>,
    pub surface_by_window: Map<u64, u64>,
    pub outputs_sent: bool,
    pub outputs: Seq<OutputModel>,
    pub last_refresh: u64,
    pub display_config: Option<DisplayConfig>,
    pub scales: Map<u64, i32>,
    pub keyboard_mode: KeyboardMode,
    pub keymap_sent: bool,
    pub serial: u32,
    pub focused_window: Option<u64>,
    pub focused_surface: Option<WlSurfaceId>,
    pub with_frame: Set<u64>,
    pub pressed: Set<u32>,
    pub cursor_pos: Map<u64, Point<F64>>,
    pub window_cursor_pos: Map<u64, Point<F64>>,
    pub physical_pos: Map<u64, Point<F64>>,
    pub modifiers: Modifiers,
    pub decorations: Map<u64, bool>,
    pub overridden: Set<u64>,
    pub inside: Set<u64>,
    pub pointer_surface: Option<WlSurfaceId>,
    pub inner_pos: Map<u64, Point<i32>>,
    pub pinch: Map<u64, PinchGestureState>,
    pub popups: Map<u64, XdgPopupState>,
    pub cursor_frames: Map<(u64, u64), CursorFrameModel>,
    pub cursor_clients: Map<u64, ClientId>,
    pub cursor_visible: bool,
    pub cursor_dirty: bool,
}

/// What the backend knows and what it has yet to do.
#[verifier::ext_equal]
pub struct Step {
    pub m: AppModel,
    pub out: Seq<ActionModel>,
}

pub open spec fn plus(s: Step, action: ActionModel) -> Step {
    Step { out: s.out.push(action), ..s }
}

pub open spec fn plus_plain(s: Step, action: PlainAction) -> Step {
    plus(s, ActionModel::Plain(action))
}

/// Serials count up from one and skip zero.
pub open spec fn following_serial(serial: u32) -> u32 {
    if serial == u32::MAX {
        1
    } else {
        (serial + 1) as u32
    }
}

pub open spec fn with_serial(s: Step) -> Step {
    Step { m: AppModel { serial: following_serial(s.m.serial), ..s.m }, ..s }
}

/// A window has decorations unless it is known to have none.
pub open spec fn has_decorations(m: AppModel, window: u64) -> bool {
    !m.decorations.contains_key(window) || m.decorations[window]
}

/// Where the pointer was last seen in a window.
pub open spec fn cursor_position(m: AppModel, window: u64) -> Point<F64> {
    if m.cursor_pos.contains_key(window) {
        m.cursor_pos[window]
    } else {
        Point { x: F64 { bits: 0 }, y: F64 { bits: 0 } }
    }
}

/// The bits of one, the scale at which a pinch starts.
pub const ONE_BITS: u64 = 0x3FF0_0000_0000_0000;

} // verus!
