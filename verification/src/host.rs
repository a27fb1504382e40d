//! The side of the event loop: which window an event is for, who hears of it,
//! and what is told to the rest.

use crate::fxmap::{fx_get, fx_insert};
use crate::input::{KeyEvent, Modifiers, ScrollDelta, TouchEvent};
use crate::vertex::F64Bits;
use crate::windows::WinitEvent;
use rustc_hash::FxHashMap;
use vstd::prelude::*;

verus! {

/// The callbacks of a window, by what they are called for.
#[derive(Clone, Copy, Debug, PartialEq, Eq, Structural)]
pub enum CallbackKind {
    KeyDown,
    KeyUp,
    MouseDown,
    MouseUp,
    Scroll,
    CursorEntered,
    CursorLeft,
    Touch,
    FocusGained,
    FocusLost,
    ModifiersChanged,
    Ime,
    FileDropped,
    FileHovered,
    FileHoverCancelled,
    Moved,
    ThemeChanged,
    Resized,
}

impl CallbackKind {
    /// Whether callbacks are called once and then forgotten.
    pub open spec fn spec_once(self) -> bool {
        self == CallbackKind::CursorEntered || self == CallbackKind::CursorLeft || self
            == CallbackKind::FocusGained || self == CallbackKind::FocusLost || self
            == CallbackKind::FileHoverCancelled
    }

    /// Whether callbacks are called once and then forgotten.
    pub fn once(self) -> (r: bool)
        ensures
            r == self.spec_once(),
    {
        matches!(
            self,
            CallbackKind::CursorEntered | CallbackKind::CursorLeft | CallbackKind::FocusGained
                | CallbackKind::FocusLost | CallbackKind::FileHoverCancelled
        )
    }
}

/// An event of the windowing system. Payloads that only callbacks read stay
/// with the sender.
#[allow(inconsistent_fields)]
#[derive(Debug)]
pub enum WindowEvent {
    CloseRequested,
    Resized { width: u32, height: u32 },
    ScaleFactorChanged { scale: F64Bits },
    CursorMoved { x: F64Bits, y: F64Bits },
    /// A key; none if its position is not known.
    KeyboardInput { event: Option<KeyEvent> },
    MouseInput { button: u32, pressed: bool },
    MouseWheel { delta: ScrollDelta },
    ModifiersChanged { modifiers: Modifiers },
    Focused { focused: bool },
    CursorEntered,
    CursorLeft,
    Touch { event: TouchEvent },
    Ime,
    DroppedFile,
    HoveredFile,
    HoveredFileCancelled,
    Moved,
    ThemeChanged,
    RedrawRequested,
    /// Anything else.
    Other,
}

impl WindowEvent {
    /// Which callbacks hear of an event.
    pub open spec fn heard_by(self) -> Option<CallbackKind> {
        match self {
            WindowEvent::Resized { .. } => Some(CallbackKind::Resized),
            WindowEvent::KeyboardInput { event: Some(key) } => Some(
                if key.pressed {
                    CallbackKind::KeyDown
                } else {
                    CallbackKind::KeyUp
                },
            ),
            WindowEvent::MouseInput { pressed, .. } => Some(
                if pressed {
                    CallbackKind::MouseDown
                } else {
                    CallbackKind::MouseUp
                },
            ),
            WindowEvent::MouseWheel { .. } => Some(CallbackKind::Scroll),
            WindowEvent::ModifiersChanged { .. } => Some(CallbackKind::ModifiersChanged),
            WindowEvent::Focused { focused } => Some(
                if focused {
                    CallbackKind::FocusGained
                } else {
                    CallbackKind::FocusLost
                },
            ),
            WindowEvent::CursorEntered => Some(CallbackKind::CursorEntered),
            WindowEvent::CursorLeft => Some(CallbackKind::CursorLeft),
            WindowEvent::Touch { .. } => Some(CallbackKind::Touch),
            WindowEvent::Ime => Some(CallbackKind::Ime),
            WindowEvent::DroppedFile => Some(CallbackKind::FileDropped),
            WindowEvent::HoveredFile => Some(CallbackKind::FileHovered),
            WindowEvent::HoveredFileCancelled => Some(CallbackKind::FileHoverCancelled),
            WindowEvent::Moved => Some(CallbackKind::Moved),
            WindowEvent::ThemeChanged => Some(CallbackKind::ThemeChanged),
            _ => None,
        }
    }

    /// What is told of an event to the rest of the program.
    pub open spec fn told(self, handle: usize) -> Option<WinitEvent> {
        match self {
            WindowEvent::CloseRequested => Some(WinitEvent::CloseRequested { handle }),
            WindowEvent::Resized { width, height } => Some(
                WinitEvent::Resized { handle, width, height },
            ),
            WindowEvent::ScaleFactorChanged { scale } => Some(
                WinitEvent::ScaleFactorChanged { handle, scale },
            ),
            WindowEvent::CursorMoved { x, y } => Some(WinitEvent::CursorMoved { handle, x, y }),
            WindowEvent::KeyboardInput { event: Some(event) } => Some(
                WinitEvent::KeyboardInput { handle, event },
            ),
            WindowEvent::MouseInput { button, pressed } => Some(
                WinitEvent::MouseInput { handle, button, pressed },
            ),
            WindowEvent::MouseWheel { delta } => Some(WinitEvent::MouseWheel { handle, delta }),
            WindowEvent::ModifiersChanged { modifiers } => Some(
                WinitEvent::ModifiersChanged { handle, modifiers },
            ),
            WindowEvent::Focused { focused } => Some(WinitEvent::Focused { handle, focused }),
            WindowEvent::CursorEntered => Some(WinitEvent::CursorEntered { handle }),
            WindowEvent::CursorLeft => Some(WinitEvent::CursorLeft { handle }),
            WindowEvent::Touch { event } => Some(WinitEvent::Touch { handle, event }),
            _ => None,
        }
    }

    fn callbacks(&self) -> (r: Option<CallbackKind>)
        ensures
            r == self.heard_by(),
    {
        match self {
            WindowEvent::Resized { .. } => Some(CallbackKind::Resized),
            WindowEvent::KeyboardInput { event: Some(key) } => {
                if key.pressed {
                    Some(CallbackKind::KeyDown)
                } else {
                    Some(CallbackKind::KeyUp)
                }
            },
            WindowEvent::MouseInput { pressed, .. } => {
                if *pressed {
                    Some(CallbackKind::MouseDown)
                } else {
                    Some(CallbackKind::MouseUp)
                }
            },
            WindowEvent::MouseWheel { .. } => Some(CallbackKind::Scroll),
            WindowEvent::ModifiersChanged { .. } => Some(CallbackKind::ModifiersChanged),
            WindowEvent::Focused { focused } => {
                if *focused {
                    Some(CallbackKind::FocusGained)
                } else {
                    Some(CallbackKind::FocusLost)
                }
            },
            WindowEvent::CursorEntered => Some(CallbackKind::CursorEntered),
            WindowEvent::CursorLeft => Some(CallbackKind::CursorLeft),
            WindowEvent::Touch { .. } => Some(CallbackKind::Touch),
            WindowEvent::Ime => Some(CallbackKind::Ime),
            WindowEvent::DroppedFile => Some(CallbackKind::FileDropped),
            WindowEvent::HoveredFile => Some(CallbackKind::FileHovered),
            WindowEvent::HoveredFileCancelled => Some(CallbackKind::FileHoverCancelled),
            WindowEvent::Moved => Some(CallbackKind::Moved),
            WindowEvent::ThemeChanged => Some(CallbackKind::ThemeChanged),
            _ => None,
        }
    }

    fn message(self, handle: usize) -> (r: Option<WinitEvent>)
        ensures
            r == self.told(handle),
    {
        match self {
            WindowEvent::CloseRequested => Some(WinitEvent::CloseRequested { handle }),
            WindowEvent::Resized { width, height } => Some(
                WinitEvent::Resized { handle, width, height },
            ),
            WindowEvent::ScaleFactorChanged { scale } => Some(
                WinitEvent::ScaleFactorChanged { handle, scale },
            ),
            WindowEvent::CursorMoved { x, y } => Some(WinitEvent::CursorMoved { handle, x, y }),
            WindowEvent::KeyboardInput { event: Some(event) } => Some(
                WinitEvent::KeyboardInput { handle, event },
            ),
            WindowEvent::MouseInput { button, pressed } => Some(
                WinitEvent::MouseInput { handle, button, pressed },
            ),
            WindowEvent::MouseWheel { delta } => Some(WinitEvent::MouseWheel { handle, delta }),
            WindowEvent::ModifiersChanged { modifiers } => Some(
                WinitEvent::ModifiersChanged { handle, modifiers },
            ),
            WindowEvent::Focused { focused } => Some(WinitEvent::Focused { handle, focused }),
            WindowEvent::CursorEntered => Some(WinitEvent::CursorEntered { handle }),
            WindowEvent::CursorLeft => Some(WinitEvent::CursorLeft { handle }),
            WindowEvent::Touch { event } => Some(WinitEvent::Touch { handle, event }),
            _ => None,
        }
    }
}

/// What closing a window asks of the event loop, before it tells the rest.
#[derive(Clone, Copy, Debug, PartialEq, Eq, Structural)]
pub struct ClosePlan {
    /// Whether the window's close hook is called.
    pub hook: bool,
    /// The native window whose state is cleaned up.
    pub hwnd: Option<isize>,
}

/// What an event asks of the event loop, in this order.
#[derive(Debug)]
pub struct EventPlan {
    pub handle: usize,
    pub close: Option<ClosePlan>,
    /// The callbacks to call, if the window has any.
    pub callbacks: Option<CallbackKind>,
    /// What is then told to the rest.
    pub message: Option<WinitEvent>,
}

/// What the event loop does before it waits.
#[derive(Clone, Copy, Debug, PartialEq, Eq, Structural)]
pub struct WaitPlan {
    /// Whether requested windows are created.
    pub create: bool,
    /// Whether the loop ends; else it waits for the next event.
    pub exit: bool,
}

/// What a [`Runner`] knows.
pub struct RunnerModel {
    /// The native windows, 0 where there is none.
    pub hwnds: Seq<isize>,
    /// The handles of windows.
    pub handles: Map<u64, usize>,
    /// The windows with a close hook, and whether it is still to be called.
    pub hooks: Map<u64, bool>,
    /// How many windows have a place for callbacks.
    pub callback_slots: usize,
    pub created: bool,
    pub resumed_fired: bool,
}

/// The event loop's knowledge of windows.
pub struct Runner {
    hwnds: Vec<isize>,
    id_to_handle: FxHashMap<u64, usize>,
    close_hooks: FxHashMap<u64, bool>,
    callback_slots: usize,
    created: bool,
    resumed_fired: bool,
}

impl View for Runner {
    type V = RunnerModel;

    closed spec fn view(&self) -> RunnerModel {
        RunnerModel {
            hwnds: self.hwnds@,
            handles: self.id_to_handle@,
            hooks: self.close_hooks@,
            callback_slots: self.callback_slots,
            created: self.created,
            resumed_fired: self.resumed_fired,
        }
    }
}

impl RunnerModel {
    /// The native window of a handle.
    pub open spec fn hwnd(self, handle: usize) -> Option<isize> {
        if handle < self.hwnds.len() && self.hwnds[handle as int] != 0 {
            Some(self.hwnds[handle as int])
        } else {
            None
        }
    }

    /// Whether a close hook is still to be called.
    pub open spec fn hook_waits(self, handle: usize) -> bool {
        self.hooks.contains_key(handle as u64) && self.hooks[handle as u64]
    }

    /// What closing a window asks.
    pub open spec fn close_plan(self, handle: usize) -> ClosePlan {
        ClosePlan { hook: self.hook_waits(handle), hwnd: self.hwnd(handle) }
    }

    /// What is known once a window was closed.
    pub open spec fn closed(self, handle: usize) -> RunnerModel {
        RunnerModel {
            hooks: if self.hooks.contains_key(handle as u64) {
                self.hooks.insert(handle as u64, false)
            } else {
                self.hooks
            },
            ..self
        }
    }

    /// What is known of native windows once `handle` has the given one.
    pub open spec fn with_hwnd(self, handle: usize, hwnd: isize) -> Seq<isize> {
        let longer = Seq::new(
            if self.hwnds.len() > handle {
                self.hwnds.len()
            } else {
                (handle + 1) as nat
            },
            |i: int|
                if i < self.hwnds.len() {
                    self.hwnds[i]
                } else {
                    0isize
                },
        );
        longer.update(handle as int, hwnd)
    }
}

impl Runner {
    /// No windows.
    pub fn new() -> (r: Runner)
        ensures
            r@ == (RunnerModel {
                hwnds: Seq::empty(),
                handles: Map::empty(),
                hooks: Map::empty(),
                callback_slots: 0,
                created: false,
                resumed_fired: false,
            }),
    {
        Runner {
            hwnds: Vec::new(),
            id_to_handle: FxHashMap::default(),
            close_hooks: FxHashMap::default(),
            callback_slots: 0,
            created: false,
            resumed_fired: false,
        }
    }

    /// The handle of a window.
    pub fn handle_for(&self, window_id: u64) -> (r: Option<usize>)
        ensures
            r == (if self@.handles.contains_key(window_id) {
                Some(self@.handles[window_id])
            } else {
                None
            }),
    {
        fx_get(&self.id_to_handle, window_id)
    }

    /// The native window of a handle.
    pub fn hwnd(&self, handle: usize) -> (r: Option<isize>)
        ensures
            r == self@.hwnd(handle),
    {
        if handle < self.hwnds.len() && self.hwnds[handle] != 0 {
            Some(self.hwnds[handle])
        } else {
            None
        }
    }

    /// Whether callbacks can be registered for a handle.
    pub fn has_callbacks(&self, handle: usize) -> (r: bool)
        ensures
            r == (handle < self@.callback_slots),
    {
        handle < self.callback_slots
    }

    /// The event loop runs: whether requested windows are created now, which
    /// they are the first time.
    pub fn resumed(&mut self) -> (r: bool)
        ensures
            r == !old(self)@.created,
            final(self)@ == (if old(self)@.created {
                old(self)@
            } else {
                RunnerModel { created: true, resumed_fired: true, ..old(self)@ }
            }),
    {
        if self.created {
            return false;
        }
        self.created = true;
        self.resumed_fired = true;
        true
    }

    /// What the event loop does before it waits, after some requests to exit.
    pub fn about_to_wait(&self, exit_requests: usize) -> (r: WaitPlan)
        ensures
            r == (WaitPlan { create: self@.resumed_fired, exit: exit_requests > 0 }),
    {
        WaitPlan { create: self.resumed_fired, exit: exit_requests > 0 }
    }

    /// Closes a window. Its hook is called once, however often it is closed.
    pub fn request_close(&mut self, handle: usize) -> (r: ClosePlan)
        ensures
            r == old(self)@.close_plan(handle),
            final(self)@ == old(self)@.closed(handle),
    {
        let hwnd = self.hwnd(handle);
        match fx_get(&self.close_hooks, handle as u64) {
            Some(waits) => {
                fx_insert(&mut self.close_hooks, handle as u64, false);
                ClosePlan { hook: waits, hwnd }
            },
            None => ClosePlan { hook: false, hwnd },
        }
    }

    /// Takes in a window that was made for `handle`.
    pub fn window_created(
        &mut self,
        handle: usize,
        window_id: u64,
        hwnd: Option<isize>,
        has_hook: bool,
    )
        requires
            handle < usize::MAX,
        ensures
            final(self)@ == (RunnerModel {
                hwnds: match hwnd {
                    Some(hwnd) => old(self)@.with_hwnd(handle, hwnd),
                    None => old(self)@.hwnds,
                },
                handles: old(self)@.handles.insert(window_id, handle),
                hooks: if has_hook {
                    old(self)@.hooks.insert(handle as u64, true)
                } else {
                    old(self)@.hooks
                },
                callback_slots: if old(self)@.callback_slots <= handle {
                    (handle + 1) as usize
                } else {
                    old(self)@.callback_slots
                },
                ..old(self)@
            }),
    {
        if self.callback_slots <= handle {
            self.callback_slots = handle + 1;
        }
        if let Some(hwnd) = hwnd {
            let ghost was = self.hwnds@;
            while self.hwnds.len() <= handle
                invariant
                    handle < usize::MAX,
                    was.len() <= self.hwnds@.len(),
                    self.hwnds@.len() <= was.len() || self.hwnds@.len() <= handle + 1,
                    forall|i: int| 0 <= i < was.len() ==> self.hwnds@[i] == was[i],
                    forall|i: int| was.len() <= i < self.hwnds@.len() ==> self.hwnds@[i] == 0,
                    self.id_to_handle == old(self).id_to_handle,
                    self.close_hooks == old(self).close_hooks,
                    self.callback_slots == (if old(self)@.callback_slots <= handle {
                        (handle + 1) as usize
                    } else {
                        old(self)@.callback_slots
                    }),
                    self.created == old(self).created,
                    self.resumed_fired == old(self).resumed_fired,
                decreases handle + 1 - self.hwnds.len(),
            {
                self.hwnds.push(0);
            }
            self.hwnds.set(handle, hwnd);
            assert(self.hwnds@ =~= old(self)@.with_hwnd(handle, hwnd));
        }
        if has_hook {
            fx_insert(&mut self.close_hooks, handle as u64, true);
        }
        fx_insert(&mut self.id_to_handle, window_id, handle);
    }

    /// What an event of a window asks; nothing if the window is not known.
    pub fn window_event(&mut self, window_id: u64, event: WindowEvent) -> (r: Option<EventPlan>)
        ensures
            r is Some <==> old(self)@.handles.contains_key(window_id),
            r is None ==> final(self)@ == old(self)@,
            r matches Some(plan) ==> {
                &&& plan.handle == old(self)@.handles[window_id]
                &&& plan.message == event.told(plan.handle)
                &&& plan.callbacks == (if plan.handle < old(self)@.callback_slots {
                    event.heard_by()
                } else {
                    None
                })
                &&& event is CloseRequested ==> plan.close == Some(
                    old(self)@.close_plan(plan.handle),
                ) && final(self)@ == old(self)@.closed(plan.handle)
                &&& !(event is CloseRequested) ==> plan.close is None && final(self)@ == old(self)@
            },
    {
        let handle = match self.handle_for(window_id) {
            Some(handle) => handle,
            None => return None,
        };
        let close = match event {
            WindowEvent::CloseRequested => Some(self.request_close(handle)),
            _ => None,
        };
        let callbacks = if handle < self.callback_slots {
            event.callbacks()
        } else {
            None
        };
        let message = event.message(handle);
        Some(EventPlan { handle, close, callbacks, message })
    }
}

/// Law: once a window was closed, its close hook is not called again, until the
/// handle gets a new window with a hook.
pub proof fn lemma_close_hook_runs_once(m: RunnerModel, handle: usize)
    ensures
        !m.closed(handle).close_plan(handle).hook,
        m.closed(handle).closed(handle).hooks =~= m.closed(handle).hooks,
        m.closed(handle).hwnds == m.hwnds,
        m.closed(handle).handles == m.handles,
{
}

/// Law: a request to close a window, and nothing else, is told to the rest as
/// one, and no callback hears of it.
pub proof fn lemma_close_is_told(event: WindowEvent, handle: usize)
    ensures
        event is CloseRequested <==> (event.told(handle) matches Some(m) && m is CloseRequested),
        event is CloseRequested ==> event.heard_by() is None,
{
}

// ---------------------------------------------------------------------------
// Making a window
// ---------------------------------------------------------------------------

/// Whether a window has its own frame: a border without a title bar.
pub fn custom_frame(has_titlebar: bool, has_border: bool) -> (r: bool)
    ensures
        r == (!has_titlebar && has_border),
{
    !has_titlebar && has_border
}

/// When a window is shown: with its making, or once its first frame is drawn.
pub fn visibility(visible: bool, preparable: bool) -> (r: (bool, bool))
    ensures
        r == (visible && !preparable, visible && preparable),
        visible == (r.0 || r.1),
        !(r.0 && r.1),
{
    (visible && !preparable, visible && preparable)
}

/// How the window's transparency is composed.
#[derive(Clone, Copy, Debug, PartialEq, Eq, Structural)]
pub enum AlphaMode {
    PostMultiplied,
    PreMultiplied,
    Auto,
}

/// How a window's transparency is composed: as well as the surface can, where
/// it is asked for.
pub fn choose_alpha_mode(transparent: bool, post_multiplied: bool, pre_multiplied: bool) -> (r:
    AlphaMode)
    ensures
        r == (if transparent && post_multiplied {
            AlphaMode::PostMultiplied
        } else if transparent && pre_multiplied {
            AlphaMode::PreMultiplied
        } else {
            AlphaMode::Auto
        }),
{
    if transparent {
        if post_multiplied {
            AlphaMode::PostMultiplied
        } else if pre_multiplied {
            AlphaMode::PreMultiplied
        } else {
            AlphaMode::Auto
        }
    } else {
        AlphaMode::Auto
    }
}

/// The format of a surface, and whether it differs from the current one, in
/// which case all pipelines are made anew. Formats are numbers that the caller
/// gives them.
pub fn choose_format(current: u32, offered: &Vec<u32>) -> (r: (u32, bool))
    requires
        offered@.len() > 0,
    ensures
        r.0 == (if offered@.contains(current) {
            current
        } else {
            offered@[0]
        }),
        r.1 == (r.0 != current),
{
    let mut i: usize = 0;
    while i < offered.len()
        invariant
            i <= offered.len(),
            forall|k: int| 0 <= k < i ==> offered@[k] != current,
        decreases offered.len() - i,
    {
        if offered[i] == current {
            assert(offered@[i as int] == current);
            return (current, false);
        }
        i = i + 1;
    }
    (offered[0], offered[0] != current)
}

/// The size of a surface: that of the window, and at least one pixel.
pub fn surface_size(width: u32, height: u32) -> (r: (u32, u32))
    ensures
        r.0 == (if width > 0 {
            width
        } else {
            1
        }),
        r.1 == (if height > 0 {
            height
        } else {
            1
        }),
{
    let w: u32 = if width > 0 {
        width
    } else {
        1
    };
    let h: u32 = if height > 0 {
        height
    } else {
        1
    };
    (w, h)
}

} // verus!
