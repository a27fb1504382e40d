//! The table of windows, and what each message to it does.

use vstd::prelude::*;
use crate::error::VireoError;
use crate::input::{KeyEvent, Modifiers, ScrollDelta, TouchEvent};
use crate::vertex::F64Bits;

verus! {

/// A message about one window, from the event loop or from its own handle.
/// Payloads that only the windowing system reads stay with the sender.
#[allow(inconsistent_fields)]
#[derive(Debug)]
pub enum WinitEvent {
    WindowCreated { handle: usize },
    Resized { handle: usize, width: u32, height: u32 },
    ScaleFactorChanged { handle: usize, scale: F64Bits },
    CursorMoved { handle: usize, x: F64Bits, y: F64Bits },
    KeyboardInput { handle: usize, event: KeyEvent },
    MouseInput { handle: usize, button: u32, pressed: bool },
    MouseWheel { handle: usize, delta: ScrollDelta },
    ModifiersChanged { handle: usize, modifiers: Modifiers },
    Focused { handle: usize, focused: bool },
    CursorEntered { handle: usize },
    CursorLeft { handle: usize },
    Touch { handle: usize, event: TouchEvent },
    CloseRequested { handle: usize },
    SetTitle { handle: usize },
    SetSize { handle: usize },
    SetMinSize { handle: usize },
    SetMaxSize { handle: usize },
    SetFullscreen { handle: usize },
    SetMaximized { handle: usize, maximized: bool },
    SetMinimized { handle: usize, minimized: bool },
    SetVisible { handle: usize, visible: bool },
    FocusWindow { handle: usize },
    SetWindowLevel { handle: usize },
    SetFrameStyle { handle: usize },
    SetAspectRatio { handle: usize },
    SetIcon { handle: usize },
    SetCursor { handle: usize },
    Wake,
}

/// What a message asks of the window it is for.
#[derive(Debug, Clone, Copy, PartialEq, Eq, Structural)]
pub enum WindowAction {
    /// The message has no effect: its window is not open, or it only wakes.
    Nothing,
    /// Put the new window into the table, with the current frame rate limit
    /// and drag limit.
    Open { handle: usize },
    /// Resize the drawing surface.
    Resize { handle: usize, width: u32, height: u32 },
    /// Resize the drawing surface to what the window now measures.
    ResizeToWindow { handle: usize },
    /// Append the message to the window's queue of input.
    QueueInput { handle: usize },
    /// Mark the window as closing and wait until it is not being drawn; then
    /// take it out of the table.
    WaitThenClose { handle: usize },
    /// Hand the payload to the windowing system.
    Apply { handle: usize },
    /// Store the frame style, set the decorations, and tell the event loop.
    ApplyFrameStyle { handle: usize },
    /// Tell the event loop the new aspect ratio.
    ApplyAspectRatio { handle: usize },
}

impl WinitEvent {
    /// The window that the message is for.
    pub open spec fn target(self) -> Option<usize> {
        match self {
            WinitEvent::WindowCreated { handle } => Some(handle),
            WinitEvent::Resized { handle, .. } => Some(handle),
            WinitEvent::ScaleFactorChanged { handle, .. } => Some(handle),
            WinitEvent::CursorMoved { handle, .. } => Some(handle),
            WinitEvent::KeyboardInput { handle, .. } => Some(handle),
            WinitEvent::MouseInput { handle, .. } => Some(handle),
            WinitEvent::MouseWheel { handle, .. } => Some(handle),
            WinitEvent::ModifiersChanged { handle, .. } => Some(handle),
            WinitEvent::Focused { handle, .. } => Some(handle),
            WinitEvent::CursorEntered { handle } => Some(handle),
            WinitEvent::CursorLeft { handle } => Some(handle),
            WinitEvent::Touch { handle, .. } => Some(handle),
            WinitEvent::CloseRequested { handle } => Some(handle),
            WinitEvent::SetTitle { handle } => Some(handle),
            WinitEvent::SetSize { handle } => Some(handle),
            WinitEvent::SetMinSize { handle } => Some(handle),
            WinitEvent::SetMaxSize { handle } => Some(handle),
            WinitEvent::SetFullscreen { handle } => Some(handle),
            WinitEvent::SetMaximized { handle, .. } => Some(handle),
            WinitEvent::SetMinimized { handle, .. } => Some(handle),
            WinitEvent::SetVisible { handle, .. } => Some(handle),
            WinitEvent::FocusWindow { handle } => Some(handle),
            WinitEvent::SetWindowLevel { handle } => Some(handle),
            WinitEvent::SetFrameStyle { handle } => Some(handle),
            WinitEvent::SetAspectRatio { handle } => Some(handle),
            WinitEvent::SetIcon { handle } => Some(handle),
            WinitEvent::SetCursor { handle } => Some(handle),
            WinitEvent::Wake => None,
        }
    }

    /// Whether the message is input that waits in its window's queue.
    pub open spec fn is_input(self) -> bool {
        self is CursorMoved || self is KeyboardInput || self is MouseInput || self is MouseWheel
            || self is ModifiersChanged || self is Focused || self is CursorEntered
            || self is CursorLeft || self is Touch
    }

    /// What the message asks for, if its window is open as `open` says.
    pub open spec fn action(self, open: bool) -> WindowAction {
        match self {
            WinitEvent::Wake => WindowAction::Nothing,
            WinitEvent::WindowCreated { handle } => WindowAction::Open { handle },
            WinitEvent::CloseRequested { handle } => if open {
                WindowAction::WaitThenClose { handle }
            } else {
                WindowAction::Nothing
            },
            _ => if !open {
                WindowAction::Nothing
            } else {
                let handle = self.target()->0;
                match self {
                    WinitEvent::Resized { width, height, .. } => WindowAction::Resize {
                        handle,
                        width,
                        height,
                    },
                    WinitEvent::ScaleFactorChanged { .. } => WindowAction::ResizeToWindow {
                        handle,
                    },
                    WinitEvent::SetFrameStyle { .. } => WindowAction::ApplyFrameStyle { handle },
                    WinitEvent::SetAspectRatio { .. } => WindowAction::ApplyAspectRatio { handle },
                    _ => if self.is_input() {
                        WindowAction::QueueInput { handle }
                    } else {
                        WindowAction::Apply { handle }
                    },
                }
            },
        }
    }
}

/// The windows of an application, by handle, with the counts that decide when
/// it is done. A handle is never given out twice.
#[derive(Debug)]
pub struct WindowTable<W> {
    slots: Vec<Option<W>>,
    alive: usize,
    created: usize,
    pending_creates: usize,
    next_handle: u64,
    max_fps: Option<u32>,
    drag_cap: bool,
}

/// What a [`WindowTable`] holds.
pub struct TableModel<W> {
    /// The open windows, by handle; the slots of closed ones stay.
    pub slots: Seq<Option<W>>,
    /// How many windows were put in and not taken out.
    pub alive: usize,
    /// How many windows were ever put in.
    pub created: usize,
    /// How many windows were asked for and are not created yet.
    pub pending_creates: usize,
    /// The handle that the next window will have.
    pub next_handle: u64,
    /// The frame rate limit of new windows.
    pub max_fps: Option<u32>,
    /// Whether new windows limit their frame rate while dragged.
    pub drag_cap: bool,
}

impl<W> TableModel<W> {
    /// Whether a window is open under the handle.
    pub open spec fn is_open(self, handle: int) -> bool {
        0 <= handle < self.slots.len() && self.slots[handle] is Some
    }

    /// The number of open windows.
    pub open spec fn open_count(self) -> nat {
        count_open(self.slots)
    }

    /// The table with a window put in.
    pub open spec fn with_window(self, handle: usize, window: W) -> TableModel<W> {
        TableModel {
            slots: if handle < self.slots.len() {
                self.slots.update(handle as int, Some(window))
            } else {
                (self.slots + Seq::new(
                    (handle - self.slots.len()) as nat,
                    |i: int| None::<W>,
                )).push(Some(window))
            },
            alive: wrap_inc(self.alive),
            created: wrap_inc(self.created),
            ..self
        }
    }

    /// The table with a window taken out; unchanged if none is open there.
    pub open spec fn without_window(self, handle: usize) -> TableModel<W> {
        if self.is_open(handle as int) {
            TableModel {
                slots: self.slots.update(handle as int, None),
                alive: wrap_dec(self.alive),
                ..self
            }
        } else {
            self
        }
    }
}

/// One more, from the greatest number on to 0.
pub open spec fn wrap_inc(n: usize) -> usize {
    if n == usize::MAX {
        0
    } else {
        (n + 1) as usize
    }
}

/// One less, from 0 on to the greatest number.
pub open spec fn wrap_dec(n: usize) -> usize {
    if n == 0 {
        usize::MAX
    } else {
        (n - 1) as usize
    }
}

/// How many slots hold a window.
pub open spec fn count_open<W>(slots: Seq<Option<W>>) -> nat
    decreases slots.len(),
{
    if slots.len() == 0 {
        0
    } else {
        count_open(slots.drop_last()) + if slots.last() is Some {
            1nat
        } else {
            0nat
        }
    }
}

/// The handles of the open windows, in order.
pub open spec fn open_handles<W>(slots: Seq<Option<W>>) -> Seq<usize>
    decreases slots.len(),
{
    if slots.len() == 0 {
        seq![]
    } else {
        let rest = open_handles(slots.drop_last());
        if slots.last() is Some {
            rest.push((slots.len() - 1) as usize)
        } else {
            rest
        }
    }
}

impl<W> View for WindowTable<W> {
    type V = TableModel<W>;

    closed spec fn view(&self) -> TableModel<W> {
        TableModel {
            slots: self.slots@,
            alive: self.alive,
            created: self.created,
            pending_creates: self.pending_creates,
            next_handle: self.next_handle,
            max_fps: self.max_fps,
            drag_cap: self.drag_cap,
        }
    }
}

impl<W> WindowTable<W> {
    /// A table without windows; new windows run at up to 240 frames a second
    /// and limit their rate while dragged.
    pub fn new() -> (r: Self)
        ensures
            r@ == (TableModel {
                slots: Seq::<Option<W>>::empty(),
                alive: 0,
                created: 0,
                pending_creates: 0,
                next_handle: 0,
                max_fps: Some(240),
                drag_cap: true,
            }),
    {
        WindowTable {
            slots: Vec::new(),
            alive: 0,
            created: 0,
            pending_creates: 0,
            next_handle: 0,
            max_fps: Some(240),
            drag_cap: true,
        }
    }

    /// The handle that the next window will have.
    pub fn next_handle(&self) -> (r: u64)
        ensures
            r == self@.next_handle,
    {
        self.next_handle
    }

    /// Asks for a new window and gives the handle it will have.
    pub fn request_window(&mut self) -> (handle: u64)
        requires
            old(self)@.next_handle < u64::MAX,
        ensures
            handle == old(self)@.next_handle,
            final(self)@ == (TableModel {
                next_handle: (old(self)@.next_handle + 1) as u64,
                pending_creates: wrap_inc(old(self)@.pending_creates),
                ..old(self)@
            }),
    {
        let handle: u64 = self.next_handle;
        self.next_handle = handle + 1;
        self.pending_creates = self.pending_creates.wrapping_add(1);
        handle
    }

    /// Notes that one of the windows asked for has come.
    pub fn request_served(&mut self)
        ensures
            final(self)@ == (TableModel {
                pending_creates: wrap_dec(old(self)@.pending_creates),
                ..old(self)@
            }),
    {
        self.pending_creates = self.pending_creates.wrapping_sub(1);
    }

    /// Decides what a message does. The table itself changes only in
    /// [`WindowTable::window_created`] and [`WindowTable::window_closed`].
    pub fn apply_winit_event_one(&self, event: &WinitEvent) -> (r: WindowAction)
        ensures
            r == event.action(event.target() is Some && self@.is_open(event.target()->0 as int)),
    {
        match event {
            WinitEvent::WindowCreated { handle } => WindowAction::Open { handle: *handle },
            WinitEvent::Resized { handle, width, height } => {
                if self.is_open(*handle) {
                    WindowAction::Resize { handle: *handle, width: *width, height: *height }
                } else {
                    WindowAction::Nothing
                }
            },
            WinitEvent::ScaleFactorChanged { handle, .. } => {
                if self.is_open(*handle) {
                    WindowAction::ResizeToWindow { handle: *handle }
                } else {
                    WindowAction::Nothing
                }
            },
            WinitEvent::CursorMoved { handle, .. } => self.queue_input(*handle),
            WinitEvent::KeyboardInput { handle, .. } => self.queue_input(*handle),
            WinitEvent::MouseInput { handle, .. } => self.queue_input(*handle),
            WinitEvent::MouseWheel { handle, .. } => self.queue_input(*handle),
            WinitEvent::ModifiersChanged { handle, .. } => self.queue_input(*handle),
            WinitEvent::Focused { handle, .. } => self.queue_input(*handle),
            WinitEvent::CursorEntered { handle } => self.queue_input(*handle),
            WinitEvent::CursorLeft { handle } => self.queue_input(*handle),
            WinitEvent::Touch { handle, .. } => self.queue_input(*handle),
            WinitEvent::CloseRequested { handle } => {
                if self.is_open(*handle) {
                    WindowAction::WaitThenClose { handle: *handle }
                } else {
                    WindowAction::Nothing
                }
            },
            WinitEvent::SetTitle { handle } => self.apply_setting(*handle),
            WinitEvent::SetSize { handle } => self.apply_setting(*handle),
            WinitEvent::SetMinSize { handle } => self.apply_setting(*handle),
            WinitEvent::SetMaxSize { handle } => self.apply_setting(*handle),
            WinitEvent::SetFullscreen { handle } => self.apply_setting(*handle),
            WinitEvent::SetMaximized { handle, .. } => self.apply_setting(*handle),
            WinitEvent::SetMinimized { handle, .. } => self.apply_setting(*handle),
            WinitEvent::SetVisible { handle, .. } => self.apply_setting(*handle),
            WinitEvent::FocusWindow { handle } => self.apply_setting(*handle),
            WinitEvent::SetWindowLevel { handle } => self.apply_setting(*handle),
            WinitEvent::SetFrameStyle { handle } => {
                if self.is_open(*handle) {
                    WindowAction::ApplyFrameStyle { handle: *handle }
                } else {
                    WindowAction::Nothing
                }
            },
            WinitEvent::SetAspectRatio { handle } => {
                if self.is_open(*handle) {
                    WindowAction::ApplyAspectRatio { handle: *handle }
                } else {
                    WindowAction::Nothing
                }
            },
            WinitEvent::SetIcon { handle } => self.apply_setting(*handle),
            WinitEvent::SetCursor { handle } => self.apply_setting(*handle),
            WinitEvent::Wake => WindowAction::Nothing,
        }
    }

    fn queue_input(&self, handle: usize) -> (r: WindowAction)
        ensures
            r == (if self@.is_open(handle as int) {
                WindowAction::QueueInput { handle }
            } else {
                WindowAction::Nothing
            }),
    {
        if self.is_open(handle) {
            WindowAction::QueueInput { handle }
        } else {
            WindowAction::Nothing
        }
    }

    fn apply_setting(&self, handle: usize) -> (r: WindowAction)
        ensures
            r == (if self@.is_open(handle as int) {
                WindowAction::Apply { handle }
            } else {
                WindowAction::Nothing
            }),
    {
        if self.is_open(handle) {
            WindowAction::Apply { handle }
        } else {
            WindowAction::Nothing
        }
    }

    /// Whether a window is open under the handle.
    pub fn is_open(&self, handle: usize) -> (r: bool)
        ensures
            r == self@.is_open(handle as int),
    {
        handle < self.slots.len() && self.slots[handle].is_some()
    }

    /// Puts a new window into the table, which grows as far as needed.
    pub fn window_created(&mut self, handle: usize, window: W)
        requires
            handle < usize::MAX,
        ensures
            final(self)@ == old(self)@.with_window(handle, window),
    {
        let ghost before = self.slots@;
        while self.slots.len() < handle
            invariant
                before == old(self).slots@,
                self.slots.len() <= handle || self.slots@ == before,
                self.slots@ =~= before + Seq::new(
                    (self.slots.len() - before.len()) as nat,
                    |i: int| None::<W>,
                ),
                self.slots.len() >= before.len(),
                self.alive == old(self).alive,
                self.created == old(self).created,
                self.pending_creates == old(self).pending_creates,
                self.next_handle == old(self).next_handle,
                self.max_fps == old(self).max_fps,
                self.drag_cap == old(self).drag_cap,
            decreases handle - self.slots.len(),
        {
            self.slots.push(None);
        }
        if self.slots.len() == handle {
            self.slots.push(Some(window));
        } else {
            self.slots.set(handle, Some(window));
        }
        self.alive = self.alive.wrapping_add(1);
        self.created = self.created.wrapping_add(1);
        assert(self@.slots =~= old(self)@.with_window(handle, window).slots);
    }

    /// Takes a window out of the table and gives it back. A window that is
    /// closed twice counts once.
    pub fn window_closed(&mut self, handle: usize) -> (r: Option<W>)
        ensures
            final(self)@ == old(self)@.without_window(handle),
            r == (if old(self)@.is_open(handle as int) {
                old(self)@.slots[handle as int]
            } else {
                None
            }),
    {
        if !self.is_open(handle) {
            return None;
        }
        let mut taken: Option<W> = None;
        self.slots.set_and_swap(handle, &mut taken);
        self.alive = self.alive.wrapping_sub(1);
        assert(self@.slots =~= old(self)@.without_window(handle).slots);
        taken
    }

    /// The window under an index, or the error that it is not there.
    pub fn window_ref(&self, index: u64) -> (r: Result<&W, VireoError>)
        ensures
            match r {
                Ok(w) => self@.is_open((index as usize) as int) && Some(*w)
                    == self@.slots[(index as usize) as int],
                Err(e) => !self@.is_open((index as usize) as int) && e
                    == VireoError::WindowNotFound(index),
            },
    {
        let i: usize = index as usize;
        if i < self.slots.len() {
            if let Some(w) = &self.slots[i] {
                return Ok(w);
            }
        }
        Err(VireoError::WindowNotFound(index))
    }

    /// The number of windows that were created and not closed.
    pub fn window_count(&self) -> (r: usize)
        ensures
            r == self@.alive,
    {
        self.alive
    }

    /// The number of windows that were ever created.
    pub fn created_window_count(&self) -> (r: usize)
        ensures
            r == self@.created,
    {
        self.created
    }

    /// The number of windows asked for and not created yet.
    pub fn pending_window_creates(&self) -> (r: usize)
        ensures
            r == self@.pending_creates,
    {
        self.pending_creates
    }

    /// Sets the frame rate limit of windows created from now on.
    pub fn set_max_fps(&mut self, fps: Option<u32>)
        ensures
            final(self)@ == (TableModel { max_fps: fps, ..old(self)@ }),
    {
        self.max_fps = fps;
    }

    /// The frame rate limit of new windows.
    pub fn max_fps(&self) -> (r: Option<u32>)
        ensures
            r == self@.max_fps,
    {
        self.max_fps
    }

    /// Sets whether windows created from now on limit their rate while dragged.
    pub fn set_drag_cap(&mut self, enabled: bool)
        ensures
            final(self)@ == (TableModel { drag_cap: enabled, ..old(self)@ }),
    {
        self.drag_cap = enabled;
    }

    /// Whether new windows limit their rate while dragged.
    pub fn drag_cap(&self) -> (r: bool)
        ensures
            r == self@.drag_cap,
    {
        self.drag_cap
    }

    /// Forgets all slots, as at the start of a run.
    pub fn clear_windows(&mut self)
        ensures
            final(self)@ == (TableModel { slots: Seq::<Option<W>>::empty(), ..old(self)@ }),
    {
        self.slots.clear();
        assert(self@.slots =~= Seq::<Option<W>>::empty());
    }

    /// The handles of the open windows, in order.
    pub fn window_indices(&self) -> (r: Vec<usize>)
        ensures
            r@ == open_handles(self@.slots),
    {
        let mut r: Vec<usize> = Vec::new();
        let mut i: usize = 0;
        while i < self.slots.len()
            invariant
                i <= self.slots.len(),
                r@ == open_handles(self.slots@.take(i as int)),
            decreases self.slots.len() - i,
        {
            assert(self.slots@.take(i + 1).drop_last() =~= self.slots@.take(i as int));
            if self.slots[i].is_some() {
                r.push(i);
            }
            i = i + 1;
        }
        assert(self.slots@.take(i as int) =~= self.slots@);
        r
    }
}

proof fn lemma_count_push<W>(slots: Seq<Option<W>>, slot: Option<W>)
    ensures
        count_open(slots.push(slot)) == count_open(slots) + if slot is Some {
            1nat
        } else {
            0nat
        },
{
    assert(slots.push(slot).drop_last() =~= slots);
}

proof fn lemma_count_update<W>(slots: Seq<Option<W>>, i: int, slot: Option<W>)
    requires
        0 <= i < slots.len(),
    ensures
        count_open(slots.update(i, slot)) + (if slots[i] is Some {
            1nat
        } else {
            0nat
        }) == count_open(slots) + (if slot is Some {
            1nat
        } else {
            0nat
        }),
    decreases slots.len(),
{
    let updated = slots.update(i, slot);
    if i == slots.len() - 1 {
        assert(updated.drop_last() =~= slots.drop_last());
    } else {
        assert(updated.drop_last() =~= slots.drop_last().update(i, slot));
        lemma_count_update(slots.drop_last(), i, slot);
    }
}

proof fn lemma_count_pad<W>(slots: Seq<Option<W>>, n: nat)
    ensures
        count_open(slots + Seq::new(n, |i: int| None::<W>)) == count_open(slots),
    decreases n,
{
    let padded = slots + Seq::new(n, |i: int| None::<W>);
    if n == 0 {
        assert(padded =~= slots);
    } else {
        lemma_count_pad(slots, (n - 1) as nat);
        assert(padded.drop_last() =~= slots + Seq::new((n - 1) as nat, |i: int| None::<W>));
    }
}

/// Law: opening a window under a handle that is not open keeps the count of
/// windows equal to the number of open slots.
pub proof fn lemma_open_keeps_count<W>(t: TableModel<W>, handle: usize, window: W)
    requires
        t.alive == t.open_count(),
        t.alive < usize::MAX,
        !t.is_open(handle as int),
    ensures
        t.with_window(handle, window).alive == t.with_window(handle, window).open_count(),
        t.with_window(handle, window).is_open(handle as int),
        t.with_window(handle, window).slots[handle as int] == Some(window),
        forall|h: int|
            h != handle ==> t.with_window(handle, window).is_open(h) == #[trigger] t.is_open(h),
{
    if handle < t.slots.len() {
        lemma_count_update(t.slots, handle as int, Some(window));
    } else {
        let n = (handle - t.slots.len()) as nat;
        lemma_count_pad(t.slots, n);
        lemma_count_push(t.slots + Seq::new(n, |i: int| None::<W>), Some(window));
    }
}

/// Law: closing a window keeps the count of windows equal to the number of open
/// slots, never below 0, and closing it again changes nothing.
pub proof fn lemma_close_counts_once<W>(t: TableModel<W>, handle: usize)
    requires
        t.alive == t.open_count(),
    ensures
        t.without_window(handle).alive == t.without_window(handle).open_count(),
        t.without_window(handle).alive == t.alive - (if t.is_open(handle as int) {
            1int
        } else {
            0int
        }),
        !t.without_window(handle).is_open(handle as int),
        t.without_window(handle).without_window(handle) == t.without_window(handle),
        forall|h: int|
            h != handle ==> t.without_window(handle).is_open(h) == #[trigger] t.is_open(h),
{
    if t.is_open(handle as int) {
        lemma_count_update(t.slots, handle as int, None);
    }
}

/// Law: a handle keeps its window while other windows come and go, and that they
/// do has no part in which handle is given out next.
pub proof fn lemma_handles_are_stable<W>(t: TableModel<W>, handle: usize, window: W, h: int)
    requires
        h != handle,
    ensures
        t.with_window(handle, window).is_open(h) == t.is_open(h),
        t.without_window(handle).is_open(h) == t.is_open(h),
        t.is_open(h) ==> t.with_window(handle, window).slots[h] == t.slots[h],
        t.is_open(h) ==> t.without_window(handle).slots[h] == t.slots[h],
        t.with_window(handle, window).next_handle == t.next_handle,
        t.without_window(handle).next_handle == t.next_handle,
{
}

/// Law: the listed handles are those of the open windows, each once, in rising
/// order, and as many as there are open windows.
pub proof fn lemma_open_handles<W>(slots: Seq<Option<W>>)
    requires
        slots.len() <= usize::MAX,
    ensures
        open_handles(slots).len() == count_open(slots),
        forall|k: int|
            0 <= k < open_handles(slots).len() ==> (#[trigger] open_handles(slots)[k])
                < slots.len() && slots[open_handles(slots)[k] as int] is Some,
        forall|i: int, j: int|
            0 <= i < j < open_handles(slots).len() ==> (#[trigger] open_handles(slots)[i]) < (
            #[trigger] open_handles(slots)[j]),
        forall|h: int|
            0 <= h < slots.len() && (#[trigger] slots[h]) is Some ==> open_handles(slots).contains(
                h as usize,
            ),
    decreases slots.len(),
{
    if slots.len() > 0 {
        lemma_open_handles(slots.drop_last());
        let rest = open_handles(slots.drop_last());
        let all = open_handles(slots);
        assert forall|h: int| 0 <= h < slots.len() && (#[trigger] slots[h]) is Some implies all
            .contains(h as usize) by {
            if h == slots.len() - 1 {
                assert(all[all.len() - 1] == h as usize);
            } else {
                assert(slots.drop_last()[h] is Some);
                let k = choose|k: int| 0 <= k < rest.len() && rest[k] == h as usize;
                assert(all[k] == h as usize);
            }
        }
    }
}

} // verus!
