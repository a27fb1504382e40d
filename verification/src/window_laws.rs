//! What holds of windows from the event loop to the table, whatever happens to
//! them.

use vstd::prelude::*;
use crate::callbacks::InputCallbacks;
use crate::error::VireoError;
use crate::host::{
    choose_alpha_mode, choose_format, custom_frame, surface_size, visibility, AlphaMode,
    CallbackKind, ClosePlan, EventPlan, Runner, WaitPlan, WindowEvent,
};
use crate::supervisor::{
    decide_supervisor_action, panic_payload_to_string, thread_name, thread_tps, Snapshot,
    Supervisor, SupervisorAction, SupervisorInput, SupervisorStep,
};
use crate::windows::{WindowAction, WindowTable, WinitEvent};

verus! {

// ---------------------------------------------------------------------------
// From an event to a message
// ---------------------------------------------------------------------------

/// Whether a message to a window says what an event of it says: it is of the same
/// kind, for that window, and has the same payload.
pub open spec fn says(m: WinitEvent, handle: usize, e: WindowEvent) -> bool {
    match e {
        WindowEvent::Resized { width, height } => m matches WinitEvent::Resized {
            handle: to,
            width: w,
            height: h,
        } && to == handle && w == width && h == height,
        WindowEvent::ScaleFactorChanged { scale } => m matches WinitEvent::ScaleFactorChanged {
            handle: to,
            scale: s,
        } && to == handle && s == scale,
        WindowEvent::CursorMoved { x, y } => m matches WinitEvent::CursorMoved {
            handle: to,
            x: mx,
            y: my,
        } && to == handle && mx == x && my == y,
        WindowEvent::KeyboardInput { event } => m matches WinitEvent::KeyboardInput {
            handle: to,
            event: key,
        } && to == handle && event == Some(key),
        WindowEvent::MouseInput { button, pressed } => m matches WinitEvent::MouseInput {
            handle: to,
            button: b,
            pressed: p,
        } && to == handle && b == button && p == pressed,
        WindowEvent::MouseWheel { delta } => m matches WinitEvent::MouseWheel {
            handle: to,
            delta: d,
        } && to == handle && d == delta,
        WindowEvent::ModifiersChanged { modifiers } => m matches WinitEvent::ModifiersChanged {
            handle: to,
            modifiers: held,
        } && to == handle && held == modifiers,
        WindowEvent::Focused { focused } => m matches WinitEvent::Focused {
            handle: to,
            focused: f,
        } && to == handle && f == focused,
        WindowEvent::Touch { event } => m matches WinitEvent::Touch { handle: to, event: t }
            && to == handle && t == event,
        WindowEvent::CursorEntered => m matches WinitEvent::CursorEntered { handle: to } && to
            == handle,
        WindowEvent::CursorLeft => m matches WinitEvent::CursorLeft { handle: to } && to == handle,
        WindowEvent::CloseRequested => m matches WinitEvent::CloseRequested { handle: to } && to
            == handle,
        _ => false,
    }
}

/// Whether an event is one that the rest of the program is told of.
pub open spec fn is_news(e: WindowEvent) -> bool {
    match e {
        WindowEvent::KeyboardInput { event } => event is Some,
        WindowEvent::Ime => false,
        WindowEvent::DroppedFile => false,
        WindowEvent::HoveredFile => false,
        WindowEvent::HoveredFileCancelled => false,
        WindowEvent::Moved => false,
        WindowEvent::ThemeChanged => false,
        WindowEvent::RedrawRequested => false,
        WindowEvent::Other => false,
        _ => true,
    }
}

/// Law: the message about an event is for the window of the event, and each part
/// of the event's payload is in it unchanged. There is one exactly of the events
/// that are news.
pub proof fn lemma_event_reaches_message(
    runner: &mut Runner,
    id: u64,
    event: WindowEvent,
    plan: EventPlan,
)
    requires
        call_ensures(Runner::window_event, (runner, id, event), Some(plan)),
    ensures
        plan.message is Some <==> is_news(event),
        plan.message matches Some(m) ==> says(m, plan.handle, event),
{
}

/// Law: a window that is resized to `width` by `height` gets a drawing surface of
/// that width and that height.
pub proof fn lemma_resize_reaches_surface<W>(
    runner: &mut Runner,
    id: u64,
    width: u32,
    height: u32,
    plan: EventPlan,
    table: WindowTable<W>,
    action: WindowAction,
)
    requires
        call_ensures(
            Runner::window_event,
            (runner, id, WindowEvent::Resized { width, height }),
            Some(plan),
        ),
        plan.message matches Some(m) && call_ensures(
            WindowTable::<W>::apply_winit_event_one,
            (&table, &m),
            action,
        ),
    ensures
        table@.is_open(plan.handle as int) ==> (action matches WindowAction::Resize {
            handle,
            width: w,
            height: h,
        } && handle == plan.handle && w == width && h == height),
        !table@.is_open(plan.handle as int) ==> action is Nothing,
{
}

/// Law: input of an open window waits in the queue of that window; a window that
/// is asked to close waits until it is not drawn; and nothing is done for a window
/// that is not open.
pub proof fn lemma_input_reaches_queue<W>(
    runner: &mut Runner,
    id: u64,
    event: WindowEvent,
    plan: EventPlan,
    table: WindowTable<W>,
    action: WindowAction,
)
    requires
        call_ensures(Runner::window_event, (runner, id, event), Some(plan)),
        plan.message matches Some(m) && call_ensures(
            WindowTable::<W>::apply_winit_event_one,
            (&table, &m),
            action,
        ),
    ensures
        !table@.is_open(plan.handle as int) ==> action is Nothing,
        table@.is_open(plan.handle as int) ==> {
            &&& event is CursorMoved || event is KeyboardInput || event is MouseInput
                || event is MouseWheel || event is ModifiersChanged || event is Focused
                || event is CursorEntered || event is CursorLeft || event is Touch ==> (
            action matches WindowAction::QueueInput { handle } && handle == plan.handle)
            &&& event is CloseRequested ==> (action matches WindowAction::WaitThenClose { handle }
                && handle == plan.handle)
            &&& event is ScaleFactorChanged ==> (action matches WindowAction::ResizeToWindow {
                handle,
            } && handle == plan.handle)
        },
{
}

/// Law: a new window is put in under its handle, a setting goes to the window it
/// names if that is open, and waking does nothing.
pub proof fn lemma_settings_reach_their_window<W>(
    table: WindowTable<W>,
    m: WinitEvent,
    handle: usize,
    action: WindowAction,
)
    requires
        call_ensures(WindowTable::<W>::apply_winit_event_one, (&table, &m), action),
    ensures
        m == (WinitEvent::WindowCreated { handle }) ==> action == (WindowAction::Open { handle }),
        m is Wake ==> action is Nothing,
        m == (WinitEvent::SetFrameStyle { handle }) ==> (if table@.is_open(handle as int) {
            action == (WindowAction::ApplyFrameStyle { handle })
        } else {
            action is Nothing
        }),
        m == (WinitEvent::SetAspectRatio { handle }) ==> (if table@.is_open(handle as int) {
            action == (WindowAction::ApplyAspectRatio { handle })
        } else {
            action is Nothing
        }),
        m == (WinitEvent::SetTitle { handle }) || m == (WinitEvent::SetSize { handle }) || m == (
        WinitEvent::SetMinSize { handle }) || m == (WinitEvent::SetMaxSize { handle }) || m == (
        WinitEvent::SetFullscreen { handle }) || m == (WinitEvent::FocusWindow { handle }) || m
            == (WinitEvent::SetWindowLevel { handle }) || m == (WinitEvent::SetIcon { handle })
            || m == (WinitEvent::SetCursor { handle }) || (m matches WinitEvent::SetMaximized {
            handle: h,
            ..
        } && h == handle) || (m matches WinitEvent::SetMinimized { handle: h, .. } && h == handle)
            || (m matches WinitEvent::SetVisible { handle: h, .. } && h == handle) ==> (
        if table@.is_open(handle as int) {
            action == (WindowAction::Apply { handle })
        } else {
            action is Nothing
        }),
{
}

/// Law: what is pressed is heard as going down and what is not as going up, focus
/// that comes as gained and focus that goes as lost. No callback is called of a
/// window without a place for them, of a request to close, to draw, or of what is
/// not known.
pub proof fn lemma_event_reaches_callbacks(
    runner: &mut Runner,
    id: u64,
    event: WindowEvent,
    plan: EventPlan,
)
    requires
        call_ensures(Runner::window_event, (runner, id, event), Some(plan)),
        plan.handle < runner@.callback_slots,
    ensures
        event matches WindowEvent::KeyboardInput { event: key } ==> (match key {
            Some(key) => plan.callbacks == Some(CallbackKind::KeyDown) <==> key.pressed,
            None => plan.callbacks is None,
        }),
        event matches WindowEvent::KeyboardInput { event: Some(key) } ==> (plan.callbacks == Some(
            CallbackKind::KeyUp,
        ) <==> !key.pressed),
        event matches WindowEvent::MouseInput { pressed, .. } ==> ((plan.callbacks == Some(
            CallbackKind::MouseDown,
        ) <==> pressed) && (plan.callbacks == Some(CallbackKind::MouseUp) <==> !pressed)),
        event matches WindowEvent::Focused { focused } ==> ((plan.callbacks == Some(
            CallbackKind::FocusGained,
        ) <==> focused) && (plan.callbacks == Some(CallbackKind::FocusLost) <==> !focused)),
        plan.callbacks == Some(CallbackKind::Resized) <==> event is Resized,
        plan.callbacks == Some(CallbackKind::Scroll) <==> event is MouseWheel,
        plan.callbacks == Some(CallbackKind::ModifiersChanged) <==> event is ModifiersChanged,
        plan.callbacks == Some(CallbackKind::CursorEntered) <==> event is CursorEntered,
        plan.callbacks == Some(CallbackKind::CursorLeft) <==> event is CursorLeft,
        plan.callbacks == Some(CallbackKind::Touch) <==> event is Touch,
        plan.callbacks == Some(CallbackKind::Ime) <==> event is Ime,
        plan.callbacks == Some(CallbackKind::FileDropped) <==> event is DroppedFile,
        plan.callbacks == Some(CallbackKind::FileHovered) <==> event is HoveredFile,
        plan.callbacks == Some(CallbackKind::FileHoverCancelled) <==> event is HoveredFileCancelled,
        plan.callbacks == Some(CallbackKind::Moved) <==> event is Moved,
        plan.callbacks == Some(CallbackKind::ThemeChanged) <==> event is ThemeChanged,
        event is CloseRequested || event is RedrawRequested || event is Other
            || event is ScaleFactorChanged || event is CursorMoved ==> plan.callbacks is None,
{
}

/// Law: callbacks of entering, leaving, gaining and losing focus and of a hover
/// that ends are called once, and all others each time.
pub proof fn lemma_which_are_called_once(kind: CallbackKind, once: bool)
    requires
        call_ensures(CallbackKind::once, (kind,), once),
    ensures
        kind == CallbackKind::CursorEntered || kind == CallbackKind::CursorLeft || kind
            == CallbackKind::FocusGained || kind == CallbackKind::FocusLost || kind
            == CallbackKind::FileHoverCancelled ==> once,
        kind == CallbackKind::KeyDown || kind == CallbackKind::KeyUp || kind
            == CallbackKind::MouseDown || kind == CallbackKind::MouseUp || kind
            == CallbackKind::Scroll || kind == CallbackKind::Touch || kind
            == CallbackKind::ModifiersChanged || kind == CallbackKind::Ime || kind
            == CallbackKind::FileDropped || kind == CallbackKind::FileHovered || kind
            == CallbackKind::Moved || kind == CallbackKind::ThemeChanged || kind
            == CallbackKind::Resized ==> !once,
{
}

// ---------------------------------------------------------------------------
// What the event loop knows
// ---------------------------------------------------------------------------

/// Law: a window that was made is found by its id, and has a place for callbacks;
/// what was found of other ids, and the places there were, stay.
pub proof fn lemma_made_window_is_known(
    runner: &mut Runner,
    handle: usize,
    id: u64,
    hwnd: Option<isize>,
    has_hook: bool,
    other: u64,
    slot: usize,
    found: Option<usize>,
    was: Option<usize>,
    now: Option<usize>,
    had: bool,
    placed: bool,
)
    requires
        handle < usize::MAX,
        call_ensures(Runner::window_created, (runner, handle, id, hwnd, has_hook), ()),
    ensures
        call_ensures(Runner::handle_for, (&*final(runner), id), found) ==> found == Some(handle),
        other != id && call_ensures(Runner::handle_for, (&*old(runner), other), was)
            && call_ensures(Runner::handle_for, (&*final(runner), other), now) ==> was == now,
        call_ensures(Runner::has_callbacks, (&*final(runner), handle), placed) ==> placed,
        call_ensures(Runner::has_callbacks, (&*old(runner), slot), had) && call_ensures(
            Runner::has_callbacks,
            (&*final(runner), slot),
            placed,
        ) && had ==> placed,
        final(runner)@.created == old(runner)@.created,
        final(runner)@.resumed_fired == old(runner)@.resumed_fired,
{
}

/// Law: the native window that was given for a handle is the one found for it,
/// those of other handles stay, and none is found where none was given.
pub proof fn lemma_native_window_is_known(
    runner: &mut Runner,
    handle: usize,
    id: u64,
    hwnd: Option<isize>,
    has_hook: bool,
    other: usize,
    found: Option<isize>,
    was: Option<isize>,
    now: Option<isize>,
)
    requires
        handle < usize::MAX,
        call_ensures(Runner::window_created, (runner, handle, id, hwnd, has_hook), ()),
    ensures
        hwnd is Some && call_ensures(Runner::hwnd, (&*final(runner), handle), found) ==> (found
            == hwnd || (hwnd == Some(0isize) && found is None)),
        (other != handle || hwnd is None) && call_ensures(Runner::hwnd, (&*old(runner), other), was)
            && call_ensures(Runner::hwnd, (&*final(runner), other), now) ==> was == now,
{
}

/// Law: closing a window calls the hook that it was made with, the first time and
/// no other, and names its native window. Other windows keep their hooks.
pub proof fn lemma_close_calls_hook(
    runner: &mut Runner,
    handle: usize,
    plan: ClosePlan,
    native: Option<isize>,
    other: usize,
)
    requires
        call_ensures(Runner::request_close, (runner, handle), plan),
        other != handle,
    ensures
        plan.hook <==> old(runner)@.hook_waits(handle),
        !final(runner)@.hook_waits(handle),
        final(runner)@.hook_waits(other) == old(runner)@.hook_waits(other),
        call_ensures(Runner::hwnd, (&*old(runner), handle), native) ==> plan.hwnd == native,
        final(runner)@.handles == old(runner)@.handles,
        final(runner)@.hwnds == old(runner)@.hwnds,
        final(runner)@.callback_slots == old(runner)@.callback_slots,
{
}

/// Law: a window made with a hook has one that waits; one made without leaves
/// what there was.
pub proof fn lemma_hook_waits_when_given(
    runner: &mut Runner,
    handle: usize,
    id: u64,
    hwnd: Option<isize>,
    has_hook: bool,
    other: usize,
)
    requires
        handle < usize::MAX,
        call_ensures(Runner::window_created, (runner, handle, id, hwnd, has_hook), ()),
    ensures
        has_hook ==> final(runner)@.hook_waits(handle),
        !has_hook || other != handle ==> final(runner)@.hook_waits(other) == old(runner)@.hook_waits(other),
{
}

/// Law: an event is for the window with its id; of a window that is not known
/// nothing is asked; only a request to close closes.
pub proof fn lemma_event_finds_its_window(
    runner: &mut Runner,
    id: u64,
    event: WindowEvent,
    plan: Option<EventPlan>,
    handle: Option<usize>,
)
    requires
        call_ensures(Runner::window_event, (runner, id, event), plan),
        call_ensures(Runner::handle_for, (&*old(runner), id), handle),
    ensures
        plan is Some <==> handle is Some,
        plan matches Some(p) ==> {
            &&& Some(p.handle) == handle
            &&& p.close is Some <==> event is CloseRequested
            &&& p.close matches Some(c) ==> (c.hook <==> old(runner)@.hook_waits(p.handle))
                && !final(runner)@.hook_waits(p.handle)
        },
        !(event is CloseRequested) ==> final(runner)@ == old(runner)@,
{
}

/// Law: windows are created when the loop first runs and not when it runs again;
/// from then on requested windows are created before each wait. The loop ends once
/// anything asks for it.
pub proof fn lemma_windows_come_once(
    runner: &mut Runner,
    first: bool,
    requests: usize,
    wait: WaitPlan,
)
    requires
        call_ensures(Runner::resumed, (runner,), first),
    ensures
        first <==> !old(runner)@.created,
        final(runner)@.created,
        first && call_ensures(Runner::about_to_wait, (&*final(runner), requests), wait)
            ==> wait.create,
        call_ensures(Runner::about_to_wait, (&*final(runner), requests), wait) ==> (wait.exit
            <==> requests != 0),
        !first ==> final(runner)@ == old(runner)@,
        final(runner)@.handles == old(runner)@.handles,
        final(runner)@.hwnds == old(runner)@.hwnds,
        final(runner)@.hooks == old(runner)@.hooks,
{
}

/// Law: an event loop that begins knows no window, and creates none before it
/// runs.
pub proof fn lemma_fresh_runner_knows_nothing(
    runner: Runner,
    id: u64,
    handle: usize,
    found: Option<usize>,
    native: Option<isize>,
    placed: bool,
    wait: WaitPlan,
)
    requires
        call_ensures(Runner::new, (), runner),
    ensures
        call_ensures(Runner::handle_for, (&runner, id), found) ==> found is None,
        call_ensures(Runner::hwnd, (&runner, handle), native) ==> native is None,
        call_ensures(Runner::has_callbacks, (&runner, handle), placed) ==> !placed,
        call_ensures(Runner::about_to_wait, (&runner, 0), wait) ==> !wait.create && !wait.exit,
        !runner@.hook_waits(handle),
        !runner@.created,
{
}

// ---------------------------------------------------------------------------
// Making a window
// ---------------------------------------------------------------------------

/// Law: a surface has the size of its window, on each axis by itself, unless that
/// is 0, and is never empty.
pub proof fn lemma_surface_is_as_large_as_window(width: u32, height: u32, r: (u32, u32))
    requires
        call_ensures(surface_size, (width, height), r),
    ensures
        r.0 >= 1 && r.1 >= 1,
        width >= 1 ==> r.0 == width,
        height >= 1 ==> r.1 == height,
        width == 0 ==> r.0 == 1,
        height == 0 ==> r.1 == 1,
{
}

/// Law: a window is its own frame only with a border and without a title bar.
pub proof fn lemma_own_frame(has_titlebar: bool, has_border: bool, r: bool)
    requires
        call_ensures(custom_frame, (has_titlebar, has_border), r),
    ensures
        r ==> has_border,
        has_titlebar ==> !r,
        has_border && !has_titlebar ==> r,
{
}

/// Law: a visible window is shown exactly once: with its making if it is not
/// prepared, after its first frame if it is. An invisible one is not shown.
pub proof fn lemma_shown_once(visible: bool, preparable: bool, r: (bool, bool))
    requires
        call_ensures(visibility, (visible, preparable), r),
    ensures
        r.0 <==> visible && !preparable,
        r.1 <==> visible && preparable,
        !visible ==> !r.0 && !r.1,
{
}

/// Law: an opaque window is composed as the system does; a transparent one by a
/// mode that the surface placed, post-multiplied where it can choose.
pub proof fn lemma_alpha_mode_is_offered(
    transparent: bool,
    post_multiplied: bool,
    pre_multiplied: bool,
    r: AlphaMode,
)
    requires
        call_ensures(choose_alpha_mode, (transparent, post_multiplied, pre_multiplied), r),
    ensures
        r == AlphaMode::PostMultiplied ==> transparent && post_multiplied,
        r == AlphaMode::PreMultiplied ==> transparent && pre_multiplied && !post_multiplied,
        r == AlphaMode::Auto ==> !transparent || (!post_multiplied && !pre_multiplied),
{
}

/// Law: the format of a surface is one that it offers, the current one if it
/// offers that, else its first; pipelines are made anew exactly if it changes.
pub proof fn lemma_format_is_offered(current: u32, offered: Vec<u32>, r: (u32, bool))
    requires
        offered@.len() > 0,
        call_ensures(choose_format, (current, &offered), r),
    ensures
        offered@.contains(r.0),
        offered@.contains(current) ==> r.0 == current && !r.1,
        !offered@.contains(current) ==> r.0 == offered@[0] && r.1,
        r.1 <==> r.0 != current,
{
    assert(offered@.contains(offered@[0]));
}

// ---------------------------------------------------------------------------
// The table
// ---------------------------------------------------------------------------

/// Law: a window that was put in is found under its handle and under no other, and
/// counts; all other windows stay where they are.
pub proof fn lemma_window_is_found<W>(
    table: &mut WindowTable<W>,
    handle: usize,
    window: W,
    other: u64,
    now: bool,
    before: usize,
    after: usize,
    made_before: usize,
    made_after: usize,
)
    requires
        handle < usize::MAX,
        call_ensures(WindowTable::<W>::window_created, (table, handle, window), ()),
    ensures
        call_ensures(WindowTable::<W>::is_open, (&*final(table), handle), now) ==> now,
        final(table)@.slots[handle as int] == Some(window),
        (other as usize) != handle ==> final(table)@.is_open((other as usize) as int) == old(table)@.is_open((other as usize) as int),
        old(table)@.is_open((other as usize) as int) && (other as usize) != handle ==> final(table)@.slots[(other as usize) as int] == old(table)@.slots[(other as usize) as int],
        before < usize::MAX && call_ensures(
            WindowTable::<W>::window_count,
            (&*old(table),),
            before,
        ) && call_ensures(WindowTable::<W>::window_count, (&*final(table),), after) ==> after
            == before + 1,
        made_before < usize::MAX && call_ensures(
            WindowTable::<W>::created_window_count,
            (&*old(table),),
            made_before,
        ) && call_ensures(WindowTable::<W>::created_window_count, (&*final(table),), made_after)
            ==> made_after == made_before + 1,
        final(table)@.next_handle == old(table)@.next_handle,
        final(table)@.pending_creates == old(table)@.pending_creates,
        final(table)@.max_fps == old(table)@.max_fps,
        final(table)@.drag_cap == old(table)@.drag_cap,
{
}

/// Law: a window that is closed is given back, is not found any more and does not
/// count. Closing it again gives nothing and counts nothing. How many were ever
/// made stays.
pub proof fn lemma_closed_window_is_gone<W>(
    table: &mut WindowTable<W>,
    handle: usize,
    window: Option<W>,
    now: bool,
)
    requires
        call_ensures(WindowTable::<W>::window_closed, (table, handle), window),
    ensures
        call_ensures(WindowTable::<W>::is_open, (&*final(table), handle), now) ==> !now,
        window is Some <==> old(table)@.is_open(handle as int),
        window is Some ==> window == old(table)@.slots[handle as int],
        window is None ==> final(table)@ == old(table)@,
        window is Some && old(table)@.alive > 0 ==> final(table)@.alive == old(table)@.alive - 1,
        final(table)@.created == old(table)@.created,
        final(table)@.next_handle == old(table)@.next_handle,
        final(table)@.pending_creates == old(table)@.pending_creates,
        forall|h: int|
            h != handle && 0 <= h < old(table)@.slots.len() ==> (#[trigger] final(table)@.slots[h])
                == old(table)@.slots[h],
{
}

/// Law: looking up a window gives the one that is open under the index, or the
/// error that names the index.
pub proof fn lemma_lookup_names_index<W>(
    table: WindowTable<W>,
    index: u64,
    r: Result<&W, VireoError>,
)
    requires
        call_ensures(WindowTable::<W>::window_ref, (&table, index), r),
    ensures
        r is Ok <==> table@.is_open((index as usize) as int),
        r matches Ok(w) ==> table@.slots[(index as usize) as int] == Some(*w),
        r matches Err(e) ==> (e matches VireoError::WindowNotFound(n) && n == index),
{
}

/// Law: two requests never get the same handle, handles are given out in rising
/// order, and each request is pending until it is served.
pub proof fn lemma_requests_get_new_handles<W>(
    table: &mut WindowTable<W>,
    handle: u64,
    next: u64,
    was: usize,
    now: usize,
)
    requires
        table@.next_handle < u64::MAX,
        call_ensures(WindowTable::<W>::request_window, (table,), handle),
    ensures
        call_ensures(WindowTable::<W>::next_handle, (&*old(table),), next) ==> next == handle,
        call_ensures(WindowTable::<W>::next_handle, (&*final(table),), next) ==> next == handle + 1,
        was < usize::MAX && call_ensures(
            WindowTable::<W>::pending_window_creates,
            (&*old(table),),
            was,
        ) && call_ensures(WindowTable::<W>::pending_window_creates, (&*final(table),), now) ==> now == was + 1,
        final(table)@.slots == old(table)@.slots,
        final(table)@.alive == old(table)@.alive,
        final(table)@.created == old(table)@.created,
{
}

/// Law: serving a request takes one off those that are pending, and changes
/// nothing else.
pub proof fn lemma_served_request_is_not_pending<W>(
    table: &mut WindowTable<W>,
    was: usize,
    now: usize,
)
    requires
        call_ensures(WindowTable::<W>::request_served, (table,), ()),
    ensures
        was > 0 && call_ensures(
            WindowTable::<W>::pending_window_creates,
            (&*old(table),),
            was,
        ) && call_ensures(WindowTable::<W>::pending_window_creates, (&*final(table),), now) ==> now + 1 == was,
        final(table)@.slots == old(table)@.slots,
        final(table)@.alive == old(table)@.alive,
        final(table)@.created == old(table)@.created,
        final(table)@.next_handle == old(table)@.next_handle,
{
}

/// Law: a limit that was set is the one read back, and setting one limit leaves
/// the other.
pub proof fn lemma_limits_read_back<W>(
    table: &mut WindowTable<W>,
    fps: Option<u32>,
    read: Option<u32>,
    cap: bool,
)
    requires
        call_ensures(WindowTable::<W>::set_max_fps, (table, fps), ()),
    ensures
        call_ensures(WindowTable::<W>::max_fps, (&*final(table),), read) ==> read == fps,
        call_ensures(WindowTable::<W>::drag_cap, (&*final(table),), cap) ==> cap == old(table)@.drag_cap,
        final(table)@.slots == old(table)@.slots,
        final(table)@.alive == old(table)@.alive,
{
}

/// Law: the drag limit that was set is the one read back, and the frame rate limit
/// stays.
pub proof fn lemma_drag_limit_reads_back<W>(
    table: &mut WindowTable<W>,
    enabled: bool,
    read: Option<u32>,
    cap: bool,
)
    requires
        call_ensures(WindowTable::<W>::set_drag_cap, (table, enabled), ()),
    ensures
        call_ensures(WindowTable::<W>::drag_cap, (&*final(table),), cap) ==> cap == enabled,
        call_ensures(WindowTable::<W>::max_fps, (&*final(table),), read) ==> read == old(table)@.max_fps,
        final(table)@.slots == old(table)@.slots,
        final(table)@.alive == old(table)@.alive,
{
}

/// Law: the listed windows are exactly the open ones, in rising order; a table
/// that was cleared has none, and goes on giving out new handles.
pub proof fn lemma_listed_windows_are_open<W>(table: WindowTable<W>, r: Vec<usize>)
    requires
        call_ensures(WindowTable::<W>::window_indices, (&table,), r),
        table@.slots.len() <= usize::MAX,
    ensures
        forall|h: usize| r@.contains(h) <==> #[trigger] table@.is_open(h as int),
        forall|i: int, j: int| 0 <= i < j < r@.len() ==> r@[i] < r@[j],
{
    crate::windows::lemma_open_handles(table@.slots);
    assert forall|h: usize| r@.contains(h) == #[trigger] table@.is_open(h as int) by {
        if r@.contains(h) {
            let k = choose|k: int| 0 <= k < r@.len() && r@[k] == h;
            assert(r@[k] < table@.slots.len());
        }
        if table@.is_open(h as int) {
            assert(table@.slots[h as int] is Some);
        }
    }
}

/// Law: a table that was cleared has no open window, and goes on giving out new
/// handles.
pub proof fn lemma_cleared_table_is_empty<W>(
    table: &mut WindowTable<W>,
    handle: usize,
    now: bool,
    r: Vec<usize>,
)
    requires
        call_ensures(WindowTable::<W>::clear_windows, (table,), ()),
    ensures
        call_ensures(WindowTable::<W>::is_open, (&*final(table), handle), now) ==> !now,
        call_ensures(WindowTable::<W>::window_indices, (&*final(table),), r) ==> r@.len() == 0,
        final(table)@.next_handle == old(table)@.next_handle,
        final(table)@.max_fps == old(table)@.max_fps,
        final(table)@.drag_cap == old(table)@.drag_cap,
{
}

/// Law: a new table has no windows and none on the way, gives out handles from 0,
/// limits new windows to 240 frames a second, and limits them while dragged.
pub proof fn lemma_new_table_is_empty<W>(
    table: WindowTable<W>,
    handle: usize,
    now: bool,
    n: usize,
    next: u64,
    fps: Option<u32>,
    cap: bool,
)
    requires
        call_ensures(WindowTable::<W>::new, (), table),
    ensures
        call_ensures(WindowTable::<W>::is_open, (&table, handle), now) ==> !now,
        call_ensures(WindowTable::<W>::window_count, (&table,), n) ==> n == 0,
        call_ensures(WindowTable::<W>::created_window_count, (&table,), n) ==> n == 0,
        call_ensures(WindowTable::<W>::pending_window_creates, (&table,), n) ==> n == 0,
        call_ensures(WindowTable::<W>::next_handle, (&table,), next) ==> next == 0,
        call_ensures(WindowTable::<W>::max_fps, (&table,), fps) ==> fps == Some(240u32),
        call_ensures(WindowTable::<W>::drag_cap, (&table,), cap) ==> cap,
{
}

// ---------------------------------------------------------------------------
// When the application is done
// ---------------------------------------------------------------------------

/// Law: the application ends exactly if the device is lost, all windows were
/// closed, or its main task and loops are done and the windows settled. It closes
/// all windows only where these are all that is left, and none is on its way; else
/// it waits.
pub proof fn lemma_when_the_application_ends(
    main_done: bool,
    loops_done: bool,
    settled: bool,
    all_closed: bool,
    lost: bool,
    open: usize,
    pending: usize,
    r: SupervisorAction,
)
    requires
        call_ensures(
            decide_supervisor_action,
            (main_done, loops_done, settled, all_closed, lost, open, pending),
            r,
        ),
    ensures
        lost ==> r == SupervisorAction::Exit,
        all_closed ==> r == SupervisorAction::Exit,
        main_done && loops_done && settled ==> r == SupervisorAction::Exit,
        !lost && !all_closed && !main_done ==> r == SupervisorAction::Wait,
        !lost && !all_closed && !loops_done ==> r == SupervisorAction::Wait,
        !lost && !all_closed && !settled ==> r != SupervisorAction::Exit,
        r == SupervisorAction::CloseAll <==> !lost && !all_closed && main_done && loops_done
            && !settled && open > 0 && pending == 0,
{
}

/// Law: while a window is open and the device is there, the supervisor does not
/// end the application; it does once the last window is closed, and none is on its
/// way.
pub proof fn lemma_supervisor_ends_with_last_window(
    sup: &mut Supervisor,
    seen: Snapshot,
    step: SupervisorStep,
)
    requires
        sup.created_windows < usize::MAX,
        call_ensures(Supervisor::step, (sup, SupervisorInput::Empty { seen }), step),
    ensures
        !seen.device_lost && seen.window_count > 0 ==> step != SupervisorStep::Exit,
        !seen.device_lost && seen.pending_creates > 0 ==> step != SupervisorStep::Exit,
        seen.device_lost ==> step == SupervisorStep::Exit,
        old(sup).created_windows > 0 && seen.window_count == 0 && seen.pending_creates == 0 ==> step
            == SupervisorStep::Exit,
        old(sup).created_windows == 0 && !seen.device_lost && !seen.main_done ==> step
            != SupervisorStep::Exit,
        old(sup).created_windows == 0 && !seen.device_lost && (exists|i: int|
            0 <= i < seen.loops_done@.len() && !#[trigger] seen.loops_done@[i])
            && seen.loops_requested ==> step != SupervisorStep::Exit,
        seen.main_done && !seen.loops_requested && !seen.device_lost && seen.window_count > 0
            && seen.pending_creates == 0 ==> step == SupervisorStep::CloseAllThenPoll,
        step == SupervisorStep::CloseAllThenPoll ==> seen.main_done && seen.window_count > 0
            && seen.pending_creates == 0 && !seen.device_lost,
        step != SupervisorStep::ServeThenPoll && step != SupervisorStep::Stop,
        final(sup).created_windows == old(sup).created_windows,
        final(sup).expected_windows == old(sup).expected_windows,
{
}

/// Law: a window that came is counted and its request is served; any other message
/// counts nothing. After a message the queue is looked at without waiting.
pub proof fn lemma_supervisor_counts_windows(
    sup: &mut Supervisor,
    is_created: bool,
    step: SupervisorStep,
    ready: bool,
)
    requires
        sup.created_windows < usize::MAX,
        call_ensures(Supervisor::step, (sup, SupervisorInput::Applied { is_created }), step),
    ensures
        is_created ==> step == SupervisorStep::ServeThenPoll && final(sup).created_windows == old(sup).created_windows + 1,
        !is_created ==> step == SupervisorStep::Poll && final(sup).created_windows == old(sup).created_windows,
        final(sup).expected_windows == old(sup).expected_windows,
        !final(sup).blocked,
        call_ensures(Supervisor::windows_ready, (&*final(sup),), ready) ==> (ready <==> final(sup).expected_windows <= final(sup).created_windows),
{
}

/// Law: a supervisor that has just taken a message without waiting looks once more
/// before it waits; one that has not waits. It stops once nothing can send to it
/// any more.
pub proof fn lemma_supervisor_waits_when_idle(
    sup: &mut Supervisor,
    input: SupervisorInput,
    step: SupervisorStep,
)
    requires
        sup.created_windows < usize::MAX,
        call_ensures(Supervisor::step, (sup, input), step),
    ensures
        input is Disconnected <==> step == SupervisorStep::Stop,
        input is Empty && (step == SupervisorStep::Poll || step == SupervisorStep::Block) ==> (step
            == SupervisorStep::Poll <==> old(sup).processed),
        step == SupervisorStep::Block ==> final(sup).blocked && !final(sup).processed,
        input is Empty && step == SupervisorStep::Poll ==> !final(sup).processed && !final(sup).blocked,
        step == SupervisorStep::Block ==> input is Empty,
{
}

/// Law: a new supervisor has seen no window, and is ready only if it waits for
/// none.
pub proof fn lemma_new_supervisor(expected: usize, sup: Supervisor, ready: bool)
    requires
        call_ensures(Supervisor::new, (expected,), sup),
    ensures
        call_ensures(Supervisor::windows_ready, (&sup,), ready) ==> (ready <==> expected == 0),
        sup.created_windows == 0,
        !sup.processed && !sup.blocked,
{
}

/// Law: a panic is reported with the text it was raised with, whichever form that
/// placed, and a thread has its own name and rate where it was given them.
pub proof fn lemma_threads_keep_what_they_are_given(
    s: &str,
    t: String,
    name: String,
    number: usize,
    own: u32,
    limit: Option<u32>,
    text: String,
    tps: Option<u32>,
)
    ensures
        call_ensures(panic_payload_to_string, (Some(s), None), text) ==> text@ == s@,
        call_ensures(panic_payload_to_string, (Some(s), Some(&t)), text) ==> text@ == s@,
        call_ensures(panic_payload_to_string, (None, Some(&t)), text) ==> text@ == t@,
        call_ensures(thread_name, (Some(name), number), text) ==> text@ == name@,
        call_ensures(thread_tps, (Some(own), limit), tps) ==> tps == Some(own),
        call_ensures(thread_tps, (None, limit), tps) ==> tps == limit,
{
}

/// Law: threads without a name of their own that differ in their number differ in
/// their name.
pub proof fn lemma_thread_names_differ(a: usize, b: usize, first: String, second: String)
    requires
        call_ensures(thread_name, (None, a), first),
        call_ensures(thread_name, (None, b), second),
        first@ == second@,
    ensures
        a == b,
{
    let prefix = "vireo-thread-"@;
    let p = crate::decimal::decimal_text(a as nat);
    let q = crate::decimal::decimal_text(b as nat);
    assert(p =~= (prefix + p).skip(prefix.len() as int));
    assert(q =~= (prefix + q).skip(prefix.len() as int));
    crate::decimal::lemma_decimal_reads_back(a as nat);
    crate::decimal::lemma_decimal_reads_back(b as nat);
}

// ---------------------------------------------------------------------------
// Callbacks
// ---------------------------------------------------------------------------

/// Law: the callbacks of each kind are those that were registered for it.
pub proof fn lemma_kinds_have_their_callbacks<C>(c: InputCallbacks<C>)
    ensures
        c.list(CallbackKind::KeyDown) == c.on_key_down@,
        c.list(CallbackKind::KeyUp) == c.on_key_up@,
        c.list(CallbackKind::MouseDown) == c.on_mouse_down@,
        c.list(CallbackKind::MouseUp) == c.on_mouse_up@,
        c.list(CallbackKind::Scroll) == c.on_scroll@,
        c.list(CallbackKind::CursorEntered) == c.on_cursor_entered@,
        c.list(CallbackKind::CursorLeft) == c.on_cursor_left@,
        c.list(CallbackKind::Touch) == c.on_touch@,
        c.list(CallbackKind::FocusGained) == c.on_focus_gained@,
        c.list(CallbackKind::FocusLost) == c.on_focus_lost@,
        c.list(CallbackKind::ModifiersChanged) == c.on_modifiers_changed@,
        c.list(CallbackKind::Ime) == c.on_ime@,
        c.list(CallbackKind::FileDropped) == c.on_file_dropped@,
        c.list(CallbackKind::FileHovered) == c.on_file_hovered@,
        c.list(CallbackKind::FileHoverCancelled) == c.on_file_hover_cancelled@,
        c.list(CallbackKind::Moved) == c.on_moved@,
        c.list(CallbackKind::ThemeChanged) == c.on_theme_changed@,
        c.list(CallbackKind::Resized) == c.on_resized@,
{
}

/// Law: callbacks that are taken out are all of their kind, in order; those of
/// other kinds stay.
pub proof fn lemma_callbacks_are_taken_out<C>(
    all: &mut InputCallbacks<C>,
    kind: CallbackKind,
    other: CallbackKind,
    r: Vec<C>,
)
    requires
        call_ensures(InputCallbacks::<C>::take, (all, kind), r),
        other != kind,
    ensures
        r@ == old(all).list(kind),
        final(all).list(kind).len() == 0,
        final(all).list(other) == old(all).list(other),
{
}

/// Law: callbacks that were called and are to be called again come before those
/// that were registered meanwhile; those that are called once are gone.
pub proof fn lemma_called_callbacks_come_first<C>(
    all: &mut InputCallbacks<C>,
    kind: CallbackKind,
    called: Vec<C>,
    other: CallbackKind,
    once: bool,
)
    requires
        call_ensures(InputCallbacks::<C>::settle, (all, kind, called), ()),
        call_ensures(CallbackKind::once, (kind,), once),
        other != kind,
    ensures
        once ==> final(all).list(kind) == old(all).list(kind),
        !once ==> called@.is_prefix_of(final(all).list(kind)) && old(all).list(kind).is_suffix_of(
            final(all).list(kind),
        ) && final(all).list(kind).len() == called@.len() + old(all).list(kind).len(),
        final(all).list(other) == old(all).list(other),
{
}

} // verus!
