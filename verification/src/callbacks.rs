//! The callbacks of a window.

use crate::host::CallbackKind;
use vstd::prelude::*;

verus! {

/// The callbacks of a window, in the order in which they were registered.
pub struct InputCallbacks<C> {
    pub on_key_down: Vec<C>,
    pub on_key_up: Vec<C>,
    pub on_mouse_down: Vec<C>,
    pub on_mouse_up: Vec<C>,
    pub on_scroll: Vec<C>,
    pub on_cursor_entered: Vec<C>,
    pub on_cursor_left: Vec<C>,
    pub on_touch: Vec<C>,
    pub on_focus_gained: Vec<C>,
    pub on_focus_lost: Vec<C>,
    pub on_modifiers_changed: Vec<C>,
    pub on_ime: Vec<C>,
    pub on_file_dropped: Vec<C>,
    pub on_file_hovered: Vec<C>,
    pub on_file_hover_cancelled: Vec<C>,
    pub on_moved: Vec<C>,
    pub on_theme_changed: Vec<C>,
    pub on_resized: Vec<C>,
}

/// Callbacks that were registered later, behind others.
pub open spec fn behind<C>(others: Seq<C>, later: Seq<C>) -> Seq<C> {
    others + later
}

/// Law: callbacks that are added come behind those there were, and none is lost.
pub proof fn lemma_later_come_behind<C>(others: Seq<C>, later: Seq<C>)
    ensures
        behind(others, later).len() == others.len() + later.len(),
        others.is_prefix_of(behind(others, later)),
        later.is_suffix_of(behind(others, later)),
{
}

impl<C> InputCallbacks<C> {
    /// The callbacks of a kind.
    pub open spec fn list(self, kind: CallbackKind) -> Seq<C> {
        match kind {
            CallbackKind::KeyDown => self.on_key_down@,
            CallbackKind::KeyUp => self.on_key_up@,
            CallbackKind::MouseDown => self.on_mouse_down@,
            CallbackKind::MouseUp => self.on_mouse_up@,
            CallbackKind::Scroll => self.on_scroll@,
            CallbackKind::CursorEntered => self.on_cursor_entered@,
            CallbackKind::CursorLeft => self.on_cursor_left@,
            CallbackKind::Touch => self.on_touch@,
            CallbackKind::FocusGained => self.on_focus_gained@,
            CallbackKind::FocusLost => self.on_focus_lost@,
            CallbackKind::ModifiersChanged => self.on_modifiers_changed@,
            CallbackKind::Ime => self.on_ime@,
            CallbackKind::FileDropped => self.on_file_dropped@,
            CallbackKind::FileHovered => self.on_file_hovered@,
            CallbackKind::FileHoverCancelled => self.on_file_hover_cancelled@,
            CallbackKind::Moved => self.on_moved@,
            CallbackKind::ThemeChanged => self.on_theme_changed@,
            CallbackKind::Resized => self.on_resized@,
        }
    }

    /// Adds all callbacks of `other`, behind those there are, and leaves `other`
    /// without any.
    pub fn append(&mut self, other: &mut InputCallbacks<C>)
        ensures
            forall|k: CallbackKind| #[trigger]
                final(self).list(k) == behind(old(self).list(k), old(other).list(k)),
            forall|k: CallbackKind| #[trigger]
                final(self).list(k) == old(self).list(k) + old(other).list(k),
            forall|k: CallbackKind| (#[trigger] final(other).list(k)).len() == 0,
    {
        self.on_key_down.append(&mut other.on_key_down);
        self.on_key_up.append(&mut other.on_key_up);
        self.on_mouse_down.append(&mut other.on_mouse_down);
        self.on_mouse_up.append(&mut other.on_mouse_up);
        self.on_scroll.append(&mut other.on_scroll);
        self.on_cursor_entered.append(&mut other.on_cursor_entered);
        self.on_cursor_left.append(&mut other.on_cursor_left);
        self.on_touch.append(&mut other.on_touch);
        self.on_focus_gained.append(&mut other.on_focus_gained);
        self.on_focus_lost.append(&mut other.on_focus_lost);
        self.on_modifiers_changed.append(&mut other.on_modifiers_changed);
        self.on_ime.append(&mut other.on_ime);
        self.on_file_dropped.append(&mut other.on_file_dropped);
        self.on_file_hovered.append(&mut other.on_file_hovered);
        self.on_file_hover_cancelled.append(&mut other.on_file_hover_cancelled);
        self.on_moved.append(&mut other.on_moved);
        self.on_theme_changed.append(&mut other.on_theme_changed);
        self.on_resized.append(&mut other.on_resized);
    }

    /// Takes the callbacks of a kind out.
    pub fn take(&mut self, kind: CallbackKind) -> (r: Vec<C>)
        ensures
            r@ == old(self).list(kind),
            final(self).list(kind).len() == 0,
            forall|k: CallbackKind|
                k != kind ==> #[trigger] final(self).list(k) == old(self).list(k),
    {
        let mut r: Vec<C> = Vec::new();
        match kind {
            CallbackKind::KeyDown => r.append(&mut self.on_key_down),
            CallbackKind::KeyUp => r.append(&mut self.on_key_up),
            CallbackKind::MouseDown => r.append(&mut self.on_mouse_down),
            CallbackKind::MouseUp => r.append(&mut self.on_mouse_up),
            CallbackKind::Scroll => r.append(&mut self.on_scroll),
            CallbackKind::CursorEntered => r.append(&mut self.on_cursor_entered),
            CallbackKind::CursorLeft => r.append(&mut self.on_cursor_left),
            CallbackKind::Touch => r.append(&mut self.on_touch),
            CallbackKind::FocusGained => r.append(&mut self.on_focus_gained),
            CallbackKind::FocusLost => r.append(&mut self.on_focus_lost),
            CallbackKind::ModifiersChanged => r.append(&mut self.on_modifiers_changed),
            CallbackKind::Ime => r.append(&mut self.on_ime),
            CallbackKind::FileDropped => r.append(&mut self.on_file_dropped),
            CallbackKind::FileHovered => r.append(&mut self.on_file_hovered),
            CallbackKind::FileHoverCancelled => r.append(&mut self.on_file_hover_cancelled),
            CallbackKind::Moved => r.append(&mut self.on_moved),
            CallbackKind::ThemeChanged => r.append(&mut self.on_theme_changed),
            CallbackKind::Resized => r.append(&mut self.on_resized),
        }
        r
    }

    /// Takes back callbacks that were called: those that are called once are
    /// forgotten, others are kept before those that came meanwhile.
    pub fn settle(&mut self, kind: CallbackKind, called: Vec<C>)
        ensures
            final(self).list(kind) == (if kind.spec_once() {
                old(self).list(kind)
            } else {
                called@ + old(self).list(kind)
            }),
            forall|k: CallbackKind|
                k != kind ==> #[trigger] final(self).list(k) == old(self).list(k),
    {
        if kind.once() {
            return;
        }
        let mut later = self.take(kind);
        let ghost taken = *self;
        let mut all = called;
        all.append(&mut later);
        match kind {
            CallbackKind::KeyDown => self.on_key_down = all,
            CallbackKind::KeyUp => self.on_key_up = all,
            CallbackKind::MouseDown => self.on_mouse_down = all,
            CallbackKind::MouseUp => self.on_mouse_up = all,
            CallbackKind::Scroll => self.on_scroll = all,
            CallbackKind::CursorEntered => self.on_cursor_entered = all,
            CallbackKind::CursorLeft => self.on_cursor_left = all,
            CallbackKind::Touch => self.on_touch = all,
            CallbackKind::FocusGained => self.on_focus_gained = all,
            CallbackKind::FocusLost => self.on_focus_lost = all,
            CallbackKind::ModifiersChanged => self.on_modifiers_changed = all,
            CallbackKind::Ime => self.on_ime = all,
            CallbackKind::FileDropped => self.on_file_dropped = all,
            CallbackKind::FileHovered => self.on_file_hovered = all,
            CallbackKind::FileHoverCancelled => self.on_file_hover_cancelled = all,
            CallbackKind::Moved => self.on_moved = all,
            CallbackKind::ThemeChanged => self.on_theme_changed = all,
            CallbackKind::Resized => self.on_resized = all,
        }
        assert forall|k: CallbackKind| k != kind implies #[trigger] self.list(k) == old(self).list(
            k,
        ) by {
            assert(taken.list(k) == old(self).list(k));
        }
    }
}

impl<C> Default for InputCallbacks<C> {
    fn default() -> (r: InputCallbacks<C>)
        ensures
            forall|k: CallbackKind| (#[trigger] r.list(k)).len() == 0,
    {
        InputCallbacks {
            on_key_down: Vec::new(),
            on_key_up: Vec::new(),
            on_mouse_down: Vec::new(),
            on_mouse_up: Vec::new(),
            on_scroll: Vec::new(),
            on_cursor_entered: Vec::new(),
            on_cursor_left: Vec::new(),
            on_touch: Vec::new(),
            on_focus_gained: Vec::new(),
            on_focus_lost: Vec::new(),
            on_modifiers_changed: Vec::new(),
            on_ime: Vec::new(),
            on_file_dropped: Vec::new(),
            on_file_hovered: Vec::new(),
            on_file_hover_cancelled: Vec::new(),
            on_moved: Vec::new(),
            on_theme_changed: Vec::new(),
            on_resized: Vec::new(),
        }
    }
}

/// Law: callbacks that were called and settled are there again, unless they
/// are called once.
pub proof fn lemma_called_callbacks<C>(
    before: InputCallbacks<C>,
    taken: InputCallbacks<C>,
    settled: InputCallbacks<C>,
    kind: CallbackKind,
)
    requires
        taken.list(kind).len() == 0,
        settled.list(kind) == (if kind.spec_once() {
            taken.list(kind)
        } else {
            before.list(kind) + taken.list(kind)
        }),
    ensures
        kind.spec_once() ==> settled.list(kind).len() == 0,
        !kind.spec_once() ==> settled.list(kind) == before.list(kind),
{
    assert(before.list(kind) + taken.list(kind) =~= before.list(kind));
}

} // verus!
