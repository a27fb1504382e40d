//! Modifier keys, key events, input state and callbacks.

use vireo::callbacks::InputCallbacks;
use vireo::host::CallbackKind;
use vireo::input::{
    map_key_event, map_modifiers, InputState, LogicalKey, Modifiers, NativeKey, ScrollDeltaAccum,
};
use winit::keyboard::{KeyCode, ModifiersState};

#[test]
fn modifiers_default_is_none() {
    let m = Modifiers::default();
    assert_eq!(m, Modifiers::none());
    assert!(m.is_empty());
    assert!(!m.shift());
    assert!(!m.ctrl());
    assert!(!m.alt());
    assert!(!m.super_key());
}

#[test]
fn modifiers_single_flag() {
    let m = Modifiers::shift_only();
    assert!(m.shift());
    assert!(!m.ctrl());
    assert!(!m.alt());
}

#[test]
fn modifiers_bitor_combines() {
    let m = Modifiers::shift_only() | Modifiers::ctrl_only();
    assert!(m.shift());
    assert!(m.ctrl());
    assert!(!m.alt());
}

#[test]
fn modifiers_bitand_masks() {
    let m = (Modifiers::shift_only() | Modifiers::alt_only()) & Modifiers::shift_only();
    assert_eq!(m, Modifiers::shift_only());
}

#[test]
fn modifiers_all_flags() {
    let m = Modifiers::shift_only()
        | Modifiers::ctrl_only()
        | Modifiers::alt_only()
        | Modifiers::super_only();
    assert!(m.shift());
    assert!(m.ctrl());
    assert!(m.alt());
    assert!(m.super_key());
    assert!(!m.is_empty());
}

#[test]
fn modifiers_are_sets() {
    let keys = [
        Modifiers::none(),
        Modifiers::shift_only(),
        Modifiers::ctrl_only() | Modifiers::super_only(),
        Modifiers::alt_only() | Modifiers::shift_only(),
    ];
    for a in keys {
        assert_eq!(a | a, a);
        assert_eq!(a | Modifiers::none(), a);
        assert_eq!(a & Modifiers::none(), Modifiers::none());
        let held = a.shift() || a.ctrl() || a.alt() || a.super_key();
        assert_eq!(a.is_empty(), !held);
        assert_eq!(a.is_empty(), a == Modifiers::none());
        for b in keys {
            assert_eq!(a | b, b | a);
            assert_eq!((a | b) & a, a);
            assert_eq!((a | b).shift(), a.shift() || b.shift());
            assert_eq!((a | b).is_empty(), a.is_empty() && b.is_empty());
        }
    }
}

#[test]
fn map_modifiers_reads_each_key() {
    assert!(map_modifiers(ModifiersState::empty().bits()).is_empty());
    assert_eq!(map_modifiers(ModifiersState::SHIFT.bits()), Modifiers::shift_only());
    assert_eq!(map_modifiers(ModifiersState::CONTROL.bits()), Modifiers::ctrl_only());
    assert_eq!(map_modifiers(ModifiersState::ALT.bits()), Modifiers::alt_only());
    assert_eq!(map_modifiers(ModifiersState::SUPER.bits()), Modifiers::super_only());
    let two = ModifiersState::SHIFT | ModifiersState::SUPER;
    assert_eq!(map_modifiers(two.bits()), Modifiers::shift_only() | Modifiers::super_only());
}

#[test]
fn map_key_event_needs_a_position() {
    let means = LogicalKey::Character("x".to_string());
    let event = map_key_event(Some(42), means, true, Some("x".to_string()), false).unwrap();
    assert_eq!(event.key, 42);
    assert_eq!(event.logical_key, LogicalKey::Character("x".to_string()));
    assert!(event.pressed);
    assert_eq!(event.text.as_deref(), Some("x"));
    let named = map_key_event(Some(1), LogicalKey::Named(7), false, None, true).unwrap();
    assert_eq!(named.logical_key, LogicalKey::Named(7));
    assert!(!named.pressed && named.repeat);
    let unknown = LogicalKey::Unidentified(NativeKey::Xkb(9));
    assert!(map_key_event(None, unknown, true, None, false).is_none());
}

#[test]
fn input_state_default() {
    let state = InputState::default();
    assert!(state.keys_down.is_empty());
    assert!(state.mouse_buttons_down.is_empty());
    assert_eq!(state.modifiers, Modifiers::none());
    assert_eq!(state.scroll_delta, ScrollDeltaAccum::default());
    assert!(!state.focused);
    assert!(!state.cursor_inside);
    assert!(state.touches.is_empty());
}

#[test]
fn input_state_key_tracking() {
    let mut state = InputState::default();
    state.keys_down.insert(KeyCode::KeyW as u32);
    assert!(state.keys_down.contains(&(KeyCode::KeyW as u32)));
    assert!(!state.keys_down.contains(&(KeyCode::KeyA as u32)));
}

#[test]
fn input_state_scroll_accumulate() {
    let mut state = InputState::default();
    {
        let add = |bits: &mut u32, by: f32| *bits = (f32::from_bits(*bits) + by).to_bits();
        let d = &mut state.scroll_delta;
        add(&mut d.line.0, 1.5);
        add(&mut d.line.1, -3.0);
        add(&mut d.pixel.0, 100.0);
        add(&mut d.pixel.1, -200.0);
    }
    let d = state.scroll_delta;
    let pair = |p: (u32, u32)| (f32::from_bits(p.0), f32::from_bits(p.1));
    assert_eq!(pair(d.line), (1.5, -3.0));
    assert_eq!(pair(d.pixel), (100.0, -200.0));
}

#[test]
fn input_callbacks_empty_by_default() {
    let cb: InputCallbacks<Box<dyn FnMut()>> = InputCallbacks::default();
    assert!(cb.on_key_down.is_empty());
    assert!(cb.on_key_up.is_empty());
    assert!(cb.on_mouse_down.is_empty());
    assert!(cb.on_mouse_up.is_empty());
    assert!(cb.on_scroll.is_empty());
    assert!(cb.on_cursor_entered.is_empty());
    assert!(cb.on_cursor_left.is_empty());
    assert!(cb.on_touch.is_empty());
    assert!(cb.on_focus_gained.is_empty());
    assert!(cb.on_focus_lost.is_empty());
    assert!(cb.on_modifiers_changed.is_empty());
}

#[test]
fn input_callbacks_push() {
    let mut cb: InputCallbacks<Box<dyn FnMut(u32)>> = InputCallbacks::default();
    cb.on_key_down.push(Box::new(|_| {}));
    cb.on_mouse_down.push(Box::new(|_| {}));
    assert_eq!(cb.on_key_down.len(), 1);
    assert_eq!(cb.on_mouse_down.len(), 1);
}

#[test]
fn callbacks_are_appended_in_order() {
    let mut cb: InputCallbacks<u32> = InputCallbacks::default();
    cb.on_scroll.push(1);
    let mut more: InputCallbacks<u32> = InputCallbacks::default();
    more.on_scroll.push(2);
    more.on_resized.push(3);
    cb.append(&mut more);
    assert_eq!(cb.on_scroll, vec![1, 2]);
    assert_eq!(cb.on_resized, vec![3]);
    assert!(more.on_scroll.is_empty());
}

#[test]
fn callbacks_called_once_are_forgotten() {
    let mut cb: InputCallbacks<u32> = InputCallbacks::default();
    cb.on_touch.push(1);
    cb.on_focus_lost.push(2);
    let called = cb.take(CallbackKind::Touch);
    cb.on_touch.push(5);
    cb.settle(CallbackKind::Touch, called);
    assert_eq!(cb.on_touch, vec![1, 5]);
    let called = cb.take(CallbackKind::FocusLost);
    assert_eq!(called, vec![2]);
    cb.settle(CallbackKind::FocusLost, called);
    assert!(cb.on_focus_lost.is_empty());
}
