//! Windows, events, resources, deferred tasks and errors.

use vireo::deferred::{DeferredTask, DeferredTaskKind};
use vireo::error::VireoError;
use vireo::host::{
    choose_alpha_mode, choose_format, custom_frame, surface_size, visibility, AlphaMode,
    CallbackKind, Runner, WindowEvent,
};
use vireo::input::{map_key_event, LogicalKey, Modifiers, ScrollDelta, TouchEvent, TouchPhase};
use vireo::resources::Registry;
use vireo::windows::{WindowAction, WindowTable, WinitEvent};

#[test]
fn windows_come_and_go() {
    let mut table: WindowTable<&str> = WindowTable::new();
    assert_eq!(table.request_window(), 0);
    assert_eq!(table.request_window(), 1);
    assert_eq!(table.pending_window_creates(), 2);
    table.window_created(1, "second");
    table.request_served();
    assert_eq!(table.pending_window_creates(), 1);
    assert_eq!(table.window_count(), 1);
    assert_eq!(table.window_indices(), vec![1]);
    assert_eq!(table.window_ref(1).ok(), Some(&"second"));
    assert!(matches!(table.window_ref(0), Err(VireoError::WindowNotFound(0))));
    assert_eq!(table.window_closed(1), Some("second"));
    assert_eq!(table.window_closed(1), None);
    assert_eq!(table.window_count(), 0);
    assert_eq!(table.created_window_count(), 1);
    assert!(!table.is_open(1));
}

#[test]
fn messages_for_closed_windows_do_nothing() {
    let mut table: WindowTable<u8> = WindowTable::new();
    let message = WinitEvent::Resized { handle: 0, width: 3, height: 4 };
    assert_eq!(table.apply_winit_event_one(&message), WindowAction::Nothing);
    table.window_created(0, 9);
    assert_eq!(
        table.apply_winit_event_one(&message),
        WindowAction::Resize { handle: 0, width: 3, height: 4 }
    );
    assert_eq!(
        table.apply_winit_event_one(&WinitEvent::CloseRequested { handle: 0 }),
        WindowAction::WaitThenClose { handle: 0 }
    );
    assert_eq!(table.apply_winit_event_one(&WinitEvent::Wake), WindowAction::Nothing);
}

#[test]
fn limits_of_new_windows() {
    let mut table: WindowTable<u8> = WindowTable::new();
    assert_eq!(table.max_fps(), Some(240));
    assert!(table.drag_cap());
    table.set_max_fps(None);
    table.set_drag_cap(false);
    assert_eq!(table.max_fps(), None);
    assert!(!table.drag_cap());
}

#[test]
fn runner_creates_windows_once_resumed() {
    let mut runner = Runner::new();
    assert!(!runner.about_to_wait(0).create);
    assert!(runner.resumed());
    assert!(!runner.resumed());
    let plan = runner.about_to_wait(2);
    assert!(plan.create);
    assert!(plan.exit);
    assert!(!runner.about_to_wait(0).exit);
}

#[test]
fn runner_knows_its_windows() {
    let mut runner = Runner::new();
    runner.window_created(2, 77, Some(1234), true);
    assert_eq!(runner.handle_for(77), Some(2));
    assert_eq!(runner.handle_for(78), None);
    assert_eq!(runner.hwnd(2), Some(1234));
    assert_eq!(runner.hwnd(0), None);
    assert_eq!(runner.hwnd(9), None);
    assert!(runner.has_callbacks(0));
    assert!(!runner.has_callbacks(3));
}

#[test]
fn close_hook_runs_once() {
    let mut runner = Runner::new();
    runner.window_created(0, 5, Some(11), true);
    let first = runner.request_close(0);
    assert!(first.hook);
    assert_eq!(first.hwnd, Some(11));
    let second = runner.request_close(0);
    assert!(!second.hook);
    assert_eq!(second.hwnd, Some(11));
    assert!(!runner.request_close(4).hook);
}

#[test]
fn events_are_heard_and_told() {
    let mut runner = Runner::new();
    runner.window_created(0, 5, None, false);
    assert!(runner.window_event(6, WindowEvent::CursorLeft).is_none());

    let key = map_key_event(Some(3), LogicalKey::Dead(Some('^')), false, None, false);
    let plan = runner.window_event(5, WindowEvent::KeyboardInput { event: key }).unwrap();
    assert_eq!(plan.callbacks, Some(CallbackKind::KeyUp));
    match plan.message {
        Some(WinitEvent::KeyboardInput { handle: 0, event }) => {
            assert_eq!(event.key, 3);
            assert_eq!(event.logical_key, LogicalKey::Dead(Some('^')));
        }
        other => panic!("{other:?}"),
    }

    let plan = runner.window_event(5, WindowEvent::KeyboardInput { event: None }).unwrap();
    assert_eq!(plan.callbacks, None);
    assert!(plan.message.is_none());

    let plan = runner.window_event(5, WindowEvent::Focused { focused: true }).unwrap();
    assert_eq!(plan.callbacks, Some(CallbackKind::FocusGained));
    assert!(matches!(plan.message, Some(WinitEvent::Focused { handle: 0, focused: true })));

    let plan = runner.window_event(5, WindowEvent::Moved).unwrap();
    assert_eq!(plan.callbacks, Some(CallbackKind::Moved));
    assert!(plan.message.is_none());

    let delta = ScrollDelta::Line { x: 0, y: 1 };
    let plan = runner.window_event(5, WindowEvent::MouseWheel { delta }).unwrap();
    assert_eq!(plan.callbacks, Some(CallbackKind::Scroll));

    let modifiers = Modifiers::ctrl_only();
    let plan = runner.window_event(5, WindowEvent::ModifiersChanged { modifiers }).unwrap();
    assert!(matches!(plan.message, Some(WinitEvent::ModifiersChanged { modifiers: m, .. }) if m == modifiers));

    let touch = TouchEvent { id: 4, phase: TouchPhase::Moved, x: 0, y: 0, force: None };
    let plan = runner.window_event(5, WindowEvent::Touch { event: touch }).unwrap();
    assert_eq!(plan.callbacks, Some(CallbackKind::Touch));

    let plan = runner.window_event(5, WindowEvent::CloseRequested).unwrap();
    assert!(plan.close.is_some());
    assert!(matches!(plan.message, Some(WinitEvent::CloseRequested { handle: 0 })));
    assert!(runner.window_event(5, WindowEvent::RedrawRequested).unwrap().message.is_none());
}

#[test]
fn callbacks_that_are_called_once() {
    assert!(CallbackKind::CursorEntered.once());
    assert!(CallbackKind::FileHoverCancelled.once());
    assert!(!CallbackKind::KeyDown.once());
    assert!(!CallbackKind::Resized.once());
}

#[test]
fn choices_for_a_new_window() {
    assert!(custom_frame(false, true));
    assert!(!custom_frame(true, true));
    assert!(!custom_frame(false, false));
    assert_eq!(visibility(true, false), (true, false));
    assert_eq!(visibility(true, true), (false, true));
    assert_eq!(visibility(false, true), (false, false));
    assert_eq!(choose_alpha_mode(true, true, true), AlphaMode::PostMultiplied);
    assert_eq!(choose_alpha_mode(true, false, true), AlphaMode::PreMultiplied);
    assert_eq!(choose_alpha_mode(true, false, false), AlphaMode::Auto);
    assert_eq!(choose_alpha_mode(false, true, true), AlphaMode::Auto);
    assert_eq!(choose_format(3, &vec![1, 3]), (3, false));
    assert_eq!(choose_format(3, &vec![1, 2]), (1, true));
    assert_eq!(surface_size(0, 7), (1, 7));
}

#[test]
fn resources_keep_their_numbers() {
    let mut textures: Registry<&str> = Registry::new();
    assert_eq!(textures.add("a"), 0);
    assert_eq!(textures.add("b"), 1);
    assert_eq!(textures.texture(0).ok(), Some(&"a"));
    assert!(matches!(textures.texture(2), Err(VireoError::TextureNotFound(2))));
    assert!(matches!(textures.offscreen_ref(5), Err(VireoError::OffscreenNotFound(5))));
    assert_eq!(textures.offscreen_ref(1).ok(), Some(&"b"));
}

#[test]
fn tasks_are_due_in_time() {
    let ticks = DeferredTask::new(DeferredTaskKind::AfterTicks(3), ());
    assert!(!ticks.is_ready(2, 0));
    assert!(ticks.is_ready(3, 0));
    assert!(ticks.is_ready(9, 0));
    let moment = DeferredTask::new(DeferredTaskKind::AfterSecs(100), ());
    assert!(!moment.is_ready(0, 99));
    assert!(moment.is_ready(0, 100));
}

#[test]
fn errors_say_what_is_missing() {
    assert_eq!(
        VireoError::WindowNotFound(3).message(),
        "window not found (index 3); the window was never created or has been closed"
    );
    assert_eq!(
        VireoError::OffscreenNotFound(40).message(),
        "offscreen canvas not found (index 40); it was never created or has been released"
    );
    assert_eq!(
        VireoError::TextureNotFound(0).message(),
        "texture not found (index 0); out of bounds or not yet loaded"
    );
    assert_eq!(VireoError::Other("disk full".to_string()).message(), "disk full");
}
