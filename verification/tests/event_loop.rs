use kintaro::event_loop::{
    after_render, on_event, reloads_composition, shape_key_action, FileChange, Flow, Key, KeyState,
    LoopAction, LoopEvent, LoopStep, RenderFollowUp, RenderOutcome, ShapeKeyAction, WindowInput,
};

fn main_window(input: WindowInput) -> LoopEvent {
    LoopEvent::Window { from_main_window: true, input }
}

#[test]
fn escape_or_close_ends_the_loop() {
    let exit = LoopStep { action: LoopAction::Nothing, flow: Some(Flow::Exit) };
    assert_eq!(on_event(main_window(WindowInput::CloseRequested)), exit);
    assert_eq!(
        on_event(main_window(WindowInput::Keyboard { key: Some(Key::Escape), state: KeyState::Pressed })),
        exit
    );
}

#[test]
fn other_keys_go_to_the_state() {
    let keyboard = LoopStep { action: LoopAction::KeyboardInput, flow: None };
    assert_eq!(
        on_event(main_window(WindowInput::Keyboard { key: Some(Key::Escape), state: KeyState::Released })),
        keyboard
    );
    assert_eq!(
        on_event(main_window(WindowInput::Keyboard { key: Some(Key::N), state: KeyState::Pressed })),
        keyboard
    );
    assert_eq!(on_event(main_window(WindowInput::Keyboard { key: None, state: KeyState::Pressed })), keyboard);
}

#[test]
fn resizes_and_redraws() {
    assert_eq!(
        on_event(main_window(WindowInput::Resized { width: 800, height: 600 })),
        LoopStep { action: LoopAction::Resize { width: 800, height: 600 }, flow: None }
    );
    assert_eq!(
        on_event(main_window(WindowInput::ScaleFactorChanged { width: 1600, height: 1200 })),
        LoopStep { action: LoopAction::Resize { width: 1600, height: 1200 }, flow: None }
    );
    assert_eq!(on_event(LoopEvent::MainEventsCleared), LoopStep { action: LoopAction::RequestRedraw, flow: None });
    assert_eq!(on_event(LoopEvent::RedrawRequested), LoopStep { action: LoopAction::Render, flow: None });
    assert_eq!(on_event(LoopEvent::Device), LoopStep { action: LoopAction::DeviceInput, flow: None });
    assert_eq!(on_event(LoopEvent::Other), LoopStep { action: LoopAction::Nothing, flow: None });
}

#[test]
fn events_of_other_windows_are_left_alone() {
    let event = LoopEvent::Window { from_main_window: false, input: WindowInput::CloseRequested };
    assert_eq!(on_event(event), LoopStep { action: LoopAction::Nothing, flow: None });
}

#[test]
fn after_render_polls_unless_out_of_memory() {
    assert_eq!(after_render(RenderOutcome::Rendered, 10, 20), (RenderFollowUp::Nothing, Flow::Poll));
    assert_eq!(
        after_render(RenderOutcome::SurfaceLost, 10, 20),
        (RenderFollowUp::ResizeTo { width: 10, height: 20 }, Flow::Poll)
    );
    assert_eq!(after_render(RenderOutcome::OutOfMemory, 10, 20), (RenderFollowUp::Nothing, Flow::Exit));
    assert_eq!(after_render(RenderOutcome::OtherError, 10, 20), (RenderFollowUp::Report, Flow::Poll));
}

#[test]
fn written_files_reload_the_composition() {
    assert!(reloads_composition(FileChange::ClosedAfterWrite));
    assert!(reloads_composition(FileChange::DataModified));
    assert!(!reloads_composition(FileChange::Other));
}

#[test]
fn shape_keys() {
    assert_eq!(shape_key_action(Key::N, KeyState::Pressed), ShapeKeyAction::NewVertices { count: 20 });
    assert_eq!(shape_key_action(Key::N, KeyState::Released), ShapeKeyAction::Nothing);
    assert_eq!(shape_key_action(Key::P, KeyState::Released), ShapeKeyAction::PrintNotice);
    assert_eq!(shape_key_action(Key::P, KeyState::Pressed), ShapeKeyAction::Nothing);
    assert_eq!(shape_key_action(Key::Other, KeyState::Pressed), ShapeKeyAction::Nothing);
}
