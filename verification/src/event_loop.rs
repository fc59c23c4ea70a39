//! What the window's event loop does with each event it is handed. The loop
//! itself, the window, the renderer and the file watcher run outside; they
//! hand over the event and perform the action that comes back.
use vstd::prelude::*;

verus! {

/// The keys that the loop and the shapes react to.
#[derive(Clone, Copy, Debug, PartialEq, Eq, Structural)]
pub enum Key {
    Escape,
    N,
    P,
    Other,
}

/// Whether a key went down or came up.
#[derive(Clone, Copy, Debug, PartialEq, Eq, Structural)]
pub enum KeyState {
    Pressed,
    Released,
}

/// An event of a window, as far as the loop reads it.
#[derive(Clone, Copy, Debug, PartialEq, Eq, Structural)]
pub enum WindowInput {
    CloseRequested,
    /// A key, with its virtual key code where the platform gives one.
    Keyboard { key: Option<Key>, state: KeyState },
    Resized { width: u32, height: u32 },
    /// The scale factor changed and the window now has this inner size.
    ScaleFactorChanged { width: u32, height: u32 },
    Other,
}

/// An event of the event loop.
#[derive(Clone, Copy, Debug, PartialEq, Eq, Structural)]
pub enum LoopEvent {
    /// Every pending event has been handled.
    MainEventsCleared,
    /// Raw input from a device, such as mouse motion.
    Device,
    /// An event of a window; `from_main_window` tells whether it is the window
    /// that the loop draws in.
    Window { from_main_window: bool, input: WindowInput },
    RedrawRequested,
    Other,
}

/// How the event loop goes on.
#[derive(Clone, Copy, Debug, PartialEq, Eq, Structural)]
pub enum Flow {
    Poll,
    Exit,
}

/// What the loop does for one event.
#[derive(Clone, Copy, Debug, PartialEq, Eq, Structural)]
pub enum LoopAction {
    RequestRedraw,
    /// Hand the device input to the state.
    DeviceInput,
    /// Hand the key to the state, which passes it to the camera and the shapes.
    KeyboardInput,
    Resize { width: u32, height: u32 },
    Render,
    Nothing,
}

/// The action for one event, and the flow the loop is set to (`None`: left
/// as it was).
#[derive(Clone, Copy, Debug, PartialEq, Eq, Structural)]
pub struct LoopStep {
    pub action: LoopAction,
    pub flow: Option<Flow>,
}

/// How a frame's rendering ended.
#[derive(Clone, Copy, Debug, PartialEq, Eq, Structural)]
pub enum RenderOutcome {
    Rendered,
    SurfaceLost,
    OutOfMemory,
    /// Any other surface error (outdated, timeout); the next frame mends it.
    OtherError,
}

/// What follows a rendered frame.
#[derive(Clone, Copy, Debug, PartialEq, Eq, Structural)]
pub enum RenderFollowUp {
    Nothing,
    /// Configure the surface again at this size.
    ResizeTo { width: u32, height: u32 },
    /// Print the error and go on.
    Report,
}

/// A change that the file watcher saw on a watched file.
#[derive(Clone, Copy, Debug, PartialEq, Eq, Structural)]
pub enum FileChange {
    /// The file was closed after being opened for writing.
    ClosedAfterWrite,
    /// The data of the file changed.
    DataModified,
    Other,
}

/// What a shape does with a key.
#[derive(Clone, Copy, Debug, PartialEq, Eq, Structural)]
pub enum ShapeKeyAction {
    /// Draw this many new random vertices.
    NewVertices { count: usize },
    /// Say that a frame is being printed.
    PrintNotice,
    Nothing,
}

/// The step for an event of the window the loop draws in.
pub open spec fn window_step(input: WindowInput) -> LoopStep {
    match input {
        WindowInput::CloseRequested => LoopStep { action: LoopAction::Nothing, flow: Some(Flow::Exit) },
        WindowInput::Keyboard { key, state } => if key == Some(Key::Escape) && state == KeyState::Pressed {
            LoopStep { action: LoopAction::Nothing, flow: Some(Flow::Exit) }
        } else {
            LoopStep { action: LoopAction::KeyboardInput, flow: None }
        },
        WindowInput::Resized { width, height } => LoopStep {
            action: LoopAction::Resize { width, height },
            flow: None,
        },
        WindowInput::ScaleFactorChanged { width, height } => LoopStep {
            action: LoopAction::Resize { width, height },
            flow: None,
        },
        WindowInput::Other => LoopStep { action: LoopAction::Nothing, flow: None },
    }
}

/// The step for any event of the loop.
pub open spec fn loop_step(event: LoopEvent) -> LoopStep {
    match event {
        LoopEvent::MainEventsCleared => LoopStep { action: LoopAction::RequestRedraw, flow: None },
        LoopEvent::Device => LoopStep { action: LoopAction::DeviceInput, flow: None },
        LoopEvent::Window { from_main_window, input } => if from_main_window {
            window_step(input)
        } else {
            LoopStep { action: LoopAction::Nothing, flow: None }
        },
        LoopEvent::RedrawRequested => LoopStep { action: LoopAction::Render, flow: None },
        LoopEvent::Other => LoopStep { action: LoopAction::Nothing, flow: None },
    }
}

/// Every key of the main window but a pressed Escape reaches the state, and
/// through it the camera and the shapes; the loop goes on as it was.
pub proof fn lemma_keys_reach_the_state(key: Option<Key>, state: KeyState)
    requires
        !(key == Some(Key::Escape) && state == KeyState::Pressed),
    ensures
        loop_step(LoopEvent::Window { from_main_window: true, input: WindowInput::Keyboard { key, state } })
            == (LoopStep { action: LoopAction::KeyboardInput, flow: None }),
{
}

/// Pressing Escape or closing the main window ends the loop, and nothing
/// else is done for it.
pub proof fn lemma_escape_and_close_end_the_loop()
    ensures
        loop_step(
            LoopEvent::Window {
                from_main_window: true,
                input: WindowInput::Keyboard { key: Some(Key::Escape), state: KeyState::Pressed },
            },
        ) == (LoopStep { action: LoopAction::Nothing, flow: Some(Flow::Exit) }),
        loop_step(LoopEvent::Window { from_main_window: true, input: WindowInput::CloseRequested })
            == (LoopStep { action: LoopAction::Nothing, flow: Some(Flow::Exit) }),
{
}

/// Only Escape pressed or a close request ends the loop: no other event sets
/// the flow.
pub proof fn lemma_only_escape_and_close_set_the_flow(event: LoopEvent)
    ensures
        loop_step(event).flow is Some ==> (event == (LoopEvent::Window {
            from_main_window: true,
            input: WindowInput::CloseRequested,
        }) || event == (LoopEvent::Window {
            from_main_window: true,
            input: WindowInput::Keyboard { key: Some(Key::Escape), state: KeyState::Pressed },
        })),
        loop_step(event).flow is Some ==> loop_step(event).flow == Some(Flow::Exit),
{
}

/// A resize of the main window, or a change of its scale, resizes the
/// surface to exactly the new size.
pub proof fn lemma_resizes_follow_the_window(width: u32, height: u32)
    ensures
        loop_step(LoopEvent::Window { from_main_window: true, input: WindowInput::Resized { width, height } })
            == (LoopStep { action: LoopAction::Resize { width, height }, flow: None }),
        loop_step(LoopEvent::Window { from_main_window: true, input: WindowInput::ScaleFactorChanged { width, height } })
            == (LoopStep { action: LoopAction::Resize { width, height }, flow: None }),
{
}

/// Events of other windows are left alone, whatever they are.
pub proof fn lemma_other_windows_are_left_alone(input: WindowInput)
    ensures
        loop_step(LoopEvent::Window { from_main_window: false, input })
            == (LoopStep { action: LoopAction::Nothing, flow: None }),
{
}

/// Decides what the loop does with an event: once every event is handled
/// it asks for a redraw, device input and keys go to the state, a resize or
/// a change of scale resizes the surface, a redraw renders, and closing the
/// window or pressing Escape in it ends the loop. Events of other windows
/// are left alone.
pub fn on_event(event: LoopEvent) -> (step: LoopStep)
    ensures
        step == loop_step(event),
        event == LoopEvent::MainEventsCleared ==> step == (LoopStep { action: LoopAction::RequestRedraw, flow: None }),
        event == LoopEvent::Device ==> step == (LoopStep { action: LoopAction::DeviceInput, flow: None }),
        event == LoopEvent::RedrawRequested ==> step == (LoopStep { action: LoopAction::Render, flow: None }),
        event == LoopEvent::Other ==> step == (LoopStep { action: LoopAction::Nothing, flow: None }),
        event matches LoopEvent::Window { from_main_window: false, .. } ==> step == (LoopStep {
            action: LoopAction::Nothing,
            flow: None,
        }),
        event == (LoopEvent::Window { from_main_window: true, input: WindowInput::CloseRequested }) ==> step == (LoopStep {
            action: LoopAction::Nothing,
            flow: Some(Flow::Exit),
        }),
        event matches LoopEvent::Window { from_main_window: true, input: WindowInput::Keyboard { key, state } }
            ==> step == (if key == Some(Key::Escape) && state == KeyState::Pressed {
            LoopStep { action: LoopAction::Nothing, flow: Some(Flow::Exit) }
        } else {
            LoopStep { action: LoopAction::KeyboardInput, flow: None }
        }),
        event matches LoopEvent::Window { from_main_window: true, input: WindowInput::Resized { width, height } }
            ==> step == (LoopStep { action: LoopAction::Resize { width, height }, flow: None }),
        event matches LoopEvent::Window { from_main_window: true, input: WindowInput::ScaleFactorChanged { width, height } }
            ==> step == (LoopStep { action: LoopAction::Resize { width, height }, flow: None }),
        event == (LoopEvent::Window { from_main_window: true, input: WindowInput::Other }) ==> step == (LoopStep {
            action: LoopAction::Nothing,
            flow: None,
        }),
{
    match event {
        LoopEvent::MainEventsCleared => LoopStep { action: LoopAction::RequestRedraw, flow: None },
        LoopEvent::Device => LoopStep { action: LoopAction::DeviceInput, flow: None },
        LoopEvent::Window { from_main_window, input } => {
            if !from_main_window {
                return LoopStep { action: LoopAction::Nothing, flow: None };
            }
            match input {
                WindowInput::CloseRequested => LoopStep { action: LoopAction::Nothing, flow: Some(Flow::Exit) },
                WindowInput::Keyboard { key, state } => {
                    let escape = match key {
                        Some(Key::Escape) => true,
                        _ => false,
                    };
                    let pressed = match state {
                        KeyState::Pressed => true,
                        KeyState::Released => false,
                    };
                    if escape && pressed {
                        LoopStep { action: LoopAction::Nothing, flow: Some(Flow::Exit) }
                    } else {
                        LoopStep { action: LoopAction::KeyboardInput, flow: None }
                    }
                },
                WindowInput::Resized { width, height } => LoopStep {
                    action: LoopAction::Resize { width, height },
                    flow: None,
                },
                WindowInput::ScaleFactorChanged { width, height } => LoopStep {
                    action: LoopAction::Resize { width, height },
                    flow: None,
                },
                WindowInput::Other => LoopStep { action: LoopAction::Nothing, flow: None },
            }
        },
        LoopEvent::RedrawRequested => LoopStep { action: LoopAction::Render, flow: None },
        LoopEvent::Other => LoopStep { action: LoopAction::Nothing, flow: None },
    }
}

/// What follows a rendered frame, for a surface of the given size. A lost
/// surface is configured again at its size, and any other error is reported.
/// Running out of memory ends the loop; after anything else the loop goes on
/// polling.
pub fn after_render(outcome: RenderOutcome, width: u32, height: u32) -> (next: (RenderFollowUp, Flow))
    ensures
        next.1 == (if outcome == RenderOutcome::OutOfMemory { Flow::Exit } else { Flow::Poll }),
        next.0 == (match outcome {
            RenderOutcome::Rendered => RenderFollowUp::Nothing,
            RenderOutcome::SurfaceLost => RenderFollowUp::ResizeTo { width, height },
            RenderOutcome::OutOfMemory => RenderFollowUp::Nothing,
            RenderOutcome::OtherError => RenderFollowUp::Report,
        }),
{
    match outcome {
        RenderOutcome::Rendered => (RenderFollowUp::Nothing, Flow::Poll),
        RenderOutcome::SurfaceLost => (RenderFollowUp::ResizeTo { width, height }, Flow::Poll),
        RenderOutcome::OutOfMemory => (RenderFollowUp::Nothing, Flow::Exit),
        RenderOutcome::OtherError => (RenderFollowUp::Report, Flow::Poll),
    }
}

/// Whether a change of a watched file reloads the composition: a file
/// closed after writing, or whose data changed, does; nothing else does.
pub fn reloads_composition(change: FileChange) -> (reload: bool)
    ensures
        reload <==> (change == FileChange::ClosedAfterWrite || change == FileChange::DataModified),
{
    match change {
        FileChange::ClosedAfterWrite => true,
        FileChange::DataModified => true,
        FileChange::Other => false,
    }
}

/// What a folded shape does with a key: pressing N draws twenty new
/// vertices, releasing P says a frame is printed; other keys do nothing.
pub fn shape_key_action(key: Key, state: KeyState) -> (action: ShapeKeyAction)
    ensures
        action == (if key == Key::N && state == KeyState::Pressed {
            ShapeKeyAction::NewVertices { count: 20 }
        } else if key == Key::P && state == KeyState::Released {
            ShapeKeyAction::PrintNotice
        } else {
            ShapeKeyAction::Nothing
        }),
{
    match (key, state) {
        (Key::N, KeyState::Pressed) => ShapeKeyAction::NewVertices { count: 20 },
        (Key::P, KeyState::Released) => ShapeKeyAction::PrintNotice,
        _ => ShapeKeyAction::Nothing,
    }
}

} // verus!
