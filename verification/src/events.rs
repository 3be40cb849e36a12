//! What the window does about its events.

use vstd::prelude::*;

use crate::navigation::{KeyCode, KeyPress};

verus! {

/// An event of the window.
#[derive(Clone, Copy, Debug, PartialEq, Eq, Structural)]
pub enum WindowInput {
    CloseRequested,
    /// A key, and whether the layout makes it the escape key.
    Keyboard { escape: bool, key: KeyPress },
    Resized,
    ScaleFactorChanged,
    /// Whether the control key is held from now on.
    ModifiersChanged { control: bool },
    CursorMoved,
    /// A mouse button, and whether it is the left one.
    MouseInput { left: bool, pressed: bool },
    MouseWheel,
    RedrawRequested,
    Other,
}

/// What is done about an event.
#[derive(Clone, Copy, Debug, PartialEq, Eq, Structural)]
pub enum WindowAction {
    Ignore,
    Exit,
    Resize,
    SetControl { control: bool },
    /// The cursor is followed, and the brush with it if `paint` is set.
    MoveCursor { paint: bool },
    SetBrushDown { down: bool },
    Zoom,
    UndoBrush,
    Navigate { key: KeyPress },
    TickAndRender,
}

/// Whether a key, with the control key held or not, asks to take a unit back.
pub open spec fn asks_for_undo(control: bool, key: KeyPress) -> bool {
    control && key.pressed && !key.repeat && key.code == KeyCode::KeyZ
}

/// Whether a key, with the control key held or not, asks to take a unit back.
pub fn is_undo_shortcut(control: bool, key: KeyPress) -> (is: bool)
    ensures
        is == asks_for_undo(control, key),
{
    key.pressed && !key.repeat && control && key.code == KeyCode::KeyZ
}

/// What is done about an event, which the panel may have consumed, with the
/// control key held or not.
pub open spec fn action_for(input: WindowInput, consumed: bool, control: bool) -> WindowAction {
    match input {
        WindowInput::CloseRequested => WindowAction::Exit,
        WindowInput::Keyboard { escape, key } => if escape && key.pressed {
            WindowAction::Exit
        } else if asks_for_undo(control, key) {
            WindowAction::UndoBrush
        } else if consumed && key.pressed {
            WindowAction::Ignore
        } else {
            WindowAction::Navigate { key }
        },
        WindowInput::Resized => WindowAction::Resize,
        WindowInput::ScaleFactorChanged => WindowAction::Resize,
        WindowInput::ModifiersChanged { control } => WindowAction::SetControl { control },
        WindowInput::CursorMoved => WindowAction::MoveCursor { paint: !consumed },
        WindowInput::MouseInput { left, pressed } => if left && !(pressed && consumed) {
            WindowAction::SetBrushDown { down: pressed }
        } else {
            WindowAction::Ignore
        },
        WindowInput::MouseWheel => if consumed {
            WindowAction::Ignore
        } else {
            WindowAction::Zoom
        },
        WindowInput::RedrawRequested => WindowAction::TickAndRender,
        WindowInput::Other => WindowAction::Ignore,
    }
}

/// What is done about an event, which the panel may have consumed, with the
/// control key held or not.
pub fn window_action(input: WindowInput, consumed: bool, control: bool) -> (action: WindowAction)
    ensures
        action == action_for(input, consumed, control),
        action is Exit <==> input is CloseRequested || (input matches WindowInput::Keyboard {
            escape,
            key,
        } && escape && key.pressed),
        action is Resize <==> input is Resized || input is ScaleFactorChanged,
        forall|held: bool|
            action == (WindowAction::SetControl { control: held }) <==> input == (
            WindowInput::ModifiersChanged { control: held }),
        forall|paint: bool|
            action == (WindowAction::MoveCursor { paint }) <==> input is CursorMoved && paint
                == !consumed,
        forall|down: bool|
            action == (WindowAction::SetBrushDown { down }) <==> input == (
            WindowInput::MouseInput { left: true, pressed: down }) && (!down || !consumed),
        action is Zoom <==> input is MouseWheel && !consumed,
        action is UndoBrush <==> (input matches WindowInput::Keyboard { escape, key } && !(escape
            && key.pressed) && asks_for_undo(control, key)),
        forall|pressed: KeyPress|
            action == (WindowAction::Navigate { key: pressed }) <==> (
            input matches WindowInput::Keyboard { escape, key } && key == pressed && !(escape
                && key.pressed) && !asks_for_undo(control, key) && (!consumed || !key.pressed)),
        action is TickAndRender <==> input is RedrawRequested,
{
    match input {
        WindowInput::CloseRequested => WindowAction::Exit,
        WindowInput::Keyboard { escape, key } => {
            if escape && key.pressed {
                WindowAction::Exit
            } else if is_undo_shortcut(control, key) {
                WindowAction::UndoBrush
            } else if !consumed || !key.pressed {
                WindowAction::Navigate { key }
            } else {
                WindowAction::Ignore
            }
        },
        WindowInput::Resized => WindowAction::Resize,
        WindowInput::ScaleFactorChanged => WindowAction::Resize,
        WindowInput::ModifiersChanged { control } => WindowAction::SetControl { control },
        WindowInput::CursorMoved => WindowAction::MoveCursor { paint: !consumed },
        WindowInput::MouseInput { left, pressed } => {
            if left && (!pressed || !consumed) {
                WindowAction::SetBrushDown { down: pressed }
            } else {
                WindowAction::Ignore
            }
        },
        WindowInput::MouseWheel => {
            if consumed {
                WindowAction::Ignore
            } else {
                WindowAction::Zoom
            }
        },
        WindowInput::RedrawRequested => WindowAction::TickAndRender,
        WindowInput::Other => WindowAction::Ignore,
    }
}

/// Only the Z key asks to take a unit back, when it goes down with the control key
/// held, and not while it repeats.
pub proof fn undo_needs_control_and_a_fresh_press(control: bool, key: KeyPress)
    ensures
        asks_for_undo(control, key) ==> key.code is KeyZ,
        key.code is KeyZ ==> (asks_for_undo(control, key) <==> control && key.pressed
            && !key.repeat),
{
}

/// Closing the window and pressing escape end the program, whether the panel consumed
/// the event or not, and nothing else does.
pub proof fn closing_and_escape_end_the_program(
    input: WindowInput,
    consumed: bool,
    control: bool,
    key: KeyPress,
)
    ensures
        action_for(WindowInput::CloseRequested, consumed, control) is Exit,
        key.pressed ==> action_for(
            WindowInput::Keyboard { escape: true, key },
            consumed,
            control,
        ) is Exit,
        action_for(input, consumed, control) is Exit ==> input is CloseRequested
            || input is Keyboard,
        !(action_for(WindowInput::Keyboard { escape: false, key }, consumed, control) is Exit),
        !key.pressed ==> !(action_for(
            WindowInput::Keyboard { escape: true, key },
            consumed,
            control,
        ) is Exit),
{
}

/// What is let go of always reaches the game, so that nothing stays held because the
/// panel consumed the release; what is pressed reaches it unless the panel consumed it.
pub proof fn releases_always_reach_the_game(
    consumed: bool,
    control: bool,
    escape: bool,
    key: KeyPress,
)
    ensures
        !key.pressed ==> action_for(WindowInput::Keyboard { escape, key }, consumed, control) == (
        WindowAction::Navigate { key }),
        action_for(
            WindowInput::MouseInput { left: true, pressed: false },
            consumed,
            control,
        ) == (WindowAction::SetBrushDown { down: false }),
        action_for(
            WindowInput::MouseInput { left: true, pressed: true },
            false,
            control,
        ) == (WindowAction::SetBrushDown { down: true }),
        action_for(
            WindowInput::MouseInput { left: true, pressed: true },
            true,
            control,
        ) is Ignore,
        key.pressed && !escape && !(control && !key.repeat && key.code is KeyZ) ==> {
            &&& action_for(WindowInput::Keyboard { escape, key }, false, control) == (
            WindowAction::Navigate { key })
            &&& action_for(WindowInput::Keyboard { escape, key }, true, control) is Ignore
        },
{
}

/// The shortcut takes a unit back also where the panel consumed the key.
pub proof fn undo_shortcut_is_never_consumed(consumed: bool, key: KeyPress)
    requires
        key.pressed,
        !key.repeat,
        key.code is KeyZ,
    ensures
        action_for(WindowInput::Keyboard { escape: false, key }, consumed, true) is UndoBrush,
        !(action_for(WindowInput::Keyboard { escape: false, key }, consumed, false) is UndoBrush),
{
}

/// The cursor is followed wherever it is, and paints unless the panel consumed the
/// event; the wheel zooms unless it did. Other mouse buttons do nothing.
pub proof fn panel_keeps_the_mouse_to_itself(consumed: bool, control: bool, pressed: bool)
    ensures
        action_for(WindowInput::CursorMoved, consumed, control) == (WindowAction::MoveCursor {
            paint: !consumed,
        }),
        action_for(WindowInput::MouseWheel, false, control) is Zoom,
        action_for(WindowInput::MouseWheel, true, control) is Ignore,
        action_for(WindowInput::MouseInput { left: false, pressed }, consumed, control) is Ignore,
{
}

/// The window's own events are served whatever the panel does with them.
pub proof fn window_is_served_at_once(consumed: bool, control: bool, held: bool)
    ensures
        action_for(WindowInput::Resized, consumed, control) is Resize,
        action_for(WindowInput::ScaleFactorChanged, consumed, control) is Resize,
        action_for(WindowInput::ModifiersChanged { control: held }, consumed, control) == (
        WindowAction::SetControl { control: held }),
        action_for(WindowInput::RedrawRequested, consumed, control) is TickAndRender,
        action_for(WindowInput::Other, consumed, control) is Ignore,
{
}

} // verus!
