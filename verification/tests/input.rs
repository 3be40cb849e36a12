use cellular_automata::events::{is_undo_shortcut, window_action, WindowAction, WindowInput};
use cellular_automata::navigation::{Direction, KeyCode, KeyPress, NavigationInput};
use cellular_automata::stats::{FrameReport, FrameSample, FrameStats};
use cellular_automata::surface::{
    choose_format, choose_present_mode, choose_vsync_adapter, contains_ignoring_case, falls_back,
    first_set, resized_extent, surface_extent, surface_response, AdapterFacts, SurfaceFailure,
    SurfaceResponse,
};

fn press(code: KeyCode) -> KeyPress {
    KeyPress { code, pressed: true, repeat: false }
}

fn release(code: KeyCode) -> KeyPress {
    KeyPress { code, pressed: false, repeat: false }
}

#[test]
fn keys_move_the_view() {
    let mut input = NavigationInput::default();
    assert!(!input.any_pressed());
    for (letter, arrow, direction) in [
        (KeyCode::KeyA, KeyCode::ArrowLeft, Direction::Left),
        (KeyCode::KeyD, KeyCode::ArrowRight, Direction::Right),
        (KeyCode::KeyW, KeyCode::ArrowUp, Direction::Up),
        (KeyCode::KeyS, KeyCode::ArrowDown, Direction::Down),
    ] {
        assert_eq!(letter.direction(), Some(direction));
        assert_eq!(arrow.direction(), Some(direction));
        assert!(input.handle_navigation_key(press(letter)));
        let flags = (input.left, input.right, input.up, input.down);
        assert_eq!(
            flags,
            (
                direction == Direction::Left,
                direction == Direction::Right,
                direction == Direction::Up,
                direction == Direction::Down
            )
        );
        assert!(input.any_pressed());
        assert!(input.handle_navigation_key(release(arrow)));
        assert!(!input.any_pressed());
    }
    assert!(!input.handle_navigation_key(press(KeyCode::KeyZ)));
    assert!(!input.any_pressed());
}

#[test]
fn repeated_keys_change_nothing() {
    let mut input = NavigationInput::default();
    let repeat = KeyPress { code: KeyCode::KeyA, pressed: true, repeat: true };
    assert!(input.handle_navigation_key(repeat));
    assert!(!input.any_pressed());
    let other = KeyPress { code: KeyCode::Other, pressed: true, repeat: true };
    assert!(!input.handle_navigation_key(other));
    input.handle_navigation_key(press(KeyCode::KeyA));
    input.handle_navigation_key(KeyPress { code: KeyCode::KeyA, pressed: false, repeat: true });
    assert!(!input.left);
}

#[test]
fn undo_shortcut_needs_control() {
    assert!(is_undo_shortcut(true, press(KeyCode::KeyZ)));
    assert!(!is_undo_shortcut(false, press(KeyCode::KeyZ)));
    assert!(!is_undo_shortcut(true, release(KeyCode::KeyZ)));
    assert!(!is_undo_shortcut(true, press(KeyCode::KeyA)));
    let repeat = KeyPress { code: KeyCode::KeyZ, pressed: true, repeat: true };
    assert!(!is_undo_shortcut(true, repeat));
}

#[test]
fn events_find_their_actions() {
    let key = press(KeyCode::KeyA);
    let cases = [
        (WindowInput::CloseRequested, true, false, WindowAction::Exit),
        (WindowInput::Keyboard { escape: true, key }, true, false, WindowAction::Exit),
        (
            WindowInput::Keyboard { escape: true, key: release(KeyCode::Other) },
            true,
            false,
            WindowAction::Navigate { key: release(KeyCode::Other) },
        ),
        (
            WindowInput::Keyboard { escape: false, key },
            false,
            false,
            WindowAction::Navigate { key },
        ),
        (WindowInput::Keyboard { escape: false, key }, true, false, WindowAction::Ignore),
        (
            WindowInput::Keyboard { escape: false, key: press(KeyCode::KeyZ) },
            true,
            true,
            WindowAction::UndoBrush,
        ),
        (WindowInput::Resized, true, false, WindowAction::Resize),
        (WindowInput::ScaleFactorChanged, false, false, WindowAction::Resize),
        (
            WindowInput::ModifiersChanged { control: true },
            true,
            false,
            WindowAction::SetControl { control: true },
        ),
        (WindowInput::CursorMoved, true, false, WindowAction::MoveCursor { paint: false }),
        (WindowInput::CursorMoved, false, false, WindowAction::MoveCursor { paint: true }),
        (
            WindowInput::MouseInput { left: true, pressed: true },
            false,
            false,
            WindowAction::SetBrushDown { down: true },
        ),
        (WindowInput::MouseInput { left: true, pressed: true }, true, false, WindowAction::Ignore),
        (
            WindowInput::MouseInput { left: true, pressed: false },
            true,
            false,
            WindowAction::SetBrushDown { down: false },
        ),
        (
            WindowInput::MouseInput { left: false, pressed: true },
            false,
            false,
            WindowAction::Ignore,
        ),
        (WindowInput::MouseWheel, false, false, WindowAction::Zoom),
        (WindowInput::MouseWheel, true, false, WindowAction::Ignore),
        (WindowInput::RedrawRequested, true, false, WindowAction::TickAndRender),
        (WindowInput::Other, false, true, WindowAction::Ignore),
    ];
    for (input, consumed, control, action) in cases {
        assert_eq!(window_action(input, consumed, control), action);
    }
}

#[test]
fn frames_are_counted_by_the_second() {
    let mut stats = FrameStats::new(100);
    assert_eq!(
        stats.record_presented_frame(600),
        FrameReport { frame_time: None, sample: None }
    );
    assert_eq!(
        stats.record_presented_frame(1_000_000_099),
        FrameReport { frame_time: Some(999_999_499), sample: None }
    );
    assert_eq!(
        stats.record_presented_frame(1_000_000_100),
        FrameReport {
            frame_time: Some(1),
            sample: Some(FrameSample { frames: 3, elapsed: 1_000_000_000 }),
        }
    );
    assert_eq!(stats.presented_frames_in_sample, 0);
    assert_eq!(stats.sample_started_at, 1_000_000_100);
    assert_eq!(
        stats.record_presented_frame(5),
        FrameReport { frame_time: Some(0), sample: None }
    );
}

fn adapter(vulkan: bool, vendor: u32, name: &str, surface_supported: bool) -> AdapterFacts {
    AdapterFacts { vulkan, vendor, name: name.to_string(), surface_supported }
}

#[test]
fn vsync_takes_the_first_intel_vulkan_adapter() {
    let adapters = vec![
        adapter(false, 0x8086, "Intel", true),
        adapter(true, 0x10de, "GeForce", true),
        adapter(true, 0x8086, "Iris", false),
        adapter(true, 1, "Mesa INTEL(R) Xe", true),
        adapter(true, 0x8086, "Iris", true),
    ];
    assert_eq!(choose_vsync_adapter(&adapters), Some(3));
    assert_eq!(choose_vsync_adapter(&vec![adapter(true, 0x8086, "x", true)]), Some(0));
    assert_eq!(choose_vsync_adapter(&vec![adapter(true, 2, "Inte l", true)]), None);
    assert_eq!(choose_vsync_adapter(&Vec::new()), None);
}

#[test]
fn names_are_searched_without_regard_to_case() {
    assert!(contains_ignoring_case("INTEL", "intel"));
    assert!(contains_ignoring_case("ab iNteL", "intel"));
    assert!(contains_ignoring_case("x", ""));
    assert!(contains_ignoring_case("", ""));
    assert!(!contains_ignoring_case("inte", "intel"));
    assert!(!contains_ignoring_case("intel", "INTEL"));
    assert!(contains_ignoring_case("\u{c4}\u{e4}", "\u{c4}"));
    assert!(!contains_ignoring_case("\u{c4}", "\u{e4}"));
}

#[test]
fn formats_and_present_modes_are_chosen() {
    assert_eq!(first_set(&vec![false, true, true]), Some(1));
    assert_eq!(first_set(&Vec::new()), None);
    assert_eq!(choose_format(&vec![false, false, true, true]), 2);
    assert_eq!(choose_format(&vec![false, false]), 0);
    assert_eq!(choose_present_mode(&vec![false, true], false), Some(1));
    assert_eq!(choose_present_mode(&vec![false, true], true), Some(1));
    assert_eq!(choose_present_mode(&vec![false, false], false), Some(0));
    assert_eq!(choose_present_mode(&vec![false, false], true), None);
    assert_eq!(choose_present_mode(&Vec::new(), true), None);
}

#[test]
fn fallback_needs_a_named_backend() {
    assert!(falls_back(false, true, false));
    assert!(!falls_back(true, true, false));
    assert!(!falls_back(false, false, false));
    assert!(!falls_back(false, true, true));
}

#[test]
fn surfaces_have_an_area() {
    assert_eq!(surface_extent(0, 7), (1, 7));
    assert_eq!(surface_extent(8, 0), (8, 1));
    assert_eq!(resized_extent(0, 5), None);
    assert_eq!(resized_extent(5, 0), None);
    assert_eq!(resized_extent(5, 6), Some((5, 6)));
}

#[test]
fn surface_failures_have_responses() {
    assert_eq!(surface_response(SurfaceFailure::Lost), SurfaceResponse::Reconfigure);
    assert_eq!(surface_response(SurfaceFailure::Outdated), SurfaceResponse::Reconfigure);
    assert_eq!(surface_response(SurfaceFailure::Timeout), SurfaceResponse::SkipFrame);
    assert_eq!(surface_response(SurfaceFailure::Other), SurfaceResponse::SkipFrame);
    assert_eq!(surface_response(SurfaceFailure::OutOfMemory), SurfaceResponse::GiveUp);
}
