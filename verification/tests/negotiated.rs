use display_tree::discover::window_ids;
use display_tree::error::PlacementError;
use display_tree::geometry::Rect;
use display_tree::layout::{Identity, PlacementRequest};
use display_tree::negotiated::{delta, step, Action, Direction, Event, MoveCommand, Phase, Shift, SETTLE_DELAY_MS};

fn target() -> PlacementRequest {
    PlacementRequest {
        content: "https://example.org".to_string(),
        rectangle: Rect::new(0, 300, 800, 300),
        identity: Identity { monitor: 1, path: vec![1] },
    }
}

fn measured(text: &str) -> Event {
    Event::Measured { output: Some(text.as_bytes().to_vec()) }
}

fn found(ids: &[&str]) -> Event {
    Event::Discovered { windows: ids.iter().map(|s| s.as_bytes().to_vec()).collect() }
}

fn is_move(action: &Action) -> bool {
    matches!(action, Action::Move { .. })
}

#[test]
fn delta_is_target_less_measured() {
    assert_eq!(delta(&Rect::new(0, 300, 800, 300), 12, 340), (-12, -40));
    assert_eq!(delta(&Rect::new(100, 50, 1, 1), 40, 10), (60, 40));
    assert_eq!(delta(&Rect::new(7, 7, 1, 1), 7, 7), (0, 0));
    assert_eq!(
        delta(&Rect::new(i32::MAX, i32::MIN, 0, 0), i32::MIN, i32::MAX),
        (4294967295, -4294967295)
    );
}

#[test]
fn a_request_walks_through_the_protocol() {
    let request = target();
    let (phase, action) = step(&request, Phase::Ready, &Event::Start);
    assert_eq!(phase, Phase::Spawning);
    match action {
        Action::Spawn { command } => {
            assert_eq!(command.program, "firefox");
            assert_eq!(command.arguments[1], "https://example.org");
            assert_eq!(command.arguments[3], "firefox_window_1_1");
        }
        _ => panic!("the application is started first"),
    }
    let (phase, action) = step(&request, phase, &Event::Spawned { ok: true });
    assert_eq!(phase, Phase::Settling);
    assert!(matches!(action, Action::Wait { millis } if millis == SETTLE_DELAY_MS));
    assert_eq!(SETTLE_DELAY_MS, 3000);
    let (phase, action) = step(&request, phase, &Event::Settled);
    assert_eq!(phase, Phase::Discovering);
    assert!(matches!(action, Action::Discover { ref class } if class == "firefox_window_1_1"));
    let (phase, action) = step(
        &request,
        phase,
        &Event::Discovered { windows: window_ids(b"44040195\n") },
    );
    assert_eq!(phase, Phase::Measuring);
    assert!(matches!(action, Action::Measure { ref window } if window == b"44040195"));
    let (phase, action) = step(&request, phase, &measured("Window 44040195\n  Position: 12,340 (screen: 0)\n"));
    assert_eq!(phase, Phase::Moving);
    match action {
        Action::Move { correction } => {
            assert_eq!(correction.class, "firefox_window_1_1");
            assert_eq!((correction.dx, correction.dy), (-12, -40));
            assert_eq!(
                correction.render(),
                "[class=\"firefox_window_1_1\"] floating enable, move left 12 px, move up 40 px"
            );
        }
        _ => panic!("a measured window is moved"),
    }
    let (phase, action) = step(&request, phase, &Event::Moved { ok: true });
    assert_eq!(phase, Phase::Placed);
    assert!(matches!(action, Action::Finish { outcome: Ok(()) }));
}

#[test]
fn single_match_is_moved_by_target_less_measured() {
    let request = target();
    let (phase, _) = step(&request, Phase::Discovering, &found(&["7"]));
    let (_, action) = step(&request, phase, &measured("Position: -20,250"));
    match action {
        Action::Move { correction } => assert_eq!((correction.dx, correction.dy), (20, 50)),
        _ => panic!("a measured window is moved"),
    }
}

#[test]
fn no_match_is_discovery_failed_and_nothing_moves() {
    let request = target();
    let (phase, action) = step(&request, Phase::Discovering, &found(&[]));
    assert_eq!(phase, Phase::Failed(PlacementError::DiscoveryFailed));
    assert!(matches!(action, Action::Finish { outcome: Err(PlacementError::DiscoveryFailed) }));
    let later = [measured("Position: 1,2"), Event::Moved { ok: true }, Event::Start, Event::Settled];
    let mut phase = phase;
    for event in &later {
        let (next, action) = step(&request, phase, event);
        assert!(!is_move(&action));
        assert!(matches!(action, Action::Nothing));
        assert_eq!(next, Phase::Failed(PlacementError::DiscoveryFailed));
        phase = next;
    }
}

#[test]
fn two_matches_are_discovery_failed_and_nothing_moves() {
    let request = target();
    let (phase, action) = step(&request, Phase::Discovering, &found(&["7", "8"]));
    assert_eq!(phase, Phase::Failed(PlacementError::DiscoveryFailed));
    assert!(matches!(action, Action::Finish { outcome: Err(PlacementError::DiscoveryFailed) }));
    let (phase, action) = step(&request, phase, &measured("Position: 1,2"));
    assert!(!is_move(&action));
    assert_eq!(phase, Phase::Failed(PlacementError::DiscoveryFailed));
}

#[test]
fn failed_spawn_ends_the_request() {
    let (phase, action) = step(&target(), Phase::Spawning, &Event::Spawned { ok: false });
    assert_eq!(phase, Phase::Failed(PlacementError::SpawnFailed));
    assert!(matches!(action, Action::Finish { outcome: Err(PlacementError::SpawnFailed) }));
}

#[test]
fn unreadable_measurement_ends_the_request() {
    let request = target();
    let (phase, action) = step(&request, Phase::Measuring, &measured("no such window"));
    assert_eq!(phase, Phase::Failed(PlacementError::MeasurementFailed));
    assert!(matches!(action, Action::Finish { outcome: Err(PlacementError::MeasurementFailed) }));
    let (phase, action) = step(&request, Phase::Measuring, &Event::Measured { output: None });
    assert_eq!(phase, Phase::Failed(PlacementError::MeasurementFailed));
    assert!(matches!(action, Action::Finish { outcome: Err(PlacementError::MeasurementFailed) }));
}

#[test]
fn refused_move_ends_the_request() {
    let (phase, action) = step(&target(), Phase::Moving, &Event::Moved { ok: false });
    assert_eq!(phase, Phase::Failed(PlacementError::MoveCommandFailed));
    assert!(matches!(action, Action::Finish { outcome: Err(PlacementError::MoveCommandFailed) }));
}

#[test]
fn events_out_of_turn_change_nothing() {
    let request = target();
    let (phase, action) = step(&request, Phase::Ready, &Event::Settled);
    assert_eq!(phase, Phase::Ready);
    assert!(matches!(action, Action::Nothing));
    let (phase, action) = step(&request, Phase::Settling, &found(&["1"]));
    assert_eq!(phase, Phase::Settling);
    assert!(matches!(action, Action::Nothing));
    let (phase, action) = step(&request, Phase::Discovering, &measured("Position: 1,2"));
    assert_eq!(phase, Phase::Discovering);
    assert!(matches!(action, Action::Nothing));
    let (phase, action) = step(&request, Phase::Placed, &Event::Start);
    assert_eq!(phase, Phase::Placed);
    assert!(matches!(action, Action::Nothing));
}

#[test]
fn move_command_names_directions_and_amounts() {
    let command = MoveCommand { class: "firefox_window_2".to_string(), dx: 10, dy: 0 };
    assert_eq!(command.horizontal(), Shift { direction: Direction::Right, pixels: 10 });
    assert_eq!(command.vertical(), Shift { direction: Direction::Down, pixels: 0 });
    assert_eq!(
        command.render(),
        "[class=\"firefox_window_2\"] floating enable, move right 10 px, move down 0 px"
    );
    let command = MoveCommand { class: "c".to_string(), dx: -4294967295, dy: i64::MIN };
    assert_eq!(command.horizontal(), Shift { direction: Direction::Left, pixels: 4294967295 });
    assert_eq!(command.vertical(), Shift { direction: Direction::Up, pixels: 9223372036854775808 });
    assert_eq!(
        command.render(),
        "[class=\"c\"] floating enable, move left 4294967295 px, move up 9223372036854775808 px"
    );
}

#[test]
fn window_identifiers_are_the_lines_of_the_answer() {
    assert_eq!(window_ids(b""), Vec::<Vec<u8>>::new());
    assert_eq!(window_ids(b"\n\n"), Vec::<Vec<u8>>::new());
    assert_eq!(window_ids(b"44040195\n"), vec![b"44040195".to_vec()]);
    assert_eq!(window_ids(b"44040195"), vec![b"44040195".to_vec()]);
    assert_eq!(
        window_ids(b"\n0x2a00003\n\n0x2a00007\nlast"),
        vec![b"0x2a00003".to_vec(), b"0x2a00007".to_vec(), b"last".to_vec()]
    );
}

#[test]
fn discovery_answers_decide_between_measuring_and_failing() {
    let request = target();
    let (phase, _) = step(&request, Phase::Discovering, &Event::Discovered { windows: window_ids(b"") });
    assert_eq!(phase, Phase::Failed(PlacementError::DiscoveryFailed));
    let (phase, _) = step(&request, Phase::Discovering, &Event::Discovered { windows: window_ids(b"1\n2\n") });
    assert_eq!(phase, Phase::Failed(PlacementError::DiscoveryFailed));
    let (phase, _) = step(&request, Phase::Discovering, &Event::Discovered { windows: window_ids(b"\n2\n") });
    assert_eq!(phase, Phase::Measuring);
}
