use display_tree::direct::{place_all_direct, place_direct, same_identity, Monitor, OutputModel};
use display_tree::error::PlacementError;
use display_tree::geometry::Rect;
use display_tree::layout::{Identity, PlacementRequest};

fn two_outputs() -> OutputModel {
    OutputModel::new(vec![
        Monitor { id: 1, rectangle: Rect::new(0, 0, 1920, 1080) },
        Monitor { id: 2, rectangle: Rect::new(1920, 0, 1280, 720) },
    ])
}

fn ask(name: &str, rect: Rect, monitor: u32, path: Vec<usize>) -> PlacementRequest {
    PlacementRequest { content: name.to_string(), rectangle: rect, identity: Identity { monitor, path } }
}

#[test]
fn new_model_knows_its_outputs_and_no_window() {
    let model = two_outputs();
    assert_eq!(model.current_outputs().len(), 2);
    assert_eq!(model.current_outputs()[1], Monitor { id: 2, rectangle: Rect::new(1920, 0, 1280, 720) });
    assert_eq!(model.geometry_of(&Identity { monitor: 1, path: vec![] }), None);
}

#[test]
fn direct_placement_records_the_rectangle() {
    let mut model = two_outputs();
    let request = ask("A", Rect::new(0, 540, 960, 540), 1, vec![1, 0]);
    assert_eq!(place_direct(&request, &mut model), Ok(()));
    assert_eq!(model.geometry_of(&request.identity), Some(Rect::new(0, 540, 960, 540)));
    assert_eq!(model.geometry_of(&Identity { monitor: 1, path: vec![1] }), None);
    assert_eq!(model.geometry_of(&Identity { monitor: 2, path: vec![1, 0] }), None);
}

#[test]
fn direct_placement_twice_leaves_the_same_geometry() {
    let mut model = two_outputs();
    let request = ask("A", Rect::new(1920, 0, 640, 720), 2, vec![0]);
    let other = ask("B", Rect::new(2560, 0, 640, 720), 2, vec![1]);
    assert_eq!(place_direct(&other, &mut model), Ok(()));
    assert_eq!(place_direct(&request, &mut model), Ok(()));
    let once = (model.geometry_of(&request.identity), model.geometry_of(&other.identity));
    assert_eq!(place_direct(&request, &mut model), Ok(()));
    let twice = (model.geometry_of(&request.identity), model.geometry_of(&other.identity));
    assert_eq!(once, twice);
    assert_eq!(twice, (Some(Rect::new(1920, 0, 640, 720)), Some(Rect::new(2560, 0, 640, 720))));
}

#[test]
fn direct_placement_replaces_an_earlier_rectangle() {
    let mut model = two_outputs();
    let identity = Identity { monitor: 1, path: vec![0] };
    assert_eq!(place_direct(&ask("A", Rect::new(0, 0, 100, 100), 1, vec![0]), &mut model), Ok(()));
    assert_eq!(place_direct(&ask("A", Rect::new(50, 60, 70, 80), 1, vec![0]), &mut model), Ok(()));
    assert_eq!(model.geometry_of(&identity), Some(Rect::new(50, 60, 70, 80)));
}

#[test]
fn rectangle_outside_every_output_is_no_such_output() {
    let mut model = two_outputs();
    let straddling = ask("A", Rect::new(1900, 0, 100, 100), 1, vec![]);
    assert_eq!(place_direct(&straddling, &mut model), Err(PlacementError::NoSuchOutput));
    assert_eq!(model.geometry_of(&straddling.identity), None);
    let beyond = ask("B", Rect::new(0, 1000, 100, 100), 1, vec![0]);
    assert_eq!(place_direct(&beyond, &mut model), Err(PlacementError::NoSuchOutput));
    let mut empty = OutputModel::new(vec![]);
    assert_eq!(
        place_direct(&ask("C", Rect::new(0, 0, 1, 1), 1, vec![]), &mut empty),
        Err(PlacementError::NoSuchOutput)
    );
}

#[test]
fn failed_placement_keeps_what_was_recorded() {
    let mut model = two_outputs();
    let identity = Identity { monitor: 1, path: vec![0] };
    assert_eq!(place_direct(&ask("A", Rect::new(0, 0, 100, 100), 1, vec![0]), &mut model), Ok(()));
    assert_eq!(
        place_direct(&ask("A", Rect::new(-1, 0, 100, 100), 1, vec![0]), &mut model),
        Err(PlacementError::NoSuchOutput)
    );
    assert_eq!(model.geometry_of(&identity), Some(Rect::new(0, 0, 100, 100)));
}

#[test]
fn one_failed_request_does_not_stop_the_others() {
    let mut model = two_outputs();
    let requests = vec![
        ask("A", Rect::new(0, 0, 960, 1080), 1, vec![0]),
        ask("B", Rect::new(5000, 0, 960, 1080), 1, vec![1]),
        ask("C", Rect::new(1920, 0, 1280, 720), 2, vec![]),
    ];
    let results = place_all_direct(&requests, &mut model);
    assert_eq!(results, vec![Ok(()), Err(PlacementError::NoSuchOutput), Ok(())]);
    assert_eq!(model.geometry_of(&requests[0].identity), Some(Rect::new(0, 0, 960, 1080)));
    assert_eq!(model.geometry_of(&requests[1].identity), None);
    assert_eq!(model.geometry_of(&requests[2].identity), Some(Rect::new(1920, 0, 1280, 720)));
}

#[test]
fn identities_are_compared_by_monitor_and_path() {
    let a = Identity { monitor: 1, path: vec![0, 2] };
    assert!(same_identity(&a, &Identity { monitor: 1, path: vec![0, 2] }));
    assert!(same_identity(&a, &a.duplicate()));
    assert!(!same_identity(&a, &Identity { monitor: 2, path: vec![0, 2] }));
    assert!(!same_identity(&a, &Identity { monitor: 1, path: vec![0, 3] }));
    assert!(!same_identity(&a, &Identity { monitor: 1, path: vec![0] }));
    assert!(!same_identity(&a, &Identity { monitor: 1, path: vec![0, 2, 0] }));
}

#[test]
fn has_output_for_asks_for_the_whole_rectangle() {
    let model = two_outputs();
    assert!(model.has_output_for(&Rect::new(0, 0, 1920, 1080)));
    assert!(model.has_output_for(&Rect::new(3199, 719, 1, 1)));
    assert!(!model.has_output_for(&Rect::new(3199, 719, 2, 1)));
    assert!(!model.has_output_for(&Rect::new(1000, 0, 1000, 100)));
}
