use display_tree::error::LayoutError;
use display_tree::geometry::{Axis, Rect};
use display_tree::layout::{layout, Identity, PlacementRequest};
use display_tree::tree::DisplayNode;

fn leaf(name: &str) -> DisplayNode {
    DisplayNode::Content { reference: name.to_string() }
}

fn request(name: &str, rect: (i32, i32, i32, i32), monitor: u32, path: Vec<usize>) -> PlacementRequest {
    PlacementRequest {
        content: name.to_string(),
        rectangle: Rect { x: rect.0, y: rect.1, width: rect.2, height: rect.3 },
        identity: Identity { monitor, path },
    }
}

#[test]
fn single_leaf_takes_the_whole_rectangle() {
    let out = layout(&leaf("https://example.org"), Rect::new(10, 20, 800, 600), 7).unwrap();
    assert_eq!(out, vec![request("https://example.org", (10, 20, 800, 600), 7, vec![])]);
}

#[test]
fn vertical_split_of_two_halves_the_height() {
    let tree = DisplayNode::Split { axis: Axis::Vertical, children: vec![leaf("A"), leaf("B")] };
    let out = layout(&tree, Rect::new(0, 0, 800, 600), 1).unwrap();
    assert_eq!(
        out,
        vec![
            request("A", (0, 0, 800, 300), 1, vec![0]),
            request("B", (0, 300, 800, 300), 1, vec![1]),
        ]
    );
}

#[test]
fn horizontal_split_of_three_drops_the_remainder() {
    let tree = DisplayNode::Split {
        axis: Axis::Horizontal,
        children: vec![leaf("A"), leaf("B"), leaf("C")],
    };
    let out = layout(&tree, Rect::new(0, 0, 100, 100), 1).unwrap();
    let widths: Vec<i32> = out.iter().map(|r| r.rectangle.width).collect();
    let origins: Vec<i32> = out.iter().map(|r| r.rectangle.x).collect();
    assert_eq!(widths, vec![33, 33, 33]);
    assert_eq!(origins, vec![0, 33, 66]);
    assert_eq!(
        out,
        vec![
            request("A", (0, 0, 33, 100), 1, vec![0]),
            request("B", (33, 0, 33, 100), 1, vec![1]),
            request("C", (66, 0, 33, 100), 1, vec![2]),
        ]
    );
}

#[test]
fn nested_split_divides_the_lower_half() {
    let tree = DisplayNode::Split {
        axis: Axis::Vertical,
        children: vec![
            leaf("A"),
            DisplayNode::Split { axis: Axis::Horizontal, children: vec![leaf("B"), leaf("C")] },
        ],
    };
    let out = layout(&tree, Rect::new(0, 0, 400, 400), 2).unwrap();
    assert_eq!(
        out,
        vec![
            request("A", (0, 0, 400, 200), 2, vec![0]),
            request("B", (0, 200, 200, 200), 2, vec![1, 0]),
            request("C", (200, 200, 200, 200), 2, vec![1, 1]),
        ]
    );
}

#[test]
fn childless_split_is_an_invalid_tree() {
    let tree = DisplayNode::Split { axis: Axis::Horizontal, children: vec![] };
    assert_eq!(layout(&tree, Rect::new(0, 0, 800, 600), 1), Err(LayoutError::InvalidTree));
    assert!(!tree.is_valid());
}

#[test]
fn childless_split_deep_in_the_tree_is_an_invalid_tree() {
    let tree = DisplayNode::Split {
        axis: Axis::Vertical,
        children: vec![
            leaf("A"),
            DisplayNode::Split {
                axis: Axis::Horizontal,
                children: vec![leaf("B"), DisplayNode::Split { axis: Axis::Vertical, children: vec![] }],
            },
        ],
    };
    assert_eq!(layout(&tree, Rect::new(0, 0, 800, 600), 1), Err(LayoutError::InvalidTree));
}

#[test]
fn layout_is_repeatable() {
    let tree = DisplayNode::Split {
        axis: Axis::Horizontal,
        children: vec![leaf("A"), DisplayNode::Split { axis: Axis::Vertical, children: vec![leaf("B"), leaf("C")] }],
    };
    let first = layout(&tree, Rect::new(5, 7, 641, 479), 3);
    let second = layout(&tree, Rect::new(5, 7, 641, 479), 3);
    assert_eq!(first, second);
    let out = first.unwrap();
    assert_eq!(out[1], request("B", (325, 7, 320, 239), 3, vec![1, 0]));
    assert_eq!(out[2], request("C", (325, 246, 320, 239), 3, vec![1, 1]));
}

#[test]
fn laid_out_rectangles_stay_inside_and_apart() {
    let tree = DisplayNode::Split {
        axis: Axis::Horizontal,
        children: vec![
            DisplayNode::Split { axis: Axis::Vertical, children: vec![leaf("A"), leaf("B"), leaf("C")] },
            leaf("D"),
            DisplayNode::Split { axis: Axis::Horizontal, children: vec![leaf("E"), leaf("F")] },
        ],
    };
    let outer = Rect::new(-100, 50, 1000, 700);
    let out = layout(&tree, outer, 9).unwrap();
    assert_eq!(out.len(), 6);
    for r in &out {
        assert!(r.rectangle.is_within(&outer));
        assert!(r.rectangle.is_valid());
    }
    for i in 0..out.len() {
        for j in (i + 1)..out.len() {
            let a = out[i].rectangle;
            let b = out[j].rectangle;
            let apart = a.x + a.width <= b.x
                || b.x + b.width <= a.x
                || a.y + a.height <= b.y
                || b.y + b.height <= a.y;
            assert!(apart);
            assert_ne!(out[i].identity, out[j].identity);
        }
    }
}

#[test]
fn more_children_than_pixels_gives_empty_parts() {
    let tree = DisplayNode::Split {
        axis: Axis::Horizontal,
        children: vec![leaf("A"), leaf("B"), leaf("C")],
    };
    let out = layout(&tree, Rect::new(4, 4, 2, 10), 1).unwrap();
    assert_eq!(
        out,
        vec![
            request("A", (4, 4, 0, 10), 1, vec![0]),
            request("B", (4, 4, 0, 10), 1, vec![1]),
            request("C", (4, 4, 0, 10), 1, vec![2]),
        ]
    );
}

#[test]
fn split_cuts_the_part_asked_for() {
    let rect = Rect::new(10, 20, 101, 50);
    assert_eq!(rect.split(Axis::Horizontal, 4, 3), Rect::new(85, 20, 25, 50));
    assert_eq!(rect.split(Axis::Vertical, 3, 1), Rect::new(10, 36, 101, 16));
}

#[test]
fn rectangle_validity_follows_the_far_edges() {
    assert!(Rect::new(0, 0, 800, 600).is_valid());
    assert!(Rect::new(-5, -5, 0, 0).is_valid());
    assert!(!Rect::new(0, 0, -1, 600).is_valid());
    assert!(!Rect::new(i32::MAX, 0, 1, 1).is_valid());
    assert!(Rect::new(i32::MAX - 1, 0, 1, 1).is_valid());
}

#[test]
fn parts_of_a_split_miss_fewer_pixels_than_there_are_children() {
    for extent in [1, 2, 99, 100, 101, 1920, 2147483647] {
        for n in [1usize, 2, 3, 7, 100, 101] {
            for (axis, rect) in [
                (Axis::Horizontal, Rect::new(-3, 11, extent, 5)),
                (Axis::Vertical, Rect::new(11, -3, 5, extent)),
            ] {
                if !rect.is_valid() {
                    continue;
                }
                let mut sum: i64 = 0;
                let mut edge: i64 = -3;
                for i in 0..n {
                    let part = rect.split(axis, n, i);
                    let (origin, length) = match axis {
                        Axis::Horizontal => (part.x, part.width),
                        Axis::Vertical => (part.y, part.height),
                    };
                    assert_eq!(origin as i64, edge);
                    assert_eq!(length, extent / n as i32);
                    edge += length as i64;
                    sum += length as i64;
                }
                assert!(sum <= extent as i64);
                assert!(extent as i64 - sum < n as i64);
            }
        }
    }
}

#[test]
fn axis_is_vertical_or_horizontal() {
    assert_eq!(Axis::of_vertical(true), Axis::Vertical);
    assert_eq!(Axis::of_vertical(false), Axis::Horizontal);
    assert!(Axis::Vertical.is_vertical());
    assert!(!Axis::Horizontal.is_vertical());
}

#[test]
fn every_leaf_gets_one_request_in_leaf_order() {
    let tree = DisplayNode::Split {
        axis: Axis::Vertical,
        children: vec![
            DisplayNode::Split { axis: Axis::Horizontal, children: vec![leaf("A"), leaf("B")] },
            leaf("C"),
            DisplayNode::Split {
                axis: Axis::Horizontal,
                children: vec![
                    leaf("D"),
                    DisplayNode::Split { axis: Axis::Vertical, children: vec![leaf("E")] },
                ],
            },
        ],
    };
    let out = layout(&tree, Rect::new(0, 0, 900, 900), 0).unwrap();
    let contents: Vec<&str> = out.iter().map(|r| r.content.as_str()).collect();
    assert_eq!(contents, vec!["A", "B", "C", "D", "E"]);
    let paths: Vec<Vec<usize>> = out.iter().map(|r| r.identity.path.clone()).collect();
    assert_eq!(paths, vec![vec![0, 0], vec![0, 1], vec![1], vec![2, 0], vec![2, 1, 0]]);
    assert_eq!(out[4].rectangle, Rect::new(450, 600, 450, 300));
}
