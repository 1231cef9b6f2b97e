use raytracer::axis::Axis;
use raytracer::boxes::{box_corners, box_faces};
use raytracer::bvh::{split_for_node, NodeChildren};
use raytracer::config::Config;

fn config(width: u32, height: u32) -> Config {
    Config {
        image_width: width,
        image_height: height,
        samples_per_pixel: 10,
        max_depth: 50,
    }
}

#[test]
fn axis_parses_both_cases() {
    assert_eq!(Axis::parse("x"), Some(Axis::X));
    assert_eq!(Axis::parse("X"), Some(Axis::X));
    assert_eq!(Axis::parse("y"), Some(Axis::Y));
    assert_eq!(Axis::parse("Y"), Some(Axis::Y));
    assert_eq!(Axis::parse("z"), Some(Axis::Z));
    assert_eq!(Axis::parse("Z"), Some(Axis::Z));
}

#[test]
fn axis_rejects_other_names() {
    assert_eq!(Axis::parse(""), None);
    assert_eq!(Axis::parse("w"), None);
    assert_eq!(Axis::parse("xx"), None);
    assert_eq!(Axis::parse("x "), None);
}

#[test]
fn axis_from_known_name() {
    assert_eq!(Axis::from("Z"), Axis::Z);
    assert_eq!(Axis::from("y"), Axis::Y);
}

#[test]
fn axis_arrange_orders_face_first() {
    assert_eq!(Axis::X.arrange(1, 2, 3), (1, 2, 3));
    assert_eq!(Axis::Y.arrange(1, 2, 3), (2, 1, 3));
    assert_eq!(Axis::Z.arrange(1, 2, 3), (3, 1, 2));
}

#[test]
fn axis_place_inverts_arrange() {
    for axis in [Axis::X, Axis::Y, Axis::Z] {
        let (f, h, v) = axis.arrange('a', 'b', 'c');
        assert_eq!(axis.place(f, h, v), ('a', 'b', 'c'));
    }
    assert_eq!(Axis::Z.place(9, 7, 8), (7, 8, 9));
    assert_eq!(Axis::Y.place(9, 7, 8), (7, 9, 8));
}

#[test]
fn pixel_count_and_index() {
    let c = config(3, 2);
    assert_eq!(c.pixel_count(), 6);
    assert_eq!(c.pixel_index(0, 0), 0);
    assert_eq!(c.pixel_index(2, 1), 5);
    assert_eq!(c.pixel_index(1, 1), 4);
    assert_eq!(config(0, 5).pixel_count(), 0);
}

#[test]
fn pixel_count_largest_image() {
    let c = config(u32::MAX, u32::MAX);
    assert_eq!(c.pixel_count(), (u32::MAX as u64) * (u32::MAX as u64));
}

#[test]
fn pass_jobs_row_by_row() {
    let jobs = config(3, 2).pass_jobs(4);
    assert_eq!(
        jobs,
        vec![(4, 0, 0), (4, 1, 0), (4, 2, 0), (4, 0, 1), (4, 1, 1), (4, 2, 1)]
    );
}

#[test]
fn pass_jobs_of_empty_image() {
    assert!(config(0, 3).pass_jobs(1).is_empty());
    assert!(config(4, 0).pass_jobs(1).is_empty());
}

#[test]
fn pass_jobs_cover_every_pixel_once() {
    let c = config(7, 5);
    let jobs = c.pass_jobs(2);
    assert_eq!(jobs.len(), 35);
    let mut seen = vec![false; 35];
    for &(s, x, y) in jobs.iter() {
        assert_eq!(s, 2);
        let i = c.pixel_index(x, y);
        assert!(!seen[i]);
        seen[i] = true;
    }
    assert!(seen.iter().all(|&b| b));
}

#[test]
fn node_split_single_object() {
    match split_for_node(vec!['a']) {
        NodeChildren::Single(a) => assert_eq!(a, 'a'),
        _ => panic!("one object makes a single child"),
    }
}

#[test]
fn node_split_pair() {
    match split_for_node(vec![1, 2]) {
        NodeChildren::Pair(a, b) => assert_eq!((a, b), (1, 2)),
        _ => panic!("two objects make a pair"),
    }
}

#[test]
fn node_split_halves_floor_left() {
    match split_for_node(vec![1, 2, 3]) {
        NodeChildren::Halves(l, r) => {
            assert_eq!(l, vec![1]);
            assert_eq!(r, vec![2, 3]);
        }
        _ => panic!("three objects split in halves"),
    }
    match split_for_node((0..10).collect::<Vec<i32>>()) {
        NodeChildren::Halves(l, r) => {
            assert_eq!(l, vec![0, 1, 2, 3, 4]);
            assert_eq!(r, vec![5, 6, 7, 8, 9]);
        }
        _ => panic!("ten objects split in halves"),
    }
}

#[test]
fn box_corners_all_eight() {
    let c = box_corners((0, 0, 0), (1, 2, 3));
    assert_eq!(
        c,
        [
            (0, 0, 0),
            (0, 0, 3),
            (0, 2, 0),
            (0, 2, 3),
            (1, 0, 0),
            (1, 0, 3),
            (1, 2, 0),
            (1, 2, 3),
        ]
    );
}

#[test]
fn box_faces_six_outward() {
    let faces = box_faces((0, 0, 0), (1, 2, 3));
    let summary: Vec<(Axis, (i32, i32), (i32, i32), (i32, i32), bool)> = faces
        .iter()
        .map(|f| (f.axis, f.x, f.y, f.z, f.flipped))
        .collect();
    assert_eq!(
        summary,
        vec![
            (Axis::Z, (0, 1), (0, 2), (3, 3), false),
            (Axis::Z, (0, 1), (0, 2), (0, 0), true),
            (Axis::Y, (0, 1), (2, 2), (0, 3), false),
            (Axis::Y, (0, 1), (0, 0), (0, 3), true),
            (Axis::X, (1, 1), (0, 2), (0, 3), false),
            (Axis::X, (0, 0), (0, 2), (0, 3), true),
        ]
    );
}
