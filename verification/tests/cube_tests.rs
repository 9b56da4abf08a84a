use bismuth::edit::Cursor;
use bismuth::geometry::{Edge, Geometry, Offset};
use bismuth::math::{umod, LowerBound, UPoint3, UVector3, UpperBound};
use bismuth::space::{index_at_point, AABB, vector_at_index, Axis, Direction, LogWidth, Orientation, Partition, Spatial};
use bismuth::split::Splitter;
use bismuth::tree::{CubeError, JoinError, Root, SubdivideError};

#[test]
fn test_cube_subdivide_to_point() {
    let point = UPoint3::origin();
    let width = LogWidth::min_value();
    let mut root = Root::new(LogWidth::max_value());

    root.subdivide_to_point(&point, width);
    assert!(root.to_cube().at_point(&point, width).unwrap().partition().width() == width);
}

#[test]
fn subdivide_to_point_reaches_width_inside_tree() {
    let mut root = Root::new(LogWidth::new(6));
    let point = UPoint3::new(37, 5, 60);
    let width = LogWidth::new(4);
    let partition = root.subdivide_to_point(&point, width).unwrap();
    assert_eq!(partition.width().to_inner(), 4);
    assert_eq!(*partition.origin(), UPoint3::new(32, 0, 48));
    let cube = root.to_cube().at_point(&point, width).unwrap();
    assert_eq!(cube.partition().width().to_inner(), 4);
    assert!(cube.is_leaf());
}

#[test]
fn subdivide_to_point_outside_tree_is_none() {
    let mut root = Root::new(LogWidth::new(5));
    let outside = UPoint3::new(32, 0, 0);
    assert!(root.subdivide_to_point(&outside, LogWidth::new(4)).is_none());
    assert!(root.to_cube().is_leaf());
}

#[test]
fn at_point_of_unsubdivided_tree_stops_at_leaf() {
    let root = Root::new(LogWidth::new(8));
    let cube = root.to_cube().at_point(&UPoint3::new(3, 3, 3), LogWidth::new(4)).unwrap();
    assert_eq!(cube.partition().width().to_inner(), 8);
}

#[test]
fn log_width_clamps_and_exp() {
    assert_eq!(LogWidth::new(0).to_inner(), 4);
    assert_eq!(LogWidth::new(200).to_inner(), 31);
    assert_eq!(LogWidth::min_value().to_inner(), 4);
    assert_eq!(LogWidth::max_value().to_inner(), 31);
    assert_eq!(LogWidth::new(5).exp(), 32);
    assert_eq!(LogWidth::unit().to_inner(), 8);
}

#[test]
fn partition_child_at_index() {
    let partition = Partition::at_point(&UPoint3::origin(), LogWidth::new(6));
    let child = partition.at_index(7).unwrap();
    assert_eq!(child.width().to_inner(), 5);
    assert_eq!(*child.origin(), UPoint3::new(32, 32, 32));
    assert!(Partition::at_point(&UPoint3::origin(), LogWidth::new(4)).at_index(0).is_none());
}

#[test]
fn index_and_vector_of_child() {
    assert_eq!(index_at_point(&UPoint3::new(0, 0, 0), LogWidth::new(5)), 0);
    assert_eq!(index_at_point(&UPoint3::new(32, 0, 32), LogWidth::new(5)), 5);
    assert_eq!(vector_at_index(5, LogWidth::new(5)), UVector3::new(32, 0, 32));
}

#[test]
fn orientation_axis_and_direction() {
    assert!(Orientation::Left.axis() == Axis::X);
    assert!(Orientation::Top.axis() == Axis::Y);
    assert!(Orientation::Back.axis() == Axis::Z);
    assert!(Orientation::Left.direction() == Direction::Positive);
    assert!(Orientation::Front.direction() == Direction::Negative);
}

#[test]
fn edge_front_and_back() {
    let mut edge = Edge::full();
    assert_eq!(edge.front().to_inner(), 0);
    assert_eq!(edge.back().to_inner(), 15);
    edge.set_front(Offset::new(3));
    edge.set_back(Offset::new(9));
    assert_eq!(edge.front().to_inner(), 3);
    assert_eq!(edge.back().to_inner(), 9);
    assert_eq!(edge.length().to_inner(), 6);
}

#[test]
fn geometry_full_and_empty() {
    assert!(!Geometry::full().is_empty());
    assert!(Geometry::empty().is_empty());
    assert_eq!(Geometry::full().edges(Axis::Y)[2].back().to_inner(), 15);
}

#[test]
fn cursor_spans_points() {
    let cursor = Cursor::from_point_to_point(&UPoint3::new(0, 0, 0), &UPoint3::new(40, 0, 20), LogWidth::new(4));
    assert_eq!(*cursor.span(), UVector3::new(2, 0, 1));
    assert_eq!(cursor.width().to_inner(), 4);
}

#[test]
fn subdivide_to_cursor_refines_every_cube() {
    let mut root = Root::new(LogWidth::new(6));
    let cursor = Cursor::at_point_with_span(&UPoint3::new(0, 0, 0), LogWidth::new(4), &UVector3::new(1, 0, 0));
    let partitions = root.subdivide_to_cursor(&cursor);
    assert_eq!(partitions.len(), 2);
    let cube = root.to_cube().at_point(&UPoint3::new(16, 0, 0), LogWidth::new(4)).unwrap();
    assert_eq!(cube.partition().width().to_inner(), 4);
}

#[test]
fn split_by_midpoint() {
    let root = Root::new(LogWidth::new(6));
    let mut root2 = Root::new(LogWidth::new(6));
    root2.subdivide_to_point(&UPoint3::origin(), LogWidth::new(5));
    let cubes = root2.to_cube().iter();
    assert_eq!(cubes.len(), 9);
    let (left, right) = Splitter::Midpoint.split(cubes);
    assert_eq!(left.len(), 4);
    assert_eq!(right.unwrap().len(), 5);
    let (one, none) = Splitter::Midpoint.split(root.to_cube().iter());
    assert_eq!(one.len(), 0);
    assert_eq!(none.unwrap().len(), 1);
}

#[test]
fn error_descriptions() {
    assert_eq!(JoinError::AlreadyJoined.description(), "attempted to join leaf");
    assert_eq!(SubdivideError::LimitExceeded.description(), "minimum width limit exceeded");
    assert_eq!(CubeError::SubdivideBranch.description(), "attempted to subdivide branch");
    assert!(CubeError::from(SubdivideError::AlreadySubdivided) == CubeError::SubdivideBranch);
}

#[test]
fn umod_is_euclidean() {
    assert_eq!(umod(-1, 3), 2);
    assert_eq!(umod(7, 4), 3);
    assert_eq!(umod(-8, 4), 0);
}

#[test]
fn join_after_subdivide_gives_a_leaf() {
    let mut root = Root::new(LogWidth::new(6));
    let point = UPoint3::new(9, 9, 9);
    assert_eq!(root.subdivide_at_point(&point, LogWidth::new(6)), Some(Ok(())));
    assert!(!root.to_cube().is_leaf());
    assert_eq!(root.subdivide_at_point(&point, LogWidth::new(6)), Some(Err(SubdivideError::AlreadySubdivided)));
    assert_eq!(root.join_at_point(&point, LogWidth::new(6)), Some(Ok(())));
    assert!(root.to_cube().is_leaf());
    assert_eq!(root.join_at_point(&point, LogWidth::new(6)), Some(Err(JoinError::AlreadyJoined)));
}

#[test]
fn subdivide_at_min_width_is_refused() {
    let mut root = Root::new(LogWidth::min_value());
    assert_eq!(
        root.subdivide_at_point(&UPoint3::origin(), LogWidth::min_value()),
        Some(Err(SubdivideError::LimitExceeded))
    );
    assert_eq!(root.subdivide_at_point(&UPoint3::new(100, 0, 0), LogWidth::min_value()), None);
}

#[test]
fn set_leaf_changes_only_leaves() {
    let mut root = Root::new(LogWidth::new(6));
    assert_eq!(root.set_leaf_at_point(&UPoint3::origin(), LogWidth::new(6), Geometry::empty(), 3), Some(true));
    assert!(root.to_cube().is_empty());
    root.subdivide_at_point(&UPoint3::origin(), LogWidth::new(6));
    assert_eq!(root.set_leaf_at_point(&UPoint3::origin(), LogWidth::new(6), Geometry::full(), 1), Some(false));
}

#[test]
fn leaf_and_branch_for_modification() {
    let mut node = bismuth::tree::Node::new();
    node.as_leaf_mut().unwrap().payload.material = 5;
    assert_eq!(node.as_leaf().unwrap().payload.material, 5);
    assert!(node.as_branch_mut().is_none());
}

#[test]
fn unit_cube_offsets_follow_the_edges() {
    assert_eq!(Geometry::full().unit_cube_offsets(&UPoint3::new(1, 1, 1)), [0, 0, 0]);
    assert_eq!(Geometry::empty().unit_cube_offsets(&UPoint3::new(1, 0, 1)), [-15, 0, -15]);
    let mut geometry = Geometry::full();
    let mut edge = Edge::full();
    edge.set_front(Offset::new(4));
    // The corner (0, 1, 0) is at index 1 among the edges along x.
    geometry.set_edge(Axis::X, 1, edge);
    assert_eq!(geometry.unit_cube_offsets(&UPoint3::new(0, 1, 0)), [4, 0, 0]);
    assert_eq!(geometry.unit_cube_offsets(&UPoint3::new(0, 0, 0)), [0, 0, 0]);
}

#[test]
fn log_widths_compare_by_value() {
    assert!(LogWidth::from(40) == LogWidth::max_value());
    assert!(LogWidth::new(5) < LogWidth::new(6));
    assert!(LogWidth::new(0) == LogWidth::min_value());
    assert!(Offset::from(7) > Offset::new(2));
}

#[test]
fn aabb_union_is_componentwise() {
    let a = AABB::new(UPoint3::new(0, 0, 5), UVector3::new(1, 1, 1));
    let b = AABB::new(UPoint3::new(2, 3, 0), UVector3::new(1, 1, 1));
    let union = a.union(&b);
    assert_eq!(union.origin, UPoint3::new(0, 0, 0));
    assert_eq!(union.extent, UVector3::new(3, 4, 6));
}

#[test]
fn bounds_are_componentwise() {
    let a = UPoint3::new(1, 9, 4);
    let b = UPoint3::new(5, 2, 8);
    assert_eq!(a.lower_bound(&b), UPoint3::new(1, 2, 4));
    assert_eq!(a.upper_bound(&b), UPoint3::new(5, 9, 8));
}

#[test]
fn iteration_visits_each_cube_once_parent_first() {
    let mut root = Root::new(LogWidth::new(6));
    root.subdivide_to_point(&UPoint3::origin(), LogWidth::new(4));
    let cube = root.to_cube();
    let cubes = cube.iter();
    // The root, its eight sub-cubes, and the eight under the one at the origin.
    assert_eq!(cubes.len(), 17);
    assert_eq!(*cubes[0].partition().origin(), UPoint3::origin());
    assert_eq!(cubes[0].partition().width().to_inner(), 6);
    let last = cube.partition().at_index(7).unwrap();
    assert_eq!(*cubes[1].partition().origin(), *last.origin());
    assert_eq!(cubes[1].partition().width().to_inner(), 5);
    // The sub-cube at the origin comes last among the root's, followed by its own.
    assert_eq!(*cubes[8].partition().origin(), UPoint3::origin());
    assert_eq!(cubes[8].partition().width().to_inner(), 5);
    for cube in &cubes[9..] {
        assert_eq!(cube.partition().width().to_inner(), 4);
    }
}

#[test]
fn writing_through_edges_mut_changes_one_edge() {
    let mut geometry = Geometry::full();
    geometry.edges_mut(Axis::X)[1].set_back(Offset::new(7));
    assert_eq!(geometry.edges(Axis::X)[1].back().to_inner(), 7);
    assert_eq!(geometry.edges(Axis::X)[1].front().to_inner(), 0);
    for axis in [Axis::X, Axis::Y, Axis::Z] {
        for i in 0..4 {
            if axis == Axis::X && i == 1 {
                continue;
            }
            assert_eq!(geometry.edges(axis)[i].front().to_inner(), 0);
            assert_eq!(geometry.edges(axis)[i].back().to_inner(), 15);
        }
    }
}

#[test]
fn cursor_from_cube_to_cube_spans_both() {
    let mut root = Root::new(LogWidth::new(8));
    root.subdivide_to_point(&UPoint3::origin(), LogWidth::new(5));
    root.subdivide_to_point(&UPoint3::new(80, 0, 40), LogWidth::new(4));
    let cube = root.to_cube();
    let start = cube.at_point(&UPoint3::origin(), LogWidth::new(5)).unwrap();
    let end = cube.at_point(&UPoint3::new(80, 0, 40), LogWidth::new(4)).unwrap();
    assert_eq!(*end.partition().origin(), UPoint3::new(80, 0, 32));
    assert_eq!(start.partition().width().to_inner(), 5);
    let cursor = Cursor::from_cube_to_cube(&start, &end);
    assert_eq!(cursor.width().to_inner(), 4);
    assert_eq!(*cursor.origin(), UPoint3::origin());
    assert_eq!(*cursor.span(), UVector3::new(5, 1, 2));
}

#[test]
fn cursor_fits_the_space() {
    assert!(Cursor::at_point_with_span(&UPoint3::origin(), LogWidth::new(4), &UVector3::new(1, 0, 0)).fits());
    assert!(!Cursor::at_point_with_span(&UPoint3::new(0xFFFF_FFF0, 0, 0), LogWidth::new(4), &UVector3::new(1, 0, 0)).fits());
    assert!(!Cursor::at_point_with_span(&UPoint3::origin(), LogWidth::new(4), &UVector3::new(0, u32::MAX, 0)).fits());
    assert!(Cursor::at_point_with_span(&UPoint3::new(0xFFFF_FFF0, 0, 0), LogWidth::new(4), &UVector3::new(0, 0, 0)).fits());
}

#[test]
fn iter_cursor_gives_the_tree_cubes_in_traversal_order() {
    let mut root = Root::new(LogWidth::new(6));
    root.subdivide_to_point(&UPoint3::origin(), LogWidth::new(5));
    root.subdivide_to_point(&UPoint3::origin(), LogWidth::new(4));
    let cursor = Cursor::at_point_with_span(&UPoint3::origin(), LogWidth::new(5), &UVector3::new(1, 0, 0));
    let cube = root.to_cube();
    let cubes = cube.iter_cursor(&cursor);
    assert_eq!(cubes.len(), 2);
    assert_eq!(*cubes[0].partition().origin(), UPoint3::new(32, 0, 0));
    assert!(cubes[0].is_leaf());
    assert_eq!(*cubes[1].partition().origin(), UPoint3::origin());
    assert!(!cubes[1].is_leaf());
    assert_eq!(cubes[1].iter().len(), 9);
}
