use std::collections::BTreeSet;

use bismuth::mesh::decompose::Points;
use bismuth::mesh::generate::{IndexedPolygons, SpatialPoints, SpatialPolygons, PointGenerator, PolygonGenerator};
use bismuth::mesh::primitive::Polygon;
use bismuth::mesh::sphere::UVSphere;

#[test]
fn point_count() {
    assert_eq!(
        5,
        UVSphere::with_unit_radius(3, 2)
            .spatial_points() // 5 conjoint points.
            .len()
    );
}

#[test]
fn polygon_point_count() {
    assert_eq!(
        18,
        UVSphere::with_unit_radius(3, 2)
            .spatial_polygons() // 6 triangles, 18 points.
            .points()
            .len()
    );
}

#[test]
fn index_to_point_mapping() {
    assert_eq!(
        5,
        UVSphere::with_unit_radius(3, 2)
            .indexed_polygons() // 18 points, 5 indeces.
            .points()
            .into_iter()
            .collect::<BTreeSet<_>>()
            .len()
    )
}

#[test]
fn sizes_are_raised_to_the_least() {
    let sphere = UVSphere::with_unit_radius(1, 1);
    assert_eq!(sphere.point_count(), 5);
    assert_eq!(sphere.polygon_count(), 6);
}

#[test]
fn indices_stay_below_point_count() {
    let sphere = UVSphere::with_unit_radius(5, 4);
    let count = sphere.point_count();
    assert_eq!(count, 17);
    for polygon in sphere.indexed_polygons() {
        let corners = match polygon {
            Polygon::Triangle(t) => vec![t.a, t.b, t.c],
            Polygon::Quad(q) => vec![q.a, q.b, q.c, q.d],
        };
        for corner in corners {
            assert!(corner < count);
        }
    }
}

#[test]
fn poles_are_triangles_and_bands_are_quads() {
    let sphere = UVSphere::with_unit_radius(4, 3);
    let polygons = sphere.indexed_polygons();
    assert_eq!(polygons.len(), 12);
    assert!(matches!(polygons[0], Polygon::Triangle(_)));
    assert!(matches!(polygons[4], Polygon::Quad(_)));
    assert!(matches!(polygons[8], Polygon::Triangle(_)));
    match polygons[0] {
        Polygon::Triangle(t) => {
            assert_eq!((t.a, t.b, t.c), (0, 1, 2));
        },
        _ => unreachable!(),
    }
    assert_eq!(sphere.spatial_point(0), (0, 0));
    assert_eq!(sphere.spatial_point(sphere.point_count() - 1), (0, 3));
}
