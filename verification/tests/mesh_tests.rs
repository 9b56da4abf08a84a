use bismuth::math::UPoint3;
use bismuth::mesh::cube::{Cube, FacePlane, Point3};
use bismuth::mesh::decompose::{
    IntoLines, IntoPoints, IntoSubdivisions, IntoTetrahedrons, IntoTriangles, Points, Subdivide, Tetrahedrons,
    Triangulate,
};
use bismuth::mesh::generate::{IndexedPolygons, SpatialPoints, TexturedPolygons};
use bismuth::mesh::index::{HashIndexer, Index, Indexer};
use bismuth::mesh::primitive::{Line, MapPoints, MapPrimitive, Polygon, Quad, Rotate, Triangle};

#[test]
fn rotate_triangle_left() {
    let mut triangle = Triangle::new(1, 2, 3);
    triangle.rotate(1);
    assert_eq!(triangle, Triangle::new(2, 3, 1));
    triangle.rotate(-1);
    assert_eq!(triangle, Triangle::new(1, 2, 3));
    triangle.rotate(5);
    assert_eq!(triangle, Triangle::new(3, 1, 2));
}

#[test]
fn rotate_quad_and_line() {
    let mut quad = Quad::new(1, 2, 3, 4);
    quad.rotate(3);
    assert_eq!(quad, Quad::new(4, 1, 2, 3));
    quad.rotate(-3);
    assert_eq!(quad, Quad::new(1, 2, 3, 4));
    let mut line = Line::new(1, 2);
    line.rotate(3);
    assert_eq!(line, Line::new(2, 1));
    line.rotate(2);
    assert_eq!(line, Line::new(2, 1));
}

#[test]
fn converged_primitives() {
    assert_eq!(Line::converged(7), Line::new(7, 7));
    assert_eq!(Triangle::converged(7), Triangle::new(7, 7, 7));
    assert_eq!(Quad::converged(7), Quad::new(7, 7, 7, 7));
}

#[test]
fn map_primitive_maps_each_point() {
    let quad = Quad::new(1u32, 2, 3, 4).map_primitive(|x| x * 10);
    assert_eq!(quad, Quad::new(10, 20, 30, 40));
    let polygon: Polygon<u32> = Triangle::new(1u32, 2, 3).into();
    assert_eq!(polygon.map_primitive(|x| x + 1), Polygon::Triangle(Triangle::new(2, 3, 4)));
}

#[test]
fn points_lines_and_triangles() {
    assert_eq!(Quad::new(1, 2, 3, 4).into_points(), vec![1, 2, 3, 4]);
    assert_eq!(
        Triangle::new(1, 2, 3).into_lines(),
        vec![Line::new(1, 2), Line::new(2, 3), Line::new(3, 1)]
    );
    assert_eq!(
        Quad::new(1, 2, 3, 4).into_triangles(),
        vec![Triangle::new(1, 2, 3), Triangle::new(3, 4, 1)]
    );
    assert_eq!(
        vec![Polygon::Triangle(Triangle::new(1, 2, 3)), Polygon::Quad(Quad::new(4, 5, 6, 7))].triangulate().len(),
        3
    );
    assert_eq!(vec![Line::new(1, 2), Line::new(3, 4)].points(), vec![1, 2, 3, 4]);
}

#[test]
fn subdivisions_double_and_quadruple() {
    let triangle = Triangle::new(0u32, 4, 8);
    let halves = triangle.into_subdivisions(1);
    assert_eq!(halves, vec![Triangle::new(4, 4, 0), Triangle::new(8, 4, 4)]);
    assert_eq!(triangle.into_subdivisions(3).len(), 8);
    let quad = Quad::new(0u32, 4, 8, 12);
    assert_eq!(quad.into_subdivisions(2).len(), 16);
    assert_eq!(quad.into_subdivisions(0), vec![quad]);
    assert_eq!(vec![quad, quad].subdivide(1).len(), 8);
}

#[test]
fn tetrahedrons_meet_at_diagonal_midpoint() {
    let quad = Quad::new(UPoint3::new(0, 0, 0), UPoint3::new(2, 0, 0), UPoint3::new(2, 2, 0), UPoint3::new(0, 2, 0));
    let triangles = quad.into_tetrahedrons();
    assert_eq!(triangles.len(), 4);
    for triangle in &triangles {
        assert_eq!(triangle.c, UPoint3::new(1, 1, 0));
    }
    assert_eq!(vec![quad].tetrahedrons().len(), 4);
}

#[test]
fn cube_faces() {
    let cube: Cube<u32> = Cube::with_unit_width();
    let faces = cube.polygons();
    assert_eq!(faces.len(), 6);
    assert_eq!(faces[0].a, Point3 { x: 1, y: 0, z: 1 });
    assert_eq!(cube.spatial_points().len(), 8);
    let indexed = cube.indexed_polygons();
    assert_eq!(indexed[0], Quad::new(5, 7, 3, 1));
    assert_eq!(cube.plane_polygons()[1], Quad::converged(FacePlane::NZY));
    assert_eq!(cube.textured_polygons().len(), 6);
    let radius: Cube<i8> = Cube::with_unit_radius();
    assert_eq!(radius.polygons()[5].c, Point3 { x: 2, y: 2, z: 0 });
}

#[test]
fn index_keeps_first_of_each_point() {
    let (indices, points) = Index::index(vec![Triangle::new(7usize, 8, 9), Triangle::new(9, 8, 10)]);
    assert_eq!(indices, vec![0, 1, 2, 2, 1, 3]);
    assert_eq!(points, vec![7, 8, 9, 10]);
    let (indices, points) = vec![Line::new(3u32, 4), Line::new(5, 6)].index_with_key(|p: &u32| *p % 2);
    assert_eq!(indices, vec![0, 1, 0, 1]);
    assert_eq!(points, vec![3, 4]);
}

#[test]
fn index_with_key_keeps_keys_in_first_seen_order() {
    let (indices, points) = vec![Line::new(9u32, 2), Line::new(5, 7)].index_with_key(|p: &u32| *p % 3);
    assert_eq!(indices, vec![0, 1, 1, 2]);
    assert_eq!(points, vec![9, 2, 7]);
}

#[test]
fn hash_indexer_numbers_new_keys() {
    let mut indexer: HashIndexer<u32> = HashIndexer::new();
    let key = |p: &u32| *p;
    assert_eq!(Indexer::<u32, u32>::index(&mut indexer, 4, &key), (0, Some(4)));
    assert_eq!(Indexer::<u32, u32>::index(&mut indexer, 6, &key), (1, Some(6)));
    assert_eq!(Indexer::<u32, u32>::index(&mut indexer, 4, &key), (0, None));
}

#[test]
fn map_points_maps_every_primitive() {
    let mapped = vec![Line::new(1u32, 2), Line::new(3, 4)].map_points(|x| x + 10);
    assert_eq!(mapped, vec![Line::new(11, 12), Line::new(13, 14)]);
}

#[test]
fn rotations_compose() {
    for m in -5isize..6 {
        for n in -5isize..6 {
            let mut twice = Quad::new(1, 2, 3, 4);
            twice.rotate(m);
            twice.rotate(n);
            let mut once = Quad::new(1, 2, 3, 4);
            once.rotate(m + n);
            assert_eq!(twice, once);
            let mut back = Quad::new(1, 2, 3, 4);
            back.rotate(m);
            back.rotate(-m);
            assert_eq!(back, Quad::new(1, 2, 3, 4));
        }
    }
    let mut quad = Quad::new(0, 1, 2, 3);
    quad.rotate(1);
    assert_eq!(quad, Quad::new(1, 2, 3, 0));
}
