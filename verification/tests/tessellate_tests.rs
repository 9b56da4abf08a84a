use bismuth::mesh::primitive::{Polygon, Quad, Triangle};
use bismuth::mesh::tessellate::{PolygonalExt, QuadExt, TessellatePolygon, TessellateQuad};

#[test]
fn tessellation_takes_pieces_last_first() {
    let triangle = Triangle::new(0u32, 4, 8);
    let once = PolygonalExt::<u32>::into_subdivisions(triangle, 1);
    assert_eq!(
        once,
        vec![Polygon::Triangle(Triangle::new(4, 4, 0)), Polygon::Triangle(Triangle::new(8, 4, 4))]
    );
    let twice = PolygonalExt::<u32>::into_subdivisions(triangle, 2);
    // The second round cuts the second half first.
    assert_eq!(twice[0], Polygon::Triangle(Triangle::new(4, 6, 8)));
    assert_eq!(twice.len(), 4);
    let quad = Quad::new(0u32, 4, 8, 12);
    assert_eq!(vec![quad].subdivide(1).len(), 4);
    assert_eq!(QuadExt::into_tetrahedrons(quad).len(), 4);
    assert_eq!(vec![quad, quad].tetrahedrons().len(), 8);
}
