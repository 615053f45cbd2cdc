use pagegeom::geom::{Point, Size};
use pagegeom::shape::{Geometry, Paint, Path, Stroke};

fn red() -> Paint {
    Paint { r: 255, g: 0, b: 0, a: 255 }
}

fn thin(paint: Paint) -> Stroke {
    Stroke { paint, thickness: 2 }
}

#[test]
fn filled_sets_only_fill() {
    let geometry = Geometry::Rect(Size::new(10, 20));
    let shape = geometry.filled(red());
    assert_eq!(shape.geometry, Geometry::Rect(Size::new(10, 20)));
    assert_eq!(shape.fill, Some(red()));
    assert_eq!(shape.stroke, None);
}

#[test]
fn stroked_sets_only_stroke() {
    let geometry = Geometry::Line(Point::new(1, 2));
    let shape = geometry.stroked(thin(red()));
    assert_eq!(shape.geometry, Geometry::Line(Point::new(1, 2)));
    assert_eq!(shape.fill, None);
    assert_eq!(shape.stroke, Some(thin(red())));
}

#[test]
fn line_bounds_span_the_endpoint() {
    let bounds = Geometry::Line(Point::new(3, 4)).bounds();
    assert_eq!(bounds, Size::new(3, 4));
}

#[test]
fn line_bounds_keep_the_sign() {
    let bounds = Geometry::Line(Point::new(-3, 4)).bounds();
    assert_eq!(bounds, Size::new(-3, 4));
}

#[test]
fn rect_bounds_are_its_size() {
    let size = Size::new(640, 480);
    assert_eq!(Geometry::Rect(size).bounds(), size);
}

#[test]
fn path_bounds_delegate_to_the_path() {
    let path = Path { size: Size::new(12, 7) };
    assert_eq!(path.bounds(), Size::new(12, 7));
    assert_eq!(Geometry::Path(path).bounds(), Size::new(12, 7));
}
