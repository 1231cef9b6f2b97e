use vstd::prelude::*;

use crate::axis::Axis;

verus! {

/// The eight corners of the box spanned by `min` and `max`, the x
/// coordinate varying slowest and z fastest, min before max on each axis.
pub open spec fn corners_of<T>(min: (T, T, T), max: (T, T, T)) -> Seq<(T, T, T)> {
    Seq::new(8, |c: int| (
        if c / 4 == 0 { min.0 } else { max.0 },
        if (c / 2) % 2 == 0 { min.1 } else { max.1 },
        if c % 2 == 0 { min.2 } else { max.2 },
    ))
}

/// All eight corners of the box spanned by `min` and `max`.
pub fn box_corners<T: Copy>(min: (T, T, T), max: (T, T, T)) -> (r: [(T, T, T); 8])
    ensures
        r@ == corners_of(min, max),
{
    let r = [
        (min.0, min.1, min.2),
        (min.0, min.1, max.2),
        (min.0, max.1, min.2),
        (min.0, max.1, max.2),
        (max.0, min.1, min.2),
        (max.0, min.1, max.2),
        (max.0, max.1, min.2),
        (max.0, max.1, max.2),
    ];
    assert(r@ =~= corners_of(min, max));
    r
}

/// One face of an axis-aligned box, as a rectangle perpendicular to `axis`:
/// the span along the axis is the single coordinate of the face's plane, the
/// spans along the other two axes are the box's. A flipped face has its
/// front side turned around, so that every face of the box looks outward.
#[derive(Debug, PartialEq)]
pub struct FaceSpan<T> {
    pub axis: Axis,
    pub x: (T, T),
    pub y: (T, T),
    pub z: (T, T),
    pub flipped: bool,
}

/// The face of the box spanned by `min` and `max` perpendicular to `axis`,
/// on the side of `max` or of `min`; only the latter is flipped.
pub open spec fn box_face<T>(min: (T, T, T), max: (T, T, T), axis: Axis, at_max: bool) -> FaceSpan<T> {
    let plane = if at_max { max } else { min };
    FaceSpan {
        axis,
        x: if axis == Axis::X { (plane.0, plane.0) } else { (min.0, max.0) },
        y: if axis == Axis::Y { (plane.1, plane.1) } else { (min.1, max.1) },
        z: if axis == Axis::Z { (plane.2, plane.2) } else { (min.2, max.2) },
        flipped: !at_max,
    }
}

/// The six faces of a box, in order: along z, y, then x, the face at the
/// maximum before the one at the minimum.
pub open spec fn faces_of<T>(min: (T, T, T), max: (T, T, T)) -> Seq<FaceSpan<T>> {
    seq![
        box_face(min, max, Axis::Z, true),
        box_face(min, max, Axis::Z, false),
        box_face(min, max, Axis::Y, true),
        box_face(min, max, Axis::Y, false),
        box_face(min, max, Axis::X, true),
        box_face(min, max, Axis::X, false),
    ]
}

/// The six faces of the box spanned by `min` and `max`.
pub fn box_faces<T: Copy>(min: (T, T, T), max: (T, T, T)) -> (r: [FaceSpan<T>; 6])
    ensures
        r@ == faces_of(min, max),
{
    let x = (min.0, max.0);
    let y = (min.1, max.1);
    let z = (min.2, max.2);
    let r = [
        FaceSpan { axis: Axis::Z, x, y, z: (max.2, max.2), flipped: false },
        FaceSpan { axis: Axis::Z, x, y, z: (min.2, min.2), flipped: true },
        FaceSpan { axis: Axis::Y, x, y: (max.1, max.1), z, flipped: false },
        FaceSpan { axis: Axis::Y, x, y: (min.1, min.1), z, flipped: true },
        FaceSpan { axis: Axis::X, x: (max.0, max.0), y, z, flipped: false },
        FaceSpan { axis: Axis::X, x: (min.0, min.0), y, z, flipped: true },
    ];
    assert(r@ =~= faces_of(min, max));
    r
}

} // verus!
