use vstd::prelude::*;

verus! {

/// One of the three coordinate axes.
#[derive(Clone, Copy, Debug, PartialEq, Eq, Structural)]
pub enum Axis {
    X,
    Y,
    Z,
}

/// The axis that a one-letter name denotes, in either case.
pub open spec fn axis_named(name: Seq<char>) -> Option<Axis> {
    if name.len() != 1 {
        None
    } else if name[0] == 'x' || name[0] == 'X' {
        Some(Axis::X)
    } else if name[0] == 'y' || name[0] == 'Y' {
        Some(Axis::Y)
    } else if name[0] == 'z' || name[0] == 'Z' {
        Some(Axis::Z)
    } else {
        None
    }
}

/// Per-axis values reordered as (on the axis, horizontal, vertical): the
/// horizontal direction is the first of the other two axes, the vertical the
/// second.
pub open spec fn arranged<T>(axis: Axis, x: T, y: T, z: T) -> (T, T, T) {
    match axis {
        Axis::X => (x, y, z),
        Axis::Y => (y, x, z),
        Axis::Z => (z, x, y),
    }
}

/// Values given as (on the axis, horizontal, vertical) put back in x, y, z order.
pub open spec fn placed<T>(axis: Axis, face: T, hort: T, vert: T) -> (T, T, T) {
    match axis {
        Axis::X => (face, hort, vert),
        Axis::Y => (hort, face, vert),
        Axis::Z => (hort, vert, face),
    }
}

impl Axis {
    /// Reads an axis from its one-letter name ("x", "Y", ...).
    pub fn parse(name: &str) -> (r: Option<Axis>)
        ensures
            r == axis_named(name@),
    {
        if name.unicode_len() != 1 {
            return None;
        }
        let c = name.get_char(0);
        if c == 'x' || c == 'X' {
            Some(Axis::X)
        } else if c == 'y' || c == 'Y' {
            Some(Axis::Y)
        } else if c == 'z' || c == 'Z' {
            Some(Axis::Z)
        } else {
            None
        }
    }

    /// The axis of a one-letter name; the name must denote one.
    pub fn from(name: &str) -> (r: Axis)
        requires
            axis_named(name@) is Some,
        ensures
            axis_named(name@) == Some(r),
    {
        match Axis::parse(name) {
            Some(a) => a,
            None => Axis::X,
        }
    }

    /// Reorders per-axis values as (on the axis, horizontal, vertical).
    pub fn arrange<T>(self, x: T, y: T, z: T) -> (r: (T, T, T))
        ensures
            r == arranged(self, x, y, z),
            placed(self, r.0, r.1, r.2) == (x, y, z),
    {
        match self {
            Axis::X => (x, y, z),
            Axis::Y => (y, x, z),
            Axis::Z => (z, x, y),
        }
    }

    /// Puts (on the axis, horizontal, vertical) values back in x, y, z order.
    pub fn place<T>(self, face: T, hort: T, vert: T) -> (r: (T, T, T))
        ensures
            r == placed(self, face, hort, vert),
            arranged(self, r.0, r.1, r.2) == (face, hort, vert),
    {
        match self {
            Axis::X => (face, hort, vert),
            Axis::Y => (hort, face, vert),
            Axis::Z => (hort, vert, face),
        }
    }
}

} // verus!
