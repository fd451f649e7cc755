use crate::geometry::Rect;
use crate::player::Direction;
use vstd::prelude::*;

verus! {

/// The side of a rectangle on which a contact happened, seen from the moving
/// body: `Bottom` means the mover's bottom edge hit the other body's top.
#[derive(Clone, Copy, PartialEq, Eq, Structural, Debug)]
pub enum Sides {
    Left,
    Right,
    Top,
    Bottom,
    NoContact,
}

/// The side a body presents when travelling in the given direction.
pub open spec fn side_of_direction(direction: Direction) -> Sides {
    match direction {
        Direction::Down => Sides::Bottom,
        Direction::Up => Sides::Top,
        Direction::Left => Sides::Left,
        Direction::Right => Sides::Right,
        Direction::IdleLeft => Sides::Left,
        Direction::IdleRight => Sides::Right,
        Direction::Idle => Sides::NoContact,
    }
}

impl From<Direction> for Sides {
    fn from(direction: Direction) -> (r: Sides)
        ensures
            r == side_of_direction(direction),
    {
        match direction {
            Direction::Down => Sides::Bottom,
            Direction::Up => Sides::Top,
            Direction::Left => Sides::Left,
            Direction::Right => Sides::Right,
            Direction::IdleLeft => Sides::Left,
            Direction::IdleRight => Sides::Right,
            _ => Sides::NoContact,
        }
    }
}

impl vstd::std_specs::convert::FromSpecImpl<Direction> for Sides {
    open spec fn obeys_from_spec() -> bool {
        true
    }

    open spec fn from_spec(direction: Direction) -> Sides {
        side_of_direction(direction)
    }
}

/// The coordinate of the named edge of a rectangle; `Sides::NoContact` names no
/// edge and yields zero.
pub open spec fn side_coordinate(rect: Rect, side: Sides) -> int {
    match side {
        Sides::Left => rect.spec_left(),
        Sides::Right => rect.spec_right(),
        Sides::Top => rect.spec_top(),
        Sides::Bottom => rect.spec_bottom(),
        Sides::NoContact => 0,
    }
}

impl Rect {
    /// The coordinate of the named edge of this rectangle.
    pub fn get_side(&self, side: Sides) -> (r: i32)
        requires
            self.wf(),
        ensures
            r == side_coordinate(*self, side),
    {
        match side {
            Sides::Left => self.x,
            Sides::Right => self.x + self.width as i32,
            Sides::Top => self.y,
            Sides::Bottom => self.y + self.height as i32,
            Sides::NoContact => 0,
        }
    }
}

/// The open-interval axis-aligned overlap test: rectangles that share only an
/// edge do not overlap.
pub open spec fn overlaps(a: Rect, b: Rect) -> bool {
    &&& a.spec_left() < b.spec_right()
    &&& a.spec_right() > b.spec_left()
    &&& a.spec_top() < b.spec_bottom()
    &&& a.spec_bottom() > b.spec_top()
}

/// Whether two rectangles overlap on an open interval in both axes.
pub fn collides_with(src: &Rect, other: &Rect) -> (r: bool)
    ensures
        r == overlaps(*src, *other),
{
    let a_left: i64 = src.x as i64;
    let a_right: i64 = src.x as i64 + src.width as i64;
    let a_top: i64 = src.y as i64;
    let a_bottom: i64 = src.y as i64 + src.height as i64;
    let b_left: i64 = other.x as i64;
    let b_right: i64 = other.x as i64 + other.width as i64;
    let b_top: i64 = other.y as i64;
    let b_bottom: i64 = other.y as i64 + other.height as i64;
    a_left < b_right && a_right > b_left && a_top < b_bottom && a_bottom > b_top
}

/// Rectangle overlap is symmetric.
pub proof fn lemma_overlaps_symmetric(a: Rect, b: Rect)
    ensures
        overlaps(a, b) == overlaps(b, a),
{
}

/// Rectangles that touch along an edge, without their interiors meeting,
/// do not overlap.
pub proof fn lemma_touching_edges_do_not_overlap(a: Rect, b: Rect)
    requires
        a.spec_right() == b.spec_left() || b.spec_right() == a.spec_left()
            || a.spec_bottom() == b.spec_top() || b.spec_bottom() == a.spec_top(),
    ensures
        !overlaps(a, b),
{
}

pub open spec fn abs_val(a: int) -> int {
    if a >= 0 {
        a
    } else {
        -a
    }
}

/// How far the mover's right edge lies past the other's left edge.
pub open spec fn pen_right(moving: Rect, other: Rect) -> int {
    moving.spec_right() - other.spec_left()
}

/// How far the other's right edge lies past the mover's left edge.
pub open spec fn pen_left(moving: Rect, other: Rect) -> int {
    other.spec_right() - moving.spec_left()
}

/// How far the other's bottom edge lies past the mover's top edge.
pub open spec fn pen_top(moving: Rect, other: Rect) -> int {
    other.spec_bottom() - moving.spec_top()
}

/// How far the mover's bottom edge lies past the other's top edge.
pub open spec fn pen_bottom(moving: Rect, other: Rect) -> int {
    moving.spec_bottom() - other.spec_top()
}

/// The smallest of the four penetration magnitudes.
pub open spec fn min_penetration(moving: Rect, other: Rect) -> int {
    let r = abs_val(pen_right(moving, other));
    let l = abs_val(pen_left(moving, other));
    let t = abs_val(pen_top(moving, other));
    let b = abs_val(pen_bottom(moving, other));
    let m1 = if r <= l {
        r
    } else {
        l
    };
    let m2 = if t <= b {
        t
    } else {
        b
    };
    if m1 <= m2 {
        m1
    } else {
        m2
    }
}

/// The side with the smallest penetration magnitude; ties go to `Right`,
/// then `Left`, then `Top`, then `Bottom`.
pub open spec fn resolved_side(moving: Rect, other: Rect) -> Sides {
    let m = min_penetration(moving, other);
    if m == abs_val(pen_right(moving, other)) {
        Sides::Right
    } else if m == abs_val(pen_left(moving, other)) {
        Sides::Left
    } else if m == abs_val(pen_top(moving, other)) {
        Sides::Top
    } else {
        Sides::Bottom
    }
}

/// The magnitude of the penetration on the side picked by `resolved_side`.
pub open spec fn penetration_of_side(moving: Rect, other: Rect, side: Sides) -> int {
    match side {
        Sides::Right => abs_val(pen_right(moving, other)),
        Sides::Left => abs_val(pen_left(moving, other)),
        Sides::Top => abs_val(pen_top(moving, other)),
        Sides::Bottom => abs_val(pen_bottom(moving, other)),
        Sides::NoContact => 0,
    }
}

fn abs_i64(a: i64) -> (r: i64)
    requires
        -0x4000_0000_0000_0000 <= a <= 0x4000_0000_0000_0000,
    ensures
        r == abs_val(a as int),
{
    if a >= 0 {
        a
    } else {
        -a
    }
}

/// Given a mover that has been advanced past `other`, picks the contact side
/// whose penetration depth is smallest in magnitude — the "smallest
/// displacement wins" heuristic for post-movement contact classification.
pub fn resolve_side(moving: &Rect, other: &Rect) -> (r: Sides)
    ensures
        r == resolved_side(*moving, *other),
        penetration_of_side(*moving, *other, r) == min_penetration(*moving, *other),
{
    let amt_right: i64 = moving.x as i64 + moving.width as i64 - other.x as i64;
    let amt_left: i64 = other.x as i64 + other.width as i64 - moving.x as i64;
    let amt_top: i64 = other.y as i64 + other.height as i64 - moving.y as i64;
    let amt_bottom: i64 = moving.y as i64 + moving.height as i64 - other.y as i64;

    let r = abs_i64(amt_right);
    let l = abs_i64(amt_left);
    let t = abs_i64(amt_top);
    let b = abs_i64(amt_bottom);

    let m1 = if r <= l {
        r
    } else {
        l
    };
    let m2 = if t <= b {
        t
    } else {
        b
    };
    let min_val = if m1 <= m2 {
        m1
    } else {
        m2
    };

    if min_val == r {
        Sides::Right
    } else if min_val == l {
        Sides::Left
    } else if min_val == t {
        Sides::Top
    } else {
        Sides::Bottom
    }
}

} // verus!
