use vstd::prelude::*;

verus! {

/// A point (or offset) of the mathematical model: three exact integers.
pub struct Point {
    pub x: int,
    pub y: int,
    pub z: int,
}

/// Component-wise sum of two model points.
pub open spec fn shift(p: Point, o: Point) -> Point {
    Point { x: p.x + o.x, y: p.y + o.y, z: p.z + o.z }
}

/// Whether an integer can be held in an `i64`.
pub open spec fn in_i64(v: int) -> bool {
    i64::MIN <= v <= i64::MAX
}

/// Whether every component of a model point can be held in an `i64`.
pub open spec fn point_fits(p: Point) -> bool {
    in_i64(p.x) && in_i64(p.y) && in_i64(p.z)
}

/// A point in space, or an offset to move by.
#[derive(Debug, Clone, Copy, PartialEq, Eq, Structural)]
pub struct Vec3 {
    pub x: i64,
    pub y: i64,
    pub z: i64,
}

impl View for Vec3 {
    type V = Point;

    open spec fn view(&self) -> Point {
        Point { x: self.x as int, y: self.y as int, z: self.z as int }
    }
}

impl Vec3 {
    pub fn new(x: i64, y: i64, z: i64) -> (r: Vec3)
        ensures
            r.x == x,
            r.y == y,
            r.z == z,
    {
        Vec3 { x, y, z }
    }

    /// The component-wise sum; neither operand changes.
    pub fn add(&self, other: Vec3) -> (r: Vec3)
        requires
            point_fits(shift(self@, other@)),
        ensures
            r@ == shift(self@, other@),
    {
        Vec3 { x: self.x + other.x, y: self.y + other.y, z: self.z + other.z }
    }
}

/// A triangle: three corners, in winding order.
#[derive(Debug, Clone, Copy)]
pub struct Face {
    pub vertices: [Vec3; 3],
}

impl View for Face {
    type V = Seq<Point>;

    open spec fn view(&self) -> Seq<Point> {
        self.vertices@.map_values(|v: Vec3| v@)
    }
}

/// Every corner of a model triangle moved by `o`.
pub open spec fn shift_face(f: Seq<Point>, o: Point) -> Seq<Point> {
    f.map_values(|p: Point| shift(p, o))
}

/// Whether every corner of `f`, moved by `o`, still fits in `i64` components.
pub open spec fn face_shift_fits(f: Seq<Point>, o: Point) -> bool {
    forall|j: int| 0 <= j < f.len() ==> #[trigger] point_fits(shift(f[j], o))
}

impl Face {
    /// The triangle with each corner moved by `offset`.
    pub fn moved(&self, offset: Vec3) -> (r: Face)
        requires
            face_shift_fits(self@, offset@),
        ensures
            r@ == shift_face(self@, offset@),
    {
        proof {
            assert(point_fits(shift(self@[0], offset@)));
            assert(point_fits(shift(self@[1], offset@)));
            assert(point_fits(shift(self@[2], offset@)));
        }
        let a = self.vertices[0].add(offset);
        let b = self.vertices[1].add(offset);
        let c = self.vertices[2].add(offset);
        let r = Face { vertices: [a, b, c] };
        assert(r@ =~= shift_face(self@, offset@));
        r
    }
}

} // verus!
