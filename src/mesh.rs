use vstd::prelude::*;
use crate::geometry::{Face, Point, Vec3, face_shift_fits, point_fits, shift, shift_face};

verus! {

/// The mathematical model of a mesh: its name and its triangles in order.
pub struct MeshModel {
    pub name: Seq<char>,
    pub faces: Seq<Seq<Point>>,
}

/// Every triangle of `faces` moved by `o`, in the same order.
pub open spec fn shifted(faces: Seq<Seq<Point>>, o: Point) -> Seq<Seq<Point>> {
    faces.map_values(|f: Seq<Point>| shift_face(f, o))
}

/// Whether every corner of every triangle, moved by `o`, still fits in `i64` components.
pub open spec fn can_shift(faces: Seq<Seq<Point>>, o: Point) -> bool {
    forall|i: int| 0 <= i < faces.len() ==> #[trigger] face_shift_fits(faces[i], o)
}

/// The model point with the given components.
pub open spec fn pt(x: int, y: int, z: int) -> Point {
    Point { x, y, z }
}

/// The eight corners of the box from the origin to `(w, h, d)`: the bottom
/// (z = 0) counter-clockwise seen from above, then the same pattern at z = d.
pub open spec fn corners(w: int, h: int, d: int) -> Seq<Point> {
    seq![
        pt(0, 0, 0), pt(w, 0, 0), pt(w, h, 0), pt(0, h, 0),
        pt(0, 0, d), pt(w, 0, d), pt(w, h, d), pt(0, h, d),
    ]
}

/// A quadrilateral `a b c e` of `c8`, split along its `a`-`c` diagonal into
/// `(a, b, c)` and `(a, c, e)`.
pub open spec fn quad(c8: Seq<Point>, a: int, b: int, c: int, e: int) -> Seq<Seq<Point>> {
    seq![seq![c8[a], c8[b], c8[c]], seq![c8[a], c8[c], c8[e]]]
}

/// The twelve triangles of the box: bottom, top, front, right, back, left.
pub open spec fn box_faces(w: int, h: int, d: int) -> Seq<Seq<Point>> {
    let c8 = corners(w, h, d);
    quad(c8, 0, 1, 2, 3) + quad(c8, 4, 5, 6, 7) + quad(c8, 0, 1, 5, 4)
        + quad(c8, 1, 2, 6, 5) + quad(c8, 2, 3, 7, 6) + quad(c8, 3, 0, 4, 7)
}

/// A named triangle mesh.
pub struct Part {
    pub name: String,
    pub faces: Vec<Face>,
}

impl View for Part {
    type V = MeshModel;

    open spec fn view(&self) -> MeshModel {
        MeshModel { name: self.name@, faces: self.faces@.map_values(|f: Face| f@) }
    }
}

/// Appends the two triangles of the quadrilateral `i1 i2 i3 i4` of `v`.
fn add_quad(faces: &mut Vec<Face>, v: &[Vec3; 8], i1: usize, i2: usize, i3: usize, i4: usize)
    requires
        i1 < 8,
        i2 < 8,
        i3 < 8,
        i4 < 8,
    ensures
        final(faces)@.map_values(|f: Face| f@) == old(faces)@.map_values(|f: Face| f@) + quad(
            v@.map_values(|p: Vec3| p@),
            i1 as int,
            i2 as int,
            i3 as int,
            i4 as int,
        ),
{
    let a = Face { vertices: [v[i1], v[i2], v[i3]] };
    let b = Face { vertices: [v[i1], v[i3], v[i4]] };
    faces.push(a);
    faces.push(b);
    proof {
        let c8 = v@.map_values(|p: Vec3| p@);
        assert(a@ =~= seq![c8[i1 as int], c8[i2 as int], c8[i3 as int]]);
        assert(b@ =~= seq![c8[i1 as int], c8[i3 as int], c8[i4 as int]]);
        assert(final(faces)@.map_values(|f: Face| f@) =~= old(faces)@.map_values(|f: Face| f@)
            + quad(c8, i1 as int, i2 as int, i3 as int, i4 as int));
    }
}

impl Part {
    /// An empty mesh with the given name.
    pub fn new(name: &str) -> (r: Part)
        ensures
            r@ == (MeshModel { name: name@, faces: Seq::empty() }),
    {
        let r = Part { name: name.to_owned(), faces: Vec::new() };
        assert(r@.faces =~= Seq::empty());
        r
    }

    /// The axis-aligned box with one corner at the origin and the opposite
    /// corner at `(width, height, depth)`, as twelve triangles.
    pub fn create_box(name: &str, width: i64, height: i64, depth: i64) -> (r: Part)
        ensures
            r@ == (MeshModel { name: name@, faces: box_faces(width as int, height as int, depth as int) }),
    {
        let mut part = Part::new(name);
        let v: [Vec3; 8] = [
            Vec3::new(0, 0, 0), Vec3::new(width, 0, 0),
            Vec3::new(width, height, 0), Vec3::new(0, height, 0),
            Vec3::new(0, 0, depth), Vec3::new(width, 0, depth),
            Vec3::new(width, height, depth), Vec3::new(0, height, depth),
        ];
        assert(v@.map_values(|p: Vec3| p@) =~= corners(width as int, height as int, depth as int));
        add_quad(&mut part.faces, &v, 0, 1, 2, 3);
        add_quad(&mut part.faces, &v, 4, 5, 6, 7);
        add_quad(&mut part.faces, &v, 0, 1, 5, 4);
        add_quad(&mut part.faces, &v, 1, 2, 6, 5);
        add_quad(&mut part.faces, &v, 2, 3, 7, 6);
        add_quad(&mut part.faces, &v, 3, 0, 4, 7);
        assert(part@.faces =~= box_faces(width as int, height as int, depth as int));
        part
    }

    /// Whether `translate(offset)` keeps every coordinate within `i64`.
    pub fn can_translate(&self, offset: Vec3) -> (r: bool)
        ensures
            r == can_shift(self@.faces, offset@),
    {
        let n = self.faces.len();
        let mut i: usize = 0;
        while i < n
            invariant
                n == self.faces@.len(),
                i <= n,
                forall|k: int| 0 <= k < i ==> #[trigger] face_shift_fits(self@.faces[k], offset@),
            decreases n - i,
        {
            let f = self.faces[i];
            let mut j: usize = 0;
            while j < 3
                invariant
                    n == self.faces@.len(),
                    i < n,
                    f@ == self@.faces[i as int],
                    forall|k: int| 0 <= k < i ==> #[trigger] face_shift_fits(self@.faces[k], offset@),
                    j <= 3,
                    f@.len() == 3,
                    forall|t: int| 0 <= t < j ==> #[trigger] point_fits(shift(f@[t], offset@)),
                decreases 3 - j,
            {
                let v = f.vertices[j];
                let x = v.x as i128 + offset.x as i128;
                let y = v.y as i128 + offset.y as i128;
                let z = v.z as i128 + offset.z as i128;
                if x < i64::MIN as i128 || x > i64::MAX as i128 || y < i64::MIN as i128 || y
                    > i64::MAX as i128 || z < i64::MIN as i128 || z > i64::MAX as i128 {
                    assert(!point_fits(shift(f@[j as int], offset@)));
                    assert(!face_shift_fits(self@.faces[i as int], offset@));
                    return false;
                }
                j += 1;
            }
            assert(face_shift_fits(self@.faces[i as int], offset@));
            i += 1;
        }
        true
    }

    /// Moves every corner of every triangle by `offset`.
    pub fn translate(&mut self, offset: Vec3)
        requires
            can_shift(old(self)@.faces, offset@),
        ensures
            final(self)@ == (MeshModel {
                name: old(self)@.name,
                faces: shifted(old(self)@.faces, offset@),
            }),
    {
        let n = self.faces.len();
        let mut i: usize = 0;
        while i < n
            invariant
                n == self.faces@.len(),
                n == old(self).faces@.len(),
                i <= n,
                self.name == old(self).name,
                forall|k: int| 0 <= k < i ==> #[trigger] self@.faces[k] == shift_face(old(self)@.faces[k], offset@),
                forall|k: int| i <= k < n ==> #[trigger] self@.faces[k] == old(self)@.faces[k],
                can_shift(old(self)@.faces, offset@),
            decreases n - i,
        {
            assert(face_shift_fits(old(self)@.faces[i as int], offset@));
            assert(self@.faces[i as int] == old(self)@.faces[i as int]);
            let f = self.faces[i].moved(offset);
            let ghost before = self@.faces;
            self.faces.set(i, f);
            assert(self@.faces =~= before.update(i as int, f@));
            i += 1;
        }
        assert(self@.faces =~= shifted(old(self)@.faces, offset@));
    }
}

/// Translating by `a` and then by `b` moves every corner as translating once
/// by `a + b` does.
pub proof fn lemma_translate_compose(faces: Seq<Seq<Point>>, a: Point, b: Point)
    ensures
        shifted(shifted(faces, a), b) == shifted(faces, shift(a, b)),
{
    assert forall|i: int| 0 <= i < faces.len() implies #[trigger] shifted(shifted(faces, a), b)[i]
        == shifted(faces, shift(a, b))[i] by {
        assert(shifted(shifted(faces, a), b)[i] =~= shifted(faces, shift(a, b))[i]);
    }
    assert(shifted(shifted(faces, a), b) =~= shifted(faces, shift(a, b)));
}

/// Translating by the zero offset leaves every corner where it was.
pub proof fn lemma_translate_zero(faces: Seq<Seq<Point>>)
    ensures
        shifted(faces, pt(0, 0, 0)) == faces,
{
    assert forall|i: int| 0 <= i < faces.len() implies #[trigger] shifted(faces, pt(0, 0, 0))[i]
        == faces[i] by {
        assert(shifted(faces, pt(0, 0, 0))[i] =~= faces[i]);
    }
    assert(shifted(faces, pt(0, 0, 0)) =~= faces);
}

/// With positive extents the box has twelve triangles of three corners each
/// (36 corner entries), whose corners are exactly the eight distinct box corners.
pub proof fn lemma_box_shape(w: int, h: int, d: int)
    requires
        w > 0,
        h > 0,
        d > 0,
    ensures
        box_faces(w, h, d).len() == 12,
        forall|i: int| 0 <= i < 12 ==> #[trigger] box_faces(w, h, d)[i].len() == 3,
        forall|i: int, j: int|
            0 <= i < 12 && 0 <= j < 3 ==> corners(w, h, d).contains(#[trigger] box_faces(w, h, d)[i][j]),
        forall|k: int|
            0 <= k < 8 ==> exists|i: int, j: int|
                0 <= i < 12 && 0 <= j < 3 && #[trigger] box_faces(w, h, d)[i][j] == #[trigger] corners(w, h, d)[k],
        forall|k1: int, k2: int|
            0 <= k1 < 8 && 0 <= k2 < 8 && k1 != k2 ==> #[trigger] corners(w, h, d)[k1] != #[trigger] corners(w, h, d)[k2],
{
    let c8 = corners(w, h, d);
    let fs = box_faces(w, h, d);
    lemma_box_faces_in_corners(w, h, d);
    assert forall|k: int| 0 <= k < 8 implies exists|i: int, j: int|
        0 <= i < 12 && 0 <= j < 3 && #[trigger] fs[i][j] == #[trigger] c8[k] by {
        if k == 0 {
            assert(fs[0][0] == c8[0]);
        } else if k == 1 {
            assert(fs[0][1] == c8[1]);
        } else if k == 2 {
            assert(fs[0][2] == c8[2]);
        } else if k == 3 {
            assert(fs[1][2] == c8[3]);
        } else if k == 4 {
            assert(fs[2][0] == c8[4]);
        } else if k == 5 {
            assert(fs[2][1] == c8[5]);
        } else if k == 6 {
            assert(fs[2][2] == c8[6]);
        } else {
            assert(fs[3][2] == c8[7]);
        }
    }
}

/// After translating the box with non-negative extents by `o`, every corner
/// lies in `[o.x, o.x + w] x [o.y, o.y + h] x [o.z, o.z + d]`, and both ends
/// of each range are reached.
pub proof fn lemma_translated_box_bounds(w: int, h: int, d: int, o: Point)
    requires
        w >= 0,
        h >= 0,
        d >= 0,
    ensures
        forall|i: int, j: int|
            0 <= i < shifted(box_faces(w, h, d), o).len() && 0 <= j < shifted(box_faces(w, h, d), o)[i].len() ==> {
                let p = #[trigger] shifted(box_faces(w, h, d), o)[i][j];
                &&& o.x <= p.x <= o.x + w
                &&& o.y <= p.y <= o.y + h
                &&& o.z <= p.z <= o.z + d
            },
        exists|i: int, j: int|
            0 <= i < 12 && 0 <= j < 3 && #[trigger] shifted(box_faces(w, h, d), o)[i][j] == o,
        exists|i: int, j: int|
            0 <= i < 12 && 0 <= j < 3 && #[trigger] shifted(box_faces(w, h, d), o)[i][j] == shift(
                pt(w, h, d),
                o,
            ),
{
    let fs = box_faces(w, h, d);
    let c8 = corners(w, h, d);
    let t = shifted(fs, o);
    lemma_box_faces_in_corners(w, h, d);
    assert forall|i: int, j: int| 0 <= i < t.len() && 0 <= j < t[i].len() implies {
        let p = #[trigger] t[i][j];
        &&& o.x <= p.x <= o.x + w
        &&& o.y <= p.y <= o.y + h
        &&& o.z <= p.z <= o.z + d
    } by {
        assert(t[i][j] == shift(fs[i][j], o));
        assert(c8.contains(fs[i][j]));
    }
    assert(t[0][0] == o);
    assert(t[2][2] == shift(pt(w, h, d), o));
}

/// Before any translation, every corner of the box with non-negative extents
/// lies in `[0, w] x [0, h] x [0, d]`, and both ends of each range are reached.
pub proof fn lemma_box_bounds(w: int, h: int, d: int)
    requires
        w >= 0,
        h >= 0,
        d >= 0,
    ensures
        forall|i: int, j: int|
            0 <= i < box_faces(w, h, d).len() && 0 <= j < box_faces(w, h, d)[i].len() ==> {
                let p = #[trigger] box_faces(w, h, d)[i][j];
                &&& 0 <= p.x <= w
                &&& 0 <= p.y <= h
                &&& 0 <= p.z <= d
            },
        exists|i: int, j: int|
            0 <= i < 12 && 0 <= j < 3 && #[trigger] box_faces(w, h, d)[i][j] == pt(0, 0, 0),
        exists|i: int, j: int|
            0 <= i < 12 && 0 <= j < 3 && #[trigger] box_faces(w, h, d)[i][j] == pt(w, h, d),
{
    lemma_translated_box_bounds(w, h, d, pt(0, 0, 0));
    lemma_translate_zero(box_faces(w, h, d));
    assert(shift(pt(w, h, d), pt(0, 0, 0)) == pt(w, h, d));
}

/// Every corner entry of the box's triangles is one of its eight corners.
proof fn lemma_box_faces_in_corners(w: int, h: int, d: int)
    ensures
        box_faces(w, h, d).len() == 12,
        forall|i: int| 0 <= i < 12 ==> #[trigger] box_faces(w, h, d)[i].len() == 3,
        forall|i: int, j: int|
            0 <= i < 12 && 0 <= j < 3 ==> corners(w, h, d).contains(#[trigger] box_faces(w, h, d)[i][j]),
{
    let c8 = corners(w, h, d);
    let fs = box_faces(w, h, d);
    assert(fs =~= seq![
        seq![c8[0], c8[1], c8[2]], seq![c8[0], c8[2], c8[3]],
        seq![c8[4], c8[5], c8[6]], seq![c8[4], c8[6], c8[7]],
        seq![c8[0], c8[1], c8[5]], seq![c8[0], c8[5], c8[4]],
        seq![c8[1], c8[2], c8[6]], seq![c8[1], c8[6], c8[5]],
        seq![c8[2], c8[3], c8[7]], seq![c8[2], c8[7], c8[6]],
        seq![c8[3], c8[0], c8[4]], seq![c8[3], c8[4], c8[7]],
    ]);
    assert forall|i: int, j: int| 0 <= i < 12 && 0 <= j < 3 implies c8.contains(
        #[trigger] fs[i][j],
    ) by {
        assert(exists|k: int| 0 <= k < 8 && c8[k] == fs[i][j]);
    }
}

} // verus!
