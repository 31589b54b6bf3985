use vstd::prelude::*;
use crate::geometry::{Face, Point, Vec3};
use crate::mesh::{MeshModel, Part};

verus! {

/// The decimal digit character for `d` in `0..10`.
pub open spec fn digit_char(d: int) -> char {
    seq!['0', '1', '2', '3', '4', '5', '6', '7', '8', '9'][d]
}

/// The decimal digits of `n`, most significant first, without leading zeros.
pub open spec fn nat_text(n: nat) -> Seq<char>
    decreases n,
{
    if n < 10 {
        seq![digit_char(n as int)]
    } else {
        nat_text(n / 10) + seq![digit_char((n % 10) as int)]
    }
}

/// The decimal text of `v`, with a leading `-` when it is negative.
pub open spec fn int_text(v: int) -> Seq<char> {
    if v < 0 {
        seq!['-'] + nat_text((-v) as nat)
    } else {
        nat_text(v as nat)
    }
}

/// The line that lists one corner of a triangle.
pub open spec fn vertex_line(p: Point) -> Seq<char> {
    "      vertex "@ + int_text(p.x) + " "@ + int_text(p.y) + " "@ + int_text(p.z)
}

/// The seven lines of one facet block; the normal is always written as `0 0 0`.
pub open spec fn facet_lines(f: Seq<Point>) -> Seq<Seq<char>> {
    seq![
        "  facet normal 0 0 0"@,
        "    outer loop"@,
        vertex_line(f[0]),
        vertex_line(f[1]),
        vertex_line(f[2]),
        "    endloop"@,
        "  endfacet"@,
    ]
}

/// The facet blocks of `fs`, in order.
pub open spec fn facets_lines(fs: Seq<Seq<Point>>) -> Seq<Seq<char>>
    decreases fs.len(),
{
    if fs.len() == 0 {
        Seq::empty()
    } else {
        facets_lines(fs.drop_last()) + facet_lines(fs.last())
    }
}

/// The lines of the ASCII STL rendering of `m`.
pub open spec fn stl_lines(m: MeshModel) -> Seq<Seq<char>> {
    seq!["solid "@ + m.name] + facets_lines(m.faces) + seq!["endsolid "@ + m.name]
}

/// The lines joined, each one followed by a newline.
pub open spec fn text_of(lines: Seq<Seq<char>>) -> Seq<char>
    decreases lines.len(),
{
    if lines.len() == 0 {
        Seq::empty()
    } else {
        text_of(lines.drop_last()) + lines.last() + "\n"@
    }
}

/// The ASCII STL text of `m`.
pub open spec fn stl_text(m: MeshModel) -> Seq<char> {
    text_of(stl_lines(m))
}

proof fn lemma_text_of_concat(a: Seq<Seq<char>>, b: Seq<Seq<char>>)
    ensures
        text_of(a + b) == text_of(a) + text_of(b),
    decreases b.len(),
{
    if b.len() == 0 {
        assert(a + b =~= a);
        assert(text_of(b) =~= Seq::empty());
        assert(text_of(a) + text_of(b) =~= text_of(a));
    } else {
        assert((a + b).drop_last() =~= a + b.drop_last());
        lemma_text_of_concat(a, b.drop_last());
        assert(text_of(a + b) =~= text_of(a) + text_of(b));
    }
}

/// The text of the one digit `d`.
fn digit_str(d: u64) -> (r: &'static str)
    requires
        d < 10,
    ensures
        r@ == seq![digit_char(d as int)],
{
    proof {
        reveal_strlit("0");
        reveal_strlit("1");
        reveal_strlit("2");
        reveal_strlit("3");
        reveal_strlit("4");
        reveal_strlit("5");
        reveal_strlit("6");
        reveal_strlit("7");
        reveal_strlit("8");
        reveal_strlit("9");
    }
    if d == 0 {
        "0"
    } else if d == 1 {
        "1"
    } else if d == 2 {
        "2"
    } else if d == 3 {
        "3"
    } else if d == 4 {
        "4"
    } else if d == 5 {
        "5"
    } else if d == 6 {
        "6"
    } else if d == 7 {
        "7"
    } else if d == 8 {
        "8"
    } else {
        "9"
    }
}

/// Appends the decimal digits of `n`.
fn push_nat(out: &mut String, n: u64)
    ensures
        final(out)@ == old(out)@ + nat_text(n as nat),
    decreases n,
{
    if n >= 10 {
        push_nat(out, n / 10);
    }
    out.append(digit_str(n % 10));
    assert(final(out)@ =~= old(out)@ + nat_text(n as nat));
}

/// Appends the decimal text of `v`.
fn push_int(out: &mut String, v: i64)
    ensures
        final(out)@ == old(out)@ + int_text(v as int),
{
    if v < 0 {
        proof {
            reveal_strlit("-");
        }
        out.append("-");
        let m: u64 = (0i128 - v as i128) as u64;
        push_nat(out, m);
        assert(final(out)@ =~= old(out)@ + int_text(v as int));
    } else {
        push_nat(out, v as u64);
    }
}

/// Appends `line` and a newline.
fn push_line(out: &mut String, line: &str)
    ensures
        final(out)@ == old(out)@ + line@ + "\n"@,
{
    out.append(line);
    out.append("\n");
}

/// Appends the line that lists the corner `v`, and a newline.
fn push_vertex_line(out: &mut String, v: Vec3)
    ensures
        final(out)@ == old(out)@ + vertex_line(v@) + "\n"@,
{
    out.append("      vertex ");
    push_int(out, v.x);
    out.append(" ");
    push_int(out, v.y);
    out.append(" ");
    push_int(out, v.z);
    out.append("\n");
    assert(final(out)@ =~= old(out)@ + vertex_line(v@) + "\n"@);
}

/// Appends the facet block of `f`.
fn push_facet(out: &mut String, f: &Face)
    ensures
        final(out)@ == old(out)@ + text_of(facet_lines(f@)),
{
    push_line(out, "  facet normal 0 0 0");
    push_line(out, "    outer loop");
    push_vertex_line(out, f.vertices[0]);
    push_vertex_line(out, f.vertices[1]);
    push_vertex_line(out, f.vertices[2]);
    push_line(out, "    endloop");
    push_line(out, "  endfacet");
    proof {
        let ls = facet_lines(f@);
        reveal_with_fuel(text_of, 8);
        assert(ls.drop_last().drop_last().drop_last().drop_last().drop_last().drop_last().drop_last()
            =~= Seq::<Seq<char>>::empty());
        assert(final(out)@ =~= old(out)@ + text_of(ls));
    }
}

impl Part {
    /// The ASCII STL text of this mesh: a `solid` line, one facet block per
    /// triangle in order, and an `endsolid` line.
    pub fn to_stl(&self) -> (r: String)
        ensures
            r@ == stl_text(self@),
    {
        let mut out = String::new();
        out.append("solid ");
        out.append(self.name.as_str());
        out.append("\n");
        let ghost head = seq!["solid "@ + self@.name];
        proof {
            assert(head.drop_last() =~= Seq::<Seq<char>>::empty());
            assert(text_of(Seq::<Seq<char>>::empty()) =~= Seq::empty());
            assert(text_of(head) =~= "solid "@ + self@.name + "\n"@);
        }
        let n = self.faces.len();
        let mut i: usize = 0;
        while i < n
            invariant
                n == self.faces@.len(),
                i <= n,
                out@ == text_of(head + facets_lines(self@.faces.take(i as int))),
            decreases n - i,
        {
            let ghost before = out@;
            push_facet(&mut out, &self.faces[i]);
            proof {
                let fs = self@.faces;
                assert(fs.take(i + 1).drop_last() =~= fs.take(i as int));
                assert(facets_lines(fs.take(i + 1)) == facets_lines(fs.take(i as int)) + facet_lines(fs[i as int]));
                assert(head + facets_lines(fs.take(i + 1)) =~= (head + facets_lines(fs.take(i as int)))
                    + facet_lines(fs[i as int]));
                lemma_text_of_concat(head + facets_lines(fs.take(i as int)), facet_lines(fs[i as int]));
            }
            i += 1;
        }
        let ghost body = head + facets_lines(self@.faces);
        proof {
            assert(self@.faces.take(n as int) =~= self@.faces);
        }
        out.append("endsolid ");
        out.append(self.name.as_str());
        out.append("\n");
        proof {
            let tail = seq!["endsolid "@ + self@.name];
            assert(tail.drop_last() =~= Seq::<Seq<char>>::empty());
            lemma_text_of_concat(body, tail);
            assert(body + tail =~= stl_lines(self@));
            assert(out@ =~= stl_text(self@));
        }
        out
    }
}

proof fn lemma_facets_lines_index(fs: Seq<Seq<Point>>)
    ensures
        facets_lines(fs).len() == 7 * fs.len(),
        forall|i: int, k: int|
            0 <= i < fs.len() && 0 <= k < 7 ==> #[trigger] facets_lines(fs)[7 * i + k] == facet_lines(
                fs[i],
            )[k],
    decreases fs.len(),
{
    if fs.len() > 0 {
        let init = fs.drop_last();
        lemma_facets_lines_index(init);
        assert forall|i: int, k: int| 0 <= i < fs.len() && 0 <= k < 7 implies #[trigger] facets_lines(
            fs,
        )[7 * i + k] == facet_lines(fs[i])[k] by {
            if i < init.len() {
                assert(facets_lines(init)[7 * i + k] == facet_lines(init[i])[k]);
            }
        }
    }
}

/// The STL text is a `solid <name>` line, the facets' lines, and an
/// `endsolid <name>` line. Its lines are `7 n + 2` for `n` triangles: triangle
/// `i` has the block of lines `7 i + 1` to `7 i + 7`, which opens with
/// `facet normal 0 0 0`, lists the triangle's three corners in order and
/// closes with `endfacet`.
pub proof fn lemma_stl_layout(m: MeshModel)
    ensures
        stl_text(m) == ("solid "@ + m.name + "\n"@) + text_of(facets_lines(m.faces)) + ("endsolid "@
            + m.name + "\n"@),
        stl_text(m) == text_of(stl_lines(m)),
        stl_lines(m).len() == 7 * m.faces.len() + 2,
        stl_lines(m)[0] == "solid "@ + m.name,
        stl_lines(m)[7 * m.faces.len() as int + 1] == "endsolid "@ + m.name,
        forall|i: int|
            0 <= i < m.faces.len() ==> {
                &&& #[trigger] stl_lines(m)[7 * i + 1] == "  facet normal 0 0 0"@
                &&& stl_lines(m)[7 * i + 2] == "    outer loop"@
                &&& stl_lines(m)[7 * i + 3] == vertex_line(m.faces[i][0])
                &&& stl_lines(m)[7 * i + 4] == vertex_line(m.faces[i][1])
                &&& stl_lines(m)[7 * i + 5] == vertex_line(m.faces[i][2])
                &&& stl_lines(m)[7 * i + 6] == "    endloop"@
                &&& stl_lines(m)[7 * i + 7] == "  endfacet"@
            },
{
    let head = seq!["solid "@ + m.name];
    let tail = seq!["endsolid "@ + m.name];
    let body = facets_lines(m.faces);
    lemma_facets_lines_index(m.faces);
    lemma_text_of_concat(head + body, tail);
    lemma_text_of_concat(head, body);
    assert(head.drop_last() =~= Seq::<Seq<char>>::empty());
    assert(tail.drop_last() =~= Seq::<Seq<char>>::empty());
    assert(text_of(Seq::<Seq<char>>::empty()) =~= Seq::empty());
    assert(text_of(head) =~= "solid "@ + m.name + "\n"@);
    assert(text_of(tail) =~= "endsolid "@ + m.name + "\n"@);
    assert forall|i: int| 0 <= i < m.faces.len() implies {
        &&& #[trigger] stl_lines(m)[7 * i + 1] == "  facet normal 0 0 0"@
        &&& stl_lines(m)[7 * i + 2] == "    outer loop"@
        &&& stl_lines(m)[7 * i + 3] == vertex_line(m.faces[i][0])
        &&& stl_lines(m)[7 * i + 4] == vertex_line(m.faces[i][1])
        &&& stl_lines(m)[7 * i + 5] == vertex_line(m.faces[i][2])
        &&& stl_lines(m)[7 * i + 6] == "    endloop"@
        &&& stl_lines(m)[7 * i + 7] == "  endfacet"@
    } by {
        assert(body[7 * i + 0] == facet_lines(m.faces[i])[0]);
        assert(body[7 * i + 1] == facet_lines(m.faces[i])[1]);
        assert(body[7 * i + 2] == facet_lines(m.faces[i])[2]);
        assert(body[7 * i + 3] == facet_lines(m.faces[i])[3]);
        assert(body[7 * i + 4] == facet_lines(m.faces[i])[4]);
        assert(body[7 * i + 5] == facet_lines(m.faces[i])[5]);
        assert(body[7 * i + 6] == facet_lines(m.faces[i])[6]);
    }
}

/// A mesh without triangles renders as its `solid` and `endsolid` lines alone.
pub proof fn lemma_stl_empty(name: Seq<char>)
    ensures
        stl_text(MeshModel { name, faces: Seq::empty() }) == "solid "@ + name + "\n"@ + "endsolid "@
            + name + "\n"@,
{
    let m = MeshModel { name, faces: Seq::empty() };
    lemma_stl_layout(m);
    assert(facets_lines(m.faces) =~= Seq::empty());
    assert(text_of(Seq::<Seq<char>>::empty()) =~= Seq::empty());
    assert(stl_text(m) =~= "solid "@ + name + "\n"@ + "endsolid "@ + name + "\n"@);
}

} // verus!
