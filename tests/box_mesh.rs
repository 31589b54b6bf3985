use box_mesh::geometry::{Face, Vec3};
use box_mesh::mesh::Part;

fn all_vertices(part: &Part) -> Vec<Vec3> {
    let mut out = Vec::new();
    for f in &part.faces {
        for v in &f.vertices {
            out.push(*v);
        }
    }
    out
}

fn bounds(vs: &[Vec3]) -> ((i64, i64, i64), (i64, i64, i64)) {
    let mut lo = (i64::MAX, i64::MAX, i64::MAX);
    let mut hi = (i64::MIN, i64::MIN, i64::MIN);
    for v in vs {
        lo = (lo.0.min(v.x), lo.1.min(v.y), lo.2.min(v.z));
        hi = (hi.0.max(v.x), hi.1.max(v.y), hi.2.max(v.z));
    }
    (lo, hi)
}

fn count_lines(text: &str, line: &str) -> usize {
    text.lines().filter(|l| *l == line).count()
}

#[test]
fn vec3_new_and_add() {
    let a = Vec3::new(1, -2, 3);
    let b = Vec3::new(10, 20, -30);
    assert_eq!(a.add(b), Vec3::new(11, 18, -27));
    assert_eq!(a, Vec3 { x: 1, y: -2, z: 3 });
    assert_eq!(b, Vec3 { x: 10, y: 20, z: -30 });
}

#[test]
fn new_part_is_empty() {
    let p = Part::new("Empty");
    assert_eq!(p.name, "Empty");
    assert!(p.faces.is_empty());
}

#[test]
fn create_box_has_twelve_triangles_and_eight_corners() {
    let p = Part::create_box("B", 2, 3, 4);
    assert_eq!(p.name, "B");
    assert_eq!(p.faces.len(), 12);
    let vs = all_vertices(&p);
    assert_eq!(vs.len(), 36);
    let mut distinct: Vec<Vec3> = Vec::new();
    for v in &vs {
        if !distinct.contains(v) {
            distinct.push(*v);
        }
    }
    assert_eq!(distinct.len(), 8);
    for x in [0, 2] {
        for y in [0, 3] {
            for z in [0, 4] {
                assert!(distinct.contains(&Vec3::new(x, y, z)));
            }
        }
    }
}

#[test]
fn create_box_first_quad_split_on_diagonal() {
    let p = Part::create_box("B", 5, 6, 7);
    assert_eq!(
        p.faces[0].vertices,
        [Vec3::new(0, 0, 0), Vec3::new(5, 0, 0), Vec3::new(5, 6, 0)]
    );
    assert_eq!(
        p.faces[1].vertices,
        [Vec3::new(0, 0, 0), Vec3::new(5, 6, 0), Vec3::new(0, 6, 0)]
    );
    assert_eq!(
        p.faces[11].vertices,
        [Vec3::new(0, 6, 0), Vec3::new(0, 0, 7), Vec3::new(0, 6, 7)]
    );
}

#[test]
fn box_bounds_before_translation() {
    let p = Part::create_box("B", 50, 10, 50);
    let (lo, hi) = bounds(&all_vertices(&p));
    assert_eq!(lo, (0, 0, 0));
    assert_eq!(hi, (50, 10, 50));
}

#[test]
fn box_bounds_after_translation() {
    let mut p = Part::create_box("B", 50, 10, 50);
    let o = Vec3::new(10, -5, 10);
    assert!(p.can_translate(o));
    p.translate(o);
    let (lo, hi) = bounds(&all_vertices(&p));
    assert_eq!(lo, (10, -5, 10));
    assert_eq!(hi, (60, 5, 60));
}

#[test]
fn translate_composes() {
    let mut twice = Part::create_box("C", 3, 4, 5);
    let mut once = Part::create_box("C", 3, 4, 5);
    let a = Vec3::new(1, 2, 3);
    let b = Vec3::new(-7, 11, 0);
    twice.translate(a);
    twice.translate(b);
    once.translate(a.add(b));
    assert_eq!(all_vertices(&twice), all_vertices(&once));
}

#[test]
fn translate_twice_by_same_offset_is_double() {
    let mut twice = Part::create_box("C", 3, 4, 5);
    let mut once = Part::create_box("C", 3, 4, 5);
    let a = Vec3::new(2, -3, 4);
    twice.translate(a);
    twice.translate(a);
    once.translate(Vec3::new(4, -6, 8));
    assert_eq!(all_vertices(&twice), all_vertices(&once));
}

#[test]
fn translate_by_zero_is_identity() {
    let mut p = Part::create_box("Z", 8, 9, 10);
    let before = all_vertices(&p);
    p.translate(Vec3::new(0, 0, 0));
    assert_eq!(all_vertices(&p), before);
    assert_eq!(p.name, "Z");
}

#[test]
fn can_translate_detects_overflow() {
    let p = Part::create_box("O", i64::MAX, 1, 1);
    assert!(!p.can_translate(Vec3::new(1, 0, 0)));
    assert!(p.can_translate(Vec3::new(-1, 0, 0)));
    assert!(!p.can_translate(Vec3::new(0, 0, i64::MAX)));
    assert!(p.can_translate(Vec3::new(i64::MIN, 0, 0)));
    assert!(Part::new("E").can_translate(Vec3::new(i64::MAX, i64::MAX, i64::MAX)));
}

#[test]
fn stl_layout_of_box() {
    let p = Part::create_box("T", 2, 3, 4);
    let text = p.to_stl();
    assert!(text.starts_with("solid T\n"));
    assert!(text.ends_with("endsolid T\n"));
    assert_eq!(text.lines().count(), 7 * 12 + 2);
    assert_eq!(count_lines(&text, "  facet normal 0 0 0"), 12);
    assert_eq!(count_lines(&text, "  endfacet"), 12);
    assert_eq!(count_lines(&text, "    endloop"), 12);
    for l in text.lines() {
        if l.contains("facet normal") {
            assert_eq!(l, "  facet normal 0 0 0");
        }
    }
}

#[test]
fn round_trip_scenario() {
    let mut p = Part::create_box("T", 2, 3, 4);
    p.translate(Vec3::new(1, 1, 1));
    let text = p.to_stl();
    assert_eq!(count_lines(&text, "    outer loop"), 12);
    let mut vs = Vec::new();
    for l in text.lines() {
        if let Some(rest) = l.strip_prefix("      vertex ") {
            let n: Vec<i64> = rest.split(' ').map(|t| t.parse().unwrap()).collect();
            assert_eq!(n.len(), 3);
            vs.push(Vec3::new(n[0], n[1], n[2]));
        }
    }
    assert_eq!(vs.len(), 36);
    let (lo, hi) = bounds(&vs);
    assert_eq!(lo, (1, 1, 1));
    assert_eq!(hi, (3, 4, 5));
}

#[test]
fn empty_mesh_stl() {
    assert_eq!(Part::new("E").to_stl(), "solid E\nendsolid E\n");
    assert_eq!(Part::new("").to_stl(), "solid \nendsolid \n");
}

#[test]
fn stl_of_one_triangle_is_exact() {
    let p = Part {
        name: "one".to_string(),
        faces: vec![Face {
            vertices: [Vec3::new(0, 0, 0), Vec3::new(-15, 100, 7), Vec3::new(9, 10, -1234567)],
        }],
    };
    let expected = "solid one\n  facet normal 0 0 0\n    outer loop\n      vertex 0 0 0\n      vertex -15 100 7\n      vertex 9 10 -1234567\n    endloop\n  endfacet\nendsolid one\n";
    assert_eq!(p.to_stl(), expected);
}

#[test]
fn stl_numbers_at_the_limits() {
    let p = Part {
        name: "lim".to_string(),
        faces: vec![Face {
            vertices: [Vec3::new(i64::MIN, i64::MAX, -1), Vec3::new(10, -10, 99), Vec3::new(1, 0, -9)],
        }],
    };
    let text = p.to_stl();
    let expected_line = format!("      vertex {} {} {}", i64::MIN, i64::MAX, -1);
    assert_eq!(expected_line, "      vertex -9223372036854775808 9223372036854775807 -1");
    assert_eq!(count_lines(&text, &expected_line), 1);
    assert_eq!(count_lines(&text, "      vertex 10 -10 99"), 1);
    assert_eq!(count_lines(&text, "      vertex 1 0 -9"), 1);
}

#[test]
fn translated_bracket_first_facet() {
    let mut p = Part::create_box("AngleBracket", 50, 10, 50);
    p.translate(Vec3::new(10, 0, 10));
    let text = p.to_stl();
    let head = "solid AngleBracket\n  facet normal 0 0 0\n    outer loop\n      vertex 10 0 10\n      vertex 60 0 10\n      vertex 60 10 10\n    endloop\n  endfacet\n";
    assert!(text.starts_with(head));
    assert!(text.ends_with("endsolid AngleBracket\n"));
}
