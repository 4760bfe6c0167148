use cpu_renderer::mesh::{append_obj_model, obj_model_in_bounds, push_quad, Mesh, Vertex};

#[test]
fn quad_is_two_triangles() {
    let mut v: Vec<Vertex<char, (u8, u8)>> = Vec::new();
    push_quad(&mut v, 'a', 'b', 'c', 'd', 7, [0, 1, 2, 3]);
    let got: Vec<(char, u8, u8)> = v.iter().map(|x| (x.position, x.varying.0, x.varying.1)).collect();
    assert_eq!(
        got,
        vec![('a', 7, 0), ('c', 7, 2), ('b', 7, 1), ('a', 7, 0), ('d', 7, 3), ('c', 7, 2)]
    );
}

fn corner(i: usize) -> (i32, i32, i32) {
    ((i % 2) as i32 * 2 - 1, ((i / 2) % 2) as i32 * 2 - 1, (i / 4) as i32 * 2 - 1)
}

#[test]
fn cube_has_twelve_outward_triangles() {
    let corners = [0, 1, 2, 3, 4, 5, 6, 7].map(corner);
    let normals = [(0, 0, 1), (0, 0, -1), (-1, 0, 0), (1, 0, 0), (0, 1, 0), (0, -1, 0)];
    let cube = Mesh::cube(corners, normals, ['0', '1', '2', '3']);
    assert_eq!(cube.vertices.len(), 36);
    for t in 0..12 {
        let tri = &cube.vertices[3 * t..3 * t + 3];
        let n = tri[0].varying.0;
        for v in tri {
            assert_eq!(v.varying.0, n);
            let p = v.position;
            // every corner lies on the face the normal points out of
            assert_eq!(p.0 * n.0 + p.1 * n.1 + p.2 * n.2, 1);
        }
        // every triangle winds the same way: (b - a) x (c - a) points into the cube
        let (a, b, c) = (tri[0].position, tri[1].position, tri[2].position);
        let u = (b.0 - a.0, b.1 - a.1, b.2 - a.2);
        let w = (c.0 - a.0, c.1 - a.1, c.2 - a.2);
        let cross = (u.1 * w.2 - u.2 * w.1, u.2 * w.0 - u.0 * w.2, u.0 * w.1 - u.1 * w.0);
        let along = cross.0 * n.0 + cross.1 * n.1 + cross.2 * n.2;
        assert!(along < 0, "triangle {} winds the other way", t);
    }
}

#[test]
fn cube_first_face() {
    let corners = [0, 1, 2, 3, 4, 5, 6, 7].map(corner);
    let normals = [(0, 0, 1), (0, 0, -1), (-1, 0, 0), (1, 0, 0), (0, 1, 0), (0, -1, 0)];
    let cube = Mesh::cube(corners, normals, ['0', '1', '2', '3']);
    let first: Vec<((i32, i32, i32), char)> =
        cube.vertices[0..6].iter().map(|v| (v.position, v.varying.1)).collect();
    assert_eq!(
        first,
        vec![
            ((-1, -1, 1), '0'),
            ((1, 1, 1), '2'),
            ((1, -1, 1), '1'),
            ((-1, -1, 1), '0'),
            ((-1, 1, 1), '3'),
            ((1, 1, 1), '2'),
        ]
    );
}

#[test]
fn obj_model_reverses_winding() {
    let positions: Vec<i32> = (0..12).collect();
    let normals: Vec<i32> = (100..112).collect();
    let texcoords: Vec<i32> = (200..208).collect();
    let indices = vec![0u32, 1, 2, 3, 2, 1, 0];
    assert!(obj_model_in_bounds(&indices, &positions, &normals, &texcoords));
    let mut out = Vec::new();
    append_obj_model(&mut out, &indices, &positions, &normals, &texcoords, (0, 1, 0), (0, 0));
    assert_eq!(out.len(), 6);
    let pos: Vec<(i32, i32, i32)> = out.iter().map(|v| v.position).collect();
    assert_eq!(pos, vec![(0, 1, 2), (6, 7, 8), (3, 4, 5), (9, 10, 11), (3, 4, 5), (6, 7, 8)]);
    assert_eq!(out[1].varying.0, (106, 107, 108));
    assert_eq!(out[1].varying.1, (204, 205));
}

#[test]
fn obj_model_defaults_when_attributes_missing() {
    let positions: Vec<i32> = (0..9).collect();
    let none: Vec<i32> = Vec::new();
    let indices = vec![0u32, 1, 2];
    let mut out = vec![Vertex { position: (9, 9, 9), varying: ((9, 9, 9), (9, 9)) }];
    append_obj_model(&mut out, &indices, &positions, &none, &none, (0, 1, 0), (0, 0));
    assert_eq!(out.len(), 4);
    assert_eq!(out[0].position, (9, 9, 9));
    for v in &out[1..] {
        assert_eq!(v.varying, ((0, 1, 0), (0, 0)));
    }
    assert_eq!(out[2].position, (6, 7, 8));
}

#[test]
fn obj_model_bounds_check() {
    let positions: Vec<i32> = (0..9).collect();
    let none: Vec<i32> = Vec::new();
    assert!(!obj_model_in_bounds(&vec![0u32, 1, 3], &positions, &none, &none));
    assert!(obj_model_in_bounds(&vec![0u32, 1, 2, 7], &positions, &none, &none));
    let short_normals: Vec<i32> = (0..5).collect();
    assert!(!obj_model_in_bounds(&vec![0u32, 1, 2], &positions, &short_normals, &none));
    let short_uv: Vec<i32> = (0..5).collect();
    assert!(!obj_model_in_bounds(&vec![0u32, 1, 2], &positions, &none, &short_uv));
}
