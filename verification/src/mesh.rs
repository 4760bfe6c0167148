//! Triangle meshes: vertices in groups of three, a cube built from a table
//! of corners, and the triangle list assembled from an indexed OBJ model.
use vstd::prelude::*;

verus! {

/// A mesh vertex: a position and the attributes interpolated across the
/// triangle.
#[derive(Clone, Copy, Debug)]
pub struct Vertex<P, V> {
    pub position: P,
    pub varying: V,
}

/// A triangle list: vertices `3t`, `3t + 1`, `3t + 2` form triangle `t`.
pub struct Mesh<P, V> {
    pub vertices: Vec<Vertex<P, V>>,
}

impl<P, V> Mesh<P, V> {
    /// The mesh with the given vertices.
    pub fn new(vertices: Vec<Vertex<P, V>>) -> (mesh: Self)
        ensures
            mesh.vertices@ == vertices@,
    {
        Mesh { vertices }
    }
}

/// Corner of a quad, in the order bottom-left, bottom-right, top-right,
/// top-left.
pub open spec fn quad_corner(k: int) -> int {
    if k == 0 {
        0
    } else if k == 1 {
        2
    } else if k == 2 {
        1
    } else if k == 3 {
        0
    } else if k == 4 {
        3
    } else {
        2
    }
}

/// The six vertices of a quad: triangles (bottom-left, top-right,
/// bottom-right) and (bottom-left, top-left, top-right), each corner with
/// the quad's normal and its own texture coordinate.
pub open spec fn quad_vertices<P, N, U>(corners: Seq<P>, normal: N, uvs: Seq<U>) -> Seq<
    Vertex<P, (N, U)>,
> {
    Seq::new(
        6,
        |k: int| Vertex { position: corners[quad_corner(k)], varying: (normal, uvs[quad_corner(k)]) },
    )
}

/// Appends the two triangles of a quad with corners `bl`, `br`, `tr`, `tl`
/// (see `quad_vertices`); `uvs` holds the texture coordinates of the corners
/// in the same order.
pub fn push_quad<P: Copy, N: Copy, U: Copy>(
    vertices: &mut Vec<Vertex<P, (N, U)>>,
    bl: P,
    br: P,
    tr: P,
    tl: P,
    normal: N,
    uvs: [U; 4],
)
    ensures
        final(vertices)@ == old(vertices)@ + quad_vertices(seq![bl, br, tr, tl], normal, uvs@),
{
    let uv_bl = uvs[0];
    let uv_br = uvs[1];
    let uv_tr = uvs[2];
    let uv_tl = uvs[3];
    vertices.push(Vertex { position: bl, varying: (normal, uv_bl) });
    vertices.push(Vertex { position: tr, varying: (normal, uv_tr) });
    vertices.push(Vertex { position: br, varying: (normal, uv_br) });
    vertices.push(Vertex { position: bl, varying: (normal, uv_bl) });
    vertices.push(Vertex { position: tl, varying: (normal, uv_tl) });
    vertices.push(Vertex { position: tr, varying: (normal, uv_tr) });
    assert(vertices@ =~= old(vertices)@ + quad_vertices(seq![bl, br, tr, tl], normal, uvs@));
}

/// Corner `c` (bottom-left, bottom-right, top-right, top-left) of cube face
/// `f`, as an index into the corner table: corner `i` of the table lies at
/// `x = i % 2`, `y = (i / 2) % 2`, `z = i / 4` of the unit cell. The faces
/// are, in order, `+z`, `-z`, `-x`, `+x`, `+y`, `-y`, each seen from outside.
pub open spec fn cube_face_corner(f: int, c: int) -> int {
    let face: Seq<int> = if f == 0 {
        seq![4, 5, 7, 6]
    } else if f == 1 {
        seq![1, 0, 2, 3]
    } else if f == 2 {
        seq![0, 4, 6, 2]
    } else if f == 3 {
        seq![5, 1, 3, 7]
    } else if f == 4 {
        seq![6, 7, 3, 2]
    } else {
        seq![0, 1, 5, 4]
    };
    face[c]
}

/// The corners of face `f`, taken from the corner table.
pub open spec fn cube_face_corners<P>(corners: Seq<P>, f: int) -> Seq<P> {
    Seq::new(4, |c: int| corners[cube_face_corner(f, c)])
}

/// The 36 vertices of a cube: the quads of its six faces in order.
pub open spec fn cube_vertices<P, N, U>(corners: Seq<P>, normals: Seq<N>, uvs: Seq<U>) -> Seq<
    Vertex<P, (N, U)>,
> {
    Seq::new(
        36,
        |j: int|
            quad_vertices(cube_face_corners(corners, j / 6), normals[j / 6], uvs)[j % 6],
    )
}

impl<P: Copy, N: Copy, U: Copy> Mesh<P, (N, U)> {
    /// A cube of 12 triangles, two per face, from its eight corners (see
    /// `cube_face_corner` for their order), the outward normals of its faces
    /// (`+z`, `-z`, `-x`, `+x`, `+y`, `-y`) and the texture coordinates of
    /// a face's bottom-left, bottom-right, top-right and top-left corners.
    pub fn cube(corners: [P; 8], normals: [N; 6], uvs: [U; 4]) -> (mesh: Self)
        ensures
            mesh.vertices@ == cube_vertices(corners@, normals@, uvs@),
            mesh.vertices@.len() == 36,
    {
        let mut vertices: Vec<Vertex<P, (N, U)>> = Vec::with_capacity(36);
        push_quad(&mut vertices, corners[4], corners[5], corners[7], corners[6], normals[0], uvs);
        push_quad(&mut vertices, corners[1], corners[0], corners[2], corners[3], normals[1], uvs);
        push_quad(&mut vertices, corners[0], corners[4], corners[6], corners[2], normals[2], uvs);
        push_quad(&mut vertices, corners[5], corners[1], corners[3], corners[7], normals[3], uvs);
        push_quad(&mut vertices, corners[6], corners[7], corners[3], corners[2], normals[4], uvs);
        push_quad(&mut vertices, corners[0], corners[1], corners[5], corners[4], normals[5], uvs);
        proof {
            let c = corners@;
            let n = normals@;
            let u = uvs@;
            assert forall|f: int| 0 <= f < 6 implies #[trigger] cube_face_corners(c, f) =~= seq![
                c[cube_face_corner(f, 0)],
                c[cube_face_corner(f, 1)],
                c[cube_face_corner(f, 2)],
                c[cube_face_corner(f, 3)],
            ] by {}
            assert(vertices@ =~= cube_vertices(c, n, u));
        }
        Mesh { vertices }
    }
}

/// Horizontal texture coordinate (0 or 1) of uv corner `c` of a face, in the
/// order bottom-left, bottom-right, top-right, top-left.
pub open spec fn uv_u(c: int) -> int {
    if c == 1 || c == 2 {
        1
    } else {
        0
    }
}

/// Vertical texture coordinate (0 or 1) of uv corner `c` of a face.
pub open spec fn uv_v(c: int) -> int {
    if c == 2 || c == 3 {
        1
    } else {
        0
    }
}

/// The outward normal of cube face `f`: `+z`, `-z`, `-x`, `+x`, `+y`, `-y`.
pub open spec fn face_normal(f: int) -> (int, int, int) {
    if f == 0 {
        (0, 0, 1)
    } else if f == 1 {
        (0, 0, -1)
    } else if f == 2 {
        (-1, 0, 0)
    } else if f == 3 {
        (1, 0, 0)
    } else if f == 4 {
        (0, 1, 0)
    } else {
        (0, -1, 0)
    }
}

/// The direction in which the texture's `v` grows on face `f`: up (`+y`) on
/// the four side faces, towards `-z` on the top face and `+z` on the bottom.
pub open spec fn face_up(f: int) -> (int, int, int) {
    if f < 4 {
        (0, 1, 0)
    } else {
        (0, 0, -face_normal(f).1)
    }
}

/// The cross product `a × b`.
pub open spec fn cross(a: (int, int, int), b: (int, int, int)) -> (int, int, int) {
    (a.1 * b.2 - a.2 * b.1, a.2 * b.0 - a.0 * b.2, a.0 * b.1 - a.1 * b.0)
}

/// The direction in which the texture's `u` grows on face `f`: `up × normal`,
/// to the right for a viewer outside the face with `up` pointing up.
pub open spec fn face_right(f: int) -> (int, int, int) {
    cross(face_up(f), face_normal(f))
}

/// `v` when `bit` is 1, `-v` when it is 0.
pub open spec fn toward(bit: int, v: (int, int, int)) -> (int, int, int) {
    if bit == 1 {
        v
    } else {
        (-v.0, -v.1, -v.2)
    }
}

/// The corner of face `f` at uv corner `c`, in coordinates scaled to
/// `{-1, 1}`: the normal, plus `up` or minus `up` by the corner's `v`, plus
/// `right` or minus `right` by its `u`.
pub open spec fn face_point(f: int, c: int) -> (int, int, int) {
    let n = face_normal(f);
    let up = toward(uv_v(c), face_up(f));
    let right = toward(uv_u(c), face_right(f));
    (n.0 + up.0 + right.0, n.1 + up.1 + right.1, n.2 + up.2 + right.2)
}

/// Index in the corner table of the cube corner at `p` (coordinates in
/// `{-1, 1}`): bit 0 is `x > 0`, bit 1 `y > 0`, bit 2 `z > 0`.
pub open spec fn corner_at(p: (int, int, int)) -> int {
    (p.0 + 1) / 2 + (p.1 + 1) + 2 * (p.2 + 1)
}

proof fn lemma_face_corner_geometry(f: int, c: int)
    requires
        0 <= f < 6,
        0 <= c < 4,
    ensures
        cube_face_corner(f, c) == corner_at(face_point(f, c)),
{
    if f == 0 {
        if c == 0 {
            assert(face_point(0, 0) == (-1int, -1int, 1int));
        } else if c == 1 {
            assert(face_point(0, 1) == (1int, -1int, 1int));
        } else if c == 2 {
            assert(face_point(0, 2) == (1int, 1int, 1int));
        } else if c == 3 {
            assert(face_point(0, 3) == (-1int, 1int, 1int));
        }
    } else if f == 1 {
        if c == 0 {
            assert(face_point(1, 0) == (1int, -1int, -1int));
        } else if c == 1 {
            assert(face_point(1, 1) == (-1int, -1int, -1int));
        } else if c == 2 {
            assert(face_point(1, 2) == (-1int, 1int, -1int));
        } else if c == 3 {
            assert(face_point(1, 3) == (1int, 1int, -1int));
        }
    } else if f == 2 {
        if c == 0 {
            assert(face_point(2, 0) == (-1int, -1int, -1int));
        } else if c == 1 {
            assert(face_point(2, 1) == (-1int, -1int, 1int));
        } else if c == 2 {
            assert(face_point(2, 2) == (-1int, 1int, 1int));
        } else if c == 3 {
            assert(face_point(2, 3) == (-1int, 1int, -1int));
        }
    } else if f == 3 {
        if c == 0 {
            assert(face_point(3, 0) == (1int, -1int, 1int));
        } else if c == 1 {
            assert(face_point(3, 1) == (1int, -1int, -1int));
        } else if c == 2 {
            assert(face_point(3, 2) == (1int, 1int, -1int));
        } else if c == 3 {
            assert(face_point(3, 3) == (1int, 1int, 1int));
        }
    } else if f == 4 {
        if c == 0 {
            assert(face_point(4, 0) == (-1int, 1int, 1int));
        } else if c == 1 {
            assert(face_point(4, 1) == (1int, 1int, 1int));
        } else if c == 2 {
            assert(face_point(4, 2) == (1int, 1int, -1int));
        } else if c == 3 {
            assert(face_point(4, 3) == (-1int, 1int, -1int));
        }
    } else if f == 5 {
        if c == 0 {
            assert(face_point(5, 0) == (-1int, -1int, -1int));
        } else if c == 1 {
            assert(face_point(5, 1) == (1int, -1int, -1int));
        } else if c == 2 {
            assert(face_point(5, 2) == (1int, -1int, 1int));
        } else if c == 3 {
            assert(face_point(5, 3) == (-1int, -1int, 1int));
        }
    }
}

/// Vertices `3t`, `3t + 1`, `3t + 2` of `vs` form a triangle of cube face
/// `f = t / 2` at uv corners `c0`, `c1`, `c2`: each carries the face's normal
/// and its uv corner's texture coordinate, and sits at the table corner that
/// lies on face `f` at that uv corner (see `face_point`).
pub open spec fn triangle_at_uv_corners<P, N, U>(
    vs: Seq<Vertex<P, (N, U)>>,
    corners: Seq<P>,
    normals: Seq<N>,
    uvs: Seq<U>,
    t: int,
    c0: int,
    c1: int,
    c2: int,
) -> bool {
    let f = t / 2;
    &&& 0 <= c0 < 4 && 0 <= c1 < 4 && 0 <= c2 < 4
    &&& vs[3 * t] == Vertex {
        position: corners[corner_at(face_point(f, c0))],
        varying: (normals[f], uvs[c0]),
    }
    &&& vs[3 * t + 1] == Vertex {
        position: corners[corner_at(face_point(f, c1))],
        varying: (normals[f], uvs[c1]),
    }
    &&& vs[3 * t + 2] == Vertex {
        position: corners[corner_at(face_point(f, c2))],
        varying: (normals[f], uvs[c2]),
    }
}

/// Uv corners `c0`, `c1`, `c2` wind clockwise in texture space (and so are
/// three different corners).
pub open spec fn uv_clockwise(c0: int, c1: int, c2: int) -> bool {
    (uv_u(c1) - uv_u(c0)) * (uv_v(c2) - uv_v(c0)) - (uv_v(c1) - uv_v(c0)) * (uv_u(c2) - uv_u(
        c0,
    )) < 0
}

/// Two triangles over the uv corners of a quad, `(c0, c1, c2)` and
/// `(c3, c4, c5)`, both clockwise, that split the quad along a diagonal: the
/// corner each one leaves out is diagonally opposite the other's, so together
/// they cover the quad without overlapping.
pub open spec fn quad_split(c0: int, c1: int, c2: int, c3: int, c4: int, c5: int) -> bool {
    let left_out_first = 6 - c0 - c1 - c2;
    let left_out_second = 6 - c3 - c4 - c5;
    &&& 0 <= c0 < 4 && 0 <= c1 < 4 && 0 <= c2 < 4
    &&& 0 <= c3 < 4 && 0 <= c4 < 4 && 0 <= c5 < 4
    &&& uv_clockwise(c0, c1, c2)
    &&& uv_clockwise(c3, c4, c5)
    &&& uv_u(left_out_first) != uv_u(left_out_second)
    &&& uv_v(left_out_first) != uv_v(left_out_second)
}

/// Triangles `2f` and `2f + 1` of `vs` cover face `f` of the cube: they split
/// it along a diagonal (see `quad_split`), and each corner carries the face's
/// normal and sits where its texture coordinate says (see
/// `triangle_at_uv_corners`).
pub open spec fn cube_face_placed<P, N, U>(
    vs: Seq<Vertex<P, (N, U)>>,
    corners: Seq<P>,
    normals: Seq<N>,
    uvs: Seq<U>,
    f: int,
) -> bool {
    exists|c0: int, c1: int, c2: int, c3: int, c4: int, c5: int|
        #![trigger triangle_at_uv_corners(vs, corners, normals, uvs, 2 * f, c0, c1, c2), triangle_at_uv_corners(vs, corners, normals, uvs, 2 * f + 1, c3, c4, c5)]
        triangle_at_uv_corners(vs, corners, normals, uvs, 2 * f, c0, c1, c2)
            && triangle_at_uv_corners(vs, corners, normals, uvs, 2 * f + 1, c3, c4, c5)
            && quad_split(c0, c1, c2, c3, c4, c5)
}

/// The six vertices that `push_quad` appends are two triangles that split the
/// quad along a diagonal (see `quad_split`), each vertex the quad corner that
/// its texture coordinate names, with the quad's normal.
pub proof fn lemma_quad_split<P, N, U>(corners: Seq<P>, normal: N, uvs: Seq<U>)
    ensures
        quad_vertices(corners, normal, uvs).len() == 6,
        exists|c0: int, c1: int, c2: int, c3: int, c4: int, c5: int|
            #![trigger quad_split(c0, c1, c2, c3, c4, c5)]
            quad_split(c0, c1, c2, c3, c4, c5) && {
                let cs = seq![c0, c1, c2, c3, c4, c5];
                forall|m: int|
                    0 <= m < 6 ==> #[trigger] quad_vertices(corners, normal, uvs)[m] == Vertex {
                        position: corners[cs[m]],
                        varying: (normal, uvs[cs[m]]),
                    }
            },
{
    let cs = seq![0int, 2, 1, 0, 3, 2];
    assert(uv_clockwise(0, 2, 1)) by (nonlinear_arith);
    assert(uv_clockwise(0, 3, 2)) by (nonlinear_arith);
    assert(quad_split(0, 2, 1, 0, 3, 2));
    assert forall|m: int| 0 <= m < 6 implies #[trigger] quad_vertices(corners, normal, uvs)[m]
        == Vertex { position: corners[cs[m]], varying: (normal, uvs[cs[m]]) } by {
        assert(quad_corner(m) == cs[m]);
    }
}

/// Where every vertex of the cube sits: triangles `2f` and `2f + 1` split
/// face `f` along a diagonal, carry that face's normal, and each corner sits
/// at the table corner that lies on the face at its texture coordinate, so
/// every face's texture stands upright and unmirrored; every triangle winds
/// clockwise in texture space, the same way on every face.
pub proof fn lemma_cube_geometry<P, N, U>(corners: Seq<P>, normals: Seq<N>, uvs: Seq<U>)
    ensures
        cube_vertices(corners, normals, uvs).len() == 36,
        forall|f: int|
            0 <= f < 6 ==> #[trigger] cube_face_placed(
                cube_vertices(corners, normals, uvs),
                corners,
                normals,
                uvs,
                f,
            ),
{
    let vs = cube_vertices(corners, normals, uvs);
    assert forall|f: int| 0 <= f < 6 implies #[trigger] cube_face_placed(
        vs,
        corners,
        normals,
        uvs,
        f,
    ) by {
        assert((6 * f + 0) / 6 == f && (6 * f + 0) % 6 == 0);
        assert((6 * f + 1) / 6 == f && (6 * f + 1) % 6 == 1);
        assert((6 * f + 2) / 6 == f && (6 * f + 2) % 6 == 2);
        assert((6 * f + 3) / 6 == f && (6 * f + 3) % 6 == 3);
        assert((6 * f + 4) / 6 == f && (6 * f + 4) % 6 == 4);
        assert((6 * f + 5) / 6 == f && (6 * f + 5) % 6 == 5);
        assert((2 * f) / 2 == f && (2 * f + 1) / 2 == f);
        assert(3 * (2 * f) == 6 * f && 3 * (2 * f + 1) == 6 * f + 3);
        lemma_face_corner_geometry(f, 0);
        lemma_face_corner_geometry(f, 1);
        lemma_face_corner_geometry(f, 2);
        lemma_face_corner_geometry(f, 3);
        assert(triangle_at_uv_corners(vs, corners, normals, uvs, 2 * f, 0, 2, 1));
        assert(triangle_at_uv_corners(vs, corners, normals, uvs, 2 * f + 1, 0, 3, 2));
        assert(quad_split(0, 2, 1, 0, 3, 2));
    }
}

/// Which corner of an OBJ face becomes corner `k` of the output triangle:
/// the second and third are swapped, which reverses the winding order.
pub open spec fn winding_corner(k: int) -> int {
    if k == 1 {
        2
    } else if k == 2 {
        1
    } else {
        k
    }
}

/// Number of whole triangles in an index list; a trailing partial triangle is
/// ignored.
pub open spec fn triangle_count(index_count: nat) -> nat {
    index_count / 3
}

/// The model vertex that output vertex `j` is read from.
pub open spec fn obj_source_index(indices: Seq<u32>, j: int) -> int {
    indices[3 * (j / 3) + winding_corner(j % 3)] as int
}

/// Model vertex `i` of an OBJ model with one shared index per vertex:
/// its position from `positions[3i..3i+3]`, its normal from
/// `normals[3i..3i+3]` or `default_normal` when the model has no normals, its
/// texture coordinate from `texcoords[2i..2i+2]` or `default_uv` when it has
/// none.
pub open spec fn obj_vertex<S>(
    i: int,
    positions: Seq<S>,
    normals: Seq<S>,
    texcoords: Seq<S>,
    default_normal: (S, S, S),
    default_uv: (S, S),
) -> Vertex<(S, S, S), ((S, S, S), (S, S))> {
    Vertex {
        position: (positions[3 * i], positions[3 * i + 1], positions[3 * i + 2]),
        varying: (
            if normals.len() == 0 {
                default_normal
            } else {
                (normals[3 * i], normals[3 * i + 1], normals[3 * i + 2])
            },
            if texcoords.len() == 0 {
                default_uv
            } else {
                (texcoords[2 * i], texcoords[2 * i + 1])
            },
        ),
    }
}

/// Every index of a whole triangle names a vertex that the position array
/// holds, and that the normal and texture coordinate arrays hold where they
/// are not empty.
pub open spec fn obj_indices_in_bounds(
    indices: Seq<u32>,
    position_count: nat,
    normal_count: nat,
    texcoord_count: nat,
) -> bool {
    forall|k: int|
        0 <= k < 3 * triangle_count(indices.len()) ==> {
            let i = #[trigger] indices[k] as int;
            &&& 3 * i + 2 < position_count
            &&& normal_count == 0 || 3 * i + 2 < normal_count
            &&& texcoord_count == 0 || 2 * i + 1 < texcoord_count
        }
}

/// The triangle list of an OBJ model: for every whole triangle of `indices`,
/// its three vertices with the winding reversed.
pub open spec fn obj_triangle_list<S>(
    indices: Seq<u32>,
    positions: Seq<S>,
    normals: Seq<S>,
    texcoords: Seq<S>,
    default_normal: (S, S, S),
    default_uv: (S, S),
) -> Seq<Vertex<(S, S, S), ((S, S, S), (S, S))>> {
    Seq::new(
        3 * triangle_count(indices.len()),
        |j: int|
            obj_vertex(
                obj_source_index(indices, j),
                positions,
                normals,
                texcoords,
                default_normal,
                default_uv,
            ),
    )
}

/// Decides `obj_indices_in_bounds`: whether `append_obj_model` may read the
/// model.
pub fn obj_model_in_bounds<S>(
    indices: &Vec<u32>,
    positions: &Vec<S>,
    normals: &Vec<S>,
    texcoords: &Vec<S>,
) -> (in_bounds: bool)
    ensures
        in_bounds == obj_indices_in_bounds(
            indices@,
            positions@.len(),
            normals@.len(),
            texcoords@.len(),
        ),
{
    let used = indices.len() / 3 * 3;
    let mut k: usize = 0;
    while k < used
        invariant
            used == 3 * triangle_count(indices@.len()),
            used <= indices@.len(),
            k <= used,
            forall|m: int|
                0 <= m < k ==> {
                    let i = #[trigger] indices@[m] as int;
                    &&& 3 * i + 2 < positions@.len()
                    &&& normals@.len() == 0 || 3 * i + 2 < normals@.len()
                    &&& texcoords@.len() == 0 || 2 * i + 1 < texcoords@.len()
                },
        decreases used - k,
    {
        let i = indices[k] as usize;
        if i >= positions.len() / 3 || (positions.len() - 3 * i) < 3 {
            return false;
        }
        if normals.len() != 0 && (i >= normals.len() / 3 || (normals.len() - 3 * i) < 3) {
            return false;
        }
        if texcoords.len() != 0 && (i >= texcoords.len() / 2 || (texcoords.len() - 2 * i)
            < 2) {
            return false;
        }
        k = k + 1;
    }
    true
}

/// Appends the triangle list of one OBJ model (see `obj_triangle_list`):
/// whole triangles only, each with its second and third corners swapped,
/// each vertex read through its index from the position, normal and texture
/// coordinate arrays, with the given defaults for arrays that are empty.
pub fn append_obj_model<S: Copy>(
    vertices: &mut Vec<Vertex<(S, S, S), ((S, S, S), (S, S))>>,
    indices: &Vec<u32>,
    positions: &Vec<S>,
    normals: &Vec<S>,
    texcoords: &Vec<S>,
    default_normal: (S, S, S),
    default_uv: (S, S),
)
    requires
        obj_indices_in_bounds(indices@, positions@.len(), normals@.len(), texcoords@.len()),
    ensures
        final(vertices)@ == old(vertices)@ + obj_triangle_list(
            indices@,
            positions@,
            normals@,
            texcoords@,
            default_normal,
            default_uv,
        ),
{
    let ghost list = obj_triangle_list(
        indices@,
        positions@,
        normals@,
        texcoords@,
        default_normal,
        default_uv,
    );
    let index_count = indices.len();
    let position_count = positions.len();
    let triangles = index_count / 3;
    let mut t: usize = 0;
    while t < triangles
        invariant
            triangles == triangle_count(indices@.len()),
            index_count == indices@.len(),
            position_count == positions@.len(),
            t <= triangles,
            obj_indices_in_bounds(indices@, positions@.len(), normals@.len(), texcoords@.len()),
            list == obj_triangle_list(
                indices@,
                positions@,
                normals@,
                texcoords@,
                default_normal,
                default_uv,
            ),
            vertices@ == old(vertices)@ + list.take(3 * t),
        decreases triangles - t,
    {
        let mut c: usize = 0;
        while c < 3
            invariant
                triangles == triangle_count(indices@.len()),
                index_count == indices@.len(),
                position_count == positions@.len(),
                t < triangles,
                3 * t + 3 <= 3 * triangles,
                3 * triangles <= indices@.len(),
                c <= 3,
                obj_indices_in_bounds(
                    indices@,
                    positions@.len(),
                    normals@.len(),
                    texcoords@.len(),
                ),
                list == obj_triangle_list(
                    indices@,
                    positions@,
                    normals@,
                    texcoords@,
                    default_normal,
                    default_uv,
                ),
                vertices@ == old(vertices)@ + list.take(3 * t + c),
            decreases 3 - c,
        {
            let corner: usize = if c == 1 {
                2
            } else if c == 2 {
                1
            } else {
                c
            };
            let k = 3 * t + corner;
            let i = indices[k] as usize;
            assert(3 * i + 2 < positions@.len() && (normals@.len() == 0 || 3 * i + 2
                < normals@.len()) && (texcoords@.len() == 0 || 2 * i + 1 < texcoords@.len())) by {
                assert(indices@[k as int] == i);
            }
            let position = (positions[3 * i], positions[3 * i + 1], positions[3 * i + 2]);
            let normal = if normals.len() == 0 {
                default_normal
            } else {
                (normals[3 * i], normals[3 * i + 1], normals[3 * i + 2])
            };
            let uv = if texcoords.len() == 0 {
                default_uv
            } else {
                (texcoords[2 * i], texcoords[2 * i + 1])
            };
            vertices.push(Vertex { position, varying: (normal, uv) });
            proof {
                let j = 3 * t + c;
                assert(j / 3 == t && j % 3 == c);
                assert(list[j] == Vertex { position, varying: (normal, uv) });
                assert(list.take(j + 1) =~= list.take(j).push(list[j]));
            }
            c = c + 1;
        }
        t = t + 1;
    }
    assert(list.take(3 * triangles) =~= list);
}

/// What each triangle of an OBJ model becomes: triangle `t` of `indices`
/// yields output vertices `3t`, `3t + 1`, `3t + 2` read from model vertices
/// `indices[3t]`, `indices[3t + 2]`, `indices[3t + 1]`; each takes its position
/// from `positions`, its normal from `normals` unless that array is empty, and
/// its texture coordinate from `texcoords` unless that array is empty; the
/// defaults fill in exactly the attributes whose arrays are empty, each
/// independently of the other.
pub proof fn lemma_obj_triangle_list_reads<S>(
    indices: Seq<u32>,
    positions: Seq<S>,
    normals: Seq<S>,
    texcoords: Seq<S>,
    default_normal: (S, S, S),
    default_uv: (S, S),
)
    ensures
        ({
            let list = obj_triangle_list(
                indices,
                positions,
                normals,
                texcoords,
                default_normal,
                default_uv,
            );
            &&& list.len() == 3 * (indices.len() / 3)
            &&& forall|t: int, m: int|
                0 <= t < indices.len() / 3 && 0 <= m < 3 ==> {
                    let i = (if m == 0 {
                        indices[3 * t]
                    } else if m == 1 {
                        indices[3 * t + 2]
                    } else {
                        indices[3 * t + 1]
                    }) as int;
                    let v = #[trigger] list[3 * t + m];
                    &&& v.position == (positions[3 * i], positions[3 * i + 1], positions[3
                        * i + 2])
                    &&& normals.len() == 0 ==> v.varying.0 == default_normal
                    &&& normals.len() != 0 ==> v.varying.0 == (
                        normals[3 * i],
                        normals[3 * i + 1],
                        normals[3 * i + 2],
                    )
                    &&& texcoords.len() == 0 ==> v.varying.1 == default_uv
                    &&& texcoords.len() != 0 ==> v.varying.1 == (
                        texcoords[2 * i],
                        texcoords[2 * i + 1],
                    )
                }
        }),
{
    let list = obj_triangle_list(
        indices,
        positions,
        normals,
        texcoords,
        default_normal,
        default_uv,
    );
    assert forall|t: int, m: int| 0 <= t < indices.len() / 3 && 0 <= m < 3 implies {
        let i = (if m == 0 {
            indices[3 * t]
        } else if m == 1 {
            indices[3 * t + 2]
        } else {
            indices[3 * t + 1]
        }) as int;
        let v = #[trigger] list[3 * t + m];
        &&& v.position == (positions[3 * i], positions[3 * i + 1], positions[3 * i + 2])
        &&& normals.len() == 0 ==> v.varying.0 == default_normal
        &&& normals.len() != 0 ==> v.varying.0 == (
            normals[3 * i],
            normals[3 * i + 1],
            normals[3 * i + 2],
        )
        &&& texcoords.len() == 0 ==> v.varying.1 == default_uv
        &&& texcoords.len() != 0 ==> v.varying.1 == (texcoords[2 * i], texcoords[2 * i + 1])
    } by {
        let j = 3 * t + m;
        assert(j / 3 == t && j % 3 == m);
    }
}

/// The model check accepts exactly the models whose every whole-triangle
/// index `i` names a position (`3i + 2 < positions`), a normal where the model
/// has normals (`3i + 2 < normals`) and a texture coordinate where it has
/// texture coordinates (`2i + 1 < texcoords`); the normal and texture
/// coordinate conditions do not depend on each other.
pub proof fn lemma_obj_indices_in_bounds_exactly(
    indices: Seq<u32>,
    position_count: nat,
    normal_count: nat,
    texcoord_count: nat,
)
    ensures
        obj_indices_in_bounds(indices, position_count, normal_count, texcoord_count) <==> (
        forall|k: int|
            0 <= k < 3 * (indices.len() / 3) ==> {
                &&& 3 * (#[trigger] indices[k]) + 2 < position_count
                &&& (normal_count == 0 || 3 * indices[k] + 2 < normal_count)
                &&& (texcoord_count == 0 || 2 * indices[k] + 1 < texcoord_count)
            }),
{
}

} // verus!
