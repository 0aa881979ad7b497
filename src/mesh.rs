use vstd::prelude::*;

use crate::atlas::{face_textures, Atlas};
use crate::block::BlockId;
use crate::chunk::{in_bounds, Chunk, SIZE_X, SIZE_Y, SIZE_Z, VOLUME};
use crate::math::{IVec2, IVec3};

verus! {

/// A mesh vertex: a cube corner in world space and the tile id of its face.
#[derive(Clone, Copy, Debug, PartialEq, Eq, Structural)]
pub struct Vertex {
    pub x: i64,
    pub y: i64,
    pub z: i64,
    pub texture_id: u32,
}

impl Vertex {
    pub fn new(x: i64, y: i64, z: i64, texture_id: u32) -> (r: Vertex)
        ensures
            r == (Vertex { x, y, z, texture_id }),
    {
        Vertex { x, y, z, texture_id }
    }
}

/// Faces of a cube, numbered as in a block's texture table: north (+z), south
/// (-z), east (+x), west (-x), top (+y), bottom (-y).
pub const FACES: usize = 6;

/// Step from a cell to its neighbour across face `f`.
pub open spec fn face_normal(f: int) -> (int, int, int) {
    if f == 0 {
        (0, 0, 1)
    } else if f == 1 {
        (0, 0, -1)
    } else if f == 2 {
        (1, 0, 0)
    } else if f == 3 {
        (-1, 0, 0)
    } else if f == 4 {
        (0, 1, 0)
    } else {
        (0, -1, 0)
    }
}

/// Corner `k` of face `f` of the unit cube, in the order the face's four
/// vertices are emitted.
pub open spec fn face_corner(f: int, k: int) -> (int, int, int) {
    let corners = if f == 0 {
        seq![(1int, 1int, 1int), (1, 0, 1), (0, 0, 1), (0, 1, 1)]
    } else if f == 1 {
        seq![(0int, 1int, 0int), (0, 0, 0), (1, 0, 0), (1, 1, 0)]
    } else if f == 2 {
        seq![(1int, 1int, 0int), (1, 0, 0), (1, 0, 1), (1, 1, 1)]
    } else if f == 3 {
        seq![(0int, 1int, 1int), (0, 0, 1), (0, 0, 0), (0, 1, 0)]
    } else if f == 4 {
        seq![(0int, 1int, 1int), (0, 1, 0), (1, 1, 0), (1, 1, 1)]
    } else {
        seq![(0int, 0int, 0int), (0, 0, 1), (1, 0, 1), (1, 0, 0)]
    };
    corners[k]
}

/// The neighbour of cell `p` across face `f`.
pub open spec fn neighbour(p: IVec3, f: int) -> IVec3 {
    let n = face_normal(f);
    IVec3 { x: (p.x + n.0) as i32, y: (p.y + n.1) as i32, z: (p.z + n.2) as i32 }
}

/// Whether face `f` of cell `p` can be seen: its neighbour lies outside the
/// chunk or is not solid.
pub open spec fn exposed(chunk: Chunk, p: IVec3, f: int) -> bool {
    match chunk.block_at(neighbour(p, f)) {
        Some(b) => !b.solid(),
        None => true,
    }
}

/// World-space origin of cell `p` of the chunk at grid position `pos`.
pub open spec fn cell_origin(pos: IVec2, p: IVec3) -> (int, int, int) {
    (pos.x * SIZE_X + p.x, p.y as int, pos.y * SIZE_Z + p.z)
}

/// The four vertices of face `f` of the unit cube at `o`.
pub open spec fn quad(o: (int, int, int), f: int, t: u32) -> Seq<Vertex> {
    Seq::new(
        4,
        |k: int|
            Vertex {
                x: (o.0 + face_corner(f, k).0) as i64,
                y: (o.1 + face_corner(f, k).1) as i64,
                z: (o.2 + face_corner(f, k).2) as i64,
                texture_id: t,
            },
    )
}

/// The quads of the exposed faces among the first `n` faces of cell `p`.
pub open spec fn cell_faces(chunk: Chunk, p: IVec3, o: (int, int, int), tex: Seq<u32>, n: int) -> Seq<
    Vertex,
>
    decreases n,
{
    if n <= 0 {
        seq![]
    } else if exposed(chunk, p, n - 1) {
        cell_faces(chunk, p, o, tex, n - 1) + quad(o, n - 1, tex[n - 1])
    } else {
        cell_faces(chunk, p, o, tex, n - 1)
    }
}

/// The vertices that cell `p` contributes: one quad per exposed face of a
/// solid block, textured by the block's face table; nothing otherwise.
pub open spec fn cell_mesh(chunk: Chunk, names: Seq<Seq<char>>, pos: IVec2, p: IVec3) -> Seq<Vertex> {
    match chunk.block_at(p) {
        Some(b) => if b.solid() {
            cell_faces(chunk, p, cell_origin(pos, p), face_textures(names, b), FACES as int)
        } else {
            seq![]
        },
        None => seq![],
    }
}

/// The `k`-th cell visited: x in the outer loop, then y, then z.
pub open spec fn cell_of(k: int) -> IVec3 {
    IVec3 {
        x: (k / (SIZE_Y * SIZE_Z) as int) as i32,
        y: ((k / SIZE_Z as int) % SIZE_Y as int) as i32,
        z: (k % SIZE_Z as int) as i32,
    }
}

/// The vertices of the first `n` cells visited.
pub open spec fn mesh_upto(chunk: Chunk, names: Seq<Seq<char>>, pos: IVec2, n: int) -> Seq<Vertex>
    decreases n,
{
    if n <= 0 {
        seq![]
    } else {
        mesh_upto(chunk, names, pos, n - 1) + cell_mesh(chunk, names, pos, cell_of(n - 1))
    }
}

/// The mesh of a whole chunk.
pub open spec fn chunk_mesh(chunk: Chunk, names: Seq<Seq<char>>, pos: IVec2) -> Seq<Vertex> {
    mesh_upto(chunk, names, pos, VOLUME as int)
}

/// Corner `k` of face `f`.
fn corner(f: usize, k: usize) -> (r: (i64, i64, i64))
    requires
        f < FACES,
        k < 4,
    ensures
        (r.0 as int, r.1 as int, r.2 as int) == face_corner(f as int, k as int),
{
    let corners: [(i64, i64, i64); 4] = if f == 0 {
        [(1, 1, 1), (1, 0, 1), (0, 0, 1), (0, 1, 1)]
    } else if f == 1 {
        [(0, 1, 0), (0, 0, 0), (1, 0, 0), (1, 1, 0)]
    } else if f == 2 {
        [(1, 1, 0), (1, 0, 0), (1, 0, 1), (1, 1, 1)]
    } else if f == 3 {
        [(0, 1, 1), (0, 0, 1), (0, 0, 0), (0, 1, 0)]
    } else if f == 4 {
        [(0, 1, 1), (0, 1, 0), (1, 1, 0), (1, 1, 1)]
    } else {
        [(0, 0, 0), (0, 0, 1), (1, 0, 1), (1, 0, 0)]
    };
    corners[k]
}

/// The neighbour of in-bounds cell `p` across face `f`.
fn neighbour_of(p: IVec3, f: usize) -> (r: IVec3)
    requires
        in_bounds(p),
        f < FACES,
    ensures
        r == neighbour(p, f as int),
{
    if f == 0 {
        IVec3::new(p.x, p.y, p.z + 1)
    } else if f == 1 {
        IVec3::new(p.x, p.y, p.z - 1)
    } else if f == 2 {
        IVec3::new(p.x + 1, p.y, p.z)
    } else if f == 3 {
        IVec3::new(p.x - 1, p.y, p.z)
    } else if f == 4 {
        IVec3::new(p.x, p.y + 1, p.z)
    } else {
        IVec3::new(p.x, p.y - 1, p.z)
    }
}

/// Appends the four vertices of face `f` of the unit cube at `o`.
fn push_face(mesh: &mut Vec<Vertex>, o: (i64, i64, i64), f: usize, t: u32)
    requires
        f < FACES,
        o.0 < i64::MAX,
        o.1 < i64::MAX,
        o.2 < i64::MAX,
    ensures
        final(mesh)@ == old(mesh)@ + quad((o.0 as int, o.1 as int, o.2 as int), f as int, t),
{
    let ghost start = mesh@;
    let ghost oi = (o.0 as int, o.1 as int, o.2 as int);
    let mut k: usize = 0;
    while k < 4
        invariant
            k <= 4,
            f < FACES,
            o.0 < i64::MAX,
            o.1 < i64::MAX,
            o.2 < i64::MAX,
            oi == (o.0 as int, o.1 as int, o.2 as int),
            mesh@ == start + quad(oi, f as int, t).take(k as int),
        decreases 4 - k,
    {
        let c = corner(f, k);
        mesh.push(Vertex::new(o.0 + c.0, o.1 + c.1, o.2 + c.2, t));
        assert(quad(oi, f as int, t).take(k + 1) =~= quad(oi, f as int, t).take(k as int).push(
            quad(oi, f as int, t)[k as int],
        ));
        k += 1;
    }
    assert(quad(oi, f as int, t).take(4) =~= quad(oi, f as int, t));
}

/// Appends the mesh of `chunk`, placed at grid position `pos`: for every solid
/// block, in visiting order, one quad for each face whose neighbour lies
/// outside the chunk or is not solid.
pub fn create_chunk_mesh(chunk: &Chunk, mesh: &mut Vec<Vertex>, pos: IVec2, atlas: &Atlas)
    ensures
        final(mesh)@ == old(mesh)@ + chunk_mesh(*chunk, atlas@.names, pos),
{
    let ghost start = mesh@;
    let ghost names = atlas@.names;
    let mut k: usize = 0;
    while k < VOLUME
        invariant
            k <= VOLUME,
            names == atlas@.names,
            mesh@ == start + mesh_upto(*chunk, names, pos, k as int),
        decreases VOLUME - k,
    {
        let p = IVec3::new(
            (k / (SIZE_Y * SIZE_Z)) as i32,
            ((k / SIZE_Z) % SIZE_Y) as i32,
            (k % SIZE_Z) as i32,
        );
        assert(p == cell_of(k as int));
        assert(in_bounds(p));
        let ghost before = mesh@;
        if let Some(block) = chunk.get(p) {
            if block.is_solid() {
                let texture = atlas.block_texture(block);
                let o = (
                    pos.x as i64 * SIZE_X as i64 + p.x as i64,
                    p.y as i64,
                    pos.y as i64 * SIZE_Z as i64 + p.z as i64,
                );
                let ghost oi = cell_origin(pos, p);
                let ghost tex = face_textures(names, block);
                assert(oi == (o.0 as int, o.1 as int, o.2 as int));
                let mut f: usize = 0;
                while f < FACES
                    invariant
                        f <= FACES,
                        in_bounds(p),
                        oi == (o.0 as int, o.1 as int, o.2 as int),
                        o.0 < i64::MAX,
                        o.1 < i64::MAX,
                        o.2 < i64::MAX,
                        texture.values@ == tex,
                        mesh@ == before + cell_faces(*chunk, p, oi, tex, f as int),
                    decreases FACES - f,
                {
                    let n = neighbour_of(p, f);
                    let visible = match chunk.get(n) {
                        Some(b) => !b.is_solid(),
                        None => true,
                    };
                    if visible {
                        push_face(mesh, o, f, texture.values[f]);
                    }
                    assert(mesh@ =~= before + cell_faces(*chunk, p, oi, tex, f + 1));
                    f += 1;
                }
            }
        }
        assert(mesh@ =~= start + mesh_upto(*chunk, names, pos, k + 1));
        k += 1;
    }
}

/// Indices that split each run of four vertices into two triangles:
/// `[i, i + 1, i + 2, i + 2, i + 3, i]` for the quad starting at vertex `i`.
pub open spec fn quad_indices(n: int) -> Seq<u32> {
    Seq::new(
        ((n / 4) * 6) as nat,
        |j: int|
            {
                let base = (j / 6) * 4;
                let corner = seq![0int, 1, 2, 2, 3, 0][j % 6];
                (base + corner) as u32
            },
    )
}

/// The triangle list for `number_of_vertices` vertices laid out as quads.
pub fn compute_voxel_indices(number_of_vertices: usize) -> (r: Vec<u32>)
    requires
        number_of_vertices <= u32::MAX,
    ensures
        r@ == quad_indices(number_of_vertices as int),
        r@.len() == (number_of_vertices / 4) * 6,
{
    let quads = number_of_vertices / 4;
    let mut indices: Vec<u32> = Vec::new();
    let mut i: usize = 0;
    while i < quads
        invariant
            i <= quads,
            quads == number_of_vertices / 4,
            number_of_vertices <= u32::MAX,
            indices@ =~= quad_indices(number_of_vertices as int).take((i * 6) as int),
        decreases quads - i,
    {
        let offset = (i * 4) as u32;
        indices.push(offset);
        indices.push(offset + 1);
        indices.push(offset + 2);
        indices.push(offset + 2);
        indices.push(offset + 3);
        indices.push(offset);
        let ghost q = quad_indices(number_of_vertices as int);
        assert forall|j: int| i * 6 <= j < i * 6 + 6 implies #[trigger] q[j] == indices@[j] by {
            assert(j / 6 == i && j % 6 == j - i * 6);
        }
        i += 1;
    }
    indices
}

/// How many of the first `n` faces of cell `p` are exposed.
pub open spec fn exposed_count(chunk: Chunk, p: IVec3, n: int) -> int
    decreases n,
{
    if n <= 0 {
        0
    } else if exposed(chunk, p, n - 1) {
        exposed_count(chunk, p, n - 1) + 1
    } else {
        exposed_count(chunk, p, n - 1)
    }
}

proof fn lemma_cell_faces_len(chunk: Chunk, p: IVec3, o: (int, int, int), tex: Seq<u32>, n: int)
    ensures
        cell_faces(chunk, p, o, tex, n).len() == 4 * exposed_count(chunk, p, n),
        exposed_count(chunk, p, n) >= 0,
    decreases n,
{
    if n > 0 {
        lemma_cell_faces_len(chunk, p, o, tex, n - 1);
    }
}

proof fn lemma_cell_faces_quad(chunk: Chunk, p: IVec3, o: (int, int, int), tex: Seq<u32>, n: int, f: int)
    requires
        0 <= f < n,
        exposed(chunk, p, f),
    ensures
        ({
            let start = 4 * exposed_count(chunk, p, f);
            &&& start + 4 <= cell_faces(chunk, p, o, tex, n).len()
            &&& cell_faces(chunk, p, o, tex, n).subrange(start, start + 4) == quad(o, f, tex[f])
        }),
    decreases n,
{
    lemma_cell_faces_len(chunk, p, o, tex, n);
    lemma_cell_faces_len(chunk, p, o, tex, n - 1);
    lemma_cell_faces_len(chunk, p, o, tex, f);
    let start = 4 * exposed_count(chunk, p, f);
    let prev = cell_faces(chunk, p, o, tex, n - 1);
    let all = cell_faces(chunk, p, o, tex, n);
    if f == n - 1 {
        assert(all.subrange(start, start + 4) =~= quad(o, f, tex[f]));
    } else {
        lemma_cell_faces_quad(chunk, p, o, tex, n - 1, f);
        assert(all.subrange(start, start + 4) =~= prev.subrange(start, start + 4));
    }
}

/// Each exposed face of a solid block yields exactly one quad, textured by
/// the block's tile for that face; other faces yield nothing, so the cell's
/// vertex count is four times its number of exposed faces.
pub proof fn lemma_exposed_face_quad(chunk: Chunk, names: Seq<Seq<char>>, pos: IVec2, p: IVec3, f: int)
    requires
        chunk.block_at(p) matches Some(b) && b.solid(),
        0 <= f < FACES,
    ensures
        ({
            let m = cell_mesh(chunk, names, pos, p);
            let b = chunk.block_at(p)->Some_0;
            let start = 4 * exposed_count(chunk, p, f);
            &&& m.len() == 4 * exposed_count(chunk, p, FACES as int)
            &&& exposed(chunk, p, f) ==> start + 4 <= m.len() && m.subrange(start, start + 4) == quad(
                cell_origin(pos, p),
                f,
                face_textures(names, b)[f],
            )
        }),
{
    let b = chunk.block_at(p)->Some_0;
    let o = cell_origin(pos, p);
    let tex = face_textures(names, b);
    lemma_cell_faces_len(chunk, p, o, tex, FACES as int);
    if exposed(chunk, p, f) {
        lemma_cell_faces_quad(chunk, p, o, tex, FACES as int, f);
    }
}

/// A block whose six neighbours are all solid blocks of the same chunk
/// yields no vertices.
pub proof fn lemma_enclosed_block_is_hidden(chunk: Chunk, names: Seq<Seq<char>>, pos: IVec2, p: IVec3)
    requires
        forall|f: int|
            0 <= f < FACES ==> ((#[trigger] chunk.block_at(neighbour(p, f))) matches Some(n) && n.solid()),
    ensures
        cell_mesh(chunk, names, pos, p) == Seq::<Vertex>::empty(),
{
    match chunk.block_at(p) {
        Some(b) => {
            if b.solid() {
                let o = cell_origin(pos, p);
                let tex = face_textures(names, b);
                assert forall|f: int| 0 <= f < FACES implies !exposed(chunk, p, f) by {
                    assert(chunk.block_at(neighbour(p, f)) matches Some(n) && n.solid());
                }
                lemma_cell_faces_len(chunk, p, o, tex, FACES as int);
                lemma_no_exposed_faces(chunk, p, FACES as int);
            }
        },
        None => {},
    }
}

proof fn lemma_no_exposed_faces(chunk: Chunk, p: IVec3, n: int)
    requires
        forall|f: int| 0 <= f < n ==> !#[trigger] exposed(chunk, p, f),
    ensures
        exposed_count(chunk, p, n) == 0,
    decreases n,
{
    if n > 0 {
        assert(!exposed(chunk, p, n - 1));
        lemma_no_exposed_faces(chunk, p, n - 1);
    }
}

proof fn lemma_mesh_upto_quads(chunk: Chunk, names: Seq<Seq<char>>, pos: IVec2, n: int)
    ensures
        mesh_upto(chunk, names, pos, n).len() % 4 == 0,
    decreases n,
{
    if n > 0 {
        lemma_mesh_upto_quads(chunk, names, pos, n - 1);
        let p = cell_of(n - 1);
        if let Some(b) = chunk.block_at(p) {
            if b.solid() {
                lemma_cell_faces_len(chunk, p, cell_origin(pos, p), face_textures(names, b), FACES as int);
            }
        }
    }
}

/// A chunk's mesh is made of whole quads, and its triangle list has six
/// indices per quad.
pub proof fn lemma_chunk_mesh_quads(chunk: Chunk, names: Seq<Seq<char>>, pos: IVec2)
    ensures
        chunk_mesh(chunk, names, pos).len() % 4 == 0,
        quad_indices(chunk_mesh(chunk, names, pos).len() as int).len() == (chunk_mesh(
            chunk,
            names,
            pos,
        ).len() / 4) * 6,
{
    lemma_mesh_upto_quads(chunk, names, pos, VOLUME as int);
}

/// Most vertices a single cell can contribute: four for each of six faces.
pub const MAX_CELL_VERTICES: usize = 24;

proof fn lemma_mesh_upto_bound(chunk: Chunk, names: Seq<Seq<char>>, pos: IVec2, n: int)
    requires
        0 <= n,
    ensures
        mesh_upto(chunk, names, pos, n).len() <= MAX_CELL_VERTICES * n,
    decreases n,
{
    if n > 0 {
        lemma_mesh_upto_bound(chunk, names, pos, n - 1);
        let p = cell_of(n - 1);
        if let Some(b) = chunk.block_at(p) {
            if b.solid() {
                lemma_cell_faces_len(chunk, p, cell_origin(pos, p), face_textures(names, b), FACES as int);
                lemma_exposed_count_bound(chunk, p, FACES as int);
            }
        }
    }
}

proof fn lemma_exposed_count_bound(chunk: Chunk, p: IVec3, n: int)
    requires
        0 <= n,
    ensures
        exposed_count(chunk, p, n) <= n,
    decreases n,
{
    if n > 0 {
        lemma_exposed_count_bound(chunk, p, n - 1);
    }
}

/// A chunk's mesh holds at most 24 vertices per cell.
pub proof fn lemma_chunk_mesh_bound(chunk: Chunk, names: Seq<Seq<char>>, pos: IVec2)
    ensures
        chunk_mesh(chunk, names, pos).len() <= MAX_CELL_VERTICES * VOLUME,
{
    lemma_mesh_upto_bound(chunk, names, pos, VOLUME as int);
}

/// The vertex count of the largest mesh among the first `n` chunks.
pub open spec fn largest_mesh(chunks: Seq<(IVec2, Chunk)>, names: Seq<Seq<char>>, n: int) -> int
    decreases n,
{
    if n <= 0 {
        0
    } else {
        let prev = largest_mesh(chunks, names, n - 1);
        let len = chunk_mesh(chunks[n - 1].1, names, chunks[n - 1].0).len() as int;
        if len > prev {
            len
        } else {
            prev
        }
    }
}

/// Meshes each chunk at its grid position, and builds one triangle list
/// that serves them all: it covers the largest mesh, and a chunk draws the
/// first `len / 4 * 6` of its indices.
pub fn build_chunk_meshes(chunks: &Vec<(IVec2, Chunk)>, atlas: &Atlas) -> (r: (
    Vec<Vec<Vertex>>,
    Vec<u32>,
))
    ensures
        r.0@.len() == chunks@.len(),
        forall|i: int|
            0 <= i < chunks@.len() ==> #[trigger] r.0@[i]@ == chunk_mesh(
                chunks@[i].1,
                atlas@.names,
                chunks@[i].0,
            ),
        r.1@ == quad_indices(largest_mesh(chunks@, atlas@.names, chunks@.len() as int)),
{
    let ghost names = atlas@.names;
    let mut meshes: Vec<Vec<Vertex>> = Vec::new();
    let mut largest: usize = 0;
    let mut i: usize = 0;
    while i < chunks.len()
        invariant
            i <= chunks@.len(),
            names == atlas@.names,
            meshes@.len() == i,
            forall|j: int|
                0 <= j < i ==> #[trigger] meshes@[j]@ == chunk_mesh(chunks@[j].1, names, chunks@[j].0),
            largest == largest_mesh(chunks@, names, i as int),
            largest <= MAX_CELL_VERTICES * VOLUME,
        decreases chunks@.len() - i,
    {
        let (pos, chunk) = &chunks[i];
        let mut mesh: Vec<Vertex> = Vec::new();
        create_chunk_mesh(chunk, &mut mesh, *pos, atlas);
        proof {
            lemma_chunk_mesh_bound(*chunk, names, *pos);
        }
        if mesh.len() > largest {
            largest = mesh.len();
        }
        meshes.push(mesh);
        i += 1;
    }
    let indices = compute_voxel_indices(largest);
    (meshes, indices)
}

} // verus!
