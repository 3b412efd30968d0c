use vstd::prelude::*;
use crate::bakery::{
    baked_vertex_wf, BakedBlockMeshVertex, BakeryContext, StaticBlockBakery,
    lemma_rendered_len_mod4, lemma_rendered_vertex_wf, BLOCK_UNIT,
};
use crate::chunk::Chunk;
use crate::coords::{chunk_contains, BlockCoord, ChunkCoord, CHUNK_POS_LIMIT};
use crate::registry::{BlockState, Blocks};

verus! {

/// One packed vertex of a finished chunk mesh: world-space position and
/// texture coordinate in fixed-point units (`BLOCK_UNIT` per block edge).
#[derive(Copy, Clone, PartialEq, Eq, Structural, Debug)]
pub struct ChunkMeshVertex {
    pub x: i64,
    pub y: i64,
    pub z: i64,
    pub u: i64,
    pub v: i64,
}

/// A baked vertex moved from block-local space to world space by the
/// absolute block coordinates `(cbx, cby, cbz)`.
pub open spec fn translate_vertex(
    v: BakedBlockMeshVertex,
    cbx: int,
    cby: int,
    cbz: int,
) -> ChunkMeshVertex {
    ChunkMeshVertex {
        x: (v.x + cbx * BLOCK_UNIT) as i64,
        y: (v.y + cby * BLOCK_UNIT) as i64,
        z: (v.z + cbz * BLOCK_UNIT) as i64,
        u: v.u,
        v: v.v,
    }
}

/// A world-space block coordinate that can come from a chunk whose
/// position is within `CHUNK_POS_LIMIT`.
pub open spec fn block_coord_in_range(v: int) -> bool {
    -16 * CHUNK_POS_LIMIT <= v <= 16 * CHUNK_POS_LIMIT + 15
}

impl ChunkMeshVertex {
    pub fn new(x: i64, y: i64, z: i64, u: i64, v: i64) -> (r: ChunkMeshVertex)
        ensures
            r == (ChunkMeshVertex { x, y, z, u, v }),
    {
        ChunkMeshVertex { x, y, z, u, v }
    }

    /// Translates a baked vertex by the absolute block coordinate
    /// `offset`, in whole blocks.
    pub fn new_from(other: &BakedBlockMeshVertex, offset: &(i64, i64, i64)) -> (r:
        ChunkMeshVertex)
        requires
            baked_vertex_wf(*other),
            block_coord_in_range(offset.0 as int),
            block_coord_in_range(offset.1 as int),
            block_coord_in_range(offset.2 as int),
        ensures
            r == translate_vertex(*other, offset.0 as int, offset.1 as int, offset.2 as int),
    {
        ChunkMeshVertex {
            x: other.x + offset.0 * BLOCK_UNIT,
            y: other.y + offset.1 * BLOCK_UNIT,
            z: other.z + offset.2 * BLOCK_UNIT,
            u: other.u,
            v: other.v,
        }
    }
}

/// The neighbourhood handed to the mesher, seen as a sequence of chunk
/// values: the contents of the up-to-27 chunk references, in order.
pub open spec fn neighbourhood(ns: &[Option<&Chunk>; 27]) -> Seq<Option<Chunk>> {
    Seq::new(
        27,
        |i: int|
            match ns@[i] {
                Some(c) => Some(*c),
                None => None,
            },
    )
}

/// Every chunk present in the neighbourhood is well-formed.
pub open spec fn neighbours_wf(ns: Seq<Option<Chunk>>) -> bool {
    forall|i: int|
        0 <= i < ns.len() ==> match #[trigger] ns[i] {
            Some(c) => c.wf(),
            None => true,
        }
}

/// The block at world position `(x, y, z)`, found in the first chunk of
/// `ns`, at or after index `i`, that contains the position; `None` when
/// no chunk does.
pub open spec fn spec_lookup_from(
    ns: Seq<Option<Chunk>>,
    x: int,
    y: int,
    z: int,
    i: int,
) -> Option<BlockState>
    decreases ns.len() - i,
{
    if i < 0 || i >= ns.len() {
        None
    } else {
        match ns[i] {
            Some(c) => if chunk_contains(c.pos, x, y, z) {
                Some(c.block_at(x - 16 * c.pos.x, y - 16 * c.pos.y, z - 16 * c.pos.z))
            } else {
                spec_lookup_from(ns, x, y, z, i + 1)
            },
            None => spec_lookup_from(ns, x, y, z, i + 1),
        }
    }
}

/// The block at world position `(x, y, z)` in the neighbourhood, or
/// `None` when no provided chunk contains that position.
pub open spec fn spec_lookup(ns: Seq<Option<Chunk>>, x: int, y: int, z: int) -> Option<
    BlockState,
> {
    spec_lookup_from(ns, x, y, z, 0)
}

/// A position occludes a face exactly when some provided chunk holds a
/// non-air block there. An unresolved position (no chunk provided) does
/// not occlude: the face stays visible.
pub open spec fn solid_at(ns: Seq<Option<Chunk>>, air: BlockState, x: int, y: int, z: int) -> bool {
    match spec_lookup(ns, x, y, z) {
        Some(b) => b != air,
        None => false,
    }
}

/// The occlusion record for the block at world position `(x, y, z)`:
/// the solidity of its six axis-aligned neighbours.
pub open spec fn spec_occlusion(
    ns: Seq<Option<Chunk>>,
    air: BlockState,
    x: int,
    y: int,
    z: int,
) -> BakeryContext {
    BakeryContext {
        occlude_pos_x: solid_at(ns, air, x + 1, y, z),
        occlude_pos_y: solid_at(ns, air, x, y + 1, z),
        occlude_pos_z: solid_at(ns, air, x, y, z + 1),
        occlude_neg_x: solid_at(ns, air, x - 1, y, z),
        occlude_neg_y: solid_at(ns, air, x, y - 1, z),
        occlude_neg_z: solid_at(ns, air, x, y, z - 1),
        has_data: true,
    }
}

/// Finds the block at world position `pos` in the first chunk of the
/// neighbourhood that contains it. Returns `None` when no provided chunk
/// owns that position (an unloaded or missing chunk).
pub fn get_block(neighbours: &[Option<&Chunk>; 27], pos: &BlockCoord) -> (r: Option<BlockState>)
    requires
        neighbours_wf(neighbourhood(neighbours)),
    ensures
        r == spec_lookup(neighbourhood(neighbours), pos.x as int, pos.y as int, pos.z as int),
{
    let ghost ns = neighbourhood(neighbours);
    let cpos = ChunkCoord::new_from_block(pos);
    for i in 0..27usize
        invariant
            neighbours_wf(ns),
            ns == neighbourhood(neighbours),
            chunk_contains(cpos, pos.x as int, pos.y as int, pos.z as int),
            spec_lookup(ns, pos.x as int, pos.y as int, pos.z as int) == spec_lookup_from(
                ns,
                pos.x as int,
                pos.y as int,
                pos.z as int,
                i as int,
            ),
    {
        proof {
            assert(ns[i as int] == match neighbours@[i as int] {
                Some(c) => Some(*c),
                None => None::<Chunk>,
            });
        }
        match neighbours[i] {
            Some(chunk) => {
                if chunk.pos.x == cpos.x && chunk.pos.y == cpos.y && chunk.pos.z == cpos.z {
                    let lx = pos.x - 16 * chunk.pos.x;
                    let ly = pos.y - 16 * chunk.pos.y;
                    let lz = pos.z - 16 * chunk.pos.z;
                    if let Some(block) = chunk.get_block(lx, ly, lz) {
                        return Some(block);
                    }
                    proof {
                        assert(false);
                    }
                }
            },
            None => {},
        }
    }
    None
}

/// True when the block at `pos` occludes a neighbouring face: some
/// provided chunk holds a block there that is not air.
pub fn neighbour_solid(
    neighbours: &[Option<&Chunk>; 27],
    pos: &BlockCoord,
    air: BlockState,
) -> (r: bool)
    requires
        neighbours_wf(neighbourhood(neighbours)),
    ensures
        r == solid_at(neighbourhood(neighbours), air, pos.x as int, pos.y as int, pos.z as int),
{
    get_block(neighbours, pos).unwrap_or(air) != air
}

/// A run of whole quads, each translated into world space and expanded
/// into two triangles: quad `[a, b, c, d]` becomes the six vertices
/// `[a, b, d, b, c, d]`, keeping the winding order.
pub open spec fn expand_quads(
    q: Seq<BakedBlockMeshVertex>,
    cbx: int,
    cby: int,
    cbz: int,
) -> Seq<ChunkMeshVertex>
    decreases q.len(),
{
    if q.len() < 4 {
        Seq::empty()
    } else {
        let head = q.take(q.len() - 4);
        expand_quads(head, cbx, cby, cbz) + expand_group(
            q[q.len() - 4],
            q[q.len() - 3],
            q[q.len() - 2],
            q[q.len() - 1],
            cbx,
            cby,
            cbz,
        )
    }
}

/// The two triangles of one quad `[a, b, d]` and `[b, c, d]`, translated.
pub open spec fn expand_group(
    a: BakedBlockMeshVertex,
    b: BakedBlockMeshVertex,
    c: BakedBlockMeshVertex,
    d: BakedBlockMeshVertex,
    cbx: int,
    cby: int,
    cbz: int,
) -> Seq<ChunkMeshVertex> {
    seq![
        translate_vertex(a, cbx, cby, cbz),
        translate_vertex(b, cbx, cby, cbz),
        translate_vertex(d, cbx, cby, cbz),
        translate_vertex(b, cbx, cby, cbz),
        translate_vertex(c, cbx, cby, cbz),
        translate_vertex(d, cbx, cby, cbz),
    ]
}

/// The mesh contribution of the block at local coordinates `(x, y, z)`
/// of `chunk`: nothing for air; otherwise the visible faces baked for
/// its state, expanded to triangles and moved to world space.
pub open spec fn block_cell_vertices(
    bakery: StaticBlockBakery,
    chunk: Chunk,
    ns: Seq<Option<Chunk>>,
    air: BlockState,
    x: int,
    y: int,
    z: int,
) -> Seq<ChunkMeshVertex> {
    let b = chunk.block_at(x, y, z);
    if b == air {
        Seq::empty()
    } else {
        let cbx = 16 * chunk.pos.x + x;
        let cby = 16 * chunk.pos.y + y;
        let cbz = 16 * chunk.pos.z + z;
        expand_quads(
            bakery.spec_render(spec_occlusion(ns, air, cbx, cby, cbz), b),
            cbx,
            cby,
            cbz,
        )
    }
}

/// The contributions of the blocks `(0, y, z)` through `(xn - 1, y, z)`.
pub open spec fn row_vertices(
    bakery: StaticBlockBakery,
    chunk: Chunk,
    ns: Seq<Option<Chunk>>,
    air: BlockState,
    y: int,
    z: int,
    xn: int,
) -> Seq<ChunkMeshVertex>
    decreases xn,
{
    if xn <= 0 {
        Seq::empty()
    } else {
        row_vertices(bakery, chunk, ns, air, y, z, xn - 1) + block_cell_vertices(
            bakery,
            chunk,
            ns,
            air,
            xn - 1,
            y,
            z,
        )
    }
}

/// The contributions of the rows `z = 0` through `z = zn - 1` at height `y`.
pub open spec fn plane_vertices(
    bakery: StaticBlockBakery,
    chunk: Chunk,
    ns: Seq<Option<Chunk>>,
    air: BlockState,
    y: int,
    zn: int,
) -> Seq<ChunkMeshVertex>
    decreases zn,
{
    if zn <= 0 {
        Seq::empty()
    } else {
        plane_vertices(bakery, chunk, ns, air, y, zn - 1) + row_vertices(
            bakery,
            chunk,
            ns,
            air,
            y,
            zn - 1,
            16,
        )
    }
}

/// The contributions of the planes `y = 0` through `y = yn - 1`.
pub open spec fn chunk_vertices_upto(
    bakery: StaticBlockBakery,
    chunk: Chunk,
    ns: Seq<Option<Chunk>>,
    air: BlockState,
    yn: int,
) -> Seq<ChunkMeshVertex>
    decreases yn,
{
    if yn <= 0 {
        Seq::empty()
    } else {
        chunk_vertices_upto(bakery, chunk, ns, air, yn - 1) + plane_vertices(
            bakery,
            chunk,
            ns,
            air,
            yn - 1,
            16,
        )
    }
}

/// The whole vertex list the mesher produces for `chunk` within the
/// given neighbourhood: the blocks in y-major, then z, then x order.
pub open spec fn chunk_mesh_vertices(
    bakery: StaticBlockBakery,
    chunk: Chunk,
    ns: Seq<Option<Chunk>>,
    air: BlockState,
) -> Seq<ChunkMeshVertex> {
    chunk_vertices_upto(bakery, chunk, ns, air, 16)
}

/// The reusable scratch state of one mesher worker: the vertex list
/// under construction and a buffer for the quads baked for one block.
/// Reset clears both without deallocating.
pub struct MesherThreadState {
    pub vertices: Vec<ChunkMeshVertex>,
    pub quad_buf: Vec<BakedBlockMeshVertex>,
}

impl MesherThreadState {
    pub fn new() -> (r: MesherThreadState)
        ensures
            r.vertices@.len() == 0,
            r.quad_buf@.len() == 0,
    {
        MesherThreadState { vertices: Vec::new(), quad_buf: Vec::new() }
    }

    pub fn reset(&mut self)
        ensures
            final(self).vertices@.len() == 0,
            final(self).quad_buf@.len() == 0,
    {
        self.vertices.clear();
        self.quad_buf.clear();
    }
}

/// A finished chunk mesh, ready for upload: the packed vertex data, the
/// chunk position it was built for, and the vertex count reported to the
/// draw call.
pub struct ChunkMesh {
    pub pos: ChunkCoord,
    pub vertices: Vec<ChunkMeshVertex>,
    pub count: usize,
}

impl ChunkMesh {
    pub fn new(pos: ChunkCoord, vertices: Vec<ChunkMeshVertex>, count: usize) -> (r: ChunkMesh)
        ensures
            r.pos == pos,
            r.vertices == vertices,
            r.count == count,
    {
        ChunkMesh { pos, vertices, count }
    }
}

/// The graphical state of a chunk.
pub enum ChunkMeshState {
    /// Chunk is meshed but empty: no geometry, nothing to allocate.
    Empty,
    /// Chunk is meshed and full.
    Meshed(ChunkMesh),
}

fn copy_vertices(src: &Vec<ChunkMeshVertex>) -> (r: Vec<ChunkMeshVertex>)
    ensures
        r@ == src@,
{
    let mut r: Vec<ChunkMeshVertex> = Vec::new();
    let n = src.len();
    for i in 0..n
        invariant
            n == src@.len(),
            r@ == src@.take(i as int),
    {
        r.push(src[i]);
        proof {
            assert(r@ =~= src@.take(i + 1));
        }
    }
    proof {
        assert(src@.take(n as int) =~= src@);
    }
    r
}

/// Builds the upload payload for a finished vertex list. An empty list
/// yields `Empty` — no resources are tied up for an empty chunk — and a
/// non-empty list yields a mesh carrying the data verbatim, with the
/// vertex count equal to the list length (triangles are emitted
/// directly, without an index buffer).
pub fn upload(chunk: &Chunk, mesh_data: &Vec<ChunkMeshVertex>) -> (r: ChunkMeshState)
    ensures
        mesh_data@.len() == 0 ==> r is Empty,
        mesh_data@.len() > 0 ==> (r matches ChunkMeshState::Meshed(m) && m.pos == chunk.pos
            && m.vertices@ == mesh_data@ && m.count == mesh_data@.len()),
{
    if mesh_data.len() == 0 {
        return ChunkMeshState::Empty;
    }
    let vertex_count = mesh_data.len();
    let data = copy_vertices(mesh_data);
    ChunkMeshState::Meshed(ChunkMesh::new(chunk.pos, data, vertex_count))
}

/// Each quad becomes exactly six triangle vertices, so an expanded run
/// has a length divisible by six.
pub proof fn lemma_expand_len_mod6(q: Seq<BakedBlockMeshVertex>, cbx: int, cby: int, cbz: int)
    ensures
        expand_quads(q, cbx, cby, cbz).len() % 6 == 0,
    decreases q.len(),
{
    if q.len() >= 4 {
        lemma_expand_len_mod6(q.take(q.len() - 4), cbx, cby, cbz);
    }
}

proof fn lemma_row_len_mod6(
    bakery: StaticBlockBakery,
    chunk: Chunk,
    ns: Seq<Option<Chunk>>,
    air: BlockState,
    y: int,
    z: int,
    xn: int,
)
    ensures
        row_vertices(bakery, chunk, ns, air, y, z, xn).len() % 6 == 0,
    decreases xn,
{
    if xn > 0 {
        lemma_row_len_mod6(bakery, chunk, ns, air, y, z, xn - 1);
        let b = chunk.block_at(xn - 1, y, z);
        if b != air {
            lemma_expand_len_mod6(
                bakery.spec_render(
                    spec_occlusion(
                        ns,
                        air,
                        16 * chunk.pos.x + xn - 1,
                        16 * chunk.pos.y + y,
                        16 * chunk.pos.z + z,
                    ),
                    b,
                ),
                16 * chunk.pos.x + xn - 1,
                16 * chunk.pos.y + y,
                16 * chunk.pos.z + z,
            );
        }
    }
}

proof fn lemma_plane_len_mod6(
    bakery: StaticBlockBakery,
    chunk: Chunk,
    ns: Seq<Option<Chunk>>,
    air: BlockState,
    y: int,
    zn: int,
)
    ensures
        plane_vertices(bakery, chunk, ns, air, y, zn).len() % 6 == 0,
    decreases zn,
{
    if zn > 0 {
        lemma_plane_len_mod6(bakery, chunk, ns, air, y, zn - 1);
        lemma_row_len_mod6(bakery, chunk, ns, air, y, zn - 1, 16);
    }
}

proof fn lemma_upto_len_mod6(
    bakery: StaticBlockBakery,
    chunk: Chunk,
    ns: Seq<Option<Chunk>>,
    air: BlockState,
    yn: int,
)
    ensures
        chunk_vertices_upto(bakery, chunk, ns, air, yn).len() % 6 == 0,
    decreases yn,
{
    if yn > 0 {
        lemma_upto_len_mod6(bakery, chunk, ns, air, yn - 1);
        lemma_plane_len_mod6(bakery, chunk, ns, air, yn - 1, 16);
    }
}

/// The mesher only ever emits whole quads, two triangles each: the
/// vertex list of a meshed chunk has a length divisible by six.
pub proof fn lemma_mesh_len_mod6(
    bakery: StaticBlockBakery,
    chunk: Chunk,
    ns: Seq<Option<Chunk>>,
    air: BlockState,
)
    ensures
        chunk_mesh_vertices(bakery, chunk, ns, air).len() % 6 == 0,
{
    lemma_upto_len_mod6(bakery, chunk, ns, air, 16);
}

/// Meshes one chunk within its neighbourhood, reusing the worker's
/// scratch state. Walks every block in y-major, then z, then x order,
/// skips air, queries the six neighbours for occlusion (across chunk
/// borders where needed), lets the bakery emit the visible quads, and
/// appends them — expanded into two triangles each and translated into
/// world space — to the scratch vertex list, which `upload` then turns
/// into the chunk's mesh state.
///
/// The result is a pure function of the chunk, the neighbourhood and
/// the bakery: the emitted vertex list always equals
/// `chunk_mesh_vertices`, so meshing the same input twice yields
/// bit-identical vertex data.
/// Emits the contribution of the single block at local coordinates
/// `(x, y, z)`: nothing for air, otherwise the visible quads of its
/// model, expanded to triangles and translated into world space.
#[verifier::loop_isolation(false)]
#[verifier::rlimit(50)]
fn mesh_block(
    mesher: &mut MesherThreadState,
    bakery: &StaticBlockBakery,
    chunk: &Chunk,
    neighbours: &[Option<&Chunk>; 27],
    context: &mut BakeryContext,
    block_pos: &mut BlockCoord,
    air: BlockState,
    x: i64,
    y: i64,
    z: i64,
)
    requires
        bakery.wf(),
        chunk.wf(),
        neighbours_wf(neighbourhood(neighbours)),
        0 <= x < 16,
        0 <= y < 16,
        0 <= z < 16,
        old(mesher).quad_buf@.len() == 0,
    ensures
        final(mesher).vertices@ == old(mesher).vertices@ + block_cell_vertices(
            *bakery,
            *chunk,
            neighbourhood(neighbours),
            air,
            x as int,
            y as int,
            z as int,
        ),
        final(mesher).quad_buf@.len() == 0,
{
    let ghost ns = neighbourhood(neighbours);
    let ghost base = mesher.vertices@;
    let block = chunk.get_block_unchecked(x, y, z);
    if block == air {
        proof {
            assert(mesher.vertices@ =~= base + block_cell_vertices(
                *bakery,
                *chunk,
                ns,
                air,
                x as int,
                y as int,
                z as int,
            ));
        }
        return ;
    }
    let cbx = chunk.pos.x * 16 + x;
    let cby = chunk.pos.y * 16 + y;
    let cbz = chunk.pos.z * 16 + z;
    block_pos.set(cbx, cby, cbz);
    context.set_occlusion(
        neighbour_solid(neighbours, &block_pos.right(1), air),
        neighbour_solid(neighbours, &block_pos.up(1), air),
        neighbour_solid(neighbours, &block_pos.backward(1), air),
        neighbour_solid(neighbours, &block_pos.left(1), air),
        neighbour_solid(neighbours, &block_pos.down(1), air),
        neighbour_solid(neighbours, &block_pos.forward(1), air),
        true,
    );
    proof {
        assert(*context == spec_occlusion(ns, air, cbx as int, cby as int, cbz as int));
    }
    bakery.render_block(context, &block, &mut mesher.quad_buf);
    let ghost emitted = bakery.spec_render(*context, block);
    proof {
        assert(mesher.quad_buf@ =~= emitted);
        lemma_rendered_len_mod4(bakery.spec_model_faces(block), *context);
        if block.id < bakery.models@.len() {
            assert(bakery.models@[block.id as int].wf());
        }
        lemma_rendered_vertex_wf(bakery.spec_model_faces(block), *context);
    }
    let offset = (cbx, cby, cbz);
    let total = mesher.quad_buf.len();
    let groups = total / 4;
    for qi in 0..groups
        invariant
            total == mesher.quad_buf@.len(),
            total % 4 == 0,
            groups == total / 4,
            mesher.quad_buf@ == emitted,
            mesher.vertices@ == base + expand_quads(
                emitted.take(4 * qi as int),
                cbx as int,
                cby as int,
                cbz as int,
            ),
            forall|j: int| 0 <= j < emitted.len() ==> baked_vertex_wf(#[trigger] emitted[j]),
    {
        let qa = mesher.quad_buf[4 * qi];
        let qb = mesher.quad_buf[4 * qi + 1];
        let qc = mesher.quad_buf[4 * qi + 2];
        let qd = mesher.quad_buf[4 * qi + 3];
        mesher.vertices.push(ChunkMeshVertex::new_from(&qa, &offset));
        mesher.vertices.push(ChunkMeshVertex::new_from(&qb, &offset));
        mesher.vertices.push(ChunkMeshVertex::new_from(&qd, &offset));
        mesher.vertices.push(ChunkMeshVertex::new_from(&qb, &offset));
        mesher.vertices.push(ChunkMeshVertex::new_from(&qc, &offset));
        mesher.vertices.push(ChunkMeshVertex::new_from(&qd, &offset));
        proof {
            let t = emitted.take(4 * (qi + 1) as int);
            assert(t.take(t.len() - 4) =~= emitted.take(4 * qi as int));
            assert(t[t.len() - 4] == qa);
            assert(t[t.len() - 3] == qb);
            assert(t[t.len() - 2] == qc);
            assert(t[t.len() - 1] == qd);
            assert(mesher.vertices@ =~= base + expand_quads(
                t,
                cbx as int,
                cby as int,
                cbz as int,
            ));
        }
    }
    mesher.quad_buf.clear();
    proof {
        assert(emitted.take(4 * (total / 4) as int) =~= emitted);
        assert(block_cell_vertices(*bakery, *chunk, ns, air, x as int, y as int, z as int)
            == expand_quads(emitted, cbx as int, cby as int, cbz as int));
    }
}

#[verifier::loop_isolation(false)]
#[verifier::rlimit(50)]
pub fn mesh_chunk(
    mesher: &mut MesherThreadState,
    blocks: &Blocks,
    bakery: &StaticBlockBakery,
    chunk: &Chunk,
    neighbours: &[Option<&Chunk>; 27],
) -> (r: ChunkMeshState)
    requires
        blocks.wf(),
        bakery.wf(),
        chunk.wf(),
        neighbours_wf(neighbourhood(neighbours)),
    ensures
        final(mesher).vertices@ == chunk_mesh_vertices(
            *bakery,
            *chunk,
            neighbourhood(neighbours),
            blocks.air_state(),
        ),
        final(mesher).quad_buf@.len() == 0,
        (chunk_mesh_vertices(*bakery, *chunk, neighbourhood(neighbours), blocks.air_state()).len()
            == 0) <==> (r is Empty),
        r matches ChunkMeshState::Meshed(m) ==> {
            &&& m.pos == chunk.pos
            &&& m.vertices@ == chunk_mesh_vertices(
                *bakery,
                *chunk,
                neighbourhood(neighbours),
                blocks.air_state(),
            )
            &&& m.count == m.vertices@.len()
            &&& m.count % 6 == 0
        },
{
    let ghost ns = neighbourhood(neighbours);
    mesher.reset();
    proof {
        assert(blocks.name_index("air"@) == 0);
    }
    let air = blocks.get_block_by_name_unchecked("air").get_default_state();
    proof {
        assert(air == blocks.air_state());
    }
    let mut context = BakeryContext::new();
    let mut block_pos = BlockCoord::new(0, 0, 0);
    for y in 0i64..16i64
        invariant
            mesher.vertices@ == chunk_vertices_upto(*bakery, *chunk, ns, air, y as int),
            mesher.quad_buf@.len() == 0,
    {
        for z in 0i64..16i64
            invariant
                mesher.vertices@ == chunk_vertices_upto(*bakery, *chunk, ns, air, y as int)
                    + plane_vertices(*bakery, *chunk, ns, air, y as int, z as int),
                mesher.quad_buf@.len() == 0,
        {
            for x in 0i64..16i64
                invariant
                    mesher.vertices@ == chunk_vertices_upto(*bakery, *chunk, ns, air, y as int)
                        + plane_vertices(*bakery, *chunk, ns, air, y as int, z as int)
                        + row_vertices(*bakery, *chunk, ns, air, y as int, z as int, x as int),
                    mesher.quad_buf@.len() == 0,
            {
                mesh_block(mesher, bakery, chunk, neighbours, &mut context, &mut block_pos, air, x, y, z);
                proof {
                    assert(mesher.vertices@ =~= chunk_vertices_upto(
                        *bakery,
                        *chunk,
                        ns,
                        air,
                        y as int,
                    ) + plane_vertices(*bakery, *chunk, ns, air, y as int, z as int)
                        + row_vertices(*bakery, *chunk, ns, air, y as int, z as int, x as int + 1));
                }
            }
            proof {
                assert(mesher.vertices@ =~= chunk_vertices_upto(*bakery, *chunk, ns, air, y as int)
                    + plane_vertices(*bakery, *chunk, ns, air, y as int, z as int + 1));
            }
        }
        proof {
            assert(mesher.vertices@ =~= chunk_vertices_upto(*bakery, *chunk, ns, air, y as int + 1));
        }
    }
    proof {
        lemma_mesh_len_mod6(*bakery, *chunk, ns, air);
    }
    upload(chunk, &mesher.vertices)
}

/// Meshes one chunk with fresh scratch buffers. The result is `Empty`
/// exactly when no block contributes geometry; otherwise it carries the
/// vertex list `chunk_mesh_vertices` verbatim, with the vertex count —
/// always a multiple of six — reported for the draw call.
pub fn mesh(
    blocks: &Blocks,
    bakery: &StaticBlockBakery,
    chunk: &Chunk,
    neighbours: &[Option<&Chunk>; 27],
) -> (r: ChunkMeshState)
    requires
        blocks.wf(),
        bakery.wf(),
        chunk.wf(),
        neighbours_wf(neighbourhood(neighbours)),
    ensures
        (chunk_mesh_vertices(*bakery, *chunk, neighbourhood(neighbours), blocks.air_state()).len()
            == 0) <==> (r is Empty),
        r matches ChunkMeshState::Meshed(m) ==> {
            &&& m.pos == chunk.pos
            &&& m.vertices@ == chunk_mesh_vertices(
                *bakery,
                *chunk,
                neighbourhood(neighbours),
                blocks.air_state(),
            )
            &&& m.count == m.vertices@.len()
            &&& m.count % 6 == 0
        },
{
    let mut mesher = MesherThreadState::new();
    mesh_chunk(&mut mesher, blocks, bakery, chunk, neighbours)
}

} // verus!
