//! The library's laws: properties of the mesher, stated over the same
//! spec functions that the executable functions' contracts use, and
//! proved once and for all.

use vstd::prelude::*;
use crate::bakery::{
    baked_vertex_wf, face_visible, faces_without_side, lemma_rendered_all_visible,
    lemma_rendered_none_visible, lemma_rendered_vertex_wf, lemma_side_culling, rendered_faces,
    side_occluded, BakedBlockMeshVertex, Side, StaticBlockBakery, BLOCK_UNIT,
};
use crate::chunk::Chunk;
use crate::coords::chunk_contains;
use crate::mesher::{
    block_cell_vertices, block_coord_in_range, chunk_mesh_vertices, chunk_vertices_upto,
    expand_group, expand_quads, plane_vertices, row_vertices, spec_lookup, spec_lookup_from,
    spec_occlusion, translate_vertex,
};
use crate::registry::BlockState;

verus! {

/// Quad-to-triangle expansion: a single quad `[a, b, c, d]` expands to
/// exactly the triangles `[a, b, d]` and `[b, c, d]`, in that order and
/// with the original winding, each vertex translated by the block's
/// absolute coordinates.
pub proof fn lemma_quad_expansion(q: Seq<BakedBlockMeshVertex>, cbx: int, cby: int, cbz: int)
    requires
        q.len() == 4,
    ensures
        expand_quads(q, cbx, cby, cbz) == seq![
            translate_vertex(q[0], cbx, cby, cbz),
            translate_vertex(q[1], cbx, cby, cbz),
            translate_vertex(q[3], cbx, cby, cbz),
            translate_vertex(q[1], cbx, cby, cbz),
            translate_vertex(q[2], cbx, cby, cbz),
            translate_vertex(q[3], cbx, cby, cbz),
        ],
{
    assert(expand_quads(q.take(0), cbx, cby, cbz) =~= Seq::<crate::mesher::ChunkMeshVertex>::empty());
    assert(expand_quads(q, cbx, cby, cbz) =~= expand_group(q[0], q[1], q[2], q[3], cbx, cby, cbz));
}

proof fn lemma_row_air(
    bakery: StaticBlockBakery,
    chunk: Chunk,
    ns: Seq<Option<Chunk>>,
    air: BlockState,
    y: int,
    z: int,
    xn: int,
)
    requires
        forall|x: int| 0 <= x < xn ==> #[trigger] chunk.block_at(x, y, z) == air,
    ensures
        row_vertices(bakery, chunk, ns, air, y, z, xn).len() == 0,
    decreases xn,
{
    if xn > 0 {
        lemma_row_air(bakery, chunk, ns, air, y, z, xn - 1);
    }
}

proof fn lemma_plane_air(
    bakery: StaticBlockBakery,
    chunk: Chunk,
    ns: Seq<Option<Chunk>>,
    air: BlockState,
    y: int,
    zn: int,
)
    requires
        forall|x: int, z: int|
            0 <= x < 16 && 0 <= z < zn ==> #[trigger] chunk.block_at(x, y, z) == air,
    ensures
        plane_vertices(bakery, chunk, ns, air, y, zn).len() == 0,
    decreases zn,
{
    if zn > 0 {
        lemma_plane_air(bakery, chunk, ns, air, y, zn - 1);
        lemma_row_air(bakery, chunk, ns, air, y, zn - 1, 16);
    }
}

proof fn lemma_upto_air(
    bakery: StaticBlockBakery,
    chunk: Chunk,
    ns: Seq<Option<Chunk>>,
    air: BlockState,
    yn: int,
)
    requires
        forall|x: int, y: int, z: int|
            0 <= x < 16 && 0 <= y < yn && 0 <= z < 16 ==> #[trigger] chunk.block_at(x, y, z)
                == air,
    ensures
        chunk_vertices_upto(bakery, chunk, ns, air, yn).len() == 0,
    decreases yn,
{
    if yn > 0 {
        lemma_upto_air(bakery, chunk, ns, air, yn - 1);
        lemma_plane_air(bakery, chunk, ns, air, yn - 1, 16);
    }
}

/// A chunk made entirely of air produces no geometry at all, whatever
/// the neighbourhood and the bakery: the mesher's vertex list is empty,
/// so `mesh` reports `Empty` and nothing is handed to the uploader.
pub proof fn lemma_air_chunk_empty(
    bakery: StaticBlockBakery,
    chunk: Chunk,
    ns: Seq<Option<Chunk>>,
    air: BlockState,
)
    requires
        forall|x: int, y: int, z: int|
            0 <= x < 16 && 0 <= y < 16 && 0 <= z < 16 ==> #[trigger] chunk.block_at(x, y, z)
                == air,
    ensures
        chunk_mesh_vertices(bakery, chunk, ns, air).len() == 0,
{
    lemma_upto_air(bakery, chunk, ns, air, 16);
}

proof fn lemma_row_single(
    bakery: StaticBlockBakery,
    chunk: Chunk,
    ns: Seq<Option<Chunk>>,
    air: BlockState,
    y: int,
    z: int,
    xn: int,
    bx: int,
)
    requires
        0 <= bx,
        forall|x: int| 0 <= x < xn && x != bx ==> #[trigger] chunk.block_at(x, y, z) == air,
    ensures
        bx < xn ==> row_vertices(bakery, chunk, ns, air, y, z, xn) == block_cell_vertices(
            bakery,
            chunk,
            ns,
            air,
            bx,
            y,
            z,
        ),
        xn <= bx ==> row_vertices(bakery, chunk, ns, air, y, z, xn).len() == 0,
    decreases xn,
{
    if xn > 0 {
        lemma_row_single(bakery, chunk, ns, air, y, z, xn - 1, bx);
        if bx == xn - 1 {
            assert(row_vertices(bakery, chunk, ns, air, y, z, xn) =~= block_cell_vertices(
                bakery,
                chunk,
                ns,
                air,
                bx,
                y,
                z,
            ));
        } else if bx < xn - 1 {
            assert(row_vertices(bakery, chunk, ns, air, y, z, xn) =~= row_vertices(
                bakery,
                chunk,
                ns,
                air,
                y,
                z,
                xn - 1,
            ));
        }
    }
}

proof fn lemma_plane_single(
    bakery: StaticBlockBakery,
    chunk: Chunk,
    ns: Seq<Option<Chunk>>,
    air: BlockState,
    y: int,
    zn: int,
    bz: int,
)
    requires
        0 <= bz,
        forall|x: int, z: int|
            0 <= x < 16 && 0 <= z < zn && z != bz ==> #[trigger] chunk.block_at(x, y, z) == air,
    ensures
        bz < zn ==> plane_vertices(bakery, chunk, ns, air, y, zn) == row_vertices(
            bakery,
            chunk,
            ns,
            air,
            y,
            bz,
            16,
        ),
        zn <= bz ==> plane_vertices(bakery, chunk, ns, air, y, zn).len() == 0,
    decreases zn,
{
    if zn > 0 {
        lemma_plane_single(bakery, chunk, ns, air, y, zn - 1, bz);
        if bz == zn - 1 {
            lemma_plane_air(bakery, chunk, ns, air, y, zn - 1);
            assert(plane_vertices(bakery, chunk, ns, air, y, zn) =~= row_vertices(
                bakery,
                chunk,
                ns,
                air,
                y,
                bz,
                16,
            ));
        } else {
            lemma_row_air(bakery, chunk, ns, air, y, zn - 1, 16);
            assert(plane_vertices(bakery, chunk, ns, air, y, zn) =~= plane_vertices(
                bakery,
                chunk,
                ns,
                air,
                y,
                zn - 1,
            ));
        }
    }
}

proof fn lemma_upto_single(
    bakery: StaticBlockBakery,
    chunk: Chunk,
    ns: Seq<Option<Chunk>>,
    air: BlockState,
    yn: int,
    by: int,
)
    requires
        0 <= by,
        forall|x: int, y: int, z: int|
            0 <= x < 16 && 0 <= y < yn && 0 <= z < 16 && y != by ==> #[trigger] chunk.block_at(
                x,
                y,
                z,
            ) == air,
    ensures
        by < yn ==> chunk_vertices_upto(bakery, chunk, ns, air, yn) == plane_vertices(
            bakery,
            chunk,
            ns,
            air,
            by,
            16,
        ),
        yn <= by ==> chunk_vertices_upto(bakery, chunk, ns, air, yn).len() == 0,
    decreases yn,
{
    if yn > 0 {
        lemma_upto_single(bakery, chunk, ns, air, yn - 1, by);
        if by == yn - 1 {
            lemma_upto_air(bakery, chunk, ns, air, yn - 1);
            assert(chunk_vertices_upto(bakery, chunk, ns, air, yn) =~= plane_vertices(
                bakery,
                chunk,
                ns,
                air,
                by,
                16,
            ));
        } else {
            lemma_plane_air(bakery, chunk, ns, air, yn - 1, 16);
            assert(chunk_vertices_upto(bakery, chunk, ns, air, yn) =~= chunk_vertices_upto(
                bakery,
                chunk,
                ns,
                air,
                yn - 1,
            ));
        }
    }
}

/// When a single block of the chunk is not air, the whole mesh is that
/// block's own contribution: every other cell adds nothing.
pub proof fn lemma_single_solid_block(
    bakery: StaticBlockBakery,
    chunk: Chunk,
    ns: Seq<Option<Chunk>>,
    air: BlockState,
    bx: int,
    by: int,
    bz: int,
)
    requires
        0 <= bx < 16,
        0 <= by < 16,
        0 <= bz < 16,
        forall|x: int, y: int, z: int|
            0 <= x < 16 && 0 <= y < 16 && 0 <= z < 16 && !(x == bx && y == by && z == bz)
                ==> #[trigger] chunk.block_at(x, y, z) == air,
    ensures
        chunk_mesh_vertices(bakery, chunk, ns, air) == block_cell_vertices(
            bakery,
            chunk,
            ns,
            air,
            bx,
            by,
            bz,
        ),
{
    lemma_upto_single(bakery, chunk, ns, air, 16, by);
    lemma_plane_single(bakery, chunk, ns, air, by, 16, bz);
    lemma_row_single(bakery, chunk, ns, air, by, bz, 16, bx);
}

/// Each whole run of quads expands to six vertices per quad.
pub proof fn lemma_expand_len(q: Seq<BakedBlockMeshVertex>, cbx: int, cby: int, cbz: int)
    requires
        q.len() % 4 == 0,
    ensures
        expand_quads(q, cbx, cby, cbz).len() == q.len() / 4 * 6,
    decreases q.len(),
{
    if q.len() >= 4 {
        let head = q.take(q.len() - 4);
        assert(head.len() % 4 == 0 && head.len() / 4 == q.len() / 4 - 1) by (nonlinear_arith)
            requires
                head.len() == q.len() - 4,
                q.len() % 4 == 0,
                q.len() >= 4,
        ;
        lemma_expand_len(head, cbx, cby, cbz);
    }
}

/// A single solid block whose six neighbours are all unresolved or air
/// keeps every face: the chunk's mesh holds six vertices (two
/// triangles) for each face of the block's model — for a full cube,
/// six faces and 36 vertices.
pub proof fn lemma_single_visible_block_count(
    bakery: StaticBlockBakery,
    chunk: Chunk,
    ns: Seq<Option<Chunk>>,
    air: BlockState,
    bx: int,
    by: int,
    bz: int,
)
    requires
        0 <= bx < 16,
        0 <= by < 16,
        0 <= bz < 16,
        forall|x: int, y: int, z: int|
            0 <= x < 16 && 0 <= y < 16 && 0 <= z < 16 && !(x == bx && y == by && z == bz)
                ==> #[trigger] chunk.block_at(x, y, z) == air,
        chunk.block_at(bx, by, bz) != air,
        !crate::mesher::solid_at(ns, air, 16 * chunk.pos.x + bx + 1, 16 * chunk.pos.y + by, 16 * chunk.pos.z + bz),
        !crate::mesher::solid_at(ns, air, 16 * chunk.pos.x + bx - 1, 16 * chunk.pos.y + by, 16 * chunk.pos.z + bz),
        !crate::mesher::solid_at(ns, air, 16 * chunk.pos.x + bx, 16 * chunk.pos.y + by + 1, 16 * chunk.pos.z + bz),
        !crate::mesher::solid_at(ns, air, 16 * chunk.pos.x + bx, 16 * chunk.pos.y + by - 1, 16 * chunk.pos.z + bz),
        !crate::mesher::solid_at(ns, air, 16 * chunk.pos.x + bx, 16 * chunk.pos.y + by, 16 * chunk.pos.z + bz + 1),
        !crate::mesher::solid_at(ns, air, 16 * chunk.pos.x + bx, 16 * chunk.pos.y + by, 16 * chunk.pos.z + bz - 1),
    ensures
        chunk_mesh_vertices(bakery, chunk, ns, air).len() == 6 * bakery.spec_model_faces(
            chunk.block_at(bx, by, bz),
        ).len(),
{
    lemma_single_solid_block(bakery, chunk, ns, air, bx, by, bz);
    let b = chunk.block_at(bx, by, bz);
    let cbx = 16 * chunk.pos.x + bx;
    let cby = 16 * chunk.pos.y + by;
    let cbz = 16 * chunk.pos.z + bz;
    let ctx = spec_occlusion(ns, air, cbx, cby, cbz);
    let faces = bakery.spec_model_faces(b);
    assert(forall|i: int|
        0 <= i < faces.len() ==> face_visible(ctx, (#[trigger] faces[i]).side));
    lemma_rendered_all_visible(faces, ctx);
    lemma_expand_len(bakery.spec_render(ctx, b), cbx, cby, cbz);
    assert((4 * faces.len()) as int / 4 == faces.len()) by (nonlinear_arith);
}

/// A block whose six neighbours are all solid contributes nothing: all
/// of its faces are culled, whatever its model.
pub proof fn lemma_fully_occluded_block(
    bakery: StaticBlockBakery,
    chunk: Chunk,
    ns: Seq<Option<Chunk>>,
    air: BlockState,
    bx: int,
    by: int,
    bz: int,
)
    requires
        crate::mesher::solid_at(ns, air, 16 * chunk.pos.x + bx + 1, 16 * chunk.pos.y + by, 16 * chunk.pos.z + bz),
        crate::mesher::solid_at(ns, air, 16 * chunk.pos.x + bx - 1, 16 * chunk.pos.y + by, 16 * chunk.pos.z + bz),
        crate::mesher::solid_at(ns, air, 16 * chunk.pos.x + bx, 16 * chunk.pos.y + by + 1, 16 * chunk.pos.z + bz),
        crate::mesher::solid_at(ns, air, 16 * chunk.pos.x + bx, 16 * chunk.pos.y + by - 1, 16 * chunk.pos.z + bz),
        crate::mesher::solid_at(ns, air, 16 * chunk.pos.x + bx, 16 * chunk.pos.y + by, 16 * chunk.pos.z + bz + 1),
        crate::mesher::solid_at(ns, air, 16 * chunk.pos.x + bx, 16 * chunk.pos.y + by, 16 * chunk.pos.z + bz - 1),
    ensures
        block_cell_vertices(bakery, chunk, ns, air, bx, by, bz).len() == 0,
{
    let b = chunk.block_at(bx, by, bz);
    if b != air {
        let cbx = 16 * chunk.pos.x + bx;
        let cby = 16 * chunk.pos.y + by;
        let cbz = 16 * chunk.pos.z + bz;
        let ctx = spec_occlusion(ns, air, cbx, cby, cbz);
        let faces = bakery.spec_model_faces(b);
        assert(forall|i: int|
            0 <= i < faces.len() ==> !face_visible(ctx, (#[trigger] faces[i]).side));
        lemma_rendered_none_visible(faces, ctx);
    }
}

proof fn lemma_expand_in_bounds(
    q: Seq<BakedBlockMeshVertex>,
    cbx: int,
    cby: int,
    cbz: int,
)
    requires
        forall|k: int| 0 <= k < q.len() ==> baked_vertex_wf(#[trigger] q[k]),
        block_coord_in_range(cbx),
        block_coord_in_range(cby),
        block_coord_in_range(cbz),
    ensures
        forall|j: int|
            0 <= j < expand_quads(q, cbx, cby, cbz).len() ==> {
                let v = #[trigger] expand_quads(q, cbx, cby, cbz)[j];
                &&& cbx * BLOCK_UNIT <= v.x <= (cbx + 1) * BLOCK_UNIT
                &&& cby * BLOCK_UNIT <= v.y <= (cby + 1) * BLOCK_UNIT
                &&& cbz * BLOCK_UNIT <= v.z <= (cbz + 1) * BLOCK_UNIT
            },
    decreases q.len(),
{
    if q.len() >= 4 {
        let head = q.take(q.len() - 4);
        assert(forall|k: int| 0 <= k < head.len() ==> baked_vertex_wf(#[trigger] head[k]));
        lemma_expand_in_bounds(head, cbx, cby, cbz);
        let pre = expand_quads(head, cbx, cby, cbz);
        let whole = expand_quads(q, cbx, cby, cbz);
        let tail = expand_group(
            q[q.len() - 4],
            q[q.len() - 3],
            q[q.len() - 2],
            q[q.len() - 1],
            cbx,
            cby,
            cbz,
        );
        assert forall|j: int| #![trigger whole[j]] 0 <= j < whole.len() implies {
            let v = whole[j];
            &&& cbx * BLOCK_UNIT <= v.x <= (cbx + 1) * BLOCK_UNIT
            &&& cby * BLOCK_UNIT <= v.y <= (cby + 1) * BLOCK_UNIT
            &&& cbz * BLOCK_UNIT <= v.z <= (cbz + 1) * BLOCK_UNIT
        } by {
            if j < pre.len() {
                assert(whole[j] == pre[j]);
            } else {
                assert(whole[j] == tail[j - pre.len()]);
                assert(baked_vertex_wf(q[q.len() - 4]));
                assert(baked_vertex_wf(q[q.len() - 3]));
                assert(baked_vertex_wf(q[q.len() - 2]));
                assert(baked_vertex_wf(q[q.len() - 1]));
            }
        }
    }
}

/// Every vertex a block contributes lies inside that block's own unit
/// cube in world space: the baked geometry is translated by exactly the
/// block's absolute coordinates. A block at local (0, 0, 0) of chunk
/// (1, 0, 0) emits x coordinates within `[16, 17]` blocks.
pub proof fn lemma_block_vertex_translation(
    bakery: StaticBlockBakery,
    chunk: Chunk,
    ns: Seq<Option<Chunk>>,
    air: BlockState,
    bx: int,
    by: int,
    bz: int,
)
    requires
        bakery.wf(),
        chunk.wf(),
        0 <= bx < 16,
        0 <= by < 16,
        0 <= bz < 16,
    ensures
        forall|j: int|
            0 <= j < block_cell_vertices(bakery, chunk, ns, air, bx, by, bz).len() ==> {
                let v = #[trigger] block_cell_vertices(bakery, chunk, ns, air, bx, by, bz)[j];
                &&& (16 * chunk.pos.x + bx) * BLOCK_UNIT <= v.x <= (16 * chunk.pos.x + bx + 1)
                    * BLOCK_UNIT
                &&& (16 * chunk.pos.y + by) * BLOCK_UNIT <= v.y <= (16 * chunk.pos.y + by + 1)
                    * BLOCK_UNIT
                &&& (16 * chunk.pos.z + bz) * BLOCK_UNIT <= v.z <= (16 * chunk.pos.z + bz + 1)
                    * BLOCK_UNIT
            },
{
    let b = chunk.block_at(bx, by, bz);
    if b != air {
        let cbx = 16 * chunk.pos.x + bx;
        let cby = 16 * chunk.pos.y + by;
        let cbz = 16 * chunk.pos.z + bz;
        let ctx = spec_occlusion(ns, air, cbx, cby, cbz);
        let faces = bakery.spec_model_faces(b);
        if b.id < bakery.models@.len() {
            assert(bakery.models@[b.id as int].wf());
        }
        lemma_rendered_vertex_wf(faces, ctx);
        lemma_expand_in_bounds(bakery.spec_render(ctx, b), cbx, cby, cbz);
    }
}

proof fn lemma_lookup_no_match_prefix(
    ns: Seq<Option<Chunk>>,
    x: int,
    y: int,
    z: int,
    i: int,
)
    requires
        0 <= i <= ns.len(),
        forall|j: int|
            0 <= j < i ==> match #[trigger] ns[j] {
                Some(d) => !chunk_contains(d.pos, x, y, z),
                None => true,
            },
    ensures
        spec_lookup(ns, x, y, z) == spec_lookup_from(ns, x, y, z, i),
    decreases i,
{
    if i > 0 {
        lemma_lookup_no_match_prefix(ns, x, y, z, i - 1);
    }
}

/// The default-to-visible policy: when no chunk of the neighbourhood
/// contains a position (a world edge or an unloaded chunk), the lookup
/// resolves to `None`, so the position does not occlude and the face
/// stays drawn.
pub proof fn lemma_lookup_none(ns: Seq<Option<Chunk>>, x: int, y: int, z: int)
    requires
        forall|j: int|
            0 <= j < ns.len() ==> match #[trigger] ns[j] {
                Some(d) => !chunk_contains(d.pos, x, y, z),
                None => true,
            },
    ensures
        spec_lookup(ns, x, y, z) is None,
{
    lemma_lookup_no_match_prefix(ns, x, y, z, ns.len() as int);
}

/// Cross-chunk occlusion. Take a block at the +x edge of chunk `a`,
/// at local coordinates `(15, ly, lz)`. With a neighbourhood whose
/// first chunk containing the position beyond the edge is `b` — the
/// chunk at `a`'s +x side — and a solid block at `b`'s local
/// `(0, ly, lz)`, the +x face of the edge block is marked occluded and
/// culled. In a neighbourhood where no chunk contains that position,
/// the +x face is visible again.
pub proof fn lemma_cross_chunk_occlusion(
    ns_with: Seq<Option<Chunk>>,
    ns_without: Seq<Option<Chunk>>,
    a: Chunk,
    b: Chunk,
    i: int,
    ly: int,
    lz: int,
    air: BlockState,
)
    requires
        0 <= ly < 16,
        0 <= lz < 16,
        b.pos.x == a.pos.x + 1,
        b.pos.y == a.pos.y,
        b.pos.z == a.pos.z,
        b.block_at(0, ly, lz) != air,
        0 <= i < ns_with.len(),
        ns_with[i] == Some(b),
        forall|j: int|
            0 <= j < i ==> match #[trigger] ns_with[j] {
                Some(d) => !chunk_contains(
                    d.pos,
                    16 * a.pos.x + 16,
                    16 * a.pos.y + ly,
                    16 * a.pos.z + lz,
                ),
                None => true,
            },
        forall|j: int|
            0 <= j < ns_without.len() ==> match #[trigger] ns_without[j] {
                Some(d) => !chunk_contains(
                    d.pos,
                    16 * a.pos.x + 16,
                    16 * a.pos.y + ly,
                    16 * a.pos.z + lz,
                ),
                None => true,
            },
    ensures
        spec_occlusion(
            ns_with,
            air,
            16 * a.pos.x + 15,
            16 * a.pos.y + ly,
            16 * a.pos.z + lz,
        ).occlude_pos_x,
        !spec_occlusion(
            ns_without,
            air,
            16 * a.pos.x + 15,
            16 * a.pos.y + ly,
            16 * a.pos.z + lz,
        ).occlude_pos_x,
{
    let px = 16 * a.pos.x + 16;
    let py = 16 * a.pos.y + ly;
    let pz = 16 * a.pos.z + lz;
    lemma_lookup_no_match_prefix(ns_with, px, py, pz, i);
    assert(chunk_contains(b.pos, px, py, pz));
    assert(spec_lookup_from(ns_with, px, py, pz, i) == Some(b.block_at(0, ly, lz)));
    lemma_lookup_none(ns_without, px, py, pz);
}

/// When the +x neighbour of a solid block is itself solid, that block's
/// contribution is exactly what its model yields with every +x face
/// removed: the occluded face is culled and nothing else changes.
pub proof fn lemma_occluded_px_face_culled(
    bakery: StaticBlockBakery,
    chunk: Chunk,
    ns: Seq<Option<Chunk>>,
    air: BlockState,
    bx: int,
    by: int,
    bz: int,
)
    requires
        chunk.block_at(bx, by, bz) != air,
        crate::mesher::solid_at(
            ns,
            air,
            16 * chunk.pos.x + bx + 1,
            16 * chunk.pos.y + by,
            16 * chunk.pos.z + bz,
        ),
    ensures
        block_cell_vertices(bakery, chunk, ns, air, bx, by, bz) == expand_quads(
            rendered_faces(
                faces_without_side(bakery.spec_model_faces(chunk.block_at(bx, by, bz)), Side::PosX),
                spec_occlusion(
                    ns,
                    air,
                    16 * chunk.pos.x + bx,
                    16 * chunk.pos.y + by,
                    16 * chunk.pos.z + bz,
                ),
            ),
            16 * chunk.pos.x + bx,
            16 * chunk.pos.y + by,
            16 * chunk.pos.z + bz,
        ),
{
    let b = chunk.block_at(bx, by, bz);
    let cbx = 16 * chunk.pos.x + bx;
    let cby = 16 * chunk.pos.y + by;
    let cbz = 16 * chunk.pos.z + bz;
    let ctx = spec_occlusion(ns, air, cbx, cby, cbz);
    lemma_side_culling(bakery.spec_model_faces(b), ctx, Side::PosX);
}

} // verus!
