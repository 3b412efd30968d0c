use chunk_mesher::{
    mesh, mesh_chunk, setup, BakedBlockMeshVertex, BakedFace, BlockModel, BlockState, Chunk,
    ChunkCoord, ChunkMeshState, ChunkMeshVertex, MesherThreadState, Quad, Side,
    StaticBlockBakery, BLOCK_UNIT,
};

fn single_block_world() -> (chunk_mesher::Blocks, StaticBlockBakery, Chunk, BlockState) {
    let (blocks, bakery, _chunks) = setup();
    let air = blocks.get_block_by_name_unchecked("air").get_default_state();
    let adm = blocks.get_block_by_name_unchecked("adm").get_default_state();
    let mut chunk = Chunk::new(ChunkCoord::new(0, 0, 0), air);
    chunk.set_block(8, 8, 8, adm);
    (blocks, bakery, chunk, adm)
}

fn solid_chunk(pos: ChunkCoord, state: BlockState) -> Chunk {
    Chunk::new(pos, state)
}

#[test]
fn air_chunk_is_empty() {
    let (blocks, bakery, _chunks) = setup();
    let air = blocks.get_block_by_name_unchecked("air").get_default_state();
    let chunk = Chunk::new(ChunkCoord::new(0, 0, 0), air);
    let ns: [Option<&Chunk>; 27] = [None; 27];
    let state = mesh(&blocks, &bakery, &chunk, &ns);
    assert!(matches!(state, ChunkMeshState::Empty));
}

#[test]
fn air_chunk_leaves_scratch_empty() {
    let (blocks, bakery, _chunks) = setup();
    let air = blocks.get_block_by_name_unchecked("air").get_default_state();
    let chunk = Chunk::new(ChunkCoord::new(2, -1, 3), air);
    let ns: [Option<&Chunk>; 27] = [None; 27];
    let mut mesher = MesherThreadState::new();
    let state = mesh_chunk(&mut mesher, &blocks, &bakery, &chunk, &ns);
    assert!(matches!(state, ChunkMeshState::Empty));
    assert_eq!(mesher.vertices.len(), 0);
    assert_eq!(mesher.quad_buf.len(), 0);
}

#[test]
fn single_block_all_faces() {
    let (blocks, bakery, chunk, _adm) = single_block_world();
    let ns: [Option<&Chunk>; 27] = [None; 27];
    match mesh(&blocks, &bakery, &chunk, &ns) {
        ChunkMeshState::Meshed(m) => {
            assert_eq!(m.count, 36);
            assert_eq!(m.vertices.len(), 36);
            assert_eq!(m.count % 6, 0);
        }
        ChunkMeshState::Empty => panic!("a single solid block must produce geometry"),
    }
}

#[test]
fn fully_occluded_chunk_is_empty() {
    let (blocks, bakery, _chunks) = setup();
    let adm = blocks.get_block_by_name_unchecked("adm").get_default_state();
    let center = solid_chunk(ChunkCoord::new(0, 0, 0), adm);
    let px = solid_chunk(ChunkCoord::new(1, 0, 0), adm);
    let nx = solid_chunk(ChunkCoord::new(-1, 0, 0), adm);
    let py = solid_chunk(ChunkCoord::new(0, 1, 0), adm);
    let ny = solid_chunk(ChunkCoord::new(0, -1, 0), adm);
    let pz = solid_chunk(ChunkCoord::new(0, 0, 1), adm);
    let nz = solid_chunk(ChunkCoord::new(0, 0, -1), adm);
    let mut ns: [Option<&Chunk>; 27] = [None; 27];
    ns[0] = Some(&center);
    ns[1] = Some(&px);
    ns[2] = Some(&nx);
    ns[3] = Some(&py);
    ns[4] = Some(&ny);
    ns[5] = Some(&pz);
    ns[6] = Some(&nz);
    let state = mesh(&blocks, &bakery, &center, &ns);
    assert!(matches!(state, ChunkMeshState::Empty));
}

#[test]
fn vertex_translation_range() {
    let (blocks, bakery, _chunks) = setup();
    let air = blocks.get_block_by_name_unchecked("air").get_default_state();
    let adm = blocks.get_block_by_name_unchecked("adm").get_default_state();
    let mut chunk = Chunk::new(ChunkCoord::new(1, 0, 0), air);
    chunk.set_block(0, 0, 0, adm);
    let ns: [Option<&Chunk>; 27] = [None; 27];
    match mesh(&blocks, &bakery, &chunk, &ns) {
        ChunkMeshState::Meshed(m) => {
            assert_eq!(m.vertices.len(), 36);
            for v in &m.vertices {
                assert!(16 * BLOCK_UNIT <= v.x && v.x <= 17 * BLOCK_UNIT);
                assert!(0 <= v.y && v.y <= BLOCK_UNIT);
                assert!(0 <= v.z && v.z <= BLOCK_UNIT);
            }
        }
        ChunkMeshState::Empty => panic!("block must produce geometry"),
    }
}

#[test]
fn meshing_twice_is_identical() {
    let (blocks, bakery, chunk, _adm) = single_block_world();
    let ns: [Option<&Chunk>; 27] = [None; 27];
    let first = mesh(&blocks, &bakery, &chunk, &ns);
    let second = mesh(&blocks, &bakery, &chunk, &ns);
    match (first, second) {
        (ChunkMeshState::Meshed(a), ChunkMeshState::Meshed(b)) => {
            assert_eq!(a.vertices, b.vertices);
            assert_eq!(a.count, b.count);
            assert_eq!(a.pos, b.pos);
        }
        _ => panic!("both passes must produce a mesh"),
    }
}

#[test]
fn scratch_reuse_is_identical() {
    let (blocks, bakery, chunk, _adm) = single_block_world();
    let ns: [Option<&Chunk>; 27] = [None; 27];
    let mut mesher = MesherThreadState::new();
    let first = match mesh_chunk(&mut mesher, &blocks, &bakery, &chunk, &ns) {
        ChunkMeshState::Meshed(m) => m,
        ChunkMeshState::Empty => panic!("must produce a mesh"),
    };
    // Reusing the same scratch state must not change the output.
    let second = match mesh_chunk(&mut mesher, &blocks, &bakery, &chunk, &ns) {
        ChunkMeshState::Meshed(m) => m,
        ChunkMeshState::Empty => panic!("must produce a mesh"),
    };
    assert_eq!(first.vertices, second.vertices);
}

#[test]
fn cross_chunk_occlusion_culls_edge_face() {
    let (blocks, bakery, _chunks) = setup();
    let air = blocks.get_block_by_name_unchecked("air").get_default_state();
    let adm = blocks.get_block_by_name_unchecked("adm").get_default_state();
    let mut a = Chunk::new(ChunkCoord::new(0, 0, 0), air);
    a.set_block(15, 3, 5, adm);
    let mut b = Chunk::new(ChunkCoord::new(1, 0, 0), air);
    b.set_block(0, 3, 5, adm);

    // Without the +x neighbour chunk, all six faces are drawn.
    let ns_without: [Option<&Chunk>; 27] = [None; 27];
    let full = match mesh(&blocks, &bakery, &a, &ns_without) {
        ChunkMeshState::Meshed(m) => m,
        ChunkMeshState::Empty => panic!("must produce a mesh"),
    };
    assert_eq!(full.vertices.len(), 36);

    // With chunk B solid at its local (0, 3, 5), the +x face is culled.
    let mut ns_with: [Option<&Chunk>; 27] = [None; 27];
    ns_with[13] = Some(&b);
    let culled = match mesh(&blocks, &bakery, &a, &ns_with) {
        ChunkMeshState::Meshed(m) => m,
        ChunkMeshState::Empty => panic!("must still produce five faces"),
    };
    assert_eq!(culled.vertices.len(), 30);
}

fn baked(x: i64, y: i64, z: i64, u: i64, v: i64) -> BakedBlockMeshVertex {
    BakedBlockMeshVertex { x, y, z, u, v }
}

#[test]
fn quad_expansion_order_and_winding() {
    // A registry with one extra block and a bakery whose model for it is
    // a single always-visible quad with four distinguishable corners.
    let mut blocks = chunk_mesher::Blocks::new();
    let slab = blocks.register_block("slab");
    let air = blocks.get_block_by_name_unchecked("air").get_default_state();

    let a = baked(0, 0, 0, 1, 2);
    let b = baked(BLOCK_UNIT, 0, 0, 3, 4);
    let c = baked(BLOCK_UNIT, BLOCK_UNIT, 0, 5, 6);
    let d = baked(0, BLOCK_UNIT, 0, 7, 8);
    let mut bakery = StaticBlockBakery::new();
    bakery.register_model(BlockModel { faces: Vec::new() });
    bakery.register_model(BlockModel { faces: Vec::new() });
    bakery.register_model(BlockModel {
        faces: vec![BakedFace { side: Side::NegZ, quad: Quad { a, b, c, d } }],
    });

    let mut chunk = Chunk::new(ChunkCoord::new(0, 0, 0), air);
    chunk.set_block(2, 1, 3, slab);
    let ns: [Option<&Chunk>; 27] = [None; 27];
    let m = match mesh(&blocks, &bakery, &chunk, &ns) {
        ChunkMeshState::Meshed(m) => m,
        ChunkMeshState::Empty => panic!("the quad must be emitted"),
    };
    let t = |v: BakedBlockMeshVertex| ChunkMeshVertex {
        x: v.x + 2 * BLOCK_UNIT,
        y: v.y + 1 * BLOCK_UNIT,
        z: v.z + 3 * BLOCK_UNIT,
        u: v.u,
        v: v.v,
    };
    assert_eq!(m.vertices, vec![t(a), t(b), t(d), t(b), t(c), t(d)]);
}

#[test]
fn occluded_side_is_skipped_without_neighbour_mesh() {
    // A one-face model pointing +x, and a solid neighbour exactly there:
    // the whole mesh is empty.
    let mut blocks = chunk_mesher::Blocks::new();
    let slab = blocks.register_block("slab");
    let air = blocks.get_block_by_name_unchecked("air").get_default_state();
    let adm = blocks.get_block_by_name_unchecked("adm").get_default_state();

    let q = Quad {
        a: baked(BLOCK_UNIT, 0, 0, 0, 0),
        b: baked(BLOCK_UNIT, BLOCK_UNIT, 0, 0, BLOCK_UNIT),
        c: baked(BLOCK_UNIT, BLOCK_UNIT, BLOCK_UNIT, BLOCK_UNIT, BLOCK_UNIT),
        d: baked(BLOCK_UNIT, 0, BLOCK_UNIT, BLOCK_UNIT, 0),
    };
    let mut bakery = StaticBlockBakery::new();
    bakery.register_model(BlockModel { faces: Vec::new() });
    bakery.register_model(BlockModel { faces: Vec::new() });
    bakery.register_model(BlockModel {
        faces: vec![BakedFace { side: Side::PosX, quad: q }],
    });

    let mut chunk = Chunk::new(ChunkCoord::new(0, 0, 0), air);
    chunk.set_block(4, 4, 4, slab);
    chunk.set_block(5, 4, 4, adm);
    let mut ns: [Option<&Chunk>; 27] = [None; 27];
    ns[0] = Some(&chunk);
    // The adm filler has an empty model here, so only the slab's one
    // face could appear — and it is occluded by the filler.
    let state = mesh(&blocks, &bakery, &chunk, &ns);
    assert!(matches!(state, ChunkMeshState::Empty));
}

#[test]
fn far_chunk_coordinates_stay_exact() {
    let (blocks, bakery, _chunks) = setup();
    let air = blocks.get_block_by_name_unchecked("air").get_default_state();
    let adm = blocks.get_block_by_name_unchecked("adm").get_default_state();
    // A chunk at the far edge of the supported world.
    let far = 1_000_000_000_000i64;
    let mut chunk = Chunk::new(ChunkCoord::new(far, 0, -far), air);
    chunk.set_block(0, 0, 15, adm);
    let ns: [Option<&Chunk>; 27] = [None; 27];
    match mesh(&blocks, &bakery, &chunk, &ns) {
        ChunkMeshState::Meshed(m) => {
            assert_eq!(m.vertices.len(), 36);
            for v in &m.vertices {
                assert!(16 * far * BLOCK_UNIT <= v.x && v.x <= (16 * far + 1) * BLOCK_UNIT);
                assert!(
                    (-16 * far + 15) * BLOCK_UNIT <= v.z && v.z <= (-16 * far + 16) * BLOCK_UNIT
                );
            }
        }
        ChunkMeshState::Empty => panic!("block must produce geometry"),
    }
}

#[test]
fn first_matching_chunk_wins() {
    let (blocks, _bakery, _chunks) = setup();
    let air = blocks.get_block_by_name_unchecked("air").get_default_state();
    let adm = blocks.get_block_by_name_unchecked("adm").get_default_state();
    let first = Chunk::new(ChunkCoord::new(0, 0, 0), adm);
    let second = Chunk::new(ChunkCoord::new(0, 0, 0), air);
    let mut ns: [Option<&Chunk>; 27] = [None; 27];
    ns[4] = Some(&first);
    ns[9] = Some(&second);
    // Two chunks claim the same position; the lookup takes the first.
    assert_eq!(
        chunk_mesher::get_block(&ns, &chunk_mesher::BlockCoord::new(7, 7, 7)),
        Some(adm)
    );
}
