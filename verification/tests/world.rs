use chunk_mesher::{
    get_block, neighbour_solid, setup, upload, BlockCoord, BlockModel, BlockState, Blocks, Chunk,
    ChunkCoord, ChunkMeshState, ChunkMeshVertex, ChunkStorage,
};

#[test]
fn registry_has_air_and_adm() {
    let blocks = Blocks::new();
    let air = blocks.get_block_by_name_unchecked("air").get_default_state();
    let adm = blocks.get_block_by_name_unchecked("adm").get_default_state();
    assert_eq!(air, BlockState { id: 0 });
    assert_eq!(adm, BlockState { id: 1 });
    assert_ne!(air, adm);
}

#[test]
fn registered_blocks_get_fresh_states() {
    let mut blocks = Blocks::new();
    let stone = blocks.register_block("stone");
    let dirt = blocks.register_block("dirt");
    assert_eq!(stone, BlockState { id: 2 });
    assert_eq!(dirt, BlockState { id: 3 });
    let found = blocks.get_block_by_name_unchecked("dirt");
    assert_eq!(found.get_default_state(), dirt);
}

#[test]
fn chunk_coord_from_block_floors_negatives() {
    let c = ChunkCoord::new_from_block(&BlockCoord::new(-1, -16, -17));
    assert_eq!(c, ChunkCoord::new(-1, -1, -2));
    let d = ChunkCoord::new_from_block(&BlockCoord::new(0, 15, 16));
    assert_eq!(d, ChunkCoord::new(0, 0, 1));
}

#[test]
fn block_coord_directions() {
    let p = BlockCoord::new(10, 20, 30);
    assert_eq!(p.right(1), BlockCoord::new(11, 20, 30));
    assert_eq!(p.left(1), BlockCoord::new(9, 20, 30));
    assert_eq!(p.up(1), BlockCoord::new(10, 21, 30));
    assert_eq!(p.down(1), BlockCoord::new(10, 19, 30));
    assert_eq!(p.backward(1), BlockCoord::new(10, 20, 31));
    assert_eq!(p.forward(1), BlockCoord::new(10, 20, 29));
}

#[test]
fn chunk_checked_lookup() {
    let air = BlockState { id: 0 };
    let stone = BlockState { id: 7 };
    let mut chunk = Chunk::new(ChunkCoord::new(0, 0, 0), air);
    chunk.set_block(1, 2, 3, stone);
    assert_eq!(chunk.get_block(1, 2, 3), Some(stone));
    assert_eq!(chunk.get_block(0, 0, 0), Some(air));
    assert_eq!(chunk.get_block(16, 0, 0), None);
    assert_eq!(chunk.get_block(-1, 0, 0), None);
    assert_eq!(chunk.get_block_unchecked(1, 2, 3), stone);
}

#[test]
fn neighbourhood_lookup_crosses_chunks() {
    let air = BlockState { id: 0 };
    let stone = BlockState { id: 7 };
    let mut west = Chunk::new(ChunkCoord::new(-1, 0, 0), air);
    west.set_block(15, 5, 5, stone);
    let mut ns: [Option<&Chunk>; 27] = [None; 27];
    ns[11] = Some(&west);
    // World position (-1, 5, 5) is local (15, 5, 5) of chunk (-1, 0, 0).
    assert_eq!(get_block(&ns, &BlockCoord::new(-1, 5, 5)), Some(stone));
    assert_eq!(get_block(&ns, &BlockCoord::new(-2, 5, 5)), Some(air));
    // No chunk contains (0, 5, 5): missing chunks resolve to None.
    assert_eq!(get_block(&ns, &BlockCoord::new(0, 5, 5)), None);
    assert!(neighbour_solid(&ns, &BlockCoord::new(-1, 5, 5), air));
    assert!(!neighbour_solid(&ns, &BlockCoord::new(-2, 5, 5), air));
    assert!(!neighbour_solid(&ns, &BlockCoord::new(0, 5, 5), air));
}

#[test]
fn upload_empty_list_allocates_nothing() {
    let air = BlockState { id: 0 };
    let chunk = Chunk::new(ChunkCoord::new(0, 0, 0), air);
    let data: Vec<ChunkMeshVertex> = Vec::new();
    assert!(matches!(upload(&chunk, &data), ChunkMeshState::Empty));
}

#[test]
fn upload_keeps_data_verbatim() {
    let air = BlockState { id: 0 };
    let chunk = Chunk::new(ChunkCoord::new(4, 5, 6), air);
    let v = ChunkMeshVertex { x: 1, y: 2, z: 3, u: 4, v: 5 };
    let w = ChunkMeshVertex { x: 6, y: 7, z: 8, u: 9, v: 10 };
    let data = vec![v, w, v, w, v, w];
    match upload(&chunk, &data) {
        ChunkMeshState::Meshed(m) => {
            assert_eq!(m.vertices, data);
            assert_eq!(m.count, 6);
            assert_eq!(m.pos, ChunkCoord::new(4, 5, 6));
        }
        ChunkMeshState::Empty => panic!("six vertices must upload"),
    }
}

#[test]
fn storage_set_and_get() {
    let blocks = Blocks::new();
    let air = blocks.get_block_by_name_unchecked("air").get_default_state();
    let adm = blocks.get_block_by_name_unchecked("adm").get_default_state();
    let mut storage = ChunkStorage::new(&blocks);
    storage.insert_chunk(Chunk::new(ChunkCoord::new(0, 0, 0), air));
    storage.insert_chunk(Chunk::new(ChunkCoord::new(-1, 0, 0), air));

    let inside = BlockCoord::new(3, 4, 5);
    assert_eq!(storage.get_block(&inside), Some(air));
    assert!(storage.set_block(&inside, adm));
    assert_eq!(storage.get_block(&inside), Some(adm));

    let west = BlockCoord::new(-16, 0, 0);
    assert_eq!(storage.get_block(&west), Some(air));

    let outside = BlockCoord::new(100, 0, 0);
    assert_eq!(storage.get_block(&outside), None);
    assert!(!storage.set_block(&outside, adm));

    let found = storage.find_chunk(&ChunkCoord::new(-1, 0, 0));
    assert!(found.is_some());
    assert!(storage.find_chunk(&ChunkCoord::new(9, 9, 9)).is_none());
}

#[test]
fn setup_builds_registry_bakery_and_world() {
    let (blocks, bakery, chunks) = setup();
    let air = blocks.get_block_by_name_unchecked("air").get_default_state();
    assert_eq!(air, BlockState { id: 0 });
    assert_eq!(chunks.chunks.len(), 0);
    assert_eq!(bakery.models.len(), 2);
    assert_eq!(bakery.models[0].faces.len(), 0);
    assert_eq!(bakery.models[1].faces.len(), 6);
}

#[test]
fn unit_cube_model_has_six_faces() {
    let model = BlockModel::unit_cube();
    assert_eq!(model.faces.len(), 6);
}
