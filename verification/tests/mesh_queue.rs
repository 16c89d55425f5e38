use veloren_logic::mesh_queue::{may_start_meshing, meshing_cores, ChunkKey, ChunkMeshState, MeshQueue};

fn key(x: i32, y: i32) -> ChunkKey {
    ChunkKey { x, y }
}

fn state(x: i32, y: i32, tick: u64, active: bool) -> ChunkMeshState {
    ChunkMeshState { pos: key(x, y), started_tick: tick, is_worker_active: active }
}

#[test]
fn meshing_cores_by_machine_size() {
    assert_eq!(meshing_cores(0), 1);
    assert_eq!(meshing_cores(3), 1);
    assert_eq!(meshing_cores(4), 1);
    assert_eq!(meshing_cores(7), 4);
    assert_eq!(meshing_cores(8), 4);
    assert_eq!(meshing_cores(16), 12);
    assert!(may_start_meshing(4, 4));
    assert!(!may_start_meshing(5, 4));
}

#[test]
fn new_chunk_queues_unmeshed_neighbours_with_loaded_surroundings() {
    let mut t = MeshQueue::new();
    // Everything in the 5x5 grid is loaded except the far corner (+2, +2).
    let mut loaded = [true; 25];
    loaded[24] = false;
    // Only the centre already has a mesh.
    let mut meshed = [false; 9];
    meshed[4] = true;
    t.add_changed_chunk(key(10, 10), false, &meshed, &loaded, 7);
    assert_eq!(t.get(key(10, 10)), None);
    assert_eq!(t.get(key(9, 9)), Some(state(9, 9, 7, false)));
    assert_eq!(t.get(key(11, 10)), Some(state(11, 10, 7, false)));
    // (11, 11) needs (12, 12), which is not loaded.
    assert_eq!(t.get(key(11, 11)), None);
    // A modification queues the centre too.
    t.add_changed_chunk(key(10, 10), true, &meshed, &loaded, 8);
    assert_eq!(t.get(key(10, 10)), Some(state(10, 10, 8, false)));
    assert_eq!(t.get(key(9, 9)), Some(state(9, 9, 8, false)));
}

#[test]
fn removing_a_chunk_clears_its_neighbourhood() {
    let mut t = MeshQueue::new();
    let loaded = [true; 25];
    let meshed = [false; 9];
    t.add_changed_chunk(key(0, 0), false, &meshed, &loaded, 1);
    t.add_changed_chunk(key(3, 0), false, &meshed, &loaded, 1);
    t.remove_chunk(key(0, 0));
    assert_eq!(t.get(key(1, 1)), None);
    assert_eq!(t.get(key(-1, 0)), None);
    assert_eq!(t.get(key(2, 0)), Some(state(2, 0, 1, false)));
    assert_eq!(t.get(key(3, 0)), Some(state(3, 0, 1, false)));
}

#[test]
fn oldest_idle_chunk_is_meshed_first_and_results_are_checked() {
    let mut t = MeshQueue::new();
    t.add_block_neighbours(&vec![(key(1, 1), true), (key(2, 2), false)], 5);
    t.add_block_neighbours(&vec![(key(3, 3), true)], 9);
    assert_eq!(t.get(key(2, 2)), None);
    assert_eq!(t.oldest_idle(), Some(state(1, 1, 5, false)));
    t.start_meshing(key(1, 1));
    assert_eq!(t.get(key(1, 1)), Some(state(1, 1, 5, true)));
    assert_eq!(t.oldest_idle(), Some(state(3, 3, 9, false)));
    // The chunk was queued again on tick 12 while the worker ran.
    t.add_block_neighbours(&vec![(key(1, 1), true)], 12);
    assert!(t.accept_mesh(key(1, 1), 5));
    assert_eq!(t.get(key(1, 1)), Some(state(1, 1, 12, false)));
    // A result from a later start than the queue entry is dropped.
    assert!(!t.accept_mesh(key(3, 3), 10));
    assert!(t.accept_mesh(key(3, 3), 9));
    assert_eq!(t.get(key(3, 3)), None);
    assert!(!t.accept_mesh(key(7, 7), 0));
    t.start_meshing(key(1, 1));
    assert_eq!(t.oldest_idle(), None);
}

#[test]
fn this_machine_has_at_least_one_meshing_core() {
    assert!(veloren_logic::mesh_queue::meshing_cores_here() >= 1);
}
