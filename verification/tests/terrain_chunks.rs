use veloren_logic::mesh_queue::{ChunkKey, ChunkMeshState, MeshQueue};
use veloren_logic::terrain_chunks::MeshedChunks;

fn key(x: i32, y: i32) -> ChunkKey {
    ChunkKey { x, y }
}

fn state(x: i32, y: i32, tick: u64, active: bool) -> ChunkMeshState {
    ChunkMeshState { pos: key(x, y), started_tick: tick, is_worker_active: active }
}

#[test]
fn a_received_mesh_is_kept_and_removal_drops_it() {
    let mut chunks = MeshedChunks::new();
    let mut queue = MeshQueue::new();
    let loaded = [true; 25];
    chunks.chunk_changed(&mut queue, key(0, 0), false, &loaded, 3);
    assert_eq!(queue.get(key(0, 0)), Some(state(0, 0, 3, false)));
    assert_eq!(queue.get(key(1, -1)), Some(state(1, -1, 3, false)));
    assert!(!chunks.has_mesh(key(0, 0)));

    // The mesh for the centre arrives: only that chunk gains a mesh.
    assert!(chunks.receive_mesh(&mut queue, key(0, 0), 3));
    assert!(chunks.has_mesh(key(0, 0)));
    assert!(!chunks.has_mesh(key(1, -1)));
    assert_eq!(queue.get(key(0, 0)), None);
    // A stale result for a chunk that is no longer queued is refused.
    assert!(!chunks.receive_mesh(&mut queue, key(0, 0), 3));
    assert!(!chunks.receive_mesh(&mut queue, key(5, 5), 0));
    assert!(!chunks.has_mesh(key(5, 5)));

    chunks.remove_chunk(&mut queue, key(0, 0));
    assert!(!chunks.has_mesh(key(0, 0)));
    assert_eq!(queue.get(key(1, -1)), None);
    assert_eq!(queue.get(key(-1, 1)), None);
}

#[test]
fn a_new_neighbour_does_not_requeue_meshed_chunks_but_a_modification_does() {
    let mut chunks = MeshedChunks::new();
    let mut queue = MeshQueue::new();
    let loaded = [true; 25];
    chunks.chunk_changed(&mut queue, key(0, 0), false, &loaded, 1);
    assert!(chunks.receive_mesh(&mut queue, key(0, 0), 1));
    // A new chunk next door: the meshed centre stays out of the queue.
    chunks.chunk_changed(&mut queue, key(1, 0), false, &loaded, 2);
    assert_eq!(queue.get(key(0, 0)), None);
    assert_eq!(queue.get(key(2, 0)), Some(state(2, 0, 2, false)));
    // A modified chunk next door remeshes everything around it.
    chunks.chunk_changed(&mut queue, key(1, 0), true, &loaded, 4);
    assert_eq!(queue.get(key(0, 0)), Some(state(0, 0, 4, false)));
}

#[test]
fn missing_terrain_keeps_chunks_out_of_the_queue() {
    let chunks = MeshedChunks::new();
    let mut queue = MeshQueue::new();
    let mut loaded = [true; 25];
    // (-2, -2) around the centre is not loaded, so (-1, -1) cannot be meshed.
    loaded[0] = false;
    chunks.chunk_changed(&mut queue, key(10, 10), false, &loaded, 1);
    assert_eq!(queue.get(key(9, 9)), None);
    assert_eq!(queue.get(key(10, 10)), Some(state(10, 10, 1, false)));
}

#[test]
fn next_job_waits_for_a_free_worker() {
    let mut queue = MeshQueue::new();
    queue.add_block_neighbours(&vec![(key(1, 1), true), (key(2, 2), true)], 5);
    assert_eq!(queue.next_job(5, 4), None);
    let job = queue.next_job(4, 4).unwrap();
    assert_eq!(job.started_tick, 5);
    assert!(!job.is_worker_active);
    queue.start_meshing(job.pos);
    queue.start_meshing(if job.pos == key(1, 1) { key(2, 2) } else { key(1, 1) });
    assert_eq!(queue.next_job(0, 4), None);
}
