use vstd::prelude::*;
use crate::mesh_queue::{near, neighbours_loaded, offset, ChunkKey, ChunkMeshState, MeshQueue};

verus! {

/// The set type behind the terrain's meshed chunks.
pub type ChunkSet = hashbrown::HashSet<ChunkKey>;

/// What a `ChunkSet` holds.
pub uninterp spec fn chunk_set_contents(s: ChunkSet) -> Set<ChunkKey>;

/// `hashbrown::HashSet::new`: an empty set.
#[verifier::external_body]
fn chunk_set_new() -> (r: ChunkSet)
    ensures
        chunk_set_contents(r) =~= Set::empty(),
{
    hashbrown::HashSet::new()
}

/// `hashbrown::HashSet::insert`: adds `key`; tells whether it was absent.
#[verifier::external_body]
fn chunk_set_insert(s: &mut ChunkSet, key: ChunkKey) -> (r: bool)
    ensures
        chunk_set_contents(*final(s)) == chunk_set_contents(*old(s)).insert(key),
        r == !chunk_set_contents(*old(s)).contains(key),
{
    s.insert(key)
}

/// `hashbrown::HashSet::remove`: drops `key`; tells whether it was there.
#[verifier::external_body]
fn chunk_set_remove(s: &mut ChunkSet, key: ChunkKey) -> (r: bool)
    ensures
        chunk_set_contents(*final(s)) == chunk_set_contents(*old(s)).remove(key),
        r == chunk_set_contents(*old(s)).contains(key),
{
    s.remove(&key)
}

/// `hashbrown::HashSet::contains`: whether `key` is in the set.
#[verifier::external_body]
fn chunk_set_contains(s: &ChunkSet, key: ChunkKey) -> (r: bool)
    ensures
        r == chunk_set_contents(*s).contains(key),
{
    s.contains(&key)
}

/// Whether a new or modified chunk at `pos` queues the chunk `k` for
/// meshing: `k` is `pos` or a neighbour, has no mesh yet in `meshed` (or
/// `pos` was modified), and every chunk around `k` is loaded.
pub open spec fn requeued(meshed: Set<ChunkKey>, pos: ChunkKey, k: ChunkKey, modified: bool, loaded: Seq<bool>) -> bool {
    near(pos, k) && (!meshed.contains(k) || modified) && neighbours_loaded(loaded, k.x - pos.x, k.y - pos.y)
}

/// The chunks that have a mesh. The meshing queue they go with is passed to
/// each method that changes both.
pub struct MeshedChunks {
    set: ChunkSet,
}

impl MeshedChunks {
    /// The chunks that have a mesh.
    pub closed spec fn view_set(&self) -> Set<ChunkKey> {
        chunk_set_contents(self.set)
    }

    /// No chunk meshed.
    pub fn new() -> (t: MeshedChunks)
        ensures
            t.view_set() == Set::<ChunkKey>::empty(),
    {
        MeshedChunks { set: chunk_set_new() }
    }

    /// Whether the chunk at `pos` has a mesh.
    pub fn has_mesh(&self, pos: ChunkKey) -> (r: bool)
        ensures
            r == self.view_set().contains(pos),
    {
        chunk_set_contains(&self.set, pos)
    }

    /// Whether the chunk `dx`, `dy` steps from `pos` has a mesh.
    fn mesh_at(&self, pos: ChunkKey, dx: i32, dy: i32) -> (r: bool)
        requires
            -1 <= dx <= 1,
            -1 <= dy <= 1,
            i32::MIN < pos.x < i32::MAX,
            i32::MIN < pos.y < i32::MAX,
        ensures
            r == self.view_set().contains(offset(pos, dx as int, dy as int)),
    {
        chunk_set_contains(&self.set, ChunkKey { x: pos.x + dx, y: pos.y + dy })
    }

    /// The chunk at `pos` is new (or was `modified`) on tick `tick`: each
    /// chunk around it that has no mesh yet (or every one, when it was
    /// modified) is queued, if all of that chunk's neighbours are loaded.
    /// `loaded` tells, in a 5-by-5 grid around `pos` (row `dx + 2`, column
    /// `dy + 2`), which chunks the world holds.
    pub fn chunk_changed(&self, queue: &mut MeshQueue, pos: ChunkKey, modified: bool, loaded: &[bool; 25], tick: u64)
        requires
            old(queue).wf(),
            i32::MIN < pos.x < i32::MAX,
            i32::MIN < pos.y < i32::MAX,
        ensures
            final(queue).wf(),
            forall|k: ChunkKey| #[trigger] final(queue).view_map().contains_key(k) <==> (old(
                queue,
            ).view_map().contains_key(k) || requeued(self.view_set(), pos, k, modified, loaded@)),
            forall|k: ChunkKey| #[trigger] final(queue).view_map().contains_key(k) ==> final(queue).view_map()[k] == (if requeued(
                self.view_set(),
                pos,
                k,
                modified,
                loaded@,
            ) {
                ChunkMeshState { pos: k, started_tick: tick, is_worker_active: false }
            } else {
                old(queue).view_map()[k]
            }),
    {
        let meshed: [bool; 9] = [
            self.mesh_at(pos, -1, -1),
            self.mesh_at(pos, -1, 0),
            self.mesh_at(pos, -1, 1),
            self.mesh_at(pos, 0, -1),
            self.mesh_at(pos, 0, 0),
            self.mesh_at(pos, 0, 1),
            self.mesh_at(pos, 1, -1),
            self.mesh_at(pos, 1, 0),
            self.mesh_at(pos, 1, 1),
        ];
        proof {
            assert forall|k: ChunkKey| near(pos, k) implies #[trigger] meshed@[(k.x - pos.x + 1) * 3 + (k.y - pos.y + 1)]
                == self.view_set().contains(k) by {
                assert(offset(pos, k.x - pos.x, k.y - pos.y) == k);
            }
        }
        queue.add_changed_chunk(pos, modified, &meshed, loaded, tick);
    }

    /// The chunk at `pos` left the world: its mesh is dropped, and it and
    /// its eight neighbours leave the meshing queue.
    pub fn remove_chunk(&mut self, queue: &mut MeshQueue, pos: ChunkKey)
        requires
            old(queue).wf(),
            i32::MIN < pos.x < i32::MAX,
            i32::MIN < pos.y < i32::MAX,
        ensures
            final(queue).wf(),
            final(self).view_set() == old(self).view_set().remove(pos),
            forall|k: ChunkKey| #[trigger] final(queue).view_map().contains_key(k) <==> (old(
                queue,
            ).view_map().contains_key(k) && !near(pos, k)),
            forall|k: ChunkKey| #[trigger] final(queue).view_map().contains_key(k) ==> final(queue).view_map()[k]
                == old(queue).view_map()[k],
    {
        chunk_set_remove(&mut self.set, pos);
        queue.remove_chunk(pos);
    }

    /// A worker delivered the mesh for `pos` that it started on tick
    /// `started_tick`. When the queue still wants it (`true`), the chunk
    /// has a mesh from now on; no other chunk gains one.
    pub fn receive_mesh(&mut self, queue: &mut MeshQueue, pos: ChunkKey, started_tick: u64) -> (r: bool)
        requires
            old(queue).wf(),
        ensures
            final(queue).wf(),
            r == (old(queue).view_map().contains_key(pos) && started_tick <= old(queue).view_map()[pos].started_tick),
            final(self).view_set() == (if r {
                old(self).view_set().insert(pos)
            } else {
                old(self).view_set()
            }),
            final(queue).view_map() == (if r && started_tick == old(queue).view_map()[pos].started_tick {
                old(queue).view_map().remove(pos)
            } else {
                old(queue).view_map()
            }),
    {
        let wanted = queue.accept_mesh(pos, started_tick);
        if wanted {
            chunk_set_insert(&mut self.set, pos);
        }
        wanted
    }
}

} // verus!
