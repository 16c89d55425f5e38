use vstd::prelude::*;

verus! {

/// The position of a terrain chunk on the chunk grid.
#[derive(Clone, Copy, Debug, PartialEq, Eq, Hash, Structural)]
pub struct ChunkKey {
    pub x: i32,
    pub y: i32,
}

/// A chunk waiting to be meshed.
#[derive(Clone, Copy, Debug, PartialEq, Eq, Structural)]
pub struct ChunkMeshState {
    pub pos: ChunkKey,
    /// The tick on which the chunk was last queued.
    pub started_tick: u64,
    /// Whether a worker is meshing it now.
    pub is_worker_active: bool,
}

/// The map type behind `MeshQueue`.
pub type QueueMap = hashbrown::HashMap<ChunkKey, ChunkMeshState>;

/// What a `QueueMap` holds: for each chunk key, its meshing state.
pub uninterp spec fn queue_contents(m: QueueMap) -> Map<ChunkKey, ChunkMeshState>;

/// `hashbrown::HashMap::new`: an empty map.
#[verifier::external_body]
fn queue_new() -> (r: QueueMap)
    ensures
        queue_contents(r) =~= Map::empty(),
{
    hashbrown::HashMap::new()
}

/// `hashbrown::HashMap::insert`: sets the state for `key`.
#[verifier::external_body]
fn queue_insert(m: &mut QueueMap, key: ChunkKey, value: ChunkMeshState)
    ensures
        queue_contents(*final(m)) == queue_contents(*old(m)).insert(key, value),
{
    m.insert(key, value);
}

/// `hashbrown::HashMap::remove`: drops the entry for `key`, if any.
#[verifier::external_body]
fn queue_remove(m: &mut QueueMap, key: ChunkKey)
    ensures
        queue_contents(*final(m)) == queue_contents(*old(m)).remove(key),
{
    m.remove(&key);
}

/// `hashbrown::HashMap::get`, copied out: the state for `key`, if any.
#[verifier::external_body]
fn queue_get(m: &QueueMap, key: ChunkKey) -> (r: Option<ChunkMeshState>)
    ensures
        match r {
            Some(v) => queue_contents(*m).contains_key(key) && v == queue_contents(*m)[key],
            None => !queue_contents(*m).contains_key(key),
        },
{
    m.get(&key).copied()
}

/// `hashbrown::HashMap::iter`, copied out: every entry, each once, in the
/// map's own order (which this says nothing about).
#[verifier::external_body]
fn queue_entries(m: &QueueMap) -> (r: Vec<(ChunkKey, ChunkMeshState)>)
    ensures
        forall|i: int|
            0 <= i < r@.len() ==> queue_contents(*m).contains_key(#[trigger] r@[i].0) && queue_contents(*m)[r@[i].0]
                == r@[i].1,
        forall|k: ChunkKey| #[trigger] queue_contents(*m).contains_key(k) ==> exists|i: int|
            0 <= i < r@.len() && r@[i].0 == k,
        forall|i: int, j: int| 0 <= i < j < r@.len() ==> r@[i].0 != r@[j].0,
{
    m.iter().map(|(k, v)| (*k, *v)).collect()
}

/// The key `d` steps along each axis from `pos`.
pub open spec fn offset(pos: ChunkKey, dx: int, dy: int) -> ChunkKey {
    ChunkKey { x: (pos.x + dx) as i32, y: (pos.y + dy) as i32 }
}

/// Whether `k` is `pos` or one of its eight neighbours.
pub open spec fn near(pos: ChunkKey, k: ChunkKey) -> bool {
    -1 <= k.x - pos.x <= 1 && -1 <= k.y - pos.y <= 1
}

/// Whether `flags`, a 5-by-5 grid around a chunk (row `dx + 2`, column
/// `dy + 2`), is set at offset (`dx`, `dy`).
pub open spec fn flag_at(flags: Seq<bool>, dx: int, dy: int) -> bool {
    flags[(dx + 2) * 5 + (dy + 2)]
}

/// Whether every chunk around offset (`dx`, `dy`) of the grid is loaded.
pub open spec fn neighbours_loaded(loaded: Seq<bool>, dx: int, dy: int) -> bool {
    forall|i: int, j: int| -1 <= i <= 1 && -1 <= j <= 1 ==> #[trigger] flag_at(loaded, dx + i, dy + j)
}

/// Whether a new or modified chunk at the centre of the grids queues the
/// chunk at offset (`dx`, `dy`) for meshing: it has no mesh yet (or the
/// centre was modified), and its neighbours are all loaded.
pub open spec fn queues(modified: bool, meshed: Seq<bool>, loaded: Seq<bool>, dx: int, dy: int) -> bool {
    (!meshed[(dx + 1) * 3 + (dy + 1)] || modified) && neighbours_loaded(loaded, dx, dy)
}

/// Whether one of the first `n` entries of `keys` is `k` flagged `true`.
pub open spec fn flagged(keys: Seq<(ChunkKey, bool)>, n: int, k: ChunkKey) -> bool {
    exists|w: int| 0 <= w < n && #[trigger] keys[w] == (k, true)
}

/// How many meshing workers may run at once on a machine with `cpus`
/// logical cores: one below four cores, three fewer below eight, else four
/// fewer.
pub open spec fn meshing_cores_spec(cpus: u64) -> u64 {
    if cpus < 4 {
        1
    } else if cpus < 8 {
        (cpus - 3) as u64
    } else {
        (cpus - 4) as u64
    }
}

/// See `meshing_cores_spec`.
pub fn meshing_cores(cpus: u64) -> (r: u64)
    ensures
        r == meshing_cores_spec(cpus),
        r >= 1,
{
    if cpus < 4 {
        1
    } else if cpus < 8 {
        cpus - 3
    } else {
        cpus - 4
    }
}

/// `num_cpus::get`: the number of logical cores this process may use. Its
/// documentation promises at least one; the count depends on the machine
/// and on the limits the process runs under, so nothing more is said.
#[verifier::external_body]
fn available_cpus() -> (r: usize)
    ensures
        r >= 1,
{
    num_cpus::get()
}

/// How many meshing workers may run at once on this machine: what
/// `meshing_cores_spec` gives for the cores the process may use.
pub fn meshing_cores_here() -> (r: u64)
    ensures
        exists|cpus: u64| cpus >= 1 && r == meshing_cores_spec(cpus),
{
    let cpus = available_cpus() as u64;
    meshing_cores(cpus)
}

/// Whether a new meshing job may start while `active` jobs run.
pub fn may_start_meshing(active: u64, cores: u64) -> (r: bool)
    ensures
        r == (active <= cores),
{
    active <= cores
}

/// The chunks waiting to be meshed, by chunk key.
pub struct MeshQueue {
    map: QueueMap,
}

impl MeshQueue {
    /// For each queued chunk, its state.
    pub closed spec fn view_map(&self) -> Map<ChunkKey, ChunkMeshState> {
        queue_contents(self.map)
    }

    /// Every entry is filed under its own chunk's key.
    pub open spec fn wf(&self) -> bool {
        forall|k: ChunkKey| #[trigger] self.view_map().contains_key(k) ==> self.view_map()[k].pos == k
    }

    /// Nothing queued.
    pub fn new() -> (t: MeshQueue)
        ensures
            t.view_map() == Map::<ChunkKey, ChunkMeshState>::empty(),
            t.wf(),
    {
        MeshQueue { map: queue_new() }
    }

    /// The entry for `pos`, if queued.
    pub fn get(&self, pos: ChunkKey) -> (r: Option<ChunkMeshState>)
        ensures
            r == (if self.view_map().contains_key(pos) { Some(self.view_map()[pos]) } else { None }),
    {
        queue_get(&self.map, pos)
    }

    /// Queues `pos` afresh on tick `tick`, with no worker on it.
    fn queue(&mut self, pos: ChunkKey, tick: u64)
        requires
            old(self).wf(),
        ensures
            final(self).wf(),
            final(self).view_map() == old(self).view_map().insert(
                pos,
                ChunkMeshState { pos, started_tick: tick, is_worker_active: false },
            ),
    {
        queue_insert(&mut self.map, pos, ChunkMeshState { pos, started_tick: tick, is_worker_active: false });
    }

    /// A chunk at `pos` was removed: it and its eight neighbours leave the
    /// queue.
    pub fn remove_chunk(&mut self, pos: ChunkKey)
        requires
            old(self).wf(),
            i32::MIN < pos.x < i32::MAX,
            i32::MIN < pos.y < i32::MAX,
        ensures
            final(self).wf(),
            forall|k: ChunkKey| #[trigger] final(self).view_map().contains_key(k) <==> (old(
                self,
            ).view_map().contains_key(k) && !near(pos, k)),
            forall|k: ChunkKey| #[trigger] final(self).view_map().contains_key(k) ==> final(self).view_map()[k]
                == old(self).view_map()[k],
    {
        let mut i: i32 = -1;
        while i <= 1
            invariant
                -1 <= i <= 2,
                i32::MIN < pos.x < i32::MAX,
                i32::MIN < pos.y < i32::MAX,
                self.wf(),
                forall|k: ChunkKey| #[trigger] self.view_map().contains_key(k) <==> (old(self).view_map().contains_key(k)
                    && !(-1 <= k.x - pos.x < i && -1 <= k.y - pos.y <= 1)),
                forall|k: ChunkKey| #[trigger] self.view_map().contains_key(k) ==> self.view_map()[k] == old(
                    self,
                ).view_map()[k],
            decreases 2 - i,
        {
            let mut j: i32 = -1;
            while j <= 1
                invariant
                    -1 <= i <= 1,
                    -1 <= j <= 2,
                    i32::MIN < pos.x < i32::MAX,
                    i32::MIN < pos.y < i32::MAX,
                    self.wf(),
                    forall|k: ChunkKey| #[trigger] self.view_map().contains_key(k) <==> (old(
                        self,
                    ).view_map().contains_key(k) && !(-1 <= k.x - pos.x < i && -1 <= k.y - pos.y <= 1) && !(k.x
                        - pos.x == i && -1 <= k.y - pos.y < j)),
                    forall|k: ChunkKey| #[trigger] self.view_map().contains_key(k) ==> self.view_map()[k] == old(
                        self,
                    ).view_map()[k],
                decreases 2 - j,
            {
                let key = ChunkKey { x: pos.x + i, y: pos.y + j };
                let ghost before = self.view_map();
                queue_remove(&mut self.map, key);
                assert(self.view_map() == before.remove(key));
                assert(forall|k: ChunkKey| #[trigger] self.view_map().contains_key(k) <==> (before.contains_key(k) && k != key));
                assert(forall|k: ChunkKey| self.view_map().contains_key(k) ==> #[trigger] self.view_map()[k] == before[k]);
                j = j + 1;
            }
            i = i + 1;
        }
    }

    /// A chunk at `pos` is new (or was `modified`) on tick `tick`: each
    /// chunk around it that has no mesh yet (or every one, when it was
    /// modified) is queued, if all of that chunk's neighbours are loaded.
    /// `meshed` tells, in a 3-by-3 grid around `pos` (row `dx + 1`, column
    /// `dy + 1`), which chunks have a mesh; `loaded`, in a 5-by-5 grid
    /// around it, which chunks the world holds.
    pub fn add_changed_chunk(&mut self, pos: ChunkKey, modified: bool, meshed: &[bool; 9], loaded: &[bool; 25], tick: u64)
        requires
            old(self).wf(),
            i32::MIN < pos.x < i32::MAX,
            i32::MIN < pos.y < i32::MAX,
        ensures
            final(self).wf(),
            forall|k: ChunkKey| #[trigger] final(self).view_map().contains_key(k) <==> (old(
                self,
            ).view_map().contains_key(k) || (near(pos, k) && queues(
                modified,
                meshed@,
                loaded@,
                k.x - pos.x,
                k.y - pos.y,
            ))),
            forall|k: ChunkKey| #[trigger] final(self).view_map().contains_key(k) ==> final(self).view_map()[k] == (if near(
                pos,
                k,
            ) && queues(modified, meshed@, loaded@, k.x - pos.x, k.y - pos.y) {
                ChunkMeshState { pos: k, started_tick: tick, is_worker_active: false }
            } else {
                old(self).view_map()[k]
            }),
    {
        let ghost q = |k: ChunkKey| near(pos, k) && queues(modified, meshed@, loaded@, k.x - pos.x, k.y - pos.y);
        let mut i: i32 = -1;
        while i <= 1
            invariant
                -1 <= i <= 2,
                i32::MIN < pos.x < i32::MAX,
                i32::MIN < pos.y < i32::MAX,
                self.wf(),
                meshed@.len() == 9,
                loaded@.len() == 25,
                q == (|k: ChunkKey| near(pos, k) && queues(modified, meshed@, loaded@, k.x - pos.x, k.y - pos.y)),
                forall|k: ChunkKey| #[trigger] self.view_map().contains_key(k) <==> (old(self).view_map().contains_key(k)
                    || (k.x - pos.x < i && q(k))),
                forall|k: ChunkKey| #[trigger] self.view_map().contains_key(k) ==> self.view_map()[k] == (if k.x
                    - pos.x < i && q(k) {
                    ChunkMeshState { pos: k, started_tick: tick, is_worker_active: false }
                } else {
                    old(self).view_map()[k]
                }),
            decreases 2 - i,
        {
            let mut j: i32 = -1;
            while j <= 1
                invariant
                    -1 <= i <= 1,
                    -1 <= j <= 2,
                    i32::MIN < pos.x < i32::MAX,
                    i32::MIN < pos.y < i32::MAX,
                    self.wf(),
                    meshed@.len() == 9,
                    loaded@.len() == 25,
                    q == (|k: ChunkKey| near(pos, k) && queues(modified, meshed@, loaded@, k.x - pos.x, k.y - pos.y)),
                    forall|k: ChunkKey| #[trigger] self.view_map().contains_key(k) <==> (old(
                        self,
                    ).view_map().contains_key(k) || ((k.x - pos.x < i || (k.x - pos.x == i && k.y - pos.y < j))
                        && q(k))),
                    forall|k: ChunkKey| #[trigger] self.view_map().contains_key(k) ==> self.view_map()[k] == (if (k.x
                        - pos.x < i || (k.x - pos.x == i && k.y - pos.y < j)) && q(k) {
                        ChunkMeshState { pos: k, started_tick: tick, is_worker_active: false }
                    } else {
                        old(self).view_map()[k]
                    }),
                decreases 2 - j,
            {
                let has_mesh = meshed[((i + 1) * 3 + (j + 1)) as usize];
                if !has_mesh || modified {
                    let mut all_loaded = true;
                    let mut a: i32 = -1;
                    while a <= 1
                        invariant
                            -1 <= i <= 1,
                            -1 <= j <= 1,
                            -1 <= a <= 2,
                            loaded@.len() == 25,
                            all_loaded == (forall|x: int, y: int|
                                -1 <= x < a && -1 <= y <= 1 ==> #[trigger] flag_at(loaded@, i + x, j + y)),
                        decreases 2 - a,
                    {
                        let mut b: i32 = -1;
                        while b <= 1
                            invariant
                                -1 <= i <= 1,
                                -1 <= j <= 1,
                                -1 <= a <= 1,
                                -1 <= b <= 2,
                                loaded@.len() == 25,
                                all_loaded == (forall|x: int, y: int|
                                    (-1 <= x < a && -1 <= y <= 1) || (x == a && -1 <= y < b) ==> #[trigger] flag_at(
                                        loaded@,
                                        i + x,
                                        j + y,
                                    )),
                            decreases 2 - b,
                        {
                            let f = loaded[((i + a + 2) * 5 + (j + b + 2)) as usize];
                            proof {
                                assert(f == flag_at(loaded@, i + a, j + b));
                                if all_loaded && f {
                                    assert forall|x: int, y: int|
                                        (-1 <= x < a && -1 <= y <= 1) || (x == a && -1 <= y < b + 1) implies #[trigger] flag_at(
                                            loaded@,
                                            i + x,
                                            j + y,
                                        ) by {
                                        if !(x == a && y == b) {
                                            assert((-1 <= x < a && -1 <= y <= 1) || (x == a && -1 <= y < b));
                                        }
                                    }
                                } else if !f {
                                    assert((-1 <= a < a && -1 <= b <= 1) || (a == a && -1 <= b < b + 1));
                                }
                            }
                            all_loaded = all_loaded && f;
                            b = b + 1;
                        }
                        a = a + 1;
                    }
                    if all_loaded {
                        self.queue(ChunkKey { x: pos.x + i, y: pos.y + j }, tick);
                    }
                }
                proof {
                    let c = ChunkKey { x: (pos.x + i) as i32, y: (pos.y + j) as i32 };
                    assert(near(pos, c));
                    assert(c.x - pos.x == i && c.y - pos.y == j);
                }
                j = j + 1;
            }
            i = i + 1;
        }
    }

    /// Queues, on tick `tick`, each chunk of `keys` (the chunks around a
    /// changed block) that is flagged as having all its neighbours loaded.
    pub fn add_block_neighbours(&mut self, keys: &Vec<(ChunkKey, bool)>, tick: u64)
        requires
            old(self).wf(),
        ensures
            final(self).wf(),
            forall|k: ChunkKey| #[trigger] final(self).view_map().contains_key(k) <==> (old(
                self,
            ).view_map().contains_key(k) || flagged(keys@, keys@.len() as int, k)),
            forall|k: ChunkKey| #[trigger] final(self).view_map().contains_key(k) ==> final(self).view_map()[k] == (if flagged(
                keys@,
                keys@.len() as int,
                k,
            ) {
                ChunkMeshState { pos: k, started_tick: tick, is_worker_active: false }
            } else {
                old(self).view_map()[k]
            }),
    {
        let mut n: usize = 0;
        while n < keys.len()
            invariant
                n <= keys@.len(),
                self.wf(),
                forall|k: ChunkKey| #[trigger] self.view_map().contains_key(k) <==> (old(self).view_map().contains_key(k)
                    || flagged(keys@, n as int, k)),
                forall|k: ChunkKey| #[trigger] self.view_map().contains_key(k) ==> self.view_map()[k] == (if flagged(
                    keys@,
                    n as int,
                    k,
                ) {
                    ChunkMeshState { pos: k, started_tick: tick, is_worker_active: false }
                } else {
                    old(self).view_map()[k]
                }),
            decreases keys@.len() - n,
        {
            let (key, ok) = keys[n];
            if ok {
                self.queue(key, tick);
            }
            proof {
                assert forall|k: ChunkKey| flagged(keys@, n as int + 1, k) <==> (flagged(keys@, n as int, k) || keys@[n as int]
                    == (k, true)) by {
                    if flagged(keys@, n as int + 1, k) && !(keys@[n as int] == (k, true)) {
                        let w = choose|w: int| 0 <= w < n + 1 && #[trigger] keys@[w] == (k, true);
                        assert(w < n);
                    }
                    if keys@[n as int] == (k, true) {
                        assert(keys@[n as int] == (k, true));
                    }
                }
            }
            n = n + 1;
        }
    }

    /// The queued chunk with no worker on it that has waited longest (the
    /// smallest `started_tick`; among equals, any one), if there is one.
    pub fn oldest_idle(&self) -> (r: Option<ChunkMeshState>)
        requires
            self.wf(),
        ensures
            match r {
                Some(s) => self.view_map().contains_key(s.pos) && self.view_map()[s.pos] == s && !s.is_worker_active
                    && forall|k: ChunkKey| #[trigger] self.view_map().contains_key(k) && !self.view_map()[k].is_worker_active
                    ==> s.started_tick <= self.view_map()[k].started_tick,
                None => forall|k: ChunkKey| #[trigger] self.view_map().contains_key(k) ==> self.view_map()[k].is_worker_active,
            },
    {
        let entries = queue_entries(&self.map);
        let mut best: Option<ChunkMeshState> = None;
        let mut n: usize = 0;
        while n < entries.len()
            invariant
                n <= entries@.len(),
                self.wf(),
                forall|i: int|
                    0 <= i < entries@.len() ==> self.view_map().contains_key(#[trigger] entries@[i].0)
                        && self.view_map()[entries@[i].0] == entries@[i].1,
                match best {
                    Some(s) => self.view_map().contains_key(s.pos) && self.view_map()[s.pos] == s && !s.is_worker_active
                        && forall|i: int| 0 <= i < n && !(#[trigger] entries@[i]).1.is_worker_active ==> s.started_tick
                        <= entries@[i].1.started_tick,
                    None => forall|i: int| 0 <= i < n ==> (#[trigger] entries@[i]).1.is_worker_active,
                },
            decreases entries@.len() - n,
        {
            let (key, v) = entries[n];
            proof {
                assert(self.view_map().contains_key(entries@[n as int].0));
                assert(self.view_map()[key].pos == key);
            }
            if !v.is_worker_active {
                match best {
                    Some(s) => {
                        if v.started_tick < s.started_tick {
                            best = Some(v);
                        }
                    },
                    None => {
                        best = Some(v);
                    },
                }
            }
            n = n + 1;
        }
        proof {
            assert forall|k: ChunkKey| #[trigger] self.view_map().contains_key(k) && !self.view_map()[k].is_worker_active
                implies (match best {
                Some(s) => s.started_tick <= self.view_map()[k].started_tick,
                None => false,
            }) by {
                let i = choose|i: int| 0 <= i < entries@.len() && entries@[i].0 == k;
                assert(self.view_map().contains_key(entries@[i].0));
                assert(!entries@[i].1.is_worker_active);
            }
        }
        best
    }

    /// The job to start now while `active` workers run with `cores`
    /// allowed: none when the workers are all busy, else the oldest idle
    /// chunk (as `oldest_idle` picks it), if any.
    pub fn next_job(&self, active: u64, cores: u64) -> (r: Option<ChunkMeshState>)
        requires
            self.wf(),
        ensures
            active > cores ==> r is None,
            active <= cores ==> match r {
                Some(s) => self.view_map().contains_key(s.pos) && self.view_map()[s.pos] == s && !s.is_worker_active
                    && forall|k: ChunkKey| #[trigger] self.view_map().contains_key(k) && !self.view_map()[k].is_worker_active
                    ==> s.started_tick <= self.view_map()[k].started_tick,
                None => forall|k: ChunkKey| #[trigger] self.view_map().contains_key(k) ==> self.view_map()[k].is_worker_active,
            },
    {
        if may_start_meshing(active, cores) {
            self.oldest_idle()
        } else {
            None
        }
    }

    /// A worker has started on the chunk at `pos`.
    pub fn start_meshing(&mut self, pos: ChunkKey)
        requires
            old(self).wf(),
        ensures
            final(self).wf(),
            final(self).view_map() == (if old(self).view_map().contains_key(pos) {
                old(self).view_map().insert(pos, ChunkMeshState { is_worker_active: true, ..old(self).view_map()[pos] })
            } else {
                old(self).view_map()
            }),
    {
        match queue_get(&self.map, pos) {
            Some(s) => {
                queue_insert(&mut self.map, pos, ChunkMeshState { is_worker_active: true, ..s });
            },
            None => {},
        }
    }

    /// A worker delivered a mesh for `pos` that it started on tick
    /// `started_tick`. The mesh is wanted (`true`) when the chunk is still
    /// queued and was not queued again after the worker started; the entry
    /// leaves the queue when it is the very job that was queued last.
    pub fn accept_mesh(&mut self, pos: ChunkKey, started_tick: u64) -> (r: bool)
        requires
            old(self).wf(),
        ensures
            final(self).wf(),
            r == (old(self).view_map().contains_key(pos) && started_tick <= old(self).view_map()[pos].started_tick),
            final(self).view_map() == (if r && started_tick == old(self).view_map()[pos].started_tick {
                old(self).view_map().remove(pos)
            } else {
                old(self).view_map()
            }),
    {
        match queue_get(&self.map, pos) {
            Some(queued) => {
                if started_tick <= queued.started_tick {
                    if started_tick == queued.started_tick {
                        let ghost before = self.view_map();
                        queue_remove(&mut self.map, pos);
                        assert(self.view_map() == before.remove(pos));
                        assert(forall|k: ChunkKey| self.view_map().contains_key(k) ==> before.contains_key(k));
                        assert(forall|k: ChunkKey| self.view_map().contains_key(k) ==> self.view_map()[k] == before[k]);
                    }
                    true
                } else {
                    false
                }
            },
            None => false,
        }
    }
}

} // verus!
