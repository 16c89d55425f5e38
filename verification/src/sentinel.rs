use vstd::prelude::*;

verus! {

/// A region key: the position of a region on the map grid.
pub type RegionKey = (i32, i32);

/// The map type behind `DeletedEntities`.
pub type DeletedMap = hashbrown::HashMap<(i32, i32), Vec<u64>>;

/// What a `DeletedMap` holds: for each region key, its list of uids.
pub uninterp spec fn deleted_contents(m: DeletedMap) -> Map<(i32, i32), Seq<u64>>;

/// `hashbrown::HashMap::new`: an empty map.
#[verifier::external_body]
fn map_new() -> (r: DeletedMap)
    ensures
        deleted_contents(r) =~= Map::empty(),
{
    hashbrown::HashMap::new()
}

/// `hashbrown::HashMap::remove`: takes the entry for `key` out of the map
/// and returns its value, if there was one.
#[verifier::external_body]
fn map_remove(m: &mut DeletedMap, key: (i32, i32)) -> (r: Option<Vec<u64>>)
    ensures
        deleted_contents(*final(m)) == deleted_contents(*old(m)).remove(key),
        match r {
            Some(v) => deleted_contents(*old(m)).contains_key(key) && v@ == deleted_contents(*old(m))[key],
            None => !deleted_contents(*old(m)).contains_key(key),
        },
{
    m.remove(&key)
}

/// `hashbrown::HashMap::insert`: sets the value for `key` and returns the
/// value it replaced, if any.
#[verifier::external_body]
fn map_insert(m: &mut DeletedMap, key: (i32, i32), value: Vec<u64>) -> (r: Option<Vec<u64>>)
    ensures
        deleted_contents(*final(m)) == deleted_contents(*old(m)).insert(key, value@),
        match r {
            Some(v) => deleted_contents(*old(m)).contains_key(key) && v@ == deleted_contents(*old(m))[key],
            None => !deleted_contents(*old(m)).contains_key(key),
        },
{
    m.insert(key, value)
}

/// `hashbrown::HashMap::get`: the value for `key`, if any.
#[verifier::external_body]
fn map_get(m: &DeletedMap, key: (i32, i32)) -> (r: Option<&Vec<u64>>)
    ensures
        match r {
            Some(v) => deleted_contents(*m).contains_key(key) && v@ == deleted_contents(*m)[key],
            None => !deleted_contents(*m).contains_key(key),
        },
{
    m.get(&key)
}

/// `hashbrown::HashMap::drain`, collected: every entry, each once, in the
/// map's own order (which this says nothing about), leaving the map empty.
#[verifier::external_body]
fn map_drain(m: &mut DeletedMap) -> (r: Vec<((i32, i32), Vec<u64>)>)
    ensures
        deleted_contents(*final(m)) =~= Map::empty(),
        r@.len() == deleted_contents(*old(m)).dom().len(),
        forall|i: int|
            0 <= i < r@.len() ==> deleted_contents(*old(m)).contains_key(#[trigger] r@[i].0) && r@[i].1@
                == deleted_contents(*old(m))[r@[i].0],
        forall|i: int, j: int| 0 <= i < j < r@.len() ==> r@[i].0 != r@[j].0,
        forall|k: (i32, i32)| #[trigger] deleted_contents(*old(m)).contains_key(k) ==> exists|i: int|
            0 <= i < r@.len() && r@[i].0 == k,
{
    m.drain().collect()
}

/// The uids recorded for region `key` in `m`; none when it has no entry.
pub open spec fn recorded_in(m: Map<(i32, i32), Seq<u64>>, key: (i32, i32)) -> Seq<u64> {
    if m.contains_key(key) {
        m[key]
    } else {
        Seq::empty()
    }
}

/// `m` once the deletion of `uid` in region `key` is recorded: appended to
/// that region's list.
pub open spec fn recorded(m: Map<(i32, i32), Seq<u64>>, uid: u64, key: (i32, i32)) -> Map<(i32, i32), Seq<u64>> {
    m.insert(key, recorded_in(m, key).push(uid))
}

/// What is recorded for a region comes back, in the order it was recorded,
/// when the region is taken; recording in one region leaves every other
/// region's list alone.
pub proof fn lemma_record_then_take(m: Map<(i32, i32), Seq<u64>>, uids: Seq<u64>, key: (i32, i32), other: (
    i32,
    i32,
))
    requires
        other != key,
    ensures
        recorded_in(record_all(m, uids, key), key) == recorded_in(m, key) + uids,
        recorded_in(record_all(m, uids, key), other) == recorded_in(m, other),
        record_all(m, uids, key).contains_key(other) == m.contains_key(other),
    decreases uids.len(),
{
    if uids.len() > 0 {
        lemma_record_then_take(m, uids.drop_last(), key, other);
        assert(recorded_in(m, key) + uids.drop_last() + seq![uids.last()] =~= recorded_in(m, key) + uids);
    } else {
        assert(recorded_in(m, key) + uids =~= recorded_in(m, key));
    }
}

/// `m` once each of `uids` is recorded, in order, in region `key`.
pub open spec fn record_all(m: Map<(i32, i32), Seq<u64>>, uids: Seq<u64>, key: (i32, i32)) -> Map<
    (i32, i32),
    Seq<u64>,
>
    decreases uids.len(),
{
    if uids.len() == 0 {
        m
    } else {
        recorded(record_all(m, uids.drop_last(), key), uids.last(), key)
    }
}

/// Uids of deleted entities, grouped by the region they were deleted in.
pub struct DeletedEntities {
    map: DeletedMap,
}

impl DeletedEntities {
    /// For each region key, the uids recorded there, oldest first.
    pub closed spec fn view_map(&self) -> Map<(i32, i32), Seq<u64>> {
        deleted_contents(self.map)
    }

    /// Nothing recorded.
    pub fn new() -> (d: DeletedEntities)
        ensures
            d.view_map() == Map::<(i32, i32), Seq<u64>>::empty(),
    {
        DeletedEntities { map: map_new() }
    }

    /// Records that the entity `uid` was deleted in region `region_key`.
    pub fn record_deleted_entity(&mut self, uid: u64, region_key: (i32, i32))
        ensures
            final(self).view_map() == recorded(old(self).view_map(), uid, region_key),
    {
        let list = match map_remove(&mut self.map, region_key) {
            Some(v) => v,
            None => Vec::new(),
        };
        let mut list = list;
        list.push(uid);
        let _ = map_insert(&mut self.map, region_key, list);
        proof {
            assert(old(self).view_map().remove(region_key).insert(region_key, list@) =~= old(self).view_map().insert(
                region_key,
                list@,
            ));
        }
    }

    /// Takes the uids recorded for region `key`, if any.
    pub fn take_deleted_in_region(&mut self, key: (i32, i32)) -> (r: Option<Vec<u64>>)
        ensures
            final(self).view_map() == old(self).view_map().remove(key),
            match r {
                Some(v) => old(self).view_map().contains_key(key) && v@ == old(self).view_map()[key],
                None => !old(self).view_map().contains_key(key),
            },
    {
        map_remove(&mut self.map, key)
    }

    /// The uids recorded for region `key`, if any.
    pub fn get_deleted_in_region(&self, key: (i32, i32)) -> (r: Option<&Vec<u64>>)
        ensures
            match r {
                Some(v) => self.view_map().contains_key(key) && v@ == self.view_map()[key],
                None => !self.view_map().contains_key(key),
            },
    {
        map_get(&self.map, key)
    }

    /// Takes everything recorded: each region with its uids, each region
    /// once, in no particular order.
    pub fn take_remaining_deleted(&mut self) -> (r: Vec<((i32, i32), Vec<u64>)>)
        ensures
            final(self).view_map() == Map::<(i32, i32), Seq<u64>>::empty(),
            r@.len() == old(self).view_map().dom().len(),
            forall|i: int|
                0 <= i < r@.len() ==> old(self).view_map().contains_key(#[trigger] r@[i].0) && r@[i].1@
                    == old(self).view_map()[r@[i].0],
            forall|i: int, j: int| 0 <= i < j < r@.len() ==> r@[i].0 != r@[j].0,
            forall|k: (i32, i32)| #[trigger] old(self).view_map().contains_key(k) ==> exists|i: int|
                0 <= i < r@.len() && r@[i].0 == k,
    {
        map_drain(&mut self.map)
    }
}

} // verus!
