use vstd::prelude::*;

use hashbrown::HashMap;

use crate::blocks::{Chunk, ChunkId};
use crate::voxel_mesh::VoxelMesh;

verus! {

/// A coordinate-keyed index into the world's chunk list. The hash map lives
/// behind a trusted boundary; its contents are modeled by
/// [`chunk_index_model`].
#[verifier::external_body]
pub struct ChunkIndexMap {
    map: HashMap<ChunkId, usize>,
}

/// What a [`ChunkIndexMap`] holds: chunk coordinates `(x, z)` mapped to the
/// position of that chunk in the world's chunk list.
pub uninterp spec fn chunk_index_model(m: ChunkIndexMap) -> Map<(int, int), int>;

/// An index with nothing in it.
pub open spec fn empty_index() -> Map<(int, int), int> {
    Map::empty()
}

impl ChunkIndexMap {
    /// Relies on hashbrown's `HashMap::new`: a newly created map is empty.
    #[verifier::external_body]
    pub fn new() -> (r: ChunkIndexMap)
        ensures
            chunk_index_model(r) == empty_index(),
    {
        ChunkIndexMap { map: HashMap::new() }
    }

    /// Relies on hashbrown's `HashMap::insert`: after the call the key maps
    /// to the given value and every other key is unchanged.
    #[verifier::external_body]
    pub fn insert(&mut self, id: ChunkId, slot: usize)
        ensures
            chunk_index_model(*final(self)) == chunk_index_model(*old(self)).insert(
                (id.x as int, id.z as int),
                slot as int,
            ),
    {
        self.map.insert(id, slot);
    }

    /// Relies on hashbrown's `HashMap::get`: the value stored under the key,
    /// or nothing when the key is absent.
    #[verifier::external_body]
    pub fn get(&self, id: ChunkId) -> (r: Option<usize>)
        ensures
            match r {
                Some(slot) => chunk_index_model(*self).dom().contains((id.x as int, id.z as int))
                    && chunk_index_model(*self)[(id.x as int, id.z as int)] == slot as int,
                None => !chunk_index_model(*self).dom().contains((id.x as int, id.z as int)),
            },
    {
        self.map.get(&id).copied()
    }
}

/// The loaded world: its chunks in insertion order, with a coordinate-keyed
/// index over them. Chunks are looked up by key only; the order of the list
/// carries no meaning beyond insertion history.
pub struct World {
    chunks: Vec<Chunk>,
    index: ChunkIndexMap,
}

impl World {
    /// The loaded chunks, in insertion order.
    pub closed spec fn chunk_seq(&self) -> Seq<Chunk> {
        self.chunks@
    }

    /// The coordinate index over the chunk list.
    pub closed spec fn index_model(&self) -> Map<(int, int), int> {
        chunk_index_model(self.index)
    }

    /// The index and the chunk list agree: every indexed coordinate leads
    /// to a chunk with that coordinate, and every chunk is indexed under
    /// its own coordinate.
    pub open spec fn wf(&self) -> bool {
        &&& forall|k: (int, int)| #[trigger]
            self.index_model().dom().contains(k) ==> 0 <= self.index_model()[k]
                < self.chunk_seq().len() && self.chunk_seq()[self.index_model()[k]].id.x as int
                == k.0 && self.chunk_seq()[self.index_model()[k]].id.z as int == k.1
        &&& forall|i: int|
            0 <= i < self.chunk_seq().len() ==> {
                let key =
                    ((#[trigger] self.chunk_seq()[i]).id.x as int, self.chunk_seq()[i].id.z as int);
                self.index_model().dom().contains(key) && self.index_model()[key] == i
            }
    }

    /// Whether a chunk is loaded at `id`.
    pub open spec fn has_chunk(&self, id: ChunkId) -> bool {
        self.index_model().dom().contains((id.x as int, id.z as int))
    }

    /// The chunk loaded at `id`.
    pub open spec fn chunk_at(&self, id: ChunkId) -> Chunk {
        self.chunk_seq()[self.index_model()[(id.x as int, id.z as int)]]
    }

    /// An empty world.
    pub fn new() -> (r: World)
        ensures
            r.wf(),
            r.chunk_seq() == Seq::<Chunk>::empty(),
            r.index_model() == Map::<(int, int), int>::empty(),
    {
        let r = World { chunks: Vec::new(), index: ChunkIndexMap::new() };
        proof {
            assert(r.chunk_seq() =~= Seq::<Chunk>::empty());
        }
        r
    }

    /// The number of loaded chunks.
    pub fn chunk_count(&self) -> (r: usize)
        ensures
            r == self.chunk_seq().len(),
    {
        self.chunks.len()
    }

    /// Stores `chunk` under its coordinates, replacing the chunk already
    /// loaded there, if any.
    pub fn insert_chunk(&mut self, chunk: Chunk)
        requires
            old(self).wf(),
        ensures
            final(self).wf(),
            final(self).has_chunk(chunk.id),
            final(self).chunk_at(chunk.id) == chunk,
            forall|other: ChunkId|
                (other.x != chunk.id.x || other.z != chunk.id.z) ==> (#[trigger] final(self).has_chunk(other)
                    <==> old(self).has_chunk(other)),
            forall|other: ChunkId|
                (other.x != chunk.id.x || other.z != chunk.id.z) && old(self).has_chunk(other)
                    ==> #[trigger] final(self).chunk_at(other) == old(self).chunk_at(other),
            final(self).chunk_seq().len() == old(self).chunk_seq().len() + (if old(self).has_chunk(chunk.id) {
                0int
            } else {
                1int
            }),
    {
        let cid = chunk.id;
        let ghost key = (cid.x as int, cid.z as int);
        let ghost oldw = *old(self);
        match self.index.get(chunk.id) {
            Some(slot) => {
                proof {
                    assert(oldw.index_model().dom().contains(key));
                }
                self.chunks.set(slot, chunk);
                proof {
                    let m = self.index_model();
                    assert(m == oldw.index_model());
                    assert forall|k: (int, int)| #[trigger] m.dom().contains(k) implies 0 <= m[k]
                        < self.chunk_seq().len() && self.chunk_seq()[m[k]].id.x as int == k.0
                        && self.chunk_seq()[m[k]].id.z as int == k.1 by {
                        assert(oldw.index_model().dom().contains(k));
                        if m[k] == slot as int {
                            assert(oldw.chunk_seq()[slot as int].id.x as int == k.0);
                            assert(oldw.chunk_seq()[slot as int].id.x as int == key.0);
                            assert(oldw.chunk_seq()[slot as int].id.z as int == k.1);
                            assert(oldw.chunk_seq()[slot as int].id.z as int == key.1);
                        }
                    }
                    assert forall|i: int| 0 <= i < self.chunk_seq().len() implies {
                        let k = ((#[trigger] self.chunk_seq()[i]).id.x as int,
                        self.chunk_seq()[i].id.z as int);
                        m.dom().contains(k) && m[k] == i
                    } by {
                        if i == slot as int {
                            assert(self.chunk_seq()[i].id == cid);
                        } else {
                            assert(self.chunk_seq()[i] == oldw.chunk_seq()[i]);
                        }
                    }
                }
            },
            None => {
                let slot = self.chunks.len();
                self.chunks.push(chunk);
                self.index.insert(cid, slot);
                proof {
                    let m = self.index_model();
                    assert(m == oldw.index_model().insert(key, slot as int));
                    assert forall|k: (int, int)| #[trigger] m.dom().contains(k) implies 0 <= m[k]
                        < self.chunk_seq().len() && self.chunk_seq()[m[k]].id.x as int == k.0
                        && self.chunk_seq()[m[k]].id.z as int == k.1 by {
                        if k == key {
                            assert(m[k] == slot as int);
                            assert(self.chunk_seq()[slot as int] == chunk);
                        } else {
                            assert(oldw.index_model().dom().contains(k));
                            assert(self.chunk_seq()[m[k]] == oldw.chunk_seq()[m[k]]);
                        }
                    }
                    assert forall|i: int| 0 <= i < self.chunk_seq().len() implies {
                        let k = ((#[trigger] self.chunk_seq()[i]).id.x as int,
                        self.chunk_seq()[i].id.z as int);
                        m.dom().contains(k) && m[k] == i
                    } by {
                        if i == slot as int {
                            assert(self.chunk_seq()[i] == chunk);
                        } else {
                            assert(self.chunk_seq()[i] == oldw.chunk_seq()[i]);
                            let k = (self.chunk_seq()[i].id.x as int,
                            self.chunk_seq()[i].id.z as int);
                            assert(oldw.index_model().dom().contains(k) && oldw.index_model()[k]
                                == i);
                            assert(k != key);
                        }
                    }
                }
            },
        }
    }

    /// The chunk loaded at `id`, if any.
    pub fn get_chunk(&self, id: ChunkId) -> (r: Option<&Chunk>)
        requires
            self.wf(),
        ensures
            match r {
                Some(c) => self.has_chunk(id) && *c == self.chunk_at(id),
                None => !self.has_chunk(id),
            },
    {
        match self.index.get(id) {
            Some(slot) => {
                proof {
                    assert(self.index_model().dom().contains((id.x as int, id.z as int)));
                }
                Some(&self.chunks[slot])
            },
            None => None,
        }
    }

    /// The meshes of all loaded chunks, one per chunk, in insertion order.
    pub fn get_chunk_meshes(&self) -> (r: Vec<&VoxelMesh>)
        ensures
            r@.len() == self.chunk_seq().len(),
            forall|i: int| 0 <= i < r@.len() ==> *(#[trigger] r@[i]) == self.chunk_seq()[i].mesh,
    {
        let mut v: Vec<&VoxelMesh> = Vec::new();
        let mut i: usize = 0;
        while i < self.chunks.len()
            invariant
                i <= self.chunks@.len(),
                v@.len() == i as int,
                forall|j: int| 0 <= j < i as int ==> *(#[trigger] v@[j]) == self.chunks@[j].mesh,
            decreases self.chunks@.len() - i,
        {
            v.push(&self.chunks[i].mesh);
            i = i + 1;
        }
        v
    }
}

} // verus!
