//! Chunked voxel storage: a sparse map from lattice position to voxel value.
//!
//! Positions are grouped into cubic chunks of a fixed edge length chosen at
//! construction.  A chunk materializes, filled with the ambient value, on
//! the first write to any position inside it; reading a position whose chunk
//! was never written yields the ambient value.  Chunk identifiers come from
//! an arena counter owned by the storage instance, so independent storages
//! stay independent.

use vstd::prelude::*;

verus! {

use crate::geometry::IVec;
use crate::storage::euclid_div_mod_i32;

/// An identifier of one materialized chunk, unique within its storage.
#[derive(Copy, Clone, Eq, PartialEq, Structural, Debug, Hash)]
pub struct ChunkIndex(pub u32);

/// Bookkeeping for one materialized chunk: its chunk-space key and its
/// identifier.
#[derive(Copy, Clone, Eq, PartialEq, Structural, Debug, Hash)]
pub struct ChunkMeta {
    pub key: IVec,
    pub index: ChunkIndex,
}

/// Chunked voxel storage with ambient default value.
pub struct ChunkStorage<T> {
    /// Edge length of one cubic chunk.
    pub chunk_size: i32,
    /// The value of every never-written position.
    pub ambient: T,
    /// Arena counter handing out chunk identifiers.
    pub next_index: u32,
    /// One entry per materialized chunk.
    pub metas: Vec<ChunkMeta>,
    /// The voxel data of all chunks, flattened: chunk `i` occupies the range
    /// `[i * vol, (i + 1) * vol)`.
    pub data: Vec<T>,
}

impl<T: Copy> ChunkStorage<T> {
    /// The chunk edge length as an integer.
    pub open spec fn size(self) -> int {
        self.chunk_size as int
    }

    /// The number of positions in one chunk.
    pub open spec fn vol(self) -> int {
        self.size() * self.size() * self.size()
    }

    /// Well-formedness: positive bounded chunk edge, flat data of exactly
    /// one chunk volume per materialized chunk, and distinct chunk keys.
    pub open spec fn wf(self) -> bool {
        &&& 0 < self.chunk_size <= 1024
        &&& self.data.len() == self.metas.len() * self.vol()
        &&& forall|i: int, j: int|
            0 <= i < j < self.metas.len() ==> #[trigger] self.metas[i].key != #[trigger] self.metas[j].key
    }

    /// The chunk-space key of the chunk containing `p`.
    pub open spec fn spec_key(self, p: IVec) -> (int, int, int) {
        ((p.x as int) / self.size(), (p.y as int) / self.size(), (p.z as int) / self.size())
    }

    /// Whether the meta `m` carries the chunk key `k`.
    pub open spec fn key_matches(m: ChunkMeta, k: (int, int, int)) -> bool {
        m.key.x == k.0 && m.key.y == k.1 && m.key.z == k.2
    }

    /// Whether a chunk with key `k` has materialized.
    pub open spec fn has_chunk(self, k: (int, int, int)) -> bool {
        exists|i: int| 0 <= i < self.metas.len() && Self::key_matches(#[trigger] self.metas[i], k)
    }

    /// The index of the chunk with key `k` among the materialized chunks.
    pub open spec fn chunk_at(self, k: (int, int, int)) -> int {
        choose|i: int| 0 <= i < self.metas.len() && Self::key_matches(#[trigger] self.metas[i], k)
    }

    /// Whether the chunk containing `p` has materialized: `get_mut`-style
    /// writes to contained positions are in place.
    pub open spec fn spec_contains(self, p: IVec) -> bool {
        self.has_chunk(self.spec_key(p))
    }

    /// The position of `p` within its chunk's flattened data.
    pub open spec fn spec_offset(self, p: IVec) -> int {
        let s = self.size();
        (((p.x as int) % s) * s + (p.y as int) % s) * s + (p.z as int) % s
    }

    /// The value stored at `p`: the ambient value wherever no chunk has
    /// materialized.
    pub open spec fn spec_get(self, p: IVec) -> T {
        if self.spec_contains(p) {
            self.data[self.chunk_at(self.spec_key(p)) * self.vol() + self.spec_offset(p)]
        } else {
            self.ambient
        }
    }

    /// A chunk key found at index `i` is found by `chunk_at` at `i` itself.
    proof fn lemma_chunk_at(self, i: int)
        requires
            self.wf(),
            0 <= i < self.metas.len(),
        ensures
            self.has_chunk((self.metas[i].key.x as int, self.metas[i].key.y as int, self.metas[i].key.z as int)),
            self.chunk_at((self.metas[i].key.x as int, self.metas[i].key.y as int, self.metas[i].key.z as int)) == i,
    {
        let k = (self.metas[i].key.x as int, self.metas[i].key.y as int, self.metas[i].key.z
            as int);
        assert(Self::key_matches(self.metas[i], k));
        let j = self.chunk_at(k);
        if j != i {
            assert(self.metas[if i < j { i } else { j }].key != self.metas[if i < j { j } else { i }].key);
        }
    }

    /// Creates an empty storage: every position reads the ambient value.
    pub fn new(ambient: T, chunk_size: i32) -> (r: ChunkStorage<T>)
        requires
            0 < chunk_size <= 1024,
        ensures
            r.wf(),
            r.ambient == ambient,
            r.chunk_size == chunk_size,
            forall|p: IVec| !r.spec_contains(p),
            forall|p: IVec| r.spec_get(p) == ambient,
    {
        let r = ChunkStorage { chunk_size, ambient, next_index: 0, metas: Vec::new(), data: Vec::new() };
        proof {
            assert(r.metas.len() * r.vol() == 0) by (nonlinear_arith)
                requires
                    r.metas.len() == 0,
            ;
            assert forall|p: IVec| !r.spec_contains(p) by {
                assert(r.metas.len() == 0);
            }
        }
        r
    }

    /// The ambient value of the storage.
    pub fn ambient(&self) -> (r: T)
        ensures
            r == self.ambient,
    {
        self.ambient
    }

    /// Looks up the materialized chunk containing `p`, returning its
    /// position among the chunks together with the chunk-space key and the
    /// offset coordinates of `p` inside the chunk.
    fn find_chunk(&self, p: IVec) -> (r: (Option<usize>, IVec, (i32, i32, i32)))
        requires
            self.wf(),
        ensures
            r.1.x == self.spec_key(p).0 && r.1.y == self.spec_key(p).1 && r.1.z == self.spec_key(
                p,
            ).2,
            r.2.0 == (p.x as int) % self.size() && r.2.1 == (p.y as int) % self.size() && r.2.2 == (
            p.z as int) % self.size(),
            match r.0 {
                Some(i) => self.spec_contains(p) && i < self.metas.len() && i == self.chunk_at(
                    self.spec_key(p),
                ),
                None => !self.spec_contains(p),
            },
    {
        let (kx, ox) = euclid_div_mod_i32(p.x, self.chunk_size);
        let (ky, oy) = euclid_div_mod_i32(p.y, self.chunk_size);
        let (kz, oz) = euclid_div_mod_i32(p.z, self.chunk_size);
        let key = IVec { x: kx, y: ky, z: kz };
        let mut i: usize = 0;
        while i < self.metas.len()
            invariant
                self.wf(),
                0 <= i <= self.metas.len(),
                kx == self.spec_key(p).0 && ky == self.spec_key(p).1 && kz == self.spec_key(p).2,
                key == (IVec { x: kx, y: ky, z: kz }),
                ox == (p.x as int) % self.size() && oy == (p.y as int) % self.size() && oz == (
                p.z as int) % self.size(),
                forall|j: int|
                    0 <= j < i ==> !Self::key_matches(#[trigger] self.metas[j], self.spec_key(p)),
            decreases self.metas.len() - i,
        {
            let m = self.metas[i];
            if m.key.x == kx && m.key.y == ky && m.key.z == kz {
                proof {
                    self.lemma_chunk_at(i as int);
                }
                return (Some(i), key, (ox, oy, oz));
            }
            i = i + 1;
        }
        proof {
            if self.spec_contains(p) {
                let w = self.chunk_at(self.spec_key(p));
                assert(!Self::key_matches(self.metas[w], self.spec_key(p)));
            }
        }
        (None, key, (ox, oy, oz))
    }

    /// The flat index of offset coordinates within a chunk starting at slot
    /// `base` of the flat data.
    fn flat_index(&self, chunk_pos: usize, o: (i32, i32, i32)) -> (r: usize)
        requires
            self.wf(),
            chunk_pos < self.metas.len(),
            0 <= o.0 < self.chunk_size,
            0 <= o.1 < self.chunk_size,
            0 <= o.2 < self.chunk_size,
        ensures
            r == chunk_pos * self.vol() + ((o.0 * self.size() + o.1) * self.size() + o.2),
            r < self.data.len(),
    {
        proof {
            lemma_chunk_arith(
                self.metas.len() as int,
                chunk_pos as int,
                self.size(),
                o.0 as int,
                o.1 as int,
                o.2 as int,
            );
        }
        let s = self.chunk_size as usize;
        proof {
            assert((s as int) * (s as int) * (s as int) <= 0x4000_0000 && (s as int) * (s as int)
                <= 0x10_0000) by (nonlinear_arith)
                requires
                    0 < s as int <= 1024,
            ;
        }
        let vol = s * s * s;
        let off = ((o.0 as usize) * s + (o.1 as usize)) * s + (o.2 as usize);
        chunk_pos * vol + off
    }

    /// Reads the voxel at `position`: the ambient value wherever nothing has
    /// been written.
    pub fn get(&self, position: IVec) -> (r: T)
        requires
            self.wf(),
        ensures
            r == self.spec_get(position),
    {
        let (found, _key, o) = self.find_chunk(position);
        match found {
            Some(i) => {
                let idx = self.flat_index(i, o);
                self.data[idx]
            },
            None => self.ambient,
        }
    }

    /// Whether the chunk containing `position` has materialized; when true,
    /// writes to `position` are in place and allocate nothing.
    pub fn contains(&self, position: IVec) -> (r: bool)
        requires
            self.wf(),
        ensures
            r == self.spec_contains(position),
    {
        let (found, _key, _o) = self.find_chunk(position);
        found.is_some()
    }

    /// The chunk identifier and in-chunk offset of `position`, when its
    /// chunk has materialized.
    pub fn index_of(&self, position: IVec) -> (r: Option<(ChunkIndex, IVec)>)
        requires
            self.wf(),
        ensures
            match r {
                Some(pair) => self.spec_contains(position) && pair.0 == self.metas[self.chunk_at(
                    self.spec_key(position),
                )].index && pair.1.x as int == (position.x as int) % self.size() && pair.1.y
                    as int == (position.y as int) % self.size() && pair.1.z as int == (position.z
                    as int) % self.size(),
                None => !self.spec_contains(position),
            },
    {
        let (found, _key, o) = self.find_chunk(position);
        match found {
            Some(i) => Some((self.metas[i].index, IVec { x: o.0, y: o.1, z: o.2 })),
            None => None,
        }
    }

    /// Writes `value` at `position`, materializing the containing chunk
    /// filled with the ambient value if needed.  Every other position keeps
    /// its value; writing the ambient value is "clearing" the voxel.
    pub fn set(&mut self, position: IVec, value: T)
        requires
            old(self).wf(),
        ensures
            final(self).wf(),
            final(self).chunk_size == old(self).chunk_size,
            final(self).ambient == old(self).ambient,
            final(self).spec_get(position) == value,
            forall|p: IVec| p != position ==> final(self).spec_get(p) == old(self).spec_get(p),
            forall|p: IVec|
                final(self).spec_contains(p) == (old(self).spec_contains(p) || old(self).spec_key(p)
                    == old(self).spec_key(position)),
    {
        let (found, key, o) = self.find_chunk(position);
        match found {
            Some(i) => {
                let idx = self.flat_index(i, o);
                self.data[idx] = value;
                proof {
                    lemma_set_in_place(*old(self), *self, position, value, i as int);
                }
            },
            None => {
                let ghost oldself = *self;
                let chunk_pos = self.metas.len();
                self.metas.push(ChunkMeta { key, index: ChunkIndex(self.next_index) });
                self.next_index = self.next_index.wrapping_add(1);
                let s = self.chunk_size as usize;
                proof {
                    assert((s as int) * (s as int) * (s as int) <= 0x4000_0000 && (s as int) * (s
                        as int) <= 0x10_0000) by (nonlinear_arith)
                        requires
                            0 < s as int <= 1024,
                    ;
                }
                let vol = s * s * s;
                let mut j: usize = 0;
                while j < vol
                    invariant
                        j <= vol,
                        vol == oldself.vol(),
                        self.chunk_size == oldself.chunk_size,
                        self.ambient == oldself.ambient,
                        self.metas@ == oldself.metas@.push(
                            ChunkMeta { key, index: ChunkIndex(oldself.next_index) },
                        ),
                        self.data@ == oldself.data@ + Seq::new(j as nat, |k: int| oldself.ambient),
                        oldself.wf(),
                    decreases vol - j,
                {
                    self.data.push(self.ambient);
                    proof {
                        assert(self.data@ =~= oldself.data@ + Seq::new(
                            (j + 1) as nat,
                            |k: int| oldself.ambient,
                        ));
                    }
                    j = j + 1;
                }
                proof {
                    lemma_new_chunk_wf(oldself, *self, key);
                }
                let idx = self.flat_index(chunk_pos, o);
                self.data[idx] = value;
                proof {
                    lemma_set_new_chunk(*old(self), *self, position, value, chunk_pos as int);
                }
            },
        }
    }
}

/// The in-chunk offset encoding is decodable: the three offset coordinates
/// can be read back off the flat offset by division and remainder, so the
/// encoding is injective.
proof fn lemma_offset_decode(s: int, ox: int, oy: int, oz: int)
    requires
        0 < s,
        0 <= ox < s,
        0 <= oy < s,
        0 <= oz < s,
    ensures
        ((ox * s + oy) * s + oz) % s == oz,
        (((ox * s + oy) * s + oz) / s) % s == oy,
        (((ox * s + oy) * s + oz) / s) / s == ox,
{
    let off = (ox * s + oy) * s + oz;
    assert(off == (ox * s + oy) * s + oz);
    assert((ox * s + oy) * s == s * (ox * s + oy)) by (nonlinear_arith);
    vstd::arithmetic::div_mod::lemma_fundamental_div_mod_converse(off, s, ox * s + oy, oz);
    assert(ox * s == s * ox) by (nonlinear_arith);
    vstd::arithmetic::div_mod::lemma_fundamental_div_mod_converse(ox * s + oy, s, ox, oy);
}

/// Index arithmetic for flat chunk data: the in-chunk offset lies within one
/// chunk volume and the flat index within the data of `n` chunks.
proof fn lemma_chunk_arith(n: int, i: int, s: int, ox: int, oy: int, oz: int)
    by (nonlinear_arith)
    requires
        0 <= i < n,
        0 < s <= 1024,
        0 <= ox < s,
        0 <= oy < s,
        0 <= oz < s,
    ensures
        0 <= ox * s + oy < s * s,
        0 <= (ox * s + oy) * s + oz < s * s * s,
        s * s <= 0x10_0000,
        s * s * s <= 0x4000_0000,
        i * (s * s * s) + ((ox * s + oy) * s + oz) < n * (s * s * s),
        (i + 1) * (s * s * s) <= n * (s * s * s),
{
}

/// After an in-place write the storage maps the written position to the new
/// value and keeps everything else.
proof fn lemma_set_in_place<T: Copy>(
    pre: ChunkStorage<T>,
    post: ChunkStorage<T>,
    position: IVec,
    value: T,
    i: int,
)
    requires
        pre.wf(),
        0 <= i < pre.metas.len(),
        pre.spec_contains(position),
        i == pre.chunk_at(pre.spec_key(position)),
        post.chunk_size == pre.chunk_size,
        post.ambient == pre.ambient,
        post.metas == pre.metas,
        post.data@ == pre.data@.update(i * pre.vol() + pre.spec_offset(position), value),
        pre.data.len() == pre.metas.len() * pre.vol(),
    ensures
        post.wf(),
        post.spec_get(position) == value,
        forall|p: IVec| p != position ==> post.spec_get(p) == pre.spec_get(p),
        forall|p: IVec| post.spec_contains(p) == pre.spec_contains(p),
{
    lemma_chunk_arith(
        pre.metas.len() as int,
        i,
        pre.size(),
        (position.x as int) % pre.size(),
        (position.y as int) % pre.size(),
        (position.z as int) % pre.size(),
    );
    assert(post.data.len() == pre.data.len());
    assert forall|p: IVec| post.spec_contains(p) == pre.spec_contains(p) by {
        assert(post.spec_key(p) == pre.spec_key(p));
    }
    assert(post.spec_get(position) == value);
    assert forall|p: IVec| p != position implies post.spec_get(p) == pre.spec_get(p) by {
        if pre.spec_contains(p) {
            let kp = pre.spec_key(p);
            let j = pre.chunk_at(kp);
            lemma_chunk_slot_distinct(pre, p, position, i, j);
        }
    }
}

/// Two distinct positions never share a flat data slot.
proof fn lemma_chunk_slot_distinct<T: Copy>(
    pre: ChunkStorage<T>,
    p: IVec,
    q: IVec,
    i: int,
    j: int,
)
    requires
        pre.wf(),
        p != q,
        pre.spec_contains(p),
        pre.spec_contains(q),
        i == pre.chunk_at(pre.spec_key(q)),
        j == pre.chunk_at(pre.spec_key(p)),
    ensures
        0 <= j < pre.metas.len(),
        j * pre.vol() + pre.spec_offset(p) != i * pre.vol() + pre.spec_offset(q),
        0 <= j * pre.vol() + pre.spec_offset(p) < pre.data.len(),
{
    let s = pre.size();
    let kp = pre.spec_key(p);
    let kq = pre.spec_key(q);
    assert(0 <= j < pre.metas.len() && ChunkStorage::<T>::key_matches(pre.metas[j], kp));
    assert(0 <= i < pre.metas.len() && ChunkStorage::<T>::key_matches(pre.metas[i], kq));
    vstd::arithmetic::div_mod::lemma_fundamental_div_mod(p.x as int, s);
    vstd::arithmetic::div_mod::lemma_fundamental_div_mod(p.y as int, s);
    vstd::arithmetic::div_mod::lemma_fundamental_div_mod(p.z as int, s);
    vstd::arithmetic::div_mod::lemma_fundamental_div_mod(q.x as int, s);
    vstd::arithmetic::div_mod::lemma_fundamental_div_mod(q.y as int, s);
    vstd::arithmetic::div_mod::lemma_fundamental_div_mod(q.z as int, s);
    lemma_chunk_arith(
        pre.metas.len() as int,
        j,
        s,
        (p.x as int) % s,
        (p.y as int) % s,
        (p.z as int) % s,
    );
    lemma_chunk_arith(
        pre.metas.len() as int,
        i,
        s,
        (q.x as int) % s,
        (q.y as int) % s,
        (q.z as int) % s,
    );
    if i == j {
        assert(pre.metas[i].key == pre.metas[j].key);
        assert(kp == kq);
        if pre.spec_offset(p) == pre.spec_offset(q) {
            lemma_offset_decode(s, (p.x as int) % s, (p.y as int) % s, (p.z as int) % s);
            lemma_offset_decode(s, (q.x as int) % s, (q.y as int) % s, (q.z as int) % s);
            assert(false);
        }
    } else {
        assert(j * pre.vol() + pre.spec_offset(p) != i * pre.vol() + pre.spec_offset(q))
            by (nonlinear_arith)
            requires
                i != j,
                0 <= i,
                0 <= j,
                0 < s,
                pre.vol() == s * s * s,
                0 <= pre.spec_offset(p) < s * s * s,
                0 <= pre.spec_offset(q) < s * s * s,
        ;
    }
}

/// Appending a chunk with a fresh key keeps the storage well formed.
proof fn lemma_new_chunk_wf<T: Copy>(pre: ChunkStorage<T>, post: ChunkStorage<T>, key: IVec)
    requires
        pre.wf(),
        !pre.has_chunk((key.x as int, key.y as int, key.z as int)),
        post.chunk_size == pre.chunk_size,
        post.ambient == pre.ambient,
        post.metas@.len() == pre.metas@.len() + 1,
        post.metas@ =~= pre.metas@.push(post.metas@[pre.metas@.len() as int]),
        post.metas@[pre.metas@.len() as int].key == key,
        post.data@.len() == pre.data@.len() + pre.vol(),
    ensures
        post.wf(),
    {
    assert(post.data.len() == post.metas.len() * post.vol()) by (nonlinear_arith)
        requires
            post.data@.len() == pre.data@.len() + pre.vol(),
            pre.data@.len() == pre.metas@.len() * pre.vol(),
            post.metas@.len() == pre.metas@.len() + 1,
            post.vol() == pre.vol(),
    ;
    assert forall|i: int, j: int| 0 <= i < j < post.metas.len() implies #[trigger] post.metas[i].key
        != #[trigger] post.metas[j].key by {
        if j < pre.metas.len() {
        } else {
            assert(j == pre.metas.len());
            if post.metas[i].key == key {
                assert(ChunkStorage::<T>::key_matches(
                    pre.metas[i],
                    (key.x as int, key.y as int, key.z as int),
                ));
            }
        }
    }
}

/// After materializing a fresh chunk and writing one value into it, the
/// storage maps the written position to the value, keeps every other
/// position, and covers exactly the old chunks plus the new one.
proof fn lemma_set_new_chunk<T: Copy>(
    pre: ChunkStorage<T>,
    post: ChunkStorage<T>,
    position: IVec,
    value: T,
    cp: int,
)
    requires
        pre.wf(),
        post.wf(),
        !pre.spec_contains(position),
        cp == pre.metas.len(),
        post.chunk_size == pre.chunk_size,
        post.ambient == pre.ambient,
        post.metas@ =~= pre.metas@.push(post.metas@[cp]),
        post.metas@[cp].key.x == pre.spec_key(position).0,
        post.metas@[cp].key.y == pre.spec_key(position).1,
        post.metas@[cp].key.z == pre.spec_key(position).2,
        post.data@ =~= (pre.data@ + Seq::new(pre.vol() as nat, |k: int| pre.ambient)).update(
            cp * pre.vol() + pre.spec_offset(position),
            value,
        ),
    ensures
        post.spec_get(position) == value,
        forall|p: IVec| p != position ==> post.spec_get(p) == pre.spec_get(p),
        forall|p: IVec|
            post.spec_contains(p) == (pre.spec_contains(p) || pre.spec_key(p) == pre.spec_key(
                position,
            )),
{
    let s = pre.size();
    let k = pre.spec_key(position);
    post.lemma_chunk_at(cp);
    assert(post.spec_key(position) == k);
    assert(post.spec_contains(position));
    assert(post.chunk_at(k) == cp);
    lemma_chunk_arith(
        post.metas.len() as int,
        cp,
        s,
        (position.x as int) % s,
        (position.y as int) % s,
        (position.z as int) % s,
    );
    assert(post.spec_get(position) == value);
    assert forall|p: IVec|
        post.spec_contains(p) == (pre.spec_contains(p) || pre.spec_key(p) == pre.spec_key(
            position,
        )) by {
        let kp = pre.spec_key(p);
        assert(post.spec_key(p) == kp);
        if pre.spec_contains(p) {
            let i = pre.chunk_at(kp);
            assert(ChunkStorage::<T>::key_matches(pre.metas[i], kp));
            assert(ChunkStorage::<T>::key_matches(post.metas[i], kp));
            assert(post.spec_contains(p));
        }
        if kp == k {
            assert(ChunkStorage::<T>::key_matches(post.metas[cp], kp));
            assert(post.spec_contains(p));
        }
        if post.spec_contains(p) && !pre.spec_contains(p) {
            let i = post.chunk_at(kp);
            assert(ChunkStorage::<T>::key_matches(post.metas[i], kp));
            if i < pre.metas.len() {
                assert(ChunkStorage::<T>::key_matches(pre.metas[i], kp));
            } else {
                assert(i == cp);
                assert(kp == k);
            }
        }
    }
    assert forall|p: IVec| p != position implies post.spec_get(p) == pre.spec_get(p) by {
        let kp = pre.spec_key(p);
        assert(post.spec_key(p) == kp);
        assert(post.spec_offset(p) == pre.spec_offset(p));
        if pre.spec_contains(p) {
            let i = pre.chunk_at(kp);
            pre.lemma_chunk_at(i);
            post.lemma_chunk_at(i);
            assert(post.chunk_at(kp) == i);
            lemma_chunk_arith(
                pre.metas.len() as int,
                i,
                s,
                (p.x as int) % s,
                (p.y as int) % s,
                (p.z as int) % s,
            );
            assert(post.spec_get(p) == post.data@[i * pre.vol() + pre.spec_offset(p)]);
            assert(i * pre.vol() + pre.spec_offset(p) != cp * pre.vol() + pre.spec_offset(
                position,
            )) by (nonlinear_arith)
                requires
                    i != cp,
                    0 <= i,
                    0 <= cp,
                    0 < s,
                    pre.vol() == s * s * s,
                    0 <= pre.spec_offset(p) < s * s * s,
                    0 <= pre.spec_offset(position) < s * s * s,
            ;
            assert(post.spec_get(p) == pre.data@[i * pre.vol() + pre.spec_offset(p)]);
        } else if post.spec_contains(p) {
            assert(kp == k);
            assert(post.chunk_at(kp) == cp);
            lemma_chunk_arith(
                post.metas.len() as int,
                cp,
                s,
                (p.x as int) % s,
                (p.y as int) % s,
                (p.z as int) % s,
            );
            assert(pre.spec_offset(p) != pre.spec_offset(position)) by {
                vstd::arithmetic::div_mod::lemma_fundamental_div_mod(p.x as int, s);
                vstd::arithmetic::div_mod::lemma_fundamental_div_mod(p.y as int, s);
                vstd::arithmetic::div_mod::lemma_fundamental_div_mod(p.z as int, s);
                vstd::arithmetic::div_mod::lemma_fundamental_div_mod(position.x as int, s);
                vstd::arithmetic::div_mod::lemma_fundamental_div_mod(position.y as int, s);
                vstd::arithmetic::div_mod::lemma_fundamental_div_mod(position.z as int, s);
                if pre.spec_offset(p) == pre.spec_offset(position) {
                    lemma_offset_decode(s, (p.x as int) % s, (p.y as int) % s, (p.z as int) % s);
                    lemma_offset_decode(
                        s,
                        (position.x as int) % s,
                        (position.y as int) % s,
                        (position.z as int) % s,
                    );
                    assert(false);
                }
            }
            assert(post.spec_get(p) == pre.ambient);
        }
    }
}

impl<T: Copy> ChunkStorage<T> {
    /// Visits every populated position: returns one `(position, value)`
    /// pair for each position whose chunk has materialized, each position
    /// exactly once, with the value the storage holds there.
    pub fn for_each(&self) -> (r: Vec<(IVec, T)>)
        requires
            self.wf(),
        ensures
            forall|k: int|
                0 <= k < r@.len() ==> self.spec_contains(#[trigger] r@[k].0) && r@[k].1
                    == self.spec_get(r@[k].0),
            forall|k1: int, k2: int| 0 <= k1 < k2 < r@.len() ==> r@[k1].0 != r@[k2].0,
            forall|p: IVec|
                self.spec_contains(p) ==> exists|k: int| 0 <= k < r@.len() && (#[trigger] r@[k]).0
                    == p,
    {
        let mut out: Vec<(IVec, T)> = Vec::new();
        let s = self.chunk_size;
        let mut ci: usize = 0;
        while ci < self.metas.len()
            invariant
                self.wf(),
                ci <= self.metas.len(),
                s == self.chunk_size,
                forall|k: int|
                    0 <= k < out@.len() ==> self.spec_contains(#[trigger] out@[k].0) && out@[k].1
                        == self.spec_get(out@[k].0) && self.chunk_at(self.spec_key(out@[k].0))
                        < ci,
                forall|k1: int, k2: int| 0 <= k1 < k2 < out@.len() ==> out@[k1].0 != out@[k2].0,
                forall|p: IVec|
                    self.spec_contains(p) && self.chunk_at(self.spec_key(p)) < ci ==> exists|
                        k: int,
                    |
                        0 <= k < out@.len() && (#[trigger] out@[k]).0 == p,
            decreases self.metas.len() - ci,
        {
            proof {
                assert((s as int) * (s as int) <= 0x10_0000 && (s as int) * (s as int) * (s
                    as int) <= 0x4000_0000) by (nonlinear_arith)
                    requires
                        0 < s as int <= 1024,
                ;
            }
            let key = self.metas[ci].key;
            let su = s as usize;
            let vol = su * su * su;
            let mut off: usize = 0;
            while off < vol
                invariant
                    self.wf(),
                    ci < self.metas.len(),
                    s == self.chunk_size,
                    su == s as usize,
                    vol == self.vol(),
                    key == self.metas[ci as int].key,
                    off <= vol,
                    forall|k: int|
                        0 <= k < out@.len() ==> self.spec_contains(#[trigger] out@[k].0)
                            && out@[k].1 == self.spec_get(out@[k].0) && (self.chunk_at(
                            self.spec_key(out@[k].0),
                        ) < ci || (self.chunk_at(self.spec_key(out@[k].0)) == ci
                            && self.spec_offset(out@[k].0) < off)),
                    forall|k1: int, k2: int|
                        0 <= k1 < k2 < out@.len() ==> out@[k1].0 != out@[k2].0,
                    forall|p: IVec|
                        self.spec_contains(p) && (self.chunk_at(self.spec_key(p)) < ci || (
                        self.chunk_at(self.spec_key(p)) == ci && self.spec_offset(p) < off))
                            ==> exists|k: int|
                            0 <= k < out@.len() && (#[trigger] out@[k]).0 == p,
                decreases vol - off,
            {
                let oz = off % su;
                let oy = (off / su) % su;
                let ox = (off / su) / su;
                proof {
                    vstd::arithmetic::div_mod::lemma_fundamental_div_mod(off as int, su as int);
                    vstd::arithmetic::div_mod::lemma_fundamental_div_mod(
                        (off as int) / (su as int),
                        su as int,
                    );
                    assert((ox as int) < (s as int)) by (nonlinear_arith)
                        requires
                            ox as int == ((off as int) / (su as int)) / (su as int),
                            (off as int) < (s as int) * (s as int) * (s as int),
                            0 < s as int,
                            su as int == s as int,
                            off as int == (su as int) * ((off as int) / (su as int)) + (off
                                as int) % (su as int),
                            0 <= ((off as int) % (su as int)) < (su as int),
                            (off as int) / (su as int) == (su as int) * (((off as int) / (su
                                as int)) / (su as int)) + ((off as int) / (su as int)) % (su
                                as int),
                            0 <= (((off as int) / (su as int)) % (su as int)) < (su as int),
                    ;
                    lemma_offset_decode(s as int, ox as int, oy as int, oz as int);
                    assert(off as int == ((ox as int) * (s as int) + (oy as int)) * (s as int)
                        + (oz as int)) by (nonlinear_arith)
                        requires
                            su as int == s as int,
                            0 < s as int,
                            off as int == (su as int) * ((off as int) / (su as int)) + (off
                                as int) % (su as int),
                            (off as int) / (su as int) == (su as int) * (((off as int) / (su
                                as int)) / (su as int)) + ((off as int) / (su as int)) % (su
                                as int),
                            oz as int == (off as int) % (su as int),
                            oy as int == ((off as int) / (su as int)) % (su as int),
                            ox as int == ((off as int) / (su as int)) / (su as int),
                    ;
                    assert((-0x8000_0000_0000 <= (key.x as int) * (s as int) <= 0x8000_0000_0000)
                        && (-0x8000_0000_0000 <= (key.y as int) * (s as int) <= 0x8000_0000_0000)
                        && (-0x8000_0000_0000 <= (key.z as int) * (s as int) <= 0x8000_0000_0000))
                        by (nonlinear_arith)
                        requires
                            -0x8000_0000 <= key.x <= 0x7fff_ffff,
                            -0x8000_0000 <= key.y <= 0x7fff_ffff,
                            -0x8000_0000 <= key.z <= 0x7fff_ffff,
                            0 < s as int <= 1024,
                    ;
                }
                let px = (key.x as i64) * (s as i64) + (ox as i64);
                let py = (key.y as i64) * (s as i64) + (oy as i64);
                let pz = (key.z as i64) * (s as i64) + (oz as i64);
                if px >= -0x8000_0000i64 && px <= 0x7fff_ffffi64 && py >= -0x8000_0000i64 && py
                    <= 0x7fff_ffffi64 && pz >= -0x8000_0000i64 && pz <= 0x7fff_ffffi64 {
                    let p = IVec { x: px as i32, y: py as i32, z: pz as i32 };
                    proof {
                        lemma_position_of_offset(*self, ci as int, p, ox as int, oy as int, oz as int);
                    }
                    let idx = self.flat_index(ci, (ox as i32, oy as i32, oz as i32));
                    let value = self.data[idx];
                    let ghost oldout = out@;
                    out.push((p, value));
                    proof {
                        assert(self.spec_offset(p) == off);
                        assert(self.spec_get(p) == value);
                        assert forall|k1: int, k2: int|
                            0 <= k1 < k2 < out@.len() implies out@[k1].0 != out@[k2].0 by {
                            if k2 == out@.len() - 1 && out@[k1].0 == p {
                                assert(self.chunk_at(self.spec_key(out@[k1].0)) == ci
                                    && self.spec_offset(out@[k1].0) == off);
                            }
                        }
                        assert forall|p2: IVec|
                            self.spec_contains(p2) && (self.chunk_at(self.spec_key(p2)) < ci || (
                            self.chunk_at(self.spec_key(p2)) == ci && self.spec_offset(p2) < off
                                + 1)) implies exists|k: int|
                            0 <= k < out@.len() && (#[trigger] out@[k]).0 == p2 by {
                            if self.chunk_at(self.spec_key(p2)) == ci && self.spec_offset(p2)
                                == off {
                                lemma_same_slot_same_position(*self, ci as int, p, p2);
                                assert(out@[out@.len() - 1].0 == p2);
                            } else {
                                let k = choose|k: int|
                                    0 <= k < oldout.len() && (#[trigger] oldout[k]).0 == p2;
                                assert(out@[k].0 == p2);
                            }
                        }
                    }
                } else {
                    proof {
                        assert forall|p2: IVec|
                            self.spec_contains(p2) && (self.chunk_at(self.spec_key(p2)) < ci || (
                            self.chunk_at(self.spec_key(p2)) == ci && self.spec_offset(p2) < off
                                + 1)) implies exists|k: int|
                            0 <= k < out@.len() && (#[trigger] out@[k]).0 == p2 by {
                            if self.chunk_at(self.spec_key(p2)) == ci && self.spec_offset(p2)
                                == off {
                                lemma_slot_in_range(*self, ci as int, p2);
                                let sInt = self.size();
                                lemma_offset_decode(
                                    sInt,
                                    (p2.x as int) % sInt,
                                    (p2.y as int) % sInt,
                                    (p2.z as int) % sInt,
                                );
                                assert((p2.x as int) % sInt == ox as int && (p2.y as int) % sInt
                                    == oy as int && (p2.z as int) % sInt == oz as int);
                                assert(p2.x as int == px as int && p2.y as int == py as int
                                    && p2.z as int == pz as int);
                                assert(false);
                            }
                        }
                    }
                }
                off = off + 1;
            }
            proof {
                assert forall|p2: IVec|
                    self.spec_contains(p2) && self.chunk_at(self.spec_key(p2)) < ci + 1 implies exists|
                    k: int,
                |
                    0 <= k < out@.len() && (#[trigger] out@[k]).0 == p2 by {
                    if self.chunk_at(self.spec_key(p2)) == ci {
                        lemma_slot_in_range(*self, ci as int, p2);
                    }
                }
                assert forall|k: int| 0 <= k < out@.len() implies self.spec_contains(
                    #[trigger] out@[k].0,
                ) && out@[k].1 == self.spec_get(out@[k].0) && self.chunk_at(
                    self.spec_key(out@[k].0),
                ) < ci + 1 by {
                    if self.chunk_at(self.spec_key(out@[k].0)) == ci {
                        lemma_slot_in_range(*self, ci as int, out@[k].0);
                    }
                }
            }
            ci = ci + 1;
        }
        proof {
            assert forall|p: IVec| self.spec_contains(p) implies exists|k: int|
                0 <= k < out@.len() && (#[trigger] out@[k]).0 == p by {
                let j = self.chunk_at(self.spec_key(p));
            }
        }
        out
    }
}

/// A lattice position rebuilt from a chunk's key and in-chunk offsets is
/// covered by that chunk, with matching key, offset and flat slot.
proof fn lemma_position_of_offset<T: Copy>(
    st: ChunkStorage<T>,
    ci: int,
    p: IVec,
    ox: int,
    oy: int,
    oz: int,
)
    requires
        st.wf(),
        0 <= ci < st.metas.len(),
        0 <= ox < st.size(),
        0 <= oy < st.size(),
        0 <= oz < st.size(),
        p.x as int == (st.metas[ci].key.x as int) * st.size() + ox,
        p.y as int == (st.metas[ci].key.y as int) * st.size() + oy,
        p.z as int == (st.metas[ci].key.z as int) * st.size() + oz,
    ensures
        st.spec_contains(p),
        st.chunk_at(st.spec_key(p)) == ci,
        st.spec_offset(p) == (ox * st.size() + oy) * st.size() + oz,
        (p.x as int) % st.size() == ox,
        (p.y as int) % st.size() == oy,
        (p.z as int) % st.size() == oz,
{
    let s = st.size();
    assert((st.metas[ci].key.x as int) * s == s * (st.metas[ci].key.x as int))
        by (nonlinear_arith);
    assert((st.metas[ci].key.y as int) * s == s * (st.metas[ci].key.y as int))
        by (nonlinear_arith);
    assert((st.metas[ci].key.z as int) * s == s * (st.metas[ci].key.z as int))
        by (nonlinear_arith);
    vstd::arithmetic::div_mod::lemma_fundamental_div_mod_converse(
        p.x as int,
        s,
        st.metas[ci].key.x as int,
        ox,
    );
    vstd::arithmetic::div_mod::lemma_fundamental_div_mod_converse(
        p.y as int,
        s,
        st.metas[ci].key.y as int,
        oy,
    );
    vstd::arithmetic::div_mod::lemma_fundamental_div_mod_converse(
        p.z as int,
        s,
        st.metas[ci].key.z as int,
        oz,
    );
    st.lemma_chunk_at(ci);
}

/// Two positions of the same chunk and the same in-chunk offset are equal.
proof fn lemma_same_slot_same_position<T: Copy>(st: ChunkStorage<T>, ci: int, p: IVec, q: IVec)
    requires
        st.wf(),
        0 <= ci < st.metas.len(),
        st.spec_contains(p),
        st.spec_contains(q),
        st.chunk_at(st.spec_key(p)) == ci,
        st.chunk_at(st.spec_key(q)) == ci,
        st.spec_offset(p) == st.spec_offset(q),
    ensures
        p == q,
{
    let s = st.size();
    vstd::arithmetic::div_mod::lemma_fundamental_div_mod(p.x as int, s);
    vstd::arithmetic::div_mod::lemma_fundamental_div_mod(p.y as int, s);
    vstd::arithmetic::div_mod::lemma_fundamental_div_mod(p.z as int, s);
    vstd::arithmetic::div_mod::lemma_fundamental_div_mod(q.x as int, s);
    vstd::arithmetic::div_mod::lemma_fundamental_div_mod(q.y as int, s);
    vstd::arithmetic::div_mod::lemma_fundamental_div_mod(q.z as int, s);
    lemma_offset_decode(s, (p.x as int) % s, (p.y as int) % s, (p.z as int) % s);
    lemma_offset_decode(s, (q.x as int) % s, (q.y as int) % s, (q.z as int) % s);
    assert(ChunkStorage::<T>::key_matches(st.metas[ci], st.spec_key(p)));
    assert(ChunkStorage::<T>::key_matches(st.metas[ci], st.spec_key(q)));
    assert(p.x == q.x && p.y == q.y && p.z == q.z);
}

/// The in-chunk offset of any position lies within one chunk volume.
proof fn lemma_slot_in_range<T: Copy>(st: ChunkStorage<T>, ci: int, p: IVec)
    requires
        st.wf(),
        0 <= ci < st.metas.len(),
        st.spec_contains(p),
        st.chunk_at(st.spec_key(p)) == ci,
    ensures
        0 <= st.spec_offset(p) < st.vol(),
        p.x as int == (st.metas[ci].key.x as int) * st.size() + (p.x as int) % st.size(),
        p.y as int == (st.metas[ci].key.y as int) * st.size() + (p.y as int) % st.size(),
        p.z as int == (st.metas[ci].key.z as int) * st.size() + (p.z as int) % st.size(),
{
    let s = st.size();
    vstd::arithmetic::div_mod::lemma_fundamental_div_mod(p.x as int, s);
    vstd::arithmetic::div_mod::lemma_fundamental_div_mod(p.y as int, s);
    vstd::arithmetic::div_mod::lemma_fundamental_div_mod(p.z as int, s);
    assert(ChunkStorage::<T>::key_matches(st.metas[ci], st.spec_key(p)));
    lemma_chunk_arith(st.metas.len() as int, ci, s, (p.x as int) % s, (p.y as int) % s, (p.z
        as int) % s);
    assert((st.metas[ci].key.x as int) * s == s * ((p.x as int) / s)) by (nonlinear_arith)
        requires
            st.metas[ci].key.x as int == (p.x as int) / s,
    ;
    assert((st.metas[ci].key.y as int) * s == s * ((p.y as int) / s)) by (nonlinear_arith)
        requires
            st.metas[ci].key.y as int == (p.y as int) / s,
    ;
    assert((st.metas[ci].key.z as int) * s == s * ((p.z as int) / s)) by (nonlinear_arith)
        requires
            st.metas[ci].key.z as int == (p.z as int) / s,
    ;
}


} // verus!
