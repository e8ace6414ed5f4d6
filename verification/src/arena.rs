//! Trusted boundary around the slot-table crate that stores the mesh's
//! entities.
//!
//! The mesh keeps each entity kind in a `slotmap::SlotMap`, a
//! generation-checked arena. Verus cannot take `SlotMap`'s generic
//! declaration (its key bound is a trait of the outside crate), so each
//! entity kind gets an opaque wrapper struct holding its table, and
//! verified code reaches the table only through the operations below,
//! whose contracts are stated over the table's abstract contents.
//!
//! The contents of a table are named by an uninterpreted map from the
//! 64-bit key encoding (`slotmap::KeyData::as_ffi`: generation in the high
//! half, slot index in the low half) to the stored record. A live key's
//! generation is always odd, so its encoding has bit 32 set; decoding
//! (`from_ffi`) forces that bit on, which `key_norm` mirrors: two
//! encodings address the same slot exactly when they agree after
//! `key_norm`.

use vstd::prelude::*;
use slotmap::SlotMap;
use slotmap::DefaultKey;
use slotmap::Key;
use slotmap::KeyData;
use crate::types::{Vertex, HalfEdge, Edge, Loop, Face};

verus! {

/// The canonical form of a 64-bit key encoding: the low generation bit
/// (bit 32) is forced on, as `slotmap::KeyData::from_ffi` does.
pub open spec fn key_norm(k: u64) -> u64 {
    k | 0x1_0000_0000u64
}

/// Canonicalising is idempotent.
pub proof fn lemma_key_norm_idem(k: u64)
    ensures
        key_norm(key_norm(k)) == key_norm(k),
{
    assert((k | 0x1_0000_0000u64) | 0x1_0000_0000u64 == k | 0x1_0000_0000u64) by (bit_vector);
}

/// The canonical form of a key encoding, computed.
pub fn canonical_key(k: u64) -> (r: u64)
    ensures
        r == key_norm(k),
{
    k | 0x1_0000_0000u64
}

/// The slot table holding the mesh's vertices.
#[verifier::external_body]
pub struct VertexMap(pub SlotMap<DefaultKey, Vertex>);

/// The slot table holding the mesh's half-edges.
#[verifier::external_body]
pub struct HalfEdgeMap(pub SlotMap<DefaultKey, HalfEdge>);

/// The slot table holding the mesh's edges.
#[verifier::external_body]
pub struct EdgeMap(pub SlotMap<DefaultKey, Edge>);

/// The slot table holding the mesh's loops.
#[verifier::external_body]
pub struct LoopMap(pub SlotMap<DefaultKey, Loop>);

/// The slot table holding the mesh's faces.
#[verifier::external_body]
pub struct FaceMap(pub SlotMap<DefaultKey, Face>);

/// The live contents of a vertex table, keyed by canonical key encoding.
pub uninterp spec fn vertex_entries(m: VertexMap) -> Map<u64, Vertex>;

/// The live contents of a half-edge table, keyed by canonical key encoding.
pub uninterp spec fn halfedge_entries(m: HalfEdgeMap) -> Map<u64, HalfEdge>;

/// The live contents of an edge table, keyed by canonical key encoding.
pub uninterp spec fn edge_entries(m: EdgeMap) -> Map<u64, Edge>;

/// The live contents of a loop table, keyed by canonical key encoding.
pub uninterp spec fn loop_entries(m: LoopMap) -> Map<u64, Loop>;

/// The live contents of a face table, keyed by canonical key encoding.
pub uninterp spec fn face_entries(m: FaceMap) -> Map<u64, Face>;

impl VertexMap {
    /// Relies on slotmap::SlotMap::with_key: a fresh table is empty.
    #[verifier::external_body]
    pub(crate) fn new() -> (r: VertexMap)
        ensures
            vertex_entries(r).dom() == Set::<u64>::empty(),
    {
        VertexMap(SlotMap::with_key())
    }

    /// Relies on slotmap::SlotMap::insert: stores the value in a vacant
    /// slot and returns its key, which was not live before; the table is
    /// otherwise unchanged. `insert` panics only on a full table, kept out
    /// by the bound on the length.
    #[verifier::external_body]
    pub(crate) fn insert(&mut self, v: Vertex) -> (r: u64)
        requires
            vertex_entries(*old(self)).dom().finite(),
            vertex_entries(*old(self)).dom().len() < 0xFFFF_FFFEusize,
        ensures
            r == key_norm(r),
            !vertex_entries(*old(self)).dom().contains(r),
            vertex_entries(*final(self)) == vertex_entries(*old(self)).insert(r, v),
    {
        self.0.insert(v).data().as_ffi()
    }

    /// Relies on slotmap::SlotMap::get: the value at the addressed slot if
    /// its generation matches, else nothing.
    #[verifier::external_body]
    pub(crate) fn get(&self, k: u64) -> (r: Option<Vertex>)
        ensures
            r == if vertex_entries(*self).dom().contains(key_norm(k)) {
                Some(vertex_entries(*self)[key_norm(k)])
            } else {
                None::<Vertex>
            },
    {
        self.0.get(DefaultKey::from(KeyData::from_ffi(k))).copied()
    }

    /// Relies on slotmap::SlotMap::get_mut: replaces the value of a live
    /// key, leaving every other slot as it was.
    #[verifier::external_body]
    pub(crate) fn set(&mut self, k: u64, v: Vertex)
        requires
            vertex_entries(*old(self)).dom().contains(key_norm(k)),
        ensures
            vertex_entries(*final(self)) == vertex_entries(*old(self)).insert(key_norm(k), v),
    {
        if let Some(slot) = self.0.get_mut(DefaultKey::from(KeyData::from_ffi(k))) {
            *slot = v;
        }
    }

    /// Relies on slotmap::SlotMap::len: the number of live slots.
    #[verifier::external_body]
    pub(crate) fn len(&self) -> (r: usize)
        ensures
            r == vertex_entries(*self).dom().len(),
            r < 0xFFFF_FFFFusize,
    {
        self.0.len()
    }

    /// Relies on slotmap::SlotMap::iter: yields every live entry exactly
    /// once, in unspecified order, as key encoding and record.
    #[verifier::external_body]
    pub(crate) fn entries(&self) -> (r: Vec<(u64, Vertex)>)
        ensures
            r@.len() == vertex_entries(*self).dom().len(),
            forall|i: int|
                0 <= i < r@.len() ==> #[trigger] r@[i].0 == key_norm(r@[i].0)
                    && vertex_entries(*self).dom().contains(r@[i].0)
                    && vertex_entries(*self)[r@[i].0] == r@[i].1,
            forall|k: u64| #[trigger]
                vertex_entries(*self).dom().contains(k) ==> exists|i: int|
                    0 <= i < r@.len() && r@[i].0 == k,
            forall|i: int, j: int|
                #![trigger r@[i].0, r@[j].0]
                0 <= i < r@.len() && 0 <= j < r@.len() && i != j ==> r@[i].0 != r@[j].0,
    {
        self.0.iter().map(|(k, v)| (k.data().as_ffi(), *v)).collect()
    }
}

impl HalfEdgeMap {
    /// Relies on slotmap::SlotMap::with_key: a fresh table is empty.
    #[verifier::external_body]
    pub(crate) fn new() -> (r: HalfEdgeMap)
        ensures
            halfedge_entries(r).dom() == Set::<u64>::empty(),
    {
        HalfEdgeMap(SlotMap::with_key())
    }

    /// Relies on slotmap::SlotMap::insert: stores the value in a vacant
    /// slot and returns its key, which was not live before; the table is
    /// otherwise unchanged. `insert` panics only on a full table, kept out
    /// by the bound on the length.
    #[verifier::external_body]
    pub(crate) fn insert(&mut self, v: HalfEdge) -> (r: u64)
        requires
            halfedge_entries(*old(self)).dom().finite(),
            halfedge_entries(*old(self)).dom().len() < 0xFFFF_FFFEusize,
        ensures
            r == key_norm(r),
            !halfedge_entries(*old(self)).dom().contains(r),
            halfedge_entries(*final(self)) == halfedge_entries(*old(self)).insert(r, v),
    {
        self.0.insert(v).data().as_ffi()
    }

    /// Relies on slotmap::SlotMap::get: the value at the addressed slot if
    /// its generation matches, else nothing.
    #[verifier::external_body]
    pub(crate) fn get(&self, k: u64) -> (r: Option<HalfEdge>)
        ensures
            r == if halfedge_entries(*self).dom().contains(key_norm(k)) {
                Some(halfedge_entries(*self)[key_norm(k)])
            } else {
                None::<HalfEdge>
            },
    {
        self.0.get(DefaultKey::from(KeyData::from_ffi(k))).copied()
    }

    /// Relies on slotmap::SlotMap::get_mut: replaces the value of a live
    /// key, leaving every other slot as it was.
    #[verifier::external_body]
    pub(crate) fn set(&mut self, k: u64, v: HalfEdge)
        requires
            halfedge_entries(*old(self)).dom().contains(key_norm(k)),
        ensures
            halfedge_entries(*final(self)) == halfedge_entries(*old(self)).insert(key_norm(k), v),
    {
        if let Some(slot) = self.0.get_mut(DefaultKey::from(KeyData::from_ffi(k))) {
            *slot = v;
        }
    }

    /// Relies on slotmap::SlotMap::len: the number of live slots.
    #[verifier::external_body]
    pub(crate) fn len(&self) -> (r: usize)
        ensures
            r == halfedge_entries(*self).dom().len(),
            r < 0xFFFF_FFFFusize,
    {
        self.0.len()
    }

    /// Relies on slotmap::SlotMap::iter: yields every live entry exactly
    /// once, in unspecified order, as key encoding and record.
    #[verifier::external_body]
    pub(crate) fn entries(&self) -> (r: Vec<(u64, HalfEdge)>)
        ensures
            r@.len() == halfedge_entries(*self).dom().len(),
            forall|i: int|
                0 <= i < r@.len() ==> #[trigger] r@[i].0 == key_norm(r@[i].0)
                    && halfedge_entries(*self).dom().contains(r@[i].0)
                    && halfedge_entries(*self)[r@[i].0] == r@[i].1,
            forall|k: u64| #[trigger]
                halfedge_entries(*self).dom().contains(k) ==> exists|i: int|
                    0 <= i < r@.len() && r@[i].0 == k,
            forall|i: int, j: int|
                #![trigger r@[i].0, r@[j].0]
                0 <= i < r@.len() && 0 <= j < r@.len() && i != j ==> r@[i].0 != r@[j].0,
    {
        self.0.iter().map(|(k, v)| (k.data().as_ffi(), *v)).collect()
    }
}

impl EdgeMap {
    /// Relies on slotmap::SlotMap::with_key: a fresh table is empty.
    #[verifier::external_body]
    pub(crate) fn new() -> (r: EdgeMap)
        ensures
            edge_entries(r).dom() == Set::<u64>::empty(),
    {
        EdgeMap(SlotMap::with_key())
    }

    /// Relies on slotmap::SlotMap::insert: stores the value in a vacant
    /// slot and returns its key, which was not live before; the table is
    /// otherwise unchanged. `insert` panics only on a full table, kept out
    /// by the bound on the length.
    #[verifier::external_body]
    pub(crate) fn insert(&mut self, v: Edge) -> (r: u64)
        requires
            edge_entries(*old(self)).dom().finite(),
            edge_entries(*old(self)).dom().len() < 0xFFFF_FFFEusize,
        ensures
            r == key_norm(r),
            !edge_entries(*old(self)).dom().contains(r),
            edge_entries(*final(self)) == edge_entries(*old(self)).insert(r, v),
    {
        self.0.insert(v).data().as_ffi()
    }

    /// Relies on slotmap::SlotMap::get: the value at the addressed slot if
    /// its generation matches, else nothing.
    #[verifier::external_body]
    pub(crate) fn get(&self, k: u64) -> (r: Option<Edge>)
        ensures
            r == if edge_entries(*self).dom().contains(key_norm(k)) {
                Some(edge_entries(*self)[key_norm(k)])
            } else {
                None::<Edge>
            },
    {
        self.0.get(DefaultKey::from(KeyData::from_ffi(k))).copied()
    }

    /// Relies on slotmap::SlotMap::len: the number of live slots.
    #[verifier::external_body]
    pub(crate) fn len(&self) -> (r: usize)
        ensures
            r == edge_entries(*self).dom().len(),
            r < 0xFFFF_FFFFusize,
    {
        self.0.len()
    }

    /// Relies on slotmap::SlotMap::iter: yields every live entry exactly
    /// once, in unspecified order, as key encoding and record.
    #[verifier::external_body]
    pub(crate) fn entries(&self) -> (r: Vec<(u64, Edge)>)
        ensures
            r@.len() == edge_entries(*self).dom().len(),
            forall|i: int|
                0 <= i < r@.len() ==> #[trigger] r@[i].0 == key_norm(r@[i].0)
                    && edge_entries(*self).dom().contains(r@[i].0)
                    && edge_entries(*self)[r@[i].0] == r@[i].1,
            forall|k: u64| #[trigger]
                edge_entries(*self).dom().contains(k) ==> exists|i: int|
                    0 <= i < r@.len() && r@[i].0 == k,
            forall|i: int, j: int|
                #![trigger r@[i].0, r@[j].0]
                0 <= i < r@.len() && 0 <= j < r@.len() && i != j ==> r@[i].0 != r@[j].0,
    {
        self.0.iter().map(|(k, v)| (k.data().as_ffi(), *v)).collect()
    }
}

impl LoopMap {
    /// Relies on slotmap::SlotMap::with_key: a fresh table is empty.
    #[verifier::external_body]
    pub(crate) fn new() -> (r: LoopMap)
        ensures
            loop_entries(r).dom() == Set::<u64>::empty(),
    {
        LoopMap(SlotMap::with_key())
    }

    /// Relies on slotmap::SlotMap::insert: stores the value in a vacant
    /// slot and returns its key, which was not live before; the table is
    /// otherwise unchanged. `insert` panics only on a full table, kept out
    /// by the bound on the length.
    #[verifier::external_body]
    pub(crate) fn insert(&mut self, v: Loop) -> (r: u64)
        requires
            loop_entries(*old(self)).dom().finite(),
            loop_entries(*old(self)).dom().len() < 0xFFFF_FFFEusize,
        ensures
            r == key_norm(r),
            !loop_entries(*old(self)).dom().contains(r),
            loop_entries(*final(self)) == loop_entries(*old(self)).insert(r, v),
    {
        self.0.insert(v).data().as_ffi()
    }

    /// Relies on slotmap::SlotMap::get: the value at the addressed slot if
    /// its generation matches, else nothing.
    #[verifier::external_body]
    pub(crate) fn get(&self, k: u64) -> (r: Option<Loop>)
        ensures
            r == if loop_entries(*self).dom().contains(key_norm(k)) {
                Some(loop_entries(*self)[key_norm(k)])
            } else {
                None::<Loop>
            },
    {
        self.0.get(DefaultKey::from(KeyData::from_ffi(k))).copied()
    }

    /// Relies on slotmap::SlotMap::get_mut: replaces the value of a live
    /// key, leaving every other slot as it was.
    #[verifier::external_body]
    pub(crate) fn set(&mut self, k: u64, v: Loop)
        requires
            loop_entries(*old(self)).dom().contains(key_norm(k)),
        ensures
            loop_entries(*final(self)) == loop_entries(*old(self)).insert(key_norm(k), v),
    {
        if let Some(slot) = self.0.get_mut(DefaultKey::from(KeyData::from_ffi(k))) {
            *slot = v;
        }
    }

    /// Relies on slotmap::SlotMap::len: the number of live slots.
    #[verifier::external_body]
    pub(crate) fn len(&self) -> (r: usize)
        ensures
            r == loop_entries(*self).dom().len(),
            r < 0xFFFF_FFFFusize,
    {
        self.0.len()
    }
}

impl FaceMap {
    /// Relies on slotmap::SlotMap::with_key: a fresh table is empty.
    #[verifier::external_body]
    pub(crate) fn new() -> (r: FaceMap)
        ensures
            face_entries(r).dom() == Set::<u64>::empty(),
    {
        FaceMap(SlotMap::with_key())
    }

    /// Relies on slotmap::SlotMap::insert: stores the value in a vacant
    /// slot and returns its key, which was not live before; the table is
    /// otherwise unchanged. `insert` panics only on a full table, kept out
    /// by the bound on the length.
    #[verifier::external_body]
    pub(crate) fn insert(&mut self, v: Face) -> (r: u64)
        requires
            face_entries(*old(self)).dom().finite(),
            face_entries(*old(self)).dom().len() < 0xFFFF_FFFEusize,
        ensures
            r == key_norm(r),
            !face_entries(*old(self)).dom().contains(r),
            face_entries(*final(self)) == face_entries(*old(self)).insert(r, v),
    {
        self.0.insert(v).data().as_ffi()
    }

    /// Relies on slotmap::SlotMap::get: the value at the addressed slot if
    /// its generation matches, else nothing.
    #[verifier::external_body]
    pub(crate) fn get(&self, k: u64) -> (r: Option<Face>)
        ensures
            r == if face_entries(*self).dom().contains(key_norm(k)) {
                Some(face_entries(*self)[key_norm(k)])
            } else {
                None::<Face>
            },
    {
        self.0.get(DefaultKey::from(KeyData::from_ffi(k))).cloned()
    }

    /// Relies on slotmap::SlotMap::len: the number of live slots.
    #[verifier::external_body]
    pub(crate) fn len(&self) -> (r: usize)
        ensures
            r == face_entries(*self).dom().len(),
            r < 0xFFFF_FFFFusize,
    {
        self.0.len()
    }

    /// Relies on slotmap::SlotMap::iter: yields every live entry exactly
    /// once, in unspecified order, as key encoding and record.
    #[verifier::external_body]
    pub(crate) fn entries(&self) -> (r: Vec<(u64, Face)>)
        ensures
            r@.len() == face_entries(*self).dom().len(),
            forall|i: int|
                0 <= i < r@.len() ==> #[trigger] r@[i].0 == key_norm(r@[i].0)
                    && face_entries(*self).dom().contains(r@[i].0)
                    && face_entries(*self)[r@[i].0] == r@[i].1,
            forall|k: u64| #[trigger]
                face_entries(*self).dom().contains(k) ==> exists|i: int|
                    0 <= i < r@.len() && r@[i].0 == k,
            forall|i: int, j: int|
                #![trigger r@[i].0, r@[j].0]
                0 <= i < r@.len() && 0 <= j < r@.len() && i != j ==> r@[i].0 != r@[j].0,
    {
        self.0.iter().map(|(k, v)| (k.data().as_ffi(), v.clone())).collect()
    }
}

} // verus!
