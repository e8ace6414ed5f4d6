//! The spatial hierarchy read from an interchange model: a tree of
//! project, site, building, storey and space nodes.

use vstd::prelude::*;

verus! {

/// The kind of a spatial element.
#[derive(Debug, Clone, Copy, PartialEq, Eq, Structural)]
pub enum SpatialKind {
    Project,
    Site,
    Building,
    BuildingStorey,
    Space,
}

/// A node of the spatial hierarchy.
#[derive(Debug)]
pub struct SpatialNode {
    pub entity_id: u64,
    pub kind: SpatialKind,
    pub name: String,
    pub description: Option<String>,
    pub children: Vec<SpatialNode>,
}

/// The number of nodes of the subtree rooted at `n`, itself included.
pub open spec fn spec_count(n: SpatialNode) -> nat
    decreases n,
{
    1 + spec_count_seq(n.children@)
}

/// The number of nodes of a forest.
pub open spec fn spec_count_seq(cs: Seq<SpatialNode>) -> nat
    decreases cs,
{
    if cs.len() == 0 {
        0
    } else {
        spec_count(cs[0]) + spec_count_seq(cs.drop_first())
    }
}

/// The first node with the given identifier, depth-first.
pub open spec fn spec_find_by_id(n: SpatialNode, id: u64) -> Option<SpatialNode>
    decreases n,
{
    if n.entity_id == id {
        Some(n)
    } else {
        spec_find_by_id_seq(n.children@, id)
    }
}

/// The first node with the given identifier in a forest, depth-first.
pub open spec fn spec_find_by_id_seq(cs: Seq<SpatialNode>, id: u64) -> Option<SpatialNode>
    decreases cs,
{
    if cs.len() == 0 {
        None
    } else {
        match spec_find_by_id(cs[0], id) {
            Some(f) => Some(f),
            None => spec_find_by_id_seq(cs.drop_first(), id),
        }
    }
}

/// The nodes of the given kind, in depth-first order.
pub open spec fn spec_find_by_kind(n: SpatialNode, kind: SpatialKind) -> Seq<SpatialNode>
    decreases n,
{
    (if n.kind == kind {
        seq![n]
    } else {
        Seq::<SpatialNode>::empty()
    }) + spec_find_by_kind_seq(n.children@, kind)
}

/// The nodes of the given kind in a forest, in depth-first order.
pub open spec fn spec_find_by_kind_seq(cs: Seq<SpatialNode>, kind: SpatialKind) -> Seq<
    SpatialNode,
>
    decreases cs,
{
    if cs.len() == 0 {
        Seq::empty()
    } else {
        spec_find_by_kind(cs[0], kind) + spec_find_by_kind_seq(cs.drop_first(), kind)
    }
}

impl SpatialNode {
    /// A leaf node with the given identifier, kind and name.
    pub fn new(entity_id: u64, kind: SpatialKind, name: &str) -> (r: SpatialNode)
        ensures
            r.entity_id == entity_id,
            r.kind == kind,
            r.name@ == name@,
            r.description is None,
            r.children@ =~= Seq::<SpatialNode>::empty(),
    {
        SpatialNode {
            entity_id,
            kind,
            name: name.to_owned(),
            description: None,
            children: Vec::new(),
        }
    }

    /// Appends a child node.
    pub fn add_child(&mut self, child: SpatialNode)
        ensures
            final(self).entity_id == old(self).entity_id,
            final(self).kind == old(self).kind,
            final(self).name == old(self).name,
            final(self).description == old(self).description,
            final(self).children@ == old(self).children@.push(child),
    {
        self.children.push(child);
    }

    /// The first node with the given identifier, depth-first, this node
    /// included.
    pub fn find_by_id(&self, id: u64) -> (r: Option<&SpatialNode>)
        ensures
            match r {
                Some(f) => spec_find_by_id(*self, id) == Some(*f),
                None => spec_find_by_id(*self, id) is None,
            },
        decreases *self,
    {
        if self.entity_id == id {
            return Some(self);
        }
        let mut i: usize = 0;
        while i < self.children.len()
            invariant
                0 <= i <= self.children@.len(),
                self.entity_id != id,
                spec_find_by_id_seq(self.children@.subrange(0, i as int), id) is None,
            decreases self.children@.len() - i,
        {
            match self.children[i].find_by_id(id) {
                Some(f) => {
                    proof {
                        lemma_find_by_id_seq_split(self.children@, id, i as int);
                        lemma_find_by_id_seq_extend(self.children@, id, i + 1);
                    }
                    return Some(f);
                },
                None => {},
            }
            proof {
                lemma_find_by_id_seq_split(self.children@, id, i as int);
                assert(spec_find_by_id_seq(self.children@.subrange(0, i + 1), id) is None);
            }
            i += 1;
        }
        proof {
            assert(self.children@.subrange(0, self.children@.len() as int) =~= self.children@);
        }
        None
    }

    /// The nodes of the given kind in this subtree, depth-first.
    pub fn find_by_kind(&self, kind: &SpatialKind) -> (r: Vec<&SpatialNode>)
        ensures
            r@.len() == spec_find_by_kind(*self, *kind).len(),
            forall|j: int|
                0 <= j < r@.len() ==> *(#[trigger] r@[j]) == spec_find_by_kind(*self, *kind)[j],
        decreases *self,
    {
        let mut result: Vec<&SpatialNode> = Vec::new();
        if self.kind == *kind {
            result.push(self);
        }
        let ghost own: Seq<SpatialNode> = if self.kind == *kind {
            seq![*self]
        } else {
            Seq::empty()
        };
        let mut i: usize = 0;
        while i < self.children.len()
            invariant
                0 <= i <= self.children@.len(),
                result@.len() == (own + spec_find_by_kind_seq(
                    self.children@.subrange(0, i as int),
                    *kind,
                )).len(),
                forall|j: int|
                    0 <= j < result@.len() ==> *(#[trigger] result@[j]) == (own
                        + spec_find_by_kind_seq(self.children@.subrange(0, i as int), *kind))[j],
            decreases self.children@.len() - i,
        {
            let sub = self.children[i].find_by_kind(kind);
            let ghost before = result@;
            let mut k: usize = 0;
            while k < sub.len()
                invariant
                    0 <= k <= sub@.len(),
                    result@ == before + sub@.subrange(0, k as int),
                decreases sub@.len() - k,
            {
                result.push(sub[k]);
                proof {
                    assert(before + sub@.subrange(0, k as int).push(sub@[k as int]) =~= before
                        + sub@.subrange(0, k + 1));
                    assert(sub@.subrange(0, k as int).push(sub@[k as int]) =~= sub@.subrange(
                        0,
                        k + 1,
                    ));
                }
                k += 1;
            }
            proof {
                assert(sub@.subrange(0, sub@.len() as int) =~= sub@);
                lemma_find_by_kind_seq_split(self.children@, *kind, i as int);
            }
            i += 1;
        }
        proof {
            assert(self.children@.subrange(0, self.children@.len() as int) =~= self.children@);
        }
        result
    }

    /// The number of nodes of this subtree, itself included; saturates
    /// at the machine word.
    pub fn count(&self) -> (r: usize)
        ensures
            spec_count(*self) <= usize::MAX ==> r == spec_count(*self),
            spec_count(*self) > usize::MAX ==> r == usize::MAX,
        decreases *self,
    {
        let mut total: usize = 1;
        let mut i: usize = 0;
        while i < self.children.len()
            invariant
                0 <= i <= self.children@.len(),
                1 + spec_count_seq(self.children@.subrange(0, i as int)) <= usize::MAX ==> total
                    == 1 + spec_count_seq(self.children@.subrange(0, i as int)),
                1 + spec_count_seq(self.children@.subrange(0, i as int)) > usize::MAX ==> total
                    == usize::MAX,
            decreases self.children@.len() - i,
        {
            let c = self.children[i].count();
            proof {
                lemma_count_seq_split(self.children@, i as int);
            }
            if total > usize::MAX - c {
                total = usize::MAX;
            } else {
                total = total + c;
            }
            i += 1;
        }
        proof {
            assert(self.children@.subrange(0, self.children@.len() as int) =~= self.children@);
        }
        total
    }
}

/// Splits a forest count at position `i`.
proof fn lemma_count_seq_split(cs: Seq<SpatialNode>, i: int)
    requires
        0 <= i < cs.len(),
    ensures
        spec_count_seq(cs.subrange(0, i + 1)) == spec_count_seq(cs.subrange(0, i)) + spec_count(
            cs[i],
        ),
    decreases i,
{
    if i == 0 {
        assert(cs.subrange(0, 1)[0] == cs[0]);
        assert(cs.subrange(0, 1).drop_first() =~= Seq::<SpatialNode>::empty());
        assert(cs.subrange(0, 0) =~= Seq::<SpatialNode>::empty());
    } else {
        let c1 = cs.drop_first();
        lemma_count_seq_split(c1, i - 1);
        assert(c1.subrange(0, i) =~= cs.subrange(0, i + 1).drop_first());
        assert(c1.subrange(0, i - 1) =~= cs.subrange(0, i).drop_first());
        assert(cs.subrange(0, i + 1)[0] == cs[0]);
        assert(cs.subrange(0, i)[0] == cs[0]);
        assert(c1[i - 1] == cs[i]);
    }
}

/// A search that succeeds on a prefix succeeds identically on the
/// whole forest.
proof fn lemma_find_by_id_seq_extend(cs: Seq<SpatialNode>, id: u64, i: int)
    requires
        0 <= i <= cs.len(),
        spec_find_by_id_seq(cs.subrange(0, i), id) is Some,
    ensures
        spec_find_by_id_seq(cs, id) == spec_find_by_id_seq(cs.subrange(0, i), id),
    decreases cs.len(),
{
    let p = cs.subrange(0, i);
    assert(p.len() > 0);
    assert(p[0] == cs[0]);
    if spec_find_by_id(cs[0], id) is Some {
    } else {
        let c1 = cs.drop_first();
        assert(p.drop_first() =~= c1.subrange(0, i - 1));
        lemma_find_by_id_seq_extend(c1, id, i - 1);
    }
}

/// Splits a depth-first search at position `i`: searching the first
/// `i + 1` children finds what the first `i` found, or else what child
/// `i` holds.
proof fn lemma_find_by_id_seq_split(cs: Seq<SpatialNode>, id: u64, i: int)
    requires
        0 <= i < cs.len(),
    ensures
        spec_find_by_id_seq(cs.subrange(0, i + 1), id) == (match spec_find_by_id_seq(
            cs.subrange(0, i),
            id,
        ) {
            Some(f) => Some(f),
            None => spec_find_by_id(cs[i], id),
        }),
    decreases i,
{
    if i == 0 {
        assert(cs.subrange(0, 1)[0] == cs[0]);
        assert(cs.subrange(0, 1).drop_first() =~= Seq::<SpatialNode>::empty());
        assert(cs.subrange(0, 0) =~= Seq::<SpatialNode>::empty());
    } else {
        let c1 = cs.drop_first();
        lemma_find_by_id_seq_split(c1, id, i - 1);
        assert(c1.subrange(0, i) =~= cs.subrange(0, i + 1).drop_first());
        assert(c1.subrange(0, i - 1) =~= cs.subrange(0, i).drop_first());
        assert(cs.subrange(0, i + 1)[0] == cs[0]);
        assert(cs.subrange(0, i)[0] == cs[0]);
        assert(c1[i - 1] == cs[i]);
    }
}

/// Splits a depth-first collection at position `i`.
proof fn lemma_find_by_kind_seq_split(cs: Seq<SpatialNode>, kind: SpatialKind, i: int)
    requires
        0 <= i < cs.len(),
    ensures
        spec_find_by_kind_seq(cs.subrange(0, i + 1), kind) == spec_find_by_kind_seq(
            cs.subrange(0, i),
            kind,
        ) + spec_find_by_kind(cs[i], kind),
    decreases i,
{
    if i == 0 {
        assert(cs.subrange(0, 1)[0] == cs[0]);
        assert(cs.subrange(0, 1).drop_first() =~= Seq::<SpatialNode>::empty());
        assert(cs.subrange(0, 0) =~= Seq::<SpatialNode>::empty());
        assert(spec_find_by_kind_seq(cs.subrange(0, 0), kind)
            + spec_find_by_kind(cs[0], kind) =~= spec_find_by_kind(cs[0], kind)
            + Seq::<SpatialNode>::empty());
        assert(spec_find_by_kind(cs[0], kind) + Seq::<SpatialNode>::empty() =~= spec_find_by_kind(
            cs[0],
            kind,
        ));
    } else {
        let c1 = cs.drop_first();
        lemma_find_by_kind_seq_split(c1, kind, i - 1);
        assert(c1.subrange(0, i) =~= cs.subrange(0, i + 1).drop_first());
        assert(c1.subrange(0, i - 1) =~= cs.subrange(0, i).drop_first());
        assert(cs.subrange(0, i + 1)[0] == cs[0]);
        assert(cs.subrange(0, i)[0] == cs[0]);
        assert(c1[i - 1] == cs[i]);
        assert(spec_find_by_kind_seq(cs.subrange(0, i + 1), kind) =~= spec_find_by_kind_seq(
            cs.subrange(0, i),
            kind,
        ) + spec_find_by_kind(cs[i], kind));
    }
}

} // verus!
