//! Resolution of record references into entity-level values: points,
//! directions, axis placements, placement chains, Cartesian transforms
//! and face boundary data.
//!
//! Records live in a map from identifier to raw record; resolution looks
//! references up, reads their argument text, and falls back to the
//! conventional defaults exactly where the record structure is absent or
//! malformed, never failing. A placement chain is returned root-first;
//! composing it into a matrix is floating-point work left to callers.

use vstd::prelude::*;
use std::collections::HashMap;
use crate::ifc_entities::{
    spec_dec_x, spec_dec_y, spec_dec_z, spec_dec_zero, spec_default_placement,
    spec_identity_transform, DecVec3, IfcAxis2Placement3D, IfcCartesianTransform, IfcFaceData,
};
use crate::ifc_reader::{
    extract_single_ref, parse_entity_refs, parse_real_list, spec_extract_single_ref,
    spec_parse_entity_refs, spec_parse_real_list, spec_split_ifc_args, split_ifc_args,
    IfcRawEntity,
};
use crate::text::{
    chars_of, parse_decimal_chars, spec_parse_decimal, str_eq, trim_chars, trim_spec, Decimal,
};

verus! {

broadcast use vstd::std_specs::hash::group_hash_axioms;

/// Looks a record up by identifier.
fn get_entity<'a>(entities: &'a HashMap<u64, IfcRawEntity>, id: u64) -> (r: Option<
    &'a IfcRawEntity,
>)
    ensures
        r matches Some(e) ==> entities@.contains_key(id) && *e == entities@[id],
        r is None ==> !entities@.contains_key(id),
{
    entities.get(&id)
}

/// What `parse_point` reads: the first three reals of a
/// `IFCCARTESIANPOINT` record.
pub open spec fn spec_parse_point(m: Map<u64, IfcRawEntity>, id: u64) -> Option<DecVec3> {
    if m.contains_key(id) && m[id].entity_type@ == "IFCCARTESIANPOINT"@ {
        let cs = spec_parse_real_list(m[id].raw_args@);
        if cs.len() >= 3 {
            Some(DecVec3 { x: cs[0], y: cs[1], z: cs[2] })
        } else {
            None
        }
    } else {
        None
    }
}

/// Reads a `IFCCARTESIANPOINT` record as a point, where the reference
/// resolves and at least three coordinates parse.
pub fn parse_point(point_id: u64, entities: &HashMap<u64, IfcRawEntity>) -> (r: Option<DecVec3>)
    ensures
        r == spec_parse_point(entities@, point_id),
{
    let entity = match get_entity(entities, point_id) {
        Some(e) => e,
        None => {
            return None;
        },
    };
    if !str_eq(entity.entity_type.as_str(), "IFCCARTESIANPOINT") {
        return None;
    }
    let coords = parse_real_list(entity.raw_args.as_str());
    if coords.len() >= 3 {
        Some(DecVec3 { x: coords[0], y: coords[1], z: coords[2] })
    } else {
        None
    }
}

/// What `parse_direction` reads: the reals of a `IFCDIRECTION` record,
/// a two-dimensional direction padded with a zero third component.
pub open spec fn spec_parse_direction(m: Map<u64, IfcRawEntity>, id: u64) -> Option<DecVec3> {
    if m.contains_key(id) && m[id].entity_type@ == "IFCDIRECTION"@ {
        let cs = spec_parse_real_list(m[id].raw_args@);
        if cs.len() >= 3 {
            Some(DecVec3 { x: cs[0], y: cs[1], z: cs[2] })
        } else if cs.len() == 2 {
            Some(DecVec3 { x: cs[0], y: cs[1], z: (Decimal { neg: false, mant: 0u64, exp: 0i64 }) })
        } else {
            None
        }
    } else {
        None
    }
}

/// Reads a `IFCDIRECTION` record as a vector; a planar direction gets a
/// zero third component.
pub fn parse_direction(dir_id: u64, entities: &HashMap<u64, IfcRawEntity>) -> (r: Option<DecVec3>)
    ensures
        r == spec_parse_direction(entities@, dir_id),
{
    let entity = match get_entity(entities, dir_id) {
        Some(e) => e,
        None => {
            return None;
        },
    };
    if !str_eq(entity.entity_type.as_str(), "IFCDIRECTION") {
        return None;
    }
    let coords = parse_real_list(entity.raw_args.as_str());
    if coords.len() >= 3 {
        Some(DecVec3 { x: coords[0], y: coords[1], z: coords[2] })
    } else if coords.len() == 2 {
        Some(DecVec3 { x: coords[0], y: coords[1], z: Decimal::zero() })
    } else {
        None
    }
}

/// A referenced point argument, or the zero vector.
pub open spec fn spec_point_arg(
    m: Map<u64, IfcRawEntity>,
    args: Seq<Seq<char>>,
    i: int,
) -> DecVec3 {
    if 0 <= i < args.len() {
        match spec_extract_single_ref(args[i]) {
            Some(pid) => match spec_parse_point(m, pid) {
                Some(p) => p,
                None => spec_dec_zero(),
            },
            None => spec_dec_zero(),
        }
    } else {
        spec_dec_zero()
    }
}

/// A referenced direction argument, or the given default.
pub open spec fn spec_dir_arg(
    m: Map<u64, IfcRawEntity>,
    args: Seq<Seq<char>>,
    i: int,
    dflt: DecVec3,
) -> DecVec3 {
    if 0 <= i < args.len() {
        match spec_extract_single_ref(args[i]) {
            Some(did) => match spec_parse_direction(m, did) {
                Some(d) => d,
                None => dflt,
            },
            None => dflt,
        }
    } else {
        dflt
    }
}

/// What `resolve_axis2placement3d` yields: for a `IFCAXIS2PLACEMENT3D`
/// record, its location (default origin), axis (default z) and
/// reference direction (default x); for anything else, the default
/// placement.
pub open spec fn spec_resolve_axis2placement3d(
    m: Map<u64, IfcRawEntity>,
    id: u64,
) -> IfcAxis2Placement3D {
    if m.contains_key(id) && m[id].entity_type@ == "IFCAXIS2PLACEMENT3D"@ {
        let args = spec_split_ifc_args(m[id].raw_args@);
        IfcAxis2Placement3D {
            location: spec_point_arg(m, args, 0),
            axis: spec_dir_arg(m, args, 1, spec_dec_z()),
            ref_direction: spec_dir_arg(m, args, 2, spec_dec_x()),
        }
    } else {
        spec_default_placement()
    }
}

/// Resolves a `IFCAXIS2PLACEMENT3D` record to its location, axis and
/// reference direction, defaulting each missing piece; an unresolved or
/// differently-typed record yields the default placement.
pub fn resolve_axis2placement3d(id: u64, entities: &HashMap<u64, IfcRawEntity>) -> (r:
    IfcAxis2Placement3D)
    ensures
        r == spec_resolve_axis2placement3d(entities@, id),
{
    let entity = match get_entity(entities, id) {
        Some(e) => e,
        None => {
            return IfcAxis2Placement3D::default();
        },
    };
    if !str_eq(entity.entity_type.as_str(), "IFCAXIS2PLACEMENT3D") {
        return IfcAxis2Placement3D::default();
    }
    let args = split_ifc_args(entity.raw_args.as_str());
    let location = point_arg(entities, &args, 0);
    let axis = dir_arg(entities, &args, 1, DecVec3::unit_z());
    let ref_direction = dir_arg(entities, &args, 2, DecVec3::unit_x());
    IfcAxis2Placement3D { location, axis, ref_direction }
}

/// Resolves a point-reference argument, or the zero vector.
fn point_arg(entities: &HashMap<u64, IfcRawEntity>, args: &Vec<String>, i: usize) -> (r: DecVec3)
    ensures
        r == spec_point_arg(
            entities@,
            Seq::new(args@.len(), |j: int| args@[j]@),
            i as int,
        ),
{
    if i < args.len() {
        match extract_single_ref(args[i].as_str()) {
            Some(pid) => match parse_point(pid, entities) {
                Some(p) => p,
                None => DecVec3::zero(),
            },
            None => DecVec3::zero(),
        }
    } else {
        DecVec3::zero()
    }
}

/// Resolves a direction-reference argument, or the given default.
fn dir_arg(
    entities: &HashMap<u64, IfcRawEntity>,
    args: &Vec<String>,
    i: usize,
    dflt: DecVec3,
) -> (r: DecVec3)
    ensures
        r == spec_dir_arg(
            entities@,
            Seq::new(args@.len(), |j: int| args@[j]@),
            i as int,
            dflt,
        ),
{
    if i < args.len() {
        match extract_single_ref(args[i].as_str()) {
            Some(did) => match parse_direction(did, entities) {
                Some(d) => d,
                None => dflt,
            },
            None => dflt,
        }
    } else {
        dflt
    }
}

/// What `resolve_placement_chain` yields, with a recursion allowance: a
/// `IFCLOCALPLACEMENT` record contributes its parent's chain followed by
/// its own relative placement; anything else contributes nothing. The
/// allowance bounds reference cycles, which the record graph of a
/// well-formed file does not have.
pub open spec fn spec_placement_chain(
    m: Map<u64, IfcRawEntity>,
    id: u64,
    fuel: nat,
) -> Seq<IfcAxis2Placement3D>
    decreases fuel,
{
    if fuel == 0 {
        Seq::empty()
    } else if m.contains_key(id) && m[id].entity_type@ == "IFCLOCALPLACEMENT"@ {
        let args = spec_split_ifc_args(m[id].raw_args@);
        let parent = if args.len() >= 1 {
            match spec_extract_single_ref(args[0]) {
                Some(pid) => spec_placement_chain(m, pid, (fuel - 1) as nat),
                None => Seq::<IfcAxis2Placement3D>::empty(),
            }
        } else {
            Seq::<IfcAxis2Placement3D>::empty()
        };
        let rel = if args.len() >= 2 {
            match spec_extract_single_ref(args[1]) {
                Some(aid) => spec_resolve_axis2placement3d(m, aid),
                None => spec_default_placement(),
            }
        } else {
            spec_default_placement()
        };
        parent + seq![rel]
    } else {
        Seq::empty()
    }
}

/// Resolves a `IFCLOCALPLACEMENT` chain to the placements from the root
/// of the chain down to the given record, in application order; an
/// unresolved or differently-typed record contributes nothing. A
/// reference cycle is cut after as many steps as there are records.
pub fn resolve_placement_chain(
    placement_id: u64,
    entities: &HashMap<u64, IfcRawEntity>,
) -> (r: Vec<IfcAxis2Placement3D>)
    ensures
        r@ == spec_placement_chain(entities@, placement_id, chain_fuel(entities@)),
{
    let n = entities.len();
    proof {
        vstd::std_specs::hash::axiom_spec_hash_map_len(entities);
    }
    let fuel = if n < usize::MAX {
        n + 1
    } else {
        usize::MAX
    };
    placement_chain_rec(placement_id, entities, fuel)
}

/// The recursion allowance for a chain walk: one more than the number
/// of records, capped at the machine word.
pub open spec fn chain_fuel(m: Map<u64, IfcRawEntity>) -> nat {
    if m.dom().len() < usize::MAX {
        (m.dom().len() + 1) as nat
    } else {
        usize::MAX as nat
    }
}

/// The recursive worker behind `resolve_placement_chain`.
fn placement_chain_rec(
    id: u64,
    entities: &HashMap<u64, IfcRawEntity>,
    fuel: usize,
) -> (r: Vec<IfcAxis2Placement3D>)
    ensures
        r@ == spec_placement_chain(entities@, id, fuel as nat),
    decreases fuel,
{
    if fuel == 0 {
        return Vec::new();
    }
    let entity = match get_entity(entities, id) {
        Some(e) => e,
        None => {
            return Vec::new();
        },
    };
    if !str_eq(entity.entity_type.as_str(), "IFCLOCALPLACEMENT") {
        return Vec::new();
    }
    let args = split_ifc_args(entity.raw_args.as_str());
    let mut chain: Vec<IfcAxis2Placement3D> = Vec::new();
    if args.len() >= 1 {
        if let Some(pid) = extract_single_ref(args[0].as_str()) {
            chain = placement_chain_rec(pid, entities, fuel - 1);
        }
    }
    let rel = if args.len() >= 2 {
        match extract_single_ref(args[1].as_str()) {
            Some(aid) => resolve_axis2placement3d(aid, entities),
            None => IfcAxis2Placement3D::default(),
        }
    } else {
        IfcAxis2Placement3D::default()
    };
    chain.push(rel);
    proof {
        assert(chain@ =~= spec_placement_chain(entities@, id, fuel as nat));
    }
    chain
}

/// A decimal scale argument: `$` or an unparsable piece means the unit
/// scale.
pub open spec fn spec_scale_arg(args: Seq<Seq<char>>, i: int) -> Decimal {
    if 0 <= i < args.len() {
        let t = trim_spec(args[i]);
        if t.len() == 1 && t[0] == '$' {
            Decimal { neg: false, mant: 1u64, exp: 0i64 }
        } else {
            match spec_parse_decimal(args[i]) {
                Some(d) => d,
                None => Decimal { neg: false, mant: 1u64, exp: 0i64 },
            }
        }
    } else {
        Decimal { neg: false, mant: 1u64, exp: 0i64 }
    }
}

/// What `resolve_cartesian_transform_operator` yields: for a
/// `IFCCARTESIANTRANSFORMATIONOPERATOR3D` record, its axes (defaults x,
/// y, z), origin (default zero) and scale (default one); for anything
/// else, the identity transform.
pub open spec fn spec_resolve_cartesian_transform(
    m: Map<u64, IfcRawEntity>,
    id: u64,
) -> IfcCartesianTransform {
    if m.contains_key(id) && m[id].entity_type@ == "IFCCARTESIANTRANSFORMATIONOPERATOR3D"@ {
        let args = spec_split_ifc_args(m[id].raw_args@);
        IfcCartesianTransform {
            axis1: spec_dir_arg(m, args, 0, spec_dec_x()),
            axis2: spec_dir_arg(m, args, 1, spec_dec_y()),
            axis3: spec_dir_arg(m, args, 4, spec_dec_z()),
            origin: spec_point_arg(m, args, 2),
            scale: spec_scale_arg(args, 3),
        }
    } else {
        spec_identity_transform()
    }
}

/// Resolves a `IFCCARTESIANTRANSFORMATIONOPERATOR3D` record to its
/// axes, origin and scale, defaulting each missing piece; an unresolved
/// or differently-typed record yields the identity transform.
pub fn resolve_cartesian_transform_operator(
    id: u64,
    entities: &HashMap<u64, IfcRawEntity>,
) -> (r: IfcCartesianTransform)
    ensures
        r == spec_resolve_cartesian_transform(entities@, id),
{
    let entity = match get_entity(entities, id) {
        Some(e) => e,
        None => {
            return identity_transform();
        },
    };
    if !str_eq(entity.entity_type.as_str(), "IFCCARTESIANTRANSFORMATIONOPERATOR3D") {
        return identity_transform();
    }
    let args = split_ifc_args(entity.raw_args.as_str());
    let axis1 = dir_arg(entities, &args, 0, DecVec3::unit_x());
    let axis2 = dir_arg(entities, &args, 1, DecVec3::unit_y());
    let origin = point_arg(entities, &args, 2);
    let scale = if 3 < args.len() {
        let cs = chars_of(args[3].as_str());
        let t = trim_chars(&cs);
        if t.len() == 1 && t[0] == '$' {
            Decimal::one()
        } else {
            match parse_decimal_chars(&cs) {
                Some(d) => d,
                None => Decimal::one(),
            }
        }
    } else {
        Decimal::one()
    };
    let axis3 = dir_arg(entities, &args, 4, DecVec3::unit_z());
    IfcCartesianTransform { axis1, axis2, axis3, origin, scale }
}

/// The identity transform, computed.
fn identity_transform() -> (r: IfcCartesianTransform)
    ensures
        r == spec_identity_transform(),
{
    IfcCartesianTransform {
        axis1: DecVec3::unit_x(),
        axis2: DecVec3::unit_y(),
        axis3: DecVec3::unit_z(),
        origin: DecVec3::zero(),
        scale: Decimal::one(),
    }
}


/// The points collected from point references, in order, references
/// that resolve to no point dropped.
pub open spec fn spec_collect_points(m: Map<u64, IfcRawEntity>, refs: Seq<u64>, i: int) -> Seq<
    DecVec3,
>
    decreases i,
{
    if i <= 0 {
        Seq::empty()
    } else {
        let prev = spec_collect_points(m, refs, i - 1);
        match spec_parse_point(m, refs[i - 1]) {
            Some(p) => prev.push(p),
            None => prev,
        }
    }
}

/// One face bound folded into the `(outer, holes)` state: the bound's
/// loop record is read into a point list (reversed when the orientation
/// flag is `.F.`); an outer bound demotes a previously held outer list
/// to a hole; a malformed bound changes nothing.
pub open spec fn spec_process_bound(
    m: Map<u64, IfcRawEntity>,
    st: (Option<Seq<DecVec3>>, Seq<Seq<DecVec3>>),
    bid: u64,
) -> (Option<Seq<DecVec3>>, Seq<Seq<DecVec3>>) {
    if !m.contains_key(bid) {
        st
    } else {
        let is_outer = m[bid].entity_type@ == "IFCFACEOUTERBOUND"@;
        let bargs = spec_split_ifc_args(m[bid].raw_args@);
        if bargs.len() == 0 {
            st
        } else {
            match spec_extract_single_ref(bargs[0]) {
                None => st,
                Some(lid) => if !m.contains_key(lid) {
                    st
                } else {
                    let prefs = spec_parse_entity_refs(m[lid].raw_args@);
                    let pts0 = spec_collect_points(m, prefs, prefs.len() as int);
                    if pts0.len() == 0 {
                        st
                    } else {
                        let pts = if bargs.len() >= 2 && trim_spec(bargs[1]) == ".F."@ {
                            pts0.reverse()
                        } else {
                            pts0
                        };
                        if st.0 is Some && is_outer {
                            (Some(pts), st.1.push(st.0->0))
                        } else if st.0 is None {
                            (Some(pts), st.1)
                        } else {
                            (st.0, st.1.push(pts))
                        }
                    }
                },
            }
        }
    }
}

/// The bound scan folded over the first `i` bound references.
pub open spec fn spec_face_fold(m: Map<u64, IfcRawEntity>, refs: Seq<u64>, i: int) -> (
    Option<Seq<DecVec3>>,
    Seq<Seq<DecVec3>>,
)
    decreases i,
{
    if i <= 0 {
        (None, Seq::empty())
    } else {
        spec_process_bound(m, spec_face_fold(m, refs, i - 1), refs[i - 1])
    }
}

/// What `resolve_face` yields: the outer boundary and holes folded from
/// the record's bound references, or nothing without any bound or any
/// outer boundary.
pub open spec fn spec_resolve_face(m: Map<u64, IfcRawEntity>, id: u64) -> Option<
    (Seq<DecVec3>, Seq<Seq<DecVec3>>),
> {
    if !m.contains_key(id) {
        None
    } else {
        let brefs = spec_parse_entity_refs(m[id].raw_args@);
        if brefs.len() == 0 {
            None
        } else {
            let st = spec_face_fold(m, brefs, brefs.len() as int);
            match st.0 {
                Some(o) => Some((o, st.1)),
                None => None,
            }
        }
    }
}

/// Whether resolved face data carries exactly the given boundaries.
pub open spec fn face_data_matches(fd: IfcFaceData, sp: (Seq<DecVec3>, Seq<Seq<DecVec3>>)) -> bool {
    &&& fd.outer@ == sp.0
    &&& fd.holes@.len() == sp.1.len()
    &&& forall|j: int| 0 <= j < sp.1.len() ==> (#[trigger] fd.holes@[j])@ == sp.1[j]
}

/// Whether the walker's `(outer, holes)` state carries exactly the
/// boundaries of the bound scan folded over the first `i` references.
pub open spec fn face_state_ok(
    m: Map<u64, IfcRawEntity>,
    refs: Seq<u64>,
    i: int,
    outer: Option<Vec<DecVec3>>,
    holes: Seq<Vec<DecVec3>>,
) -> bool {
    let st = spec_face_fold(m, refs, i);
    &&& (outer is Some <==> st.0 is Some)
    &&& (outer matches Some(o) ==> st.0 matches Some(so) && o@ == so)
    &&& holes.len() == st.1.len()
    &&& forall|j: int| 0 <= j < st.1.len() ==> (#[trigger] holes[j])@ == st.1[j]
}

/// Reverses a point list.
#[verifier::loop_isolation(false)]
fn reverse_points(v: &Vec<DecVec3>) -> (r: Vec<DecVec3>)
    ensures
        r@ == v@.reverse(),
{
    let n = v.len();
    let mut out: Vec<DecVec3> = Vec::new();
    let mut i: usize = 0;
    while i < n
        invariant
            0 <= i <= n,
            out@.len() == i,
            forall|j: int| 0 <= j < i ==> out@[j] == v@[n - 1 - j],
        decreases n - i,
    {
        out.push(v[n - 1 - i]);
        i += 1;
    }
    proof {
        assert(out@ =~= v@.reverse());
    }
    out
}

/// Collects the points of the given references, dropping unresolved
/// ones.
#[verifier::loop_isolation(false)]
fn collect_points(entities: &HashMap<u64, IfcRawEntity>, refs: &Vec<u64>) -> (r: Vec<DecVec3>)
    ensures
        r@ == spec_collect_points(entities@, refs@, refs@.len() as int),
{
    let mut pts: Vec<DecVec3> = Vec::new();
    let mut i: usize = 0;
    while i < refs.len()
        invariant
            0 <= i <= refs@.len(),
            pts@ == spec_collect_points(entities@, refs@, i as int),
        decreases refs@.len() - i,
    {
        match parse_point(refs[i], entities) {
            Some(p) => {
                pts.push(p);
            },
            None => {},
        }
        i += 1;
    }
    pts
}

/// Resolves a face record to its outer boundary and hole boundaries:
/// each bound reference contributes its loop's points (reversed under a
/// `.F.` orientation flag); a bound marked `IFCFACEOUTERBOUND`, or the
/// first usable bound, becomes the outer boundary, the rest become
/// holes. Nothing is yielded without a usable boundary.
#[verifier::loop_isolation(false)]
#[verifier::rlimit(60)]
pub fn resolve_face(face_id: u64, entities: &HashMap<u64, IfcRawEntity>) -> (r: Option<
    IfcFaceData,
>)
    ensures
        match r {
            Some(fd) => spec_resolve_face(entities@, face_id) matches Some(sp)
                && face_data_matches(fd, sp),
            None => spec_resolve_face(entities@, face_id) is None,
        },
{
    let face = match get_entity(entities, face_id) {
        Some(e) => e,
        None => {
            return None;
        },
    };
    let bound_refs = parse_entity_refs(face.raw_args.as_str());
    if bound_refs.len() == 0 {
        return None;
    }

    let mut outer: Option<Vec<DecVec3>> = None;
    let mut holes: Vec<Vec<DecVec3>> = Vec::new();
    let mut i: usize = 0;
    while i < bound_refs.len()
        invariant
            0 <= i <= bound_refs@.len(),
            face_state_ok(entities@, bound_refs@, i as int, outer, holes@),
        decreases bound_refs@.len() - i,
    {
        let ghost st0 = spec_face_fold(entities@, bound_refs@, i as int);
        let bid = bound_refs[i];
        match get_entity(entities, bid) {
            None => {},
            Some(bound) => {
                let is_outer = str_eq(bound.entity_type.as_str(), "IFCFACEOUTERBOUND");
                let bargs = split_ifc_args(bound.raw_args.as_str());
                if bargs.len() > 0 {
                    match extract_single_ref(bargs[0].as_str()) {
                        None => {},
                        Some(lid) => {
                            match get_entity(entities, lid) {
                                None => {},
                                Some(poly) => {
                                    let prefs = parse_entity_refs(poly.raw_args.as_str());
                                    let pts0 = collect_points(entities, &prefs);
                                    if pts0.len() > 0 {
                                        let reverse_it = if bargs.len() >= 2 {
                                            let cs = chars_of(bargs[1].as_str());
                                            let t = trim_chars(&cs);
                                            let flag = string_of_flag(&t);
                                            flag
                                        } else {
                                            false
                                        };
                                        let pts = if reverse_it {
                                            reverse_points(&pts0)
                                        } else {
                                            pts0
                                        };
                                        if is_outer || outer.is_none() {
                                            match outer {
                                                Some(prev) => {
                                                    holes.push(prev);
                                                },
                                                None => {},
                                            }
                                            outer = Some(pts);
                                        } else {
                                            holes.push(pts);
                                        }
                                    }
                                },
                            }
                        },
                    }
                }
            },
        }
        proof {
            let st1 = spec_face_fold(entities@, bound_refs@, i + 1);
            assert(st1 == spec_process_bound(entities@, st0, bound_refs@[i as int]));
        }
        i += 1;
    }

    match outer {
        Some(o) => Some(IfcFaceData { outer: o, holes }),
        None => None,
    }
}

/// Whether the trimmed orientation flag is `.F.`.
fn string_of_flag(t: &Vec<char>) -> (r: bool)
    ensures
        r == (t@ == ".F."@),
{
    proof {
        reveal_strlit(".F.");
    }
    if t.len() == 3 && t[0] == '.' && t[1] == 'F' && t[2] == '.' {
        proof {
            assert(t@ =~= ".F."@);
        }
        true
    } else {
        proof {
            assert(t@ != ".F."@);
        }
        false
    }
}

/// The faces collected from face references, unresolved ones dropped.
pub open spec fn spec_collect_faces(m: Map<u64, IfcRawEntity>, refs: Seq<u64>, i: int) -> Seq<
    (Seq<DecVec3>, Seq<Seq<DecVec3>>),
>
    decreases i,
{
    if i <= 0 {
        Seq::empty()
    } else {
        let prev = spec_collect_faces(m, refs, i - 1);
        match spec_resolve_face(m, refs[i - 1]) {
            Some(fd) => prev.push(fd),
            None => prev,
        }
    }
}

/// What `resolve_faceted_brep` yields: the faces of the brep's first
/// shell, or nothing when the chain does not resolve or no face does.
pub open spec fn spec_resolve_faceted_brep(m: Map<u64, IfcRawEntity>, id: u64) -> Option<
    Seq<(Seq<DecVec3>, Seq<Seq<DecVec3>>)>,
> {
    if !m.contains_key(id) {
        None
    } else {
        let srefs = spec_parse_entity_refs(m[id].raw_args@);
        if srefs.len() == 0 {
            None
        } else {
            if !m.contains_key(srefs[0]) {
                None
            } else {
                let frefs = spec_parse_entity_refs(m[srefs[0]].raw_args@);
                let faces = spec_collect_faces(m, frefs, frefs.len() as int);
                if faces.len() == 0 {
                    None
                } else {
                    Some(faces)
                }
            }
        }
    }
}

/// Resolves a faceted-brep record: its first shell reference is
/// followed and each of the shell's face records is resolved; nothing
/// is yielded when the chain does not resolve or no face is usable.
#[verifier::loop_isolation(false)]
pub fn resolve_faceted_brep(brep_id: u64, entities: &HashMap<u64, IfcRawEntity>) -> (r: Option<
    Vec<IfcFaceData>,
>)
    ensures
        match r {
            Some(v) => spec_resolve_faceted_brep(entities@, brep_id) matches Some(fs)
                && v@.len() == fs.len() && (forall|j: int|
                0 <= j < fs.len() ==> face_data_matches(#[trigger] v@[j], fs[j])),
            None => spec_resolve_faceted_brep(entities@, brep_id) is None,
        },
{
    let brep = match get_entity(entities, brep_id) {
        Some(e) => e,
        None => {
            return None;
        },
    };
    let shell_refs = parse_entity_refs(brep.raw_args.as_str());
    if shell_refs.len() == 0 {
        return None;
    }
    let shell = match get_entity(entities, shell_refs[0]) {
        Some(e) => e,
        None => {
            return None;
        },
    };
    let face_refs = parse_entity_refs(shell.raw_args.as_str());
    let mut faces: Vec<IfcFaceData> = Vec::new();
    let mut i: usize = 0;
    while i < face_refs.len()
        invariant
            0 <= i <= face_refs@.len(),
            faces@.len() == spec_collect_faces(entities@, face_refs@, i as int).len(),
            forall|j: int|
                0 <= j < faces@.len() ==> face_data_matches(
                    #[trigger] faces@[j],
                    spec_collect_faces(entities@, face_refs@, i as int)[j],
                ),
        decreases face_refs@.len() - i,
    {
        match resolve_face(face_refs[i], entities) {
            Some(fd) => {
                faces.push(fd);
            },
            None => {},
        }
        i += 1;
    }
    if faces.len() == 0 {
        return None;
    }
    Some(faces)
}

} // verus!
