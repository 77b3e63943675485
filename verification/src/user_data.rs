//! User data attached to a world and to its bodies, shapes and joints.
//!
//! Each attachment is an entry shared with the native object's user-data pointer. A version
//! stamps every value a user installs, and the store's revision changes with every mutation, so
//! that a snapshot restore can reattach exactly the values that were current when the snapshot
//! was taken and refuse a restore prepared against a store that has changed since.
//!
//! The entries themselves are type-erased cells owned by the caller; this module sees them only
//! through shared handles and asks the caller for the one fact the restore needs of a cell: the
//! native pointer of its value if that value carries a given version.

use std::collections::HashMap;
use std::rc::Rc;

use vstd::prelude::*;
use vstd::std_specs::hash::spec_hash_map_iter;
use vstd::std_specs::iter::IteratorSpec;

use crate::error::{Error, Result};
use crate::identity::{IdentityManifest, PreparedIdentityRestore};
use crate::ids::{BodyId, JointId, ShapeId};
use crate::reserve::{try_reserve_exact_vec, try_reserve_map};
use crate::tables::{iter_keys, lemma_iter_keys};

verus! {

broadcast use vstd::std_specs::hash::group_hash_axioms;

/// The version stamped on one installed user value.
#[derive(Clone, Copy, Debug, PartialEq, Eq, Structural)]
pub struct UserDataVersion(pub u64);

/// Makes another handle to the same entry.
#[verifier::external_body]
fn share_entry<T>(entry: &Rc<T>) -> (shared: Rc<T>)
    ensures
        shared == *entry,
{
    Rc::clone(entry)
}

/// Calls [`Rc::ptr_eq`]: handles to one allocation hold the same entry.
#[verifier::external_body]
fn same_entry<T>(a: &Rc<T>, b: &Rc<T>) -> (same: bool)
    ensures
        same ==> *a == *b,
{
    Rc::ptr_eq(a, b)
}

/// A native user-data pointer to install after a restore.
pub enum UserDataAttachment<P> {
    World(P),
    Body(BodyId, P),
    Shape(ShapeId, P),
    Joint(JointId, P),
}

/// The versions of the user values present when a snapshot was taken.
pub struct UserDataManifest {
    pub world: Option<UserDataVersion>,
    pub bodies: Vec<(BodyId, UserDataVersion)>,
    pub shapes: Vec<(ShapeId, UserDataVersion)>,
    pub joints: Vec<(JointId, UserDataVersion)>,
}

/// The key code under which a body's entry is stored.
pub open spec fn body_code(id: BodyId) -> u64 {
    id.raw_spec().key_spec().code_spec()
}

/// Whether the identity restore brings a snapshot body id back.
pub open spec fn body_restorable(prepared: PreparedIdentityRestore, ids: IdentityManifest, sid: BodyId) -> bool {
    &&& sid.brand_spec() == prepared.brand_spec()
    &&& ids.brand_spec() == prepared.brand_spec()
    &&& ids.bodies().contains_key(body_code(sid))
    &&& ids.bodies()[body_code(sid)].nonce == sid.nonce_spec()
    &&& prepared.bodies().contains_key(body_code(sid))
}

/// The id that a restorable snapshot body id takes after the restore.
pub open spec fn body_restores_as(
    prepared: PreparedIdentityRestore,
    ids: IdentityManifest,
    sid: BodyId,
    rid: BodyId,
) -> bool {
    &&& body_restorable(prepared, ids, sid)
    &&& rid.raw_spec() == sid.raw_spec()
    &&& rid.brand_spec() == prepared.brand_spec()
    &&& rid.nonce_spec() == prepared.bodies()[body_code(sid)].nonce
}

/// Whether a store holds an entry for exactly this body id.
pub open spec fn holds_body<E>(source: Map<u64, (BodyId, Rc<E>)>, id: BodyId) -> bool {
    source.contains_key(body_code(id)) && source[body_code(id)].0 == id
}

/// Entry `j` of the manifest list justifies the restored entry stored under `k`.
pub open spec fn body_entry_justified<E, P, F: Fn(&E, UserDataVersion) -> Result<Option<P>>>(
    source: Map<u64, (BodyId, Rc<E>)>,
    list: Seq<(BodyId, UserDataVersion)>,
    ids: IdentityManifest,
    prepared: PreparedIdentityRestore,
    probe: F,
    j: int,
    restored: (BodyId, Rc<E>),
    p: P,
) -> bool {
    &&& 0 <= j < list.len()
    &&& holds_body(source, list[j].0)
    &&& restored.1 == source[body_code(list[j].0)].1
    &&& body_restores_as(prepared, ids, list[j].0, restored.0)
    &&& probe.ensures((&*restored.1, list[j].1), Ok(Some(p)))
}

/// The restored body entries and their attachments are exactly justified by the manifest list:
/// every restored entry and every new attachment comes from a list entry whose id is restored,
/// whose exact entry is present and whose value still carries the listed version; every list
/// entry meeting the first two conditions was either restored or its value no longer carries
/// the listed version.
pub open spec fn bodies_reattached<E, P, F: Fn(&E, UserDataVersion) -> Result<Option<P>>>(
    source: Map<u64, (BodyId, Rc<E>)>,
    list: Seq<(BodyId, UserDataVersion)>,
    ids: IdentityManifest,
    prepared: PreparedIdentityRestore,
    probe: F,
    target: Map<u64, (BodyId, Rc<E>)>,
    added: Seq<UserDataAttachment<P>>,
) -> bool {
    &&& forall|k: u64| #[trigger] target.contains_key(k) ==> exists|j: int, p: P|
        #![trigger list[j], probe.ensures((&*target[k].1, list[j].1), Ok(Some(p)))]
        body_entry_justified(source, list, ids, prepared, probe, j, target[k], p) && body_code(list[j].0) == k
    &&& forall|j: int| 0 <= j < list.len() && body_restorable(prepared, ids, #[trigger] list[j].0)
        && holds_body(source, list[j].0) ==> target.contains_key(body_code(list[j].0))
        || probe.ensures((&*source[body_code(list[j].0)].1, list[j].1), Ok(None))
    &&& forall|m: int| 0 <= m < added.len() ==> (#[trigger] added[m] matches UserDataAttachment::Body(rid, p)
        && exists|j: int| #![trigger list[j]] body_entry_justified(
        source,
        list,
        ids,
        prepared,
        probe,
        j,
        (rid, source[body_code(list[j].0)].1),
        p,
    ) && target.contains_key(body_code(list[j].0)))
}

/// The body an attachment names, if it is a body attachment.
pub open spec fn body_attachment_id<P>(a: UserDataAttachment<P>) -> Option<BodyId> {
    match a {
        UserDataAttachment::Body(id, _) => Some(id),
        _ => None,
    }
}

/// No two entries of a manifest body list share a slot.
pub open spec fn body_codes_distinct(list: Seq<(BodyId, UserDataVersion)>) -> bool {
    forall|a: int, b: int| 0 <= a < b < list.len() ==> body_code(#[trigger] list[a].0) != body_code(#[trigger] list[b].0)
}

/// Each restored body entry has exactly one attachment, naming its restored id, and there are no
/// other attachments.
pub open spec fn bodies_attached_once<E, P>(target: Map<u64, (BodyId, Rc<E>)>, added: Seq<UserDataAttachment<P>>) -> bool {
    &&& forall|k: u64| #[trigger] target.contains_key(k) ==> exists|m: int| 0 <= m < added.len()
        && #[trigger] body_attachment_id(added[m]) == Some(target[k].0)
    &&& forall|m: int| 0 <= m < added.len() ==> (#[trigger] body_attachment_id(added[m]) matches Some(rid)
        && target.contains_key(body_code(rid)) && target[body_code(rid)].0 == rid)
    &&& forall|m1: int, m2: int| 0 <= m1 < m2 < added.len() ==> body_code(#[trigger] body_attachment_id(added[m1])->0)
        != body_code(#[trigger] body_attachment_id(added[m2])->0)
}

/// Reattaches the body entries of a manifest list.
fn reattach_bodies<E, P, F: Fn(&E, UserDataVersion) -> Result<Option<P>>>(
    source: &HashMap<u64, (BodyId, Rc<E>)>,
    list: &Vec<(BodyId, UserDataVersion)>,
    ids: &IdentityManifest,
    prepared: &PreparedIdentityRestore,
    probe: &F,
    target: &mut HashMap<u64, (BodyId, Rc<E>)>,
    attachments: &mut Vec<UserDataAttachment<P>>,
) -> (r: Result<()>)
    requires
        forall|e: &E, v: UserDataVersion| #[trigger] probe.requires((e, v)),
        old(target)@ == Map::<u64, (BodyId, Rc<E>)>::empty(),
    ensures
        r is Ok ==> {
            &&& final(attachments)@.len() >= old(attachments)@.len()
            &&& final(attachments)@.subrange(0, old(attachments)@.len() as int) == old(attachments)@
            &&& bodies_reattached(
                source@,
                list@,
                *ids,
                *prepared,
                *probe,
                final(target)@,
                final(attachments)@.subrange(old(attachments)@.len() as int, final(attachments)@.len() as int),
            )
        },
        forall|k: u64| #[trigger] final(target)@.contains_key(k) ==> body_code(final(target)@[k].0) == k,
        r is Ok && body_codes_distinct(list@) ==> bodies_attached_once(
            final(target)@,
            final(attachments)@.subrange(old(attachments)@.len() as int, final(attachments)@.len() as int),
        ),
        r matches Err(e) ==> exists|j: int| 0 <= j < list@.len() && holds_body(source@, #[trigger] list@[j].0)
            && probe.ensures((&*source@[body_code(list@[j].0)].1, list@[j].1), Err(e)),
{
    let ghost base = attachments@;
    let ghost distinct = body_codes_distinct(list@);
    let ghost mut src: Map<u64, int> = Map::empty();
    let ghost mut got: Map<u64, P> = Map::empty();
    let mut i: usize = 0;
    while i < list.len()
        invariant
            i <= list@.len(),
            forall|e: &E, v: UserDataVersion| #[trigger] probe.requires((e, v)),
            attachments@.len() >= base.len(),
            attachments@.subrange(0, base.len() as int) == base,
            forall|k: u64| #[trigger] target@.contains_key(k) ==> src.contains_key(k) && got.contains_key(k)
                && 0 <= src[k] < i && body_code(list@[src[k]].0) == k
                && body_entry_justified(source@, list@, *ids, *prepared, *probe, src[k], target@[k], got[k]),
            forall|j: int| 0 <= j < i && body_restorable(*prepared, *ids, #[trigger] list@[j].0)
                && holds_body(source@, list@[j].0) ==> target@.contains_key(body_code(list@[j].0))
                || probe.ensures((&*source@[body_code(list@[j].0)].1, list@[j].1), Ok(None)),
            forall|m: int| base.len() <= m < attachments@.len() ==> (#[trigger] attachments@[m] matches UserDataAttachment::Body(rid, p)
                && exists|j: int| #![trigger list@[j]] 0 <= j < i && body_entry_justified(
                source@,
                list@,
                *ids,
                *prepared,
                *probe,
                j,
                (rid, source@[body_code(list@[j].0)].1),
                p,
            ) && target@.contains_key(body_code(list@[j].0))),
            distinct == body_codes_distinct(list@),
            forall|k: u64| #[trigger] target@.contains_key(k) ==> body_code(target@[k].0) == k,
            forall|k: u64| #[trigger] target@.contains_key(k) ==> exists|m: int| base.len() <= m < attachments@.len()
                && #[trigger] body_attachment_id(attachments@[m]) == Some(target@[k].0),
            distinct ==> forall|m: int| base.len() <= m < attachments@.len() ==> (#[trigger] body_attachment_id(attachments@[m]) matches Some(rid)
                && target@.contains_key(body_code(rid)) && target@[body_code(rid)].0 == rid),
            distinct ==> forall|m1: int, m2: int| base.len() <= m1 < m2 < attachments@.len()
                ==> body_code(#[trigger] body_attachment_id(attachments@[m1])->0) != body_code(#[trigger] body_attachment_id(attachments@[m2])->0),
        decreases list@.len() - i,
    {
        let (snapshot_id, version) = list[i];
        let restored = prepared.body_after_restore(ids, snapshot_id);
        if let Some(restored_id) = restored {
            let code = snapshot_id.into_raw().key().code();
            if let Some(entry) = source.get(&code) {
                if entry.0 == snapshot_id {
                    let pointer = match probe(&*entry.1, version) {
                        Ok(pointer) => pointer,
                        Err(error) => return Err(error),
                    };
                    if let Some(pointer) = pointer {
                        let ghost p = pointer;
                        let handle = share_entry(&entry.1);
                        let ghost before_target = target@;
                        let ghost before_att = attachments@;
                        proof {
                            if distinct && before_target.contains_key(code) {
                                assert(body_code(list@[src[code]].0) == body_code(list@[i as int].0));
                            }
                        }
                        target.insert(code, (restored_id, handle));
                        proof {
                            src = src.insert(code, i as int);
                            got = got.insert(code, p);
                            assert(body_entry_justified(source@, list@, *ids, *prepared, *probe, i as int, target@[code], p));
                        }
                        attachments.push(UserDataAttachment::Body(restored_id, pointer));
                        proof {
                            let m = (attachments@.len() - 1) as int;
                            assert(attachments@[m] == UserDataAttachment::Body(restored_id, p));
                            assert(body_code(restored_id) == code);
                            assert forall|q: int| base.len() <= q < m implies #[trigger] attachments@[q] == before_att[q] by {}
                            assert forall|k: u64| #[trigger] target@.contains_key(k) implies exists|q: int| base.len() <= q < attachments@.len()
                                && #[trigger] body_attachment_id(attachments@[q]) == Some(target@[k].0) by {
                                if k == code {
                                    assert(body_attachment_id(attachments@[m]) == Some(target@[k].0));
                                } else {
                                    let q = choose|q: int| base.len() <= q < before_att.len()
                                        && #[trigger] body_attachment_id(before_att[q]) == Some(before_target[k].0);
                                    assert(attachments@[q] == before_att[q]);
                                }
                            }
                            if distinct {
                                assert forall|q: int| base.len() <= q < attachments@.len() implies (#[trigger] body_attachment_id(attachments@[q]) matches Some(rid)
                                    && target@.contains_key(body_code(rid)) && target@[body_code(rid)].0 == rid) by {
                                    if q < m {
                                        assert(attachments@[q] == before_att[q]);
                                    }
                                }
                                assert forall|m1: int, m2: int| base.len() <= m1 < m2 < attachments@.len() implies body_code(
                                    #[trigger] body_attachment_id(attachments@[m1])->0) != body_code(#[trigger] body_attachment_id(attachments@[m2])->0) by {
                                    assert(attachments@[m1] == before_att[m1]);
                                    if m2 < m {
                                        assert(attachments@[m2] == before_att[m2]);
                                    }
                                }
                            }
                            assert(body_entry_justified(
                                source@,
                                list@,
                                *ids,
                                *prepared,
                                *probe,
                                i as int,
                                (restored_id, source@[body_code(list@[i as int].0)].1),
                                p,
                            ));
                            assert(attachments@.subrange(0, base.len() as int) =~= base);
                        }
                    }
                }
            }
        }
        i = i + 1;
    }
    proof {
        let added = attachments@.subrange(base.len() as int, attachments@.len() as int);
        assert forall|k: u64| #[trigger] target@.contains_key(k) implies exists|j: int, p: P|
            #![trigger list@[j], probe.ensures((&*target@[k].1, list@[j].1), Ok(Some(p)))]
            body_entry_justified(source@, list@, *ids, *prepared, *probe, j, target@[k], p) && body_code(list@[j].0) == k by {
            let j = src[k];
            let p = got[k];
            assert(body_entry_justified(source@, list@, *ids, *prepared, *probe, j, target@[k], p));
            assert(probe.ensures((&*target@[k].1, list@[j].1), Ok(Some(p))));
        }
        assert forall|m: int| 0 <= m < added.len() implies (#[trigger] added[m] matches UserDataAttachment::Body(rid, p)
            && exists|j: int| #![trigger list@[j]] body_entry_justified(
            source@,
            list@,
            *ids,
            *prepared,
            *probe,
            j,
            (rid, source@[body_code(list@[j].0)].1),
            p,
        ) && target@.contains_key(body_code(list@[j].0))) by {
            assert(added[m] == attachments@[base.len() + m]);
        }
        assert forall|k: u64| #[trigger] target@.contains_key(k) implies exists|m: int| 0 <= m < added.len()
            && #[trigger] body_attachment_id(added[m]) == Some(target@[k].0) by {
            let q = choose|q: int| base.len() <= q < attachments@.len() && #[trigger] body_attachment_id(attachments@[q]) == Some(target@[k].0);
            assert(added[q - base.len()] == attachments@[q]);
        }
        if distinct {
            assert forall|m: int| 0 <= m < added.len() implies (#[trigger] body_attachment_id(added[m]) matches Some(rid)
                && target@.contains_key(body_code(rid)) && target@[body_code(rid)].0 == rid) by {
                assert(added[m] == attachments@[base.len() + m]);
            }
            assert forall|m1: int, m2: int| 0 <= m1 < m2 < added.len() implies body_code(#[trigger] body_attachment_id(added[m1])->0)
                != body_code(#[trigger] body_attachment_id(added[m2])->0) by {
                assert(added[m1] == attachments@[base.len() + m1]);
                assert(added[m2] == attachments@[base.len() + m2]);
            }
        }
    }
    Ok(())
}

/// The key code under which a shape's entry is stored.
pub open spec fn shape_code(id: ShapeId) -> u64 {
    id.raw_spec().key_spec().code_spec()
}

/// Whether the identity restore brings a snapshot shape id back.
pub open spec fn shape_restorable(prepared: PreparedIdentityRestore, ids: IdentityManifest, sid: ShapeId) -> bool {
    &&& sid.brand_spec() == prepared.brand_spec()
    &&& ids.brand_spec() == prepared.brand_spec()
    &&& ids.shapes().contains_key(shape_code(sid))
    &&& ids.shapes()[shape_code(sid)].nonce == sid.nonce_spec()
    &&& prepared.shapes().contains_key(shape_code(sid))
}

/// The id that a restorable snapshot shape id takes after the restore.
pub open spec fn shape_restores_as(
    prepared: PreparedIdentityRestore,
    ids: IdentityManifest,
    sid: ShapeId,
    rid: ShapeId,
) -> bool {
    &&& shape_restorable(prepared, ids, sid)
    &&& rid.raw_spec() == sid.raw_spec()
    &&& rid.brand_spec() == prepared.brand_spec()
    &&& rid.nonce_spec() == prepared.shapes()[shape_code(sid)].nonce
}

/// Whether a store holds an entry for exactly this shape id.
pub open spec fn holds_shape<E>(source: Map<u64, (ShapeId, Rc<E>)>, id: ShapeId) -> bool {
    source.contains_key(shape_code(id)) && source[shape_code(id)].0 == id
}

/// Entry `j` of the manifest list justifies the restored entry stored under `k`.
pub open spec fn shape_entry_justified<E, P, F: Fn(&E, UserDataVersion) -> Result<Option<P>>>(
    source: Map<u64, (ShapeId, Rc<E>)>,
    list: Seq<(ShapeId, UserDataVersion)>,
    ids: IdentityManifest,
    prepared: PreparedIdentityRestore,
    probe: F,
    j: int,
    restored: (ShapeId, Rc<E>),
    p: P,
) -> bool {
    &&& 0 <= j < list.len()
    &&& holds_shape(source, list[j].0)
    &&& restored.1 == source[shape_code(list[j].0)].1
    &&& shape_restores_as(prepared, ids, list[j].0, restored.0)
    &&& probe.ensures((&*restored.1, list[j].1), Ok(Some(p)))
}

/// The restored shape entries and their attachments are exactly justified by the manifest list:
/// every restored entry and every new attachment comes from a list entry whose id is restored,
/// whose exact entry is present and whose value still carries the listed version; every list
/// entry meeting the first two conditions was either restored or its value no longer carries
/// the listed version.
pub open spec fn shapes_reattached<E, P, F: Fn(&E, UserDataVersion) -> Result<Option<P>>>(
    source: Map<u64, (ShapeId, Rc<E>)>,
    list: Seq<(ShapeId, UserDataVersion)>,
    ids: IdentityManifest,
    prepared: PreparedIdentityRestore,
    probe: F,
    target: Map<u64, (ShapeId, Rc<E>)>,
    added: Seq<UserDataAttachment<P>>,
) -> bool {
    &&& forall|k: u64| #[trigger] target.contains_key(k) ==> exists|j: int, p: P|
        #![trigger list[j], probe.ensures((&*target[k].1, list[j].1), Ok(Some(p)))]
        shape_entry_justified(source, list, ids, prepared, probe, j, target[k], p) && shape_code(list[j].0) == k
    &&& forall|j: int| 0 <= j < list.len() && shape_restorable(prepared, ids, #[trigger] list[j].0)
        && holds_shape(source, list[j].0) ==> target.contains_key(shape_code(list[j].0))
        || probe.ensures((&*source[shape_code(list[j].0)].1, list[j].1), Ok(None))
    &&& forall|m: int| 0 <= m < added.len() ==> (#[trigger] added[m] matches UserDataAttachment::Shape(rid, p)
        && exists|j: int| #![trigger list[j]] shape_entry_justified(
        source,
        list,
        ids,
        prepared,
        probe,
        j,
        (rid, source[shape_code(list[j].0)].1),
        p,
    ) && target.contains_key(shape_code(list[j].0)))
}

/// The shape an attachment names, if it is a shape attachment.
pub open spec fn shape_attachment_id<P>(a: UserDataAttachment<P>) -> Option<ShapeId> {
    match a {
        UserDataAttachment::Shape(id, _) => Some(id),
        _ => None,
    }
}

/// No two entries of a manifest shape list share a slot.
pub open spec fn shape_codes_distinct(list: Seq<(ShapeId, UserDataVersion)>) -> bool {
    forall|a: int, b: int| 0 <= a < b < list.len() ==> shape_code(#[trigger] list[a].0) != shape_code(#[trigger] list[b].0)
}

/// Each restored shape entry has exactly one attachment, naming its restored id, and there are no
/// other attachments.
pub open spec fn shapes_attached_once<E, P>(target: Map<u64, (ShapeId, Rc<E>)>, added: Seq<UserDataAttachment<P>>) -> bool {
    &&& forall|k: u64| #[trigger] target.contains_key(k) ==> exists|m: int| 0 <= m < added.len()
        && #[trigger] shape_attachment_id(added[m]) == Some(target[k].0)
    &&& forall|m: int| 0 <= m < added.len() ==> (#[trigger] shape_attachment_id(added[m]) matches Some(rid)
        && target.contains_key(shape_code(rid)) && target[shape_code(rid)].0 == rid)
    &&& forall|m1: int, m2: int| 0 <= m1 < m2 < added.len() ==> shape_code(#[trigger] shape_attachment_id(added[m1])->0)
        != shape_code(#[trigger] shape_attachment_id(added[m2])->0)
}

/// Reattaches the shape entries of a manifest list.
fn reattach_shapes<E, P, F: Fn(&E, UserDataVersion) -> Result<Option<P>>>(
    source: &HashMap<u64, (ShapeId, Rc<E>)>,
    list: &Vec<(ShapeId, UserDataVersion)>,
    ids: &IdentityManifest,
    prepared: &PreparedIdentityRestore,
    probe: &F,
    target: &mut HashMap<u64, (ShapeId, Rc<E>)>,
    attachments: &mut Vec<UserDataAttachment<P>>,
) -> (r: Result<()>)
    requires
        forall|e: &E, v: UserDataVersion| #[trigger] probe.requires((e, v)),
        old(target)@ == Map::<u64, (ShapeId, Rc<E>)>::empty(),
    ensures
        r is Ok ==> {
            &&& final(attachments)@.len() >= old(attachments)@.len()
            &&& final(attachments)@.subrange(0, old(attachments)@.len() as int) == old(attachments)@
            &&& shapes_reattached(
                source@,
                list@,
                *ids,
                *prepared,
                *probe,
                final(target)@,
                final(attachments)@.subrange(old(attachments)@.len() as int, final(attachments)@.len() as int),
            )
        },
        forall|k: u64| #[trigger] final(target)@.contains_key(k) ==> shape_code(final(target)@[k].0) == k,
        r is Ok && shape_codes_distinct(list@) ==> shapes_attached_once(
            final(target)@,
            final(attachments)@.subrange(old(attachments)@.len() as int, final(attachments)@.len() as int),
        ),
        r matches Err(e) ==> exists|j: int| 0 <= j < list@.len() && holds_shape(source@, #[trigger] list@[j].0)
            && probe.ensures((&*source@[shape_code(list@[j].0)].1, list@[j].1), Err(e)),
{
    let ghost base = attachments@;
    let ghost distinct = shape_codes_distinct(list@);
    let ghost mut src: Map<u64, int> = Map::empty();
    let ghost mut got: Map<u64, P> = Map::empty();
    let mut i: usize = 0;
    while i < list.len()
        invariant
            i <= list@.len(),
            forall|e: &E, v: UserDataVersion| #[trigger] probe.requires((e, v)),
            attachments@.len() >= base.len(),
            attachments@.subrange(0, base.len() as int) == base,
            forall|k: u64| #[trigger] target@.contains_key(k) ==> src.contains_key(k) && got.contains_key(k)
                && 0 <= src[k] < i && shape_code(list@[src[k]].0) == k
                && shape_entry_justified(source@, list@, *ids, *prepared, *probe, src[k], target@[k], got[k]),
            forall|j: int| 0 <= j < i && shape_restorable(*prepared, *ids, #[trigger] list@[j].0)
                && holds_shape(source@, list@[j].0) ==> target@.contains_key(shape_code(list@[j].0))
                || probe.ensures((&*source@[shape_code(list@[j].0)].1, list@[j].1), Ok(None)),
            forall|m: int| base.len() <= m < attachments@.len() ==> (#[trigger] attachments@[m] matches UserDataAttachment::Shape(rid, p)
                && exists|j: int| #![trigger list@[j]] 0 <= j < i && shape_entry_justified(
                source@,
                list@,
                *ids,
                *prepared,
                *probe,
                j,
                (rid, source@[shape_code(list@[j].0)].1),
                p,
            ) && target@.contains_key(shape_code(list@[j].0))),
            distinct == shape_codes_distinct(list@),
            forall|k: u64| #[trigger] target@.contains_key(k) ==> shape_code(target@[k].0) == k,
            forall|k: u64| #[trigger] target@.contains_key(k) ==> exists|m: int| base.len() <= m < attachments@.len()
                && #[trigger] shape_attachment_id(attachments@[m]) == Some(target@[k].0),
            distinct ==> forall|m: int| base.len() <= m < attachments@.len() ==> (#[trigger] shape_attachment_id(attachments@[m]) matches Some(rid)
                && target@.contains_key(shape_code(rid)) && target@[shape_code(rid)].0 == rid),
            distinct ==> forall|m1: int, m2: int| base.len() <= m1 < m2 < attachments@.len()
                ==> shape_code(#[trigger] shape_attachment_id(attachments@[m1])->0) != shape_code(#[trigger] shape_attachment_id(attachments@[m2])->0),
        decreases list@.len() - i,
    {
        let (snapshot_id, version) = list[i];
        let restored = prepared.shape_after_restore(ids, snapshot_id);
        if let Some(restored_id) = restored {
            let code = snapshot_id.into_raw().key().code();
            if let Some(entry) = source.get(&code) {
                if entry.0 == snapshot_id {
                    let pointer = match probe(&*entry.1, version) {
                        Ok(pointer) => pointer,
                        Err(error) => return Err(error),
                    };
                    if let Some(pointer) = pointer {
                        let ghost p = pointer;
                        let handle = share_entry(&entry.1);
                        let ghost before_target = target@;
                        let ghost before_att = attachments@;
                        proof {
                            if distinct && before_target.contains_key(code) {
                                assert(shape_code(list@[src[code]].0) == shape_code(list@[i as int].0));
                            }
                        }
                        target.insert(code, (restored_id, handle));
                        proof {
                            src = src.insert(code, i as int);
                            got = got.insert(code, p);
                            assert(shape_entry_justified(source@, list@, *ids, *prepared, *probe, i as int, target@[code], p));
                        }
                        attachments.push(UserDataAttachment::Shape(restored_id, pointer));
                        proof {
                            let m = (attachments@.len() - 1) as int;
                            assert(attachments@[m] == UserDataAttachment::Shape(restored_id, p));
                            assert(shape_code(restored_id) == code);
                            assert forall|q: int| base.len() <= q < m implies #[trigger] attachments@[q] == before_att[q] by {}
                            assert forall|k: u64| #[trigger] target@.contains_key(k) implies exists|q: int| base.len() <= q < attachments@.len()
                                && #[trigger] shape_attachment_id(attachments@[q]) == Some(target@[k].0) by {
                                if k == code {
                                    assert(shape_attachment_id(attachments@[m]) == Some(target@[k].0));
                                } else {
                                    let q = choose|q: int| base.len() <= q < before_att.len()
                                        && #[trigger] shape_attachment_id(before_att[q]) == Some(before_target[k].0);
                                    assert(attachments@[q] == before_att[q]);
                                }
                            }
                            if distinct {
                                assert forall|q: int| base.len() <= q < attachments@.len() implies (#[trigger] shape_attachment_id(attachments@[q]) matches Some(rid)
                                    && target@.contains_key(shape_code(rid)) && target@[shape_code(rid)].0 == rid) by {
                                    if q < m {
                                        assert(attachments@[q] == before_att[q]);
                                    }
                                }
                                assert forall|m1: int, m2: int| base.len() <= m1 < m2 < attachments@.len() implies shape_code(
                                    #[trigger] shape_attachment_id(attachments@[m1])->0) != shape_code(#[trigger] shape_attachment_id(attachments@[m2])->0) by {
                                    assert(attachments@[m1] == before_att[m1]);
                                    if m2 < m {
                                        assert(attachments@[m2] == before_att[m2]);
                                    }
                                }
                            }
                            assert(shape_entry_justified(
                                source@,
                                list@,
                                *ids,
                                *prepared,
                                *probe,
                                i as int,
                                (restored_id, source@[shape_code(list@[i as int].0)].1),
                                p,
                            ));
                            assert(attachments@.subrange(0, base.len() as int) =~= base);
                        }
                    }
                }
            }
        }
        i = i + 1;
    }
    proof {
        let added = attachments@.subrange(base.len() as int, attachments@.len() as int);
        assert forall|k: u64| #[trigger] target@.contains_key(k) implies exists|j: int, p: P|
            #![trigger list@[j], probe.ensures((&*target@[k].1, list@[j].1), Ok(Some(p)))]
            shape_entry_justified(source@, list@, *ids, *prepared, *probe, j, target@[k], p) && shape_code(list@[j].0) == k by {
            let j = src[k];
            let p = got[k];
            assert(shape_entry_justified(source@, list@, *ids, *prepared, *probe, j, target@[k], p));
            assert(probe.ensures((&*target@[k].1, list@[j].1), Ok(Some(p))));
        }
        assert forall|m: int| 0 <= m < added.len() implies (#[trigger] added[m] matches UserDataAttachment::Shape(rid, p)
            && exists|j: int| #![trigger list@[j]] shape_entry_justified(
            source@,
            list@,
            *ids,
            *prepared,
            *probe,
            j,
            (rid, source@[shape_code(list@[j].0)].1),
            p,
        ) && target@.contains_key(shape_code(list@[j].0))) by {
            assert(added[m] == attachments@[base.len() + m]);
        }
        assert forall|k: u64| #[trigger] target@.contains_key(k) implies exists|m: int| 0 <= m < added.len()
            && #[trigger] shape_attachment_id(added[m]) == Some(target@[k].0) by {
            let q = choose|q: int| base.len() <= q < attachments@.len() && #[trigger] shape_attachment_id(attachments@[q]) == Some(target@[k].0);
            assert(added[q - base.len()] == attachments@[q]);
        }
        if distinct {
            assert forall|m: int| 0 <= m < added.len() implies (#[trigger] shape_attachment_id(added[m]) matches Some(rid)
                && target@.contains_key(shape_code(rid)) && target@[shape_code(rid)].0 == rid) by {
                assert(added[m] == attachments@[base.len() + m]);
            }
            assert forall|m1: int, m2: int| 0 <= m1 < m2 < added.len() implies shape_code(#[trigger] shape_attachment_id(added[m1])->0)
                != shape_code(#[trigger] shape_attachment_id(added[m2])->0) by {
                assert(added[m1] == attachments@[base.len() + m1]);
                assert(added[m2] == attachments@[base.len() + m2]);
            }
        }
    }
    Ok(())
}

/// The key code under which a joint's entry is stored.
pub open spec fn joint_code(id: JointId) -> u64 {
    id.raw_spec().key_spec().code_spec()
}

/// Whether the identity restore brings a snapshot joint id back.
pub open spec fn joint_restorable(prepared: PreparedIdentityRestore, ids: IdentityManifest, sid: JointId) -> bool {
    &&& sid.brand_spec() == prepared.brand_spec()
    &&& ids.brand_spec() == prepared.brand_spec()
    &&& ids.joints().contains_key(joint_code(sid))
    &&& ids.joints()[joint_code(sid)].nonce == sid.nonce_spec()
    &&& prepared.joints().contains_key(joint_code(sid))
}

/// The id that a restorable snapshot joint id takes after the restore.
pub open spec fn joint_restores_as(
    prepared: PreparedIdentityRestore,
    ids: IdentityManifest,
    sid: JointId,
    rid: JointId,
) -> bool {
    &&& joint_restorable(prepared, ids, sid)
    &&& rid.raw_spec() == sid.raw_spec()
    &&& rid.brand_spec() == prepared.brand_spec()
    &&& rid.nonce_spec() == prepared.joints()[joint_code(sid)].nonce
}

/// Whether a store holds an entry for exactly this joint id.
pub open spec fn holds_joint<E>(source: Map<u64, (JointId, Rc<E>)>, id: JointId) -> bool {
    source.contains_key(joint_code(id)) && source[joint_code(id)].0 == id
}

/// Entry `j` of the manifest list justifies the restored entry stored under `k`.
pub open spec fn joint_entry_justified<E, P, F: Fn(&E, UserDataVersion) -> Result<Option<P>>>(
    source: Map<u64, (JointId, Rc<E>)>,
    list: Seq<(JointId, UserDataVersion)>,
    ids: IdentityManifest,
    prepared: PreparedIdentityRestore,
    probe: F,
    j: int,
    restored: (JointId, Rc<E>),
    p: P,
) -> bool {
    &&& 0 <= j < list.len()
    &&& holds_joint(source, list[j].0)
    &&& restored.1 == source[joint_code(list[j].0)].1
    &&& joint_restores_as(prepared, ids, list[j].0, restored.0)
    &&& probe.ensures((&*restored.1, list[j].1), Ok(Some(p)))
}

/// The restored joint entries and their attachments are exactly justified by the manifest list:
/// every restored entry and every new attachment comes from a list entry whose id is restored,
/// whose exact entry is present and whose value still carries the listed version; every list
/// entry meeting the first two conditions was either restored or its value no longer carries
/// the listed version.
pub open spec fn joints_reattached<E, P, F: Fn(&E, UserDataVersion) -> Result<Option<P>>>(
    source: Map<u64, (JointId, Rc<E>)>,
    list: Seq<(JointId, UserDataVersion)>,
    ids: IdentityManifest,
    prepared: PreparedIdentityRestore,
    probe: F,
    target: Map<u64, (JointId, Rc<E>)>,
    added: Seq<UserDataAttachment<P>>,
) -> bool {
    &&& forall|k: u64| #[trigger] target.contains_key(k) ==> exists|j: int, p: P|
        #![trigger list[j], probe.ensures((&*target[k].1, list[j].1), Ok(Some(p)))]
        joint_entry_justified(source, list, ids, prepared, probe, j, target[k], p) && joint_code(list[j].0) == k
    &&& forall|j: int| 0 <= j < list.len() && joint_restorable(prepared, ids, #[trigger] list[j].0)
        && holds_joint(source, list[j].0) ==> target.contains_key(joint_code(list[j].0))
        || probe.ensures((&*source[joint_code(list[j].0)].1, list[j].1), Ok(None))
    &&& forall|m: int| 0 <= m < added.len() ==> (#[trigger] added[m] matches UserDataAttachment::Joint(rid, p)
        && exists|j: int| #![trigger list[j]] joint_entry_justified(
        source,
        list,
        ids,
        prepared,
        probe,
        j,
        (rid, source[joint_code(list[j].0)].1),
        p,
    ) && target.contains_key(joint_code(list[j].0)))
}

/// The joint an attachment names, if it is a joint attachment.
pub open spec fn joint_attachment_id<P>(a: UserDataAttachment<P>) -> Option<JointId> {
    match a {
        UserDataAttachment::Joint(id, _) => Some(id),
        _ => None,
    }
}

/// No two entries of a manifest joint list share a slot.
pub open spec fn joint_codes_distinct(list: Seq<(JointId, UserDataVersion)>) -> bool {
    forall|a: int, b: int| 0 <= a < b < list.len() ==> joint_code(#[trigger] list[a].0) != joint_code(#[trigger] list[b].0)
}

/// Each restored joint entry has exactly one attachment, naming its restored id, and there are no
/// other attachments.
pub open spec fn joints_attached_once<E, P>(target: Map<u64, (JointId, Rc<E>)>, added: Seq<UserDataAttachment<P>>) -> bool {
    &&& forall|k: u64| #[trigger] target.contains_key(k) ==> exists|m: int| 0 <= m < added.len()
        && #[trigger] joint_attachment_id(added[m]) == Some(target[k].0)
    &&& forall|m: int| 0 <= m < added.len() ==> (#[trigger] joint_attachment_id(added[m]) matches Some(rid)
        && target.contains_key(joint_code(rid)) && target[joint_code(rid)].0 == rid)
    &&& forall|m1: int, m2: int| 0 <= m1 < m2 < added.len() ==> joint_code(#[trigger] joint_attachment_id(added[m1])->0)
        != joint_code(#[trigger] joint_attachment_id(added[m2])->0)
}

/// Reattaches the joint entries of a manifest list.
fn reattach_joints<E, P, F: Fn(&E, UserDataVersion) -> Result<Option<P>>>(
    source: &HashMap<u64, (JointId, Rc<E>)>,
    list: &Vec<(JointId, UserDataVersion)>,
    ids: &IdentityManifest,
    prepared: &PreparedIdentityRestore,
    probe: &F,
    target: &mut HashMap<u64, (JointId, Rc<E>)>,
    attachments: &mut Vec<UserDataAttachment<P>>,
) -> (r: Result<()>)
    requires
        forall|e: &E, v: UserDataVersion| #[trigger] probe.requires((e, v)),
        old(target)@ == Map::<u64, (JointId, Rc<E>)>::empty(),
    ensures
        r is Ok ==> {
            &&& final(attachments)@.len() >= old(attachments)@.len()
            &&& final(attachments)@.subrange(0, old(attachments)@.len() as int) == old(attachments)@
            &&& joints_reattached(
                source@,
                list@,
                *ids,
                *prepared,
                *probe,
                final(target)@,
                final(attachments)@.subrange(old(attachments)@.len() as int, final(attachments)@.len() as int),
            )
        },
        forall|k: u64| #[trigger] final(target)@.contains_key(k) ==> joint_code(final(target)@[k].0) == k,
        r is Ok && joint_codes_distinct(list@) ==> joints_attached_once(
            final(target)@,
            final(attachments)@.subrange(old(attachments)@.len() as int, final(attachments)@.len() as int),
        ),
        r matches Err(e) ==> exists|j: int| 0 <= j < list@.len() && holds_joint(source@, #[trigger] list@[j].0)
            && probe.ensures((&*source@[joint_code(list@[j].0)].1, list@[j].1), Err(e)),
{
    let ghost base = attachments@;
    let ghost distinct = joint_codes_distinct(list@);
    let ghost mut src: Map<u64, int> = Map::empty();
    let ghost mut got: Map<u64, P> = Map::empty();
    let mut i: usize = 0;
    while i < list.len()
        invariant
            i <= list@.len(),
            forall|e: &E, v: UserDataVersion| #[trigger] probe.requires((e, v)),
            attachments@.len() >= base.len(),
            attachments@.subrange(0, base.len() as int) == base,
            forall|k: u64| #[trigger] target@.contains_key(k) ==> src.contains_key(k) && got.contains_key(k)
                && 0 <= src[k] < i && joint_code(list@[src[k]].0) == k
                && joint_entry_justified(source@, list@, *ids, *prepared, *probe, src[k], target@[k], got[k]),
            forall|j: int| 0 <= j < i && joint_restorable(*prepared, *ids, #[trigger] list@[j].0)
                && holds_joint(source@, list@[j].0) ==> target@.contains_key(joint_code(list@[j].0))
                || probe.ensures((&*source@[joint_code(list@[j].0)].1, list@[j].1), Ok(None)),
            forall|m: int| base.len() <= m < attachments@.len() ==> (#[trigger] attachments@[m] matches UserDataAttachment::Joint(rid, p)
                && exists|j: int| #![trigger list@[j]] 0 <= j < i && joint_entry_justified(
                source@,
                list@,
                *ids,
                *prepared,
                *probe,
                j,
                (rid, source@[joint_code(list@[j].0)].1),
                p,
            ) && target@.contains_key(joint_code(list@[j].0))),
            distinct == joint_codes_distinct(list@),
            forall|k: u64| #[trigger] target@.contains_key(k) ==> joint_code(target@[k].0) == k,
            forall|k: u64| #[trigger] target@.contains_key(k) ==> exists|m: int| base.len() <= m < attachments@.len()
                && #[trigger] joint_attachment_id(attachments@[m]) == Some(target@[k].0),
            distinct ==> forall|m: int| base.len() <= m < attachments@.len() ==> (#[trigger] joint_attachment_id(attachments@[m]) matches Some(rid)
                && target@.contains_key(joint_code(rid)) && target@[joint_code(rid)].0 == rid),
            distinct ==> forall|m1: int, m2: int| base.len() <= m1 < m2 < attachments@.len()
                ==> joint_code(#[trigger] joint_attachment_id(attachments@[m1])->0) != joint_code(#[trigger] joint_attachment_id(attachments@[m2])->0),
        decreases list@.len() - i,
    {
        let (snapshot_id, version) = list[i];
        let restored = prepared.joint_after_restore(ids, snapshot_id);
        if let Some(restored_id) = restored {
            let code = snapshot_id.into_raw().key().code();
            if let Some(entry) = source.get(&code) {
                if entry.0 == snapshot_id {
                    let pointer = match probe(&*entry.1, version) {
                        Ok(pointer) => pointer,
                        Err(error) => return Err(error),
                    };
                    if let Some(pointer) = pointer {
                        let ghost p = pointer;
                        let handle = share_entry(&entry.1);
                        let ghost before_target = target@;
                        let ghost before_att = attachments@;
                        proof {
                            if distinct && before_target.contains_key(code) {
                                assert(joint_code(list@[src[code]].0) == joint_code(list@[i as int].0));
                            }
                        }
                        target.insert(code, (restored_id, handle));
                        proof {
                            src = src.insert(code, i as int);
                            got = got.insert(code, p);
                            assert(joint_entry_justified(source@, list@, *ids, *prepared, *probe, i as int, target@[code], p));
                        }
                        attachments.push(UserDataAttachment::Joint(restored_id, pointer));
                        proof {
                            let m = (attachments@.len() - 1) as int;
                            assert(attachments@[m] == UserDataAttachment::Joint(restored_id, p));
                            assert(joint_code(restored_id) == code);
                            assert forall|q: int| base.len() <= q < m implies #[trigger] attachments@[q] == before_att[q] by {}
                            assert forall|k: u64| #[trigger] target@.contains_key(k) implies exists|q: int| base.len() <= q < attachments@.len()
                                && #[trigger] joint_attachment_id(attachments@[q]) == Some(target@[k].0) by {
                                if k == code {
                                    assert(joint_attachment_id(attachments@[m]) == Some(target@[k].0));
                                } else {
                                    let q = choose|q: int| base.len() <= q < before_att.len()
                                        && #[trigger] joint_attachment_id(before_att[q]) == Some(before_target[k].0);
                                    assert(attachments@[q] == before_att[q]);
                                }
                            }
                            if distinct {
                                assert forall|q: int| base.len() <= q < attachments@.len() implies (#[trigger] joint_attachment_id(attachments@[q]) matches Some(rid)
                                    && target@.contains_key(joint_code(rid)) && target@[joint_code(rid)].0 == rid) by {
                                    if q < m {
                                        assert(attachments@[q] == before_att[q]);
                                    }
                                }
                                assert forall|m1: int, m2: int| base.len() <= m1 < m2 < attachments@.len() implies joint_code(
                                    #[trigger] joint_attachment_id(attachments@[m1])->0) != joint_code(#[trigger] joint_attachment_id(attachments@[m2])->0) by {
                                    assert(attachments@[m1] == before_att[m1]);
                                    if m2 < m {
                                        assert(attachments@[m2] == before_att[m2]);
                                    }
                                }
                            }
                            assert(joint_entry_justified(
                                source@,
                                list@,
                                *ids,
                                *prepared,
                                *probe,
                                i as int,
                                (restored_id, source@[joint_code(list@[i as int].0)].1),
                                p,
                            ));
                            assert(attachments@.subrange(0, base.len() as int) =~= base);
                        }
                    }
                }
            }
        }
        i = i + 1;
    }
    proof {
        let added = attachments@.subrange(base.len() as int, attachments@.len() as int);
        assert forall|k: u64| #[trigger] target@.contains_key(k) implies exists|j: int, p: P|
            #![trigger list@[j], probe.ensures((&*target@[k].1, list@[j].1), Ok(Some(p)))]
            joint_entry_justified(source@, list@, *ids, *prepared, *probe, j, target@[k], p) && joint_code(list@[j].0) == k by {
            let j = src[k];
            let p = got[k];
            assert(joint_entry_justified(source@, list@, *ids, *prepared, *probe, j, target@[k], p));
            assert(probe.ensures((&*target@[k].1, list@[j].1), Ok(Some(p))));
        }
        assert forall|m: int| 0 <= m < added.len() implies (#[trigger] added[m] matches UserDataAttachment::Joint(rid, p)
            && exists|j: int| #![trigger list@[j]] joint_entry_justified(
            source@,
            list@,
            *ids,
            *prepared,
            *probe,
            j,
            (rid, source@[joint_code(list@[j].0)].1),
            p,
        ) && target@.contains_key(joint_code(list@[j].0))) by {
            assert(added[m] == attachments@[base.len() + m]);
        }
        assert forall|k: u64| #[trigger] target@.contains_key(k) implies exists|m: int| 0 <= m < added.len()
            && #[trigger] joint_attachment_id(added[m]) == Some(target@[k].0) by {
            let q = choose|q: int| base.len() <= q < attachments@.len() && #[trigger] joint_attachment_id(attachments@[q]) == Some(target@[k].0);
            assert(added[q - base.len()] == attachments@[q]);
        }
        if distinct {
            assert forall|m: int| 0 <= m < added.len() implies (#[trigger] joint_attachment_id(added[m]) matches Some(rid)
                && target@.contains_key(joint_code(rid)) && target@[joint_code(rid)].0 == rid) by {
                assert(added[m] == attachments@[base.len() + m]);
            }
            assert forall|m1: int, m2: int| 0 <= m1 < m2 < added.len() implies joint_code(#[trigger] joint_attachment_id(added[m1])->0)
                != joint_code(#[trigger] joint_attachment_id(added[m2])->0) by {
                assert(added[m1] == attachments@[base.len() + m1]);
                assert(added[m2] == attachments@[base.len() + m2]);
            }
        }
    }
    Ok(())
}

/// The user data of one world: the world's own entry and one per body, shape and joint, each
/// stored under the key code of its object's id beside the full id.
pub struct UserDataStore<E> {
    world: Option<Rc<E>>,
    bodies: HashMap<u64, (BodyId, Rc<E>)>,
    shapes: HashMap<u64, (ShapeId, Rc<E>)>,
    joints: HashMap<u64, (JointId, Rc<E>)>,
    last_version: u64,
    revision: u128,
}

/// A restore checked against the current user data, ready to be committed.
pub struct PreparedUserDataRestore<E, P> {
    base_revision: u128,
    target: UserDataStore<E>,
    attachments: Vec<UserDataAttachment<P>>,
    retired: Vec<Rc<E>>,
    bounds: Ghost<(int, int, int)>,
}

/// A committed restore: the native pointers to install and the entries to dispose of.
pub struct CommittedUserDataRestore<E, P> {
    attachments: Vec<UserDataAttachment<P>>,
    retired: Vec<Rc<E>>,
}

impl<E, P> PreparedUserDataRestore<E, P> {
    /// The store revision the restore was prepared against.
    pub closed spec fn base_revision_spec(&self) -> u128 {
        self.base_revision
    }

    /// The store the restore installs.
    pub closed spec fn target_spec(&self) -> UserDataStore<E> {
        self.target
    }

    /// The native pointers to install, world first, then bodies, shapes and joints.
    pub closed spec fn attachments_spec(&self) -> Seq<UserDataAttachment<P>> {
        self.attachments@
    }

    /// Where the world, body and shape attachments end.
    pub closed spec fn bounds_spec(&self) -> (int, int, int) {
        self.bounds@
    }

    /// Spare room reserved for the entries the commit retires.
    pub closed spec fn retired_spec(&self) -> Seq<Rc<E>> {
        self.retired@
    }
}

impl<E> UserDataStore<E> {
    /// Every entry sits under the key code of the id stored beside it, as every operation of the
    /// store keeps it.
    pub open spec fn keyed(&self) -> bool {
        &&& forall|k: u64| #[trigger] self.bodies_spec().contains_key(k) ==> body_code(self.bodies_spec()[k].0) == k
        &&& forall|k: u64| #[trigger] self.shapes_spec().contains_key(k) ==> shape_code(self.shapes_spec()[k].0) == k
        &&& forall|k: u64| #[trigger] self.joints_spec().contains_key(k) ==> joint_code(self.joints_spec()[k].0) == k
    }

    /// The world's entry.
    pub closed spec fn world_spec(&self) -> Option<Rc<E>> {
        self.world
    }

    /// The body entries by key code.
    pub closed spec fn bodies_spec(&self) -> Map<u64, (BodyId, Rc<E>)> {
        self.bodies@
    }

    /// The shape entries by key code.
    pub closed spec fn shapes_spec(&self) -> Map<u64, (ShapeId, Rc<E>)> {
        self.shapes@
    }

    /// The joint entries by key code.
    pub closed spec fn joints_spec(&self) -> Map<u64, (JointId, Rc<E>)> {
        self.joints@
    }

    /// The last version handed out.
    pub closed spec fn last_version_spec(&self) -> u64 {
        self.last_version
    }

    /// The revision, changed by every mutation.
    pub closed spec fn revision_spec(&self) -> u128 {
        self.revision
    }

    /// An empty store.
    pub fn new() -> (s: Self)
        ensures
            s.world_spec() is None,
            s.bodies_spec() == Map::<u64, (BodyId, Rc<E>)>::empty(),
            s.shapes_spec() == Map::<u64, (ShapeId, Rc<E>)>::empty(),
            s.joints_spec() == Map::<u64, (JointId, Rc<E>)>::empty(),
            s.last_version_spec() == 0,
            s.revision_spec() == 0,
    {
        UserDataStore {
            world: None,
            bodies: HashMap::new(),
            shapes: HashMap::new(),
            joints: HashMap::new(),
            last_version: 0,
            revision: 0,
        }
    }

    /// The current revision.
    pub fn revision(&self) -> (r: u128)
        ensures
            r == self.revision_spec(),
    {
        self.revision
    }

    /// A version no earlier value carries; it advances the revision.
    pub fn next_version(&mut self) -> (r: Result<UserDataVersion>)
        ensures
            old(self).last_version_spec() == u64::MAX ==> r == Err::<UserDataVersion, Error>(
                Error::UserDataVersionExhausted,
            ) && *final(self) == *old(self),
            old(self).last_version_spec() < u64::MAX ==> {
                &&& r == Ok::<UserDataVersion, Error>(UserDataVersion((old(self).last_version_spec() + 1) as u64))
                &&& final(self).last_version_spec() == old(self).last_version_spec() + 1
                &&& final(self).revision_spec() == old(self).revision_spec().wrapping_add(1)
                &&& final(self).world_spec() == old(self).world_spec()
                &&& final(self).bodies_spec() == old(self).bodies_spec()
                &&& final(self).shapes_spec() == old(self).shapes_spec()
                &&& final(self).joints_spec() == old(self).joints_spec()
            },
    {
        let next = match self.last_version.checked_add(1) {
            Some(next) => next,
            None => return Err(Error::UserDataVersionExhausted),
        };
        self.last_version = next;
        self.revision = self.revision.wrapping_add(1);
        Ok(UserDataVersion(next))
    }

    /// Records a mutation that did not need a new version.
    pub fn mark_changed(&mut self)
        ensures
            final(self).revision_spec() == old(self).revision_spec().wrapping_add(1),
            final(self).last_version_spec() == old(self).last_version_spec(),
            final(self).world_spec() == old(self).world_spec(),
            final(self).bodies_spec() == old(self).bodies_spec(),
            final(self).shapes_spec() == old(self).shapes_spec(),
            final(self).joints_spec() == old(self).joints_spec(),
    {
        self.revision = self.revision.wrapping_add(1);
    }

    /// Prepares a restore of the user data to a snapshot.
    ///
    /// `pointer_if_version` answers, for one entry, the native pointer of its value if the value
    /// carries the given version, nothing if it does not, or an error if the entry cannot be read.
    pub fn prepare_restore<P, F: Fn(&E, UserDataVersion) -> Result<Option<P>>>(
        &self,
        manifest: &UserDataManifest,
        identity_manifest: &IdentityManifest,
        identities: &PreparedIdentityRestore,
        pointer_if_version: F,
    ) -> (r: Result<PreparedUserDataRestore<E, P>>)
        requires
            forall|e: &E, v: UserDataVersion| #[trigger] pointer_if_version.requires((e, v)),
        ensures
            r matches Ok(prepared) ==> {
                let target = prepared.target_spec();
                let att = prepared.attachments_spec();
                let (w, b, s) = prepared.bounds_spec();
                &&& prepared.base_revision_spec() == self.revision_spec()
                &&& target.last_version_spec() == self.last_version_spec()
                &&& target.revision_spec() == self.revision_spec().wrapping_add(1)
                &&& target.keyed()
                &&& 0 <= w <= b <= s <= att.len()
                &&& prepared.retired_spec().len() == 0
                &&& match (manifest.world, self.world_spec()) {
                    (Some(v), Some(e)) => match target.world_spec() {
                        Some(kept) => kept == e && w == 1 && (att[0] matches UserDataAttachment::World(p)
                            && pointer_if_version.ensures((&*e, v), Ok(Some(p)))),
                        None => w == 0 && pointer_if_version.ensures((&*e, v), Ok(None)),
                    },
                    _ => target.world_spec() is None && w == 0,
                }
                &&& bodies_reattached(self.bodies_spec(), manifest.bodies@, *identity_manifest, *identities,
                    pointer_if_version, target.bodies_spec(), att.subrange(w, b))
                &&& shapes_reattached(self.shapes_spec(), manifest.shapes@, *identity_manifest, *identities,
                    pointer_if_version, target.shapes_spec(), att.subrange(b, s))
                &&& joints_reattached(self.joints_spec(), manifest.joints@, *identity_manifest, *identities,
                    pointer_if_version, target.joints_spec(), att.subrange(s, att.len() as int))
                &&& body_codes_distinct(manifest.bodies@) ==> bodies_attached_once(target.bodies_spec(), att.subrange(w, b))
                &&& shape_codes_distinct(manifest.shapes@) ==> shapes_attached_once(target.shapes_spec(), att.subrange(b, s))
                &&& joint_codes_distinct(manifest.joints@) ==> joints_attached_once(target.joints_spec(), att.subrange(s, att.len() as int))
            },
            r matches Err(e) ==> e == Error::SnapshotAllocationFailed
                || (manifest.world matches Some(v) && self.world_spec() matches Some(we)
                    && pointer_if_version.ensures((&*we, v), Err(e)))
                || (exists|j: int| 0 <= j < manifest.bodies@.len() && holds_body(self.bodies_spec(), #[trigger] manifest.bodies@[j].0)
                    && pointer_if_version.ensures((&*self.bodies_spec()[body_code(manifest.bodies@[j].0)].1, manifest.bodies@[j].1), Err(e)))
                || (exists|j: int| 0 <= j < manifest.shapes@.len() && holds_shape(self.shapes_spec(), #[trigger] manifest.shapes@[j].0)
                    && pointer_if_version.ensures((&*self.shapes_spec()[shape_code(manifest.shapes@[j].0)].1, manifest.shapes@[j].1), Err(e)))
                || (exists|j: int| 0 <= j < manifest.joints@.len() && holds_joint(self.joints_spec(), #[trigger] manifest.joints@[j].0)
                    && pointer_if_version.ensures((&*self.joints_spec()[joint_code(manifest.joints@[j].0)].1, manifest.joints@[j].1), Err(e))),
    {
        let mut world: Option<Rc<E>> = None;
        let mut bodies: HashMap<u64, (BodyId, Rc<E>)> = HashMap::new();
        let mut shapes: HashMap<u64, (ShapeId, Rc<E>)> = HashMap::new();
        let mut joints: HashMap<u64, (JointId, Rc<E>)> = HashMap::new();
        if !try_reserve_map(&mut bodies, manifest.bodies.len()) {
            return Err(Error::SnapshotAllocationFailed);
        }
        if !try_reserve_map(&mut shapes, manifest.shapes.len()) {
            return Err(Error::SnapshotAllocationFailed);
        }
        if !try_reserve_map(&mut joints, manifest.joints.len()) {
            return Err(Error::SnapshotAllocationFailed);
        }
        let mut attachments: Vec<UserDataAttachment<P>> = Vec::new();
        let world_count: usize = if manifest.world.is_some() { 1 } else { 0 };
        let capacity = match world_count.checked_add(manifest.bodies.len()) {
            Some(c) => match c.checked_add(manifest.shapes.len()) {
                Some(c) => c.checked_add(manifest.joints.len()),
                None => None,
            },
            None => None,
        };
        let capacity = match capacity {
            Some(c) => c,
            None => return Err(Error::SnapshotAllocationFailed),
        };
        if !try_reserve_exact_vec(&mut attachments, capacity) {
            return Err(Error::SnapshotAllocationFailed);
        }
        if let (Some(version), Some(entry)) = (manifest.world, &self.world) {
            match pointer_if_version(&**entry, version) {
                Ok(Some(pointer)) => {
                    world = Some(share_entry(entry));
                    attachments.push(UserDataAttachment::World(pointer));
                },
                Ok(None) => {},
                Err(error) => return Err(error),
            }
        }
        let ghost w = attachments@.len() as int;
        let ghost after_world = attachments@;
        match reattach_bodies(&self.bodies, &manifest.bodies, identity_manifest, identities, &pointer_if_version,
            &mut bodies, &mut attachments) {
            Ok(()) => {},
            Err(error) => return Err(error),
        }
        let ghost b = attachments@.len() as int;
        let ghost after_bodies = attachments@;
        match reattach_shapes(&self.shapes, &manifest.shapes, identity_manifest, identities, &pointer_if_version,
            &mut shapes, &mut attachments) {
            Ok(()) => {},
            Err(error) => return Err(error),
        }
        let ghost s = attachments@.len() as int;
        let ghost after_shapes = attachments@;
        match reattach_joints(&self.joints, &manifest.joints, identity_manifest, identities, &pointer_if_version,
            &mut joints, &mut attachments) {
            Ok(()) => {},
            Err(error) => return Err(error),
        }
        let world_present: usize = if self.world.is_some() { 1 } else { 0 };
        let retired_capacity = match world_present.checked_add(self.bodies.len()) {
            Some(c) => match c.checked_add(self.shapes.len()) {
                Some(c) => c.checked_add(self.joints.len()),
                None => None,
            },
            None => None,
        };
        let retired_capacity = match retired_capacity {
            Some(c) => c,
            None => return Err(Error::SnapshotAllocationFailed),
        };
        let mut retired: Vec<Rc<E>> = Vec::new();
        if !try_reserve_exact_vec(&mut retired, retired_capacity) {
            return Err(Error::SnapshotAllocationFailed);
        }
        proof {
            let att = attachments@;
            assert(att.subrange(0, b) =~= after_bodies.subrange(0, b));
            assert(after_bodies.subrange(0, w) =~= after_world);
            assert(att.subrange(w, b) =~= after_bodies.subrange(w, b));
            assert(att.subrange(b, s) =~= after_shapes.subrange(b, s));
            assert(after_shapes.subrange(0, b) =~= after_bodies);
            assert(att.subrange(0, s) =~= after_shapes);
            if w == 1 {
                assert(att[0] == after_world[0]);
            }
        }
        let target = UserDataStore {
            world,
            bodies,
            shapes,
            joints,
            last_version: self.last_version,
            revision: self.revision.wrapping_add(1),
        };
        Ok(PreparedUserDataRestore {
            base_revision: self.revision,
            target,
            attachments,
            retired,
            bounds: Ghost((w, b, s)),
        })
    }
}

/// Every entry of `previous` is either kept under its key in `kept` or among `retired`.
pub open spec fn entries_accounted<Id, E>(
    previous: Map<u64, (Id, Rc<E>)>,
    kept: Map<u64, (Id, Rc<E>)>,
    retired: Seq<Rc<E>>,
) -> bool {
    forall|k: u64| #[trigger] previous.contains_key(k) ==> (kept.contains_key(k) && kept[k].1 == previous[k].1)
        || retired.contains(previous[k].1)
}

/// Whether `store` holds the entry `h`, as its world entry or under some key.
pub open spec fn store_holds<E>(store: UserDataStore<E>, h: Rc<E>) -> bool {
    ||| store.world_spec() == Some(h)
    ||| exists|k: u64| #[trigger] store.bodies_spec().contains_key(k) && store.bodies_spec()[k].1 == h
    ||| exists|k: u64| #[trigger] store.shapes_spec().contains_key(k) && store.shapes_spec()[k].1 == h
    ||| exists|k: u64| #[trigger] store.joints_spec().contains_key(k) && store.joints_spec()[k].1 == h
}

/// `piece` retires, once each and under distinct keys, entries of `previous`; every entry of
/// `previous` it leaves out is still held, unchanged, under the same key in `kept`.
pub open spec fn retired_once<Id, E>(previous: Map<u64, (Id, Rc<E>)>, kept: Map<u64, (Id, Rc<E>)>, piece: Seq<Rc<E>>) -> bool {
    exists|keys: Seq<u64>| #[trigger] keys.len() == piece.len() && keys.no_duplicates()
        && (forall|m: int| 0 <= m < keys.len() ==> previous.contains_key(#[trigger] keys[m]) && previous[keys[m]].1 == piece[m])
        && (forall|k: u64| #[trigger] previous.contains_key(k) && !keys.contains(k) ==> kept.contains_key(k)
            && kept[k].1 == previous[k].1)
}

/// Entries retired once each are accounted for.
proof fn lemma_retired_once_accounts<Id, E>(previous: Map<u64, (Id, Rc<E>)>, kept: Map<u64, (Id, Rc<E>)>, piece: Seq<Rc<E>>)
    requires
        retired_once(previous, kept, piece),
    ensures
        entries_accounted(previous, kept, piece),
{
    let keys = choose|keys: Seq<u64>| #[trigger] keys.len() == piece.len() && keys.no_duplicates()
        && (forall|m: int| 0 <= m < keys.len() ==> previous.contains_key(#[trigger] keys[m]) && previous[keys[m]].1 == piece[m])
        && (forall|k: u64| #[trigger] previous.contains_key(k) && !keys.contains(k) ==> kept.contains_key(k)
            && kept[k].1 == previous[k].1);
    assert forall|q: u64| #[trigger] previous.contains_key(q) implies (kept.contains_key(q) && kept[q].1 == previous[q].1)
        || piece.contains(previous[q].1) by {
        if keys.contains(q) {
            let m = choose|m: int| 0 <= m < keys.len() && keys[m] == q;
            assert(piece[m] == previous[q].1);
        }
    }
}

/// The key of `previous` under which the entry retired at `x` was stored.
proof fn lemma_retired_once_key<Id, E>(previous: Map<u64, (Id, Rc<E>)>, kept: Map<u64, (Id, Rc<E>)>, piece: Seq<Rc<E>>, x: int) -> (k: u64)
    requires
        retired_once(previous, kept, piece),
        0 <= x < piece.len(),
    ensures
        previous.contains_key(k),
        previous[k].1 == piece[x],
{
    let keys = choose|keys: Seq<u64>| #[trigger] keys.len() == piece.len() && keys.no_duplicates()
        && (forall|m: int| 0 <= m < keys.len() ==> previous.contains_key(#[trigger] keys[m]) && previous[keys[m]].1 == piece[m])
        && (forall|k: u64| #[trigger] previous.contains_key(k) && !keys.contains(k) ==> kept.contains_key(k)
            && kept[k].1 == previous[k].1);
    keys[x]
}

/// The world entry `previous` is retired by `piece` at most once, and only when `kept` no longer
/// holds it.
pub open spec fn world_retired_once<E>(previous: Option<Rc<E>>, kept: Option<Rc<E>>, piece: Seq<Rc<E>>) -> bool {
    match previous {
        None => piece.len() == 0,
        Some(w) => (piece.len() == 0 && kept == Some(w)) || (piece.len() == 1 && piece[0] == w),
    }
}

/// `retired` lists, world first, then bodies, shapes and joints, every entry of `previous` that
/// `kept` does not still hold unchanged under the same key, each once.
pub open spec fn replaced_retired_once<E>(previous: UserDataStore<E>, kept: UserDataStore<E>, retired: Seq<Rc<E>>) -> bool {
    exists|a: int, b: int, c: int| #![trigger retired.subrange(0, a), retired.subrange(a, b), retired.subrange(b, c)]
        0 <= a <= b <= c <= retired.len()
        && world_retired_once(previous.world_spec(), kept.world_spec(), retired.subrange(0, a))
        && retired_once(previous.bodies_spec(), kept.bodies_spec(), retired.subrange(a, b))
        && retired_once(previous.shapes_spec(), kept.shapes_spec(), retired.subrange(b, c))
        && retired_once(previous.joints_spec(), kept.joints_spec(), retired.subrange(c, retired.len() as int))
}

/// Appends to `retired` the entries of `previous` that `kept` does not hold under the same key.
fn retire_replaced<Id, E>(
    previous: &HashMap<u64, (Id, Rc<E>)>,
    kept: &HashMap<u64, (Id, Rc<E>)>,
    retired: &mut Vec<Rc<E>>,
)
    ensures
        final(retired)@.len() >= old(retired)@.len(),
        final(retired)@.subrange(0, old(retired)@.len() as int) == old(retired)@,
        retired_once(previous@, kept@, final(retired)@.subrange(old(retired)@.len() as int, final(retired)@.len() as int)),
        entries_accounted(previous@, kept@, final(retired)@.subrange(old(retired)@.len() as int, final(retired)@.len() as int)),
{
    let ghost base = retired@;
    let iter = previous.iter();
    let ghost all = iter.remaining();
    let ghost mut keys: Seq<u64> = Seq::empty();
    let ghost mut pos: Seq<int> = Seq::empty();
    proof {
        lemma_iter_keys(previous@, all);
        assert(retired@.subrange(base.len() as int, retired@.len() as int) =~= Seq::<Rc<E>>::empty());
    }
    for (k, v) in it: iter
        invariant
            it.seq() == all,
            all == spec_hash_map_iter(previous).remaining(),
            all.no_duplicates(),
            iter_keys(all).no_duplicates(),
            iter_keys(all).len() == all.len(),
            forall|i: int| 0 <= i < all.len() ==> previous@.contains_key(*#[trigger] all[i].0) && previous@[*all[i].0] == *all[i].1,
            forall|q: u64| #[trigger] previous@.contains_key(q) ==> all.contains((&q, &previous@[q])),
            retired@.len() >= base.len(),
            retired@.subrange(0, base.len() as int) == base,
            keys.len() == retired@.len() - base.len(),
            pos.len() == keys.len(),
            keys.no_duplicates(),
            forall|m: int| 0 <= m < keys.len() ==> 0 <= #[trigger] pos[m] < it.index() && keys[m] == iter_keys(all)[pos[m]],
            forall|m: int| 0 <= m < keys.len() ==> previous@.contains_key(#[trigger] keys[m])
                && previous@[keys[m]].1 == retired@[base.len() + m],
            forall|i: int| 0 <= i < it.index() ==> (kept@.contains_key(*#[trigger] all[i].0)
                && kept@[*all[i].0].1 == all[i].1.1) || keys.contains(*all[i].0),
    {
        let ghost before = retired@;
        let ghost idx = it.index();
        proof {
            assert(all[idx] == (k, v));
            assert(iter_keys(all)[idx] == *k);
        }
        let keep = match kept.get(k) {
            Some(survivor) => same_entry(&survivor.1, &v.1),
            None => false,
        };
        if !keep {
            retired.push(share_entry(&v.1));
            proof {
                let old_keys = keys;
                let old_pos = pos;
                keys = keys.push(*k);
                pos = pos.push(idx);
                assert forall|a: int, b: int| 0 <= a < b < keys.len() implies keys[a] != keys[b] by {
                    assert(keys[a] == old_keys[a] && pos[a] == old_pos[a]);
                    if b < old_keys.len() {
                        assert(keys[b] == old_keys[b]);
                    }
                }
                assert forall|m: int| 0 <= m < keys.len() implies 0 <= #[trigger] pos[m] < idx + 1 && keys[m] == iter_keys(all)[pos[m]] by {
                    if m < old_keys.len() {
                        assert(keys[m] == old_keys[m] && pos[m] == old_pos[m]);
                    }
                }
                assert forall|m: int| 0 <= m < keys.len() implies previous@.contains_key(#[trigger] keys[m])
                    && previous@[keys[m]].1 == retired@[base.len() + m] by {
                    if m < old_keys.len() {
                        assert(keys[m] == old_keys[m]);
                        assert(retired@[base.len() + m] == before[base.len() + m]);
                    }
                }
                assert forall|i: int| 0 <= i < idx + 1 implies (kept@.contains_key(*#[trigger] all[i].0)
                    && kept@[*all[i].0].1 == all[i].1.1) || keys.contains(*all[i].0) by {
                    if i < idx {
                        if old_keys.contains(*all[i].0) {
                            let m = choose|m: int| 0 <= m < old_keys.len() && old_keys[m] == *all[i].0;
                            assert(keys[m] == old_keys[m]);
                        }
                    } else {
                        assert(keys[old_keys.len() as int] == *k);
                    }
                }
                assert(retired@.subrange(0, base.len() as int) =~= base);
            }
        }
    }
    proof {
        let piece = retired@.subrange(base.len() as int, retired@.len() as int);
        assert forall|m: int| 0 <= m < keys.len() implies previous@.contains_key(#[trigger] keys[m]) && previous@[keys[m]].1 == piece[m] by {
            assert(piece[m] == retired@[base.len() + m]);
        }
        assert forall|q: u64| #[trigger] previous@.contains_key(q) && !keys.contains(q) implies kept@.contains_key(q)
            && kept@[q].1 == previous@[q].1 by {
            assert(all.contains((&q, &previous@[q])));
            let i = choose|i: int| 0 <= i < all.len() && all[i] == (&q, &previous@[q]);
            assert(*all[i].0 == q);
        }
        assert(retired_once(previous@, kept@, piece));
        lemma_retired_once_accounts(previous@, kept@, piece);
    }
}

impl<E, P> PreparedUserDataRestore<E, P> {
    /// Installs the prepared store, unless the store changed since the restore was prepared.
    ///
    /// Every entry of the old store is retired once unless the new store holds the same handle
    /// under the same key. Whether two handles share one allocation is decided by `Rc::ptr_eq`,
    /// which the contract sees only as equality of the entries: it states that an entry left out
    /// of the retired list is still held, equal, under its key, and that every entry no longer
    /// held equal is retired.
    pub fn commit(self, store: &mut UserDataStore<E>) -> (r: Result<CommittedUserDataRestore<E, P>>)
        ensures
            old(store).revision_spec() != self.base_revision_spec() ==> r == Err::<CommittedUserDataRestore<E, P>, Error>(
                Error::WorldBusy,
            ) && *final(store) == *old(store),
            old(store).revision_spec() == self.base_revision_spec() ==> r is Ok,
            r matches Ok(committed) ==> {
                let retired = committed.retired_spec().subrange(self.retired_spec().len() as int, committed.retired_spec().len() as int);
                &&& *final(store) == self.target_spec()
                &&& committed.attachments_spec() == self.attachments_spec()
                &&& committed.retired_spec().subrange(0, self.retired_spec().len() as int) == self.retired_spec()
                &&& (old(store).world_spec() matches Some(w) ==> (final(store).world_spec() == Some(w) || retired.contains(w)))
                &&& entries_accounted(old(store).bodies_spec(), final(store).bodies_spec(), retired)
                &&& entries_accounted(old(store).shapes_spec(), final(store).shapes_spec(), retired)
                &&& entries_accounted(old(store).joints_spec(), final(store).joints_spec(), retired)
                &&& forall|m: int| 0 <= m < retired.len() ==> store_holds(*old(store), #[trigger] retired[m])
                &&& replaced_retired_once(*old(store), *final(store), retired)
            },
    {
        if store.revision != self.base_revision {
            return Err(Error::WorldBusy);
        }
        let PreparedUserDataRestore { base_revision: _, mut target, attachments, mut retired, bounds: _ } = self;
        let ghost base = retired@;
        core::mem::swap(store, &mut target);
        let ghost before_world = retired@;
        if let Some(entry) = &target.world {
            let keep = match &store.world {
                Some(survivor) => same_entry(survivor, entry),
                None => false,
            };
            if !keep {
                retired.push(share_entry(entry));
            }
        }
        let ghost r0 = retired@;
        assert(forall|n: int| base.len() <= n < r0.len() ==> target.world == Some(#[trigger] r0[n]));
        retire_replaced(&target.bodies, &store.bodies, &mut retired);
        let ghost r1 = retired@;
        retire_replaced(&target.shapes, &store.shapes, &mut retired);
        let ghost r2 = retired@;
        retire_replaced(&target.joints, &store.joints, &mut retired);
        proof {
            let r3 = retired@;
            let all = r3.subrange(base.len() as int, r3.len() as int);
            assert(r3.subrange(0, base.len() as int) =~= base) by {
                assert(r3.subrange(0, r2.len() as int) == r2);
                assert(r2.subrange(0, r1.len() as int) == r1);
                assert(r1.subrange(0, r0.len() as int) == r0);
                assert(r0.subrange(0, base.len() as int) =~= base);
            }
            lemma_accounted_grows(target.bodies@, store.bodies@, r1.subrange(r0.len() as int, r1.len() as int), all, r0.len() - base.len());
            lemma_accounted_grows(target.shapes@, store.shapes@, r2.subrange(r1.len() as int, r2.len() as int), all, r1.len() - base.len());
            lemma_accounted_grows(target.joints@, store.joints@, r3.subrange(r2.len() as int, r3.len() as int), all, r2.len() - base.len());
            if let Some(w) = target.world {
                if store.world != Some(w) {
                    assert(r0.len() == base.len() + 1);
                    assert(all[0] == r0[base.len() as int]);
                    assert(all.contains(w));
                }
            }
            let a = r0.len() - base.len();
            let b = r1.len() - base.len();
            let c = r2.len() - base.len();
            assert(all.subrange(a, b) =~= r1.subrange(r0.len() as int, r1.len() as int)) by {
                assert(r2.subrange(0, r1.len() as int) == r1);
                assert(r3.subrange(0, r2.len() as int) == r2);
            }
            assert(all.subrange(b, c) =~= r2.subrange(r1.len() as int, r2.len() as int)) by {
                assert(r3.subrange(0, r2.len() as int) == r2);
            }
            assert(all.subrange(c, all.len() as int) =~= r3.subrange(r2.len() as int, r3.len() as int));
            assert(all.subrange(0, a) =~= r0.subrange(base.len() as int, r0.len() as int)) by {
                assert(r1.subrange(0, r0.len() as int) == r0);
                assert(r2.subrange(0, r1.len() as int) == r1);
                assert(r3.subrange(0, r2.len() as int) == r2);
            }
            assert(world_retired_once(target.world, store.world, all.subrange(0, a)));
            assert(retired_once(target.bodies@, store.bodies@, all.subrange(a, b)));
            assert(retired_once(target.shapes@, store.shapes@, all.subrange(b, c)));
            assert(retired_once(target.joints@, store.joints@, all.subrange(c, all.len() as int)));
            assert(0 <= a <= b <= c <= all.len());
            assert(replaced_retired_once(target, *store, all));
            assert forall|m: int| 0 <= m < all.len() implies store_holds(target, #[trigger] all[m]) by {
                let n = base.len() + m;
                assert(all[m] == r3[n]);
                if n < r2.len() {
                    assert(r3.subrange(0, r2.len() as int)[n] == r3[n]);
                }
                if n < r1.len() {
                    assert(r2.subrange(0, r1.len() as int)[n] == r2[n]);
                }
                if n < r0.len() {
                    assert(r1.subrange(0, r0.len() as int)[n] == r1[n]);
                    assert(target.world_spec() == Some(r0[n]));
                } else if n < r1.len() {
                    let piece = r1.subrange(r0.len() as int, r1.len() as int);
                    let x = n - r0.len();
                    assert(piece[x] == r1[n]);
                    let k = lemma_retired_once_key(target.bodies@, store.bodies@, piece, x);
                    assert(target.bodies_spec().contains_key(k));
                } else if n < r2.len() {
                    let piece = r2.subrange(r1.len() as int, r2.len() as int);
                    let x = n - r1.len();
                    assert(piece[x] == r2[n]);
                    let k = lemma_retired_once_key(target.shapes@, store.shapes@, piece, x);
                    assert(target.shapes_spec().contains_key(k));
                } else {
                    let piece = r3.subrange(r2.len() as int, r3.len() as int);
                    let x = n - r2.len();
                    assert(piece[x] == r3[n]);
                    let k = lemma_retired_once_key(target.joints@, store.joints@, piece, x);
                    assert(target.joints_spec().contains_key(k));
                }
            }
        }
        Ok(CommittedUserDataRestore { attachments, retired })
    }
}

/// Entries accounted for by a piece of the retired list are accounted for by the whole list.
proof fn lemma_accounted_grows<Id, E>(
    previous: Map<u64, (Id, Rc<E>)>,
    kept: Map<u64, (Id, Rc<E>)>,
    piece: Seq<Rc<E>>,
    whole: Seq<Rc<E>>,
    offset: int,
)
    requires
        entries_accounted(previous, kept, piece),
        0 <= offset,
        offset + piece.len() <= whole.len(),
        forall|m: int| 0 <= m < piece.len() ==> whole[offset + m] == #[trigger] piece[m],
    ensures
        entries_accounted(previous, kept, whole),
{
    assert forall|k: u64| #[trigger] previous.contains_key(k) implies (kept.contains_key(k) && kept[k].1 == previous[k].1)
        || whole.contains(previous[k].1) by {
        if !(kept.contains_key(k) && kept[k].1 == previous[k].1) {
            let m = choose|m: int| 0 <= m < piece.len() && piece[m] == previous[k].1;
            assert(whole[offset + m] == piece[m]);
        }
    }
}

impl<E, P> CommittedUserDataRestore<E, P> {
    /// The native pointers to install.
    pub closed spec fn attachments_spec(&self) -> Seq<UserDataAttachment<P>> {
        self.attachments@
    }

    /// The entries to dispose of, each behind its own panic boundary.
    pub closed spec fn retired_spec(&self) -> Seq<Rc<E>> {
        self.retired@
    }

    /// The native pointers to install.
    pub fn attachments(&self) -> (a: &Vec<UserDataAttachment<P>>)
        ensures
            a@ == self.attachments_spec(),
    {
        &self.attachments
    }

    /// The attachments and the retired entries.
    pub fn into_parts(self) -> (parts: (Vec<UserDataAttachment<P>>, Vec<Rc<E>>))
        ensures
            parts.0@ == self.attachments_spec(),
            parts.1@ == self.retired_spec(),
    {
        (self.attachments, self.retired)
    }
}

/// Every listed pair names an entry of `entries` whose value carries the listed version.
pub open spec fn listed_justified<Id, E, F: Fn(&E) -> Result<Option<UserDataVersion>>>(
    entries: Map<u64, (Id, Rc<E>)>,
    probe: F,
    listed: Seq<(Id, UserDataVersion)>,
) -> bool {
    forall|m: int| 0 <= m < listed.len() ==> exists|k: u64| #[trigger] entries.contains_key(k)
        && entries[k].0 == (#[trigger] listed[m]).0 && probe.ensures((&*entries[k].1,), Ok(Some(listed[m].1)))
}

/// A snapshot list justified by the entries of `entries`: every listed pair names an entry whose
/// value carries the listed version, and every entry is listed or has no value.
pub open spec fn versions_listed<Id, E, F: Fn(&E) -> Result<Option<UserDataVersion>>>(
    entries: Map<u64, (Id, Rc<E>)>,
    probe: F,
    listed: Seq<(Id, UserDataVersion)>,
) -> bool {
    &&& listed_justified(entries, probe, listed)
    &&& forall|k: u64| #[trigger] entries.contains_key(k) ==> (exists|m: int| 0 <= m < listed.len()
        && (#[trigger] listed[m]).0 == entries[k].0) || probe.ensures((&*entries[k].1,), Ok(None))
}

/// Reading some entry of `entries` fails with `e`.
pub open spec fn some_entry_fails<Id, E, F: Fn(&E) -> Result<Option<UserDataVersion>>>(
    entries: Map<u64, (Id, Rc<E>)>,
    probe: F,
    e: Error,
) -> bool {
    exists|k: u64| #[trigger] entries.contains_key(k) && probe.ensures((&*entries[k].1,), Err(e))
}

/// Lists the versions of the values present in `entries`.
fn snapshot_entries<Id: Copy, E, F: Fn(&E) -> Result<Option<UserDataVersion>>>(
    entries: &HashMap<u64, (Id, Rc<E>)>,
    probe: &F,
) -> (r: Result<Vec<(Id, UserDataVersion)>>)
    requires
        forall|e: &E| #[trigger] probe.requires((e,)),
    ensures
        r matches Ok(listed) ==> versions_listed(entries@, *probe, listed@),
        r matches Ok(listed) ==> exists|keys: Seq<u64>| #[trigger] keys.len() == listed@.len() && keys.no_duplicates()
            && forall|m: int| 0 <= m < keys.len() ==> entries@.contains_key(#[trigger] keys[m]) && entries@[keys[m]].0 == listed@[m].0,
        r matches Err(e) ==> e == Error::SnapshotAllocationFailed || some_entry_fails(entries@, *probe, e),
{
    let mut listed: Vec<(Id, UserDataVersion)> = Vec::new();
    if !try_reserve_exact_vec(&mut listed, entries.len()) {
        return Err(Error::SnapshotAllocationFailed);
    }
    let iter = entries.iter();
    let ghost all = iter.remaining();
    let ghost mut keys: Seq<u64> = Seq::empty();
    let ghost mut pos: Seq<int> = Seq::empty();
    proof {
        lemma_iter_keys(entries@, all);
    }
    for (k, v) in it: iter
        invariant
            forall|e: &E| #[trigger] probe.requires((e,)),
            it.seq() == all,
            all == spec_hash_map_iter(entries).remaining(),
            all.no_duplicates(),
            iter_keys(all).no_duplicates(),
            iter_keys(all).len() == all.len(),
            forall|i: int| 0 <= i < all.len() ==> entries@.contains_key(*#[trigger] all[i].0) && entries@[*all[i].0] == *all[i].1,
            forall|q: u64| #[trigger] entries@.contains_key(q) ==> all.contains((&q, &entries@[q])),
            keys.len() == listed@.len(),
            keys.no_duplicates(),
            pos.len() == keys.len(),
            forall|m: int| 0 <= m < keys.len() ==> 0 <= #[trigger] pos[m] < it.index() && keys[m] == iter_keys(all)[pos[m]],
            forall|m: int| 0 <= m < keys.len() ==> entries@.contains_key(#[trigger] keys[m]) && entries@[keys[m]].0 == listed@[m].0,
            listed_justified(entries@, *probe, listed@),
            forall|i: int| 0 <= i < it.index() ==> (exists|m: int| 0 <= m < listed@.len()
                && (#[trigger] listed@[m]).0 == (#[trigger] all[i]).1.0) || (*probe).ensures((&*all[i].1.1,), Ok(None)),
    {
        let ghost before = listed@;
        proof {
            assert(all[it.index()] == (k, v));
        }
        match probe(&*v.1) {
            Ok(Some(version)) => {
                listed.push((v.0, version));
                proof {
                    let idx = it.index();
                    assert(iter_keys(all)[idx] == *k);
                    let old_keys = keys;
                    let old_pos = pos;
                    keys = keys.push(*k);
                    pos = pos.push(idx);
                    assert forall|a: int, b: int| 0 <= a < b < keys.len() implies keys[a] != keys[b] by {
                        assert(keys[a] == old_keys[a] && pos[a] == old_pos[a]);
                        if b < old_keys.len() {
                            assert(keys[b] == old_keys[b]);
                        }
                    }
                    assert forall|n: int| 0 <= n < keys.len() implies 0 <= #[trigger] pos[n] < idx + 1 && keys[n] == iter_keys(all)[pos[n]] by {
                        if n < old_keys.len() {
                            assert(keys[n] == old_keys[n] && pos[n] == old_pos[n]);
                        }
                    }
                    assert forall|n: int| 0 <= n < keys.len() implies entries@.contains_key(#[trigger] keys[n]) && entries@[keys[n]].0 == listed@[n].0 by {
                        if n < old_keys.len() {
                            assert(keys[n] == old_keys[n]);
                            assert(listed@[n] == before[n]);
                        } else {
                            assert(entries@.contains_key(*k));
                        }
                    }
                    let m = before.len() as int;
                    assert(listed@[m] == (v.0, version));
                    assert(entries@.contains_key(*k));
                    assert forall|n: int| 0 <= n < listed@.len() implies exists|q: u64| #[trigger] entries@.contains_key(q)
                        && entries@[q].0 == (#[trigger] listed@[n]).0 && (*probe).ensures((&*entries@[q].1,), Ok(Some(listed@[n].1))) by {
                        assert(listed_justified(entries@, *probe, before));
                        if n < m {
                            assert(listed@[n] == before[n]);
                        } else {
                            assert(entries@[*k].0 == listed@[n].0);
                        }
                    }
                    assert forall|i: int| 0 <= i < it.index() + 1 implies (exists|n: int| 0 <= n < listed@.len()
                        && (#[trigger] listed@[n]).0 == (#[trigger] all[i]).1.0) || (*probe).ensures((&*all[i].1.1,), Ok(None)) by {
                        if i < it.index() {
                            if !(*probe).ensures((&*all[i].1.1,), Ok(None)) {
                                let n = choose|n: int| 0 <= n < before.len() && (#[trigger] before[n]).0 == all[i].1.0;
                                assert(listed@[n] == before[n]);
                            }
                        } else {
                            assert(listed@[m].0 == all[i].1.0);
                        }
                    }
                }
            },
            Ok(None) => {},
            Err(error) => {
                proof {
                    assert(entries@.contains_key(*k));
                }
                return Err(error);
            },
        }
    }
    proof {
        assert(keys.len() == listed@.len());
        assert forall|q: u64| #[trigger] entries@.contains_key(q) implies (exists|m: int| 0 <= m < listed@.len()
            && (#[trigger] listed@[m]).0 == entries@[q].0) || (*probe).ensures((&*entries@[q].1,), Ok(None)) by {
            assert(all.contains((&q, &entries@[q])));
            let i = choose|i: int| 0 <= i < all.len() && all[i] == (&q, &entries@[q]);
            assert(all[i].1.0 == entries@[q].0);
        }

    }
    Ok(listed)
}

impl<E> UserDataStore<E> {
    /// Lists the versions of every present user value, for a snapshot.
    ///
    /// `version_if_present` answers, for one entry, the version of its value if it holds one, or an
    /// error if the entry cannot be read.
    pub fn snapshot_manifest<F: Fn(&E) -> Result<Option<UserDataVersion>>>(&self, version_if_present: F) -> (r: Result<
        UserDataManifest,
    >)
        requires
            forall|e: &E| #[trigger] version_if_present.requires((e,)),
        ensures
            r matches Ok(m) ==> {
                &&& match self.world_spec() {
                    Some(e) => version_if_present.ensures((&*e,), Ok(m.world)),
                    None => m.world is None,
                }
                &&& versions_listed(self.bodies_spec(), version_if_present, m.bodies@)
                &&& versions_listed(self.shapes_spec(), version_if_present, m.shapes@)
                &&& versions_listed(self.joints_spec(), version_if_present, m.joints@)
                &&& self.keyed() ==> body_codes_distinct(m.bodies@) && shape_codes_distinct(m.shapes@)
                    && joint_codes_distinct(m.joints@)
            },
            r matches Err(e) ==> e == Error::SnapshotAllocationFailed
                || (self.world_spec() matches Some(we) && version_if_present.ensures((&*we,), Err(e)))
                || some_entry_fails(self.bodies_spec(), version_if_present, e)
                || some_entry_fails(self.shapes_spec(), version_if_present, e)
                || some_entry_fails(self.joints_spec(), version_if_present, e),
    {
        let world = match &self.world {
            Some(entry) => match version_if_present(&**entry) {
                Ok(version) => version,
                Err(error) => return Err(error),
            },
            None => None,
        };
        let bodies = match snapshot_entries(&self.bodies, &version_if_present) {
            Ok(listed) => listed,
            Err(error) => return Err(error),
        };
        let shapes = match snapshot_entries(&self.shapes, &version_if_present) {
            Ok(listed) => listed,
            Err(error) => return Err(error),
        };
        let joints = match snapshot_entries(&self.joints, &version_if_present) {
            Ok(listed) => listed,
            Err(error) => return Err(error),
        };
        proof {
            if self.keyed() {
                let kb = choose|keys: Seq<u64>| #[trigger] keys.len() == bodies@.len() && keys.no_duplicates()
                    && forall|m: int| 0 <= m < keys.len() ==> self.bodies@.contains_key(#[trigger] keys[m])
                    && self.bodies@[keys[m]].0 == bodies@[m].0;
                assert forall|a: int, b: int| 0 <= a < b < bodies@.len() implies body_code(#[trigger] bodies@[a].0)
                    != body_code(#[trigger] bodies@[b].0) by {
                    assert(self.bodies_spec().contains_key(kb[a]) && self.bodies_spec().contains_key(kb[b]));
                }
                let ks = choose|keys: Seq<u64>| #[trigger] keys.len() == shapes@.len() && keys.no_duplicates()
                    && forall|m: int| 0 <= m < keys.len() ==> self.shapes@.contains_key(#[trigger] keys[m])
                    && self.shapes@[keys[m]].0 == shapes@[m].0;
                assert forall|a: int, b: int| 0 <= a < b < shapes@.len() implies shape_code(#[trigger] shapes@[a].0)
                    != shape_code(#[trigger] shapes@[b].0) by {
                    assert(self.shapes_spec().contains_key(ks[a]) && self.shapes_spec().contains_key(ks[b]));
                }
                let kj = choose|keys: Seq<u64>| #[trigger] keys.len() == joints@.len() && keys.no_duplicates()
                    && forall|m: int| 0 <= m < keys.len() ==> self.joints@.contains_key(#[trigger] keys[m])
                    && self.joints@[keys[m]].0 == joints@[m].0;
                assert forall|a: int, b: int| 0 <= a < b < joints@.len() implies joint_code(#[trigger] joints@[a].0)
                    != joint_code(#[trigger] joints@[b].0) by {
                    assert(self.joints_spec().contains_key(kj[a]) && self.joints_spec().contains_key(kj[b]));
                }
            }
        }
        Ok(UserDataManifest { world, bodies, shapes, joints })
    }
}

impl<E> UserDataStore<E> {
    /// Removes every entry and hands them all back, so that each value can be disposed of behind
    /// its own panic boundary.
    pub fn drain_entries(&mut self) -> (entries: Vec<Rc<E>>)
        ensures
            final(self).world_spec() is None,
            final(self).bodies_spec() == Map::<u64, (BodyId, Rc<E>)>::empty(),
            final(self).shapes_spec() == Map::<u64, (ShapeId, Rc<E>)>::empty(),
            final(self).joints_spec() == Map::<u64, (JointId, Rc<E>)>::empty(),
            final(self).last_version_spec() == old(self).last_version_spec(),
            final(self).revision_spec() == old(self).revision_spec(),
            old(self).world_spec() matches Some(w) ==> entries@.contains(w),
            entries_accounted(old(self).bodies_spec(), Map::empty(), entries@),
            entries_accounted(old(self).shapes_spec(), Map::empty(), entries@),
            entries_accounted(old(self).joints_spec(), Map::empty(), entries@),
    {
        let mut entries: Vec<Rc<E>> = Vec::new();
        if let Some(world) = self.world.take() {
            entries.push(world);
        }
        let ghost r0 = entries@;
        let none_bodies: HashMap<u64, (BodyId, Rc<E>)> = HashMap::new();
        retire_replaced(&self.bodies, &none_bodies, &mut entries);
        let ghost r1 = entries@;
        let none_shapes: HashMap<u64, (ShapeId, Rc<E>)> = HashMap::new();
        retire_replaced(&self.shapes, &none_shapes, &mut entries);
        let ghost r2 = entries@;
        let none_joints: HashMap<u64, (JointId, Rc<E>)> = HashMap::new();
        retire_replaced(&self.joints, &none_joints, &mut entries);
        proof {
            let r3 = entries@;
            assert(r3.subrange(0, r2.len() as int) == r2);
            assert(r2.subrange(0, r1.len() as int) == r1);
            assert(r1.subrange(0, r0.len() as int) == r0);
            lemma_accounted_grows(old(self).bodies@, none_bodies@, r1.subrange(r0.len() as int, r1.len() as int), r3, r0.len() as int);
            lemma_accounted_grows(old(self).shapes@, none_shapes@, r2.subrange(r1.len() as int, r2.len() as int), r3, r1.len() as int);
            lemma_accounted_grows(old(self).joints@, none_joints@, r3.subrange(r2.len() as int, r3.len() as int), r3, r2.len() as int);
            assert(none_bodies@ =~= Map::empty());
            assert(none_shapes@ =~= Map::empty());
            assert(none_joints@ =~= Map::empty());
            if let Some(w) = old(self).world {
                assert(r0[0] == w);
                assert(r3[0] == r0[0]);
                assert(r3.contains(w));
            }
        }
        self.bodies.clear();
        self.shapes.clear();
        self.joints.clear();
        entries
    }
}

impl<E> UserDataStore<E> {
    /// Attaches the world's entry, handing back the previous one.
    pub fn set_world(&mut self, entry: Option<Rc<E>>) -> (previous: Option<Rc<E>>)
        ensures
            previous == old(self).world_spec(),
            final(self).world_spec() == entry,
            final(self).bodies_spec() == old(self).bodies_spec(),
            final(self).shapes_spec() == old(self).shapes_spec(),
            final(self).joints_spec() == old(self).joints_spec(),
            final(self).last_version_spec() == old(self).last_version_spec(),
            final(self).revision_spec() == old(self).revision_spec(),
    {
        let previous = self.world.take();
        self.world = entry;
        previous
    }

    /// Attaches the entry of a body, handing back the entry previously stored under its key.
    pub fn insert_body(&mut self, id: BodyId, entry: Rc<E>) -> (previous: Option<(BodyId, Rc<E>)>)
        ensures
            final(self).bodies_spec() == old(self).bodies_spec().insert(body_code(id), (id, entry)),
            previous == (if old(self).bodies_spec().contains_key(body_code(id)) {
                Some(old(self).bodies_spec()[body_code(id)])
            } else {
                None
            }),
            final(self).world_spec() == old(self).world_spec(),
            final(self).shapes_spec() == old(self).shapes_spec(),
            final(self).joints_spec() == old(self).joints_spec(),
            final(self).last_version_spec() == old(self).last_version_spec(),
            final(self).revision_spec() == old(self).revision_spec(),
    {
        let code = id.into_raw().key().code();
        self.bodies.insert(code, (id, entry))
    }

    /// Detaches the entry of exactly this body id.
    pub fn remove_body(&mut self, id: BodyId) -> (removed: Option<Rc<E>>)
        ensures
            holds_body(old(self).bodies_spec(), id) ==> removed == Some(old(self).bodies_spec()[body_code(id)].1)
                && final(self).bodies_spec() == old(self).bodies_spec().remove(body_code(id)),
            !holds_body(old(self).bodies_spec(), id) ==> removed is None && final(self).bodies_spec() == old(self).bodies_spec(),
            final(self).world_spec() == old(self).world_spec(),
            final(self).shapes_spec() == old(self).shapes_spec(),
            final(self).joints_spec() == old(self).joints_spec(),
            final(self).last_version_spec() == old(self).last_version_spec(),
            final(self).revision_spec() == old(self).revision_spec(),
    {
        let code = id.into_raw().key().code();
        let matches = match self.bodies.get(&code) {
            Some(entry) => entry.0 == id,
            None => false,
        };
        if matches {
            match self.bodies.remove(&code) {
                Some(entry) => Some(entry.1),
                None => None,
            }
        } else {
            None
        }
    }

    /// Attaches the entry of a shape, handing back the entry previously stored under its key.
    pub fn insert_shape(&mut self, id: ShapeId, entry: Rc<E>) -> (previous: Option<(ShapeId, Rc<E>)>)
        ensures
            final(self).shapes_spec() == old(self).shapes_spec().insert(shape_code(id), (id, entry)),
            previous == (if old(self).shapes_spec().contains_key(shape_code(id)) {
                Some(old(self).shapes_spec()[shape_code(id)])
            } else {
                None
            }),
            final(self).world_spec() == old(self).world_spec(),
            final(self).bodies_spec() == old(self).bodies_spec(),
            final(self).joints_spec() == old(self).joints_spec(),
            final(self).last_version_spec() == old(self).last_version_spec(),
            final(self).revision_spec() == old(self).revision_spec(),
    {
        let code = id.into_raw().key().code();
        self.shapes.insert(code, (id, entry))
    }

    /// Detaches the entry of exactly this shape id.
    pub fn remove_shape(&mut self, id: ShapeId) -> (removed: Option<Rc<E>>)
        ensures
            holds_shape(old(self).shapes_spec(), id) ==> removed == Some(old(self).shapes_spec()[shape_code(id)].1)
                && final(self).shapes_spec() == old(self).shapes_spec().remove(shape_code(id)),
            !holds_shape(old(self).shapes_spec(), id) ==> removed is None && final(self).shapes_spec() == old(self).shapes_spec(),
            final(self).world_spec() == old(self).world_spec(),
            final(self).bodies_spec() == old(self).bodies_spec(),
            final(self).joints_spec() == old(self).joints_spec(),
            final(self).last_version_spec() == old(self).last_version_spec(),
            final(self).revision_spec() == old(self).revision_spec(),
    {
        let code = id.into_raw().key().code();
        let matches = match self.shapes.get(&code) {
            Some(entry) => entry.0 == id,
            None => false,
        };
        if matches {
            match self.shapes.remove(&code) {
                Some(entry) => Some(entry.1),
                None => None,
            }
        } else {
            None
        }
    }

    /// Attaches the entry of a joint, handing back the entry previously stored under its key.
    pub fn insert_joint(&mut self, id: JointId, entry: Rc<E>) -> (previous: Option<(JointId, Rc<E>)>)
        ensures
            final(self).joints_spec() == old(self).joints_spec().insert(joint_code(id), (id, entry)),
            previous == (if old(self).joints_spec().contains_key(joint_code(id)) {
                Some(old(self).joints_spec()[joint_code(id)])
            } else {
                None
            }),
            final(self).world_spec() == old(self).world_spec(),
            final(self).bodies_spec() == old(self).bodies_spec(),
            final(self).shapes_spec() == old(self).shapes_spec(),
            final(self).last_version_spec() == old(self).last_version_spec(),
            final(self).revision_spec() == old(self).revision_spec(),
    {
        let code = id.into_raw().key().code();
        self.joints.insert(code, (id, entry))
    }

    /// Detaches the entry of exactly this joint id.
    pub fn remove_joint(&mut self, id: JointId) -> (removed: Option<Rc<E>>)
        ensures
            holds_joint(old(self).joints_spec(), id) ==> removed == Some(old(self).joints_spec()[joint_code(id)].1)
                && final(self).joints_spec() == old(self).joints_spec().remove(joint_code(id)),
            !holds_joint(old(self).joints_spec(), id) ==> removed is None && final(self).joints_spec() == old(self).joints_spec(),
            final(self).world_spec() == old(self).world_spec(),
            final(self).bodies_spec() == old(self).bodies_spec(),
            final(self).shapes_spec() == old(self).shapes_spec(),
            final(self).last_version_spec() == old(self).last_version_spec(),
            final(self).revision_spec() == old(self).revision_spec(),
    {
        let code = id.into_raw().key().code();
        let matches = match self.joints.get(&code) {
            Some(entry) => entry.0 == id,
            None => false,
        };
        if matches {
            match self.joints.remove(&code) {
                Some(entry) => Some(entry.1),
                None => None,
            }
        } else {
            None
        }
    }
}

} // verus!
