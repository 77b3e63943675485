//! Cross-checking a host identity manifest against the entry table of a validated native
//! world snapshot.
//!
//! A native snapshot lists one entry per object slot. The check proves that the manifest names
//! exactly the live bodies, shapes, joints and chains of the snapshot, with the same native keys,
//! owners, joint kinds and chain segment order.

use std::collections::{HashMap, HashSet};

use vstd::prelude::*;

use crate::error::{Error, JointType, Result};
use crate::identity::{
    codes_valid, BodyRegistration, ChainRegistration, IdentityManifest, JointRegistration, ShapeRegistration,
};
use crate::ids::RawKey;
use crate::reserve::try_reserve_map;
use crate::tables::{iter_keys, lemma_filter_count_as_set, lemma_iter_keys};
use vstd::std_specs::hash::spec_hash_map_iter;
use vstd::std_specs::iter::IteratorSpec;

verus! {

broadcast use vstd::std_specs::hash::group_hash_axioms;

/// Entry layout version this check understands.
pub const SNAPSHOT_ENTRY_VERSION: u32 = 1;
/// Entry kind of a body slot.
pub const SNAPSHOT_ENTRY_BODY: u32 = 1;
/// Entry kind of a shape slot.
pub const SNAPSHOT_ENTRY_SHAPE: u32 = 2;
/// Entry kind of a chain slot.
pub const SNAPSHOT_ENTRY_CHAIN: u32 = 3;
/// Entry kind of a joint slot.
pub const SNAPSHOT_ENTRY_JOINT: u32 = 5;
/// Flag of an entry whose slot holds a live object.
pub const SNAPSHOT_ENTRY_LIVE: u32 = 1;

/// The fields of one native snapshot entry that the identity check reads.
#[derive(Copy, Clone, Debug, PartialEq, Eq, Structural)]
pub struct SnapshotEntry {
    pub struct_size: u32,
    pub version: u32,
    pub kind: u32,
    pub flags: u32,
    pub index: i32,
    pub owner_a: i32,
    pub owner_b: i32,
    pub generation: u32,
    pub subtype: u32,
    pub owner_b_order: i32,
}

/// Whether `e` describes a live object.
pub open spec fn is_live(e: SnapshotEntry) -> bool {
    e.flags % 2 == 1
}

/// The table key of slot `index` of kind `kind`, for a non-negative index.
pub open spec fn slot_code(kind: u32, index: i32) -> u64 {
    (kind as int * 0x1_0000_0000 + index as int) as u64
}

/// Every entry has the expected size and version and a non-negative index, and no two entries
/// describe the same slot.
pub open spec fn entries_well_formed(entries: Seq<SnapshotEntry>, entry_size: usize) -> bool {
    &&& forall|i: int| 0 <= i < entries.len() ==> {
        &&& (#[trigger] entries[i]).struct_size as int == entry_size as int
        &&& entries[i].version == SNAPSHOT_ENTRY_VERSION
        &&& entries[i].index >= 0
    }
    &&& forall|i: int, j: int| 0 <= i < j < entries.len() ==> !(#[trigger] entries[i].kind == #[trigger] entries[j].kind
        && entries[i].index == entries[j].index)
}

/// Whether some entry describes slot `index` of kind `kind`.
pub open spec fn has_entry(entries: Seq<SnapshotEntry>, kind: u32, index: i32) -> bool {
    exists|i: int| 0 <= i < entries.len() && #[trigger] entries[i].kind == kind && entries[i].index == index
}

/// The entry describing slot `index` of kind `kind`, if any.
pub open spec fn entry_for(entries: Seq<SnapshotEntry>, kind: u32, index: i32) -> Option<SnapshotEntry> {
    if has_entry(entries, kind, index) {
        Some(entries[choose|i: int| 0 <= i < entries.len() && #[trigger] entries[i].kind == kind && entries[i].index == index])
    } else {
        None
    }
}

/// The native key an entry's slot and generation make up.
pub open spec fn snapshot_key(e: SnapshotEntry) -> Option<RawKey> {
    if e.index < i32::MAX && e.generation <= u16::MAX && e.index + 1 > 0 {
        Some(RawKey { index1: (e.index + 1) as i32, generation: e.generation as u16 })
    } else {
        None
    }
}

/// The key of the live object in slot `index` of kind `kind`.
pub open spec fn key_for_slot(entries: Seq<SnapshotEntry>, kind: u32, index: i32) -> Option<RawKey> {
    match entry_for(entries, kind, index) {
        Some(e) => if is_live(e) {
            snapshot_key(e)
        } else {
            None
        },
        None => None,
    }
}

/// The entry of the live object of kind `kind` whose native key is `key`.
pub open spec fn require_key(entries: Seq<SnapshotEntry>, kind: u32, key: RawKey) -> Option<SnapshotEntry> {
    if key.index1 == i32::MIN {
        None
    } else {
        match entry_for(entries, kind, (key.index1 - 1) as i32) {
            Some(e) => if is_live(e) && snapshot_key(e) == Some(key) {
                Some(e)
            } else {
                None
            },
            None => None,
        }
    }
}

/// The predicate "live entry of kind `kind`".
pub open spec fn live_of_kind(kind: u32) -> spec_fn(SnapshotEntry) -> bool {
    |e: SnapshotEntry| is_live(e) && e.kind == kind
}

/// The number of live entries of kind `kind`.
pub open spec fn live_count(entries: Seq<SnapshotEntry>, kind: u32) -> nat {
    entries.filter(live_of_kind(kind)).len()
}

/// Slot lookup for a well-formed entry table.
pub struct NativeIdentityEntries {
    by_slot: HashMap<u64, usize>,
    live_bodies: usize,
    live_shapes: usize,
    live_joints: usize,
    live_chains: usize,
}

impl NativeIdentityEntries {
    /// Whether this lookup indexes `entries`.
    pub closed spec fn indexes(&self, entries: Seq<SnapshotEntry>) -> bool {
        &&& forall|i: int| 0 <= i < entries.len() ==> (#[trigger] entries[i]).index >= 0
        &&& forall|i: int, j: int| 0 <= i < j < entries.len() ==> !(#[trigger] entries[i].kind == #[trigger] entries[j].kind
            && entries[i].index == entries[j].index)
        &&& forall|kind: u32, index: i32| index >= 0 ==> (#[trigger] self.by_slot@.contains_key(slot_code(kind, index))
            <==> has_entry(entries, kind, index))
        &&& forall|kind: u32, index: i32| index >= 0 && #[trigger] self.by_slot@.contains_key(slot_code(kind, index))
            ==> {
            let i = self.by_slot@[slot_code(kind, index)] as int;
            0 <= i < entries.len() && entries[i].kind == kind && entries[i].index == index
        }
        &&& self.live_bodies == live_count(entries, SNAPSHOT_ENTRY_BODY)
        &&& self.live_shapes == live_count(entries, SNAPSHOT_ENTRY_SHAPE)
        &&& self.live_joints == live_count(entries, SNAPSHOT_ENTRY_JOINT)
        &&& self.live_chains == live_count(entries, SNAPSHOT_ENTRY_CHAIN)
    }

    /// Index `entries`, rejecting a table that is not well formed.
    pub fn new(entries: &Vec<SnapshotEntry>, entry_size: usize) -> (r: Result<NativeIdentityEntries>)
        ensures
            r matches Ok(n) ==> entries_well_formed(entries@, entry_size) && n.indexes(entries@),
            r matches Err(e) ==> e == Error::SnapshotAllocationFailed || (e == Error::SnapshotManifestMismatch
                && !entries_well_formed(entries@, entry_size)),
            entries_well_formed(entries@, entry_size) ==> r is Ok || r == Err::<NativeIdentityEntries, Error>(
                Error::SnapshotAllocationFailed,
            ),
    {
        let mut by_slot: HashMap<u64, usize> = HashMap::new();
        if !try_reserve_map(&mut by_slot, entries.len()) {
            return Err(Error::SnapshotAllocationFailed);
        }
        let mut live_bodies: usize = 0;
        let mut live_shapes: usize = 0;
        let mut live_joints: usize = 0;
        let mut live_chains: usize = 0;
        let mut i: usize = 0;
        while i < entries.len()
            invariant
                i <= entries@.len(),
                entries_well_formed(entries@.take(i as int), entry_size),
                forall|kind: u32, index: i32| index >= 0 ==> (#[trigger] by_slot@.contains_key(slot_code(kind, index))
                    <==> has_entry(entries@.take(i as int), kind, index)),
                forall|kind: u32, index: i32| index >= 0 && #[trigger] by_slot@.contains_key(slot_code(kind, index))
                    ==> {
                    let j = by_slot@[slot_code(kind, index)] as int;
                    0 <= j < i && entries@[j].kind == kind && entries@[j].index == index
                },
                live_bodies == live_count(entries@.take(i as int), SNAPSHOT_ENTRY_BODY),
                live_shapes == live_count(entries@.take(i as int), SNAPSHOT_ENTRY_SHAPE),
                live_joints == live_count(entries@.take(i as int), SNAPSHOT_ENTRY_JOINT),
                live_chains == live_count(entries@.take(i as int), SNAPSHOT_ENTRY_CHAIN),
                live_bodies <= i && live_shapes <= i && live_joints <= i && live_chains <= i,
            decreases entries@.len() - i,
        {
            let e = entries[i];
            proof {
                assert(entries@.take(i + 1) =~= entries@.take(i as int).push(e));
                entries@.take(i as int).lemma_filter_push(e, live_of_kind(SNAPSHOT_ENTRY_BODY));
                entries@.take(i as int).lemma_filter_push(e, live_of_kind(SNAPSHOT_ENTRY_SHAPE));
                entries@.take(i as int).lemma_filter_push(e, live_of_kind(SNAPSHOT_ENTRY_JOINT));
                entries@.take(i as int).lemma_filter_push(e, live_of_kind(SNAPSHOT_ENTRY_CHAIN));
            }
            if e.struct_size as usize != entry_size || e.version != SNAPSHOT_ENTRY_VERSION || e.index < 0 {
                proof {
                    assert(entries@[i as int] == e);
                }
                return Err(Error::SnapshotManifestMismatch);
            }
            let code = e.kind as u64 * 0x1_0000_0000u64 + e.index as u64;
            assert(code == slot_code(e.kind, e.index));
            if by_slot.contains_key(&code) {
                proof {
                    lemma_slot_code_injective();
                    let j = by_slot@[code] as int;
                    assert(entries@[j].kind == e.kind && entries@[j].index == e.index);
                    assert(entries@[i as int] == e);
                }
                return Err(Error::SnapshotManifestMismatch);
            }
            by_slot.insert(code, i);
            if e.flags & SNAPSHOT_ENTRY_LIVE != 0 {
                proof {
                    lemma_live_bit(e.flags);
                }
                if e.kind == SNAPSHOT_ENTRY_BODY {
                    live_bodies = live_bodies + 1;
                } else if e.kind == SNAPSHOT_ENTRY_SHAPE {
                    live_shapes = live_shapes + 1;
                } else if e.kind == SNAPSHOT_ENTRY_JOINT {
                    live_joints = live_joints + 1;
                } else if e.kind == SNAPSHOT_ENTRY_CHAIN {
                    live_chains = live_chains + 1;
                }
            } else {
                proof {
                    lemma_live_bit(e.flags);
                }
            }
            proof {
                lemma_slot_code_injective();
                let t = entries@.take(i + 1);
                assert forall|kind: u32, index: i32| index >= 0 implies (#[trigger] by_slot@.contains_key(slot_code(kind, index))
                    <==> has_entry(t, kind, index)) by {
                    if has_entry(t, kind, index) {
                        let j = choose|j: int| 0 <= j < t.len() && #[trigger] t[j].kind == kind && t[j].index == index;
                        if j < i {
                            assert(entries@.take(i as int)[j] == t[j]);
                        }
                    }
                    if has_entry(entries@.take(i as int), kind, index) {
                        let j = choose|j: int| 0 <= j < i && #[trigger] entries@.take(i as int)[j].kind == kind
                            && entries@.take(i as int)[j].index == index;
                        assert(t[j] == entries@.take(i as int)[j]);
                    }
                    if kind == e.kind && index == e.index {
                        assert(t[i as int] == e);
                    }
                }
                assert forall|a: int, b: int| 0 <= a < b < t.len() implies !(#[trigger] t[a].kind == #[trigger] t[b].kind
                    && t[a].index == t[b].index) by {
                    if b == i && t[a].kind == t[b].kind && t[a].index == t[b].index {
                        assert(entries@.take(i as int)[a] == t[a]);
                        assert(has_entry(entries@.take(i as int), e.kind, e.index));
                    } else if b < i {
                        assert(entries@.take(i as int)[a] == t[a] && entries@.take(i as int)[b] == t[b]);
                    }
                }
                assert forall|a: int| 0 <= a < t.len() implies {
                    &&& (#[trigger] t[a]).struct_size as int == entry_size as int
                    &&& t[a].version == SNAPSHOT_ENTRY_VERSION
                    &&& t[a].index >= 0
                } by {
                    if a < i {
                        assert(entries@.take(i as int)[a] == t[a]);
                    }
                }
            }
            i = i + 1;
        }
        proof {
            assert(entries@.take(entries@.len() as int) =~= entries@);
        }
        Ok(NativeIdentityEntries { by_slot, live_bodies, live_shapes, live_joints, live_chains })
    }
}

impl NativeIdentityEntries {
    /// The entry describing slot `index` of kind `kind`.
    fn entry_at(&self, entries: &Vec<SnapshotEntry>, kind: u32, index: i32) -> (r: Option<SnapshotEntry>)
        requires
            self.indexes(entries@),
        ensures
            r == entry_for(entries@, kind, index),
    {
        if index < 0 {
            proof {
                if has_entry(entries@, kind, index) {
                    let i = choose|i: int| 0 <= i < entries@.len() && #[trigger] entries@[i].kind == kind && entries@[i].index == index;
                    assert(entries@[i].index >= 0);
                }
            }
            return None;
        }
        let code = kind as u64 * 0x1_0000_0000u64 + index as u64;
        assert(code == slot_code(kind, index));
        match self.by_slot.get(&code) {
            Some(i) => {
                let i = *i;
                proof {
                    let w = choose|w: int| 0 <= w < entries@.len() && #[trigger] entries@[w].kind == kind && entries@[w].index == index;
                    if w != i as int {
                        if w < i as int {
                            assert(!(entries@[w].kind == entries@[i as int].kind && entries@[w].index == entries@[i as int].index));
                        } else {
                            assert(!(entries@[i as int].kind == entries@[w].kind && entries@[i as int].index == entries@[w].index));
                        }
                    }
                }
                Some(entries[i])
            },
            None => None,
        }
    }

    /// The native key of the live object in slot `index` of kind `kind`.
    fn key_for_slot(&self, entries: &Vec<SnapshotEntry>, kind: u32, index: i32) -> (r: Result<RawKey>)
        requires
            self.indexes(entries@),
        ensures
            r matches Ok(k) ==> key_for_slot(entries@, kind, index) == Some(k),
            r is Err ==> key_for_slot(entries@, kind, index) is None && r == Err::<RawKey, Error>(Error::SnapshotManifestMismatch),
    {
        let entry = match self.entry_at(entries, kind, index) {
            Some(e) => e,
            None => return Err(Error::SnapshotManifestMismatch),
        };
        proof {
            lemma_live_bit(entry.flags);
        }
        if entry.flags & SNAPSHOT_ENTRY_LIVE == 0 {
            return Err(Error::SnapshotManifestMismatch);
        }
        snapshot_raw_key(entry)
    }

    /// The entry of the live object of kind `kind` whose native key is `key`.
    fn require_key(&self, entries: &Vec<SnapshotEntry>, kind: u32, key: RawKey) -> (r: Result<SnapshotEntry>)
        requires
            self.indexes(entries@),
        ensures
            r matches Ok(e) ==> require_key(entries@, kind, key) == Some(e),
            r is Err ==> require_key(entries@, kind, key) is None && r == Err::<SnapshotEntry, Error>(Error::SnapshotManifestMismatch),
    {
        let index = match key.index1.checked_sub(1) {
            Some(index) => index,
            None => return Err(Error::SnapshotManifestMismatch),
        };
        let entry = match self.entry_at(entries, kind, index) {
            Some(e) => e,
            None => return Err(Error::SnapshotManifestMismatch),
        };
        proof {
            lemma_live_bit(entry.flags);
        }
        if entry.flags & SNAPSHOT_ENTRY_LIVE == 0 {
            return Err(Error::SnapshotManifestMismatch);
        }
        match snapshot_raw_key(entry) {
            Ok(k) => {
                if k != key {
                    return Err(Error::SnapshotManifestMismatch);
                }
            },
            Err(e) => return Err(e),
        }
        Ok(entry)
    }
}

/// The native key an entry's slot and generation make up.
fn snapshot_raw_key(e: SnapshotEntry) -> (r: Result<RawKey>)
    ensures
        r matches Ok(k) ==> snapshot_key(e) == Some(k),
        r is Err ==> snapshot_key(e) is None && r == Err::<RawKey, Error>(Error::SnapshotManifestMismatch),
{
    let index1 = match e.index.checked_add(1) {
        Some(i) => i,
        None => return Err(Error::SnapshotManifestMismatch),
    };
    if e.generation > 0xffff {
        return Err(Error::SnapshotManifestMismatch);
    }
    if index1 <= 0 {
        return Err(Error::SnapshotManifestMismatch);
    }
    Ok(RawKey::new(index1, e.generation as u16))
}

/// The predicate "shape registered on body `b`".
pub open spec fn shape_on(shapes: Map<u64, ShapeRegistration>, b: u64) -> spec_fn(u64) -> bool {
    |c: u64| shapes[c].body.code_spec() == b
}

/// The predicate "joint attached to body `b`".
pub open spec fn joint_on(joints: Map<u64, JointRegistration>, b: u64) -> spec_fn(u64) -> bool {
    |c: u64| joints[c].body_a.code_spec() == b || joints[c].body_b.code_spec() == b
}

/// The predicate "chain registered on body `b`".
pub open spec fn chain_on(chains: Map<u64, ChainRegistration>, b: u64) -> spec_fn(u64) -> bool {
    |c: u64| chains[c].body.code_spec() == b
}

/// The predicate "segment of chain `ch`".
pub open spec fn segment_of(shapes: Map<u64, ShapeRegistration>, ch: u64) -> spec_fn(u64) -> bool {
    |c: u64| shapes[c].chain matches Some(x) && x.code_spec() == ch
}

/// Whether `list` names each key at most once and every key satisfies `valid`.
pub open spec fn list_exact(list: Seq<RawKey>, valid: spec_fn(RawKey) -> bool) -> bool {
    &&& list.no_duplicates()
    &&& forall|i: int| 0 <= i < list.len() ==> #[trigger] valid(list[i])
}

/// The predicate "registered shape of body `b`".
pub open spec fn valid_body_shape(shapes: Map<u64, ShapeRegistration>, b: u64) -> spec_fn(RawKey) -> bool {
    |k: RawKey| shapes.contains_key(k.code_spec()) && shapes[k.code_spec()].body.code_spec() == b
}

/// The predicate "registered joint of body `b`".
pub open spec fn valid_body_joint(joints: Map<u64, JointRegistration>, b: u64) -> spec_fn(RawKey) -> bool {
    |k: RawKey| joints.contains_key(k.code_spec()) && (joints[k.code_spec()].body_a.code_spec() == b
        || joints[k.code_spec()].body_b.code_spec() == b)
}

/// The predicate "registered chain of body `b`".
pub open spec fn valid_body_chain(chains: Map<u64, ChainRegistration>, b: u64) -> spec_fn(RawKey) -> bool {
    |k: RawKey| chains.contains_key(k.code_spec()) && chains[k.code_spec()].body.code_spec() == b
}

/// The predicate "registered segment of chain `ch`".
pub open spec fn valid_segment(shapes: Map<u64, ShapeRegistration>, ch: u64) -> spec_fn(RawKey) -> bool {
    |k: RawKey| shapes.contains_key(k.code_spec()) && (shapes[k.code_spec()].chain matches Some(x) && x.code_spec() == ch)
}

/// Whether `keys` names each key at most once.
fn no_duplicate_keys(keys: &Vec<RawKey>) -> (r: bool)
    ensures
        r == keys@.no_duplicates(),
{
    let mut seen: HashSet<u64> = HashSet::new();
    let mut i: usize = 0;
    while i < keys.len()
        invariant
            i <= keys@.len(),
            keys@.take(i as int).no_duplicates(),
            forall|c: u64| #[trigger] seen@.contains(c) <==> exists|j: int| 0 <= j < i && #[trigger] keys@[j].code_spec() == c,
        decreases keys@.len() - i,
    {
        let k = keys[i];
        let c = k.code();
        if !seen.insert(c) {
            proof {
                let j = choose|j: int| 0 <= j < i && #[trigger] keys@[j].code_spec() == c;
                RawKey::lemma_code_injective(keys@[j], k);
                assert(keys@[j] == keys@[i as int]);
            }
            return false;
        }
        proof {
            assert forall|a: int, b: int| 0 <= a < b < i + 1 implies #[trigger] keys@.take(i + 1)[a] != #[trigger] keys@.take(i + 1)[b] by {
                if b == i {
                    RawKey::lemma_code_injective(keys@[a], k);
                    if keys@[a] == k {
                        assert(keys@[a].code_spec() == c);
                    }
                } else {
                    assert(keys@.take(i as int)[a] == keys@.take(i + 1)[a] && keys@.take(i as int)[b] == keys@.take(i + 1)[b]);
                }
            }
            assert forall|x: u64| #[trigger] seen@.contains(x) <==> exists|j: int| 0 <= j < i + 1 && #[trigger] keys@[j].code_spec() == x by {
                if x == c {
                    assert(keys@[i as int].code_spec() == x);
                }
            }
        }
        i = i + 1;
    }
    assert(keys@.take(keys@.len() as int) =~= keys@);
    true
}

/// Whether every key of `keys` is a registered shape of body `b`.
fn all_body_shapes(keys: &Vec<RawKey>, shapes: &HashMap<u64, ShapeRegistration>, b: u64) -> (r: bool)
    ensures
        r == forall|i: int| 0 <= i < keys@.len() ==> #[trigger] valid_body_shape(shapes@, b)(keys@[i]),
{
    let mut i: usize = 0;
    while i < keys.len()
        invariant
            i <= keys@.len(),
            forall|j: int| 0 <= j < i ==> #[trigger] valid_body_shape(shapes@, b)(keys@[j]),
        decreases keys@.len() - i,
    {
        let ok = match shapes.get(&keys[i].code()) {
            Some(entry) => entry.body.code() == b,
            None => false,
        };
        if !ok {
            assert(!valid_body_shape(shapes@, b)(keys@[i as int]));
            return false;
        }
        i = i + 1;
    }
    true
}

/// Whether every key of `keys` is a registered joint of body `b`.
fn all_body_joints(keys: &Vec<RawKey>, joints: &HashMap<u64, JointRegistration>, b: u64) -> (r: bool)
    ensures
        r == forall|i: int| 0 <= i < keys@.len() ==> #[trigger] valid_body_joint(joints@, b)(keys@[i]),
{
    let mut i: usize = 0;
    while i < keys.len()
        invariant
            i <= keys@.len(),
            forall|j: int| 0 <= j < i ==> #[trigger] valid_body_joint(joints@, b)(keys@[j]),
        decreases keys@.len() - i,
    {
        let ok = match joints.get(&keys[i].code()) {
            Some(entry) => entry.body_a.code() == b || entry.body_b.code() == b,
            None => false,
        };
        if !ok {
            assert(!valid_body_joint(joints@, b)(keys@[i as int]));
            return false;
        }
        i = i + 1;
    }
    true
}

/// Whether every key of `keys` is a registered chain of body `b`.
fn all_body_chains(keys: &Vec<RawKey>, chains: &HashMap<u64, ChainRegistration>, b: u64) -> (r: bool)
    ensures
        r == forall|i: int| 0 <= i < keys@.len() ==> #[trigger] valid_body_chain(chains@, b)(keys@[i]),
{
    let mut i: usize = 0;
    while i < keys.len()
        invariant
            i <= keys@.len(),
            forall|j: int| 0 <= j < i ==> #[trigger] valid_body_chain(chains@, b)(keys@[j]),
        decreases keys@.len() - i,
    {
        let ok = match chains.get(&keys[i].code()) {
            Some(entry) => entry.body.code() == b,
            None => false,
        };
        if !ok {
            assert(!valid_body_chain(chains@, b)(keys@[i as int]));
            return false;
        }
        i = i + 1;
    }
    true
}

/// Whether every key of `keys` is a registered segment of chain `ch`.
fn all_segments(keys: &Vec<RawKey>, shapes: &HashMap<u64, ShapeRegistration>, ch: u64) -> (r: bool)
    ensures
        r == forall|i: int| 0 <= i < keys@.len() ==> #[trigger] valid_segment(shapes@, ch)(keys@[i]),
{
    let mut i: usize = 0;
    while i < keys.len()
        invariant
            i <= keys@.len(),
            forall|j: int| 0 <= j < i ==> #[trigger] valid_segment(shapes@, ch)(keys@[j]),
        decreases keys@.len() - i,
    {
        let ok = match shapes.get(&keys[i].code()) {
            Some(entry) => match entry.chain {
                Some(x) => x.code() == ch,
                None => false,
            },
            None => false,
        };
        if !ok {
            assert(!valid_segment(shapes@, ch)(keys@[i as int]));
            return false;
        }
        i = i + 1;
    }
    true
}

/// Shape `c` of the manifest matches its native entry, and its body and chain are registered.
pub open spec fn shape_matches(
    entries: Seq<SnapshotEntry>,
    bodies: Map<u64, BodyRegistration>,
    chains: Map<u64, ChainRegistration>,
    c: u64,
    s: ShapeRegistration,
) -> bool {
    match require_key(entries, SNAPSHOT_ENTRY_SHAPE, RawKey::decode_spec(c)) {
        Some(e) => {
            &&& key_for_slot(entries, SNAPSHOT_ENTRY_BODY, e.owner_a) == Some(s.body)
            &&& if e.owner_b < 0 {
                s.chain is None
            } else {
                key_for_slot(entries, SNAPSHOT_ENTRY_CHAIN, e.owner_b) is Some && key_for_slot(entries, SNAPSHOT_ENTRY_CHAIN, e.owner_b)
                    == s.chain
            }
            &&& bodies.contains_key(s.body.code_spec())
            &&& s.chain matches Some(ch) ==> chains.contains_key(ch.code_spec())
        },
        None => false,
    }
}

/// Joint `c` of the manifest matches its native entry, and both bodies are registered.
pub open spec fn joint_matches(entries: Seq<SnapshotEntry>, bodies: Map<u64, BodyRegistration>, c: u64, j: JointRegistration) -> bool {
    match require_key(entries, SNAPSHOT_ENTRY_JOINT, RawKey::decode_spec(c)) {
        Some(e) => {
            &&& key_for_slot(entries, SNAPSHOT_ENTRY_BODY, e.owner_a) == Some(j.body_a)
            &&& key_for_slot(entries, SNAPSHOT_ENTRY_BODY, e.owner_b) == Some(j.body_b)
            &&& JointType::from_raw_spec(e.subtype) == Some(j.kind)
            &&& bodies.contains_key(j.body_a.code_spec())
            &&& bodies.contains_key(j.body_b.code_spec())
        },
        None => false,
    }
}

/// Chain `c` of the manifest matches its native entry, and its body is registered.
pub open spec fn chain_matches(entries: Seq<SnapshotEntry>, bodies: Map<u64, BodyRegistration>, c: u64, ch: ChainRegistration) -> bool {
    match require_key(entries, SNAPSHOT_ENTRY_CHAIN, RawKey::decode_spec(c)) {
        Some(e) => {
            &&& key_for_slot(entries, SNAPSHOT_ENTRY_BODY, e.owner_a) == Some(ch.body)
            &&& bodies.contains_key(ch.body.code_spec())
        },
        None => false,
    }
}

impl NativeIdentityEntries {
    /// Every manifest body names a live native body.
    fn check_bodies(&self, entries: &Vec<SnapshotEntry>, bodies: &HashMap<u64, BodyRegistration>) -> (r: Result<
        HashMap<u64, (usize, usize, usize)>,
    >)
        requires
            self.indexes(entries@),
            codes_valid(bodies@),
        ensures
            r matches Ok(rel) ==> (forall|c: u64| #[trigger] bodies@.contains_key(c) ==> require_key(
                entries@,
                SNAPSHOT_ENTRY_BODY,
                RawKey::decode_spec(c),
            ) is Some) && rel@.dom() == bodies@.dom() && forall|c: u64| #[trigger] rel@.contains_key(c) ==> rel@[c] == (0usize, 0usize, 0usize),
            r matches Err(e) ==> e == Error::SnapshotAllocationFailed || (e == Error::SnapshotManifestMismatch && exists|c: u64|
                #[trigger] bodies@.contains_key(c) && require_key(entries@, SNAPSHOT_ENTRY_BODY, RawKey::decode_spec(c)) is None),
    {
        let mut rel: HashMap<u64, (usize, usize, usize)> = HashMap::new();
        if !try_reserve_map(&mut rel, bodies.len()) {
            return Err(Error::SnapshotAllocationFailed);
        }
        let iter = bodies.iter();
        let ghost all = iter.remaining();
        proof {
            lemma_iter_keys(bodies@, all);
        }
        for (c, _b) in it: iter
            invariant
                self.indexes(entries@),
                codes_valid(bodies@),
                it.seq() == all,
                all == spec_hash_map_iter(bodies).remaining(),
                iter_keys(all).to_set() == bodies@.dom(),
                iter_keys(all).len() == all.len(),
                forall|i: int| 0 <= i < all.len() ==> bodies@.contains_key(*#[trigger] all[i].0),
                forall|q: u64| #[trigger] rel@.contains_key(q) <==> iter_keys(all).take(it.index()).contains(q),
                forall|q: u64| #[trigger] rel@.contains_key(q) ==> rel@[q] == (0usize, 0usize, 0usize) && require_key(
                    entries@,
                    SNAPSHOT_ENTRY_BODY,
                    RawKey::decode_spec(q),
                ) is Some,
        {
            let ghost idx = it.index();
            proof {
                assert(iter_keys(all).take(idx + 1) =~= iter_keys(all).take(idx).push(*c));
                assert(all[idx].0 == c);
            }
            match self.require_key(entries, SNAPSHOT_ENTRY_BODY, RawKey::decode(*c)) {
                Ok(_) => {},
                Err(e) => {
                    assert(bodies@.contains_key(*c));
                    return Err(e);
                },
            }
            rel.insert(*c, (0, 0, 0));
            proof {
                assert forall|q: u64| #[trigger] rel@.contains_key(q) <==> iter_keys(all).take(idx + 1).contains(q) by {
                    if q == *c {
                        assert(iter_keys(all).take(idx + 1)[idx] == q);
                    } else if iter_keys(all).take(idx + 1).contains(q) {
                        let j = choose|j: int| 0 <= j < idx + 1 && #[trigger] iter_keys(all).take(idx + 1)[j] == q;
                        assert(iter_keys(all).take(idx)[j] == q);
                    } else if iter_keys(all).take(idx).contains(q) {
                        let j = choose|j: int| 0 <= j < idx && #[trigger] iter_keys(all).take(idx)[j] == q;
                        assert(iter_keys(all).take(idx + 1)[j] == q);
                    }
                }
            }
        }
        proof {
            assert(iter_keys(all).take(all.len() as int) =~= iter_keys(all));
            assert(rel@.dom() =~= bodies@.dom());
        }
        Ok(rel)
    }
}

proof fn lemma_take_push_contains(keys: Seq<u64>, idx: int, c: u64, q: u64)
    requires
        0 <= idx < keys.len(),
        keys[idx] == c,
    ensures
        keys.take(idx + 1).contains(q) <==> (keys.take(idx).contains(q) || q == c),
{
    if q == c {
        assert(keys.take(idx + 1)[idx] == q);
    } else if keys.take(idx + 1).contains(q) {
        let j = choose|j: int| 0 <= j < idx + 1 && #[trigger] keys.take(idx + 1)[j] == q;
        assert(keys.take(idx)[j] == q);
    } else if keys.take(idx).contains(q) {
        let j = choose|j: int| 0 <= j < idx && #[trigger] keys.take(idx)[j] == q;
        assert(keys.take(idx + 1)[j] == q);
    }
}

impl NativeIdentityEntries {
    /// Every manifest chain matches its native entry; counts the chains of each body.
    fn check_chains(
        &self,
        entries: &Vec<SnapshotEntry>,
        chains: &HashMap<u64, ChainRegistration>,
        rel: &mut HashMap<u64, (usize, usize, usize)>,
        bodies: Ghost<Map<u64, BodyRegistration>>,
    ) -> (r: Result<HashMap<u64, usize>>)
        requires
            self.indexes(entries@),
            codes_valid(chains@),
            old(rel)@.dom() == bodies@.dom(),
            forall|b: u64| #[trigger] old(rel)@.contains_key(b) ==> old(rel)@[b].2 == 0,
        ensures
            r matches Ok(seg) ==> {
                &&& forall|c: u64| #[trigger] chains@.contains_key(c) ==> chain_matches(entries@, bodies@, c, chains@[c])
                &&& seg@.dom() == chains@.dom()
                &&& forall|c: u64| #[trigger] seg@.contains_key(c) ==> seg@[c] == 0
                &&& final(rel)@.dom() == old(rel)@.dom()
                &&& forall|b: u64| #[trigger] final(rel)@.contains_key(b) ==> final(rel)@[b].0 == old(rel)@[b].0
                    && final(rel)@[b].1 == old(rel)@[b].1 && final(rel)@[b].2 == chains@.dom().filter(chain_on(chains@, b)).len()
            },
            r matches Err(e) ==> e == Error::SnapshotAllocationFailed || (e == Error::SnapshotManifestMismatch && exists|c: u64|
                #[trigger] chains@.contains_key(c) && !chain_matches(entries@, bodies@, c, chains@[c])),
    {
        let mut seg: HashMap<u64, usize> = HashMap::new();
        if !try_reserve_map(&mut seg, chains.len()) {
            return Err(Error::SnapshotAllocationFailed);
        }
        let total = chains.len();
        let iter = chains.iter();
        let ghost all = iter.remaining();
        let ghost rel0 = rel@;
        proof {
            lemma_iter_keys(chains@, all);
        }
        for (c, ch) in it: iter
            invariant
                self.indexes(entries@),
                codes_valid(chains@),
                it.seq() == all,
                all == spec_hash_map_iter(chains).remaining(),
                all.len() == total,
                iter_keys(all).to_set() == chains@.dom(),
                iter_keys(all).no_duplicates(),
                iter_keys(all).len() == all.len(),
                forall|i: int| 0 <= i < all.len() ==> chains@.contains_key(*#[trigger] all[i].0) && chains@[*all[i].0] == *all[i].1,
                rel0.dom() == bodies@.dom(),
                forall|b: u64| #[trigger] rel0.contains_key(b) ==> rel0[b].2 == 0,
                rel@.dom() == rel0.dom(),
                forall|b: u64| #[trigger] rel@.contains_key(b) ==> rel@[b].0 == rel0[b].0 && rel@[b].1 == rel0[b].1
                    && rel@[b].2 == iter_keys(all).take(it.index()).filter(chain_on(chains@, b)).len() && rel@[b].2 <= it.index(),
                forall|q: u64| #[trigger] seg@.contains_key(q) <==> iter_keys(all).take(it.index()).contains(q),
                forall|q: u64| #[trigger] seg@.contains_key(q) ==> seg@[q] == 0 && chain_matches(entries@, bodies@, q, chains@[q]),
        {
            let ghost idx = it.index();
            proof {
                assert(all[idx] == (c, ch));
                assert(iter_keys(all)[idx] == *c);
                assert(iter_keys(all).take(idx + 1) =~= iter_keys(all).take(idx).push(*c));
            }
            let native = match self.require_key(entries, SNAPSHOT_ENTRY_CHAIN, RawKey::decode(*c)) {
                Ok(e) => e,
                Err(e) => {
                    assert(!chain_matches(entries@, bodies@, *c, chains@[*c]));
                    return Err(e);
                },
            };
            let owner = match self.key_for_slot(entries, SNAPSHOT_ENTRY_BODY, native.owner_a) {
                Ok(k) => k,
                Err(e) => {
                    assert(!chain_matches(entries@, bodies@, *c, chains@[*c]));
                    return Err(e);
                },
            };
            if owner != ch.body {
                assert(!chain_matches(entries@, bodies@, *c, chains@[*c]));
                return Err(Error::SnapshotManifestMismatch);
            }
            let bc = ch.body.code();
            let counts = match rel.get(&bc) {
                Some(t) => *t,
                None => {
                    assert(!chain_matches(entries@, bodies@, *c, chains@[*c]));
                    return Err(Error::SnapshotManifestMismatch);
                },
            };
            proof {
                iter_keys(all).take(idx).lemma_filter_push(*c, chain_on(chains@, bc));
            }
            rel.insert(bc, (counts.0, counts.1, counts.2 + 1));
            seg.insert(*c, 0);
            proof {
                assert forall|b: u64| #[trigger] rel@.contains_key(b) implies rel@[b].0 == rel0[b].0 && rel@[b].1 == rel0[b].1
                    && rel@[b].2 == iter_keys(all).take(idx + 1).filter(chain_on(chains@, b)).len() && rel@[b].2 <= idx + 1 by {
                    iter_keys(all).take(idx).lemma_filter_push(*c, chain_on(chains@, b));
                }
                assert forall|q: u64| #[trigger] seg@.contains_key(q) <==> iter_keys(all).take(idx + 1).contains(q) by {
                    lemma_take_push_contains(iter_keys(all), idx, *c, q);
                }
                assert(rel@.dom() =~= rel0.dom());
            }
        }
        proof {
            assert(iter_keys(all).take(all.len() as int) =~= iter_keys(all));
            assert(seg@.dom() =~= chains@.dom()) by {
                assert forall|q: u64| seg@.contains_key(q) <==> chains@.dom().contains(q) by {}
            }
            assert forall|b: u64| #[trigger] rel@.contains_key(b) implies rel@[b].2 == chains@.dom().filter(chain_on(chains@, b)).len() by {
                lemma_filter_count_as_set(iter_keys(all), chain_on(chains@, b));
            }
            assert forall|q: u64| #[trigger] chains@.contains_key(q) implies chain_matches(entries@, bodies@, q, chains@[q]) by {
                assert(seg@.contains_key(q));
            }
        }
        Ok(seg)
    }
}

impl NativeIdentityEntries {
    /// Every manifest shape matches its native entry; counts the shapes of each body and the
    /// segments of each chain.
    fn check_shapes(
        &self,
        entries: &Vec<SnapshotEntry>,
        shapes: &HashMap<u64, ShapeRegistration>,
        rel: &mut HashMap<u64, (usize, usize, usize)>,
        seg: &mut HashMap<u64, usize>,
        bodies: Ghost<Map<u64, BodyRegistration>>,
        chains: Ghost<Map<u64, ChainRegistration>>,
    ) -> (r: Result<()>)
        requires
            self.indexes(entries@),
            codes_valid(shapes@),
            old(rel)@.dom() == bodies@.dom(),
            forall|b: u64| #[trigger] old(rel)@.contains_key(b) ==> old(rel)@[b].0 == 0,
            old(seg)@.dom() == chains@.dom(),
            forall|ch: u64| #[trigger] old(seg)@.contains_key(ch) ==> old(seg)@[ch] == 0,
        ensures
            r is Ok ==> {
                &&& forall|c: u64| #[trigger] shapes@.contains_key(c) ==> shape_matches(entries@, bodies@, chains@, c, shapes@[c])
                &&& final(rel)@.dom() == old(rel)@.dom()
                &&& forall|b: u64| #[trigger] final(rel)@.contains_key(b) ==> final(rel)@[b].1 == old(rel)@[b].1
                    && final(rel)@[b].2 == old(rel)@[b].2 && final(rel)@[b].0 == shapes@.dom().filter(shape_on(shapes@, b)).len()
                &&& final(seg)@.dom() == old(seg)@.dom()
                &&& forall|ch: u64| #[trigger] final(seg)@.contains_key(ch) ==> final(seg)@[ch] == shapes@.dom().filter(
                    segment_of(shapes@, ch),
                ).len()
            },
            r matches Err(e) ==> e == Error::SnapshotManifestMismatch && exists|c: u64|
                #[trigger] shapes@.contains_key(c) && !shape_matches(entries@, bodies@, chains@, c, shapes@[c]),
    {
        let total = shapes.len();
        let iter = shapes.iter();
        let ghost all = iter.remaining();
        let ghost rel0 = rel@;
        let ghost seg0 = seg@;
        proof {
            lemma_iter_keys(shapes@, all);
        }
        for (c, sh) in it: iter
            invariant
                self.indexes(entries@),
                codes_valid(shapes@),
                it.seq() == all,
                all == spec_hash_map_iter(shapes).remaining(),
                all.len() == total,
                iter_keys(all).to_set() == shapes@.dom(),
                iter_keys(all).no_duplicates(),
                iter_keys(all).len() == all.len(),
                forall|i: int| 0 <= i < all.len() ==> shapes@.contains_key(*#[trigger] all[i].0) && shapes@[*all[i].0] == *all[i].1,
                rel0.dom() == bodies@.dom(),
                forall|b: u64| #[trigger] rel0.contains_key(b) ==> rel0[b].0 == 0,
                seg0.dom() == chains@.dom(),
                forall|ch: u64| #[trigger] seg0.contains_key(ch) ==> seg0[ch] == 0,
                rel@.dom() == rel0.dom(),
                seg@.dom() == seg0.dom(),
                forall|b: u64| #[trigger] rel@.contains_key(b) ==> rel@[b].1 == rel0[b].1 && rel@[b].2 == rel0[b].2
                    && rel@[b].0 == iter_keys(all).take(it.index()).filter(shape_on(shapes@, b)).len() && rel@[b].0 <= it.index(),
                forall|ch: u64| #[trigger] seg@.contains_key(ch) ==> seg@[ch] == iter_keys(all).take(it.index()).filter(
                    segment_of(shapes@, ch),
                ).len() && seg@[ch] <= it.index(),
                forall|q: u64| #[trigger] iter_keys(all).take(it.index()).contains(q) ==> shape_matches(entries@, bodies@, chains@, q, shapes@[q]),
        {
            let ghost idx = it.index();
            proof {
                assert(all[idx] == (c, sh));
                assert(iter_keys(all)[idx] == *c);
                assert(iter_keys(all).take(idx + 1) =~= iter_keys(all).take(idx).push(*c));
            }
            let native = match self.require_key(entries, SNAPSHOT_ENTRY_SHAPE, RawKey::decode(*c)) {
                Ok(e) => e,
                Err(e) => {
                    assert(!shape_matches(entries@, bodies@, chains@, *c, shapes@[*c]));
                    return Err(e);
                },
            };
            let owner = match self.key_for_slot(entries, SNAPSHOT_ENTRY_BODY, native.owner_a) {
                Ok(k) => k,
                Err(e) => {
                    assert(!shape_matches(entries@, bodies@, chains@, *c, shapes@[*c]));
                    return Err(e);
                },
            };
            if owner != sh.body {
                assert(!shape_matches(entries@, bodies@, chains@, *c, shapes@[*c]));
                return Err(Error::SnapshotManifestMismatch);
            }
            if native.owner_b < 0 {
                if sh.chain.is_some() {
                    assert(!shape_matches(entries@, bodies@, chains@, *c, shapes@[*c]));
                    return Err(Error::SnapshotManifestMismatch);
                }
            } else {
                let native_chain = match self.key_for_slot(entries, SNAPSHOT_ENTRY_CHAIN, native.owner_b) {
                    Ok(k) => k,
                    Err(e) => {
                        assert(!shape_matches(entries@, bodies@, chains@, *c, shapes@[*c]));
                        return Err(e);
                    },
                };
                let same = match sh.chain {
                    Some(x) => x == native_chain,
                    None => false,
                };
                if !same {
                    assert(!shape_matches(entries@, bodies@, chains@, *c, shapes@[*c]));
                    return Err(Error::SnapshotManifestMismatch);
                }
            }
            let bc = sh.body.code();
            let counts = match rel.get(&bc) {
                Some(t) => *t,
                None => {
                    assert(!shape_matches(entries@, bodies@, chains@, *c, shapes@[*c]));
                    return Err(Error::SnapshotManifestMismatch);
                },
            };
            let ghost seg_before = seg@;
            match sh.chain {
                Some(x) => {
                    let xc = x.code();
                    let n = match seg.get(&xc) {
                        Some(n) => *n,
                        None => {
                            assert(!shape_matches(entries@, bodies@, chains@, *c, shapes@[*c]));
                            return Err(Error::SnapshotManifestMismatch);
                        },
                    };
                    proof {
                        iter_keys(all).take(idx).lemma_filter_push(*c, segment_of(shapes@, xc));
                    }
                    seg.insert(xc, n + 1);
                },
                None => {},
            }
            proof {
                iter_keys(all).take(idx).lemma_filter_push(*c, shape_on(shapes@, bc));
            }
            rel.insert(bc, (counts.0 + 1, counts.1, counts.2));
            proof {
                assert forall|b: u64| #[trigger] rel@.contains_key(b) implies rel@[b].1 == rel0[b].1 && rel@[b].2 == rel0[b].2
                    && rel@[b].0 == iter_keys(all).take(idx + 1).filter(shape_on(shapes@, b)).len() && rel@[b].0 <= idx + 1 by {
                    iter_keys(all).take(idx).lemma_filter_push(*c, shape_on(shapes@, b));
                }
                assert forall|ch: u64| #[trigger] seg@.contains_key(ch) implies seg@[ch] == iter_keys(all).take(idx + 1).filter(
                    segment_of(shapes@, ch),
                ).len() && seg@[ch] <= idx + 1 by {
                    iter_keys(all).take(idx).lemma_filter_push(*c, segment_of(shapes@, ch));
                    assert(seg_before.contains_key(ch));
                }
                assert forall|q: u64| #[trigger] iter_keys(all).take(idx + 1).contains(q) implies shape_matches(entries@, bodies@, chains@, q, shapes@[q]) by {
                    lemma_take_push_contains(iter_keys(all), idx, *c, q);
                }
                assert(rel@.dom() =~= rel0.dom());
                assert(seg@.dom() =~= seg0.dom());
            }
        }
        proof {
            assert(iter_keys(all).take(all.len() as int) =~= iter_keys(all));
            assert forall|b: u64| #[trigger] rel@.contains_key(b) implies rel@[b].0 == shapes@.dom().filter(shape_on(shapes@, b)).len() by {
                lemma_filter_count_as_set(iter_keys(all), shape_on(shapes@, b));
            }
            assert forall|ch: u64| #[trigger] seg@.contains_key(ch) implies seg@[ch] == shapes@.dom().filter(segment_of(shapes@, ch)).len() by {
                lemma_filter_count_as_set(iter_keys(all), segment_of(shapes@, ch));
            }
            assert forall|q: u64| #[trigger] shapes@.contains_key(q) implies shape_matches(entries@, bodies@, chains@, q, shapes@[q]) by {
                assert(iter_keys(all).to_set().contains(q));
            }
        }
        Ok(())
    }

    /// Every manifest joint matches its native entry; counts the joints of each body.
    fn check_joints(
        &self,
        entries: &Vec<SnapshotEntry>,
        joints: &HashMap<u64, JointRegistration>,
        rel: &mut HashMap<u64, (usize, usize, usize)>,
        bodies: Ghost<Map<u64, BodyRegistration>>,
    ) -> (r: Result<()>)
        requires
            self.indexes(entries@),
            codes_valid(joints@),
            old(rel)@.dom() == bodies@.dom(),
            forall|b: u64| #[trigger] old(rel)@.contains_key(b) ==> old(rel)@[b].1 == 0,
        ensures
            r is Ok ==> {
                &&& forall|c: u64| #[trigger] joints@.contains_key(c) ==> joint_matches(entries@, bodies@, c, joints@[c])
                &&& final(rel)@.dom() == old(rel)@.dom()
                &&& forall|b: u64| #[trigger] final(rel)@.contains_key(b) ==> final(rel)@[b].0 == old(rel)@[b].0
                    && final(rel)@[b].2 == old(rel)@[b].2 && final(rel)@[b].1 == joints@.dom().filter(joint_on(joints@, b)).len()
            },
            r matches Err(e) ==> e == Error::SnapshotManifestMismatch && exists|c: u64|
                #[trigger] joints@.contains_key(c) && !joint_matches(entries@, bodies@, c, joints@[c]),
    {
        let total = joints.len();
        let iter = joints.iter();
        let ghost all = iter.remaining();
        let ghost rel0 = rel@;
        proof {
            lemma_iter_keys(joints@, all);
        }
        for (c, j) in it: iter
            invariant
                self.indexes(entries@),
                codes_valid(joints@),
                it.seq() == all,
                all == spec_hash_map_iter(joints).remaining(),
                all.len() == total,
                iter_keys(all).to_set() == joints@.dom(),
                iter_keys(all).no_duplicates(),
                iter_keys(all).len() == all.len(),
                forall|i: int| 0 <= i < all.len() ==> joints@.contains_key(*#[trigger] all[i].0) && joints@[*all[i].0] == *all[i].1,
                rel0.dom() == bodies@.dom(),
                forall|b: u64| #[trigger] rel0.contains_key(b) ==> rel0[b].1 == 0,
                rel@.dom() == rel0.dom(),
                forall|b: u64| #[trigger] rel@.contains_key(b) ==> rel@[b].0 == rel0[b].0 && rel@[b].2 == rel0[b].2
                    && rel@[b].1 == iter_keys(all).take(it.index()).filter(joint_on(joints@, b)).len() && rel@[b].1 <= it.index(),
                forall|q: u64| #[trigger] iter_keys(all).take(it.index()).contains(q) ==> joint_matches(entries@, bodies@, q, joints@[q]),
        {
            let ghost idx = it.index();
            proof {
                assert(all[idx] == (c, j));
                assert(iter_keys(all)[idx] == *c);
                assert(iter_keys(all).take(idx + 1) =~= iter_keys(all).take(idx).push(*c));
            }
            let native = match self.require_key(entries, SNAPSHOT_ENTRY_JOINT, RawKey::decode(*c)) {
                Ok(e) => e,
                Err(e) => {
                    assert(!joint_matches(entries@, bodies@, *c, joints@[*c]));
                    return Err(e);
                },
            };
            let owner_a = match self.key_for_slot(entries, SNAPSHOT_ENTRY_BODY, native.owner_a) {
                Ok(k) => k,
                Err(e) => {
                    assert(!joint_matches(entries@, bodies@, *c, joints@[*c]));
                    return Err(e);
                },
            };
            let owner_b = match self.key_for_slot(entries, SNAPSHOT_ENTRY_BODY, native.owner_b) {
                Ok(k) => k,
                Err(e) => {
                    assert(!joint_matches(entries@, bodies@, *c, joints@[*c]));
                    return Err(e);
                },
            };
            let kind_ok = match JointType::from_raw(native.subtype) {
                Some(k) => k == j.kind,
                None => false,
            };
            if owner_a != j.body_a || owner_b != j.body_b || !kind_ok {
                assert(!joint_matches(entries@, bodies@, *c, joints@[*c]));
                return Err(Error::SnapshotManifestMismatch);
            }
            let ac = j.body_a.code();
            let bc = j.body_b.code();
            let counts_a = match rel.get(&ac) {
                Some(t) => *t,
                None => {
                    assert(!joint_matches(entries@, bodies@, *c, joints@[*c]));
                    return Err(Error::SnapshotManifestMismatch);
                },
            };
            rel.insert(ac, (counts_a.0, counts_a.1 + 1, counts_a.2));
            if bc != ac {
                let counts_b = match rel.get(&bc) {
                    Some(t) => *t,
                    None => {
                        assert(!joint_matches(entries@, bodies@, *c, joints@[*c]));
                        return Err(Error::SnapshotManifestMismatch);
                    },
                };
                proof {
                    iter_keys(all).take(idx).lemma_filter_push(*c, joint_on(joints@, bc));
                }
                rel.insert(bc, (counts_b.0, counts_b.1 + 1, counts_b.2));
            }
            proof {
                iter_keys(all).take(idx).lemma_filter_push(*c, joint_on(joints@, ac));
                assert forall|b: u64| #[trigger] rel@.contains_key(b) implies rel@[b].0 == rel0[b].0 && rel@[b].2 == rel0[b].2
                    && rel@[b].1 == iter_keys(all).take(idx + 1).filter(joint_on(joints@, b)).len() && rel@[b].1 <= idx + 1 by {
                    iter_keys(all).take(idx).lemma_filter_push(*c, joint_on(joints@, b));
                }
                assert forall|q: u64| #[trigger] iter_keys(all).take(idx + 1).contains(q) implies joint_matches(entries@, bodies@, q, joints@[q]) by {
                    lemma_take_push_contains(iter_keys(all), idx, *c, q);
                }
                assert(rel@.dom() =~= rel0.dom());
            }
        }
        proof {
            assert(iter_keys(all).take(all.len() as int) =~= iter_keys(all));
            assert forall|b: u64| #[trigger] rel@.contains_key(b) implies rel@[b].1 == joints@.dom().filter(joint_on(joints@, b)).len() by {
                lemma_filter_count_as_set(iter_keys(all), joint_on(joints@, b));
            }
            assert forall|q: u64| #[trigger] joints@.contains_key(q) implies joint_matches(entries@, bodies@, q, joints@[q]) by {
                assert(iter_keys(all).to_set().contains(q));
            }
        }
        Ok(())
    }
}

/// Body `b` lists exactly the shapes, joints and chains the manifest attaches to it.
pub open spec fn body_relations_exact(
    shapes: Map<u64, ShapeRegistration>,
    joints: Map<u64, JointRegistration>,
    chains: Map<u64, ChainRegistration>,
    b: u64,
    reg: BodyRegistration,
) -> bool {
    &&& reg.shapes@.len() == shapes.dom().filter(shape_on(shapes, b)).len()
    &&& reg.joints@.len() == joints.dom().filter(joint_on(joints, b)).len()
    &&& reg.chains@.len() == chains.dom().filter(chain_on(chains, b)).len()
    &&& list_exact(reg.shapes@, valid_body_shape(shapes, b))
    &&& list_exact(reg.joints@, valid_body_joint(joints, b))
    &&& list_exact(reg.chains@, valid_body_chain(chains, b))
}

/// Chain `ch` lists exactly its segments, in the order the native snapshot records.
pub open spec fn chain_segments_exact(
    entries: Seq<SnapshotEntry>,
    shapes: Map<u64, ShapeRegistration>,
    ch: u64,
    reg: ChainRegistration,
) -> bool {
    &&& reg.segments@.len() == shapes.dom().filter(segment_of(shapes, ch)).len()
    &&& list_exact(reg.segments@, valid_segment(shapes, ch))
    &&& forall|i: int| 0 <= i < reg.segments@.len() ==> i <= i32::MAX && (require_key(
        entries,
        SNAPSHOT_ENTRY_SHAPE,
        #[trigger] reg.segments@[i],
    ) matches Some(e) && e.owner_b_order == i)
}

/// The manifest tables describe exactly the live identity graph of the native entries.
pub open spec fn manifest_describes(
    entries: Seq<SnapshotEntry>,
    bodies: Map<u64, BodyRegistration>,
    shapes: Map<u64, ShapeRegistration>,
    joints: Map<u64, JointRegistration>,
    chains: Map<u64, ChainRegistration>,
) -> bool {
    &&& live_count(entries, SNAPSHOT_ENTRY_BODY) == bodies.len()
    &&& live_count(entries, SNAPSHOT_ENTRY_SHAPE) == shapes.len()
    &&& live_count(entries, SNAPSHOT_ENTRY_JOINT) == joints.len()
    &&& live_count(entries, SNAPSHOT_ENTRY_CHAIN) == chains.len()
    &&& forall|c: u64| #[trigger] bodies.contains_key(c) ==> require_key(entries, SNAPSHOT_ENTRY_BODY, RawKey::decode_spec(c)) is Some
    &&& forall|c: u64| #[trigger] shapes.contains_key(c) ==> shape_matches(entries, bodies, chains, c, shapes[c])
    &&& forall|c: u64| #[trigger] joints.contains_key(c) ==> joint_matches(entries, bodies, c, joints[c])
    &&& forall|c: u64| #[trigger] chains.contains_key(c) ==> chain_matches(entries, bodies, c, chains[c])
    &&& forall|c: u64| #[trigger] bodies.contains_key(c) ==> body_relations_exact(shapes, joints, chains, c, bodies[c])
    &&& forall|c: u64| #[trigger] chains.contains_key(c) ==> chain_segments_exact(entries, shapes, c, chains[c])
}

/// Whether every body lists exactly its relations; `rel` holds the counts per body.
fn check_body_relations(
    bodies: &HashMap<u64, BodyRegistration>,
    shapes: &HashMap<u64, ShapeRegistration>,
    joints: &HashMap<u64, JointRegistration>,
    chains: &HashMap<u64, ChainRegistration>,
    rel: &HashMap<u64, (usize, usize, usize)>,
) -> (r: bool)
    requires
        rel@.dom() == bodies@.dom(),
        forall|b: u64| #[trigger] rel@.contains_key(b) ==> rel@[b].0 == shapes@.dom().filter(shape_on(shapes@, b)).len()
            && rel@[b].1 == joints@.dom().filter(joint_on(joints@, b)).len()
            && rel@[b].2 == chains@.dom().filter(chain_on(chains@, b)).len(),
    ensures
        r == forall|c: u64| #[trigger] bodies@.contains_key(c) ==> body_relations_exact(shapes@, joints@, chains@, c, bodies@[c]),
{
    let iter = bodies.iter();
    let ghost all = iter.remaining();
    proof {
        lemma_iter_keys(bodies@, all);
    }
    for (c, b) in it: iter
        invariant
            it.seq() == all,
            all == spec_hash_map_iter(bodies).remaining(),
            iter_keys(all).to_set() == bodies@.dom(),
            iter_keys(all).len() == all.len(),
            forall|i: int| 0 <= i < all.len() ==> bodies@.contains_key(*#[trigger] all[i].0) && bodies@[*all[i].0] == *all[i].1,
            rel@.dom() == bodies@.dom(),
            forall|b: u64| #[trigger] rel@.contains_key(b) ==> rel@[b].0 == shapes@.dom().filter(shape_on(shapes@, b)).len()
                && rel@[b].1 == joints@.dom().filter(joint_on(joints@, b)).len()
                && rel@[b].2 == chains@.dom().filter(chain_on(chains@, b)).len(),
            forall|q: u64| #[trigger] iter_keys(all).take(it.index()).contains(q) ==> body_relations_exact(shapes@, joints@, chains@, q, bodies@[q]),
    {
        let ghost idx = it.index();
        proof {
            assert(all[idx] == (c, b));
            assert(iter_keys(all)[idx] == *c);
        }
        let counts = match rel.get(c) {
            Some(t) => *t,
            None => {
                return false;
            },
        };
        let ok = b.shapes.len() == counts.0 && b.joints.len() == counts.1 && b.chains.len() == counts.2
            && no_duplicate_keys(&b.shapes) && all_body_shapes(&b.shapes, shapes, *c)
            && no_duplicate_keys(&b.joints) && all_body_joints(&b.joints, joints, *c)
            && no_duplicate_keys(&b.chains) && all_body_chains(&b.chains, chains, *c);
        if !ok {
            assert(!body_relations_exact(shapes@, joints@, chains@, *c, bodies@[*c]));
            return false;
        }
        proof {
            assert forall|q: u64| #[trigger] iter_keys(all).take(idx + 1).contains(q) implies body_relations_exact(shapes@, joints@, chains@, q, bodies@[q]) by {
                lemma_take_push_contains(iter_keys(all), idx, *c, q);
            }
        }
    }
    proof {
        assert(iter_keys(all).take(all.len() as int) =~= iter_keys(all));
        assert forall|q: u64| #[trigger] bodies@.contains_key(q) implies body_relations_exact(shapes@, joints@, chains@, q, bodies@[q]) by {
            assert(iter_keys(all).to_set().contains(q));
        }
    }
    true
}

impl NativeIdentityEntries {
    /// Whether every chain lists exactly its segments in native order; `seg` holds the segment
    /// count per chain.
    fn check_chain_segments(
        &self,
        entries: &Vec<SnapshotEntry>,
        shapes: &HashMap<u64, ShapeRegistration>,
        chains: &HashMap<u64, ChainRegistration>,
        seg: &HashMap<u64, usize>,
    ) -> (r: bool)
        requires
            self.indexes(entries@),
            seg@.dom() == chains@.dom(),
            forall|ch: u64| #[trigger] seg@.contains_key(ch) ==> seg@[ch] == shapes@.dom().filter(segment_of(shapes@, ch)).len(),
        ensures
            r == forall|c: u64| #[trigger] chains@.contains_key(c) ==> chain_segments_exact(entries@, shapes@, c, chains@[c]),
    {
        let iter = chains.iter();
        let ghost all = iter.remaining();
        proof {
            lemma_iter_keys(chains@, all);
        }
        for (c, ch) in it: iter
            invariant
                self.indexes(entries@),
                it.seq() == all,
                all == spec_hash_map_iter(chains).remaining(),
                iter_keys(all).to_set() == chains@.dom(),
                iter_keys(all).len() == all.len(),
                forall|i: int| 0 <= i < all.len() ==> chains@.contains_key(*#[trigger] all[i].0) && chains@[*all[i].0] == *all[i].1,
                seg@.dom() == chains@.dom(),
                forall|ch: u64| #[trigger] seg@.contains_key(ch) ==> seg@[ch] == shapes@.dom().filter(segment_of(shapes@, ch)).len(),
                forall|q: u64| #[trigger] iter_keys(all).take(it.index()).contains(q) ==> chain_segments_exact(entries@, shapes@, q, chains@[q]),
        {
            let ghost idx = it.index();
            proof {
                assert(all[idx] == (c, ch));
                assert(iter_keys(all)[idx] == *c);
            }
            let count = match seg.get(c) {
                Some(n) => *n,
                None => {
                    return false;
                },
            };
            if ch.segments.len() != count || !no_duplicate_keys(&ch.segments) || !all_segments(&ch.segments, shapes, *c) {
                assert(!chain_segments_exact(entries@, shapes@, *c, chains@[*c]));
                return false;
            }
            let mut i: usize = 0;
            while i < ch.segments.len()
                invariant
                    self.indexes(entries@),
                    chains@.contains_key(*c),
                    chains@[*c] == *ch,
                    i <= ch.segments@.len(),
                    forall|j: int| 0 <= j < i ==> j <= i32::MAX && (require_key(
                        entries@,
                        SNAPSHOT_ENTRY_SHAPE,
                        #[trigger] ch.segments@[j],
                    ) matches Some(e) && e.owner_b_order == j),
                decreases ch.segments@.len() - i,
            {
                if i > 0x7fff_ffff {
                    assert(ch.segments@[i as int] == ch.segments@[i as int]);
                    assert(!chain_segments_exact(entries@, shapes@, *c, chains@[*c]));
                    return false;
                }
                let native = match self.require_key(entries, SNAPSHOT_ENTRY_SHAPE, ch.segments[i]) {
                    Ok(e) => e,
                    Err(_) => {
                        assert(ch.segments@[i as int] == ch.segments@[i as int]);
                        assert(!chain_segments_exact(entries@, shapes@, *c, chains@[*c]));
                        return false;
                    },
                };
                if native.owner_b_order != i as i32 {
                    assert(ch.segments@[i as int] == ch.segments@[i as int]);
                    assert(!chain_segments_exact(entries@, shapes@, *c, chains@[*c]));
                    return false;
                }
                i = i + 1;
            }
            proof {
                assert forall|q: u64| #[trigger] iter_keys(all).take(idx + 1).contains(q) implies chain_segments_exact(entries@, shapes@, q, chains@[q]) by {
                    lemma_take_push_contains(iter_keys(all), idx, *c, q);
                }
            }
        }
        proof {
            assert(iter_keys(all).take(all.len() as int) =~= iter_keys(all));
            assert forall|q: u64| #[trigger] chains@.contains_key(q) implies chain_segments_exact(entries@, shapes@, q, chains@[q]) by {
                assert(iter_keys(all).to_set().contains(q));
            }
        }
        true
    }

    /// Whether the manifest tables describe exactly the live identity graph of `entries`.
    fn validate_manifest(&self, entries: &Vec<SnapshotEntry>, manifest: &IdentityManifest) -> (r: Result<()>)
        requires
            self.indexes(entries@),
        ensures
            r is Ok ==> manifest_describes(entries@, manifest.bodies(), manifest.shapes(), manifest.joints(), manifest.chains()),
            manifest_describes(entries@, manifest.bodies(), manifest.shapes(), manifest.joints(), manifest.chains()) ==> r is Ok
                || r == Err::<(), Error>(Error::SnapshotAllocationFailed),
            r matches Err(e) ==> e == Error::SnapshotManifestMismatch || e == Error::SnapshotAllocationFailed,
            r matches Err(e) ==> e == Error::SnapshotManifestMismatch ==> !manifest_describes(
                entries@,
                manifest.bodies(),
                manifest.shapes(),
                manifest.joints(),
                manifest.chains(),
            ),
            !live_counts_match(entries@, *manifest) ==> r == Err::<(), Error>(Error::SnapshotManifestMismatch),
    {
        let bodies = manifest.body_table();
        let shapes = manifest.shape_table();
        let joints = manifest.joint_table();
        let chains = manifest.chain_table();
        if self.live_bodies != bodies.len() || self.live_shapes != shapes.len() || self.live_joints != joints.len()
            || self.live_chains != chains.len() {
            return Err(Error::SnapshotManifestMismatch);
        }
        let mut rel = self.check_bodies(entries, bodies)?;
        let mut seg = self.check_chains(entries, chains, &mut rel, Ghost(bodies@))?;
        self.check_shapes(entries, shapes, &mut rel, &mut seg, Ghost(bodies@), Ghost(chains@))?;
        self.check_joints(entries, joints, &mut rel, Ghost(bodies@))?;
        if !check_body_relations(bodies, shapes, joints, chains, &rel) {
            return Err(Error::SnapshotManifestMismatch);
        }
        if !self.check_chain_segments(entries, shapes, chains, &seg) {
            return Err(Error::SnapshotManifestMismatch);
        }
        Ok(())
    }
}

/// Whether the live native bodies, shapes, joints and chains of `entries` are as many as the
/// manifest's tables hold.
pub open spec fn live_counts_match(entries: Seq<SnapshotEntry>, manifest: IdentityManifest) -> bool {
    &&& live_count(entries, SNAPSHOT_ENTRY_BODY) == manifest.bodies().len()
    &&& live_count(entries, SNAPSHOT_ENTRY_SHAPE) == manifest.shapes().len()
    &&& live_count(entries, SNAPSHOT_ENTRY_JOINT) == manifest.joints().len()
    &&& live_count(entries, SNAPSHOT_ENTRY_CHAIN) == manifest.chains().len()
}

/// The size in bytes of one native snapshot entry.
pub const NATIVE_SNAPSHOT_ENTRY_SIZE: usize = 72;

/// Calls `core::mem::size_of` on `boxdd_sys::adapter::SnapshotEntry`.
///
/// Trusted: the entry is a `repr(C)` struct of eighteen 4-byte integer fields, so its size is 72
/// bytes on every target.
#[verifier::external_body]
fn native_snapshot_entry_size() -> (n: usize)
    ensures
        n == NATIVE_SNAPSHOT_ENTRY_SIZE,
{
    core::mem::size_of::<boxdd_sys::adapter::SnapshotEntry>()
}

impl IdentityManifest {
    /// Check that this manifest describes exactly the live identity graph of a validated native
    /// snapshot whose entries have size `entry_size`.
    pub fn validate_snapshot_entries_sized(&self, entries: &Vec<SnapshotEntry>, entry_size: usize) -> (r: Result<()>)
        ensures
            r is Ok ==> entries_well_formed(entries@, entry_size) && manifest_describes(
                entries@,
                self.bodies(),
                self.shapes(),
                self.joints(),
                self.chains(),
            ),
            entries_well_formed(entries@, entry_size) && manifest_describes(entries@, self.bodies(), self.shapes(), self.joints(), self.chains())
                ==> r is Ok || r == Err::<(), Error>(Error::SnapshotAllocationFailed),
            r matches Err(e) ==> e == Error::SnapshotManifestMismatch || e == Error::SnapshotAllocationFailed,
            r matches Err(e) ==> e == Error::SnapshotManifestMismatch ==> !(entries_well_formed(entries@, entry_size)
                && manifest_describes(entries@, self.bodies(), self.shapes(), self.joints(), self.chains())),
            entries_well_formed(entries@, entry_size) && !live_counts_match(entries@, *self) ==> r == Err::<(), Error>(
                Error::SnapshotManifestMismatch,
            ) || r == Err::<(), Error>(Error::SnapshotAllocationFailed),
    {
        let native = NativeIdentityEntries::new(entries, entry_size)?;
        native.validate_manifest(entries, self)
    }

    /// Check that this manifest describes exactly the live identity graph of a validated native
    /// snapshot.
    pub fn validate_snapshot_entries(&self, entries: &Vec<SnapshotEntry>) -> (r: Result<()>)
        ensures
            r is Ok ==> entries_well_formed(entries@, NATIVE_SNAPSHOT_ENTRY_SIZE) && manifest_describes(
                entries@,
                self.bodies(),
                self.shapes(),
                self.joints(),
                self.chains(),
            ),
            entries_well_formed(entries@, NATIVE_SNAPSHOT_ENTRY_SIZE) && manifest_describes(entries@, self.bodies(), self.shapes(),
                self.joints(), self.chains()) ==> r is Ok || r == Err::<(), Error>(Error::SnapshotAllocationFailed),
            r matches Err(e) ==> e == Error::SnapshotManifestMismatch || e == Error::SnapshotAllocationFailed,
            r == Err::<(), Error>(Error::SnapshotManifestMismatch) ==> !(entries_well_formed(entries@, NATIVE_SNAPSHOT_ENTRY_SIZE)
                && manifest_describes(entries@, self.bodies(), self.shapes(), self.joints(), self.chains())),
            entries_well_formed(entries@, NATIVE_SNAPSHOT_ENTRY_SIZE) && !live_counts_match(entries@, *self)
                ==> r == Err::<(), Error>(Error::SnapshotManifestMismatch)
                || r == Err::<(), Error>(Error::SnapshotAllocationFailed),
    {
        let size = native_snapshot_entry_size();
        self.validate_snapshot_entries_sized(entries, size)
    }
}

/// Distinct slots have distinct table keys.
proof fn lemma_slot_code_injective()
    ensures
        forall|k1: u32, i1: i32, k2: u32, i2: i32| i1 >= 0 && i2 >= 0 && #[trigger] slot_code(k1, i1) == #[trigger] slot_code(k2, i2)
            ==> k1 == k2 && i1 == i2,
{
    assert forall|k1: u32, i1: i32, k2: u32, i2: i32| i1 >= 0 && i2 >= 0 && #[trigger] slot_code(k1, i1) == #[trigger] slot_code(k2, i2)
        implies k1 == k2 && i1 == i2 by {
        let a: int = (k1 as int) * 0x1_0000_0000 + (i1 as int);
        let b: int = (k2 as int) * 0x1_0000_0000 + (i2 as int);
        assert(0 <= a && a < 0x1_0000_0000_0000_0000) by (nonlinear_arith)
            requires
                a == (k1 as int) * 0x1_0000_0000 + (i1 as int),
                0 <= k1 < 0x1_0000_0000,
                0 <= i1 < 0x8000_0000,
        ;
        assert(0 <= b && b < 0x1_0000_0000_0000_0000) by (nonlinear_arith)
            requires
                b == (k2 as int) * 0x1_0000_0000 + (i2 as int),
                0 <= k2 < 0x1_0000_0000,
                0 <= i2 < 0x8000_0000,
        ;
        assert(a == b);
        assert(k1 == k2 && i1 == i2) by (nonlinear_arith)
            requires
                (k1 as int) * 0x1_0000_0000 + (i1 as int) == (k2 as int) * 0x1_0000_0000 + (i2 as int),
                0 <= i1 < 0x1_0000_0000,
                0 <= i2 < 0x1_0000_0000,
        ;
    }
}

/// The live flag is the low bit.
proof fn lemma_live_bit(flags: u32)
    ensures
        (flags & SNAPSHOT_ENTRY_LIVE != 0) == (flags % 2 == 1),
{
    assert((flags & 1u32 != 0) == (flags % 2 == 1)) by (bit_vector);
}

} // verus!
