//! What a world records about its bodies, chains and shape flags so that it can describe them
//! later: the bodies it created, each chain's creation parameters, and the event flags each shape
//! was created with.
//!
//! Records are matched by the raw Box2D id (index, world, generation). Whether a recorded body or
//! chain is still alive is a question for the native world; the listing functions take that answer
//! as a predicate.

use vstd::prelude::*;

use crate::filter::Filter;
use crate::ids::{BodyId, ChainId, ShapeId};

verus! {

/// Event and filtering flags a shape was created with.
#[derive(Clone, Copy, Debug, PartialEq, Eq, Structural)]
pub struct ShapeFlagsRecord {
    pub enable_custom_filtering: bool,
    pub enable_sensor_events: bool,
    pub enable_contact_events: bool,
    pub enable_hit_events: bool,
    pub enable_pre_solve_events: bool,
    pub invoke_contact_creation: bool,
}

/// Recorded chain material configuration captured at chain creation time.
pub enum ChainMaterialsRecord<M> {
    /// Use Box2D's default chain material.
    Default,
    /// Use one material for the entire chain.
    Single(M),
    /// Use one material per chain segment.
    Multiple(Vec<M>),
}

/// The materials of a record, as a sequence: empty for the default material.
pub open spec fn materials_view<M>(m: ChainMaterialsRecord<M>) -> Seq<M> {
    match m {
        ChainMaterialsRecord::Default => Seq::empty(),
        ChainMaterialsRecord::Single(x) => seq![x],
        ChainMaterialsRecord::Multiple(v) => v@,
    }
}

/// A copy of a vector of plain values.
fn copy_vec<T: Copy>(v: &Vec<T>) -> (c: Vec<T>)
    ensures
        c@ == v@,
{
    let mut c: Vec<T> = Vec::new();
    let mut i: usize = 0;
    while i < v.len()
        invariant
            i <= v@.len(),
            c@ == v@.take(i as int),
        decreases v@.len() - i,
    {
        c.push(v[i]);
        assert(v@.take(i + 1) =~= v@.take(i as int).push(v@[i as int]));
        i = i + 1;
    }
    assert(v@.take(v@.len() as int) =~= v@);
    c
}

impl<M: Copy> ChainMaterialsRecord<M> {
    /// The record of the materials given at chain creation: none means the default material, one
    /// means a single material for the whole chain, more means one per segment.
    pub fn from_raw_slice(materials: &[M]) -> (r: Self)
        ensures
            materials@.len() == 0 ==> r is Default,
            materials@.len() == 1 ==> r == ChainMaterialsRecord::Single(materials@[0]),
            materials@.len() > 1 ==> r is Multiple && materials_view(r) == materials@,
    {
        if materials.len() == 0 {
            ChainMaterialsRecord::Default
        } else if materials.len() == 1 {
            ChainMaterialsRecord::Single(materials[0])
        } else {
            let mut v: Vec<M> = Vec::new();
            let mut i: usize = 0;
            while i < materials.len()
                invariant
                    i <= materials@.len(),
                    v@ == materials@.take(i as int),
                decreases materials@.len() - i,
            {
                v.push(materials[i]);
                assert(materials@.take(i + 1) =~= materials@.take(i as int).push(materials@[i as int]));
                i = i + 1;
            }
            assert(materials@.take(materials@.len() as int) =~= materials@);
            ChainMaterialsRecord::Multiple(v)
        }
    }

    /// A copy of the record.
    pub fn copy(&self) -> (c: Self)
        ensures
            materials_view(c) == materials_view(*self),
            c is Default <==> self is Default,
            c is Single <==> self is Single,
            c is Multiple <==> self is Multiple,
    {
        match self {
            ChainMaterialsRecord::Default => ChainMaterialsRecord::Default,
            ChainMaterialsRecord::Single(m) => ChainMaterialsRecord::Single(*m),
            ChainMaterialsRecord::Multiple(v) => ChainMaterialsRecord::Multiple(copy_vec(v)),
        }
    }
}

/// Recorded chain creation parameters.
pub struct ChainCreateRecord<P, M> {
    pub body: BodyId,
    pub is_loop: bool,
    pub filter: Filter,
    pub enable_sensor_events: bool,
    pub points: Vec<P>,
    pub materials: ChainMaterialsRecord<M>,
}

/// What a world keeps of a chain's creation parameters.
pub struct ChainCreateMeta<P, M> {
    pub body: BodyId,
    pub is_loop: bool,
    pub filter: Filter,
    pub enable_sensor_events: bool,
    pub points: Vec<P>,
    pub materials: ChainMaterialsRecord<M>,
}

/// A record describes exactly the kept parameters.
pub open spec fn describes<P, M>(record: ChainCreateRecord<P, M>, meta: ChainCreateMeta<P, M>) -> bool {
    &&& record.body == meta.body
    &&& record.is_loop == meta.is_loop
    &&& record.filter == meta.filter
    &&& record.enable_sensor_events == meta.enable_sensor_events
    &&& record.points@ == meta.points@
    &&& materials_view(record.materials) == materials_view(meta.materials)
    &&& (record.materials is Default <==> meta.materials is Default)
    &&& (record.materials is Single <==> meta.materials is Single)
}

impl<P: Copy, M: Copy> ChainCreateMeta<P, M> {
    /// The public record of the kept parameters.
    pub fn to_record(&self) -> (r: ChainCreateRecord<P, M>)
        ensures
            describes(r, *self),
    {
        ChainCreateRecord {
            body: self.body,
            is_loop: self.is_loop,
            filter: self.filter,
            enable_sensor_events: self.enable_sensor_events,
            points: copy_vec(&self.points),
            materials: self.materials.copy(),
        }
    }
}

/// The elements of `s` whose decision in `d` is `true`, in order.
pub open spec fn select<T>(s: Seq<T>, d: Seq<bool>) -> Seq<T>
    decreases s.len(),
{
    if s.len() == 0 || d.len() == 0 {
        Seq::empty()
    } else {
        let rest = select(s.drop_last(), d.drop_last());
        if d.last() {
            rest.push(s.last())
        } else {
            rest
        }
    }
}

proof fn lemma_select_step<T>(s: Seq<T>, d: Seq<bool>, i: int, b: bool)
    requires
        0 <= i < s.len(),
        d.len() == i,
    ensures
        select(s.take(i + 1), d.push(b)) == if b {
            select(s.take(i), d).push(s[i])
        } else {
            select(s.take(i), d)
        },
{
    assert(s.take(i + 1).drop_last() =~= s.take(i));
    assert(d.push(b).drop_last() =~= d);
}

/// Two body ids name the same raw Box2D body.
pub open spec fn same_body(a: BodyId, b: BodyId) -> bool {
    a.raw_spec() == b.raw_spec()
}

/// Two shape ids name the same raw Box2D shape.
pub open spec fn same_shape(a: ShapeId, b: ShapeId) -> bool {
    a.raw_spec() == b.raw_spec()
}

/// Two chain ids name the same raw Box2D chain.
pub open spec fn same_chain(a: ChainId, b: ChainId) -> bool {
    a.raw_spec() == b.raw_spec()
}

/// Removes from `v` the elements for which `keep` answers `false`, keeping the others in order.
fn retain_where<T, F: Fn(&T) -> bool>(v: &mut Vec<T>, keep: F, Ghost(pred): Ghost<spec_fn(T) -> bool>)
    requires
        forall|x: &T| #[trigger] keep.requires((x,)),
        forall|x: &T, b: bool| #[trigger] keep.ensures((x,), b) ==> b == pred(*x),
    ensures
        final(v)@ == old(v)@.filter(pred),
{
    let ghost original = v@;
    let mut i: usize = 0;
    let ghost mut j: int = 0;
    while i < v.len()
        invariant
            forall|x: &T| #[trigger] keep.requires((x,)),
            forall|x: &T, b: bool| #[trigger] keep.ensures((x,), b) ==> b == pred(*x),
            0 <= j <= original.len(),
            v@ == original.take(j).filter(pred) + original.skip(j),
            i == original.take(j).filter(pred).len(),
        decreases original.len() - j,
    {
        proof {
            assert(v@[i as int] == original[j]);
            assert(original.take(j + 1) =~= original.take(j).push(original[j]));
            original.take(j).lemma_filter_push(original[j], pred);
        }
        if keep(&v[i]) {
            proof {
                assert(original.take(j + 1).filter(pred) + original.skip(j + 1) =~= v@);
            }
            i = i + 1;
        } else {
            let ghost before = v@;
            v.remove(i);
            proof {
                assert(v@ =~= original.take(j + 1).filter(pred) + original.skip(j + 1));
            }
        }
        proof {
            j = j + 1;
        }
    }
    proof {
        if j < original.len() {
            assert(v@.len() == i + original.len() - j);
        }
        assert(original.take(j) =~= original);
        assert(original.skip(j) =~= Seq::<T>::empty());
        assert(v@ =~= original.filter(pred));
    }
}

/// The per-world records.
pub struct Registries<P, M> {
    bodies: Vec<BodyId>,
    chains: Vec<(ChainId, ChainCreateMeta<P, M>)>,
    shape_flags: Vec<(ShapeId, ShapeFlagsRecord)>,
}

impl<P: Copy, M: Copy> Registries<P, M> {
    /// The recorded bodies, in creation order.
    pub closed spec fn bodies_spec(&self) -> Seq<BodyId> {
        self.bodies@
    }

    /// The recorded chains, in creation order.
    pub closed spec fn chains_spec(&self) -> Seq<(ChainId, ChainCreateMeta<P, M>)> {
        self.chains@
    }

    /// The recorded shape flags.
    pub closed spec fn shape_flags_spec(&self) -> Seq<(ShapeId, ShapeFlagsRecord)> {
        self.shape_flags@
    }

    /// Empty registries.
    pub fn new() -> (r: Self)
        ensures
            r.bodies_spec().len() == 0,
            r.chains_spec().len() == 0,
            r.shape_flags_spec().len() == 0,
    {
        Registries { bodies: Vec::new(), chains: Vec::new(), shape_flags: Vec::new() }
    }

    /// Records a created body.
    pub fn record_body(&mut self, id: BodyId)
        ensures
            final(self).bodies_spec() == old(self).bodies_spec().push(id),
            final(self).chains_spec() == old(self).chains_spec(),
            final(self).shape_flags_spec() == old(self).shape_flags_spec(),
    {
        self.bodies.push(id);
    }

    /// Forgets a body.
    pub fn remove_body(&mut self, id: BodyId)
        ensures
            final(self).bodies_spec() == old(self).bodies_spec().filter(|x: BodyId| !same_body(x, id)),
            final(self).chains_spec() == old(self).chains_spec(),
            final(self).shape_flags_spec() == old(self).shape_flags_spec(),
    {
        let raw = id.into_raw();
        let keep = |x: &BodyId| -> (b: bool)
            ensures
                b == !same_body(*x, id),
            { x.into_raw() != raw };
        retain_where(&mut self.bodies, keep, Ghost(|x: BodyId| !same_body(x, id)));
    }

    /// Records a created chain.
    pub fn record_chain(&mut self, id: ChainId, meta: ChainCreateMeta<P, M>)
        ensures
            final(self).chains_spec() == old(self).chains_spec().push((id, meta)),
            final(self).bodies_spec() == old(self).bodies_spec(),
            final(self).shape_flags_spec() == old(self).shape_flags_spec(),
    {
        self.chains.push((id, meta));
    }

    /// Forgets a chain.
    pub fn remove_chain(&mut self, id: ChainId)
        ensures
            final(self).chains_spec() == old(self).chains_spec().filter(
                |c: (ChainId, ChainCreateMeta<P, M>)| !same_chain(c.0, id),
            ),
            final(self).bodies_spec() == old(self).bodies_spec(),
            final(self).shape_flags_spec() == old(self).shape_flags_spec(),
    {
        let raw = id.into_raw();
        let keep = |c: &(ChainId, ChainCreateMeta<P, M>)| -> (b: bool)
            ensures
                b == !same_chain(c.0, id),
            { c.0.into_raw() != raw };
        retain_where(&mut self.chains, keep, Ghost(|c: (ChainId, ChainCreateMeta<P, M>)| !same_chain(c.0, id)));
    }

    /// Forgets every chain of a body.
    pub fn remove_chains_for_body(&mut self, body: BodyId)
        ensures
            final(self).chains_spec() == old(self).chains_spec().filter(
                |c: (ChainId, ChainCreateMeta<P, M>)| !same_body(c.1.body, body),
            ),
            final(self).bodies_spec() == old(self).bodies_spec(),
            final(self).shape_flags_spec() == old(self).shape_flags_spec(),
    {
        let raw = body.into_raw();
        let keep = |c: &(ChainId, ChainCreateMeta<P, M>)| -> (b: bool)
            ensures
                b == !same_body(c.1.body, body),
            { c.1.body.into_raw() != raw };
        retain_where(&mut self.chains, keep, Ghost(|c: (ChainId, ChainCreateMeta<P, M>)| !same_body(c.1.body, body)));
    }

    /// Records the flags a shape was created with, replacing an earlier record of the same shape.
    pub fn record_shape_flags(&mut self, sid: ShapeId, rec: ShapeFlagsRecord)
        ensures
            final(self).bodies_spec() == old(self).bodies_spec(),
            final(self).chains_spec() == old(self).chains_spec(),
            (exists|i: int| 0 <= i < old(self).shape_flags_spec().len()
                && same_shape(#[trigger] old(self).shape_flags_spec()[i].0, sid)) ==> {
                let i = choose|i: int| 0 <= i < old(self).shape_flags_spec().len()
                    && same_shape(#[trigger] old(self).shape_flags_spec()[i].0, sid)
                    && forall|j: int| 0 <= j < i ==> !same_shape(#[trigger] old(self).shape_flags_spec()[j].0, sid);
                final(self).shape_flags_spec() == old(self).shape_flags_spec().update(i, (sid, rec))
            },
            !(exists|i: int| 0 <= i < old(self).shape_flags_spec().len()
                && same_shape(#[trigger] old(self).shape_flags_spec()[i].0, sid))
                ==> final(self).shape_flags_spec() == old(self).shape_flags_spec().push((sid, rec)),
    {
        let raw = sid.into_raw();
        let mut i: usize = 0;
        while i < self.shape_flags.len()
            invariant
                i <= self.shape_flags@.len(),
                self.shape_flags@ == old(self).shape_flags@,
                self.bodies@ == old(self).bodies@,
                self.chains@ == old(self).chains@,
                raw == sid.raw_spec(),
                forall|j: int| 0 <= j < i ==> !same_shape(#[trigger] self.shape_flags@[j].0, sid),
            decreases self.shape_flags@.len() - i,
        {
            if self.shape_flags[i].0.into_raw() == raw {
                let ghost first = i as int;
                self.shape_flags.set(i, (sid, rec));
                proof {
                    let old_flags = old(self).shape_flags_spec();
                    let chosen = choose|k: int| 0 <= k < old_flags.len() && same_shape(#[trigger] old_flags[k].0, sid)
                        && forall|j: int| 0 <= j < k ==> !same_shape(#[trigger] old_flags[j].0, sid);
                    assert(0 <= first < old_flags.len() && same_shape(old_flags[first].0, sid)
                        && forall|j: int| 0 <= j < first ==> !same_shape(#[trigger] old_flags[j].0, sid));
                    if chosen < first {
                        assert(!same_shape(old_flags[chosen].0, sid));
                    }
                    if first < chosen {
                        assert(!same_shape(old_flags[first].0, sid));
                    }
                }
                return;
            }
            i = i + 1;
        }
        self.shape_flags.push((sid, rec));
    }

    /// Forgets a shape's flags.
    pub fn remove_shape_flags(&mut self, sid: ShapeId)
        ensures
            final(self).shape_flags_spec() == old(self).shape_flags_spec().filter(
                |f: (ShapeId, ShapeFlagsRecord)| !same_shape(f.0, sid),
            ),
            final(self).bodies_spec() == old(self).bodies_spec(),
            final(self).chains_spec() == old(self).chains_spec(),
    {
        let raw = sid.into_raw();
        let keep = |f: &(ShapeId, ShapeFlagsRecord)| -> (b: bool)
            ensures
                b == !same_shape(f.0, sid),
            { f.0.into_raw() != raw };
        retain_where(&mut self.shape_flags, keep, Ghost(|f: (ShapeId, ShapeFlagsRecord)| !same_shape(f.0, sid)));
    }

    /// Forgets the flags of every shape of a body, given the shapes the body has.
    pub fn remove_shape_flags_for_body(&mut self, shapes: &[ShapeId])
        ensures
            final(self).shape_flags_spec() == old(self).shape_flags_spec().filter(
                |f: (ShapeId, ShapeFlagsRecord)| !(exists|k: int| 0 <= k < shapes@.len() && #[trigger] same_shape(f.0, shapes@[k])),
            ),
            final(self).bodies_spec() == old(self).bodies_spec(),
            final(self).chains_spec() == old(self).chains_spec(),
    {
        let ghost original = self.shape_flags@;
        proof {
            lemma_filter_all(original, |f: (ShapeId, ShapeFlagsRecord)| !(exists|k: int| 0 <= k < 0 && #[trigger] same_shape(f.0, shapes@[k])));
        }
        let mut i: usize = 0;
        while i < shapes.len()
            invariant
                i <= shapes@.len(),
                self.shape_flags@ == original.filter(
                    |f: (ShapeId, ShapeFlagsRecord)| !(exists|k: int| 0 <= k < i && #[trigger] same_shape(f.0, shapes@[k])),
                ),
                self.bodies@ == old(self).bodies@,
                self.chains@ == old(self).chains@,
            decreases shapes@.len() - i,
        {
            let ghost before = self.shape_flags@;
            self.remove_shape_flags(shapes[i]);
            proof {
                let p_i = |f: (ShapeId, ShapeFlagsRecord)| !(exists|k: int| 0 <= k < i && #[trigger] same_shape(f.0, shapes@[k]));
                let p_next = |f: (ShapeId, ShapeFlagsRecord)| !(exists|k: int| 0 <= k < i + 1 && #[trigger] same_shape(f.0, shapes@[k]));
                let q = |f: (ShapeId, ShapeFlagsRecord)| !same_shape(f.0, shapes@[i as int]);
                lemma_filter_twice(original, p_i, q, p_next);
            }
            i = i + 1;
        }
    }

    /// The recorded bodies that are still alive, in creation order.
    pub fn body_ids(&self, is_valid: impl Fn(BodyId) -> bool) -> (out: Vec<BodyId>)
        requires
            forall|b: BodyId| #[trigger] is_valid.requires((b,)),
        ensures
            exists|d: Seq<bool>| d.len() == self.bodies_spec().len()
                && (forall|i: int| 0 <= i < d.len() ==> is_valid.ensures((self.bodies_spec()[i],), #[trigger] d[i]))
                && out@ == select(self.bodies_spec(), d),
    {
        let mut out: Vec<BodyId> = Vec::new();
        self.body_ids_into(&mut out, is_valid);
        out
    }

    /// Replaces `out` with the recorded bodies that are still alive, in creation order.
    pub fn body_ids_into(&self, out: &mut Vec<BodyId>, is_valid: impl Fn(BodyId) -> bool)
        requires
            forall|b: BodyId| #[trigger] is_valid.requires((b,)),
        ensures
            exists|d: Seq<bool>| d.len() == self.bodies_spec().len()
                && (forall|i: int| 0 <= i < d.len() ==> is_valid.ensures((self.bodies_spec()[i],), #[trigger] d[i]))
                && final(out)@ == select(self.bodies_spec(), d),
    {
        out.clear();
        let ghost mut d: Seq<bool> = Seq::empty();
        let mut i: usize = 0;
        while i < self.bodies.len()
            invariant
                forall|b: BodyId| #[trigger] is_valid.requires((b,)),
                i <= self.bodies@.len(),
                d.len() == i,
                forall|k: int| 0 <= k < i ==> is_valid.ensures((self.bodies@[k],), #[trigger] d[k]),
                out@ == select(self.bodies@.take(i as int), d),
            decreases self.bodies@.len() - i,
        {
            let id = self.bodies[i];
            let alive = is_valid(id);
            proof {
                lemma_select_step(self.bodies@, d, i as int, alive);
            }
            if alive {
                out.push(id);
            }
            proof {
                d = d.push(alive);
            }
            i = i + 1;
        }
        assert(self.bodies@.take(self.bodies@.len() as int) =~= self.bodies@);
        assert(d.len() == self.bodies_spec().len());
        assert(forall|k: int| 0 <= k < d.len() ==> is_valid.ensures((self.bodies_spec()[k],), #[trigger] d[k]));
        assert(final(out)@ == select(self.bodies_spec(), d));
    }

    /// The records of the recorded chains that are still alive, in creation order.
    pub fn chain_records(&self, is_valid: impl Fn(ChainId) -> bool) -> (out: Vec<ChainCreateRecord<P, M>>)
        requires
            forall|c: ChainId| #[trigger] is_valid.requires((c,)),
        ensures
            exists|d: Seq<bool>| d.len() == self.chains_spec().len()
                && (forall|i: int| 0 <= i < d.len() ==> is_valid.ensures((self.chains_spec()[i].0,), #[trigger] d[i]))
                && out@.len() == select(self.chains_spec(), d).len()
                && forall|k: int| 0 <= k < out@.len() ==> describes(#[trigger] out@[k], select(self.chains_spec(), d)[k].1),
    {
        let mut out: Vec<ChainCreateRecord<P, M>> = Vec::new();
        self.chain_records_into(&mut out, is_valid);
        out
    }

    /// Replaces `out` with the records of the recorded chains that are still alive, in creation
    /// order.
    pub fn chain_records_into(&self, out: &mut Vec<ChainCreateRecord<P, M>>, is_valid: impl Fn(ChainId) -> bool)
        requires
            forall|c: ChainId| #[trigger] is_valid.requires((c,)),
        ensures
            exists|d: Seq<bool>| d.len() == self.chains_spec().len()
                && (forall|i: int| 0 <= i < d.len() ==> is_valid.ensures((self.chains_spec()[i].0,), #[trigger] d[i]))
                && final(out)@.len() == select(self.chains_spec(), d).len()
                && forall|k: int| 0 <= k < final(out)@.len() ==> describes(#[trigger] final(out)@[k], select(self.chains_spec(), d)[k].1),
    {
        out.clear();
        let ghost mut d: Seq<bool> = Seq::empty();
        let mut i: usize = 0;
        while i < self.chains.len()
            invariant
                forall|c: ChainId| #[trigger] is_valid.requires((c,)),
                i <= self.chains@.len(),
                d.len() == i,
                forall|k: int| 0 <= k < i ==> is_valid.ensures((self.chains@[k].0,), #[trigger] d[k]),
                out@.len() == select(self.chains@.take(i as int), d).len(),
                forall|k: int| 0 <= k < out@.len() ==> describes(#[trigger] out@[k], select(self.chains@.take(i as int), d)[k].1),
            decreases self.chains@.len() - i,
        {
            let alive = is_valid(self.chains[i].0);
            proof {
                lemma_select_step(self.chains@, d, i as int, alive);
            }
            if alive {
                let ghost before = out@;
                let record = self.chains[i].1.to_record();
                out.push(record);
                proof {
                    assert forall|k: int| 0 <= k < out@.len() implies describes(#[trigger] out@[k],
                        select(self.chains@.take(i + 1), d.push(alive))[k].1) by {
                        if k < before.len() {
                            assert(out@[k] == before[k]);
                        }
                    }
                }
            }
            proof {
                d = d.push(alive);
            }
            i = i + 1;
        }
        assert(self.chains@.take(self.chains@.len() as int) =~= self.chains@);
        assert(d.len() == self.chains_spec().len());
        assert(forall|k: int| 0 <= k < d.len() ==> is_valid.ensures((self.chains_spec()[k].0,), #[trigger] d[k]));
    }

    /// The flags a shape was created with, if recorded.
    pub fn shape_flags(&self, sid: ShapeId) -> (r: Option<ShapeFlagsRecord>)
        ensures
            r is None <==> forall|i: int| 0 <= i < self.shape_flags_spec().len() ==> !same_shape(
                #[trigger] self.shape_flags_spec()[i].0,
                sid,
            ),
            r matches Some(rec) ==> exists|i: int| 0 <= i < self.shape_flags_spec().len() && same_shape(
                #[trigger] self.shape_flags_spec()[i].0,
                sid,
            ) && self.shape_flags_spec()[i].1 == rec && forall|j: int| 0 <= j < i ==> !same_shape(
                #[trigger] self.shape_flags_spec()[j].0,
                sid,
            ),
    {
        let raw = sid.into_raw();
        let mut i: usize = 0;
        while i < self.shape_flags.len()
            invariant
                i <= self.shape_flags@.len(),
                raw == sid.raw_spec(),
                forall|j: int| 0 <= j < i ==> !same_shape(#[trigger] self.shape_flags@[j].0, sid),
            decreases self.shape_flags@.len() - i,
        {
            if self.shape_flags[i].0.into_raw() == raw {
                proof {
                    assert(same_shape(self.shape_flags_spec()[i as int].0, sid));
                    assert(self.shape_flags_spec()[i as int].1 == self.shape_flags@[i as int].1);
                    assert forall|j: int| 0 <= j < i implies !same_shape(#[trigger] self.shape_flags_spec()[j].0, sid) by {
                        assert(self.shape_flags_spec()[j] == self.shape_flags@[j]);
                    }
                }
                return Some(self.shape_flags[i].1);
            }
            i = i + 1;
        }
        None
    }
}

/// Filtering by `p` and then by `q` is filtering by `r` when `r` holds exactly where both do.
proof fn lemma_filter_twice<T>(s: Seq<T>, p: spec_fn(T) -> bool, q: spec_fn(T) -> bool, r: spec_fn(T) -> bool)
    requires
        forall|x: T| #[trigger] r(x) == (p(x) && q(x)),
    ensures
        s.filter(p).filter(q) == s.filter(r),
    decreases s.len(),
{
    reveal(Seq::filter);
    if s.len() > 0 {
        lemma_filter_twice(s.drop_last(), p, q, r);
        assert(s.drop_last().filter(p) =~= s.filter(p).drop_last() || !p(s.last()));
        if p(s.last()) {
            assert(s.filter(p).drop_last() =~= s.drop_last().filter(p));
            assert(s.filter(p).last() == s.last());
        } else {
            assert(s.filter(p) =~= s.drop_last().filter(p));
        }
    } else {
        assert(s.filter(p) =~= Seq::<T>::empty());
        assert(s.filter(p).filter(q) =~= Seq::<T>::empty());
        assert(s.filter(r) =~= Seq::<T>::empty());
    }
}

/// Filtering by a predicate that holds everywhere keeps everything.
proof fn lemma_filter_all<T>(s: Seq<T>, p: spec_fn(T) -> bool)
    requires
        forall|x: T| #[trigger] p(x),
    ensures
        s.filter(p) == s,
    decreases s.len(),
{
    reveal(Seq::filter);
    if s.len() > 0 {
        lemma_filter_all(s.drop_last(), p);
        assert(s.drop_last().push(s.last()) =~= s);
    } else {
        assert(s.filter(p) =~= s);
    }
}

} // verus!
