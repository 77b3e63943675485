//! Event families of one completed simulation step.
//!
//! Native event buffers are validated before they are read, mapped to safe ids once per step,
//! and kept in reusable storage; views borrow that storage and owned copies detach from it.

use vstd::prelude::*;

use crate::callback::CallbackDepth;
use crate::error::{Error, Result};
use crate::identity::{active_nonce, observed_nonce_spec, retired_entry, IdentityRegistry};
use crate::ids::{JointId, RawId, ShapeId};

verus! {

/// A joint event of one step.
#[derive(Copy, Clone, Debug, PartialEq, Eq, Structural)]
pub struct JointEvent {
    pub joint_id: JointId,
}

/// A shape began overlapping a sensor.
#[derive(Copy, Clone, Debug, PartialEq, Eq, Structural)]
pub struct SensorBeginTouchEvent {
    pub sensor_shape: ShapeId,
    pub visitor_shape: ShapeId,
}

/// A shape stopped overlapping a sensor.
#[derive(Copy, Clone, Debug, PartialEq, Eq, Structural)]
pub struct SensorEndTouchEvent {
    pub sensor_shape: ShapeId,
    pub visitor_shape: ShapeId,
}

/// Two shapes stopped touching.
#[derive(Copy, Clone, Debug, PartialEq, Eq, Structural)]
pub struct ContactEndTouchEvent {
    pub shape_a: ShapeId,
    pub shape_b: ShapeId,
}

/// Sensor events of one step.
#[derive(Clone, Debug)]
pub struct SensorEvents {
    pub begin: Vec<SensorBeginTouchEvent>,
    pub end: Vec<SensorEndTouchEvent>,
}

impl SensorEvents {
    /// No events.
    pub fn new() -> (s: Self)
        ensures
            s.begin@.len() == 0,
            s.end@.len() == 0,
    {
        SensorEvents { begin: Vec::new(), end: Vec::new() }
    }
}

impl Default for SensorEvents {
    fn default() -> (s: Self)
        ensures
            s.begin@.len() == 0,
            s.end@.len() == 0,
    {
        SensorEvents::new()
    }
}

/// The length a native pointer/count pair may be read with, given the element size and
/// alignment; `None` when the count is zero.
pub open spec fn ffi_buffer_valid(addr: usize, len: int, size: usize, align: usize) -> bool {
    &&& addr != 0
    &&& addr % align == 0
    &&& len * size <= isize::MAX
    &&& addr + len * size <= usize::MAX
}

/// Validate a native pointer/count pair before it is read: a negative count is rejected with the
/// count, an empty pair is valid whatever the pointer, and a non-empty pair needs a non-null
/// aligned pointer whose byte range fits the address space.
///
/// Returns the number of elements to read.
pub fn check_ffi_slice(addr: usize, count: i32, size: usize, align: usize) -> (r: Result<usize>)
    requires
        align > 0,
    ensures
        count < 0 ==> r == Err::<usize, Error>(Error::NegativeFfiOutputCount { count }),
        count == 0 ==> r == Ok::<usize, Error>(0),
        count > 0 ==> (r is Ok <==> ffi_buffer_valid(addr, count as int, size, align)),
        r matches Ok(n) ==> n == count,
        count > 0 && r is Err ==> r == Err::<usize, Error>(Error::InvalidNativeEventBuffer),
{
    if count < 0 {
        return Err(Error::NegativeFfiOutputCount { count });
    }
    let len = count as usize;
    if len == 0 {
        return Ok(0);
    }
    if addr == 0 || addr % align != 0 {
        return Err(Error::InvalidNativeEventBuffer);
    }
    let bytes = match len.checked_mul(size) {
        Some(b) => b,
        None => return Err(Error::InvalidNativeEventBuffer),
    };
    if bytes > isize::MAX as usize {
        return Err(Error::InvalidNativeEventBuffer);
    }
    match addr.checked_add(bytes) {
        Some(_) => Ok(len),
        None => Err(Error::InvalidNativeEventBuffer),
    }
}

/// Append a copy of `source` to `out`. Copying into reserved room cannot fail: the result is
/// always `out` followed by `source`, whatever its length.
pub fn append_copy<T: Copy>(source: &[T], out: &mut Vec<T>)
    ensures
        final(out)@ == old(out)@ + source@,
        final(out)@.len() == old(out)@.len() + source@.len(),
{
    let ghost start = out@;
    let mut i: usize = 0;
    while i < source.len()
        invariant
            i <= source@.len(),
            out@ == start + source@.take(i as int),
        decreases source@.len() - i,
    {
        out.push(source[i]);
        proof {
            assert(source@.take(i + 1) =~= source@.take(i as int).push(source@[i as int]));
            assert(start + source@.take(i + 1) =~= (start + source@.take(i as int)).push(source@[i as int]));
        }
        i = i + 1;
    }
    assert(source@.take(source@.len() as int) =~= source@);
}

/// Clear `out` and replace its contents by a copy of `source`.
///
/// The only failure is the allocator refusing room for `source.len()` elements; once the room is
/// reserved the copy is [`append_copy`], which cannot fail. On allocation failure `out` is left
/// empty.
pub fn clone_into<T: Copy>(source: &[T], out: &mut Vec<T>) -> (r: Result<()>)
    ensures
        r is Ok ==> final(out)@ == source@,
        r is Err ==> final(out)@.len() == 0 && r == Err::<(), Error>(Error::FfiOutputAllocationFailed),
{
    out.clear();
    if out.try_reserve(source.len()).is_err() {
        return Err(Error::FfiOutputAllocationFailed);
    }
    append_copy(source, out);
    assert(out@ =~= source@);
    Ok(())
}

/// An owned copy of `source`.
pub fn to_owned<T: Copy>(source: &[T]) -> (r: Result<Vec<T>>)
    ensures
        r matches Ok(v) ==> v@ == source@,
        r is Err ==> r == Err::<Vec<T>, Error>(Error::FfiOutputAllocationFailed),
{
    let mut out: Vec<T> = Vec::new();
    clone_into(source, &mut out)?;
    Ok(out)
}

/// Clear `out` and reserve room for `len` mapped events.
pub fn prepare_mapped<T>(out: &mut Vec<T>, len: usize) -> (r: Result<()>)
    ensures
        final(out)@.len() == 0,
        r is Err ==> r == Err::<(), Error>(Error::FfiOutputAllocationFailed),
{
    out.clear();
    if out.try_reserve(len).is_err() {
        return Err(Error::FfiOutputAllocationFailed);
    }
    Ok(())
}

/// Append the mapping of every element of `raw` to `out`, in order; on the first element `map`
/// refuses, `out` is cleared and that error is returned.
pub fn extend_mapped<R: Copy, T, F: Fn(R) -> Result<T>>(out: &mut Vec<T>, raw: &[R], map: F) -> (r: Result<()>)
    requires
        forall|x: R| #[trigger] map.requires((x,)),
    ensures
        r is Ok ==> final(out)@.len() == old(out)@.len() + raw@.len()
            && final(out)@.take(old(out)@.len() as int) == old(out)@
            && forall|i: int| 0 <= i < raw@.len() ==> map.ensures((raw@[i],), Ok(#[trigger] final(out)@[old(out)@.len() + i])),
        r matches Err(e) ==> final(out)@.len() == 0 && exists|f: int| 0 <= f < raw@.len()
            && map.ensures((#[trigger] raw@[f],), Err(e)),
{
    let ghost start = out@.len();
    let ghost before = out@;
    let mut i: usize = 0;
    while i < raw.len()
        invariant
            forall|x: R| #[trigger] map.requires((x,)),
            i <= raw@.len(),
            out@.len() == start + i,
            out@.take(start as int) == before,
            forall|j: int| 0 <= j < i ==> map.ensures((raw@[j],), Ok(#[trigger] out@[start + j])),
        decreases raw@.len() - i,
    {
        match map(raw[i]) {
            Ok(value) => {
                let ghost prev = out@;
                out.push(value);
                proof {
                    assert(out@.take(start as int) =~= prev.take(start as int));
                    assert forall|j: int| 0 <= j < i + 1 implies map.ensures((raw@[j],), Ok(#[trigger] out@[start + j])) by {
                        if j < i {
                            assert(out@[start + j] == prev[start + j]);
                        }
                    }
                }
            },
            Err(error) => {
                out.clear();
                assert(map.ensures((raw@[i as int],), Err(error)));
                return Err(error);
            },
        }
        i = i + 1;
    }
    Ok(())
}

/// Whether `id` is the id a step output naming joint `raw` resolves to in `registry`.
pub open spec fn observed_joint_of(registry: &IdentityRegistry, raw: RawId, id: JointId) -> bool {
    &&& id.raw_spec() == raw
    &&& id.brand_spec() == registry.brand_spec()
    &&& Some(id.nonce_spec()) == observed_nonce_spec(
        active_nonce(registry.joints(), raw.key_spec().code_spec()),
        retired_entry(registry.retired_joints(), raw.key_spec().code_spec()),
    )
}

/// Whether `id` is the id a step output naming shape `raw` resolves to in `registry`.
pub open spec fn observed_shape_of(registry: &IdentityRegistry, raw: RawId, id: ShapeId) -> bool {
    &&& id.raw_spec() == raw
    &&& id.brand_spec() == registry.brand_spec()
    &&& Some(id.nonce_spec()) == observed_nonce_spec(
        active_nonce(registry.shapes(), raw.key_spec().code_spec()),
        retired_entry(registry.retired_shapes(), raw.key_spec().code_spec()),
    )
}

/// Map native joint events of one step to safe events in `out`, resolving each joint against
/// the registry; on the first unresolvable joint `out` is left empty.
pub fn capture_joint_events(out: &mut Vec<JointEvent>, raw: &[RawId], registry: &IdentityRegistry) -> (r: Result<()>)
    ensures
        r is Ok ==> final(out)@.len() == raw@.len() && forall|i: int| 0 <= i < raw@.len()
            ==> #[trigger] observed_joint_of(registry, raw@[i], final(out)@[i].joint_id),
        r is Err ==> final(out)@.len() == 0,
{
    prepare_mapped(out, raw.len())?;
    let mut i: usize = 0;
    while i < raw.len()
        invariant
            i <= raw@.len(),
            out@.len() == i,
            forall|j: int| 0 <= j < i ==> #[trigger] observed_joint_of(registry, raw@[j], out@[j].joint_id),
        decreases raw@.len() - i,
    {
        match registry.observed_joint(raw[i]) {
            Ok(joint_id) => out.push(JointEvent { joint_id }),
            Err(e) => {
                out.clear();
                return Err(e);
            },
        }
        i = i + 1;
    }
    Ok(())
}

/// Whether a step output naming shape `raw` resolves in `registry`.
pub open spec fn shape_observable(registry: &IdentityRegistry, raw: RawId) -> bool {
    &&& registry.brand_spec().owns_raw(raw)
    &&& observed_nonce_spec(
        active_nonce(registry.shapes(), raw.key_spec().code_spec()),
        retired_entry(registry.retired_shapes(), raw.key_spec().code_spec()),
    ) is Some
}

/// The error an unresolvable shape output is refused with.
pub open spec fn shape_refusal(registry: &IdentityRegistry, raw: RawId) -> Error {
    if !registry.brand_spec().owns_raw(raw) {
        Error::WrongWorld
    } else {
        Error::InvalidShapeId
    }
}

/// Whether both shapes of every pair resolve.
pub open spec fn pairs_observable(registry: &IdentityRegistry, pairs: Seq<(RawId, RawId)>) -> bool {
    forall|i: int| 0 <= i < pairs.len() ==> shape_observable(registry, #[trigger] pairs[i].0)
        && shape_observable(registry, pairs[i].1)
}

/// Whether `e` is the refusal of some unresolvable shape among `pairs`.
pub open spec fn pair_refused(registry: &IdentityRegistry, pairs: Seq<(RawId, RawId)>, e: Error) -> bool {
    exists|i: int| 0 <= i < pairs.len() && {
        ||| !shape_observable(registry, #[trigger] pairs[i].0) && e == shape_refusal(registry, pairs[i].0)
        ||| !shape_observable(registry, pairs[i].1) && e == shape_refusal(registry, pairs[i].1)
    }
}

/// Map native sensor event pairs `(sensor, visitor)` of one step to safe events; on the first
/// unresolvable shape both families are left empty.
pub fn capture_sensor_events(
    out: &mut SensorEvents,
    begin: &[(RawId, RawId)],
    end: &[(RawId, RawId)],
    registry: &IdentityRegistry,
) -> (r: Result<()>)
    ensures
        r is Ok ==> final(out).begin@.len() == begin@.len() && final(out).end@.len() == end@.len()
            && (forall|i: int| 0 <= i < begin@.len() ==> #[trigger] observed_shape_of(registry, begin@[i].0, final(out).begin@[i].sensor_shape)
                && observed_shape_of(registry, begin@[i].1, final(out).begin@[i].visitor_shape))
            && (forall|i: int| 0 <= i < end@.len() ==> #[trigger] observed_shape_of(registry, end@[i].0, final(out).end@[i].sensor_shape)
                && observed_shape_of(registry, end@[i].1, final(out).end@[i].visitor_shape)),
        r is Err ==> final(out).begin@.len() == 0 && final(out).end@.len() == 0,
        r matches Err(e) ==> e == Error::FfiOutputAllocationFailed || pair_refused(registry, begin@, e)
            || pair_refused(registry, end@, e),
        pairs_observable(registry, begin@) && pairs_observable(registry, end@) ==> r is Ok
            || r == Err::<(), Error>(Error::FfiOutputAllocationFailed),
{
    if begin.len() == 0 && end.len() == 0 {
        out.begin.clear();
        out.end.clear();
        return Ok(());
    }
    let result = capture_sensor_pairs(out, begin, end, registry);
    if result.is_err() {
        out.begin.clear();
        out.end.clear();
    }
    result
}

fn capture_sensor_pairs(
    out: &mut SensorEvents,
    begin: &[(RawId, RawId)],
    end: &[(RawId, RawId)],
    registry: &IdentityRegistry,
) -> (r: Result<()>)
    ensures
        r is Ok ==> final(out).begin@.len() == begin@.len() && final(out).end@.len() == end@.len()
            && (forall|i: int| 0 <= i < begin@.len() ==> #[trigger] observed_shape_of(registry, begin@[i].0, final(out).begin@[i].sensor_shape)
                && observed_shape_of(registry, begin@[i].1, final(out).begin@[i].visitor_shape))
            && (forall|i: int| 0 <= i < end@.len() ==> #[trigger] observed_shape_of(registry, end@[i].0, final(out).end@[i].sensor_shape)
                && observed_shape_of(registry, end@[i].1, final(out).end@[i].visitor_shape)),
        r matches Err(e) ==> e == Error::FfiOutputAllocationFailed || pair_refused(registry, begin@, e)
            || pair_refused(registry, end@, e),
        pairs_observable(registry, begin@) && pairs_observable(registry, end@) ==> r is Ok
            || r == Err::<(), Error>(Error::FfiOutputAllocationFailed),
{
    prepare_mapped(&mut out.begin, begin.len())?;
    prepare_mapped(&mut out.end, end.len())?;
    let mut i: usize = 0;
    while i < begin.len()
        invariant
            i <= begin@.len(),
            out.begin@.len() == i,
            out.end@.len() == 0,
            forall|j: int| 0 <= j < i ==> #[trigger] observed_shape_of(registry, begin@[j].0, out.begin@[j].sensor_shape)
                && observed_shape_of(registry, begin@[j].1, out.begin@[j].visitor_shape),
        decreases begin@.len() - i,
    {
        let (s, v) = begin[i];
        let sensor_shape = registry.observed_shape(s)?;
        let visitor_shape = registry.observed_shape(v)?;
        out.begin.push(SensorBeginTouchEvent { sensor_shape, visitor_shape });
        i = i + 1;
    }
    let mut i: usize = 0;
    while i < end.len()
        invariant
            i <= end@.len(),
            out.end@.len() == i,
            out.begin@.len() == begin@.len(),
            forall|j: int| 0 <= j < begin@.len() ==> #[trigger] observed_shape_of(registry, begin@[j].0, out.begin@[j].sensor_shape)
                && observed_shape_of(registry, begin@[j].1, out.begin@[j].visitor_shape),
            forall|j: int| 0 <= j < i ==> #[trigger] observed_shape_of(registry, end@[j].0, out.end@[j].sensor_shape)
                && observed_shape_of(registry, end@[j].1, out.end@[j].visitor_shape),
        decreases end@.len() - i,
    {
        let (s, v) = end[i];
        let sensor_shape = registry.observed_shape(s)?;
        let visitor_shape = registry.observed_shape(v)?;
        out.end.push(SensorEndTouchEvent { sensor_shape, visitor_shape });
        i = i + 1;
    }
    Ok(())
}

/// A borrowed view of the joint events of one completed step.
pub struct JointEvents<'step> {
    events: &'step [JointEvent],
}

impl<'step> JointEvents<'step> {
    pub closed spec fn events_spec(&self) -> Seq<JointEvent> {
        self.events@
    }

    /// A view of `events`.
    pub fn new(events: &'step [JointEvent]) -> (v: Self)
        ensures
            v.events_spec() == events@,
    {
        JointEvents { events }
    }

    /// The events in native order.
    pub fn iter(&self) -> (it: core::slice::Iter<'_, JointEvent>)
        ensures
            vstd::std_specs::slice::into_iter_elts(it) == self.events_spec(),
    {
        self.events.iter()
    }

    /// The number of events.
    pub fn len(&self) -> (n: usize)
        ensures
            n == self.events_spec().len(),
    {
        self.events.len()
    }

    /// Whether there are no events.
    pub fn is_empty(&self) -> (b: bool)
        ensures
            b == (self.events_spec().len() == 0),
    {
        self.events.len() == 0
    }

    /// The event at `index`, if any.
    pub fn get(&self, index: usize) -> (r: Option<JointEvent>)
        ensures
            r == if index < self.events_spec().len() {
                Some(self.events_spec()[index as int])
            } else {
                None::<JointEvent>
            },
    {
        if index < self.events.len() {
            Some(self.events[index])
        } else {
            None
        }
    }

    /// An owned copy of the events.
    pub fn to_owned(&self) -> (r: Result<Vec<JointEvent>>)
        ensures
            r matches Ok(v) ==> v@ == self.events_spec(),
            r is Err ==> r == Err::<Vec<JointEvent>, Error>(Error::FfiOutputAllocationFailed),
    {
        to_owned(self.events)
    }

    /// Replace the contents of `out` by a copy of the events, reusing its allocation.
    pub fn clone_into(&self, out: &mut Vec<JointEvent>) -> (r: Result<()>)
        ensures
            r is Ok ==> final(out)@ == self.events_spec(),
            r is Err ==> final(out)@.len() == 0 && r == Err::<(), Error>(Error::FfiOutputAllocationFailed),
    {
        clone_into(self.events, out)
    }
}

/// A borrowed view of the sensor events of one completed step.
pub struct SensorEventsView<'step> {
    events: &'step SensorEvents,
}

impl<'step> SensorEventsView<'step> {
    pub closed spec fn begin_spec(&self) -> Seq<SensorBeginTouchEvent> {
        self.events.begin@
    }

    pub closed spec fn end_spec(&self) -> Seq<SensorEndTouchEvent> {
        self.events.end@
    }

    /// A view of `events`.
    pub fn new(events: &'step SensorEvents) -> (v: Self)
        ensures
            v.begin_spec() == events.begin@,
            v.end_spec() == events.end@,
    {
        SensorEventsView { events }
    }

    /// The begin-touch events.
    pub fn begin(&self) -> (s: &[SensorBeginTouchEvent])
        ensures
            s@ == self.begin_spec(),
    {
        self.events.begin.as_slice()
    }

    /// The end-touch events.
    pub fn end(&self) -> (s: &[SensorEndTouchEvent])
        ensures
            s@ == self.end_spec(),
    {
        self.events.end.as_slice()
    }

    /// Whether both families are empty.
    pub fn is_empty(&self) -> (b: bool)
        ensures
            b == (self.begin_spec().len() == 0 && self.end_spec().len() == 0),
    {
        self.events.begin.len() == 0 && self.events.end.len() == 0
    }

    /// Replace the contents of `out` by a copy of the events; on failure `out` is left empty.
    pub fn clone_into(&self, out: &mut SensorEvents) -> (r: Result<()>)
        ensures
            r is Ok ==> final(out).begin@ == self.begin_spec() && final(out).end@ == self.end_spec(),
            r is Err ==> final(out).begin@.len() == 0 && final(out).end@.len() == 0
                && r == Err::<(), Error>(Error::FfiOutputAllocationFailed),
    {
        let first = clone_into(self.events.begin.as_slice(), &mut out.begin);
        let result = match first {
            Ok(()) => clone_into(self.events.end.as_slice(), &mut out.end),
            Err(e) => Err(e),
        };
        if result.is_err() {
            out.begin.clear();
            out.end.clear();
        }
        result
    }

    /// An owned copy of the events.
    pub fn to_owned(&self) -> (r: Result<SensorEvents>)
        ensures
            r matches Ok(s) ==> s.begin@ == self.begin_spec() && s.end@ == self.end_spec(),
            r is Err ==> r == Err::<SensorEvents, Error>(Error::FfiOutputAllocationFailed),
    {
        let mut out = SensorEvents::new();
        self.clone_into(&mut out)?;
        Ok(out)
    }
}

/// Materialization state of one event family within a step.
#[derive(Copy, Clone, Debug, PartialEq, Eq)]
pub enum Materialization {
    /// Not fetched during this step.
    Unfetched,
    /// Being fetched; a second request is a re-entrant access.
    Fetching,
    /// Fetched and mapped.
    Ready,
    /// Fetching failed; the failure is reported to every later request of the step.
    Failed(Error),
}

/// What a request for an event family must do next.
#[derive(Copy, Clone, Debug, PartialEq, Eq, Structural)]
pub enum Admission {
    /// The family is ready; read the stored value.
    Cached,
    /// The caller must fetch the family and then report the outcome with [`EventSlot::finish`].
    Fetch,
}

/// Reusable storage of one event family, fetched at most once per step.
pub struct EventSlot<T> {
    state: Materialization,
    value: T,
}

impl<T> EventSlot<T> {
    pub closed spec fn state_spec(&self) -> Materialization {
        self.state
    }

    pub closed spec fn value_spec(&self) -> T {
        self.value
    }

    /// An unfetched slot holding `value` as reusable storage.
    pub fn new(value: T) -> (s: Self)
        ensures
            s.state_spec() == Materialization::Unfetched,
            s.value_spec() == value,
    {
        EventSlot { state: Materialization::Unfetched, value }
    }

    /// The current state.
    pub fn state(&self) -> (m: Materialization)
        ensures
            m == self.state_spec(),
    {
        self.state
    }

    /// Forget the previous step's materialization; the storage is kept for reuse.
    pub fn reset(&mut self)
        ensures
            final(self).state_spec() == Materialization::Unfetched,
            final(self).value_spec() == old(self).value_spec(),
    {
        self.state = Materialization::Unfetched;
    }

    /// Admit a request for the family: a ready family is read from storage, a failed one reports
    /// its failure again, a family being fetched rejects the re-entrant request, and an unfetched
    /// one is marked as being fetched by the caller.
    pub fn begin(&mut self) -> (r: Result<Admission>)
        ensures
            final(self).value_spec() == old(self).value_spec(),
            match old(self).state_spec() {
                Materialization::Ready => r == Ok::<Admission, Error>(Admission::Cached) && final(self).state_spec() == old(self).state_spec(),
                Materialization::Failed(e) => r == Err::<Admission, Error>(e) && final(self).state_spec() == old(self).state_spec(),
                Materialization::Fetching => r == Err::<Admission, Error>(Error::ReentrantAccess) && final(self).state_spec() == old(self).state_spec(),
                Materialization::Unfetched => r == Ok::<Admission, Error>(Admission::Fetch) && final(self).state_spec() == Materialization::Fetching,
            },
    {
        match self.state {
            Materialization::Ready => Ok(Admission::Cached),
            Materialization::Failed(e) => Err(e),
            Materialization::Fetching => Err(Error::ReentrantAccess),
            Materialization::Unfetched => {
                self.state = Materialization::Fetching;
                Ok(Admission::Fetch)
            },
        }
    }

    /// The storage, for the fetch the slot admitted.
    pub fn storage(&mut self) -> (v: &mut T)
        ensures
            *v == old(self).value_spec(),
            final(self).value_spec() == *final(v),
            final(self).state_spec() == old(self).state_spec(),
    {
        &mut self.value
    }

    /// Record the outcome of the admitted fetch.
    pub fn finish(&mut self, result: Result<()>)
        requires
            old(self).state_spec() == Materialization::Fetching,
        ensures
            final(self).value_spec() == old(self).value_spec(),
            final(self).state_spec() == match result {
                Ok(()) => Materialization::Ready,
                Err(e) => Materialization::Failed(e),
            },
    {
        self.state = match result {
            Ok(()) => Materialization::Ready,
            Err(e) => Materialization::Failed(e),
        };
    }

    /// Abandon an admitted fetch that unwound; the family can be requested again.
    pub fn abandon(&mut self)
        requires
            old(self).state_spec() == Materialization::Fetching,
        ensures
            final(self).value_spec() == old(self).value_spec(),
            final(self).state_spec() == Materialization::Unfetched,
    {
        self.state = Materialization::Unfetched;
    }

    /// The stored value.
    pub fn value(&self) -> (v: &T)
        ensures
            *v == self.value_spec(),
    {
        &self.value
    }
}

/// The event families produced by one world step that reached native simulation, together with
/// any failure discovered after the native step advanced. Each family is fetched from the native
/// world on its first request and read from storage afterwards.
pub struct CompletedStep {
    joint: EventSlot<Vec<JointEvent>>,
    sensor: EventSlot<SensorEvents>,
    post_step_error: Option<Error>,
}

/// What requesting the joint events of a step returns and leaves in its slot, given the depth of
/// callbacks `depth`, the slot before the request, and what the native getter `fetched` (used
/// only when the family was not yet fetched).
pub open spec fn joint_request<F: FnOnce() -> Result<Vec<RawId>>>(
    depth: usize,
    registry: &IdentityRegistry,
    native: F,
    before: EventSlot<Vec<JointEvent>>,
    after: EventSlot<Vec<JointEvent>>,
    r: Result<Seq<JointEvent>>,
) -> bool {
    if depth > 0 {
        r == Err::<Seq<JointEvent>, Error>(Error::InCallback) && after == before
    } else {
        match before.state_spec() {
            Materialization::Ready => r == Ok::<Seq<JointEvent>, Error>(before.value_spec()@) && after == before,
            Materialization::Failed(e) => r == Err::<Seq<JointEvent>, Error>(e) && after == before,
            Materialization::Fetching => r == Err::<Seq<JointEvent>, Error>(Error::ReentrantAccess) && after == before,
            Materialization::Unfetched => exists|fetched: Result<Vec<RawId>>| #[trigger] native.ensures((), fetched) && match fetched {
                Err(e) => r == Err::<Seq<JointEvent>, Error>(e) && after.state_spec() == Materialization::Failed(e),
                Ok(raw) => match r {
                    Ok(events) => after.state_spec() == Materialization::Ready && events == after.value_spec()@
                        && events.len() == raw@.len() && forall|i: int| 0 <= i < raw@.len()
                        ==> #[trigger] observed_joint_of(registry, raw@[i], events[i].joint_id),
                    Err(e) => after.state_spec() == Materialization::Failed(e),
                },
            },
        }
    }
}

/// What requesting the sensor events of a step returns and leaves in its slot; see
/// [`joint_request`]. The native getter hands over the begin-touch and end-touch pairs.
pub open spec fn sensor_request<F: FnOnce() -> Result<(Vec<(RawId, RawId)>, Vec<(RawId, RawId)>)>>(
    depth: usize,
    registry: &IdentityRegistry,
    native: F,
    before: EventSlot<SensorEvents>,
    after: EventSlot<SensorEvents>,
    r: Result<(Seq<SensorBeginTouchEvent>, Seq<SensorEndTouchEvent>)>,
) -> bool {
    if depth > 0 {
        r == Err::<(Seq<SensorBeginTouchEvent>, Seq<SensorEndTouchEvent>), Error>(Error::InCallback) && after == before
    } else {
        match before.state_spec() {
            Materialization::Ready => r == Ok::<(Seq<SensorBeginTouchEvent>, Seq<SensorEndTouchEvent>), Error>(
                (before.value_spec().begin@, before.value_spec().end@),
            ) && after == before,
            Materialization::Failed(e) => r == Err::<(Seq<SensorBeginTouchEvent>, Seq<SensorEndTouchEvent>), Error>(e)
                && after == before,
            Materialization::Fetching => r == Err::<(Seq<SensorBeginTouchEvent>, Seq<SensorEndTouchEvent>), Error>(
                Error::ReentrantAccess,
            ) && after == before,
            Materialization::Unfetched => exists|fetched: Result<(Vec<(RawId, RawId)>, Vec<(RawId, RawId)>)>|
                #[trigger] native.ensures((), fetched) && match fetched {
                Err(e) => r == Err::<(Seq<SensorBeginTouchEvent>, Seq<SensorEndTouchEvent>), Error>(e)
                    && after.state_spec() == Materialization::Failed(e),
                Ok((begin, end)) => match r {
                    Ok((b, n)) => after.state_spec() == Materialization::Ready && b == after.value_spec().begin@
                        && n == after.value_spec().end@ && b.len() == begin@.len() && n.len() == end@.len()
                        && (forall|i: int| 0 <= i < begin@.len() ==> #[trigger] observed_shape_of(registry, begin@[i].0, b[i].sensor_shape)
                            && observed_shape_of(registry, begin@[i].1, b[i].visitor_shape))
                        && (forall|i: int| 0 <= i < end@.len() ==> #[trigger] observed_shape_of(registry, end@[i].0, n[i].sensor_shape)
                            && observed_shape_of(registry, end@[i].1, n[i].visitor_shape)),
                    Err(e) => after.state_spec() == Materialization::Failed(e) && (e == Error::FfiOutputAllocationFailed
                        || pair_refused(registry, begin@, e) || pair_refused(registry, end@, e)),
                },
            },
        }
    }
}

impl CompletedStep {
    pub closed spec fn joint_slot(&self) -> EventSlot<Vec<JointEvent>> {
        self.joint
    }

    pub closed spec fn sensor_slot(&self) -> EventSlot<SensorEvents> {
        self.sensor
    }

    pub closed spec fn post_step_error_spec(&self) -> Option<Error> {
        self.post_step_error
    }

    /// A completed step whose event families are not fetched yet; the slots' storage is reused.
    pub fn after_validated_step(
        joint: EventSlot<Vec<JointEvent>>,
        sensor: EventSlot<SensorEvents>,
        post_step_error: Option<Error>,
    ) -> (s: Self)
        ensures
            s.joint_slot().state_spec() == Materialization::Unfetched,
            s.joint_slot().value_spec() == joint.value_spec(),
            s.sensor_slot().state_spec() == Materialization::Unfetched,
            s.sensor_slot().value_spec() == sensor.value_spec(),
            s.post_step_error_spec() == post_step_error,
    {
        let mut joint = joint;
        let mut sensor = sensor;
        joint.reset();
        sensor.reset();
        CompletedStep { joint, sensor, post_step_error }
    }

    /// A failure discovered after native simulation advanced.
    pub fn post_step_error(&self) -> (e: Option<Error>)
        ensures
            e == self.post_step_error_spec(),
    {
        self.post_step_error
    }

    /// The step itself when nothing failed after native simulation advanced, otherwise that
    /// failure.
    pub fn into_result(self) -> (r: Result<Self>)
        ensures
            match self.post_step_error_spec() {
                Some(e) => r == Err::<Self, Error>(e),
                None => r matches Ok(s) && s == self,
            },
    {
        match self.post_step_error {
            Some(error) => Err(error),
            None => Ok(self),
        }
    }

    /// Ends the step, handing back the event storage for the next one.
    pub fn into_slots(self) -> (slots: (EventSlot<Vec<JointEvent>>, EventSlot<SensorEvents>))
        ensures
            slots.0 == self.joint_slot(),
            slots.1 == self.sensor_slot(),
    {
        (self.joint, self.sensor)
    }

    /// The joint events of the step. Inside a callback the request is refused before anything is
    /// fetched; otherwise the family is fetched with `native_joint_events` on its first request,
    /// mapped against `registry`, and read from storage on every later one.
    pub fn joint_events<F: FnOnce() -> Result<Vec<RawId>>>(
        &mut self,
        depth: &CallbackDepth,
        registry: &IdentityRegistry,
        native_joint_events: F,
    ) -> (r: Result<JointEvents<'_>>)
        requires
            native_joint_events.requires(()),
        ensures
            joint_request(depth.depth_spec(), registry, native_joint_events, old(self).joint_slot(),
                final(self).joint_slot(), match r {
                    Ok(v) => Ok(v.events_spec()),
                    Err(e) => Err(e),
                }),
            final(self).sensor_slot() == old(self).sensor_slot(),
            final(self).post_step_error_spec() == old(self).post_step_error_spec(),
    {
        depth.check_not_in_callback()?;
        match self.joint.begin() {
            Ok(Admission::Cached) => {},
            Ok(Admission::Fetch) => {
                let fetched = native_joint_events();
                let result = match &fetched {
                    Ok(raw) => capture_joint_events(&mut self.joint.value, raw.as_slice(), registry),
                    Err(e) => Err(*e),
                };
                self.joint.finish(result);
                if let Err(e) = result {
                    return Err(e);
                }
            },
            Err(e) => return Err(e),
        }
        Ok(JointEvents::new(self.joint.value.as_slice()))
    }

    /// The sensor events of the step; see [`Self::joint_events`].
    pub fn sensor_events<F: FnOnce() -> Result<(Vec<(RawId, RawId)>, Vec<(RawId, RawId)>)>>(
        &mut self,
        depth: &CallbackDepth,
        registry: &IdentityRegistry,
        native_sensor_events: F,
    ) -> (r: Result<SensorEventsView<'_>>)
        requires
            native_sensor_events.requires(()),
        ensures
            sensor_request(depth.depth_spec(), registry, native_sensor_events, old(self).sensor_slot(),
                final(self).sensor_slot(), match r {
                    Ok(v) => Ok((v.begin_spec(), v.end_spec())),
                    Err(e) => Err(e),
                }),
            final(self).joint_slot() == old(self).joint_slot(),
            final(self).post_step_error_spec() == old(self).post_step_error_spec(),
    {
        depth.check_not_in_callback()?;
        match self.sensor.begin() {
            Ok(Admission::Cached) => {},
            Ok(Admission::Fetch) => {
                let fetched = native_sensor_events();
                let result = match &fetched {
                    Ok((begin, end)) => capture_sensor_events(&mut self.sensor.value, begin.as_slice(), end.as_slice(), registry),
                    Err(e) => Err(*e),
                };
                self.sensor.finish(result);
                if let Err(e) = result {
                    return Err(e);
                }
            },
            Err(e) => return Err(e),
        }
        Ok(SensorEventsView::new(&self.sensor.value))
    }
}

} // verus!
