//! A tracked object: its elements, their epoch, and the position at which
//! it was last seen.
//!
//! Propagation itself is numerical work outside this library. The library
//! decides whether a query time is within the validity horizon of the
//! elements, and what becomes of the object's position for each outcome of a
//! propagation.

use crate::catalog::{Catalog, ElementRecord};
use crate::elements::{epoch_instant_of, epoch_of, parsed_elements, yields_elements};
use crate::frame::{scene_of, teme_to_bevy, InertialPoint, ScenePoint, Vec3};
use crate::time::{elapsed_seconds, whole_seconds, UtcInstant, NANOS_PER_SECOND};
use vstd::prelude::*;

verus! {

/// The validity horizon of an element set: seven days, in seconds.
pub const VALIDITY_HORIZON_SECONDS: i64 = 604_800;

/// The validity horizon in nanoseconds.
pub open spec fn horizon_nanos() -> int {
    VALIDITY_HORIZON_SECONDS as int * (NANOS_PER_SECOND as int)
}

/// Whether the instant `query` is within the validity horizon of elements
/// with the epoch `epoch`, both in nanoseconds: the two are no farther apart
/// than the horizon, to the nanosecond.
pub open spec fn within_horizon(epoch: int, query: int) -> bool {
    -horizon_nanos() <= query - epoch <= horizon_nanos()
}

/// Where an object stands in the cycle of updates.
#[derive(Clone, Copy, Debug)]
pub enum TrackState {
    /// No propagation was tried yet.
    Uninitialized,
    /// The last propagation succeeded and gave this position.
    Valid(ScenePoint),
    /// The last propagation gave nothing; this is the position of the last
    /// that succeeded, if one did.
    Stale(Option<ScenePoint>),
}

impl TrackState {
    /// The last known position.
    pub open spec fn position(self) -> Option<Vec3> {
        match self {
            TrackState::Uninitialized => None,
            TrackState::Valid(p) => Some(p@),
            TrackState::Stale(Some(p)) => Some(p@),
            TrackState::Stale(None) => None,
        }
    }

    /// The last known position.
    pub fn last_known_position(&self) -> (out: Option<ScenePoint>)
        ensures
            match out {
                Some(p) => self.position() == Some(p@),
                None => self.position() is None,
            },
    {
        match self {
            TrackState::Uninitialized => None,
            TrackState::Valid(p) => Some(*p),
            TrackState::Stale(p) => *p,
        }
    }
}

/// The state after an update. `in_horizon` says whether the query time was
/// within the horizon, `propagated` what the propagation gave. Only a
/// propagation within the horizon that gave a position moves the object;
/// every other update leaves the last known position as it was.
pub open spec fn state_after(state: TrackState, in_horizon: bool, propagated: Option<Vec3>) -> (
    bool,
    Option<Vec3>,
) {
    if in_horizon && propagated is Some {
        (true, Some(scene_of(propagated->0)))
    } else {
        (false, state.position())
    }
}

/// Whether `time` is within the horizon of `epoch`, and if it is, the whole
/// seconds from `epoch` to `time`, rounded toward zero.
pub fn horizon_check(epoch: &UtcInstant, time: &UtcInstant) -> (out: Option<i64>)
    ensures
        out is Some <==> within_horizon(epoch@, time@),
        out matches Some(s) ==> s == whole_seconds(time@ - epoch@),
        out matches Some(s) ==> -VALIDITY_HORIZON_SECONDS <= s <= VALIDITY_HORIZON_SECONDS,
{
    let diff: i128 = time.total_nanos() - epoch.total_nanos();
    let horizon: i128 = (VALIDITY_HORIZON_SECONDS as i128) * (NANOS_PER_SECOND as i128);
    if diff < -horizon || diff > horizon {
        None
    } else {
        Some(elapsed_seconds(epoch, time) as i64)
    }
}

/// A tracked object.
pub struct Satellite {
    name: String,
    elements: sgp4::Elements,
    epoch: Option<UtcInstant>,
    last_update: UtcInstant,
    use_trajectory: bool,
    state: TrackState,
}

impl Satellite {
    /// The object's name.
    pub closed spec fn name_view(&self) -> Seq<char> {
        self.name@
    }

    /// The epoch of the elements in nanoseconds, where it is known.
    pub closed spec fn epoch(&self) -> Option<int> {
        match self.epoch {
            Some(e) => Some(e@),
            None => None,
        }
    }

    /// The state of the object.
    pub closed spec fn state(&self) -> TrackState {
        self.state
    }

    /// The elements that the object was created with.
    pub closed spec fn elements_view(&self) -> sgp4::Elements {
        self.elements
    }

    /// The instant, in nanoseconds, at which the object was created.
    pub closed spec fn created_at(&self) -> int {
        self.last_update@
    }

    /// Whether the object's trajectory is to be used.
    pub closed spec fn trajectory_in_use(&self) -> bool {
        self.use_trajectory
    }

    /// Whether `time`, in nanoseconds, is within the validity horizon of the
    /// object's elements. Without a known epoch no time is.
    pub open spec fn in_horizon(&self, time: int) -> bool {
        self.epoch() matches Some(e) && within_horizon(e, time)
    }

    /// A new object, created at `now`, that no propagation was tried for.
    /// Its epoch is the epoch of `elements`.
    pub fn new(name: String, elements: sgp4::Elements, now: UtcInstant) -> (out: Self)
        ensures
            out.name_view() == name@,
            out.elements_view() == elements,
            out.epoch() == epoch_instant_of(elements),
            out.created_at() == now@,
            out.trajectory_in_use(),
            out.state() is Uninitialized,
    {
        let epoch = epoch_of(&elements);
        Satellite {
            name,
            elements,
            epoch,
            last_update: now,
            use_trajectory: true,
            state: TrackState::Uninitialized,
        }
    }

    /// The object's name.
    pub fn name(&self) -> (out: &str)
        ensures
            out@ == self.name_view(),
    {
        self.name.as_str()
    }

    /// The object's elements.
    pub fn elements(&self) -> (out: &sgp4::Elements)
        ensures
            *out == self.elements_view(),
    {
        &self.elements
    }

    /// The epoch of the elements, where it is known.
    pub fn epoch_instant(&self) -> (out: Option<UtcInstant>)
        ensures
            match out {
                Some(e) => self.epoch() == Some(e@),
                None => self.epoch() is None,
            },
    {
        self.epoch
    }

    /// The instant at which the object was created.
    pub fn last_update(&self) -> (out: UtcInstant)
        ensures
            out@ == self.created_at(),
    {
        self.last_update
    }

    /// Whether the object's trajectory is to be used.
    pub fn use_trajectory(&self) -> (out: bool)
        ensures
            out == self.trajectory_in_use(),
    {
        self.use_trajectory
    }

    /// The state of the object.
    pub fn track_state(&self) -> (out: TrackState)
        ensures
            out == self.state(),
    {
        self.state
    }

    /// The last known position.
    pub fn last_known_position(&self) -> (out: Option<ScenePoint>)
        ensures
            match out {
                Some(p) => self.state().position() == Some(p@),
                None => self.state().position() is None,
            },
    {
        self.state.last_known_position()
    }

    /// Whether a propagation to `time` is due: the whole seconds from the
    /// epoch to `time`, if `time` is within the horizon, and `None` if it is
    /// not.
    pub fn propagation_due(&self, time: &UtcInstant) -> (out: Option<i64>)
        ensures
            out is Some <==> self.in_horizon(time@),
            out matches Some(s) ==> self.epoch() matches Some(e) && s == whole_seconds(time@ - e),
            out matches Some(s) ==> -VALIDITY_HORIZON_SECONDS <= s <= VALIDITY_HORIZON_SECONDS,
    {
        match &self.epoch {
            Some(epoch) => horizon_check(epoch, time),
            None => None,
        }
    }

    /// Records the outcome of the update for the query time `time`.
    /// `propagated` is what the propagation gave, in the inertial frame. A
    /// position that was propagated within the horizon is returned as it
    /// is, and its image in the scene becomes the object's position. In
    /// every other case, and beyond the horizon whatever was propagated,
    /// nothing is returned and the last known position stays.
    pub fn update_position(&mut self, time: &UtcInstant, propagated: Option<InertialPoint>) -> (out:
        Option<InertialPoint>)
        ensures
            final(self).epoch() == old(self).epoch(),
            final(self).name_view() == old(self).name_view(),
            final(self).elements_view() == old(self).elements_view(),
            final(self).created_at() == old(self).created_at(),
            final(self).trajectory_in_use() == old(self).trajectory_in_use(),
            out is None <==> !old(self).in_horizon(time@) || propagated is None,
            out matches Some(p) ==> propagated matches Some(q) && p@ == q@,
            ({
                let view = match propagated {
                    Some(p) => Some(p@),
                    None => None,
                };
                let (moved, position) = state_after(
                    old(self).state(),
                    old(self).in_horizon(time@),
                    view,
                );
                &&& final(self).state().position() == position
                &&& moved <==> final(self).state() is Valid
                &&& !moved <==> final(self).state() is Stale
                &&& moved <==> out is Some
            }),
    {
        let due = self.propagation_due(time);
        match (due, propagated) {
            (Some(_), Some(p)) => {
                self.state = TrackState::Valid(teme_to_bevy(p));
                Some(p)
            },
            _ => {
                let last = self.state.last_known_position();
                self.state = TrackState::Stale(last);
                None
            },
        }
    }
}

/// Beyond the horizon an update returns nothing and moves nothing, whatever
/// the propagation gave.
pub proof fn lemma_beyond_horizon(state: TrackState, propagated: Option<Vec3>)
    ensures
        state_after(state, false, propagated) == (false, state.position()),
{
}

/// The horizon is seven days to either side of the epoch, to the
/// nanosecond: the instant seven days after the epoch is within it and the
/// next nanosecond is not, and likewise before the epoch. Within the horizon
/// the whole seconds from the epoch do not exceed seven days.
pub proof fn lemma_horizon_bounds(epoch: int, query: int)
    ensures
        within_horizon(epoch, query) <==> -604_800_000_000_000 <= query - epoch
            <= 604_800_000_000_000,
        within_horizon(epoch, epoch + 604_800_000_000_000),
        !within_horizon(epoch, epoch + 604_800_000_000_000 + 1),
        within_horizon(epoch, epoch - 604_800_000_000_000),
        !within_horizon(epoch, epoch - 604_800_000_000_000 - 1),
        within_horizon(epoch, query) ==> -VALIDITY_HORIZON_SECONDS <= whole_seconds(query - epoch)
            <= VALIDITY_HORIZON_SECONDS,
{
}

/// Those of `records` of which elements come, in order.
pub open spec fn tracked_records(records: Seq<ElementRecord>) -> Seq<ElementRecord>
    decreases records.len(),
{
    if records.len() == 0 {
        Seq::empty()
    } else {
        let before = tracked_records(records.drop_last());
        let last = records.last();
        if yields_elements(last.line1, last.line2) {
            before.push(last)
        } else {
            before
        }
    }
}

/// Whether `satellite` is the object that comes of `record`, new at `now`:
/// it has the record's name, carries the elements that the parser makes of
/// the record's lines, with their epoch, and no propagation was tried for it.
pub open spec fn tracks(satellite: Satellite, record: ElementRecord, now: int) -> bool {
    &&& satellite.name_view() == record.name
    &&& satellite.elements_view() == parsed_elements(record.line1, record.line2)
    &&& satellite.epoch() == epoch_instant_of(parsed_elements(record.line1, record.line2))
    &&& satellite.created_at() == now
    &&& satellite.state() is Uninitialized
}

/// The objects to track: one for each of the first `limit` records of the
/// catalog of which elements come, in the order of the records; a record
/// whose lines are refused is passed over.
pub fn load_satellites(catalog: &Catalog, limit: usize, now: UtcInstant) -> (out: Vec<Satellite>)
    ensures
        ({
            let taken = catalog.records().take(
                if limit <= catalog.records().len() {
                    limit as int
                } else {
                    catalog.records().len() as int
                },
            );
            &&& out@.len() == tracked_records(taken).len()
            &&& forall|i: int|
                0 <= i < out@.len() ==> tracks(#[trigger] out@[i], tracked_records(taken)[i], now@)
        }),
{
    let n = catalog.len();
    let count = if limit <= n {
        limit
    } else {
        n
    };
    let mut out: Vec<Satellite> = Vec::new();
    let mut i: usize = 0;
    while i < count
        invariant
            i <= count <= catalog.records().len(),
            out@.len() == tracked_records(catalog.records().take(i as int)).len(),
            forall|j: int|
                0 <= j < out@.len() ==> tracks(
                    #[trigger] out@[j],
                    tracked_records(catalog.records().take(i as int))[j],
                    now@,
                ),
        decreases count - i,
    {
        let record = catalog.record(i);
        proof {
            let next = catalog.records().take(i + 1);
            assert(next.drop_last() =~= catalog.records().take(i as int));
            assert(next.last() == record@);
        }
        match record.to_elements() {
            Ok(elements) => {
                let satellite = Satellite::new(record.name.clone(), elements, now);
                out.push(satellite);
            },
            Err(_) => {},
        }
        i = i + 1;
    }
    out
}

} // verus!
