//! The telemetry table: one entry per discovered sensor, holding the sensor's
//! latest value.

use crate::sensor::{Reading, ReadingModel, SensorDescriptor, SensorModel, readings_model};
use vstd::prelude::*;

verus! {

/// The value of every entry before the first update for it arrives.
pub const INITIAL_VALUE: u64 = 1;

/// The discovered sensors as mathematical values, in the same order.
pub open spec fn sensors_model(sensors: Seq<SensorDescriptor>) -> Seq<SensorModel> {
    sensors.map_values(|s: SensorDescriptor| s@)
}

/// No two of the sensors share an id.
pub open spec fn distinct_sensors(sensors: Seq<SensorModel>) -> bool {
    forall|i: int, j: int| 0 <= i < j < sensors.len() ==> sensors[i].id != sensors[j].id
}

/// No two of the entries share an id.
pub open spec fn distinct_ids(readings: Seq<ReadingModel>) -> bool {
    forall|i: int, j: int|
        0 <= i < j < readings.len() ==> readings[i].sensor.id != readings[j].sensor.id
}

/// Some entry is for the sensor `id`.
pub open spec fn has_id(readings: Seq<ReadingModel>, id: u64) -> bool {
    exists|i: int| 0 <= i < readings.len() && (#[trigger] readings[i]).sensor.id == id
}

/// The table right after discovery: the sensors in the order given, each at
/// the initial value.
pub open spec fn initial(sensors: Seq<SensorModel>) -> Seq<ReadingModel> {
    sensors.map_values(|s: SensorModel| ReadingModel { sensor: s, value: INITIAL_VALUE })
}

/// The table after the update `(id, value)`: the entry of the sensor `id` holds
/// `value`, and every other entry is as it was.
pub open spec fn updated(readings: Seq<ReadingModel>, id: u64, value: u64) -> Seq<ReadingModel> {
    readings.map_values(
        |r: ReadingModel|
            if r.sensor.id == id {
                ReadingModel { sensor: r.sensor, value }
            } else {
                r
            },
    )
}

/// The table after the updates have been delivered, first to last.
pub open spec fn delivered(readings: Seq<ReadingModel>, updates: Seq<(u64, u64)>) -> Seq<
    ReadingModel,
>
    decreases updates.len(),
{
    if updates.len() == 0 {
        readings
    } else {
        updated(delivered(readings, updates.drop_last()), updates.last().0, updates.last().1)
    }
}

/// The value of the last of the updates that is for the sensor `id`, if one
/// is.
pub open spec fn latest(updates: Seq<(u64, u64)>, id: u64) -> Option<u64>
    decreases updates.len(),
{
    if updates.len() == 0 {
        None
    } else if updates.last().0 == id {
        Some(updates.last().1)
    } else {
        latest(updates.drop_last(), id)
    }
}

/// An update changes the value of the entries of its sensor and nothing
/// else: the table keeps its length, every entry keeps its sensor, and the
/// entries of other sensors keep their values. Where ids are distinct, at
/// most one entry is of its sensor.
pub proof fn lemma_update_touches_only_match(readings: Seq<ReadingModel>, id: u64, value: u64)
    ensures
        updated(readings, id, value).len() == readings.len(),
        forall|i: int|
            0 <= i < readings.len() ==> (#[trigger] updated(readings, id, value)[i]).sensor
                == readings[i].sensor,
        forall|i: int|
            0 <= i < readings.len() ==> (#[trigger] updated(readings, id, value)[i]).value == if
                readings[i].sensor.id == id {
                value
            } else {
                readings[i].value
            },
        distinct_ids(readings) ==> distinct_ids(updated(readings, id, value)),
        distinct_ids(readings) ==> forall|i: int, j: int|
            0 <= i < readings.len() && 0 <= j < readings.len() && (#[trigger] readings[i]).sensor.id
                == id && (#[trigger] readings[j]).sensor.id == id ==> i == j,
{
    if distinct_ids(readings) {
        assert forall|i: int, j: int|
            0 <= i < readings.len() && 0 <= j < readings.len() && (#[trigger] readings[i]).sensor.id
                == id && (#[trigger] readings[j]).sensor.id == id implies i == j by {
            if i < j {
                assert(readings[i].sensor.id != readings[j].sensor.id);
            } else if j < i {
                assert(readings[j].sensor.id != readings[i].sensor.id);
            }
        }
    }
}

/// An update for an id that no entry has leaves the table as it was.
pub proof fn lemma_unmatched_update_changes_nothing(
    readings: Seq<ReadingModel>,
    id: u64,
    value: u64,
)
    requires
        !has_id(readings, id),
    ensures
        updated(readings, id, value) == readings,
{
    assert forall|i: int| 0 <= i < readings.len() implies (#[trigger] readings[i]).sensor.id
        != id by {}
    assert(updated(readings, id, value) =~= readings);
}

/// After any run of updates every entry holds the value of the last update
/// for its sensor, or its former value if there was none, and is otherwise as
/// it was.
pub proof fn lemma_delivered_keeps_latest(readings: Seq<ReadingModel>, updates: Seq<(u64, u64)>)
    ensures
        delivered(readings, updates).len() == readings.len(),
        forall|i: int|
            0 <= i < readings.len() ==> (#[trigger] delivered(readings, updates)[i]).sensor
                == readings[i].sensor,
        forall|i: int|
            0 <= i < readings.len() ==> (#[trigger] delivered(readings, updates)[i]).value
                == match latest(updates, readings[i].sensor.id) {
                Some(value) => value,
                None => readings[i].value,
            },
    decreases updates.len(),
{
    if updates.len() > 0 {
        lemma_delivered_keeps_latest(readings, updates.drop_last());
    }
}

/// Discovery reported the sensor with this id more than once.
#[derive(Clone, Copy, Debug, PartialEq, Eq, Structural)]
pub struct DuplicateId(pub u64);

/// The telemetry table. Its entries are fixed by discovery; only their values
/// change. No two entries share an id.
#[derive(Debug)]
pub struct TelemetryTable {
    sensors: Vec<SensorDescriptor>,
    values: Vec<u64>,
}

impl View for TelemetryTable {
    type V = Seq<ReadingModel>;

    closed spec fn view(&self) -> Seq<ReadingModel> {
        Seq::new(
            self.sensors@.len(),
            |i: int| ReadingModel { sensor: self.sensors@[i]@, value: self.values@[i] },
        )
    }
}

/// Looks for a sensor among the first `end` that has the id of the sensor at
/// `end`.
fn repeats_earlier(sensors: &Vec<SensorDescriptor>, end: usize) -> (repeated: bool)
    requires
        end < sensors.len(),
    ensures
        repeated == exists|i: int|
            0 <= i < end && (#[trigger] sensors[i]).id == sensors[end as int].id,
{
    let id = sensors[end].id;
    let mut i: usize = 0;
    while i < end
        invariant
            i <= end < sensors.len(),
            id == sensors[end as int].id,
            forall|k: int| 0 <= k < i ==> (#[trigger] sensors[k]).id != id,
        decreases end - i,
    {
        if sensors[i].id == id {
            return true;
        }
        i += 1;
    }
    false
}

impl TelemetryTable {
    #[verifier::type_invariant]
    spec fn well_formed(self) -> bool {
        &&& self.values@.len() == self.sensors@.len()
        &&& distinct_sensors(sensors_model(self.sensors@))
    }

    /// Builds the table from the sensors that discovery reported, every value
    /// at [`INITIAL_VALUE`]. Fails when an id occurs twice, and then names the
    /// id of the first sensor that repeats an earlier one.
    pub fn new(sensors: Vec<SensorDescriptor>) -> (table: Result<TelemetryTable, DuplicateId>)
        ensures
            table is Ok <==> distinct_sensors(sensors_model(sensors@)),
            table matches Ok(t) ==> t@ == initial(sensors_model(sensors@)) && distinct_ids(t@),
            table matches Err(DuplicateId(id)) ==> exists|i: int, j: int|
                0 <= i < j < sensors.len() && distinct_sensors(sensors_model(sensors@.take(j)))
                    && (#[trigger] sensors[i]).id == id && (#[trigger] sensors[j]).id == id,
    {
        let ghost model = sensors_model(sensors@);
        let mut values: Vec<u64> = Vec::new();
        let mut j: usize = 0;
        while j < sensors.len()
            invariant
                j <= sensors.len(),
                model == sensors_model(sensors@),
                distinct_sensors(model.take(j as int)),
                values@ == Seq::new(j as nat, |k: int| INITIAL_VALUE),
            decreases sensors.len() - j,
        {
            if repeats_earlier(&sensors, j) {
                proof {
                    let i = choose|i: int|
                        0 <= i < j && (#[trigger] sensors[i]).id == sensors[j as int].id;
                    assert(model[i].id == model[j as int].id);
                    assert(sensors_model(sensors@.take(j as int)) =~= model.take(j as int));
                }
                return Err(DuplicateId(sensors[j].id));
            }
            proof {
                let checked = model.take(j as int);
                let next = model.take(j + 1);
                assert forall|a: int, b: int| 0 <= a < b < next.len() implies next[a].id
                    != next[b].id by {
                    if b < j {
                        assert(checked[a].id != checked[b].id);
                    } else {
                        assert(sensors[a].id != sensors[j as int].id);
                    }
                }
            }
            values.push(INITIAL_VALUE);
            j += 1;
        }
        assert(model.take(j as int) == model);
        let table = TelemetryTable { sensors, values };
        assert(table@ =~= initial(model));
        Ok(table)
    }

    /// The number of sensors in the table.
    pub fn len(&self) -> (n: usize)
        ensures
            n == self@.len(),
    {
        self.sensors.len()
    }

    /// Delivers one update from the sensor subsystem. The entry of the sensor
    /// `id` takes `value`; an update for an id that is not in the table is
    /// dropped. Returns whether the id was in the table.
    pub fn update(&mut self, id: u64, value: u64) -> (found: bool)
        ensures
            final(self)@ == updated(old(self)@, id, value),
            found == has_id(old(self)@, id),
            !found ==> final(self)@ == old(self)@,
            distinct_ids(final(self)@),
    {
        proof {
            use_type_invariant(&*self);
        }
        let ghost ids = sensors_model(self.sensors@);
        let mut i: usize = 0;
        while i < self.sensors.len()
            invariant
                i <= self.sensors.len(),
                *self == *old(self),
                self.values@.len() == self.sensors@.len(),
                ids == sensors_model(self.sensors@),
                distinct_sensors(ids),
                forall|k: int| 0 <= k < i ==> (#[trigger] ids[k]).id != id,
            decreases self.sensors.len() - i,
        {
            if self.sensors[i].id == id {
                self.values[i] = value;
                proof {
                    let before = old(self)@;
                    let after = self@;
                    assert(before[i as int].sensor.id == id);
                    assert forall|k: int| 0 <= k < before.len() && k != i implies (
                    #[trigger] before[k]).sensor.id != id by {
                        assert(ids[k].id != ids[i as int].id);
                    }
                    assert(after =~= updated(before, id, value));
                    assert forall|a: int, b: int| 0 <= a < b < after.len() implies after[a].sensor.id
                        != after[b].sensor.id by {
                        assert(ids[a].id != ids[b].id);
                    }
                }
                return true;
            }
            i += 1;
        }
        proof {
            let before = old(self)@;
            assert forall|k: int| 0 <= k < before.len() implies (#[trigger] before[k]).sensor.id
                != id by {
                assert(ids[k].id != id);
            }
            assert(self@ =~= updated(before, id, value));
            assert forall|a: int, b: int| 0 <= a < b < before.len() implies before[a].sensor.id
                != before[b].sensor.id by {
                assert(ids[a].id != ids[b].id);
            }
        }
        false
    }

    /// Copies the table as it stands: every sensor with its current value,
    /// in table order.
    pub fn snapshot(&self) -> (readings: Vec<Reading>)
        ensures
            readings_model(readings@) == self@,
            distinct_ids(self@),
    {
        proof {
            use_type_invariant(self);
            let model = sensors_model(self.sensors@);
            assert forall|a: int, b: int| 0 <= a < b < self@.len() implies self@[a].sensor.id
                != self@[b].sensor.id by {
                assert(model[a].id != model[b].id);
            }
        }
        let mut readings: Vec<Reading> = Vec::new();
        let mut i: usize = 0;
        while i < self.sensors.len()
            invariant
                i <= self.sensors.len(),
                self.values@.len() == self.sensors@.len(),
                readings_model(readings@) == self@.take(i as int),
            decreases self.sensors.len() - i,
        {
            let ghost before = readings@;
            readings.push(Reading { sensor: self.sensors[i].clone(), value: self.values[i] });
            proof {
                assert(readings_model(readings@) =~= readings_model(before).push(self@[i as int]));
                assert(self@.take(i + 1) =~= self@.take(i as int).push(self@[i as int]));
            }
            i += 1;
        }
        assert(self@.take(i as int) == self@);
        readings
    }
}

} // verus!
