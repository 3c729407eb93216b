//! Grouping a snapshot into the bars of one chart, and scaling the chart.

use crate::sensor::{Category, Reading, ReadingModel, readings_model};
use vstd::prelude::*;
use vstd::seq_lib::to_multiset_contains;

verus! {

/// A bar of a chart: the label under it and its height.
pub type BarModel = (Seq<char>, u64);

/// The bars as mathematical values, in the same order.
pub open spec fn bars_model<'a>(bars: Seq<(&'a str, u64)>) -> Seq<BarModel> {
    bars.map_values(|b: (&'a str, u64)| (b.0@, b.1))
}

/// The bars of the chart of `category`: one for each reading of that
/// category, in the order of the snapshot.
pub open spec fn bucket(readings: Seq<ReadingModel>, category: Category) -> Seq<BarModel> {
    readings.filter(|r: ReadingModel| r.sensor.category == category).map_values(
        |r: ReadingModel| (r.sensor.name, r.value),
    )
}

/// Some sensor of `category` declares the scale ceiling `max`.
pub open spec fn declares(readings: Seq<ReadingModel>, category: Category, max: u64) -> bool {
    exists|i: int|
        0 <= i < readings.len() && (#[trigger] readings[i]).sensor.category == category
            && readings[i].sensor.max == Some(max)
}

/// Some sensor of `category` declares a scale ceiling.
pub open spec fn has_declared_max(readings: Seq<ReadingModel>, category: Category) -> bool {
    exists|max: u64| declares(readings, category, max)
}

/// `max` is declared in `category`, and nothing greater is.
pub open spec fn is_greatest_declared(
    readings: Seq<ReadingModel>,
    category: Category,
    max: u64,
) -> bool {
    &&& declares(readings, category, max)
    &&& forall|other: u64| declares(readings, category, other) ==> other <= max
}

/// The scale ceiling of the chart of `category`: the greatest ceiling that a
/// sensor of the category declares, or `default_max` where none declares one.
pub open spec fn ceiling(readings: Seq<ReadingModel>, category: Category, default_max: u64) -> u64 {
    if has_declared_max(readings, category) {
        choose|max: u64| is_greatest_declared(readings, category, max)
    } else {
        default_max
    }
}

/// At most one value is the greatest declared ceiling of a category.
pub proof fn lemma_greatest_declared_unique(
    readings: Seq<ReadingModel>,
    category: Category,
    a: u64,
    b: u64,
)
    requires
        is_greatest_declared(readings, category, a),
        is_greatest_declared(readings, category, b),
    ensures
        a == b,
{
}

/// The greatest declared ceiling, once found, is the ceiling of the chart.
pub proof fn lemma_ceiling_is_greatest(
    readings: Seq<ReadingModel>,
    category: Category,
    default_max: u64,
    max: u64,
)
    requires
        is_greatest_declared(readings, category, max),
    ensures
        ceiling(readings, category, default_max) == max,
{
    let chosen = choose|m: u64| is_greatest_declared(readings, category, m);
    lemma_greatest_declared_unique(readings, category, chosen, max);
}

/// Where no sensor of the category declares a ceiling, the ceiling of its
/// chart is the default. This covers the category without sensors.
pub proof fn lemma_ceiling_defaults(
    readings: Seq<ReadingModel>,
    category: Category,
    default_max: u64,
)
    requires
        forall|i: int|
            0 <= i < readings.len() && (#[trigger] readings[i]).sensor.category == category
                ==> readings[i].sensor.max is None,
    ensures
        ceiling(readings, category, default_max) == default_max,
{
}

/// Where some sensor of the category declares a ceiling, the ceiling of its
/// chart is the greatest of the declared ones, whatever the default.
pub proof fn lemma_ceiling_is_declared_maximum(
    readings: Seq<ReadingModel>,
    category: Category,
    default_max: u64,
)
    requires
        has_declared_max(readings, category),
    ensures
        is_greatest_declared(readings, category, ceiling(readings, category, default_max)),
    decreases readings.len(),
{
    let front = readings.drop_last();
    let last = readings.last();
    assert forall|max: u64| declares(front, category, max) implies declares(
        readings,
        category,
        max,
    ) by {
        let i = choose|i: int|
            0 <= i < front.len() && (#[trigger] front[i]).sensor.category == category
                && front[i].sensor.max == Some(max);
        assert(readings[i] == front[i]);
    }
    assert forall|max: u64| declares(readings, category, max) implies declares(
        front,
        category,
        max,
    ) || (last.sensor.category == category && last.sensor.max == Some(max)) by {
        let i = choose|i: int|
            0 <= i < readings.len() && (#[trigger] readings[i]).sensor.category == category
                && readings[i].sensor.max == Some(max);
        if i < front.len() {
            assert(front[i] == readings[i]);
        }
    }
    let last_declares = last.sensor.category == category && last.sensor.max is Some;
    let greatest: u64 = if has_declared_max(front, category) {
        lemma_ceiling_is_declared_maximum(front, category, default_max);
        let before = ceiling(front, category, default_max);
        if last_declares && last.sensor.max->0 > before {
            last.sensor.max->0
        } else {
            before
        }
    } else {
        last.sensor.max->0
    };
    if last_declares {
        assert(readings[readings.len() - 1] == last);
        assert(declares(readings, category, last.sensor.max->0));
    }
    assert(is_greatest_declared(readings, category, greatest));
    lemma_ceiling_is_greatest(readings, category, default_max, greatest);
}

/// The ceiling of a chart does not depend on the order of the snapshot: two
/// snapshots that hold the same readings give the same ceiling.
pub proof fn lemma_ceiling_ignores_order(
    a: Seq<ReadingModel>,
    b: Seq<ReadingModel>,
    category: Category,
    default_max: u64,
)
    requires
        a.to_multiset() == b.to_multiset(),
    ensures
        ceiling(a, category, default_max) == ceiling(b, category, default_max),
{
    assert forall|max: u64| declares(a, category, max) == declares(b, category, max) by {
        if declares(a, category, max) {
            lemma_same_readings_declare_the_same(a, b, category, max);
        }
        if declares(b, category, max) {
            lemma_same_readings_declare_the_same(b, a, category, max);
        }
    }
    lemma_same_declarations_same_ceiling(a, b, category, default_max);
}

/// The ceiling of a chart does not depend on the values of the sensors: two
/// snapshots of the same sensors give the same ceiling.
pub proof fn lemma_ceiling_ignores_values(
    a: Seq<ReadingModel>,
    b: Seq<ReadingModel>,
    category: Category,
    default_max: u64,
)
    requires
        a.len() == b.len(),
        forall|i: int| 0 <= i < a.len() ==> (#[trigger] a[i]).sensor == b[i].sensor,
    ensures
        ceiling(a, category, default_max) == ceiling(b, category, default_max),
{
    assert forall|max: u64| declares(a, category, max) == declares(b, category, max) by {
        if declares(a, category, max) {
            let i = choose|i: int|
                0 <= i < a.len() && (#[trigger] a[i]).sensor.category == category
                    && a[i].sensor.max == Some(max);
            assert(b[i].sensor == a[i].sensor);
        }
        if declares(b, category, max) {
            let i = choose|i: int|
                0 <= i < b.len() && (#[trigger] b[i]).sensor.category == category
                    && b[i].sensor.max == Some(max);
            assert(a[i].sensor == b[i].sensor);
        }
    }
    lemma_same_declarations_same_ceiling(a, b, category, default_max);
}

/// Snapshots in which the same ceilings are declared have the same ceiling.
proof fn lemma_same_declarations_same_ceiling(
    a: Seq<ReadingModel>,
    b: Seq<ReadingModel>,
    category: Category,
    default_max: u64,
)
    requires
        forall|max: u64| declares(a, category, max) == declares(b, category, max),
    ensures
        ceiling(a, category, default_max) == ceiling(b, category, default_max),
{
    if has_declared_max(a, category) {
        lemma_ceiling_is_declared_maximum(a, category, default_max);
        lemma_ceiling_is_greatest(b, category, default_max, ceiling(a, category, default_max));
    }
}

/// What a reading of `a` declares, the same readings in another order
/// declare too.
proof fn lemma_same_readings_declare_the_same(
    a: Seq<ReadingModel>,
    b: Seq<ReadingModel>,
    category: Category,
    max: u64,
)
    requires
        a.to_multiset() == b.to_multiset(),
        declares(a, category, max),
    ensures
        declares(b, category, max),
{
    let i = choose|i: int|
        0 <= i < a.len() && (#[trigger] a[i]).sensor.category == category && a[i].sensor.max
            == Some(max);
    assert(a.contains(a[i]));
    to_multiset_contains(a, a[i]);
    to_multiset_contains(b, a[i]);
    let j = choose|j: int| 0 <= j < b.len() && b[j] == a[i];
    assert(b[j].sensor.category == category && b[j].sensor.max == Some(max));
}

/// Picks the readings of `sensor_type` out of a snapshot. Returns their bars,
/// in snapshot order, and the scale ceiling of their chart.
pub fn filter_sensor<'a>(sensors: &'a [Reading], sensor_type: Category, default_max: u64) -> (chart:
    (Vec<(&'a str, u64)>, u64))
    ensures
        bars_model(chart.0@) == bucket(readings_model(sensors@), sensor_type),
        chart.1 == ceiling(readings_model(sensors@), sensor_type, default_max),
        has_declared_max(readings_model(sensors@), sensor_type) ==> is_greatest_declared(
            readings_model(sensors@),
            sensor_type,
            chart.1,
        ),
        !has_declared_max(readings_model(sensors@), sensor_type) ==> chart.1 == default_max,
{
    let ghost readings = readings_model(sensors@);
    let ghost in_category = |r: ReadingModel| r.sensor.category == sensor_type;
    let mut bars: Vec<(&'a str, u64)> = Vec::new();
    let mut greatest: Option<u64> = None;
    let mut i: usize = 0;
    while i < sensors.len()
        invariant
            i <= sensors.len(),
            readings == readings_model(sensors@),
            in_category == |r: ReadingModel| r.sensor.category == sensor_type,
            bars_model(bars@) == readings.take(i as int).filter(in_category).map_values(
                |r: ReadingModel| (r.sensor.name, r.value),
            ),
            greatest is None ==> forall|j: int|
                0 <= j < i && (#[trigger] readings[j]).sensor.category == sensor_type
                    ==> readings[j].sensor.max is None,
            greatest matches Some(m) ==> {
                &&& exists|j: int|
                    0 <= j < i && (#[trigger] readings[j]).sensor.category == sensor_type
                        && readings[j].sensor.max == Some(m)
                &&& forall|j: int|
                    0 <= j < i && (#[trigger] readings[j]).sensor.category == sensor_type
                        && readings[j].sensor.max is Some ==> readings[j].sensor.max->0 <= m
            },
        decreases sensors.len() - i,
    {
        let reading = &sensors[i];
        let ghost bars_before = bars@;
        let ghost kept_before = readings.take(i as int).filter(in_category);
        let ghost kept_after = readings.take(i + 1).filter(in_category);
        proof {
            assert(readings.take(i + 1).drop_last() == readings.take(i as int));
            assert(readings.take(i + 1).last() == readings[i as int]);
            reveal(Seq::filter);
            assert(kept_after == if in_category(readings[i as int]) {
                kept_before.push(readings[i as int])
            } else {
                kept_before
            });
        }
        if reading.sensor.category == sensor_type {
            bars.push((reading.sensor.name.as_str(), reading.value));
            proof {
                let bar = |r: ReadingModel| (r.sensor.name, r.value);
                assert(bars_model(bars@) =~= bars_model(bars_before).push(
                    (reading.sensor.name@, reading.value),
                ));
                assert(kept_after.map_values(bar) =~= kept_before.map_values(bar).push(
                    bar(readings[i as int]),
                ));
            }
            match reading.sensor.max {
                Some(max) => {
                    match greatest {
                        Some(m) => {
                            if m < max {
                                greatest = Some(max);
                            }
                        },
                        None => {
                            greatest = Some(max);
                        },
                    }
                },
                None => {},
            }
        }
        i += 1;
    }
    proof {
        assert(readings.take(i as int) == readings);
        match greatest {
            Some(m) => {
                lemma_ceiling_is_greatest(readings, sensor_type, default_max, m);
            },
            None => {},
        }
    }
    let top = match greatest {
        Some(m) => m,
        None => default_max,
    };
    (bars, top)
}

} // verus!
