use sensor_dashboard::chart::filter_sensor;
use sensor_dashboard::sensor::{Category, Reading, SensorDescriptor};
use sensor_dashboard::table::{DuplicateId, TelemetryTable, INITIAL_VALUE};

fn sensor(id: u64, name: &str, category: Category, max: Option<u64>) -> SensorDescriptor {
    SensorDescriptor { id, name: name.to_string(), category, max }
}

fn cores() -> Vec<SensorDescriptor> {
    vec![sensor(1, "Core0", Category::Cpu, None), sensor(2, "Core1", Category::Cpu, Some(85))]
}

fn values(table: &TelemetryTable) -> Vec<u64> {
    table.snapshot().iter().map(|r| r.value).collect()
}

#[test]
fn new_table_holds_every_sensor_at_the_initial_value() {
    let table = TelemetryTable::new(cores()).unwrap();
    assert_eq!(INITIAL_VALUE, 1);
    assert_eq!(table.len(), 2);
    assert_eq!(
        table.snapshot(),
        vec![
            Reading { sensor: sensor(1, "Core0", Category::Cpu, None), value: 1 },
            Reading { sensor: sensor(2, "Core1", Category::Cpu, Some(85)), value: 1 },
        ]
    );
}

#[test]
fn new_table_of_no_sensors_is_empty() {
    let mut table = TelemetryTable::new(Vec::new()).unwrap();
    assert_eq!(table.len(), 0);
    assert!(table.snapshot().is_empty());
    assert!(!table.update(1, 5));
    assert!(table.snapshot().is_empty());
}

#[test]
fn new_rejects_a_repeated_id() {
    let sensors = vec![
        sensor(1, "Core0", Category::Cpu, None),
        sensor(2, "Core1", Category::Cpu, None),
        sensor(3, "Card", Category::Gpu, None),
        sensor(2, "Disk", Category::Hdd, None),
        sensor(1, "Fan", Category::Fan, None),
    ];
    assert_eq!(TelemetryTable::new(sensors).err(), Some(DuplicateId(2)));
    let sensors = vec![sensor(7, "a", Category::Cpu, None), sensor(7, "a", Category::Cpu, None)];
    assert_eq!(TelemetryTable::new(sensors).err(), Some(DuplicateId(7)));
}

#[test]
fn new_accepts_equal_names_with_distinct_ids() {
    let sensors = vec![sensor(1, "Core", Category::Cpu, None), sensor(2, "Core", Category::Cpu, None)];
    assert_eq!(TelemetryTable::new(sensors).unwrap().len(), 2);
}

#[test]
fn update_replaces_the_value_of_the_matching_entry_only() {
    let mut table = TelemetryTable::new(vec![
        sensor(10, "Core0", Category::Cpu, None),
        sensor(20, "Card", Category::Gpu, Some(95)),
        sensor(30, "Disk", Category::Hdd, None),
    ])
    .unwrap();
    assert!(table.update(20, 61));
    assert_eq!(
        table.snapshot(),
        vec![
            Reading { sensor: sensor(10, "Core0", Category::Cpu, None), value: 1 },
            Reading { sensor: sensor(20, "Card", Category::Gpu, Some(95)), value: 61 },
            Reading { sensor: sensor(30, "Disk", Category::Hdd, None), value: 1 },
        ]
    );
    assert_eq!(table.len(), 3);
}

#[test]
fn update_for_an_unknown_id_changes_nothing() {
    let mut table = TelemetryTable::new(cores()).unwrap();
    assert!(table.update(1, 45));
    let before = table.snapshot();
    assert!(!table.update(3, 99));
    assert!(!table.update(0, 99));
    assert!(!table.update(u64::MAX, 99));
    assert_eq!(table.snapshot(), before);
    assert_eq!(values(&table), vec![45, 1]);
}

#[test]
fn entries_hold_the_latest_value_after_each_update() {
    let mut table = TelemetryTable::new(vec![
        sensor(1, "Core0", Category::Cpu, None),
        sensor(2, "Core1", Category::Cpu, None),
        sensor(3, "Fan0", Category::Fan, None),
    ])
    .unwrap();
    let updates = [(1, 40), (3, 1200), (1, 42), (9, 5), (2, 55), (3, 0), (1, 44), (3, u64::MAX)];
    let expected = [
        [40, 1, 1],
        [40, 1, 1200],
        [42, 1, 1200],
        [42, 1, 1200],
        [42, 55, 1200],
        [42, 55, 0],
        [44, 55, 0],
        [44, 55, u64::MAX],
    ];
    for (k, &(id, value)) in updates.iter().enumerate() {
        assert_eq!(table.update(id, value), id != 9);
        assert_eq!(values(&table), expected[k].to_vec());
    }
}

#[test]
fn update_to_the_same_value_is_reported_as_found() {
    let mut table = TelemetryTable::new(cores()).unwrap();
    assert!(table.update(2, 1));
    assert_eq!(values(&table), vec![1, 1]);
}

#[test]
fn snapshot_is_a_copy() {
    let mut table = TelemetryTable::new(cores()).unwrap();
    let before = table.snapshot();
    assert!(table.update(1, 45));
    assert_eq!(before[0].value, 1);
    assert_eq!(table.snapshot()[0].value, 45);
}

#[test]
fn updates_then_snapshot_fill_the_cpu_chart() {
    let mut table = TelemetryTable::new(cores()).unwrap();
    assert_eq!(values(&table), vec![1, 1]);
    assert!(table.update(1, 45));
    assert!(table.update(2, 70));
    let snapshot = table.snapshot();
    let (bars, ceiling) = filter_sensor(&snapshot, Category::Cpu, Category::Cpu.default_ceiling());
    assert_eq!(bars, vec![("Core0", 45), ("Core1", 70)]);
    assert_eq!(ceiling, 85);
}

#[test]
fn descriptor_and_reading_clone_to_equal_values() {
    let descriptor = sensor(4, "Fan0", Category::Fan, Some(3000));
    assert_eq!(descriptor.clone(), descriptor);
    let reading = Reading { sensor: descriptor, value: 1500 };
    assert_eq!(reading.clone(), reading);
}
