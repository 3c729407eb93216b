use sensor_dashboard::chart::filter_sensor;
use sensor_dashboard::sensor::{Category, Reading, SensorDescriptor};

fn chart_reading(id: u64, name: &str, category: Category, max: Option<u64>, value: u64) -> Reading {
    Reading { sensor: SensorDescriptor { id, name: name.to_string(), category, max }, value }
}

#[test]
fn bars_are_the_readings_of_the_category_in_order() {
    let snapshot = vec![
        chart_reading(1, "Core0", Category::Cpu, None, 45),
        chart_reading(2, "Card", Category::Gpu, Some(95), 60),
        chart_reading(3, "Core1", Category::Cpu, Some(85), 70),
        chart_reading(4, "Disk", Category::Hdd, None, 30),
        chart_reading(5, "Core2", Category::Cpu, None, 50),
    ];
    let (bars, _) = filter_sensor(&snapshot, Category::Cpu, 80);
    assert_eq!(bars, vec![("Core0", 45), ("Core1", 70), ("Core2", 50)]);
    let (bars, _) = filter_sensor(&snapshot, Category::Gpu, 90);
    assert_eq!(bars, vec![("Card", 60)]);
    let (bars, _) = filter_sensor(&snapshot, Category::Fan, 4000);
    assert!(bars.is_empty());
}

#[test]
fn ceiling_is_the_greatest_declared_max() {
    let snapshot = vec![
        chart_reading(1, "Core0", Category::Cpu, Some(70), 45),
        chart_reading(2, "Core1", Category::Cpu, Some(105), 70),
        chart_reading(3, "Core2", Category::Cpu, Some(85), 50),
    ];
    let (_, ceiling) = filter_sensor(&snapshot, Category::Cpu, 80);
    assert_eq!(ceiling, 105);
}

#[test]
fn ceiling_ignores_undeclared_maxima() {
    let snapshot = vec![
        chart_reading(1, "Core0", Category::Cpu, None, 45),
        chart_reading(2, "Core1", Category::Cpu, Some(85), 70),
        chart_reading(3, "Core2", Category::Cpu, None, 50),
    ];
    let (_, ceiling) = filter_sensor(&snapshot, Category::Cpu, 80);
    assert_eq!(ceiling, 85);
}

#[test]
fn ceiling_ignores_other_categories() {
    let snapshot = vec![
        chart_reading(1, "Core0", Category::Cpu, Some(85), 45),
        chart_reading(2, "Fan0", Category::Fan, Some(5000), 1200),
        chart_reading(3, "Card", Category::Gpu, None, 60),
    ];
    assert_eq!(filter_sensor(&snapshot, Category::Cpu, 80).1, 85);
    assert_eq!(filter_sensor(&snapshot, Category::Fan, 4000).1, 5000);
    assert_eq!(filter_sensor(&snapshot, Category::Gpu, 90).1, 90);
    assert_eq!(filter_sensor(&snapshot, Category::Hdd, 60).1, 60);
}

#[test]
fn ceiling_does_not_depend_on_snapshot_order() {
    let maxima = [Some(70), None, Some(105), Some(85)];
    let orders: [[usize; 4]; 5] =
        [[0, 1, 2, 3], [3, 2, 1, 0], [2, 0, 3, 1], [1, 3, 0, 2], [2, 3, 1, 0]];
    for order in orders.iter() {
        let snapshot: Vec<Reading> = order
            .iter()
            .map(|&k| chart_reading(k as u64, "Core", Category::Cpu, maxima[k], 40 + k as u64))
            .collect();
        assert_eq!(filter_sensor(&snapshot, Category::Cpu, 80).1, 105);
    }
}

#[test]
fn declared_max_wins_over_a_greater_default() {
    let snapshot = vec![chart_reading(1, "Core0", Category::Cpu, Some(50), 45)];
    assert_eq!(filter_sensor(&snapshot, Category::Cpu, 80).1, 50);
    let snapshot = vec![chart_reading(1, "Core0", Category::Cpu, Some(0), 45)];
    assert_eq!(filter_sensor(&snapshot, Category::Cpu, 80).1, 0);
}

#[test]
fn empty_category_takes_the_default() {
    let snapshot: Vec<Reading> = Vec::new();
    let (bars, ceiling) = filter_sensor(&snapshot, Category::Cpu, 80);
    assert!(bars.is_empty());
    assert_eq!(ceiling, 80);
    assert_eq!(filter_sensor(&snapshot, Category::Fan, 1234).1, 1234);
}

#[test]
fn category_without_declared_max_takes_the_default() {
    let snapshot = vec![
        chart_reading(1, "Fan0", Category::Fan, None, 1200),
        chart_reading(2, "Fan1", Category::Fan, None, 900),
    ];
    let (bars, ceiling) = filter_sensor(&snapshot, Category::Fan, 4000);
    assert_eq!(bars, vec![("Fan0", 1200), ("Fan1", 900)]);
    assert_eq!(ceiling, 4000);
}

#[test]
fn other_sensors_are_told_apart_by_their_flag() {
    let snapshot = vec![
        chart_reading(1, "Board", Category::Other(true), Some(120), 35),
        chart_reading(2, "Hidden", Category::Other(false), Some(500), 7),
        chart_reading(3, "Case", Category::Other(true), None, 28),
    ];
    let (bars, ceiling) = filter_sensor(&snapshot, Category::Other(true), 80);
    assert_eq!(bars, vec![("Board", 35), ("Case", 28)]);
    assert_eq!(ceiling, 120);
    let (bars, ceiling) = filter_sensor(&snapshot, Category::Other(false), 80);
    assert_eq!(bars, vec![("Hidden", 7)]);
    assert_eq!(ceiling, 500);
}

#[test]
fn default_ceilings_by_category() {
    assert_eq!(Category::Cpu.default_ceiling(), 80);
    assert_eq!(Category::Gpu.default_ceiling(), 90);
    assert_eq!(Category::Hdd.default_ceiling(), 60);
    assert_eq!(Category::Fan.default_ceiling(), 4000);
    assert_eq!(Category::Other(true).default_ceiling(), 80);
    assert_eq!(Category::Other(false).default_ceiling(), 80);
}

#[test]
fn greatest_value_of_the_range_is_a_ceiling() {
    let snapshot = vec![
        chart_reading(1, "Core0", Category::Cpu, Some(u64::MAX), u64::MAX),
        chart_reading(2, "Core1", Category::Cpu, Some(85), 0),
    ];
    let (bars, ceiling) = filter_sensor(&snapshot, Category::Cpu, 80);
    assert_eq!(bars, vec![("Core0", u64::MAX), ("Core1", 0)]);
    assert_eq!(ceiling, u64::MAX);
}
