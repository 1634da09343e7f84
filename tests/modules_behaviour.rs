use cerebro::config::{Config, ModuleConfig, TemperatureConfig};
use cerebro::events::{EventManager, Events};
use cerebro::fstree::InodeCounter;
use cerebro::modules::battery::{format_time, Battery, BatteryData, BatteryLife};
use cerebro::modules::brightness::{Brightness, BrightnessData};
use cerebro::modules::cpu::{select_temperatures, temperature_settings, Cpu, CpuListData, LogicalSample, PhysicalData, SensorFeature};
use cerebro::modules::memory::{Memory, MemoryData};
use cerebro::modules::module::{next_action, Module, Status, WorkerAction};
use cerebro::modules::trash::{Trash, TrashData};
use cerebro::triggers::Kind;
use cerebro::error::CerebroError;

fn round_trips(json: &str) -> bool {
    let v: serde_json::Value = serde_json::from_str(json).unwrap();
    serde_json::to_string(&v).unwrap() == json
}

#[test]
fn battery_transitions_and_formats() {
    let mut inodes = InodeCounter::new();
    let mut b = Battery::new(&mut inodes);
    let t = b.update(Some(true), Some(BatteryLife { percent: 18, remaining_s: 7322 }));
    assert_eq!(t.len(), 3);
    assert_eq!((t[0].kind, t[0].field.as_str(), t[0].old.as_str(), t[0].new.as_str()), (Kind::Update, "plugged", "?", "true"));
    assert_eq!(t[1].new, "18");
    assert_eq!(t[2].new, "02h02m");
    let again = b.update(Some(true), Some(BatteryLife { percent: 18, remaining_s: 7322 }));
    assert!(again.is_empty());
    assert_eq!(b.shell(), "plugged=true percent=18 time_remaining=02h02m");
    assert_eq!(b.json(), r#"{"plugged":"true","percent":"18","time_remaining":"02h02m"}"#);
    assert!(round_trips(&b.json()));
    assert_eq!(format_time(0), "00h00m");
    assert_eq!(format_time(3600 * 123 + 59), "123h59m");
    let data = BatteryData::new();
    assert_eq!(data.plugged, "?");
}

#[test]
fn memory_first_reading_creates() {
    let mut inodes = InodeCounter::new();
    let mut m = Memory::new(&mut inodes);
    let t = m.update(100, 400);
    assert_eq!(t.len(), 3);
    assert!(t.iter().all(|x| x.kind == Kind::Create));
    assert_eq!(t[2].new, "300");
    let t = m.update(150, 400);
    assert_eq!(t.len(), 2);
    assert!(t.iter().all(|x| x.kind == Kind::Update));
    assert_eq!(m.json(), r#"{"free":"150","total":"400","used":"250"}"#);
    assert!(round_trips(&m.json()));
    assert_eq!(m.shell(), "free=150 total=400 used=250");
    assert_eq!(MemoryData::new().used, "?");
}

#[test]
fn trash_count_and_snapshot() {
    let mut inodes = InodeCounter::new();
    let mut t = Trash::new(&mut inodes);
    assert_eq!(TrashData::new().count, "?");
    let changes = t.update_count(1);
    assert_eq!(changes[0].new, "0");
    assert!(t.update_count(1).is_empty());
    assert!(round_trips(&t.json()));
    assert_eq!(t.value(t.inode_empty), "");
}

#[test]
fn brightness_snapshot_and_writes() {
    let mut inodes = InodeCounter::new();
    let mut b = Brightness::new();
    let d = |n: &str| BrightnessData {
        device: n.to_string(),
        value: "5".to_string(),
        current_value: "4".to_string(),
        max_value: "9".to_string(),
    };
    let (s, _) = b.build_filesystem(vec![d("intel"), d("amdgpu")], &mut inodes);
    assert!(matches!(s, Status::Changed(_)));
    let (s, t) = b.build_filesystem(vec![d("c")], &mut inodes);
    assert!(matches!(s, Status::Unchanged));
    assert!(t.is_empty());
    assert_eq!(b.shell(), "intel_brightness=5 intel_actual_brightness=4 intel_max_brightness=9amdgpu_brightness=5 amdgpu_actual_brightness=4 amdgpu_max_brightness=9");
    assert!(round_trips(&b.json()));
    let t = b.brightness_written("/sys/class/backlight/amdgpu/brightness", "7".to_string());
    assert_eq!((t[0].field.as_str(), t[0].old.as_str(), t[0].new.as_str()), ("amdgpu/value", "5", "7"));
    assert_eq!(b.value(b.devices[1].inode_value), "7");
    assert!(b.brightness_written("/nowhere", "1".to_string()).is_empty());
}

#[test]
fn cpu_samples() {
    let mut inodes = InodeCounter::new();
    let mut c = Cpu::new(&mut inodes);
    let (s, t) = c.update_logical(None, 5, &mut inodes);
    assert!(matches!(s, Status::Unchanged));
    assert!(t.is_empty());
    let sample = LogicalSample { usages: vec!["1".to_string(), "2".to_string()], average: "1.5".to_string() };
    let (s, t) = c.update_logical(Some(sample), 7, &mut inodes);
    assert!(matches!(s, Status::Changed(_)));
    let fields: Vec<&str> = t.iter().map(|x| x.field.as_str()).collect();
    assert_eq!(fields, vec!["logical/averrage/usage_percent", "logical/count", "logical/0/usage_percent", "logical/1/usage_percent", "logical/timestamp"]);
    assert_eq!(t[2].kind, Kind::Create);
    let sample = LogicalSample { usages: vec!["1".to_string(), "3".to_string()], average: "2".to_string() };
    let (s, t) = c.update_logical(Some(sample), 8, &mut inodes);
    assert!(matches!(s, Status::Unchanged));
    let fields: Vec<&str> = t.iter().map(|x| x.field.as_str()).collect();
    assert_eq!(fields, vec!["logical/averrage/usage_percent", "logical/1/usage_percent", "logical/timestamp"]);
    let (s, _) = c.update_physical(vec![40, 45], 8, &mut inodes);
    assert!(matches!(s, Status::Changed(_)));
    assert_eq!(
        c.shell(),
        "logical_cpu_count=2 logical_averrage_usage=2 physical_cpu_count=2 logical_cpu_0_usage=1 logical_cpu_1_usage=3 physical_cpu_0_temperature=40 physical_cpu_1_temperature=45"
    );
    assert!(round_trips(&c.json()));
    assert_eq!(c.value(c.inode_logical_timestamp), "8");
    assert_eq!(c.value(c.physical_ids[1].file), "45");
    assert_eq!(c.value(c.physical_ids[1].dir), "?");
    assert_eq!(c.value(c.inode_logical_averrage_usage), "2");
    assert_eq!(PhysicalData::new(-3).temperature, "?");
    assert_eq!(CpuListData::new().logical_count, "0");
}

#[test]
fn temperatures_from_sensors() {
    let f = |n: &str, v: Vec<u8>| SensorFeature { name: n.to_string(), inputs: v };
    let features = vec![f("Core 0", vec![0, 41]), f("Package", vec![50]), f("Core 1", vec![0, 0]), f("Core 2", vec![43])];
    assert_eq!(select_temperatures("^Core", &features).unwrap(), vec![41, 43]);
    assert!(select_temperatures("(", &features).is_err());
    let mut c = ModuleConfig::new();
    assert!(temperature_settings(&c).is_err());
    c.temperature = Some(TemperatureConfig { device: Some("coretemp".to_string()), pattern: None });
    assert!(temperature_settings(&c).is_err());
    c.temperature = Some(TemperatureConfig { device: Some("coretemp".to_string()), pattern: Some("Core".to_string()) });
    let (d, p) = temperature_settings(&c).unwrap();
    assert_eq!((d.as_str(), p.as_str()), ("coretemp", "Core"));
}

#[test]
fn worker_decisions() {
    assert_eq!(next_action(&Status::Changed("cpu".to_string()), false), WorkerAction::AnnounceAndStop);
    assert_eq!(next_action(&Status::Unchanged, true), WorkerAction::Stop);
    assert_eq!(next_action(&Status::Error, false), WorkerAction::Sleep);
}

#[test]
fn events_are_first_in_first_out() {
    let mut q = EventManager::new();
    q.send(Events::ModuleUpdated("a".to_string()));
    q.send(Events::ModuleUpdated("b".to_string()));
    assert_eq!(q.len(), 2);
    assert!(matches!(q.receive(), Some(Events::ModuleUpdated(ref n)) if n == "a"));
    assert!(matches!(q.receive(), Some(Events::ModuleUpdated(ref n)) if n == "b"));
    assert!(q.receive().is_none());
}

#[test]
fn configuration_lookup() {
    let mut on = ModuleConfig::new();
    on.enabled = Some(true);
    let config = Config::new(vec![("cpu".to_string(), on), ("battery".to_string(), ModuleConfig::new())]);
    assert!(config.module("cpu").unwrap().is_enabled());
    assert!(!config.module("battery").unwrap().is_enabled());
    assert!(config.module("trash").is_none());
    assert!(!ModuleConfig::new().json_enabled());
    assert_eq!(CerebroError::new("boom").to_string(), "boom");
}

#[test]
fn json_strings_are_escaped() {
    let mut inodes = InodeCounter::new();
    let mut b = Brightness::new();
    let reading = BrightnessData {
        device: "x\"y\\\n\u{1}".to_string(),
        value: "1".to_string(),
        current_value: "2".to_string(),
        max_value: "3".to_string(),
    };
    b.build_filesystem(vec![reading], &mut inodes);
    assert_eq!(
        b.json(),
        r#"[{"device":"x\"y\\\n\u0001","value":"1","current_value":"2","max_value":"3"}]"#
    );
    assert!(round_trips(&b.json()));
}

#[test]
fn fresh_identifiers_for_devices_and_cpus() {
    let mut inodes = InodeCounter::new();
    let mut c = Cpu::new(&mut inodes);
    assert_eq!(
        (c.inode_logical, c.inode_logical_averrage, c.inode_logical_averrage_usage, c.inode_logical_count),
        (2, 3, 4, 5)
    );
    assert_eq!((c.inode_logical_timestamp, c.inode_physical, c.inode_physical_count, c.inode_physical_timestamp), (6, 7, 8, 9));
    c.update_physical(vec![40, 41], 1, &mut inodes);
    assert_eq!((c.physical_ids[0].dir, c.physical_ids[0].file, c.physical_ids[1].dir, c.physical_ids[1].file), (10, 11, 12, 13));
    let mut b = Brightness::new();
    let d = BrightnessData { device: "d".to_string(), value: "1".to_string(), current_value: "1".to_string(), max_value: "1".to_string() };
    b.build_filesystem(vec![d], &mut inodes);
    let dev = &b.devices[0];
    assert_eq!((dev.inode_dir, dev.inode_value, dev.inode_current_value, dev.inode_max_value), (14, 15, 16, 17));
}
