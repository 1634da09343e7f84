use cerebro::config::{Config, JsonConfig, ModuleConfig, ShellConfig};
use cerebro::filesystem::{read_slice, FsBackend, FsError};
use cerebro::fstree::{FileType, FsEntry, InodeCounter, Mode, INODE_ROOT};
use cerebro::modules::any::AnyModule;
use cerebro::modules::battery::{Battery, BatteryLife};
use cerebro::modules::brightness::{Brightness, BrightnessData};
use cerebro::modules::cpu::{Cpu, LogicalSample};
use cerebro::modules::module::{Module, Status, WriteAction};
use cerebro::modules::trash::Trash;

fn enabled(timeout_s: u64) -> ModuleConfig {
    let mut c = ModuleConfig::new();
    c.enabled = Some(true);
    c.timeout_s = Some(timeout_s);
    c
}

fn names(items: &[cerebro::filesystem::DirItem]) -> Vec<String> {
    items.iter().map(|d| d.name.clone()).collect()
}

fn lookup_path(b: &FsBackend<AnyModule>, path: &[&str]) -> u64 {
    let mut ino = INODE_ROOT;
    for p in path {
        ino = b.lookup(ino, p).expect("path resolves").ino;
    }
    ino
}

fn backend(modules: Vec<AnyModule>, config: Vec<(&str, ModuleConfig)>, inodes: &mut InodeCounter) -> FsBackend<AnyModule> {
    let config = Config::new(config.into_iter().map(|(n, c)| (n.to_string(), c)).collect());
    let mut b = FsBackend::new(modules, config);
    b.register_modules(inodes);
    b
}

#[test]
fn empty_config_lists_only_dots() {
    let mut inodes = InodeCounter::new();
    let battery = Battery::new(&mut inodes);
    let b = backend(vec![AnyModule::Battery(battery)], vec![], &mut inodes);
    let items = b.readdir(INODE_ROOT, 0).unwrap();
    assert_eq!(names(&items), vec![".", ".."]);
    assert_eq!(items[0].ino, INODE_ROOT);
    assert_eq!(items[0].offset, 1);
    assert_eq!(items[1].offset, 2);
}

#[test]
fn battery_after_one_tick() {
    let mut inodes = InodeCounter::new();
    let battery = Battery::new(&mut inodes);
    let mut b = backend(vec![AnyModule::Battery(battery)], vec![("battery", enabled(5))], &mut inodes);
    if let AnyModule::Battery(m) = &mut b.modules[0] {
        m.update(Some(false), Some(BatteryLife { percent: 87, remaining_s: 3725 }));
    }
    let plugged = lookup_path(&b, &["battery", "plugged"]);
    let percent = lookup_path(&b, &["battery", "percent"]);
    let time = lookup_path(&b, &["battery", "time_remaining"]);
    assert_eq!(b.read(plugged, 0, 4096).unwrap(), b"false".to_vec());
    let p = String::from_utf8(b.read(percent, 0, 4096).unwrap()).unwrap();
    assert!(p == "?" || (!p.is_empty() && p.len() <= 3 && p.chars().all(|c| c.is_ascii_digit())));
    assert_eq!(p, "87");
    assert_eq!(b.read(time, 0, 4096).unwrap(), b"01h05m".to_vec());
}

#[test]
fn battery_without_reading_is_unknown() {
    let mut inodes = InodeCounter::new();
    let battery = Battery::new(&mut inodes);
    let b = backend(vec![AnyModule::Battery(battery)], vec![("battery", enabled(5))], &mut inodes);
    let percent = lookup_path(&b, &["battery", "percent"]);
    assert_eq!(b.read(percent, 0, 4096).unwrap(), b"?".to_vec());
}

#[test]
fn full_read_returns_the_value() {
    let mut inodes = InodeCounter::new();
    let battery = Battery::new(&mut inodes);
    let mut b = backend(vec![AnyModule::Battery(battery)], vec![("battery", enabled(5))], &mut inodes);
    if let AnyModule::Battery(m) = &mut b.modules[0] {
        m.update(Some(true), None);
    }
    let plugged = lookup_path(&b, &["battery", "plugged"]);
    let value = b.modules[0].value(plugged);
    assert_eq!(b.read(plugged, 0, u32::MAX).unwrap(), value.as_bytes().to_vec());
    assert_eq!(value, "true");
    let attr = b.getattr(plugged).unwrap();
    assert_eq!(attr.size, 4);
    assert_eq!(attr.perm, 0o444);
    assert_eq!(attr.nlink, 1);
    assert_eq!(attr.blocks, 1);
}

#[test]
fn read_past_end_is_empty() {
    let mut inodes = InodeCounter::new();
    let battery = Battery::new(&mut inodes);
    let mut b = backend(vec![AnyModule::Battery(battery)], vec![("battery", enabled(5))], &mut inodes);
    if let AnyModule::Battery(m) = &mut b.modules[0] {
        m.update(Some(true), None);
    }
    let plugged = lookup_path(&b, &["battery", "plugged"]);
    assert_eq!(b.read(plugged, 4, 10).unwrap(), Vec::<u8>::new());
    assert_eq!(b.read(plugged, 100, 10).unwrap(), Vec::<u8>::new());
    assert_eq!(b.read(plugged, -1, 10).unwrap(), Vec::<u8>::new());
}

#[test]
fn read_is_truncated_to_length() {
    let mut inodes = InodeCounter::new();
    let battery = Battery::new(&mut inodes);
    let mut b = backend(vec![AnyModule::Battery(battery)], vec![("battery", enabled(5))], &mut inodes);
    if let AnyModule::Battery(m) = &mut b.modules[0] {
        m.update(Some(false), None);
    }
    let plugged = lookup_path(&b, &["battery", "plugged"]);
    assert_eq!(b.read(plugged, 2, 100).unwrap(), b"lse".to_vec());
    assert_eq!(b.read(plugged, 1, 2).unwrap(), b"al".to_vec());
    assert_eq!(read_slice(b"hello", 3, 10), b"lo".to_vec());
    assert_eq!(read_slice(b"hello", 1, 3), b"ell".to_vec());
}

#[test]
fn write_only_and_read_only_rejections() {
    let mut inodes = InodeCounter::new();
    let battery = Battery::new(&mut inodes);
    let trash = Trash::new(&mut inodes);
    let mut b = backend(
        vec![AnyModule::Battery(battery), AnyModule::Trash(trash)],
        vec![("battery", enabled(5)), ("trash", enabled(5))],
        &mut inodes,
    );
    if let AnyModule::Battery(m) = &mut b.modules[0] {
        m.update(Some(true), None);
    }
    let empty = lookup_path(&b, &["trash", "empty"]);
    let plugged = lookup_path(&b, &["battery", "plugged"]);
    assert_eq!(b.read(empty, 0, 100), Err(FsError::NotFound));
    assert_eq!(b.write(plugged, b"1"), Err(FsError::NotFound));
    assert_eq!(b.getattr(empty).unwrap().perm, 0o222);
}

#[test]
fn write_to_trash_empty() {
    let mut inodes = InodeCounter::new();
    let trash = Trash::new(&mut inodes);
    let b = backend(vec![AnyModule::Trash(trash)], vec![("trash", enabled(5))], &mut inodes);
    let empty = lookup_path(&b, &["trash", "empty"]);
    assert_eq!(b.write(empty, b"1\n"), Ok((2, WriteAction::EmptyTrash)));
    assert_eq!(b.write(empty, b"1"), Ok((1, WriteAction::EmptyTrash)));
    assert_eq!(b.write(empty, b"true"), Ok((4, WriteAction::EmptyTrash)));
    assert_eq!(b.write(empty, b"true\n"), Ok((5, WriteAction::EmptyTrash)));
    assert_eq!(b.write(empty, b"yes"), Ok((3, WriteAction::Nothing)));
}

#[test]
fn lookup_missing_name_is_not_found() {
    let mut inodes = InodeCounter::new();
    let battery = Battery::new(&mut inodes);
    let b = backend(vec![AnyModule::Battery(battery)], vec![("battery", enabled(5))], &mut inodes);
    assert!(matches!(b.lookup(INODE_ROOT, "nothing"), Err(FsError::NotFound)));
    assert!(matches!(b.lookup(9999, "battery"), Err(FsError::NotFound)));
    assert!(matches!(b.readdir(9999, 0), Err(FsError::NotFound)));
    assert!(matches!(b.getattr(9999), Err(FsError::NotFound)));
}

#[test]
fn readdir_from_offset() {
    let mut inodes = InodeCounter::new();
    let battery = Battery::new(&mut inodes);
    let b = backend(vec![AnyModule::Battery(battery)], vec![("battery", enabled(5))], &mut inodes);
    let dir = lookup_path(&b, &["battery"]);
    let all = b.readdir(dir, 0).unwrap();
    assert_eq!(names(&all), vec![".", "..", "plugged", "percent", "time_remaining"]);
    assert_eq!(all.iter().map(|d| d.offset).collect::<Vec<_>>(), vec![1, 2, 3, 4, 5]);
    assert_eq!(all[0].ino, dir);
    assert_eq!(all[1].ino, dir);
    let from3 = b.readdir(dir, 3).unwrap();
    assert_eq!(names(&from3), vec!["percent", "time_remaining"]);
    assert_eq!(from3[0].offset, 4);
    assert_eq!(from3[0].kind, FileType::RegularFile);
    assert!(b.readdir(dir, 5).unwrap().is_empty());
    assert!(b.readdir(dir, 50).unwrap().is_empty());
}

#[test]
fn json_and_shell_files() {
    let mut inodes = InodeCounter::new();
    let trash = Trash::new(&mut inodes);
    let mut c = enabled(5);
    c.json = Some(JsonConfig { enabled: Some(true) });
    c.shell = Some(ShellConfig { enabled: Some(true) });
    let mut b = backend(vec![AnyModule::Trash(trash)], vec![("trash", c)], &mut inodes);
    if let AnyModule::Trash(m) = &mut b.modules[0] {
        m.update_count(4);
    }
    let dir = lookup_path(&b, &["trash"]);
    assert_eq!(names(&b.readdir(dir, 0).unwrap()), vec![".", "..", "count", "empty", "json", "shell"]);
    let json = lookup_path(&b, &["trash", "json"]);
    let shell = lookup_path(&b, &["trash", "shell"]);
    assert_eq!(b.read(json, 0, 4096).unwrap(), br#"{"count":"3"}"#.to_vec());
    assert_eq!(b.read(shell, 0, 4096).unwrap(), b"count=3".to_vec());
    assert_eq!(b.getattr(json).unwrap().size, 13);
    assert_eq!(b.lookup(dir, "shell").unwrap().size, 7);
    assert_eq!(b.setattr(shell).unwrap().size, 7);
}

#[test]
fn disabled_module_is_not_grafted() {
    let mut inodes = InodeCounter::new();
    let trash = Trash::new(&mut inodes);
    let mut c = ModuleConfig::new();
    c.enabled = Some(false);
    let b = backend(vec![AnyModule::Trash(trash)], vec![("trash", c)], &mut inodes);
    assert_eq!(names(&b.readdir(INODE_ROOT, 0).unwrap()), vec![".", ".."]);
}

#[test]
fn dynamic_backlight() {
    let mut inodes = InodeCounter::new();
    let brightness = Brightness::new();
    let mut b = backend(vec![AnyModule::Brightness(brightness)], vec![("brightness", enabled(5))], &mut inodes);
    let dir = lookup_path(&b, &["brightness"]);
    assert_eq!(names(&b.readdir(dir, 0).unwrap()), vec![".", ".."]);
    let status = if let AnyModule::Brightness(m) = &mut b.modules[0] {
        let reading = BrightnessData {
            device: "intel_backlight".to_string(),
            value: "500".to_string(),
            current_value: "480".to_string(),
            max_value: "1000".to_string(),
        };
        let (status, created) = m.build_filesystem(vec![reading], &mut inodes);
        assert_eq!(created.len(), 3);
        assert_eq!(created[0].field, "intel_backlight/value");
        status
    } else {
        unreachable!()
    };
    assert!(matches!(status, Status::Changed(ref n) if n == "brightness"));
    assert_eq!(b.register_module_by_name("brightness", &mut inodes), Some(0));
    let dir = lookup_path(&b, &["brightness"]);
    assert_eq!(names(&b.readdir(dir, 0).unwrap()), vec![".", "..", "intel_backlight"]);
    let max = lookup_path(&b, &["brightness", "intel_backlight", "max_value"]);
    assert_eq!(b.read(max, 0, 4096).unwrap(), b"1000".to_vec());
}

#[test]
fn regraft_gives_consistent_snapshots() {
    let mut inodes = InodeCounter::new();
    let cpu = Cpu::new(&mut inodes);
    let mut b = backend(vec![AnyModule::Cpu(cpu)], vec![("cpu", enabled(1))], &mut inodes);
    let logical = lookup_path(&b, &["cpu", "logical"]);
    let before = b.readdir(logical, 0).unwrap();
    assert_eq!(names(&before), vec![".", "..", "averrage", "count", "timestamp"]);
    if let AnyModule::Cpu(m) = &mut b.modules[0] {
        let sample = LogicalSample { usages: vec!["10".to_string(), "30".to_string()], average: "20".to_string() };
        let (status, _) = m.update(Some(sample), None, 100, &mut inodes);
        assert!(matches!(status, Status::Changed(_)));
    }
    assert_eq!(b.register_module_by_name("cpu", &mut inodes), Some(0));
    let logical = lookup_path(&b, &["cpu", "logical"]);
    let after = b.readdir(logical, 0).unwrap();
    assert_eq!(names(&after), vec![".", "..", "averrage", "count", "timestamp", "0", "1"]);
    let usage = lookup_path(&b, &["cpu", "logical", "1"]);
    let file = b.lookup(usage, "usage_percent").unwrap().ino;
    assert_eq!(b.read(file, 0, 100).unwrap(), b"30".to_vec());
    assert_eq!(names(&before), vec![".", "..", "averrage", "count", "timestamp"]);
}

#[test]
fn regraft_keeps_other_modules() {
    let mut inodes = InodeCounter::new();
    let battery = Battery::new(&mut inodes);
    let trash = Trash::new(&mut inodes);
    let mut b = backend(
        vec![AnyModule::Battery(battery), AnyModule::Trash(trash)],
        vec![("battery", enabled(5)), ("trash", enabled(5))],
        &mut inodes,
    );
    let count = lookup_path(&b, &["trash", "count"]);
    assert_eq!(b.register_module_by_name("battery", &mut inodes), Some(0));
    assert_eq!(names(&b.readdir(INODE_ROOT, 0).unwrap()), vec![".", "..", "trash", "battery"]);
    assert_eq!(lookup_path(&b, &["trash", "count"]), count);
    assert_eq!(b.register_module_by_name("nothing", &mut inodes), None);
}

#[test]
fn entry_attributes() {
    let dir = FsEntry::new(7, FileType::Directory, "d", Mode::ReadOnly, Vec::new());
    let a = dir.attrs(0);
    assert_eq!((a.ino, a.perm, a.nlink, a.blocks, a.uid, a.gid), (7, 0o555, 2, 0, 0, 0));
    let w = FsEntry::new(8, FileType::RegularFile, "w", Mode::WriteOnly, Vec::new());
    assert_eq!(w.attrs(3).perm, 0o222);
    assert_eq!(w.attrs(3).size, 3);
}

#[test]
fn find_by_identifier_and_name() {
    let leaf = FsEntry::new(3, FileType::RegularFile, "x", Mode::ReadOnly, Vec::new());
    let inner = FsEntry::new(2, FileType::Directory, "d", Mode::ReadOnly, vec![leaf]);
    let other = FsEntry::new(4, FileType::RegularFile, "x", Mode::ReadOnly, Vec::new());
    let root = FsEntry::new(1, FileType::Directory, "/", Mode::ReadOnly, vec![inner, other]);
    assert_eq!(root.find(3).unwrap().name, "x");
    assert_eq!(root.find(4).unwrap().inode, 4);
    assert!(root.find(9).is_none());
    assert_eq!(root.find_by_name("x").unwrap().inode, 3);
    assert!(root.find_by_name("y").is_none());
}

#[test]
fn identifiers_increase() {
    let mut inodes = InodeCounter::new();
    let a = inodes.create_inode();
    let b = inodes.create_inode();
    assert_eq!(a, 2);
    assert_eq!(b, 3);
    assert!(a < b);
}

#[test]
fn lookup_of_json_from_the_root() {
    let mut inodes = InodeCounter::new();
    let trash = Trash::new(&mut inodes);
    let mut c = enabled(5);
    c.json = Some(JsonConfig { enabled: Some(true) });
    let mut b = backend(vec![AnyModule::Trash(trash)], vec![("trash", c)], &mut inodes);
    if let AnyModule::Trash(m) = &mut b.modules[0] {
        m.update_count(4);
    }
    let attr = b.lookup(INODE_ROOT, "json").unwrap();
    assert_eq!(attr.size, 13);
    assert_eq!(attr.ino, lookup_path(&b, &["trash", "json"]));
}

#[test]
fn grafted_directories_take_fresh_identifiers() {
    let mut inodes = InodeCounter::new();
    let trash = Trash::new(&mut inodes);
    let mut c = enabled(5);
    c.json = Some(JsonConfig { enabled: Some(true) });
    c.shell = Some(ShellConfig { enabled: Some(true) });
    let b = backend(vec![AnyModule::Trash(trash)], vec![("trash", c)], &mut inodes);
    assert_eq!(lookup_path(&b, &["trash"]), 4);
    assert_eq!(lookup_path(&b, &["trash", "json"]), 5);
    assert_eq!(lookup_path(&b, &["trash", "shell"]), 6);
    assert_eq!(lookup_path(&b, &["trash", "count"]), 2);
}
