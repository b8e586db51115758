use ytop::sensors::{BatteryReading, BatteryWidget, TempReading, TempWidget};
use ytop::colorscheme::Colorschemes;
use ytop::layout::{custom_column_sizing, ColumnWidth, HelpMenu, Rect};
use ytop::disk::{DiskWidget, PartitionSample};
use ytop::graphs::{appended, CpuWidget, MemSample, MemWidget};
use ytop::net::{NetWidget, NicCounters};
use ytop::process::{SortDirection, SortMethod};
use ytop::ratio::Rational;

fn nic(name: &str, recv: u64, sent: u64) -> NicCounters {
    NicCounters { name: name.to_string(), bytes_recv: recv, bytes_sent: sent }
}

fn part(name: &str, mount: &str, read: u64, written: u64) -> PartitionSample {
    PartitionSample {
        name: name.to_string(),
        mountpoint: mount.to_string(),
        bytes_read: read,
        bytes_written: written,
        used_percent: 4200,
        bytes_free: 1000,
    }
}

#[test]
fn series_keeps_newest_samples() {
    let data = vec![(0, 0), (1, 10), (2, 20)];
    assert_eq!(appended(&data, (3, 30), 10), vec![(0, 0), (1, 10), (2, 20), (3, 30)]);
    assert_eq!(appended(&data, (3, 30), 2), vec![(2, 20), (3, 30)]);
    assert_eq!(appended(&data, (3, 30), 0), Vec::<(u64, u64)>::new());
}

#[test]
fn cpu_graph_defaults_by_cpu_count() {
    let few = CpuWidget::new(Rational::new_raw(1, 1), false, false, 4);
    assert!(few.show_percpu && !few.show_average);
    assert_eq!(few.percpu_data.len(), 4);
    let many = CpuWidget::new(Rational::new_raw(1, 1), false, false, 16);
    assert!(many.show_average && !many.show_percpu);
    assert!(many.percpu_data.is_empty());
    let both = CpuWidget::new(Rational::new_raw(1, 2), true, true, 2);
    assert!(both.show_average && both.show_percpu);
    assert_eq!(both.get_update_interval().denom, 2);
}

#[test]
fn cpu_graph_zoom_has_a_floor() {
    let mut cpu = CpuWidget::new(Rational::new_raw(1, 1), true, false, 1);
    for _ in 0..10 {
        cpu.scale_in();
    }
    assert_eq!(cpu.horizontal_scale, 25);
    cpu.scale_out();
    cpu.scale_out();
    assert_eq!(cpu.horizontal_scale, 75);
    assert_eq!(cpu.max_scale, 100);
    for _ in 0..3 {
        cpu.scale_out();
    }
    assert_eq!(cpu.horizontal_scale, 150);
    assert_eq!(cpu.max_scale, 150);
}

#[test]
fn cpu_graph_records_samples() {
    let mut cpu = CpuWidget::new(Rational::new_raw(1, 1), true, true, 2);
    cpu.update(5000, &vec![1000, 9000]);
    assert_eq!(cpu.update_count, 1);
    assert_eq!(cpu.average_data, vec![(0, 0), (1, 5000)]);
    assert_eq!(cpu.percpu_data[1], vec![(0, 0), (1, 9000)]);
    cpu.update(4000, &vec![1]);
    assert_eq!(cpu.percpu_data[1], vec![(0, 0), (1, 9000)]);
    for _ in 0..200 {
        cpu.update(1, &vec![2, 3]);
    }
    assert_eq!(cpu.average_data.len(), 100);
    assert_eq!(cpu.average_data[99], (202, 1));
    assert_eq!(cpu.percpu_data[0].len(), 100);
}

#[test]
fn memory_graph_tracks_swap() {
    let mut mem = MemWidget::new(Rational::new_raw(1, 1));
    let main = MemSample { total: 1000, used: 250, percent: 2500 };
    mem.update(main, MemSample { total: 0, used: 0, percent: 0 });
    assert_eq!(mem.main.used, 250);
    assert_eq!(mem.main.percents, vec![(0, 0), (1, 2500)]);
    assert!(mem.swap.is_none());
    mem.update(main, MemSample { total: 100, used: 10, percent: 1000 });
    let swap = mem.swap.as_ref().unwrap();
    assert_eq!(swap.percents, vec![(1, 0), (2, 1000)]);
    assert_eq!(swap.total, 100);
    mem.scale_in();
    assert_eq!(mem.horizontal_scale, 75);
}

#[test]
fn network_counts_all_but_tunnel() {
    let mut net = NetWidget::new("all".to_string(), false);
    net.update(&vec![nic("eth0", 100, 10), nic("tun0", 50, 5), nic("lo", 1, 1)]);
    assert_eq!(net.total_bytes_recv, 101);
    assert_eq!(net.total_bytes_sent, 11);
    assert_eq!(net.bytes_recv, vec![0]);
    net.update(&vec![nic("eth0", 300, 40), nic("tun0", 90, 9), nic("lo", 1, 1)]);
    assert_eq!(net.bytes_recv, vec![0, 200]);
    assert_eq!(net.bytes_sent, vec![0, 30]);
}

#[test]
fn network_single_interface() {
    let mut net = NetWidget::new("tun0".to_string(), true);
    net.update(&vec![nic("eth0", 100, 10), nic("tun0", 50, 5)]);
    assert_eq!(net.total_bytes_recv, 50);
    net.update(&vec![nic("eth0", 100, 10), nic("tun0", 20, 7)]);
    assert_eq!(net.bytes_recv, vec![0, 0]);
    assert_eq!(net.bytes_sent, vec![0, 2]);
    assert_eq!(net.get_update_interval().numer, 1);
}

#[test]
fn network_sum_saturates() {
    let mut net = NetWidget::new("all".to_string(), false);
    net.update(&vec![nic("a", u64::MAX, 0), nic("b", 5, 0)]);
    assert_eq!(net.total_bytes_recv, u64::MAX);
}

#[test]
fn disk_rates_and_duplicate_mounts() {
    let mut disk = DiskWidget::new();
    disk.update(&vec![part("sda1", "/", 100, 50), part("sda1", "/mnt", 100, 50), part("sdb1", "/home", 10, 5)]);
    assert_eq!(disk.partitions.len(), 2);
    assert_eq!(disk.partitions[0].mountpoint, "/");
    assert_eq!(disk.partitions[0].bytes_read_recently, 0);
    disk.update(&vec![part("sdb1", "/home", 30, 6), part("sda1", "/", 160, 40)]);
    assert_eq!(disk.partitions[0].name, "sdb1");
    assert_eq!(disk.partitions[0].bytes_read_recently, 20);
    assert_eq!(disk.partitions[0].bytes_written_recently, 1);
    assert_eq!(disk.partitions[1].bytes_read_recently, 60);
    assert_eq!(disk.partitions[1].bytes_written_recently, 0);
}

#[test]
fn sort_defaults() {
    assert_eq!(SortMethod::default(), SortMethod::Cpu);
    assert_eq!(SortDirection::default(), SortDirection::Down);
    assert_eq!(SortDirection::Up.not(), SortDirection::Down);
}

#[test]
fn disk_columns_follow_width() {
    let wide = custom_column_sizing(100);
    assert_eq!(wide.len(), 6);
    assert_eq!(wide[0], ColumnWidth::Length(32));
    assert_eq!(wide[5], ColumnWidth::Length(8));
    assert_eq!(custom_column_sizing(40).len(), 5);
    assert_eq!(custom_column_sizing(40)[0], ColumnWidth::Length(6));
    assert_eq!(custom_column_sizing(30).len(), 4);
    assert_eq!(custom_column_sizing(20).len(), 3);
    assert_eq!(custom_column_sizing(13), vec![ColumnWidth::Min(5), ColumnWidth::Min(5)]);
    assert!(custom_column_sizing(12).is_empty());
    assert!(custom_column_sizing(2).is_empty());
}

#[test]
fn help_menu_is_centred() {
    let r = HelpMenu::new().get_rect(Rect { x: 0, y: 0, width: 100, height: 40 });
    assert_eq!(r, Rect { x: 26, y: 5, width: 48, height: 29 });
}

#[test]
fn colorscheme_from_str() {
    let parsed: Colorschemes = "vice".parse().unwrap();
    assert!(matches!(parsed, Colorschemes::Vice));
}

fn reading(label: &str, value: i64) -> TempReading {
    TempReading { label: label.to_string(), value }
}

#[test]
fn temperatures_above_zero_are_kept() {
    let mut temp = TempWidget::new(false);
    temp.update(vec![reading("acpi", 4550), reading("nvme", 0), reading("cold", -100), reading("cpu", 8100)]);
    assert_eq!(temp.temp_data.len(), 2);
    assert_eq!(temp.temp_data[0].label, "acpi");
    assert_eq!(temp.temp_data[1].value, 8100);
    assert!(temp.is_hot(8000));
    assert!(!temp.is_hot(7999));
    assert_eq!(temp.get_update_interval().numer, 5);
}

#[test]
fn battery_histories_follow_batteries() {
    let mut bat = BatteryWidget::new();
    let a = BatteryReading { model: "A".to_string(), charge: 9000 };
    let b = BatteryReading { model: "B".to_string(), charge: 5000 };
    bat.update(&vec![a, b]);
    assert_eq!(bat.battery_data.len(), 2);
    let a = BatteryReading { model: "A".to_string(), charge: 8900 };
    bat.update(&vec![a]);
    assert_eq!(bat.battery_data.len(), 1);
    assert_eq!(bat.battery_data[0].model, "A");
    assert_eq!(bat.battery_data[0].series, vec![(1, 9000), (2, 8900)]);
    assert_eq!(bat.get_update_interval().numer, 60);
}
