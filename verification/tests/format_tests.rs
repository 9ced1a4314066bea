use sysshell::facade::{CpuRow, DiskRow, NetRow, ProcRow, SensorReading};
use sysshell::render::{
    cpu_lines, desc_lines, df_lines, gputemp_lines, hddtemp_lines, ident_lines, network_lines,
    ptable_lines, row4, row6, sensor_lines, TempKind,
};

fn proc_row(pid: u32, name: &str, cpu: &str, mem: &str, cmd: Option<&str>) -> ProcRow {
    ProcRow {
        pid,
        name: name.to_string(),
        cpu_pct: cpu.to_string(),
        mem_pct: mem.to_string(),
        cmdline: cmd.map(|c| c.to_string()),
    }
}

fn sensor(label: &str, temp: &str, max: &str, crit: Option<&str>) -> SensorReading {
    SensorReading {
        label: label.to_string(),
        temp: temp.to_string(),
        max: max.to_string(),
        crit: crit.map(|c| c.to_string()),
    }
}

#[test]
fn row4_pads_like_format() {
    assert_eq!(row4("PID", "%CPU", "%MEM", "COMMAND", 30), format!(
        "{:<30} {:<30} {:<30} {:<30}",
        "PID", "%CPU", "%MEM", "COMMAND"
    ));
}

#[test]
fn row6_pads_like_format() {
    assert_eq!(row6("a", "b", "c", "d", "e", "f", 50), format!(
        "{:<50} {:<50} {:<50} {:<50} {:<50} {:<50}",
        "a", "b", "c", "d", "e", "f"
    ));
}

#[test]
fn ptable_filters_rows_without_cmdline() {
    let ps = vec![
        proc_row(1, "init", "0.5", "0.1", Some("/sbin/init")),
        proc_row(2, "kthreadd", "0", "0", None),
        proc_row(30, "shell", "1.5", "2", Some("/bin/sh")),
    ];
    let (lines, count) = ptable_lines(&ps);
    assert_eq!(count, 2);
    assert_eq!(lines.len(), 3);
    assert_eq!(lines[0], format!("{:<30} {:<30} {:<30} {:<30}", "PID", "%CPU", "%MEM", "COMMAND"));
    assert_eq!(lines[1], format!("{:<30} {:<30} {:<30} {:<30}", 1, 0.5, 0.1, "init"));
    assert_eq!(lines[2], format!("{:<30} {:<30} {:<30} {:<30}", 30, 1.5, 2, "shell"));
}

#[test]
fn desc_reverses_rows() {
    let ps = vec![
        proc_row(1, "a", "0", "0", Some("x")),
        proc_row(2, "b", "0", "0", Some("y")),
    ];
    let lines = desc_lines(&ps);
    assert_eq!(lines.len(), 3);
    assert!(lines[1].starts_with("2 "));
    assert!(lines[2].starts_with("1 "));
}

#[test]
fn df_scales_by_unit() {
    let disks = vec![DiskRow {
        name: "sda".to_string(),
        mount: "/".to_string(),
        fs: "ext4".to_string(),
        total: 3 * 1048576 + 7,
        avail: 1048576 + 3,
    }];
    let mib = df_lines(&disks, 1048576);
    assert_eq!(mib.len(), 2);
    assert_eq!(mib[1], format!(
        "{:<50} {:<50} {:<50} {:<50} {:<50} {:<50}",
        "sda", "/", "ext4", 3, 1, 2
    ));
    let kib = df_lines(&disks, 1024);
    let t = (3 * 1048576 + 7u64) / 1024;
    let a = (1048576 + 3u64) / 1024;
    assert_eq!(kib[1], format!(
        "{:<50} {:<50} {:<50} {:<50} {:<50} {:<50}",
        "sda", "/", "ext4", t, a, t - a
    ));
    let raw = df_lines(&disks, 1);
    assert_eq!(raw[1], format!(
        "{:<50} {:<50} {:<50} {:<50} {:<50} {:<50}",
        "sda", "/", "ext4", 3 * 1048576 + 7, 1048576 + 3, 2 * 1048576 + 4
    ));
}

#[test]
fn cpu_lines_lists_every_cpu() {
    let cs = vec![CpuRow {
        brand: "Acme 9000".to_string(),
        vendor: "AcmeInc".to_string(),
        name: "cpu0".to_string(),
        freq: 3600,
    }];
    let lines = cpu_lines(&cs);
    assert_eq!(lines.len(), 2);
    assert_eq!(lines[0], format!(
        "{:<50} {:<50} {:<50} {:<50}",
        "Brand", "Vendor ID", "Name", "Frequency"
    ));
    assert_eq!(lines[1], format!(
        "{:<50} {:<50} {:<50} {:<50}",
        "Acme 9000", "AcmeInc", "cpu0", 3600
    ));
}

#[test]
fn sensor_lines_show_label_and_reading() {
    let cs = vec![sensor("coretemp Core 0", "41", "75", Some("100"))];
    let lines = sensor_lines(&cs);
    assert_eq!(lines, vec!["coretemp Core 0: 41\u{b0}C".to_string()]);
}

#[test]
fn hddtemp_filters_storage_labels() {
    let cs = vec![
        sensor("nvme SSD Composite", "35", "52", Some("85")),
        sensor("coretemp Core 0", "41", "75", None),
        sensor("HDD WD40", "38", "49", None),
    ];
    let cur = hddtemp_lines(&cs, TempKind::Current);
    assert_eq!(cur, vec![
        "nvme SSD Composite: 35\u{b0}C".to_string(),
        "HDD WD40: 38\u{b0}C".to_string(),
    ]);
    let max = hddtemp_lines(&cs, TempKind::Highest);
    assert_eq!(max, vec![
        "nvme SSD Composite: 52\u{b0}C".to_string(),
        "HDD WD40: 49\u{b0}C".to_string(),
    ]);
    let crit = hddtemp_lines(&cs, TempKind::Critical);
    assert_eq!(crit, vec![
        "nvme SSD Composite: 85\u{b0}C".to_string(),
        "HDD WD40: no critical threshold reported".to_string(),
    ]);
}

#[test]
fn gputemp_filters_gpu_labels() {
    let cs = vec![
        sensor("amdgpu edge", "60", "90", None),
        sensor("coretemp Core 0", "41", "75", None),
    ];
    assert_eq!(gputemp_lines(&cs, TempKind::Current), vec!["amdgpu edge: 60\u{b0}C".to_string()]);
    assert_eq!(gputemp_lines(&cs, TempKind::Highest), vec!["amdgpu edge: 90\u{b0}C".to_string()]);
}

#[test]
fn network_lines_show_counters() {
    let ns = vec![NetRow { name: "eth0".to_string(), tx: 10, rx: 2500 }];
    assert_eq!(network_lines(&ns), vec![
        "Interface eth0: transmitted: 10, received: 2500".to_string()
    ]);
}

#[test]
fn ident_lines_show_four_fields() {
    let lines = ident_lines(
        &"Linux".to_string(),
        &"6.1".to_string(),
        &"12".to_string(),
        &"box".to_string(),
    );
    assert_eq!(lines, vec![
        "Name: Linux".to_string(),
        "Kernel version: 6.1".to_string(),
        "OS version: 12".to_string(),
        "Host name: box".to_string(),
    ]);
}
