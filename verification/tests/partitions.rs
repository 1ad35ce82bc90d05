use qingpan::partitions::{
    check_layout_size, validate_partition_layout, DiskPartition, PartitionDisk, MAX_DISKS,
};

fn partition(
    number: u32,
    letter: Option<&str>,
    offset: u64,
    size: u64,
    free: u64,
) -> DiskPartition {
    DiskPartition {
        partition_number: number,
        drive_letter: letter.map(|l| l.to_string()),
        offset_bytes: offset,
        size_bytes: size,
        partition_type: "Basic".into(),
        gpt_type: "basic".into(),
        is_system: false,
        is_boot: false,
        is_active: false,
        is_hidden: false,
        is_read_only: false,
        no_default_drive_letter: false,
        file_system: "NTFS".into(),
        label: String::new(),
        health_status: "Healthy".into(),
        free_bytes: free,
    }
}

fn disk(number: u32, size: u64, partitions: Vec<DiskPartition>) -> PartitionDisk {
    PartitionDisk {
        number,
        friendly_name: "Disk".into(),
        partition_style: "GPT".into(),
        bus_type: "SATA".into(),
        health_status: "Healthy".into(),
        operational_status: "Online".into(),
        size_bytes: size,
        is_boot: false,
        is_system: false,
        is_offline: false,
        is_read_only: false,
        partitions,
    }
}

#[test]
fn parses_and_sorts_a_valid_partition_layout() {
    let mut windows = partition(2, Some("c"), 200000, 700000, 300000);
    windows.is_boot = true;
    windows.label = "Windows".into();
    let mut efi = partition(1, None, 1000, 100000, 10000);
    efi.partition_type = "System".into();
    efi.gpt_type = "efi".into();
    efi.is_system = true;
    efi.is_hidden = true;
    efi.no_default_drive_letter = true;
    efi.file_system = "FAT32".into();
    efi.label = "EFI".into();
    let mut nvme = disk(1, 1000000, vec![windows, efi]);
    nvme.friendly_name = "NVMe".into();
    nvme.bus_type = "NVMe".into();
    nvme.is_boot = true;
    nvme.is_system = true;

    let disks = validate_partition_layout(vec![nvme]).expect("layout should parse");

    assert_eq!(disks.len(), 1);
    assert_eq!(disks[0].partitions[0].partition_number, 1);
    assert_eq!(disks[0].partitions[1].drive_letter.as_deref(), Some("C"));
}

#[test]
fn rejects_overlapping_or_out_of_bounds_partitions() {
    let overlapping = disk(
        0,
        1000,
        vec![
            partition(1, Some("D"), 100, 700, 100),
            partition(2, Some("E"), 700, 200, 100),
        ],
    );
    assert!(validate_partition_layout(vec![overlapping])
        .expect_err("overlap should be rejected")
        .contains("重叠"));
}

#[test]
fn partitions_past_the_end_of_the_disk_are_rejected() {
    let beyond = disk(0, 1000, vec![partition(1, Some("D"), 900, 200, 0)]);
    assert!(validate_partition_layout(vec![beyond]).is_err());
}

#[test]
fn disks_are_ordered_by_number_and_texts_trimmed() {
    let mut second = disk(7, 1000, vec![]);
    second.friendly_name = "  Backup  ".into();
    let first = disk(3, 1000, vec![partition(1, Some("f"), 0, 500, 10)]);
    let disks = validate_partition_layout(vec![second, first]).expect("layout is valid");
    assert_eq!(disks[0].number, 3);
    assert_eq!(disks[1].number, 7);
    assert_eq!(disks[1].friendly_name, "Backup");
    assert_eq!(disks[0].partitions[0].drive_letter.as_deref(), Some("F"));
}

#[test]
fn repeated_disk_numbers_and_empty_disks_are_rejected() {
    let error = validate_partition_layout(vec![disk(1, 1000, vec![]), disk(1, 1000, vec![])])
        .expect_err("repeated disk numbers are refused");
    assert_eq!(error, "磁盘布局包含重复编号或无效容量");
    assert!(validate_partition_layout(vec![disk(1, 0, vec![])]).is_err());
}

#[test]
fn repeated_partition_numbers_are_rejected() {
    let repeated = disk(
        0,
        1000,
        vec![partition(1, None, 0, 100, 0), partition(1, None, 200, 100, 0)],
    );
    assert_eq!(
        validate_partition_layout(vec![repeated]).expect_err("repeated numbers"),
        "磁盘布局包含重复分区编号"
    );
}

#[test]
fn too_many_disks_are_rejected() {
    let disks = (0..=MAX_DISKS as u32).map(|n| disk(n, 1000, vec![])).collect::<Vec<_>>();
    assert_eq!(
        validate_partition_layout(disks).expect_err("too many disks"),
        "磁盘数量超过安全上限"
    );
}

#[test]
fn control_characters_in_texts_are_rejected() {
    let mut bad = disk(0, 1000, vec![]);
    bad.bus_type = "SA\u{7}TA".into();
    assert!(validate_partition_layout(vec![bad])
        .expect_err("control character")
        .contains("总线类型"));
}

#[test]
fn layout_bytes_must_be_present_and_bounded() {
    assert!(check_layout_size(0).is_err());
    assert!(check_layout_size(1).is_ok());
    assert!(check_layout_size(4 * 1024 * 1024).is_ok());
    assert!(check_layout_size(4 * 1024 * 1024 + 1).is_err());
}
