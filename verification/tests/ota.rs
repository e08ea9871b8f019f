use mqtt::ota::{boot_partition, partition_in, partition_of, Device, Updater};

#[test]
fn devices() {
    let device = Device::new("/dev/mmcblk0p2".to_string(), 0, 2);
    assert_eq!(device.device_path(), "/dev/mmcblk0p2");
    assert_eq!(device.partition_number(), 2);
}

#[test]
fn updater_swaps_its_partitions() {
    let mut updater = Updater::new(
        Device::new("/dev/mmcblk0p2".to_string(), 0, 2),
        Device::new("/dev/mmcblk0p3".to_string(), 0, 3),
    );
    assert_eq!(updater.load_path(), "/dev/mmcblk0p3");
    assert_eq!(updater.swap(), 3);
    assert_eq!(updater.load_path(), "/dev/mmcblk0p2");
    assert_eq!(updater.swap(), 2);
    assert_eq!(updater.load_path(), "/dev/mmcblk0p3");
}

#[test]
fn updater_for_the_partition_booted_from() {
    let mut updater = Updater::for_boot_partition(3);
    assert_eq!(updater.load_path(), "/dev/mmcblk0p2");
    assert_eq!(updater.swap(), 2);
    let mut updater = Updater::for_boot_partition(2);
    assert_eq!(updater.load_path(), "/dev/mmcblk0p3");
    assert_eq!(updater.swap(), 3);
    let updater = Updater::for_boot_partition(0);
    assert_eq!(updater.load_path(), "/dev/mmcblk0p3");
}

#[test]
fn boot_partition_is_read_from_the_environment() {
    assert_eq!(boot_partition(b"ota_boot_partition=3\n"), Some(3));
    assert_eq!(boot_partition(b"ota_boot_partition=2\n"), Some(2));
    assert_eq!(boot_partition(b"ota_boot_partition=27\n"), Some(2));
    assert_eq!(boot_partition(b"x=1\nota_boot_partition=0\n"), Some(0));
}

#[test]
fn boot_partition_is_missing() {
    assert_eq!(boot_partition(b""), None);
    assert_eq!(boot_partition(b"ota_boot_partition=\n"), None);
    assert_eq!(boot_partition(b"ota_boot_partition=x\n"), None);
    assert_eq!(boot_partition(b"ota_boot_partition=3\xff"), None);
    // A digit of another script matches the pattern and is no number.
    assert_eq!(boot_partition("ota_boot_partition=\u{663}".as_bytes()), None);
}

#[test]
fn partition_is_searched_with_the_pattern_given() {
    assert_eq!(partition_in(r"p(\d+)", b"/dev/mmcblk0p3"), Some(3));
    assert_eq!(partition_in(r"p(\d+)", b"/dev/mmcblk0p127"), Some(127));
    assert_eq!(partition_in(r"p(\d+)", b"/dev/mmcblk0p128"), None);
    assert_eq!(partition_in(r"p(\d+)", b"/dev/mmcblk0"), None);
    // What is no pattern finds nothing.
    assert_eq!(partition_in(r"p(\d+", b"/dev/mmcblk0p3"), None);
}

#[test]
fn partition_is_the_number_captured() {
    assert_eq!(
        partition_of(&vec![Some("p=3".to_string()), Some("3".to_string())]),
        Some(3)
    );
    assert_eq!(
        partition_of(&vec![Some("p=-4".to_string()), Some("-4".to_string())]),
        Some(-4)
    );
    assert_eq!(
        partition_of(&vec![Some("p=+4".to_string()), Some("+4".to_string())]),
        Some(4)
    );
    assert_eq!(
        partition_of(&vec![Some("p=-128".to_string()), Some("-128".to_string())]),
        Some(-128)
    );
    assert_eq!(
        partition_of(&vec![Some("p=-129".to_string()), Some("-129".to_string())]),
        None
    );
    assert_eq!(partition_of(&vec![Some("p".to_string()), Some("-".to_string())]), None);
    assert_eq!(partition_of(&vec![Some("p".to_string()), None]), None);
    assert_eq!(partition_of(&vec![Some("3".to_string())]), None);
    assert_eq!(
        partition_of(&vec![Some("3".to_string()), Some("3".to_string()), None]),
        None
    );
}
