use ps2hdd::error::HddError;
use ps2hdd::fs::PartEntry;
use ps2hdd::partition_kind::{FormattablePartitionKind, PartitionKind};
use ps2hdd::{SessionRegistry, PS2HDD};

// A disk image needs to be at least 6GB in size for APA to work;
// more is better, and 20GB is the "normal" minimum, but this is
// just enough to fit any of the minimum-size 128MB partitions in
const DEMO_FILE_SIZE: u64 = 6 * 1024 * 1024 * 1024;

fn default_entries() -> Vec<PartEntry> {
    vec![
        PartEntry {
            name: "__mbr".to_string(),
            kind: Some(PartitionKind::MBR),
            size: 128 * 1024 * 1024,
        },
        PartEntry {
            name: "__net".to_string(),
            kind: Some(PartitionKind::PFS),
            size: 128 * 1024 * 1024,
        },
        PartEntry {
            name: "__system".to_string(),
            kind: Some(PartitionKind::PFS),
            size: 128 * 1024 * 1024,
        },
        PartEntry {
            name: "__sysconf".to_string(),
            kind: Some(PartitionKind::PFS),
            size: 128 * 1024 * 1024,
        },
        PartEntry {
            name: "__common".to_string(),
            kind: Some(PartitionKind::PFS),
            size: 128 * 1024 * 1024,
        },
    ]
}

#[test]
fn only_one_instance_allowed() {
    let mut registry = SessionRegistry::new();
    let demo_file_path = "hdd.img";

    let instance_1 = PS2HDD::create(&mut registry, demo_file_path, DEMO_FILE_SIZE);
    let instance_2 = PS2HDD::open(&mut registry, demo_file_path, true);
    let instance_3 = PS2HDD::open(&mut registry, demo_file_path, true);

    let instance = match instance_1 {
        Ok(instance) => instance,
        Err(message) => panic!(
            "First construction should've been okay, instead got {:?}",
            message
        ),
    };
    assert_eq!(
        instance_2.unwrap_err().message(),
        "Only one PS2HDD instance may be mounted at a time",
        "Second construction didn't return an error"
    );
    assert_eq!(
        instance_3.unwrap_err().message(),
        "Only one PS2HDD instance may be mounted at a time",
        "Third construction didn't return an error"
    );

    instance.close(&mut registry);

    let instance_4 = PS2HDD::open(&mut registry, demo_file_path, true);

    assert!(instance_4.is_ok(), "Fourth construction should've been okay");
}

#[test]
fn initializes_disks_and_lists_partitions() {
    let mut registry = SessionRegistry::new();
    let demo_file_path = "hdd.img";

    let mut ps2hdd = match PS2HDD::create(&mut registry, demo_file_path, DEMO_FILE_SIZE) {
        Ok(ps2hdd) => ps2hdd,
        Err(message) => panic!("{}", message.message()),
    };

    match ps2hdd.initialize() {
        Ok(_) => (),
        Err(message) => panic!("{}", message.message()),
    }

    let partitions = match ps2hdd.list_partitions() {
        Ok(list) => list,
        Err(message) => panic!("{}", message.message()),
    };

    assert_eq!(partitions, default_entries(), "unexpected partition list");
}

#[test]
fn initializes_disks_creates_and_formats_partitions() {
    let mut registry = SessionRegistry::new();
    let demo_file_path = "hdd.img";

    let mut ps2hdd = match PS2HDD::create(&mut registry, demo_file_path, DEMO_FILE_SIZE) {
        Ok(ps2hdd) => ps2hdd,
        Err(message) => panic!("{}", message.message()),
    };

    match ps2hdd.initialize() {
        Ok(_) => (),
        Err(message) => panic!("{}", message.message()),
    }

    match ps2hdd.create_partition("TESTPART", FormattablePartitionKind::PFS, 128) {
        Ok(_) => (),
        Err(message) => panic!("{}", message.message()),
    }

    let partitions = match ps2hdd.list_partitions() {
        Ok(list) => list,
        Err(message) => panic!("{}", message.message()),
    };

    let mut expected = default_entries();
    expected.push(PartEntry {
        name: "TESTPART".to_string(),
        kind: Some(PartitionKind::PFS),
        size: 128 * 1024 * 1024,
    });

    assert_eq!(partitions, expected, "unexpected partition list");
}

#[test]
fn can_mount_created_partition() {
    let mut registry = SessionRegistry::new();
    let demo_file_path = "hdd.img";

    let mut ps2hdd = match PS2HDD::create(&mut registry, demo_file_path, DEMO_FILE_SIZE) {
        Ok(ps2hdd) => ps2hdd,
        Err(message) => panic!("{}", message.message()),
    };

    match ps2hdd.initialize() {
        Ok(_) => (),
        Err(message) => panic!("{}", message.message()),
    }

    match ps2hdd.create_partition("TESTPART", FormattablePartitionKind::PFS, 128) {
        Ok(_) => (),
        Err(message) => panic!("{}", message.message()),
    }

    let pfs = match ps2hdd.mount_pfs("TESTPART") {
        Ok(pfs) => pfs,
        Err(message) => panic!("{}", message.message()),
    };

    assert_eq!(
        pfs.partition_name, "TESTPART",
        "Unexpected partition reference"
    );
}

#[test]
fn should_err_on_missing_file() {
    let mut registry = SessionRegistry::new();
    let nonexistent_file_path = "nonexistent.img";

    let err_message = match PS2HDD::open(&mut registry, nonexistent_file_path, false) {
        Ok(instance) => {
            drop(instance);
            panic!("First construction should've been okay, instead got an instance");
        }
        Err(message) => message.message(),
    };

    assert_eq!(
        err_message, "nonexistent.img: No such file",
        "Construction without file didn't return an error"
    );

    // a failed open leaves the singleton unclaimed: a subsequent open of a
    // valid path succeeds
    assert!(!registry.is_active());
    let opened = PS2HDD::open(&mut registry, "hdd.img", true);
    assert!(opened.is_ok());
}

#[test]
fn create_fails_while_a_session_is_open() {
    let mut registry = SessionRegistry::new();
    let first = PS2HDD::create(&mut registry, "hdd.img", DEMO_FILE_SIZE).unwrap();

    let second = PS2HDD::create(&mut registry, "other.img", DEMO_FILE_SIZE);
    assert_eq!(second.unwrap_err(), HddError::AlreadySingletonActive);

    first.close(&mut registry);
}

#[test]
fn rejects_paths_over_the_encoded_length_limit() {
    let mut registry = SessionRegistry::new();
    let long_path: String = std::iter::repeat('a').take(256).collect();

    match PS2HDD::open(&mut registry, &long_path, true) {
        Err(HddError::PathTooLong { length }) => assert_eq!(length, 256),
        other => panic!("expected a too-long path failure, got {:?}", other),
    }
    assert!(!registry.is_active());

    let just_fits: String = std::iter::repeat('a').take(255).collect();
    assert!(PS2HDD::open(&mut registry, &just_fits, true).is_ok());
}

#[test]
fn rejects_paths_with_interior_nul_bytes() {
    let mut registry = SessionRegistry::new();
    let err = PS2HDD::open(&mut registry, "bad\u{0}path.img", true).unwrap_err();
    assert_eq!(err, HddError::NameEncodingInvalid);
    assert_eq!(err.message(), "Path could not be converted to a C String");
    assert!(!registry.is_active());
}

#[test]
fn partition_sizes_must_be_powers_of_two() {
    let mut registry = SessionRegistry::new();
    let mut ps2hdd = PS2HDD::create(&mut registry, "hdd.img", DEMO_FILE_SIZE).unwrap();
    ps2hdd.initialize().unwrap();

    for bad in [100u64, 130, 200] {
        let err = ps2hdd
            .create_partition("ODDPART", FormattablePartitionKind::PFS, bad)
            .unwrap_err();
        assert_eq!(err, HddError::InvalidPartitionSize);
        assert_eq!(err.message(), "Partition size must be a power of 2");
    }

    for (name, good) in [("PART128", 128u64), ("PART256", 256), ("PART1024", 1024)] {
        ps2hdd
            .create_partition(name, FormattablePartitionKind::PFS, good)
            .unwrap_or_else(|e| panic!("size {} should be accepted: {}", good, e.message()));
    }

    let partitions = ps2hdd.list_partitions().unwrap();
    assert_eq!(partitions[5].name, "PART128");
    assert_eq!(partitions[5].size, 128 * 1024 * 1024);
    assert_eq!(partitions[6].name, "PART256");
    assert_eq!(partitions[6].size, 256 * 1024 * 1024);
    assert_eq!(partitions[7].name, "PART1024");
    assert_eq!(partitions[7].size, 1024 * 1024 * 1024);
}

#[test]
fn duplicate_partition_names_are_refused() {
    let mut registry = SessionRegistry::new();
    let mut ps2hdd = PS2HDD::create(&mut registry, "hdd.img", DEMO_FILE_SIZE).unwrap();
    ps2hdd.initialize().unwrap();
    ps2hdd
        .create_partition("TESTPART", FormattablePartitionKind::PFS, 128)
        .unwrap();

    let err = ps2hdd
        .create_partition("TESTPART", FormattablePartitionKind::PFS, 128)
        .unwrap_err();
    assert_eq!(
        err.message(),
        "Partition creation failed: -17, File exists"
    );
}

#[test]
fn mbr_requests_are_formatted_as_pfs() {
    let mut registry = SessionRegistry::new();
    let mut ps2hdd = PS2HDD::create(&mut registry, "hdd.img", DEMO_FILE_SIZE).unwrap();
    ps2hdd.initialize().unwrap();
    ps2hdd
        .create_partition("BOOTPART", FormattablePartitionKind::MBR, 128)
        .unwrap();

    let partitions = ps2hdd.list_partitions().unwrap();
    assert_eq!(partitions[5].name, "BOOTPART");
    assert_eq!(partitions[5].kind, Some(PartitionKind::PFS));
}

#[test]
fn mount_state_machine_enforces_single_mounts() {
    let mut registry = SessionRegistry::new();
    let mut ps2hdd = PS2HDD::create(&mut registry, "hdd.img", DEMO_FILE_SIZE).unwrap();
    ps2hdd.initialize().unwrap();
    ps2hdd
        .create_partition("TESTPART", FormattablePartitionKind::PFS, 128)
        .unwrap();

    ps2hdd.mount_pfs("TESTPART").unwrap();
    let again = ps2hdd.mount_pfs("__common").unwrap_err();
    assert_eq!(again.message(), "A PFS partition is already mounted");

    ps2hdd.umount_pfs().unwrap();
    assert!(ps2hdd.mount_pfs("TESTPART").is_ok());

    ps2hdd.umount_pfs().unwrap();
    let empty = ps2hdd.umount_pfs().unwrap_err();
    assert_eq!(
        empty.message(),
        "No PFS partition is mounted; nothing to unmount"
    );
}

#[test]
fn mount_failures_report_the_driver_code() {
    let mut registry = SessionRegistry::new();
    let mut ps2hdd = PS2HDD::create(&mut registry, "hdd.img", DEMO_FILE_SIZE).unwrap();
    ps2hdd.initialize().unwrap();

    let missing = ps2hdd.mount_pfs("NOSUCH").unwrap_err();
    assert_eq!(
        missing.message(),
        "Mounting failed: -2, No such file or directory"
    );

    // the MBR default partition carries no formatted file system
    let unformatted = ps2hdd.mount_pfs("__mbr").unwrap_err();
    assert_eq!(unformatted.message(), "Mounting failed: -5, Input/output error");

    // one partition cannot back both mounts at once
    ps2hdd.mount_pfs("__common").unwrap();
    let busy = ps2hdd.mount_hdlfs("__common").unwrap_err();
    assert_eq!(busy.message(), "Mounting failed: -16, Resource busy");

    // a different partition mounts fine on the other root
    let hdl = ps2hdd.mount_hdlfs("__system").unwrap();
    assert_eq!(hdl.partition_name, "__system");
    let again = ps2hdd.mount_hdlfs("__sysconf").unwrap_err();
    assert_eq!(again.message(), "A HDLFS partition is already mounted");
    ps2hdd.umount_hdlfs().unwrap();
    let empty = ps2hdd.umount_hdlfs().unwrap_err();
    assert_eq!(
        empty.message(),
        "No HDLFS partition is mounted; nothing to unmount"
    );
}

#[test]
fn formatting_wipes_a_partition_and_spares_the_rest() {
    let mut registry = SessionRegistry::new();
    let mut ps2hdd = PS2HDD::create(&mut registry, "hdd.img", DEMO_FILE_SIZE).unwrap();
    ps2hdd.initialize().unwrap();
    ps2hdd
        .create_partition("TESTPART", FormattablePartitionKind::PFS, 128)
        .unwrap();

    let pfs = ps2hdd.mount_pfs("TESTPART").unwrap();
    pfs.create_dir(&mut ps2hdd, "keepsake").unwrap();
    ps2hdd.umount_pfs().unwrap();

    // a mounted partition cannot be formatted
    ps2hdd.mount_pfs("TESTPART").unwrap();
    let busy = ps2hdd
        .format_partition("TESTPART", FormattablePartitionKind::PFS)
        .unwrap_err();
    assert_eq!(
        busy.message(),
        "PFS partition formatting failed: -16, Resource busy"
    );
    ps2hdd.umount_pfs().unwrap();

    ps2hdd
        .format_partition("TESTPART", FormattablePartitionKind::PFS)
        .unwrap();
    let pfs = ps2hdd.mount_pfs("TESTPART").unwrap();
    let listing = pfs.list_dir(&mut ps2hdd, "/").unwrap();
    assert!(listing.is_empty(), "formatting should empty the file system");

    let missing = ps2hdd
        .format_partition("NOSUCH", FormattablePartitionKind::PFS)
        .unwrap_err();
    assert_eq!(
        missing.message(),
        "PFS partition formatting failed: -2, No such file or directory"
    );
}
