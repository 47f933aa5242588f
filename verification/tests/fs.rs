use ps2hdd::error::HddError;
use ps2hdd::fs::{DirEntry, FileType, PartEntry, RawDirent};
use ps2hdd::partition_kind::PartitionKind;

#[test]
fn file_type_bits_are_masked_against_the_type_mask() {
    let dir = FileType { mode: 0x11FF };
    assert!(dir.is_dir());
    assert!(!dir.is_file());
    assert!(!dir.is_symlink());

    let file = FileType { mode: 0x21B6 };
    assert!(file.is_file());
    assert!(!file.is_dir());

    let link = FileType { mode: 0x41FF };
    assert!(link.is_symlink());
    assert!(link.is(0x4000));
}

#[test]
fn partition_entries_project_names_kinds_and_bytes() {
    let raw = RawDirent {
        name: "__common".to_string(),
        mode: 0x0100,
        size_sectors: 262144,
    };
    let entry = PartEntry::try_from(&raw).unwrap();
    assert_eq!(
        entry,
        PartEntry {
            name: "__common".to_string(),
            kind: Some(PartitionKind::PFS),
            size: 128 * 1024 * 1024,
        }
    );
}

#[test]
fn zero_kind_codes_project_to_an_absent_kind() {
    let raw = RawDirent {
        name: "FREE".to_string(),
        mode: 0,
        size_sectors: 2048,
    };
    let entry = PartEntry::try_from(&raw).unwrap();
    assert_eq!(entry.kind, None);
    assert_eq!(entry.size, 2048 * 512);
}

#[test]
fn unrecognised_kind_codes_fail_the_projection() {
    let raw = RawDirent {
        name: "ODD".to_string(),
        mode: 0x0777,
        size_sectors: 1,
    };
    let err = PartEntry::try_from(&raw).unwrap_err();
    assert_eq!(err, HddError::InvalidPartitionKind { code: 0x0777 });
}

#[test]
fn directory_entries_reconstruct_their_paths() {
    let raw = RawDirent {
        name: "save00".to_string(),
        mode: 0x11FF,
        size_sectors: 0,
    };
    let entry = DirEntry::new(raw, "/BWLINUX".to_string());
    assert_eq!(entry.file_name(), "save00");
    assert_eq!(entry.path(), "/BWLINUX/save00");
    assert!(entry.file_type().unwrap().is_dir());
}

#[test]
fn every_failure_kind_renders_a_message() {
    let cases: Vec<(HddError, &str)> = vec![
        (
            HddError::AlreadySingletonActive,
            "Only one PS2HDD instance may be mounted at a time",
        ),
        (
            HddError::PathNotFound {
                path: "gone.img".to_string(),
            },
            "gone.img: No such file",
        ),
        (
            HddError::PathTooLong { length: 300 },
            "Path of length 300 is too long to be null-terminated",
        ),
        (
            HddError::NameEncodingInvalid,
            "Path could not be converted to a C String",
        ),
        (
            HddError::InvalidPartitionSize,
            "Partition size must be a power of 2",
        ),
        (
            HddError::InvalidPartitionKind { code: 9 },
            "Not a valid partition kind value",
        ),
        (
            HddError::NotFormattableKind,
            "Not a formattable partition kind",
        ),
        (
            HddError::AlreadyMounted {
                filesystem: "PFS".to_string(),
            },
            "A PFS partition is already mounted",
        ),
        (
            HddError::NotMounted {
                filesystem: "HDLFS".to_string(),
            },
            "No HDLFS partition is mounted; nothing to unmount",
        ),
        (
            HddError::DriverFailure {
                context: "Mounting failed".to_string(),
                code: -6,
            },
            "Mounting failed: -6, Unknown error 6",
        ),
        (
            HddError::DirectoryEntryDecodeFailure,
            "could not convert the directory entry name",
        ),
        (
            HddError::UnsupportedOperation,
            "operation is not implemented",
        ),
    ];
    for (error, expected) in cases {
        assert_eq!(error.message(), expected);
    }
}
