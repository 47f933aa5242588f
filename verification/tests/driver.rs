use ps2hdd::error::HddError;
use ps2hdd::fs::DirEntry;
use ps2hdd::partition_kind::FormattablePartitionKind;
use ps2hdd::{SessionRegistry, PS2HDD};

// A disk image needs to be at least 6GB in size for APA to work;
// more is better, and 20GB is the "normal" minimum, but this is
// just enough to fit any of the minimum-size 128MB partitions in
const DEMO_FILE_SIZE: u64 = 6 * 1024 * 1024 * 1024;

fn get_directory_entry_names(dirents: Vec<DirEntry>) -> Vec<String> {
    dirents.iter().map(|dirent| dirent.file_name()).collect()
}

fn mounted_session(registry: &mut SessionRegistry) -> PS2HDD {
    let mut ps2hdd = match PS2HDD::create(registry, "hdd.img", DEMO_FILE_SIZE) {
        Ok(ps2hdd) => ps2hdd,
        Err(message) => panic!("{}", message.message()),
    };
    if let Err(message) = ps2hdd.initialize() {
        panic!("{}", message.message());
    }
    if let Err(message) = ps2hdd.create_partition("TESTPART", FormattablePartitionKind::PFS, 128) {
        panic!("{}", message.message());
    }
    ps2hdd
}

#[test]
fn pfs_mount_create_and_read_dir() {
    let mut registry = SessionRegistry::new();
    let mut ps2hdd = mounted_session(&mut registry);

    let pfs = match ps2hdd.mount_pfs("TESTPART") {
        Ok(pfs) => pfs,
        Err(message) => panic!("{}", message.message()),
    };

    assert_eq!(
        pfs.partition_name, "TESTPART",
        "Unexpected partition reference"
    );

    pfs.create_dir(&mut ps2hdd, "testdir")
        .expect("Could not create testdir");

    let direntries = pfs
        .list_dir(&mut ps2hdd, "/")
        .expect("Could not list directory");

    assert_eq!(
        get_directory_entry_names(direntries),
        vec!["testdir"],
        "Unexpected directory list"
    );
}

#[test]
fn pfs_mount_create_dir_all() {
    let mut registry = SessionRegistry::new();
    let mut ps2hdd = mounted_session(&mut registry);

    let pfs = match ps2hdd.mount_pfs("TESTPART") {
        Ok(pfs) => pfs,
        Err(message) => panic!("{}", message.message()),
    };

    assert_eq!(
        pfs.partition_name, "TESTPART",
        "Unexpected partition reference"
    );

    pfs.create_dir_all(&mut ps2hdd, "a/b/c/d")
        .expect("Could not create path");

    let direntries = pfs
        .list_dir(&mut ps2hdd, "/")
        .expect("Could not list directory");

    assert_eq!(
        get_directory_entry_names(direntries),
        vec!["a"],
        "Unexpected directory list"
    );

    let direntries = pfs
        .list_dir(&mut ps2hdd, "/a")
        .expect("Could not list directory");

    assert_eq!(
        get_directory_entry_names(direntries),
        vec!["b"],
        "Unexpected directory list"
    );

    let direntries = pfs
        .list_dir(&mut ps2hdd, "/a/b")
        .expect("Could not list directory");

    assert_eq!(
        get_directory_entry_names(direntries),
        vec!["c"],
        "Unexpected directory list"
    );

    let direntries = pfs
        .list_dir(&mut ps2hdd, "/a/b/c")
        .expect("Could not list directory");

    assert_eq!(
        get_directory_entry_names(direntries),
        vec!["d"],
        "Unexpected directory list"
    );
}

#[test]
fn create_dir_all_is_idempotent_and_keeps_order() {
    let mut registry = SessionRegistry::new();
    let mut ps2hdd = mounted_session(&mut registry);
    let pfs = ps2hdd.mount_pfs("TESTPART").unwrap();

    pfs.create_dir_all(&mut ps2hdd, "a/b").unwrap();
    pfs.create_dir(&mut ps2hdd, "z").unwrap();
    pfs.create_dir_all(&mut ps2hdd, "a/b").unwrap();
    pfs.create_dir_all(&mut ps2hdd, "a/b/c").unwrap();

    let names = get_directory_entry_names(pfs.list_dir(&mut ps2hdd, "/").unwrap());
    assert_eq!(names, vec!["a", "z"]);
    let names = get_directory_entry_names(pfs.list_dir(&mut ps2hdd, "/a/b").unwrap());
    assert_eq!(names, vec!["c"]);
}

#[test]
fn listings_never_contain_the_dot_pseudo_entries() {
    let mut registry = SessionRegistry::new();
    let mut ps2hdd = mounted_session(&mut registry);
    let pfs = ps2hdd.mount_pfs("TESTPART").unwrap();

    pfs.create_dir_all(&mut ps2hdd, "x/y").unwrap();
    for path in ["/", "/x", "/x/y"] {
        for entry in pfs.list_dir(&mut ps2hdd, path).unwrap() {
            let name = entry.file_name();
            assert_ne!(name, ".");
            assert_ne!(name, "..");
        }
    }
}

#[test]
fn directory_entries_carry_types_and_paths() {
    let mut registry = SessionRegistry::new();
    let mut ps2hdd = mounted_session(&mut registry);
    let pfs = ps2hdd.mount_pfs("TESTPART").unwrap();

    pfs.create_dir_all(&mut ps2hdd, "a/b").unwrap();
    let entries = pfs.list_dir(&mut ps2hdd, "/a").unwrap();
    assert_eq!(entries.len(), 1);
    let file_type = entries[0].file_type().unwrap();
    assert!(file_type.is_dir());
    assert!(!file_type.is_file());
    assert!(!file_type.is_symlink());
    assert_eq!(entries[0].path(), "/a/b");
}

#[test]
fn create_dir_reports_driver_failures() {
    let mut registry = SessionRegistry::new();
    let mut ps2hdd = mounted_session(&mut registry);
    let pfs = ps2hdd.mount_pfs("TESTPART").unwrap();

    pfs.create_dir(&mut ps2hdd, "testdir").unwrap();
    let exists = pfs.create_dir(&mut ps2hdd, "testdir").unwrap_err();
    assert_eq!(
        exists.message(),
        "failed to create directory: -17, File exists"
    );

    let orphan = pfs.create_dir(&mut ps2hdd, "missing/child").unwrap_err();
    assert_eq!(
        orphan.message(),
        "failed to create directory: -2, No such file or directory"
    );

    let invalid = pfs.create_dir(&mut ps2hdd, "a/../b").unwrap_err();
    assert_eq!(
        invalid.message(),
        "failed to create directory: -22, Invalid argument"
    );

    let not_text = pfs.create_dir(&mut ps2hdd, "caf\u{e9}");
    assert_eq!(not_text.unwrap_err(), HddError::NameEncodingInvalid);

    ps2hdd.umount_pfs().unwrap();
    let unmounted = pfs.create_dir(&mut ps2hdd, "late").unwrap_err();
    assert_eq!(
        unmounted.message(),
        "failed to create directory: -19, No such device"
    );
}

#[test]
fn remove_dir_removes_only_empty_directories() {
    let mut registry = SessionRegistry::new();
    let mut ps2hdd = mounted_session(&mut registry);
    let pfs = ps2hdd.mount_pfs("TESTPART").unwrap();

    pfs.create_dir_all(&mut ps2hdd, "a/b").unwrap();
    let full = pfs.remove_dir(&mut ps2hdd, "/a").unwrap_err();
    assert_eq!(
        full.message(),
        "failed to delete directory: -39, Directory not empty"
    );

    pfs.remove_dir(&mut ps2hdd, "/a/b").unwrap();
    pfs.remove_dir(&mut ps2hdd, "/a").unwrap();
    assert!(pfs.list_dir(&mut ps2hdd, "/").unwrap().is_empty());

    let missing = pfs.remove_dir(&mut ps2hdd, "/a").unwrap_err();
    assert_eq!(
        missing.message(),
        "failed to delete directory: -2, No such file or directory"
    );
}

#[test]
fn unsupported_operations_are_reported_not_omitted() {
    let mut registry = SessionRegistry::new();
    let mut ps2hdd = mounted_session(&mut registry);
    let pfs = ps2hdd.mount_pfs("TESTPART").unwrap();

    assert_eq!(
        pfs.remove_dir_all(&mut ps2hdd, "/a").unwrap_err(),
        HddError::UnsupportedOperation
    );
    assert_eq!(
        pfs.remove_file(&mut ps2hdd, "/a").unwrap_err(),
        HddError::UnsupportedOperation
    );
    assert_eq!(
        pfs.rename(&mut ps2hdd, "/a", "/b").unwrap_err(),
        HddError::UnsupportedOperation
    );
}

#[test]
fn hdlfs_offers_the_same_directory_operations() {
    let mut registry = SessionRegistry::new();
    let mut ps2hdd = mounted_session(&mut registry);

    let hdl = ps2hdd.mount_hdlfs("TESTPART").unwrap();
    assert_eq!(hdl.get_device_root(), "hdl0:");
    hdl.create_dir_all(&mut ps2hdd, "games/disc0").unwrap();
    let names = get_directory_entry_names(hdl.list_dir(&mut ps2hdd, "/games").unwrap());
    assert_eq!(names, vec!["disc0"]);
    hdl.remove_dir(&mut ps2hdd, "/games/disc0").unwrap();
    assert_eq!(
        hdl.rename(&mut ps2hdd, "/games", "/titles").unwrap_err(),
        HddError::UnsupportedOperation
    );
}

#[test]
fn device_roots_are_fixed() {
    let mut registry = SessionRegistry::new();
    let mut ps2hdd = mounted_session(&mut registry);
    let pfs = ps2hdd.mount_pfs("TESTPART").unwrap();
    assert_eq!(pfs.get_device_root(), "pfs0:");
}
