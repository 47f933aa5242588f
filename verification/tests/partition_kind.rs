use ps2hdd::error::HddError;
use ps2hdd::partition_kind::{FormattablePartitionKind, PartitionKind};

#[test]
fn formattable_round_trip_is_identity() {
    for (kind, formattable) in [
        (PartitionKind::MBR, FormattablePartitionKind::MBR),
        (PartitionKind::PFS, FormattablePartitionKind::PFS),
        (PartitionKind::HDL, FormattablePartitionKind::HDL),
    ] {
        let converted = FormattablePartitionKind::try_from(kind).unwrap();
        assert_eq!(converted, formattable);
        assert_eq!(PartitionKind::from(converted), kind);
    }
}

#[test]
fn kinds_without_a_driver_are_not_formattable() {
    for kind in [
        PartitionKind::EXT2Swap,
        PartitionKind::EXT2,
        PartitionKind::CFS,
    ] {
        let err = FormattablePartitionKind::try_from(kind).unwrap_err();
        assert_eq!(err, HddError::NotFormattableKind);
        assert_eq!(err.message(), "Not a formattable partition kind");
    }
}

#[test]
fn codes_round_trip_through_the_taxonomy() {
    for (kind, code) in [
        (PartitionKind::MBR, 0x0001u32),
        (PartitionKind::EXT2Swap, 0x0082),
        (PartitionKind::EXT2, 0x0083),
        (PartitionKind::PFS, 0x0100),
        (PartitionKind::CFS, 0x0101),
        (PartitionKind::HDL, 0x1337),
    ] {
        assert_eq!(kind.code(), code);
        assert_eq!(PartitionKind::try_from(code).unwrap(), kind);
    }
}

#[test]
fn unrecognised_codes_are_rejected() {
    let err = PartitionKind::try_from(0x0042).unwrap_err();
    assert_eq!(err, HddError::InvalidPartitionKind { code: 0x0042 });
    assert_eq!(err.message(), "Not a valid partition kind value");
}

#[test]
fn apa_fs_type_names_are_fixed() {
    assert_eq!(PartitionKind::MBR.as_apa_fs_type(), "MBR");
    assert_eq!(PartitionKind::EXT2Swap.as_apa_fs_type(), "EXT2SWAP");
    assert_eq!(PartitionKind::EXT2.as_apa_fs_type(), "EXT2");
    assert_eq!(PartitionKind::PFS.as_apa_fs_type(), "PFS");
    assert_eq!(PartitionKind::CFS.as_apa_fs_type(), "CFS");
    assert_eq!(PartitionKind::HDL.as_apa_fs_type(), "HDL");
}
