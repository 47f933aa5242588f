//! The closed taxonomy of APA partition type codes, and the subset of kinds
//! for which a file-system driver exists and which can therefore be created
//! and formatted.

use vstd::prelude::*;

use crate::error::HddError;

verus! {

/// The kind of an APA partition, one value per recognised on-disk type code.
#[derive(Copy, Clone, Debug, PartialEq, Eq, Structural)]
pub enum PartitionKind {
    /// A "Master Boot Record" partition
    MBR,
    /// An EXT2-formatted swap partition, for use with PS2 Linux
    EXT2Swap,
    /// A general-use EXT2-formatted partition, for use with PS2 Linux
    EXT2,
    /// A PFS partition, formatted for PlayStation 2-specific use
    PFS,
    CFS,
    /// An HDLoader partition, which follows ISO9660 rules
    HDL,
}

/// The subset of partition kinds in [`PartitionKind`] for which drivers are
/// available.
///
/// Note that when formatting, `MBR` is treated the same as `PFS`.
#[derive(Copy, Clone, Debug, PartialEq, Eq, Structural)]
pub enum FormattablePartitionKind {
    /// A "Master Boot Record" partition
    MBR,
    /// A PFS partition, formatted for PlayStation 2-specific use
    PFS,
    /// An HDLoader partition, which follows ISO9660 rules
    HDL,
}

impl PartitionKind {
    /// The fixed numeric code under which this kind appears on disk.
    pub open spec fn spec_code(self) -> u32 {
        match self {
            PartitionKind::MBR => 0x0001,
            PartitionKind::EXT2Swap => 0x0082,
            PartitionKind::EXT2 => 0x0083,
            PartitionKind::PFS => 0x0100,
            PartitionKind::CFS => 0x0101,
            PartitionKind::HDL => 0x1337,
        }
    }

    /// The fixed numeric code under which this kind appears on disk.
    #[verifier::when_used_as_spec(spec_code)]
    pub fn code(self) -> (c: u32)
        ensures
            c == self.spec_code(),
    {
        match self {
            PartitionKind::MBR => 0x0001,
            PartitionKind::EXT2Swap => 0x0082,
            PartitionKind::EXT2 => 0x0083,
            PartitionKind::PFS => 0x0100,
            PartitionKind::CFS => 0x0101,
            PartitionKind::HDL => 0x1337,
        }
    }

    /// The fixed uppercase short name of this kind, used verbatim in the
    /// creation and format path strings handed to the underlying driver.
    pub open spec fn spec_tag(self) -> Seq<char> {
        match self {
            PartitionKind::MBR => "MBR"@,
            PartitionKind::EXT2Swap => "EXT2SWAP"@,
            PartitionKind::EXT2 => "EXT2"@,
            PartitionKind::PFS => "PFS"@,
            PartitionKind::CFS => "CFS"@,
            PartitionKind::HDL => "HDL"@,
        }
    }

    /// Returns the internal APA name for the file system, used when building
    /// the path strings handed to the underlying driver.
    pub fn as_apa_fs_type(&self) -> (r: &str)
        ensures
            r@ == self.spec_tag(),
    {
        match self {
            PartitionKind::MBR => "MBR",
            PartitionKind::EXT2Swap => "EXT2SWAP",
            PartitionKind::EXT2 => "EXT2",
            PartitionKind::PFS => "PFS",
            PartitionKind::CFS => "CFS",
            PartitionKind::HDL => "HDL",
        }
    }

    /// The lowercase short name of this kind, used for the device prefix in
    /// format path strings.
    pub open spec fn spec_tag_lower(self) -> Seq<char> {
        match self {
            PartitionKind::MBR => "mbr"@,
            PartitionKind::EXT2Swap => "ext2swap"@,
            PartitionKind::EXT2 => "ext2"@,
            PartitionKind::PFS => "pfs"@,
            PartitionKind::CFS => "cfs"@,
            PartitionKind::HDL => "hdl"@,
        }
    }

    /// Returns the lowercase internal APA name for the file system, used for
    /// the device prefix in format path strings.
    pub(crate) fn as_apa_fs_type_lower(&self) -> (r: &str)
        ensures
            r@ == self.spec_tag_lower(),
    {
        match self {
            PartitionKind::MBR => "mbr",
            PartitionKind::EXT2Swap => "ext2swap",
            PartitionKind::EXT2 => "ext2",
            PartitionKind::PFS => "pfs",
            PartitionKind::CFS => "cfs",
            PartitionKind::HDL => "hdl",
        }
    }

    /// The kind bound to a numeric on-disk code, if the code is recognised.
    pub open spec fn spec_of_code(number: u32) -> Option<PartitionKind> {
        if number == 0x0001 {
            Some(PartitionKind::MBR)
        } else if number == 0x0082 {
            Some(PartitionKind::EXT2Swap)
        } else if number == 0x0083 {
            Some(PartitionKind::EXT2)
        } else if number == 0x0100 {
            Some(PartitionKind::PFS)
        } else if number == 0x0101 {
            Some(PartitionKind::CFS)
        } else if number == 0x1337 {
            Some(PartitionKind::HDL)
        } else {
            None
        }
    }

    /// Decodes a numeric on-disk type code; unrecognised codes are rejected.
    pub fn try_from(number: u32) -> (r: Result<PartitionKind, HddError>)
        ensures
            match r {
                Ok(k) => Self::spec_of_code(number) == Some(k),
                Err(e) => Self::spec_of_code(number) is None && e == (HddError::InvalidPartitionKind { code: number }),
            },
    {
        if number == PartitionKind::MBR.code() {
            Ok(PartitionKind::MBR)
        } else if number == PartitionKind::EXT2Swap.code() {
            Ok(PartitionKind::EXT2Swap)
        } else if number == PartitionKind::EXT2.code() {
            Ok(PartitionKind::EXT2)
        } else if number == PartitionKind::PFS.code() {
            Ok(PartitionKind::PFS)
        } else if number == PartitionKind::CFS.code() {
            Ok(PartitionKind::CFS)
        } else if number == PartitionKind::HDL.code() {
            Ok(PartitionKind::HDL)
        } else {
            Err(HddError::InvalidPartitionKind { code: number })
        }
    }

    /// The formattable subset member equal to this kind, where one exists.
    pub open spec fn spec_to_formattable(self) -> Option<FormattablePartitionKind> {
        match self {
            PartitionKind::MBR => Some(FormattablePartitionKind::MBR),
            PartitionKind::PFS => Some(FormattablePartitionKind::PFS),
            PartitionKind::HDL => Some(FormattablePartitionKind::HDL),
            _ => None,
        }
    }

    /// The full-taxonomy kind equal to a formattable kind; always defined.
    pub open spec fn spec_of_formattable(kind: FormattablePartitionKind) -> PartitionKind {
        match kind {
            FormattablePartitionKind::MBR => PartitionKind::MBR,
            FormattablePartitionKind::PFS => PartitionKind::PFS,
            FormattablePartitionKind::HDL => PartitionKind::HDL,
        }
    }

    /// Converts a formattable kind back into the full taxonomy.
    pub fn from(kind: FormattablePartitionKind) -> (r: PartitionKind)
        ensures
            r == Self::spec_of_formattable(kind),
    {
        match kind {
            FormattablePartitionKind::MBR => PartitionKind::MBR,
            FormattablePartitionKind::PFS => PartitionKind::PFS,
            FormattablePartitionKind::HDL => PartitionKind::HDL,
        }
    }
}

impl FormattablePartitionKind {
    /// Converts a kind of the full taxonomy into the formattable subset;
    /// kinds without a driver are rejected.
    pub fn try_from(kind: PartitionKind) -> (r: Result<FormattablePartitionKind, HddError>)
        ensures
            match r {
                Ok(f) => kind.spec_to_formattable() == Some(f),
                Err(e) => kind.spec_to_formattable() is None && e == HddError::NotFormattableKind,
            },
    {
        match kind {
            PartitionKind::MBR => Ok(FormattablePartitionKind::MBR),
            PartitionKind::PFS => Ok(FormattablePartitionKind::PFS),
            PartitionKind::HDL => Ok(FormattablePartitionKind::HDL),
            _ => Err(HddError::NotFormattableKind),
        }
    }
}

/// Converting each formattable kind into the full taxonomy and back is the
/// identity; the kinds MBR, PFS and HDL are exactly those that convert into
/// the formattable subset, and the conversion loses nothing either way.
pub proof fn law_formattable_round_trip(kind: PartitionKind, formattable: FormattablePartitionKind)
    ensures
        PartitionKind::spec_of_formattable(formattable).spec_to_formattable() == Some(formattable),
        kind.spec_to_formattable() matches Some(f) ==> PartitionKind::spec_of_formattable(f) == kind,
        kind.spec_to_formattable() is Some <==> (kind == PartitionKind::MBR || kind == PartitionKind::PFS
            || kind == PartitionKind::HDL),
{
}

/// Each recognised on-disk code decodes to the kind that carries that code,
/// and decoding succeeds exactly on the six recognised codes.
pub proof fn law_code_round_trip(kind: PartitionKind, number: u32)
    ensures
        PartitionKind::spec_of_code(kind.spec_code()) == Some(kind),
        PartitionKind::spec_of_code(number) matches Some(k) ==> k.spec_code() == number,
{
}

} // verus!
