//! Session, partition and mount management for PlayStation 2-format hard
//! disk images.
//!
//! A disk image carries an APA partition table whose partitions hold PFS or
//! HDLFS file systems. This crate is the management layer above the low-level
//! disk and file-system driver: it enforces the one-session-per-process rule,
//! validates partition geometry and naming, drives the PFS/HDLFS mount state
//! machine, and turns the driver's primitive one-entry-at-a-time directory
//! iteration protocol into materialized listings.
//!
//! The low-level driver itself is an external collaborator, out of scope and
//! assumed correct; the `device` module holds an executable model of its
//! observable behaviour at this layer's boundary, and every operation of the
//! layer is specified and verified against that model. The surrounding
//! program performs the host-file probes (whether the backing image exists)
//! and hands their outcomes in as plain values.

use vstd::prelude::*;
use vstd::string::StringExecFns;
use vstd::string::StringSliceAdditionalSpecFns;

pub mod driver;
pub mod error;
pub mod ffi_utils;
pub mod fs;
pub mod partition_kind;
pub mod text;

mod device;

use crate::device::{
    spec_mkpart_path, spec_size_str, Device, FsRoot, IOMANX_O_CREAT, IOMANX_O_RDWR,
};
use crate::driver::{HDLFS, PFS};
use crate::error::{HddError, EBUSY, EEXIST, EIO, ENODEV, ENOENT, ENOSPC};
use crate::ffi_utils::{ok_on_nonnegative_or_strerror, ok_on_zero_or_strerror};
use crate::fs::{
    spec_no_nul, spec_part_entry_of, spec_table_has_name, spec_valid_partition_name, no_nul,
    valid_partition_name, PartEntry, PartitionView,
};
use crate::partition_kind::{FormattablePartitionKind, PartitionKind};
use crate::text::u64_to_string;

verus! {

/// The injectable registry of the process-wide session singleton.
///
/// At most one device session may exist per registry at any time, standing
/// for the one-session-per-process rule. The claim check and the claim are a
/// single operation on an exclusively borrowed registry, so no two sessions
/// can both observe "inactive".
#[derive(Debug)]
pub struct SessionRegistry {
    active: bool,
}

impl SessionRegistry {
    /// Whether a session currently holds this registry's claim.
    pub closed spec fn spec_is_active(&self) -> bool {
        self.active
    }

    /// Creates a registry with no active session.
    pub fn new() -> (r: SessionRegistry)
        ensures
            !r.spec_is_active(),
    {
        SessionRegistry { active: false }
    }

    /// Whether a session currently holds this registry's claim.
    #[verifier::when_used_as_spec(spec_is_active)]
    pub fn is_active(&self) -> (b: bool)
        ensures
            b == self.spec_is_active(),
    {
        self.active
    }

    /// Claims the registry if it is free; returns whether the claim was won.
    fn try_claim(&mut self) -> (won: bool)
        ensures
            won == !old(self).spec_is_active(),
            final(self).spec_is_active(),
    {
        let was_active = self.active;
        self.active = true;
        !was_active
    }

    /// Releases the claim.
    fn release(&mut self)
        ensures
            !final(self).spec_is_active(),
    {
        self.active = false;
    }
}

/// The fixed zone size of the PFS tuning parameters handed to the format
/// primitive.
pub const PFS_ZONE_SIZE: i32 = 8192;

/// The fixed fragment flag of the PFS tuning parameters handed to the
/// format primitive.
pub const PFS_FRAGMENT: i32 = 0;

/// Whether a partition size in mebibytes is a power of two.
pub open spec fn spec_is_pow2(n: u64) -> bool
    decreases n,
{
    if n == 0 {
        false
    } else if n == 1 {
        true
    } else if n % 2 != 0 {
        false
    } else {
        spec_is_pow2(n / 2)
    }
}

/// Builds the creation path the driver's open primitive parses into a new
/// partition: name, the fixed sector/head/cylinder placeholder, the size
/// field (`{n}M` below 1024 MiB, else `{n/1024}G`), and the kind's short
/// tag.
fn build_create_path(partition_name: &str, size_mib: u64, kind: PartitionKind) -> (r: String)
    ensures
        r@ == spec_mkpart_path(partition_name@, size_mib, kind.spec_tag()),
{
    let size_str = if size_mib >= 1024 {
        u64_to_string(size_mib / 1024).concat("G")
    } else {
        u64_to_string(size_mib).concat("M")
    };
    proof {
        reveal_strlit("G");
        reveal_strlit("M");
        assert(size_str@ =~= spec_size_str(size_mib));
    }
    let r = "hdd0:".to_owned().concat(partition_name).concat(",,,").concat(size_str.as_str())
        .concat(",").concat(kind.as_apa_fs_type());
    proof {
        assert(r@ =~= spec_mkpart_path(partition_name@, size_mib, kind.spec_tag()));
    }
    r
}

/// Checks whether a partition size in mebibytes is a power of two.
fn is_power_of_two(n: u64) -> (r: bool)
    ensures
        r == spec_is_pow2(n),
{
    if n == 0 {
        return false;
    }
    let mut m: u64 = n;
    while m % 2 == 0 && m > 1
        invariant
            m >= 1,
            spec_is_pow2(n) == spec_is_pow2(m),
        decreases m,
    {
        m = m / 2;
    }
    m == 1
}

/// Represents a PlayStation 2-formatted hard disk device or disk image, and
/// permits APA partition and PFS/HDLFS file-system management.
///
/// A session owns the modeled driver state of the open image, and at most
/// one PFS mount and one HDLFS mount at a time. At most one session may
/// exist per [`SessionRegistry`] at any time; every constructor takes the
/// registry exclusively and claims it before any other work.
#[derive(Debug)]
pub struct PS2HDD {
    path: String,
    pub(crate) device: Device,
    pub(crate) pfs: Option<PFS>,
    pub(crate) hdlfs: Option<HDLFS>,
}

impl PS2HDD {
    /// Well-formedness: the modeled device state is well formed, no
    /// directory handle is left open between operations, and each mount
    /// slot is occupied exactly when the matching device root is bound, by
    /// a handle naming the bound partition.
    pub closed spec fn wf(&self) -> bool {
        &&& self.device.wf()
        &&& self.device.cursor is None
        &&& (self.pfs is Some) == (self.device.pfs_bound is Some)
        &&& (self.hdlfs is Some) == (self.device.hdl_bound is Some)
        &&& self.pfs matches Some(h) ==> self.device.pfs_bound matches Some(i)
            && self.device.spec_table()[i as int].name == h.partition_name@
        &&& self.hdlfs matches Some(h) ==> self.device.hdl_bound matches Some(i)
            && self.device.spec_table()[i as int].name == h.partition_name@
    }

    /// The path of the backing file or block device.
    pub closed spec fn spec_path(&self) -> Seq<char> {
        self.path@
    }

    /// The APA partition table of the open image.
    pub closed spec fn spec_partitions(&self) -> Seq<PartitionView> {
        self.device.spec_table()
    }

    /// Whether a PFS mount is active.
    pub closed spec fn pfs_mounted(&self) -> bool {
        self.pfs is Some
    }

    /// Whether an HDLFS mount is active.
    pub closed spec fn hdlfs_mounted(&self) -> bool {
        self.hdlfs is Some
    }

    /// The name of the partition the PFS mount is bound to.
    pub closed spec fn pfs_partition_name(&self) -> Seq<char> {
        self.pfs->0.partition_name@
    }

    /// The name of the partition the HDLFS mount is bound to.
    pub closed spec fn hdlfs_partition_name(&self) -> Seq<char> {
        self.hdlfs->0.partition_name@
    }

    /// The directory tree visible at the `pfs0:` root.
    pub closed spec fn pfs_tree(&self) -> Seq<Seq<Seq<char>>> {
        self.device.spec_tree(FsRoot::Pfs)
    }

    /// The directory tree visible at the `hdl0:` root.
    pub closed spec fn hdlfs_tree(&self) -> Seq<Seq<Seq<char>>> {
        self.device.spec_tree(FsRoot::Hdl)
    }

    /// Attempts to open a PS2 HDD.
    ///
    /// `path` may refer to a block device or a raw disk image file;
    /// `path_is_file` hands in the surrounding program's probe of whether
    /// that path names an existing regular file, since this layer performs
    /// no host I/O itself.
    ///
    /// The registry is claimed before any other work; on every failure past
    /// that point the claim is released before returning.
    ///
    /// # Errors
    ///
    /// This function will return an error if a session is already open on
    /// this registry, if `path` does not name an existing regular file, if
    /// `path` cannot be encoded as a terminated C string, or if its encoded
    /// length exceeds 255 bytes.
    pub fn open(registry: &mut SessionRegistry, path: &str, path_is_file: bool) -> (r: Result<
        PS2HDD,
        HddError,
    >)
        ensures
            old(registry).spec_is_active() ==> (r matches Err(e) && e
                == HddError::AlreadySingletonActive) && final(registry).spec_is_active(),
            !old(registry).spec_is_active() && !path_is_file ==> (r matches Err(e) && e matches
                HddError::PathNotFound { path: p } && p@ == path@) && !final(registry).spec_is_active(),
            !old(registry).spec_is_active() && path_is_file && !spec_no_nul(path@) ==> (r matches
                Err(e) && e == HddError::NameEncodingInvalid) && !final(registry).spec_is_active(),
            !old(registry).spec_is_active() && path_is_file && spec_no_nul(path@)
                && (path.spec_bytes().len() as usize) > 255 ==> (r matches Err(e) && e matches
                HddError::PathTooLong { length } && length == (path.spec_bytes().len() as usize))
                && !final(registry).spec_is_active(),
            !old(registry).spec_is_active() && path_is_file && spec_no_nul(path@)
                && (path.spec_bytes().len() as usize) <= 255 ==> final(registry).spec_is_active() && (r matches
                Ok(h) && {
                &&& h.wf()
                &&& h.spec_path() == path@
                &&& h.spec_partitions() == Seq::<PartitionView>::empty()
                &&& !h.pfs_mounted()
                &&& !h.hdlfs_mounted()
            }),
    {
        if !registry.try_claim() {
            return Err(HddError::AlreadySingletonActive);
        }
        // On every path below that returns an error, the claim is released
        // first, with no exception.
        if !path_is_file {
            registry.release();
            return Err(HddError::PathNotFound { path: path.to_owned() });
        }
        if !no_nul(path) {
            registry.release();
            return Err(HddError::NameEncodingInvalid);
        }
        let length = path.len();
        if length > 255 {
            registry.release();
            return Err(HddError::PathTooLong { length });
        }
        let device = Device::new();
        if let Err(message) = ok_on_zero_or_strerror(
            device.init_apa(),
            "Unable to initialize APA partition driver",
        ) {
            registry.release();
            return Err(message);
        }
        if let Err(message) = ok_on_zero_or_strerror(
            device.init_pfs(),
            "Unable to initialize PFS filesystem driver",
        ) {
            registry.release();
            return Err(message);
        }
        Ok(PS2HDD { path: path.to_owned(), device, pfs: None, hdlfs: None })
    }

    /// Attempts to open a freshly allocated PS2 HDD image file.
    ///
    /// The surrounding program creates the backing file and extends it to
    /// `size` bytes before calling this, so the path names an existing
    /// regular file; the rest of the work is delegated to [`PS2HDD::open`].
    ///
    /// # Errors
    ///
    /// This function will return an error under the same conditions as
    /// [`PS2HDD::open`].
    pub fn create(registry: &mut SessionRegistry, path: &str, size: u64) -> (r: Result<
        PS2HDD,
        HddError,
    >)
        ensures
            old(registry).spec_is_active() ==> (r matches Err(e) && e
                == HddError::AlreadySingletonActive) && final(registry).spec_is_active(),
            !old(registry).spec_is_active() && !spec_no_nul(path@) ==> (r matches Err(e) && e
                == HddError::NameEncodingInvalid) && !final(registry).spec_is_active(),
            !old(registry).spec_is_active() && spec_no_nul(path@) && (path.spec_bytes().len() as usize) > 255
                ==> (r matches Err(e) && e matches HddError::PathTooLong { length } && length
                == (path.spec_bytes().len() as usize)) && !final(registry).spec_is_active(),
            !old(registry).spec_is_active() && spec_no_nul(path@) && (path.spec_bytes().len() as usize) <= 255
                ==> final(registry).spec_is_active() && (r matches Ok(h) && {
                &&& h.wf()
                &&& h.spec_path() == path@
                &&& h.spec_partitions() == Seq::<PartitionView>::empty()
                &&& !h.pfs_mounted()
                &&& !h.hdlfs_mounted()
            }),
    {
        Self::open(registry, path, true)
    }

    /// Formats the entire disk, creating the APA partition map and the
    /// default set of partitions `__mbr`, `__net`, `__system`, `__sysconf`
    /// and `__common`.
    ///
    /// This is a destructive process: the previous table is gone, and both
    /// mounts are released, since the partitions they were bound to no
    /// longer exist.
    ///
    /// # Errors
    ///
    /// This function will return an error if the underlying format call
    /// reports nonzero; the modeled driver's format cannot fail.
    pub fn initialize(&mut self) -> (r: Result<(), HddError>)
        requires
            old(self).wf(),
        ensures
            final(self).wf(),
            r is Ok,
            final(self).spec_partitions() == crate::fs::spec_default_partitions(),
            !final(self).pfs_mounted(),
            !final(self).hdlfs_mounted(),
            final(self).spec_path() == old(self).spec_path(),
    {
        let code = self.device.format_disk();
        match ok_on_zero_or_strerror(code, "HDD formatting failed") {
            Ok(_) => {},
            Err(message) => {
                return Err(message);
            },
        }
        self.pfs = None;
        self.hdlfs = None;
        Ok(())
    }

    /// List all the partitions on the disk, in the driver's scan order.
    ///
    /// Note that unlike an ordinary directory iterator, all entries are
    /// fetched upfront, because the underlying driver's handle cursor state
    /// is not safe to expose as a restartable iterator.
    pub fn list_partitions(&mut self) -> (r: Result<Vec<PartEntry>, HddError>)
        requires
            old(self).wf(),
        ensures
            final(self).wf(),
            *final(self) == *old(self),
            r matches Ok(v) && v@.len() == old(self).spec_partitions().len() && forall|i: int|
                0 <= i < v@.len() ==> Some(#[trigger] v@[i]@) == spec_part_entry_of(
                    old(self).spec_partitions()[i],
                ),
    {
        let device_handle = match ok_on_nonnegative_or_strerror(
            self.device.dopen_hdd(),
            "Failed to list partitions",
        ) {
            Ok(h) => h,
            Err(message) => {
                return Err(message);
            },
        };
        let drained = match crate::driver::drain_entries(
            &mut self.device,
            device_handle,
            "Failed to list partitions",
        ) {
            Ok(v) => v,
            Err(message) => {
                let _ = self.device.dclose(device_handle);
                return Err(message);
            },
        };
        match ok_on_zero_or_strerror(
            self.device.dclose(device_handle),
            "Failed to close root device handle",
        ) {
            Ok(_) => {},
            Err(message) => {
                return Err(message);
            },
        }
        let ghost parts = old(self).spec_partitions();
        proof {
            assert(*self == *old(self));
            assert(drained@.map_values(|e: crate::fs::RawDirent| e@) == crate::device::spec_table_dirents(parts));
        }
        let mut dirents: Vec<PartEntry> = Vec::new();
        let mut i: usize = 0;
        while i < drained.len()
            invariant
                0 <= i <= drained.len(),
                *self == *old(self),
                old(self).wf(),
                parts == old(self).spec_partitions(),
                drained@.map_values(|e: crate::fs::RawDirent| e@) == crate::device::spec_table_dirents(parts),
                dirents@.len() == i,
                forall|j: int|
                    0 <= j < i ==> Some(#[trigger] dirents@[j]@) == spec_part_entry_of(parts[j]),
            decreases drained.len() - i,
        {
            proof {
                assert(drained@.map_values(|e: crate::fs::RawDirent| e@).len() == drained@.len());
                assert(crate::device::spec_table_dirents(parts).len() == parts.len());
                assert(parts.len() == old(self).device.table@.len());
                assert(drained@.len() == crate::device::spec_table_dirents(parts).len());
                assert(drained@.map_values(|e: crate::fs::RawDirent| e@)[i as int] == drained@[i as int]@);
                assert(old(self).device.table@[i as int].wf());
                assert(parts[i as int] == old(self).device.table@[i as int]@);
                assert(parts[i as int].kind_code == 0 || PartitionKind::spec_of_code(
                    parts[i as int].kind_code,
                ) is Some);
            }
            let entry = match PartEntry::try_from(&drained[i]) {
                Ok(p) => p,
                Err(message) => {
                    proof {
                        assert(false);
                    }
                    return Err(message);
                },
            };
            dirents.push(entry);
            i += 1;
        }
        proof {
            assert(drained@.map_values(|e: crate::fs::RawDirent| e@).len() == drained@.len());
            assert(crate::device::spec_table_dirents(parts).len() == parts.len());
            assert(dirents@.len() == old(self).spec_partitions().len());
        }
        Ok(dirents)
    }

    /// Create a new, formatted partition within the APA partition map.
    ///
    /// The size is specified in mebibytes and must be a power of two.
    /// Partitions can be formatted as any kind for which a driver is
    /// available; a request for `MBR` is treated as `PFS` for the on-disk
    /// format tag.
    ///
    /// # Errors
    ///
    /// This function will return an error if the size is not a power of
    /// two, if the name cannot be encoded, or if the underlying creation,
    /// close or format call fails — among else when a partition of that
    /// name already exists, or when no space is left for one of that size.
    pub fn create_partition(
        &mut self,
        partition_name: &str,
        kind: FormattablePartitionKind,
        size: u64,
    ) -> (r: Result<(), HddError>)
        requires
            old(self).wf(),
        ensures
            final(self).wf(),
            final(self).spec_path() == old(self).spec_path(),
            final(self).pfs_mounted() == old(self).pfs_mounted(),
            final(self).hdlfs_mounted() == old(self).hdlfs_mounted(),
            old(self).pfs_mounted() ==> final(self).pfs_partition_name() == old(self).pfs_partition_name()
                && final(self).pfs_tree() == old(self).pfs_tree(),
            old(self).hdlfs_mounted() ==> final(self).hdlfs_partition_name() == old(self).hdlfs_partition_name()
                && final(self).hdlfs_tree() == old(self).hdlfs_tree(),
            !spec_is_pow2(size) ==> (r matches Err(e) && e == HddError::InvalidPartitionSize)
                && *final(self) == *old(self),
            spec_is_pow2(size) && !spec_valid_partition_name(partition_name@) ==> (r matches Err(e)
                && e == HddError::NameEncodingInvalid) && *final(self) == *old(self),
            spec_is_pow2(size) && spec_valid_partition_name(partition_name@) && size > 2097151 ==> (
            r matches Err(e) && e matches HddError::DriverFailure { context, code } && context@
                == "Partition creation failed"@ && code == -ENOSPC) && *final(self) == *old(self),
            spec_is_pow2(size) && spec_valid_partition_name(partition_name@) && size <= 2097151
                && spec_table_has_name(old(self).spec_partitions(), partition_name@) ==> (r matches
            Err(e) && e matches HddError::DriverFailure { context, code } && context@
                == "Partition creation failed"@ && code == -EEXIST) && *final(self) == *old(self),
            spec_is_pow2(size) && spec_valid_partition_name(partition_name@) && size <= 2097151
                && !spec_table_has_name(old(self).spec_partitions(), partition_name@) ==> r is Ok
                && final(self).spec_partitions() == old(self).spec_partitions().push(
                PartitionView {
                    name: partition_name@,
                    kind_code: if kind == FormattablePartitionKind::HDL {
                        0x1337
                    } else {
                        0x0100
                    },
                    size_sectors: (size * 2048) as u32,
                    formatted: true,
                    tree: Seq::empty(),
                },
            ),
    {
        if !is_power_of_two(size) {
            return Err(HddError::InvalidPartitionSize);
        }
        if !valid_partition_name(partition_name) {
            return Err(HddError::NameEncodingInvalid);
        }
        let partition_kind: PartitionKind = PartitionKind::from(
            match kind {
                FormattablePartitionKind::MBR => FormattablePartitionKind::PFS,
                v => v,
            },
        );
        let name = partition_name.to_owned();
        let mkpart_strpath = build_create_path(partition_name, size, partition_kind);
        let open_flags = IOMANX_O_RDWR | IOMANX_O_CREAT;
        let ghost parts = old(self).spec_partitions();
        proof {
            crate::device::lemma_find_part_props(parts, name@);
        }
        let code = self.device.open_partition(
            mkpart_strpath.as_str(),
            &name,
            partition_kind,
            size,
            open_flags,
        );
        let partition_handle = match ok_on_nonnegative_or_strerror(
            code,
            "Partition creation failed",
        ) {
            Ok(handle) => handle,
            Err(message) => {
                return Err(message);
            },
        };
        let close_code = self.device.dclose(partition_handle);
        match ok_on_zero_or_strerror(close_code, "Failed to close partition handle") {
            Ok(_) => {},
            Err(message) => {
                proof {
                    assert(false);
                }
                return Err(message);
            },
        }
        let ghost mid = *self;
        proof {
            assert(self.wf());
            crate::device::lemma_find_part_props(self.spec_partitions(), name@);
        }
        let result = self.format_partition(partition_name, kind);
        proof {
            let newv = PartitionView {
                name: partition_name@,
                kind_code: if kind == FormattablePartitionKind::HDL {
                    0x1337u32
                } else {
                    0x0100u32
                },
                size_sectors: (size * 2048) as u32,
                formatted: false,
                tree: Seq::empty(),
            };
            assert(mid.spec_partitions() == parts.push(newv));
            assert(mid.spec_partitions()[parts.len() as int].name == partition_name@);
            assert(spec_table_has_name(mid.spec_partitions(), partition_name@));
            if mid.pfs_mounted() && mid.pfs_partition_name() == partition_name@ {
                let j = mid.device.pfs_bound->0;
                assert(mid.spec_partitions()[j as int].name == partition_name@);
                assert(parts[j as int] == mid.spec_partitions()[j as int]);
                assert(spec_table_has_name(parts, partition_name@));
                assert(false);
            }
            if mid.hdlfs_mounted() && mid.hdlfs_partition_name() == partition_name@ {
                let j = mid.device.hdl_bound->0;
                assert(mid.spec_partitions()[j as int].name == partition_name@);
                assert(parts[j as int] == mid.spec_partitions()[j as int]);
                assert(spec_table_has_name(parts, partition_name@));
                assert(false);
            }
            let i = choose|i: int|
                0 <= i < mid.spec_partitions().len() && (#[trigger] mid.spec_partitions()[i]).name
                    == partition_name@ && self.spec_partitions() == mid.spec_partitions().update(
                    i,
                    PartitionView {
                        name: mid.spec_partitions()[i].name,
                        kind_code: mid.spec_partitions()[i].kind_code,
                        size_sectors: mid.spec_partitions()[i].size_sectors,
                        formatted: true,
                        tree: Seq::empty(),
                    },
                );
            if i < parts.len() {
                assert(parts[i] == mid.spec_partitions()[i]);
                assert(spec_table_has_name(parts, partition_name@));
                assert(false);
            }
            assert(i == parts.len());
            assert(self.spec_partitions() =~= parts.push(
                PartitionView {
                    name: partition_name@,
                    kind_code: newv.kind_code,
                    size_sectors: newv.size_sectors,
                    formatted: true,
                    tree: Seq::empty(),
                },
            ));
        }
        result
    }

    /// Initialises a file system on a given partition, with the fixed PFS
    /// tuning parameters. A request to format as `MBR` is deliberately
    /// treated as `PFS`: the `MBR` partition is not independently
    /// formattable.
    ///
    /// # Errors
    ///
    /// This function will return an error if the partition name cannot be
    /// encoded, if no partition of that name exists, or if that partition
    /// is currently mounted.
    pub fn format_partition(&mut self, partition_name: &str, kind: FormattablePartitionKind) -> (r:
        Result<(), HddError>)
        requires
            old(self).wf(),
        ensures
            final(self).wf(),
            final(self).spec_path() == old(self).spec_path(),
            final(self).pfs_mounted() == old(self).pfs_mounted(),
            final(self).hdlfs_mounted() == old(self).hdlfs_mounted(),
            old(self).pfs_mounted() ==> final(self).pfs_partition_name() == old(self).pfs_partition_name(),
            old(self).hdlfs_mounted() ==> final(self).hdlfs_partition_name() == old(self).hdlfs_partition_name(),
            !spec_valid_partition_name(partition_name@) ==> (r matches Err(e) && e
                == HddError::NameEncodingInvalid) && *final(self) == *old(self),
            spec_valid_partition_name(partition_name@) && !spec_table_has_name(
                old(self).spec_partitions(),
                partition_name@,
            ) ==> (r matches Err(e) && e matches HddError::DriverFailure { context, code }
                && context@ == "PFS partition formatting failed"@ && code == -ENOENT) && *final(self) == *old(self),
            spec_valid_partition_name(partition_name@) && spec_table_has_name(
                old(self).spec_partitions(),
                partition_name@,
            ) && ((old(self).pfs_mounted() && old(self).pfs_partition_name() == partition_name@)
                || (old(self).hdlfs_mounted() && old(self).hdlfs_partition_name()
                == partition_name@)) ==> (r matches Err(e) && e matches HddError::DriverFailure {
                context,
                code,
            } && context@ == "PFS partition formatting failed"@ && code == -EBUSY) && *final(self) == *old(self),
            spec_valid_partition_name(partition_name@) && spec_table_has_name(
                old(self).spec_partitions(),
                partition_name@,
            ) && !((old(self).pfs_mounted() && old(self).pfs_partition_name() == partition_name@)
                || (old(self).hdlfs_mounted() && old(self).hdlfs_partition_name()
                == partition_name@)) ==> r is Ok && exists|i: int|
                0 <= i < old(self).spec_partitions().len() && (#[trigger] old(self).spec_partitions()[i]).name == partition_name@ && final(self).spec_partitions()
                    == old(self).spec_partitions().update(
                    i,
                    PartitionView {
                        name: old(self).spec_partitions()[i].name,
                        kind_code: old(self).spec_partitions()[i].kind_code,
                        size_sectors: old(self).spec_partitions()[i].size_sectors,
                        formatted: true,
                        tree: Seq::empty(),
                    },
                ),
    {
        let kind: PartitionKind = PartitionKind::from(
            match kind {
                FormattablePartitionKind::MBR => FormattablePartitionKind::PFS,
                v => v,
            },
        );
        if !valid_partition_name(partition_name) {
            return Err(HddError::NameEncodingInvalid);
        }
        let name = partition_name.to_owned();
        let root = match kind {
            PartitionKind::HDL => FsRoot::Hdl,
            _ => FsRoot::Pfs,
        };
        let device = kind.as_apa_fs_type_lower().to_owned().concat("0:");
        proof {
            reveal_strlit("pfs");
            reveal_strlit("hdl");
            reveal_strlit("0:");
            reveal_strlit("pfs0:");
            reveal_strlit("hdl0:");
            assert(device@ =~= crate::device::spec_root_prefix(root));
        }
        let partition = "hdd0:".to_owned().concat(partition_name);
        let ghost parts = old(self).spec_partitions();
        let code = self.device.format_fs(
            device.as_str(),
            root,
            &partition,
            &name,
            PFS_ZONE_SIZE,
            0x2d66,
            PFS_FRAGMENT,
        );
        proof {
            crate::device::lemma_find_part_props(parts, name@);
            lemma_mount_name_bridge(*old(self), name@);
        }
        match ok_on_zero_or_strerror(code, "PFS partition formatting failed") {
            Ok(_) => Ok(()),
            Err(message) => Err(message),
        }
    }

    /// Acquire a file I/O handle bound to the specified PFS partition,
    /// mounted at the fixed `pfs0:` device root.
    ///
    /// # Errors
    ///
    /// This function will return an error if a PFS mount is already active,
    /// if the partition name cannot be encoded, or if the underlying mount
    /// call fails — when no partition of that name exists, when it holds no
    /// formatted file system, or when it is already claimed by the HDLFS
    /// mount.
    pub fn mount_pfs(&mut self, partition_name: &str) -> (r: Result<PFS, HddError>)
        requires
            old(self).wf(),
        ensures
            final(self).wf(),
            final(self).spec_path() == old(self).spec_path(),
            final(self).spec_partitions() == old(self).spec_partitions(),
            final(self).hdlfs_mounted() == old(self).hdlfs_mounted(),
            old(self).hdlfs_mounted() ==> final(self).hdlfs_partition_name() == old(self).hdlfs_partition_name(),
            old(self).pfs_mounted() ==> (r matches Err(e) && e matches HddError::AlreadyMounted {
                filesystem,
            } && filesystem@ == "PFS"@) && *final(self) == *old(self),
            !old(self).pfs_mounted() && !spec_valid_partition_name(partition_name@) ==> (r matches
            Err(e) && e == HddError::NameEncodingInvalid) && *final(self) == *old(self),
            !old(self).pfs_mounted() && spec_valid_partition_name(partition_name@)
                && !spec_table_has_name(old(self).spec_partitions(), partition_name@) ==> (r matches
            Err(e) && e matches HddError::DriverFailure { context, code } && context@
                == "Mounting failed"@ && code == -ENOENT) && *final(self) == *old(self),
            !old(self).pfs_mounted() && spec_valid_partition_name(partition_name@)
                && spec_table_has_name(old(self).spec_partitions(), partition_name@)
                && !crate::fs::spec_name_formatted(old(self).spec_partitions(), partition_name@)
                ==> (r matches Err(e) && e matches HddError::DriverFailure { context, code }
                && context@ == "Mounting failed"@ && code == -EIO) && *final(self) == *old(self),
            !old(self).pfs_mounted() && spec_valid_partition_name(partition_name@)
                && crate::fs::spec_name_formatted(old(self).spec_partitions(), partition_name@) && (
            old(self).hdlfs_mounted() && old(self).hdlfs_partition_name() == partition_name@) ==> (
            r matches Err(e) && e matches HddError::DriverFailure { context, code } && context@
                == "Mounting failed"@ && code == -EBUSY) && *final(self) == *old(self),
            !old(self).pfs_mounted() && spec_valid_partition_name(partition_name@)
                && crate::fs::spec_name_formatted(old(self).spec_partitions(), partition_name@)
                && !(old(self).hdlfs_mounted() && old(self).hdlfs_partition_name()
                == partition_name@) ==> {
                &&& r matches Ok(h) && h.partition_name@ == partition_name@
                &&& final(self).pfs_mounted()
                &&& final(self).pfs_partition_name() == partition_name@
                &&& exists|i: int|
                    0 <= i < old(self).spec_partitions().len() && (#[trigger] old(
                        self,
                    ).spec_partitions()[i]).name == partition_name@ && final(self).pfs_tree()
                        == old(self).spec_partitions()[i].tree
            },
    {
        if self.pfs.is_some() {
            return Err(HddError::AlreadyMounted { filesystem: "PFS".to_owned() });
        }
        proof {
            lemma_mount_name_bridge(*old(self), partition_name@);
        }
        match self.mount(FsRoot::Pfs, "pfs0:", partition_name) {
            Ok(()) => {},
            Err(message) => {
                return Err(message);
            },
        }
        self.pfs = Some(PFS { partition_name: partition_name.to_owned() });
        proof {
            let parts = old(self).spec_partitions();
            crate::device::lemma_find_part_props(parts, partition_name@);
            match crate::device::spec_find_part(parts, partition_name@) {
                Some(i) => {
                    assert(self.spec_partitions() == parts);
                    assert(parts[i].name == partition_name@);
                    assert(self.pfs_tree() == parts[i].tree);
                },
                None => {},
            }
        }
        Ok(PFS { partition_name: partition_name.to_owned() })
    }

    /// Unmount the currently-mounted PFS device: releases the driver's
    /// `pfs0:` binding and clears the session's held-handle slot.
    ///
    /// # Errors
    ///
    /// This function will return an error if no PFS mount is active.
    pub fn umount_pfs(&mut self) -> (r: Result<(), HddError>)
        requires
            old(self).wf(),
        ensures
            final(self).wf(),
            !old(self).pfs_mounted() ==> (r matches Err(e) && e matches HddError::NotMounted {
                filesystem,
            } && filesystem@ == "PFS"@) && *final(self) == *old(self),
            old(self).pfs_mounted() ==> {
                &&& r is Ok
                &&& !final(self).pfs_mounted()
                &&& final(self).spec_partitions() == old(self).spec_partitions()
                &&& final(self).spec_path() == old(self).spec_path()
                &&& final(self).hdlfs_mounted() == old(self).hdlfs_mounted()
                &&& old(self).hdlfs_mounted() ==> final(self).hdlfs_partition_name() == old(
                    self,
                ).hdlfs_partition_name()
            },
    {
        if self.pfs.is_none() {
            return Err(HddError::NotMounted { filesystem: "PFS".to_owned() });
        }
        let code = self.device.umount_fs(FsRoot::Pfs);
        match ok_on_zero_or_strerror(code, "Unmounting failed") {
            Ok(_) => {},
            Err(message) => {
                proof {
                    assert(false);
                }
                return Err(message);
            },
        }
        self.pfs = None;
        Ok(())
    }

    /// Acquire a file I/O handle bound to the specified HDLFS partition,
    /// mounted at the fixed `hdl0:` device root.
    ///
    /// # Errors
    ///
    /// This function will return an error if an HDLFS mount is already
    /// active, if the partition name cannot be encoded, or if the
    /// underlying mount call fails — when no partition of that name exists,
    /// when it holds no formatted file system, or when it is already
    /// claimed by the PFS mount.
    pub fn mount_hdlfs(&mut self, partition_name: &str) -> (r: Result<HDLFS, HddError>)
        requires
            old(self).wf(),
        ensures
            final(self).wf(),
            final(self).spec_path() == old(self).spec_path(),
            final(self).spec_partitions() == old(self).spec_partitions(),
            final(self).pfs_mounted() == old(self).pfs_mounted(),
            old(self).pfs_mounted() ==> final(self).pfs_partition_name() == old(self).pfs_partition_name(),
            old(self).hdlfs_mounted() ==> (r matches Err(e) && e matches HddError::AlreadyMounted {
                filesystem,
            } && filesystem@ == "HDLFS"@) && *final(self) == *old(self),
            !old(self).hdlfs_mounted() && !spec_valid_partition_name(partition_name@) ==> (r matches
            Err(e) && e == HddError::NameEncodingInvalid) && *final(self) == *old(self),
            !old(self).hdlfs_mounted() && spec_valid_partition_name(partition_name@)
                && !spec_table_has_name(old(self).spec_partitions(), partition_name@) ==> (r matches
            Err(e) && e matches HddError::DriverFailure { context, code } && context@
                == "Mounting failed"@ && code == -ENOENT) && *final(self) == *old(self),
            !old(self).hdlfs_mounted() && spec_valid_partition_name(partition_name@)
                && spec_table_has_name(old(self).spec_partitions(), partition_name@)
                && !crate::fs::spec_name_formatted(old(self).spec_partitions(), partition_name@)
                ==> (r matches Err(e) && e matches HddError::DriverFailure { context, code }
                && context@ == "Mounting failed"@ && code == -EIO) && *final(self) == *old(self),
            !old(self).hdlfs_mounted() && spec_valid_partition_name(partition_name@)
                && crate::fs::spec_name_formatted(old(self).spec_partitions(), partition_name@) && (
            old(self).pfs_mounted() && old(self).pfs_partition_name() == partition_name@) ==> (r
            matches Err(e) && e matches HddError::DriverFailure { context, code } && context@
                == "Mounting failed"@ && code == -EBUSY) && *final(self) == *old(self),
            !old(self).hdlfs_mounted() && spec_valid_partition_name(partition_name@)
                && crate::fs::spec_name_formatted(old(self).spec_partitions(), partition_name@)
                && !(old(self).pfs_mounted() && old(self).pfs_partition_name() == partition_name@)
                ==> {
                &&& r matches Ok(h) && h.partition_name@ == partition_name@
                &&& final(self).hdlfs_mounted()
                &&& final(self).hdlfs_partition_name() == partition_name@
                &&& exists|i: int|
                    0 <= i < old(self).spec_partitions().len() && (#[trigger] old(
                        self,
                    ).spec_partitions()[i]).name == partition_name@ && final(self).hdlfs_tree()
                        == old(self).spec_partitions()[i].tree
            },
    {
        if self.hdlfs.is_some() {
            return Err(HddError::AlreadyMounted { filesystem: "HDLFS".to_owned() });
        }
        proof {
            lemma_mount_name_bridge(*old(self), partition_name@);
        }
        match self.mount(FsRoot::Hdl, "hdl0:", partition_name) {
            Ok(()) => {},
            Err(message) => {
                return Err(message);
            },
        }
        self.hdlfs = Some(HDLFS { partition_name: partition_name.to_owned() });
        proof {
            let parts = old(self).spec_partitions();
            crate::device::lemma_find_part_props(parts, partition_name@);
            match crate::device::spec_find_part(parts, partition_name@) {
                Some(i) => {
                    assert(self.spec_partitions() == parts);
                    assert(parts[i].name == partition_name@);
                    assert(self.hdlfs_tree() == parts[i].tree);
                },
                None => {},
            }
        }
        Ok(HDLFS { partition_name: partition_name.to_owned() })
    }

    /// Unmount the currently-mounted HDLFS device: releases the driver's
    /// `hdl0:` binding and clears the session's held-handle slot.
    ///
    /// # Errors
    ///
    /// This function will return an error if no HDLFS mount is active.
    pub fn umount_hdlfs(&mut self) -> (r: Result<(), HddError>)
        requires
            old(self).wf(),
        ensures
            final(self).wf(),
            !old(self).hdlfs_mounted() ==> (r matches Err(e) && e matches HddError::NotMounted {
                filesystem,
            } && filesystem@ == "HDLFS"@) && *final(self) == *old(self),
            old(self).hdlfs_mounted() ==> {
                &&& r is Ok
                &&& !final(self).hdlfs_mounted()
                &&& final(self).spec_partitions() == old(self).spec_partitions()
                &&& final(self).spec_path() == old(self).spec_path()
                &&& final(self).pfs_mounted() == old(self).pfs_mounted()
                &&& old(self).pfs_mounted() ==> final(self).pfs_partition_name() == old(
                    self,
                ).pfs_partition_name()
            },
    {
        if self.hdlfs.is_none() {
            return Err(HddError::NotMounted { filesystem: "HDLFS".to_owned() });
        }
        let code = self.device.umount_fs(FsRoot::Hdl);
        match ok_on_zero_or_strerror(code, "Unmounting failed") {
            Ok(_) => {},
            Err(message) => {
                proof {
                    assert(false);
                }
                return Err(message);
            },
        }
        self.hdlfs = None;
        Ok(())
    }

    /// Binds a file-system root to a named partition through the driver's
    /// mount primitive; shared by the PFS and HDLFS mount operations, which
    /// check their held-handle slots first.
    fn mount(&mut self, root: FsRoot, mount_point: &str, partition_name: &str) -> (r: Result<
        (),
        HddError,
    >)
        requires
            old(self).wf(),
            mount_point@ == crate::device::spec_root_prefix(root),
            old(self).device.spec_bound(root) is None,
        ensures
            final(self).device.wf(),
            final(self).device.cursor is None,
            final(self).path == old(self).path,
            final(self).pfs == old(self).pfs,
            final(self).hdlfs == old(self).hdlfs,
            final(self).spec_partitions() == old(self).spec_partitions(),
            !spec_valid_partition_name(partition_name@) ==> (r matches Err(e) && e
                == HddError::NameEncodingInvalid) && *final(self) == *old(self),
            spec_valid_partition_name(partition_name@) ==> {
                let code = old(self).device.spec_mount_code(root, partition_name@);
                &&& code != 0 ==> (r matches Err(e) && e matches HddError::DriverFailure {
                    context,
                    code: c,
                } && context@ == "Mounting failed"@ && c == code) && *final(self) == *old(self)
                &&& code == 0 ==> r is Ok && final(self).device.spec_bound(crate::device::spec_other_root(root))
                    == old(self).device.spec_bound(crate::device::spec_other_root(root))
                    && (final(self).device.spec_bound(root) matches Some(i)
                    && crate::device::spec_find_part(old(self).spec_partitions(), partition_name@)
                    == Some(i as int))
            },
    {
        if !valid_partition_name(partition_name) {
            return Err(HddError::NameEncodingInvalid);
        }
        let name = partition_name.to_owned();
        let partition = "hdd0:".to_owned().concat(partition_name);
        let code = self.device.mount_fs(root, mount_point, &partition, &name);
        match ok_on_zero_or_strerror(code, "Mounting failed") {
            Ok(_) => Ok(()),
            Err(message) => Err(message),
        }
    }

    /// Closes the session: releases the device resources of the modeled
    /// driver and clears the registry's singleton claim. A session must
    /// only ever be destroyed through the registry it was opened on —
    /// destroying it while that registry is unclaimed would mean the
    /// singleton invariant was already violated elsewhere.
    pub fn close(self, registry: &mut SessionRegistry)
        requires
            old(registry).spec_is_active(),
        ensures
            !final(registry).spec_is_active(),
    {
        registry.release();
    }
}

/// What the session's abstract state means over the modeled device: the
/// directory-operation layer reasons through these equalities.
pub(crate) proof fn lemma_session_unfold(s: PS2HDD)
    ensures
        s.pfs_tree() == s.device.spec_tree(FsRoot::Pfs),
        s.hdlfs_tree() == s.device.spec_tree(FsRoot::Hdl),
        s.spec_partitions() == s.device.spec_table(),
        s.pfs_mounted() == (s.pfs is Some),
        s.hdlfs_mounted() == (s.hdlfs is Some),
        s.spec_path() == s.path@,
        s.pfs matches Some(h) ==> s.pfs_partition_name() == h.partition_name@,
        s.hdlfs matches Some(h) ==> s.hdlfs_partition_name() == h.partition_name@,
        s.wf() <==> {
            &&& s.device.wf()
            &&& s.device.cursor is None
            &&& (s.pfs is Some) == (s.device.pfs_bound is Some)
            &&& (s.hdlfs is Some) == (s.device.hdl_bound is Some)
            &&& s.pfs matches Some(h) ==> s.device.pfs_bound matches Some(i)
                && s.device.spec_table()[i as int].name == h.partition_name@
            &&& s.hdlfs matches Some(h) ==> s.device.hdl_bound matches Some(i)
                && s.device.spec_table()[i as int].name == h.partition_name@
        },
{
}

/// The bound indexes of a well-formed session point at the slots whose
/// names its mount handles carry, so a slot found by name is the bound
/// slot exactly when the matching mount names that partition.
proof fn lemma_mount_name_bridge(s: PS2HDD, name: Seq<char>)
        requires
            s.wf(),
        ensures
            crate::device::spec_find_part(s.spec_partitions(), name) matches Some(i) ==> {
                &&& ((match s.device.pfs_bound {
                    Some(j) => j == i,
                    None => false,
                }) <==> (s.pfs_mounted() && s.pfs_partition_name() == name))
                &&& ((match s.device.hdl_bound {
                    Some(j) => j == i,
                    None => false,
                }) <==> (s.hdlfs_mounted() && s.hdlfs_partition_name() == name))
            },
            crate::device::spec_find_part(s.spec_partitions(), name) is Some <==> spec_table_has_name(
                s.spec_partitions(),
                name,
            ),
            crate::device::spec_find_part(s.spec_partitions(), name) matches Some(i) ==> (
            s.spec_partitions()[i].formatted <==> crate::fs::spec_name_formatted(
                s.spec_partitions(),
                name,
            )),
    {
        let parts = s.spec_partitions();
        crate::device::lemma_find_part_props(parts, name);
        assert(parts.len() == s.device.table@.len());
        assert forall|k: int| 0 <= k < parts.len() implies #[trigger] parts[k] == s.device.table@[k]@ by {}
        match crate::device::spec_find_part(parts, name) {
            Some(i) => {
                assert(parts[i].name == name);
                match s.device.pfs_bound {
                    Some(j) => {
                        assert(parts[j as int].name == s.pfs_partition_name());
                        if j != i && parts[j as int].name == name {
                            assert(s.device.table@[i].name@ == s.device.table@[j as int].name@);
                            assert(false);
                        }
                    },
                    None => {},
                }
                match s.device.hdl_bound {
                    Some(j) => {
                        assert(parts[j as int].name == s.hdlfs_partition_name());
                        if j != i && parts[j as int].name == name {
                            assert(s.device.table@[i].name@ == s.device.table@[j as int].name@);
                            assert(false);
                        }
                    },
                    None => {},
                }
                if crate::fs::spec_name_formatted(parts, name) {
                    let j = choose|j: int|
                        0 <= j < parts.len() && (#[trigger] parts[j]).name == name
                            && parts[j].formatted;
                    if j != i {
                        assert(s.device.table@[i].name@ == s.device.table@[j].name@);
                        assert(false);
                    }
                }
            },
            None => {},
        }
    }

} // verus!

