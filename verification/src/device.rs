//! An executable model of the low-level disk and file-system driver's
//! observable state and behaviour at this layer's boundary.
//!
//! The real driver is an external collaborator, out of scope and assumed
//! correct: it keeps the APA partition table of the open image, a cursor per
//! open directory handle, and the binding of each file-system root
//! (`pfs0:`, `hdl0:`) to a partition. This module renders exactly that
//! observable state over plain values, with each primitive returning a
//! signed result code under the driver's conventions: negative is an errno,
//! zero or a positive handle is success. The management layer is specified
//! and verified against this model.
//!
//! The model hands out one directory handle at a time — all the layer above
//! ever holds — always numbered 1, as the driver reuses the lowest free
//! descriptor.

use vstd::prelude::*;

use crate::error::{EBADF, EBUSY, EEXIST, EINVAL, EIO, EMFILE, ENODEV, ENOENT, ENOSPC, ENOTEMPTY};
use crate::fs::{
    spec_all_valid_components, spec_children_of, spec_default_partitions, spec_dir_exists,
    spec_is_child_of, spec_same_geometry, spec_valid_component, spec_valid_partition_name,
    valid_component, PartitionView, RawDirent, RawDirentView, DIR_MODE,
};
use crate::partition_kind::PartitionKind;
use crate::text::spec_dec;

verus! {

/// The read-write open flag of the driver's open primitive.
pub const IOMANX_O_RDWR: u32 = 3;

/// The create-if-missing open flag of the driver's open primitive.
pub const IOMANX_O_CREAT: u32 = 0x200;

/// The size of one default partition, in sectors: 128 MiB at 512 bytes per
/// sector.
pub const DEFAULT_PART_SECTORS: u32 = 262144;

/// Duplicates a component path, value for value.
pub(crate) fn clone_comps(a: &Vec<String>) -> (r: Vec<String>)
    ensures
        r.deep_view() == a.deep_view(),
{
    let mut r: Vec<String> = Vec::new();
    let mut i: usize = 0;
    proof {
        assert(r.deep_view() =~= a.deep_view().take(0));
    }
    while i < a.len()
        invariant
            0 <= i <= a.len(),
            r.deep_view() =~= a.deep_view().take(i as int),
        decreases a.len() - i,
    {
        let ghost prev = r.deep_view();
        let c = a[i].clone();
        proof {
            assert(c@ == a.deep_view()[i as int]);
        }
        r.push(c);
        proof {
            assert(r.deep_view() =~= prev.push(c@));
            assert(r.deep_view() =~= a.deep_view().take(i as int + 1));
        }
        i += 1;
    }
    proof {
        assert(a.deep_view().take(a.len() as int) =~= a.deep_view());
    }
    r
}

/// Compares two component paths, value for value.
fn comps_eq(a: &Vec<String>, b: &Vec<String>) -> (r: bool)
    ensures
        r == (a.deep_view() == b.deep_view()),
{
    if a.len() != b.len() {
        proof {
            assert(a.deep_view().len() == a.len() && b.deep_view().len() == b.len());
        }
        return false;
    }
    let mut i: usize = 0;
    while i < a.len()
        invariant
            0 <= i <= a.len(),
            a.len() == b.len(),
            forall|j: int| 0 <= j < i ==> a.deep_view()[j] == b.deep_view()[j],
        decreases a.len() - i,
    {
        if !(a[i] == b[i]) {
            proof {
                assert(a.deep_view()[i as int] != b.deep_view()[i as int]);
            }
            return false;
        }
        i += 1;
    }
    proof {
        assert(a.deep_view() =~= b.deep_view());
    }
    true
}

/// Whether `e` names a direct child of `d`.
fn is_child_vec(e: &Vec<String>, d: &Vec<String>) -> (r: bool)
    ensures
        r == spec_is_child_of(e.deep_view(), d.deep_view()),
{
    if e.len() < 1 || e.len() - 1 != d.len() {
        return false;
    }
    let mut i: usize = 0;
    while i < d.len()
        invariant
            0 <= i <= d.len(),
            e.len() == d.len() + 1,
            forall|j: int| 0 <= j < i ==> e.deep_view()[j] == d.deep_view()[j],
        decreases d.len() - i,
    {
        if !(e[i] == d[i]) {
            proof {
                assert(e.deep_view().take(d.len() as int)[i as int] != d.deep_view()[i as int]);
            }
            return false;
        }
        i += 1;
    }
    proof {
        assert(e.deep_view().take(d.len() as int) =~= d.deep_view());
    }
    true
}

/// The directory tree of one formatted file system: the component path of
/// every directory below the root, in creation order.
#[derive(Debug)]
pub struct DirTree {
    pub dirs: Vec<Vec<String>>,
}

impl DirTree {
    /// The recorded directories as component paths.
    pub open spec fn spec_dirs(&self) -> Seq<Seq<Seq<char>>> {
        self.dirs.deep_view()
    }

    /// Well-formedness: every recorded directory is a nonempty path of valid
    /// components, its parent is recorded too (or is the root), and no
    /// directory is recorded twice.
    pub open spec fn wf(&self) -> bool {
        let ds = self.spec_dirs();
        &&& forall|i: int| 0 <= i < ds.len() ==> (#[trigger] ds[i]).len() >= 1
        &&& forall|i: int, j: int|
            0 <= i < ds.len() && 0 <= j < ds[i].len() ==> spec_valid_component(#[trigger] ds[i][j])
        &&& forall|i: int| 0 <= i < ds.len() ==> spec_dir_exists(ds, (#[trigger] ds[i]).drop_last())
        &&& forall|i: int, j: int| 0 <= i < j < ds.len() ==> ds[i] != ds[j]
    }

    /// An empty tree: the root and nothing below it.
    pub fn empty() -> (r: DirTree)
        ensures
            r.spec_dirs() == Seq::<Seq<Seq<char>>>::empty(),
            r.wf(),
    {
        let r = DirTree { dirs: Vec::new() };
        proof {
            assert(r.spec_dirs() =~= Seq::<Seq<Seq<char>>>::empty());
        }
        r
    }

    /// Whether the tree records this directory.
    fn contains_dir(&self, d: &Vec<String>) -> (r: bool)
        ensures
            r == self.spec_dirs().contains(d.deep_view()),
    {
        let mut i: usize = 0;
        while i < self.dirs.len()
            invariant
                0 <= i <= self.dirs.len(),
                forall|j: int| 0 <= j < i ==> self.spec_dirs()[j] != d.deep_view(),
            decreases self.dirs.len() - i,
        {
            if comps_eq(&self.dirs[i], d) {
                proof {
                    assert(self.spec_dirs()[i as int] == d.deep_view());
                }
                return true;
            }
            i += 1;
        }
        proof {
            if self.spec_dirs().contains(d.deep_view()) {
                let j = choose|j: int|
                    0 <= j < self.spec_dirs().len() && self.spec_dirs()[j] == d.deep_view();
                assert(false);
            }
        }
        false
    }

    /// The position of a recorded directory, where one exists.
    fn index_of(&self, d: &Vec<String>) -> (r: Option<usize>)
        ensures
            match r {
                Some(i) => i < self.dirs@.len() && self.spec_dirs()[i as int] == d.deep_view(),
                None => !self.spec_dirs().contains(d.deep_view()),
            },
    {
        let mut i: usize = 0;
        while i < self.dirs.len()
            invariant
                0 <= i <= self.dirs.len(),
                forall|j: int| 0 <= j < i ==> self.spec_dirs()[j] != d.deep_view(),
            decreases self.dirs.len() - i,
        {
            if comps_eq(&self.dirs[i], d) {
                return Some(i);
            }
            i += 1;
        }
        proof {
            if self.spec_dirs().contains(d.deep_view()) {
                let j = choose|j: int|
                    0 <= j < self.spec_dirs().len() && self.spec_dirs()[j] == d.deep_view();
                assert(false);
            }
        }
        None
    }

    /// The names of the direct children of `d`, in creation order.
    fn children(&self, d: &Vec<String>) -> (r: Vec<String>)
        ensures
            r.deep_view() == spec_children_of(self.spec_dirs(), d.deep_view()),
    {
        let mut out: Vec<String> = Vec::new();
        let mut i: usize = 0;
        proof {
            assert(self.spec_dirs().take(0) =~= Seq::<Seq<Seq<char>>>::empty());
        }
        while i < self.dirs.len()
            invariant
                0 <= i <= self.dirs.len(),
                out.deep_view() == spec_children_of(
                    self.spec_dirs().take(i as int),
                    d.deep_view(),
                ),
            decreases self.dirs.len() - i,
        {
            let ghost prev = out.deep_view();
            proof {
                assert(self.spec_dirs().take(i as int + 1).drop_last() =~= self.spec_dirs().take(
                    i as int,
                ));
                assert(self.spec_dirs().take(i as int + 1).last() == self.spec_dirs()[i as int]);
            }
            if is_child_vec(&self.dirs[i], d) {
                let e = &self.dirs[i];
                proof {
                    assert(e.deep_view().len() >= 1);
                }
                out.push(e[e.len() - 1].clone());
                proof {
                    assert(e.deep_view().last() == e@[e@.len() - 1].deep_view());
                    assert(out.deep_view() =~= prev.push(e.deep_view().last()));
                }
            }
            i += 1;
        }
        proof {
            assert(self.spec_dirs().take(self.dirs.len() as int) =~= self.spec_dirs());
        }
        out
    }
}

/// One slot of the APA partition table: the partition's name, its on-disk
/// type code, its size in sectors, and — once a file system has been
/// formatted onto it — that file system's directory tree.
#[derive(Debug)]
pub struct PartSlot {
    pub name: String,
    pub kind_code: u32,
    pub size_sectors: u32,
    pub fs: Option<DirTree>,
}

impl View for PartSlot {
    type V = PartitionView;

    open spec fn view(&self) -> PartitionView {
        PartitionView {
            name: self.name@,
            kind_code: self.kind_code,
            size_sectors: self.size_sectors,
            formatted: self.fs is Some,
            tree: match self.fs {
                Some(t) => t.spec_dirs(),
                None => Seq::empty(),
            },
        }
    }
}

impl PartSlot {
    /// Well-formedness: a valid name, a recognised (or absent) type code,
    /// and a well-formed tree where one exists.
    pub open spec fn wf(&self) -> bool {
        &&& spec_valid_partition_name(self.name@)
        &&& self.kind_code == 0 || PartitionKind::spec_of_code(self.kind_code) is Some
        &&& match self.fs {
            Some(t) => t.wf(),
            None => true,
        }
    }
}

/// The driver's cursor for the one open directory handle: the snapshot of
/// entries taken when the handle was opened, and how many have been read.
#[derive(Debug)]
pub struct Cursor {
    pub fd: i32,
    pub entries: Vec<RawDirent>,
    pub pos: usize,
}

/// Which mounted file-system root a primitive call addresses.
#[derive(Copy, Clone, PartialEq, Eq, Structural, Debug)]
pub enum FsRoot {
    Pfs,
    Hdl,
}

/// The other file-system root.
pub open spec fn spec_other_root(root: FsRoot) -> FsRoot {
    match root {
        FsRoot::Pfs => FsRoot::Hdl,
        FsRoot::Hdl => FsRoot::Pfs,
    }
}

/// The size field of a creation path: `{n}M` below 1024 MiB, else
/// `{n/1024}G`.
pub open spec fn spec_size_str(size_mib: u64) -> Seq<char> {
    if size_mib >= 1024 {
        spec_dec((size_mib / 1024) as nat) + seq!['G']
    } else {
        spec_dec(size_mib as nat) + seq!['M']
    }
}

/// The creation path the driver's open primitive parses into a new
/// partition: the table root, the name, the fixed sector/head/cylinder
/// placeholder, the size field, and the kind's short tag.
pub open spec fn spec_mkpart_path(name: Seq<char>, size_mib: u64, tag: Seq<char>) -> Seq<char> {
    "hdd0:"@ + name + ",,,"@ + spec_size_str(size_mib) + ","@ + tag
}

/// The fixed device prefix of a file-system root.
pub open spec fn spec_root_prefix(root: FsRoot) -> Seq<char> {
    match root {
        FsRoot::Pfs => "pfs0:"@,
        FsRoot::Hdl => "hdl0:"@,
    }
}

/// The modeled driver state for one open device: its APA partition table,
/// the at-most-one directory cursor this layer ever holds open, and the
/// partition each file-system root is mounted on.
#[derive(Debug)]
pub struct Device {
    pub table: Vec<PartSlot>,
    pub cursor: Option<Cursor>,
    pub pfs_bound: Option<usize>,
    pub hdl_bound: Option<usize>,
}

/// The projection of the partition table into the raw records the driver's
/// directory-read primitive yields for the table root.
pub open spec fn spec_table_dirents(t: Seq<PartitionView>) -> Seq<RawDirentView> {
    t.map_values(
        |p: PartitionView|
            RawDirentView { name: p.name, mode: p.kind_code, size_sectors: p.size_sectors },
    )
}

/// The raw records the driver's directory-read primitive yields for a
/// file-system directory: the self and parent pseudo-entries, then the
/// directory's children in creation order.
pub open spec fn spec_dir_dirents(children: Seq<Seq<char>>) -> Seq<RawDirentView> {
    seq![
        RawDirentView { name: "."@, mode: DIR_MODE, size_sectors: 0 },
        RawDirentView { name: ".."@, mode: DIR_MODE, size_sectors: 0 },
    ] + children.map_values(|n: Seq<char>| RawDirentView { name: n, mode: DIR_MODE, size_sectors: 0 })
}

/// The first slot of the table carrying this name.
pub open spec fn spec_find_part(t: Seq<PartitionView>, name: Seq<char>) -> Option<int>
    decreases t.len(),
{
    if t.len() == 0 {
        None
    } else if t[0].name == name {
        Some(0)
    } else {
        match spec_find_part(t.skip(1), name) {
            Some(i) => Some(i + 1),
            None => None,
        }
    }
}

/// A found slot is in range, carries the name, and is the first to do so;
/// when nothing is found, no slot carries the name.
pub proof fn lemma_find_part_props(t: Seq<PartitionView>, name: Seq<char>)
    ensures
        match spec_find_part(t, name) {
            Some(i) => 0 <= i < t.len() && t[i].name == name && forall|j: int|
                0 <= j < i ==> t[j].name != name,
            None => forall|j: int| 0 <= j < t.len() ==> t[j].name != name,
        },
    decreases t.len(),
{
    if t.len() > 0 && t[0].name != name {
        lemma_find_part_props(t.skip(1), name);
        match spec_find_part(t.skip(1), name) {
            Some(i) => {
                assert(t.skip(1)[i] == t[i + 1]);
                assert forall|j: int| 0 <= j < i + 1 implies t[j].name != name by {
                    if j > 0 {
                        assert(t.skip(1)[j - 1] == t[j]);
                    }
                }
            },
            None => {
                assert forall|j: int| 0 <= j < t.len() implies t[j].name != name by {
                    if j > 0 {
                        assert(t.skip(1)[j - 1] == t[j]);
                    }
                }
            },
        }
    }
}

/// The slot at a witnessed first occurrence is what the search finds.
pub proof fn lemma_find_part_at(t: Seq<PartitionView>, name: Seq<char>, i: int)
    requires
        0 <= i < t.len(),
        t[i].name == name,
        forall|j: int| 0 <= j < i ==> t[j].name != name,
    ensures
        spec_find_part(t, name) == Some(i),
    decreases t.len(),
{
    if i > 0 {
        lemma_find_part_at(t.skip(1), name, i - 1);
    }
}

/// A search over a table with no slot of the name finds nothing.
pub proof fn lemma_find_part_none(t: Seq<PartitionView>, name: Seq<char>)
    requires
        forall|j: int| 0 <= j < t.len() ==> t[j].name != name,
    ensures
        spec_find_part(t, name) is None,
    decreases t.len(),
{
    if t.len() > 0 {
        lemma_find_part_none(t.skip(1), name);
    }
}

impl Device {
    /// The partition table as mathematical values.
    pub open spec fn spec_table(&self) -> Seq<PartitionView> {
        self.table@.map_values(|s: PartSlot| s@)
    }

    /// The partition index a file-system root is bound to.
    pub open spec fn spec_bound(&self, root: FsRoot) -> Option<usize> {
        match root {
            FsRoot::Pfs => self.pfs_bound,
            FsRoot::Hdl => self.hdl_bound,
        }
    }

    /// The directory tree visible at a file-system root; empty when the
    /// root is not bound.
    pub open spec fn spec_tree(&self, root: FsRoot) -> Seq<Seq<Seq<char>>> {
        match self.spec_bound(root) {
            Some(i) => self.spec_table()[i as int].tree,
            None => Seq::empty(),
        }
    }

    /// The entries of the open cursor as mathematical values.
    pub open spec fn spec_cursor_entries(&self) -> Seq<RawDirentView> {
        match self.cursor {
            Some(c) => c.entries@.map_values(|e: RawDirent| e@),
            None => Seq::empty(),
        }
    }

    /// Well-formedness of the modeled state.
    pub open spec fn wf(&self) -> bool {
        &&& forall|i: int| 0 <= i < self.table@.len() ==> (#[trigger] self.table@[i]).wf()
        &&& forall|i: int, j: int|
            0 <= i < j < self.table@.len() ==> self.table@[i].name@ != self.table@[j].name@
        &&& self.pfs_bound matches Some(i) ==> i < self.table@.len() && self.table@[i as int].fs
            is Some
        &&& self.hdl_bound matches Some(i) ==> i < self.table@.len() && self.table@[i as int].fs
            is Some
        &&& self.pfs_bound is Some && self.hdl_bound is Some ==> self.pfs_bound != self.hdl_bound
        &&& self.cursor matches Some(c) ==> c.pos <= c.entries@.len() && c.fd == 1
    }

    /// A freshly opened device: an empty partition table, no cursor and no
    /// bindings.
    pub fn new() -> (r: Device)
        ensures
            r.wf(),
            r.spec_table() == Seq::<PartitionView>::empty(),
            r.cursor is None,
            r.pfs_bound is None,
            r.hdl_bound is None,
    {
        let r = Device { table: Vec::new(), cursor: None, pfs_bound: None, hdl_bound: None };
        proof {
            assert(r.spec_table() =~= Seq::<PartitionView>::empty());
        }
        r
    }

    /// Brings up the APA partition driver; the model's bring-up cannot fail.
    pub fn init_apa(&self) -> (r: i32)
        ensures
            r == 0,
    {
        0
    }

    /// Brings up the PFS file-system driver; the model's bring-up cannot
    /// fail.
    pub fn init_pfs(&self) -> (r: i32)
        ensures
            r == 0,
    {
        0
    }

    /// The first slot carrying this name, searched in table order.
    fn find_part(&self, name: &String) -> (r: Option<usize>)
        ensures
            match r {
                Some(i) => spec_find_part(self.spec_table(), name@) == Some(i as int),
                None => spec_find_part(self.spec_table(), name@) is None,
            },
    {
        let mut i: usize = 0;
        while i < self.table.len()
            invariant
                0 <= i <= self.table.len(),
                forall|j: int| 0 <= j < i ==> self.spec_table()[j].name != name@,
            decreases self.table.len() - i,
        {
            if self.table[i].name == *name {
                proof {
                    lemma_find_part_at(self.spec_table(), name@, i as int);
                }
                return Some(i);
            }
            i += 1;
        }
        proof {
            lemma_find_part_none(self.spec_table(), name@);
        }
        None
    }

    /// Opens a handle on the partition-table root and snapshots its entries,
    /// one raw record per table slot in table order.
    pub fn dopen_hdd(&mut self) -> (r: i32)
        requires
            old(self).wf(),
        ensures
            final(self).wf(),
            final(self).table == old(self).table,
            final(self).pfs_bound == old(self).pfs_bound,
            final(self).hdl_bound == old(self).hdl_bound,
            old(self).cursor is Some ==> r == -EMFILE && *final(self) == *old(self),
            old(self).cursor is None ==> r == 1 && final(self).cursor is Some
                && final(self).spec_cursor_entries() == spec_table_dirents(old(self).spec_table())
                && final(self).cursor->0.pos == 0,
    {
        if self.cursor.is_some() {
            return -EMFILE;
        }
        let mut entries: Vec<RawDirent> = Vec::new();
        let mut i: usize = 0;
        proof {
            assert(entries@.map_values(|e: RawDirent| e@) =~= spec_table_dirents(
                self.spec_table().take(0),
            ));
        }
        while i < self.table.len()
            invariant
                0 <= i <= self.table.len(),
                *self == *old(self),
                entries@.map_values(|e: RawDirent| e@) =~= spec_table_dirents(
                    self.spec_table().take(i as int),
                ),
            decreases self.table.len() - i,
        {
            let ghost prev = entries@.map_values(|e: RawDirent| e@);
            let s = &self.table[i];
            let e = RawDirent { name: s.name.clone(), mode: s.kind_code, size_sectors: s.size_sectors };
            proof {
                assert(e@ == spec_table_dirents(self.spec_table())[i as int]);
            }
            entries.push(e);
            proof {
                assert(entries@.map_values(|e: RawDirent| e@) =~= prev.push(e@));
                assert(spec_table_dirents(self.spec_table().take(i as int + 1)) =~= prev.push(
                    spec_table_dirents(self.spec_table())[i as int],
                ));
            }
            i += 1;
        }
        proof {
            assert(self.spec_table().take(self.table.len() as int) =~= self.spec_table());
        }
        self.cursor = Some(Cursor { fd: 1, entries, pos: 0 });
        1
    }

    /// The result code of opening a directory handle below a file-system
    /// root.
    pub open spec fn spec_dopen_dir_code(&self, root: FsRoot, d: Seq<Seq<char>>) -> i32 {
        if self.cursor is Some {
            (-EMFILE) as i32
        } else if self.spec_bound(root) is None {
            (-ENODEV) as i32
        } else if !spec_all_valid_components(d) {
            (-EINVAL) as i32
        } else if !spec_dir_exists(self.spec_tree(root), d) {
            (-ENOENT) as i32
        } else {
            1
        }
    }

    /// Opens a handle on a directory of a mounted file system and snapshots
    /// its entries: the self and parent pseudo-entries, then the children in
    /// creation order.
    pub fn dopen_dir(&mut self, root: FsRoot, comps: &Vec<String>) -> (r: i32)
        requires
            old(self).wf(),
        ensures
            final(self).wf(),
            r == old(self).spec_dopen_dir_code(root, comps.deep_view()),
            final(self).table == old(self).table,
            final(self).pfs_bound == old(self).pfs_bound,
            final(self).hdl_bound == old(self).hdl_bound,
            r != 1 ==> *final(self) == *old(self),
            r == 1 ==> final(self).cursor is Some && final(self).cursor->0.pos == 0
                && final(self).spec_cursor_entries() == spec_dir_dirents(
                spec_children_of(old(self).spec_tree(root), comps.deep_view()),
            ),
    {
        if self.cursor.is_some() {
            return -EMFILE;
        }
        let idx = match root {
            FsRoot::Pfs => self.pfs_bound,
            FsRoot::Hdl => self.hdl_bound,
        };
        let idx = match idx {
            Some(i) => i,
            None => {
                return -ENODEV;
            },
        };
        let mut k: usize = 0;
        while k < comps.len()
            invariant
                0 <= k <= comps.len(),
                *self == *old(self),
                old(self).wf(),
                old(self).cursor is None,
                old(self).spec_bound(root) == Some(idx),
                forall|j: int| 0 <= j < k ==> spec_valid_component(#[trigger] comps.deep_view()[j]),
            decreases comps.len() - k,
        {
            if !valid_component(&comps[k]) {
                proof {
                    assert(!spec_valid_component(comps.deep_view()[k as int]));
                }
                return -EINVAL;
            }
            k += 1;
        }
        let tree = match &self.table[idx].fs {
            Some(t) => t,
            None => {
                proof {
                    assert(false);
                }
                return -EIO;
            },
        };
        if comps.len() > 0 && !tree.contains_dir(comps) {
            return -ENOENT;
        }
        let children = tree.children(comps);
        let mut entries: Vec<RawDirent> = Vec::new();
        entries.push(RawDirent { name: ".".to_owned(), mode: DIR_MODE, size_sectors: 0 });
        entries.push(RawDirent { name: "..".to_owned(), mode: DIR_MODE, size_sectors: 0 });
        let ghost child_names = spec_children_of(self.spec_tree(root), comps.deep_view());
        let mut i: usize = 0;
        proof {
            assert(entries@.map_values(|e: RawDirent| e@) =~= spec_dir_dirents(
                child_names.take(0),
            ));
        }
        while i < children.len()
            invariant
                0 <= i <= children.len(),
                *self == *old(self),
                old(self).wf(),
                old(self).cursor is None,
                old(self).spec_bound(root) == Some(idx),
                child_names == spec_children_of(old(self).spec_tree(root), comps.deep_view()),
                spec_all_valid_components(comps.deep_view()),
                spec_dir_exists(old(self).spec_tree(root), comps.deep_view()),
                children.deep_view() == child_names,
                entries@.map_values(|e: RawDirent| e@) =~= spec_dir_dirents(
                    child_names.take(i as int),
                ),
            decreases children.len() - i,
        {
            let ghost prev = entries@.map_values(|e: RawDirent| e@);
            let e = RawDirent { name: children[i].clone(), mode: DIR_MODE, size_sectors: 0 };
            proof {
                assert(e@.name == child_names[i as int]);
            }
            entries.push(e);
            proof {
                assert(entries@.map_values(|e: RawDirent| e@) =~= prev.push(e@));
                assert(spec_dir_dirents(child_names.take(i as int + 1)) =~= prev.push(e@));
            }
            i += 1;
        }
        proof {
            assert(child_names.take(children.len() as int) =~= child_names);
        }
        self.cursor = Some(Cursor { fd: 1, entries, pos: 0 });
        1
    }

    /// Reads one entry from the open handle. Negative is an error; zero says
    /// the iteration is complete; a positive value is the handle number —
    /// not data — and says one entry was read.
    pub fn dread(&mut self, fd: i32) -> (r: (i32, Option<RawDirent>))
        requires
            old(self).wf(),
        ensures
            final(self).wf(),
            final(self).table == old(self).table,
            final(self).pfs_bound == old(self).pfs_bound,
            final(self).hdl_bound == old(self).hdl_bound,
            match old(self).cursor {
                None => r.0 == -EBADF && r.1 is None && *final(self) == *old(self),
                Some(c) => if fd != c.fd {
                    r.0 == -EBADF && r.1 is None && *final(self) == *old(self)
                } else if c.pos < c.entries@.len() {
                    &&& r.0 == fd
                    &&& r.1 matches Some(e) && e@ == c.entries@[c.pos as int]@
                    &&& final(self).cursor matches Some(c2) && c2.fd == c.fd && c2.entries@
                        == c.entries@ && c2.pos == c.pos + 1
                } else {
                    r.0 == 0 && r.1 is None && *final(self) == *old(self)
                },
            },
    {
        match &mut self.cursor {
            None => (-EBADF, None),
            Some(c) => {
                if c.fd != fd {
                    (-EBADF, None)
                } else if c.pos < c.entries.len() {
                    let s = &c.entries[c.pos];
                    let e = RawDirent {
                        name: s.name.clone(),
                        mode: s.mode,
                        size_sectors: s.size_sectors,
                    };
                    c.pos = c.pos + 1;
                    (fd, Some(e))
                } else {
                    (0, None)
                }
            },
        }
    }

    /// Closes an open handle; exactly zero reports success.
    pub fn dclose(&mut self, fd: i32) -> (r: i32)
        requires
            old(self).wf(),
        ensures
            final(self).wf(),
            final(self).table == old(self).table,
            final(self).pfs_bound == old(self).pfs_bound,
            final(self).hdl_bound == old(self).hdl_bound,
            match old(self).cursor {
                None => r == -EBADF && *final(self) == *old(self),
                Some(c) => if fd != c.fd {
                    r == -EBADF && *final(self) == *old(self)
                } else {
                    r == 0 && final(self).cursor is None
                },
            },
    {
        match &self.cursor {
            None => -EBADF,
            Some(c) => {
                if c.fd != fd {
                    -EBADF
                } else {
                    self.cursor = None;
                    0
                }
            },
        }
    }

    /// Destructively rewrites the whole APA table into the five fixed
    /// default partitions, releasing both file-system bindings.
    pub fn format_disk(&mut self) -> (r: i32)
        requires
            old(self).wf(),
        ensures
            final(self).wf(),
            r == 0,
            final(self).spec_table() == spec_default_partitions(),
            final(self).pfs_bound is None,
            final(self).hdl_bound is None,
            final(self).cursor == old(self).cursor,
    {
        let mut table: Vec<PartSlot> = Vec::new();
        table.push(
            PartSlot {
                name: "__mbr".to_owned(),
                kind_code: 0x0001,
                size_sectors: DEFAULT_PART_SECTORS,
                fs: None,
            },
        );
        table.push(
            PartSlot {
                name: "__net".to_owned(),
                kind_code: 0x0100,
                size_sectors: DEFAULT_PART_SECTORS,
                fs: Some(DirTree::empty()),
            },
        );
        table.push(
            PartSlot {
                name: "__system".to_owned(),
                kind_code: 0x0100,
                size_sectors: DEFAULT_PART_SECTORS,
                fs: Some(DirTree::empty()),
            },
        );
        table.push(
            PartSlot {
                name: "__sysconf".to_owned(),
                kind_code: 0x0100,
                size_sectors: DEFAULT_PART_SECTORS,
                fs: Some(DirTree::empty()),
            },
        );
        table.push(
            PartSlot {
                name: "__common".to_owned(),
                kind_code: 0x0100,
                size_sectors: DEFAULT_PART_SECTORS,
                fs: Some(DirTree::empty()),
            },
        );
        self.table = table;
        self.pfs_bound = None;
        self.hdl_bound = None;
        proof {
            reveal_strlit("__mbr");
            reveal_strlit("__net");
            reveal_strlit("__system");
            reveal_strlit("__sysconf");
            reveal_strlit("__common");
            assert(self.spec_table() =~= spec_default_partitions());
            assert("__mbr"@ != "__net"@) by {
                assert("__mbr"@[2] == 'm' && "__net"@[2] == 'n');
            }
            assert("__system"@ != "__common"@) by {
                assert("__system"@[2] == 's' && "__common"@[2] == 'c');
            }
            assert forall|i: int| 0 <= i < self.table@.len() implies (
            #[trigger] self.table@[i]).wf() by {
                assert(spec_valid_partition_name("__mbr"@));
                assert(spec_valid_partition_name("__net"@));
                assert(spec_valid_partition_name("__system"@));
                assert(spec_valid_partition_name("__sysconf"@));
                assert(spec_valid_partition_name("__common"@));
            }
        }
        0
    }

    /// Creates a new partition through the driver's open primitive: a
    /// creation path of the form `hdd0:{name},,,{size},{kind}` together with
    /// the read-write and create flags appends a table slot and yields a
    /// file handle on it. The name, kind and size parameters are the
    /// driver's parse of that path; the precondition pins the encoding, so
    /// only well-formed creation paths reach the model.
    pub fn open_partition(
        &mut self,
        path: &str,
        name: &String,
        kind: PartitionKind,
        size_mib: u64,
        flags: u32,
    ) -> (r: i32)
        requires
            old(self).wf(),
            path@ == spec_mkpart_path(name@, size_mib, kind.spec_tag()),
            spec_valid_partition_name(name@),
            flags == IOMANX_O_RDWR | IOMANX_O_CREAT,
        ensures
            final(self).wf(),
            final(self).pfs_bound == old(self).pfs_bound,
            final(self).hdl_bound == old(self).hdl_bound,
            old(self).cursor is Some ==> r == -EMFILE && *final(self) == *old(self),
            old(self).cursor is None && size_mib > 2097151 ==> r == -ENOSPC && *final(self)
                == *old(self),
            old(self).cursor is None && size_mib <= 2097151 && spec_find_part(
                old(self).spec_table(),
                name@,
            ) is Some ==> r == -EEXIST && *final(self) == *old(self),
            old(self).cursor is None && size_mib <= 2097151 && spec_find_part(
                old(self).spec_table(),
                name@,
            ) is None ==> {
                &&& r == 1
                &&& final(self).spec_table() == old(self).spec_table().push(
                    PartitionView {
                        name: name@,
                        kind_code: kind.spec_code(),
                        size_sectors: (size_mib * 2048) as u32,
                        formatted: false,
                        tree: Seq::empty(),
                    },
                )
                &&& final(self).cursor is Some
                &&& final(self).spec_cursor_entries() == Seq::<RawDirentView>::empty()
            },
    {
        if self.cursor.is_some() {
            return -EMFILE;
        }
        if size_mib > 2097151 {
            return -ENOSPC;
        }
        match self.find_part(name) {
            Some(_) => {
                proof {
                    lemma_find_part_props(self.spec_table(), name@);
                }
                return -EEXIST;
            },
            None => {},
        }
        proof {
            lemma_find_part_props(self.spec_table(), name@);
        }
        let sectors: u32 = (size_mib * 2048) as u32;
        let ghost old_table = self.spec_table();
        self.table.push(
            PartSlot { name: name.clone(), kind_code: kind.code(), size_sectors: sectors, fs: None },
        );
        self.cursor = Some(Cursor { fd: 1, entries: Vec::new(), pos: 0 });
        proof {
            assert(self.spec_table() =~= old_table.push(
                PartitionView {
                    name: name@,
                    kind_code: kind.spec_code(),
                    size_sectors: sectors,
                    formatted: false,
                    tree: Seq::empty(),
                },
            ));
            assert(self.spec_cursor_entries() =~= Seq::<RawDirentView>::empty());
            assert(PartitionKind::spec_of_code(kind.spec_code()) is Some);
            assert forall|i: int| 0 <= i < self.table@.len() implies (
            #[trigger] self.table@[i]).wf() by {
                if i < self.table@.len() - 1 {
                    assert(self.table@[i] == old(self).table@[i]);
                }
            }
            assert forall|i: int, j: int|
                0 <= i < j < self.table@.len() implies self.table@[i].name@
                != self.table@[j].name@ by {
                assert(self.table@[i] == old(self).table@[i]);
                if j < self.table@.len() - 1 {
                    assert(self.table@[j] == old(self).table@[j]);
                } else {
                    assert(old(self).spec_table()[i].name == old(self).table@[i].name@);
                    assert(old(self).spec_table()[i].name != name@);
                }
            }
        }
        1
    }

    /// The result code of mounting a partition at a file-system root.
    pub open spec fn spec_mount_code(&self, root: FsRoot, name: Seq<char>) -> i32 {
        if self.spec_bound(root) is Some {
            (-EBUSY) as i32
        } else {
            match spec_find_part(self.spec_table(), name) {
                None => (-ENOENT) as i32,
                Some(i) => if !self.spec_table()[i].formatted {
                    (-EIO) as i32
                } else if match self.spec_bound(spec_other_root(root)) {
                    Some(j) => j == i,
                    None => false,
                } {
                    (-EBUSY) as i32
                } else {
                    0
                },
            }
        }
    }

    /// Binds a file-system root to a named partition: the partition must
    /// exist, be formatted, and not already be claimed by either root.
    pub fn mount_fs(&mut self, root: FsRoot, mount_point: &str, part_path: &String, name: &String) -> (r:
        i32)
        requires
            old(self).wf(),
            mount_point@ == spec_root_prefix(root),
            part_path@ == "hdd0:"@ + name@,
        ensures
            final(self).wf(),
            r == old(self).spec_mount_code(root, name@),
            r != 0 ==> *final(self) == *old(self),
            r == 0 ==> {
                &&& final(self).spec_table() == old(self).spec_table()
                &&& final(self).cursor == old(self).cursor
                &&& final(self).spec_bound(spec_other_root(root)) == old(self).spec_bound(
                    spec_other_root(root),
                )
                &&& final(self).spec_bound(root) matches Some(i) && spec_find_part(
                    old(self).spec_table(),
                    name@,
                ) == Some(i as int)
            },
    {
        let bound = match root {
            FsRoot::Pfs => self.pfs_bound.is_some(),
            FsRoot::Hdl => self.hdl_bound.is_some(),
        };
        if bound {
            return -EBUSY;
        }
        let idx = match self.find_part(name) {
            Some(i) => i,
            None => {
                return -ENOENT;
            },
        };
        proof {
            lemma_find_part_props(self.spec_table(), name@);
        }
        if self.table[idx].fs.is_none() {
            return -EIO;
        }
        let other_bound = match root {
            FsRoot::Pfs => self.hdl_bound,
            FsRoot::Hdl => self.pfs_bound,
        };
        match other_bound {
            Some(j) => {
                if j == idx {
                    return -EBUSY;
                }
            },
            None => {},
        }
        match root {
            FsRoot::Pfs => {
                self.pfs_bound = Some(idx);
            },
            FsRoot::Hdl => {
                self.hdl_bound = Some(idx);
            },
        }
        0
    }

    /// Releases the binding of a file-system root.
    pub fn umount_fs(&mut self, root: FsRoot) -> (r: i32)
        requires
            old(self).wf(),
        ensures
            final(self).wf(),
            old(self).spec_bound(root) is None ==> r == -ENODEV && *final(self) == *old(self),
            old(self).spec_bound(root) is Some ==> {
                &&& r == 0
                &&& final(self).spec_table() == old(self).spec_table()
                &&& final(self).cursor == old(self).cursor
                &&& final(self).spec_bound(root) is None
                &&& final(self).spec_bound(spec_other_root(root)) == old(self).spec_bound(
                    spec_other_root(root),
                )
            },
    {
        let bound = match root {
            FsRoot::Pfs => self.pfs_bound.is_some(),
            FsRoot::Hdl => self.hdl_bound.is_some(),
        };
        if !bound {
            return -ENODEV;
        }
        match root {
            FsRoot::Pfs => {
                self.pfs_bound = None;
            },
            FsRoot::Hdl => {
                self.hdl_bound = None;
            },
        }
        0
    }

    /// The result code of formatting a file system onto a named partition.
    pub open spec fn spec_format_code(&self, name: Seq<char>) -> i32 {
        match spec_find_part(self.spec_table(), name) {
            None => (-ENOENT) as i32,
            Some(i) => if (match self.pfs_bound {
                Some(j) => j == i,
                None => false,
            }) || (match self.hdl_bound {
                Some(j) => j == i,
                None => false,
            }) {
                (-EBUSY) as i32
            } else {
                0
            },
        }
    }

    /// Formats a file system onto a named partition with the fixed PFS
    /// tuning parameters, wiping any directories it held; a partition that
    /// is currently mounted cannot be formatted.
    pub fn format_fs(
        &mut self,
        device_prefix: &str,
        root: FsRoot,
        part_path: &String,
        name: &String,
        zone_size: i32,
        magic: i32,
        fragment: i32,
    ) -> (r: i32)
        requires
            old(self).wf(),
            device_prefix@ == spec_root_prefix(root),
            part_path@ == "hdd0:"@ + name@,
            zone_size == 8192,
            magic == 0x2d66,
            fragment == 0,
        ensures
            final(self).wf(),
            r == old(self).spec_format_code(name@),
            r != 0 ==> *final(self) == *old(self),
            r == 0 ==> {
                &&& final(self).cursor == old(self).cursor
                &&& final(self).pfs_bound == old(self).pfs_bound
                &&& final(self).hdl_bound == old(self).hdl_bound
                &&& spec_find_part(old(self).spec_table(), name@) matches Some(i)
                    && final(self).spec_table() == old(self).spec_table().update(
                    i,
                    PartitionView {
                        name: old(self).spec_table()[i].name,
                        kind_code: old(self).spec_table()[i].kind_code,
                        size_sectors: old(self).spec_table()[i].size_sectors,
                        formatted: true,
                        tree: Seq::empty(),
                    },
                )
            },
    {
        let idx = match self.find_part(name) {
            Some(i) => i,
            None => {
                return -ENOENT;
            },
        };
        proof {
            lemma_find_part_props(self.spec_table(), name@);
        }
        match self.pfs_bound {
            Some(j) => {
                if j == idx {
                    return -EBUSY;
                }
            },
            None => {},
        }
        match self.hdl_bound {
            Some(j) => {
                if j == idx {
                    return -EBUSY;
                }
            },
            None => {},
        }
        let slot = &mut self.table[idx];
        slot.fs = Some(DirTree::empty());
        proof {
            assert(self.spec_table() =~= old(self).spec_table().update(
                idx as int,
                PartitionView {
                    name: old(self).spec_table()[idx as int].name,
                    kind_code: old(self).spec_table()[idx as int].kind_code,
                    size_sectors: old(self).spec_table()[idx as int].size_sectors,
                    formatted: true,
                    tree: Seq::empty(),
                },
            ));
            assert forall|i: int| 0 <= i < self.table@.len() implies (
            #[trigger] self.table@[i]).wf() by {
                if i != idx {
                    assert(self.table@[i] == old(self).table@[i]);
                }
            }
        }
        0
    }

    /// The result code of creating a directory below a file-system root.
    pub open spec fn spec_mkdir_code(&self, root: FsRoot, d: Seq<Seq<char>>) -> i32 {
        crate::fs::spec_mkdir_code(self.spec_bound(root) is Some, self.spec_tree(root), d)
    }

    /// Creates one directory below a file-system root: its parent must
    /// already exist, and it must not.
    pub fn mkdir(&mut self, root: FsRoot, comps: &Vec<String>, mode: u32) -> (r: i32)
        requires
            old(self).wf(),
            mode == 0o777,
        ensures
            final(self).wf(),
            r == old(self).spec_mkdir_code(root, comps.deep_view()),
            r != 0 ==> *final(self) == *old(self),
            r == 0 ==> {
                &&& final(self).pfs_bound == old(self).pfs_bound
                &&& final(self).hdl_bound == old(self).hdl_bound
                &&& final(self).cursor == old(self).cursor
                &&& final(self).spec_tree(root) == old(self).spec_tree(root).push(
                    comps.deep_view(),
                )
                &&& final(self).spec_tree(spec_other_root(root)) == old(self).spec_tree(
                    spec_other_root(root),
                )
                &&& spec_same_geometry(final(self).spec_table(), old(self).spec_table())
            },
    {
        let idx = match root {
            FsRoot::Pfs => self.pfs_bound,
            FsRoot::Hdl => self.hdl_bound,
        };
        let idx = match idx {
            Some(i) => i,
            None => {
                return -ENODEV;
            },
        };
        if comps.len() == 0 {
            return -EEXIST;
        }
        let mut k: usize = 0;
        while k < comps.len()
            invariant
                0 <= k <= comps.len(),
                *self == *old(self),
                old(self).wf(),
                old(self).spec_bound(root) == Some(idx),
                comps.deep_view().len() >= 1,
                forall|j: int| 0 <= j < k ==> spec_valid_component(#[trigger] comps.deep_view()[j]),
            decreases comps.len() - k,
        {
            if !valid_component(&comps[k]) {
                proof {
                    assert(!spec_valid_component(comps.deep_view()[k as int]));
                }
                return -EINVAL;
            }
            k += 1;
        }
        let mut parent = clone_comps(comps);
        parent.pop();
        proof {
            assert(parent.deep_view() =~= comps.deep_view().drop_last());
        }
        let tree = match &self.table[idx].fs {
            Some(t) => t,
            None => {
                proof {
                    assert(false);
                }
                return -EIO;
            },
        };
        if parent.len() > 0 && !tree.contains_dir(&parent) {
            return -ENOENT;
        }
        if tree.contains_dir(comps) {
            return -EEXIST;
        }
        let ghost ds = old(self).spec_tree(root);
        let ghost d = comps.deep_view();
        let addition = clone_comps(comps);
        let slot = &mut self.table[idx];
        match &mut slot.fs {
            Some(t) => {
                t.dirs.push(addition);
            },
            None => {
                proof {
                    assert(false);
                }
            },
        }
        proof {
            let nds = self.spec_tree(root);
            assert(self.table@ =~= old(self).table@.update(idx as int, self.table@[idx as int]));
            assert(nds =~= ds.push(d));
            assert forall|i: int| 0 <= i < nds.len() implies spec_dir_exists(
                nds,
                (#[trigger] nds[i]).drop_last(),
            ) by {
                let p = nds[i].drop_last();
                if i < ds.len() {
                    assert(nds[i] == ds[i]);
                    if p.len() != 0 {
                        let k = choose|k: int| 0 <= k < ds.len() && ds[k] == p;
                        assert(nds[k] == p);
                        assert(nds.contains(p));
                    }
                } else {
                    assert(nds[i] == d);
                    if p.len() != 0 {
                        assert(spec_dir_exists(ds, d.drop_last()));
                        let k = choose|k: int| 0 <= k < ds.len() && ds[k] == p;
                        assert(nds[k] == p);
                        assert(nds.contains(p));
                    }
                }
            }
            assert forall|i: int, j: int| 0 <= i < j < nds.len() implies nds[i] != nds[j] by {
                assert(nds[i] == ds[i]);
                if j < ds.len() {
                    assert(nds[j] == ds[j]);
                } else {
                    assert(nds[j] == d);
                    if ds[i] == d {
                        assert(ds.contains(d));
                    }
                }
            }
            assert forall|i: int| 0 <= i < self.table@.len() implies (
            #[trigger] self.table@[i]).wf() by {
                if i != idx {
                    assert(self.table@[i] == old(self).table@[i]);
                }
            }
            assert(spec_same_geometry(self.spec_table(), old(self).spec_table()));
            assert(self.spec_tree(spec_other_root(root)) =~= old(self).spec_tree(
                spec_other_root(root),
            ));
        }
        0
    }

    /// Whether a directory currently exists below a file-system root: the
    /// stat probe the recursive create falls back on.
    pub fn dir_is_present(&self, root: FsRoot, comps: &Vec<String>) -> (r: bool)
        requires
            self.wf(),
        ensures
            r == (self.spec_bound(root) is Some && spec_dir_exists(
                self.spec_tree(root),
                comps.deep_view(),
            )),
    {
        let idx = match root {
            FsRoot::Pfs => self.pfs_bound,
            FsRoot::Hdl => self.hdl_bound,
        };
        let idx = match idx {
            Some(i) => i,
            None => {
                return false;
            },
        };
        if comps.len() == 0 {
            return true;
        }
        let tree = match &self.table[idx].fs {
            Some(t) => t,
            None => {
                proof {
                    assert(false);
                }
                return false;
            },
        };
        tree.contains_dir(comps)
    }

    /// The result code of removing a directory below a file-system root.
    pub open spec fn spec_rmdir_code(&self, root: FsRoot, d: Seq<Seq<char>>) -> i32 {
        crate::fs::spec_rmdir_code(self.spec_bound(root) is Some, self.spec_tree(root), d)
    }

    /// Removes one empty directory below a file-system root.
    pub fn rmdir(&mut self, root: FsRoot, comps: &Vec<String>) -> (r: i32)
        requires
            old(self).wf(),
        ensures
            final(self).wf(),
            r == old(self).spec_rmdir_code(root, comps.deep_view()),
            r != 0 ==> *final(self) == *old(self),
            r == 0 ==> {
                &&& final(self).pfs_bound == old(self).pfs_bound
                &&& final(self).hdl_bound == old(self).hdl_bound
                &&& final(self).cursor == old(self).cursor
                &&& exists|i: int|
                    0 <= i < old(self).spec_tree(root).len() && old(self).spec_tree(root)[i]
                        == comps.deep_view() && final(self).spec_tree(root) == old(
                        self,
                    ).spec_tree(root).remove(i)
                &&& final(self).spec_tree(spec_other_root(root)) == old(self).spec_tree(
                    spec_other_root(root),
                )
                &&& spec_same_geometry(final(self).spec_table(), old(self).spec_table())
            },
    {
        let idx = match root {
            FsRoot::Pfs => self.pfs_bound,
            FsRoot::Hdl => self.hdl_bound,
        };
        let idx = match idx {
            Some(i) => i,
            None => {
                return -ENODEV;
            },
        };
        if comps.len() == 0 {
            return -EINVAL;
        }
        let mut k: usize = 0;
        while k < comps.len()
            invariant
                0 <= k <= comps.len(),
                *self == *old(self),
                old(self).wf(),
                old(self).spec_bound(root) == Some(idx),
                comps.deep_view().len() >= 1,
                forall|j: int| 0 <= j < k ==> spec_valid_component(#[trigger] comps.deep_view()[j]),
            decreases comps.len() - k,
        {
            if !valid_component(&comps[k]) {
                proof {
                    assert(!spec_valid_component(comps.deep_view()[k as int]));
                }
                return -EINVAL;
            }
            k += 1;
        }
        let tree = match &self.table[idx].fs {
            Some(t) => t,
            None => {
                proof {
                    assert(false);
                }
                return -EIO;
            },
        };
        let ghost ds = old(self).spec_tree(root);
        let ghost d = comps.deep_view();
        let at = match tree.index_of(comps) {
            Some(i) => i,
            None => {
                return -ENOENT;
            },
        };
        let kids = tree.children(comps);
        if kids.len() > 0 {
            proof {
                assert(ds.contains(d));
            }
            return -ENOTEMPTY;
        }
        proof {
            assert(ds.contains(d));
        }
        let slot = &mut self.table[idx];
        match &mut slot.fs {
            Some(t) => {
                t.dirs.remove(at);
            },
            None => {
                proof {
                    assert(false);
                }
            },
        }
        proof {
            let nds = self.spec_tree(root);
            let i = at as int;
            assert(self.table@ =~= old(self).table@.update(idx as int, self.table@[idx as int]));
            assert(nds =~= ds.remove(i));
            assert(nds =~= ds.subrange(0, i) + ds.subrange(i + 1, ds.len() as int));
            assert forall|m: int| 0 <= m < nds.len() implies nds[m] == (if m < i {
                ds[m]
            } else {
                ds[m + 1]
            }) by {}
            assert forall|m: int| 0 <= m < nds.len() implies spec_dir_exists(
                nds,
                (#[trigger] nds[m]).drop_last(),
            ) by {
                let e = if m < i {
                    ds[m]
                } else {
                    ds[m + 1]
                };
                let me = if m < i {
                    m
                } else {
                    m + 1
                };
                assert(nds[m] == ds[me]);
                let p = e.drop_last();
                if p.len() != 0 {
                    assert(spec_dir_exists(ds, p));
                    let k = choose|k: int| 0 <= k < ds.len() && ds[k] == p;
                    if k == i {
                        assert(spec_is_child_of(e, d));
                        lemma_children_of_index(ds, d, me);
                        assert(false);
                    } else if k < i {
                        assert(nds[k] == p);
                        assert(nds.contains(p));
                    } else {
                        assert(nds[k - 1] == p);
                        assert(nds.contains(p));
                    }
                }
            }
            assert forall|m: int, n: int| 0 <= m < n < nds.len() implies nds[m] != nds[n] by {
                if n < i {
                } else if m < i {
                    assert(nds[m] == ds[m] && nds[n] == ds[n + 1]);
                } else {
                    assert(nds[m] == ds[m + 1] && nds[n] == ds[n + 1]);
                }
            }
            assert forall|m: int| 0 <= m < self.table@.len() implies (
            #[trigger] self.table@[m]).wf() by {
                if m != idx {
                    assert(self.table@[m] == old(self).table@[m]);
                }
            }
            assert(spec_same_geometry(self.spec_table(), old(self).spec_table()));
            assert(self.spec_tree(spec_other_root(root)) =~= old(self).spec_tree(
                spec_other_root(root),
            ));
        }
        0
    }
}

/// The directory tree bound at a file-system root of a well-formed device
/// is itself well formed: nonempty paths of valid components, parent-closed,
/// without duplicates.
pub proof fn lemma_bound_tree_wf(dev: Device, root: FsRoot)
    requires
        dev.wf(),
        dev.spec_bound(root) is Some,
    ensures
        forall|i: int|
            0 <= i < dev.spec_tree(root).len() ==> (#[trigger] dev.spec_tree(root)[i]).len() >= 1,
        forall|i: int, j: int|
            0 <= i < dev.spec_tree(root).len() && 0 <= j < dev.spec_tree(root)[i].len()
                ==> spec_valid_component(#[trigger] dev.spec_tree(root)[i][j]),
        forall|i: int|
            0 <= i < dev.spec_tree(root).len() ==> spec_dir_exists(
                dev.spec_tree(root),
                (#[trigger] dev.spec_tree(root)[i]).drop_last(),
            ),
        forall|i: int, j: int|
            0 <= i < j < dev.spec_tree(root).len() ==> dev.spec_tree(root)[i] != dev.spec_tree(
                root,
            )[j],
{
    let idx = dev.spec_bound(root)->0;
    assert(dev.table@[idx as int].wf());
    assert(dev.spec_table()[idx as int] == dev.table@[idx as int]@);
    match dev.table@[idx as int].fs {
        Some(t) => {
            assert(t.wf());
            assert(dev.spec_tree(root) == t.spec_dirs());
        },
        None => {
            assert(false);
        },
    }
}

/// A recorded child of `d` makes the children listing of `d` nonempty.
pub proof fn lemma_children_of_index(ds: Seq<Seq<Seq<char>>>, d: Seq<Seq<char>>, k: int)
    requires
        0 <= k < ds.len(),
        spec_is_child_of(ds[k], d),
    ensures
        spec_children_of(ds, d).len() > 0,
    decreases ds.len(),
{
    if k < ds.len() - 1 {
        assert(ds.drop_last()[k] == ds[k]);
        lemma_children_of_index(ds.drop_last(), d, k);
    }
}

} // verus!
