//! File-system facing records: raw directory entries as the driver fills
//! them, their projections into partition-table entries and directory
//! entries, and the path component model shared by the directory operations.

use vstd::prelude::*;

use crate::error::HddError;
use crate::partition_kind::PartitionKind;

verus! {

/// The file-type mask of a stat mode field.
pub const FIO_S_IFMT: u32 = 0xF000;

/// The file-type bits of a symbolic link.
pub const FIO_S_IFLNK: u32 = 0x4000;

/// The file-type bits of a regular file.
pub const FIO_S_IFREG: u32 = 0x2000;

/// The file-type bits of a directory.
pub const FIO_S_IFDIR: u32 = 0x1000;

/// The stat mode the modeled driver gives every directory it creates: the
/// directory file-type bits together with full permissions.
pub const DIR_MODE: u32 = 0x11FF;

/// The file-type bits of a stat mode field, maskable against the
/// directory, regular-file and symbolic-link masks.
#[derive(Copy, Clone, PartialEq, Eq, Hash, Debug)]
pub struct FileType {
    pub mode: u32,
}

impl FileType {
    /// Whether the mode's file-type bits name a directory.
    pub fn is_dir(&self) -> (r: bool)
        ensures
            r == (self.mode & FIO_S_IFMT == FIO_S_IFDIR),
    {
        self.is(FIO_S_IFDIR)
    }

    /// Whether the mode's file-type bits name a regular file.
    pub fn is_file(&self) -> (r: bool)
        ensures
            r == (self.mode & FIO_S_IFMT == FIO_S_IFREG),
    {
        self.is(FIO_S_IFREG)
    }

    /// Whether the mode's file-type bits name a symbolic link.
    pub fn is_symlink(&self) -> (r: bool)
        ensures
            r == (self.mode & FIO_S_IFMT == FIO_S_IFLNK),
    {
        self.is(FIO_S_IFLNK)
    }

    /// Whether the mode's file-type bits equal the given bits.
    pub fn is(&self, mode: u32) -> (r: bool)
        ensures
            r == (self.mode & FIO_S_IFMT == mode),
    {
        self.mode & FIO_S_IFMT == mode
    }
}

/// One raw record as the driver's directory-read primitive fills it: the
/// entry's name, its stat mode field, and its stat size in sectors.
///
/// For a partition-table entry the mode field carries the partition's
/// on-disk type code; for a file-system entry it carries file-type bits.
#[derive(PartialEq, Debug)]
pub struct RawDirent {
    pub name: String,
    pub mode: u32,
    pub size_sectors: u32,
}

impl View for RawDirent {
    type V = RawDirentView;

    open spec fn view(&self) -> RawDirentView {
        RawDirentView { name: self.name@, mode: self.mode, size_sectors: self.size_sectors }
    }
}

/// The mathematical value of a raw directory entry.
pub struct RawDirentView {
    pub name: Seq<char>,
    pub mode: u32,
    pub size_sectors: u32,
}

/// The mathematical value of one partition-table slot of the modeled device:
/// its name, its on-disk type code, its size in sectors, whether a file
/// system has been formatted onto it, and the directories of that file
/// system, each as a component path in creation order.
pub struct PartitionView {
    pub name: Seq<char>,
    pub kind_code: u32,
    pub size_sectors: u32,
    pub formatted: bool,
    pub tree: Seq<Seq<Seq<char>>>,
}

/// Represents a directory entry present on a mounted file system.
#[derive(Debug, PartialEq)]
pub struct DirEntry {
    entry: RawDirent,
    root: String,
}

/// The mathematical value of a directory entry: its name, its stat mode
/// field, and the relative path of the directory it was listed in.
pub struct DirEntryView {
    pub name: Seq<char>,
    pub mode: u32,
    pub root: Seq<char>,
}

impl View for DirEntry {
    type V = DirEntryView;

    closed spec fn view(&self) -> DirEntryView {
        DirEntryView { name: self.entry.name@, mode: self.entry.mode, root: self.root@ }
    }
}

impl DirEntry {
    /// Wraps a raw entry together with the relative path of the directory it
    /// was listed in, kept for later path reconstruction.
    pub fn new(entry: RawDirent, root: String) -> (r: DirEntry)
        ensures
            r@.name == entry@.name,
            r@.mode == entry@.mode,
            r@.root == root@,
    {
        DirEntry { entry, root }
    }

    /// The full relative path of this entry: the listed directory's path, a
    /// separator, and the entry's name.
    pub fn path(&self) -> (r: String)
        ensures
            r@ == self@.root + "/"@ + self@.name,
    {
        proof {
            reveal_strlit("/");
        }
        self.root.clone().concat("/").concat(self.entry.name.as_str())
    }

    /// The entry's own name.
    pub fn file_name(&self) -> (r: String)
        ensures
            r@ == self@.name,
    {
        self.entry.name.clone()
    }

    /// The entry's file-type bits.
    pub fn file_type(&self) -> (r: Result<FileType, HddError>)
        ensures
            r matches Ok(t) && t.mode == self@.mode,
    {
        Ok(FileType { mode: self.entry.mode })
    }
}

/// Represents a partition present on the disk.
#[derive(Debug, PartialEq)]
pub struct PartEntry {
    /// The partition's name
    pub name: String,
    /// The partition's kind; absent for slots with a zero kind code
    pub kind: Option<PartitionKind>,
    /// The size of the partition, in bytes
    pub size: u64,
}

/// The mathematical value of a partition-table entry.
pub struct PartEntryView {
    pub name: Seq<char>,
    pub kind: Option<PartitionKind>,
    pub size: u64,
}

impl View for PartEntry {
    type V = PartEntryView;

    open spec fn view(&self) -> PartEntryView {
        PartEntryView { name: self.name@, kind: self.kind, size: self.size }
    }
}

/// The projection of a raw partition-table record into a partition entry: a
/// zero mode field means an absent kind, any other mode field must be a
/// recognised type code, and the size in sectors is normalized to bytes with
/// the fixed sector size of 512.
pub open spec fn spec_part_entry(d: RawDirentView) -> Option<PartEntryView> {
    if d.mode == 0 {
        Some(PartEntryView { name: d.name, kind: None, size: ((d.size_sectors as u64) * 512) as u64 })
    } else {
        match PartitionKind::spec_of_code(d.mode) {
            Some(k) => Some(
                PartEntryView { name: d.name, kind: Some(k), size: ((d.size_sectors as u64) * 512) as u64 },
            ),
            None => None,
        }
    }
}

impl PartEntry {
    /// Projects a raw partition-table record; an unrecognised nonzero type
    /// code is rejected.
    pub fn try_from(dirent: &RawDirent) -> (r: Result<PartEntry, HddError>)
        ensures
            match r {
                Ok(p) => spec_part_entry(dirent@) == Some(p@),
                Err(e) => spec_part_entry(dirent@) is None && e == (HddError::InvalidPartitionKind {
                    code: dirent.mode,
                }),
            },
    {
        let kind = if dirent.mode == 0 {
            None
        } else {
            match PartitionKind::try_from(dirent.mode) {
                Ok(k) => Some(k),
                Err(e) => {
                    return Err(e);
                },
            }
        };
        Ok(
            PartEntry {
                name: dirent.name.clone(),
                kind,
                size: (dirent.size_sectors as u64) * 512,
            },
        )
    }
}

/// A valid path component: nonempty text of printable characters that is not
/// one of the driver's self and parent pseudo-entries.
pub open spec fn spec_valid_component(s: Seq<char>) -> bool {
    &&& s.len() >= 1
    &&& s != "."@
    &&& s != ".."@
    &&& forall|i: int| 0 <= i < s.len() ==> 32 <= #[trigger] (s[i] as int) <= 126
}

/// Whether every component of a path is valid.
pub open spec fn spec_all_valid_components(cs: Seq<Seq<char>>) -> bool {
    forall|i: int| 0 <= i < cs.len() ==> spec_valid_component(#[trigger] cs[i])
}

/// A valid partition name: one to 32 printable characters, none of them the
/// comma that delimits the fields of a creation path.
pub open spec fn spec_valid_partition_name(s: Seq<char>) -> bool {
    &&& 1 <= s.len() <= 32
    &&& forall|i: int|
        0 <= i < s.len() ==> (33 <= #[trigger] (s[i] as int) <= 126 && s[i] != ',')
}

/// Checks a path component.
pub fn valid_component(s: &String) -> (r: bool)
    ensures
        r == spec_valid_component(s@),
{
    let n = s.as_str().unicode_len();
    if n < 1 {
        proof {
            assert(!spec_valid_component(s@));
        }
        return false;
    }
    let mut i: usize = 0;
    while i < n
        invariant
            n == s@.len(),
            0 <= i <= n,
            forall|j: int| 0 <= j < i ==> 32 <= #[trigger] (s@[j] as int) <= 126,
        decreases n - i,
    {
        let c = s.as_str().get_char(i);
        let v = c as u32;
        if v < 32 || v > 126 {
            return false;
        }
        i += 1;
    }
    proof {
        reveal_strlit(".");
        reveal_strlit("..");
    }
    if n == 1 && s.as_str().get_char(0) == '.' {
        proof {
            assert(s@ =~= "."@);
        }
        return false;
    }
    if n == 2 && s.as_str().get_char(0) == '.' && s.as_str().get_char(1) == '.' {
        proof {
            assert(s@ =~= ".."@);
        }
        return false;
    }
    proof {
        assert(s@ != "."@ && s@ != ".."@) by {
            if s@ == "."@ {
                assert(s@.len() == 1 && s@[0] == '.');
            }
            if s@ == ".."@ {
                assert(s@.len() == 2 && s@[0] == '.' && s@[1] == '.');
            }
        }
    }
    true
}

/// Checks a partition name.
pub fn valid_partition_name(s: &str) -> (r: bool)
    ensures
        r == spec_valid_partition_name(s@),
{
    let n = s.unicode_len();
    if n < 1 || n > 32 {
        return false;
    }
    let mut i: usize = 0;
    while i < n
        invariant
            n == s@.len(),
            0 <= i <= n,
            forall|j: int|
                0 <= j < i ==> (33 <= #[trigger] (s@[j] as int) <= 126 && s@[j] != ','),
        decreases n - i,
    {
        let c = s.get_char(i);
        let v = c as u32;
        if v < 33 || v > 126 || c == ',' {
            return false;
        }
        i += 1;
    }
    true
}

/// The components of a path: the maximal runs of characters between `/`
/// separators, empty runs skipped, accumulated left to right.
pub open spec fn spec_split_from(s: Seq<char>, cur: Seq<char>) -> Seq<Seq<char>>
    decreases s.len(),
{
    if s.len() == 0 {
        if cur.len() == 0 {
            Seq::empty()
        } else {
            seq![cur]
        }
    } else if s[0] == '/' {
        if cur.len() == 0 {
            spec_split_from(s.skip(1), Seq::empty())
        } else {
            seq![cur] + spec_split_from(s.skip(1), Seq::empty())
        }
    } else {
        spec_split_from(s.skip(1), cur.push(s[0]))
    }
}

/// The components of a path string.
pub open spec fn spec_components(s: Seq<char>) -> Seq<Seq<char>> {
    spec_split_from(s, Seq::empty())
}

/// Splits a path into its components; a path not representable in the
/// primitive's expected text encoding is rejected.
pub fn split_components(path: &str) -> (r: Result<Vec<String>, HddError>)
    ensures
        match r {
            Ok(comps) => path.is_ascii() && comps.deep_view() == spec_components(path@),
            Err(e) => !path.is_ascii() && e == HddError::NameEncodingInvalid,
        },
{
    if !path.is_ascii() {
        return Err(HddError::NameEncodingInvalid);
    }
    let n = path.unicode_len();
    let mut result: Vec<String> = Vec::new();
    let mut start: usize = 0;
    let mut i: usize = 0;
    proof {
        assert(path@.skip(0) =~= path@);
        assert(path@.subrange(0, 0) =~= Seq::<char>::empty());
    }
    while i < n
        invariant
            path.is_ascii(),
            n == path@.len(),
            0 <= start <= i <= n,
            spec_components(path@) == result.deep_view() + spec_split_from(
                path@.skip(i as int),
                path@.subrange(start as int, i as int),
            ),
        decreases n - i,
    {
        let ghost prev_result = result.deep_view();
        let ghost cur = path@.subrange(start as int, i as int);
        proof {
            assert(path@.skip(i as int)[0] == path@[i as int]);
            assert(path@.skip(i as int).skip(1) =~= path@.skip(i as int + 1));
        }
        let c = path.get_char(i);
        if c == '/' {
            if i > start {
                let comp = path.substring_ascii(start, i).to_owned();
                result.push(comp);
                proof {
                    assert(result.deep_view() =~= prev_result.push(cur));
                    assert(prev_result.push(cur) =~= prev_result + seq![cur]);
                    assert(result.deep_view() + spec_split_from(
                        path@.skip(i as int + 1),
                        Seq::<char>::empty(),
                    ) =~= prev_result + (seq![cur] + spec_split_from(
                        path@.skip(i as int + 1),
                        Seq::<char>::empty(),
                    )));
                }
            }
            start = i + 1;
            proof {
                assert(path@.subrange(start as int, start as int) =~= Seq::<char>::empty());
            }
        } else {
            proof {
                assert(path@.subrange(start as int, i as int + 1) =~= cur.push(path@[i as int]));
            }
        }
        i += 1;
    }
    proof {
        assert(path@.skip(n as int) =~= Seq::<char>::empty());
    }
    if n > start {
        let ghost prev_result = result.deep_view();
        let ghost cur = path@.subrange(start as int, n as int);
        let comp = path.substring_ascii(start, n).to_owned();
        result.push(comp);
        proof {
            assert(result.deep_view() =~= prev_result.push(cur));
            assert(prev_result.push(cur) =~= prev_result + seq![cur]);
        }
    }
    Ok(result)
}

/// Whether a directory, given as its component path, exists in a tree: the
/// root (the empty path) always exists; any other directory exists when the
/// tree records it.
pub open spec fn spec_dir_exists(dirs: Seq<Seq<Seq<char>>>, d: Seq<Seq<char>>) -> bool {
    d.len() == 0 || dirs.contains(d)
}

/// Whether `e` is the component path of a direct child of `d`.
pub open spec fn spec_is_child_of(e: Seq<Seq<char>>, d: Seq<Seq<char>>) -> bool {
    e.len() == d.len() + 1 && e.take(d.len() as int) == d
}

/// The names of the direct children of `d` recorded in `dirs`, in recording
/// order.
pub open spec fn spec_children_of(dirs: Seq<Seq<Seq<char>>>, d: Seq<Seq<char>>) -> Seq<Seq<char>>
    decreases dirs.len(),
{
    if dirs.len() == 0 {
        Seq::empty()
    } else {
        let rest = spec_children_of(dirs.drop_last(), d);
        if spec_is_child_of(dirs.last(), d) {
            rest.push(dirs.last().last())
        } else {
            rest
        }
    }
}

/// Whether some slot of a partition table carries this name.
pub open spec fn spec_table_has_name(t: Seq<PartitionView>, name: Seq<char>) -> bool {
    exists|i: int| 0 <= i < t.len() && (#[trigger] t[i]).name == name
}

/// Whether some slot of a partition table carries this name and holds a
/// formatted file system.
pub open spec fn spec_name_formatted(t: Seq<PartitionView>, name: Seq<char>) -> bool {
    exists|i: int| 0 <= i < t.len() && (#[trigger] t[i]).name == name && t[i].formatted
}

/// The projection of one partition-table slot into the entry a listing
/// reports for it.
pub open spec fn spec_part_entry_of(p: PartitionView) -> Option<PartEntryView> {
    spec_part_entry(RawDirentView { name: p.name, mode: p.kind_code, size_sectors: p.size_sectors })
}

/// Whether a text is free of the NUL character, and so representable in the
/// primitive's expected terminated encoding.
pub open spec fn spec_no_nul(s: Seq<char>) -> bool {
    forall|i: int| 0 <= i < s.len() ==> (#[trigger] s[i]) != '\u{0}'
}

/// Checks a text for the NUL character.
pub fn no_nul(s: &str) -> (r: bool)
    ensures
        r == spec_no_nul(s@),
{
    let n = s.unicode_len();
    let mut i: usize = 0;
    while i < n
        invariant
            n == s@.len(),
            0 <= i <= n,
            forall|j: int| 0 <= j < i ==> (#[trigger] s@[j]) != '\u{0}',
        decreases n - i,
    {
        if s.get_char(i) == '\u{0}' {
            return false;
        }
        i += 1;
    }
    true
}

/// Whether two partition tables agree on everything but the directory trees
/// inside their file systems: same length, names, type codes, sizes, and
/// formatted state, slot for slot.
pub open spec fn spec_same_geometry(a: Seq<PartitionView>, b: Seq<PartitionView>) -> bool {
    &&& a.len() == b.len()
    &&& forall|i: int|
        0 <= i < a.len() ==> ((#[trigger] a[i]).name == b[i].name && a[i].kind_code == b[i].kind_code
            && a[i].size_sectors == b[i].size_sectors && a[i].formatted == b[i].formatted)
}

/// The five fixed default partitions a destructive table rewrite produces:
/// `__mbr`, `__net`, `__system`, `__sysconf`, `__common`, each 128 MiB, with
/// kinds MBR, PFS, PFS, PFS, PFS; the PFS ones come freshly formatted.
pub open spec fn spec_default_partitions() -> Seq<PartitionView> {
    seq![
        PartitionView {
            name: "__mbr"@,
            kind_code: 0x0001,
            size_sectors: 262144,
            formatted: false,
            tree: Seq::empty(),
        },
        PartitionView {
            name: "__net"@,
            kind_code: 0x0100,
            size_sectors: 262144,
            formatted: true,
            tree: Seq::empty(),
        },
        PartitionView {
            name: "__system"@,
            kind_code: 0x0100,
            size_sectors: 262144,
            formatted: true,
            tree: Seq::empty(),
        },
        PartitionView {
            name: "__sysconf"@,
            kind_code: 0x0100,
            size_sectors: 262144,
            formatted: true,
            tree: Seq::empty(),
        },
        PartitionView {
            name: "__common"@,
            kind_code: 0x0100,
            size_sectors: 262144,
            formatted: true,
            tree: Seq::empty(),
        },
    ]
}

/// The prefixes of `d` (including `d` itself) absent from `dirs`, shortest
/// first: exactly what a recursive directory create must add, in the order
/// it adds them.
pub open spec fn spec_missing_prefixes(dirs: Seq<Seq<Seq<char>>>, d: Seq<Seq<char>>) -> Seq<
    Seq<Seq<char>>,
>
    decreases d.len(),
{
    if d.len() == 0 {
        Seq::empty()
    } else {
        spec_missing_prefixes(dirs, d.drop_last()) + (if dirs.contains(d) {
            Seq::empty()
        } else {
            seq![d]
        })
    }
}

/// The result code the driver's directory-create primitive yields below a
/// file-system root: the root must be bound, the path nonempty and valid,
/// the parent present, and the directory itself absent.
pub open spec fn spec_mkdir_code(bound: bool, dirs: Seq<Seq<Seq<char>>>, d: Seq<Seq<char>>) -> i32 {
    if !bound {
        (-crate::error::ENODEV) as i32
    } else if d.len() == 0 {
        (-crate::error::EEXIST) as i32
    } else if !spec_all_valid_components(d) {
        (-crate::error::EINVAL) as i32
    } else if !spec_dir_exists(dirs, d.drop_last()) {
        (-crate::error::ENOENT) as i32
    } else if dirs.contains(d) {
        (-crate::error::EEXIST) as i32
    } else {
        0
    }
}

/// The result code the driver's directory-remove primitive yields below a
/// file-system root: the root must be bound, the path nonempty and valid,
/// the directory present and empty.
pub open spec fn spec_rmdir_code(bound: bool, dirs: Seq<Seq<Seq<char>>>, d: Seq<Seq<char>>) -> i32 {
    if !bound {
        (-crate::error::ENODEV) as i32
    } else if d.len() == 0 || !spec_all_valid_components(d) {
        (-crate::error::EINVAL) as i32
    } else if !dirs.contains(d) {
        (-crate::error::ENOENT) as i32
    } else if spec_children_of(dirs, d).len() > 0 {
        (-crate::error::ENOTEMPTY) as i32
    } else {
        0
    }
}

/// Whether a name is one of the driver's self and parent pseudo-entries.
pub fn is_dot_name(s: &String) -> (r: bool)
    ensures
        r == (s@ == "."@ || s@ == ".."@),
{
    proof {
        reveal_strlit(".");
        reveal_strlit("..");
    }
    let n = s.as_str().unicode_len();
    if n == 1 && s.as_str().get_char(0) == '.' {
        proof {
            assert(s@ =~= "."@);
        }
        return true;
    }
    if n == 2 && s.as_str().get_char(0) == '.' && s.as_str().get_char(1) == '.' {
        proof {
            assert(s@ =~= ".."@);
        }
        return true;
    }
    proof {
        assert(s@ != "."@ && s@ != ".."@) by {
            if s@ == "."@ {
                assert(s@.len() == 1 && s@[0] == '.');
            }
            if s@ == ".."@ {
                assert(s@.len() == 2 && s@[0] == '.' && s@[1] == '.');
            }
        }
    }
    false
}

/// In a parent-closed tree, a directory that exists is missing none of its
/// prefixes.
pub proof fn lemma_missing_prefixes_empty(dirs: Seq<Seq<Seq<char>>>, d: Seq<Seq<char>>)
    requires
        forall|i: int|
            0 <= i < dirs.len() ==> spec_dir_exists(dirs, (#[trigger] dirs[i]).drop_last()),
        spec_dir_exists(dirs, d),
    ensures
        spec_missing_prefixes(dirs, d) == Seq::<Seq<Seq<char>>>::empty(),
    decreases d.len(),
{
    if d.len() == 0 {
        assert(spec_missing_prefixes(dirs, d) =~= Seq::<Seq<Seq<char>>>::empty());
    } else {
        let k = choose|k: int| 0 <= k < dirs.len() && dirs[k] == d;
        assert(spec_dir_exists(dirs, dirs[k].drop_last()));
        lemma_missing_prefixes_empty(dirs, d.drop_last());
        assert(spec_missing_prefixes(dirs, d) =~= Seq::<Seq<Seq<char>>>::empty());
    }
}

/// Every missing prefix of `d` is at most as long as `d` and absent from the
/// tree.
pub proof fn lemma_missing_prefixes_elems(dirs: Seq<Seq<Seq<char>>>, d: Seq<Seq<char>>)
    ensures
        forall|k: int|
            0 <= k < spec_missing_prefixes(dirs, d).len() ==> (#[trigger] spec_missing_prefixes(
                dirs,
                d,
            )[k]).len() <= d.len() && !dirs.contains(spec_missing_prefixes(dirs, d)[k]),
    decreases d.len(),
{
    if d.len() > 0 {
        lemma_missing_prefixes_elems(dirs, d.drop_last());
        let m = spec_missing_prefixes(dirs, d);
        let mp = spec_missing_prefixes(dirs, d.drop_last());
        assert forall|k: int|
            0 <= k < m.len() implies (#[trigger] m[k]).len() <= d.len() && !dirs.contains(
            m[k],
        ) by {
            if k < mp.len() {
                assert(m[k] == mp[k]);
                assert(mp[k].len() <= d.drop_last().len());
            } else {
                assert(m[k] == d);
            }
        }
    }
}

/// After appending the missing prefixes of `d`, the directory `d` exists.
pub proof fn lemma_dir_exists_after(dirs: Seq<Seq<Seq<char>>>, d: Seq<Seq<char>>)
    ensures
        spec_dir_exists(dirs + spec_missing_prefixes(dirs, d), d),
    decreases d.len(),
{
    let nds = dirs + spec_missing_prefixes(dirs, d);
    if d.len() != 0 {
        if dirs.contains(d) {
            let k = choose|k: int| 0 <= k < dirs.len() && dirs[k] == d;
            assert(nds[k] == d);
            assert(nds.contains(d));
        } else {
            assert(nds[nds.len() - 1] == d);
            assert(nds.contains(d));
        }
    }
}

/// A directory whose recorded entries are all at most as long as `q` has no
/// children of `q`.
pub proof fn lemma_children_of_short(dirs: Seq<Seq<Seq<char>>>, q: Seq<Seq<char>>)
    requires
        forall|i: int| 0 <= i < dirs.len() ==> (#[trigger] dirs[i]).len() <= q.len(),
    ensures
        spec_children_of(dirs, q) == Seq::<Seq<char>>::empty(),
    decreases dirs.len(),
{
    if dirs.len() == 0 {
        assert(spec_children_of(dirs, q) =~= Seq::<Seq<char>>::empty());
    } else {
        assert forall|i: int| 0 <= i < dirs.drop_last().len() implies (
        #[trigger] dirs.drop_last()[i]).len() <= q.len() by {
            assert(dirs.drop_last()[i] == dirs[i]);
        }
        lemma_children_of_short(dirs.drop_last(), q);
        assert(dirs.last().len() <= q.len());
        assert(!spec_is_child_of(dirs.last(), q));
    }
}

/// Starting from an empty tree, a recursive create adds exactly the chain
/// of prefixes of the requested path, shortest first.
pub proof fn lemma_prefix_tree_shape(d: Seq<Seq<char>>)
    ensures
        spec_missing_prefixes(Seq::<Seq<Seq<char>>>::empty(), d).len() == d.len(),
        forall|k: int|
            0 <= k < d.len() ==> spec_missing_prefixes(Seq::<Seq<Seq<char>>>::empty(), d)[k]
                == d.take(k + 1),
    decreases d.len(),
{
    let none = Seq::<Seq<Seq<char>>>::empty();
    if d.len() > 0 {
        lemma_prefix_tree_shape(d.drop_last());
        assert(!none.contains(d));
        let m = spec_missing_prefixes(none, d);
        let mp = spec_missing_prefixes(none, d.drop_last());
        assert forall|k: int| 0 <= k < d.len() implies #[trigger] m[k] == d.take(k + 1) by {
            if k < d.len() - 1 {
                assert(m[k] == mp[k]);
                assert(d.drop_last().take(k + 1) =~= d.take(k + 1));
            } else {
                assert(m[k] == d);
                assert(d.take(d.len() as int) =~= d);
            }
        }
    }
}

/// The chain law of the recursive directory create: on an empty file
/// system, creating the whole nested path `d` leaves a tree in which each
/// proper prefix of `d` has exactly one child, the next component of `d`.
/// A listing of the root then shows only the first component, a listing of
/// the first component only the second, and so on down the chain.
pub proof fn law_create_dir_all_chain(d: Seq<Seq<char>>, k: int)
    requires
        0 <= k < d.len(),
    ensures
        spec_children_of(
            Seq::<Seq<Seq<char>>>::empty() + spec_missing_prefixes(
                Seq::<Seq<Seq<char>>>::empty(),
                d,
            ),
            d.take(k),
        ) == seq![d[k]],
    decreases d.len(),
{
    let none = Seq::<Seq<Seq<char>>>::empty();
    let tree = none + spec_missing_prefixes(none, d);
    lemma_prefix_tree_shape(d);
    assert(tree =~= spec_missing_prefixes(none, d));
    if k == d.len() - 1 {
        // the last element of the chain is `d` itself, the one child of its
        // parent; everything before it is too short to be a child
        assert(tree.last() == d.take(d.len() as int));
        assert(d.take(d.len() as int) =~= d);
        assert(spec_is_child_of(d, d.take(k))) by {
            assert(d.take(k).len() == k);
            assert(d.take(k + 1).take(k) =~= d.take(k));
        }
        assert forall|i: int| 0 <= i < tree.drop_last().len() implies (
        #[trigger] tree.drop_last()[i]).len() <= d.take(k).len() by {
            assert(tree.drop_last()[i] == tree[i]);
            assert(tree[i] == d.take(i + 1));
        }
        lemma_children_of_short(tree.drop_last(), d.take(k));
        assert(d.last() == d[k]);
        assert(spec_children_of(tree, d.take(k)) =~= seq![d[k]]);
    } else {
        // the chain for the shorter path ends the same way
        law_create_dir_all_chain(d.drop_last(), k);
        let shorter = none + spec_missing_prefixes(none, d.drop_last());
        lemma_prefix_tree_shape(d.drop_last());
        assert(shorter =~= spec_missing_prefixes(none, d.drop_last()));
        assert(tree =~= shorter.push(d)) by {
            assert(!none.contains(d));
            assert forall|i: int| 0 <= i < tree.len() implies #[trigger] tree[i]
                == shorter.push(d)[i] by {
                if i < d.len() - 1 {
                    assert(tree[i] == d.take(i + 1));
                    assert(shorter[i] == d.drop_last().take(i + 1));
                    assert(d.drop_last().take(i + 1) =~= d.take(i + 1));
                } else {
                    assert(tree[i] == d.take(d.len() as int));
                    assert(d.take(d.len() as int) =~= d);
                }
            }
        }
        assert(!spec_is_child_of(d, d.take(k)));
        assert(spec_children_of(tree, d.take(k)) == spec_children_of(shorter, d.take(k))) by {
            assert(tree.drop_last() =~= shorter);
        }
        assert(d.drop_last().take(k) =~= d.take(k));
        assert(d.drop_last()[k] == d[k]);
    }
}

/// In a tree of valid components, every child name is a valid component.
pub proof fn lemma_children_of_valid(dirs: Seq<Seq<Seq<char>>>, d: Seq<Seq<char>>)
    requires
        forall|i: int, j: int|
            0 <= i < dirs.len() && 0 <= j < dirs[i].len() ==> spec_valid_component(
                #[trigger] dirs[i][j],
            ),
        forall|i: int| 0 <= i < dirs.len() ==> (#[trigger] dirs[i]).len() >= 1,
    ensures
        forall|k: int|
            0 <= k < spec_children_of(dirs, d).len() ==> spec_valid_component(
                #[trigger] spec_children_of(dirs, d)[k],
            ),
    decreases dirs.len(),
{
    if dirs.len() > 0 {
        assert forall|i: int, j: int|
            0 <= i < dirs.drop_last().len() && 0 <= j < dirs.drop_last()[i].len()
            implies spec_valid_component(#[trigger] dirs.drop_last()[i][j]) by {
            assert(dirs.drop_last()[i] == dirs[i]);
        }
        assert forall|i: int| 0 <= i < dirs.drop_last().len() implies (
        #[trigger] dirs.drop_last()[i]).len() >= 1 by {
            assert(dirs.drop_last()[i] == dirs[i]);
        }
        lemma_children_of_valid(dirs.drop_last(), d);
        let c = spec_children_of(dirs, d);
        let cp = spec_children_of(dirs.drop_last(), d);
        assert forall|k: int| 0 <= k < c.len() implies spec_valid_component(#[trigger] c[k]) by {
            if k < cp.len() {
                assert(c[k] == cp[k]);
            } else {
                let e = dirs.last();
                assert(e == dirs[dirs.len() - 1]);
                assert(spec_valid_component(e[e.len() - 1]));
                assert(e.last() == e[e.len() - 1]);
                assert(c[k] == e.last());
            }
        }
    }
}

} // verus!
