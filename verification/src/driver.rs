//! File-system mount handles and the directory operations rooted at them.
//!
//! A mount handle is created only by the session's mount operation and names
//! the partition it is bound to, together with the fixed device root of its
//! file-system type (`pfs0:` for PFS, `hdl0:` for HDLFS). Directory
//! operations address whatever is currently bound at that root, and take the
//! session exclusively, since the underlying driver is not reentrant.

use vstd::prelude::*;

use crate::device::{spec_other_root, Device, FsRoot};
use crate::error::{HddError, EEXIST, EINVAL, ENODEV, ENOENT};
use crate::ffi_utils::{ok_on_nonnegative_or_strerror, ok_on_zero_or_strerror};
use crate::fs::{
    is_dot_name, lemma_children_of_valid, lemma_dir_exists_after, lemma_missing_prefixes_elems,
    lemma_missing_prefixes_empty, spec_all_valid_components, spec_children_of, spec_components,
    spec_dir_exists, spec_mkdir_code, spec_missing_prefixes, spec_rmdir_code, spec_same_geometry,
    spec_valid_component, split_components, DirEntry, RawDirent,
};
use crate::PS2HDD;

verus! {

/// A handle on the PFS file system mounted at the `pfs0:` device root.
#[derive(Debug)]
pub struct PFS {
    pub partition_name: String,
}

/// A handle on the HDLFS file system mounted at the `hdl0:` device root.
#[derive(Debug)]
pub struct HDLFS {
    pub partition_name: String,
}

impl PFS {
    /// Retrieves the root of this file system's device namespace.
    pub fn get_device_root(&self) -> (r: &str)
        ensures
            r@ == "pfs0:"@,
    {
        "pfs0:"
    }
}

impl HDLFS {
    /// Retrieves the root of this file system's device namespace.
    pub fn get_device_root(&self) -> (r: &str)
        ensures
            r@ == "hdl0:"@,
    {
        "hdl0:"
    }
}

/// Drains an open directory handle one entry at a time, as the iteration
/// protocol demands: a negative read is an error surfaced as a structured
/// failure, zero ends the iteration, and a positive read hands over one
/// entry (the positive value itself is a handle number and is ignored as
/// data). The handle stays open; the caller must close it separately and
/// check that close for exactly zero.
pub(crate) fn drain_entries(dev: &mut Device, fd: i32, err_context: &str) -> (r: Result<
    Vec<RawDirent>,
    HddError,
>)
    requires
        old(dev).wf(),
        old(dev).cursor matches Some(c) && c.fd == fd && c.pos == 0,
    ensures
        final(dev).wf(),
        final(dev).table == old(dev).table,
        final(dev).pfs_bound == old(dev).pfs_bound,
        final(dev).hdl_bound == old(dev).hdl_bound,
        final(dev).cursor matches Some(c2) && c2.fd == fd,
        r matches Ok(v) && v@.map_values(|e: RawDirent| e@) == old(dev).spec_cursor_entries(),
{
    let ghost all = old(dev).spec_cursor_entries();
    let mut dirents: Vec<RawDirent> = Vec::new();
    let mut done = false;
    proof {
        assert(dirents@.map_values(|e: RawDirent| e@) =~= all.take(0));
    }
    while !done
        invariant
            dev.wf(),
            dev.table == old(dev).table,
            dev.pfs_bound == old(dev).pfs_bound,
            dev.hdl_bound == old(dev).hdl_bound,
            dev.cursor matches Some(c) && c.fd == fd && c.entries@.map_values(|e: RawDirent| e@)
                == all && c.pos <= c.entries@.len(),
            !done ==> dirents@.map_values(|e: RawDirent| e@) == all.take(
                dev.cursor->0.pos as int,
            ),
            done ==> dirents@.map_values(|e: RawDirent| e@) == all,
        decreases dev.cursor->0.entries@.len() - dev.cursor->0.pos + (if done {
            0int
        } else {
            1int
        }),
    {
        let ghost prev = dirents@.map_values(|e: RawDirent| e@);
        let ghost pos0 = dev.cursor->0.pos as int;
        let (result, entry) = dev.dread(fd);
        if result < 0 {
            return Err(HddError::DriverFailure { context: err_context.to_owned(), code: result });
        }
        if result > 0 {
            let e = match entry {
                Some(e) => e,
                None => {
                    proof {
                        assert(false);
                    }
                    return Err(
                        HddError::DriverFailure { context: err_context.to_owned(), code: result },
                    );
                },
            };
            proof {
                assert(e@ == all[pos0]);
            }
            dirents.push(e);
            proof {
                assert(dirents@.map_values(|e: RawDirent| e@) =~= prev.push(all[pos0]));
                assert(all.take(pos0 + 1) =~= all.take(pos0).push(all[pos0]));
            }
        } else {
            done = true;
            proof {
                assert(all.take(pos0) =~= all);
            }
        }
    }
    Ok(dirents)
}

/// Issues one directory-create call with mode `0o777` below a file-system
/// root and decodes its result.
fn create_dir_impl(hdd: &mut PS2HDD, root: FsRoot, comps: &Vec<String>) -> (r: Result<
    (),
    HddError,
>)
    requires
        old(hdd).wf(),
    ensures
        final(hdd).wf(),
        final(hdd).path == old(hdd).path,
        final(hdd).pfs == old(hdd).pfs,
        final(hdd).hdlfs == old(hdd).hdlfs,
        spec_same_geometry(final(hdd).spec_partitions(), old(hdd).spec_partitions()),
        final(hdd).device.spec_tree(spec_other_root(root)) == old(hdd).device.spec_tree(
            spec_other_root(root),
        ),
        final(hdd).device.pfs_bound == old(hdd).device.pfs_bound,
        final(hdd).device.hdl_bound == old(hdd).device.hdl_bound,
        ({
            let code = spec_mkdir_code(
                old(hdd).device.spec_bound(root) is Some,
                old(hdd).device.spec_tree(root),
                comps.deep_view(),
            );
            &&& code == 0 ==> r is Ok && final(hdd).device.spec_tree(root) == old(
                hdd,
            ).device.spec_tree(root).push(comps.deep_view())
            &&& code != 0 ==> (r matches Err(e) && e matches HddError::DriverFailure {
                context,
                code: c,
            } && context@ == "failed to create directory"@ && c == code) && *final(hdd) == *old(hdd)
        }),
{
    proof {
        crate::lemma_session_unfold(*old(hdd));
    }
    let code = hdd.device.mkdir(root, comps, 0o777);
    proof {
        crate::lemma_session_unfold(*hdd);
    }
    match ok_on_nonnegative_or_strerror(code, "failed to create directory") {
        Ok(_) => Ok(()),
        Err(message) => Err(message),
    }
}

/// Recursively creates a directory and the missing parent components ahead
/// of it: a create that fails because the parent is missing first recurses
/// on the parent, then retries; a create that fails although the directory
/// already exists counts as success.
fn create_dir_all_impl(hdd: &mut PS2HDD, root: FsRoot, comps: &Vec<String>) -> (r: Result<
    (),
    HddError,
>)
    requires
        old(hdd).wf(),
    ensures
        final(hdd).wf(),
        final(hdd).path == old(hdd).path,
        final(hdd).pfs == old(hdd).pfs,
        final(hdd).hdlfs == old(hdd).hdlfs,
        spec_same_geometry(final(hdd).spec_partitions(), old(hdd).spec_partitions()),
        final(hdd).device.spec_tree(spec_other_root(root)) == old(hdd).device.spec_tree(
            spec_other_root(root),
        ),
        final(hdd).device.pfs_bound == old(hdd).device.pfs_bound,
        final(hdd).device.hdl_bound == old(hdd).device.hdl_bound,
        ({
            let bound = old(hdd).device.spec_bound(root) is Some;
            let tree = old(hdd).device.spec_tree(root);
            let d = comps.deep_view();
            &&& !bound ==> (r matches Err(e) && e matches HddError::DriverFailure {
                context,
                code,
            } && context@ == "failed to create directory"@ && code == -ENODEV) && *final(hdd)
                == *old(hdd)
            &&& bound && spec_all_valid_components(d) ==> r is Ok && final(hdd).device.spec_tree(
                root,
            ) == tree + spec_missing_prefixes(tree, d)
            &&& bound && !spec_all_valid_components(d) ==> (r matches Err(e) && e matches
                HddError::DriverFailure { context, code } && context@
                == "failed to create directory"@ && code == -EINVAL) && *final(hdd) == *old(hdd)
        }),
    decreases comps.deep_view().len(),
{
    let ghost tree0 = old(hdd).device.spec_tree(root);
    let ghost d = comps.deep_view();
    proof {
        crate::lemma_session_unfold(*old(hdd));
        if old(hdd).device.spec_bound(root) is Some {
            crate::device::lemma_bound_tree_wf(old(hdd).device, root);
        }
    }
    let first = create_dir_impl(hdd, root, comps);
    match first {
        Ok(()) => {
            proof {
                assert(spec_dir_exists(tree0, d.drop_last()));
                lemma_missing_prefixes_empty(tree0, d.drop_last());
                assert(spec_missing_prefixes(tree0, d) =~= Seq::<Seq<Seq<char>>>::empty() + seq![d]);
                assert(hdd.device.spec_tree(root) =~= tree0 + spec_missing_prefixes(tree0, d));
            }
            Ok(())
        },
        Err(e) => {
            let parent_missing = match &e {
                HddError::DriverFailure { code, .. } => *code == -ENOENT,
                _ => false,
            };
            if !parent_missing {
                if hdd.device.dir_is_present(root, comps) {
                    proof {
                        assert(spec_dir_exists(tree0, d));
                        lemma_missing_prefixes_empty(tree0, d);
                        assert(hdd.device.spec_tree(root) =~= tree0 + spec_missing_prefixes(
                            tree0,
                            d,
                        ));
                    }
                    return Ok(());
                }
                proof {
                    let code = spec_mkdir_code(
                        old(hdd).device.spec_bound(root) is Some,
                        tree0,
                        d,
                    );
                    if old(hdd).device.spec_bound(root) is Some && spec_all_valid_components(d) {
                        // the remaining codes under a bound root and valid
                        // components would mean the directory existed, and
                        // the presence probe just said it does not
                        assert(code == -EEXIST as int || code == 0);
                        assert(false);
                    }
                }
                return Err(e);
            }
            // the parent component is missing: create the parent chain
            // first, then retry
            if comps.len() == 0 {
                proof {
                    assert(false);
                }
                return Err(
                    HddError::DriverFailure {
                        context: "failed to create whole tree".to_owned(),
                        code: -ENOENT,
                    },
                );
            }
            let mut parent = crate::device::clone_comps(comps);
            parent.pop();
            proof {
                assert(parent.deep_view() =~= d.drop_last());
                assert forall|j: int|
                    0 <= j < parent.deep_view().len() implies spec_valid_component(
                    #[trigger] parent.deep_view()[j],
                ) by {
                    assert(parent.deep_view()[j] == d[j]);
                }
                assert(!tree0.contains(d)) by {
                    if tree0.contains(d) {
                        let k = choose|k: int| 0 <= k < tree0.len() && tree0[k] == d;
                        assert(spec_dir_exists(tree0, tree0[k].drop_last()));
                        assert(spec_dir_exists(tree0, d.drop_last()));
                    }
                }
            }
            match create_dir_all_impl(hdd, root, &parent) {
                Ok(()) => {},
                Err(e2) => {
                    proof {
                        assert(false);
                    }
                    return Err(e2);
                },
            }
            let ghost tree2 = hdd.device.spec_tree(root);
            proof {
                assert(tree2 == tree0 + spec_missing_prefixes(tree0, d.drop_last()));
                lemma_dir_exists_after(tree0, d.drop_last());
                lemma_missing_prefixes_elems(tree0, d.drop_last());
                assert(!tree2.contains(d)) by {
                    if tree2.contains(d) {
                        let k = choose|k: int| 0 <= k < tree2.len() && tree2[k] == d;
                        if k < tree0.len() {
                            assert(tree0[k] == d);
                        } else {
                            assert(spec_missing_prefixes(tree0, d.drop_last())[k - tree0.len()]
                                == d);
                            assert(d.len() <= d.drop_last().len());
                        }
                    }
                }
            }
            let second = create_dir_impl(hdd, root, comps);
            match second {
                Ok(()) => {
                    proof {
                        assert(spec_missing_prefixes(tree0, d) =~= spec_missing_prefixes(
                            tree0,
                            d.drop_last(),
                        ) + seq![d]);
                        assert(hdd.device.spec_tree(root) =~= tree0 + spec_missing_prefixes(
                            tree0,
                            d,
                        ));
                    }
                    Ok(())
                },
                Err(e2) => {
                    if hdd.device.dir_is_present(root, comps) {
                        proof {
                            assert(false);
                        }
                        return Ok(());
                    }
                    proof {
                        assert(false);
                    }
                    Err(e2)
                },
            }
        },
    }
}

/// Lists one directory of a mounted file system: opens a handle, drains it
/// through the iteration protocol, closes it (on the error path too, so no
/// handle leaks), and projects the raw records, filtering out the self and
/// parent pseudo-entries.
fn list_dir_impl(hdd: &mut PS2HDD, root: FsRoot, path: &str) -> (r: Result<Vec<DirEntry>, HddError>)
    requires
        old(hdd).wf(),
        path.is_ascii(),
    ensures
        final(hdd).wf(),
        *final(hdd) == *old(hdd),
        ({
            let d = spec_components(path@);
            let tree = old(hdd).device.spec_tree(root);
            let bound = old(hdd).device.spec_bound(root) is Some;
            &&& !bound ==> (r matches Err(e) && e matches HddError::DriverFailure { context, code }
                && context@ == "Failed to list directory"@ && code == -ENODEV)
            &&& bound && !spec_all_valid_components(d) ==> (r matches Err(e) && e matches
                HddError::DriverFailure { context, code } && context@ == "Failed to list directory"@
                && code == -EINVAL)
            &&& bound && spec_all_valid_components(d) && !spec_dir_exists(tree, d) ==> (r matches
            Err(e) && e matches HddError::DriverFailure { context, code } && context@
                == "Failed to list directory"@ && code == -ENOENT)
            &&& bound && spec_all_valid_components(d) && spec_dir_exists(tree, d) ==> (r matches Ok(
                v,
            ) && {
                &&& v@.len() == spec_children_of(tree, d).len()
                &&& forall|i: int|
                    0 <= i < v@.len() ==> (#[trigger] v@[i]@).name == spec_children_of(tree, d)[i]
                        && v@[i]@.mode == crate::fs::DIR_MODE && v@[i]@.root == path@
            })
        }),
{
    let comps = match split_components(path) {
        Ok(c) => c,
        Err(message) => {
            proof {
                assert(false);
            }
            return Err(message);
        },
    };
    let code = hdd.device.dopen_dir(root, &comps);
    let directory_handle = match ok_on_nonnegative_or_strerror(code, "Failed to list directory") {
        Ok(h) => h,
        Err(message) => {
            return Err(message);
        },
    };
    let drained = match drain_entries(&mut hdd.device, directory_handle, "Failed to list directories") {
        Ok(v) => v,
        Err(message) => {
            // close even when draining reported an error partway through,
            // so the handle does not leak
            let _ = hdd.device.dclose(directory_handle);
            proof {
                assert(false);
            }
            return Err(message);
        },
    };
    match ok_on_zero_or_strerror(
        hdd.device.dclose(directory_handle),
        "Failed to close directory handle",
    ) {
        Ok(_) => {},
        Err(message) => {
            proof {
                assert(false);
            }
            return Err(message);
        },
    }
    let ghost tree = old(hdd).device.spec_tree(root);
    let ghost d = comps.deep_view();
    let ghost kids = spec_children_of(tree, d);
    proof {
        assert(*hdd == *old(hdd));
        crate::device::lemma_bound_tree_wf(old(hdd).device, root);
        lemma_children_of_valid(tree, d);
        assert(drained@.map_values(|e: RawDirent| e@) == crate::device::spec_dir_dirents(kids));
        assert(drained@.map_values(|e: RawDirent| e@).len() == drained@.len());
        assert(crate::device::spec_dir_dirents(kids).len() == kids.len() + 2);
    }
    let mut dirents: Vec<DirEntry> = Vec::new();
    let mut i: usize = 0;
    while i < drained.len()
        invariant
            0 <= i <= drained.len(),
            *hdd == *old(hdd),
            old(hdd).wf(),
            path.is_ascii(),
            d == comps.deep_view(),
            kids == spec_children_of(tree, d),
            forall|k: int| 0 <= k < kids.len() ==> spec_valid_component(#[trigger] kids[k]),
            drained@.map_values(|e: RawDirent| e@) == crate::device::spec_dir_dirents(kids),
            drained@.len() == kids.len() + 2,
            dirents@.len() == (if i <= 2 {
                0int
            } else {
                i - 2
            }),
            forall|j: int|
                0 <= j < dirents@.len() ==> (#[trigger] dirents@[j]@).name == kids[j]
                    && dirents@[j]@.mode == crate::fs::DIR_MODE && dirents@[j]@.root == path@,
        decreases drained.len() - i,
    {
        let e = &drained[i];
        proof {
            assert(drained@.map_values(|e: RawDirent| e@)[i as int] == e@);
            reveal_strlit(".");
            reveal_strlit("..");
        }
        if !is_dot_name(&e.name) {
            proof {
                if i < 2 {
                    assert(e@.name == "."@ || e@.name == ".."@);
                    assert(false);
                }
                assert(e@ == crate::device::spec_dir_dirents(kids)[i as int]);
                assert(e@.name == kids[i as int - 2]);
            }
            let entry = RawDirent { name: e.name.clone(), mode: e.mode, size_sectors: e.size_sectors };
            dirents.push(DirEntry::new(entry, path.to_owned()));
        } else {
            proof {
                if i >= 2 {
                    assert(e@.name == kids[i as int - 2]);
                    assert(spec_valid_component(kids[i as int - 2]));
                    assert(false);
                }
            }
        }
        i += 1;
    }
    proof {
        assert(dirents@.len() == kids.len());
    }
    Ok(dirents)
}

impl PFS {
    /// Creates a new, empty directory at the provided path of the mounted
    /// PFS file system.
    ///
    /// # Errors
    ///
    /// This function will return an error if the path cannot be encoded, or
    /// on any nonzero result of the directory-create primitive — among else
    /// when the directory already exists or its parent is missing.
    pub fn create_dir(&self, hdd: &mut PS2HDD, path: &str) -> (r: Result<(), HddError>)
        requires
            old(hdd).wf(),
        ensures
            final(hdd).wf(),
            final(hdd).spec_path() == old(hdd).spec_path(),
            final(hdd).pfs_mounted() == old(hdd).pfs_mounted(),
            final(hdd).hdlfs_mounted() == old(hdd).hdlfs_mounted(),
            old(hdd).pfs_mounted() ==> final(hdd).pfs_partition_name() == old(hdd).pfs_partition_name(),
            old(hdd).hdlfs_mounted() ==> final(hdd).hdlfs_partition_name() == old(hdd).hdlfs_partition_name(),
            spec_same_geometry(final(hdd).spec_partitions(), old(hdd).spec_partitions()),
            final(hdd).hdlfs_tree() == old(hdd).hdlfs_tree(),
            !path.is_ascii() ==> (r matches Err(e) && e == HddError::NameEncodingInvalid) && *final(hdd) == *old(hdd),
            path.is_ascii() ==> ({
                let code = spec_mkdir_code(
                    old(hdd).pfs_mounted(),
                    old(hdd).pfs_tree(),
                    spec_components(path@),
                );
                &&& code == 0 ==> r is Ok && final(hdd).pfs_tree() == old(hdd).pfs_tree().push(
                    spec_components(path@),
                )
                &&& code != 0 ==> (r matches Err(e) && e matches HddError::DriverFailure {
                    context,
                    code: c,
                } && context@ == "failed to create directory"@ && c == code) && *final(hdd) == *old(hdd)
            }),
    {
        let comps = match split_components(path) {
            Ok(c) => c,
            Err(message) => {
                return Err(message);
            },
        };
        proof {
            crate::lemma_session_unfold(*old(hdd));
        }
        let r = create_dir_impl(hdd, FsRoot::Pfs, &comps);
        proof {
            crate::lemma_session_unfold(*hdd);
        }
        r
    }

    /// Recursively create a directory of the mounted PFS file system and
    /// all of its parent components if they are missing; a directory that
    /// already exists counts as success.
    ///
    /// # Errors
    ///
    /// This function will return an error if the path cannot be encoded, if
    /// no PFS mount is bound, or if a path component is not valid.
    pub fn create_dir_all(&self, hdd: &mut PS2HDD, path: &str) -> (r: Result<(), HddError>)
        requires
            old(hdd).wf(),
        ensures
            final(hdd).wf(),
            final(hdd).spec_path() == old(hdd).spec_path(),
            final(hdd).pfs_mounted() == old(hdd).pfs_mounted(),
            final(hdd).hdlfs_mounted() == old(hdd).hdlfs_mounted(),
            old(hdd).pfs_mounted() ==> final(hdd).pfs_partition_name() == old(hdd).pfs_partition_name(),
            old(hdd).hdlfs_mounted() ==> final(hdd).hdlfs_partition_name() == old(hdd).hdlfs_partition_name(),
            spec_same_geometry(final(hdd).spec_partitions(), old(hdd).spec_partitions()),
            final(hdd).hdlfs_tree() == old(hdd).hdlfs_tree(),
            !path.is_ascii() ==> (r matches Err(e) && e == HddError::NameEncodingInvalid) && *final(hdd) == *old(hdd),
            path.is_ascii() ==> ({
                let d = spec_components(path@);
                &&& !old(hdd).pfs_mounted() ==> (r matches Err(e) && e matches
                    HddError::DriverFailure { context, code } && context@
                    == "failed to create directory"@ && code == -ENODEV) && *final(hdd) == *old(hdd)
                &&& old(hdd).pfs_mounted() && spec_all_valid_components(d) ==> r is Ok && final(hdd).pfs_tree() == old(hdd).pfs_tree() + spec_missing_prefixes(old(hdd).pfs_tree(), d)
                &&& old(hdd).pfs_mounted() && !spec_all_valid_components(d) ==> (r matches Err(e)
                    && e matches HddError::DriverFailure { context, code } && context@
                    == "failed to create directory"@ && code == -EINVAL) && *final(hdd) == *old(hdd)
            }),
    {
        let comps = match split_components(path) {
            Ok(c) => c,
            Err(message) => {
                return Err(message);
            },
        };
        proof {
            crate::lemma_session_unfold(*old(hdd));
        }
        let r = create_dir_all_impl(hdd, FsRoot::Pfs, &comps);
        proof {
            crate::lemma_session_unfold(*hdd);
        }
        r
    }

    /// List the entries within a directory of the mounted PFS file system.
    ///
    /// All entries are fetched upfront — never lazily — because the
    /// underlying driver's handle cursor state is not safe to expose as a
    /// restartable iterator; the listing never contains the `.` and `..`
    /// pseudo-entries.
    ///
    /// # Errors
    ///
    /// This function will return an error if the path cannot be encoded, if
    /// no PFS mount is bound, if a path component is not valid, or if the
    /// directory does not exist.
    pub fn list_dir(&self, hdd: &mut PS2HDD, path: &str) -> (r: Result<Vec<DirEntry>, HddError>)
        requires
            old(hdd).wf(),
        ensures
            final(hdd).wf(),
            *final(hdd) == *old(hdd),
            !path.is_ascii() ==> (r matches Err(e) && e == HddError::NameEncodingInvalid),
            path.is_ascii() ==> ({
                let d = spec_components(path@);
                let tree = old(hdd).pfs_tree();
                &&& !old(hdd).pfs_mounted() ==> (r matches Err(e) && e matches
                    HddError::DriverFailure { context, code } && context@
                    == "Failed to list directory"@ && code == -ENODEV)
                &&& old(hdd).pfs_mounted() && !spec_all_valid_components(d) ==> (r matches Err(e)
                    && e matches HddError::DriverFailure { context, code } && context@
                    == "Failed to list directory"@ && code == -EINVAL)
                &&& old(hdd).pfs_mounted() && spec_all_valid_components(d) && !spec_dir_exists(
                    tree,
                    d,
                ) ==> (r matches Err(e) && e matches HddError::DriverFailure { context, code }
                    && context@ == "Failed to list directory"@ && code == -ENOENT)
                &&& old(hdd).pfs_mounted() && spec_all_valid_components(d) && spec_dir_exists(
                    tree,
                    d,
                ) ==> (r matches Ok(v) && {
                    &&& v@.len() == spec_children_of(tree, d).len()
                    &&& forall|i: int|
                        0 <= i < v@.len() ==> (#[trigger] v@[i]@).name == spec_children_of(
                            tree,
                            d,
                        )[i] && v@[i]@.mode == crate::fs::DIR_MODE && v@[i]@.root == path@
                    &&& forall|i: int|
                        0 <= i < v@.len() ==> (#[trigger] v@[i]@).name != "."@ && v@[i]@.name
                            != ".."@
                })
            }),
    {
        if !path.is_ascii() {
            return Err(HddError::NameEncodingInvalid);
        }
        proof {
            crate::lemma_session_unfold(*old(hdd));
        }
        let r = list_dir_impl(hdd, FsRoot::Pfs, path);
        proof {
            crate::lemma_session_unfold(*hdd);
            if old(hdd).device.spec_bound(FsRoot::Pfs) is Some {
                crate::device::lemma_bound_tree_wf(old(hdd).device, FsRoot::Pfs);
                lemma_children_of_valid(
                    old(hdd).device.spec_tree(FsRoot::Pfs),
                    spec_components(path@),
                );
            }
        }
        r
    }

    /// Removes an empty directory of the mounted PFS file system.
    ///
    /// # Errors
    ///
    /// This function will return an error if the path cannot be encoded, or
    /// on any nonzero result of the directory-remove primitive — among else
    /// when the directory does not exist or is not empty.
    pub fn remove_dir(&self, hdd: &mut PS2HDD, path: &str) -> (r: Result<(), HddError>)
        requires
            old(hdd).wf(),
        ensures
            final(hdd).wf(),
            final(hdd).spec_path() == old(hdd).spec_path(),
            final(hdd).pfs_mounted() == old(hdd).pfs_mounted(),
            final(hdd).hdlfs_mounted() == old(hdd).hdlfs_mounted(),
            old(hdd).pfs_mounted() ==> final(hdd).pfs_partition_name() == old(hdd).pfs_partition_name(),
            old(hdd).hdlfs_mounted() ==> final(hdd).hdlfs_partition_name() == old(hdd).hdlfs_partition_name(),
            spec_same_geometry(final(hdd).spec_partitions(), old(hdd).spec_partitions()),
            final(hdd).hdlfs_tree() == old(hdd).hdlfs_tree(),
            !path.is_ascii() ==> (r matches Err(e) && e == HddError::NameEncodingInvalid) && *final(hdd) == *old(hdd),
            path.is_ascii() ==> ({
                let code = spec_rmdir_code(
                    old(hdd).pfs_mounted(),
                    old(hdd).pfs_tree(),
                    spec_components(path@),
                );
                &&& code == 0 ==> r is Ok && exists|i: int|
                    0 <= i < old(hdd).pfs_tree().len() && old(hdd).pfs_tree()[i]
                        == spec_components(path@) && final(hdd).pfs_tree() == old(
                        hdd,
                    ).pfs_tree().remove(i)
                &&& code != 0 ==> (r matches Err(e) && e matches HddError::DriverFailure {
                    context,
                    code: c,
                } && context@ == "failed to delete directory"@ && c == code) && *final(hdd) == *old(hdd)
            }),
    {
        let comps = match split_components(path) {
            Ok(c) => c,
            Err(message) => {
                return Err(message);
            },
        };
        proof {
            crate::lemma_session_unfold(*old(hdd));
        }
        let code = hdd.device.rmdir(FsRoot::Pfs, &comps);
        proof {
            crate::lemma_session_unfold(*hdd);
        }
        match ok_on_nonnegative_or_strerror(code, "failed to delete directory") {
            Ok(_) => Ok(()),
            Err(message) => Err(message),
        }
    }

    /// Removes a directory at this path after removing all its contents:
    /// declared, but deliberately left unimplemented in this layer's
    /// current scope — recursive delete waits on a file-remove primitive.
    pub fn remove_dir_all(&self, hdd: &mut PS2HDD, path: &str) -> (r: Result<(), HddError>)
        ensures
            r matches Err(e) && e == HddError::UnsupportedOperation,
            *final(hdd) == *old(hdd),
    {
        Err(HddError::UnsupportedOperation)
    }

    /// Removes a file from the file system: declared, but deliberately left
    /// unimplemented in this layer's current scope.
    pub fn remove_file(&self, hdd: &mut PS2HDD, path: &str) -> (r: Result<(), HddError>)
        ensures
            r matches Err(e) && e == HddError::UnsupportedOperation,
            *final(hdd) == *old(hdd),
    {
        Err(HddError::UnsupportedOperation)
    }

    /// Renames a file or directory: declared, but deliberately left
    /// unimplemented in this layer's current scope.
    pub fn rename(&self, hdd: &mut PS2HDD, from: &str, to: &str) -> (r: Result<(), HddError>)
        ensures
            r matches Err(e) && e == HddError::UnsupportedOperation,
            *final(hdd) == *old(hdd),
    {
        Err(HddError::UnsupportedOperation)
    }
}

impl HDLFS {
    /// Creates a new, empty directory at the provided path of the mounted
    /// HDLFS file system.
    ///
    /// # Errors
    ///
    /// This function will return an error if the path cannot be encoded, or
    /// on any nonzero result of the directory-create primitive — among else
    /// when the directory already exists or its parent is missing.
    pub fn create_dir(&self, hdd: &mut PS2HDD, path: &str) -> (r: Result<(), HddError>)
        requires
            old(hdd).wf(),
        ensures
            final(hdd).wf(),
            final(hdd).spec_path() == old(hdd).spec_path(),
            final(hdd).pfs_mounted() == old(hdd).pfs_mounted(),
            final(hdd).hdlfs_mounted() == old(hdd).hdlfs_mounted(),
            old(hdd).pfs_mounted() ==> final(hdd).pfs_partition_name() == old(hdd).pfs_partition_name(),
            old(hdd).hdlfs_mounted() ==> final(hdd).hdlfs_partition_name() == old(hdd).hdlfs_partition_name(),
            spec_same_geometry(final(hdd).spec_partitions(), old(hdd).spec_partitions()),
            final(hdd).pfs_tree() == old(hdd).pfs_tree(),
            !path.is_ascii() ==> (r matches Err(e) && e == HddError::NameEncodingInvalid) && *final(hdd) == *old(hdd),
            path.is_ascii() ==> ({
                let code = spec_mkdir_code(
                    old(hdd).hdlfs_mounted(),
                    old(hdd).hdlfs_tree(),
                    spec_components(path@),
                );
                &&& code == 0 ==> r is Ok && final(hdd).hdlfs_tree() == old(hdd).hdlfs_tree().push(
                    spec_components(path@),
                )
                &&& code != 0 ==> (r matches Err(e) && e matches HddError::DriverFailure {
                    context,
                    code: c,
                } && context@ == "failed to create directory"@ && c == code) && *final(hdd) == *old(hdd)
            }),
    {
        let comps = match split_components(path) {
            Ok(c) => c,
            Err(message) => {
                return Err(message);
            },
        };
        proof {
            crate::lemma_session_unfold(*old(hdd));
        }
        let r = create_dir_impl(hdd, FsRoot::Hdl, &comps);
        proof {
            crate::lemma_session_unfold(*hdd);
        }
        r
    }

    /// Recursively create a directory of the mounted HDLFS file system and
    /// all of its parent components if they are missing; a directory that
    /// already exists counts as success.
    ///
    /// # Errors
    ///
    /// This function will return an error if the path cannot be encoded, if
    /// no HDLFS mount is bound, or if a path component is not valid.
    pub fn create_dir_all(&self, hdd: &mut PS2HDD, path: &str) -> (r: Result<(), HddError>)
        requires
            old(hdd).wf(),
        ensures
            final(hdd).wf(),
            final(hdd).spec_path() == old(hdd).spec_path(),
            final(hdd).pfs_mounted() == old(hdd).pfs_mounted(),
            final(hdd).hdlfs_mounted() == old(hdd).hdlfs_mounted(),
            old(hdd).pfs_mounted() ==> final(hdd).pfs_partition_name() == old(hdd).pfs_partition_name(),
            old(hdd).hdlfs_mounted() ==> final(hdd).hdlfs_partition_name() == old(hdd).hdlfs_partition_name(),
            spec_same_geometry(final(hdd).spec_partitions(), old(hdd).spec_partitions()),
            final(hdd).pfs_tree() == old(hdd).pfs_tree(),
            !path.is_ascii() ==> (r matches Err(e) && e == HddError::NameEncodingInvalid) && *final(hdd) == *old(hdd),
            path.is_ascii() ==> ({
                let d = spec_components(path@);
                &&& !old(hdd).hdlfs_mounted() ==> (r matches Err(e) && e matches
                    HddError::DriverFailure { context, code } && context@
                    == "failed to create directory"@ && code == -ENODEV) && *final(hdd) == *old(hdd)
                &&& old(hdd).hdlfs_mounted() && spec_all_valid_components(d) ==> r is Ok && final(hdd).hdlfs_tree() == old(hdd).hdlfs_tree() + spec_missing_prefixes(
                    old(hdd).hdlfs_tree(),
                    d,
                )
                &&& old(hdd).hdlfs_mounted() && !spec_all_valid_components(d) ==> (r matches Err(e)
                    && e matches HddError::DriverFailure { context, code } && context@
                    == "failed to create directory"@ && code == -EINVAL) && *final(hdd) == *old(hdd)
            }),
    {
        let comps = match split_components(path) {
            Ok(c) => c,
            Err(message) => {
                return Err(message);
            },
        };
        proof {
            crate::lemma_session_unfold(*old(hdd));
        }
        let r = create_dir_all_impl(hdd, FsRoot::Hdl, &comps);
        proof {
            crate::lemma_session_unfold(*hdd);
        }
        r
    }

    /// List the entries within a directory of the mounted HDLFS file
    /// system.
    ///
    /// All entries are fetched upfront — never lazily — because the
    /// underlying driver's handle cursor state is not safe to expose as a
    /// restartable iterator; the listing never contains the `.` and `..`
    /// pseudo-entries.
    ///
    /// # Errors
    ///
    /// This function will return an error if the path cannot be encoded, if
    /// no HDLFS mount is bound, if a path component is not valid, or if the
    /// directory does not exist.
    pub fn list_dir(&self, hdd: &mut PS2HDD, path: &str) -> (r: Result<Vec<DirEntry>, HddError>)
        requires
            old(hdd).wf(),
        ensures
            final(hdd).wf(),
            *final(hdd) == *old(hdd),
            !path.is_ascii() ==> (r matches Err(e) && e == HddError::NameEncodingInvalid),
            path.is_ascii() ==> ({
                let d = spec_components(path@);
                let tree = old(hdd).hdlfs_tree();
                &&& !old(hdd).hdlfs_mounted() ==> (r matches Err(e) && e matches
                    HddError::DriverFailure { context, code } && context@
                    == "Failed to list directory"@ && code == -ENODEV)
                &&& old(hdd).hdlfs_mounted() && !spec_all_valid_components(d) ==> (r matches Err(e)
                    && e matches HddError::DriverFailure { context, code } && context@
                    == "Failed to list directory"@ && code == -EINVAL)
                &&& old(hdd).hdlfs_mounted() && spec_all_valid_components(d) && !spec_dir_exists(
                    tree,
                    d,
                ) ==> (r matches Err(e) && e matches HddError::DriverFailure { context, code }
                    && context@ == "Failed to list directory"@ && code == -ENOENT)
                &&& old(hdd).hdlfs_mounted() && spec_all_valid_components(d) && spec_dir_exists(
                    tree,
                    d,
                ) ==> (r matches Ok(v) && {
                    &&& v@.len() == spec_children_of(tree, d).len()
                    &&& forall|i: int|
                        0 <= i < v@.len() ==> (#[trigger] v@[i]@).name == spec_children_of(
                            tree,
                            d,
                        )[i] && v@[i]@.mode == crate::fs::DIR_MODE && v@[i]@.root == path@
                    &&& forall|i: int|
                        0 <= i < v@.len() ==> (#[trigger] v@[i]@).name != "."@ && v@[i]@.name
                            != ".."@
                })
            }),
    {
        if !path.is_ascii() {
            return Err(HddError::NameEncodingInvalid);
        }
        proof {
            crate::lemma_session_unfold(*old(hdd));
        }
        let r = list_dir_impl(hdd, FsRoot::Hdl, path);
        proof {
            crate::lemma_session_unfold(*hdd);
            if old(hdd).device.spec_bound(FsRoot::Hdl) is Some {
                crate::device::lemma_bound_tree_wf(old(hdd).device, FsRoot::Hdl);
                lemma_children_of_valid(
                    old(hdd).device.spec_tree(FsRoot::Hdl),
                    spec_components(path@),
                );
            }
        }
        r
    }

    /// Removes an empty directory of the mounted HDLFS file system.
    ///
    /// # Errors
    ///
    /// This function will return an error if the path cannot be encoded, or
    /// on any nonzero result of the directory-remove primitive — among else
    /// when the directory does not exist or is not empty.
    pub fn remove_dir(&self, hdd: &mut PS2HDD, path: &str) -> (r: Result<(), HddError>)
        requires
            old(hdd).wf(),
        ensures
            final(hdd).wf(),
            final(hdd).spec_path() == old(hdd).spec_path(),
            final(hdd).pfs_mounted() == old(hdd).pfs_mounted(),
            final(hdd).hdlfs_mounted() == old(hdd).hdlfs_mounted(),
            old(hdd).pfs_mounted() ==> final(hdd).pfs_partition_name() == old(hdd).pfs_partition_name(),
            old(hdd).hdlfs_mounted() ==> final(hdd).hdlfs_partition_name() == old(hdd).hdlfs_partition_name(),
            spec_same_geometry(final(hdd).spec_partitions(), old(hdd).spec_partitions()),
            final(hdd).pfs_tree() == old(hdd).pfs_tree(),
            !path.is_ascii() ==> (r matches Err(e) && e == HddError::NameEncodingInvalid) && *final(hdd) == *old(hdd),
            path.is_ascii() ==> ({
                let code = spec_rmdir_code(
                    old(hdd).hdlfs_mounted(),
                    old(hdd).hdlfs_tree(),
                    spec_components(path@),
                );
                &&& code == 0 ==> r is Ok && exists|i: int|
                    0 <= i < old(hdd).hdlfs_tree().len() && old(hdd).hdlfs_tree()[i]
                        == spec_components(path@) && final(hdd).hdlfs_tree() == old(
                        hdd,
                    ).hdlfs_tree().remove(i)
                &&& code != 0 ==> (r matches Err(e) && e matches HddError::DriverFailure {
                    context,
                    code: c,
                } && context@ == "failed to delete directory"@ && c == code) && *final(hdd) == *old(hdd)
            }),
    {
        let comps = match split_components(path) {
            Ok(c) => c,
            Err(message) => {
                return Err(message);
            },
        };
        proof {
            crate::lemma_session_unfold(*old(hdd));
        }
        let code = hdd.device.rmdir(FsRoot::Hdl, &comps);
        proof {
            crate::lemma_session_unfold(*hdd);
        }
        match ok_on_nonnegative_or_strerror(code, "failed to delete directory") {
            Ok(_) => Ok(()),
            Err(message) => Err(message),
        }
    }

    /// Removes a directory at this path after removing all its contents:
    /// declared, but deliberately left unimplemented in this layer's
    /// current scope — recursive delete waits on a file-remove primitive.
    pub fn remove_dir_all(&self, hdd: &mut PS2HDD, path: &str) -> (r: Result<(), HddError>)
        ensures
            r matches Err(e) && e == HddError::UnsupportedOperation,
            *final(hdd) == *old(hdd),
    {
        Err(HddError::UnsupportedOperation)
    }

    /// Removes a file from the file system: declared, but deliberately left
    /// unimplemented in this layer's current scope.
    pub fn remove_file(&self, hdd: &mut PS2HDD, path: &str) -> (r: Result<(), HddError>)
        ensures
            r matches Err(e) && e == HddError::UnsupportedOperation,
            *final(hdd) == *old(hdd),
    {
        Err(HddError::UnsupportedOperation)
    }

    /// Renames a file or directory: declared, but deliberately left
    /// unimplemented in this layer's current scope.
    pub fn rename(&self, hdd: &mut PS2HDD, from: &str, to: &str) -> (r: Result<(), HddError>)
        ensures
            r matches Err(e) && e == HddError::UnsupportedOperation,
            *final(hdd) == *old(hdd),
    {
        Err(HddError::UnsupportedOperation)
    }
}

} // verus!
