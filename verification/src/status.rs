//! The point-in-time snapshot of all subsystem states, and the
//! scratch-file cleanup planner that is gated on a verified-quiet
//! snapshot.
//!
//! A snapshot is assembled from the four observations the caller
//! gathers: the application path probe, one process listing, the
//! marker-derived service state, and one registry listing per fixed
//! extension identifier.  Snapshots are built fresh on demand and
//! never mutated.

use vstd::prelude::*;
use vstd::string::*;
use crate::discovery::{dropbox_bundle_ids, spec_bundle_id, BUNDLE_ID_COUNT};
use crate::errors::ToggleError;
use crate::extensions::{get_extension_state, spec_parse_extension_state, ExtensionState, ExtensionStateView};
use crate::launchagent::LaunchAgentState;
use crate::processes::{DropboxProcess, DropboxProcessView};

verus! {

/// A point-in-time composite read of all subsystem states.  The
/// `extensions` field always holds exactly the fixed identifiers, in
/// their fixed order; identifiers the registry does not know are
/// synthesized as absent.
pub struct Status {
    pub dropbox_app_path: Option<String>,
    pub processes: Vec<DropboxProcess>,
    pub launch_agent_state: LaunchAgentState,
    pub extensions: Vec<(String, ExtensionState)>,
}

/// The mathematical value of a `Status`.
#[verifier::ext_equal]
pub struct StatusView {
    pub dropbox_app_path: Option<Seq<char>>,
    pub processes: Seq<DropboxProcessView>,
    pub launch_agent_state: LaunchAgentState,
    pub extensions: Seq<(Seq<char>, ExtensionStateView)>,
}

impl View for Status {
    type V = StatusView;

    open spec fn view(&self) -> StatusView {
        StatusView {
            dropbox_app_path: match self.dropbox_app_path {
                Some(p) => Some(p@),
                None => None,
            },
            processes: self.processes@.map_values(|p: DropboxProcess| p@),
            launch_agent_state: self.launch_agent_state,
            extensions: self.extensions@.map_values(|e: (String, ExtensionState)| (e.0@, e.1@)),
        }
    }
}

/// The snapshot invariant: the extension table holds exactly the
/// fixed identifiers in their fixed order, each record names its
/// identifier, and an absent extension is never reported enabled.
pub open spec fn spec_status_wf(s: StatusView) -> bool {
    &&& s.extensions.len() == BUNDLE_ID_COUNT as int
    &&& forall|i: int|
        0 <= i < s.extensions.len() ==> (#[trigger] s.extensions[i]).0 == spec_bundle_id(i)
    &&& forall|i: int|
        0 <= i < s.extensions.len() ==> (#[trigger] s.extensions[i]).1.bundle_id
            == s.extensions[i].0
    &&& forall|i: int|
        0 <= i < s.extensions.len() ==> (!(#[trigger] s.extensions[i]).1.found
            ==> !s.extensions[i].1.enabled)
}

/// Assemble a snapshot from the four observations: the application
/// path probe, the parsed process listing, the marker-derived service
/// state, and the captured registry listing for each fixed identifier,
/// in identifier order.
pub fn get_status(
    dropbox_app_path: Option<String>,
    processes: Vec<DropboxProcess>,
    launch_agent_state: LaunchAgentState,
    extension_listings: &Vec<String>,
) -> (r: Status)
    requires
        extension_listings@.len() == BUNDLE_ID_COUNT,
    ensures
        r@.dropbox_app_path == (match dropbox_app_path {
            Some(p) => Some::<Seq<char>>(p@),
            None => None::<Seq<char>>,
        }),
        r@.processes == processes@.map_values(|p: DropboxProcess| p@),
        r@.launch_agent_state == launch_agent_state,
        r@.extensions.len() == BUNDLE_ID_COUNT as int,
        forall|i: int|
            0 <= i < r@.extensions.len() ==> (#[trigger] r@.extensions[i]).0 == spec_bundle_id(i)
                && r@.extensions[i].1 == spec_parse_extension_state(
                spec_bundle_id(i),
                extension_listings@[i]@,
            ),
        spec_status_wf(r@),
{
    let ids = dropbox_bundle_ids();
    let mut extensions: Vec<(String, ExtensionState)> = Vec::new();
    let mut i: usize = 0;
    while i < ids.len()
        invariant
            ids@.len() == BUNDLE_ID_COUNT,
            extension_listings@.len() == BUNDLE_ID_COUNT,
            forall|j: int| 0 <= j < ids@.len() ==> (#[trigger] ids@[j])@ == spec_bundle_id(j),
            0 <= i <= ids@.len(),
            extensions@.len() == i,
            forall|j: int|
                0 <= j < i ==> (#[trigger] extensions@[j]).0@ == spec_bundle_id(j)
                    && extensions@[j].1@ == spec_parse_extension_state(
                    spec_bundle_id(j),
                    extension_listings@[j]@,
                ),
        decreases ids@.len() - i,
    {
        let state = get_extension_state(ids[i].as_str(), extension_listings[i].as_str());
        let id = ids[i].clone();
        extensions.push((id, state));
        i += 1;
    }
    let r = Status { dropbox_app_path, processes, launch_agent_state, extensions };
    proof {
        assert forall|i2: int|
            0 <= i2 < r@.extensions.len() implies (#[trigger] r@.extensions[i2]).0
            == spec_bundle_id(i2) && r@.extensions[i2].1 == spec_parse_extension_state(
            spec_bundle_id(i2),
            extension_listings@[i2]@,
        ) by {
            assert(r@.extensions[i2] == (r.extensions@[i2].0@, r.extensions@[i2].1@));
        }
    }
    r
}

/// The safety gate of the destructive cleanup: it may only run when
/// the snapshot shows no process at all; otherwise nothing is done and
/// the precondition failure is reported.
pub fn scratch_precondition(status: &Status) -> (r: Result<(), ToggleError>)
    ensures
        (status@.processes.len() == 0) <==> r is Ok,
        r is Err ==> r == Err::<(), ToggleError>(ToggleError::PreconditionError),
{
    proof {
        assert(status@.processes.len() == status.processes@.len());
    }
    if status.processes.len() == 0 {
        Ok(())
    } else {
        Err(ToggleError::PreconditionError)
    }
}

/// The home directory as seen through the data-volume mount: the
/// cleanup tries this variant first and falls back to the plain home
/// directory when it does not exist on disk.
pub open spec fn spec_data_volume_home(home: Seq<char>) -> Seq<char> {
    if home.len() > 0 && home[0] == '/' {
        "/System/Volumes/Data"@ + home
    } else {
        "/System/Volumes/Data/"@ + home
    }
}

/// Build the data-volume variant of the home directory.
pub fn data_volume_home(home: &str) -> (r: String)
    ensures
        r@ == spec_data_volume_home(home@),
{
    if home.unicode_len() > 0 && home.get_char(0) == '/' {
        let mut s = String::from_str("/System/Volumes/Data");
        s.append(home);
        s
    } else {
        let mut s = String::from_str("/System/Volumes/Data/");
        s.append(home);
        s
    }
}

/// The working-set root under a resolved home directory: the group
/// container of the sync engine, then its mount directory.
pub open spec fn spec_scratch_root_mount(base_home: Seq<char>) -> Seq<char> {
    base_home + "/Library/Group Containers/G7HH3F8CAK.com.getdropbox.dropbox.sync/root-mount"@
}

/// Build the working-set root path (the group-container name is the
/// application team id followed by the sync-engine container suffix).
pub fn scratch_root_mount(base_home: &str) -> (r: String)
    ensures
        r@ == spec_scratch_root_mount(base_home@),
{
    let mut s = String::from_str(base_home);
    s.append("/Library/Group Containers/G7HH3F8CAK.com.getdropbox.dropbox.sync/root-mount");
    s
}

/// What kind of directory entry an immediate child of a scratch
/// directory is.
#[derive(Clone, Copy, Debug, PartialEq, Eq, Structural)]
pub enum ScratchEntryKind {
    File,
    Symlink,
    Directory,
}

/// One immediate child of a scratch directory, as enumerated by the
/// caller: its name, its kind, and its size in bytes.
pub struct ScratchEntry {
    pub name: String,
    pub kind: ScratchEntryKind,
    pub size: u64,
}

#[verifier::ext_equal]
pub struct ScratchEntryView {
    pub name: Seq<char>,
    pub kind: ScratchEntryKind,
    pub size: u64,
}

impl View for ScratchEntry {
    type V = ScratchEntryView;

    open spec fn view(&self) -> ScratchEntryView {
        ScratchEntryView { name: self.name@, kind: self.kind, size: self.size }
    }
}

/// One scratch directory found under the working-set root, with its
/// immediate children only.
pub struct ScratchDir {
    pub path: String,
    pub entries: Vec<ScratchEntry>,
}

#[verifier::ext_equal]
pub struct ScratchDirView {
    pub path: Seq<char>,
    pub entries: Seq<ScratchEntryView>,
}

impl View for ScratchDir {
    type V = ScratchDirView;

    open spec fn view(&self) -> ScratchDirView {
        ScratchDirView { path: self.path@, entries: self.entries@.map_values(|e: ScratchEntry| e@) }
    }
}

/// One file the cleanup will delete: its full path and its size.
pub struct ScratchTarget {
    pub path: String,
    pub size: u64,
}

#[verifier::ext_equal]
pub struct ScratchTargetView {
    pub path: Seq<char>,
    pub size: u64,
}

impl View for ScratchTarget {
    type V = ScratchTargetView;

    open spec fn view(&self) -> ScratchTargetView {
        ScratchTargetView { path: self.path@, size: self.size }
    }
}

/// What the cleanup will do, decided before any deletion: the files to
/// delete in order, the unexpected subdirectories to skip and report,
/// and whether any scratch directory was found at all (`found_any ==
/// false` is reported distinctly from found-but-empty).
pub struct CleanupPlan {
    pub files: Vec<ScratchTarget>,
    pub skipped_dirs: Vec<String>,
    pub found_any: bool,
}

pub open spec fn spec_child_path(dir_path: Seq<char>, name: Seq<char>) -> Seq<char> {
    dir_path + "/"@ + name
}

/// The deletions one scratch directory contributes: its immediate
/// file and symbolic-link children, in order; subdirectories are
/// never entered.
pub open spec fn spec_entry_targets(path: Seq<char>, es: Seq<ScratchEntryView>) -> Seq<
    ScratchTargetView,
>
    decreases es.len(),
{
    if es.len() == 0 {
        Seq::empty()
    } else {
        let init = spec_entry_targets(path, es.drop_last());
        if es.last().kind is Directory {
            init
        } else {
            init.push(
                ScratchTargetView { path: spec_child_path(path, es.last().name), size: es.last().size },
            )
        }
    }
}

/// The subdirectories one scratch directory reports as skipped.
pub open spec fn spec_entry_skips(path: Seq<char>, es: Seq<ScratchEntryView>) -> Seq<Seq<char>>
    decreases es.len(),
{
    if es.len() == 0 {
        Seq::empty()
    } else {
        let init = spec_entry_skips(path, es.drop_last());
        if es.last().kind is Directory {
            init.push(spec_child_path(path, es.last().name))
        } else {
            init
        }
    }
}

/// All deletions of a cleanup run, in directory order.
pub open spec fn spec_plan_files(ds: Seq<ScratchDirView>) -> Seq<ScratchTargetView>
    decreases ds.len(),
{
    if ds.len() == 0 {
        Seq::empty()
    } else {
        spec_plan_files(ds.drop_last()) + spec_entry_targets(
            ds.last().path,
            ds.last().entries,
        )
    }
}

/// All skipped subdirectories of a cleanup run, in directory order.
pub open spec fn spec_plan_skips(ds: Seq<ScratchDirView>) -> Seq<Seq<char>>
    decreases ds.len(),
{
    if ds.len() == 0 {
        Seq::empty()
    } else {
        spec_plan_skips(ds.drop_last()) + spec_entry_skips(ds.last().path, ds.last().entries)
    }
}

/// Every planned deletion is an immediate non-directory child of one
/// of the scratch directories: the cleanup never reaches anything
/// inside a subdirectory.
pub proof fn lemma_plan_never_recurses(ds: Seq<ScratchDirView>, k: int)
    requires
        0 <= k < spec_plan_files(ds).len(),
    ensures
        exists|i: int, j: int| #![trigger ds[i].entries[j]]
            0 <= i < ds.len() && 0 <= j < ds[i].entries.len()
                && !(ds[i].entries[j].kind is Directory) && spec_plan_files(ds)[k]
                == (ScratchTargetView {
                path: spec_child_path(ds[i].path, ds[i].entries[j].name),
                size: ds[i].entries[j].size,
            }),
    decreases ds.len(),
{
    let init = spec_plan_files(ds.drop_last());
    if k < init.len() {
        lemma_plan_never_recurses(ds.drop_last(), k);
        let (i, j) = choose|i: int, j: int| #![trigger ds.drop_last()[i].entries[j]]
            0 <= i < ds.drop_last().len() && 0 <= j < ds.drop_last()[i].entries.len()
                && !(ds.drop_last()[i].entries[j].kind is Directory) && spec_plan_files(
                ds.drop_last(),
            )[k] == ScratchTargetView {
                path: spec_child_path(ds.drop_last()[i].path, ds.drop_last()[i].entries[j].name),
                size: ds.drop_last()[i].entries[j].size,
            };
        assert(ds.drop_last()[i] == ds[i]);
        assert(spec_plan_files(ds)[k] == init[k]);
    } else {
        let d = ds.last();
        lemma_entry_targets_from_entries(d.path, d.entries, k - init.len());
        let j = choose|j: int|
            0 <= j < d.entries.len() && !((#[trigger] d.entries[j]).kind is Directory)
                && spec_entry_targets(d.path, d.entries)[k - init.len()] == ScratchTargetView {
                path: spec_child_path(d.path, d.entries[j].name),
                size: d.entries[j].size,
            };
        let i = ds.len() - 1;
        assert(ds[i] == d);
        assert(spec_plan_files(ds)[k] == spec_entry_targets(d.path, d.entries)[k - init.len()]);
        assert(0 <= i < ds.len() && 0 <= j < ds[i].entries.len()
            && !(ds[i].entries[j].kind is Directory) && spec_plan_files(ds)[k]
            == ScratchTargetView {
            path: spec_child_path(ds[i].path, ds[i].entries[j].name),
            size: ds[i].entries[j].size,
        });
    }
}

/// Every deletion one directory contributes comes from one of its own
/// non-directory immediate children.
pub proof fn lemma_entry_targets_from_entries(path: Seq<char>, es: Seq<ScratchEntryView>, k: int)
    requires
        0 <= k < spec_entry_targets(path, es).len(),
    ensures
        exists|j: int|
            0 <= j < es.len() && !((#[trigger] es[j]).kind is Directory) && spec_entry_targets(
                path,
                es,
            )[k] == (ScratchTargetView {
                path: spec_child_path(path, es[j].name),
                size: es[j].size,
            }),
    decreases es.len(),
{
    let init = spec_entry_targets(path, es.drop_last());
    if k < init.len() {
        lemma_entry_targets_from_entries(path, es.drop_last(), k);
        let j = choose|j: int|
            0 <= j < es.drop_last().len() && !((#[trigger] es.drop_last()[j]).kind is Directory)
                && spec_entry_targets(path, es.drop_last())[k] == ScratchTargetView {
                path: spec_child_path(path, es.drop_last()[j].name),
                size: es.drop_last()[j].size,
            };
        assert(es.drop_last()[j] == es[j]);
        assert(spec_entry_targets(path, es)[k] == init[k]);
    } else {
        assert(!(es.last().kind is Directory));
        let j = es.len() - 1;
        assert(es[j] == es.last());
        assert(spec_entry_targets(path, es)[k] == ScratchTargetView {
            path: spec_child_path(path, es[j].name),
            size: es[j].size,
        });
    }
}

/// Every subdirectory found among the immediate children is reported
/// as skipped.
pub proof fn lemma_directories_reported(ds: Seq<ScratchDirView>, i: int, j: int)
    requires
        0 <= i < ds.len(),
        0 <= j < ds[i].entries.len(),
        ds[i].entries[j].kind is Directory,
    ensures
        spec_plan_skips(ds).contains(spec_child_path(ds[i].path, ds[i].entries[j].name)),
    decreases ds.len(),
{
    let init = spec_plan_skips(ds.drop_last());
    if i < ds.len() - 1 {
        lemma_directories_reported(ds.drop_last(), i, j);
        assert(ds.drop_last()[i] == ds[i]);
        let k = choose|k: int|
            0 <= k < init.len() && init[k] == spec_child_path(ds[i].path, ds[i].entries[j].name);
        assert(spec_plan_skips(ds)[k] == init[k]);
    } else {
        let d = ds.last();
        assert(d == ds[i]);
        lemma_entry_skips_reported(d.path, d.entries, j);
        let k = choose|k: int|
            0 <= k < spec_entry_skips(d.path, d.entries).len() && spec_entry_skips(
                d.path,
                d.entries,
            )[k] == spec_child_path(d.path, d.entries[j].name);
        assert(spec_plan_skips(ds)[init.len() + k] == spec_entry_skips(d.path, d.entries)[k]);
    }
}

pub proof fn lemma_entry_skips_reported(path: Seq<char>, es: Seq<ScratchEntryView>, j: int)
    requires
        0 <= j < es.len(),
        es[j].kind is Directory,
    ensures
        spec_entry_skips(path, es).contains(spec_child_path(path, es[j].name)),
    decreases es.len(),
{
    let init = spec_entry_skips(path, es.drop_last());
    if j < es.len() - 1 {
        lemma_entry_skips_reported(path, es.drop_last(), j);
        assert(es.drop_last()[j] == es[j]);
        let k = choose|k: int|
            0 <= k < init.len() && init[k] == spec_child_path(path, es.drop_last()[j].name);
        if es.last().kind is Directory {
            assert(spec_entry_skips(path, es)[k] == init[k]);
        } else {
            assert(spec_entry_skips(path, es)[k] == init[k]);
        }
    } else {
        assert(es[j] == es.last());
        assert(spec_entry_skips(path, es)[init.len() as int] == spec_child_path(
            path,
            es.last().name,
        ));
    }
}

fn child_path(dir_path: &str, name: &str) -> (r: String)
    ensures
        r@ == spec_child_path(dir_path@, name@),
{
    let mut p = String::from_str(dir_path);
    p.append("/");
    p.append(name);
    p
}

/// Decide a cleanup run over the scratch directories the caller found:
/// which immediate children will be deleted, in order, and which
/// unexpected subdirectories are skipped and reported instead of being
/// entered.  Pure planning: nothing is deleted here.
pub fn clean_scratch_files(dirs: &Vec<ScratchDir>) -> (r: CleanupPlan)
    ensures
        r.files@.map_values(|t: ScratchTarget| t@) == spec_plan_files(
            dirs@.map_values(|d: ScratchDir| d@),
        ),
        r.skipped_dirs@.map_values(|s: String| s@) == spec_plan_skips(
            dirs@.map_values(|d: ScratchDir| d@),
        ),
        r.found_any == (dirs@.len() > 0),
{
    let ghost vds = dirs@.map_values(|d: ScratchDir| d@);
    let mut files: Vec<ScratchTarget> = Vec::new();
    let mut skipped_dirs: Vec<String> = Vec::new();
    let mut i: usize = 0;
    proof {
        assert(vds.take(0) =~= Seq::<ScratchDirView>::empty());
    }
    while i < dirs.len()
        invariant
            vds == dirs@.map_values(|d: ScratchDir| d@),
            0 <= i <= dirs@.len(),
            files@.map_values(|t: ScratchTarget| t@) == spec_plan_files(vds.take(i as int)),
            skipped_dirs@.map_values(|s: String| s@) == spec_plan_skips(vds.take(i as int)),
        decreases dirs@.len() - i,
    {
        let dir = &dirs[i];
        let ghost vd = vds[i as int];
        let ghost ves = vd.entries;
        proof {
            assert(vd == dirs@[i as int]@);
            assert(ves == dir.entries@.map_values(|e: ScratchEntry| e@));
            assert(ves.take(0) =~= Seq::<ScratchEntryView>::empty());
        }
        let mut j: usize = 0;
        while j < dir.entries.len()
            invariant
                vd.path == dir.path@,
                ves == dir.entries@.map_values(|e: ScratchEntry| e@),
                0 <= j <= dir.entries@.len(),
                files@.map_values(|t: ScratchTarget| t@) == spec_plan_files(vds.take(i as int))
                    + spec_entry_targets(vd.path, ves.take(j as int)),
                skipped_dirs@.map_values(|s: String| s@) == spec_plan_skips(vds.take(i as int))
                    + spec_entry_skips(vd.path, ves.take(j as int)),
            decreases dir.entries@.len() - j,
        {
            let entry = &dir.entries[j];
            proof {
                assert(ves[j as int] == dir.entries@[j as int]@);
                assert(ves.take(j + 1).drop_last() =~= ves.take(j as int));
                assert(ves.take(j + 1).last() == ves[j as int]);
            }
            let ghost files0 = files@;
            let ghost skipped0 = skipped_dirs@;
            match entry.kind {
                ScratchEntryKind::Directory => {
                    skipped_dirs.push(child_path(dir.path.as_str(), entry.name.as_str()));
                    proof {
                        assert(skipped_dirs@.map_values(|s: String| s@) =~= skipped0.map_values(
                            |s: String| s@,
                        ).push(spec_child_path(vd.path, ves[j as int].name)));
                        assert(spec_plan_skips(vds.take(i as int)) + spec_entry_skips(
                            vd.path,
                            ves.take(j + 1),
                        ) =~= (spec_plan_skips(vds.take(i as int)) + spec_entry_skips(
                            vd.path,
                            ves.take(j as int),
                        )).push(spec_child_path(vd.path, ves[j as int].name)));
                    }
                },
                _ => {
                    let target = ScratchTarget {
                        path: child_path(dir.path.as_str(), entry.name.as_str()),
                        size: entry.size,
                    };
                    files.push(target);
                    proof {
                        assert(files@.map_values(|t: ScratchTarget| t@) =~= files0.map_values(
                            |t: ScratchTarget| t@,
                        ).push(ScratchTargetView {
                            path: spec_child_path(vd.path, ves[j as int].name),
                            size: ves[j as int].size,
                        }));
                        assert(spec_plan_files(vds.take(i as int)) + spec_entry_targets(
                            vd.path,
                            ves.take(j + 1),
                        ) =~= (spec_plan_files(vds.take(i as int)) + spec_entry_targets(
                            vd.path,
                            ves.take(j as int),
                        )).push(ScratchTargetView {
                            path: spec_child_path(vd.path, ves[j as int].name),
                            size: ves[j as int].size,
                        }));
                    }
                },
            }
            j += 1;
        }
        proof {
            assert(ves.take(dir.entries@.len() as int) =~= ves);
            assert(vds.take(i + 1).drop_last() =~= vds.take(i as int));
            assert(vds.take(i + 1).last() == vds[i as int]);
        }
        i += 1;
    }
    proof {
        assert(vds.take(dirs@.len() as int) =~= vds);
    }
    let found_any = dirs.len() > 0;
    CleanupPlan { files, skipped_dirs, found_any }
}

/// The byte total of a deletion list.
pub open spec fn spec_total_size(ts: Seq<ScratchTargetView>) -> int
    decreases ts.len(),
{
    if ts.len() == 0 {
        0
    } else {
        spec_total_size(ts.drop_last()) + ts.last().size
    }
}

pub proof fn lemma_total_size_nonneg(ts: Seq<ScratchTargetView>)
    ensures
        spec_total_size(ts) >= 0,
    decreases ts.len(),
{
    if ts.len() > 0 {
        lemma_total_size_nonneg(ts.drop_last());
    }
}

/// The final report of a cleanup run: bytes freed and file count.
/// The byte total saturates at the largest representable value.
pub fn cleanup_totals(files: &Vec<ScratchTarget>) -> (r: (u64, usize))
    ensures
        r.1 == files@.len(),
        spec_total_size(files@.map_values(|t: ScratchTarget| t@)) <= u64::MAX ==> r.0
            == spec_total_size(files@.map_values(|t: ScratchTarget| t@)),
        spec_total_size(files@.map_values(|t: ScratchTarget| t@)) > u64::MAX ==> r.0 == u64::MAX,
{
    let ghost vts = files@.map_values(|t: ScratchTarget| t@);
    let mut total: u64 = 0;
    let mut i: usize = 0;
    proof {
        assert(vts.take(0) =~= Seq::<ScratchTargetView>::empty());
    }
    while i < files.len()
        invariant
            vts == files@.map_values(|t: ScratchTarget| t@),
            0 <= i <= files@.len(),
            spec_total_size(vts.take(i as int)) <= u64::MAX ==> total == spec_total_size(
                vts.take(i as int),
            ),
            spec_total_size(vts.take(i as int)) > u64::MAX ==> total == u64::MAX,
        decreases files@.len() - i,
    {
        proof {
            assert(vts.take(i + 1).drop_last() =~= vts.take(i as int));
            assert(vts.take(i + 1).last() == vts[i as int]);
            assert(vts[i as int] == files@[i as int]@);
            lemma_total_size_nonneg(vts.take(i as int));
        }
        let size = files[i].size;
        if total <= u64::MAX - size {
            total = total + size;
        } else {
            total = u64::MAX;
        }
        i += 1;
    }
    proof {
        assert(vts.take(files@.len() as int) =~= vts);
    }
    (total, files.len())
}

} // verus!
