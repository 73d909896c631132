//! The install orchestrator: turns a validated manifest into the exact list
//! of download tasks, and tracks one install run through its stages —
//! cleaning the prior install, validating the manifest, downloading,
//! extracting overrides, installing the loader, updating the registry —
//! while accumulating every path it writes, the deletion set of the next
//! install into the same directory.
use vstd::prelude::*;

use crate::errors::InstallError;
use crate::errors::ManifestError;
use crate::errors::ValidationError;
use crate::hexutil::hex_decode;
use crate::hexutil::spec_hex_decode;
use crate::mrpack::PackDependency;
use crate::mrpack::PackFile;
use crate::mrpack::PackIndex;
use crate::mrpack::client_unsupported;
use crate::mrpack::sha512_hex;
use crate::mrpack::spec_client_unsupported;
use crate::mrpack::spec_index_valid;
use crate::mrpack::spec_sha512_hex;
use crate::mrpack::validate_index;
use crate::paths::parse_and_sanitize_path;
use crate::paths::spec_join_slash;
use crate::paths::spec_sanitize;
use crate::strutil::clone_strings;

verus! {

/// One download task of the plan, as specifications see it.
#[verifier::ext_equal]
pub ghost struct SpecTask {
    pub path: Seq<char>,
    pub hash: Seq<u8>,
    pub size: u64,
    pub urls: Seq<Seq<char>>,
}

/// One download task: the sanitized destination path, the pinned SHA-512
/// hash and byte length, and the mirrors to try in order.
#[derive(Debug, PartialEq, Eq)]
pub struct FileTask {
    pub path: String,
    pub hash: Vec<u8>,
    pub size: u64,
    pub urls: Vec<String>,
}

impl View for FileTask {
    type V = SpecTask;

    open spec fn view(&self) -> SpecTask {
        SpecTask {
            path: self.path@,
            hash: self.hash@,
            size: self.size,
            urls: self.urls.deep_view(),
        }
    }
}

impl DeepView for FileTask {
    type V = SpecTask;

    open spec fn deep_view(&self) -> SpecTask {
        self.view()
    }
}

/// The task one manifest entry yields: its path sanitized and normalized,
/// its mandated `sha512` hash decoded; or the validation error that entry
/// carries.
pub open spec fn spec_task_of(f: PackFile) -> Result<SpecTask, InstallError> {
    match spec_sanitize(f.path@) {
        None => Err(InstallError::Validation(ValidationError::UnsafePath)),
        Some(comps) => match spec_sha512_hex(f.hashes@) {
            None => Err(InstallError::Validation(ValidationError::MissingSha512)),
            Some(hex) => match spec_hex_decode(hex) {
                None => Err(InstallError::Validation(ValidationError::InvalidHashHex)),
                Some(bytes) => Ok(
                    SpecTask {
                        path: spec_join_slash(comps),
                        hash: bytes,
                        size: f.file_size as u64,
                        urls: f.downloads.deep_view(),
                    },
                ),
            },
        },
    }
}

/// The download plan of a manifest's file list, in manifest order: entries
/// unsupported on the client are left out; the first invalid entry fails
/// the plan.
pub open spec fn spec_plan(files: Seq<PackFile>) -> Result<Seq<SpecTask>, InstallError>
    decreases files.len(),
{
    if files.len() == 0 {
        Ok(Seq::<SpecTask>::empty())
    } else if spec_client_unsupported(files[0]) {
        spec_plan(files.skip(1))
    } else {
        match spec_task_of(files[0]) {
            Err(e) => Err(e),
            Ok(t) => match spec_plan(files.skip(1)) {
                Err(e) => Err(e),
                Ok(ts) => Ok(seq![t] + ts),
            },
        }
    }
}

/// An entry unsupported on the client side contributes nothing to the
/// plan: the plan with the entry equals the plan without it.
pub proof fn lemma_plan_drops_excluded(files: Seq<PackFile>, i: int)
    requires
        0 <= i < files.len(),
        spec_client_unsupported(files[i]),
    ensures
        spec_plan(files) == spec_plan(files.remove(i)),
    decreases files.len(),
{
    if i == 0 {
        assert(files.skip(1) =~= files.remove(0));
    } else {
        lemma_plan_drops_excluded(files.skip(1), i - 1);
        assert(files.skip(1).remove(i - 1) =~= files.remove(i).skip(1));
        assert(files.remove(i)[0] == files[0]);
        assert(files.remove(i).len() > 0);
    }
}

/// Computes the download plan; agrees with `spec_plan` exactly.
pub fn plan_downloads(files: &Vec<PackFile>) -> (r: Result<Vec<FileTask>, InstallError>)
    ensures
        match r {
            Ok(v) => spec_plan(files@) matches Ok(ts) && v.deep_view() == ts,
            Err(e) => spec_plan(files@) == Err::<Seq<SpecTask>, InstallError>(e),
        },
{
    let ghost all = files@;
    let n = files.len();
    let mut out: Vec<FileTask> = Vec::new();
    let mut i: usize = 0;
    proof {
        assert(all.skip(0) =~= all);
        if spec_plan(all) is Ok {
            assert(out.deep_view() + spec_plan(all).unwrap() =~= spec_plan(all).unwrap());
        }
    }
    while i < n
        invariant
            n == files@.len(),
            files@ == all,
            0 <= i <= n,
            match spec_plan(all.skip(i as int)) {
                Ok(ts) => spec_plan(all) matches Ok(full) && full == out.deep_view() + ts,
                Err(e) => spec_plan(all) == Err::<Seq<SpecTask>, InstallError>(e),
            },
        decreases n - i,
    {
        proof {
            assert(all.skip(i as int)[0] == all[i as int]);
            assert(all.skip(i as int).skip(1) =~= all.skip(i as int + 1));
        }
        let f = &files[i];
        if !client_unsupported(f) {
            let path = match parse_and_sanitize_path(f.path.as_str()) {
                Some(p) => p,
                None => {
                    return Err(InstallError::Validation(ValidationError::UnsafePath));
                },
            };
            let hex = match sha512_hex(&f.hashes) {
                Some(h) => h,
                None => {
                    return Err(InstallError::Validation(ValidationError::MissingSha512));
                },
            };
            let hash = match hex_decode(hex.as_str()) {
                Some(b) => b,
                None => {
                    return Err(InstallError::Validation(ValidationError::InvalidHashHex));
                },
            };
            let urls = clone_strings(&f.downloads);
            let task = FileTask { path, hash, size: f.file_size as u64, urls };
            let ghost pre = out.deep_view();
            proof {
                assert(task.deep_view() == spec_task_of(all[i as int]).unwrap());
            }
            out.push(task);
            proof {
                assert(out.deep_view() =~= pre.push(spec_task_of(all[i as int]).unwrap()));
                if spec_plan(all.skip(i as int + 1)) is Ok {
                    let ts = spec_plan(all.skip(i as int + 1)).unwrap();
                    assert(pre + (seq![spec_task_of(all[i as int]).unwrap()] + ts) =~= out.deep_view()
                        + ts);
                }
            }
        }
        i = i + 1;
    }
    proof {
        assert(all.skip(n as int) =~= Seq::<PackFile>::empty());
        assert(out.deep_view() + Seq::<SpecTask>::empty() =~= out.deep_view());
    }
    Ok(out)
}

/// The stages of one install run, strictly sequential; `Failed` is terminal
/// and reachable from any stage.
#[derive(Clone, Copy, PartialEq, Eq, Structural, Debug)]
pub enum InstallStage {
    CleaningPrior,
    ValidatingManifest,
    Downloading,
    ExtractingOverrides,
    InstallingLoader,
    UpdatingRegistry,
    Done,
    Failed,
}

/// A stage that lies beyond manifest validation.
pub open spec fn spec_past_validation(st: InstallStage) -> bool {
    st == InstallStage::Downloading || st == InstallStage::ExtractingOverrides || st
        == InstallStage::InstallingLoader || st == InstallStage::UpdatingRegistry || st
        == InstallStage::Done
}

/// One install run. The surrounding program performs the I/O of each stage
/// and reports back; this machine decides what each stage must do, gates
/// the order of stages, and owns the written-files accumulator for the
/// run. No stage beyond `ValidatingManifest` is reachable unless the
/// manifest was accepted — in particular, no download task exists before
/// validation passed.
pub struct Installer {
    pub stage: InstallStage,
    pub tasks: Vec<FileTask>,
    pub next_task: usize,
    pub deps: Vec<(PackDependency, String)>,
    pub written: Vec<String>,
    /// The manifest this run accepted, if validation has passed.
    pub accepted: Ghost<Option<PackIndex>>,
}

impl Installer {
    /// The machine's integrity: tasks are handed out in order, and every
    /// stage past validation rests on an accepted manifest whose plan the
    /// tasks are. During `Downloading`, the written files are exactly the
    /// paths of the tasks already completed.
    pub open spec fn wf(&self) -> bool {
        &&& self.next_task <= self.tasks@.len()
        &&& (spec_past_validation(self.stage) ==> {
            &&& self.accepted@ matches Some(ix)
            &&& spec_index_valid(ix)
            &&& spec_plan(ix.files@) matches Ok(ts)
            &&& self.tasks.deep_view() == ts
        })
        &&& (self.stage == InstallStage::Downloading ==> self.written.deep_view()
            == self.tasks.deep_view().take(self.next_task as int).map_values(
            |t: SpecTask| t.path,
        ))
    }

    /// A fresh run, about to clean the prior install's files.
    pub fn new() -> (r: Self)
        ensures
            r.wf(),
            r.stage == InstallStage::CleaningPrior,
            r.written.deep_view() == Seq::<Seq<char>>::empty(),
            r.tasks@.len() == 0,
            r.next_task == 0,
    {
        let r = Installer {
            stage: InstallStage::CleaningPrior,
            tasks: Vec::new(),
            next_task: 0,
            deps: Vec::new(),
            written: Vec::new(),
            accepted: Ghost(None),
        };
        proof {
            assert(r.written.deep_view() =~= Seq::<Seq<char>>::empty());
        }
        r
    }

    /// Prior-install cleanup has finished. Cleanup is best-effort: this
    /// takes no result, so a failed deletion can never abort the run.
    pub fn cleanup_done(&mut self)
        requires
            old(self).wf(),
            old(self).stage == InstallStage::CleaningPrior,
        ensures
            final(self).wf(),
            final(self).stage == InstallStage::ValidatingManifest,
            final(self).written == old(self).written,
            final(self).tasks == old(self).tasks,
            final(self).next_task == old(self).next_task,
    {
        self.stage = InstallStage::ValidatingManifest;
    }

    /// Validates the manifest and plans the downloads. On success the run
    /// holds the plan and moves to `Downloading`; on any validation or
    /// planning error the run fails before any download exists.
    pub fn load_manifest(&mut self, ix: PackIndex) -> (r: Result<(), InstallError>)
        requires
            old(self).wf(),
            old(self).stage == InstallStage::ValidatingManifest,
            old(self).written.deep_view() == Seq::<Seq<char>>::empty(),
        ensures
            final(self).wf(),
            final(self).written == old(self).written,
            match r {
                Ok(_) => {
                    &&& spec_index_valid(ix)
                    &&& spec_plan(ix.files@) matches Ok(ts)
                    &&& final(self).tasks.deep_view() == ts
                    &&& final(self).stage == InstallStage::Downloading
                    &&& final(self).next_task == 0
                    &&& final(self).deps == ix.dependencies
                    &&& final(self).accepted@ == Some(ix)
                },
                Err(e) => final(self).stage == InstallStage::Failed && ({
                    ||| (ix.format_version != 1 && e == InstallError::Manifest(
                        ManifestError::UnsupportedFormatVersion,
                    ))
                    ||| (ix.format_version == 1 && ix.game@ != "minecraft"@ && e
                        == InstallError::Manifest(ManifestError::UnsupportedGame))
                    ||| (spec_index_valid(ix) && spec_plan(ix.files@) == Err::<
                        Seq<SpecTask>,
                        InstallError,
                    >(e))
                }),
            },
    {
        let ghost gix = ix;
        match validate_index(&ix) {
            Ok(_) => {},
            Err(e) => {
                self.stage = InstallStage::Failed;
                return Err(e);
            },
        }
        match plan_downloads(&ix.files) {
            Ok(tasks) => {
                self.tasks = tasks;
                self.next_task = 0;
                self.deps = ix.dependencies;
                self.stage = InstallStage::Downloading;
                self.accepted = Ghost(Some(gix));
                proof {
                    assert(self.tasks.deep_view().take(0).map_values(|t: SpecTask| t.path)
                        =~= Seq::<Seq<char>>::empty());
                }
                Ok(())
            },
            Err(e) => {
                self.stage = InstallStage::Failed;
                Err(e)
            },
        }
    }

    /// The next pending download task, if any remain.
    pub fn pending_task(&self) -> (r: Option<&FileTask>)
        requires
            self.wf(),
        ensures
            match r {
                Some(t) => self.next_task < self.tasks@.len() && *t == self.tasks@[self.next_task as int],
                None => self.next_task == self.tasks@.len(),
            },
    {
        if self.next_task < self.tasks.len() {
            Some(&self.tasks[self.next_task])
        } else {
            None
        }
    }

    /// Records that the pending task's file was downloaded, verified and
    /// written at its path; its path joins the written-files accumulator.
    pub fn download_done(&mut self)
        requires
            old(self).wf(),
            old(self).stage == InstallStage::Downloading,
            old(self).next_task < old(self).tasks@.len(),
        ensures
            final(self).wf(),
            final(self).stage == InstallStage::Downloading,
            final(self).tasks == old(self).tasks,
            final(self).deps == old(self).deps,
            final(self).accepted == old(self).accepted,
            final(self).next_task == old(self).next_task + 1,
            final(self).written.deep_view() == old(self).written.deep_view().push(
                old(self).tasks.deep_view()[old(self).next_task as int].path,
            ),
    {
        let ghost pre = self.written.deep_view();
        let task_count = self.tasks.len();
        proof {
            assert(self.next_task < task_count);
        }
        let path = self.tasks[self.next_task].path.clone();
        self.written.push(path);
        self.next_task = self.next_task + 1;
        proof {
            assert(self.written.deep_view() =~= pre.push(
                self.tasks.deep_view()[self.next_task as int - 1].path,
            ));
            assert(self.tasks.deep_view().take(self.next_task as int).map_values(
                |t: SpecTask| t.path,
            ) =~= self.tasks.deep_view().take(self.next_task as int - 1).map_values(
                |t: SpecTask| t.path,
            ).push(self.tasks.deep_view()[self.next_task as int - 1].path));
        }
    }

    /// Every planned file is downloaded; the run moves to extracting the
    /// archive's overrides.
    pub fn downloads_finished(&mut self)
        requires
            old(self).wf(),
            old(self).stage == InstallStage::Downloading,
            old(self).next_task == old(self).tasks@.len(),
        ensures
            final(self).wf(),
            final(self).stage == InstallStage::ExtractingOverrides,
            final(self).written == old(self).written,
            final(self).tasks == old(self).tasks,
            final(self).deps == old(self).deps,
            final(self).accepted == old(self).accepted,
    {
        self.stage = InstallStage::ExtractingOverrides;
    }

    /// Records the override files the extraction stage wrote; their paths
    /// join the written-files accumulator, and the run moves on to the
    /// loader stage.
    pub fn overrides_done(&mut self, paths: &Vec<String>)
        requires
            old(self).wf(),
            old(self).stage == InstallStage::ExtractingOverrides,
        ensures
            final(self).wf(),
            final(self).stage == InstallStage::InstallingLoader,
            final(self).written.deep_view() == old(self).written.deep_view() + paths.deep_view(),
            final(self).tasks == old(self).tasks,
            final(self).deps == old(self).deps,
            final(self).accepted == old(self).accepted,
    {
        let ghost pre = self.written.deep_view();
        let ghost snap = *self;
        let n = paths.len();
        let mut i: usize = 0;
        proof {
            assert(pre + paths.deep_view().take(0) =~= pre);
        }
        while i < n
            invariant
                n == paths@.len(),
                0 <= i <= n,
                self.written.deep_view() == pre + paths.deep_view().take(i as int),
                self.stage == snap.stage,
                self.tasks == snap.tasks,
                self.next_task == snap.next_task,
                self.deps == snap.deps,
                self.accepted == snap.accepted,
            decreases n - i,
        {
            let ghost mid = self.written.deep_view();
            self.written.push(paths[i].clone());
            proof {
                assert(self.written.deep_view() =~= mid.push(paths.deep_view()[i as int]));
                assert(paths.deep_view().take(i as int + 1) =~= paths.deep_view().take(
                    i as int,
                ).push(paths.deep_view()[i as int]));
                assert(pre + paths.deep_view().take(i as int).push(paths.deep_view()[i as int])
                    =~= (pre + paths.deep_view().take(i as int)).push(
                    paths.deep_view()[i as int],
                ));
            }
            i = i + 1;
        }
        proof {
            assert(paths.deep_view().take(n as int) =~= paths.deep_view());
        }
        self.stage = InstallStage::InstallingLoader;
    }

    /// The loader stage is complete (a loader profile installed, or none
    /// needed); the run moves to the registry update.
    pub fn loader_done(&mut self)
        requires
            old(self).wf(),
            old(self).stage == InstallStage::InstallingLoader,
        ensures
            final(self).wf(),
            final(self).stage == InstallStage::UpdatingRegistry,
            final(self).written == old(self).written,
            final(self).deps == old(self).deps,
    {
        self.stage = InstallStage::UpdatingRegistry;
    }

    /// Ends the run successfully and yields the complete written-files
    /// list — the content of the install metadata persisted for the next
    /// run's cleanup. Only a run that reached the registry stage can end
    /// here; metadata is never produced for a failed run.
    pub fn finish(&mut self) -> (r: Vec<String>)
        requires
            old(self).wf(),
            old(self).stage == InstallStage::UpdatingRegistry,
        ensures
            final(self).wf(),
            final(self).stage == InstallStage::Done,
            r.deep_view() == old(self).written.deep_view(),
            final(self).written == old(self).written,
    {
        self.stage = InstallStage::Done;
        clone_strings(&self.written)
    }

    /// Aborts the run; any stage can fail. The written-files accumulator
    /// stays as it was, but is never persisted: a failed run leaves the
    /// registry and metadata untouched.
    pub fn fail(&mut self)
        requires
            old(self).wf(),
        ensures
            final(self).wf(),
            final(self).stage == InstallStage::Failed,
            final(self).written == old(self).written,
    {
        self.stage = InstallStage::Failed;
    }
}

/// An unsupported manifest never reaches the network: a well-formed run
/// that is downloading — the first stage that touches a mirror — rests on
/// an accepted manifest with format version 1 and game `minecraft`, and its
/// tasks are exactly that manifest's plan.
pub proof fn lemma_downloading_requires_valid_manifest(inst: Installer)
    requires
        inst.wf(),
        inst.stage == InstallStage::Downloading,
    ensures
        inst.accepted@ matches Some(ix) && spec_index_valid(ix) && spec_plan(ix.files@) == Ok::<
            Seq<SpecTask>,
            InstallError,
        >(inst.tasks.deep_view()),
{
}

/// The destination's file set after one successful install run that
/// deleted the prior run's tracked files and wrote its own.
pub open spec fn spec_disk_after_install(
    disk: Set<Seq<char>>,
    prior: Set<Seq<char>>,
    written: Set<Seq<char>>,
) -> Set<Seq<char>> {
    disk.difference(prior).union(written)
}

/// Re-running an install with identical inputs is idempotent: the second
/// run deletes exactly what the first run's metadata tracked and writes
/// the same set again, so the destination's file set does not change.
pub proof fn lemma_reinstall_idempotent(
    disk: Set<Seq<char>>,
    prior: Set<Seq<char>>,
    written: Set<Seq<char>>,
)
    ensures
        spec_disk_after_install(spec_disk_after_install(disk, prior, written), written, written)
            == spec_disk_after_install(disk, prior, written),
{
    assert(spec_disk_after_install(
        spec_disk_after_install(disk, prior, written),
        written,
        written,
    ) =~= spec_disk_after_install(disk, prior, written));
}

/// A prior install's tracked file that the new install does not write is
/// gone once the new install is done.
pub proof fn lemma_stale_file_removed(
    disk: Set<Seq<char>>,
    prior: Set<Seq<char>>,
    written: Set<Seq<char>>,
    f: Seq<char>,
)
    requires
        prior.contains(f),
        !written.contains(f),
    ensures
        !spec_disk_after_install(disk, prior, written).contains(f),
{
}

} // verus!
