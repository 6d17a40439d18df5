//! The coordinator of one export job: it fans one partition task out per
//! session, holds the barrier until every session finished, and then drives
//! the post-processing chain — consolidate, optionally compress, optionally
//! upload, delete local artifacts only on confirmed success. Every
//! decision of the chain is here; the driver only performs the I/O each
//! phase asks for and reports what happened.

use vstd::prelude::*;

use crate::errors::ExportError;
use crate::names::{
    combined_name, compressed_name, spec_combined_name, spec_compressed_name,
    spec_is_shard_candidate, is_shard_candidate, spec_shard_name,
};

use crate::session::PartitionTask;

verus! {

#[derive(Clone, Copy, Debug, PartialEq, Eq, Structural)]
pub enum Destination {
    Disk,
    Remote,
}

/// One export job: which collection, how many concurrent partitions, where
/// the artifact goes, and whether it is compressed first. Immutable for the
/// job's lifetime.
pub struct ExportJob {
    pub collection: Vec<u8>,
    pub partitions: u64,
    pub destination: Destination,
    pub compress: bool,
}

#[derive(Clone, Copy, Debug, PartialEq, Eq, Structural)]
pub enum JobPhase {
    /// Sessions are running; the barrier is not passed yet.
    Scrolling,
    /// Every session finished; consolidation is owed, even after failures.
    Consolidating,
    /// Consolidation succeeded and the job asks for compression.
    Compressing,
    /// The artifact is ready and nonempty; the put call is owed.
    Uploading,
    /// The put call was confirmed; the local artifacts are owed deletion.
    Deleting,
    /// Terminal.
    Finished,
}

/// The aggregate result of a job: how many partitions succeeded and failed,
/// the first fatal stage error if any, and whether the artifact was
/// delivered. Full success, partial success and total failure are all
/// distinguishable.
pub struct ExportReport {
    pub partitions_ok: u64,
    pub partitions_failed: u64,
    /// The first failed partition's error, when any partition failed.
    pub partition_error: Option<ExportError>,
    pub error: Option<ExportError>,
    pub uploaded: bool,
}

impl ExportReport {
    /// The job counts as a success only when every partition succeeded and
    /// every post-processing stage did.
    pub open spec fn is_full_success(&self) -> bool {
        self.partitions_failed == 0 && self.error is None
    }
}

pub struct Coordinator {
    pub job: ExportJob,
    pub phase: JobPhase,
    pub sessions_ok: u64,
    pub sessions_failed: u64,
    /// The first failed partition's error, kept for the report.
    pub partition_error: Option<ExportError>,
    /// The byte length of the artifact owed upload; meaningful in Uploading.
    pub artifact_len: u64,
    pub error: Option<ExportError>,
    pub uploaded: bool,
}

impl Coordinator {
    /// The upload gate is part of well-formedness: the put call is owed
    /// only for a remote destination and a nonempty artifact.
    pub open spec fn wf(&self) -> bool {
        &&& self.phase is Uploading ==> self.artifact_len > 0 && self.job.destination is Remote
        &&& self.sessions_ok + self.sessions_failed <= self.job.partitions
        &&& !(self.phase is Scrolling) ==> self.sessions_ok + self.sessions_failed
            == self.job.partitions
        &&& self.uploaded ==> self.phase is Deleting || self.phase is Finished
    }

    pub fn new(job: ExportJob) -> (c: Coordinator)
        ensures
            c.wf(),
            c.phase is Scrolling,
            c.job == job,
            c.sessions_ok == 0,
            c.sessions_failed == 0,
            c.partition_error is None,
            c.error is None,
            !c.uploaded,
    {
        Coordinator {
            job,
            phase: JobPhase::Scrolling,
            sessions_ok: 0,
            sessions_failed: 0,
            partition_error: None,
            artifact_len: 0,
            error: None,
            uploaded: false,
        }
    }

    /// One partition task per index in [0, N): every session of the job is
    /// asked for the same total partition count N, the number of sessions
    /// launched.
    pub fn partition_tasks(&self) -> (r: Vec<PartitionTask>)
        requires
            self.job.partitions <= usize::MAX,
        ensures
            r@.len() == self.job.partitions,
            forall|i: int|
                0 <= i < r@.len() ==> (#[trigger] r@[i]).slice_id == i && r@[i].max_slices
                    == self.job.partitions,
    {
        let n = self.job.partitions;
        let mut out: Vec<PartitionTask> = Vec::new();
        let mut i: u64 = 0;
        while i < n
            invariant
                0 <= i <= n,
                out@.len() == i,
                forall|k: int|
                    0 <= k < i ==> (#[trigger] out@[k]).slice_id == k && out@[k].max_slices == n,
            decreases n - i,
        {
            out.push(PartitionTask { slice_id: i, max_slices: n });
            i += 1;
        }
        out
    }

    /// Records one finished session: `None` for success, or the failed
    /// partition's error. A failed partition never cancels its siblings; it
    /// is counted, and the first failure's kind is kept for the report.
    pub fn record_session(&mut self, outcome: Option<ExportError>)
        requires
            old(self).wf(),
            old(self).phase is Scrolling,
            old(self).sessions_ok + old(self).sessions_failed < old(self).job.partitions,
        ensures
            final(self).wf(),
            final(self).phase is Scrolling,
            final(self).job == old(self).job,
            outcome is None ==> final(self).sessions_ok == old(self).sessions_ok + 1
                && final(self).sessions_failed == old(self).sessions_failed
                && final(self).partition_error == old(self).partition_error,
            outcome is Some ==> final(self).sessions_failed == old(self).sessions_failed + 1
                && final(self).sessions_ok == old(self).sessions_ok,
            outcome is Some && old(self).partition_error is None ==> final(self).partition_error
                == outcome,
            outcome is Some && old(self).partition_error is Some ==> final(self).partition_error
                == old(self).partition_error,
            final(self).error == old(self).error,
            final(self).uploaded == old(self).uploaded,
    {
        match outcome {
            None => {
                self.sessions_ok = self.sessions_ok + 1;
            },
            Some(e) => {
                self.sessions_failed = self.sessions_failed + 1;
                if self.partition_error.is_none() {
                    self.partition_error = Some(e);
                }
            },
        }
    }

    /// Passes the barrier: every session has finished, so consolidation is
    /// owed — unconditionally, even when partitions failed, which yields a
    /// documented incomplete export rather than none.
    pub fn sessions_done(&mut self)
        requires
            old(self).wf(),
            old(self).phase is Scrolling,
            old(self).sessions_ok + old(self).sessions_failed == old(self).job.partitions,
        ensures
            final(self).wf(),
            final(self).phase is Consolidating,
            final(self).job == old(self).job,
            final(self).sessions_ok == old(self).sessions_ok,
            final(self).sessions_failed == old(self).sessions_failed,
            final(self).partition_error == old(self).partition_error,
            final(self).error == old(self).error,
            final(self).uploaded == old(self).uploaded,
    {
        self.phase = JobPhase::Consolidating;
    }

    /// Takes the consolidation's outcome. A local-storage failure is fatal:
    /// the artifact cannot be trusted. On success the chain goes on to
    /// compression when asked, else to upload for a remote destination with
    /// a nonempty artifact, else it finishes.
    pub fn on_consolidated(&mut self, ok: bool, artifact_len: u64)
        requires
            old(self).wf(),
            old(self).phase is Consolidating,
        ensures
            final(self).wf(),
            final(self).job == old(self).job,
            final(self).sessions_ok == old(self).sessions_ok,
            final(self).sessions_failed == old(self).sessions_failed,
            final(self).partition_error == old(self).partition_error,
            ok ==> final(self).error == old(self).error && final(self).uploaded == old(
                self,
            ).uploaded,
            !ok ==> final(self).phase is Finished && final(self).error == Some(
                ExportError::LocalStorage,
            ),
            ok && old(self).job.compress ==> final(self).phase is Compressing,
            ok && !old(self).job.compress && old(self).job.destination is Remote && artifact_len
                > 0 ==> final(self).phase is Uploading && final(self).artifact_len == artifact_len,
            ok && !old(self).job.compress && old(self).job.destination is Remote && artifact_len
                == 0 ==> final(self).phase is Finished && final(self).error == old(self).error,
            ok && !old(self).job.compress && old(self).job.destination is Disk ==> final(self).phase is Finished && final(self).error == old(self).error,
    {
        if !ok {
            self.error = Some(ExportError::LocalStorage);
            self.phase = JobPhase::Finished;
        } else if self.job.compress {
            self.phase = JobPhase::Compressing;
        } else {
            match self.job.destination {
                Destination::Remote => {
                    if artifact_len > 0 {
                        self.artifact_len = artifact_len;
                        self.phase = JobPhase::Uploading;
                    } else {
                        self.phase = JobPhase::Finished;
                    }
                },
                Destination::Disk => {
                    self.phase = JobPhase::Finished;
                },
            }
        }
    }

    /// Takes the compression's outcome, with the compressed artifact's
    /// length. The rules mirror consolidation: failure is fatal, a disk
    /// destination finishes, a remote one uploads only a nonempty artifact.
    pub fn on_compressed(&mut self, ok: bool, artifact_len: u64)
        requires
            old(self).wf(),
            old(self).phase is Compressing,
        ensures
            final(self).wf(),
            final(self).job == old(self).job,
            final(self).sessions_ok == old(self).sessions_ok,
            final(self).sessions_failed == old(self).sessions_failed,
            final(self).partition_error == old(self).partition_error,
            ok ==> final(self).error == old(self).error && final(self).uploaded == old(
                self,
            ).uploaded,
            !ok ==> final(self).phase is Finished && final(self).error == Some(
                ExportError::LocalStorage,
            ),
            ok && old(self).job.destination is Remote && artifact_len > 0 ==> final(self).phase is Uploading && final(self).artifact_len == artifact_len,
            ok && old(self).job.destination is Remote && artifact_len == 0 ==> final(self).phase is Finished && final(self).error == old(self).error,
            ok && old(self).job.destination is Disk ==> final(self).phase is Finished && final(self).error == old(self).error,
    {
        if !ok {
            self.error = Some(ExportError::LocalStorage);
            self.phase = JobPhase::Finished;
        } else {
            match self.job.destination {
                Destination::Remote => {
                    if artifact_len > 0 {
                        self.artifact_len = artifact_len;
                        self.phase = JobPhase::Uploading;
                    } else {
                        self.phase = JobPhase::Finished;
                    }
                },
                Destination::Disk => {
                    self.phase = JobPhase::Finished;
                },
            }
        }
    }

    /// The object key the put call uses: the compressed artifact's name
    /// when the job compresses, else the combined artifact's name.
    pub fn upload_key(&self) -> (r: Vec<u8>)
        requires
            self.phase is Uploading,
        ensures
            self.job.compress ==> r@ == spec_compressed_name(self.job.collection@),
            !self.job.compress ==> r@ == spec_combined_name(self.job.collection@),
    {
        if self.job.compress {
            compressed_name(&self.job.collection)
        } else {
            combined_name(&self.job.collection)
        }
    }

    /// Takes the put call's status code. Exactly 200 confirms delivery and
    /// makes deletion of the local artifacts owed; any other status is a
    /// remote-storage error surfaced in the report, and no deletion phase
    /// is ever entered, so the local artifacts stay for a manual retry.
    pub fn on_upload_status(&mut self, status: u16)
        requires
            old(self).wf(),
            old(self).phase is Uploading,
        ensures
            final(self).wf(),
            final(self).job == old(self).job,
            final(self).sessions_ok == old(self).sessions_ok,
            final(self).sessions_failed == old(self).sessions_failed,
            final(self).partition_error == old(self).partition_error,
            status == 200 ==> final(self).phase is Deleting && final(self).uploaded && final(self).error == old(self).error,
            status != 200 ==> final(self).phase is Finished && !final(self).uploaded && final(self).error == Some(ExportError::RemoteStatus(status)),
    {
        if status == 200 {
            self.uploaded = true;
            self.phase = JobPhase::Deleting;
        } else {
            self.error = Some(ExportError::RemoteStatus(status));
            self.phase = JobPhase::Finished;
        }
    }

    /// The local artifacts owed deletion after a confirmed upload: the
    /// combined file always, and the compressed file too when the job
    /// compressed.
    pub fn files_to_delete(&self) -> (r: Vec<Vec<u8>>)
        requires
            self.phase is Deleting,
        ensures
            self.job.compress ==> r@.len() == 2 && r@[0]@ == spec_compressed_name(
                self.job.collection@,
            ) && r@[1]@ == spec_combined_name(self.job.collection@),
            !self.job.compress ==> r@.len() == 1 && r@[0]@ == spec_combined_name(
                self.job.collection@,
            ),
    {
        let mut out: Vec<Vec<u8>> = Vec::new();
        if self.job.compress {
            out.push(compressed_name(&self.job.collection));
        }
        out.push(combined_name(&self.job.collection));
        out
    }

    pub fn on_deleted(&mut self)
        requires
            old(self).wf(),
            old(self).phase is Deleting,
        ensures
            final(self).wf(),
            final(self).phase is Finished,
            final(self).job == old(self).job,
            final(self).sessions_ok == old(self).sessions_ok,
            final(self).sessions_failed == old(self).sessions_failed,
            final(self).partition_error == old(self).partition_error,
            final(self).error == old(self).error,
            final(self).uploaded == old(self).uploaded,
    {
        self.phase = JobPhase::Finished;
    }

    /// The aggregate result: full success exactly when no partition failed
    /// and no stage error was recorded.
    pub fn report(&self) -> (r: ExportReport)
        requires
            self.phase is Finished,
        ensures
            r.partitions_ok == self.sessions_ok,
            r.partitions_failed == self.sessions_failed,
            r.partition_error == self.partition_error,
            r.error == self.error,
            r.uploaded == self.uploaded,
            r.is_full_success() <==> self.sessions_failed == 0 && self.error is None,
    {
        ExportReport {
            partitions_ok: self.sessions_ok,
            partitions_failed: self.sessions_failed,
            partition_error: self.partition_error,
            error: self.error,
            uploaded: self.uploaded,
        }
    }
}

/// The upload gate, as a law of the coordinator: a well-formed coordinator
/// in its upload phase always holds a nonempty artifact — the put call is
/// never owed for an empty one.
pub proof fn lemma_upload_gated(c: Coordinator)
    requires
        c.wf(),
    ensures
        c.phase is Uploading ==> c.artifact_len > 0,
{
}

/// The consolidation's read set is its delete set: every directory entry
/// the discovery rule accepts is consumed and deleted. Every shard name is
/// such an entry, for every collection and partition index, so after a
/// successful consolidation zero shard files remain.
pub proof fn lemma_cleanup_consumes_shards(
    names: Seq<Seq<u8>>,
    c: Seq<u8>,
    plan: Seq<Seq<u8>>,
    n: nat,
)
    requires
        forall|k: int|
            0 <= k < names.len() && spec_is_shard_candidate(#[trigger] names[k], c) ==>
                plan.contains(names[k]),
    ensures
        forall|i: nat|
            i < n && names.contains(spec_shard_name(c, i)) ==> plan.contains(
                #[trigger] spec_shard_name(c, i),
            ),
{
    assert forall|i: nat| i < n && names.contains(spec_shard_name(c, i)) implies plan.contains(
        spec_shard_name(c, i),
    ) by {
        crate::names::lemma_shard_discovered(c, i);
        let k = choose|k: int| 0 <= k < names.len() && names[k] == spec_shard_name(c, i);
        assert(spec_is_shard_candidate(names[k], c));
    }
}

/// Idempotent cleanup, the morning after: once the driver has deleted every
/// file of the plan, a second scan of a listing without shard candidates
/// plans nothing, so a repeated consolidation reads, writes and deletes
/// nothing and leaves the combined artifact untouched.
pub proof fn lemma_second_scan_plans_nothing(names: Seq<Seq<u8>>, c: Seq<u8>, plan: Seq<Seq<u8>>)
    requires
        forall|k: int|
            0 <= k < plan.len() ==> spec_is_shard_candidate(#[trigger] plan[k], c)
                && names.contains(plan[k]),
        forall|k: int| 0 <= k < names.len() ==> !spec_is_shard_candidate(#[trigger] names[k], c),
    ensures
        plan.len() == 0,
{
    if plan.len() > 0 {
        assert(spec_is_shard_candidate(plan[0], c));
        let j = choose|j: int| 0 <= j < names.len() && names[j] == plan[0];
        assert(!spec_is_shard_candidate(names[j], c));
    }
}

/// Filters a directory listing by the discovery rule: exactly the entries
/// taken as shards of `collection`, each of which the consolidation reads
/// once and then deletes.
pub fn consolidation_plan(names: &Vec<Vec<u8>>, collection: &Vec<u8>) -> (r: Vec<Vec<u8>>)
    ensures
        forall|k: int|
            0 <= k < r@.len() ==> spec_is_shard_candidate((#[trigger] r@[k])@, collection@)
                && names.deep_view().contains(r@[k]@),
        forall|k: int|
            0 <= k < names@.len() && spec_is_shard_candidate((#[trigger] names@[k])@, collection@)
                ==> r.deep_view().contains(names@[k]@),
{
    let mut out: Vec<Vec<u8>> = Vec::new();
    let mut i: usize = 0;
    while i < names.len()
        invariant
            0 <= i <= names@.len(),
            forall|k: int|
                0 <= k < out@.len() ==> spec_is_shard_candidate(
                    (#[trigger] out@[k])@,
                    collection@,
                ) && names.deep_view().contains(out@[k]@),
            forall|k: int|
                0 <= k < i && spec_is_shard_candidate((#[trigger] names@[k])@, collection@)
                    ==> out.deep_view().contains(names@[k]@),
        decreases names@.len() - i,
    {
        let name = &names[i];
        if is_shard_candidate(name, collection) {
            let mut copy: Vec<u8> = Vec::new();
            crate::names::append_bytes(&mut copy, name);
            proof {
                assert(copy@ =~= name@);
            }
            let ghost before = out.deep_view();
            out.push(copy);
            proof {
                assert(out.deep_view() =~~= before.push(name@));
                assert(names.deep_view()[i as int] == names@[i as int]@);
                assert(names.deep_view().contains(names@[i as int]@));
                assert(forall|k: int|
                    0 <= k < before.len() ==> out.deep_view()[k] == #[trigger] before[k]);
                assert(out.deep_view()[before.len() as int] == name@);
                assert(forall|x: Seq<u8>| before.contains(x) ==> out.deep_view().contains(x));
            }
        }
        i += 1;
        proof {
            assert(forall|k: int|
                0 <= k < i && spec_is_shard_candidate((#[trigger] names@[k])@, collection@)
                    ==> out.deep_view().contains(names@[k]@));
        }
    }
    out
}

} // verus!
