//! The capture job: the unit of work for one dispatched source. It is
//! created with everything derived up front — session identifier, output
//! area, output path, marker path — runs the external capture, and ends
//! by releasing its lock marker whatever the capture's outcome.

use vstd::prelude::*;
use crate::locks::LockSet;
use crate::session::extract_stream_id;
use crate::session::stream_id_spec;

verus! {

/// The path of the advisory lock marker for `id`: `<dir>/<id>.lock`.
pub open spec fn lock_marker_path(dir: Seq<char>, id: Seq<char>) -> Seq<char> {
    dir + seq!['/'] + id + seq!['.', 'l', 'o', 'c', 'k']
}

/// The per-source output area for `id`: `<videos>/<id>`.
pub open spec fn output_dir_spec(videos: Seq<char>, id: Seq<char>) -> Seq<char> {
    videos + seq!['/'] + id
}

/// The output artifact path: `<videos>/<id>/<id>_<ts>.mkv`.
pub open spec fn output_path_spec(videos: Seq<char>, id: Seq<char>, ts: Seq<char>) -> Seq<char> {
    output_dir_spec(videos, id) + seq!['/'] + id + seq!['_'] + ts + seq!['.', 'm', 'k', 'v']
}

/// Builds the lock marker path `<dir>/<id>.lock`.
pub fn lock_marker_file(dir: &str, id: &str) -> (r: String)
    ensures
        r@ == lock_marker_path(dir@, id@),
{
    let mut out = dir.to_owned();
    out.append("/");
    out.append(id);
    out.append(".lock");
    proof {
        reveal_strlit("/");
        reveal_strlit(".lock");
        assert(out@ =~= lock_marker_path(dir@, id@));
    }
    out
}

/// One capture's worth of derived data: what the executor invocation and
/// the marker lifecycle need.
pub struct CaptureJob {
    /// The source this job captures.
    pub source_id: String,
    /// The live address handed to the capture executor.
    pub address: String,
    /// Diagnostic name derived from the address.
    pub session_id: String,
    /// The per-source output area, created before the executor runs.
    pub output_dir: String,
    /// The artifact the executor writes.
    pub output_path: String,
}

impl CaptureJob {
    /// Derives the job for one dispatched source: the session identifier
    /// from the address, and the timestamped output location.
    pub fn prepare(id: &str, address: &str, videos_dir: &str, timestamp: &str) -> (job: CaptureJob)
        ensures
            job.source_id@ == id@,
            job.address@ == address@,
            job.session_id@ == stream_id_spec(address@),
            job.output_dir@ == output_dir_spec(videos_dir@, id@),
            job.output_path@ == output_path_spec(videos_dir@, id@, timestamp@),
    {
        let session_id = extract_stream_id(address);
        let mut dir = videos_dir.to_owned();
        dir.append("/");
        dir.append(id);
        let mut path = dir.clone();
        path.append("/");
        path.append(id);
        path.append("_");
        path.append(timestamp);
        path.append(".mkv");
        proof {
            reveal_strlit("/");
            reveal_strlit("_");
            reveal_strlit(".mkv");
            assert(dir@ =~= output_dir_spec(videos_dir@, id@));
            assert(path@ =~= output_path_spec(videos_dir@, id@, timestamp@));
        }
        CaptureJob {
            source_id: id.to_owned(),
            address: address.to_owned(),
            session_id,
            output_dir: dir,
            output_path: path,
        }
    }

    /// The job's final step, owed whatever the capture's outcome: the
    /// marker for this source is released, so the source is eligible
    /// again on the next cycle.
    pub fn finish(&self, locks: &mut LockSet, capture_succeeded: bool)
        requires
            old(locks).wf(),
        ensures
            final(locks).wf(),
            final(locks)@ == old(locks)@.remove(self.source_id@),
            !final(locks)@.contains(self.source_id@),
    {
        let _ = capture_succeeded;
        locks.release(&self.source_id);
    }
}

} // verus!
