//! The decisions of the registration and chunk-ingest loops, over the
//! registry: what one registration request or one delivered chunk does, and
//! which control messages to emit for it.
//!
//! The caller owns the sockets: it receives a request or a chunk, performs
//! the one disk append the transfer asks for ([`crate::transfer::File::commit_run`]),
//! calls in here, then sends the control messages these functions hand back.

use vstd::prelude::*;
use crate::error::Error;
use crate::msg::ControlMsg;
use crate::registry::{has_path, Registry};
use crate::transfer::{spec_write, File, FileOpts, MAX_ATTEMPTS};

verus! {

/// What one delivered chunk did to its transfer.
#[derive(Clone, Copy, Debug, PartialEq, Eq, Structural)]
pub enum IngestStep {
    /// No transfer is registered for the path: the delivery is ignored, and
    /// no slot is released (none was granted through this registry).
    Ignored,
    /// The chunk was taken; the transfer stays registered, more chunks are
    /// missing.
    Progress,
    /// The chunk was taken and every chunk is now committed: the transfer
    /// has left the registry and is handed back for installation.
    ReadyToInstall,
    /// The flush failed inside the retry budget: the transfer stays
    /// registered and this same index must be re-requested.
    Retry,
    /// The flush failed with the budget already spent: the transfer is
    /// purged.
    Exhausted,
}

/// Apply one delivered chunk to the registry. `io_ok` reports the staging
/// append's outcome, as for [`File::write`]. A finished transfer is removed
/// and returned for installation; a transfer whose retry budget was already
/// exhausted when this failure came is purged.
pub fn ingest_chunk(
    reg: &mut Registry,
    path: &String,
    index: u64,
    chunk: Vec<u8>,
    io_ok: bool,
) -> (r: (IngestStep, Option<File>))
    requires
        old(reg).wf(),
    ensures
        final(reg).wf(),
        !has_path(old(reg)@, path@) ==> r.0 == IngestStep::Ignored && r.1 is None
            && final(reg)@ == old(reg)@,
        has_path(old(reg)@, path@) ==> exists|i: int|
            {
                &&& 0 <= i < old(reg)@.len()
                &&& (#[trigger] old(reg)@[i])@.path == path@
                &&& ({
                    let m1 = spec_write(old(reg)@[i]@, index as nat, chunk@, io_ok);
                    if io_ok {
                        if m1.committed == m1.total {
                            &&& r.0 == IngestStep::ReadyToInstall
                            &&& r.1 matches Some(f) && f@ == m1
                            &&& final(reg)@ == old(reg)@.remove(i)
                        } else {
                            &&& r.0 == IngestStep::Progress
                            &&& r.1 is None
                            &&& exists|f: File| f@ == m1 && #[trigger] final(reg)@ == old(
                                reg)@.remove(i).push(f)
                        }
                    } else {
                        if old(reg)@[i]@.failed < MAX_ATTEMPTS as nat {
                            &&& r.0 == IngestStep::Retry
                            &&& r.1 is None
                            &&& exists|f: File| f@ == m1 && #[trigger] final(reg)@ == old(
                                reg)@.remove(i).push(f)
                        } else {
                            &&& r.0 == IngestStep::Exhausted
                            &&& r.1 is None
                            &&& final(reg)@ == old(reg)@.remove(i)
                        }
                    }
                })
            },
{
    let taken = reg.take(path);
    match taken {
        None => (IngestStep::Ignored, None),
        Some(mut file) => {
            let could_retry = file.can_retry();
            let write_result = file.write(index, chunk, io_ok);
            match write_result {
                Ok(()) => {
                    if file.is_finished() {
                        (IngestStep::ReadyToInstall, Some(file))
                    } else {
                        let put_back = reg.insert(file);
                        proof {
                            assert(put_back is Ok);
                        }
                        (IngestStep::Progress, None)
                    }
                },
                Err(_) => {
                    if could_retry {
                        let put_back = reg.insert(file);
                        proof {
                            assert(put_back is Ok);
                        }
                        (IngestStep::Retry, None)
                    } else {
                        (IngestStep::Exhausted, None)
                    }
                },
            }
        },
    }
}

/// The control messages the ingest loop owes the flow-control loop for one
/// delivery: a `READY` for every chunk a registered transfer consumed (the
/// slot its request held is free again), preceded by what the outcome calls
/// for — a re-request of the failed index, or the transfer's terminal
/// notice. For a finished transfer the install's verdict decides between
/// `DONE` and `ERR`; the caller hands it in.
pub fn ingest_notices(
    step: IngestStep,
    path: &String,
    index: u64,
    install: Option<Result<(), Error>>,
) -> (r: Vec<ControlMsg>)
    requires
        (step == IngestStep::ReadyToInstall) <==> install is Some,
    ensures
        match step {
            IngestStep::Ignored => r@.len() == 0,
            IngestStep::Progress => r@.len() == 1 && r@[0] is Ready,
            IngestStep::ReadyToInstall => r@.len() == 2 && r@[1] is Ready && match install
                .unwrap() {
                Ok(()) => r@[0] matches ControlMsg::Done { path: p } && p@ == path@,
                Err(e) => r@[0] matches ControlMsg::Fail { path: p, reason } && p@ == path@
                    && reason@ == e.spec_description(),
            },
            IngestStep::Retry => r@.len() == 2 && (r@[0] matches ControlMsg::Queue {
                path: p,
                index: x,
            } && p@ == path@ && x == index) && r@[1] is Ready,
            IngestStep::Exhausted => r@.len() == 2 && (r@[0] matches ControlMsg::Fail {
                path: p,
                reason,
            } && p@ == path@ && reason@ == Error::Io.spec_description()) && r@[1] is Ready,
        },
{
    let mut notices: Vec<ControlMsg> = Vec::new();
    match step {
        IngestStep::Ignored => {
            return notices;
        },
        IngestStep::Progress => {},
        IngestStep::ReadyToInstall => {
            match install {
                Some(Ok(())) => notices.push(ControlMsg::Done { path: path.clone() }),
                Some(Err(e)) => notices.push(ControlMsg::Fail {
                    path: path.clone(),
                    reason: e.description().to_owned(),
                }),
                None => {
                    proof {
                        assert(false);
                    }
                },
            }
        },
        IngestStep::Retry => {
            notices.push(ControlMsg::Queue { path: path.clone(), index });
        },
        IngestStep::Exhausted => {
            notices.push(ControlMsg::Fail {
                path: path.clone(),
                reason: Error::Io.description().to_owned(),
            });
        },
    }
    notices.push(ControlMsg::Ready);
    notices
}

/// Admit a new transfer into the registry. The caller has parsed the
/// request and probed the disk (see [`File::new`]); a path already
/// mid-transfer is rejected as [`Error::DuplicateTransfer`].
pub fn register_transfer(
    reg: &mut Registry,
    path: &str,
    hash: u64,
    size: u64,
    total_chunks: u64,
    options: Vec<FileOpts>,
    path_is_dir: bool,
    dest_exists: bool,
    upload_path: String,
) -> (r: Result<(), Error>)
    requires
        old(reg).wf(),
    ensures
        final(reg).wf(),
        match r {
            Ok(()) => !path_is_dir && !has_path(old(reg)@, path@) && exists|f: File|
                {
                    &&& #[trigger] final(reg)@ == old(reg)@.push(f)
                    &&& f@.path == path@
                    &&& f@.upload_path == upload_path@
                    &&& f@.exists == dest_exists
                    &&& f@.origin_hash == hash
                    &&& f@.size == size as nat
                    &&& f@.total == total_chunks as nat
                    &&& f@.staged == Seq::<u8>::empty()
                    &&& f@.committed == 0
                    &&& f@.failed == 0
                },
            Err(e) => final(reg)@ == old(reg)@ && (e == Error::FileIsDirectory <==> path_is_dir)
                && (e == Error::FileIsDirectory || (e == Error::DuplicateTransfer && has_path(
                old(reg)@, path@))),
        },
{
    let file = match File::new(
        path,
        hash,
        size,
        total_chunks,
        options,
        path_is_dir,
        dest_exists,
        upload_path,
    ) {
        Ok(f) => f,
        Err(e) => {
            return Err(e);
        },
    };
    reg.insert(file)
}

/// The backlog a fresh transfer owes the flow-control loop: one `QUEUE` per
/// chunk, in index order.
pub fn seed_notices(path: &String, total_chunks: u64) -> (r: Vec<ControlMsg>)
    ensures
        r@.len() == total_chunks,
        forall|i: int| 0 <= i < total_chunks ==> (#[trigger] r@[i] matches ControlMsg::Queue {
            path: p,
            index: x,
        } && p@ == path@ && x == i),
{
    let mut notices: Vec<ControlMsg> = Vec::new();
    let mut x: u64 = 0;
    while x < total_chunks
        invariant
            x <= total_chunks,
            notices@.len() == x,
            forall|i: int| 0 <= i < x ==> (#[trigger] notices@[i] matches ControlMsg::Queue {
                path: p,
                index: n,
            } && p@ == path@ && n == i),
        decreases total_chunks - x,
    {
        notices.push(ControlMsg::Queue { path: path.clone(), index: x });
        x = x + 1;
    }
    notices
}

} // verus!
