//! Crash-safe atomic installation of a finished transfer.
//!
//! Installing is a short sequence of filesystem moves: verify the staged
//! content (size, then digest), displace a pre-existing destination to a
//! backup name, rename the staging file onto the destination, then either
//! drop or retain the backup; if that final rename fails, the backup is
//! renamed back (the rollback) and the error surfaces. On every exit path
//! the staging file is deleted if it is still there.
//!
//! The moves themselves are the caller's: [`begin_install`] and
//! [`InstallSession::step`] decide, handing out one [`FsAction`] at a time
//! and taking back an [`FsEvent`] with its outcome, until the session is
//! [`InstallStep::Finished`] with the install's verdict.

use vstd::prelude::*;
use crate::decimal::{dec_chars, u64_to_dec};
use crate::error::Error;
use crate::hash::{content_hash, sip_hash_of};
use crate::transfer::{File, ReplaceStrategy, StrategyModel, TransferModel};

verus! {

/// One filesystem move the caller must perform.
pub enum FsAction {
    /// Report a filename no existing file holds: `base` itself if free, else
    /// `base` followed by the smallest free counter (see [`numbered_name`]).
    Probe { base: String },
    /// Rename `from` onto `to`.
    Rename { from: String, to: String },
    /// Delete the file if it exists; a missing file counts as success.
    RemoveIfPresent { path: String },
}

/// The outcome of a performed [`FsAction`].
pub enum FsEvent {
    /// The name a `Probe` found.
    Name(String),
    Succeeded,
    Failed,
}

/// What the caller must do next.
pub enum InstallStep {
    Do(FsAction),
    /// The install is over, with its verdict.
    Finished(Result<(), Error>),
}

pub enum ActionModel {
    Probe { base: Seq<char> },
    Rename { from: Seq<char>, to: Seq<char> },
    RemoveIfPresent { path: Seq<char> },
}

pub enum EventModel {
    Name(Seq<char>),
    Succeeded,
    Failed,
}

pub enum StepModel {
    Do(ActionModel),
    Finished(Result<(), Error>),
}

impl View for FsAction {
    type V = ActionModel;

    open spec fn view(&self) -> ActionModel {
        match self {
            FsAction::Probe { base } => ActionModel::Probe { base: base@ },
            FsAction::Rename { from, to } => ActionModel::Rename { from: from@, to: to@ },
            FsAction::RemoveIfPresent { path } => ActionModel::RemoveIfPresent { path: path@ },
        }
    }
}

impl View for FsEvent {
    type V = EventModel;

    open spec fn view(&self) -> EventModel {
        match self {
            FsEvent::Name(s) => EventModel::Name(s@),
            FsEvent::Succeeded => EventModel::Succeeded,
            FsEvent::Failed => EventModel::Failed,
        }
    }
}

impl View for InstallStep {
    type V = StepModel;

    open spec fn view(&self) -> StepModel {
        match self {
            InstallStep::Do(a) => StepModel::Do(a@),
            InstallStep::Finished(r) => StepModel::Finished(*r),
        }
    }
}

/// Where the session stands.
#[derive(Clone, Copy, PartialEq, Eq, Structural)]
pub enum Phase {
    /// Waiting for a unique backup name for the existing destination.
    Probe,
    /// Renaming the destination to the backup name.
    Displace,
    /// Renaming the staging file onto the destination.
    Place,
    /// Deleting the displaced destination after a successful install.
    DropBackup,
    /// Renaming the backup back onto the destination: the rollback after a
    /// failed placement.
    Restore,
    /// Renaming the staging file onto a destination that never existed.
    PlaceFresh,
    /// Deleting the staging file, whatever came before.
    Cleanup,
    Finished,
}

/// The mathematical state of an install session.
#[verifier::ext_equal]
pub struct InstallModel {
    pub phase: Phase,
    pub path: Seq<char>,
    pub upload_path: Seq<char>,
    /// Drop the backup after success (`Unlink`) instead of retaining it.
    pub unlink: bool,
    /// The backup name the probe found.
    pub backup: Option<Seq<char>>,
    /// The verdict to hand out once cleanup is done.
    pub pending: Result<(), Error>,
}

/// One in-flight install.
pub struct InstallSession {
    phase: Phase,
    path: String,
    upload_path: String,
    unlink: bool,
    backup: Option<String>,
    pending: Result<(), Error>,
}

impl View for InstallSession {
    type V = InstallModel;

    closed spec fn view(&self) -> InstallModel {
        InstallModel {
            phase: self.phase,
            path: self.path@,
            upload_path: self.upload_path@,
            unlink: self.unlink,
            backup: match self.backup {
                Some(ref s) => Some(s@),
                None => None,
            },
            pending: self.pending,
        }
    }
}

/// The phases that hold a backup name.
pub open spec fn holds_backup(phase: Phase) -> bool {
    phase == Phase::Displace || phase == Phase::Place || phase == Phase::DropBackup
        || phase == Phase::Restore
}

pub open spec fn session_inv(m: InstallModel) -> bool {
    holds_backup(m.phase) ==> m.backup is Some
}

/// Which event kind a phase expects.
pub open spec fn event_fits(phase: Phase, ev: EventModel) -> bool {
    if phase == Phase::Probe {
        ev is Name
    } else {
        ev is Succeeded || ev is Failed
    }
}

/// The backup base name: `<path><suffix>` under a `Backup` strategy,
/// `<path>_orig` under `Unlink`.
pub open spec fn spec_backup_base(t: TransferModel) -> Seq<char> {
    match t.strategy {
        StrategyModel::Backup(suffix) => t.path + suffix,
        StrategyModel::Unlink => t.path + "_orig"@,
    }
}

/// Where a fresh session starts: the integrity gates run first, and only a
/// transfer that passes both moves any file other than its own staging file.
pub open spec fn spec_begin(t: TransferModel) -> (InstallModel, StepModel) {
    let base = InstallModel {
        phase: Phase::Cleanup,
        path: t.path,
        upload_path: t.upload_path,
        unlink: t.strategy is Unlink,
        backup: None,
        pending: Ok(()),
    };
    if t.staged.len() != t.size {
        (
            InstallModel { pending: Err(Error::FileSizeMismatch), ..base },
            StepModel::Do(ActionModel::RemoveIfPresent { path: t.upload_path }),
        )
    } else if sip_hash_of(t.staged) != t.origin_hash {
        (
            InstallModel { pending: Err(Error::FileHashMismatch), ..base },
            StepModel::Do(ActionModel::RemoveIfPresent { path: t.upload_path }),
        )
    } else if t.exists {
        (
            InstallModel { phase: Phase::Probe, ..base },
            StepModel::Do(ActionModel::Probe { base: spec_backup_base(t) }),
        )
    } else {
        (
            InstallModel { phase: Phase::PlaceFresh, ..base },
            StepModel::Do(ActionModel::Rename { from: t.upload_path, to: t.path }),
        )
    }
}

/// The session's transition relation: what each phase does with its event.
pub open spec fn spec_step(m: InstallModel, ev: EventModel) -> (InstallModel, StepModel) {
    match m.phase {
        Phase::Probe => {
            let bk = ev->Name_0;
            (
                InstallModel { phase: Phase::Displace, backup: Some(bk), ..m },
                StepModel::Do(ActionModel::Rename { from: m.path, to: bk }),
            )
        },
        Phase::Displace => if ev is Succeeded {
            (
                InstallModel { phase: Phase::Place, ..m },
                StepModel::Do(ActionModel::Rename { from: m.upload_path, to: m.path }),
            )
        } else {
            (
                InstallModel { phase: Phase::Cleanup, pending: Err(Error::Io), ..m },
                StepModel::Do(ActionModel::RemoveIfPresent { path: m.upload_path }),
            )
        },
        Phase::Place => if ev is Succeeded {
            if m.unlink {
                (
                    InstallModel { phase: Phase::DropBackup, ..m },
                    StepModel::Do(ActionModel::RemoveIfPresent { path: m.backup.unwrap() }),
                )
            } else {
                (
                    InstallModel { phase: Phase::Cleanup, ..m },
                    StepModel::Do(ActionModel::RemoveIfPresent { path: m.upload_path }),
                )
            }
        } else {
            // The rollback: put the displaced original back.
            (
                InstallModel { phase: Phase::Restore, ..m },
                StepModel::Do(ActionModel::Rename { from: m.backup.unwrap(), to: m.path }),
            )
        },
        Phase::DropBackup => (
            InstallModel {
                phase: Phase::Cleanup,
                pending: if ev is Succeeded { m.pending } else { Err(Error::Io) },
                ..m
            },
            StepModel::Do(ActionModel::RemoveIfPresent { path: m.upload_path }),
        ),
        Phase::Restore => (
            InstallModel { phase: Phase::Cleanup, pending: Err(Error::Io), ..m },
            StepModel::Do(ActionModel::RemoveIfPresent { path: m.upload_path }),
        ),
        Phase::PlaceFresh => (
            InstallModel {
                phase: Phase::Cleanup,
                pending: if ev is Succeeded { m.pending } else { Err(Error::Io) },
                ..m
            },
            StepModel::Do(ActionModel::RemoveIfPresent { path: m.upload_path }),
        ),
        Phase::Cleanup => (
            InstallModel { phase: Phase::Finished, ..m },
            StepModel::Finished(if ev is Succeeded { m.pending } else { Err(Error::Io) }),
        ),
        Phase::Finished => (m, StepModel::Finished(m.pending)),
    }
}

/// Open an install session for a finished transfer: run the size and digest
/// gates, and hand out the first move.
pub fn begin_install(f: &File) -> (r: (InstallSession, InstallStep))
    ensures
        (r.0@, r.1@) == spec_begin(f@),
        session_inv(r.0@),
        r.0@.phase != Phase::Finished,
{
    let unlink = match f.strategy() {
        ReplaceStrategy::Unlink => true,
        ReplaceStrategy::Backup(_) => false,
    };
    let base = InstallSession {
        phase: Phase::Cleanup,
        path: f.path().clone(),
        upload_path: f.upload_path().clone(),
        unlink,
        backup: None,
        pending: Ok(()),
    };
    if f.staged().len() as u64 != f.size() {
        let step = InstallStep::Do(FsAction::RemoveIfPresent { path: f.upload_path().clone() });
        let session = InstallSession { pending: Err(Error::FileSizeMismatch), ..base };
        proof {
            assert((session@, step@) =~= spec_begin(f@));
        }
        (session, step)
    } else if content_hash(f.staged()) != f.origin_hash() {
        let step = InstallStep::Do(FsAction::RemoveIfPresent { path: f.upload_path().clone() });
        let session = InstallSession { pending: Err(Error::FileHashMismatch), ..base };
        proof {
            assert((session@, step@) =~= spec_begin(f@));
        }
        (session, step)
    } else if f.dest_exists() {
        let mut probe_base = f.path().clone();
        match f.strategy() {
            ReplaceStrategy::Backup(suffix) => probe_base.append(suffix.as_str()),
            ReplaceStrategy::Unlink => probe_base.append("_orig"),
        }
        let step = InstallStep::Do(FsAction::Probe { base: probe_base });
        let session = InstallSession { phase: Phase::Probe, ..base };
        proof {
            assert((session@, step@) =~= spec_begin(f@));
        }
        (session, step)
    } else {
        let step = InstallStep::Do(FsAction::Rename {
            from: f.upload_path().clone(),
            to: f.path().clone(),
        });
        let session = InstallSession { phase: Phase::PlaceFresh, ..base };
        proof {
            assert((session@, step@) =~= spec_begin(f@));
        }
        (session, step)
    }
}

impl InstallSession {
    /// Feed back the outcome of the last action; get the next move or the
    /// verdict.
    pub fn step(&mut self, ev: FsEvent) -> (r: InstallStep)
        requires
            session_inv(old(self)@),
            old(self)@.phase != Phase::Finished,
            event_fits(old(self)@.phase, ev@),
        ensures
            (final(self)@, r@) == spec_step(old(self)@, ev@),
            session_inv(final(self)@),
    {
        let ghost m0 = self@;
        let step: InstallStep;
        match self.phase {
            Phase::Probe => {
                let bk = match ev {
                    FsEvent::Name(s) => s,
                    _ => {
                        proof {
                            assert(false);
                        }
                        String::new()
                    },
                };
                step = InstallStep::Do(FsAction::Rename {
                    from: self.path.clone(),
                    to: bk.clone(),
                });
                self.backup = Some(bk);
                self.phase = Phase::Displace;
            },
            Phase::Displace => {
                if matches!(ev, FsEvent::Succeeded) {
                    self.phase = Phase::Place;
                    step = InstallStep::Do(FsAction::Rename {
                        from: self.upload_path.clone(),
                        to: self.path.clone(),
                    });
                } else {
                    self.phase = Phase::Cleanup;
                    self.pending = Err(Error::Io);
                    step = InstallStep::Do(FsAction::RemoveIfPresent {
                        path: self.upload_path.clone(),
                    });
                }
            },
            Phase::Place => {
                if matches!(ev, FsEvent::Succeeded) {
                    if self.unlink {
                        self.phase = Phase::DropBackup;
                        let bk = match &self.backup {
                            Some(s) => s.clone(),
                            None => {
                                proof {
                                    assert(false);
                                }
                                String::new()
                            },
                        };
                        step = InstallStep::Do(FsAction::RemoveIfPresent { path: bk });
                    } else {
                        self.phase = Phase::Cleanup;
                        step = InstallStep::Do(FsAction::RemoveIfPresent {
                            path: self.upload_path.clone(),
                        });
                    }
                } else {
                    self.phase = Phase::Restore;
                    let bk = match &self.backup {
                        Some(s) => s.clone(),
                        None => {
                            proof {
                                assert(false);
                            }
                            String::new()
                        },
                    };
                    step = InstallStep::Do(FsAction::Rename {
                        from: bk,
                        to: self.path.clone(),
                    });
                }
            },
            Phase::DropBackup => {
                if !matches!(ev, FsEvent::Succeeded) {
                    self.pending = Err(Error::Io);
                }
                self.phase = Phase::Cleanup;
                step = InstallStep::Do(FsAction::RemoveIfPresent {
                    path: self.upload_path.clone(),
                });
            },
            Phase::Restore => {
                self.pending = Err(Error::Io);
                self.phase = Phase::Cleanup;
                step = InstallStep::Do(FsAction::RemoveIfPresent {
                    path: self.upload_path.clone(),
                });
            },
            Phase::PlaceFresh => {
                if !matches!(ev, FsEvent::Succeeded) {
                    self.pending = Err(Error::Io);
                }
                self.phase = Phase::Cleanup;
                step = InstallStep::Do(FsAction::RemoveIfPresent {
                    path: self.upload_path.clone(),
                });
            },
            Phase::Cleanup => {
                self.phase = Phase::Finished;
                step = InstallStep::Finished(
                    if matches!(ev, FsEvent::Succeeded) {
                        self.pending
                    } else {
                        Err(Error::Io)
                    },
                );
            },
            Phase::Finished => {
                proof {
                    assert(false);
                }
                step = InstallStep::Finished(self.pending);
            },
        }
        proof {
            assert(self@ =~= spec_step(m0, ev@).0);
            assert(step@ =~= spec_step(m0, ev@).1);
        }
        step
    }
}

/// The `counter`-th fallback in a unique-name probe: `base` followed by the
/// counter in decimal.
pub fn numbered_name(base: &String, counter: u64) -> (r: String)
    ensures
        r@ == base@ + dec_chars(counter as nat),
{
    let mut name = base.clone();
    let digits = u64_to_dec(counter);
    name.append(digits.as_str());
    name
}

/// The staging filename probe starts here: `<path>_upload`.
pub fn staging_base(path: &String) -> (r: String)
    ensures
        r@ == path@ + "_upload"@,
{
    let mut name = path.clone();
    name.append("_upload");
    name
}

} // verus!
