use std::collections::HashMap;

use inagent::error::Error;
use inagent::hash::content_hash;
use inagent::ingest::{ingest_chunk, ingest_notices, register_transfer, seed_notices, IngestStep};
use inagent::install::{begin_install, numbered_name, FsAction, FsEvent, InstallStep};
use inagent::msg::ControlMsg;
use inagent::registry::Registry;
use inagent::scheduler::Scheduler;
use inagent::transfer::File;

/// A tiny in-memory disk: path to file bytes.
type Disk = HashMap<String, Vec<u8>>;

/// Perform one install action against the in-memory disk. A rename whose
/// (from, to) pair equals `fail_rename` fails instead, without moving
/// anything.
fn perform(disk: &mut Disk, action: &FsAction, fail_rename: Option<(&str, &str)>) -> FsEvent {
    match action {
        FsAction::Probe { base } => {
            if !disk.contains_key(base) {
                return FsEvent::Name(base.clone());
            }
            let mut counter: u64 = 0;
            loop {
                let candidate = numbered_name(base, counter);
                if !disk.contains_key(&candidate) {
                    return FsEvent::Name(candidate);
                }
                counter += 1;
            }
        }
        FsAction::Rename { from, to } => {
            if let Some((f, t)) = fail_rename {
                if from == f && to == t {
                    return FsEvent::Failed;
                }
            }
            match disk.remove(from) {
                Some(bytes) => {
                    disk.insert(to.clone(), bytes);
                    FsEvent::Succeeded
                }
                None => FsEvent::Failed,
            }
        }
        FsAction::RemoveIfPresent { path } => {
            disk.remove(path);
            FsEvent::Succeeded
        }
    }
}

/// Drive a whole install session against the in-memory disk.
fn run_install(disk: &mut Disk, file: &File, fail_rename: Option<(&str, &str)>) -> Result<(), Error> {
    let (mut session, mut step) = begin_install(file);
    loop {
        match step {
            InstallStep::Do(action) => {
                let ev = perform(disk, &action, fail_rename);
                step = session.step(ev);
            }
            InstallStep::Finished(verdict) => return verdict,
        }
    }
}

fn staged_file(disk: &mut Disk, file: &mut File, chunks: &[&[u8]], order: &[u64]) {
    for &i in order {
        let chunk = chunks[i as usize].to_vec();
        if let Some(run) = file.commit_run(i, &chunk) {
            disk.entry(file.upload_path().clone())
                .or_insert_with(Vec::new)
                .extend_from_slice(&run);
        }
        file.write(i, chunk, true).unwrap();
    }
}

/// The integrity gate: a wrong declared digest fails the install with
/// `FileHashMismatch`, even though every chunk was accepted.
#[test]
fn integrity_gate_hash_mismatch() {
    let mut disk = Disk::new();
    let wrong_hash = content_hash(&b"goodbye!".to_vec());
    let mut f = File::new(
        "/tmp/x",
        wrong_hash,
        8,
        2,
        Vec::new(),
        false,
        false,
        "/tmp/x_upload".to_string(),
    )
    .unwrap();
    staged_file(&mut disk, &mut f, &[b"hell", b"o!!!"], &[0, 1]);
    assert!(f.is_finished());
    let verdict = run_install(&mut disk, &f, None);
    assert_eq!(verdict.unwrap_err(), Error::FileHashMismatch);
    // The staging file is cleaned up and no destination appeared.
    assert!(!disk.contains_key("/tmp/x_upload"));
    assert!(!disk.contains_key("/tmp/x"));
}

/// The size gate fires first: staged length against the declared size.
#[test]
fn integrity_gate_size_mismatch() {
    let mut disk = Disk::new();
    let content = b"hello!!!".to_vec();
    let mut f = File::new(
        "/tmp/x",
        content_hash(&content),
        9,
        2,
        Vec::new(),
        false,
        false,
        "/tmp/x_upload".to_string(),
    )
    .unwrap();
    staged_file(&mut disk, &mut f, &[b"hell", b"o!!!"], &[0, 1]);
    let verdict = run_install(&mut disk, &f, None);
    assert_eq!(verdict.unwrap_err(), Error::FileSizeMismatch);
}

/// The rollback: the destination exists, the strategy is unlink, and the
/// final rename fails; the original bytes come back and the staging file is
/// gone.
#[test]
fn install_rollback_restores_destination() {
    let mut disk = Disk::new();
    disk.insert("/tmp/x".to_string(), b"original".to_vec());

    let content = b"new-data".to_vec();
    let mut f = File::new(
        "/tmp/x",
        content_hash(&content),
        8,
        2,
        Vec::new(),
        false,
        true,
        "/tmp/x_upload".to_string(),
    )
    .unwrap();
    staged_file(&mut disk, &mut f, &[b"new-", b"data"], &[0, 1]);

    let verdict = run_install(&mut disk, &f, Some(("/tmp/x_upload", "/tmp/x")));
    assert_eq!(verdict.unwrap_err(), Error::Io);
    assert_eq!(disk.get("/tmp/x").unwrap(), &b"original".to_vec());
    assert!(!disk.contains_key("/tmp/x_upload"));
}

/// A successful unlink-strategy install leaves no backup behind.
#[test]
fn install_unlink_drops_backup() {
    let mut disk = Disk::new();
    disk.insert("/tmp/x".to_string(), b"original".to_vec());

    let content = b"new-data".to_vec();
    let mut f = File::new(
        "/tmp/x",
        content_hash(&content),
        8,
        2,
        Vec::new(),
        false,
        true,
        "/tmp/x_upload".to_string(),
    )
    .unwrap();
    staged_file(&mut disk, &mut f, &[b"new-", b"data"], &[0, 1]);

    run_install(&mut disk, &f, None).unwrap();
    assert_eq!(disk.get("/tmp/x").unwrap(), &content);
    assert!(!disk.contains_key("/tmp/x_orig"));
    assert!(!disk.contains_key("/tmp/x_upload"));
    assert_eq!(disk.len(), 1);
}

/// A backup-strategy install retains the displaced original under the
/// suffixed name.
#[test]
fn install_backup_retains_original() {
    let mut disk = Disk::new();
    disk.insert("/tmp/x".to_string(), b"original".to_vec());

    let content = b"new-data".to_vec();
    let opts = inagent::transfer::convert_opt_args(vec![
        "OPT_BackupExistingFile".to_string(),
        ".bak".to_string(),
    ]);
    let mut f = File::new(
        "/tmp/x",
        content_hash(&content),
        8,
        2,
        opts,
        false,
        true,
        "/tmp/x_upload".to_string(),
    )
    .unwrap();
    staged_file(&mut disk, &mut f, &[b"new-", b"data"], &[0, 1]);

    run_install(&mut disk, &f, None).unwrap();
    assert_eq!(disk.get("/tmp/x").unwrap(), &content);
    assert_eq!(disk.get("/tmp/x.bak").unwrap(), &b"original".to_vec());
}

/// End to end: register, seed the scheduler, deliver chunks 0, 2, 1, install,
/// and emit DONE — the destination holds all twelve bytes in order.
#[test]
fn end_to_end_twelve_bytes() {
    let mut disk = Disk::new();
    let mut reg = Registry::new();
    let mut sched = Scheduler::new();

    let content = b"abcdEFGH1234".to_vec();
    let declared_hash = content_hash(&content);
    let path = "/tmp/x".to_string();

    register_transfer(
        &mut reg,
        "/tmp/x",
        declared_hash,
        12,
        3,
        Vec::new(),
        false,
        false,
        "/tmp/x_upload".to_string(),
    )
    .unwrap();

    // Seed the flow-control backlog: every request dispatches at once.
    let mut dispatched = Vec::new();
    for notice in seed_notices(&path, 3) {
        match notice {
            ControlMsg::Queue { path: p, index } => {
                if let Some(item) = sched.queue(p, index) {
                    dispatched.push(item.index);
                }
            }
            _ => unreachable!(),
        }
    }
    assert_eq!(dispatched, vec![0, 1, 2]);

    let chunks: [&[u8]; 3] = [b"abcd", b"EFGH", b"1234"];
    let mut done = Vec::new();
    for &i in &[0u64, 2, 1] {
        let chunk = chunks[i as usize].to_vec();
        // Mirror the commit run to the staging file, then hand the chunk in.
        let io_ok = match reg_commit_run(&mut reg, &path, i, &chunk) {
            Some(run) => {
                disk.entry("/tmp/x_upload".to_string())
                    .or_insert_with(Vec::new)
                    .extend_from_slice(&run);
                true
            }
            None => true,
        };
        let (step, out) = ingest_chunk(&mut reg, &path, i, chunk, io_ok);
        match step {
            IngestStep::Progress => {}
            IngestStep::ReadyToInstall => {
                let file = out.unwrap();
                assert!(file.is_finished());
                let verdict = run_install(&mut disk, &file, None);
                let notices = ingest_notices(step, &path, i, Some(verdict));
                for n in notices {
                    if let ControlMsg::Done { path: p } = n {
                        done.push(p);
                    }
                }
            }
            other => panic!("unexpected step {:?}", other),
        }
    }

    assert_eq!(done, vec!["/tmp/x".to_string()]);
    assert_eq!(disk.get("/tmp/x").unwrap(), &content);
    assert!(!disk.contains_key("/tmp/x_upload"));
}

/// Ask the registered transfer which bytes a delivery would flush.
fn reg_commit_run(reg: &mut Registry, path: &String, index: u64, chunk: &Vec<u8>) -> Option<Vec<u8>> {
    let file = reg.take(path)?;
    let run = file.commit_run(index, chunk);
    reg.insert(file).unwrap();
    run
}
