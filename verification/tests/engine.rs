use inagent::hash::content_hash;
use inagent::ingest::{ingest_chunk, ingest_notices, register_transfer, seed_notices, IngestStep};
use inagent::msg::ControlMsg;
use inagent::registry::Registry;
use inagent::transfer::{convert_opt_args, File, FileOpts};

fn fresh_file(total_chunks: u64, size: u64, hash: u64) -> File {
    File::new(
        "/tmp/x",
        hash,
        size,
        total_chunks,
        Vec::new(),
        false,
        false,
        "/tmp/x_upload".to_string(),
    )
    .unwrap()
}

/// Delivering 2, 1, 3, 0 (four equal chunks): the commit count must stay at
/// zero until the final delivery, then jump straight to four.
#[test]
fn cascade_drain_jumps_to_four() {
    let chunks: Vec<Vec<u8>> = vec![
        b"aaaa".to_vec(),
        b"bbbb".to_vec(),
        b"cccc".to_vec(),
        b"dddd".to_vec(),
    ];
    let mut f = fresh_file(4, 16, 0);

    for &i in &[2u64, 1, 3] {
        assert!(f.commit_run(i, &chunks[i as usize]).is_none());
        f.write(i, chunks[i as usize].clone(), true).unwrap();
        assert_eq!(f.committed_count(), 0);
        assert!(!f.is_finished());
    }

    let run = f.commit_run(0, &chunks[0]).unwrap();
    assert_eq!(run, b"aaaabbbbccccdddd".to_vec());
    f.write(0, chunks[0].clone(), true).unwrap();
    assert_eq!(f.committed_count(), 4);
    assert!(f.is_finished());
    assert_eq!(f.staged(), &b"aaaabbbbccccdddd".to_vec());
}

/// Any delivery order yields the in-order concatenation and the same digest.
#[test]
fn order_independence_on_permutations() {
    let chunks: Vec<Vec<u8>> = vec![b"one".to_vec(), b"two!".to_vec(), b"three".to_vec()];
    let expected = b"onetwo!three".to_vec();
    let expected_hash = content_hash(&expected);
    let orders: Vec<[u64; 3]> = vec![
        [0, 1, 2],
        [0, 2, 1],
        [1, 0, 2],
        [1, 2, 0],
        [2, 0, 1],
        [2, 1, 0],
    ];
    for order in orders {
        let mut f = fresh_file(3, 12, expected_hash);
        for &i in order.iter() {
            f.write(i, chunks[i as usize].clone(), true).unwrap();
        }
        assert!(f.is_finished());
        assert_eq!(f.staged(), &expected);
        assert_eq!(content_hash(f.staged()), expected_hash);
    }
}

/// A duplicate delivery of an already-buffered index changes nothing.
#[test]
fn duplicate_buffered_chunk_is_noop() {
    let mut f = fresh_file(3, 8, 0);
    f.write(2, b"late".to_vec(), true).unwrap();
    f.write(2, b"XXXX".to_vec(), true).unwrap();
    f.write(0, b"go".to_vec(), true).unwrap();
    f.write(1, b"on".to_vec(), true).unwrap();
    assert_eq!(f.staged(), &b"goonlate".to_vec());
}

/// Ten write failures exhaust the budget: `can_retry` turns false on the
/// tenth, and state never advances on a failure.
#[test]
fn retry_budget_counts_to_ten() {
    let mut f = fresh_file(2, 8, 0);
    for _attempt in 1..=10u32 {
        assert!(f.can_retry());
        let r = f.write(0, b"chnk".to_vec(), false);
        assert!(r.is_err());
        assert_eq!(f.committed_count(), 0);
    }
    assert!(!f.can_retry());
}

/// Through the registry: failures one through ten re-queue the index, the
/// eleventh purges the transfer and reports the error.
#[test]
fn eleventh_failure_purges_transfer() {
    let mut reg = Registry::new();
    register_transfer(
        &mut reg,
        "/tmp/x",
        0,
        8,
        2,
        Vec::new(),
        false,
        false,
        "/tmp/x_upload".to_string(),
    )
    .unwrap();

    let path = "/tmp/x".to_string();
    for _ in 0..10 {
        let (step, out) = ingest_chunk(&mut reg, &path, 0, b"chnk".to_vec(), false);
        assert_eq!(step, IngestStep::Retry);
        assert!(out.is_none());
        assert_eq!(reg.len(), 1);
        let notices = ingest_notices(step, &path, 0, None);
        assert_eq!(notices.len(), 2);
        assert!(matches!(
            &notices[0],
            ControlMsg::Queue { path: p, index: 0 } if p == "/tmp/x"
        ));
        assert!(matches!(notices[1], ControlMsg::Ready));
    }

    let (step, out) = ingest_chunk(&mut reg, &path, 0, b"chnk".to_vec(), false);
    assert_eq!(step, IngestStep::Exhausted);
    assert!(out.is_none());
    assert_eq!(reg.len(), 0);
    let notices = ingest_notices(step, &path, 0, None);
    assert_eq!(notices.len(), 2);
    assert!(matches!(
        &notices[0],
        ControlMsg::Fail { path: p, reason } if p == "/tmp/x" && reason == "IO error"
    ));
    assert!(matches!(notices[1], ControlMsg::Ready));
}

/// A chunk for an unregistered path is ignored outright.
#[test]
fn unknown_path_is_ignored() {
    let mut reg = Registry::new();
    let path = "/tmp/nowhere".to_string();
    let (step, out) = ingest_chunk(&mut reg, &path, 0, b"data".to_vec(), true);
    assert_eq!(step, IngestStep::Ignored);
    assert!(out.is_none());
    assert!(ingest_notices(step, &path, 0, None).is_empty());
}

/// Registering a path already mid-transfer is rejected, not overwritten.
#[test]
fn duplicate_registration_rejected() {
    let mut reg = Registry::new();
    register_transfer(
        &mut reg,
        "/tmp/x",
        0,
        4,
        1,
        Vec::new(),
        false,
        false,
        "/tmp/x_upload".to_string(),
    )
    .unwrap();
    let again = register_transfer(
        &mut reg,
        "/tmp/x",
        0,
        4,
        1,
        Vec::new(),
        false,
        false,
        "/tmp/x_upload0".to_string(),
    );
    assert_eq!(again.unwrap_err(), inagent::error::Error::DuplicateTransfer);
    assert_eq!(reg.len(), 1);
}

/// A destination that is a directory refuses the transfer.
#[test]
fn directory_destination_refused() {
    let r = File::new(
        "/tmp/dir",
        0,
        4,
        1,
        Vec::new(),
        true,
        true,
        "/tmp/dir_upload".to_string(),
    );
    match r {
        Err(e) => assert_eq!(e, inagent::error::Error::FileIsDirectory),
        Ok(_) => panic!("a directory destination must be refused"),
    }
}

/// Registration seeds one QUEUE per chunk, in index order.
#[test]
fn seed_notices_cover_every_chunk() {
    let path = "/tmp/x".to_string();
    let notices = seed_notices(&path, 3);
    assert_eq!(notices.len(), 3);
    for (i, n) in notices.iter().enumerate() {
        assert!(matches!(
            n,
            ControlMsg::Queue { path: p, index } if p == "/tmp/x" && *index == i as u64
        ));
    }
}

/// Option parsing: a marker takes the next argument; a trailing marker is
/// dropped; anything else is ignored; the last suffix wins at registration.
#[test]
fn option_parsing_matches_markers() {
    let args = vec![
        "noise".to_string(),
        "OPT_BackupExistingFile".to_string(),
        ".bak".to_string(),
        "OPT_BackupExistingFile".to_string(),
    ];
    let opts = convert_opt_args(args);
    assert_eq!(opts.len(), 1);
    assert!(matches!(&opts[0], FileOpts::BackupExistingFile(s) if s == ".bak"));

    let none = convert_opt_args(vec!["a".to_string(), "b".to_string()]);
    assert!(none.is_empty());
}
