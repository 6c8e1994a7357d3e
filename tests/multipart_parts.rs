use s3_transfer::multipart::{finalize, Chunker, CompletedPart, PartError, PartTable, SessionEnd};

fn chunk(payload: &[u8], part_size: usize, read: usize) -> Vec<(usize, Vec<u8>)> {
    let mut c = Chunker::new(part_size);
    let mut parts = Vec::new();
    for piece in payload.chunks(read) {
        for p in c.feed(&piece.to_vec()) {
            parts.push((p.part_number, p.body));
        }
    }
    if let Some(p) = c.finish() {
        parts.push((p.part_number, p.body));
    }
    parts
}

fn done(n: usize, tag: &str) -> CompletedPart {
    CompletedPart { part_number: n, e_tag: tag.to_string() }
}

#[test]
fn chunks_are_numbered_and_sized() {
    let payload: Vec<u8> = (0..25u8).collect();
    let parts = chunk(&payload, 10, 3);
    assert_eq!(parts.len(), 3);
    assert_eq!(parts[0].0, 1);
    assert_eq!(parts[1].0, 2);
    assert_eq!(parts[2].0, 3);
    assert_eq!(parts[0].1.len(), 10);
    assert_eq!(parts[1].1.len(), 10);
    assert_eq!(parts[2].1, vec![20, 21, 22, 23, 24]);
}

#[test]
fn exact_multiple_has_no_empty_tail() {
    let payload: Vec<u8> = (0..20u8).collect();
    let parts = chunk(&payload, 10, 4);
    assert_eq!(parts.len(), 2);
    assert_eq!(parts[1].1, (10..20u8).collect::<Vec<u8>>());
}

#[test]
fn empty_payload_has_no_parts() {
    assert!(chunk(&[], 10, 4).is_empty());
}

#[test]
fn parts_committed_in_order_reassemble_payload() {
    let payload: Vec<u8> = (0..47u8).collect();
    let parts = chunk(&payload, 8, 5);
    let mut table = PartTable::new();
    // Uploads finish in reverse order.
    for (n, _) in parts.iter().rev() {
        assert_eq!(table.record(done(*n, &format!("tag{}", n))), Ok(()));
    }
    let list = table.commit_list(parts.len()).unwrap();
    let mut rebuilt = Vec::new();
    for (i, c) in list.iter().enumerate() {
        assert_eq!(c.part_number, i + 1);
        assert_eq!(c.e_tag, format!("tag{}", i + 1));
        rebuilt.extend_from_slice(&parts[c.part_number - 1].1);
    }
    assert_eq!(rebuilt, payload);
}

#[test]
fn duplicate_and_zero_parts_are_refused() {
    let mut table = PartTable::new();
    assert_eq!(table.record(done(0, "x")), Err(PartError::InvalidPartNumber));
    assert_eq!(table.record(done(2, "b")), Ok(()));
    assert_eq!(table.record(done(2, "c")), Err(PartError::DuplicatePart));
    assert!(table.commit_list(2).is_none());
    assert_eq!(table.record(done(1, "a")), Ok(()));
    let list = table.commit_list(2).unwrap();
    assert_eq!(list[1].e_tag, "b");
    assert!(table.commit_list(1).is_none());
    assert!(table.commit_list(3).is_none());
}

#[test]
fn session_aborts_on_failure_or_gap() {
    let mut table = PartTable::new();
    table.record(done(1, "a")).unwrap();
    table.record(done(3, "c")).unwrap();
    assert!(matches!(finalize(&table, 3, false), SessionEnd::Abort));
    table.record(done(2, "b")).unwrap();
    assert!(matches!(finalize(&table, 3, true), SessionEnd::Abort));
    match finalize(&table, 3, false) {
        SessionEnd::Commit(list) => {
            let numbers: Vec<usize> = list.iter().map(|c| c.part_number).collect();
            assert_eq!(numbers, vec![1, 2, 3]);
        }
        SessionEnd::Abort => panic!("expected a commit"),
    }
}

use s3_transfer::multipart::{UploadSession, UploadStep};

/// Drives a session over `payload`, read `read` bytes at a time; part uploads
/// finish newest first and `fail` names a task whose upload fails.
fn run_session(payload: &[u8], read: usize, fail: Option<usize>) -> (Option<Vec<u8>>, usize) {
    let mut s = UploadSession::new(8, 2);
    let mut pos = 0;
    let mut bodies: Vec<(usize, Vec<u8>)> = Vec::new();
    let mut running: Vec<usize> = Vec::new();
    let mut max_running = 0;
    loop {
        match s.next_step() {
            UploadStep::Read => {
                let end = (pos + read).min(payload.len());
                s.on_read(payload[pos..end].to_vec());
                pos = end;
            }
            UploadStep::Start(idx, n, body) => {
                assert_eq!(n, idx + 1);
                bodies.push((n, body));
                running.push(idx);
                max_running = max_running.max(running.len());
            }
            UploadStep::Wait => {
                let idx = running.pop().unwrap();
                let tag = if Some(idx) == fail { None } else { Some(format!("t{}", idx)) };
                assert_eq!(s.on_part_done(idx, tag), Ok(()));
            }
            UploadStep::Commit(list) => {
                let mut out = Vec::new();
                for c in &list {
                    let body = &bodies.iter().find(|(n, _)| *n == c.part_number).unwrap().1;
                    out.extend_from_slice(body);
                }
                return (Some(out), max_running);
            }
            UploadStep::Abort => return (None, max_running),
        }
    }
}

#[test]
fn session_commit_reassembles_payload() {
    let payload: Vec<u8> = (0..53u8).collect();
    let (out, max_running) = run_session(&payload, 5, None);
    assert_eq!(out, Some(payload));
    assert!(max_running <= 2);
}

#[test]
fn session_with_exact_multiple_of_part_size() {
    let payload: Vec<u8> = (0..32u8).collect();
    assert_eq!(run_session(&payload, 8, None).0, Some(payload));
}

#[test]
fn session_aborts_when_a_part_fails() {
    let payload: Vec<u8> = (0..40u8).collect();
    assert_eq!(run_session(&payload, 4, Some(2)).0, None);
}

#[test]
fn session_refuses_report_for_idle_task() {
    let mut s = UploadSession::new(4, 1);
    assert_eq!(s.on_part_done(0, Some("x".to_string())), Err(s3_transfer::pool::PoolError::NotRunning));
}
