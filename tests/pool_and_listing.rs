use s3_transfer::delete_bucket::{DeleteRun, DeleteStep};
use s3_transfer::listing::{ListPage, Lister, ListingError};
use s3_transfer::pipeline::{KeyPipeline, Step};
use s3_transfer::pool::{PoolError, WorkerPool};

fn page(keys: &[&str], truncated: bool, token: Option<&str>) -> ListPage {
    ListPage {
        keys: keys.iter().map(|k| Some(k.to_string())).collect(),
        is_truncated: Some(truncated),
        next_continuation_token: token.map(|t| t.to_string()),
    }
}

#[test]
fn listing_yields_every_page_once() {
    let mut l = Lister::new();
    assert_eq!(l.next_request(), Some(None));
    assert_eq!(l.accept_page(page(&["a", "b"], true, Some("t1"))), vec!["a", "b"]);
    assert_eq!(l.next_request(), Some(Some("t1".to_string())));
    assert!(l.accept_page(page(&[], true, Some("t2"))).is_empty());
    assert_eq!(l.next_request(), Some(Some("t2".to_string())));
    assert_eq!(l.accept_page(page(&["c"], false, None)), vec!["c"]);
    assert_eq!(l.next_request(), None);
    assert!(l.done());
    assert_eq!(l.failure(), None);
}

#[test]
fn entries_without_key_are_skipped() {
    let mut l = Lister::new();
    let p = ListPage {
        keys: vec![Some("a".to_string()), None, Some("b".to_string())],
        is_truncated: None,
        next_continuation_token: None,
    };
    assert_eq!(l.accept_page(p), vec!["a", "b"]);
    assert!(l.done());
}

#[test]
fn truncated_page_without_token_ends_listing() {
    let mut l = Lister::new();
    assert_eq!(l.accept_page(page(&["a"], true, None)), vec!["a"]);
    assert!(l.done());
    assert_eq!(l.failure(), Some(ListingError::MissingContinuationToken));
}

#[test]
fn pool_never_exceeds_limit() {
    for total in [0usize, 1, 3, 4, 5, 200] {
        let mut p = WorkerPool::new(4);
        for _ in 0..total {
            p.submit();
        }
        p.close();
        let mut running: Vec<usize> = Vec::new();
        let mut finished = 0;
        loop {
            while let Some(i) = p.start_next() {
                running.push(i);
                assert!(p.running() <= 4);
            }
            assert!(running.len() <= 4);
            match running.pop() {
                Some(i) => {
                    p.finish(i, true).unwrap();
                    finished += 1;
                }
                None => break,
            }
        }
        assert_eq!(finished, total);
        assert!(p.is_finished());
        assert_eq!(p.succeeded(), total);
    }
}

#[test]
fn failed_task_does_not_stop_others() {
    let mut p = WorkerPool::new(3);
    for _ in 0..10 {
        p.submit();
    }
    p.close();
    let mut ended = Vec::new();
    let mut running: Vec<usize> = Vec::new();
    loop {
        while let Some(i) = p.start_next() {
            running.push(i);
        }
        if running.is_empty() {
            break;
        }
        let i = running.remove(0);
        assert!(!p.is_finished());
        // The fifth task fails.
        p.finish(i, i != 4).unwrap();
        ended.push(i);
    }
    ended.sort();
    assert_eq!(ended, (0..10).collect::<Vec<usize>>());
    assert!(p.is_finished());
    assert_eq!(p.succeeded(), 9);
    assert_eq!(p.failed(), 1);
}

#[test]
fn finish_of_task_not_running_is_refused() {
    let mut p = WorkerPool::new(1);
    p.submit();
    assert_eq!(p.finish(0, true), Err(PoolError::NotRunning));
    assert_eq!(p.finish(5, true), Err(PoolError::NotRunning));
    assert_eq!(p.start_next(), Some(0));
    assert_eq!(p.finish(0, false), Ok(()));
    assert_eq!(p.finish(0, true), Err(PoolError::NotRunning));
}

#[test]
fn pipeline_waits_while_queue_is_full() {
    let mut k = KeyPipeline::new(1);
    assert_eq!(k.next_step(), Step::List(None));
    k.on_page(page(&["a", "b", "c"], true, Some("t")));
    assert_eq!(k.next_step(), Step::Start(0, "a".to_string()));
    // One slot, and two keys already wait: no further listing.
    assert_eq!(k.next_step(), Step::Wait);
    k.on_task_end(0, true).unwrap();
    assert_eq!(k.next_step(), Step::Start(1, "b".to_string()));
    k.on_task_end(1, true).unwrap();
    assert_eq!(k.next_step(), Step::Start(2, "c".to_string()));
    assert_eq!(k.next_step(), Step::List(Some("t".to_string())));
    k.on_page(page(&[], false, None));
    assert_eq!(k.next_step(), Step::Wait);
    k.on_task_end(2, true).unwrap();
    assert_eq!(k.next_step(), Step::Finished);
    assert_eq!(k.succeeded(), 3);
    assert_eq!(k.failed(), 0);
}

#[test]
fn bucket_removed_after_all_deletes() {
    let mut run = DeleteRun::new(10);
    let mut deleted: Vec<String> = Vec::new();
    let mut running: Vec<usize> = Vec::new();
    let mut pages = vec![page(&["x", "y", "z"], true, Some("next")), page(&[], false, None)];
    pages.reverse();
    let mut removed = false;
    loop {
        match run.next_step() {
            DeleteStep::List(_) => {
                run.on_page(pages.pop().unwrap());
            }
            DeleteStep::Delete(i, key) => {
                deleted.push(key);
                running.push(i);
            }
            DeleteStep::Wait => {
                let i = running.pop().unwrap();
                run.on_deleted(i, true).unwrap();
            }
            DeleteStep::RemoveBucket => {
                assert!(running.is_empty());
                assert_eq!(deleted.len(), 3);
                assert!(pages.is_empty());
                removed = true;
                run.on_bucket_removed();
            }
            DeleteStep::Done => break,
        }
    }
    assert!(removed);
    deleted.sort();
    assert_eq!(deleted, vec!["x", "y", "z"]);
}

#[test]
fn copy_pipeline_goes_on_after_failed_task() {
    let keys: Vec<String> = (1..=10).map(|i| format!("k{}", i)).collect();
    let refs: Vec<&str> = keys.iter().map(|k| k.as_str()).collect();
    let mut k = KeyPipeline::new(3);
    let mut started: Vec<String> = Vec::new();
    let mut running: Vec<usize> = Vec::new();
    let mut pages = vec![page(&refs, false, None)];
    loop {
        match k.next_step() {
            Step::List(token) => {
                assert_eq!(token, None);
                k.on_page(pages.pop().unwrap());
            }
            Step::Start(i, key) => {
                started.push(key);
                running.push(i);
            }
            Step::Wait => {
                let i = running.remove(0);
                // The fifth task fails.
                k.on_task_end(i, i != 4).unwrap();
            }
            Step::Finished => break,
        }
    }
    assert!(running.is_empty());
    assert_eq!(started, keys);
    assert_eq!(k.succeeded(), 9);
    assert_eq!(k.failed(), 1);
}
