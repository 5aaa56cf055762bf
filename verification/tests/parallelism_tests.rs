use pconvert_rust::buffer::{ImageBuf, Pixel};
use pconvert_rust::errors::PConvertError;
use pconvert_rust::parallelism::{
    ResultMessage, TaskPhase, ThreadPool, ThreadPoolStatus, MAX_THREAD_POOL_SIZE,
};

fn marker(value: u8) -> ImageBuf {
    ImageBuf::from_pixels(1, 1, vec![Pixel::new(value, 0, 0, 255)]).unwrap()
}

fn marker_value(msg: ResultMessage) -> u8 {
    let ResultMessage::ImageResult(res) = msg;
    res.unwrap().pixel(0).r
}

#[test]
fn test_new_rejects_zero_size() {
    let err = match ThreadPool::new(0) {
        Ok(_) => panic!("a zero-sized pool must be rejected"),
        Err(e) => e,
    };
    match err {
        PConvertError::ArgumentError(m) => {
            assert_eq!(m, "Thread Pool size should be a positive number")
        }
        other => panic!("unexpected error {:?}", other),
    }
}

#[test]
fn test_new_pool_counters() {
    let pool = ThreadPool::new(5).unwrap();
    let status = pool.get_status();
    assert_eq!(status.size(), 5);
    assert_eq!(status.queued(), 0);
    assert_eq!(status.active(), 0);
}

#[test]
fn test_status_counters_wrap_instead_of_aborting() {
    let mut status = ThreadPoolStatus::new(3);
    status.dec_queued_count();
    assert_eq!(status.queued(), usize::MAX);
    status.inc_queued_count();
    assert_eq!(status.queued(), 0);
    status.inc_active_count();
    status.inc_active_count();
    status.dec_active_count();
    assert_eq!(status.active(), 1);
    status.inc_size();
    assert_eq!(status.size(), 4);
    status.dec_size();
    assert_eq!(status.size(), 3);
}

#[test]
fn test_active_never_exceeds_size_under_load() {
    // more tasks than workers: the active count must stay at or below the
    // worker count at every snapshot
    let mut pool = ThreadPool::new(2).unwrap();
    pool.start();
    let ids: Vec<usize> = (0..6).map(|_| pool.execute()).collect();
    assert_eq!(pool.get_status().queued(), 6);

    let mut next = 0;
    while next < ids.len() {
        // claim as many tasks as there are idle workers
        let mut running = Vec::new();
        while next < ids.len()
            && pool.get_status().active() < pool.get_status().size()
        {
            pool.claim_task(ids[next]);
            running.push(ids[next]);
            next += 1;
            let status = pool.get_status();
            assert!(status.active() <= status.size());
        }
        for id in running {
            pool.finish_task(id, ResultMessage::ImageResult(Ok(marker(id as u8))));
            let status = pool.get_status();
            assert!(status.active() <= status.size());
        }
    }
    assert_eq!(pool.get_status().queued(), 0);
    assert_eq!(pool.get_status().active(), 0);
}

#[test]
fn test_three_tasks_on_single_worker_deliver_in_submission_order() {
    // a pool of one worker serializes three tasks; their results, collected
    // via each task's own slot in submission order, match the markers
    let mut pool = ThreadPool::new(1).unwrap();
    pool.start();
    let ids: Vec<usize> = (0..3).map(|_| pool.execute()).collect();
    assert_eq!(ids, vec![0, 1, 2]);

    for &id in &ids {
        assert_eq!(pool.task_phase(id), TaskPhase::Queued);
        pool.claim_task(id);
        assert_eq!(pool.task_phase(id), TaskPhase::Running);
        pool.finish_task(id, ResultMessage::ImageResult(Ok(marker(10 + id as u8))));
        assert_eq!(pool.task_phase(id), TaskPhase::Done);
    }

    let collected: Vec<u8> = ids
        .iter()
        .map(|&id| marker_value(pool.take_result(id)))
        .collect();
    assert_eq!(collected, vec![10, 11, 12]);
    for &id in &ids {
        assert_eq!(pool.task_phase(id), TaskPhase::Collected);
    }
}

#[test]
fn test_out_of_order_completion_still_delivers_by_task() {
    let mut pool = ThreadPool::new(3).unwrap();
    pool.start();
    let ids: Vec<usize> = (0..3).map(|_| pool.execute()).collect();
    // workers finish in reverse order
    for &id in ids.iter().rev() {
        pool.claim_task(id);
        pool.finish_task(id, ResultMessage::ImageResult(Ok(marker(40 + id as u8))));
    }
    // collection by submission order is unaffected
    let collected: Vec<u8> = ids
        .iter()
        .map(|&id| marker_value(pool.take_result(id)))
        .collect();
    assert_eq!(collected, vec![40, 41, 42]);
}

#[test]
fn test_expand_to_grows_and_clamps() {
    let mut pool = ThreadPool::new(2).unwrap();
    pool.start();
    pool.expand_to(4);
    assert_eq!(pool.get_status().size(), 4);
    // never shrinks
    pool.expand_to(1);
    assert_eq!(pool.get_status().size(), 4);
    // clamped to the ceiling
    pool.expand_to(1000);
    assert_eq!(pool.get_status().size(), MAX_THREAD_POOL_SIZE);
}

#[test]
fn test_stop_terminates_every_worker() {
    let mut pool = ThreadPool::new(4).unwrap();
    pool.start();
    let id = pool.execute();
    pool.claim_task(id);
    pool.finish_task(id, ResultMessage::ImageResult(Ok(marker(1))));
    let _ = pool.take_result(id);
    pool.stop();
    assert_eq!(pool.get_status().size(), 0);
    assert_eq!(pool.task_count(), 1);
}
