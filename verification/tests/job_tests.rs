use ray_tracer::job::{post_all, JobBoard, JobId, Mailbox};
use ray_tracer::progress::RenderProgressState;

#[test]
fn job_ids_count_up() {
    let first = JobId(0);
    let second = first.next();
    assert_eq!(second, JobId(1));
    assert_eq!(second.next().next(), JobId(3));
    assert_eq!(JobId(u64::MAX - 1).next(), JobId(u64::MAX));
}

#[test]
fn stale_results_are_told_apart() {
    assert!(JobId(3).is_current(None));
    assert!(JobId(3).is_current(Some(JobId(3))));
    assert!(JobId(4).is_current(Some(JobId(3))));
    assert!(!JobId(2).is_current(Some(JobId(3))));
    assert!(JobId(0).is_current(Some(JobId(0))));
}

#[test]
fn the_mailbox_keeps_the_latest_request() {
    let mut mailbox: Mailbox<u32> = Mailbox::new();
    assert_eq!(mailbox.take(), None);
    assert_eq!(mailbox.post(1), None);
    assert_eq!(mailbox.post(2), Some(1));
    assert_eq!(mailbox.post(3), Some(2));
    assert_eq!(mailbox.take(), Some(3));
    assert_eq!(mailbox.take(), None);
}

#[test]
fn a_run_of_requests_leaves_the_last() {
    let mut mailbox: Mailbox<&str> = Mailbox::new();
    post_all(&mut mailbox, vec!["a", "b", "c"]);
    assert_eq!(mailbox.take(), Some("c"));
    mailbox.post("kept");
    post_all(&mut mailbox, Vec::new());
    assert_eq!(mailbox.take(), Some("kept"));
}

#[test]
fn progress_is_counted() {
    let progress = RenderProgressState::new();
    assert_eq!(progress.counts(), (0, 0));
    progress.init(4);
    assert_eq!(progress.counts(), (0, 4));
    progress.tick(0);
    progress.tick(0);
    assert_eq!(progress.counts(), (2, 4));
}

#[test]
fn a_board_hands_out_ascending_numbers() {
    let mut board = JobBoard::new();
    assert!(!board.pending());
    let first = board.request();
    assert_eq!(first, JobId(1));
    assert!(board.pending());
    let second = board.request();
    assert_eq!(second, JobId(2));
    assert_eq!(board.newest_requested_job, Some(JobId(2)));
    assert_eq!(board.next_job_id, JobId(2));
}

#[test]
fn a_board_drops_stale_results() {
    let mut board = JobBoard::new();
    let first = board.request();
    let second = board.request();
    // the first render comes in after the second was requested
    assert!(!board.finish(first));
    assert_eq!(board.newest_finished_job, None);
    assert!(board.pending());
    assert!(board.finish(second));
    assert_eq!(board.newest_finished_job, Some(second));
    assert!(!board.pending());
    // a late copy of the first changes nothing
    assert!(!board.finish(first));
    assert_eq!(board.newest_finished_job, Some(second));
    let third = board.request();
    assert!(board.pending());
    assert!(board.finish(third));
    assert!(!board.pending());
}

#[test]
fn a_board_without_requests_takes_any_result() {
    let mut board = JobBoard::new();
    assert!(board.finish(JobId(7)));
    assert_eq!(board.newest_finished_job, Some(JobId(7)));
    assert!(board.pending());
}
