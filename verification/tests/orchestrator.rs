use oggify::orchestrator::{Action, Run, PACING_SECS};
use oggify::queue::Layout;

fn drive(total: usize, layout: Layout, reports: &[bool]) -> Vec<Action> {
    let mut run = Run::start(total, layout);
    let mut actions = vec![run.request()];
    for ok in reports {
        actions.push(run.advance(*ok));
    }
    actions
}

#[test]
fn empty_queue_finishes_at_once() {
    let run = Run::start(0, Layout::Flat);
    assert_eq!(run.request(), Action::Finish);
    assert!(run.is_finished());
}

#[test]
fn finished_run_stays_finished() {
    let mut run = Run::start(0, Layout::Grouped);
    assert_eq!(run.advance(true), Action::Finish);
    assert_eq!(run.advance(false), Action::Finish);
}

#[test]
fn item_goes_through_its_steps() {
    assert_eq!(
        drive(1, Layout::Flat, &[true, true, true, true]),
        vec![Action::EnsureDir(0), Action::Acquire(0), Action::Deliver(0), Action::Sleep(PACING_SECS), Action::Finish]
    );
    assert_eq!(PACING_SECS, 10);
}

#[test]
fn failed_metadata_fetch_does_not_stop_the_run() {
    let actions = drive(3, Layout::Flat, &[true, true, true, true, true, false, true, true, true, true, true]);
    assert_eq!(
        actions,
        vec![
            Action::EnsureDir(0),
            Action::Acquire(0),
            Action::Deliver(0),
            Action::Sleep(10),
            Action::EnsureDir(1),
            Action::Acquire(1),
            Action::Sleep(10),
            Action::EnsureDir(2),
            Action::Acquire(2),
            Action::Deliver(2),
            Action::Sleep(10),
            Action::Finish,
        ]
    );
}

#[test]
fn directory_failure_skips_the_item() {
    assert_eq!(
        drive(2, Layout::Grouped, &[false, true, true, true, true, true]),
        vec![
            Action::EnsureDir(0),
            Action::Sleep(10),
            Action::EnsureDir(1),
            Action::Acquire(1),
            Action::Deliver(1),
            Action::Sleep(10),
            Action::Finish,
        ]
    );
}

#[test]
fn failed_delivery_cleans_up_in_grouped_layout() {
    assert_eq!(
        drive(2, Layout::Grouped, &[true, true, false, true, true]),
        vec![Action::EnsureDir(0), Action::Acquire(0), Action::Deliver(0), Action::RemoveDirIfEmpty(0), Action::Sleep(10), Action::EnsureDir(1)]
    );
}

#[test]
fn failed_delivery_only_waits_in_flat_layout() {
    assert_eq!(
        drive(2, Layout::Flat, &[true, true, false, true]),
        vec![Action::EnsureDir(0), Action::Acquire(0), Action::Deliver(0), Action::Sleep(10), Action::EnsureDir(1)]
    );
}

#[test]
fn pacing_follows_success_and_failure_alike() {
    let ok = drive(1, Layout::Flat, &[true, true, true]);
    let failed = drive(1, Layout::Flat, &[true, false]);
    let skipped = drive(1, Layout::Flat, &[false]);
    assert_eq!(ok.last(), Some(&Action::Sleep(10)));
    assert_eq!(failed.last(), Some(&Action::Sleep(10)));
    assert_eq!(skipped.last(), Some(&Action::Sleep(10)));
}

#[test]
fn every_item_is_reached_whatever_fails() {
    let mut seed: u32 = 12345;
    for _ in 0..200 {
        let mut run = Run::start(5, Layout::Grouped);
        let mut reached = vec![];
        let mut steps = 0;
        while !run.is_finished() {
            if let Action::EnsureDir(i) = run.request() {
                reached.push(i);
            }
            seed = seed.wrapping_mul(1103515245).wrapping_add(12345);
            run.advance((seed >> 16) & 1 == 1);
            steps += 1;
            assert!(steps <= 25);
        }
        assert_eq!(reached, vec![0, 1, 2, 3, 4]);
    }
}
