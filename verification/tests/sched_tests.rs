use slava::sched::Slava;

#[test]
fn tasks_are_polled_in_submission_order() {
    let mut s = Slava::slava();
    s.spawn(1);
    s.spawn(2);
    s.spawn(3);
    assert_eq!(s.run_singlethreaded(), vec![1, 2, 3]);
}

#[test]
fn run_terminates_when_queue_drains() {
    // Tasks that complete on their first poll never re-enter the queue, so
    // the worker loop ends once everything submitted has been polled.
    let mut s = Slava::slava();
    s.spawn(7);
    let polled = s.run_singlethreaded();
    assert_eq!(polled, vec![7]);
    assert_eq!(s.next_task(), None);
    assert_eq!(s.run_singlethreaded(), Vec::<u64>::new());
}

#[test]
fn wake_during_poll_leads_to_a_later_poll() {
    // Task 7 is being polled when its waker fires: the wake re-enqueues it,
    // and the rest of the run polls it again.
    let mut s = Slava::slava();
    s.spawn(7);
    assert_eq!(s.next_task(), Some(7));
    // ... task 7 is now mid-poll; the wake lands before it suspends ...
    s.wake(7);
    let polled = s.run_singlethreaded();
    assert!(polled.contains(&7));
}

#[test]
fn next_task_pops_the_oldest() {
    let mut s = Slava::slava();
    s.spawn(1);
    s.spawn(2);
    assert_eq!(s.next_task(), Some(1));
    assert_eq!(s.next_task(), Some(2));
    assert_eq!(s.next_task(), None);
}

#[test]
fn spawns_and_wakes_share_one_fifo_queue() {
    let mut s = Slava::slava();
    s.spawn(1);
    s.wake(9);
    s.spawn(2);
    assert_eq!(s.run_singlethreaded(), vec![1, 9, 2]);
}
