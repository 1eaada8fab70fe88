use visual::chart::{BeatAction, Scheduler};

fn scheduler_of(times: &[u64]) -> Scheduler<usize> {
    let actions = times
        .iter()
        .enumerate()
        .map(|(i, &t)| BeatAction::new(t, i % 3, i))
        .collect();
    Scheduler::new(actions)
}

fn times(actions: &[BeatAction<usize>]) -> Vec<u64> {
    actions.iter().map(|a| a.start_time).collect()
}

#[test]
fn update_performs_earliest_first() {
    let mut scheduler = scheduler_of(&[40, 10, 30, 20, 50]);
    assert_eq!(scheduler.len(), 5);
    let due = scheduler.update(35);
    assert_eq!(times(&due), vec![10, 20, 30]);
    assert_eq!(scheduler.len(), 2);
    let due = scheduler.update(100);
    assert_eq!(times(&due), vec![40, 50]);
    assert_eq!(scheduler.len(), 0);
}

#[test]
fn update_keeps_actions_at_the_current_time() {
    let mut scheduler = scheduler_of(&[10, 20]);
    let due = scheduler.update(20);
    assert_eq!(times(&due), vec![10]);
    let due = scheduler.update(21);
    assert_eq!(times(&due), vec![20]);
}

#[test]
fn update_twice_at_same_time_does_nothing_more() {
    let mut scheduler = scheduler_of(&[5, 15, 25]);
    assert_eq!(scheduler.update(16).len(), 2);
    assert!(scheduler.update(16).is_empty());
    assert_eq!(scheduler.len(), 1);
}

#[test]
fn catching_up_in_steps_equals_at_once() {
    let mut stepped = scheduler_of(&[3, 9, 1, 7, 5]);
    let mut once = scheduler_of(&[3, 9, 1, 7, 5]);
    let mut all = stepped.update(4);
    all.extend(stepped.update(8));
    let at_once = once.update(8);
    assert_eq!(times(&all), times(&at_once));
    assert_eq!(times(&all), vec![1, 3, 5, 7]);
}

#[test]
fn actions_keep_their_payload() {
    let mut scheduler = scheduler_of(&[30, 10, 20]);
    let due = scheduler.update(u64::MAX);
    let payloads: Vec<usize> = due.iter().map(|a| a.action).collect();
    assert_eq!(payloads, vec![1, 2, 0]);
    let groups: Vec<usize> = due.iter().map(|a| a.group_number).collect();
    assert_eq!(groups, vec![1, 2, 0]);
}

#[test]
fn equal_times_are_all_performed() {
    let mut scheduler = scheduler_of(&[7, 7, 7, 2]);
    let due = scheduler.update(8);
    assert_eq!(times(&due), vec![2, 7, 7, 7]);
    let mut payloads: Vec<usize> = due.iter().map(|a| a.action).collect();
    payloads.sort();
    assert_eq!(payloads, vec![0, 1, 2, 3]);
}

#[test]
fn empty_scheduler() {
    let mut scheduler: Scheduler<usize> = Scheduler::new(Vec::new());
    assert!(scheduler.update(0).is_empty());
    assert!(scheduler.update(u64::MAX).is_empty());
}

#[test]
fn beat_action_new_keeps_fields() {
    let action = BeatAction::new(42, 3, "laser");
    assert_eq!(action.start_time, 42);
    assert_eq!(action.group_number, 3);
    assert_eq!(action.action, "laser");
}
