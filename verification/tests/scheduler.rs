use static_priority::{StatPrioScheduler, StatPrioTask};
use std::sync::Arc;

type Task = Arc<StatPrioTask<&'static str, 4>>;

fn task_at(name: &'static str, level: isize) -> Task {
    let task = Arc::new(StatPrioTask::new(name));
    assert!(task.set_priority(level));
    task
}

fn ready() -> StatPrioScheduler<&'static str, 4> {
    let mut scheduler = StatPrioScheduler::new();
    scheduler.init();
    scheduler
}

fn picked_name(scheduler: &mut StatPrioScheduler<&'static str, 4>) -> Option<&'static str> {
    scheduler.pick_next_task().map(|task| *task.inner())
}

#[test]
fn scheduler_name_is_static_priority() {
    assert_eq!(StatPrioScheduler::<(), 4>::scheduler_name(), "Static Priority");
}

#[test]
fn init_creates_the_queues() {
    let mut scheduler = StatPrioScheduler::<(), 4>::new();
    assert!(!scheduler.is_initialized());
    scheduler.init();
    assert!(scheduler.is_initialized());
    assert_eq!(scheduler.highest_priority(), 4);
    assert!(scheduler.pick_next_task().is_none());
}

#[test]
fn same_level_is_first_in_first_out() {
    let mut scheduler = ready();
    for name in ["a", "b", "c", "d", "e"] {
        scheduler.add_task(task_at(name, 2));
    }
    for name in ["a", "b", "c", "d", "e"] {
        assert_eq!(picked_name(&mut scheduler), Some(name));
    }
    assert_eq!(picked_name(&mut scheduler), None);
}

#[test]
fn more_urgent_level_is_picked_first_whatever_the_order() {
    let mut scheduler = ready();
    scheduler.add_task(task_at("low", 3));
    scheduler.add_task(task_at("high", 1));
    assert_eq!(picked_name(&mut scheduler), Some("high"));
    assert_eq!(picked_name(&mut scheduler), Some("low"));

    scheduler.add_task(task_at("high", 1));
    scheduler.add_task(task_at("low", 3));
    assert_eq!(picked_name(&mut scheduler), Some("high"));
    assert_eq!(picked_name(&mut scheduler), Some("low"));
    assert_eq!(picked_name(&mut scheduler), None);
}

#[test]
fn mixed_levels_come_out_by_level_then_age() {
    let mut scheduler = ready();
    scheduler.add_task(task_at("A", 2));
    scheduler.add_task(task_at("B", 0));
    scheduler.add_task(task_at("C", 2));
    scheduler.add_task(task_at("D", 1));
    assert_eq!(picked_name(&mut scheduler), Some("B"));
    assert_eq!(picked_name(&mut scheduler), Some("D"));
    assert_eq!(picked_name(&mut scheduler), Some("A"));
    assert_eq!(picked_name(&mut scheduler), Some("C"));
    assert_eq!(picked_name(&mut scheduler), None);
}

#[test]
fn preempted_task_goes_to_the_front() {
    let mut scheduler = ready();
    scheduler.add_task(task_at("x", 2));
    scheduler.add_task(task_at("y", 2));
    scheduler.put_prev_task(task_at("t", 2), true);
    assert_eq!(picked_name(&mut scheduler), Some("t"));
    assert_eq!(picked_name(&mut scheduler), Some("x"));
    assert_eq!(picked_name(&mut scheduler), Some("y"));
}

#[test]
fn yielding_task_goes_to_the_back() {
    let mut scheduler = ready();
    scheduler.add_task(task_at("x", 2));
    scheduler.add_task(task_at("y", 2));
    scheduler.put_prev_task(task_at("t", 2), false);
    assert_eq!(picked_name(&mut scheduler), Some("x"));
    assert_eq!(picked_name(&mut scheduler), Some("y"));
    assert_eq!(picked_name(&mut scheduler), Some("t"));
}

#[test]
fn preempted_task_resumes_before_waiting_peer() {
    let mut scheduler = ready();
    let a = task_at("A", 2);
    let b = task_at("B", 0);
    scheduler.add_task(a.clone());
    let running = scheduler.pick_next_task().unwrap();
    assert!(Arc::ptr_eq(&running, &a));
    scheduler.add_task(task_at("X", 2));
    scheduler.add_task(b);
    assert!(scheduler.task_tick(&running));
    scheduler.put_prev_task(running, true);
    assert_eq!(picked_name(&mut scheduler), Some("B"));
    assert_eq!(picked_name(&mut scheduler), Some("A"));
    assert_eq!(picked_name(&mut scheduler), Some("X"));
}

#[test]
fn preempted_task_still_waits_for_more_urgent_levels() {
    let mut scheduler = ready();
    scheduler.add_task(task_at("urgent", 0));
    scheduler.put_prev_task(task_at("t", 1), true);
    assert_eq!(picked_name(&mut scheduler), Some("urgent"));
    assert_eq!(picked_name(&mut scheduler), Some("t"));
}

#[test]
fn put_at_uses_the_given_level() {
    let mut scheduler = ready();
    let task = task_at("t", 3);
    scheduler.put_at(task, 0, false);
    assert_eq!(scheduler.highest_priority(), 0);
    scheduler.put_at(task_at("front", 0), 0, true);
    assert_eq!(picked_name(&mut scheduler), Some("front"));
    assert_eq!(picked_name(&mut scheduler), Some("t"));
}

#[test]
fn tick_asks_for_a_switch_when_a_more_urgent_task_is_ready() {
    let mut scheduler = ready();
    let a = task_at("A", 2);
    scheduler.add_task(task_at("B", 0));
    assert!(scheduler.task_tick(&a));
}

#[test]
fn tick_keeps_running_when_only_less_urgent_tasks_are_ready() {
    let mut scheduler = ready();
    let a = task_at("A", 2);
    scheduler.add_task(task_at("C", 3));
    assert!(!scheduler.task_tick(&a));
}

#[test]
fn tick_keeps_running_when_a_peer_is_ready() {
    let mut scheduler = ready();
    let a = task_at("A", 2);
    scheduler.add_task(task_at("peer", 2));
    assert!(!scheduler.task_tick(&a));
}

#[test]
fn tick_keeps_running_when_nothing_is_ready() {
    let mut scheduler = ready();
    for level in 0..4 {
        assert!(!scheduler.task_tick(&task_at("A", level)));
    }
}

#[test]
fn tick_agrees_with_highest_priority_at_every_level() {
    for ready_level in 0..4isize {
        let mut scheduler = ready();
        scheduler.add_task(task_at("r", ready_level));
        for level in 0..4isize {
            let current = task_at("c", level);
            let expected = scheduler.highest_priority() < current.get_priority();
            assert_eq!(scheduler.task_tick(&current), expected);
            assert_eq!(scheduler.preempts(level as usize), ready_level < level);
        }
    }
}

#[test]
fn tick_changes_no_queue() {
    let mut scheduler = ready();
    scheduler.add_task(task_at("a", 1));
    scheduler.add_task(task_at("b", 1));
    assert!(scheduler.task_tick(&task_at("c", 3)));
    assert_eq!(picked_name(&mut scheduler), Some("a"));
    assert_eq!(picked_name(&mut scheduler), Some("b"));
    assert_eq!(picked_name(&mut scheduler), None);
}

#[test]
fn highest_priority_is_the_first_level_in_use() {
    let mut scheduler = ready();
    assert_eq!(scheduler.highest_priority(), 4);
    scheduler.add_task(task_at("a", 3));
    assert_eq!(scheduler.highest_priority(), 3);
    scheduler.add_task(task_at("b", 1));
    assert_eq!(scheduler.highest_priority(), 1);
    scheduler.add_task(task_at("c", 2));
    assert_eq!(scheduler.highest_priority(), 1);
    assert_eq!(picked_name(&mut scheduler), Some("b"));
    assert_eq!(scheduler.highest_priority(), 2);
}

#[test]
fn remove_of_absent_task_changes_nothing() {
    let mut scheduler = ready();
    scheduler.add_task(task_at("a", 1));
    scheduler.add_task(task_at("b", 1));
    let stranger = task_at("a", 1);
    assert!(scheduler.remove_task(&stranger).is_none());
    assert_eq!(picked_name(&mut scheduler), Some("a"));
    assert_eq!(picked_name(&mut scheduler), Some("b"));
    assert_eq!(picked_name(&mut scheduler), None);
}

#[test]
fn remove_on_empty_scheduler_finds_nothing() {
    let mut scheduler = ready();
    assert!(scheduler.remove_task(&task_at("a", 0)).is_none());
    assert_eq!(scheduler.highest_priority(), 4);
}

#[test]
fn remove_takes_that_task_and_keeps_the_order() {
    let mut scheduler = ready();
    let b = task_at("b", 2);
    scheduler.add_task(task_at("a", 2));
    scheduler.add_task(b.clone());
    scheduler.add_task(task_at("c", 2));
    scheduler.add_task(task_at("d", 3));
    let removed = scheduler.remove_task(&b).unwrap();
    assert!(Arc::ptr_eq(&removed, &b));
    assert!(scheduler.remove_task(&b).is_none());
    assert_eq!(picked_name(&mut scheduler), Some("a"));
    assert_eq!(picked_name(&mut scheduler), Some("c"));
    assert_eq!(picked_name(&mut scheduler), Some("d"));
    assert_eq!(picked_name(&mut scheduler), None);
}

#[test]
fn remove_goes_by_the_task_not_by_its_content() {
    let mut scheduler = ready();
    let first = task_at("twin", 1);
    let second = task_at("twin", 1);
    scheduler.add_task(first.clone());
    scheduler.add_task(second.clone());
    let removed = scheduler.remove_task(&second).unwrap();
    assert!(Arc::ptr_eq(&removed, &second));
    assert!(!Arc::ptr_eq(&removed, &first));
    let left = scheduler.pick_next_task().unwrap();
    assert!(Arc::ptr_eq(&left, &first));
}

#[test]
fn remove_takes_one_occurrence_only() {
    let mut scheduler = ready();
    let t = task_at("t", 1);
    scheduler.add_task(t.clone());
    scheduler.add_task(task_at("u", 1));
    scheduler.add_task(t.clone());
    assert!(scheduler.remove_task(&t).is_some());
    assert_eq!(picked_name(&mut scheduler), Some("u"));
    assert_eq!(picked_name(&mut scheduler), Some("t"));
    assert_eq!(picked_name(&mut scheduler), None);
}

#[test]
fn remove_finds_a_task_whose_level_changed_while_queued() {
    let mut scheduler = ready();
    let t = task_at("t", 3);
    scheduler.add_task(t.clone());
    assert!(scheduler.set_priority(&t, 0));
    assert!(scheduler.remove_task(&t).is_some());
    assert_eq!(scheduler.highest_priority(), 4);
}

#[test]
fn scheduler_set_priority_reports_and_stores() {
    let mut scheduler = ready();
    let t = task_at("t", 1);
    assert!(scheduler.set_priority(&t, 3));
    assert_eq!(t.get_priority(), 3);
    assert!(!scheduler.set_priority(&t, 4));
    assert_eq!(t.get_priority(), 3);
    assert!(!scheduler.set_priority(&t, -1));
    assert_eq!(t.get_priority(), 3);
    assert!(scheduler.set_priority(&t, 0));
    assert_eq!(t.get_priority(), 0);
}

#[test]
fn set_priority_leaves_a_queued_task_in_its_queue() {
    let mut scheduler = ready();
    let t = task_at("t", 3);
    scheduler.add_task(t.clone());
    scheduler.add_task(task_at("u", 2));
    assert!(scheduler.set_priority(&t, 0));
    assert_eq!(scheduler.highest_priority(), 2);
    assert_eq!(picked_name(&mut scheduler), Some("u"));
    assert_eq!(picked_name(&mut scheduler), Some("t"));
    scheduler.add_task(t);
    assert_eq!(scheduler.highest_priority(), 0);
}

#[test]
fn single_level_scheduler_is_plain_fifo() {
    let mut scheduler = StatPrioScheduler::<u8, 1>::new();
    scheduler.init();
    assert_eq!(scheduler.highest_priority(), 1);
    scheduler.add_task(Arc::new(StatPrioTask::new(1)));
    scheduler.add_task(Arc::new(StatPrioTask::new(2)));
    scheduler.put_prev_task(Arc::new(StatPrioTask::new(3)), true);
    assert_eq!(scheduler.highest_priority(), 0);
    assert_eq!(scheduler.pick_next_task().map(|t| *t.inner()), Some(3));
    assert_eq!(scheduler.pick_next_task().map(|t| *t.inner()), Some(1));
    assert_eq!(scheduler.pick_next_task().map(|t| *t.inner()), Some(2));
    assert!(scheduler.pick_next_task().is_none());
}
