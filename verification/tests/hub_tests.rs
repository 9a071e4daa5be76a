use theshy::{EventFlags, EventStep, Hub, LineAge, LineType, Route, Status, WriteOutcome};

fn flags(error: bool, writable: bool, readable: bool, write_closed: bool, read_closed: bool) -> EventFlags {
    EventFlags { error, writable, readable, write_closed, read_closed }
}

#[test]
fn ids_are_handed_out_in_order() {
    let mut h = Hub::new(0);
    let a = h.new_line(LineType::Fox, 0);
    let b = h.new_line(LineType::Caller, 0);
    assert_eq!((a, b), (1, 2));
    assert!(h.contains(1) && h.contains(2) && !h.contains(3));
    assert_eq!(h.get_line_by_id(2).kind(), LineType::Caller);
    let mut h = Hub::new(100);
    assert_eq!(h.new_line(LineType::Fox, 0), 101);
}

#[test]
fn pool_is_first_in_first_out() {
    let mut h = Hub::new(0);
    let c1 = h.add_one_caller(0);
    let c2 = h.add_one_caller(0);
    assert_eq!(h.idle_caller_count(), 2);
    assert_eq!(h.idle_caller(), Some(c1));
    assert_eq!(h.idle_caller(), Some(c2));
    assert_eq!(h.idle_caller(), None);
}

#[test]
fn browser_line_is_paired_with_oldest_caller() {
    let mut h = Hub::new(0);
    let c1 = h.add_one_caller(0);
    let _c2 = h.add_one_caller(0);
    let f = h.new_line(LineType::Fox, 0);
    let r = h.attach_caller(f, vec![1, 2]);
    assert_eq!(r, Some(c1));
    assert_eq!(h.get_line_by_id(f).partner_id(), c1);
    assert_eq!(h.get_line_by_id(c1).partner_id(), f);
    assert_eq!(h.get_line_by_id(c1).queue(), &vec![1, 2]);
    assert_eq!(h.idle_caller_count(), 1);
    let mut empty = Hub::new(0);
    let g = empty.new_line(LineType::Fox, 0);
    assert_eq!(empty.attach_caller(g, vec![1]), None);
}

#[test]
fn fox_data_is_routed() {
    let mut h = Hub::new(0);
    let f = h.new_line(LineType::Fox, 0);
    assert!(matches!(h.on_data(f, vec![]), Route::Nothing));
    assert!(matches!(h.on_data(f, vec![5, 1, 0]), Route::Nothing));
    assert_eq!(h.get_line_by_id(f).queue(), &vec![5, 0]);
    assert!(matches!(h.on_data(f, vec![5, 1, 0, 1, 1, 2, 3, 4, 0, 80]), Route::Nothing));
    assert_eq!(h.get_line_by_id(f).host(), "1.2.3.4:80");
    let out = match h.on_data(f, vec![1]) {
        Route::NeedsCaller(d) => d,
        _ => panic!("expected a caller request"),
    };
    let c = h.add_one_caller(0);
    assert_eq!(h.attach_caller(f, out.clone()), Some(c));
    assert_eq!(h.get_line_by_id(c).queue(), &out);
    match h.on_data(f, vec![7, 8]) {
        Route::Forwarded(p) => assert_eq!(p, c),
        _ => panic!("expected forwarding"),
    }
    assert_eq!(h.get_line_by_id(c).queue().len(), out.len() + 2);
    match h.on_data(c, vec![3]) {
        Route::Forwarded(p) => assert_eq!(p, f),
        _ => panic!("expected forwarding"),
    }
    assert_eq!(h.get_line_by_id(f).queue(), &vec![5, 0, 5, 0, 0, 1, 0, 0, 0, 0, 0, 0, 3]);
}

#[test]
fn read_close_ends_the_pair() {
    let mut h = Hub::new(0);
    let c = h.add_one_caller(0);
    let f = h.new_line(LineType::Fox, 0);
    h.attach_caller(f, vec![]);
    h.on_writable(c);
    h.on_writable(f);
    let mut shut = h.on_read_closed(f);
    shut.sort();
    assert_eq!(shut, vec![c, f]);
    assert!(h.get_line_by_id(f).is_dead());
    assert!(h.get_line_by_id(c).is_dead());
    assert_eq!(h.dead_count(), 2);
    assert_eq!(h.get_line_by_id(c).partner_id(), 0);
}

#[test]
fn error_does_not_shut_the_failed_stream() {
    let mut h = Hub::new(0);
    let c = h.add_one_caller(0);
    let f = h.new_line(LineType::Fox, 0);
    h.attach_caller(f, vec![]);
    h.on_writable(c);
    h.on_writable(f);
    assert_eq!(h.on_error(f), vec![c]);
    assert_eq!(h.dead_count(), 2);
}

#[test]
fn process_and_finish_dispatch() {
    let mut h = Hub::new(0);
    let c = h.add_one_caller(0);
    match h.process(c, flags(false, true, true, false, false)) {
        EventStep::Continue { send, read } => assert!(send && read),
        _ => panic!("expected to continue"),
    }
    assert_eq!(h.get_line_by_id(c).status(), Status::Working);
    assert!(h.finish(c, flags(false, false, false, true, false)).is_empty());
    assert_eq!(h.finish(c, flags(false, false, false, false, true)), vec![c]);
    assert!(matches!(h.process(c, flags(false, true, true, false, false)), EventStep::Ignore));
    let d = h.add_one_caller(0);
    match h.process(d, flags(true, false, false, false, false)) {
        EventStep::Failed(ids) => assert!(ids.is_empty()),
        _ => panic!("expected failure"),
    }
    assert!(h.get_line_by_id(d).is_dead());
}

#[test]
fn pour_queue_through_hub() {
    let mut h = Hub::new(0);
    let c = h.add_one_caller(0);
    let f = h.new_line(LineType::Fox, 0);
    h.attach_caller(f, vec![1, 2, 3]);
    h.on_writable(c);
    assert!(!h.pour_queue(c, WriteOutcome::Wrote(2)));
    assert_eq!(h.get_line_by_id(c).queue(), &vec![3]);
    assert!(h.pour_queue(c, WriteOutcome::Failed));
    assert!(h.get_line_by_id(c).is_dead());
    assert_eq!(h.dead_count(), 1);
}

#[test]
fn ages_of_callers() {
    let mut h = Hub::new(0);
    let baby = h.add_one_caller(0);
    let working = h.add_one_caller(0);
    h.on_writable(working);
    let fox = h.new_line(LineType::Fox, 0);
    assert_eq!(h.age(baby, 5000), LineAge::Young);
    assert_eq!(h.age(baby, 5001), LineAge::Fail);
    assert_eq!(h.age(working, 180_000), LineAge::Young);
    assert_eq!(h.age(working, 180_001), LineAge::Old);
    assert_eq!(h.age(fox, 999_999), LineAge::Defalut);
    h.kill_line_by_id(baby);
    assert_eq!(h.age(baby, 999_999), LineAge::Defalut);
}

#[test]
fn old_check_keeps_only_young_callers() {
    let mut h = Hub::new(0);
    let fail = h.add_one_caller(0);
    let old = h.add_one_caller(0);
    h.on_writable(old);
    let young = h.add_one_caller(150_000);
    h.on_writable(young);
    let dead = h.add_one_caller(0);
    h.kill_line_by_id(dead);
    let r = h.old_check(200_000, 1);
    assert_eq!((r.young, r.fail, r.old, r.dead), (1, 1, 1, 1));
    assert!(r.alarm);
    assert_eq!(r.shutdown, vec![old]);
    assert_eq!(h.idle_caller_list().iter().cloned().collect::<Vec<u64>>(), vec![young]);
    assert!(h.get_line_by_id(fail).is_dead());
    assert!(h.get_line_by_id(old).is_dead());
    assert_eq!(h.dead_count(), 3);
    let r = h.old_check(200_000, 4);
    assert!(!r.alarm);
}

#[test]
fn dead_check_sweeps_dead_lines() {
    let mut h = Hub::new(0);
    let a = h.add_one_caller(0);
    let b = h.add_one_caller(0);
    h.kill_line_by_id(a);
    let removed = h.dead_check();
    assert_eq!(removed, vec![a]);
    assert!(!h.contains(a));
    assert!(h.contains(b));
    assert_eq!(h.idle_caller_list().iter().cloned().collect::<Vec<u64>>(), vec![b]);
    assert_eq!(h.dead_count(), 0);
}

#[test]
fn health_check_asks_for_the_whole_pool() {
    let mut h = Hub::new(0);
    assert_eq!(h.health_check(3), 3);
    h.add_one_caller(0);
    assert_eq!(h.health_check(3), 3);
    h.add_one_caller(0);
    h.add_one_caller(0);
    assert_eq!(h.health_check(3), 0);
}

#[test]
fn check_runs_all_steps() {
    let mut h = Hub::new(0);
    let fail = h.add_one_caller(0);
    let young = h.add_one_caller(0);
    h.on_writable(young);
    let plan = h.check(6000, 2);
    assert_eq!(plan.report.fail, 1);
    assert_eq!(plan.removed, vec![fail]);
    assert_eq!(plan.add_callers, 2);
    assert!(!h.contains(fail));
    assert_eq!(h.idle_caller_count(), 1);
}
