use theshy::{Line, LineAge, LineType, LogTag, Status, WriteOutcome};

#[test]
fn line_type_next_follows_declaration_order() {
    assert_eq!(LineType::Fox.next(), Some(LineType::Caller));
    assert_eq!(LineType::Caller.next(), Some(LineType::Operator));
    assert_eq!(LineType::Operator.next(), Some(LineType::Spider));
    assert_eq!(LineType::Spider.next(), None);
}

#[test]
fn names_match_variants() {
    assert_eq!(LineType::Fox.name(), "Fox");
    assert_eq!(LineType::Spider.name(), "Spider");
    assert_eq!(LogTag::GoodBye.name(), "GoodBye");
    assert_eq!(LogTag::Unexpected.name(), "Unexpected");
}

#[test]
fn all_log_tags_in_order() {
    assert_eq!(
        LogTag::all(),
        vec![LogTag::Default, LogTag::Event, LogTag::Establish, LogTag::GoodBye, LogTag::Unexpected]
    );
}

#[test]
fn new_line_is_fresh() {
    let l = Line::new(7, LineType::Caller, 1000);
    assert_eq!(l.id(), 7);
    assert_eq!(l.partner_id(), 0);
    assert_eq!(l.status(), Status::Baby);
    assert_eq!(l.kind(), LineType::Caller);
    assert!(l.queue().is_empty());
    assert_eq!(l.stage(), 0);
    assert_eq!(l.host(), "");
    assert_eq!(l.born_time(), 1000);
    assert!(!l.is_dead());
}

#[test]
fn status_never_moves_back() {
    let mut l = Line::new(1, LineType::Fox, 0);
    l.set_status(Status::Working);
    assert_eq!(l.status(), Status::Working);
    l.set_status(Status::Baby);
    assert_eq!(l.status(), Status::Working);
    l.set_status(Status::Dead);
    assert_eq!(l.status(), Status::Dead);
    l.set_status(Status::Working);
    assert_eq!(l.status(), Status::Dead);
    assert!(l.is_dead());
}

#[test]
fn status_rank_order() {
    assert_eq!(Status::Baby.rank(), 0);
    assert_eq!(Status::Working.rank(), 1);
    assert_eq!(Status::Dead.rank(), 2);
}

#[test]
fn queue_is_fifo() {
    let mut l = Line::new(1, LineType::Caller, 0);
    l.add_queue(vec![1, 2, 3]);
    l.add_queue(vec![]);
    l.add_queue(vec![4, 5]);
    assert_eq!(l.queue(), &vec![1, 2, 3, 4, 5]);
    l.shrink_queue(2);
    assert_eq!(l.queue(), &vec![3, 4, 5]);
    l.shrink_queue(3);
    assert!(l.queue().is_empty());
    l.add_queue(vec![9]);
    l.clear_queue();
    assert!(l.queue().is_empty());
}

#[test]
fn pour_queue_outcomes() {
    let mut l = Line::new(1, LineType::Caller, 0);
    l.on_writable();
    l.add_queue(vec![1, 2, 3, 4]);
    assert!(l.can_send());
    assert!(!l.pour_queue(WriteOutcome::Wrote(3)));
    assert_eq!(l.queue(), &vec![4]);
    assert!(!l.pour_queue(WriteOutcome::WouldBlock));
    assert_eq!(l.queue(), &vec![4]);
    l.set_partner_id(9);
    assert!(l.pour_queue(WriteOutcome::Failed));
    assert!(l.is_dead());
    assert!(l.queue().is_empty());
    assert_eq!(l.partner_id(), 0);
    assert!(!l.can_send());
}

#[test]
fn go_die_reports_shutdown_only_for_working_lines() {
    let mut baby = Line::new(1, LineType::Caller, 0);
    baby.add_queue(vec![1]);
    assert!(!baby.go_die());
    assert!(baby.is_dead());
    assert!(baby.queue().is_empty());
    let mut working = Line::new(2, LineType::Caller, 0);
    working.on_writable();
    assert!(working.go_die());
    assert!(!working.go_die());
}

#[test]
fn on_error_kills_line() {
    let mut l = Line::new(1, LineType::Fox, 0);
    l.on_writable();
    l.on_error();
    assert_eq!(l.status(), Status::Dead);
    l.on_writable();
    assert_eq!(l.status(), Status::Dead);
}

#[test]
fn closing_flags_and_stage_and_host() {
    let mut l = Line::new(1, LineType::Fox, 0);
    l.read_closed();
    l.write_closed();
    l.next_stage();
    l.next_stage();
    assert_eq!(l.stage(), 2);
    l.set_host("example.com:443".to_string(), 5);
    assert_eq!(l.host(), "example.com:443");
    let _ = LineAge::Young;
}
