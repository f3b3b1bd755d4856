use command_supervisor::grammar::Command;
use command_supervisor::supervisor::LineOutcome;
use command_supervisor::supervisor::Mode;
use command_supervisor::supervisor::Supervisor;

#[test]
fn starts_accepting_with_nothing_issued() {
    let s = Supervisor::new();
    assert_eq!(s.current_mode(), Mode::Accepting);
    assert_eq!(s.handle_count(), 0);
}

#[test]
fn dispatches_parsed_commands_in_order() {
    let mut s = Supervisor::new();
    match s.on_line("sleep 5") {
        LineOutcome::Dispatched(Command::Sleep(5)) => {}
        _ => panic!("expected the sleep command to be dispatched"),
    }
    match s.on_line("readfromfile existing.txt") {
        LineOutcome::Dispatched(Command::ReadFromFile(p)) => assert_eq!(p, "existing.txt"),
        _ => panic!("expected the read command to be dispatched"),
    }
    assert_eq!(s.handle_count(), 2);
    assert_eq!(s.current_mode(), Mode::Accepting);
}

#[test]
fn invalid_line_changes_nothing_and_keeps_accepting() {
    let mut s = Supervisor::new();
    s.on_line("sleep 1");
    assert!(matches!(s.on_line("frobnicate 9"), LineOutcome::Invalid));
    assert!(matches!(s.on_line("sleep five"), LineOutcome::Invalid));
    assert_eq!(s.current_mode(), Mode::Accepting);
    assert_eq!(s.handle_count(), 1);
}

#[test]
fn exit_begins_the_drain() {
    let mut s = Supervisor::new();
    s.on_line("count 2");
    assert!(matches!(s.on_line("exit"), LineOutcome::ExitRequested));
    assert_eq!(s.current_mode(), Mode::Draining);
    assert_eq!(s.handle_count(), 1);
}

#[test]
fn drain_hands_out_every_handle_in_issue_order() {
    let mut s = Supervisor::new();
    s.on_line("sleep 3");
    s.on_line("readfromfile a.txt");
    s.on_line("createdir d");
    s.on_line("exit");
    assert_eq!(s.drain_next(), Some(0));
    assert_eq!(s.drain_next(), Some(1));
    assert_eq!(s.drain_next(), Some(2));
    assert_eq!(s.drain_next(), None);
    assert_eq!(s.current_mode(), Mode::Terminated);
}

#[test]
fn drain_of_empty_record_terminates_at_once() {
    let mut s = Supervisor::new();
    s.on_line("exit");
    assert_eq!(s.drain_next(), None);
    assert_eq!(s.current_mode(), Mode::Terminated);
}
