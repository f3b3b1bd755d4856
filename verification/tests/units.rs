use command_supervisor::report::IoErrorKind;
use command_supervisor::report::WorkOutcome;
use command_supervisor::units::Step;
use command_supervisor::units::count_script;
use command_supervisor::units::create_dir_outcome;
use command_supervisor::units::create_file_outcome;
use command_supervisor::units::needs_parent_creation;
use command_supervisor::units::read_file_outcome;
use command_supervisor::units::sleep_script;
use command_supervisor::units::unit_plan;
use command_supervisor::units::UnitPlan;
use command_supervisor::grammar::Command;

fn emitted_lines(script: &[Step]) -> Vec<String> {
    let mut lines = Vec::new();
    for step in script {
        if let Step::Emit(m) = step {
            lines.push(m.clone());
        }
    }
    lines
}

#[test]
fn sleep_script_announces_start_then_completion() {
    let s = sleep_script(3);
    assert_eq!(s.len(), 3);
    match &s[0] {
        Step::Emit(m) => assert_eq!(m, "Sleeper started with 3 seconds."),
        _ => panic!("expected a start line first"),
    }
    assert!(matches!(s[1], Step::Pause(3)));
    match &s[2] {
        Step::Emit(m) => assert_eq!(m, "Slept 3 seconds."),
        _ => panic!("expected a completion line last"),
    }
}

#[test]
fn count_script_emits_one_extra_tick() {
    let s = count_script(0);
    assert_eq!(s.len(), 2);
    assert_eq!(emitted_lines(&s), vec!["count 0".to_string()]);
    assert!(matches!(s[0], Step::Pause(1)));
    assert!(matches!(s[1], Step::Emit(_)));
}

#[test]
fn count_script_ticks_in_order() {
    let s = count_script(3);
    assert_eq!(s.len(), 8);
    assert_eq!(
        emitted_lines(&s),
        vec![
            "count 0".to_string(),
            "count 1".to_string(),
            "count 2".to_string(),
            "count 3".to_string(),
        ]
    );
    for (i, step) in s.iter().enumerate() {
        if i % 2 == 0 {
            assert!(matches!(step, Step::Pause(1)));
        } else {
            assert!(matches!(step, Step::Emit(_)));
        }
    }
}

#[test]
fn dispatcher_selects_the_matching_unit() {
    match unit_plan(Command::Sleep(2)) {
        Some(UnitPlan::Script(v)) => {
            let want = sleep_script(2);
            assert_eq!(v.len(), want.len());
        }
        _ => panic!("expected the sleeper's script"),
    }
    match unit_plan(Command::Count(2)) {
        Some(UnitPlan::Script(v)) => assert_eq!(v.len(), 6),
        _ => panic!("expected the counter's script"),
    }
    match unit_plan(Command::ReadFromFile("a.txt".to_string())) {
        Some(UnitPlan::ReadFile(p)) => assert_eq!(p, "a.txt"),
        _ => panic!("expected the file-reading unit"),
    }
    match unit_plan(Command::CreateFile("d/f".to_string())) {
        Some(UnitPlan::CreateFile(p)) => assert_eq!(p, "d/f"),
        _ => panic!("expected the file-creating unit"),
    }
    match unit_plan(Command::CreateDir("d".to_string())) {
        Some(UnitPlan::CreateDir(p)) => assert_eq!(p, "d"),
        _ => panic!("expected the directory-creating unit"),
    }
    assert!(unit_plan(Command::Exit).is_none());
}

#[test]
fn parent_creation_only_when_probe_inconclusive() {
    assert!(!needs_parent_creation(&Ok(true)));
    assert!(needs_parent_creation(&Ok(false)));
    assert!(needs_parent_creation(&Err(IoErrorKind::PermissionDenied)));
}

#[test]
fn read_outcome_carries_content() {
    match read_file_outcome(Ok("hello".to_string())) {
        WorkOutcome::Success(m) => assert_eq!(m, "hello"),
        _ => panic!("expected success"),
    }
    match read_file_outcome(Err((IoErrorKind::NotFound, "no such file".to_string()))) {
        WorkOutcome::Failure(k, m) => {
            assert_eq!(k, IoErrorKind::NotFound);
            assert_eq!(m, "no such file");
        }
        _ => panic!("expected failure"),
    }
}

#[test]
fn create_file_outcome_names_the_file() {
    match create_file_outcome("dir/new.txt", Ok(())) {
        WorkOutcome::Success(m) => assert_eq!(m, "File created \"dir/new.txt\""),
        _ => panic!("expected success"),
    }
    match create_file_outcome("dir/new.txt", Err((IoErrorKind::Other, "denied".to_string()))) {
        WorkOutcome::Failure(k, m) => {
            assert_eq!(k, IoErrorKind::Other);
            assert_eq!(m, "denied");
        }
        _ => panic!("expected failure"),
    }
}

#[test]
fn create_dir_outcome_names_the_directory() {
    match create_dir_outcome("a/b", Ok(())) {
        WorkOutcome::Success(m) => assert_eq!(m, "Dir created \"a/b\""),
        _ => panic!("expected success"),
    }
}
