use command_supervisor::grammar::Command;

#[test]
fn parses_exit() {
    assert!(matches!(Command::from_str("exit"), Ok(Command::Exit)));
}

#[test]
fn exit_takes_no_argument() {
    assert!(Command::from_str("exit now").is_err());
    assert!(Command::from_str("exit ").is_err());
}

#[test]
fn parses_sleep() {
    assert!(matches!(Command::from_str("sleep 5"), Ok(Command::Sleep(5))));
    assert!(matches!(Command::from_str("sleep 0"), Ok(Command::Sleep(0))));
}

#[test]
fn parses_sleep_with_plus_sign() {
    assert!(matches!(Command::from_str("sleep +12"), Ok(Command::Sleep(12))));
}

#[test]
fn parses_count() {
    assert!(matches!(Command::from_str("count 3"), Ok(Command::Count(3))));
}

#[test]
fn parses_largest_count() {
    assert!(matches!(
        Command::from_str("count 18446744073709551615"),
        Ok(Command::Count(u64::MAX))
    ));
}

#[test]
fn rejects_count_too_large() {
    assert!(Command::from_str("count 18446744073709551616").is_err());
}

#[test]
fn rejects_non_numeric_argument() {
    assert!(Command::from_str("sleep five").is_err());
    assert!(Command::from_str("count 5x").is_err());
    assert!(Command::from_str("sleep -1").is_err());
    assert!(Command::from_str("sleep +").is_err());
    assert!(Command::from_str("sleep").is_err());
}

#[test]
fn parses_readfromfile() {
    match Command::from_str("readfromfile notes.txt") {
        Ok(Command::ReadFromFile(p)) => assert_eq!(p, "notes.txt"),
        _ => panic!("expected a file-reading command"),
    }
}

#[test]
fn parses_createfile() {
    match Command::from_str("createfile dir/new.txt") {
        Ok(Command::CreateFile(p)) => assert_eq!(p, "dir/new.txt"),
        _ => panic!("expected a file-creating command"),
    }
}

#[test]
fn parses_createdir() {
    match Command::from_str("createdir a/b/c") {
        Ok(Command::CreateDir(p)) => assert_eq!(p, "a/b/c"),
        _ => panic!("expected a directory-creating command"),
    }
}

#[test]
fn rejects_unknown_verb() {
    assert!(Command::from_str("jump 3").is_err());
    assert!(Command::from_str("").is_err());
    assert!(Command::from_str("slumber").is_err());
}

#[test]
fn rejects_wrong_arity() {
    assert!(Command::from_str("sleep 3 4").is_err());
    assert!(Command::from_str("readfromfile").is_err());
    assert!(Command::from_str("createdir a b").is_err());
    assert!(Command::from_str("sleep  5").is_err());
}
