use rlox::error::LoxError;
use rlox::executive::{
    has_prefix, trim, Executor, PathStatus, ReplAction, ReplEvent, MAX_SOURCE_FILE_SIZE,
};

fn lines(text: &[&str]) -> Vec<String> {
    text.iter().map(|line| line.to_string()).collect()
}

fn expect_error_containing(result: Result<(), LoxError>, part: &str) -> Result<(), LoxError> {
    match result {
        Ok(()) => Err(LoxError::new("expected error")),
        Err(err) => {
            if !err.to_string().contains(part) {
                Err(err)
            } else {
                Ok(())
            }
        }
    }
}

fn file(len: u64) -> PathStatus {
    PathStatus::Found { is_file: true, len }
}

#[test]
fn create_default_executor() {
    let _ = Executor::new();
}

#[test]
fn load_non_existent_file() -> Result<(), LoxError> {
    let e = Executor::new();
    let status = PathStatus::Unavailable("No such file or directory (os error 2)".to_string());
    let mut printed = Vec::new();
    let result = e.run_file("not-a-file.file", &status, &Vec::new(), &mut printed);
    assert!(printed.is_empty());
    expect_error_containing(result, "No such file")
}

#[test]
fn load_too_big_file() -> Result<(), LoxError> {
    let e = Executor::new();
    let mut printed = Vec::new();
    let result = e.run_file("large.file", &file(70000), &lines(&["print 1"]), &mut printed);
    assert!(printed.is_empty());
    expect_error_containing(result, "is too large")
}

#[test]
fn load_directory() -> Result<(), LoxError> {
    let e = Executor::new();
    let status = PathStatus::Found { is_file: false, len: 4096 };
    let mut printed = Vec::new();
    let result = e.run_file(".", &status, &lines(&["print 1"]), &mut printed);
    assert!(printed.is_empty());
    expect_error_containing(result, "is not a file")
}

#[test]
fn load_file_with_bad_statement() -> Result<(), LoxError> {
    let e = Executor::new();
    let source = lines(&["print \"one\";", "var a = 1;", "a = 2;", "print a;"]);
    let mut printed = Vec::new();
    let result = e.run_file("test-bad.lox", &file(44), &source, &mut printed);
    assert_eq!(printed, lines(&["print \"one\";", "var a = 1;"]));
    expect_error_containing(result, "Bad input")
}

#[test]
fn file_messages_are_exact() {
    let e = Executor::new();
    let status = PathStatus::Found { is_file: false, len: 1 };
    assert_eq!(
        e.check_file("some/dir", &status).unwrap_err().to_string(),
        "Path some/dir is not a file.."
    );
    assert_eq!(
        e.check_file("big.lox", &file(65536)).unwrap_err().to_string(),
        "File big.lox is too large (65536 > 65535).."
    );
    assert_eq!(
        e.check_file("huge.lox", &file(u64::MAX)).unwrap_err().message(),
        "File huge.lox is too large (18446744073709551615 > 65535)."
    );
    let status = PathStatus::Unavailable("Permission denied (os error 13)".to_string());
    assert_eq!(e.check_file("x", &status).unwrap_err().to_string(), "Permission denied (os error 13).");
}

#[test]
fn file_size_limit_is_inclusive() {
    let e = Executor::new();
    assert_eq!(MAX_SOURCE_FILE_SIZE, 65535);
    assert!(e.check_file("a.lox", &file(0)).is_ok());
    assert!(e.check_file("a.lox", &file(65535)).is_ok());
    assert!(e.check_file("a.lox", &file(65536)).is_err());
    // A directory is refused for what it is, whatever its size.
    let status = PathStatus::Found { is_file: false, len: 70000 };
    assert!(e.check_file("d", &status).unwrap_err().message().contains("is not a file"));
}

#[test]
fn run_file_prints_every_line_of_a_good_file() {
    let e = Executor::new();
    let source = lines(&["print 1;", "var x;", "printer", "variable"]);
    let mut printed = lines(&["earlier"]);
    assert!(e.run_file("good.lox", &file(30), &source, &mut printed).is_ok());
    assert_eq!(printed, lines(&["earlier", "print 1;", "var x;", "printer", "variable"]));
    let mut printed = Vec::new();
    assert!(e.run_file("empty.lox", &file(0), &Vec::new(), &mut printed).is_ok());
    assert!(printed.is_empty());
}

#[test]
fn run_file_stops_at_the_first_bad_line() {
    let e = Executor::new();
    let source = lines(&["print 1;", "", "print 2;"]);
    let mut printed = Vec::new();
    let error = e.run_file("f.lox", &file(20), &source, &mut printed).unwrap_err();
    assert_eq!(error.to_string(), "Bad input: .");
    assert_eq!(printed, lines(&["print 1;"]));
    let source = lines(&["  print 1;"]);
    let mut printed = Vec::new();
    let error = e.run_file("f.lox", &file(20), &source, &mut printed).unwrap_err();
    assert_eq!(error.message(), "Bad input:   print 1;");
    assert!(printed.is_empty());
}

#[test]
fn run_line_echoes_print_and_var() {
    let e = Executor::new();
    assert_eq!(e.run_line("print 1").unwrap(), "print 1");
    assert_eq!(e.run_line("print").unwrap(), "print");
    assert_eq!(e.run_line("var").unwrap(), "var");
    assert_eq!(e.run_line("var x = \u{3b1};").unwrap(), "var x = \u{3b1};");
    for bad in ["", "p", "prin", "Print 1", " print", "va", "1 + 2", "x = var"] {
        assert_eq!(
            e.run_line(bad).unwrap_err().to_string(),
            format!("Bad input: {}.", bad),
            "Input was {:?}",
            bad
        );
    }
}

#[test]
fn has_prefix_compares_characters() {
    assert!(has_prefix("print", "print"));
    assert!(has_prefix("print", ""));
    assert!(has_prefix("", ""));
    assert!(!has_prefix("", "p"));
    assert!(!has_prefix("prin", "print"));
    assert!(has_prefix("\u{e9}t\u{e9}", "\u{e9}t"));
    assert!(!has_prefix("ete", "\u{e9}t"));
}

#[test]
fn error_text_ends_with_a_period() {
    let error = LoxError::new("Something failed");
    assert_eq!(error.message(), "Something failed");
    assert_eq!(error.to_string(), "Something failed.");
    assert_eq!(error.clone().to_string(), "Something failed.");
    assert_eq!(LoxError::new("").to_string(), ".");
}

fn action_text(action: ReplAction) -> String {
    match action {
        ReplAction::Stop => "stop".to_string(),
        ReplAction::Skip => "skip".to_string(),
        ReplAction::Print(text) => format!("print {:?}", text),
        ReplAction::Report(error) => format!("report {:?}", error.to_string()),
    }
}

#[test]
fn repl_stops_at_the_end_of_input() {
    let e = Executor::new();
    assert_eq!(action_text(e.run_repl(&ReplEvent::EndOfInput)), "stop");
}

#[test]
fn repl_skips_blank_lines() {
    let e = Executor::new();
    for blank in ["", "\n", "   \n", "\t \r\n", "\u{a0}\u{3000}"] {
        let event = ReplEvent::Line(blank.to_string());
        assert_eq!(action_text(e.run_repl(&event)), "skip", "Input was {:?}", blank);
    }
}

#[test]
fn repl_runs_the_trimmed_line() {
    let e = Executor::new();
    let event = ReplEvent::Line("  print 1;  \n".to_string());
    assert_eq!(action_text(e.run_repl(&event)), "print \"print 1;\"");
    let event = ReplEvent::Line("var x\n".to_string());
    assert_eq!(action_text(e.run_repl(&event)), "print \"var x\"");
    let event = ReplEvent::Line("print".to_string());
    assert_eq!(action_text(e.run_repl(&event)), "print \"print\"");
}

#[test]
fn repl_reports_an_error_and_goes_on() {
    let e = Executor::new();
    let event = ReplEvent::Line(" 1 + 2 \n".to_string());
    assert_eq!(action_text(e.run_repl(&event)), "report \"Bad input: 1 + 2.\"");
    let event = ReplEvent::Line("x\n".to_string());
    assert_eq!(action_text(e.run_repl(&event)), "report \"Bad input: x.\"");
}

#[test]
fn trim_removes_white_space_at_both_ends_only() {
    for line in ["", " ", "a", " a", "a ", "  a b  ", "\t\na\u{a0}b\r\n", "\u{2003}x\u{2003}", " \u{e9} ", "a\n\n", "   "] {
        assert_eq!(trim(line), line.trim(), "Input was {:?}", line);
    }
}
