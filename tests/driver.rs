use rlox::lox::{Lox, StartMode};

#[test]
fn new_driver_has_no_error() {
    let lox = Lox::new();
    assert!(!lox.had_error());
    assert_eq!(lox.exit_code(), 0);
}

#[test]
fn error_sets_flag_and_renders_line() {
    let mut lox = Lox::new();
    let text = lox.error("7", "Something bad.");
    assert_eq!(text, "[line 7] Error: Something bad.");
    assert!(lox.had_error());
    assert_eq!(lox.exit_code(), 65);
    lox.reset();
    assert!(!lox.had_error());
}

#[test]
fn run_clean_source() {
    let mut lox = Lox::new();
    let lines = lox.run("print 1;".to_string());
    assert_eq!(lines, vec!["Print/print/nil", "Number/1/1", "Semicolon/;/nil", "Eof//nil"]);
    assert!(!lox.had_error());
}

#[test]
fn run_reports_errors_first() {
    let mut lox = Lox::new();
    let lines = lox.run("a\n\n@ \"open".to_string());
    assert_eq!(
        lines,
        vec![
            "[line 3] Error: Unexpected character.",
            "[line 3] Error: Unterminated string.",
            "Identifier/a/nil",
            "Eof//nil",
        ]
    );
    assert!(lox.had_error());
}

#[test]
fn run_renders_large_line_numbers() {
    let mut lox = Lox::new();
    let source = format!("{}@", "\n".repeat(1204));
    let lines = lox.run(source);
    assert_eq!(lines[0], "[line 1205] Error: Unexpected character.");
}

#[test]
fn start_up_modes() {
    let lox = Lox::new();
    let one = vec!["rlox".to_string()];
    let two = vec!["rlox".to_string(), "script.lox".to_string()];
    let three = vec!["rlox".to_string(), "a".to_string(), "b".to_string()];
    assert_eq!(lox.start_up(&one), StartMode::Prompt);
    assert_eq!(lox.start_up(&two), StartMode::RunFile("script.lox".to_string()));
    assert_eq!(lox.start_up(&three), StartMode::Usage);
    assert_eq!(lox.start_up(&Vec::new()), StartMode::Prompt);
}
