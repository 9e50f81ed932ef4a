use dbms_rust_project::Repl;

fn cleaned(s: &str) -> String {
    let mut t = s.to_string();
    Repl::clean_input(&mut t);
    t
}

#[test]
fn clean_input_strips_line_ends() {
    assert_eq!(cleaned("SELECT *\r\n"), "SELECT *");
    assert_eq!(cleaned("abc\n\n\r"), "abc");
    assert_eq!(cleaned(""), "");
    assert_eq!(cleaned("a\nb"), "a\nb");
}

#[test]
fn clean_input_cuts_after_semicolon() {
    assert_eq!(cleaned("FROM users; trailing\n"), "FROM users;");
    assert_eq!(cleaned(";;"), ";");
    assert_eq!(cleaned("no semicolon here"), "no semicolon here");
}

#[test]
fn join_lines_with_spaces() {
    let mut lines = vec!["SELECT *".to_string(), "FROM users;".to_string()];
    assert_eq!(Repl::multiline_to_singleline(&mut lines), "SELECT * FROM users;");
    assert_eq!(lines.len(), 2);
    let mut one = vec!["x".to_string()];
    assert_eq!(Repl::multiline_to_singleline(&mut one), "x");
    let mut none: Vec<String> = Vec::new();
    assert_eq!(Repl::multiline_to_singleline(&mut none), "");
}

#[test]
fn statement_over_several_lines() {
    let mut repl = Repl::new();
    assert_eq!(repl.prompt(), ">>");
    repl.start_statement();
    assert!(!repl.accept_line("SELECT name\n".to_string()));
    assert_eq!(repl.prompt(), "..");
    assert!(!repl.accept_line("FROM users\r\n".to_string()));
    assert!(repl.accept_line("WHERE age >= 18; ignored\n".to_string()));
    assert_eq!(repl.prompt(), ">>");
    assert_eq!(repl.statement(), "SELECT name FROM users WHERE age >= 18;");
}
