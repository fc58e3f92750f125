use hyperlight_sandbox::toolbox::parse::{parse, Join, ParseError};
use hyperlight_sandbox::toolbox::{
    Execution, ShellAction, ShellEvent, MAX_NODES, MAX_OUTPUT_BYTES, MAX_SCRIPT_BYTES,
};
use hyperlight_sandbox::{CapFs, ExecutionResult, Toolbox};

fn commands(script: &str) -> Result<Vec<(Join, Vec<String>)>, ParseError> {
    Ok(parse(script)?
        .into_iter()
        .map(|command| (command.join, command.words))
        .collect())
}

fn words(list: &[&str]) -> Vec<String> {
    list.iter().map(|word| word.to_string()).collect()
}

/// Runs a script that needs no filesystem.
fn run(shell: &mut Toolbox, script: &str) -> ExecutionResult {
    let fs = CapFs::new();
    let mut run = shell.execute_cli(script);
    loop {
        match shell.next(&fs, &mut run) {
            ShellAction::Nothing => {}
            ShellAction::Done => return run.finish(),
            _ => panic!("the filesystem was asked for"),
        }
    }
}

fn outcome(script: &str) -> (i32, String, String) {
    let result = run(&mut Toolbox::default(), script);
    (result.exit_code, result.stdout, result.stderr)
}

#[test]
fn words_are_split_at_blanks() {
    assert_eq!(
        commands("  echo\ta \n b  "),
        Ok(vec![(Join::Always, words(&["echo", "a", "b"]))])
    );
    assert_eq!(commands(""), Ok(vec![]));
    assert_eq!(commands(" \n\t"), Ok(vec![]));
}

#[test]
fn quotes_and_escapes_are_taken_literally() {
    assert_eq!(
        commands(r#"echo 'a b'"c;d" e\ f\;g '"' "'""#),
        Ok(vec![(
            Join::Always,
            words(&["echo", "a bc;d", "e f;g", "\"", "'"])
        )])
    );
    // A backslash inside quotes is one.
    assert_eq!(
        commands(r#"echo 'a\b'"#),
        Ok(vec![(Join::Always, words(&["echo", "a\\b"]))])
    );
}

#[test]
fn empty_arguments_are_words() {
    assert_eq!(
        commands("echo '' x"),
        Ok(vec![(Join::Always, words(&["echo", "", "x"]))])
    );
    assert_eq!(
        commands("echo \"\";echo ''\"\"a ''"),
        Ok(vec![
            (Join::Always, words(&["echo", ""])),
            (Join::Always, words(&["echo", "a", ""])),
        ])
    );
    assert_eq!(
        commands("''&&''"),
        Ok(vec![
            (Join::Always, words(&[""])),
            (Join::And, words(&[""])),
        ])
    );
    assert_eq!(outcome("echo '' x").1, " x\n");
    assert_eq!(
        outcome("''"),
        (127, String::new(), ": command not found\n".to_string())
    );
    // An empty argument is not a missing one.
    assert_eq!(
        outcome("touch ''"),
        (1, String::new(), "toolbox: unmounted path\n".to_string())
    );
}

#[test]
fn operators_join_commands() {
    assert_eq!(
        commands("a&&b||c;d & e | f"),
        Ok(vec![
            (Join::Always, words(&["a"])),
            (Join::And, words(&["b"])),
            (Join::Or, words(&["c"])),
            (Join::Always, words(&["d", "&", "e", "|", "f"])),
        ])
    );
    assert_eq!(
        commands(";;a;;b;"),
        Ok(vec![
            (Join::Always, words(&["a"])),
            (Join::Always, words(&["b"])),
        ])
    );
    // Lines are no more than blanks.
    assert_eq!(
        commands("a &&\n b"),
        Ok(vec![
            (Join::Always, words(&["a"])),
            (Join::And, words(&["b"])),
        ])
    );
}

#[test]
fn every_parse_error_is_reported() {
    assert_eq!(commands("echo \\"), Err(ParseError::TrailingEscape));
    assert_eq!(commands("&& a"), Err(ParseError::OperatorWithoutCommand));
    assert_eq!(
        commands("a; || b"),
        Err(ParseError::OperatorWithoutCommand)
    );
    for script in ["a ||", "a && ; b", "a && || b", "a; b && \n", "a ||;"] {
        assert_eq!(
            commands(script),
            Err(ParseError::OperatorWithoutCommand),
            "{script}"
        );
    }
    assert_eq!(commands("echo 'a"), Err(ParseError::UnterminatedQuote));
    assert_eq!(commands("echo \"a'"), Err(ParseError::UnterminatedQuote));
    // The first error in the script counts.
    assert_eq!(
        commands("&& 'a"),
        Err(ParseError::OperatorWithoutCommand)
    );
    assert_eq!(commands("a && 'b"), Err(ParseError::UnterminatedQuote));
    assert_eq!(
        outcome("echo \\"),
        (2, String::new(), "toolbox: trailing escape\n".to_string())
    );
    assert_eq!(
        outcome("&&"),
        (
            2,
            String::new(),
            "toolbox: operator without command\n".to_string()
        )
    );
    assert_eq!(
        outcome("'"),
        (
            2,
            String::new(),
            "toolbox: unterminated quote\n".to_string()
        )
    );
}

#[test]
fn scripts_are_read_byte_by_byte() {
    assert_eq!(
        commands("é 'ü ü'"),
        Ok(vec![(
            Join::Always,
            words(&["\u{c3}\u{a9}", "\u{c3}\u{bc} \u{c3}\u{bc}"])
        )])
    );
    assert_eq!(
        commands("\\é"),
        Ok(vec![(Join::Always, words(&["\u{c3}\u{a9}"]))])
    );
    assert_eq!(outcome("echo é").1, "\u{c3}\u{a9}\n");
}

#[test]
fn scripts_set_no_variables() {
    let mut shell = Toolbox::default();
    assert_eq!(run(&mut shell, "A=1").exit_code, 127);
    assert_eq!(run(&mut shell, "echo $A").stdout, "$A\n");
}

#[test]
fn scripts_are_bounded() {
    let padded = format!("true{}", " ".repeat(MAX_SCRIPT_BYTES - 4));
    assert_eq!(outcome(&padded).0, 0);
    assert_eq!(
        outcome(&(padded + " ")),
        (
            2,
            String::new(),
            "toolbox: script exceeds 64 KiB limit\n".to_string()
        )
    );
    assert_eq!(outcome(&"a;".repeat(MAX_NODES)).0, 127);
    assert_eq!(
        outcome(&"a;".repeat(MAX_NODES + 1)),
        (
            2,
            String::new(),
            "toolbox: AST node limit exceeded\n".to_string()
        )
    );
}

#[test]
fn simple_commands_print_what_they_should() {
    assert_eq!(outcome("true"), (0, String::new(), String::new()));
    assert_eq!(outcome("false"), (1, String::new(), String::new()));
    assert_eq!(outcome("echo a  b 'c d'").1, "a b c d\n");
    assert_eq!(outcome("echo").1, "\n");
    assert_eq!(outcome("printf a b c").1, "abc");
    assert_eq!(outcome("pwd").1, "/work\n");
    assert_eq!(outcome("cat"), (0, String::new(), String::new()));
}

#[test]
fn unknown_commands_are_not_found() {
    assert_eq!(
        outcome("bash -c true"),
        (
            127,
            String::new(),
            "bash: command not found\n".to_string()
        )
    );
    assert_eq!(
        outcome("/bin/echo x").2,
        "/bin/echo: command not found\n"
    );
}

#[test]
fn operators_choose_what_runs() {
    assert_eq!(outcome("true && echo a || echo b").1, "a\n");
    assert_eq!(outcome("false && echo a || echo b").1, "b\n");
    assert_eq!(outcome("false && echo a && echo b; echo c").1, "c\n");
    assert_eq!(outcome("true || echo a && echo b").1, "b\n");
    assert_eq!(outcome("false || false").0, 1);
    assert_eq!(outcome("nope || true").0, 0);
}

#[test]
fn the_last_status_outlives_a_script() {
    let mut shell = Toolbox::default();
    assert_eq!(run(&mut shell, "nope").exit_code, 127);
    assert_eq!(run(&mut shell, "echo $? x$?y").stdout, "127 x127y\n");
    assert_eq!(run(&mut shell, "echo $?").stdout, "0\n");
    // A refused script has no status of its own to leave.
    assert_eq!(run(&mut shell, "false").exit_code, 1);
    assert_eq!(run(&mut shell, "'").exit_code, 2);
    assert_eq!(run(&mut shell, "echo '$?'").stdout, "1\n");
    assert_eq!(shell.expand("a$?$?"), "a00");
}

#[test]
fn paths_outside_the_policy_are_refused_without_asking() {
    for (script, report) in [
        ("cat ../secret", "toolbox: cat: invalid path\n"),
        ("cat a..b", "toolbox: cat: invalid path\n"),
        ("cd ..", "toolbox: invalid path\n"),
        ("cd 'a\\b'", "toolbox: invalid path\n"),
        ("cd", "toolbox: cd: not a directory\n"),
        ("cd /nowhere", "toolbox: cd: not a directory\n"),
        ("cd nested", "toolbox: cd: not a directory\n"),
        ("touch", "toolbox: touch: missing file\n"),
        ("touch /work", "toolbox: path must name a file\n"),
        ("touch a", "toolbox: unmounted path\n"),
        ("touch /etc/passwd", "toolbox: unmounted path\n"),
        ("mkdir", "toolbox: mkdir: missing directory\n"),
        ("mkdir ../x", "toolbox: invalid path\n"),
        ("rm", "toolbox: rm: missing file\n"),
        ("rm x", "toolbox: unmounted path\n"),
    ] {
        assert_eq!(
            outcome(script),
            (1, String::new(), report.to_string()),
            "{script}"
        );
    }
}

fn begin(shell: &mut Toolbox, script: &str) -> (Execution, ShellAction) {
    let mut run = shell.execute_cli(script);
    let action = shell.next(&CapFs::new(), &mut run);
    (run, action)
}

#[test]
fn files_are_read_one_after_the_other() {
    let mut shell = Toolbox::default();
    let (mut run, action) = begin(&mut shell, "cat a /tmp/b");
    assert!(matches!(action, ShellAction::Read { path } if path == "/work/a"));
    let action = shell.resume(&mut run, ShellEvent::Text(Ok("first ".to_string())));
    assert!(matches!(action, ShellAction::Read { path } if path == "/tmp/b"));
    let action = shell.resume(&mut run, ShellEvent::Text(Ok("second".to_string())));
    assert!(matches!(action, ShellAction::Nothing));
    assert!(matches!(
        shell.next(&CapFs::new(), &mut run),
        ShellAction::Done
    ));
    let result = run.finish();
    assert_eq!(
        (result.exit_code, result.stdout.as_str()),
        (0, "first second")
    );

    let (mut run, _) = begin(&mut shell, "cat a b");
    let action = shell.resume(&mut run, ShellEvent::Text(Err("file not found: /work/a".to_string())));
    assert!(matches!(action, ShellAction::Nothing));
    let result = run.finish();
    assert_eq!(result.exit_code, 1);
    assert_eq!(result.stderr, "toolbox: cat: file not found: /work/a\n");
}

#[test]
fn bytes_that_are_no_text_are_replaced() {
    let mut shell = Toolbox::default();
    let (mut run, _) = begin(&mut shell, "cat a");
    shell.file_read(&mut run, Ok(b"ol\xc3\xa1 \xff!".to_vec()));
    assert_eq!(run.finish().stdout, "ol\u{e1} \u{fffd}!");
    let (mut run, _) = begin(&mut shell, "cat a");
    shell.file_read(&mut run, Err("no".to_string()));
    assert_eq!(run.finish().stderr, "toolbox: cat: no\n");
}

#[test]
fn output_is_bounded() {
    let mut shell = Toolbox::default();
    let (mut run, _) = begin(&mut shell, "cat a b");
    let text = "a".repeat(MAX_OUTPUT_BYTES - 1);
    shell.resume(&mut run, ShellEvent::Text(Ok(text.clone())));
    // A character that does not fit is left out whole.
    shell.resume(&mut run, ShellEvent::Text(Ok("\u{e9}\u{e9}".to_string())));
    assert_eq!(run.finish().stdout, text);

    let (mut run, _) = begin(&mut shell, "cat a; echo more");
    shell.resume(
        &mut run,
        ShellEvent::Text(Ok("b".repeat(2 * MAX_OUTPUT_BYTES))),
    );
    while !matches!(shell.next(&CapFs::new(), &mut run), ShellAction::Done) {}
    assert_eq!(run.finish().stdout, "b".repeat(MAX_OUTPUT_BYTES));
}
