use zeroai::shell::{command_output, plan_shell_command, spawn_failure, ShellPlan};

#[test]
fn shell_operators_are_plain_words() {
    assert_eq!(
        plan_shell_command("ls | wc"),
        ShellPlan::Direct { program: "ls".to_string(), args: vec!["|".to_string(), "wc".to_string()] }
    );
    assert_eq!(
        plan_shell_command("echo $HOME > out; rm -rf ~"),
        ShellPlan::Direct {
            program: "echo".to_string(),
            args: vec!["$HOME", ">", "out;", "rm", "-rf", "~"].into_iter().map(String::from).collect(),
        }
    );
}

#[test]
fn direct_plan_splits_words() {
    assert_eq!(
        plan_shell_command("git commit -m 'two words'"),
        ShellPlan::Direct {
            program: "git".to_string(),
            args: vec!["commit".to_string(), "-m".to_string(), "two words".to_string()],
        }
    );
}

#[test]
fn unparsable_or_empty_commands_fail() {
    assert_eq!(
        plan_shell_command("echo 'open"),
        ShellPlan::Fail { output: "Failed to parse command: echo 'open".to_string() }
    );
    assert_eq!(plan_shell_command("   "), ShellPlan::Fail { output: "Failed to parse command:    ".to_string() });
}

#[test]
fn output_is_stdout_then_stderr() {
    assert_eq!(command_output(b"out\n", b"err\n", Some(2)), ("out\nerr\n".to_string(), 2));
    assert_eq!(command_output(b"out", b"", None), ("out".to_string(), -1));
    assert_eq!(command_output(&[0x66, 0xff], b"", Some(0)), ("f\u{FFFD}".to_string(), 0));
    assert_eq!(spawn_failure("No such file"), ("Failed to run command: No such file".to_string(), -1));
}
