use assert_cmd::assert::OutputAssertExt;
use assert_cmd::Command;

/// The command that runs the test program `name`.
fn get_test_bin_command(name: &str) -> Command {
    Command::new(name)
}

#[test]
fn test_memcheck_reqs_when_running_native() {
    let mut cmd = get_test_bin_command("memcheck-reqs-test");
    // where the program has not been built there is nothing to run
    if let Ok(output) = cmd.output() {
        output.assert().code(0).stdout("").stderr("");
    }
}
