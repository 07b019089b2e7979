use apipe::Command;
use apipe::CommandPipe;

#[test]
fn test_arg() {
    let mut pipe = CommandPipe::new();

    pipe.add_command("ls");
    pipe.arg("-la");
    pipe.arg("~/Documents");

    let args: &Vec<String> = pipe.stage(0).arguments();

    assert_eq!(args, &["-la", "~/Documents"]);
}

#[test]
fn test_args() {
    let mut pipe = CommandPipe::new();

    pipe.add_command("ls");
    pipe.args(&vec!["-la".to_string(), "~/Documents".to_string()]);

    let args: &Vec<String> = pipe.stage(0).arguments();

    assert_eq!(args, &["-la", "~/Documents"]);
}

#[test]
fn test_overload() {
    let mut pipe = CommandPipe::new();

    pipe = pipe | Command::new("grep");

    assert_eq!(pipe.stage(0).program(), "grep");
}

#[test]
fn test_builder_and_operator_agree() {
    let mut built = CommandPipe::new();
    built.add_command("ls");
    built.add_command("grep");

    let piped = CommandPipe::new() | Command::new("ls") | Command::new("grep");

    assert_eq!(built.stage_count(), piped.stage_count());
    for i in 0..built.stage_count() {
        assert_eq!(built.stage(i), piped.stage(i));
    }
}

#[test]
fn test_command_builder() {
    let mut cmd = Command::new("grep");
    cmd.arg("-Eo");
    cmd.args(&vec![r"\w\w\sa[^.]*".to_string()]);

    assert_eq!(cmd.program(), "grep");
    assert_eq!(cmd.arguments(), &["-Eo", r"\w\w\sa[^.]*"]);
}

#[test]
fn test_stage_stdin_sources() {
    let mut pipe = CommandPipe::new();
    pipe.add_command("echo");
    pipe.add_command("grep");

    assert!(!pipe.stage_stdin_piped(0));
    assert!(pipe.stage_stdin_piped(1));
}
