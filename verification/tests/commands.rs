use http_frontend::config::{CommandConfiguration, CommandInfo};
use http_frontend::handlers::commands::{
    combine_output, create_routes, AcquireOutcome, CommandAction, CommandOutput, CommandTarget,
    RunCommandHandler,
};
use http_frontend::local_time::current_local_date_time_string;
use http_frontend::response::CacheControl;
use http_frontend::time::TimeSpan;

fn command(id: &str) -> CommandInfo {
    CommandInfo {
        id: id.to_owned(),
        description: "sleeps".to_owned(),
        command: "/bin/sleep".to_owned(),
        args: vec!["3".to_owned()],
    }
}

fn configuration(ids: &[&str]) -> CommandConfiguration {
    CommandConfiguration {
        max_concurrent_commands: 1,
        semaphore_acquire_timeout: TimeSpan::from_millis(500),
        commands: ids.iter().map(|id| command(id)).collect(),
    }
}

#[test]
fn routes_list_the_commands_in_order() {
    let routes = create_routes(&configuration(&["sleep3", "uptime"]));
    assert_eq!(routes.len(), 3);
    assert_eq!(routes[0].method, "GET");
    assert_eq!(routes[0].path_suffix, "commands");
    assert_eq!(routes[0].target, CommandTarget::AllCommands);
    assert_eq!(routes[1].method, "GET");
    assert_eq!(routes[1].path_suffix, "commands/sleep3");
    assert_eq!(routes[1].target, CommandTarget::RunCommand { index: 0 });
    assert_eq!(routes[2].method, "GET");
    assert_eq!(routes[2].path_suffix, "commands/uptime");
    assert_eq!(routes[2].target, CommandTarget::RunCommand { index: 1 });
}

#[test]
fn without_commands_there_is_only_the_list() {
    let routes = create_routes(&configuration(&[]));
    assert_eq!(routes.len(), 1);
    assert_eq!(routes[0].target, CommandTarget::AllCommands);
}

#[test]
fn command_runs_only_with_a_slot() {
    let handler = RunCommandHandler::new(command("sleep3"));
    assert!(matches!(
        handler.on_acquire(AcquireOutcome::Acquired),
        CommandAction::Run
    ));
    for outcome in [AcquireOutcome::TimedOut, AcquireOutcome::Closed] {
        match handler.on_acquire(outcome) {
            CommandAction::Reject { response } => {
                assert_eq!(response.status_code, 429);
                assert_eq!(response.cache_control, CacheControl::NoCache);
                assert!(response.body.is_none());
            }
            CommandAction::Run => panic!("a command may not run without a slot"),
        }
    }
}

#[test]
fn report_puts_standard_error_before_standard_output() {
    let handler = RunCommandHandler::new(command("sleep3"));
    let response = handler.handle_command_result(
        Ok(CommandOutput {
            stdout: b"out\n".to_vec(),
            stderr: b"err\n".to_vec(),
        }),
        TimeSpan::from_nanos(3_002_999_999),
    );
    assert_eq!(response.command_output, "err\nout\n");
    assert_eq!(response.command_duration_ms, 3_002);
    assert_eq!(response.command_info.id, "sleep3");
    assert_eq!(response.command_info.args, vec!["3".to_owned()]);
    assert!(!response.now.is_empty());
}

#[test]
fn report_replaces_what_is_not_text() {
    let handler = RunCommandHandler::new(command("x"));
    let response = handler.handle_command_result(
        Ok(CommandOutput {
            stdout: vec![b'o', b'k', 0xff],
            stderr: vec![0xf0, 0x28, b'!'],
        }),
        TimeSpan::zero(),
    );
    assert_eq!(response.command_output, "\u{fffd}(!ok\u{fffd}");
    assert_eq!(response.command_duration_ms, 0);
}

#[test]
fn report_of_a_command_that_could_not_run_holds_the_error() {
    let handler = RunCommandHandler::new(command("x"));
    let response = handler
        .handle_command_result(Err("No such file or directory".to_owned()), TimeSpan::from_millis(2));
    assert_eq!(
        response.command_output,
        "error running command No such file or directory"
    );
    assert_eq!(response.command_duration_ms, 2);
}

#[test]
fn combined_output_is_a_concatenation() {
    assert_eq!(combine_output("a".to_owned(), "b"), "ab");
    assert_eq!(combine_output("".to_owned(), ""), "");
    assert_eq!(combine_output("warn: é\n".to_owned(), "1\n2\n"), "warn: é\n1\n2\n");
}

#[test]
fn handler_keeps_its_command() {
    let handler = RunCommandHandler::new(command("sleep3"));
    assert_eq!(handler.command_info().id, "sleep3");
    assert_eq!(handler.command_info().command, "/bin/sleep");
}

#[test]
fn local_time_is_written_with_milliseconds_and_offset() {
    let now = current_local_date_time_string();
    // 2018-01-26T18:30:09.453+00:00
    assert_eq!(now.len(), 29);
    let bytes = now.as_bytes();
    assert_eq!(bytes[4], b'-');
    assert_eq!(bytes[10], b'T');
    assert_eq!(bytes[19], b'.');
    assert!(bytes[23] == b'+' || bytes[23] == b'-');
    assert_eq!(bytes[26], b':');
}
