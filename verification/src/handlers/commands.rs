//! The command endpoints: the route of the list of commands, one route for
//! each configured command, and the report of a command that was run.
//! Waiting for a free slot and running the command are the caller's.

use vstd::prelude::*;
use vstd::string::*;
use crate::config::{CommandConfiguration, CommandInfo};
use crate::local_time::current_local_date_time_string;
use crate::response::{
    build_status_code_response, CacheControl, TextResponse, STATUS_TOO_MANY_REQUESTS,
};
use crate::route::{join_route_path, spec_join_route_path};
use crate::time::{TimeSpan, NANOS_PER_MILLI};

verus! {

/// What text a byte string stands for when every ill-formed part of it is
/// replaced by U+FFFD.
pub uninterp spec fn utf8_lossy(bytes: Seq<u8>) -> Seq<char>;

/// `String::from_utf8_lossy`: the text of a byte string, with U+FFFD in
/// place of every part that is not UTF-8.
#[verifier::external_body]
fn decode_lossy(bytes: &[u8]) -> (text: String)
    ensures
        text@ == utf8_lossy(bytes@),
{
    String::from_utf8_lossy(bytes).into_owned()
}

/// What a route of the command endpoints leads to.
#[derive(Clone, Copy, Debug, PartialEq, Eq, Structural)]
pub enum CommandTarget {
    /// The list of the configured commands.
    AllCommands,
    /// The command at the given position of the configuration, to be run.
    RunCommand { index: usize },
}

/// One route of the command endpoints.
#[derive(Clone, Debug)]
pub struct CommandRoute {
    pub method: &'static str,
    pub path_suffix: String,
    pub target: CommandTarget,
}

/// What a command wrote while it ran.
#[derive(Clone, Debug)]
pub struct CommandOutput {
    pub stdout: Vec<u8>,
    pub stderr: Vec<u8>,
}

/// How waiting for a free slot ended.
#[derive(Clone, Copy, Debug, PartialEq, Eq, Structural)]
pub enum AcquireOutcome {
    /// A slot is held.
    Acquired,
    /// No slot came free in time.
    TimedOut,
    /// No slot can be had any more.
    Closed,
}

/// What to do with a request to run a command.
#[derive(Clone, Debug)]
pub enum CommandAction {
    /// Run the command.
    Run,
    /// Do not run the command; answer with the response.
    Reject { response: TextResponse },
}

/// The report of a command that was run.
#[derive(Debug)]
pub struct RunCommandResponse<'a> {
    pub now: String,
    pub command_duration_ms: u128,
    pub command_info: &'a CommandInfo,
    pub command_output: String,
}

/// The output that is reported of a command: what it wrote to standard
/// error followed by what it wrote to standard output, both as text; or,
/// where it could not be run, the error.
pub open spec fn spec_command_output(command_result: Result<CommandOutput, String>) -> Seq<char> {
    match command_result {
        Ok(command_output) => utf8_lossy(command_output.stderr@) + utf8_lossy(
            command_output.stdout@,
        ),
        Err(error) => "error running command "@ + error@,
    }
}

/// The output that is reported of a command, from what it wrote once that is
/// text: standard error first, then standard output.
pub fn combine_output(stderr_text: String, stdout_text: &str) -> (combined: String)
    ensures
        combined@ == stderr_text@ + stdout_text@,
{
    stderr_text.concat(stdout_text)
}

/// The handler of one command.
pub struct RunCommandHandler {
    command_info: CommandInfo,
}

impl RunCommandHandler {
    /// The command that the handler runs.
    pub closed spec fn spec_command_info(&self) -> CommandInfo {
        self.command_info
    }

    pub fn new(command_info: CommandInfo) -> (handler: Self)
        ensures
            handler.spec_command_info() == command_info,
    {
        Self { command_info }
    }

    /// The command that the handler runs.
    pub fn command_info(&self) -> (command_info: &CommandInfo)
        ensures
            *command_info == self.spec_command_info(),
    {
        &self.command_info
    }

    /// What to do once waiting for a free slot has ended: run the command if
    /// a slot is held, and otherwise answer 429 without running it.
    pub fn on_acquire(&self, outcome: AcquireOutcome) -> (action: CommandAction)
        ensures
            outcome is Acquired <==> action is Run,
            action matches CommandAction::Reject { response } ==> {
                &&& response.status_code == STATUS_TOO_MANY_REQUESTS
                &&& response.cache_control == CacheControl::NoCache
                &&& response.content_type.is_none()
                &&& response.body.is_none()
            },
    {
        match outcome {
            AcquireOutcome::Acquired => CommandAction::Run,
            _ => CommandAction::Reject {
                response: build_status_code_response(
                    STATUS_TOO_MANY_REQUESTS,
                    CacheControl::NoCache,
                ),
            },
        }
    }

    /// The report of a command that ran for `command_duration`: the duration
    /// in whole milliseconds, the command, and its output or the error. The
    /// report is stamped with the local time, of which nothing is promised.
    pub fn handle_command_result<'a>(
        &'a self,
        command_result: Result<CommandOutput, String>,
        command_duration: TimeSpan,
    ) -> (response: RunCommandResponse<'a>)
        ensures
            response.command_duration_ms == command_duration.nanos / NANOS_PER_MILLI,
            *response.command_info == self.spec_command_info(),
            response.command_output@ == spec_command_output(command_result),
    {
        let command_output = match &command_result {
            Err(error) => String::from_str("error running command ").concat(error.as_str()),
            Ok(command_output) => {
                let stderr_text = decode_lossy(command_output.stderr.as_slice());
                let stdout_text = decode_lossy(command_output.stdout.as_slice());
                combine_output(stderr_text, stdout_text.as_str())
            },
        };
        RunCommandResponse {
            now: current_local_date_time_string(),
            command_duration_ms: command_duration.as_millis(),
            command_info: &self.command_info,
            command_output,
        }
    }
}

/// The routes of the command endpoints as they are declared: first the
/// list of commands, then each configured command.
pub open spec fn spec_command_routes(commands: Seq<CommandInfo>) -> Seq<
    (Seq<char>, CommandTarget),
> {
    Seq::new(
        commands.len() + 1,
        |i: int|
            if i == 0 {
                ("commands"@, CommandTarget::AllCommands)
            } else {
                (
                    spec_join_route_path("commands"@, commands[i - 1].id@),
                    CommandTarget::RunCommand { index: (i - 1) as usize },
                )
            },
    )
}

/// The routes of the command endpoints: first the list of commands under
/// `commands`, then one route for each configured command, in the configured
/// order, under the command's identity below `commands`. All of them are
/// `GET` routes.
pub fn create_routes(command_configuration: &CommandConfiguration) -> (routes: Vec<CommandRoute>)
    ensures
        routes.len() == command_configuration.commands.len() + 1,
        forall|i: int|
            0 <= i < routes.len() ==> (#[trigger] routes[i]).method@ == "GET"@ && (
                routes[i].path_suffix@,
                routes[i].target,
            ) == spec_command_routes(command_configuration.commands@)[i],
{
    let mut routes: Vec<CommandRoute> = Vec::new();
    routes.push(
        CommandRoute {
            method: "GET",
            path_suffix: String::from_str("commands"),
            target: CommandTarget::AllCommands,
        },
    );
    let mut index: usize = 0;
    while index < command_configuration.commands.len()
        invariant
            index <= command_configuration.commands.len(),
            routes.len() == 1 + index,
            forall|i: int|
                0 <= i < routes.len() ==> (#[trigger] routes[i]).method@ == "GET"@ && (
                    routes[i].path_suffix@,
                    routes[i].target,
                ) == spec_command_routes(command_configuration.commands@)[i],
        decreases command_configuration.commands.len() - index,
    {
        let command_info = &command_configuration.commands[index];
        routes.push(
            CommandRoute {
                method: "GET",
                path_suffix: join_route_path("commands", command_info.id.as_str()),
                target: CommandTarget::RunCommand { index },
            },
        );
        index = index + 1;
    }
    routes
}

} // verus!
