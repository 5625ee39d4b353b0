//! What the handlers decide: for a request and what the outside world said of
//! it, the response to give or the next thing to ask. And the table that
//! says which handler a request goes to.

pub mod commands;
pub mod connection_info;
pub mod request_info;
pub mod static_file;

use vstd::prelude::*;
use vstd::string::*;
use crate::config::{CommandInfo, Configuration};
use crate::handlers::commands::{spec_command_routes, CommandTarget};
use crate::route::{
    is_first_collision, keys_distinct, spec_declared_keys, spec_join_route_path, spec_keys,
    RouteInfo, Router, RouterError,
};

verus! {

/// The handlers that a request can go to.
#[derive(Clone, Copy, Debug, PartialEq, Eq, Structural)]
pub enum Endpoint {
    /// The list of the configured commands.
    AllCommands,
    /// The command at the given position of the configuration, to be run.
    RunCommand { index: usize },
    /// The report on the connection tracker.
    ConnectionInfo,
    /// The echo of the request.
    RequestInfo,
    /// The version of the program.
    VersionInfo,
    /// The static files: every request that no other handler takes.
    StaticFile,
}

/// The handler that a route of the command endpoints leads to.
pub open spec fn spec_command_endpoint(target: CommandTarget) -> Endpoint {
    match target {
        CommandTarget::AllCommands => Endpoint::AllCommands,
        CommandTarget::RunCommand { index } => Endpoint::RunCommand { index },
    }
}

/// The routes of the dynamic endpoints as they are declared, each with its
/// path below the context and its handler: the command endpoints, the
/// connection report, the request echo, the version.
pub open spec fn spec_endpoint_routes(commands: Seq<CommandInfo>) -> Seq<(Seq<char>, Endpoint)> {
    Seq::new(
        commands.len() + 4,
        |i: int|
            if i <= commands.len() {
                (
                    spec_command_routes(commands)[i].0,
                    spec_command_endpoint(spec_command_routes(commands)[i].1),
                )
            } else if i == commands.len() + 1 {
                ("connection_info"@, Endpoint::ConnectionInfo)
            } else if i == commands.len() + 2 {
                ("request_info"@, Endpoint::RequestInfo)
            } else {
                ("version_info"@, Endpoint::VersionInfo)
            },
    )
}

/// The keys of the dynamic endpoints below a context: each is a `GET` of
/// the endpoint's path below the context.
pub open spec fn spec_endpoint_keys(context: Seq<char>, commands: Seq<CommandInfo>) -> Seq<
    (Seq<char>, Seq<char>),
> {
    Seq::new(
        commands.len() + 4,
        |i: int| ("GET"@, spec_join_route_path(context, spec_endpoint_routes(commands)[i].0)),
    )
}

/// The routing table of the configured front-end: below the configured
/// context, a `GET` route for each dynamic endpoint; everything else goes to
/// the static files. The table is built exactly if no two routes come out
/// with the same key; otherwise the error names the first key that repeats
/// an earlier one.
pub fn create_handlers(configuration: &Configuration) -> (built: Result<
    Router<Endpoint>,
    RouterError,
>)
    ensures
        built.is_ok() <==> keys_distinct(
            spec_endpoint_keys(
                configuration.context_configuration.dynamic_route_context@,
                configuration.command_configuration.commands@,
            ),
        ),
        built matches Ok(router) ==> {
            &&& router.wf()
            &&& router.default_route() == Endpoint::StaticFile
            &&& spec_keys(router.routes()) == spec_endpoint_keys(
                configuration.context_configuration.dynamic_route_context@,
                configuration.command_configuration.commands@,
            )
            &&& forall|i: int|
                0 <= i < router.routes().len() ==> (#[trigger] router.routes()[i]).1
                    == spec_endpoint_routes(configuration.command_configuration.commands@)[i].1
        },
        built matches Err(error) ==> exists|index: int|
            is_first_collision(
                spec_endpoint_keys(
                    configuration.context_configuration.dynamic_route_context@,
                    configuration.command_configuration.commands@,
                ),
                index,
            ) && error.is_collision_on(
                #[trigger] spec_endpoint_keys(
                    configuration.context_configuration.dynamic_route_context@,
                    configuration.command_configuration.commands@,
                )[index],
            ),
{
    let command_routes = commands::create_routes(&configuration.command_configuration);
    let ghost commands = configuration.command_configuration.commands@;
    let ghost context = configuration.context_configuration.dynamic_route_context@;
    let ghost expected = spec_endpoint_routes(commands);
    let mut routes: Vec<RouteInfo<Endpoint>> = Vec::new();
    let mut index: usize = 0;
    while index < command_routes.len()
        invariant
            index <= command_routes.len(),
            command_routes.len() == commands.len() + 1,
            routes.len() == index,
            expected == spec_endpoint_routes(commands),
            forall|i: int|
                0 <= i < command_routes.len() ==> (#[trigger] command_routes[i]).method@ == "GET"@
                    && (command_routes[i].path_suffix@, command_routes[i].target)
                    == spec_command_routes(commands)[i],
            forall|i: int|
                0 <= i < index ==> (#[trigger] routes[i]).method@ == "GET"@ && (
                    routes[i].path_suffix@,
                    routes[i].handler,
                ) == expected[i],
        decreases command_routes.len() - index,
    {
        let command_route = &command_routes[index];
        let handler = match command_route.target {
            CommandTarget::AllCommands => Endpoint::AllCommands,
            CommandTarget::RunCommand { index } => Endpoint::RunCommand { index },
        };
        routes.push(
            RouteInfo {
                method: command_route.method,
                path_suffix: command_route.path_suffix.clone(),
                handler,
            },
        );
        index = index + 1;
    }
    routes.push(
        RouteInfo {
            method: "GET",
            path_suffix: String::from_str("connection_info"),
            handler: Endpoint::ConnectionInfo,
        },
    );
    routes.push(
        RouteInfo {
            method: "GET",
            path_suffix: String::from_str("request_info"),
            handler: Endpoint::RequestInfo,
        },
    );
    routes.push(
        RouteInfo {
            method: "GET",
            path_suffix: String::from_str("version_info"),
            handler: Endpoint::VersionInfo,
        },
    );
    proof {
        assert forall|i: int| 0 <= i < routes.len() implies (#[trigger] routes[i]).method@
            == "GET"@ && (routes[i].path_suffix@, routes[i].handler) == expected[i] by {}
        assert(spec_declared_keys(context, routes@) =~= spec_endpoint_keys(context, commands));
    }
    Router::new(
        configuration.context_configuration.dynamic_route_context.as_str(),
        routes,
        Endpoint::StaticFile,
    )
}

} // verus!
