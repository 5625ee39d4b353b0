use std::borrow::Cow;

use http_frontend::config::{
    CommandConfiguration, CommandInfo, Configuration, ContextConfiguration,
    ServerConfiguration, ServerConnectionConfiguration, StaticFileConfiguration,
    StaticFilePrecompressedConfiguration,
};
use http_frontend::handlers::{create_handlers, Endpoint};
use http_frontend::route::{
    join_route_path, same_text, RouteInfo, RouteKey, Router, RouterError,
};
use std::path::Path;
use http_frontend::time::TimeSpan;

fn route(method: &'static str, path_suffix: &str, handler: u32) -> RouteInfo<u32> {
    RouteInfo {
        method,
        path_suffix: path_suffix.to_owned(),
        handler,
    }
}

fn key(method: &'static str, path: &str) -> RouteKey<'static> {
    RouteKey {
        method,
        path: Cow::Owned(path.to_owned()),
    }
}

fn configuration(context: &str, command_ids: &[&str]) -> Configuration {
    Configuration {
        server_configuration: ServerConfiguration {
            listeners: vec![],
            connection: ServerConnectionConfiguration {
                limit: 2,
                max_lifetime: TimeSpan::from_secs(60),
                graceful_shutdown_timeout: TimeSpan::from_secs(5),
            },
        },
        static_file_configuration: StaticFileConfiguration {
            root: "/var/www".to_owned(),
            precompressed: StaticFilePrecompressedConfiguration {
                br: false,
                gz: false,
            },
            client_error_page_path: "/error.html".to_owned(),
            client_error_page_cache_duration: None,
            cache_rules: vec![],
        },
        context_configuration: ContextConfiguration {
            dynamic_route_context: context.to_owned(),
        },
        command_configuration: CommandConfiguration {
            max_concurrent_commands: 1,
            semaphore_acquire_timeout: TimeSpan::from_millis(500),
            commands: command_ids
                .iter()
                .map(|id| CommandInfo {
                    id: (*id).to_owned(),
                    description: "".to_owned(),
                    command: "/bin/true".to_owned(),
                    args: vec![],
                })
                .collect(),
        },
    }
}

#[test]
fn texts_are_compared_by_their_content() {
    assert!(same_text("", ""));
    assert!(same_text("GET", "GET"));
    assert!(same_text("/é/ü", "/é/ü"));
    assert!(!same_text("GET", "GE"));
    assert!(!same_text("GE", "GET"));
    assert!(!same_text("GET", "PUT"));
    assert!(!same_text("GET", "get"));
    assert!(!same_text("é", "e"));
    assert!(!same_text("", " "));
}

#[test]
fn route_paths_are_joined_below_the_context() {
    assert_eq!(join_route_path("/api", "version_info"), "/api/version_info");
    assert_eq!(join_route_path("/api/", "version_info"), "/api/version_info");
    assert_eq!(join_route_path("/cgi", "commands/sleep3"), "/cgi/commands/sleep3");
    assert_eq!(join_route_path("commands", "sleep3"), "commands/sleep3");
    assert_eq!(join_route_path("", "version_info"), "version_info");
    assert_eq!(join_route_path("/", "version_info"), "/version_info");
    assert_eq!(join_route_path("/api", "/absolute"), "/absolute");
    assert_eq!(join_route_path("/api", ""), "/api/");
    assert_eq!(join_route_path("/api/", ""), "/api/");
    assert_eq!(join_route_path("", ""), "");
    assert_eq!(join_route_path("/é", "ü"), "/é/ü");
}

#[test]
fn route_paths_are_joined_as_paths_are() {
    let contexts = ["", "/", "/api", "/api/", "api", "a/b", "/é", "//", "/a//"];
    let suffixes = ["", "/", "x", "x/", "/x", "x/y", "ü", "//x", "commands/sleep3"];
    for context in contexts {
        for suffix in suffixes {
            let joined = Path::new(context).join(suffix);
            assert_eq!(
                Some(join_route_path(context, suffix).as_str()),
                joined.to_str(),
                "context {:?} suffix {:?}",
                context,
                suffix
            );
        }
    }
}

#[test]
fn same_as_compares_method_and_path() {
    let borrowed = RouteKey::from_request("GET", "/test");
    assert!(borrowed.same_as(&key("GET", "/test")));
    assert!(!borrowed.same_as(&key("PUT", "/test")));
    assert!(!borrowed.same_as(&key("GET", "/nottest")));
    assert!(!borrowed.same_as(&key("get", "/test")));
    assert_eq!(borrowed.path_str(), "/test");
    assert_eq!(key("GET", "/owned").path_str(), "/owned");
}

#[test]
fn exact_match_picks_the_route_and_misses_fall_to_the_default() {
    let router = Router::new(
        "/api",
        vec![
            route("GET", "version_info", 1),
            route("GET", "request_info", 2),
            route("POST", "request_info", 3),
        ],
        0,
    )
    .unwrap();
    assert_eq!(router.len(), 3);
    assert_eq!(*router.route("GET", "/api/version_info"), 1);
    assert_eq!(*router.route("GET", "/api/request_info"), 2);
    assert_eq!(*router.route("POST", "/api/request_info"), 3);

    // No prefix match, no suffix match, no other method.
    assert_eq!(*router.route("GET", "/version_info"), 0);
    assert_eq!(*router.route("GET", "/api/version_info/"), 0);
    assert_eq!(*router.route("GET", "/api/version"), 0);
    assert_eq!(*router.route("GET", "/api"), 0);
    assert_eq!(*router.route("PUT", "/api/version_info"), 0);
    assert_eq!(*router.route("GET", "version_info"), 0);
}

#[test]
fn empty_table_sends_everything_to_the_default() {
    let router: Router<u32> = Router::new("/api", vec![], 9).unwrap();
    assert_eq!(router.len(), 0);
    assert_eq!(*router.route("GET", "/"), 9);
}

#[test]
fn duplicate_route_is_an_error() {
    let result = Router::new(
        "/api",
        vec![
            route("GET", "a", 1),
            route("GET", "b", 2),
            route("GET", "a", 3),
        ],
        0,
    );
    match result {
        Err(RouterError::Collision { method, path }) => {
            assert_eq!(method, "GET");
            assert_eq!(path, "/api/a");
        }
        _ => panic!("expected a collision"),
    }
}

#[test]
fn same_path_with_other_method_is_no_duplicate() {
    let router = Router::new(
        "/api",
        vec![route("GET", "a", 1), route("HEAD", "a", 2)],
        0,
    );
    assert!(router.is_ok());
}

#[test]
fn keyed_routes_collide_on_equal_keys_only() {
    assert!(Router::from_keyed_routes(
        vec![(key("GET", "/a"), 1), (key("GET", "/b"), 2), (key("PUT", "/a"), 3)],
        0
    )
    .is_ok());

    let collision = Router::from_keyed_routes(
        vec![
            (key("GET", "/a"), 1),
            (key("GET", "/b"), 2),
            (key("GET", "/c"), 3),
            (key("GET", "/b"), 4),
            (key("GET", "/a"), 5),
        ],
        0,
    );
    match collision {
        Err(error) => {
            assert!(matches!(
                &error,
                RouterError::Collision { method, path } if method == "GET" && path == "/b"
            ));
            assert_eq!(error.message(), "collision in router key: GET /b");
        }
        Ok(_) => panic!("expected a collision"),
    }
}

#[test]
fn route_key_is_built_below_the_context() {
    let declared = route("GET", "commands/sleep3", 1);
    let key = Router::build_route_key("/cgi", &declared);
    assert_eq!(key.method, "GET");
    assert_eq!(key.path_str(), "/cgi/commands/sleep3");
}

#[test]
fn errors_are_written_out() {
    assert_eq!(
        RouterError::Collision {
            method: "PUT".to_owned(),
            path: "/x".to_owned()
        }
        .message(),
        "collision in router key: PUT /x"
    );
}

#[test]
fn configured_front_end_dispatches_below_its_context() {
    let router = create_handlers(&configuration("/api", &["sleep3", "uptime"])).unwrap();
    assert_eq!(router.len(), 6);
    assert_eq!(*router.route("GET", "/api/version_info"), Endpoint::VersionInfo);
    assert_eq!(*router.route("GET", "/api/request_info"), Endpoint::RequestInfo);
    assert_eq!(
        *router.route("GET", "/api/connection_info"),
        Endpoint::ConnectionInfo
    );
    assert_eq!(*router.route("GET", "/api/commands"), Endpoint::AllCommands);
    assert_eq!(
        *router.route("GET", "/api/commands/sleep3"),
        Endpoint::RunCommand { index: 0 }
    );
    assert_eq!(
        *router.route("GET", "/api/commands/uptime"),
        Endpoint::RunCommand { index: 1 }
    );

    // Outside the context everything is a static file.
    assert_eq!(*router.route("GET", "/version_info"), Endpoint::StaticFile);
    assert_eq!(*router.route("GET", "/index.html"), Endpoint::StaticFile);
    assert_eq!(*router.route("POST", "/api/version_info"), Endpoint::StaticFile);
    assert_eq!(
        *router.route("GET", "/api/commands/unknown"),
        Endpoint::StaticFile
    );
}

#[test]
fn commands_with_the_same_identity_collide() {
    let result = create_handlers(&configuration("/api", &["twice", "twice"]));
    assert!(matches!(result, Err(RouterError::Collision { .. })));
}
