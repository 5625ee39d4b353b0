use http_frontend::config::{
    StaticFileCacheRule, StaticFileCacheRuleType, StaticFileConfiguration,
    StaticFilePrecompressedConfiguration,
};
use http_frontend::handlers::static_file::{
    duration_to_u32_seconds, is_dot_path, ResolveResult, StaticFileAction, StaticFileHandler,
};
use http_frontend::response::CacheControl;
use http_frontend::static_file::{ResolvedFile, StaticFileRulesService};
use http_frontend::time::{TimeSpan, WallTime};

fn handler(error_page_cache: Option<TimeSpan>) -> StaticFileHandler {
    let configuration = StaticFileConfiguration {
        root: "/var/www".to_owned(),
        precompressed: StaticFilePrecompressedConfiguration {
            br: true,
            gz: false,
        },
        client_error_page_path: "/error.html".to_owned(),
        client_error_page_cache_duration: error_page_cache,
        cache_rules: vec![
            StaticFileCacheRule {
                host_regex: None,
                path_regex: Some("\\.png$".to_owned()),
                rule_type: StaticFileCacheRuleType::ModTimePlusDelta,
                duration: TimeSpan::from_secs(900),
            },
            StaticFileCacheRule {
                host_regex: Some("^cdn\\.".to_owned()),
                path_regex: None,
                rule_type: StaticFileCacheRuleType::FixedTime,
                duration: TimeSpan::from_nanos(86_400_999_999_999),
            },
        ],
    };
    let rules = StaticFileRulesService::new(&configuration).unwrap();
    StaticFileHandler::new(&configuration, rules)
}

fn found(path: &str, modified_secs: Option<u64>) -> ResolveResult {
    ResolveResult::Found(ResolvedFile {
        path: Some(path.to_owned()),
        modified: modified_secs.map(WallTime::from_secs),
    })
}

#[test]
fn handler_keeps_its_configuration() {
    let handler = handler(None);
    assert_eq!(handler.root(), "/var/www");
    assert_eq!(
        handler.precompressed(),
        StaticFilePrecompressedConfiguration {
            br: true,
            gz: false
        }
    );
}

#[test]
fn dot_paths_are_recognised() {
    assert!(is_dot_path(".hidden"));
    assert!(is_dot_path("."));
    assert!(is_dot_path("a/.b"));
    assert!(is_dot_path("a/b/.git/config"));
    assert!(is_dot_path("/.well-known/x"));
    assert!(is_dot_path("a/."));
    assert!(is_dot_path("a/../b"));
    assert!(!is_dot_path(""));
    assert!(!is_dot_path("index.html"));
    assert!(!is_dot_path("a/b.c/d.e"));
    assert!(!is_dot_path("a./b"));
    assert!(!is_dot_path("/"));
    assert!(!is_dot_path("é/ü.png"));
    assert!(is_dot_path("é/.ü"));
}

#[test]
fn seconds_are_rounded_down_and_must_fit() {
    assert_eq!(duration_to_u32_seconds(TimeSpan::zero()), 0);
    assert_eq!(duration_to_u32_seconds(TimeSpan::from_nanos(999_999_999)), 0);
    assert_eq!(duration_to_u32_seconds(TimeSpan::from_nanos(1_000_000_000)), 1);
    assert_eq!(duration_to_u32_seconds(TimeSpan::from_nanos(900_700_000_000)), 900);
    assert_eq!(
        duration_to_u32_seconds(TimeSpan::from_secs(u32::MAX as u64)),
        u32::MAX
    );
    assert_eq!(
        duration_to_u32_seconds(TimeSpan::from_secs(u32::MAX as u64 + 1)),
        0
    );
    assert_eq!(duration_to_u32_seconds(TimeSpan::from_nanos(u128::MAX)), 0);
}

#[test]
fn unserved_requests_get_the_client_error_page() {
    let handler = handler(None);
    let now = WallTime::from_secs(0);
    assert_eq!(
        handler.decide(None, &ResolveResult::MethodNotMatched, now),
        StaticFileAction::ClientErrorPage { status_code: 400 }
    );
    assert_eq!(
        handler.decide(None, &ResolveResult::NotFound, now),
        StaticFileAction::ClientErrorPage { status_code: 404 }
    );
    assert_eq!(
        handler.decide(None, &ResolveResult::PermissionDenied, now),
        StaticFileAction::ClientErrorPage { status_code: 403 }
    );
}

#[test]
fn hidden_file_is_forbidden() {
    let handler = handler(None);
    let now = WallTime::from_secs(0);
    assert!(handler.block_dot_paths(&found(".hidden", None)));
    assert_eq!(
        handler.decide(None, &found(".hidden", None), now),
        StaticFileAction::ClientErrorPage { status_code: 403 }
    );
    assert_eq!(
        handler.decide(None, &found("img/.secret/x.png", Some(0)), now),
        StaticFileAction::ClientErrorPage { status_code: 403 }
    );
    assert_eq!(
        handler.decide(
            None,
            &ResolveResult::IsDirectory {
                redirect_to: "/.git/".to_owned()
            },
            now
        ),
        StaticFileAction::ClientErrorPage { status_code: 403 }
    );
    assert!(!handler.block_dot_paths(&ResolveResult::NotFound));
    assert!(!handler.block_dot_paths(&ResolveResult::Found(ResolvedFile {
        path: None,
        modified: None
    })));
}

#[test]
fn served_file_gets_the_cache_header_of_the_policy() {
    let handler = handler(None);
    let modified = 1_700_000_000u64;

    // No rule matches: no cache header.
    assert_eq!(
        handler.decide(
            Some("www.example.org"),
            &found("index.html", Some(modified)),
            WallTime::from_secs(modified)
        ),
        StaticFileAction::Serve {
            cache_headers: None
        }
    );

    // Modification time plus delta, in whole seconds.
    assert_eq!(
        handler.decide(
            Some("www.example.org"),
            &found("x.png", Some(modified)),
            WallTime::from_nanos((modified as i128) * 1_000_000_000 + 1)
        ),
        StaticFileAction::Serve {
            cache_headers: Some(899)
        }
    );
    assert_eq!(
        handler.decide(
            None,
            &found("x.png", Some(modified)),
            WallTime::from_secs(modified + 1_000)
        ),
        StaticFileAction::Serve {
            cache_headers: Some(0)
        }
    );

    // Fixed time, in whole seconds, whatever the modification time.
    for modified in [None, Some(0u64), Some(modified)] {
        assert_eq!(
            handler.decide(
                Some("cdn.example.org"),
                &found("index.html", modified),
                WallTime::from_secs(5)
            ),
            StaticFileAction::Serve {
                cache_headers: Some(86_400)
            }
        );
    }
}

#[test]
fn redirect_is_served_without_cache_header() {
    let handler = handler(None);
    let redirect = ResolveResult::IsDirectory {
        redirect_to: "/docs/".to_owned(),
    };
    assert_eq!(
        handler.build_cache_headers(Some("cdn.example.org"), &redirect, WallTime::from_secs(0)),
        None
    );
    assert_eq!(
        handler.decide(Some("cdn.example.org"), &redirect, WallTime::from_secs(0)),
        StaticFileAction::Serve {
            cache_headers: None
        }
    );
}

#[test]
fn client_error_page_request_carries_the_accept_encoding() {
    let handler = handler(Some(TimeSpan::from_nanos(60_500_000_000)));
    let request = handler.build_client_error_page_request(Some("br"), 403);
    assert_eq!(request.path, "/error.html");
    assert_eq!(request.accept_encoding.as_deref(), Some("br"));
    assert_eq!(request.status_code, 403);
    assert_eq!(request.cache_headers, Some(60));

    let request = handler.build_client_error_page_request(None, 404);
    assert_eq!(request.accept_encoding, None);
    assert_eq!(request.status_code, 404);
}

#[test]
fn client_error_page_without_cache_duration_has_no_cache_header() {
    let handler = handler(None);
    let request = handler.build_client_error_page_request(Some("gzip, br"), 400);
    assert_eq!(request.cache_headers, None);
    assert_eq!(request.accept_encoding.as_deref(), Some("gzip, br"));
}

#[test]
fn failure_is_a_bare_500_that_is_not_cached() {
    let response = handler(None).failure_response();
    assert_eq!(response.status_code, 500);
    assert_eq!(response.cache_control, CacheControl::NoCache);
    assert_eq!(response.cache_control.header_value(), "public, no-cache");
    assert!(response.body.is_none());
    assert!(response.content_type.is_none());
}
