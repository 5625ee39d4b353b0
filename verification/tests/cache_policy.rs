use http_frontend::config::{
    StaticFileCacheRule, StaticFileCacheRuleType, StaticFileConfiguration,
    StaticFilePrecompressedConfiguration,
};
use http_frontend::static_file::{
    create_rules_service_instance, time_left, CachePolicyRule, CacheRule, CacheRuleError,
    FixedTimeCacheHeaderRule, ModificationTimePlusDeltaCacheHeaderRule, RequestMatchData,
    RequestMatcher, ResolvedFile, StaticFileRulesService,
};
use http_frontend::time::{TimeSpan, WallTime};

fn rule(
    host_regex: Option<&str>,
    path_regex: Option<&str>,
    rule_type: StaticFileCacheRuleType,
    secs: u64,
) -> StaticFileCacheRule {
    StaticFileCacheRule {
        host_regex: host_regex.map(|s| s.to_owned()),
        path_regex: path_regex.map(|s| s.to_owned()),
        rule_type,
        duration: TimeSpan::from_secs(secs),
    }
}

fn configuration(cache_rules: Vec<StaticFileCacheRule>) -> StaticFileConfiguration {
    StaticFileConfiguration {
        root: "/var/www".to_owned(),
        precompressed: StaticFilePrecompressedConfiguration {
            br: true,
            gz: false,
        },
        client_error_page_path: "/error.html".to_owned(),
        client_error_page_cache_duration: Some(TimeSpan::from_secs(60)),
        cache_rules,
    }
}

fn file(path: &str, modified_secs: Option<u64>) -> ResolvedFile {
    ResolvedFile {
        path: Some(path.to_owned()),
        modified: modified_secs.map(WallTime::from_secs),
    }
}

#[test]
fn time_left_counts_down_to_zero() {
    let modified = WallTime::from_secs(1_000);
    let duration = TimeSpan::from_secs(900);
    assert_eq!(
        time_left(modified, duration, WallTime::from_secs(1_000)),
        TimeSpan::from_secs(900)
    );
    assert_eq!(
        time_left(modified, duration, WallTime::from_secs(1_300)),
        TimeSpan::from_secs(600)
    );
    assert_eq!(
        time_left(modified, duration, WallTime::from_secs(1_899)),
        TimeSpan::from_secs(1)
    );
    assert_eq!(
        time_left(modified, duration, WallTime::from_secs(1_900)),
        TimeSpan::zero()
    );
    assert_eq!(
        time_left(modified, duration, WallTime::from_secs(5_000)),
        TimeSpan::zero()
    );
}

#[test]
fn time_left_keeps_nanoseconds() {
    let modified = WallTime::from_nanos(10);
    let duration = TimeSpan::from_nanos(25);
    assert_eq!(
        time_left(modified, duration, WallTime::from_nanos(12)),
        TimeSpan::from_nanos(23)
    );
}

#[test]
fn time_left_is_zero_on_overflow() {
    let duration = TimeSpan::from_secs(900);
    assert_eq!(
        time_left(
            WallTime::from_nanos(i128::MAX),
            duration,
            WallTime::from_secs(0)
        ),
        TimeSpan::zero()
    );
    assert_eq!(
        time_left(
            WallTime::from_nanos(1),
            TimeSpan::from_nanos(i128::MAX as u128),
            WallTime::from_secs(0)
        ),
        TimeSpan::zero()
    );
    assert_eq!(
        time_left(
            WallTime::from_nanos(0),
            TimeSpan::from_nanos(u128::MAX),
            WallTime::from_secs(0)
        ),
        TimeSpan::zero()
    );
    // The largest sum that can still be written down.
    assert_eq!(
        time_left(
            WallTime::from_nanos(0),
            TimeSpan::from_nanos(i128::MAX as u128),
            WallTime::from_nanos(0)
        ),
        TimeSpan::from_nanos(i128::MAX as u128)
    );
}

#[test]
fn time_left_handles_times_before_the_epoch() {
    assert_eq!(
        time_left(
            WallTime::from_nanos(-100),
            TimeSpan::from_nanos(30),
            WallTime::from_nanos(-90)
        ),
        TimeSpan::from_nanos(20)
    );
    assert_eq!(
        time_left(
            WallTime::from_nanos(-100),
            TimeSpan::from_nanos(150),
            WallTime::from_nanos(-90)
        ),
        TimeSpan::from_nanos(140)
    );
    assert_eq!(
        time_left(
            WallTime::from_nanos(i128::MIN),
            TimeSpan::from_nanos(u128::MAX),
            WallTime::from_nanos(i128::MIN)
        ),
        TimeSpan::from_nanos(u128::MAX)
    );
    assert_eq!(
        time_left(
            WallTime::from_nanos(i128::MIN),
            TimeSpan::from_nanos(5),
            WallTime::from_nanos(0)
        ),
        TimeSpan::zero()
    );
}

#[test]
fn time_left_exceeds_duration_for_a_file_from_the_future() {
    // mtime = 100, now = 0, duration = 10: 110 is left, more than the duration.
    assert_eq!(
        time_left(
            WallTime::from_secs(100),
            TimeSpan::from_secs(10),
            WallTime::from_secs(0)
        ),
        TimeSpan::from_secs(110)
    );
}

#[test]
fn time_left_is_within_duration_for_a_file_from_the_past() {
    let duration = TimeSpan::from_secs(900);
    for now in [1_000u64, 1_001, 1_450, 1_900, 2_500] {
        let left = time_left(WallTime::from_secs(1_000), duration, WallTime::from_secs(now));
        assert!(left >= TimeSpan::zero());
        assert!(left <= duration);
    }
}

#[test]
fn fixed_rule_ignores_the_modification_time() {
    let rule = FixedTimeCacheHeaderRule::new(TimeSpan::from_secs(3_600));
    for modified in [None, Some(0u64), Some(1_000), Some(9_999_999)] {
        assert_eq!(
            rule.build_cache_header(&file("a.css", modified)),
            Some(TimeSpan::from_secs(3_600))
        );
    }
    let rule = CacheRule::new(StaticFileCacheRuleType::FixedTime, TimeSpan::from_secs(30));
    assert_eq!(
        rule.build_cache_header(&file("a.css", Some(5)), WallTime::from_secs(1_000_000)),
        Some(TimeSpan::from_secs(30))
    );
}

#[test]
fn mod_time_rule_without_modification_time_grants_zero() {
    let rule = ModificationTimePlusDeltaCacheHeaderRule::new(TimeSpan::from_secs(900));
    assert_eq!(
        rule.build_cache_header(&file("a.png", None), WallTime::from_secs(50)),
        Some(TimeSpan::zero())
    );
    assert_eq!(
        rule.build_cache_header(&file("a.png", Some(100)), WallTime::from_secs(400)),
        Some(TimeSpan::from_secs(600))
    );
}

#[test]
fn matcher_without_patterns_accepts_everything() {
    let matcher = RequestMatcher::new(&rule(None, None, StaticFileCacheRuleType::FixedTime, 1))
        .unwrap();
    assert!(matcher.matches(&RequestMatchData {
        host_option: None,
        resolved_path_option: None,
    }));
    assert!(matcher.matches(&RequestMatchData {
        host_option: Some("example.org"),
        resolved_path_option: Some("index.html"),
    }));
}

#[test]
fn matcher_with_patterns_needs_the_text() {
    let matcher = RequestMatcher::new(&rule(
        Some("^static\\."),
        Some("\\.png$"),
        StaticFileCacheRuleType::FixedTime,
        1,
    ))
    .unwrap();
    assert!(matcher.matches(&RequestMatchData {
        host_option: Some("static.example.org"),
        resolved_path_option: Some("img/x.png"),
    }));
    assert!(!matcher.matches(&RequestMatchData {
        host_option: Some("www.example.org"),
        resolved_path_option: Some("img/x.png"),
    }));
    assert!(!matcher.matches(&RequestMatchData {
        host_option: Some("static.example.org"),
        resolved_path_option: Some("img/x.png.txt"),
    }));
    assert!(!matcher.matches(&RequestMatchData {
        host_option: None,
        resolved_path_option: Some("img/x.png"),
    }));
    assert!(!matcher.matches(&RequestMatchData {
        host_option: Some("static.example.org"),
        resolved_path_option: None,
    }));
}

#[test]
fn matcher_remembers_its_patterns() {
    let matcher = RequestMatcher::new(&rule(
        Some("^a$"),
        None,
        StaticFileCacheRuleType::FixedTime,
        1,
    ))
    .unwrap();
    assert_eq!(matcher.host_pattern(), Some("^a$"));
    assert_eq!(matcher.path_pattern(), None);
}

#[test]
fn pattern_that_does_not_compile_is_an_error() {
    let host = RequestMatcher::new(&rule(
        Some("("),
        Some("\\.png$"),
        StaticFileCacheRuleType::FixedTime,
        1,
    ));
    assert!(matches!(host, Err(CacheRuleError::HostRegex { .. })));

    let path = RequestMatcher::new(&rule(
        Some("^a$"),
        Some("[z-a]"),
        StaticFileCacheRuleType::FixedTime,
        1,
    ));
    assert!(matches!(path, Err(CacheRuleError::PathRegex { .. })));

    // The host pattern is reported before the path pattern.
    let both = RequestMatcher::new(&rule(
        Some("("),
        Some("("),
        StaticFileCacheRuleType::FixedTime,
        1,
    ));
    assert!(matches!(both, Err(CacheRuleError::HostRegex { .. })));
    assert!(both
        .unwrap_err()
        .message()
        .starts_with("error parsing host_regex: "));
    assert_eq!(
        CacheRuleError::PathRegex {
            message: "unclosed group".to_owned()
        }
        .message(),
        "error parsing path_regex: unclosed group"
    );
}

#[test]
fn from_compiled_reports_the_first_failure() {
    let good = || Some(regex::Regex::new("a"));
    let bad = || Some(regex::Regex::new("("));
    assert!(RequestMatcher::from_compiled(None, None).is_ok());
    assert!(RequestMatcher::from_compiled(good(), good()).is_ok());
    assert!(matches!(
        RequestMatcher::from_compiled(bad(), good()),
        Err(CacheRuleError::HostRegex { .. })
    ));
    assert!(matches!(
        RequestMatcher::from_compiled(good(), bad()),
        Err(CacheRuleError::PathRegex { .. })
    ));
    assert!(matches!(
        RequestMatcher::from_compiled(bad(), bad()),
        Err(CacheRuleError::HostRegex { .. })
    ));
    let matcher = RequestMatcher::from_compiled(None, good()).unwrap();
    assert!(matcher.host_regex.is_none());
    assert_eq!(matcher.path_regex.unwrap().as_str(), "a");
}

#[test]
fn policy_is_built_exactly_when_every_pattern_compiles() {
    let good = |host: Option<&str>, path: Option<&str>| {
        rule(host, path, StaticFileCacheRuleType::FixedTime, 1)
    };
    assert!(StaticFileRulesService::new(&configuration(vec![])).is_ok());
    assert!(StaticFileRulesService::new(&configuration(vec![
        good(Some("^a$"), Some("\\.png$")),
        good(None, Some(".*")),
        good(Some("b"), None),
        good(None, None),
    ]))
    .is_ok());
    assert!(RequestMatcher::new(&good(Some("^a$"), Some("\\.png$"))).is_ok());

    // The first rule with a pattern that does not compile gives the error.
    assert!(matches!(
        StaticFileRulesService::new(&configuration(vec![
            good(Some("^a$"), None),
            good(Some("ok"), Some("(")),
            good(Some("("), None),
        ])),
        Err(CacheRuleError::PathRegex { .. })
    ));
    assert!(matches!(
        create_rules_service_instance(&configuration(vec![
            good(Some("["), Some("(")),
            good(None, Some("(")),
        ])),
        Err(CacheRuleError::HostRegex { .. })
    ));
}

#[test]
fn no_matching_rule_grants_nothing() {
    let service = StaticFileRulesService::new(&configuration(vec![rule(
        None,
        Some("\\.png$"),
        StaticFileCacheRuleType::FixedTime,
        900,
    )]))
    .unwrap();
    assert_eq!(
        service.build_cache_header(None, &file("index.html", Some(5)), WallTime::from_secs(10)),
        None
    );

    let empty = StaticFileRulesService::new(&configuration(vec![])).unwrap();
    assert_eq!(
        empty.build_cache_header(
            Some("example.org"),
            &file("x.png", Some(5)),
            WallTime::from_secs(10)
        ),
        None
    );
}

#[test]
fn first_matching_rule_wins() {
    let service = StaticFileRulesService::new(&configuration(vec![
        rule(
            Some("^never$"),
            None,
            StaticFileCacheRuleType::FixedTime,
            1,
        ),
        rule(
            None,
            Some("\\.png$"),
            StaticFileCacheRuleType::FixedTime,
            20,
        ),
        rule(None, None, StaticFileCacheRuleType::FixedTime, 300),
        rule(
            None,
            Some("\\.png$"),
            StaticFileCacheRuleType::FixedTime,
            4_000,
        ),
    ]))
    .unwrap();
    let now = WallTime::from_secs(10);
    assert_eq!(
        service.build_cache_header(Some("example.org"), &file("a/x.png", None), now),
        Some(TimeSpan::from_secs(20))
    );
    assert_eq!(
        service.build_cache_header(Some("example.org"), &file("a/x.css", None), now),
        Some(TimeSpan::from_secs(300))
    );
    assert_eq!(
        service.build_cache_header(Some("never"), &file("a/x.png", None), now),
        Some(TimeSpan::from_secs(1))
    );
}

#[test]
fn path_that_is_not_text_matches_only_rules_without_path_pattern() {
    let service = StaticFileRulesService::new(&configuration(vec![
        rule(
            None,
            Some(".*"),
            StaticFileCacheRuleType::FixedTime,
            20,
        ),
        rule(None, None, StaticFileCacheRuleType::FixedTime, 300),
    ]))
    .unwrap();
    let nameless = ResolvedFile {
        path: None,
        modified: None,
    };
    assert_eq!(
        service.build_cache_header(None, &nameless, WallTime::from_secs(0)),
        Some(TimeSpan::from_secs(300))
    );
}

#[test]
fn png_rule_with_modification_time_plus_delta() {
    let service = create_rules_service_instance(&configuration(vec![rule(
        None,
        Some("\\.png$"),
        StaticFileCacheRuleType::ModTimePlusDelta,
        900,
    )]))
    .unwrap();
    let modified = 1_700_000_000u64;
    let picture = file("x.png", Some(modified));

    let fresh = service
        .build_cache_header(None, &picture, WallTime::from_secs(modified))
        .unwrap();
    assert_eq!(fresh, TimeSpan::from_secs(900));

    let later = service
        .build_cache_header(None, &picture, WallTime::from_secs(modified + 100))
        .unwrap();
    assert!(later >= TimeSpan::zero() && later <= TimeSpan::from_secs(900));
    assert_eq!(later, TimeSpan::from_secs(800));

    let stale = service
        .build_cache_header(None, &picture, WallTime::from_secs(modified + 901))
        .unwrap();
    assert_eq!(stale, TimeSpan::zero());

    assert_eq!(
        service.build_cache_header(None, &file("x.txt", Some(modified)), WallTime::from_secs(modified)),
        None
    );
}

#[test]
fn service_is_not_built_from_a_bad_pattern() {
    let result = StaticFileRulesService::new(&configuration(vec![
        rule(None, None, StaticFileCacheRuleType::FixedTime, 1),
        rule(
            None,
            Some("(unclosed"),
            StaticFileCacheRuleType::FixedTime,
            1,
        ),
        rule(
            Some("(unclosed"),
            None,
            StaticFileCacheRuleType::FixedTime,
            1,
        ),
    ]));
    assert!(matches!(result, Err(CacheRuleError::PathRegex { .. })));
    assert!(create_rules_service_instance(&configuration(vec![rule(
        Some("[["),
        None,
        StaticFileCacheRuleType::FixedTime,
        1,
    )]))
    .is_err());
}

#[test]
fn service_from_rules_keeps_their_order() {
    let service = StaticFileRulesService::from_rules(vec![
        CachePolicyRule {
            matcher: RequestMatcher {
                host_regex: None,
                path_regex: Some(regex::Regex::new("^a").unwrap()),
            },
            rule: CacheRule::new(StaticFileCacheRuleType::FixedTime, TimeSpan::from_secs(1)),
        },
        CachePolicyRule {
            matcher: RequestMatcher {
                host_regex: None,
                path_regex: None,
            },
            rule: CacheRule::new(StaticFileCacheRuleType::FixedTime, TimeSpan::from_secs(2)),
        },
    ]);
    assert_eq!(
        service.build_cache_header(None, &file("abc", None), WallTime::from_secs(0)),
        Some(TimeSpan::from_secs(1))
    );
    assert_eq!(
        service.build_cache_header(None, &file("xyz", None), WallTime::from_secs(0)),
        Some(TimeSpan::from_secs(2))
    );
}
