//! The cache policy for static files: an ordered list of rules, each a
//! matcher on the request's host and the resolved file's path together with
//! a way to compute how long the file may be cached. The first rule whose
//! matcher accepts decides.

use vstd::prelude::*;
use vstd::string::*;
use regex::Regex;
use crate::config::{StaticFileCacheRule, StaticFileCacheRuleType, StaticFileConfiguration};
use crate::time::{spec_max, TimeSpan, WallTime};

verus! {

/// `regex::Regex`: a compiled regular expression. Nothing is known of what
/// is inside one but through [`regex_source`] and [`regex_accepts`].
#[verifier::external_type_specification]
#[verifier::external_body]
pub struct ExRegex(Regex);

/// `regex::Error`: why a pattern did not compile.
#[verifier::external_type_specification]
#[verifier::external_body]
pub struct ExRegexError(regex::Error);

/// The pattern of a compiled regular expression: the text that
/// `Regex::as_str` gives.
pub uninterp spec fn regex_source(regex: Regex) -> Seq<char>;

/// Whether a compiled regular expression finds a match anywhere in a text:
/// what `Regex::is_match` gives.
pub uninterp spec fn regex_accepts(regex: Regex, text: Seq<char>) -> bool;

/// Whether a pattern compiles: whether `Regex::new` gives an expression
/// for it. That is decided by the pattern alone, against the syntax and the
/// size limit that the regex crate has by default.
pub uninterp spec fn regex_compiles(pattern: Seq<char>) -> bool;

/// `Regex::new`: compiles a pattern, where the pattern compiles; the
/// pattern of a compiled expression is the pattern it was compiled from.
#[verifier::external_body]
fn compile_regex(pattern: &str) -> (compiled: Result<Regex, regex::Error>)
    ensures
        compiled.is_ok() == regex_compiles(pattern@),
        compiled matches Ok(regex) ==> regex_source(regex) == pattern@,
{
    Regex::new(pattern)
}

/// `Regex::as_str`: the pattern of the expression.
#[verifier::external_body]
fn regex_as_str(regex: &Regex) -> (pattern: &str)
    ensures
        pattern@ == regex_source(*regex),
{
    regex.as_str()
}

/// `Regex::is_match`: whether the expression finds a match anywhere in
/// `text`. The answer depends on the expression and the text alone.
#[verifier::external_body]
fn regex_is_match(regex: &Regex, text: &str) -> (accepts: bool)
    ensures
        accepts == regex_accepts(*regex, text@),
{
    regex.is_match(text)
}

/// The `Display` text of a `regex::Error`.
#[verifier::external_body]
fn regex_error_message(error: &regex::Error) -> String {
    error.to_string()
}

/// Why a list of cache rules could not be built.
#[derive(Debug)]
pub enum CacheRuleError {
    /// A rule's host pattern does not compile.
    HostRegex { message: String },
    /// A rule's path pattern does not compile.
    PathRegex { message: String },
}

impl CacheRuleError {
    /// The error as a line of text.
    pub open spec fn spec_message(&self) -> Seq<char> {
        match self {
            CacheRuleError::HostRegex { message } => "error parsing host_regex: "@ + message@,
            CacheRuleError::PathRegex { message } => "error parsing path_regex: "@ + message@,
        }
    }

    /// The error as a line of text.
    pub fn message(&self) -> (message: String)
        ensures
            message@ == self.spec_message(),
    {
        match self {
            CacheRuleError::HostRegex { message } => String::from_str(
                "error parsing host_regex: ",
            ).concat(message.as_str()),
            CacheRuleError::PathRegex { message } => String::from_str(
                "error parsing path_regex: ",
            ).concat(message.as_str()),
        }
    }
}

/// What a static file resolved to, as far as the cache policy reads it: its
/// path, if the path is text, and when it was last modified, if that is
/// known.
#[derive(Clone, Debug)]
pub struct ResolvedFile {
    pub path: Option<String>,
    pub modified: Option<WallTime>,
}

/// What a matcher looks at: the host the request named, if it named one, and
/// the resolved file's path, if the path is text.
pub struct RequestMatchData<'a> {
    pub host_option: Option<&'a str>,
    pub resolved_path_option: Option<&'a str>,
}

/// The text of an optional string slice.
pub open spec fn spec_text(text: Option<&str>) -> Option<Seq<char>> {
    match text {
        Some(text) => Some(text@),
        None => None,
    }
}

/// The text of an optional string.
pub open spec fn spec_owned_text(text: Option<String>) -> Option<Seq<char>> {
    match text {
        Some(text) => Some(text@),
        None => None,
    }
}

/// Whether an optional expression accepts an optional text: an absent
/// expression accepts everything, a present one accepts only a present text
/// that it matches.
pub open spec fn spec_accepts(regex: Option<Regex>, text: Option<Seq<char>>) -> bool {
    match regex {
        None => true,
        Some(regex) => match text {
            None => false,
            Some(text) => regex_accepts(regex, text),
        },
    }
}

/// The pattern of an optional expression.
pub open spec fn spec_pattern(regex: Option<Regex>) -> Option<Seq<char>> {
    match regex {
        Some(regex) => Some(regex_source(regex)),
        None => None,
    }
}

/// Whether an optional expression was compiled from an optional pattern:
/// both are absent, or both are present and the one remembers the other.
pub open spec fn spec_compiled_from(regex: Option<Regex>, pattern: Option<String>) -> bool {
    match regex {
        None => pattern.is_none(),
        Some(regex) => pattern matches Some(pattern) && regex_source(regex) == pattern@,
    }
}

/// Whether an optional pattern compiles: an absent one does.
pub open spec fn spec_pattern_compiles(pattern: Option<String>) -> bool {
    match pattern {
        Some(pattern) => regex_compiles(pattern@),
        None => true,
    }
}

/// Whether both patterns of a configured rule compile.
pub open spec fn spec_rule_compiles(rule: StaticFileCacheRule) -> bool {
    spec_pattern_compiles(rule.host_regex) && spec_pattern_compiles(rule.path_regex)
}

/// The error names the first pattern of `rule` that does not compile: the
/// host pattern, or else the path pattern.
pub open spec fn spec_error_of_rule(error: CacheRuleError, rule: StaticFileCacheRule) -> bool {
    match error {
        CacheRuleError::HostRegex { .. } => !spec_pattern_compiles(rule.host_regex),
        CacheRuleError::PathRegex { .. } => spec_pattern_compiles(rule.host_regex)
            && !spec_pattern_compiles(rule.path_regex),
    }
}

/// Every one of the configured rules compiles.
pub open spec fn spec_rules_compile(rules: Seq<StaticFileCacheRule>) -> bool {
    forall|i: int| 0 <= i < rules.len() ==> spec_rule_compiles(#[trigger] rules[i])
}

/// Rule `index` is the first of the configured rules that does not compile.
pub open spec fn is_first_failing_rule(rules: Seq<StaticFileCacheRule>, index: int) -> bool {
    &&& 0 <= index < rules.len()
    &&& !spec_rule_compiles(rules[index])
    &&& forall|earlier: int| 0 <= earlier < index ==> spec_rule_compiles(#[trigger] rules[earlier])
}

/// `built` is what building the policy of the configured rules gives: the
/// policy with one rule for each configured rule, in the configured order,
/// exactly if every pattern compiles; and else the error of the first rule
/// with a pattern that does not compile.
pub open spec fn is_policy_of(
    rules: Seq<StaticFileCacheRule>,
    built: Result<StaticFileRulesService, CacheRuleError>,
) -> bool {
    &&& built.is_ok() <==> spec_rules_compile(rules)
    &&& built matches Ok(service) ==> {
        &&& service@.len() == rules.len()
        &&& forall|i: int| 0 <= i < service@.len() ==> (#[trigger] service@[i]).built_from(&rules[i])
    }
    &&& built matches Err(error) ==> exists|index: int| #[trigger]
        is_first_failing_rule(rules, index) && spec_error_of_rule(error, rules[index])
}

/// A matcher on the request's host and the resolved file's path.
#[derive(Debug)]
pub struct RequestMatcher {
    pub host_regex: Option<Regex>,
    pub path_regex: Option<Regex>,
}

impl RequestMatcher {
    /// The matcher accepts a host and a path if its host expression accepts the
    /// host and its path expression accepts the path.
    pub open spec fn spec_matches(&self, host: Option<Seq<char>>, path: Option<Seq<char>>) -> bool {
        spec_accepts(self.host_regex, host) && spec_accepts(self.path_regex, path)
    }

    /// The matcher was compiled from the patterns of `rule`.
    pub open spec fn compiled_from(&self, rule: &StaticFileCacheRule) -> bool {
        spec_compiled_from(self.host_regex, rule.host_regex) && spec_compiled_from(
            self.path_regex,
            rule.path_regex,
        )
    }

    /// The matcher of the two expressions, where both compiled; else the error
    /// of the first that did not, the host's before the path's.
    pub fn from_compiled(
        host: Option<Result<Regex, regex::Error>>,
        path: Option<Result<Regex, regex::Error>>,
    ) -> (built: Result<RequestMatcher, CacheRuleError>)
        ensures
            built.is_ok() <==> !(host matches Some(Err(_))) && !(path matches Some(Err(_))),
            built matches Ok(matcher) ==> {
                &&& matcher.host_regex == match host {
                    Some(Ok(regex)) => Some(regex),
                    _ => None,
                }
                &&& matcher.path_regex == match path {
                    Some(Ok(regex)) => Some(regex),
                    _ => None,
                }
            },
            built matches Err(CacheRuleError::HostRegex { .. }) <==> host matches Some(Err(_)),
            built matches Err(CacheRuleError::PathRegex { .. }) <==> !(host matches Some(Err(_)))
                && path matches Some(Err(_)),
    {
        let host_regex = match host {
            None => None,
            Some(Ok(regex)) => Some(regex),
            Some(Err(error)) => {
                return Err(CacheRuleError::HostRegex { message: regex_error_message(&error) });
            },
        };
        let path_regex = match path {
            None => None,
            Some(Ok(regex)) => Some(regex),
            Some(Err(error)) => {
                return Err(CacheRuleError::PathRegex { message: regex_error_message(&error) });
            },
        };
        Ok(RequestMatcher { host_regex, path_regex })
    }

    /// Compiles the patterns of a configured rule: the matcher of the
    /// compiled patterns, exactly if each pattern that the rule has compiles;
    /// and else the error of the first that does not, the host pattern's
    /// before the path pattern's.
    pub fn new(cache_rule_config: &StaticFileCacheRule) -> (built: Result<
        RequestMatcher,
        CacheRuleError,
    >)
        ensures
            built.is_ok() <==> spec_rule_compiles(*cache_rule_config),
            built matches Ok(matcher) ==> matcher.compiled_from(cache_rule_config),
            built matches Err(error) ==> spec_error_of_rule(error, *cache_rule_config),
    {
        let host = match &cache_rule_config.host_regex {
            None => None,
            Some(host_regex) => Some(compile_regex(host_regex.as_str())),
        };
        let path = match &cache_rule_config.path_regex {
            None => None,
            Some(path_regex) => Some(compile_regex(path_regex.as_str())),
        };
        RequestMatcher::from_compiled(host, path)
    }

    /// The pattern of the host expression, if the matcher has one.
    pub fn host_pattern(&self) -> (pattern: Option<&str>)
        ensures
            spec_text(pattern) == spec_pattern(self.host_regex),
    {
        match &self.host_regex {
            Some(host_regex) => Some(regex_as_str(host_regex)),
            None => None,
        }
    }

    /// The pattern of the path expression, if the matcher has one.
    pub fn path_pattern(&self) -> (pattern: Option<&str>)
        ensures
            spec_text(pattern) == spec_pattern(self.path_regex),
    {
        match &self.path_regex {
            Some(path_regex) => Some(regex_as_str(path_regex)),
            None => None,
        }
    }

    /// Whether the matcher accepts the host and the path of a request.
    pub fn matches(&self, request_match_data: &RequestMatchData) -> (accepts: bool)
        ensures
            accepts == self.spec_matches(
                spec_text(request_match_data.host_option),
                spec_text(request_match_data.resolved_path_option),
            ),
    {
        let matches = match &self.host_regex {
            None => true,
            Some(host_regex) => match request_match_data.host_option {
                None => false,
                Some(host) => regex_is_match(host_regex, host),
            },
        };
        if !matches {
            return false;
        }
        match &self.path_regex {
            None => true,
            Some(path_regex) => match request_match_data.resolved_path_option {
                None => false,
                Some(resolved_path) => regex_is_match(path_regex, resolved_path),
            },
        }
    }
}

/// The time left at `now` until a file last modified at `modified` has been
/// unchanged for `duration`: `modified + duration - now`, and zero where that
/// is negative or where `modified + duration` is past the last wall-clock
/// reading that can be written down.
pub open spec fn spec_time_left(modified: WallTime, duration: TimeSpan, now: WallTime) -> int {
    if modified.nanos + duration.nanos > i128::MAX {
        0
    } else {
        spec_max(0, modified.nanos + duration.nanos - now.nanos)
    }
}

/// The time left at `now` until a file last modified at `modified` has been
/// unchanged for `duration`; zero if that moment has passed or cannot be
/// written down.
pub fn time_left(modified: WallTime, duration: TimeSpan, now: WallTime) -> (left: TimeSpan)
    ensures
        left.nanos == spec_time_left(modified, duration, now),
{
    let expiration: i128 = if duration.nanos <= i128::MAX as u128 {
        let delta: i128 = duration.nanos as i128;
        if modified.nanos > i128::MAX - delta {
            return TimeSpan::zero();
        }
        modified.nanos + delta
    } else if modified.nanos >= 0 {
        return TimeSpan::zero();
    } else {
        let magnitude: u128 = ((-(modified.nanos + 1)) as u128) + 1;
        let sum: u128 = duration.nanos - magnitude;
        if sum > i128::MAX as u128 {
            return TimeSpan::zero();
        }
        sum as i128
    };
    if expiration < now.nanos {
        return TimeSpan::zero();
    }
    let left: u128 = if now.nanos >= 0 || expiration < 0 {
        (expiration - now.nanos) as u128
    } else {
        (expiration as u128) + (((-(now.nanos + 1)) as u128) + 1)
    };
    TimeSpan::from_nanos(left)
}

/// A rule that grants a fixed time, whatever the file.
#[derive(Clone, Copy, Debug)]
pub struct FixedTimeCacheHeaderRule {
    pub file_cache_duration: TimeSpan,
}

impl FixedTimeCacheHeaderRule {
    pub fn new(file_cache_duration: TimeSpan) -> (rule: Self)
        ensures
            rule.file_cache_duration == file_cache_duration,
    {
        Self { file_cache_duration }
    }

    /// The rule's duration, whatever the file and the time.
    pub fn build_cache_header(&self, resolved_file: &ResolvedFile) -> (granted: Option<TimeSpan>)
        ensures
            granted == Some(self.file_cache_duration),
    {
        Some(self.file_cache_duration)
    }
}

/// A rule that grants the time left until the file has been unchanged for
/// the rule's duration.
#[derive(Clone, Copy, Debug)]
pub struct ModificationTimePlusDeltaCacheHeaderRule {
    pub file_cache_duration: TimeSpan,
}

impl ModificationTimePlusDeltaCacheHeaderRule {
    pub fn new(file_cache_duration: TimeSpan) -> (rule: Self)
        ensures
            rule.file_cache_duration == file_cache_duration,
    {
        Self { file_cache_duration }
    }

    /// What the rule grants a file at the wall-clock reading `now`.
    pub open spec fn spec_build_cache_header(
        &self,
        modified: Option<WallTime>,
        now: WallTime,
    ) -> Option<TimeSpan> {
        match modified {
            None => Some(TimeSpan { nanos: 0 }),
            Some(modified) => Some(
                TimeSpan {
                    nanos: spec_time_left(modified, self.file_cache_duration, now) as u128,
                },
            ),
        }
    }

    /// Zero for a file whose modification time is not known; else the time
    /// left at `now` until the file has been unchanged for the rule's
    /// duration.
    pub fn build_cache_header(&self, resolved_file: &ResolvedFile, now: WallTime) -> (granted:
        Option<TimeSpan>)
        ensures
            granted == self.spec_build_cache_header(resolved_file.modified, now),
    {
        match resolved_file.modified {
            None => Some(TimeSpan::zero()),
            Some(modified) => Some(time_left(modified, self.file_cache_duration, now)),
        }
    }
}

/// How a rule computes the time it grants.
#[derive(Clone, Copy, Debug)]
pub enum CacheRule {
    FixedTime(FixedTimeCacheHeaderRule),
    ModTimePlusDelta(ModificationTimePlusDeltaCacheHeaderRule),
}

impl CacheRule {
    /// The rule of the given kind and duration.
    pub fn new(rule_type: StaticFileCacheRuleType, duration: TimeSpan) -> (rule: Self)
        ensures
            rule.rule_type() == rule_type,
            rule.duration() == duration,
    {
        match rule_type {
            StaticFileCacheRuleType::FixedTime => CacheRule::FixedTime(
                FixedTimeCacheHeaderRule::new(duration),
            ),
            StaticFileCacheRuleType::ModTimePlusDelta => CacheRule::ModTimePlusDelta(
                ModificationTimePlusDeltaCacheHeaderRule::new(duration),
            ),
        }
    }

    /// The kind of the rule.
    pub open spec fn rule_type(&self) -> StaticFileCacheRuleType {
        match self {
            CacheRule::FixedTime(_) => StaticFileCacheRuleType::FixedTime,
            CacheRule::ModTimePlusDelta(_) => StaticFileCacheRuleType::ModTimePlusDelta,
        }
    }

    /// The duration the rule was configured with.
    pub open spec fn duration(&self) -> TimeSpan {
        match self {
            CacheRule::FixedTime(rule) => rule.file_cache_duration,
            CacheRule::ModTimePlusDelta(rule) => rule.file_cache_duration,
        }
    }

    /// What the rule grants a file at the wall-clock reading `now`.
    pub open spec fn spec_build_cache_header(
        &self,
        modified: Option<WallTime>,
        now: WallTime,
    ) -> Option<TimeSpan> {
        match self {
            CacheRule::FixedTime(rule) => Some(rule.file_cache_duration),
            CacheRule::ModTimePlusDelta(rule) => rule.spec_build_cache_header(modified, now),
        }
    }

    /// What the rule grants `resolved_file` at the wall-clock reading `now`.
    pub fn build_cache_header(&self, resolved_file: &ResolvedFile, now: WallTime) -> (granted:
        Option<TimeSpan>)
        ensures
            granted == self.spec_build_cache_header(resolved_file.modified, now),
    {
        match self {
            CacheRule::FixedTime(rule) => rule.build_cache_header(resolved_file),
            CacheRule::ModTimePlusDelta(rule) => rule.build_cache_header(resolved_file, now),
        }
    }
}

/// One rule of the policy: what it matches and what it grants.
#[derive(Debug)]
pub struct CachePolicyRule {
    pub matcher: RequestMatcher,
    pub rule: CacheRule,
}

impl CachePolicyRule {
    /// The rule was built from the configured rule `config`.
    pub open spec fn built_from(&self, config: &StaticFileCacheRule) -> bool {
        &&& self.matcher.compiled_from(config)
        &&& self.rule.rule_type() == config.rule_type
        &&& self.rule.duration() == config.duration
    }
}

/// Rule `index` is the first of `rules` whose matcher accepts the host and
/// the path.
pub open spec fn is_first_match(
    rules: Seq<CachePolicyRule>,
    host: Option<Seq<char>>,
    path: Option<Seq<char>>,
    index: int,
) -> bool {
    &&& 0 <= index < rules.len()
    &&& rules[index].matcher.spec_matches(host, path)
    &&& forall|earlier: int|
        0 <= earlier < index ==> !(#[trigger] rules[earlier]).matcher.spec_matches(host, path)
}

/// No rule's matcher accepts the host and the path.
pub open spec fn no_rule_matches(
    rules: Seq<CachePolicyRule>,
    host: Option<Seq<char>>,
    path: Option<Seq<char>>,
) -> bool {
    forall|index: int|
        0 <= index < rules.len() ==> !(#[trigger] rules[index]).matcher.spec_matches(host, path)
}

/// `granted` is what the policy grants: nothing where no rule matches, and
/// else what the first matching rule grants.
pub open spec fn is_policy_result(
    rules: Seq<CachePolicyRule>,
    host: Option<Seq<char>>,
    path: Option<Seq<char>>,
    modified: Option<WallTime>,
    now: WallTime,
    granted: Option<TimeSpan>,
) -> bool {
    &&& no_rule_matches(rules, host, path) ==> granted.is_none()
    &&& forall|index: int| #[trigger]
        is_first_match(rules, host, path, index) ==> granted
            == rules[index].rule.spec_build_cache_header(modified, now)
}

/// The cache policy: the rules in the order in which they are tried.
#[derive(Debug)]
pub struct StaticFileRulesService {
    cache_rules: Vec<CachePolicyRule>,
}

impl View for StaticFileRulesService {
    type V = Seq<CachePolicyRule>;

    closed spec fn view(&self) -> Seq<CachePolicyRule> {
        self.cache_rules@
    }
}

impl StaticFileRulesService {
    /// The policy of the given rules, tried in the given order.
    pub fn from_rules(cache_rules: Vec<CachePolicyRule>) -> (service: Self)
        ensures
            service@ == cache_rules@,
    {
        Self { cache_rules }
    }

    /// The policy of the configured rules, in the configured order, exactly
    /// if every pattern of every rule compiles; and else the error of the
    /// first rule with a pattern that does not.
    pub fn new(static_file_configuration: &StaticFileConfiguration) -> (built: Result<
        Self,
        CacheRuleError,
    >)
        ensures
            is_policy_of(static_file_configuration.cache_rules@, built),
    {
        let mut cache_rules: Vec<CachePolicyRule> = Vec::new();
        let mut index: usize = 0;
        while index < static_file_configuration.cache_rules.len()
            invariant
                index <= static_file_configuration.cache_rules.len(),
                cache_rules.len() == index,
                forall|i: int|
                    0 <= i < index ==> (#[trigger] cache_rules[i]).built_from(
                        &static_file_configuration.cache_rules[i],
                    ),
                forall|i: int|
                    0 <= i < index ==> spec_rule_compiles(
                        #[trigger] static_file_configuration.cache_rules@[i],
                    ),
            decreases static_file_configuration.cache_rules.len() - index,
        {
            let cache_rule = &static_file_configuration.cache_rules[index];
            let request_matcher = match RequestMatcher::new(cache_rule) {
                Ok(request_matcher) => request_matcher,
                Err(error) => {
                    proof {
                        let rules = static_file_configuration.cache_rules@;
                        assert(!spec_rule_compiles(rules[index as int]));
                        assert(is_first_failing_rule(rules, index as int));
                    }
                    return Err(error);
                },
            };
            cache_rules.push(
                CachePolicyRule {
                    matcher: request_matcher,
                    rule: CacheRule::new(cache_rule.rule_type, cache_rule.duration),
                },
            );
            index = index + 1;
        }
        Ok(Self { cache_rules })
    }

    /// How long the resolved file may be cached by the client that asked for
    /// it under `host_option`, at the wall-clock reading `now`: nothing where
    /// no rule matches, else what the first matching rule grants.
    pub fn build_cache_header(
        &self,
        host_option: Option<&str>,
        resolved_file: &ResolvedFile,
        now: WallTime,
    ) -> (granted: Option<TimeSpan>)
        ensures
            is_policy_result(
                self@,
                spec_text(host_option),
                spec_owned_text(resolved_file.path),
                resolved_file.modified,
                now,
                granted,
            ),
    {
        let resolved_path_option: Option<&str> = match &resolved_file.path {
            Some(path) => Some(path.as_str()),
            None => None,
        };
        let request_match_data = RequestMatchData { host_option, resolved_path_option };
        let ghost host = spec_text(host_option);
        let ghost path = spec_owned_text(resolved_file.path);
        let mut index: usize = 0;
        while index < self.cache_rules.len()
            invariant
                index <= self.cache_rules.len(),
                host == spec_text(host_option),
                path == spec_owned_text(resolved_file.path),
                host == spec_text(request_match_data.host_option),
                path == spec_text(request_match_data.resolved_path_option),
                forall|earlier: int|
                    0 <= earlier < index ==> !(#[trigger] self@[earlier]).matcher.spec_matches(
                        host,
                        path,
                    ),
            decreases self.cache_rules.len() - index,
        {
            let cache_rule = &self.cache_rules[index];
            if cache_rule.matcher.matches(&request_match_data) {
                let granted = cache_rule.rule.build_cache_header(resolved_file, now);
                proof {
                    assert(is_first_match(self@, host, path, index as int));
                    assert forall|other: int| #[trigger]
                        is_first_match(self@, host, path, other) implies other == index by {
                        if other < index {
                            assert(!self@[other].matcher.spec_matches(host, path));
                        } else if other > index {
                            assert(!self@[index as int].matcher.spec_matches(host, path));
                        }
                    }
                }
                return granted;
            }
            index = index + 1;
        }
        None
    }
}

/// Builds the policy of the configured rules; see
/// [`StaticFileRulesService::new`].
pub fn create_rules_service_instance(static_file_configuration: &StaticFileConfiguration) -> (built:
    Result<StaticFileRulesService, CacheRuleError>)
    ensures
        is_policy_of(static_file_configuration.cache_rules@, built),
{
    StaticFileRulesService::new(static_file_configuration)
}

/// Where some rule matches, there is a first rule that matches.
pub proof fn lemma_first_match_exists(
    rules: Seq<CachePolicyRule>,
    host: Option<Seq<char>>,
    path: Option<Seq<char>>,
    index: int,
)
    requires
        0 <= index < rules.len(),
        rules[index].matcher.spec_matches(host, path),
    ensures
        exists|first: int| 0 <= first <= index && #[trigger] is_first_match(rules, host, path, first),
    decreases index,
{
    if forall|earlier: int|
        0 <= earlier < index ==> !(#[trigger] rules[earlier]).matcher.spec_matches(host, path) {
        assert(is_first_match(rules, host, path, index));
    } else {
        let earlier = choose|earlier: int|
            0 <= earlier < index && (#[trigger] rules[earlier]).matcher.spec_matches(host, path);
        lemma_first_match_exists(rules, host, path, earlier);
    }
}

/// The policy grants one thing and no other: two results for the same
/// request, file and time are the same.
pub proof fn lemma_policy_result_is_unique(
    rules: Seq<CachePolicyRule>,
    host: Option<Seq<char>>,
    path: Option<Seq<char>>,
    modified: Option<WallTime>,
    now: WallTime,
    first: Option<TimeSpan>,
    second: Option<TimeSpan>,
)
    requires
        is_policy_result(rules, host, path, modified, now, first),
        is_policy_result(rules, host, path, modified, now, second),
    ensures
        first == second,
{
    if !no_rule_matches(rules, host, path) {
        let index = choose|index: int|
            0 <= index < rules.len() && (#[trigger] rules[index]).matcher.spec_matches(host, path);
        lemma_first_match_exists(rules, host, path, index);
        let winner = choose|winner: int|
            0 <= winner <= index && #[trigger] is_first_match(rules, host, path, winner);
        assert(first == rules[winner].rule.spec_build_cache_header(modified, now));
        assert(second == rules[winner].rule.spec_build_cache_header(modified, now));
    }
}

/// Where no rule matches, the policy grants nothing.
pub proof fn lemma_no_match_grants_nothing(
    rules: Seq<CachePolicyRule>,
    host: Option<Seq<char>>,
    path: Option<Seq<char>>,
    modified: Option<WallTime>,
    now: WallTime,
    granted: Option<TimeSpan>,
)
    requires
        is_policy_result(rules, host, path, modified, now, granted),
        no_rule_matches(rules, host, path),
    ensures
        granted.is_none(),
{
}

/// Where the first matching rule grants a fixed time, the policy grants
/// that rule's duration, whenever the file was modified and whatever the
/// time is.
pub proof fn lemma_fixed_rule_grants_its_duration(
    rules: Seq<CachePolicyRule>,
    host: Option<Seq<char>>,
    path: Option<Seq<char>>,
    modified: Option<WallTime>,
    now: WallTime,
    granted: Option<TimeSpan>,
    index: int,
)
    requires
        is_policy_result(rules, host, path, modified, now, granted),
        is_first_match(rules, host, path, index),
        rules[index].rule is FixedTime,
    ensures
        granted == Some(rules[index].rule.duration()),
{
}

/// The time left is never negative, and it is zero from the moment on at
/// which the file has been unchanged for the duration.
pub proof fn lemma_time_left_runs_out(modified: WallTime, duration: TimeSpan, now: WallTime)
    ensures
        spec_time_left(modified, duration, now) >= 0,
        now.nanos >= modified.nanos + duration.nanos ==> spec_time_left(modified, duration, now)
            == 0,
{
}

/// For a file that was not modified after `now`, the time left is at most
/// the duration. (A file with a modification time in the future has more
/// time left than the duration.)
pub proof fn lemma_time_left_is_at_most_duration(
    modified: WallTime,
    duration: TimeSpan,
    now: WallTime,
)
    requires
        modified.nanos <= now.nanos,
    ensures
        0 <= spec_time_left(modified, duration, now) <= duration.nanos,
{
}

} // verus!
