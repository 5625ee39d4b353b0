//! The static-file handler's decisions. Resolving a request against the root
//! directory and reading the file are the caller's; given what resolving
//! gave, the handler decides between serving the file, with the cache header
//! that the policy grants, and serving the client-error page under a 400,
//! 403 or 404.

use vstd::prelude::*;
use crate::config::{StaticFileConfiguration, StaticFilePrecompressedConfiguration};
use crate::response::{
    build_status_code_response, CacheControl, TextResponse, STATUS_BAD_REQUEST, STATUS_FORBIDDEN,
    STATUS_INTERNAL_SERVER_ERROR, STATUS_NOT_FOUND,
};
use crate::static_file::{
    is_first_match, is_policy_result, no_rule_matches, spec_owned_text, spec_text, spec_time_left,
    CachePolicyRule, ResolvedFile, StaticFileRulesService,
};
use crate::time::{TimeSpan, WallTime, NANOS_PER_SEC};

verus! {

/// What resolving a request against the root directory gave.
#[derive(Clone, Debug)]
pub enum ResolveResult {
    /// The request was neither a `GET` nor a `HEAD`.
    MethodNotMatched,
    /// There is no such file.
    NotFound,
    /// The file may not be read.
    PermissionDenied,
    /// The path names a directory; the client is to be redirected.
    IsDirectory { redirect_to: String },
    /// The file was found.
    Found(ResolvedFile),
}

/// What the handler does with a request once it is resolved.
#[derive(Clone, Copy, Debug, PartialEq, Eq, Structural)]
pub enum StaticFileAction {
    /// Serve the client-error page under the given status.
    ClientErrorPage { status_code: u16 },
    /// Build the response from what was resolved, with `max-age` set to the
    /// given number of seconds, or without a cache header if there is none.
    Serve { cache_headers: Option<u32> },
}

/// The request for the client-error page that stands in for a request that
/// is not served.
#[derive(Clone, Debug)]
pub struct ClientErrorPageRequest {
    /// The path of the page; the request is a `GET`.
    pub path: String,
    /// The `Accept-Encoding` of the client's request, so that a precompressed
    /// page can be served.
    pub accept_encoding: Option<String>,
    /// The status to answer with, in place of the page's own.
    pub status_code: u16,
    /// The `max-age` of the answer in seconds, if it may be cached.
    pub cache_headers: Option<u32>,
}

/// A dot stands at position `i` of `path`, at the start of the path or
/// right after a slash.
pub open spec fn dot_starts_segment(path: Seq<char>, i: int) -> bool {
    0 <= i < path.len() && path[i] == '.' && (i == 0 || path[i - 1] == '/')
}

/// The path starts with a dot or holds a slash followed by a dot.
pub open spec fn spec_is_dot_path(path: Seq<char>) -> bool {
    exists|i: int| dot_starts_segment(path, i)
}

/// Whether the path starts with a dot or holds a slash followed by a dot.
pub fn is_dot_path(path: &str) -> (blocked: bool)
    ensures
        blocked == spec_is_dot_path(path@),
{
    let mut after_slash: bool = true;
    let mut found: bool = false;
    for c in it: path.chars()
        invariant
            it.seq() == path@,
            found == (exists|i: int| i < it.index() && dot_starts_segment(path@, i)),
            after_slash == (it.index() == 0 || path@[it.index() - 1] == '/'),
    {
        if c == '.' && after_slash {
            found = true;
            assert(dot_starts_segment(path@, it.index() as int));
        }
        after_slash = c == '/';
    }
    found
}

/// The number of whole seconds of a span that fits a `max-age`: the span
/// rounded down to seconds, and zero where that is more than `u32::MAX`.
pub open spec fn spec_duration_to_u32_seconds(duration: TimeSpan) -> u32 {
    if duration.nanos / NANOS_PER_SEC <= u32::MAX {
        (duration.nanos / NANOS_PER_SEC) as u32
    } else {
        0
    }
}

/// The span in whole seconds, rounded down; zero where the seconds do not
/// fit.
pub fn duration_to_u32_seconds(duration: TimeSpan) -> (seconds: u32)
    ensures
        seconds == spec_duration_to_u32_seconds(duration),
{
    let seconds: u128 = duration.as_secs();
    if seconds <= 0xffff_ffff {
        seconds as u32
    } else {
        0
    }
}

/// The span in whole seconds, where there is one.
pub open spec fn spec_cache_seconds(granted: Option<TimeSpan>) -> Option<u32> {
    match granted {
        Some(duration) => Some(spec_duration_to_u32_seconds(duration)),
        None => None,
    }
}

/// `cache_headers` is the `max-age` of a found file: what the policy grants
/// the file, in whole seconds, and nothing where the policy grants nothing.
pub open spec fn is_cache_header_of(
    rules: Seq<CachePolicyRule>,
    host: Option<Seq<char>>,
    resolved_file: ResolvedFile,
    now: WallTime,
    cache_headers: Option<u32>,
) -> bool {
    exists|granted: Option<TimeSpan>|
        is_policy_result(
            rules,
            host,
            spec_owned_text(resolved_file.path),
            resolved_file.modified,
            now,
            granted,
        ) && cache_headers == #[trigger] spec_cache_seconds(granted)
}

/// The path that decides whether what was resolved is hidden: the file's
/// path where a file was found and its path is text, the target where the
/// client is redirected.
pub open spec fn spec_resolved_path(resolve_result: ResolveResult) -> Option<Seq<char>> {
    match resolve_result {
        ResolveResult::Found(resolved_file) => spec_owned_text(resolved_file.path),
        ResolveResult::IsDirectory { redirect_to } => Some(redirect_to@),
        _ => None,
    }
}

/// What was resolved lies on a path that starts with a dot or holds a slash
/// followed by a dot.
pub open spec fn spec_block_dot_paths(resolve_result: ResolveResult) -> bool {
    match spec_resolved_path(resolve_result) {
        Some(path) => spec_is_dot_path(path),
        None => false,
    }
}

/// The status under which the client-error page is served in place of what
/// was resolved, if it is not to be served itself.
pub open spec fn spec_client_error_status(resolve_result: ResolveResult) -> Option<u16> {
    match resolve_result {
        ResolveResult::MethodNotMatched => Some(STATUS_BAD_REQUEST),
        ResolveResult::NotFound => Some(STATUS_NOT_FOUND),
        ResolveResult::PermissionDenied => Some(STATUS_FORBIDDEN),
        _ => if spec_block_dot_paths(resolve_result) {
            Some(STATUS_FORBIDDEN)
        } else {
            None
        },
    }
}

/// The static-file handler: the client-error page and the cache policy.
pub struct StaticFileHandler {
    root: String,
    precompressed: StaticFilePrecompressedConfiguration,
    client_error_page_path: String,
    client_error_page_cache_duration: Option<TimeSpan>,
    static_file_rules_service: StaticFileRulesService,
}

impl StaticFileHandler {
    /// The directory that files are served from.
    pub closed spec fn spec_root(&self) -> String {
        self.root
    }

    /// Which precompressed variants may be served.
    pub closed spec fn spec_precompressed(&self) -> StaticFilePrecompressedConfiguration {
        self.precompressed
    }

    /// The path of the client-error page.
    pub closed spec fn spec_client_error_page_path(&self) -> String {
        self.client_error_page_path
    }

    /// How long the client-error page may be cached, if at all.
    pub closed spec fn spec_client_error_page_cache_duration(&self) -> Option<TimeSpan> {
        self.client_error_page_cache_duration
    }

    /// The cache policy.
    pub closed spec fn spec_rules(&self) -> StaticFileRulesService {
        self.static_file_rules_service
    }

    /// The handler for the given configuration and cache policy.
    pub fn new(
        static_file_configuration: &StaticFileConfiguration,
        static_file_rules_service: StaticFileRulesService,
    ) -> (handler: Self)
        ensures
            handler.spec_root()@ == static_file_configuration.root@,
            handler.spec_precompressed() == static_file_configuration.precompressed,
            handler.spec_client_error_page_path()@
                == static_file_configuration.client_error_page_path@,
            handler.spec_client_error_page_cache_duration()
                == static_file_configuration.client_error_page_cache_duration,
            handler.spec_rules() == static_file_rules_service,
    {
        Self {
            root: static_file_configuration.root.clone(),
            precompressed: static_file_configuration.precompressed,
            client_error_page_path: static_file_configuration.client_error_page_path.clone(),
            client_error_page_cache_duration: static_file_configuration.client_error_page_cache_duration,
            static_file_rules_service,
        }
    }

    /// The directory that files are served from.
    pub fn root(&self) -> (root: &str)
        ensures
            root@ == self.spec_root()@,
    {
        self.root.as_str()
    }

    /// Which precompressed variants may be served.
    pub fn precompressed(&self) -> (precompressed: StaticFilePrecompressedConfiguration)
        ensures
            precompressed == self.spec_precompressed(),
    {
        self.precompressed
    }

    /// Whether what was resolved lies on a path that starts with a dot or
    /// holds a slash followed by a dot.
    pub fn block_dot_paths(&self, resolve_result: &ResolveResult) -> (blocked: bool)
        ensures
            blocked == spec_block_dot_paths(*resolve_result),
    {
        match resolve_result {
            ResolveResult::Found(resolved_file) => match &resolved_file.path {
                Some(path) => is_dot_path(path.as_str()),
                None => false,
            },
            ResolveResult::IsDirectory { redirect_to } => is_dot_path(redirect_to.as_str()),
            _ => false,
        }
    }

    /// The `max-age` of the response for what was resolved, in seconds: what
    /// the cache policy grants a found file, rounded down to whole seconds,
    /// and nothing for anything else.
    pub fn build_cache_headers(
        &self,
        host_option: Option<&str>,
        resolve_result: &ResolveResult,
        now: WallTime,
    ) -> (cache_headers: Option<u32>)
        ensures
            !(resolve_result is Found) ==> cache_headers.is_none(),
            resolve_result matches ResolveResult::Found(resolved_file) ==> is_cache_header_of(
                self.spec_rules()@,
                spec_text(host_option),
                *resolved_file,
                now,
                cache_headers,
            ),
    {
        match resolve_result {
            ResolveResult::Found(resolved_file) => {
                let granted = self.static_file_rules_service.build_cache_header(
                    host_option,
                    resolved_file,
                    now,
                );
                let cache_headers = match granted {
                    Some(duration) => Some(duration_to_u32_seconds(duration)),
                    None => None,
                };
                assert(cache_headers == spec_cache_seconds(granted));
                cache_headers
            },
            _ => None,
        }
    }

    /// What to do with a request once it is resolved: the client-error page
    /// under 400 for a method that is not served, under 404 for a file that
    /// is not there, under 403 for a file that may not be read or lies on a
    /// dot path; and otherwise what was resolved, with the cache header that
    /// the policy grants.
    pub fn decide(&self, host_option: Option<&str>, resolve_result: &ResolveResult, now: WallTime) -> (action:
        StaticFileAction)
        ensures
            spec_client_error_status(*resolve_result) matches Some(status_code) ==> action
                == (StaticFileAction::ClientErrorPage { status_code }),
            spec_client_error_status(*resolve_result).is_none() ==> action is Serve,
            action matches StaticFileAction::Serve { cache_headers } ==> {
                &&& !(resolve_result is Found) ==> cache_headers.is_none()
                &&& resolve_result matches ResolveResult::Found(resolved_file)
                    ==> is_cache_header_of(
                    self.spec_rules()@,
                    spec_text(host_option),
                    *resolved_file,
                    now,
                    cache_headers,
                )
            },
    {
        match resolve_result {
            ResolveResult::MethodNotMatched => {
                return StaticFileAction::ClientErrorPage { status_code: STATUS_BAD_REQUEST };
            },
            ResolveResult::NotFound => {
                return StaticFileAction::ClientErrorPage { status_code: STATUS_NOT_FOUND };
            },
            ResolveResult::PermissionDenied => {
                return StaticFileAction::ClientErrorPage { status_code: STATUS_FORBIDDEN };
            },
            _ => {},
        }
        if self.block_dot_paths(resolve_result) {
            return StaticFileAction::ClientErrorPage { status_code: STATUS_FORBIDDEN };
        }
        let cache_headers = self.build_cache_headers(host_option, resolve_result, now);
        StaticFileAction::Serve { cache_headers }
    }

    /// The request for the client-error page under `status_code`: a `GET` of
    /// the configured page that carries the `Accept-Encoding` of the client's
    /// request, to be answered under `status_code` and cached for as long as
    /// is configured, in whole seconds.
    pub fn build_client_error_page_request(
        &self,
        client_accept_encoding: Option<&str>,
        status_code: u16,
    ) -> (request: ClientErrorPageRequest)
        ensures
            request.path@ == self.spec_client_error_page_path()@,
            spec_owned_text(request.accept_encoding) == spec_text(client_accept_encoding),
            request.status_code == status_code,
            request.cache_headers == spec_cache_seconds(
                self.spec_client_error_page_cache_duration(),
            ),
    {
        let accept_encoding = match client_accept_encoding {
            Some(accept_encoding) => Some(accept_encoding.to_owned()),
            None => None,
        };
        let cache_headers = match self.client_error_page_cache_duration {
            Some(duration) => Some(duration_to_u32_seconds(duration)),
            None => None,
        };
        ClientErrorPageRequest {
            path: self.client_error_page_path.clone(),
            accept_encoding,
            status_code,
            cache_headers,
        }
    }

    /// The response to a request that could not be resolved or built: a bare
    /// 500 that must not be cached.
    pub fn failure_response(&self) -> (response: TextResponse)
        ensures
            response.status_code == STATUS_INTERNAL_SERVER_ERROR,
            response.cache_control == CacheControl::NoCache,
            response.content_type.is_none(),
            response.body.is_none(),
    {
        build_status_code_response(STATUS_INTERNAL_SERVER_ERROR, CacheControl::NoCache)
    }
}

/// A request for a path that starts with a dot is answered with the
/// client-error page under 403, whether or not there is such a file.
pub proof fn lemma_dot_path_is_forbidden(resolve_result: ResolveResult, path: Seq<char>)
    requires
        resolve_result is Found || resolve_result is IsDirectory,
        spec_resolved_path(resolve_result) == Some(path),
        path.len() > 0,
        path[0] == '.',
    ensures
        spec_client_error_status(resolve_result) == Some(STATUS_FORBIDDEN),
{
    assert(dot_starts_segment(path, 0));
}

/// Where no rule of the policy matches a found file, its response carries
/// no `max-age`.
pub proof fn lemma_unmatched_file_has_no_max_age(
    rules: Seq<CachePolicyRule>,
    host: Option<Seq<char>>,
    resolved_file: ResolvedFile,
    now: WallTime,
    cache_headers: Option<u32>,
)
    requires
        is_cache_header_of(rules, host, resolved_file, now, cache_headers),
        no_rule_matches(rules, host, spec_owned_text(resolved_file.path)),
    ensures
        cache_headers.is_none(),
{
}

/// Where the first rule that matches a found file grants a fixed time, the
/// `max-age` of the response is that rule's duration in whole seconds,
/// whenever the file was modified and whatever the time is.
pub proof fn lemma_fixed_rule_sets_max_age(
    rules: Seq<CachePolicyRule>,
    host: Option<Seq<char>>,
    resolved_file: ResolvedFile,
    now: WallTime,
    cache_headers: Option<u32>,
    index: int,
)
    requires
        is_cache_header_of(rules, host, resolved_file, now, cache_headers),
        is_first_match(rules, host, spec_owned_text(resolved_file.path), index),
        rules[index].rule is FixedTime,
    ensures
        cache_headers == Some(spec_duration_to_u32_seconds(rules[index].rule.duration())),
{
}

/// Where the first rule that matches a found file grants the time left
/// since its modification, the `max-age` of the response is that time in
/// whole seconds: zero for a file whose modification time is not known or
/// lies further back than the rule's duration, and at most the duration for
/// a file that was not modified after `now`.
pub proof fn lemma_mod_time_rule_sets_max_age(
    rules: Seq<CachePolicyRule>,
    host: Option<Seq<char>>,
    resolved_file: ResolvedFile,
    now: WallTime,
    cache_headers: Option<u32>,
    index: int,
)
    requires
        is_cache_header_of(rules, host, resolved_file, now, cache_headers),
        is_first_match(rules, host, spec_owned_text(resolved_file.path), index),
        rules[index].rule is ModTimePlusDelta,
    ensures
        cache_headers is Some,
        resolved_file.modified.is_none() ==> cache_headers == Some(0u32),
        resolved_file.modified matches Some(modified) ==> {
            &&& cache_headers == Some(
                spec_duration_to_u32_seconds(
                    TimeSpan {
                        nanos: spec_time_left(modified, rules[index].rule.duration(), now) as u128,
                    },
                ),
            )
            &&& now.nanos >= modified.nanos + rules[index].rule.duration().nanos
                ==> cache_headers == Some(0u32)
            &&& modified.nanos <= now.nanos ==> spec_time_left(
                modified,
                rules[index].rule.duration(),
                now,
            ) <= rules[index].rule.duration().nanos
        },
{
}

/// The `max-age` of a granted span is the span in whole seconds, as long as
/// the seconds fit 32 bits.
pub proof fn lemma_max_age_is_whole_seconds(duration: TimeSpan)
    requires
        duration.nanos / NANOS_PER_SEC <= u32::MAX,
    ensures
        spec_cache_seconds(Some(duration)) == Some((duration.nanos / NANOS_PER_SEC) as u32),
{
}

} // verus!
