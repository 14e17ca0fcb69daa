//! The usage service: what is sent to it, and what its answers mean.
use vstd::prelude::*;
use vstd::utf8::encode_utf8;

use crate::clock::{instant, Timestamp};
use crate::models::{Percent, SectionView, UsageData, UsageSection};
use crate::poller::PollError;
use crate::text::{copy, texts};
use crate::url::{decoded, encoded, law_decoded_encoded, law_encoding_is_safe, url_encode};

verus! {

/// Where the usage is asked for.
pub const CODEX_USAGE_URL: &'static str = "https://chatgpt.com/backend-api/wham/usage";

/// Where a new access token is asked for.
pub const CODEX_TOKEN_URL: &'static str = "https://auth.openai.com/oauth/token";

/// The client that the refresh tokens belong to.
pub const CODEX_CLIENT_ID: &'static str = "app_EMoamEEZ73f0CkXaXp7hrann";

/// The user agent that the usage service is given.
pub const USER_AGENT: &'static str = "Mozilla/5.0 (X11; Linux x86_64; rv:128.0) Gecko/20100101 Firefox/128.0";

// ---------------------------------------------------------------------------
// Credentials
// ---------------------------------------------------------------------------

/// The contents of the credentials file.
#[derive(Debug)]
pub struct CodexAuth {
    pub tokens: Option<CodexTokens>,
}

/// The tokens in the credentials file.
#[derive(Debug)]
pub struct CodexTokens {
    pub access_token: Option<String>,
    pub refresh_token: Option<String>,
    pub account_id: Option<String>,
}

/// Picks the directory that holds the credentials of the Windows user: the
/// user profile if it is known, else the home directory.
pub fn profile_directory(user_profile: Option<String>, home: Option<String>) -> (r: Option<String>)
    ensures
        r == (if user_profile is Some {
            user_profile
        } else {
            home
        }),
{
    match user_profile {
        Some(directory) => Some(directory),
        None => home,
    }
}

/// The usable tokens of a credentials file: those with an access token.
pub open spec fn usable_tokens(auth: Option<CodexAuth>) -> Option<CodexTokens> {
    match auth {
        Some(CodexAuth { tokens: Some(tokens) }) if tokens.access_token is Some => Some(tokens),
        _ => None,
    }
}

/// Picks the usable tokens of a credentials file; `None` stands for a file
/// that could not be parsed.
pub fn parse_codex_tokens(auth: Option<CodexAuth>) -> (r: Option<CodexTokens>)
    ensures
        r == usable_tokens(auth),
{
    match auth {
        Some(auth) => match auth.tokens {
            Some(tokens) => if tokens.access_token.is_some() {
                Some(tokens)
            } else {
                None
            },
            None => None,
        },
        None => None,
    }
}

// ---------------------------------------------------------------------------
// Requests
// ---------------------------------------------------------------------------

/// A request to be sent: a `POST` if it has a body, else a `GET`.
#[derive(Debug)]
pub struct HttpRequest {
    pub url: String,
    pub headers: Vec<(String, String)>,
    pub body: Option<String>,
}

/// The texts of a request.
pub struct HttpRequestView {
    pub url: Seq<char>,
    pub headers: Seq<(Seq<char>, Seq<char>)>,
    pub body: Option<Seq<char>>,
}

/// The text, if there is one.
pub open spec fn text_of(s: Option<String>) -> Option<Seq<char>> {
    match s {
        Some(s) => Some(s@),
        None => None,
    }
}

impl View for HttpRequest {
    type V = HttpRequestView;

    open spec fn view(&self) -> HttpRequestView {
        HttpRequestView {
            url: self.url@,
            headers: self.headers@.map_values(|h: (String, String)| (h.0@, h.1@)),
            body: text_of(self.body),
        }
    }
}

/// The request for the usage: with the access token, and with the account if
/// one is named.
pub open spec fn usage_request_for(access_token: Seq<char>, account_id: Option<Seq<char>>) ->
    HttpRequestView {
    let common = seq![
        ("Authorization"@, "Bearer "@ + access_token),
        ("Accept"@, "application/json"@),
        ("User-Agent"@, USER_AGENT@),
    ];
    HttpRequestView {
        url: CODEX_USAGE_URL@,
        headers: match account_id {
            Some(id) if id.len() > 0 => common.push(("chatgpt-account-id"@, id)),
            _ => common,
        },
        body: None,
    }
}

/// Writes the request for the usage.
pub fn usage_request(access_token: &str, account_id: &Option<String>) -> (r: HttpRequest)
    ensures
        r@ == usage_request_for(access_token@, text_of(*account_id)),
{
    let mut headers: Vec<(String, String)> = Vec::new();
    headers.push((copy("Authorization"), copy("Bearer ").concat(access_token)));
    headers.push((copy("Accept"), copy("application/json")));
    headers.push((copy("User-Agent"), copy(USER_AGENT)));
    if let Some(id) = account_id {
        if !id.as_str().is_empty() {
            headers.push((copy("chatgpt-account-id"), copy(id.as_str())));
        }
    }
    let r = HttpRequest { url: copy(CODEX_USAGE_URL), headers, body: None };
    assert(r@.headers =~= usage_request_for(access_token@, text_of(*account_id)).headers);
    r
}

/// The request for the usage goes to the usage service and hands it the access token,
/// whole and unchanged: it has one header for the authorization, and behind the word
/// that names the kind of the token that header holds every character of the token.
/// An account that is named is handed over in the same way, and none is if none is
/// named. An answer in JSON is asked for.
pub proof fn law_usage_request_carries_the_token(
    access_token: Seq<char>,
    account_id: Option<Seq<char>>,
    i: int,
)
    ensures
        ({
            let r = usage_request_for(access_token, account_id);
            let named = account_id is Some && account_id->0.len() > 0;
            let value = r.headers[0].1;
            &&& r.url == "https://chatgpt.com/backend-api/wham/usage"@
            &&& r.body is None
            &&& r.headers.len() > 0
            &&& r.headers[0].0 == "Authorization"@
            &&& 0 < i < r.headers.len() ==> r.headers[i].0 != "Authorization"@
            &&& value.len() == 7 + access_token.len()
            &&& value.take(7) == "Bearer "@
            &&& 0 <= i < access_token.len() ==> value[7 + i] == access_token[i]
            &&& named ==> r.headers.contains(("chatgpt-account-id"@, account_id->0))
            &&& 0 <= i < r.headers.len() && r.headers[i].0 == "chatgpt-account-id"@ ==> named
                && r.headers[i].1 == account_id->0
            &&& r.headers.contains(("Accept"@, "application/json"@))
            &&& r.headers.contains(
                (
                    "User-Agent"@,
                    "Mozilla/5.0 (X11; Linux x86_64; rv:128.0) Gecko/20100101 Firefox/128.0"@,
                ),
            )
        }),
{
    reveal_strlit("Authorization");
    reveal_strlit("Bearer ");
    reveal_strlit("Accept");
    reveal_strlit("User-Agent");
    reveal_strlit("chatgpt-account-id");
    let r = usage_request_for(access_token, account_id);
    assert(r.headers[0].1.take(7) =~= "Bearer "@);
    assert("Authorization"@.len() == 13);
    assert("Accept"@.len() == 6);
    assert("User-Agent"@.len() == 10);
    assert("chatgpt-account-id"@.len() == 18);
    assert(r.headers[1] == ("Accept"@, "application/json"@));
    assert(r.headers[2] == ("User-Agent"@, USER_AGENT@));
    if r.headers.len() > 3 {
        assert(r.headers[3] == ("chatgpt-account-id"@, account_id->0));
    }
}

/// Different tokens and different accounts make different requests.
pub proof fn law_usage_requests_differ(
    a: Seq<char>,
    b: Seq<char>,
    account_a: Seq<char>,
    account_b: Seq<char>,
)
    requires
        usage_request_for(a, Some(account_a)) == usage_request_for(b, Some(account_b)),
    ensures
        a == b,
        account_a == account_b,
{
    let r = usage_request_for(a, Some(account_a));
    let s = usage_request_for(b, Some(account_b));
    assert(r.headers[0].1 == "Bearer "@ + a);
    assert(s.headers[0].1 == "Bearer "@ + b);
    let n = "Bearer "@.len() as int;
    assert(("Bearer "@ + a).skip(n) =~= a);
    assert(("Bearer "@ + b).skip(n) =~= b);
    if account_a.len() > 0 {
        assert(r.headers[3].1 == account_a);
    }
    if account_b.len() > 0 {
        assert(s.headers[3].1 == account_b);
    }
    assert(account_a =~= account_b);
}

/// The form that asks for a new access token.
pub open spec fn refresh_form(refresh_token: Seq<char>) -> Seq<char> {
    "grant_type=refresh_token&refresh_token="@ + encoded(encode_utf8(refresh_token))
        + "&client_id="@ + encoded(encode_utf8(CODEX_CLIENT_ID@))
}

/// The request for a new access token.
pub open spec fn refresh_request_for(refresh_token: Seq<char>) -> HttpRequestView {
    HttpRequestView {
        url: CODEX_TOKEN_URL@,
        headers: seq![("Content-Type"@, "application/x-www-form-urlencoded"@)],
        body: Some(refresh_form(refresh_token)),
    }
}

/// The request for a new access token goes to the token service with a form of three
/// fields: what is asked for, the refresh token, and the client. What stands behind
/// the names of the last two can be decoded to the refresh token and to the client,
/// and no character in it can be taken for the end of a field.
pub proof fn law_refresh_request_carries_the_token(refresh_token: Seq<char>)
    ensures
        ({
            let r = refresh_request_for(refresh_token);
            &&& r.url == "https://auth.openai.com/oauth/token"@
            &&& r.headers.len() == 1
            &&& r.headers[0] == ("Content-Type"@, "application/x-www-form-urlencoded"@)
            &&& r.body is Some
            &&& exists|token: Seq<char>, client: Seq<char>|
                {
                    &&& #[trigger] decoded(token) == encode_utf8(refresh_token)
                    &&& #[trigger] decoded(client) == encode_utf8("app_EMoamEEZ73f0CkXaXp7hrann"@)
                    &&& r.body->0 == "grant_type=refresh_token&refresh_token="@ + token
                        + "&client_id="@ + client
                    &&& !token.contains('&') && !token.contains('=')
                    &&& !client.contains('&') && !client.contains('=')
                }
        }),
{
    let token = encoded(encode_utf8(refresh_token));
    let client = encoded(encode_utf8(CODEX_CLIENT_ID@));
    law_decoded_encoded(encode_utf8(refresh_token));
    law_decoded_encoded(encode_utf8(CODEX_CLIENT_ID@));
    assert forall|i: int| 0 <= i < token.len() implies #[trigger] token[i] != '&' && token[i]
        != '=' by {
        law_encoding_is_safe(encode_utf8(refresh_token), i);
    }
    assert forall|i: int| 0 <= i < client.len() implies #[trigger] client[i] != '&' && client[i]
        != '=' by {
        law_encoding_is_safe(encode_utf8(CODEX_CLIENT_ID@), i);
    }
    assert(decoded(token) == encode_utf8(refresh_token));
    assert(decoded(client) == encode_utf8(CODEX_CLIENT_ID@));
}

/// Writes the request for a new access token.
pub fn refresh_request(refresh_token: &str) -> (r: HttpRequest)
    ensures
        r@ == refresh_request_for(refresh_token@),
{
    let mut body = copy("grant_type=refresh_token&refresh_token=");
    body.append(url_encode(refresh_token).as_str());
    body.append("&client_id=");
    body.append(url_encode(CODEX_CLIENT_ID).as_str());
    let mut headers: Vec<(String, String)> = Vec::new();
    headers.push((copy("Content-Type"), copy("application/x-www-form-urlencoded")));
    let r = HttpRequest { url: copy(CODEX_TOKEN_URL), headers, body: Some(body) };
    assert(r@.headers =~= refresh_request_for(refresh_token@).headers);
    r
}

// ---------------------------------------------------------------------------
// Answers
// ---------------------------------------------------------------------------

/// What the usage service answers.
#[derive(Debug)]
pub struct CodexUsageResponse {
    pub rate_limit: Option<CodexRateLimit>,
}

/// The rate limits in an answer.
#[derive(Debug)]
pub struct CodexRateLimit {
    pub primary_window: Option<CodexUsageBucket>,
    pub secondary_window: Option<CodexUsageBucket>,
}

/// One rate-limit window in an answer.
#[derive(Clone, Copy, Debug)]
pub struct CodexUsageBucket {
    pub used_percent: Percent,
    pub reset_at: Option<i64>,
    pub limit_window_seconds: Option<u64>,
}

/// What the token service answers.
#[derive(Debug)]
pub struct CodexRefreshResponse {
    pub access_token: String,
}

/// The point in time of a Unix time in seconds, unless it is negative.
pub open spec fn unix_time(unix_secs: Option<i64>) -> Option<int> {
    match unix_secs {
        Some(secs) if secs >= 0 => Some(secs * 1_000_000_000),
        _ => None,
    }
}

/// The point in time of a Unix time in seconds, unless it is negative.
pub fn unix_to_system_time(unix_secs: Option<i64>) -> (r: Option<Timestamp>)
    ensures
        instant(r) == unix_time(unix_secs),
{
    match unix_secs {
        None => None,
        Some(secs) => if secs < 0 {
            None
        } else {
            Some(Timestamp::from_unix_secs(secs))
        },
    }
}

/// A Unix time is that many whole seconds after the epoch, so two of them lie as far
/// apart as their numbers; a negative one, and a missing one, is no point in time.
pub proof fn law_unix_times_are_exact(a: i64, b: i64)
    ensures
        unix_time(Some(a)) is Some <==> a >= 0,
        unix_time(None) is None,
        unix_time(Some(a)) matches Some(t) ==> t / 1_000_000_000 == a && t % 1_000_000_000 == 0,
        a >= 0 && b >= 0 ==> unix_time(Some(b))->0 - unix_time(Some(a))->0 == (b - a)
            * 1_000_000_000,
{
}

/// What a rate-limit window in an answer says.
pub open spec fn section_for(bucket: CodexUsageBucket) -> SectionView {
    SectionView {
        percentage: bucket.used_percent@,
        resets_at: unix_time(bucket.reset_at),
        limit_window_seconds: bucket.limit_window_seconds,
    }
}

/// What an optional rate-limit window contributes.
pub open spec fn sections_for(bucket: Option<CodexUsageBucket>) -> Seq<SectionView> {
    match bucket {
        Some(bucket) => seq![section_for(bucket)],
        None => Seq::empty(),
    }
}

/// The windows in an answer: those that are there, the primary one first. An
/// answer without rate limits is a failure.
pub open spec fn usage_of_response(response: CodexUsageResponse) -> Result<
    Seq<SectionView>,
    PollError,
> {
    match response.rate_limit {
        Some(limit) => Ok(
            sections_for(limit.primary_window) + sections_for(limit.secondary_window),
        ),
        None => Err(PollError::RequestFailed),
    }
}

/// What a result says about the usage.
pub open spec fn usage_view(r: Result<UsageData, PollError>) -> Result<
    Seq<SectionView>,
    PollError,
> {
    match r {
        Ok(data) => Ok(data@),
        Err(e) => Err(e),
    }
}

fn push_section(windows: &mut Vec<UsageSection>, bucket: Option<CodexUsageBucket>)
    ensures
        final(windows)@.map_values(|w: UsageSection| w@) == old(windows)@.map_values(
            |w: UsageSection| w@,
        ) + sections_for(bucket),
{
    if let Some(bucket) = bucket {
        windows.push(
            UsageSection {
                percentage: bucket.used_percent,
                resets_at: unix_to_system_time(bucket.reset_at),
                limit_window_seconds: bucket.limit_window_seconds,
            },
        );
    }
    assert(windows@.map_values(|w: UsageSection| w@) =~= old(windows)@.map_values(
        |w: UsageSection| w@,
    ) + sections_for(bucket));
}

/// Collects the windows in an answer.
pub fn codex_usage_response_to_data(response: CodexUsageResponse) -> (r: Result<
    UsageData,
    PollError,
>)
    ensures
        usage_view(r) == usage_of_response(response),
{
    match response.rate_limit {
        None => Err(PollError::RequestFailed),
        Some(limit) => {
            let mut data = UsageData::default();
            push_section(&mut data.windows, limit.primary_window);
            push_section(&mut data.windows, limit.secondary_window);
            assert(data@ =~= sections_for(limit.primary_window) + sections_for(
                limit.secondary_window,
            ));
            Ok(data)
        },
    }
}

/// At most two windows come out of an answer, and the primary one comes first.
pub proof fn law_windows_in_order(response: CodexUsageResponse)
    requires
        usage_of_response(response) is Ok,
    ensures
        usage_of_response(response)->Ok_0.len() <= 2,
        response.rate_limit->0.primary_window matches Some(b) ==> usage_of_response(
            response,
        )->Ok_0.len() > 0 && usage_of_response(response)->Ok_0[0] == section_for(b),
        response.rate_limit->0.secondary_window matches Some(b) ==> usage_of_response(
            response,
        )->Ok_0.len() > 0 && usage_of_response(response)->Ok_0.last() == section_for(b),
{
}

/// Each window in an answer is reported once, the primary one first, with what the
/// answer says of it: the percentage, the length, and the reset at the Unix time that
/// it names. An answer without rate limits is a failure.
pub proof fn law_windows_are_reported(response: CodexUsageResponse)
    ensures
        response.rate_limit is None ==> usage_of_response(response) == Err::<
            Seq<SectionView>,
            PollError,
        >(PollError::RequestFailed),
        response.rate_limit matches Some(limit) ==> {
            let says = |s: SectionView, b: CodexUsageBucket|
                {
                    &&& s.percentage == b.used_percent@
                    &&& s.limit_window_seconds == b.limit_window_seconds
                    &&& s.resets_at is Some <==> b.reset_at is Some && b.reset_at->0 >= 0
                    &&& s.resets_at is Some ==> s.resets_at->0 / 1_000_000_000 == b.reset_at->0
                        && s.resets_at->0 % 1_000_000_000 == 0
                };
            let windows = usage_of_response(response)->Ok_0;
            &&& usage_of_response(response) is Ok
            &&& match (limit.primary_window, limit.secondary_window) {
                (None, None) => windows.len() == 0,
                (Some(b), None) => windows.len() == 1 && says(windows[0], b),
                (None, Some(b)) => windows.len() == 1 && says(windows[0], b),
                (Some(a), Some(b)) => windows.len() == 2 && says(windows[0], a) && says(
                    windows[1],
                    b,
                ),
            }
        },
{
}

/// How an attempt to send a request ended, with what was parsed of the body.
#[derive(Debug)]
pub enum Reply<T> {
    /// No connection could be prepared, or nothing came back.
    Failed,
    /// The service refused with this status code.
    Refused(u16),
    /// The service answered; `None` stands for a body that could not be
    /// parsed.
    Answered(Option<T>),
}

/// Whether a status code says that the credentials were not accepted.
pub open spec fn is_auth_status(code: u16) -> bool {
    code == 401 || code == 403
}

/// What the answer to a request for the usage means.
pub open spec fn usage_of_reply(reply: Reply<CodexUsageResponse>) -> Result<
    Seq<SectionView>,
    PollError,
> {
    match reply {
        Reply::Answered(Some(response)) => usage_of_response(response),
        Reply::Refused(code) if is_auth_status(code) => Err(PollError::AuthRequired),
        _ => Err(PollError::RequestFailed),
    }
}

/// Reads the answer to a request for the usage.
pub fn usage_result(reply: Reply<CodexUsageResponse>) -> (r: Result<UsageData, PollError>)
    ensures
        usage_view(r) == usage_of_reply(reply),
{
    match reply {
        Reply::Answered(parsed) => match parsed {
            Some(response) => codex_usage_response_to_data(response),
            None => Err(PollError::RequestFailed),
        },
        Reply::Refused(code) => if code == 401 || code == 403 {
            Err(PollError::AuthRequired)
        } else {
            Err(PollError::RequestFailed)
        },
        Reply::Failed => Err(PollError::RequestFailed),
    }
}

/// What the answer to a request for a new access token means.
pub open spec fn token_of_reply(reply: Reply<CodexRefreshResponse>) -> Result<String, PollError> {
    match reply {
        Reply::Answered(Some(response)) => Ok(response.access_token),
        Reply::Refused(code) if is_auth_status(code) => Err(PollError::TokenExpired),
        _ => Err(PollError::RequestFailed),
    }
}

/// Reads the answer to a request for a new access token.
pub fn refresh_result(reply: Reply<CodexRefreshResponse>) -> (r: Result<String, PollError>)
    ensures
        r == token_of_reply(reply),
{
    match reply {
        Reply::Answered(parsed) => match parsed {
            Some(response) => Ok(response.access_token),
            None => Err(PollError::RequestFailed),
        },
        Reply::Refused(code) => if code == 401 || code == 403 {
            Err(PollError::TokenExpired)
        } else {
            Err(PollError::RequestFailed)
        },
        Reply::Failed => Err(PollError::RequestFailed),
    }
}

/// The two services are read alike. A refusal with the status 401 or 403 says that the
/// credentials were not accepted, by the usage service that they are required and by
/// the token service that they have expired; any other refusal, an answer that cannot
/// be read and no answer at all are failures. What is answered is handed on as it is.
pub proof fn law_replies_are_told_apart(code: u16, response: CodexUsageResponse, token: String)
    ensures
        ({
            let refused = code == 401 || code == 403;
            let usage = usage_of_reply(Reply::Refused(code));
            let renewal = token_of_reply(Reply::Refused(code));
            &&& usage == Err::<Seq<SectionView>, PollError>(PollError::AuthRequired) <==> refused
            &&& usage == Err::<Seq<SectionView>, PollError>(PollError::RequestFailed) <==> !refused
            &&& renewal == Err::<String, PollError>(PollError::TokenExpired) <==> refused
            &&& renewal == Err::<String, PollError>(PollError::RequestFailed) <==> !refused
        }),
        usage_of_reply(Reply::Failed) == Err::<Seq<SectionView>, PollError>(
            PollError::RequestFailed,
        ),
        usage_of_reply(Reply::Answered(None)) == Err::<Seq<SectionView>, PollError>(
            PollError::RequestFailed,
        ),
        token_of_reply(Reply::Failed) == Err::<String, PollError>(PollError::RequestFailed),
        token_of_reply(Reply::Answered(None)) == Err::<String, PollError>(
            PollError::RequestFailed,
        ),
        usage_of_reply(Reply::Answered(Some(response))) == usage_of_response(response),
        token_of_reply(Reply::Answered(Some(CodexRefreshResponse { access_token: token }))) == Ok::<
            String,
            PollError,
        >(token),
{
}

/// Tokens are usable if and only if there is an access token among them, and they are
/// handed on as they are.
pub proof fn law_tokens_need_an_access_token(tokens: CodexTokens)
    ensures
        tokens.access_token is Some ==> usable_tokens(Some(CodexAuth { tokens: Some(tokens) }))
            == Some(tokens),
        tokens.access_token is None ==> usable_tokens(
            Some(CodexAuth { tokens: Some(tokens) }),
        ) is None,
        usable_tokens(Some(CodexAuth { tokens: None })) is None,
        usable_tokens(None) is None,
{
}

/// Requests, and the texts and results that they are made of, are seen as they are.
pub proof fn law_requests_are_seen(
    request: HttpRequest,
    text: String,
    data: UsageData,
    error: PollError,
    i: int,
)
    ensures
        request@.url == request.url@,
        request@.headers.len() == request.headers@.len(),
        0 <= i < request.headers@.len() ==> request@.headers[i].0 == request.headers@[i].0@
            && request@.headers[i].1 == request.headers@[i].1@,
        request.body is None <==> request@.body is None,
        request.body is Some ==> request@.body->0 == request.body->0@,
        text_of(Some(text)) == Some(text@),
        text_of(None) is None,
        usage_view(Ok(data)) == Ok::<Seq<SectionView>, PollError>(data@),
        usage_view(Err(error)) == Err::<Seq<SectionView>, PollError>(error),
{
}

} // verus!
