//! The order in which a poll asks for things: credentials first, then the
//! usage with them, and as a last resort the usage from inside a distribution.
//!
//! A poll is a sequence of actions, each answered by an event. The actions are
//! performed elsewhere; this module decides which one comes next.
use vstd::prelude::*;

use crate::codex::{
    refresh_request, refresh_request_for, refresh_result, text_of, token_of_reply, usage_of_reply,
    usage_of_response, usage_request, usage_request_for, usage_result, usage_view, CodexRefreshResponse, CodexTokens,
    CodexUsageResponse, HttpRequest, HttpRequestView, Reply, CODEX_TOKEN_URL, CODEX_USAGE_URL,
};
use crate::models::{SectionView, UsageData};
use crate::poller::PollError;
use crate::wsl::{home_path, home_root, usage_of_wsl, wsl_usage_result, WslUsage};

verus! {

/// Something that a poll wants done.
#[derive(Debug)]
pub enum PollAction {
    /// Read the credentials of the Windows user.
    ReadWindowsTokens,
    /// List the distributions.
    ListDistros,
    /// List what this directory holds: the home directories of a distribution,
    /// as they appear in the file system of the host.
    ListHomes(String),
    /// Read the credentials in the entry with this number among the home
    /// directories of this distribution.
    ReadHomeTokens(String, usize),
    /// Have this distribution print its credentials.
    ReadWslTokens(String),
    /// Ask for the usage.
    FetchUsage(HttpRequest),
    /// Ask for a new access token.
    RefreshToken(HttpRequest),
    /// Ask for the usage from inside this distribution.
    FetchWslUsage(String),
    /// Nothing more: this is what the poll brought.
    Finish(Result<UsageData, PollError>),
}

/// What came of an action.
#[derive(Debug)]
pub enum PollEvent {
    Tokens(Option<CodexTokens>),
    Distros(Vec<String>),
    /// Which entries of a directory are directories, as far as that is known;
    /// `None` stands for a directory that could not be read.
    Homes(Option<Vec<Option<bool>>>),
    Usage(Reply<CodexUsageResponse>),
    Refresh(Reply<CodexRefreshResponse>),
    WslUsage(WslUsage),
}

/// Where a poll stands: which action it waits for.
#[derive(Debug)]
pub enum PollPhase {
    WindowsTokens,
    UncDistros,
    /// Waits for the home directories of `distros[next]`.
    UncHomes { distros: Vec<String>, next: usize },
    /// Waits for the credentials in entry `home` among the home directories of
    /// `distros[next]`.
    UncTokens { distros: Vec<String>, next: usize, homes: Vec<Option<bool>>, home: usize },
    TokenDistros,
    /// Waits for the credentials of `distros[next]`.
    WslTokens { distros: Vec<String>, next: usize },
    /// Waits for the usage; the access token is a new one if `refreshed`.
    Usage { tokens: CodexTokens, refreshed: bool },
    Refresh { tokens: CodexTokens },
    UsageDistros,
    /// Waits for the usage from inside `distros[next]`.
    WslUsage { distros: Vec<String>, next: usize },
    Done,
}

/// An action, with its texts as sequences of characters.
pub enum PollActionView {
    ReadWindowsTokens,
    ListDistros,
    ListHomes(Seq<char>),
    ReadHomeTokens(Seq<char>, usize),
    ReadWslTokens(Seq<char>),
    FetchUsage(HttpRequestView),
    RefreshToken(HttpRequestView),
    FetchWslUsage(Seq<char>),
    Finish(Result<Seq<SectionView>, PollError>),
}

impl View for PollAction {
    type V = PollActionView;

    open spec fn view(&self) -> PollActionView {
        match *self {
            PollAction::ReadWindowsTokens => PollActionView::ReadWindowsTokens,
            PollAction::ListDistros => PollActionView::ListDistros,
            PollAction::ListHomes(path) => PollActionView::ListHomes(path@),
            PollAction::ReadHomeTokens(distro, home) => PollActionView::ReadHomeTokens(
                distro@,
                home,
            ),
            PollAction::ReadWslTokens(distro) => PollActionView::ReadWslTokens(distro@),
            PollAction::FetchUsage(request) => PollActionView::FetchUsage(request@),
            PollAction::RefreshToken(request) => PollActionView::RefreshToken(request@),
            PollAction::FetchWslUsage(distro) => PollActionView::FetchWslUsage(distro@),
            PollAction::Finish(result) => PollActionView::Finish(usage_view(result)),
        }
    }
}

/// Whether `event` is an answer to what `phase` waits for.
pub open spec fn fits(phase: PollPhase, event: PollEvent) -> bool {
    match phase {
        PollPhase::WindowsTokens => event is Tokens,
        PollPhase::UncDistros => event is Distros,
        PollPhase::UncHomes { distros, next } => event is Homes && next < distros.len(),
        PollPhase::UncTokens { distros, next, homes, home } => event is Tokens && next
            < distros.len() && home < homes.len(),
        PollPhase::TokenDistros => event is Distros,
        PollPhase::WslTokens { distros, next } => event is Tokens && next < distros.len(),
        PollPhase::Usage { .. } => event is Usage,
        PollPhase::Refresh { .. } => event is Refresh,
        PollPhase::UsageDistros => event is Distros,
        PollPhase::WslUsage { distros, next } => event is WslUsage && next < distros.len(),
        PollPhase::Done => false,
    }
}

// ---------------------------------------------------------------------------
// What comes next
// ---------------------------------------------------------------------------

/// The last resort: ask the distributions for the usage.
pub open spec fn fall_back() -> (PollPhase, PollActionView) {
    (PollPhase::UsageDistros, PollActionView::ListDistros)
}

/// The end of a poll.
pub open spec fn finish(result: Result<Seq<SectionView>, PollError>) -> (
    PollPhase,
    PollActionView,
) {
    (PollPhase::Done, PollActionView::Finish(result))
}

/// Ask for the usage with these tokens.
pub open spec fn ask_usage(tokens: CodexTokens) -> (PollPhase, PollActionView) {
    match tokens.access_token {
        Some(access_token) => (
            PollPhase::Usage { tokens, refreshed: false },
            PollActionView::FetchUsage(
                usage_request_for(access_token@, text_of(tokens.account_id)),
            ),
        ),
        None => fall_back(),
    }
}

/// The number of the first entry from `from` on that is known to be a
/// directory, or the number of entries.
pub open spec fn next_home(homes: Seq<Option<bool>>, from: nat) -> nat
    decreases homes.len() - from,
{
    if from >= homes.len() {
        homes.len()
    } else if homes[from as int] == Some(true) {
        from
    } else {
        next_home(homes, from + 1)
    }
}

/// List the home directories of the distribution `next` if there is one.
pub open spec fn ask_homes(distros: Vec<String>, next: usize) -> (PollPhase, PollActionView) {
    if next < distros.len() {
        (
            PollPhase::UncHomes { distros, next },
            PollActionView::ListHomes(home_path(distros@[next as int]@)),
        )
    } else {
        (PollPhase::TokenDistros, PollActionView::ListDistros)
    }
}

/// Read the credentials in the next home directory of the distribution `next`,
/// or go on to the distribution after it.
pub open spec fn ask_home_tokens(
    distros: Vec<String>,
    next: usize,
    homes: Vec<Option<bool>>,
    from: nat,
) -> (PollPhase, PollActionView) {
    let home = next_home(homes@, from) as usize;
    if home < homes.len() {
        (
            PollPhase::UncTokens { distros, next, homes, home },
            PollActionView::ReadHomeTokens(distros@[next as int]@, home),
        )
    } else {
        ask_homes(distros, (next + 1) as usize)
    }
}

/// Read the credentials of the distribution `next` if there is one.
pub open spec fn ask_wsl_tokens(distros: Vec<String>, next: usize) -> (PollPhase, PollActionView) {
    if next < distros.len() {
        (
            PollPhase::WslTokens { distros, next },
            PollActionView::ReadWslTokens(distros@[next as int]@),
        )
    } else {
        fall_back()
    }
}

/// Ask the distribution `next` for the usage if there is one.
pub open spec fn ask_wsl_usage(distros: Vec<String>, next: usize) -> (PollPhase, PollActionView) {
    if next < distros.len() {
        (
            PollPhase::WslUsage { distros, next },
            PollActionView::FetchWslUsage(distros@[next as int]@),
        )
    } else {
        finish(Err(PollError::RequestFailed))
    }
}

/// What follows when a phase gets its answer.
pub open spec fn following(phase: PollPhase, event: PollEvent) -> (PollPhase, PollActionView) {
    match (phase, event) {
        (PollPhase::WindowsTokens, PollEvent::Tokens(found)) => match found {
            Some(tokens) => ask_usage(tokens),
            None => (PollPhase::UncDistros, PollActionView::ListDistros),
        },
        (PollPhase::UncDistros, PollEvent::Distros(distros)) => ask_homes(distros, 0),
        (PollPhase::UncHomes { distros, next }, PollEvent::Homes(listed)) => match listed {
            Some(homes) => ask_home_tokens(distros, next, homes, 0),
            None => ask_homes(distros, (next + 1) as usize),
        },
        (PollPhase::UncTokens { distros, next, homes, home }, PollEvent::Tokens(found)) =>
        match found {
            Some(tokens) => ask_usage(tokens),
            None => ask_home_tokens(distros, next, homes, home as nat + 1),
        },
        (PollPhase::TokenDistros, PollEvent::Distros(distros)) => ask_wsl_tokens(distros, 0),
        (PollPhase::WslTokens { distros, next }, PollEvent::Tokens(found)) => match found {
            Some(tokens) => ask_usage(tokens),
            None => ask_wsl_tokens(distros, (next + 1) as usize),
        },
        (PollPhase::Usage { tokens, refreshed }, PollEvent::Usage(reply)) => match usage_of_reply(
            reply,
        ) {
            Ok(sections) => finish(Ok(sections)),
            Err(PollError::AuthRequired) if !refreshed => match tokens.refresh_token {
                Some(refresh_token) => (
                    PollPhase::Refresh { tokens },
                    PollActionView::RefreshToken(refresh_request_for(refresh_token@)),
                ),
                None => fall_back(),
            },
            Err(_) => fall_back(),
        },
        (PollPhase::Refresh { tokens }, PollEvent::Refresh(reply)) => match token_of_reply(reply) {
            Ok(access_token) => (
                PollPhase::Usage { tokens, refreshed: true },
                PollActionView::FetchUsage(
                    usage_request_for(access_token@, text_of(tokens.account_id)),
                ),
            ),
            Err(_) => fall_back(),
        },
        (PollPhase::UsageDistros, PollEvent::Distros(distros)) => if distros.len() == 0 {
            finish(Err(PollError::NoCredentials))
        } else {
            ask_wsl_usage(distros, 0)
        },
        (PollPhase::WslUsage { distros, next }, PollEvent::WslUsage(usage)) => match usage_of_wsl(
            usage,
        ) {
            Ok(sections) => finish(Ok(sections)),
            Err(_) => ask_wsl_usage(distros, (next + 1) as usize),
        },
        _ => finish(Err(PollError::RequestFailed)),
    }
}

fn fall_back_step() -> (r: (PollPhase, PollAction))
    ensures
        (r.0, r.1@) == fall_back(),
{
    (PollPhase::UsageDistros, PollAction::ListDistros)
}

fn ask_usage_step(tokens: CodexTokens) -> (r: (PollPhase, PollAction))
    ensures
        (r.0, r.1@) == ask_usage(tokens),
{
    let request = match &tokens.access_token {
        Some(access_token) => usage_request(access_token.as_str(), &tokens.account_id),
        None => {
            return fall_back_step();
        },
    };
    (PollPhase::Usage { tokens, refreshed: false }, PollAction::FetchUsage(request))
}

fn ask_homes_step(distros: Vec<String>, next: usize) -> (r: (PollPhase, PollAction))
    ensures
        (r.0, r.1@) == ask_homes(distros, next),
{
    if next < distros.len() {
        let path = home_root(distros[next].as_str());
        (PollPhase::UncHomes { distros, next }, PollAction::ListHomes(path))
    } else {
        (PollPhase::TokenDistros, PollAction::ListDistros)
    }
}

fn ask_home_tokens_step(
    distros: Vec<String>,
    next: usize,
    homes: Vec<Option<bool>>,
    from: usize,
) -> (r: (PollPhase, PollAction))
    requires
        next < distros.len(),
        from <= homes.len(),
    ensures
        (r.0, r.1@) == ask_home_tokens(distros, next, homes, from as nat),
{
    let mut home: usize = from;
    while home < homes.len() && !matches!(homes[home], Some(true))
        invariant
            from <= home <= homes.len(),
            next_home(homes@, from as nat) == next_home(homes@, home as nat),
        decreases homes.len() - home,
    {
        home = home + 1;
    }
    if home < homes.len() {
        let distro = distros[next].clone();
        (
            PollPhase::UncTokens { distros, next, homes, home },
            PollAction::ReadHomeTokens(distro, home),
        )
    } else {
        ask_homes_step(distros, next + 1)
    }
}

fn ask_wsl_tokens_step(distros: Vec<String>, next: usize) -> (r: (PollPhase, PollAction))
    ensures
        (r.0, r.1@) == ask_wsl_tokens(distros, next),
{
    if next < distros.len() {
        let distro = distros[next].clone();
        (PollPhase::WslTokens { distros, next }, PollAction::ReadWslTokens(distro))
    } else {
        fall_back_step()
    }
}

fn ask_wsl_usage_step(distros: Vec<String>, next: usize) -> (r: (PollPhase, PollAction))
    ensures
        (r.0, r.1@) == ask_wsl_usage(distros, next),
{
    if next < distros.len() {
        let distro = distros[next].clone();
        (PollPhase::WslUsage { distros, next }, PollAction::FetchWslUsage(distro))
    } else {
        (PollPhase::Done, PollAction::Finish(Err(PollError::RequestFailed)))
    }
}

/// Starts a poll.
pub fn poll_codex() -> (r: (PollPhase, PollAction))
    ensures
        r.0 == PollPhase::WindowsTokens,
        r.1@ == PollActionView::ReadWindowsTokens,
{
    (PollPhase::WindowsTokens, PollAction::ReadWindowsTokens)
}

/// Goes on with a poll when the action that it waits for has been answered.
pub fn poll_step(phase: PollPhase, event: PollEvent) -> (r: (PollPhase, PollAction))
    requires
        fits(phase, event),
    ensures
        (r.0, r.1@) == following(phase, event),
{
    match (phase, event) {
        (PollPhase::WindowsTokens, PollEvent::Tokens(found)) => match found {
            Some(tokens) => ask_usage_step(tokens),
            None => (PollPhase::UncDistros, PollAction::ListDistros),
        },
        (PollPhase::UncDistros, PollEvent::Distros(distros)) => ask_homes_step(distros, 0),
        (PollPhase::UncHomes { distros, next }, PollEvent::Homes(listed)) => match listed {
            Some(homes) => ask_home_tokens_step(distros, next, homes, 0),
            None => ask_homes_step(distros, next + 1),
        },
        (PollPhase::UncTokens { distros, next, homes, home }, PollEvent::Tokens(found)) =>
        match found {
            Some(tokens) => ask_usage_step(tokens),
            None => ask_home_tokens_step(distros, next, homes, home + 1),
        },
        (PollPhase::TokenDistros, PollEvent::Distros(distros)) => ask_wsl_tokens_step(distros, 0),
        (PollPhase::WslTokens { distros, next }, PollEvent::Tokens(found)) => match found {
            Some(tokens) => ask_usage_step(tokens),
            None => ask_wsl_tokens_step(distros, next + 1),
        },
        (PollPhase::Usage { tokens, refreshed }, PollEvent::Usage(reply)) => match usage_result(
            reply,
        ) {
            Ok(data) => (PollPhase::Done, PollAction::Finish(Ok(data))),
            Err(error) => {
                if error != PollError::AuthRequired || refreshed {
                    return fall_back_step();
                }
                let request = match &tokens.refresh_token {
                    Some(refresh_token) => refresh_request(refresh_token.as_str()),
                    None => {
                        return fall_back_step();
                    },
                };
                (PollPhase::Refresh { tokens }, PollAction::RefreshToken(request))
            },
        },
        (PollPhase::Refresh { tokens }, PollEvent::Refresh(reply)) => match refresh_result(reply) {
            Ok(access_token) => {
                let request = usage_request(access_token.as_str(), &tokens.account_id);
                (PollPhase::Usage { tokens, refreshed: true }, PollAction::FetchUsage(request))
            },
            Err(_) => fall_back_step(),
        },
        (PollPhase::UsageDistros, PollEvent::Distros(distros)) => if distros.len() == 0 {
            (PollPhase::Done, PollAction::Finish(Err(PollError::NoCredentials)))
        } else {
            ask_wsl_usage_step(distros, 0)
        },
        (PollPhase::WslUsage { distros, next }, PollEvent::WslUsage(usage)) =>
        match wsl_usage_result(usage) {
            Ok(data) => (PollPhase::Done, PollAction::Finish(Ok(data))),
            Err(_) => ask_wsl_usage_step(distros, next + 1),
        },
        _ => (PollPhase::Done, PollAction::Finish(Err(PollError::RequestFailed))),
    }
}

// ---------------------------------------------------------------------------
// Whole polls
// ---------------------------------------------------------------------------

/// Whether `action` is the one whose answer `phase` waits for.
pub open spec fn awaits(phase: PollPhase, action: PollActionView) -> bool {
    match phase {
        PollPhase::WindowsTokens => action is ReadWindowsTokens,
        PollPhase::UncDistros => action is ListDistros,
        PollPhase::UncHomes { distros, next } => next < distros.len() && action
            == PollActionView::ListHomes(home_path(distros@[next as int]@)),
        PollPhase::UncTokens { distros, next, homes, home } => next < distros.len() && home
            < homes.len() && action == PollActionView::ReadHomeTokens(
            distros@[next as int]@,
            home,
        ),
        PollPhase::TokenDistros => action is ListDistros,
        PollPhase::WslTokens { distros, next } => next < distros.len() && action
            == PollActionView::ReadWslTokens(distros@[next as int]@),
        PollPhase::Usage { .. } => action is FetchUsage,
        PollPhase::Refresh { .. } => action is RefreshToken,
        PollPhase::UsageDistros => action is ListDistros,
        PollPhase::WslUsage { distros, next } => next < distros.len() && action
            == PollActionView::FetchWslUsage(distros@[next as int]@),
        PollPhase::Done => action is Finish,
    }
}

/// Whether `event` is the kind of answer that `action` gets.
pub open spec fn answers(action: PollActionView, event: PollEvent) -> bool {
    match action {
        PollActionView::ReadWindowsTokens => event is Tokens,
        PollActionView::ListDistros => event is Distros,
        PollActionView::ListHomes(_) => event is Homes,
        PollActionView::ReadHomeTokens(..) => event is Tokens,
        PollActionView::ReadWslTokens(_) => event is Tokens,
        PollActionView::FetchUsage(_) => event is Usage,
        PollActionView::RefreshToken(_) => event is Refresh,
        PollActionView::FetchWslUsage(_) => event is WslUsage,
        PollActionView::Finish(_) => false,
    }
}

/// Whoever answers every action with an event of its kind never meets a phase
/// that the event does not fit, and each step asks for what the new phase waits
/// for.
pub proof fn law_answers_fit(phase: PollPhase, action: PollActionView, event: PollEvent)
    requires
        awaits(phase, action),
        answers(action, event),
    ensures
        fits(phase, event),
        awaits(following(phase, event).0, following(phase, event).1),
{
}

/// A phase comes before the phases with lower numbers.
pub open spec fn stage(phase: PollPhase) -> nat {
    match phase {
        PollPhase::WindowsTokens => 10,
        PollPhase::UncDistros => 9,
        PollPhase::UncHomes { .. } => 8,
        PollPhase::UncTokens { .. } => 8,
        PollPhase::TokenDistros => 7,
        PollPhase::WslTokens { .. } => 6,
        PollPhase::Usage { refreshed, .. } => if refreshed {
            3
        } else {
            5
        },
        PollPhase::Refresh { .. } => 4,
        PollPhase::UsageDistros => 2,
        PollPhase::WslUsage { .. } => 1,
        PollPhase::Done => 0,
    }
}

/// How much a phase may still ask of distributions.
pub open spec fn left(phase: PollPhase) -> nat {
    match phase {
        PollPhase::UncHomes { distros, next } => if next < distros.len() {
            (2 * (distros.len() - next) + 1) as nat
        } else {
            0
        },
        PollPhase::UncTokens { distros, next, .. } => if next < distros.len() {
            (2 * (distros.len() - next)) as nat
        } else {
            0
        },
        PollPhase::WslTokens { distros, next } => if next < distros.len() {
            (distros.len() - next) as nat
        } else {
            0
        },
        PollPhase::WslUsage { distros, next } => if next < distros.len() {
            (distros.len() - next) as nat
        } else {
            0
        },
        _ => 0,
    }
}

/// How many home directories of one distribution a phase may still look into.
pub open spec fn homes_left(phase: PollPhase) -> nat {
    match phase {
        PollPhase::UncTokens { homes, home, .. } => if home < homes.len() {
            (homes.len() - home) as nat
        } else {
            0
        },
        _ => 0,
    }
}

/// An entry that is found lies in the list, and not before where the search
/// began.
pub proof fn lemma_next_home(homes: Seq<Option<bool>>, from: nat)
    ensures
        next_home(homes, from) <= homes.len(),
        from <= homes.len() ==> from <= next_home(homes, from),
    decreases homes.len() - from,
{
    if from < homes.len() && homes[from as int] != Some(true) {
        lemma_next_home(homes, from + 1);
    }
}

/// Every step of a poll leads to a later stage, or leaves less to ask in the
/// same one: fewer distributions, or fewer home directories of the same
/// distribution. So every poll ends.
pub proof fn law_polls_end(phase: PollPhase, event: PollEvent)
    requires
        fits(phase, event),
    ensures
        ({
            let next = following(phase, event).0;
            ||| stage(next) < stage(phase)
            ||| stage(next) == stage(phase) && left(next) < left(phase)
            ||| stage(next) == stage(phase) && left(next) == left(phase) && homes_left(next)
                < homes_left(phase)
        }),
{
    match (phase, event) {
        (PollPhase::UncHomes { .. }, PollEvent::Homes(Some(homes))) => {
            lemma_next_home(homes@, 0);
        },
        (PollPhase::UncTokens { homes, home, .. }, _) => {
            lemma_next_home(homes@, home as nat + 1);
        },
        _ => {},
    }
}

/// Everything that the outside can answer in the course of one poll.
pub struct World {
    pub windows_tokens: Option<CodexTokens>,
    /// The distributions that are listed when home directories are looked for.
    pub unc_distros: Vec<String>,
    /// The entries of a directory.
    pub homes: spec_fn(Seq<char>) -> Option<Vec<Option<bool>>>,
    /// The credentials in a home directory of a distribution.
    pub home_tokens: spec_fn(Seq<char>, usize) -> Option<CodexTokens>,
    /// The distributions that are listed when credentials are looked for.
    pub token_distros: Vec<String>,
    pub wsl_tokens: spec_fn(Seq<char>) -> Option<CodexTokens>,
    /// The answer to a request for the usage, before and after a refresh.
    pub usage: spec_fn(bool, HttpRequestView) -> Reply<CodexUsageResponse>,
    pub refresh: spec_fn(HttpRequestView) -> Reply<CodexRefreshResponse>,
    /// The distributions that are listed when the usage is looked for.
    pub usage_distros: Vec<String>,
    pub wsl_usage: spec_fn(Seq<char>) -> WslUsage,
}

/// How the outside answers an action that a phase waits for.
pub open spec fn answer(w: World, phase: PollPhase, action: PollActionView) -> PollEvent {
    match (phase, action) {
        (PollPhase::WindowsTokens, _) => PollEvent::Tokens(w.windows_tokens),
        (PollPhase::UncDistros, _) => PollEvent::Distros(w.unc_distros),
        (PollPhase::UncHomes { .. }, PollActionView::ListHomes(path)) => PollEvent::Homes(
            (w.homes)(path),
        ),
        (
            PollPhase::UncTokens { .. },
            PollActionView::ReadHomeTokens(distro, home),
        ) => PollEvent::Tokens((w.home_tokens)(distro, home)),
        (PollPhase::TokenDistros, _) => PollEvent::Distros(w.token_distros),
        (PollPhase::WslTokens { .. }, PollActionView::ReadWslTokens(distro)) => PollEvent::Tokens(
            (w.wsl_tokens)(distro),
        ),
        (
            PollPhase::Usage { refreshed, .. },
            PollActionView::FetchUsage(request),
        ) => PollEvent::Usage((w.usage)(refreshed, request)),
        (
            PollPhase::Refresh { .. },
            PollActionView::RefreshToken(request),
        ) => PollEvent::Refresh((w.refresh)(request)),
        (PollPhase::WslUsage { .. }, PollActionView::FetchWslUsage(distro)) => PollEvent::WslUsage(
            (w.wsl_usage)(distro),
        ),
        _ => PollEvent::Distros(w.usage_distros),
    }
}

/// What a poll brings when it goes on from `phase` and `action` to its end.
pub open spec fn run(w: World, phase: PollPhase, action: PollActionView) -> Result<
    Seq<SectionView>,
    PollError,
>
    decreases stage(phase), left(phase), homes_left(phase),
{
    let event = answer(w, phase, action);
    match action {
        PollActionView::Finish(result) => result,
        _ => if fits(phase, event) {
            proof {
                law_polls_end(phase, event);
            }
            run(w, following(phase, event).0, following(phase, event).1)
        } else {
            Err(PollError::RequestFailed)
        },
    }
}

/// The first credentials in the home directories of a distribution, from the
/// entry `k` on.
pub open spec fn first_home_tokens(
    w: World,
    distro: Seq<char>,
    homes: Seq<Option<bool>>,
    k: nat,
) -> Option<CodexTokens>
    decreases homes.len() - k,
{
    if k >= homes.len() {
        None
    } else if homes[k as int] == Some(true) && (w.home_tokens)(distro, k as usize) is Some {
        (w.home_tokens)(distro, k as usize)
    } else {
        first_home_tokens(w, distro, homes, k + 1)
    }
}

/// The first credentials in the home directories of the distributions from `i`
/// on, as they appear in the file system of the host.
pub open spec fn first_unc_tokens(w: World, i: nat) -> Option<CodexTokens>
    decreases w.unc_distros@.len() - i,
{
    if i >= w.unc_distros@.len() {
        None
    } else {
        let distro = w.unc_distros@[i as int]@;
        match (w.homes)(home_path(distro)) {
            Some(homes) => match first_home_tokens(w, distro, homes@, 0) {
                Some(tokens) => Some(tokens),
                None => first_unc_tokens(w, i + 1),
            },
            None => first_unc_tokens(w, i + 1),
        }
    }
}

/// The first credentials among the distributions from `i` on.
pub open spec fn first_wsl_tokens(w: World, i: nat) -> Option<CodexTokens>
    decreases w.token_distros@.len() - i,
{
    if i >= w.token_distros@.len() {
        None
    } else {
        match (w.wsl_tokens)(w.token_distros@[i as int]@) {
            Some(tokens) => Some(tokens),
            None => first_wsl_tokens(w, i + 1),
        }
    }
}

/// The credentials that a poll uses: those of the Windows user, else those
/// that appear in the file system, else those of the first distribution that
/// prints some.
pub open spec fn first_codex_tokens(w: World) -> Option<CodexTokens> {
    if w.windows_tokens is Some {
        w.windows_tokens
    } else if first_unc_tokens(w, 0) is Some {
        first_unc_tokens(w, 0)
    } else {
        first_wsl_tokens(w, 0)
    }
}

/// The usage that the service reports for some credentials: asked again with a
/// new access token if the old one is not accepted.
pub open spec fn direct_usage(w: World, tokens: CodexTokens) -> Result<
    Seq<SectionView>,
    PollError,
> {
    match tokens.access_token {
        None => Err(PollError::AuthRequired),
        Some(access_token) => {
            let account = text_of(tokens.account_id);
            match usage_of_reply((w.usage)(false, usage_request_for(access_token@, account))) {
                Ok(sections) => Ok(sections),
                Err(PollError::AuthRequired) => match tokens.refresh_token {
                    None => Err(PollError::TokenExpired),
                    Some(refresh_token) => match token_of_reply(
                        (w.refresh)(refresh_request_for(refresh_token@)),
                    ) {
                        Err(error) => Err(error),
                        Ok(token) => usage_of_reply(
                            (w.usage)(true, usage_request_for(token@, account)),
                        ),
                    },
                },
                Err(error) => Err(error),
            }
        },
    }
}

/// The first usage that a distribution reports, from `i` on.
pub open spec fn first_wsl_usage(w: World, i: nat) -> Result<Seq<SectionView>, PollError>
    decreases w.usage_distros@.len() - i,
{
    if i >= w.usage_distros@.len() {
        Err(PollError::RequestFailed)
    } else {
        match usage_of_wsl((w.wsl_usage)(w.usage_distros@[i as int]@)) {
            Ok(sections) => Ok(sections),
            Err(_) => first_wsl_usage(w, i + 1),
        }
    }
}

/// The usage that the distributions report.
pub open spec fn wsl_outcome(w: World) -> Result<Seq<SectionView>, PollError> {
    if w.usage_distros@.len() == 0 {
        Err(PollError::NoCredentials)
    } else {
        first_wsl_usage(w, 0)
    }
}

/// What a poll brings once its credentials are found: the usage that the
/// service reports for them, and if there is none, whatever the distributions
/// bring.
pub open spec fn outcome_with(w: World, found: Option<CodexTokens>) -> Result<
    Seq<SectionView>,
    PollError,
> {
    match found {
        Some(tokens) => match direct_usage(w, tokens) {
            Ok(sections) => Ok(sections),
            Err(_) => wsl_outcome(w),
        },
        None => wsl_outcome(w),
    }
}

/// What a poll brings.
pub open spec fn poll_outcome(w: World) -> Result<Seq<SectionView>, PollError> {
    outcome_with(w, first_codex_tokens(w))
}

proof fn lemma_run_wsl_usage(w: World, i: usize)
    requires
        i <= w.usage_distros.len(),
    ensures
        run(w, ask_wsl_usage(w.usage_distros, i).0, ask_wsl_usage(w.usage_distros, i).1)
            == first_wsl_usage(w, i as nat),
    decreases w.usage_distros.len() - i,
{
    if i < w.usage_distros.len() {
        let (phase, action) = ask_wsl_usage(w.usage_distros, i);
        let (phase2, action2) = following(phase, answer(w, phase, action));
        assert(run(w, phase, action) == run(w, phase2, action2));
        lemma_run_wsl_usage(w, (i + 1) as usize);
    }
}

proof fn lemma_run_fall_back(w: World)
    ensures
        run(w, fall_back().0, fall_back().1) == wsl_outcome(w),
{
    lemma_run_wsl_usage(w, 0);
    let (phase, action) = fall_back();
    let (phase2, action2) = following(phase, answer(w, phase, action));
    assert(run(w, phase, action) == run(w, phase2, action2));
}

proof fn lemma_run_ask_usage(w: World, tokens: CodexTokens)
    ensures
        run(w, ask_usage(tokens).0, ask_usage(tokens).1) == outcome_with(w, Some(tokens)),
{
    lemma_run_fall_back(w);
    if let Some(access_token) = tokens.access_token {
        let account = text_of(tokens.account_id);
        let (phase, action) = ask_usage(tokens);
        let event = answer(w, phase, action);
        let (phase2, action2) = following(phase, event);
        assert(run(w, phase, action) == run(w, phase2, action2));
        if action2 is RefreshToken {
            let event2 = answer(w, phase2, action2);
            let (phase3, action3) = following(phase2, event2);
            assert(run(w, phase2, action2) == run(w, phase3, action3));
            if action3 is FetchUsage {
                let event3 = answer(w, phase3, action3);
                let (phase4, action4) = following(phase3, event3);
                assert(run(w, phase3, action3) == run(w, phase4, action4));
            }
        }
    }
}

proof fn lemma_run_wsl_tokens(w: World, i: usize)
    requires
        i <= w.token_distros.len(),
    ensures
        run(w, ask_wsl_tokens(w.token_distros, i).0, ask_wsl_tokens(w.token_distros, i).1)
            == outcome_with(w, first_wsl_tokens(w, i as nat)),
    decreases w.token_distros.len() - i,
{
    lemma_run_fall_back(w);
    if i < w.token_distros.len() {
        match (w.wsl_tokens)(w.token_distros@[i as int]@) {
            Some(tokens) => {
                lemma_run_ask_usage(w, tokens);
            },
            None => {
                lemma_run_wsl_tokens(w, (i + 1) as usize);
            },
        }
    }
}

proof fn lemma_run_home_tokens(w: World, i: usize, homes: Vec<Option<bool>>, k: nat)
    requires
        i < w.unc_distros.len(),
    ensures
        ({
            let (phase, action) = ask_home_tokens(w.unc_distros, i, homes, k);
            let (phase2, action2) = ask_homes(w.unc_distros, (i + 1) as usize);
            run(w, phase, action) == (match first_home_tokens(
                w,
                w.unc_distros@[i as int]@,
                homes@,
                k,
            ) {
                Some(tokens) => outcome_with(w, Some(tokens)),
                None => run(w, phase2, action2),
            })
        }),
    decreases homes@.len() - k,
{
    let distro = w.unc_distros@[i as int]@;
    lemma_next_home(homes@, k);
    if k < homes@.len() {
        if homes@[k as int] == Some(true) {
            let (phase, action) = ask_home_tokens(w.unc_distros, i, homes, k);
            let (phase2, action2) = following(phase, answer(w, phase, action));
            assert(run(w, phase, action) == run(w, phase2, action2));
            match (w.home_tokens)(distro, k as usize) {
                Some(tokens) => {
                    lemma_run_ask_usage(w, tokens);
                },
                None => {
                    lemma_run_home_tokens(w, i, homes, k + 1);
                },
            }
        } else {
            lemma_run_home_tokens(w, i, homes, k + 1);
        }
    }
}

proof fn lemma_run_homes(w: World, i: usize)
    requires
        i <= w.unc_distros.len(),
    ensures
        run(w, ask_homes(w.unc_distros, i).0, ask_homes(w.unc_distros, i).1) == outcome_with(
            w,
            if first_unc_tokens(w, i as nat) is Some {
                first_unc_tokens(w, i as nat)
            } else {
                first_wsl_tokens(w, 0)
            },
        ),
    decreases w.unc_distros.len() - i,
{
    let (phase, action) = ask_homes(w.unc_distros, i);
    let (phase2, action2) = following(phase, answer(w, phase, action));
    assert(run(w, phase, action) == run(w, phase2, action2));
    if i < w.unc_distros.len() {
        lemma_run_homes(w, (i + 1) as usize);
        if let Some(homes) = (w.homes)(home_path(w.unc_distros@[i as int]@)) {
            lemma_run_home_tokens(w, i, homes, 0);
        }
    } else {
        lemma_run_wsl_tokens(w, 0);
    }
}

/// However the outside answers, a poll brings the usage that the service
/// reports for the first credentials there are, refreshed once if need be; only
/// if that fails does it bring what the first distribution reports that can
/// report anything, and only if that fails too does it fail.
pub proof fn law_poll_outcome(w: World)
    ensures
        run(w, PollPhase::WindowsTokens, PollActionView::ReadWindowsTokens) == poll_outcome(w),
{
    let start = PollPhase::WindowsTokens;
    let ask = PollActionView::ReadWindowsTokens;
    let (phase, action) = following(start, answer(w, start, ask));
    assert(run(w, start, ask) == run(w, phase, action));
    match w.windows_tokens {
        Some(tokens) => {
            lemma_run_ask_usage(w, tokens);
        },
        None => {
            let (phase2, action2) = following(phase, answer(w, phase, action));
            assert(run(w, phase, action) == run(w, phase2, action2));
            lemma_run_homes(w, 0);
        },
    }
}

/// Whether a request goes to the usage address or, if it has a body, to the
/// token address.
pub open spec fn is_addressed(request: HttpRequestView) -> bool {
    ||| request.url == CODEX_USAGE_URL@ && request.body is None
    ||| request.url == CODEX_TOKEN_URL@ && request.body is Some
}

/// The requests that are sent when a poll goes on from `phase` and `action` to
/// its end.
pub open spec fn requests(w: World, phase: PollPhase, action: PollActionView) -> Seq<
    HttpRequestView,
>
    decreases stage(phase), left(phase), homes_left(phase),
{
    let event = answer(w, phase, action);
    let sent = match action {
        PollActionView::FetchUsage(request) => seq![request],
        PollActionView::RefreshToken(request) => seq![request],
        _ => Seq::empty(),
    };
    match action {
        PollActionView::Finish(_) => sent,
        _ => if fits(phase, event) {
            proof {
                law_polls_end(phase, event);
            }
            sent + requests(w, following(phase, event).0, following(phase, event).1)
        } else {
            sent
        },
    }
}

/// Whether an action sends nothing, or a request to one of the two services.
pub open spec fn sends_addressed(action: PollActionView) -> bool {
    match action {
        PollActionView::FetchUsage(request) => is_addressed(request),
        PollActionView::RefreshToken(request) => is_addressed(request),
        _ => true,
    }
}

proof fn lemma_requests_are_addressed(w: World, phase: PollPhase, action: PollActionView, i: int)
    requires
        sends_addressed(action),
        0 <= i < requests(w, phase, action).len(),
    ensures
        is_addressed(requests(w, phase, action)[i]),
    decreases stage(phase), left(phase), homes_left(phase),
{
    let event = answer(w, phase, action);
    if !(action is Finish) && fits(phase, event) {
        law_polls_end(phase, event);
        let (phase2, action2) = following(phase, event);
        let sent = requests(w, phase, action).len() - requests(w, phase2, action2).len();
        if i >= sent {
            lemma_step_is_addressed(phase, event);
            lemma_requests_are_addressed(w, phase2, action2, i - sent);
            assert(requests(w, phase, action)[i] == requests(w, phase2, action2)[i - sent]);
        }
    }
}

proof fn lemma_step_is_addressed(phase: PollPhase, event: PollEvent)
    ensures
        sends_addressed(following(phase, event).1),
{
}

/// However the outside answers, every request of a poll goes to the usage
/// address or to the token address. So credentials are sent nowhere else.
pub proof fn law_requests_go_to_the_service(w: World, i: int)
    requires
        0 <= i < requests(
            w,
            PollPhase::WindowsTokens,
            PollActionView::ReadWindowsTokens,
        ).len(),
    ensures
        is_addressed(
            requests(w, PollPhase::WindowsTokens, PollActionView::ReadWindowsTokens)[i],
        ),
{
    lemma_requests_are_addressed(
        w,
        PollPhase::WindowsTokens,
        PollActionView::ReadWindowsTokens,
        i,
    );
}

/// A poll asks for a new access token at most once: when the usage is refused
/// again after that, no second refresh follows.
pub proof fn law_one_refresh(tokens: CodexTokens, reply: Reply<CodexUsageResponse>)
    ensures
        !(following(
            PollPhase::Usage { tokens, refreshed: true },
            PollEvent::Usage(reply),
        ).1 is RefreshToken),
{
}

// ---------------------------------------------------------------------------
// What a poll brings, case by case
// ---------------------------------------------------------------------------

/// What a poll brings when the outside answers as `w` says.
pub open spec fn brought(w: World) -> Result<Seq<SectionView>, PollError> {
    run(w, PollPhase::WindowsTokens, PollActionView::ReadWindowsTokens)
}

/// The answer of the usage service to the first request with some credentials.
pub open spec fn first_reply(w: World, tokens: CodexTokens) -> Reply<CodexUsageResponse> {
    (w.usage)(
        false,
        usage_request_for(tokens.access_token->0@, text_of(tokens.account_id)),
    )
}

/// Whether the service says that credentials are not accepted.
pub open spec fn not_accepted(reply: Reply<CodexUsageResponse>) -> bool {
    reply == Reply::<CodexUsageResponse>::Refused(401) || reply
        == Reply::<CodexUsageResponse>::Refused(403)
}

/// If the service answers the first request with the credentials of the Windows user,
/// what it answers is what the poll brings, whatever else there is.
pub proof fn law_first_answer_counts(
    w: World,
    tokens: CodexTokens,
    response: CodexUsageResponse,
)
    requires
        w.windows_tokens == Some(tokens),
        tokens.access_token is Some,
        first_reply(w, tokens) == Reply::Answered(Some(response)),
        response.rate_limit is Some,
    ensures
        brought(w) == usage_of_response(response),
        brought(w) is Ok,
{
    law_poll_outcome(w);
}

/// If the service does not accept the access token, the refresh token is handed to the
/// token service, and with the new access token and the same account the usage is asked
/// for once more; what is answered then is what the poll brings.
pub proof fn law_refused_token_is_refreshed(
    w: World,
    tokens: CodexTokens,
    renewed: CodexRefreshResponse,
    response: CodexUsageResponse,
)
    requires
        w.windows_tokens == Some(tokens),
        tokens.access_token is Some,
        tokens.refresh_token is Some,
        not_accepted(first_reply(w, tokens)),
        (w.refresh)(refresh_request_for(tokens.refresh_token->0@)) == Reply::Answered(
            Some(renewed),
        ),
        (w.usage)(
            true,
            usage_request_for(renewed.access_token@, text_of(tokens.account_id)),
        ) == Reply::Answered(Some(response)),
        response.rate_limit is Some,
    ensures
        brought(w) == usage_of_response(response),
        brought(w) is Ok,
{
    law_poll_outcome(w);
}

/// Whether the service brings nothing for some credentials: there is no access token;
/// or the first request is not answered with rate limits, and no refresh makes up for
/// that, be it that the token was not the reason, that there is no refresh token, that
/// no new access token comes, or that the second request fails as well.
pub open spec fn service_fails(w: World, tokens: CodexTokens) -> bool {
    let reply = first_reply(w, tokens);
    let renewal = (w.refresh)(refresh_request_for(tokens.refresh_token->0@));
    let second = (w.usage)(
        true,
        usage_request_for(renewal->Answered_0->0.access_token@, text_of(tokens.account_id)),
    );
    let brings = |r: Reply<CodexUsageResponse>|
        r is Answered && r->Answered_0 is Some && r->Answered_0->0.rate_limit is Some;
    ||| tokens.access_token is None
    ||| !brings(reply) && {
        ||| !not_accepted(reply)
        ||| tokens.refresh_token is None
        ||| !(renewal is Answered && renewal->Answered_0 is Some)
        ||| !brings(second)
    }
}

/// Whether a distribution reports usage when it is asked for it.
pub open spec fn reports(w: World, distro: Seq<char>, response: CodexUsageResponse) -> bool {
    (w.wsl_usage)(distro) == WslUsage::Answered(response) && response.rate_limit is Some
}

proof fn lemma_first_wsl_usage(w: World, from: nat, j: int, response: CodexUsageResponse)
    requires
        from <= j < w.usage_distros@.len(),
        reports(w, w.usage_distros@[j]@, response),
        forall|i: int|
            from <= i < j ==> usage_of_wsl(
                (w.wsl_usage)(#[trigger] w.usage_distros@[i]@),
            ) is Err,
    ensures
        first_wsl_usage(w, from) == usage_of_response(response),
    decreases j - from,
{
    if from < j {
        assert(usage_of_wsl((w.wsl_usage)(w.usage_distros@[from as int]@)) is Err);
        lemma_first_wsl_usage(w, from + 1, j, response);
    }
}

proof fn lemma_no_wsl_usage(w: World, from: nat)
    requires
        forall|i: int|
            from <= i < w.usage_distros@.len() ==> usage_of_wsl(
                (w.wsl_usage)(#[trigger] w.usage_distros@[i]@),
            ) is Err,
    ensures
        first_wsl_usage(w, from) == Err::<Seq<SectionView>, PollError>(PollError::RequestFailed),
    decreases w.usage_distros@.len() - from,
{
    if from < w.usage_distros@.len() {
        assert(usage_of_wsl((w.wsl_usage)(w.usage_distros@[from as int]@)) is Err);
        lemma_no_wsl_usage(w, from + 1);
    }
}

/// If the service brings nothing, the distributions are asked one after the other, and
/// the first one that reports usage is believed. If none does, the poll has failed; if
/// there is none, there are no credentials.
pub proof fn law_distributions_are_the_last_resort(
    w: World,
    tokens: CodexTokens,
    j: int,
    response: CodexUsageResponse,
)
    requires
        w.windows_tokens == Some(tokens),
        service_fails(w, tokens),
    ensures
        w.usage_distros@.len() == 0 ==> brought(w) == Err::<Seq<SectionView>, PollError>(
            PollError::NoCredentials,
        ),
        w.usage_distros@.len() > 0 && (forall|i: int|
            0 <= i < w.usage_distros@.len() ==> usage_of_wsl(
                (w.wsl_usage)(#[trigger] w.usage_distros@[i]@),
            ) is Err) ==> brought(w) == Err::<Seq<SectionView>, PollError>(
            PollError::RequestFailed,
        ),
        0 <= j < w.usage_distros@.len() && reports(w, w.usage_distros@[j]@, response) && (forall|
            i: int,
        |
            0 <= i < j ==> usage_of_wsl(
                (w.wsl_usage)(#[trigger] w.usage_distros@[i]@),
            ) is Err) ==> brought(w) == usage_of_response(response) && brought(w) is Ok,
{
    law_poll_outcome(w);
    if w.usage_distros@.len() > 0 && (forall|i: int|
        0 <= i < w.usage_distros@.len() ==> usage_of_wsl(
            (w.wsl_usage)(#[trigger] w.usage_distros@[i]@),
        ) is Err) {
        lemma_no_wsl_usage(w, 0);
    }
    if 0 <= j < w.usage_distros@.len() && reports(w, w.usage_distros@[j]@, response) && (forall|
        i: int,
    |
        0 <= i < j ==> usage_of_wsl((w.wsl_usage)(#[trigger] w.usage_distros@[i]@)) is Err) {
        lemma_first_wsl_usage(w, 0, j, response);
    }
}

/// Whether the home directories of a distribution hold no credentials: they cannot be
/// listed, or none of the entries that are known to be directories holds any.
pub open spec fn homes_are_bare(w: World, distro: Seq<char>) -> bool {
    (w.homes)(home_path(distro)) matches Some(homes) ==> forall|k: int|
        0 <= k < homes@.len() && #[trigger] homes@[k] == Some(true) ==> (w.home_tokens)(
            distro,
            k as usize,
        ) is None
}

proof fn lemma_first_home_tokens(
    w: World,
    distro: Seq<char>,
    homes: Seq<Option<bool>>,
    from: nat,
    k: int,
)
    requires
        from <= k <= homes.len(),
        k < homes.len() ==> homes[k] == Some(true) && (w.home_tokens)(distro, k as usize) is Some,
        forall|i: int|
            from <= i < k && #[trigger] homes[i] == Some(true) ==> (w.home_tokens)(
                distro,
                i as usize,
            ) is None,
    ensures
        first_home_tokens(w, distro, homes, from) == (if k < homes.len() {
            (w.home_tokens)(distro, k as usize)
        } else {
            None
        }),
    decreases k - from,
{
    if from < k {
        assert(homes[from as int] == Some(true) ==> (w.home_tokens)(distro, from as usize) is None);
        lemma_first_home_tokens(w, distro, homes, from + 1, k);
    }
}

proof fn lemma_first_unc_tokens(w: World, from: nat, i: int)
    requires
        from <= i <= w.unc_distros@.len(),
        forall|j: int| from <= j < i ==> homes_are_bare(w, #[trigger] w.unc_distros@[j]@),
    ensures
        first_unc_tokens(w, from) == first_unc_tokens(w, i as nat),
    decreases i - from,
{
    if from < i {
        let distro = w.unc_distros@[from as int]@;
        assert(homes_are_bare(w, distro));
        if let Some(homes) = (w.homes)(home_path(distro)) {
            lemma_first_home_tokens(w, distro, homes@, 0, homes@.len() as int);
        }
        lemma_first_unc_tokens(w, from + 1, i);
    }
}

proof fn lemma_first_wsl_tokens(w: World, from: nat, i: int)
    requires
        from <= i <= w.token_distros@.len(),
        forall|j: int| from <= j < i ==> (w.wsl_tokens)(#[trigger] w.token_distros@[j]@) is None,
    ensures
        first_wsl_tokens(w, from) == first_wsl_tokens(w, i as nat),
    decreases i - from,
{
    if from < i {
        assert((w.wsl_tokens)(w.token_distros@[from as int]@) is None);
        lemma_first_wsl_tokens(w, from + 1, i);
    }
}

/// If the Windows user has no credentials, the first ones count that lie in a home
/// directory of a distribution: in the first directory that holds some, of the first
/// distribution that has such a directory. The poll then brings what it would bring if
/// they were those of the Windows user.
pub proof fn law_credentials_in_home_directories_count(
    w: World,
    i: int,
    homes: Vec<Option<bool>>,
    k: int,
)
    requires
        w.windows_tokens is None,
        0 <= i < w.unc_distros@.len(),
        forall|j: int| 0 <= j < i ==> homes_are_bare(w, #[trigger] w.unc_distros@[j]@),
        (w.homes)(home_path(w.unc_distros@[i]@)) == Some(homes),
        0 <= k < homes@.len(),
        homes@[k] == Some(true),
        (w.home_tokens)(w.unc_distros@[i]@, k as usize) is Some,
        forall|j: int|
            0 <= j < k && #[trigger] homes@[j] == Some(true) ==> (w.home_tokens)(
                w.unc_distros@[i]@,
                j as usize,
            ) is None,
    ensures
        brought(w) == brought(
            World { windows_tokens: (w.home_tokens)(w.unc_distros@[i]@, k as usize), ..w },
        ),
{
    let tokens = (w.home_tokens)(w.unc_distros@[i]@, k as usize);
    let other = World { windows_tokens: tokens, ..w };
    law_poll_outcome(w);
    law_poll_outcome(other);
    lemma_first_unc_tokens(w, 0, i);
    lemma_first_home_tokens(w, w.unc_distros@[i]@, homes@, 0, k);
    assert(first_codex_tokens(w) == tokens);
    lemma_same_world(w, other, tokens->0);
}

/// If no home directory of a distribution holds credentials either, those of the first
/// distribution count that prints some, in the same way.
pub proof fn law_printed_credentials_count(w: World, i: int)
    requires
        w.windows_tokens is None,
        forall|j: int|
            0 <= j < w.unc_distros@.len() ==> homes_are_bare(w, #[trigger] w.unc_distros@[j]@),
        0 <= i < w.token_distros@.len(),
        forall|j: int| 0 <= j < i ==> (w.wsl_tokens)(#[trigger] w.token_distros@[j]@) is None,
        (w.wsl_tokens)(w.token_distros@[i]@) is Some,
    ensures
        brought(w) == brought(
            World { windows_tokens: (w.wsl_tokens)(w.token_distros@[i]@), ..w },
        ),
{
    let tokens = (w.wsl_tokens)(w.token_distros@[i]@);
    let other = World { windows_tokens: tokens, ..w };
    law_poll_outcome(w);
    law_poll_outcome(other);
    lemma_first_unc_tokens(w, 0, w.unc_distros@.len() as int);
    lemma_first_wsl_tokens(w, 0, i);
    assert(first_codex_tokens(w) == tokens);
    lemma_same_world(w, other, tokens->0);
}

/// If there are no credentials at all, the distributions are asked as they are when
/// the service brings nothing.
pub proof fn law_without_credentials_distributions_are_asked(w: World, tokens: CodexTokens)
    requires
        w.windows_tokens is None,
        forall|j: int|
            0 <= j < w.unc_distros@.len() ==> homes_are_bare(w, #[trigger] w.unc_distros@[j]@),
        forall|j: int|
            0 <= j < w.token_distros@.len() ==> (w.wsl_tokens)(
                #[trigger] w.token_distros@[j]@,
            ) is None,
        service_fails(w, tokens),
    ensures
        brought(w) == brought(World { windows_tokens: Some(tokens), ..w }),
{
    let other = World { windows_tokens: Some(tokens), ..w };
    law_poll_outcome(w);
    law_poll_outcome(other);
    lemma_first_unc_tokens(w, 0, w.unc_distros@.len() as int);
    lemma_first_wsl_tokens(w, 0, w.token_distros@.len() as int);
    lemma_same_fall_back(w, other, 0);
    assert(service_fails(other, tokens));
}

proof fn lemma_same_fall_back(w: World, other: World, from: nat)
    requires
        w.usage_distros == other.usage_distros,
        w.wsl_usage == other.wsl_usage,
    ensures
        first_wsl_usage(w, from) == first_wsl_usage(other, from),
    decreases w.usage_distros@.len() - from,
{
    if from < w.usage_distros@.len() {
        lemma_same_fall_back(w, other, from + 1);
    }
}

proof fn lemma_same_world(w: World, other: World, tokens: CodexTokens)
    requires
        w.usage == other.usage,
        w.refresh == other.refresh,
        w.usage_distros == other.usage_distros,
        w.wsl_usage == other.wsl_usage,
    ensures
        outcome_with(w, Some(tokens)) == outcome_with(other, Some(tokens)),
{
    lemma_same_fall_back(w, other, 0);
}

/// The actions of a poll are seen as they are.
pub proof fn law_actions_are_seen(
    text: String,
    n: usize,
    request: HttpRequest,
    result: Result<UsageData, PollError>,
)
    ensures
        PollAction::ReadWindowsTokens@ == PollActionView::ReadWindowsTokens,
        PollAction::ListDistros@ == PollActionView::ListDistros,
        PollAction::ListHomes(text)@ == PollActionView::ListHomes(text@),
        PollAction::ReadHomeTokens(text, n)@ == PollActionView::ReadHomeTokens(text@, n),
        PollAction::ReadWslTokens(text)@ == PollActionView::ReadWslTokens(text@),
        PollAction::FetchUsage(request)@ == PollActionView::FetchUsage(request@),
        PollAction::RefreshToken(request)@ == PollActionView::RefreshToken(request@),
        PollAction::FetchWslUsage(text)@ == PollActionView::FetchWslUsage(text@),
        PollAction::Finish(result)@ == PollActionView::Finish(usage_view(result)),
{
}

} // verus!
