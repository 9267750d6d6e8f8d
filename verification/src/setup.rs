//! Instance setup, signal-listing queries, and the desktop shell's connection
//! to its local server: whether an instance needs setup or unlocking, who may
//! claim it, and how the shell finds the server and waits for it.
use vstd::prelude::*;
use crate::signals::KnowledgeSignalFilter;
use crate::reports::opt_view;
use crate::text::{append_chars, chars_of, decimal, decimal_chars, string_from_chars, trim_chars, trim_seq};

verus! {

/// Body of the claim endpoint.
#[derive(Clone, Debug)]
pub struct ClaimBody {
    pub name: Option<String>,
    /// Encryption passphrase for the databases, fixed at setup.
    pub passphrase: Option<String>,
}

/// Body of the unlock endpoint.
#[derive(Clone, Debug)]
pub struct UnlockBody {
    pub passphrase: String,
}

/// What an instance needs before use.
#[derive(Clone, Copy, Debug, PartialEq, Eq, Structural)]
pub struct SetupStatus {
    pub needs_setup: bool,
    pub needs_unlock: bool,
}

/// The number of tokens that are not revoked.
pub open spec fn active_tokens(revoked: Seq<bool>) -> nat
    decreases revoked.len(),
{
    if revoked.len() == 0 {
        0
    } else {
        active_tokens(revoked.drop_last()) + if revoked.last() {
            0nat
        } else {
            1nat
        }
    }
}

/// Counts the tokens that are not revoked.
pub fn count_active_tokens(revoked: &[bool]) -> (n: usize)
    ensures
        n == active_tokens(revoked@),
{
    let mut n: usize = 0;
    let mut i: usize = 0;
    while i < revoked.len()
        invariant
            i <= revoked@.len(),
            n == active_tokens(revoked@.take(i as int)),
            n <= i,
        decreases revoked@.len() - i,
    {
        assert(revoked@.take(i + 1).drop_last() == revoked@.take(i as int));
        if !revoked[i] {
            n = n + 1;
        }
        i = i + 1;
    }
    assert(revoked@.take(revoked@.len() as int) == revoked@);
    n
}

/// An uninitialized instance needs setup unless its registry is on disk,
/// in which case it needs unlocking; an initialized one needs setup while it
/// has no active token.
pub fn setup_status_for(initialized: bool, registry_exists: bool, token_revoked: &[bool]) -> (s: SetupStatus)
    ensures
        !initialized ==> s.needs_setup == !registry_exists && s.needs_unlock == registry_exists,
        initialized ==> s.needs_setup == (active_tokens(token_revoked@) == 0) && !s.needs_unlock,
{
    if !initialized {
        return SetupStatus { needs_setup: !registry_exists, needs_unlock: registry_exists };
    }
    let active = count_active_tokens(token_revoked);
    SetupStatus { needs_setup: active == 0, needs_unlock: false }
}

/// An instance may be claimed only while it has no active token.
pub fn may_claim(token_revoked: &[bool]) -> (b: bool)
    ensures
        b == (active_tokens(token_revoked@) == 0),
{
    count_active_tokens(token_revoked) == 0
}

/// The name of the first token: the one asked for, `default` otherwise.
pub fn claim_token_name(body: &ClaimBody) -> (r: String)
    ensures
        r@ == match body.name {
            Some(n) => n@,
            None => "default"@,
        },
{
    match &body.name {
        Some(n) => n.clone(),
        None => String::from_str("default"),
    }
}

/// Query of the signal listing endpoint.
#[derive(Clone, Debug)]
pub struct KnowledgeSignalsQuery {
    pub provider_id: Option<String>,
    pub include_dismissed: Option<bool>,
    pub include_snoozed: Option<bool>,
    pub limit: Option<i32>,
}

impl KnowledgeSignalsQuery {
    /// The listing filter the query asks for; missing flags are off.
    pub fn to_filter(&self) -> (f: KnowledgeSignalFilter)
        ensures
            opt_view(f.provider_id) == opt_view(self.provider_id),
            f.include_dismissed == (self.include_dismissed == Some(true)),
            f.include_snoozed == (self.include_snoozed == Some(true)),
            f.limit == self.limit,
    {
        KnowledgeSignalFilter {
            provider_id: match &self.provider_id {
                Some(p) => Some(p.clone()),
                None => None,
            },
            include_dismissed: match self.include_dismissed {
                Some(b) => b,
                None => false,
            },
            include_snoozed: match self.include_snoozed {
                Some(b) => b,
                None => false,
            },
            limit: self.limit,
        }
    }
}

/// Body of the snooze endpoint.
#[derive(Clone, Debug)]
pub struct SnoozeSignalBody {
    pub until: String,
}

/// The port the desktop shell runs its local server on.
pub const SIDECAR_PORT: u16 = 44380;
/// Pause between two health probes of the local server, in milliseconds.
pub const HEALTH_POLL_INTERVAL_MS: u64 = 100;
/// How long the shell waits for the local server, in milliseconds.
pub const HEALTH_TIMEOUT_MS: u64 = 10_000;

/// What the desktop front end needs to reach its local server.
#[derive(Clone, Debug)]
pub struct LocalServerConfig {
    pub base_url: String,
    pub auth_token: String,
}

/// The address of the local server on `port`.
pub open spec fn base_url_spec(port: u16) -> Seq<char> {
    "http://127.0.0.1:"@ + decimal(port as nat)
}

/// The connection settings for a local server on `port`, with the cached
/// token (empty when there is none).
pub fn local_server_config(port: u16, cached_token: Option<String>) -> (c: LocalServerConfig)
    ensures
        c.base_url@ == base_url_spec(port),
        c.auth_token@ == match cached_token {
            Some(t) => t@,
            None => Seq::empty(),
        },
{
    let mut url = chars_of("http://127.0.0.1:");
    let d = decimal_chars(port as u64);
    append_chars(&mut url, &d);
    LocalServerConfig {
        base_url: string_from_chars(&url),
        auth_token: match cached_token {
            Some(t) => t,
            None => String::new(),
        },
    }
}

/// The health endpoint under a base address.
pub fn health_url(base_url: &str) -> (r: String)
    ensures
        r@ == base_url@ + "/health"@,
{
    let mut u = chars_of(base_url);
    crate::text::append_str(&mut u, "/health");
    string_from_chars(&u)
}

/// The token kept in the token file: its contents trimmed, unless nothing
/// is left.
pub open spec fn cached_token_spec(contents: Option<Seq<char>>) -> Option<Seq<char>> {
    match contents {
        Some(c) => if trim_seq(c).len() > 0 {
            Some(trim_seq(c))
        } else {
            None
        },
        None => None,
    }
}

/// The cached token from the token file's contents (none when the file
/// could not be read).
pub fn cached_token_from(contents: Option<String>) -> (r: Option<String>)
    ensures
        opt_view(r) == cached_token_spec(opt_view(contents)),
{
    match contents {
        Some(c) => {
            let cs = chars_of(c.as_str());
            let t = trim_chars(&cs);
            if t.len() > 0 {
                Some(string_from_chars(&t))
            } else {
                None
            }
        },
        None => None,
    }
}

/// The next step of waiting for the local server.
#[derive(Clone, Copy, Debug, PartialEq, Eq, Structural)]
pub enum PollAction {
    /// Probe the health endpoint.
    Probe,
    /// Wait this many milliseconds, then decide again.
    Sleep(u64),
    /// The server answered: stop waiting.
    Ready,
    /// The wait is over without an answer.
    TimedOut,
}

/// Before a probe: give up once the wait has exceeded the timeout, probe
/// otherwise.
pub fn poll_before_probe(elapsed_ms: u64) -> (a: PollAction)
    ensures
        a == if elapsed_ms > HEALTH_TIMEOUT_MS {
            PollAction::TimedOut
        } else {
            PollAction::Probe
        },
{
    if elapsed_ms > HEALTH_TIMEOUT_MS {
        PollAction::TimedOut
    } else {
        PollAction::Probe
    }
}

/// After a probe: stop when the server answered with success, otherwise wait
/// a poll interval.
pub fn poll_after_probe(succeeded: bool) -> (a: PollAction)
    ensures
        a == if succeeded {
            PollAction::Ready
        } else {
            PollAction::Sleep(HEALTH_POLL_INTERVAL_MS)
        },
{
    if succeeded {
        PollAction::Ready
    } else {
        PollAction::Sleep(HEALTH_POLL_INTERVAL_MS)
    }
}

} // verus!
