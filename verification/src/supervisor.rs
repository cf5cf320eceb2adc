//! The supervisor of the pooled network clients.
//!
//! The supervisor holds no client. It counts the requests that failed in
//! a row and numbers the generations of the two clients; whoever holds
//! the clients builds a new one when a generation number changes.

use vstd::prelude::*;

verus! {

/// The number of failures in a row at which the general client is
/// rebuilt.
pub const FAILURE_THRESHOLD: u32 = 3;

/// `reqwest::Proxy::all` accepts the text as the address of a proxy.
pub uninterp spec fn proxy_url_accepted(url: Seq<char>) -> bool;

/// Hands a text to `reqwest::Proxy::all` and tells whether it was
/// accepted. Trusted: the answer is a function of the text alone, named
/// `proxy_url_accepted`.
#[verifier::external_body]
pub(crate) fn accepts_proxy_url(url: &str) -> (r: bool)
    ensures
        r == proxy_url_accepted(url@),
{
    reqwest::Proxy::all(url).is_ok()
}

/// How a client is to be built.
#[derive(Debug, PartialEq, Eq)]
pub struct ClientPolicy {
    /// The time a whole request may take, in seconds.
    pub timeout_secs: u64,
    /// The time a connection may take to be made, in seconds.
    pub connect_timeout_secs: u64,
    /// The number of idle connections that are kept for one host.
    pub pool_max_idle_per_host: usize,
    /// The time an idle connection is kept, in seconds.
    pub pool_idle_timeout_secs: u64,
    /// The time between two keep-alive probes, in seconds.
    pub tcp_keepalive_secs: u64,
    /// The number of redirects that are followed.
    pub redirect_limit: usize,
    /// Only the first version of the protocol is spoken.
    pub http1_only: bool,
    /// The proxy that every request goes through, where there is one.
    pub proxy: Option<String>,
}

/// The model of a `ClientPolicy`.
pub struct PolicyModel {
    pub timeout_secs: u64,
    pub connect_timeout_secs: u64,
    pub pool_max_idle_per_host: usize,
    pub pool_idle_timeout_secs: u64,
    pub tcp_keepalive_secs: u64,
    pub redirect_limit: usize,
    pub http1_only: bool,
    pub proxy: Option<Seq<char>>,
}

impl View for ClientPolicy {
    type V = PolicyModel;

    open spec fn view(&self) -> PolicyModel {
        PolicyModel {
            timeout_secs: self.timeout_secs,
            connect_timeout_secs: self.connect_timeout_secs,
            pool_max_idle_per_host: self.pool_max_idle_per_host,
            pool_idle_timeout_secs: self.pool_idle_timeout_secs,
            tcp_keepalive_secs: self.tcp_keepalive_secs,
            redirect_limit: self.redirect_limit,
            http1_only: self.http1_only,
            proxy: self.proxy.deep_view(),
        }
    }
}

/// The policy of the general client.
pub open spec fn general_policy() -> PolicyModel {
    PolicyModel {
        timeout_secs: 30,
        connect_timeout_secs: 10,
        pool_max_idle_per_host: 2,
        pool_idle_timeout_secs: 30,
        tcp_keepalive_secs: 15,
        redirect_limit: 5,
        http1_only: true,
        proxy: None,
    }
}

/// The proxy that is used: the one that is configured, where proxies are
/// switched on and the address is not empty and is accepted.
pub open spec fn effective_proxy(enabled: bool, url: Option<Seq<char>>) -> Option<Seq<char>> {
    match url {
        Some(text) => if enabled && text.len() > 0 && proxy_url_accepted(text) {
            Some(text)
        } else {
            None
        },
        None => None,
    }
}

/// The policy of the client that can go through a proxy.
pub open spec fn proxy_policy(enabled: bool, url: Option<Seq<char>>) -> PolicyModel {
    PolicyModel {
        connect_timeout_secs: 15,
        proxy: effective_proxy(enabled, url),
        ..general_policy()
    }
}

/// The policy by which the general client is built.
pub fn create_http_client() -> (r: ClientPolicy)
    ensures
        r@ == general_policy(),
{
    ClientPolicy {
        timeout_secs: 30,
        connect_timeout_secs: 10,
        pool_max_idle_per_host: 2,
        pool_idle_timeout_secs: 30,
        tcp_keepalive_secs: 15,
        redirect_limit: 5,
        http1_only: true,
        proxy: None,
    }
}

/// The policy by which the client that can go through a proxy is built.
/// An address that is empty or not accepted gives a client without a
/// proxy.
pub fn create_google_api_client(proxy_url: Option<&str>) -> (r: ClientPolicy)
    ensures
        r@ == proxy_policy(
            true,
            match proxy_url {
                Some(url) => Some(url@),
                None => None,
            },
        ),
{
    let proxy = match proxy_url {
        Some(url) => if !url.is_empty() && accepts_proxy_url(url) {
            Some(url.to_owned())
        } else {
            None
        },
        None => None,
    };
    ClientPolicy {
        timeout_secs: 30,
        connect_timeout_secs: 15,
        pool_max_idle_per_host: 2,
        pool_idle_timeout_secs: 30,
        tcp_keepalive_secs: 15,
        redirect_limit: 5,
        http1_only: true,
        proxy,
    }
}

/// The configuration of the proxy.
#[derive(Debug, PartialEq, Eq)]
pub struct ProxyConfig {
    pub enabled: bool,
    pub url: Option<String>,
}

/// The state of the supervisor.
#[derive(Debug, PartialEq, Eq)]
pub struct ClientSupervisor {
    /// The number of requests that failed since the last success or
    /// rebuild.
    pub failures: u32,
    /// The generation of the general client.
    pub generation: u64,
    /// The configuration of the proxy, as it was set last.
    pub proxy: ProxyConfig,
    /// The generation of the client that can go through a proxy.
    pub proxy_generation: u64,
}

/// What the supervisor counts: the failures in a row and the generation
/// of the general client.
pub struct Health {
    pub failures: u32,
    pub generation: u64,
}

/// The model of a `ClientSupervisor`.
pub struct SupervisorModel {
    pub health: Health,
    pub proxy_enabled: bool,
    pub proxy_url: Option<Seq<char>>,
    pub proxy_generation: u64,
}

impl View for ClientSupervisor {
    type V = SupervisorModel;

    open spec fn view(&self) -> SupervisorModel {
        SupervisorModel {
            health: Health { failures: self.failures, generation: self.generation },
            proxy_enabled: self.proxy.enabled,
            proxy_url: self.proxy.url.deep_view(),
            proxy_generation: self.proxy_generation,
        }
    }
}

/// The generation after a generation. It is never the same.
pub open spec fn next_generation(generation: u64) -> u64 {
    if generation == u64::MAX {
        0
    } else {
        (generation + 1) as u64
    }
}

/// The count after a client was rebuilt: a new generation and no
/// failures.
pub open spec fn rebuilt(h: Health) -> Health {
    Health { failures: 0, generation: next_generation(h.generation) }
}

/// The count after a request went well: no failures.
pub open spec fn after_success(h: Health) -> Health {
    Health { failures: 0, ..h }
}

/// The count after a request failed: one failure more, and a rebuild at
/// once where that reaches the threshold.
pub open spec fn after_failure(h: Health) -> Health {
    if h.failures >= FAILURE_THRESHOLD - 1 {
        rebuilt(h)
    } else {
        Health { failures: (h.failures + 1) as u32, ..h }
    }
}

/// The count after a client was asked for: a rebuild where the failures
/// have reached the threshold and the caller got the client for itself
/// alone; else nothing changes, and the caller goes on with the client
/// that is there.
pub open spec fn after_get(h: Health, exclusive: bool) -> Health {
    if h.failures >= FAILURE_THRESHOLD && exclusive {
        rebuilt(h)
    } else {
        h
    }
}

/// The count after a number of requests failed in a row.
pub open spec fn after_failures(h: Health, n: nat) -> Health
    decreases n,
{
    if n == 0 {
        h
    } else {
        after_failure(after_failures(h, (n - 1) as nat))
    }
}

/// Computes the generation after a generation.
fn bump(generation: u64) -> (r: u64)
    ensures
        r == next_generation(generation),
        r != generation,
{
    if generation == u64::MAX {
        0
    } else {
        generation + 1
    }
}

impl ClientSupervisor {
    /// A supervisor that has seen no request: no failures, both clients
    /// in their first generation, no proxy.
    pub fn new() -> (r: ClientSupervisor)
        ensures
            r@ == (SupervisorModel {
                health: Health { failures: 0, generation: 0 },
                proxy_enabled: false,
                proxy_url: None,
                proxy_generation: 0,
            }),
    {
        ClientSupervisor {
            failures: 0,
            generation: 0,
            proxy: ProxyConfig { enabled: false, url: None },
            proxy_generation: 0,
        }
    }
}

/// Tells whether the failures have reached the threshold, so that the
/// general client is due to be rebuilt by the next caller that gets it
/// for itself alone. A caller asks this before it tries to.
pub fn rebuild_is_due(supervisor: &ClientSupervisor) -> (r: bool)
    ensures
        r == (supervisor@.health.failures >= FAILURE_THRESHOLD),
        !r ==> forall|exclusive: bool|
            #[trigger] after_get(supervisor@.health, exclusive) == supervisor@.health,
{
    supervisor.failures >= FAILURE_THRESHOLD
}

/// Names the generation of the general client that the caller is to use.
/// Where the failures have reached the threshold and the caller holds
/// the clients for itself alone (`exclusive`), the client is rebuilt
/// first: the generation is a new one and the failures are forgotten.
/// A caller that does not hold them alone goes on with the client that
/// is there.
pub fn get_http_client(supervisor: &mut ClientSupervisor, exclusive: bool) -> (r: u64)
    ensures
        final(supervisor)@ == (SupervisorModel {
            health: after_get(old(supervisor)@.health, exclusive),
            ..old(supervisor)@
        }),
        r == final(supervisor)@.health.generation,
{
    if supervisor.failures >= FAILURE_THRESHOLD && exclusive {
        supervisor.generation = bump(supervisor.generation);
        supervisor.failures = 0;
    }
    supervisor.generation
}

/// Takes note that a request went well: the failures are forgotten.
pub fn report_request_success(supervisor: &mut ClientSupervisor)
    ensures
        final(supervisor)@ == (SupervisorModel {
            health: after_success(old(supervisor)@.health),
            ..old(supervisor)@
        }),
{
    supervisor.failures = 0;
}

/// Takes note that a request failed. Where that is the failure at which
/// the threshold is reached, the general client is rebuilt at once.
/// Tells whether it was.
pub fn report_request_failure(supervisor: &mut ClientSupervisor) -> (r: bool)
    ensures
        final(supervisor)@ == (SupervisorModel {
            health: after_failure(old(supervisor)@.health),
            ..old(supervisor)@
        }),
        r == (old(supervisor)@.health.failures >= FAILURE_THRESHOLD - 1),
        r == (final(supervisor)@.health.generation != old(supervisor)@.health.generation),
{
    if supervisor.failures >= FAILURE_THRESHOLD - 1 {
        rebuild_http_client(supervisor);
        true
    } else {
        supervisor.failures = supervisor.failures + 1;
        false
    }
}

/// Takes note that a request ran out of time: the general client is
/// rebuilt, whatever the count of failures.
pub fn report_timeout_error(supervisor: &mut ClientSupervisor)
    ensures
        final(supervisor)@ == (SupervisorModel {
            health: rebuilt(old(supervisor)@.health),
            ..old(supervisor)@
        }),
{
    rebuild_http_client(supervisor);
}

/// Rebuilds the general client: its generation is a new one and the
/// failures are forgotten.
pub fn rebuild_http_client(supervisor: &mut ClientSupervisor)
    ensures
        final(supervisor)@ == (SupervisorModel {
            health: rebuilt(old(supervisor)@.health),
            ..old(supervisor)@
        }),
        final(supervisor)@.health.generation != old(supervisor)@.health.generation,
{
    supervisor.generation = bump(supervisor.generation);
    supervisor.failures = 0;
}

/// Sets the configuration of the proxy and rebuilds the client that can
/// go through one. Hands out the policy by which that client is built:
/// it goes through the proxy where proxies are switched on and the
/// address is not empty and is accepted, and through none else.
pub fn update_proxy_config(supervisor: &mut ClientSupervisor, enabled: bool, url: Option<String>)
    -> (r: ClientPolicy)
    ensures
        final(supervisor)@ == (SupervisorModel {
            proxy_enabled: enabled,
            proxy_url: url.deep_view(),
            proxy_generation: next_generation(old(supervisor)@.proxy_generation),
            ..old(supervisor)@
        }),
        r@ == proxy_policy(enabled, url.deep_view()),
{
    let policy = match &url {
        Some(text) => if enabled {
            create_google_api_client(Some(text.as_str()))
        } else {
            create_google_api_client(None)
        },
        None => create_google_api_client(None),
    };
    supervisor.proxy = ProxyConfig { enabled, url };
    supervisor.proxy_generation = bump(supervisor.proxy_generation);
    policy
}

/// Names the generation of the client that can go through a proxy, and
/// the policy by which it is built where it has to be built first.
pub fn get_google_api_client(supervisor: &ClientSupervisor) -> (r: (u64, ClientPolicy))
    ensures
        r.0 == supervisor@.proxy_generation,
        r.1@ == proxy_policy(supervisor@.proxy_enabled, supervisor@.proxy_url),
{
    let policy = match &supervisor.proxy.url {
        Some(text) => if supervisor.proxy.enabled {
            create_google_api_client(Some(text.as_str()))
        } else {
            create_google_api_client(None)
        },
        None => create_google_api_client(None),
    };
    (supervisor.proxy_generation, policy)
}

/// The supervisor heals the client: after as many failures in a row as
/// the threshold says, whatever the count was before, the general client
/// has been rebuilt exactly once, so the client that is handed out next
/// is another than the one before, and the count starts anew below the
/// threshold.
pub proof fn lemma_self_heal(h: Health, exclusive: bool)
    ensures
        after_failures(h, FAILURE_THRESHOLD as nat).generation == next_generation(h.generation),
        after_failures(h, FAILURE_THRESHOLD as nat).generation != h.generation,
        after_failures(h, FAILURE_THRESHOLD as nat).failures < FAILURE_THRESHOLD,
        after_get(after_failures(h, FAILURE_THRESHOLD as nat), exclusive).generation
            != h.generation,
{
    reveal_with_fuel(after_failures, 4);
}

/// A success resets the count: fewer failures than the threshold after
/// it rebuild nothing, and the client that is handed out is the one
/// before.
pub proof fn lemma_success_resets(h: Health, n: nat, exclusive: bool)
    requires
        n < FAILURE_THRESHOLD,
    ensures
        after_failures(after_success(h), n).generation == h.generation,
        after_failures(after_success(h), n).failures == n,
        after_get(after_failures(after_success(h), n), exclusive).generation == h.generation,
{
    reveal_with_fuel(after_failures, 4);
}

} // verus!
