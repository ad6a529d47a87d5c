//! HTTP client settings and the proxy behind them.

use vstd::prelude::*;
use vstd::string::*;

use crate::text::concat::{cat2, cat3};
use crate::text::scan::{trim, trimmed};

verus! {

pub const DEFAULT_CONNECT_TIMEOUT_SECS: u64 = 10;

pub const DEFAULT_TIMEOUT_SECS: u64 = 60;

/// Destinations that never go through an explicit proxy.
pub const LOCAL_PROXY_BYPASS: &'static str =
    "localhost,127.0.0.0/8,::1,0.0.0.0,10.0.0.0/8,172.16.0.0/12,192.168.0.0/16,169.254.0.0/16,fc00::/7,fe80::/10,.local";

/// The proxy that a user sets; an empty address means none.
#[derive(Clone, Debug)]
pub struct ProxyConfig {
    pub url: String,
}

/// How a client is built.
#[derive(Clone, Debug)]
pub struct ClientSettings {
    pub http1_only: bool,
    pub connect_timeout_secs: u64,
    /// Limit for a whole request.
    pub timeout_secs: Option<u64>,
    /// Limit between two reads.
    pub read_timeout_secs: Option<u64>,
    pub follow_redirects: bool,
    /// An explicit proxy; without one the system decides.
    pub proxy: Option<String>,
}

/// An explicit proxy, if the address is not empty.
pub open spec fn explicit_proxy(url: Seq<char>) -> Option<Seq<char>> {
    if url.len() == 0 {
        None
    } else {
        Some(url)
    }
}

/// Requests go through a proxy, the explicit one or that of the system.
pub open spec fn effective_proxy(url: Seq<char>, system_proxy: bool) -> bool {
    explicit_proxy(url) is Some || system_proxy
}

/// No proxy is set, so the system decides.
pub open spec fn left_to_the_system(url: Seq<char>) -> bool {
    explicit_proxy(url) is None
}

/// Settings of a client for ordinary requests.
pub open spec fn for_requests(
    settings: ClientSettings,
    proxy_url: Seq<char>,
    request_timeout: bool,
    follow_redirects: bool,
) -> bool {
    &&& !settings.http1_only
    &&& settings.connect_timeout_secs == DEFAULT_CONNECT_TIMEOUT_SECS
    &&& settings.timeout_secs == if request_timeout {
        Some(DEFAULT_TIMEOUT_SECS)
    } else {
        None
    }
    &&& settings.read_timeout_secs is None
    &&& settings.follow_redirects == follow_redirects
    &&& crate::text::concat::option_view(settings.proxy) == explicit_proxy(proxy_url)
}

/// Settings of a client for large transfers.
pub open spec fn for_transfers(settings: ClientSettings, proxy_url: Seq<char>) -> bool {
    &&& settings.http1_only
    &&& settings.connect_timeout_secs == DEFAULT_CONNECT_TIMEOUT_SECS
    &&& settings.timeout_secs is None
    &&& settings.read_timeout_secs == Some(DEFAULT_TIMEOUT_SECS)
    &&& settings.follow_redirects
    &&& crate::text::concat::option_view(settings.proxy) == explicit_proxy(proxy_url)
}

fn proxy_of(url: &str) -> (proxy: Option<String>)
    ensures
        crate::text::concat::option_view(proxy) == explicit_proxy(url@),
{
    if url.unicode_len() == 0 {
        None
    } else {
        Some(url.to_owned())
    }
}

/// Settings of the client for ordinary requests.
pub fn client_settings(proxy_url: &str, request_timeout: bool, follow_redirects: bool) -> (settings:
    ClientSettings)
    ensures
        for_requests(settings, proxy_url@, request_timeout, follow_redirects),
{
    ClientSettings {
        http1_only: false,
        connect_timeout_secs: DEFAULT_CONNECT_TIMEOUT_SECS,
        timeout_secs: if request_timeout {
            Some(DEFAULT_TIMEOUT_SECS)
        } else {
            None
        },
        read_timeout_secs: None,
        follow_redirects,
        proxy: proxy_of(proxy_url),
    }
}

/// Settings of the client for large transfers: no limit on the whole request,
/// and one connection per range request.
pub fn transfer_settings(proxy_url: &str) -> (settings: ClientSettings)
    ensures
        for_transfers(settings, proxy_url@),
{
    ClientSettings {
        http1_only: true,
        connect_timeout_secs: DEFAULT_CONNECT_TIMEOUT_SECS,
        timeout_secs: None,
        read_timeout_secs: Some(DEFAULT_TIMEOUT_SECS),
        follow_redirects: true,
        proxy: proxy_of(proxy_url),
    }
}

/// The name that clients give to servers.
pub fn user_agent(version: &str) -> (agent: String)
    ensures
        agent@ == "huoshen80/ReinaManager/"@ + version@
            + " (https://github.com/huoshen80/ReinaManager)"@,
{
    cat3(
        "huoshen80/ReinaManager/",
        version,
        " (https://github.com/huoshen80/ReinaManager)",
    )
}

/// The proxy in use.
#[derive(Clone, Debug)]
pub struct ProxyState {
    pub proxy_url: String,
}

impl ProxyState {
    pub fn new() -> (state: ProxyState)
        ensures
            state.proxy_url@.len() == 0,
    {
        ProxyState { proxy_url: String::new() }
    }

    /// The address that a configuration asks for.
    pub fn requested(config: &ProxyConfig) -> (url: String)
        ensures
            url@ == trimmed(config.url@),
    {
        trim(config.url.as_str()).to_owned()
    }

    /// Takes a new configuration over; both clients were built for it.
    pub fn update_proxy_config(&mut self, config: &ProxyConfig)
        ensures
            final(self).proxy_url@ == trimmed(config.url@),
    {
        self.proxy_url = ProxyState::requested(config);
    }

    /// Whether a change of the system proxy calls for new clients: never
    /// while a proxy is set explicitly. It is asked once before the clients
    /// are built and once more before they replace the old ones.
    pub fn follows_system(&self) -> (follows: bool)
        ensures
            follows == left_to_the_system(self.proxy_url@),
    {
        self.proxy_url.as_str().unicode_len() == 0
    }

    /// Whether requests go through a proxy, explicit or of the system.
    pub fn has_effective_proxy(&self, system_proxy: bool) -> (effective: bool)
        ensures
            effective == effective_proxy(self.proxy_url@, system_proxy),
    {
        has_effective_proxy(self.proxy_url.as_str(), system_proxy)
    }
}

/// Whether requests go through a proxy: the explicit one, or the system's.
pub fn has_effective_proxy(proxy_url: &str, system_proxy: bool) -> (effective: bool)
    ensures
        effective == effective_proxy(proxy_url@, system_proxy),
{
    proxy_url.unicode_len() > 0 || system_proxy
}

/// Where building a client failed.
#[derive(Clone, Debug)]
pub enum ClientFailure {
    Proxy(String),
    Client(String),
    TransferClient(String),
}

/// Words a client that could not be built.
pub fn client_message(failure: &ClientFailure) -> (text: String)
    ensures
        text@ == match *failure {
            ClientFailure::Proxy(error) => "代理地址无效: "@ + error@,
            ClientFailure::Client(error) => "创建 HTTP 客户端失败: "@ + error@,
            ClientFailure::TransferClient(error) => "创建下载客户端失败: "@ + error@,
        },
{
    match failure {
        ClientFailure::Proxy(error) => cat2("代理地址无效: ", error.as_str()),
        ClientFailure::Client(error) => cat2("创建 HTTP 客户端失败: ", error.as_str()),
        ClientFailure::TransferClient(error) => cat2("创建下载客户端失败: ", error.as_str()),
    }
}

/// An address that is set is used as it is; only an empty one leaves the
/// choice to the system.
pub proof fn set_proxies_are_used(url: Seq<char>, system_proxy: bool)
    ensures
        url.len() > 0 ==> explicit_proxy(url) == Some(url) && effective_proxy(url, system_proxy)
            && !left_to_the_system(url),
        url.len() == 0 ==> explicit_proxy(url) is None && left_to_the_system(url) && (
        effective_proxy(url, system_proxy) <==> system_proxy),
{
}

/// Ordinary requests are given ten seconds to connect and a minute in all if
/// wanted; transfers may last, but not stand still for a minute.
pub proof fn transfers_may_last(
    settings: ClientSettings,
    proxy_url: Seq<char>,
    request_timeout: bool,
    follow_redirects: bool,
)
    ensures
        for_requests(settings, proxy_url, request_timeout, follow_redirects) ==> {
            &&& settings.connect_timeout_secs == 10
            &&& request_timeout ==> settings.timeout_secs == Some(60u64)
            &&& !request_timeout ==> settings.timeout_secs is None
            &&& settings.read_timeout_secs is None
            &&& settings.follow_redirects == follow_redirects
            &&& !settings.http1_only
        },
        for_transfers(settings, proxy_url) ==> {
            &&& settings.connect_timeout_secs == 10
            &&& settings.timeout_secs is None
            &&& settings.read_timeout_secs == Some(60u64)
            &&& settings.follow_redirects
            &&& settings.http1_only
        },
        for_requests(settings, proxy_url, request_timeout, follow_redirects) || for_transfers(
            settings,
            proxy_url,
        ) ==> {
            &&& settings.proxy is Some <==> proxy_url.len() > 0
            &&& settings.proxy matches Some(proxy) ==> proxy@ == proxy_url
        },
{
}

/// Local destinations never go through an explicit proxy: loopback, private
/// and link-local addresses, and names under `.local`.
pub proof fn local_destinations_bypass_the_proxy()
    ensures
        LOCAL_PROXY_BYPASS@ == "localhost,127.0.0.0/8,::1,0.0.0.0,"@
            + "10.0.0.0/8,172.16.0.0/12,192.168.0.0/16,"@ + "169.254.0.0/16,fc00::/7,fe80::/10,.local"@,
{
    reveal_strlit(
        "localhost,127.0.0.0/8,::1,0.0.0.0,10.0.0.0/8,172.16.0.0/12,192.168.0.0/16,169.254.0.0/16,fc00::/7,fe80::/10,.local",
    );
    reveal_strlit("localhost,127.0.0.0/8,::1,0.0.0.0,");
    reveal_strlit("10.0.0.0/8,172.16.0.0/12,192.168.0.0/16,");
    reveal_strlit("169.254.0.0/16,fc00::/7,fe80::/10,.local");
    assert(LOCAL_PROXY_BYPASS@ =~= "localhost,127.0.0.0/8,::1,0.0.0.0,"@
        + "10.0.0.0/8,172.16.0.0/12,192.168.0.0/16,"@ + "169.254.0.0/16,fc00::/7,fe80::/10,.local"@);
}

} // verus!
