//! Server configuration and the state shared by all sessions.
//!
//! The values here are plain data. Reading them from a file or from the
//! environment is left to the program around the library; what the library
//! fixes is the defaults, the reading of a port number from text, and how a
//! configuration becomes the configuration of the router.

use crate::router::Router;
use crate::router::RouterConfig;
use crate::routing::RouterState;
use crate::text::decimal_digits;
use crate::text::push_decimal;
use vstd::prelude::*;
use vstd::string::StrSliceExecFns;
use vstd::utf8::is_ascii_chars;

verus! {

/// Host that the server binds to when none is configured.
pub open spec fn default_host_text() -> Seq<char> {
    "127.0.0.1"@
}

/// Port that the server listens on when none is configured.
pub const DEFAULT_PORT: u16 = 8080;

/// Ring capacity of the channels of a server's router.
pub const SERVER_CHANNEL_CAPACITY: usize = 131072;

/// Which transports are switched on.
#[derive(Debug, Clone)]
pub struct TransportConfig {
    /// Whether the WebSocket transport is on.
    pub websocket: bool,
    /// Whether the experimental WebTransport transport is on.
    pub webtransport: bool,
    /// Path of the WebSocket endpoint.
    pub websocket_path: String,
}

/// Resource limits.
#[derive(Debug, Clone)]
pub struct LimitsConfig {
    /// Most connections at a time.
    pub max_connections: usize,
    /// Most channels at a time.
    pub max_channels: usize,
    /// Most subscriptions that one connection may hold.
    pub max_subscriptions_per_connection: usize,
    /// Largest message, in bytes.
    pub max_message_size: usize,
}

/// Heartbeat timing.
#[derive(Debug, Clone)]
pub struct HeartbeatConfig {
    /// Heartbeat interval in milliseconds.
    pub interval_ms: u64,
    /// Time without a heartbeat after which a connection counts as lost, in
    /// milliseconds.
    pub timeout_ms: u64,
}

/// Metrics export.
#[derive(Debug, Clone)]
pub struct MetricsConfig {
    /// Whether metrics are exported.
    pub enabled: bool,
    /// Port of the metrics endpoint.
    pub port: u16,
}

/// The configuration of a server.
#[derive(Debug, Clone)]
pub struct Config {
    /// Host to bind to.
    pub host: String,
    /// Port to listen on.
    pub port: u16,
    /// Transports.
    pub transport: TransportConfig,
    /// Resource limits.
    pub limits: LimitsConfig,
    /// Heartbeat timing.
    pub heartbeat: HeartbeatConfig,
    /// Metrics export.
    pub metrics: MetricsConfig,
}

/// The default for switches that are on unless configured otherwise.
pub fn default_true() -> (on: bool)
    ensures
        on,
{
    true
}

/// The default path of the WebSocket endpoint.
pub fn default_ws_path() -> (path: String)
    ensures
        path@ == "/ws"@,
{
    "/ws".to_owned()
}

/// The default limit on connections.
pub fn default_max_connections() -> (n: usize)
    ensures
        n == 100_000,
{
    100_000
}

/// The default limit on channels.
pub fn default_max_channels() -> (n: usize)
    ensures
        n == 10_000,
{
    10_000
}

/// The default limit on the subscriptions of one connection.
pub fn default_max_subscriptions() -> (n: usize)
    ensures
        n == 100,
{
    100
}

/// The default limit on the size of a message: 64 KiB.
pub fn default_max_message_size() -> (n: usize)
    ensures
        n == 65536,
{
    64 * 1024
}

/// The default heartbeat interval: 30 seconds.
pub fn default_heartbeat_interval() -> (ms: u64)
    ensures
        ms == 30_000,
{
    30_000
}

/// The default heartbeat timeout: 60 seconds.
pub fn default_heartbeat_timeout() -> (ms: u64)
    ensures
        ms == 60_000,
{
    60_000
}

/// The default port of the metrics endpoint.
pub fn default_metrics_port() -> (port: u16)
    ensures
        port == 9090,
{
    9090
}

impl Default for TransportConfig {
    fn default() -> (config: Self)
        ensures
            config.websocket,
            !config.webtransport,
            config.websocket_path@ == "/ws"@,
    {
        TransportConfig {
            websocket: default_true(),
            webtransport: false,
            websocket_path: default_ws_path(),
        }
    }
}

impl Default for LimitsConfig {
    fn default() -> (config: Self)
        ensures
            config.max_connections == 100_000,
            config.max_channels == 10_000,
            config.max_subscriptions_per_connection == 100,
            config.max_message_size == 65536,
    {
        LimitsConfig {
            max_connections: default_max_connections(),
            max_channels: default_max_channels(),
            max_subscriptions_per_connection: default_max_subscriptions(),
            max_message_size: default_max_message_size(),
        }
    }
}

impl Default for HeartbeatConfig {
    fn default() -> (config: Self)
        ensures
            config.interval_ms == 30_000,
            config.timeout_ms == 60_000,
    {
        HeartbeatConfig {
            interval_ms: default_heartbeat_interval(),
            timeout_ms: default_heartbeat_timeout(),
        }
    }
}

impl Default for MetricsConfig {
    fn default() -> (config: Self)
        ensures
            config.enabled,
            config.port == 9090,
    {
        MetricsConfig { enabled: default_true(), port: default_metrics_port() }
    }
}

/// The value of a decimal digit character, if it is one.
pub open spec fn digit_value(c: char) -> Option<nat> {
    if '0' <= c <= '9' {
        Some((c as nat - '0' as nat) as nat)
    } else {
        None
    }
}

/// The number that the digits of `s` spell in decimal; `None` when `s` holds
/// anything but digits. The empty text spells 0.
pub open spec fn digits_value(s: Seq<char>) -> Option<nat>
    decreases s.len(),
{
    if s.len() == 0 {
        Some(0)
    } else {
        match (digits_value(s.drop_last()), digit_value(s.last())) {
            (Some(high), Some(low)) => Some(high * 10 + low),
            _ => None,
        }
    }
}

/// The port that `text` spells: an optional `+`, then one or more decimal
/// digits whose value is at most 65535. Any other text spells no port.
pub open spec fn port_value(text: Seq<char>) -> Option<u16> {
    let digits = if text.len() > 0 && text[0] == '+' {
        text.drop_first()
    } else {
        text
    };
    port_of_digits(digits)
}

/// The port that a text of digits spells: its value, when there is at least
/// one digit, nothing but digits, and the value is at most 65535.
pub open spec fn port_of_digits(digits: Seq<char>) -> Option<u16> {
    if digits.len() == 0 {
        None
    } else {
        match digits_value(digits) {
            Some(n) => if n <= u16::MAX {
                Some(n as u16)
            } else {
                None
            },
            None => None,
        }
    }
}

/// The value of a text of digits does not shrink when digits are appended.
proof fn lemma_digits_value_grows(s: Seq<char>, k: int)
    requires
        0 <= k <= s.len(),
        digits_value(s) is Some,
    ensures
        digits_value(s.take(k)) is Some,
        digits_value(s.take(k))->0 <= digits_value(s)->0,
    decreases s.len() - k,
{
    if k == s.len() {
        assert(s.take(k) =~= s);
    } else {
        assert(s.drop_last().take(k) =~= s.take(k));
        assert(digits_value(s.drop_last()) is Some);
        lemma_digits_value_grows(s.drop_last(), k);
    }
}

/// A text that holds something else than a digit spells no number.
proof fn lemma_digits_value_none(s: Seq<char>, k: int)
    requires
        0 <= k < s.len(),
        digit_value(s[k]) is None,
    ensures
        digits_value(s) is None,
    decreases s.len(),
{
    if k < s.len() - 1 {
        assert(s.drop_last()[k] == s[k]);
        lemma_digits_value_none(s.drop_last(), k);
    }
}

/// Reads a port number from text, as decimal digits with an optional `+` in
/// front.
pub fn parse_port(text: &str) -> (port: Option<u16>)
    ensures
        port == port_value(text@),
{
    if !text.is_ascii() {
        proof {
            let digits = if text@.len() > 0 && text@[0] == '+' {
                text@.drop_first()
            } else {
                text@
            };
            let k = choose|k: int| 0 <= k < text@.len() && !('\0' <= #[trigger] text@[k] <= '\u{7f}');
            if digits.len() > 0 {
                if digits.len() == text@.len() {
                    lemma_digits_value_none(digits, k);
                } else {
                    assert(k > 0);
                    assert(digits[k - 1] == text@[k]);
                    lemma_digits_value_none(digits, k - 1);
                }
            }
        }
        return None;
    }
    proof {
        vstd::utf8::is_ascii_chars_encode_utf8(text@);
    }
    let n = text.as_bytes().len();
    let start: usize = if n > 0 && text.get_ascii(0) == 0x2b {
        1
    } else {
        0
    };
    let ghost digits = if text@.len() > 0 && text@[0] == '+' {
        text@.drop_first()
    } else {
        text@
    };
    assert(digits =~= text@.skip(start as int));
    assert(port_value(text@) == port_of_digits(digits));
    if start == n {
        return None;
    }
    assert(digits.take(0) =~= Seq::<char>::empty());
    let mut value: u32 = 0;
    let mut i: usize = start;
    while i < n
        invariant
            start <= i <= n,
            n == text@.len(),
            is_ascii_chars(text@),
            digits == text@.skip(start as int),
            port_value(text@) == port_of_digits(digits),
            digits_value(digits.take(i - start)) == Some(value as nat),
            value <= u16::MAX,
        decreases n - i,
    {
        let b = text.get_ascii(i);
        proof {
            assert(digits[i - start] == text@[i as int]);
            assert(digits.take(i - start + 1).drop_last() =~= digits.take(i - start));
            assert(digits.take(i - start + 1).last() == text@[i as int]);
        }
        if b < 0x30 || b > 0x39 {
            proof {
                assert(digit_value(text@[i as int]) is None);
                lemma_digits_value_none(digits, i - start);
            }
            return None;
        }
        assert(digit_value(text@[i as int]) == Some((b - 0x30) as nat));
        let next: u32 = value * 10 + (b - 0x30) as u32;
        if next > 65535 {
            proof {
                if digits_value(digits) is Some {
                    lemma_digits_value_grows(digits, i - start + 1);
                }
            }
            return None;
        }
        value = next;
        i += 1;
    }
    proof {
        assert(digits.take(i - start) =~= digits);
    }
    Some(value as u16)
}

impl Config {
    /// The configuration with the given host and port and every other value
    /// at its default.
    pub fn with_address(host: String, port: u16) -> (config: Self)
        ensures
            config.host == host,
            config.port == port,
            config.transport.websocket,
            !config.transport.webtransport,
            config.transport.websocket_path@ == "/ws"@,
            config.limits.max_connections == 100_000,
            config.limits.max_channels == 10_000,
            config.limits.max_subscriptions_per_connection == 100,
            config.limits.max_message_size == 65536,
            config.heartbeat.interval_ms == 30_000,
            config.heartbeat.timeout_ms == 60_000,
            config.metrics.enabled,
            config.metrics.port == 9090,
    {
        Config {
            host,
            port,
            transport: TransportConfig::default(),
            limits: LimitsConfig::default(),
            heartbeat: HeartbeatConfig::default(),
            metrics: MetricsConfig::default(),
        }
    }

    /// The configuration with defaults everywhere, except that `host`
    /// replaces the default host when it is given, and `port` the default
    /// port when it is given and spells a port number.
    pub fn with_overrides(host: Option<String>, port: Option<String>) -> (config: Self)
        ensures
            config.host@ == match host {
                Some(h) => h@,
                None => default_host_text(),
            },
            config.port == match port {
                Some(p) => match port_value(p@) {
                    Some(n) => n,
                    None => DEFAULT_PORT,
                },
                None => DEFAULT_PORT,
            },
            config.heartbeat.interval_ms == 30_000,
            config.limits.max_channels == 10_000,
            config.limits.max_subscriptions_per_connection == 100,
    {
        let host = match host {
            Some(h) => h,
            None => "127.0.0.1".to_owned(),
        };
        let port = match port {
            Some(p) => match parse_port(p.as_str()) {
                Some(n) => n,
                None => DEFAULT_PORT,
            },
            None => DEFAULT_PORT,
        };
        Config::with_address(host, port)
    }

    /// The text of the address to bind to: host, a colon, and the port in
    /// decimal.
    pub open spec fn address_text(&self) -> Seq<char> {
        self.host@ + ":"@ + decimal_digits(self.port as nat)
    }

    /// Renders the address to bind to, as `host:port`.
    #[must_use]
    pub fn bind_text(&self) -> (text: String)
        ensures
            text@ == self.address_text(),
    {
        let mut text = self.host.clone().concat(":");
        push_decimal(&mut text, self.port as u64);
        text
    }

    /// The router configuration of a server with this configuration: the
    /// limits on channels and subscriptions are taken over, channels get a
    /// ring of 131072 messages, and channels are created and deleted on
    /// demand.
    pub fn router_config(&self) -> (router: RouterConfig)
        ensures
            router.max_channels == self.limits.max_channels,
            router.max_subscriptions_per_connection == self.limits.max_subscriptions_per_connection,
            router.channel_capacity == SERVER_CHANNEL_CAPACITY,
            router.auto_create_channels,
            router.auto_delete_empty_channels,
            router.capacity_accepted(),
    {
        RouterConfig {
            max_channels: self.limits.max_channels,
            max_subscriptions_per_connection: self.limits.max_subscriptions_per_connection,
            channel_capacity: SERVER_CHANNEL_CAPACITY,
            auto_create_channels: true,
            auto_delete_empty_channels: true,
        }
    }
}

impl Default for Config {
    fn default() -> (config: Self)
        ensures
            config.host@ == default_host_text(),
            config.port == DEFAULT_PORT,
            config.transport.websocket,
            !config.transport.webtransport,
            config.limits.max_connections == 100_000,
            config.heartbeat.interval_ms == 30_000,
    {
        Config::with_address("127.0.0.1".to_owned(), DEFAULT_PORT)
    }
}

/// The state that all sessions of a server share.
pub struct AppState {
    /// The message router.
    pub router: Router,
    /// The server's configuration.
    pub config: Config,
}

impl AppState {
    /// The state of a server that starts with the configuration `config`: a
    /// router without channels and connections, configured from `config`.
    #[must_use]
    pub fn new(config: Config) -> (state: Self)
        ensures
            state.config == config,
            state.router.wf(),
            state.router@ == RouterState::empty(),
            state.router.issued() == 0,
            state.router.settings().max_channels == config.limits.max_channels,
            state.router.settings().max_subscriptions_per_connection
                == config.limits.max_subscriptions_per_connection,
            state.router.settings().channel_capacity == SERVER_CHANNEL_CAPACITY,
            state.router.settings().auto_create_channels,
            state.router.settings().auto_delete_empty_channels,
    {
        let router = Router::with_config(config.router_config());
        AppState { router, config }
    }
}

} // verus!
