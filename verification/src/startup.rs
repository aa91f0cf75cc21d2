//! What the proxy is started with.

use crate::base_url;
use crate::text;
use vstd::prelude::*;
use vstd::string::*;

verus! {

/// How long an idle connection to the backend is kept.
pub const POOL_IDLE_SECONDS: u64 = 60;

/// How much is logged where the environment does not say.
pub const DEFAULT_LOG_FILTER: &'static str = "info";

/// The part of the configuration that decides how the proxy is started.
pub struct ProxySettings {
    pub bind_host: String,
    pub bind_port: u16,
    pub allowed_hosts: Option<Vec<String>>,
    pub backend_url: String,
    pub lazy_revalidation_enabled: bool,
    pub revalidation_max_wait_ms: u64,
    pub revalidation_retry_interval_ms: u64,
}

/// How a stale entry is checked again before it is used.
#[derive(Clone, Copy, Debug, PartialEq, Eq, Structural)]
pub struct Revalidation {
    pub enabled: bool,
    pub max_wait_ms: u64,
    pub retry_interval_ms: u64,
}

/// How the MCP endpoint is served: without sessions, since a cached answer rests on the tool
/// and its arguments alone, and with plain JSON, since the proxy sends no notifications of
/// its own. The hosts that it is served to are replaced only where some are configured.
pub struct McpOptions {
    pub stateful_mode: bool,
    pub json_response: bool,
    pub allowed_hosts: Option<Vec<String>>,
}

/// What the proxy is started with.
pub struct StartupPlan {
    /// The address that it listens on.
    pub bind: String,
    /// The base URL of the backend, for requests that are passed on.
    pub backend_base: String,
    pub revalidation: Revalidation,
    pub mcp: McpOptions,
}

/// The port that the proxy listens on: the one from the command line before the configured
/// one.
pub open spec fn chosen_port(configured: u16, from_command_line: Option<u16>) -> u16 {
    match from_command_line {
        Some(port) => port,
        None => configured,
    }
}

/// The address that the proxy listens on.
pub open spec fn bind_text(host: Seq<char>, port: u16) -> Seq<char> {
    host + ":"@ + text::decimal(port as nat)
}

/// The pause between two attempts to revalidate: at least a millisecond.
pub open spec fn retry_interval(configured_ms: u64) -> u64 {
    if configured_ms == 0 {
        1
    } else {
        configured_ms
    }
}

/// Returns the port that the proxy listens on.
pub fn choose_port(configured: u16, from_command_line: Option<u16>) -> (res: u16)
    ensures
        res == chosen_port(configured, from_command_line),
        from_command_line matches Some(port) ==> res == port,
        from_command_line is None ==> res == configured,
{
    match from_command_line {
        Some(port) => port,
        None => configured,
    }
}

/// Returns the address that the proxy listens on, as `host:port`.
pub fn bind_address(host: &str, port: u16) -> (res: String)
    ensures
        res@ == bind_text(host@, port),
        res@ == host@ + seq![':'] + text::decimal(port as nat),
{
    proof {
        law_bind_address_by_parts(host@, port);
    }
    host.to_owned().concat(":").concat(text::decimal_text(port).as_str())
}

/// Returns what the proxy is started with.
pub fn plan_startup(settings: ProxySettings, port_from_command_line: Option<u16>) -> (res:
    StartupPlan)
    ensures
        res.bind@ == bind_text(
            settings.bind_host@,
            chosen_port(settings.bind_port, port_from_command_line),
        ),
        port_from_command_line matches Some(port) ==> res.bind@ == settings.bind_host@ + seq![':']
            + text::decimal(port as nat),
        port_from_command_line is None ==> res.bind@ == settings.bind_host@ + seq![':']
            + text::decimal(settings.bind_port as nat),
        res.backend_base@ == base_url::base_url(settings.backend_url@),
        settings.revalidation_retry_interval_ms > 0 ==> res.revalidation.retry_interval_ms
            == settings.revalidation_retry_interval_ms,
        settings.revalidation_retry_interval_ms == 0 ==> res.revalidation.retry_interval_ms == 1,
        res.revalidation == (Revalidation {
            enabled: settings.lazy_revalidation_enabled,
            max_wait_ms: settings.revalidation_max_wait_ms,
            retry_interval_ms: retry_interval(settings.revalidation_retry_interval_ms),
        }),
        res.mcp == (McpOptions {
            stateful_mode: false,
            json_response: true,
            allowed_hosts: settings.allowed_hosts,
        }),
{
    let port: u16 = choose_port(settings.bind_port, port_from_command_line);
    let retry_interval_ms: u64 = if settings.revalidation_retry_interval_ms == 0 {
        1
    } else {
        settings.revalidation_retry_interval_ms
    };
    StartupPlan {
        bind: bind_address(settings.bind_host.as_str(), port),
        backend_base: base_url::derive_base_url(settings.backend_url.as_str()),
        revalidation: Revalidation {
            enabled: settings.lazy_revalidation_enabled,
            max_wait_ms: settings.revalidation_max_wait_ms,
            retry_interval_ms,
        },
        mcp: McpOptions {
            stateful_mode: false,
            json_response: true,
            allowed_hosts: settings.allowed_hosts,
        },
    }
}

/// Where the log is written to.
#[derive(Clone, Copy, Debug, PartialEq, Eq, Structural)]
pub enum LogStream {
    Stderr,
    Stdout,
}

/// How the log is written.
#[derive(Clone, Copy, Debug, PartialEq, Eq, Structural)]
pub struct LogOutput {
    pub stream: LogStream,
    pub ansi: bool,
}

/// Returns how the log is written: to standard error and with colours where that is a
/// terminal, to standard output and without them where it is not.
pub fn log_output(stderr_is_terminal: bool) -> (res: LogOutput)
    ensures
        res == (LogOutput {
            stream: if stderr_is_terminal {
                LogStream::Stderr
            } else {
                LogStream::Stdout
            },
            ansi: stderr_is_terminal,
        }),
        stderr_is_terminal <==> res.stream is Stderr,
        !stderr_is_terminal <==> res.stream is Stdout,
        res.ansi == stderr_is_terminal,
{
    if stderr_is_terminal {
        LogOutput { stream: LogStream::Stderr, ansi: true }
    } else {
        LogOutput { stream: LogStream::Stdout, ansi: false }
    }
}

/// The pause between two attempts to revalidate is never zero, and is the configured one
/// wherever that is not.
pub proof fn law_retry_interval_is_positive(configured_ms: u64)
    ensures
        retry_interval(configured_ms) >= 1,
        retry_interval(configured_ms) >= configured_ms,
        configured_ms >= 1 ==> retry_interval(configured_ms) == configured_ms,
{
}

/// On one host, two ports give two addresses.
pub proof fn law_bind_address_tells_ports_apart(host: Seq<char>, port: u16, other: u16)
    requires
        bind_text(host, port) == bind_text(host, other),
    ensures
        port == other,
{
    let head = host + ":"@;
    let a = text::decimal(port as nat);
    let b = text::decimal(other as nat);
    assert(a =~= (head + a).skip(head.len() as int));
    assert(b =~= (head + b).skip(head.len() as int));
    text::lemma_decimal_injective(port as nat, other as nat);
}

/// The port from the command line is taken whatever is configured, and the configured port is
/// taken where there is none on the command line.
pub proof fn law_command_line_port_wins(configured: u16, port: u16)
    ensures
        chosen_port(configured, Some(port)) == port,
        chosen_port(configured, None) == configured,
{
}

/// The address is the host as it is given, then one colon, then the digits of the port: the
/// last one is its remainder by ten, and what stands before is the address with a tenth of
/// the port.
pub proof fn law_bind_address_by_parts(host: Seq<char>, port: u16)
    ensures
        bind_text(host, port) == host + seq![':'] + text::decimal(port as nat),
        bind_text(host, port).last() as int == 48 + port % 10,
        port < 10 ==> bind_text(host, port).drop_last() == host + seq![':'],
        port >= 10 ==> bind_text(host, port).drop_last() == bind_text(host, port / 10),
{
    reveal_strlit(":");
    assert(":"@ =~= seq![':']);
    text::law_decimal_digit_by_digit(port as nat);
    let digits = text::decimal(port as nat);
    assert((host + seq![':'] + digits).drop_last() =~= host + seq![':'] + digits.drop_last());
    assert(host + seq![':'] + Seq::<char>::empty() =~= host + seq![':']);
}

/// The pause is the larger of the configured one and a millisecond.
pub proof fn law_retry_interval_is_the_larger(configured_ms: u64)
    ensures
        retry_interval(configured_ms) == configured_ms || retry_interval(configured_ms) == 1,
        retry_interval(configured_ms) >= configured_ms,
        retry_interval(configured_ms) >= 1,
{
}

} // verus!
