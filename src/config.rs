use vstd::prelude::*;
use vstd::string::*;

verus! {

/// Which front ends the process runs, chosen once at startup.
#[derive(PartialEq, Eq, Structural, Clone, Copy, Debug)]
pub enum McpMode {
    /// Only the tool-invocation front end, over standard input and output.
    Stdio,
    /// Only the tool-invocation front end, over HTTP.
    Http,
    /// The REST listener and the tool-invocation HTTP listener together.
    Both,
    /// Only the REST listener.
    RestOnly,
}

/// A startup configuration that cannot be served.
#[derive(PartialEq, Eq, Structural, Clone, Copy, Debug)]
pub enum ConfigError {
    /// The REST port is not a decimal number in 0..=65535.
    InvalidServerPort,
    /// The tool-invocation HTTP port is not a decimal number in 0..=65535.
    InvalidMcpPort,
    /// Under 60 requests per minute the steady refill rate floors to zero.
    RateLimitTooLow,
    /// The burst capacity does not fit in 32 bits.
    RateLimitTooHigh,
}

/// Default REST port.
pub const DEFAULT_SERVER_PORT: u16 = 8080;

/// Default tool-invocation HTTP port.
pub const DEFAULT_MCP_PORT: u16 = 8081;

/// Default budget, in requests per minute.
pub const DEFAULT_RATE_LIMIT: usize = 100;

/// What the Unicode lower-case mapping turns `s` into.
pub uninterp spec fn lowercase_of(s: Seq<char>) -> Seq<char>;

/// Relies on `str::to_lowercase`: the lower-case form of the text, which
/// depends on the characters alone.
#[verifier::external_body]
fn to_lowercase(s: &str) -> (r: String)
    ensures
        r@ == lowercase_of(s@),
{
    s.to_lowercase()
}

/// The mode named by an already lower-cased selector; unknown names select
/// `Both`.
pub open spec fn mode_named(s: Seq<char>) -> McpMode {
    if s == "stdio"@ {
        McpMode::Stdio
    } else if s == "http"@ {
        McpMode::Http
    } else if s == "both"@ {
        McpMode::Both
    } else if s == "rest-only"@ || s == "rest_only"@ {
        McpMode::RestOnly
    } else {
        McpMode::Both
    }
}

/// The mode a selector value picks, case-insensitively; `Both` when unset.
pub open spec fn mode_selected(value: Option<Seq<char>>) -> McpMode {
    match value {
        None => McpMode::Both,
        Some(v) => mode_named(lowercase_of(v)),
    }
}

/// Whether two strings hold the same characters.
pub fn text_eq(a: &str, b: &str) -> (r: bool)
    ensures
        r == (a@ == b@),
{
    let n = a.unicode_len();
    if n != b.unicode_len() {
        return false;
    }
    let mut i: usize = 0;
    while i < n
        invariant
            n == a@.len() == b@.len(),
            i <= n,
            a@.take(i as int) == b@.take(i as int),
        decreases n - i,
    {
        if a.get_char(i) != b.get_char(i) {
            return false;
        }
        assert(a@.take(i + 1) =~= a@.take(i as int).push(a@[i as int]));
        assert(b@.take(i + 1) =~= b@.take(i as int).push(b@[i as int]));
        i = i + 1;
    }
    assert(a@ =~= a@.take(n as int));
    assert(b@ =~= b@.take(n as int));
    true
}

/// The mode named by an already lower-cased selector.
pub fn mode_from_lowercase(s: &str) -> (r: McpMode)
    ensures
        r == mode_named(s@),
{
    if text_eq(s, "stdio") {
        McpMode::Stdio
    } else if text_eq(s, "http") {
        McpMode::Http
    } else if text_eq(s, "both") {
        McpMode::Both
    } else if text_eq(s, "rest-only") || text_eq(s, "rest_only") {
        McpMode::RestOnly
    } else {
        McpMode::Both
    }
}

/// The mode a selector value picks, ignoring case; `Both` when it is unset
/// or names no mode.
pub fn parse_mode(value: Option<&str>) -> (r: McpMode)
    ensures
        r == mode_selected(
            match value {
                Some(v) => Some(v@),
                None => None,
            },
        ),
{
    match value {
        None => McpMode::Both,
        Some(v) => {
            let lower = to_lowercase(v);
            mode_from_lowercase(lower.as_str())
        },
    }
}

/// Whether `c` is an ASCII decimal digit.
pub open spec fn is_digit(c: char) -> bool {
    '0' <= c && c <= '9'
}

/// The number a string of decimal digits writes.
pub open spec fn digits_value(d: Seq<char>) -> int
    decreases d.len(),
{
    if d.len() == 0 {
        0
    } else {
        digits_value(d.drop_last()) * 10 + (d.last() as int - '0' as int)
    }
}

/// The digits of an unsigned number's text: one leading `+` is allowed.
pub open spec fn unsigned_digits(s: Seq<char>) -> Seq<char> {
    if s.len() > 0 && s[0] == '+' {
        s.drop_first()
    } else {
        s
    }
}

/// The value of `s` read as an unsigned decimal number no larger than `max`:
/// an optional `+`, then one or more digits and nothing else.
pub open spec fn unsigned_value(s: Seq<char>, max: int) -> Option<int> {
    let d = unsigned_digits(s);
    if d.len() > 0 && (forall|i: int| 0 <= i < d.len() ==> is_digit(#[trigger] d[i]))
        && digits_value(d) <= max {
        Some(digits_value(d))
    } else {
        None
    }
}

proof fn lemma_digits_value_prefix(d: Seq<char>, k: int)
    requires
        0 <= k <= d.len(),
        forall|i: int| 0 <= i < d.len() ==> is_digit(#[trigger] d[i]),
    ensures
        0 <= digits_value(d.take(k)) <= digits_value(d),
    decreases d.len(),
{
    if k == d.len() {
        assert(d.take(k) =~= d);
        if d.len() > 0 {
            lemma_digits_value_prefix(d.drop_last(), k - 1);
            assert(d.drop_last().take(k - 1) =~= d.drop_last());
            assert(is_digit(d[d.len() - 1]));
        }
    } else {
        let e = d.drop_last();
        assert forall|i: int| 0 <= i < e.len() implies is_digit(#[trigger] e[i]) by {
            assert(e[i] == d[i]);
        }
        lemma_digits_value_prefix(e, k);
        assert(e.take(k) =~= d.take(k));
        lemma_digits_value_prefix(e, e.len() as int);
        assert(e.take(e.len() as int) =~= e);
        assert(is_digit(d[d.len() - 1]));
    }
}

/// Reads `s` as an unsigned decimal number no larger than `max`, as the
/// standard library parses unsigned integers.
pub fn parse_unsigned(s: &str, max: u64) -> (r: Option<u64>)
    ensures
        match r {
            Some(v) => unsigned_value(s@, max as int) == Some(v as int),
            None => unsigned_value(s@, max as int).is_none(),
        },
{
    let n = s.unicode_len();
    let mut start: usize = 0;
    if n > 0 && s.get_char(0) == '+' {
        start = 1;
    }
    let ghost d = unsigned_digits(s@);
    assert(d =~= s@.skip(start as int));
    if start == n {
        return None;
    }
    let mut value: u64 = 0;
    let mut i: usize = start;
    while i < n
        invariant
            n == s@.len(),
            d == s@.skip(start as int),
            d == unsigned_digits(s@),
            start <= i <= n,
            value as int == digits_value(d.take(i - start)),
            value <= max,
            forall|k: int| 0 <= k < i - start ==> is_digit(#[trigger] d[k]),
        decreases n - i,
    {
        let c = s.get_char(i);
        assert(d[i - start] == c);
        if !('0' <= c && c <= '9') {
            assert(!is_digit(d[i - start]));
            return None;
        }
        let digit: u64 = ((c as u32) - ('0' as u32)) as u64;
        let ghost next = d.take(i - start + 1);
        assert(next.drop_last() =~= d.take(i - start));
        assert(next.last() == c);
        assert(digits_value(next) == value * 10 + digit);
        if digit > max || value > (max - digit) / 10 {
            proof {
                assert(value * 10 + digit > max) by (nonlinear_arith)
                    requires
                        digit > max || value > (max - digit) / 10,
                ;
                if forall|k: int| 0 <= k < d.len() ==> is_digit(#[trigger] d[k]) {
                    lemma_digits_value_prefix(d, i - start + 1);
                    assert(digits_value(d) > max);
                }
                assert(unsigned_value(s@, max as int).is_none());
            }
            return None;
        }
        assert(value * 10 + digit <= max) by (nonlinear_arith)
            requires
                digit <= max,
                value <= (max - digit) / 10,
        ;
        value = value * 10 + digit;
        i = i + 1;
    }
    assert(d.take(n - start) =~= d);
    Some(value)
}

/// The port a setting names: `default` when unset, else its text as a number
/// in `0..=65535`; `None` where the text is no such number.
pub open spec fn port_setting(v: Option<Seq<char>>, default: u16) -> Option<int> {
    match v {
        None => Some(default as int),
        Some(s) => unsigned_value(s, 65535),
    }
}

/// The request budget a setting names: its value when it reads as a number,
/// else the default.
pub open spec fn rate_limit_setting(v: Option<Seq<char>>) -> int {
    match v {
        None => DEFAULT_RATE_LIMIT as int,
        Some(s) => match unsigned_value(s, usize::MAX as int) {
            Some(n) => n,
            None => DEFAULT_RATE_LIMIT as int,
        },
    }
}

/// The view of an optional string.
pub open spec fn opt_view(v: Option<String>) -> Option<Seq<char>> {
    match v {
        Some(s) => Some(s@),
        None => None,
    }
}

/// The raw startup settings, each absent where it was not given.
pub struct ConfigSource {
    pub server_host: Option<String>,
    pub server_port: Option<String>,
    pub mcp_port: Option<String>,
    pub username: Option<String>,
    pub password: Option<String>,
    pub rate_limit: Option<String>,
    pub mcp_mode: Option<String>,
}

/// The startup configuration, read once.
pub struct Config {
    pub server_host: String,
    pub server_port: u16,
    pub mcp_port: u16,
    pub username: String,
    pub password: String,
    /// Requests per minute.
    pub rate_limit: usize,
    pub mcp_mode: McpMode,
}

/// A setting's text, or the given default.
fn setting_or(v: Option<String>, default: &str) -> (r: String)
    ensures
        r@ == match v {
            Some(s) => s@,
            None => default@,
        },
{
    match v {
        Some(s) => s,
        None => String::from_str(default),
    }
}

/// A port setting, or `default` where it is unset.
fn port_or(v: &Option<String>, default: u16) -> (r: Option<u16>)
    ensures
        match r {
            Some(p) => port_setting(opt_view(*v), default) == Some(p as int),
            None => port_setting(opt_view(*v), default).is_none(),
        },
{
    match v {
        None => Some(default),
        Some(s) => match parse_unsigned(s.as_str(), 65535) {
            Some(p) => Some(p as u16),
            None => None,
        },
    }
}

impl Config {
    /// The configuration the raw settings describe. Unset settings take their
    /// defaults (host `0.0.0.0`, ports 8080 and 8081, user `admin`, password
    /// `password123`, 100 requests per minute, mode `Both`); an unreadable
    /// budget falls back to 100; an unreadable port is an error, the REST
    /// port's first.
    pub fn from_values(src: ConfigSource) -> (r: Result<Config, ConfigError>)
        ensures
            port_setting(opt_view(src.server_port), DEFAULT_SERVER_PORT).is_none() ==> r == Err::<
                Config,
                ConfigError,
            >(ConfigError::InvalidServerPort),
            port_setting(opt_view(src.server_port), DEFAULT_SERVER_PORT).is_some() && port_setting(
                opt_view(src.mcp_port),
                DEFAULT_MCP_PORT,
            ).is_none() ==> r == Err::<Config, ConfigError>(ConfigError::InvalidMcpPort),
            r.is_ok() <==> port_setting(opt_view(src.server_port), DEFAULT_SERVER_PORT).is_some()
                && port_setting(opt_view(src.mcp_port), DEFAULT_MCP_PORT).is_some(),
            r matches Ok(c) ==> {
                &&& Some(c.server_port as int) == port_setting(
                    opt_view(src.server_port),
                    DEFAULT_SERVER_PORT,
                )
                &&& Some(c.mcp_port as int) == port_setting(opt_view(src.mcp_port), DEFAULT_MCP_PORT)
                &&& c.server_host@ == match src.server_host {
                    Some(s) => s@,
                    None => "0.0.0.0"@,
                }
                &&& c.username@ == match src.username {
                    Some(s) => s@,
                    None => "admin"@,
                }
                &&& c.password@ == match src.password {
                    Some(s) => s@,
                    None => "password123"@,
                }
                &&& c.rate_limit as int == rate_limit_setting(opt_view(src.rate_limit))
                &&& c.mcp_mode == mode_selected(opt_view(src.mcp_mode))
            },
    {
        let server_port = match port_or(&src.server_port, DEFAULT_SERVER_PORT) {
            Some(p) => p,
            None => return Err(ConfigError::InvalidServerPort),
        };
        let mcp_port = match port_or(&src.mcp_port, DEFAULT_MCP_PORT) {
            Some(p) => p,
            None => return Err(ConfigError::InvalidMcpPort),
        };
        let rate_limit = match &src.rate_limit {
            None => DEFAULT_RATE_LIMIT,
            Some(s) => match parse_unsigned(s.as_str(), usize::MAX as u64) {
                Some(n) => n as usize,
                None => DEFAULT_RATE_LIMIT,
            },
        };
        let mcp_mode = match &src.mcp_mode {
            None => McpMode::Both,
            Some(m) => parse_mode(Some(m.as_str())),
        };
        let ConfigSource { server_host, username, password, .. } = src;
        Ok(Config {
            server_host: setting_or(server_host, "0.0.0.0"),
            server_port,
            mcp_port,
            username: setting_or(username, "admin"),
            password: setting_or(password, "password123"),
            rate_limit,
            mcp_mode,
        })
    }
}

/// The rate limiter's settings: a burst capacity equal to the per-minute
/// budget, refilled at `budget / 60` (floored) requests per second.
pub struct RateLimitPolicy {
    /// Steady refill rate, in requests per second.
    pub refill_per_second: u64,
    /// Interval after which one request of the quota is replenished.
    pub replenish_interval_nanos: u64,
    /// Requests that may be served at once from a full bucket.
    pub burst_size: u32,
}

/// The limiter settings for a budget of `rate_limit` requests per minute.
/// A budget under 60 would refill at zero per second, and one above
/// `u32::MAX` has no burst capacity the limiter can hold: both are refused.
pub fn rate_limit_policy(rate_limit: usize) -> (r: Result<RateLimitPolicy, ConfigError>)
    ensures
        rate_limit < 60 ==> r == Err::<RateLimitPolicy, ConfigError>(ConfigError::RateLimitTooLow),
        rate_limit > u32::MAX ==> r == Err::<RateLimitPolicy, ConfigError>(
            ConfigError::RateLimitTooHigh,
        ),
        r.is_ok() <==> 60 <= rate_limit <= u32::MAX,
        r matches Ok(p) ==> {
            &&& p.refill_per_second == rate_limit as int / 60
            &&& p.burst_size == rate_limit
            &&& p.replenish_interval_nanos == 1_000_000_000int / (rate_limit as int / 60)
            &&& p.refill_per_second > 0
            &&& p.burst_size > 0
            &&& p.replenish_interval_nanos > 0
        },
{
    if rate_limit < 60 {
        return Err(ConfigError::RateLimitTooLow);
    }
    if rate_limit > u32::MAX as usize {
        return Err(ConfigError::RateLimitTooHigh);
    }
    let refill_per_second = (rate_limit / 60) as u64;
    let replenish_interval_nanos = 1_000_000_000u64 / refill_per_second;
    assert(refill_per_second <= 1_000_000_000 ==> replenish_interval_nanos > 0) by (nonlinear_arith)
        requires
            refill_per_second > 0,
            replenish_interval_nanos == 1_000_000_000int / refill_per_second as int,
    ;
    assert(refill_per_second <= u32::MAX / 60 + 1);
    Ok(RateLimitPolicy { refill_per_second, replenish_interval_nanos, burst_size: rate_limit as u32 })
}

} // verus!
