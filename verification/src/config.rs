//! Configuration: its defaults, the environment overrides applied on top of
//! a loaded file, and the values derived from it.
use vstd::prelude::*;

use crate::error::NornError;
use crate::models::RiskLevel;
use crate::text::{
    ascii_lower, chars_of, concat2, is_digit, is_text, parse_unsigned,
    parse_unsigned_chars, to_ascii_lower,
};

verus! {

/// The configuration file read when none is named.
pub const DEFAULT_CONFIG_PATH: &'static str = "/etc/norn/config.toml";

#[derive(Debug, Clone, PartialEq, Eq)]
pub struct NornConfig {
    pub server: ServerConfig,
    pub database: DatabaseConfig,
    pub scan: ScanConfig,
    pub collectors: CollectorsConfig,
    pub scanner: ScannerConfig,
    pub notifications: NotificationsConfig,
    pub risk: RiskConfig,
}

#[derive(Debug, Clone, PartialEq, Eq)]
pub struct ServerConfig {
    pub bind: String,
    pub static_dir: String,
}

#[derive(Debug, Clone, PartialEq, Eq)]
pub struct DatabaseConfig {
    pub url: String,
    /// Days of scan history kept; 0 keeps it all.
    pub retention_days: u32,
}

#[derive(Debug, Clone, PartialEq, Eq)]
pub struct ScanConfig {
    pub interval: String,
    pub run_on_start: bool,
}

#[derive(Debug, Clone, PartialEq, Eq)]
pub struct CollectorsConfig {
    pub docker: DockerCollectorConfig,
    pub systemd: BasicCollectorConfig,
    pub packages: BasicCollectorConfig,
    pub ports: BasicCollectorConfig,
}

#[derive(Debug, Clone, PartialEq, Eq)]
pub struct DockerCollectorConfig {
    pub enabled: bool,
    pub socket: String,
    pub fixture_path: Option<String>,
}

#[derive(Debug, Clone, PartialEq, Eq)]
pub struct BasicCollectorConfig {
    pub enabled: bool,
    pub fixture_path: Option<String>,
}

#[derive(Debug, Clone, PartialEq, Eq)]
pub struct ScannerConfig {
    pub parallelism: usize,
    /// Whether the host filesystem is scanned as a target of its own.
    pub scan_host_filesystem: bool,
    pub grype: GrypeConfig,
}

#[derive(Debug, Clone, PartialEq, Eq)]
pub struct GrypeConfig {
    pub enabled: bool,
    pub binary: String,
    pub timeout_seconds: u64,
    pub fixture_path: Option<String>,
}

#[derive(Debug, Clone, PartialEq, Eq)]
pub struct NotificationsConfig {
    pub discord: DiscordConfig,
}

#[derive(Debug, Clone, PartialEq, Eq)]
pub struct DiscordConfig {
    pub enabled: bool,
    pub webhook_url: String,
}

#[derive(Debug, Clone, PartialEq, Eq)]
pub struct RiskConfig {
    pub notify_minimum: RiskLevel,
    pub max_notifications_per_scan: usize,
}

impl ServerConfig {
    pub open spec fn is_default(&self) -> bool {
        &&& self.bind@ == "0.0.0.0:8787"@
        &&& self.static_dir@ == "apps/web/dist"@
    }
}

impl Default for ServerConfig {
    fn default() -> (c: Self)
        ensures
            c.is_default(),
    {
        ServerConfig {
            bind: String::from_str("0.0.0.0:8787"),
            static_dir: String::from_str("apps/web/dist"),
        }
    }
}

impl DatabaseConfig {
    pub open spec fn is_default(&self) -> bool {
        &&& self.url@ == "sqlite:///var/lib/norn/norn.db"@
        &&& self.retention_days == 90
    }
}

impl Default for DatabaseConfig {
    fn default() -> (c: Self)
        ensures
            c.is_default(),
    {
        DatabaseConfig { url: String::from_str("sqlite:///var/lib/norn/norn.db"), retention_days: 90 }
    }
}

impl ScanConfig {
    pub open spec fn is_default(&self) -> bool {
        &&& self.interval@ == "6h"@
        &&& self.run_on_start
    }
}

impl Default for ScanConfig {
    fn default() -> (c: Self)
        ensures
            c.is_default(),
    {
        ScanConfig { interval: String::from_str("6h"), run_on_start: true }
    }
}

impl DockerCollectorConfig {
    pub open spec fn is_default(&self) -> bool {
        &&& self.enabled
        &&& self.socket@ == "/var/run/docker.sock"@
        &&& self.fixture_path is None
    }
}

impl Default for DockerCollectorConfig {
    fn default() -> (c: Self)
        ensures
            c.is_default(),
    {
        DockerCollectorConfig {
            enabled: true,
            socket: String::from_str("/var/run/docker.sock"),
            fixture_path: None,
        }
    }
}

impl BasicCollectorConfig {
    pub open spec fn is_default(&self) -> bool {
        &&& self.enabled
        &&& self.fixture_path is None
    }

    pub fn default_enabled() -> (c: Self)
        ensures
            c.is_default(),
    {
        BasicCollectorConfig { enabled: true, fixture_path: None }
    }
}

impl Default for BasicCollectorConfig {
    fn default() -> (c: Self)
        ensures
            c.is_default(),
    {
        Self::default_enabled()
    }
}

impl CollectorsConfig {
    pub open spec fn is_default(&self) -> bool {
        &&& self.docker.is_default()
        &&& self.systemd.is_default()
        &&& self.packages.is_default()
        &&& self.ports.is_default()
    }
}

impl Default for CollectorsConfig {
    fn default() -> (c: Self)
        ensures
            c.is_default(),
    {
        CollectorsConfig {
            docker: DockerCollectorConfig::default(),
            systemd: BasicCollectorConfig::default(),
            packages: BasicCollectorConfig::default(),
            ports: BasicCollectorConfig::default(),
        }
    }
}

impl GrypeConfig {
    pub open spec fn is_default(&self) -> bool {
        &&& self.enabled
        &&& self.binary@ == "grype"@
        &&& self.timeout_seconds == 300
        &&& self.fixture_path is None
    }
}

impl Default for GrypeConfig {
    fn default() -> (c: Self)
        ensures
            c.is_default(),
    {
        GrypeConfig {
            enabled: true,
            binary: String::from_str("grype"),
            timeout_seconds: 300,
            fixture_path: None,
        }
    }
}

impl ScannerConfig {
    pub open spec fn is_default(&self) -> bool {
        &&& self.parallelism == 4
        &&& !self.scan_host_filesystem
        &&& self.grype.is_default()
    }

    /// The number of scans run at once: the configured number, at least one.
    pub fn parallelism(&self) -> (n: usize)
        ensures
            n == if self.parallelism >= 1 {
                self.parallelism
            } else {
                1
            },
    {
        if self.parallelism >= 1 {
            self.parallelism
        } else {
            1
        }
    }
}

impl Default for ScannerConfig {
    fn default() -> (c: Self)
        ensures
            c.is_default(),
    {
        ScannerConfig { parallelism: 4, scan_host_filesystem: false, grype: GrypeConfig::default() }
    }
}

impl DiscordConfig {
    pub open spec fn is_default(&self) -> bool {
        &&& !self.enabled
        &&& self.webhook_url@.len() == 0
    }
}

impl Default for DiscordConfig {
    fn default() -> (c: Self)
        ensures
            c.is_default(),
    {
        DiscordConfig { enabled: false, webhook_url: String::new() }
    }
}

impl NotificationsConfig {
    pub open spec fn is_default(&self) -> bool {
        self.discord.is_default()
    }
}

impl Default for NotificationsConfig {
    fn default() -> (c: Self)
        ensures
            c.is_default(),
    {
        NotificationsConfig { discord: DiscordConfig::default() }
    }
}

pub fn default_notify_minimum() -> (r: RiskLevel)
    ensures
        r == RiskLevel::High,
{
    RiskLevel::High
}

pub fn default_max_notifications_per_scan() -> (n: usize)
    ensures
        n == 50,
{
    50
}

impl RiskConfig {
    pub open spec fn is_default(&self) -> bool {
        &&& self.notify_minimum == RiskLevel::High
        &&& self.max_notifications_per_scan == 50
    }
}

impl Default for RiskConfig {
    fn default() -> (c: Self)
        ensures
            c.is_default(),
    {
        RiskConfig {
            notify_minimum: default_notify_minimum(),
            max_notifications_per_scan: default_max_notifications_per_scan(),
        }
    }
}

impl NornConfig {
    pub open spec fn is_default(&self) -> bool {
        &&& self.server.is_default()
        &&& self.database.is_default()
        &&& self.scan.is_default()
        &&& self.collectors.is_default()
        &&& self.scanner.is_default()
        &&& self.notifications.is_default()
        &&& self.risk.is_default()
    }
}

impl Default for NornConfig {
    fn default() -> (c: Self)
        ensures
            c.is_default(),
    {
        NornConfig {
            server: ServerConfig::default(),
            database: DatabaseConfig::default(),
            scan: ScanConfig::default(),
            collectors: CollectorsConfig::default(),
            scanner: ScannerConfig::default(),
            notifications: NotificationsConfig::default(),
            risk: RiskConfig::default(),
        }
    }
}

/// Whether a flag's text means "on": `1`, `true`, `yes` or `on`, in any ASCII case.
pub open spec fn truthy(value: Seq<char>) -> bool {
    let l = ascii_lower(value);
    l == "1"@ || l == "true"@ || l == "yes"@ || l == "on"@
}

pub fn parse_bool(value: &str) -> (b: bool)
    ensures
        b == truthy(value@),
{
    let chars = chars_of(value);
    let l = to_ascii_lower(chars.as_slice());
    is_text(l.as_slice(), "1") || is_text(l.as_slice(), "true") || is_text(l.as_slice(), "yes")
        || is_text(l.as_slice(), "on")
}

/// The risk level a text names, in any ASCII case; `info` also names the
/// informational level.
pub open spec fn risk_named(value: Seq<char>) -> Option<RiskLevel> {
    let l = ascii_lower(value);
    if l == "critical"@ {
        Some(RiskLevel::Critical)
    } else if l == "high"@ {
        Some(RiskLevel::High)
    } else if l == "medium"@ {
        Some(RiskLevel::Medium)
    } else if l == "low"@ {
        Some(RiskLevel::Low)
    } else if l == "informational"@ || l == "info"@ {
        Some(RiskLevel::Informational)
    } else {
        None
    }
}

pub fn parse_risk(value: &str) -> (r: Option<RiskLevel>)
    ensures
        r == risk_named(value@),
{
    let chars = chars_of(value);
    let l = to_ascii_lower(chars.as_slice());
    let l = l.as_slice();
    if is_text(l, "critical") {
        Some(RiskLevel::Critical)
    } else if is_text(l, "high") {
        Some(RiskLevel::High)
    } else if is_text(l, "medium") {
        Some(RiskLevel::Medium)
    } else if is_text(l, "low") {
        Some(RiskLevel::Low)
    } else if is_text(l, "informational") || is_text(l, "info") {
        Some(RiskLevel::Informational)
    } else {
        None
    }
}

/// The value of a `usize` setting's text, as `str::parse::<usize>` reads it.
pub open spec fn usize_named(value: Seq<char>) -> Option<nat> {
    parse_unsigned(value, usize::MAX as nat)
}

fn parse_usize(value: &str) -> (r: Option<usize>)
    ensures
        r matches Some(n) ==> usize_named(value@) == Some(n as nat),
        r is None ==> usize_named(value@) is None,
{
    let chars = chars_of(value);
    match parse_unsigned_chars(chars.as_slice(), usize::MAX as u64) {
        Some(n) => Some(n as usize),
        None => None,
    }
}

/// The value of a `u32` setting's text, as `str::parse::<u32>` reads it.
pub open spec fn u32_named(value: Seq<char>) -> Option<nat> {
    parse_unsigned(value, u32::MAX as nat)
}

fn parse_u32(value: &str) -> (r: Option<u32>)
    ensures
        r matches Some(n) ==> u32_named(value@) == Some(n as nat),
        r is None ==> u32_named(value@) is None,
{
    let chars = chars_of(value);
    match parse_unsigned_chars(chars.as_slice(), u32::MAX as u64) {
        Some(n) => Some(n as u32),
        None => None,
    }
}

/// The environment variables that override settings, each as read when set:
/// `NORN_SERVER_BIND`, `NORN_DATABASE_URL`, `NORN_RETENTION_DAYS`,
/// `NORN_SCAN_INTERVAL`, `NORN_GRYPE_BINARY`, `NORN_SCANNER_PARALLELISM`,
/// `NORN_SCANNER_SCAN_HOST_FILESYSTEM`, `NORN_DISCORD_WEBHOOK_URL`,
/// `NORN_DISCORD_ENABLED`, `NORN_RISK_NOTIFY_MINIMUM` and
/// `NORN_RISK_MAX_NOTIFICATIONS_PER_SCAN`.
#[derive(Debug, Clone, PartialEq, Eq, Default)]
pub struct EnvOverrides {
    pub server_bind: Option<String>,
    pub database_url: Option<String>,
    pub retention_days: Option<String>,
    pub scan_interval: Option<String>,
    pub grype_binary: Option<String>,
    pub scanner_parallelism: Option<String>,
    pub scan_host_filesystem: Option<String>,
    pub discord_webhook_url: Option<String>,
    pub discord_enabled: Option<String>,
    pub risk_notify_minimum: Option<String>,
    pub risk_max_notifications_per_scan: Option<String>,
}

/// A text setting after an optional override.
pub open spec fn overridden(old: String, value: Option<String>) -> String {
    match value {
        Some(v) => v,
        None => old,
    }
}

/// `new` is `old` with the overrides of `env` applied: texts replace
/// settings, flags are read by `truthy`, and numbers and risk levels replace
/// settings only when they read as one (parallelism raised to at least 1).
pub open spec fn overrides_applied(new: NornConfig, old: NornConfig, env: EnvOverrides) -> bool {
    &&& new.server.bind == overridden(old.server.bind, env.server_bind)
    &&& new.server.static_dir == old.server.static_dir
    &&& new.database.url == overridden(old.database.url, env.database_url)
    &&& new.database.retention_days == match env.retention_days {
        Some(v) => match u32_named(v@) {
            Some(n) => n as u32,
            None => old.database.retention_days,
        },
        None => old.database.retention_days,
    }
    &&& new.scan.interval == overridden(old.scan.interval, env.scan_interval)
    &&& new.scan.run_on_start == old.scan.run_on_start
    &&& new.collectors == old.collectors
    &&& new.scanner.grype.binary == overridden(old.scanner.grype.binary, env.grype_binary)
    &&& new.scanner.grype.enabled == old.scanner.grype.enabled
    &&& new.scanner.grype.timeout_seconds == old.scanner.grype.timeout_seconds
    &&& new.scanner.grype.fixture_path == old.scanner.grype.fixture_path
    &&& new.scanner.parallelism == match env.scanner_parallelism {
        Some(v) => match usize_named(v@) {
            Some(n) => if n >= 1 {
                n as usize
            } else {
                1
            },
            None => old.scanner.parallelism,
        },
        None => old.scanner.parallelism,
    }
    &&& new.scanner.scan_host_filesystem == match env.scan_host_filesystem {
        Some(v) => truthy(v@),
        None => old.scanner.scan_host_filesystem,
    }
    &&& new.notifications.discord.webhook_url == overridden(
        old.notifications.discord.webhook_url,
        env.discord_webhook_url,
    )
    &&& new.notifications.discord.enabled == match env.discord_enabled {
        Some(v) => truthy(v@),
        None => old.notifications.discord.enabled,
    }
    &&& new.risk.notify_minimum == match env.risk_notify_minimum {
        Some(v) => match risk_named(v@) {
            Some(r) => r,
            None => old.risk.notify_minimum,
        },
        None => old.risk.notify_minimum,
    }
    &&& new.risk.max_notifications_per_scan == match env.risk_max_notifications_per_scan {
        Some(v) => match usize_named(v@) {
            Some(n) => n as usize,
            None => old.risk.max_notifications_per_scan,
        },
        None => old.risk.max_notifications_per_scan,
    }
}

/// A scan interval: whole seconds and the nanoseconds past them.
#[derive(Debug, Clone, Copy, PartialEq, Eq, Structural)]
pub struct IntervalDuration {
    pub secs: u64,
    pub subsec_nanos: u32,
}

impl IntervalDuration {
    pub fn from_secs(secs: u64) -> (d: Self)
        ensures
            d.secs == secs,
            d.subsec_nanos == 0,
    {
        IntervalDuration { secs, subsec_nanos: 0 }
    }
}

/// What `humantime::parse_duration` makes of a text, as whole seconds and
/// nanoseconds, when it reads it as a duration at all.
pub uninterp spec fn humantime_duration(text: Seq<char>) -> Option<(u64, u32)>;

/// Seconds in humantime's year (365.25 days), its longest unit: no digit
/// in a duration text stands for more seconds than this times its place value.
pub const SECONDS_PER_YEAR: u64 = 31_557_600;

/// A character that ends a number in humantime's grammar: a unit letter or
/// the decimal point.
pub open spec fn ends_number(c: char) -> bool {
    ('a' <= c <= 'z') || ('A' <= c <= 'Z') || c == '\u{b5}' || c == '.'
}

/// The value of the decimal digit `c`.
pub open spec fn digit_value(c: char) -> nat {
    (c as nat - '0' as nat) as nat
}

/// The most seconds that a number of value `digits` adds, with its fraction
/// and a carry.
pub open spec fn span_weight(digits: nat) -> nat {
    ((digits + 2) * SECONDS_PER_YEAR) as nat
}

/// A bound on the seconds that humantime can add up while reading `s[i..]`,
/// with `digits` the value of the digits read since the last character that
/// ends a number, and `total` the bound for what lies before. Each stretch
/// between such characters counts as one number made of all its digits, worth
/// at most that many years, plus one year for a fraction and one second for a
/// carry of nanoseconds (counted as a second year).
pub open spec fn humantime_weight_from(s: Seq<char>, i: int, digits: nat, total: nat) -> nat
    decreases s.len() - i,
{
    if i < 0 || i >= s.len() {
        total + span_weight(digits)
    } else if is_digit(s[i]) {
        humantime_weight_from(s, i + 1, digits * 10 + digit_value(s[i]), total)
    } else if ends_number(s[i]) {
        humantime_weight_from(s, i + 1, 0, total + span_weight(digits))
    } else {
        humantime_weight_from(s, i + 1, digits, total)
    }
}

/// A bound on every running total of seconds that humantime reaches while
/// reading `s`.
pub open spec fn humantime_weight(s: Seq<char>) -> nat {
    humantime_weight_from(s, 0, 0, 0)
}

/// Texts that humantime 2.4 reads without panicking. It adds each span into
/// a `Duration` and carries nanoseconds into seconds only above one second,
/// so a running total of exactly `u64::MAX` seconds met by a full second of
/// nanoseconds makes `Duration::new` overflow and panic. Below this weight no
/// running total reaches `u64::MAX`.
pub open spec fn humantime_safe(s: Seq<char>) -> bool {
    humantime_weight(s) < u64::MAX
}

proof fn lemma_weight_at_least(s: Seq<char>, i: int, digits: nat, total: nat)
    requires
        0 <= i,
    ensures
        humantime_weight_from(s, i, digits, total) >= total + span_weight(digits),
    decreases s.len() - i,
{
    if i < s.len() {
        if is_digit(s[i]) {
            lemma_weight_at_least(s, i + 1, digits * 10 + digit_value(s[i]), total);
        } else if ends_number(s[i]) {
            lemma_weight_at_least(s, i + 1, 0, total + span_weight(digits));
        } else {
            lemma_weight_at_least(s, i + 1, digits, total);
        }
    }
}

/// Whether humantime may be given `text`.
pub fn humantime_can_read(text: &str) -> (b: bool)
    ensures
        b == humantime_safe(text@),
{
    let chars = chars_of(text);
    let limit: u128 = 18_446_744_073_709_551_615;
    let year: u128 = 31_557_600;
    let mut digits: u128 = 0;
    let mut total: u128 = 0;
    let mut i: usize = 0;
    while i < chars.len()
        invariant
            chars@ == text@,
            i <= chars@.len(),
            humantime_weight(text@) == humantime_weight_from(text@, i as int, digits as nat, total as nat),
            total + span_weight(digits as nat) < limit,
            limit == u64::MAX,
            year == SECONDS_PER_YEAR,
        decreases chars@.len() - i,
    {
        let c = chars[i];
        if '0' <= c && c <= '9' {
            digits = digits * 10 + ((c as u32) - ('0' as u32)) as u128;
        } else if ('a' <= c && c <= 'z') || ('A' <= c && c <= 'Z') || c == '\u{b5}' || c == '.' {
            total = total + (digits + 2) * year;
            digits = 0;
        }
        i = i + 1;
        if total + (digits + 2) * year >= limit {
            proof {
                lemma_weight_at_least(text@, i as int, digits as nat, total as nat);
            }
            return false;
        }
    }
    true
}

/// Reads a duration such as `15m` or `6h` with `humantime::parse_duration`
/// (through the copy that `humantime_serde` re-exports). The grammar of
/// durations is humantime's own, so the result is only named: it is the
/// function of the text that `humantime_duration` stands for. Only texts of
/// weight below `u64::MAX` are given to it (see `humantime_safe`): among the
/// others are those on which it panics.
#[verifier::external_body]
fn parse_humantime(text: &str) -> (r: Option<(u64, u32)>)
    requires
        humantime_safe(text@),
    ensures
        r == humantime_duration(text@),
{
    match humantime_serde::re::humantime::parse_duration(text) {
        Ok(d) => Some((d.as_secs(), d.subsec_nanos())),
        Err(_) => None,
    }
}

/// The scan interval that the reading `parsed` of the text `interval` gives:
/// the duration read, or a configuration error that names the text.
pub fn interval_from(parsed: Option<(u64, u32)>, interval: &str) -> (r: Result<
    IntervalDuration,
    NornError,
>)
    ensures
        match parsed {
            Some((secs, nanos)) => r == Ok::<IntervalDuration, NornError>(
                IntervalDuration { secs, subsec_nanos: nanos },
            ),
            None => r matches Err(NornError::Config(m)) && m@ == "invalid scan interval "@
                + interval@,
        },
{
    match parsed {
        Some((secs, subsec_nanos)) => Ok(IntervalDuration { secs, subsec_nanos }),
        None => Err(NornError::Config(concat2("invalid scan interval ", interval))),
    }
}

impl ScanConfig {
    /// The scan interval, or a configuration error that names the text when
    /// humantime cannot read it, or when its numbers are too large for
    /// humantime to be given it safely (`humantime_safe`): more than about
    /// 5.8e11 of its units, which in years would overflow humantime itself.
    pub fn interval_duration(&self) -> (r: Result<IntervalDuration, NornError>)
        ensures
            !humantime_safe(self.interval@) ==> (r matches Err(
                NornError::Config(m),
            ) && m@ == "invalid scan interval "@ + self.interval@),
            humantime_safe(self.interval@) ==> match humantime_duration(
                self.interval@,
            ) {
                Some((secs, nanos)) => r == Ok::<IntervalDuration, NornError>(
                    IntervalDuration { secs, subsec_nanos: nanos },
                ),
                None => r matches Err(NornError::Config(m)) && m@ == "invalid scan interval "@
                    + self.interval@,
            },
    {
        if !humantime_can_read(self.interval.as_str()) {
            return interval_from(None, self.interval.as_str());
        }
        interval_from(parse_humantime(self.interval.as_str()), self.interval.as_str())
    }
}

fn override_text(target: &mut String, value: &Option<String>)
    ensures
        *final(target) == overridden(*old(target), *value),
{
    if let Some(v) = value {
        *target = v.clone();
    }
}

fn override_flag(target: &mut bool, value: &Option<String>)
    ensures
        *final(target) == match *value {
            Some(v) => truthy(v@),
            None => *old(target),
        },
{
    if let Some(v) = value {
        *target = parse_bool(v.as_str());
    }
}

fn override_count(target: &mut usize, value: &Option<String>, at_least_one: bool)
    ensures
        *final(target) == match *value {
            Some(v) => match usize_named(v@) {
                Some(n) => if at_least_one && n < 1 {
                    1
                } else {
                    n as usize
                },
                None => *old(target),
            },
            None => *old(target),
        },
{
    if let Some(v) = value {
        if let Some(n) = parse_usize(v.as_str()) {
            *target = if at_least_one && n < 1 {
                1
            } else {
                n
            };
        }
    }
}

fn override_days(target: &mut u32, value: &Option<String>)
    ensures
        *final(target) == match *value {
            Some(v) => match u32_named(v@) {
                Some(n) => n as u32,
                None => *old(target),
            },
            None => *old(target),
        },
{
    if let Some(v) = value {
        if let Some(n) = parse_u32(v.as_str()) {
            *target = n;
        }
    }
}

fn override_risk(target: &mut RiskLevel, value: &Option<String>)
    ensures
        *final(target) == match *value {
            Some(v) => match risk_named(v@) {
                Some(r) => r,
                None => *old(target),
            },
            None => *old(target),
        },
{
    if let Some(v) = value {
        if let Some(level) = parse_risk(v.as_str()) {
            *target = level;
        }
    }
}

impl NornConfig {
    /// Applies the environment's overrides to a loaded configuration.
    pub fn apply_env_overrides(&mut self, env: &EnvOverrides)
        ensures
            overrides_applied(*final(self), *old(self), *env),
    {
        override_text(&mut self.server.bind, &env.server_bind);
        override_text(&mut self.database.url, &env.database_url);
        override_days(&mut self.database.retention_days, &env.retention_days);
        override_text(&mut self.scan.interval, &env.scan_interval);
        override_text(&mut self.scanner.grype.binary, &env.grype_binary);
        override_count(&mut self.scanner.parallelism, &env.scanner_parallelism, true);
        override_flag(&mut self.scanner.scan_host_filesystem, &env.scan_host_filesystem);
        override_text(&mut self.notifications.discord.webhook_url, &env.discord_webhook_url);
        override_flag(&mut self.notifications.discord.enabled, &env.discord_enabled);
        override_risk(&mut self.risk.notify_minimum, &env.risk_notify_minimum);
        override_count(
            &mut self.risk.max_notifications_per_scan,
            &env.risk_max_notifications_per_scan,
            false,
        );
    }
}

} // verus!
