//! Service configuration: its sections and defaults, the overrides taken from the
//! environment, the human-friendly duration and day-count values, and validation.
//!
//! Reading the file, decoding TOML and reading the environment happen outside; this
//! module decides what the configuration becomes.
use vstd::prelude::*;
use vstd::string::*;
use crate::text::{chars_of, is_digit, spec_to_lowercase, str_eq, str_to_lowercase, str_trim, string_of_range, trim_seq};
use crate::num::{all_digits, digits_val, lemma_digits_val_grows, lemma_digits_val_push};
use crate::metrics::push_str;
use crate::model::opt_view;

verus! {

// ---------------------------------------------------------------------------
// Integer text as `str::parse` reads it
// ---------------------------------------------------------------------------

/// The value of a non-empty run of ASCII digits, when it is at most `limit`.
pub open spec fn spec_digits_upto(s: Seq<char>, limit: nat) -> Option<nat> {
    if s.len() > 0 && all_digits(s) && digits_val(s) <= limit {
        Some(digits_val(s))
    } else {
        None
    }
}

/// The text without one leading `+`.
pub open spec fn without_plus(s: Seq<char>) -> Seq<char> {
    if s.len() > 0 && s[0] == '+' {
        s.drop_first()
    } else {
        s
    }
}

/// `u64` text: an optional `+` and digits, the value within range.
pub open spec fn spec_parse_u64(s: Seq<char>) -> Option<u64> {
    match spec_digits_upto(without_plus(s), 0xffff_ffff_ffff_ffff) {
        Some(v) => Some(v as u64),
        None => None,
    }
}

/// `u16` text: an optional `+` and digits, the value within range.
pub open spec fn spec_parse_u16(s: Seq<char>) -> Option<u16> {
    match spec_digits_upto(without_plus(s), 0xffff) {
        Some(v) => Some(v as u16),
        None => None,
    }
}

/// `u32` text: an optional `+` and digits, the value within range.
pub open spec fn spec_parse_u32(s: Seq<char>) -> Option<u32> {
    match spec_digits_upto(without_plus(s), 0xffff_ffff) {
        Some(v) => Some(v as u32),
        None => None,
    }
}

/// `i64` text: an optional sign and digits, the value within range.
pub open spec fn spec_parse_i64(s: Seq<char>) -> Option<i64> {
    if s.len() > 0 && s[0] == '-' {
        match spec_digits_upto(s.drop_first(), 0x8000_0000_0000_0000) {
            Some(v) => Some((0 - v) as i64),
            None => None,
        }
    } else {
        match spec_digits_upto(without_plus(s), 0x7fff_ffff_ffff_ffff) {
            Some(v) => Some(v as i64),
            None => None,
        }
    }
}

/// `bool` text: exactly `true` or `false`.
pub open spec fn spec_parse_bool(s: Seq<char>) -> Option<bool> {
    if s == "true"@ {
        Some(true)
    } else if s == "false"@ {
        Some(false)
    } else {
        None
    }
}

proof fn lemma_prefix_bound(s: Seq<char>, j: int)
    requires
        0 <= j <= s.len(),
        all_digits(s),
    ensures
        digits_val(s.take(j)) <= digits_val(s),
{
    let t = s.skip(j);
    assert(s.take(j) + t =~= s);
    assert forall|i: int| 0 <= i < t.len() implies is_digit(#[trigger] t[i]) by {
        assert(t[i] == s[j + i]);
    }
    lemma_digits_val_grows(s.take(j), t);
}

/// The value of the digits `v[lo..hi]` when they are all digits, at least one, and
/// the value is at most `limit`.
fn digits_upto(v: &Vec<char>, lo: usize, hi: usize, limit: u128) -> (r: Option<u128>)
    requires
        lo <= hi <= v.len(),
        limit <= 0x1_0000_0000_0000_0000,
    ensures
        r is Some <==> spec_digits_upto(v@.subrange(lo as int, hi as int), limit as nat) is Some,
        r matches Some(x) ==> spec_digits_upto(v@.subrange(lo as int, hi as int), limit as nat)
            == Some(x as nat),
{
    let ghost s = v@.subrange(lo as int, hi as int);
    if lo == hi {
        return None;
    }
    let mut val: u128 = 0;
    let mut i: usize = lo;
    while i < hi
        invariant
            lo <= i <= hi <= v.len(),
            limit <= 0x1_0000_0000_0000_0000,
            s == v@.subrange(lo as int, hi as int),
            val <= limit,
            val == digits_val(s.take(i - lo)),
            forall|k: int| 0 <= k < i - lo ==> is_digit(#[trigger] s[k]),
        decreases hi - i,
    {
        let c = v[i];
        assert(c == s[i - lo]);
        if !('0' <= c && c <= '9') {
            assert(!all_digits(s));
            return None;
        }
        proof {
            assert(s.take(i - lo + 1) =~= s.take(i - lo).push(c));
            lemma_digits_val_push(s.take(i - lo), c);
        }
        let d: u128 = ((c as u32) - ('0' as u32)) as u128;
        let next = val * 10 + d;
        if next > limit {
            proof {
                if all_digits(s) {
                    lemma_prefix_bound(s, i - lo + 1);
                }
            }
            return None;
        }
        val = next;
        i = i + 1;
    }
    assert(s.take(hi - lo) =~= s);
    Some(val)
}

/// `s.parse::<u64>()`: an optional `+` and digits, the value within range.
pub fn parse_u64_text(s: &str) -> (r: Option<u64>)
    ensures
        r == spec_parse_u64(s@),
{
    let v = chars_of(s);
    let lo: usize = if v.len() > 0 && v[0] == '+' {
        1
    } else {
        0
    };
    assert(v@.subrange(lo as int, v@.len() as int) =~= without_plus(s@));
    match digits_upto(&v, lo, v.len(), 0xffff_ffff_ffff_ffff) {
        Some(x) => Some(x as u64),
        None => None,
    }
}

/// `s.parse::<u16>()`: an optional `+` and digits, the value within range.
pub fn parse_u16_text(s: &str) -> (r: Option<u16>)
    ensures
        r == spec_parse_u16(s@),
{
    let v = chars_of(s);
    let lo: usize = if v.len() > 0 && v[0] == '+' {
        1
    } else {
        0
    };
    assert(v@.subrange(lo as int, v@.len() as int) =~= without_plus(s@));
    match digits_upto(&v, lo, v.len(), 0xffff) {
        Some(x) => Some(x as u16),
        None => None,
    }
}

/// `s.parse::<u32>()`: an optional `+` and digits, the value within range.
pub fn parse_u32_text(s: &str) -> (r: Option<u32>)
    ensures
        r == spec_parse_u32(s@),
{
    let v = chars_of(s);
    let lo: usize = if v.len() > 0 && v[0] == '+' {
        1
    } else {
        0
    };
    assert(v@.subrange(lo as int, v@.len() as int) =~= without_plus(s@));
    match digits_upto(&v, lo, v.len(), 0xffff_ffff) {
        Some(x) => Some(x as u32),
        None => None,
    }
}

/// `s.parse::<i64>()`: an optional sign and digits, the value within range.
pub fn parse_i64_text(s: &str) -> (r: Option<i64>)
    ensures
        r == spec_parse_i64(s@),
{
    let v = chars_of(s);
    if v.len() > 0 && v[0] == '-' {
        assert(v@.subrange(1, v@.len() as int) =~= s@.drop_first());
        match digits_upto(&v, 1, v.len(), 0x8000_0000_0000_0000) {
            Some(x) => {
                if x == 0x8000_0000_0000_0000 {
                    Some(-9223372036854775807i64 - 1)
                } else {
                    let m: i64 = x as i64;
                    Some(-m)
                }
            },
            None => None,
        }
    } else {
        let lo: usize = if v.len() > 0 && v[0] == '+' {
            1
        } else {
            0
        };
        assert(v@.subrange(lo as int, v@.len() as int) =~= without_plus(s@));
        match digits_upto(&v, lo, v.len(), 0x7fff_ffff_ffff_ffff) {
            Some(x) => Some(x as i64),
            None => None,
        }
    }
}

/// `s.parse::<bool>()`: exactly `true` or `false`.
pub fn parse_bool_text(s: &str) -> (r: Option<bool>)
    ensures
        r == spec_parse_bool(s@),
{
    if str_eq(s, "true") {
        Some(true)
    } else if str_eq(s, "false") {
        Some(false)
    } else {
        None
    }
}

// ---------------------------------------------------------------------------
// Human-friendly durations and day counts
// ---------------------------------------------------------------------------

/// Number of leading ASCII digits.
pub open spec fn lead_digits(s: Seq<char>) -> nat
    decreases s.len(),
{
    if s.len() > 0 && is_digit(s[0]) {
        1 + lead_digits(s.drop_first())
    } else {
        0
    }
}

/// Seconds per unit of a duration unit word.
pub open spec fn duration_unit(u: Seq<char>) -> Option<nat> {
    if u == "s"@ || u == "sec"@ || u == "secs"@ || u == "second"@ || u == "seconds"@ {
        Some(1)
    } else if u == "m"@ || u == "min"@ || u == "mins"@ || u == "minute"@ || u == "minutes"@ {
        Some(60)
    } else if u == "h"@ || u == "hr"@ || u == "hour"@ || u == "hours"@ {
        Some(3600)
    } else if u == "d"@ || u == "day"@ || u == "days"@ {
        Some(86400)
    } else {
        None
    }
}

/// Days per unit of a day-count unit word.
pub open spec fn day_unit(u: Seq<char>) -> Option<nat> {
    if u == "d"@ || u == "day"@ || u == "days"@ {
        Some(1)
    } else if u == "w"@ || u == "week"@ || u == "weeks"@ {
        Some(7)
    } else {
        None
    }
}

/// The number and unit parts of a value: trimmed, lower-cased, split after the
/// leading digits.
pub open spec fn number_part(input: Seq<char>) -> Seq<char> {
    let s = spec_to_lowercase(trim_seq(input));
    s.take(lead_digits(s) as int)
}

pub open spec fn unit_part(input: Seq<char>) -> Seq<char> {
    let s = spec_to_lowercase(trim_seq(input));
    s.skip(lead_digits(s) as int)
}

/// A duration in seconds: a plain `u64` is seconds; otherwise a number followed by a
/// unit (`30s`, `5m`, `1h`, `2d`). The value is computed without bound; the error
/// texts are those reported to the user.
pub open spec fn spec_duration_secs(input: Seq<char>) -> Result<int, Seq<char>> {
    match spec_parse_u64(input) {
        Some(v) => Ok(v as int),
        None => {
            let num = number_part(input);
            let unit = unit_part(input);
            if num.len() == 0 || unit.len() == 0 {
                Err("missing number or unit"@)
            } else {
                match spec_parse_u64(num) {
                    None => Err("invalid number"@),
                    Some(n) => match duration_unit(unit) {
                        Some(f) => Ok(n * f),
                        None => Err("unsupported unit: "@ + unit),
                    },
                }
            }
        },
    }
}

/// A count of days: a plain `i64` is days; otherwise a number followed by `d` or `w`
/// (`7d`, `2w`).
pub open spec fn spec_days(input: Seq<char>) -> Result<int, Seq<char>> {
    match spec_parse_i64(input) {
        Some(v) => Ok(v as int),
        None => {
            let num = number_part(input);
            let unit = unit_part(input);
            if num.len() == 0 || unit.len() == 0 {
                Err("missing number or unit"@)
            } else {
                match spec_parse_i64(num) {
                    None => Err("invalid number"@),
                    Some(n) => match day_unit(unit) {
                        Some(f) => Ok(n * f),
                        None => Err("unsupported unit: "@ + unit),
                    },
                }
            }
        },
    }
}

/// The duration fits 64 bits (the multiplication by the unit does not overflow).
pub open spec fn duration_fits(input: Seq<char>) -> bool {
    spec_duration_secs(input) matches Ok(v) ==> v <= 0xffff_ffff_ffff_ffff
}

/// The day count fits 64 bits.
pub open spec fn days_fit(input: Seq<char>) -> bool {
    spec_days(input) matches Ok(v) ==> v <= 0x7fff_ffff_ffff_ffff
}

proof fn lemma_lead_digits(s: Seq<char>, i: int)
    requires
        0 <= i <= s.len(),
        forall|j: int| 0 <= j < i ==> is_digit(#[trigger] s[j]),
        i == s.len() || !is_digit(s[i]),
    ensures
        lead_digits(s) == i,
    decreases i,
{
    if i > 0 {
        let t = s.drop_first();
        assert forall|j: int| 0 <= j < i - 1 implies is_digit(#[trigger] t[j]) by {
            assert(t[j] == s[j + 1]);
        }
        if i < s.len() {
            assert(t[i - 1] == s[i]);
        }
        lemma_lead_digits(t, i - 1);
        assert(is_digit(s[0]));
    }
}

/// The lower-cased, trimmed value as characters, with the count of its leading digits.
fn split_number_unit(input: &str) -> (r: (Vec<char>, usize))
    ensures
        r.0@ == spec_to_lowercase(trim_seq(input@)),
        r.1 == lead_digits(r.0@),
        r.1 <= r.0@.len(),
        forall|j: int| 0 <= j < r.1 ==> is_digit(#[trigger] r.0@[j]),
{
    let t = str_trim(input);
    let low = str_to_lowercase(t);
    let v = chars_of(low.as_str());
    let mut k: usize = 0;
    while k < v.len() && '0' <= v[k] && v[k] <= '9'
        invariant
            k <= v.len(),
            forall|j: int| 0 <= j < k ==> is_digit(#[trigger] v@[j]),
        decreases v.len() - k,
    {
        k = k + 1;
    }
    proof {
        lemma_lead_digits(v@, k as int);
    }
    (v, k)
}

/// `"unsupported unit: "` followed by the unit.
fn unsupported_unit(unit: &str) -> (e: String)
    ensures
        e@ == "unsupported unit: "@ + unit@,
{
    let mut e = String::from_str("unsupported unit: ");
    push_str(&mut e, unit);
    e
}

/// Seconds per unit of a duration unit word.
fn duration_factor(u: &str) -> (f: Option<u128>)
    ensures
        f is Some <==> duration_unit(u@) is Some,
        f matches Some(x) ==> duration_unit(u@) == Some(x as nat) && 1 <= x <= 86400,
{
    if str_eq(u, "s") || str_eq(u, "sec") || str_eq(u, "secs") || str_eq(u, "second") || str_eq(
        u,
        "seconds",
    ) {
        Some(1)
    } else if str_eq(u, "m") || str_eq(u, "min") || str_eq(u, "mins") || str_eq(u, "minute")
        || str_eq(u, "minutes") {
        Some(60)
    } else if str_eq(u, "h") || str_eq(u, "hr") || str_eq(u, "hour") || str_eq(u, "hours") {
        Some(3600)
    } else if str_eq(u, "d") || str_eq(u, "day") || str_eq(u, "days") {
        Some(86400)
    } else {
        None
    }
}

/// Days per unit of a day-count unit word.
fn day_factor(u: &str) -> (f: Option<i128>)
    ensures
        f is Some <==> day_unit(u@) is Some,
        f matches Some(x) ==> day_unit(u@) == Some(x as nat) && 1 <= x <= 7,
{
    if str_eq(u, "d") || str_eq(u, "day") || str_eq(u, "days") {
        Some(1)
    } else if str_eq(u, "w") || str_eq(u, "week") || str_eq(u, "weeks") {
        Some(7)
    } else {
        None
    }
}

/// The duration in seconds, without a bound on its size.
pub fn duration_secs_value(input: &str) -> (r: Result<u128, String>)
    ensures
        match (r, spec_duration_secs(input@)) {
            (Ok(v), Ok(w)) => v == w,
            (Err(e), Err(f)) => e@ == f,
            _ => false,
        },
{
    if let Some(v) = parse_u64_text(input) {
        return Ok(v as u128);
    }
    let (s, k) = split_number_unit(input);
    proof {
        assert(s@.take(k as int) == number_part(input@));
        assert(s@.skip(k as int) == unit_part(input@));
    }
    if k == 0 || k == s.len() {
        return Err(String::from_str("missing number or unit"));
    }
    let num = string_of_range(&s, 0, k);
    let unit = string_of_range(&s, k, s.len());
    assert(num@ =~= s@.take(k as int));
    assert(unit@ =~= s@.skip(k as int));
    let n = match parse_u64_text(num.as_str()) {
        Some(n) => n as u128,
        None => {
            return Err(String::from_str("invalid number"));
        },
    };
    let u = unit.as_str();
    match duration_factor(u) {
        Some(f) => {
            assert(n * f <= 0xffff_ffff_ffff_ffff * 86400) by (nonlinear_arith)
                requires
                    n <= 0xffff_ffff_ffff_ffff,
                    1 <= f <= 86400,
            ;
            Ok(n * f)
        },
        None => Err(unsupported_unit(u)),
    }
}

/// The day count, without a bound on its size.
pub fn days_value(input: &str) -> (r: Result<i128, String>)
    ensures
        r matches Ok(v) ==> v >= -0x8000_0000_0000_0000,
        match (r, spec_days(input@)) {
            (Ok(v), Ok(w)) => v == w,
            (Err(e), Err(f)) => e@ == f,
            _ => false,
        },
{
    if let Some(v) = parse_i64_text(input) {
        return Ok(v as i128);
    }
    let (s, k) = split_number_unit(input);
    proof {
        assert(s@.take(k as int) == number_part(input@));
        assert(s@.skip(k as int) == unit_part(input@));
    }
    if k == 0 || k == s.len() {
        return Err(String::from_str("missing number or unit"));
    }
    let num = string_of_range(&s, 0, k);
    let unit = string_of_range(&s, k, s.len());
    assert(num@ =~= s@.take(k as int));
    assert(unit@ =~= s@.skip(k as int));
    let n = match parse_i64_text(num.as_str()) {
        Some(n) => n as i128,
        None => {
            return Err(String::from_str("invalid number"));
        },
    };
    assert(num@[0] == s@[0]);
    assert(num@[0] != '-');
    assert(n >= 0);
    let u = unit.as_str();
    match day_factor(u) {
        Some(f) => {
            assert(0 <= n * f <= 0x7fff_ffff_ffff_ffff * 7) by (nonlinear_arith)
                requires
                    0 <= n <= 0x7fff_ffff_ffff_ffff,
                    1 <= f <= 7,
            ;
            Ok(n * f)
        },
        None => Err(unsupported_unit(u)),
    }
}

/// Seconds in a duration value such as `30`, `30s`, `5m`, `1h` or `2d`.
pub fn parse_duration_to_secs(input: &str) -> (r: Result<u64, String>)
    requires
        duration_fits(input@),
    ensures
        match (r, spec_duration_secs(input@)) {
            (Ok(v), Ok(w)) => v == w,
            (Err(e), Err(f)) => e@ == f,
            _ => false,
        },
{
    match duration_secs_value(input) {
        Ok(v) => Ok(v as u64),
        Err(e) => Err(e),
    }
}

/// Days in a retention value such as `7`, `7d` or `2w`.
pub fn parse_days_to_i64(input: &str) -> (r: Result<i64, String>)
    requires
        days_fit(input@),
    ensures
        match (r, spec_days(input@)) {
            (Ok(v), Ok(w)) => v == w,
            (Err(e), Err(f)) => e@ == f,
            _ => false,
        },
{
    match days_value(input) {
        Ok(v) => {
            Ok(v as i64)
        },
        Err(e) => Err(e),
    }
}


// ---------------------------------------------------------------------------
// Configuration sections
// ---------------------------------------------------------------------------

/// Listening address.
pub struct ServerConfig {
    pub host: String,
    pub port: u16,
}

/// Database location.
pub struct DatabaseConfig {
    pub url: String,
}

/// Token signing.
pub struct AuthConfig {
    pub jwt_secret: String,
    pub jwt_expires_in: String,
}

/// Log filter and file.
pub struct LoggingConfig {
    pub level: String,
    pub file: Option<String>,
}

/// Static web assets.
pub struct StaticConfig {
    pub enabled: bool,
    pub web_root: String,
}

/// The metrics collector.
pub struct MetricsCollectorConfig {
    /// Collection interval in seconds.
    pub interval_secs: u64,
    /// Days of history kept.
    pub retention_days: i64,
    /// Whether the collector starts with the service.
    pub enabled: bool,
}

/// The whole configuration.
pub struct Config {
    pub server: ServerConfig,
    pub database: DatabaseConfig,
    pub auth: AuthConfig,
    pub logging: LoggingConfig,
    pub static_config: StaticConfig,
    pub metrics: MetricsCollectorConfig,
}

/// The value of a configuration, section by section.
pub struct ConfigView {
    pub host: Seq<char>,
    pub port: u16,
    pub database_url: Seq<char>,
    pub jwt_secret: Seq<char>,
    pub jwt_expires_in: Seq<char>,
    pub log_level: Seq<char>,
    pub log_file: Option<Seq<char>>,
    pub static_enabled: bool,
    pub web_root: Seq<char>,
    pub interval_secs: u64,
    pub retention_days: i64,
    pub metrics_enabled: bool,
}

impl View for Config {
    type V = ConfigView;

    open spec fn view(&self) -> ConfigView {
        ConfigView {
            host: self.server.host@,
            port: self.server.port,
            database_url: self.database.url@,
            jwt_secret: self.auth.jwt_secret@,
            jwt_expires_in: self.auth.jwt_expires_in@,
            log_level: self.logging.level@,
            log_file: opt_view(self.logging.file),
            static_enabled: self.static_config.enabled,
            web_root: self.static_config.web_root@,
            interval_secs: self.metrics.interval_secs,
            retention_days: self.metrics.retention_days,
            metrics_enabled: self.metrics.enabled,
        }
    }
}

/// The JWT secret that ships with the defaults; fine for development only.
pub open spec fn default_jwt_secret() -> Seq<char> {
    "dev-secret-key-change-in-production"@
}

/// The default configuration.
pub open spec fn default_config_view() -> ConfigView {
    ConfigView {
        host: "0.0.0.0"@,
        port: 8080,
        database_url: "sqlite://data/starrocks-admin.db"@,
        jwt_secret: default_jwt_secret(),
        jwt_expires_in: "24h"@,
        log_level: "info,starrocks_admin_backend=debug"@,
        log_file: Some("logs/starrocks-admin.log"@),
        static_enabled: true,
        web_root: "web"@,
        interval_secs: 30,
        retention_days: 7,
        metrics_enabled: true,
    }
}

impl Default for ServerConfig {
    fn default() -> (c: Self)
        ensures
            c.host@ == "0.0.0.0"@,
            c.port == 8080,
    {
        ServerConfig { host: String::from_str("0.0.0.0"), port: 8080 }
    }
}

impl Default for DatabaseConfig {
    fn default() -> (c: Self)
        ensures
            c.url@ == "sqlite://data/starrocks-admin.db"@,
    {
        DatabaseConfig { url: String::from_str("sqlite://data/starrocks-admin.db") }
    }
}

impl Default for AuthConfig {
    fn default() -> (c: Self)
        ensures
            c.jwt_secret@ == default_jwt_secret(),
            c.jwt_expires_in@ == "24h"@,
    {
        AuthConfig {
            jwt_secret: String::from_str("dev-secret-key-change-in-production"),
            jwt_expires_in: String::from_str("24h"),
        }
    }
}

impl Default for LoggingConfig {
    fn default() -> (c: Self)
        ensures
            c.level@ == "info,starrocks_admin_backend=debug"@,
            opt_view(c.file) == Some("logs/starrocks-admin.log"@),
    {
        LoggingConfig {
            level: String::from_str("info,starrocks_admin_backend=debug"),
            file: Some(String::from_str("logs/starrocks-admin.log")),
        }
    }
}

impl Default for StaticConfig {
    fn default() -> (c: Self)
        ensures
            c.enabled,
            c.web_root@ == "web"@,
    {
        StaticConfig { enabled: true, web_root: String::from_str("web") }
    }
}

impl Default for MetricsCollectorConfig {
    fn default() -> (c: Self)
        ensures
            c.interval_secs == 30,
            c.retention_days == 7,
            c.enabled,
    {
        MetricsCollectorConfig { interval_secs: 30, retention_days: 7, enabled: true }
    }
}

impl Default for Config {
    fn default() -> (c: Self)
        ensures
            c@ == default_config_view(),
    {
        Config {
            server: ServerConfig::default(),
            database: DatabaseConfig::default(),
            auth: AuthConfig::default(),
            logging: LoggingConfig::default(),
            static_config: StaticConfig::default(),
            metrics: MetricsCollectorConfig::default(),
        }
    }
}

// ---------------------------------------------------------------------------
// Environment overrides
// ---------------------------------------------------------------------------

/// The values of the `APP_*` environment variables, where set.
pub struct EnvOverrides {
    /// `APP_SERVER_HOST`
    pub server_host: Option<String>,
    /// `APP_SERVER_PORT`
    pub server_port: Option<String>,
    /// `APP_DATABASE_URL`
    pub database_url: Option<String>,
    /// `APP_JWT_SECRET`
    pub jwt_secret: Option<String>,
    /// `APP_JWT_EXPIRES_IN`
    pub jwt_expires_in: Option<String>,
    /// `APP_LOG_LEVEL`
    pub log_level: Option<String>,
    /// `APP_METRICS_INTERVAL_SECS`
    pub metrics_interval_secs: Option<String>,
    /// `APP_METRICS_RETENTION_DAYS`
    pub metrics_retention_days: Option<String>,
    /// `APP_METRICS_ENABLED`
    pub metrics_enabled: Option<String>,
}

impl EnvOverrides {
    /// No variable set.
    pub fn none() -> (e: Self)
        ensures
            e.server_host is None,
            e.server_port is None,
            e.database_url is None,
            e.jwt_secret is None,
            e.jwt_expires_in is None,
            e.log_level is None,
            e.metrics_interval_secs is None,
            e.metrics_retention_days is None,
            e.metrics_enabled is None,
    {
        EnvOverrides {
            server_host: None,
            server_port: None,
            database_url: None,
            jwt_secret: None,
            jwt_expires_in: None,
            log_level: None,
            metrics_interval_secs: None,
            metrics_retention_days: None,
            metrics_enabled: None,
        }
    }

    /// The duration and day-count values, where set, fit 64 bits.
    pub open spec fn fits(self) -> bool {
        &&& (self.metrics_interval_secs matches Some(s) ==> duration_fits(s@))
        &&& (self.metrics_retention_days matches Some(s) ==> days_fit(s@))
    }
}

/// Whether the environment's interval and retention, where set, fit 64 bits.
pub fn env_fits(env: &EnvOverrides) -> (b: bool)
    ensures
        b == env.fits(),
{
    let interval_ok = match &env.metrics_interval_secs {
        Some(t) => match duration_secs_value(t.as_str()) {
            Ok(v) => v <= 0xffff_ffff_ffff_ffffu128,
            Err(_) => true,
        },
        None => true,
    };
    let retention_ok = match &env.metrics_retention_days {
        Some(t) => match days_value(t.as_str()) {
            Ok(v) => v <= 0x7fff_ffff_ffff_ffffi128,
            Err(_) => true,
        },
        None => true,
    };
    interval_ok && retention_ok
}

/// A text setting: the variable's value when set.
pub open spec fn or_text(o: Option<String>, cur: Seq<char>) -> Seq<char> {
    match o {
        Some(v) => v@,
        None => cur,
    }
}

/// A parsed setting: the parsed value when set and valid, else the current value.
pub open spec fn or_parsed<T>(o: Option<String>, parse: spec_fn(Seq<char>) -> Option<T>, cur: T) -> T {
    match o {
        Some(v) => match parse(v@) {
            Some(x) => x,
            None => cur,
        },
        None => cur,
    }
}

/// The interval setting: the value when set and valid, else the current one.
pub open spec fn or_duration(o: Option<String>, cur: u64) -> u64 {
    match o {
        Some(v) => match spec_duration_secs(v@) {
            Ok(x) => x as u64,
            Err(_) => cur,
        },
        None => cur,
    }
}

/// The retention setting: the value when set and valid, else the current one.
pub open spec fn or_days(o: Option<String>, cur: i64) -> i64 {
    match o {
        Some(v) => match spec_days(v@) {
            Ok(x) => x as i64,
            Err(_) => cur,
        },
        None => cur,
    }
}

pub open spec fn u16_parser() -> spec_fn(Seq<char>) -> Option<u16> {
    |s: Seq<char>| spec_parse_u16(s)
}

pub open spec fn bool_parser() -> spec_fn(Seq<char>) -> Option<bool> {
    |s: Seq<char>| spec_parse_bool(s)
}

/// The configuration after the environment overrides: set text variables replace
/// their setting, set numeric and boolean variables replace theirs when they parse,
/// and the log file and static settings are not overridable.
pub open spec fn spec_apply_env(c: ConfigView, env: EnvOverrides) -> ConfigView {
    ConfigView {
        host: or_text(env.server_host, c.host),
        port: or_parsed(env.server_port, u16_parser(), c.port),
        database_url: or_text(env.database_url, c.database_url),
        jwt_secret: or_text(env.jwt_secret, c.jwt_secret),
        jwt_expires_in: or_text(env.jwt_expires_in, c.jwt_expires_in),
        log_level: or_text(env.log_level, c.log_level),
        log_file: c.log_file,
        static_enabled: c.static_enabled,
        web_root: c.web_root,
        interval_secs: or_duration(env.metrics_interval_secs, c.interval_secs),
        retention_days: or_days(env.metrics_retention_days, c.retention_days),
        metrics_enabled: or_parsed(env.metrics_enabled, bool_parser(), c.metrics_enabled),
    }
}

/// Why a configuration is refused.
#[derive(Clone, Copy, Debug, PartialEq, Eq, Structural)]
pub enum ConfigError {
    /// The server port is 0.
    ZeroPort,
    /// The database URL is empty.
    EmptyDatabaseUrl,
    /// The metrics interval is 0.
    ZeroInterval,
    /// The retention is not positive.
    NonPositiveRetention,
}

impl ConfigError {
    /// The message shown to the operator.
    pub open spec fn spec_message(self) -> Seq<char> {
        match self {
            ConfigError::ZeroPort => "Server port cannot be 0"@,
            ConfigError::EmptyDatabaseUrl => "Database URL cannot be empty"@,
            ConfigError::ZeroInterval => "metrics.interval_secs must be > 0"@,
            ConfigError::NonPositiveRetention => "metrics.retention_days must be > 0"@,
        }
    }

    /// The message shown to the operator.
    pub fn message(&self) -> (s: String)
        ensures
            s@ == self.spec_message(),
    {
        match self {
            ConfigError::ZeroPort => String::from_str("Server port cannot be 0"),
            ConfigError::EmptyDatabaseUrl => String::from_str("Database URL cannot be empty"),
            ConfigError::ZeroInterval => String::from_str("metrics.interval_secs must be > 0"),
            ConfigError::NonPositiveRetention => String::from_str(
                "metrics.retention_days must be > 0",
            ),
        }
    }
}

/// The first check a configuration fails, in the order port, database URL, interval,
/// retention; `Ok` when it passes them all.
pub open spec fn spec_validate(c: ConfigView) -> Result<(), ConfigError> {
    if c.port == 0 {
        Err(ConfigError::ZeroPort)
    } else if c.database_url.len() == 0 {
        Err(ConfigError::EmptyDatabaseUrl)
    } else if c.interval_secs == 0 {
        Err(ConfigError::ZeroInterval)
    } else if c.retention_days <= 0 {
        Err(ConfigError::NonPositiveRetention)
    } else {
        Ok(())
    }
}

fn clone_text(s: &String) -> (r: String)
    ensures
        r@ == s@,
{
    s.clone()
}

impl Config {
    /// Apply the environment overrides: text values replace their setting; numeric,
    /// duration and boolean values replace theirs only when they parse.
    pub fn apply_env_overrides(&mut self, env: &EnvOverrides)
        requires
            env.fits(),
        ensures
            final(self)@ == spec_apply_env(old(self)@, *env),
    {
        if let Some(host) = &env.server_host {
            self.server.host = clone_text(host);
        }
        if let Some(port) = &env.server_port {
            if let Some(p) = parse_u16_text(port.as_str()) {
                self.server.port = p;
            }
        }
        if let Some(url) = &env.database_url {
            self.database.url = clone_text(url);
        }
        if let Some(secret) = &env.jwt_secret {
            self.auth.jwt_secret = clone_text(secret);
        }
        if let Some(expires) = &env.jwt_expires_in {
            self.auth.jwt_expires_in = clone_text(expires);
        }
        if let Some(level) = &env.log_level {
            self.logging.level = clone_text(level);
        }
        if let Some(interval) = &env.metrics_interval_secs {
            if let Ok(v) = parse_duration_to_secs(interval.as_str()) {
                self.metrics.interval_secs = v;
            }
        }
        if let Some(retention) = &env.metrics_retention_days {
            if let Ok(v) = parse_days_to_i64(retention.as_str()) {
                self.metrics.retention_days = v;
            }
        }
        if let Some(enabled) = &env.metrics_enabled {
            if let Some(b) = parse_bool_text(enabled.as_str()) {
                self.metrics.enabled = b;
            }
        }
    }

    /// Check the configuration.
    pub fn validate(&self) -> (r: Result<(), ConfigError>)
        ensures
            r == spec_validate(self@),
    {
        if self.server.port == 0 {
            return Err(ConfigError::ZeroPort);
        }
        if self.database.url.as_str().unicode_len() == 0 {
            return Err(ConfigError::EmptyDatabaseUrl);
        }
        if self.metrics.interval_secs == 0 {
            return Err(ConfigError::ZeroInterval);
        }
        if self.metrics.retention_days <= 0 {
            return Err(ConfigError::NonPositiveRetention);
        }
        Ok(())
    }

    /// Whether the JWT secret is still the development default, which is insecure.
    pub fn uses_default_jwt_secret(&self) -> (b: bool)
        ensures
            b == (self@.jwt_secret == default_jwt_secret()),
    {
        str_eq(self.auth.jwt_secret.as_str(), "dev-secret-key-change-in-production")
    }

    /// The configuration a service runs with, when the environment's numbers fit 64
    /// bits (`None` when one does not: there the original overflows).
    pub fn load_checked(file_config: Option<Config>, env: &EnvOverrides) -> (r: Option<Result<Config, ConfigError>>)
        ensures
            r is Some <==> env.fits(),
            ({
                let base = match file_config {
                    Some(c) => c@,
                    None => default_config_view(),
                };
                let applied = spec_apply_env(base, *env);
                match r {
                    Some(Ok(c)) => c@ == applied && spec_validate(applied) is Ok,
                    Some(Err(e)) => spec_validate(applied) == Err::<(), ConfigError>(e),
                    None => true,
                }
            }),
    {
        if env_fits(env) {
            Some(Config::load(file_config, env))
        } else {
            None
        }
    }

    /// The configuration a service runs with: the file's settings (the defaults when
    /// there is no file), the environment overrides on top, then validated.
    pub fn load(file_config: Option<Config>, env: &EnvOverrides) -> (r: Result<Config, ConfigError>)
        requires
            env.fits(),
        ensures
            ({
                let base = match file_config {
                    Some(c) => c@,
                    None => default_config_view(),
                };
                let applied = spec_apply_env(base, *env);
                match r {
                    Ok(c) => c@ == applied && spec_validate(applied) is Ok,
                    Err(e) => spec_validate(applied) == Err::<(), ConfigError>(e),
                }
            }),
    {
        let mut config = match file_config {
            Some(c) => c,
            None => Config::default(),
        };
        config.apply_env_overrides(env);
        match config.validate() {
            Ok(()) => Ok(config),
            Err(e) => Err(e),
        }
    }
}

/// The overrides change nothing when no variable is set, and a validated
/// configuration has a usable port, database, interval and retention.
pub proof fn lemma_config_laws(c: ConfigView, env: EnvOverrides)
    ensures
        (env.server_host is None && env.server_port is None && env.database_url is None
            && env.jwt_secret is None && env.jwt_expires_in is None && env.log_level is None
            && env.metrics_interval_secs is None && env.metrics_retention_days is None
            && env.metrics_enabled is None) ==> spec_apply_env(c, env) == c,
        spec_validate(c) is Ok ==> c.port > 0 && c.database_url.len() > 0 && c.interval_secs > 0
            && c.retention_days > 0,
        spec_validate(default_config_view()) is Ok,
{
    reveal_strlit("sqlite://data/starrocks-admin.db");
}

} // verus!
