//! The baseline cache: baselines by complexity class, valid for a time-to-live, with
//! conservative defaults whenever the cache is empty, stale, or lacks a class.
//!
//! Time is passed in explicitly as nanoseconds on a monotonic clock, so each decision
//! is a function of the cache state and the moment it is asked at.
use vstd::prelude::*;
use crate::num::Dec;
use crate::baseline::QueryComplexity;
use crate::metrics::push_str;
use vstd::string::*;

verus! {

/// Statistics of query times, in milliseconds.
#[derive(Clone, Copy, Debug)]
pub struct BaselineStats {
    pub avg_ms: Dec,
    pub p50_ms: Dec,
    pub p95_ms: Dec,
    pub p99_ms: Dec,
    pub max_ms: Dec,
    pub std_dev_ms: Dec,
}

/// The baseline of one complexity class.
#[derive(Clone, Copy, Debug)]
pub struct PerformanceBaseline {
    pub complexity: QueryComplexity,
    pub stats: BaselineStats,
    /// Number of historical queries; 0 marks a default baseline.
    pub sample_size: usize,
    pub time_range_hours: u32,
}

/// Where cached baselines came from.
#[derive(Clone, Copy, Debug, PartialEq, Eq, Structural)]
pub enum BaselineSource {
    /// Historical data from the audit log.
    AuditLog,
    /// The built-in defaults.
    Default,
    /// The configuration file.
    Config,
}

/// Baselines keyed by complexity class: at most one per class.
#[derive(Clone, Copy, Debug)]
pub struct BaselineMap {
    pub simple: Option<PerformanceBaseline>,
    pub medium: Option<PerformanceBaseline>,
    pub complex: Option<PerformanceBaseline>,
    pub very_complex: Option<PerformanceBaseline>,
}

impl BaselineMap {
    /// The entry of one class.
    pub open spec fn slot(self, c: QueryComplexity) -> Option<PerformanceBaseline> {
        match c {
            QueryComplexity::Simple => self.simple,
            QueryComplexity::Medium => self.medium,
            QueryComplexity::Complex => self.complex,
            QueryComplexity::VeryComplex => self.very_complex,
        }
    }

    /// An empty map.
    pub fn new() -> (m: Self)
        ensures
            forall|c: QueryComplexity| m.slot(c) is None,
    {
        BaselineMap { simple: None, medium: None, complex: None, very_complex: None }
    }

    /// The baseline of a class, if present.
    pub fn get(&self, c: QueryComplexity) -> (r: Option<PerformanceBaseline>)
        ensures
            r == self.slot(c),
    {
        match c {
            QueryComplexity::Simple => self.simple,
            QueryComplexity::Medium => self.medium,
            QueryComplexity::Complex => self.complex,
            QueryComplexity::VeryComplex => self.very_complex,
        }
    }

    /// Whether a class has a baseline.
    pub fn contains_key(&self, c: QueryComplexity) -> (b: bool)
        ensures
            b == self.slot(c) is Some,
    {
        self.get(c).is_some()
    }

    /// Put the baseline of a class, replacing any earlier one.
    pub fn insert(&mut self, c: QueryComplexity, b: PerformanceBaseline)
        ensures
            final(self).slot(c) == Some(b),
            forall|d: QueryComplexity| d != c ==> final(self).slot(d) == old(self).slot(d),
    {
        match c {
            QueryComplexity::Simple => { self.simple = Some(b); },
            QueryComplexity::Medium => { self.medium = Some(b); },
            QueryComplexity::Complex => { self.complex = Some(b); },
            QueryComplexity::VeryComplex => { self.very_complex = Some(b); },
        }
    }
}

/// Nanoseconds in a second.
pub const NANOS_PER_SEC: u128 = 1_000_000_000;

/// Cached baselines with the moment they were stored and their time-to-live.
#[derive(Clone, Copy, Debug)]
pub struct CachedBaseline {
    pub baselines: BaselineMap,
    /// When the cache was filled (nanoseconds on the monotonic clock).
    pub created_at: u128,
    /// Time-to-live in seconds.
    pub ttl_secs: u64,
    pub source: BaselineSource,
}

/// Time elapsed since `created` at `now`; zero when the clock reads earlier.
pub open spec fn elapsed(created: u128, now: u128) -> nat {
    if now >= created {
        (now - created) as nat
    } else {
        0
    }
}

impl CachedBaseline {
    /// Still within its time-to-live at `now`.
    pub open spec fn valid_at(self, now: u128) -> bool {
        elapsed(self.created_at, now) < self.ttl_secs * 1_000_000_000
    }

    /// Whether the cache is still valid at `now`.
    pub fn is_valid(&self, now: u128) -> (b: bool)
        ensures
            b == self.valid_at(now),
    {
        let el: u128 = if now >= self.created_at {
            now - self.created_at
        } else {
            0
        };
        el < (self.ttl_secs as u128) * NANOS_PER_SEC
    }

    /// The baseline of a class, if cached.
    pub fn get(&self, c: QueryComplexity) -> (r: Option<PerformanceBaseline>)
        ensures
            r == self.baselines.slot(c),
    {
        self.baselines.get(c)
    }
}

/// A millisecond quantity.
pub open spec fn ms(n: u64) -> Dec {
    Dec { mant: n, exp: 0 }
}

/// The default statistics of a class: conservative figures for when no history is
/// available (simple queries finish within seconds, very complex ones may take minutes).
pub open spec fn default_stats(c: QueryComplexity) -> BaselineStats {
    match c {
        QueryComplexity::Simple => BaselineStats {
            avg_ms: ms(2000),
            p50_ms: ms(1500),
            p95_ms: ms(4000),
            p99_ms: ms(6000),
            max_ms: ms(10000),
            std_dev_ms: ms(1000),
        },
        QueryComplexity::Medium => BaselineStats {
            avg_ms: ms(5000),
            p50_ms: ms(4000),
            p95_ms: ms(10000),
            p99_ms: ms(15000),
            max_ms: ms(30000),
            std_dev_ms: ms(3000),
        },
        QueryComplexity::Complex => BaselineStats {
            avg_ms: ms(15000),
            p50_ms: ms(12000),
            p95_ms: ms(30000),
            p99_ms: ms(45000),
            max_ms: ms(90000),
            std_dev_ms: ms(8000),
        },
        QueryComplexity::VeryComplex => BaselineStats {
            avg_ms: ms(45000),
            p50_ms: ms(35000),
            p95_ms: ms(90000),
            p99_ms: ms(120000),
            max_ms: ms(300000),
            std_dev_ms: ms(20000),
        },
    }
}

/// The default baseline of a class: default statistics, sample size and time range 0.
pub open spec fn spec_default_baseline(c: QueryComplexity) -> PerformanceBaseline {
    PerformanceBaseline { complexity: c, stats: default_stats(c), sample_size: 0, time_range_hours: 0 }
}

/// Baseline cache with a time-to-live and fallback to defaults.
pub struct BaselineCacheManager {
    cache: Option<CachedBaseline>,
    default_ttl_secs: u64,
}

impl BaselineCacheManager {
    /// The cached data, if any.
    pub closed spec fn cached(self) -> Option<CachedBaseline> {
        self.cache
    }

    /// The time-to-live given to new cache contents, in seconds.
    pub closed spec fn ttl(self) -> u64 {
        self.default_ttl_secs
    }

    /// The baseline a class gets at `now`: the cached one while the cache is valid and
    /// holds the class, else the default.
    pub open spec fn baseline_at(self, now: u128, c: QueryComplexity) -> PerformanceBaseline {
        match self.cached() {
            Some(cb) => if cb.valid_at(now) && cb.baselines.slot(c) is Some {
                cb.baselines.slot(c).unwrap()
            } else {
                spec_default_baseline(c)
            },
            None => spec_default_baseline(c),
        }
    }

    /// The source of the cached data; `Default` when nothing is cached.
    pub open spec fn source(self) -> BaselineSource {
        match self.cached() {
            Some(cb) => cb.source,
            None => BaselineSource::Default,
        }
    }

    /// An empty cache whose contents live one hour.
    pub fn new() -> (m: Self)
        ensures
            m.cached() is None,
            m.ttl() == 3600,
    {
        BaselineCacheManager { cache: None, default_ttl_secs: 3600 }
    }

    /// An empty cache whose contents live `ttl_seconds`.
    pub fn with_ttl(ttl_seconds: u64) -> (m: Self)
        ensures
            m.cached() is None,
            m.ttl() == ttl_seconds,
    {
        BaselineCacheManager { cache: None, default_ttl_secs: ttl_seconds }
    }

    /// The baseline for a class at `now`; never fails.
    pub fn get_baseline(&self, now: u128, complexity: QueryComplexity) -> (r: PerformanceBaseline)
        ensures
            r == self.baseline_at(now, complexity),
    {
        if let Some(cached) = &self.cache {
            if cached.is_valid(now) {
                if let Some(b) = cached.get(complexity) {
                    return b;
                }
            }
        }
        Self::default_baseline(complexity)
    }

    /// Whether the cache holds data that is still valid at `now`.
    pub fn has_valid_cache(&self, now: u128) -> (b: bool)
        ensures
            b == (self.cached() matches Some(cb) && cb.valid_at(now)),
    {
        match &self.cache {
            Some(c) => c.is_valid(now),
            None => false,
        }
    }

    /// Where the cached data came from.
    pub fn get_source(&self) -> (s: BaselineSource)
        ensures
            s == self.source(),
    {
        match &self.cache {
            Some(c) => c.source,
            None => BaselineSource::Default,
        }
    }

    /// Replace the cache contents, stamped with `now` and the cache's time-to-live.
    pub fn update(&mut self, baselines: BaselineMap, source: BaselineSource, now: u128)
        ensures
            final(self).cached() == (Some(
                CachedBaseline { baselines, created_at: now, ttl_secs: old(self).ttl(), source },
            )),
            final(self).ttl() == old(self).ttl(),
    {
        self.cache = Some(
            CachedBaseline { baselines, created_at: now, ttl_secs: self.default_ttl_secs, source },
        );
    }

    /// Drop the cache contents.
    pub fn clear(&mut self)
        ensures
            final(self).cached() is None,
            final(self).ttl() == old(self).ttl(),
    {
        self.cache = None;
    }

    /// The default baseline of a class.
    pub fn default_baseline(complexity: QueryComplexity) -> (r: PerformanceBaseline)
        ensures
            r == spec_default_baseline(complexity),
    {
        let (avg, p50, p95, p99, max, sd): (u64, u64, u64, u64, u64, u64) = match complexity {
            QueryComplexity::Simple => (2000, 1500, 4000, 6000, 10000, 1000),
            QueryComplexity::Medium => (5000, 4000, 10000, 15000, 30000, 3000),
            QueryComplexity::Complex => (15000, 12000, 30000, 45000, 90000, 8000),
            QueryComplexity::VeryComplex => (45000, 35000, 90000, 120000, 300000, 20000),
        };
        PerformanceBaseline {
            complexity,
            stats: BaselineStats {
                avg_ms: Dec { mant: avg, exp: 0 },
                p50_ms: Dec { mant: p50, exp: 0 },
                p95_ms: Dec { mant: p95, exp: 0 },
                p99_ms: Dec { mant: p99, exp: 0 },
                max_ms: Dec { mant: max, exp: 0 },
                std_dev_ms: Dec { mant: sd, exp: 0 },
            },
            sample_size: 0,
            time_range_hours: 0,
        }
    }

    /// The default baselines of all four classes.
    pub fn default_baselines() -> (m: BaselineMap)
        ensures
            forall|c: QueryComplexity| m.slot(c) == Some(spec_default_baseline(c)),
    {
        let mut m = BaselineMap::new();
        m.insert(QueryComplexity::Simple, Self::default_baseline(QueryComplexity::Simple));
        m.insert(QueryComplexity::Medium, Self::default_baseline(QueryComplexity::Medium));
        m.insert(QueryComplexity::Complex, Self::default_baseline(QueryComplexity::Complex));
        m.insert(
            QueryComplexity::VeryComplex,
            Self::default_baseline(QueryComplexity::VeryComplex),
        );
        assert forall|c: QueryComplexity| m.slot(c) == Some(spec_default_baseline(c)) by {
            match c {
                QueryComplexity::Simple => {},
                QueryComplexity::Medium => {},
                QueryComplexity::Complex => {},
                QueryComplexity::VeryComplex => {},
            }
        }
        m
    }
}

impl Default for BaselineCacheManager {
    fn default() -> (m: Self)
        ensures
            m.cached() is None,
            m.ttl() == 3600,
    {
        BaselineCacheManager::new()
    }
}

/// Entry point to the process-wide baseline cache. The cache itself is installed once
/// at start-up by the caller; these functions decide what is installed and read.
pub struct BaselineProvider;

impl BaselineProvider {
    /// The cache to install at start-up: empty, one hour time-to-live.
    pub fn init() -> (m: BaselineCacheManager)
        ensures
            m.cached() is None,
            m.ttl() == 3600,
    {
        BaselineCacheManager::new()
    }

    /// The cache to install at start-up with a custom time-to-live.
    pub fn init_with_ttl(ttl_seconds: u64) -> (m: BaselineCacheManager)
        ensures
            m.cached() is None,
            m.ttl() == ttl_seconds,
    {
        BaselineCacheManager::with_ttl(ttl_seconds)
    }

    /// The baseline of a class: from the installed cache, or the default when no
    /// cache is installed.
    pub fn get(global: Option<&BaselineCacheManager>, now: u128, complexity: QueryComplexity) -> (r:
        PerformanceBaseline)
        ensures
            r == match global {
                Some(m) => m.baseline_at(now, complexity),
                None => spec_default_baseline(complexity),
            },
    {
        match global {
            Some(m) => m.get_baseline(now, complexity),
            None => BaselineCacheManager::default_baseline(complexity),
        }
    }

    /// Whether the installed cache holds audit-log data.
    pub fn has_audit_data(global: Option<&BaselineCacheManager>) -> (b: bool)
        ensures
            b == (global matches Some(m) && m.source() == BaselineSource::AuditLog),
    {
        match global {
            Some(m) => m.get_source() == BaselineSource::AuditLog,
            None => false,
        }
    }
}

/// Settings of the periodic baseline refresh.
#[derive(Clone, Copy, Debug)]
pub struct BaselineRefreshConfig {
    /// Seconds between refreshes.
    pub refresh_interval_secs: u64,
    /// Hours of audit log analysed.
    pub audit_log_hours: u32,
    /// Fewest queries a baseline is computed from.
    pub min_sample_size: usize,
    /// Whether refreshes are logged.
    pub enable_logging: bool,
}

impl Default for BaselineRefreshConfig {
    fn default() -> (c: Self)
        ensures
            c.refresh_interval_secs == 3600,
            c.audit_log_hours == 168,
            c.min_sample_size == 30,
            c.enable_logging,
    {
        BaselineRefreshConfig {
            refresh_interval_secs: 3600,
            audit_log_hours: 168,
            min_sample_size: 30,
            enable_logging: true,
        }
    }
}

/// Reading a class after storing it, while the cache is valid, gives what was stored;
/// a class the stored map lacks, a stale cache or an empty one give the default.
pub proof fn lemma_cache_read_after_update(
    m: BaselineCacheManager,
    baselines: BaselineMap,
    source: BaselineSource,
    stored_at: u128,
    now: u128,
    c: QueryComplexity,
)
    ensures
        ({
            let cb = CachedBaseline { baselines, created_at: stored_at, ttl_secs: m.ttl(), source };
            let after = m.cached() == Some(cb);
            after ==> (cb.valid_at(now) && baselines.slot(c) is Some ==> m.baseline_at(now, c)
                == baselines.slot(c).unwrap())
                && (!cb.valid_at(now) || baselines.slot(c) is None ==> m.baseline_at(now, c)
                == spec_default_baseline(c))
        }),
        m.cached() is None ==> m.baseline_at(now, c) == spec_default_baseline(c)
            && m.source() == BaselineSource::Default,
{
}

/// Data stored with a positive time-to-live is valid at the moment it is stored.
pub proof fn lemma_fresh_cache_valid(cb: CachedBaseline)
    requires
        cb.ttl_secs > 0,
    ensures
        cb.valid_at(cb.created_at),
{
}


/// What a periodic refresh ran into.
pub enum RefreshEvent {
    /// No cluster is active.
    NoActiveCluster,
    /// The cluster's connection pool could not be had; the text describes why.
    PoolUnavailable(String),
    /// The baselines were recomputed from the audit log.
    Refreshed,
    /// Recomputing failed; the text describes why.
    RefreshFailed(String),
}

/// What a refresh does about it: whether the default baselines are installed, and
/// the refresh's result.
pub struct RefreshDecision {
    pub install_defaults: bool,
    pub result: Result<(), String>,
}

/// The decision for an event: without an active cluster the defaults are installed
/// and the refresh succeeds; without a pool the defaults are installed and the
/// refresh fails; a failed recomputation fails the refresh.
pub open spec fn spec_refresh_decision(e: RefreshEvent) -> (bool, Result<(), Seq<char>>) {
    match e {
        RefreshEvent::NoActiveCluster => (true, Ok(())),
        RefreshEvent::PoolUnavailable(m) => (true, Err("Failed to get MySQL pool: "@ + m@)),
        RefreshEvent::Refreshed => (false, Ok(())),
        RefreshEvent::RefreshFailed(m) => (false, Err("Baseline refresh failed: "@ + m@)),
    }
}

/// Decide what a refresh does after an event.
pub fn decide_refresh(e: RefreshEvent) -> (d: RefreshDecision)
    ensures
        ({
            let (defaults, result) = spec_refresh_decision(e);
            &&& d.install_defaults == defaults
            &&& match (d.result, result) {
                (Ok(()), Ok(())) => true,
                (Err(m), Err(n)) => m@ == n,
                _ => false,
            }
        }),
{
    match e {
        RefreshEvent::NoActiveCluster => RefreshDecision { install_defaults: true, result: Ok(()) },
        RefreshEvent::PoolUnavailable(m) => {
            let mut t = String::from_str("Failed to get MySQL pool: ");
            push_str(&mut t, m.as_str());
            RefreshDecision { install_defaults: true, result: Err(t) }
        },
        RefreshEvent::Refreshed => RefreshDecision { install_defaults: false, result: Ok(()) },
        RefreshEvent::RefreshFailed(m) => {
            let mut t = String::from_str("Baseline refresh failed: ");
            push_str(&mut t, m.as_str());
            RefreshDecision { install_defaults: false, result: Err(t) }
        },
    }
}

} // verus!
