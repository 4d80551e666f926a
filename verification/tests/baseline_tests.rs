use starrocks_admin_backend::baseline::{
    audit_log_query, records_from_rows, records_for_table, records_of_complexity, sort_times, AuditLogRecord, BaselineCalculator,
    BaselineService, QueryComplexity,
};
use starrocks_admin_backend::baseline_cache::{
    decide_refresh, RefreshEvent, BaselineCacheManager, BaselineMap, BaselineProvider, BaselineRefreshConfig, BaselineSource,
    BaselineStats, PerformanceBaseline,
};
use starrocks_admin_backend::num::Dec;

fn record(id: i64, stmt: &str, time_ms: i64, state: &str) -> AuditLogRecord {
    AuditLogRecord {
        query_id: id.to_string(),
        user: "test".to_string(),
        db: "db1".to_string(),
        stmt: stmt.to_string(),
        query_type: "Query".to_string(),
        query_time_ms: time_ms,
        state: state.to_string(),
        timestamp: "2025-12-08 10:00:00".to_string(),
    }
}

fn ms(n: u64) -> Dec {
    Dec { mant: n, exp: 0 }
}

const SECOND: u128 = 1_000_000_000;

#[test]
fn test_baseline_service_creation() {
    let service = BaselineService::new();
    assert!(service.calculator().min_sample_size() >= 1);
}

#[test]
fn test_query_complexity_detection() {
    // Simple query
    let sql1 = "SELECT * FROM users WHERE id = 1";
    assert_eq!(QueryComplexity::from_sql(sql1), QueryComplexity::Simple);

    // Medium query
    let sql2 = "SELECT u.name, o.amount FROM users u JOIN orders o ON u.id = o.user_id";
    assert_eq!(QueryComplexity::from_sql(sql2), QueryComplexity::Medium);

    // Complex query
    let sql3 = r#"
            SELECT u.name, SUM(o.amount) OVER (PARTITION BY u.id) 
            FROM users u 
            JOIN orders o ON u.id = o.user_id
            JOIN products p ON o.product_id = p.id
            WHERE p.price > 100
        "#;
    assert_eq!(QueryComplexity::from_sql(sql3), QueryComplexity::Complex);

    // Very complex query
    let sql4 = r#"
            WITH sales AS (
                SELECT user_id, SUM(amount) as total FROM orders GROUP BY user_id
            )
            SELECT u.name, s.total, RANK() OVER (ORDER BY s.total DESC)
            FROM users u 
            JOIN sales s ON u.id = s.user_id
            JOIN (SELECT * FROM products WHERE active = 1) p ON true
            UNION
            SELECT name, 0, 0 FROM inactive_users
        "#;
    assert_eq!(QueryComplexity::from_sql(sql4), QueryComplexity::VeryComplex);
}

#[test]
fn complexity_is_case_insensitive_and_scored() {
    // one join (2) + union (2) = 4 -> medium; lower case keywords count too
    assert_eq!(
        QueryComplexity::from_sql("select a from t join u on t.id = u.id union select 1"),
        QueryComplexity::Medium
    );
    // a window function alone scores 3
    assert_eq!(QueryComplexity::from_sql("select rank() over(order by a) from t"), QueryComplexity::Medium);
    // two selects alone score 1
    assert_eq!(QueryComplexity::from_sql("select * from (select 1) t"), QueryComplexity::Simple);
    // one join alone scores 2
    assert_eq!(QueryComplexity::from_sql("select 1 from a join b"), QueryComplexity::Medium);
    // two joins and a window function score 7, three joins and a CTE score 8
    assert_eq!(QueryComplexity::from_sql("select rank() over(x) from a join b join c"), QueryComplexity::Complex);
    // six joins score 12
    assert_eq!(QueryComplexity::from_sql("select 1 from a join b join c join d join e join f join g"), QueryComplexity::VeryComplex);
    // eight joins score 16
    let many = "SELECT 1 FROM a JOIN b JOIN c JOIN d JOIN e JOIN f JOIN g JOIN h JOIN i";
    assert_eq!(QueryComplexity::from_sql(many), QueryComplexity::VeryComplex);
}

#[test]
fn test_baseline_calculation() {
    let calculator = BaselineCalculator::new();

    let records = vec![record(1, "SELECT * FROM t1", 100, "EOF")];

    // Not enough samples
    assert!(calculator.sample(&records).is_none());

    // Generate 50 samples
    let mut records = Vec::new();
    for i in 0..50 {
        records.push(record(i, "SELECT * FROM t1", 100 + i * 10, "EOF"));
    }

    let (complexity, times) = calculator.sample(&records).unwrap();
    assert_eq!(complexity, QueryComplexity::Simple);
    assert_eq!(times.len(), 50);
    let avg = times.iter().sum::<i64>() as f64 / times.len() as f64;
    assert!(avg > 0.0);
    let p50 = times[(times.len() as f64 * 0.5) as usize];
    let p95 = times[(times.len() as f64 * 0.95) as usize];
    assert!(p95 > p50);
}

#[test]
fn sample_keeps_only_successful_queries_sorted() {
    let calculator = BaselineCalculator::new();
    let mut records = Vec::new();
    for i in 0..40 {
        let state = if i % 4 == 0 { "ERR" } else if i % 2 == 0 { "OK" } else { "EOF" };
        records.push(record(i, "SELECT 1 FROM t JOIN u", 1000 - i * 7, state));
    }
    let (complexity, times) = calculator.sample(&records).unwrap();
    assert_eq!(complexity, QueryComplexity::Medium);
    assert_eq!(times.len(), 30);
    assert!(times.windows(2).all(|w| w[0] <= w[1]));
    assert!(!times.contains(&1000));

    // the first 38 records hold only 28 successful ones
    let fewer: Vec<AuditLogRecord> = records.iter().take(38).map(|r| r.copy()).collect();
    assert!(calculator.sample(&fewer).is_none());
    assert!(calculator.sample(&[]).is_none());
}

#[test]
fn sort_times_orders_and_keeps_duplicates() {
    let v = vec![5, -3, 5, 0, 12, -3];
    assert_eq!(sort_times(&v), vec![-3, -3, 0, 5, 5, 12]);
    assert_eq!(sort_times(&vec![]), Vec::<i64>::new());
}

#[test]
fn records_are_grouped_by_complexity_and_table() {
    let records = vec![
        record(1, "select * from orders", 10, "EOF"),
        record(2, "select * from a join b join c on x", 20, "EOF"),
        record(3, "SELECT * FROM Orders o JOIN items i", 30, "OK"),
    ];
    let simple = records_of_complexity(&records, QueryComplexity::Simple);
    assert_eq!(simple.iter().map(|r| r.query_id.clone()).collect::<Vec<_>>(), vec!["1"]);
    let medium = records_of_complexity(&records, QueryComplexity::Medium);
    assert_eq!(medium.iter().map(|r| r.query_id.clone()).collect::<Vec<_>>(), vec!["2", "3"]);
    assert!(records_of_complexity(&records, QueryComplexity::Complex).is_empty());

    let orders = records_for_table(&records, "ORDERS");
    assert_eq!(orders.iter().map(|r| r.query_id.clone()).collect::<Vec<_>>(), vec!["1", "3"]);
    assert!(records_for_table(&records, "missing").is_empty());
}

#[test]
fn test_default_baselines() {
    let baselines = BaselineCacheManager::default_baselines();

    // Should have all 4 complexity levels
    assert!(baselines.contains_key(QueryComplexity::Simple));
    assert!(baselines.contains_key(QueryComplexity::Medium));
    assert!(baselines.contains_key(QueryComplexity::Complex));
    assert!(baselines.contains_key(QueryComplexity::VeryComplex));

    // Simple should be faster than VeryComplex
    let simple = baselines.get(QueryComplexity::Simple).unwrap();
    let very_complex = baselines.get(QueryComplexity::VeryComplex).unwrap();
    assert_eq!(simple.stats.avg_ms, ms(2000));
    assert_eq!(very_complex.stats.avg_ms, ms(45000));
    assert!(simple.stats.avg_ms.mant < very_complex.stats.avg_ms.mant);
}

#[test]
fn test_cache_manager_fallback() {
    let manager = BaselineCacheManager::new();

    // Without cache data, should return defaults
    let baseline = manager.get_baseline(0, QueryComplexity::Medium);
    assert_eq!(baseline.sample_size, 0); // Default indicator
    assert!(baseline.stats.avg_ms.mant > 0);
    assert_eq!(baseline.stats.p95_ms, ms(10000));
}

#[test]
fn test_cache_update_and_read() {
    let mut manager = BaselineCacheManager::new();

    // Create custom baseline
    let mut baselines = BaselineMap::new();
    baselines.insert(
        QueryComplexity::Medium,
        PerformanceBaseline {
            complexity: QueryComplexity::Medium,
            stats: BaselineStats {
                avg_ms: ms(12345),
                p50_ms: ms(10000),
                p95_ms: ms(20000),
                p99_ms: ms(25000),
                max_ms: ms(30000),
                std_dev_ms: ms(5000),
            },
            sample_size: 100,
            time_range_hours: 168,
        },
    );

    // Update cache
    manager.update(baselines, BaselineSource::AuditLog, 10 * SECOND);

    // Read should return custom data
    let baseline = manager.get_baseline(11 * SECOND, QueryComplexity::Medium);
    assert_eq!(baseline.sample_size, 100);
    assert_eq!(baseline.stats.avg_ms, ms(12345));

    // A class the update did not provide still gets its default
    let simple = manager.get_baseline(11 * SECOND, QueryComplexity::Simple);
    assert_eq!(simple.sample_size, 0);
}

#[test]
fn test_cache_validity() {
    let mut manager = BaselineCacheManager::with_ttl(1); // 1 second TTL
    let start = 5 * SECOND;

    // Initially no cache
    assert!(!manager.has_valid_cache(start));

    // Update cache
    manager.update(BaselineMap::new(), BaselineSource::Default, start);
    assert!(manager.has_valid_cache(start));

    // Two seconds later the TTL has expired
    assert!(!manager.has_valid_cache(start + 2 * SECOND));
    // One nanosecond before the TTL it is still valid
    assert!(manager.has_valid_cache(start + SECOND - 1));
    assert!(!manager.has_valid_cache(start + SECOND));
}

#[test]
fn stale_cache_falls_back_to_defaults() {
    let mut manager = BaselineCacheManager::with_ttl(60);
    let mut m = BaselineMap::new();
    let mut b = BaselineCacheManager::default_baseline(QueryComplexity::Complex);
    b.sample_size = 77;
    m.insert(QueryComplexity::Complex, b);
    manager.update(m, BaselineSource::AuditLog, 0);
    assert_eq!(manager.get_baseline(59 * SECOND, QueryComplexity::Complex).sample_size, 77);
    assert_eq!(manager.get_baseline(61 * SECOND, QueryComplexity::Complex).sample_size, 0);
    manager.clear();
    assert_eq!(manager.get_source(), BaselineSource::Default);
    assert!(!manager.has_valid_cache(0));
}

#[test]
fn test_cache_source() {
    let mut manager = BaselineCacheManager::new();

    // Default source
    assert_eq!(manager.get_source(), BaselineSource::Default);

    // Update with audit log data
    manager.update(BaselineMap::new(), BaselineSource::AuditLog, 0);
    assert_eq!(manager.get_source(), BaselineSource::AuditLog);
}

#[test]
fn test_provider_fallback() {
    // Without initialization, should still work with defaults
    let baseline = BaselineProvider::get(None, 0, QueryComplexity::Simple);
    assert!(baseline.stats.avg_ms.mant > 0);
}

#[test]
fn test_default_baselines_initialized() {
    // Provider should work even without initialization
    let baseline = BaselineProvider::get(None, 0, QueryComplexity::Medium);
    assert!(baseline.stats.avg_ms.mant > 0);
}

#[test]
fn provider_reports_audit_data() {
    assert!(!BaselineProvider::has_audit_data(None));
    let mut m = BaselineProvider::init();
    assert!(!BaselineProvider::has_audit_data(Some(&m)));
    m.update(BaselineMap::new(), BaselineSource::AuditLog, 0);
    assert!(BaselineProvider::has_audit_data(Some(&m)));
    let short = BaselineProvider::init_with_ttl(5);
    assert!(!short.has_valid_cache(0));
}

#[test]
fn refresh_config_defaults() {
    let c = BaselineRefreshConfig::default();
    assert_eq!(c.refresh_interval_secs, 3600);
    assert_eq!(c.audit_log_hours, 168);
    assert_eq!(c.min_sample_size, 30);
    assert!(c.enable_logging);
}

#[test]
fn audit_rows_become_records() {
    let cols: Vec<String> = ["queryId", "user", "db", "stmt", "queryType", "query_time_ms", "state", "timestamp"]
        .iter().map(|s| s.to_string()).collect();
    let rows = vec![
        ["q1", "alice", "sales", "SELECT 1", "Query", "42", "EOF", "2025-01-01 00:00:00"]
            .iter().map(|s| s.to_string()).collect::<Vec<String>>(),
        vec!["q2".to_string(), "bob".to_string()],
        ["q3", "", "", "SELECT 2", "Insert", "n/a", "OK", "t"].iter().map(|s| s.to_string()).collect(),
    ];
    let recs = records_from_rows(&cols, &rows);
    assert_eq!(recs.len(), 3);
    assert_eq!(recs[0].query_id, "q1");
    assert_eq!(recs[0].query_time_ms, 42);
    assert_eq!(recs[0].state, "EOF");
    // a short row: missing cells take their defaults
    assert_eq!(recs[1].user, "bob");
    assert_eq!(recs[1].stmt, "");
    assert_eq!(recs[1].query_type, "Query");
    assert_eq!(recs[1].query_time_ms, 0);
    // a time that is not a number reads as 0
    assert_eq!(recs[2].query_type, "Insert");
    assert_eq!(recs[2].query_time_ms, 0);
}

#[test]
fn duplicate_columns_use_the_last() {
    let cols = vec!["state".to_string(), "state".to_string()];
    let rows = vec![vec!["EOF".to_string(), "OK".to_string()]];
    assert_eq!(records_from_rows(&cols, &rows)[0].state, "OK");
}

#[test]
fn audit_query_names_the_window() {
    let q = audit_log_query(168);
    assert!(q.contains("INTERVAL 168 HOUR"));
    assert!(q.contains("starrocks_audit_db__.starrocks_audit_tbl__"));
    assert!(q.ends_with("LIMIT 10000"));
}

#[test]
fn refresh_falls_back_to_defaults() {
    let d = decide_refresh(RefreshEvent::NoActiveCluster);
    assert!(d.install_defaults && d.result.is_ok());
    let d = decide_refresh(RefreshEvent::PoolUnavailable("timeout".to_string()));
    assert!(d.install_defaults);
    assert_eq!(d.result, Err("Failed to get MySQL pool: timeout".to_string()));
    let d = decide_refresh(RefreshEvent::Refreshed);
    assert!(!d.install_defaults && d.result.is_ok());
    let d = decide_refresh(RefreshEvent::RefreshFailed("no table".to_string()));
    assert!(!d.install_defaults);
    assert_eq!(d.result, Err("Baseline refresh failed: no table".to_string()));
}
