use starrocks_admin_backend::analysis::profile::analyze_profile;
use starrocks_admin_backend::analysis::{aggregate_diagnostics, severity_order, DiagnosticResult};
use starrocks_admin_backend::engine::RuleEngine;
use starrocks_admin_backend::hotspot::HotSpotDetector;
use starrocks_admin_backend::metrics::{parse_metric_value, parse_spill_bytes};
use starrocks_admin_backend::model::{
    get_parameter_default, get_parameter_metadata, Diagnostic, HotSeverity, HotSpot,
    ParameterSuggestion, RuleSeverity,
};
use starrocks_admin_backend::num::{format_fixed, Dec};
use starrocks_admin_backend::rules::format_duration_ms;
use starrocks_admin_backend::suggestion::SuggestionEngine;
use starrocks_admin_backend::tree::{
    ExecutionInfo, ExecutionTree, ExecutionTreeNode, Fragment, NodeType, Operator,
    OperatorMetrics, Pipeline, PlannerInfo, Profile, ProfileSummary,
};

fn node(operator: &str, plan: i32, pct: Option<Dec>, mem: Option<u64>) -> ExecutionTreeNode {
    let mut metrics = OperatorMetrics::empty();
    metrics.memory_usage = mem;
    ExecutionTreeNode {
        id: format!("n{}", plan),
        operator_name: operator.to_string(),
        node_type: NodeType::Unknown,
        plan_node_id: Some(plan),
        parent_plan_node_id: None,
        metrics,
        children: vec![],
        depth: 0,
        is_hotspot: false,
        hotspot_severity: HotSeverity::Normal,
        fragment_id: None,
        pipeline_id: None,
        time_percentage: pct,
        is_most_consuming: false,
        is_second_most_consuming: false,
        unique_metrics: vec![],
        has_diagnostic: false,
        diagnostic_ids: vec![],
    }
}

fn summary(total_time: &str) -> ProfileSummary {
    ProfileSummary {
        query_id: "q".to_string(),
        start_time: String::new(),
        end_time: String::new(),
        total_time: total_time.to_string(),
        query_state: String::new(),
        starrocks_version: String::new(),
        sql_statement: String::new(),
        query_type: None,
        user: None,
        default_db: None,
        variables: vec![],
        non_default_variables: vec![],
        query_allocated_memory: None,
        query_peak_memory: None,
        query_sum_memory_usage: None,
        query_deallocated_memory_usage: None,
        total_time_ms: None,
        query_cumulative_operator_time: None,
        query_cumulative_operator_time_ms: None,
        query_execution_wall_time: None,
        query_execution_wall_time_ms: None,
        query_cumulative_cpu_time: None,
        query_cumulative_cpu_time_ms: None,
        query_cumulative_scan_time: None,
        query_cumulative_scan_time_ms: None,
        query_cumulative_network_time: None,
        query_cumulative_network_time_ms: None,
        query_peak_schedule_time: None,
        query_peak_schedule_time_ms: None,
        result_deliver_time: None,
        result_deliver_time_ms: None,
        query_spill_bytes: None,
        top_time_consuming_nodes: None,
    }
}

fn profile(total_time: &str, nodes: Vec<ExecutionTreeNode>, fragments: Vec<Fragment>) -> Profile {
    let tree = if nodes.is_empty() { None } else { Some(ExecutionTree { root: nodes[0].clone(), nodes }) };
    Profile {
        summary: summary(total_time),
        planner: PlannerInfo { details: vec![] },
        execution: ExecutionInfo { topology: String::new(), metrics: vec![] },
        fragments,
        execution_tree: tree,
    }
}

fn hot(sev: HotSeverity, issue: &str, suggestions: &[&str]) -> HotSpot {
    HotSpot {
        node_path: "p".to_string(),
        severity: sev,
        issue_type: issue.to_string(),
        description: String::new(),
        suggestions: suggestions.iter().map(|s| s.to_string()).collect(),
    }
}

fn diag(rule: &str, name: &str, sev: RuleSeverity, path: &str, plan: Option<i32>, sugg: &[&str]) -> Diagnostic {
    Diagnostic {
        rule_id: rule.to_string(),
        rule_name: name.to_string(),
        severity: sev,
        node_path: path.to_string(),
        plan_node_id: plan,
        message: format!("{} message", rule),
        reason: format!("{} reason", rule),
        suggestions: sugg.iter().map(|s| s.to_string()).collect(),
        parameter_suggestions: vec![],
    }
}

#[test]
fn hotspots_of_a_tree_node() {
    let n = node("HASH_JOIN", 3, Some(Dec { mant: 55, exp: 0 }), Some(2 * 1024 * 1024 * 1024));
    let hs = HotSpotDetector::analyze_execution_tree_node(&n);
    assert_eq!(hs.len(), 2);
    assert_eq!(hs[0].node_path, "HASH_JOIN (plan_node_id=3)");
    assert_eq!(hs[0].severity, HotSeverity::Severe);
    assert_eq!(hs[0].issue_type, "HighTimeCost");
    assert_eq!(hs[0].description, "算子 HASH_JOIN 占用 55.0% 的执行时间");
    assert_eq!(hs[0].suggestions[0], "检查JOIN顺序是否最优");
    assert_eq!(hs[1].severity, HotSeverity::Moderate);
    assert_eq!(hs[1].issue_type, "HighMemoryUsage");
    assert_eq!(hs[1].description, "算子 HASH_JOIN 内存使用过高: 2.00 GB");

    let mild = node("OLAP_SCAN", 1, Some(Dec { mant: 305, exp: 1 }), Some(1024 * 1024 * 1024));
    let hs = HotSpotDetector::analyze_execution_tree_node(&mild);
    assert_eq!(hs.len(), 1);
    assert_eq!(hs[0].severity, HotSeverity::Moderate);
    assert_eq!(hs[0].suggestions[0], "检查是否可以添加过滤条件减少扫描数据量");
    assert!(HotSpotDetector::analyze_execution_tree_node(&node("X", 0, Some(Dec { mant: 30, exp: 0 }), None)).is_empty());
}

#[test]
fn long_queries_lead_the_hotspots() {
    let p = profile("2h", vec![node("EXCHANGE", 2, Some(Dec { mant: 35, exp: 0 }), None)], vec![]);
    let hs = HotSpotDetector::analyze(&p);
    assert_eq!(hs.len(), 2);
    assert_eq!(hs[0].issue_type, "LongRunning");
    assert_eq!(hs[0].severity, HotSeverity::Severe);
    assert_eq!(hs[0].description, "查询总执行时间过长: 7200.0s");
    assert_eq!(hs[1].suggestions[0], "检查数据分布是否均匀");
}

#[test]
fn fragments_are_analysed_without_a_tree() {
    let op = Operator {
        name: "OLAP_SCAN".to_string(),
        plan_node_id: None,
        operator_id: None,
        common_metrics: vec![("OperatorTotalTime".to_string(), "6m".to_string())],
        unique_metrics: vec![],
    };
    let frag = Fragment {
        id: "1".to_string(),
        backend_addresses: vec![],
        instance_ids: vec![],
        pipelines: vec![Pipeline { id: "0".to_string(), metrics: vec![], operators: vec![op] }],
    };
    let p = profile("1s", vec![], vec![frag]);
    let hs = HotSpotDetector::analyze(&p);
    assert_eq!(hs.len(), 1);
    assert_eq!(hs[0].node_path, "Fragment1.Pipeline0.OLAP_SCAN");
    assert_eq!(hs[0].description, "算子 OLAP_SCAN 耗时过高: 360.0s");
}

#[test]
fn hotspot_suggestions_and_score() {
    let hs = vec![
        hot(HotSeverity::Severe, "HighTimeCost", &["a", "b"]),
        hot(HotSeverity::Moderate, "HighMemoryUsage", &["b", "c"]),
    ];
    let s = SuggestionEngine::generate_suggestions(&hs);
    assert_eq!(s.len(), 6);
    assert_eq!(&s[..3], &["a".to_string(), "b".to_string(), "c".to_string()]);
    assert_eq!(s[3], "考虑启用查询缓存以提高重复查询的性能");

    let p = profile("40m", vec![], vec![]);
    assert_eq!(SuggestionEngine::calculate_performance_score(&hs, &p), 67);
    assert_eq!(
        SuggestionEngine::generate_conclusion(&hs, &p),
        "查询存在1个严重性能问题，执行时间较长（40分钟）。主要问题是HighTimeCost。建议优先解决严重问题。"
    );
    assert_eq!(SuggestionEngine::generate_conclusion(&[], &p), "查询执行良好，未发现明显性能问题。");
    let many: Vec<HotSpot> = (0..8).map(|_| hot(HotSeverity::Critical, "X", &[])).collect();
    assert_eq!(SuggestionEngine::calculate_performance_score(&many, &p), 0);
}

#[test]
fn engine_reports_on_diagnostics() {
    let ds = vec![
        diag("J002", "Join 顺序", RuleSeverity::Error, "a", Some(1), &["x", "y"]),
        diag("S001", "倾斜", RuleSeverity::Warning, "b", Some(2), &["y", "z"]),
        diag("G003", "执行倾斜", RuleSeverity::Info, "c", None, &[]),
    ];
    assert_eq!(RuleEngine::generate_suggestions(&ds), vec!["x", "y", "z"]);
    let p = profile("1h30m", vec![], vec![]);
    // 100 - 20 - 10 - 3 - 20 (over an hour)
    assert_eq!(RuleEngine::calculate_performance_score(&ds, &p), 47);
    assert_eq!(
        RuleEngine::generate_conclusion(&ds, &p),
        "查询存在1个严重性能问题，执行时间较长（1.5小时）。主要问题是Join 顺序。建议优先解决严重问题。"
    );
    let warnings = vec![
        diag("S001", "a", RuleSeverity::Warning, "a", None, &[]),
        diag("S002", "b", RuleSeverity::Warning, "b", None, &[]),
        diag("S003", "c", RuleSeverity::Warning, "c", None, &[]),
    ];
    assert_eq!(
        RuleEngine::generate_conclusion(&warnings, &profile("45s", vec![], vec![])),
        "查询存在3个中等程度性能问题，整体性能需优化。执行时间45.0秒。"
    );
    assert_eq!(
        RuleEngine::generate_conclusion(&warnings[..1], &profile("10m", vec![], vec![])),
        "查询执行时间较长（10分钟），建议关注性能热点。"
    );
    assert_eq!(
        RuleEngine::generate_conclusion(&warnings[..2], &profile("1s", vec![], vec![])),
        "查询发现2个小问题，整体性能可接受。"
    );
}

#[test]
fn diagnostics_are_aggregated_by_rule() {
    let ds = vec![
        diag("S001", "倾斜", RuleSeverity::Warning, "scan1", Some(1), &["s"]),
        diag("J002", "Join", RuleSeverity::Error, "join", Some(2), &["j"]),
        diag("S001", "倾斜", RuleSeverity::Warning, "scan2", Some(3), &["s"]),
    ];
    let results: Vec<DiagnosticResult> = ds.iter().map(DiagnosticResult::from_diagnostic).collect();
    assert_eq!(results[0].severity, "Warning");
    let agg = aggregate_diagnostics(&results);
    assert_eq!(agg.len(), 2);
    assert_eq!(agg[0].rule_id, "J002");
    assert_eq!(agg[1].rule_id, "S001");
    assert_eq!(agg[1].node_count, 2);
    assert_eq!(agg[1].affected_nodes, vec!["scan1", "scan2"]);
    assert_eq!((severity_order("Error"), severity_order("Warning"), severity_order("Info"), severity_order("x")), (3, 2, 1, 0));
}

#[test]
fn a_profile_is_analysed_end_to_end() {
    let mut s_node = node("OLAP_SCAN", 0, Some(Dec { mant: 80, exp: 0 }), Some(30 * 1024 * 1024 * 1024));
    s_node.is_most_consuming = true;
    let mut p = profile("2m", vec![s_node], vec![]);
    p.summary.total_time_ms = Some(Dec { mant: 120000, exp: 0 });
    let r = analyze_profile(p, "text");
    assert!(!r.diagnostics.is_empty());
    assert!(r.performance_score <= 100);
    assert!(r.diagnostics.iter().any(|d| d.rule_id == "G001"));
    assert!(r.node_diagnostics.iter().any(|(id, ds)| *id == 0 && !ds.is_empty()));
    let tree = r.execution_tree.unwrap();
    assert!(tree.nodes[0].has_diagnostic);
    assert!(tree.nodes[0].diagnostic_ids.contains(&"G001".to_string()));
    let mut ids: Vec<&String> = r.suggestions.iter().collect();
    let before = ids.len();
    ids.sort();
    ids.dedup();
    assert_eq!(ids.len(), before);
}

#[test]
fn value_helpers() {
    assert_eq!(format_duration_ms(Dec { mant: 1500, exp: 0 }), "1.50s");
    assert_eq!(parse_metric_value("12.5%"), Some(Dec { mant: 125, exp: 1 }));
    assert_eq!(parse_metric_value("2 KB"), Some(Dec { mant: 2048, exp: 0 }));
    assert_eq!(parse_spill_bytes("1.000 GB"), Some(1024 * 1024 * 1024));
    assert_eq!(format_fixed(1, 3, 2), "0.33");
    assert_eq!(get_parameter_default("enable_spill"), Some("false".to_string()));
    assert_eq!(get_parameter_default("no_such_parameter"), None);
    let m = get_parameter_metadata("enable_spill");
    assert!(!m.description.is_empty());
    let p = ParameterSuggestion::session("enable_spill", "true");
    assert_eq!(p.command, "SET enable_spill = true;");
}
