use starrocks_admin_backend::model::{Diagnostic, RuleSeverity};
use starrocks_admin_backend::root_cause::chains::RootCauseAnalyzer;

fn make_diag(rule_id: &str, node_path: &str, severity: RuleSeverity) -> Diagnostic {
    Diagnostic {
        rule_id: rule_id.to_string(),
        rule_name: format!("Rule {}", rule_id),
        severity,
        node_path: node_path.to_string(),
        plan_node_id: None,
        message: format!("Message for {}", rule_id),
        reason: format!("Reason for {}", rule_id),
        suggestions: vec![format!("Fix {}", rule_id)],
        parameter_suggestions: vec![],
    }
}

#[test]
fn test_intra_node_causality() {
    // S016 (small files) + S007 (IO bottleneck) in same SCAN node
    let diagnostics = vec![
        make_diag("S016", "Fragment_1/Pipeline_0/SCAN", RuleSeverity::Warning),
        make_diag("S007", "Fragment_1/Pipeline_0/SCAN", RuleSeverity::Error),
    ];

    let result = RootCauseAnalyzer::analyze(&diagnostics);

    // S016 should be identified as root cause, S007 as symptom
    assert!(!result.root_causes.is_empty());
    assert!(result.root_causes.iter().any(|rc| rc.diagnostic_ids.contains(&"S016".to_string())));
    assert!(result.causal_chains.iter().any(|cc| cc.chain.iter().any(|s| s.contains("S016") || s.contains("小文件"))));
}

#[test]
fn test_inter_node_propagation() {
    // S001 (data skew) in SCAN -> G003 (time skew) in JOIN
    let diagnostics = vec![
        make_diag("S001", "Fragment_1/Pipeline_0/SCAN", RuleSeverity::Warning),
        make_diag("G003", "Fragment_1/Pipeline_1/JOIN", RuleSeverity::Warning),
    ];

    let result = RootCauseAnalyzer::analyze(&diagnostics);

    // S001 should be root cause, G003 should be symptom
    assert!(!result.root_causes.is_empty());
    assert!(result.root_causes.iter().any(|rc| rc.diagnostic_ids.contains(&"S001".to_string())));
}

#[test]
fn test_multiple_root_causes() {
    // Two independent issues: S016 (small files) and J002 (bad join order)
    let diagnostics = vec![
        make_diag("S016", "Fragment_1/Pipeline_0/SCAN_1", RuleSeverity::Warning),
        make_diag("J002", "Fragment_1/Pipeline_1/JOIN", RuleSeverity::Warning),
    ];

    let result = RootCauseAnalyzer::analyze(&diagnostics);

    // Both should be identified as root causes (no causal relationship between them)
    assert_eq!(result.root_causes.len(), 2);
}

#[test]
fn no_diagnostics_no_root_causes() {
    let result = RootCauseAnalyzer::analyze(&[]);
    assert!(result.root_causes.is_empty());
    assert!(result.causal_chains.is_empty());
    assert_eq!(result.total_diagnostics, 0);
}

#[test]
fn root_causes_are_ranked_by_impact() {
    let diagnostics = vec![
        make_diag("S016", "Fragment_1/Pipeline_0/SCAN", RuleSeverity::Info),
        make_diag("J002", "Fragment_1/Pipeline_1/JOIN", RuleSeverity::Error),
        make_diag("A001", "Fragment_2/Pipeline_0/AGG", RuleSeverity::Warning),
    ];
    let result = RootCauseAnalyzer::analyze(&diagnostics);
    assert_eq!(result.total_diagnostics, 3);
    assert!(result.root_causes.windows(2).all(|w| w[0].impact_percentage >= w[1].impact_percentage));
    let mut ids: Vec<String> = result.root_causes.iter().map(|rc| rc.id.clone()).collect();
    for (rc, id) in result.root_causes.iter().zip(ids.iter()) {
        assert!(id.starts_with("RC") && id.len() == 5);
        assert!(rc.impact_percentage >= 15 && rc.impact_percentage <= 100);
    }
    ids.sort();
    ids.dedup();
    assert_eq!(ids.len(), result.root_causes.len());
}
