//! Rules for aggregation operators (A001-A005).
use vstd::prelude::*;
use crate::num::{Dec, lin_gt, lin_gt_exec};
use crate::metrics::{push_str, spec_format_bytes, format_bytes};
use crate::model::{Diagnostic, DiagnosticView, ParameterSuggestion, ParameterType, RuleSeverity,
    spec_suggestion, vlit, vparams};
use crate::tree::ExecutionTreeNode;
use crate::rules::{
    DiagnosticRule, RuleContext, node_diag, make_diag, param, fmt_val, fmt_q, format_val,
    format_quot, spec_get_metric, or_dec, first_dec, opt_int, opt_int_exec, dint, dec_floor,
    floor_u64, skew_gt, skew_gt_exec, fmt_skew, format_skew, fmt_pct_left, format_pct_left,
    spec_operator_time_ms, name_has, upper_name_contains,
};

verus! {

/// A001: the slowest aggregation instance takes more than twice the average time.
pub struct A001AggregationSkew;

/// The diagnostic A001 reports on `node`, if any.
pub open spec fn spec_a001(node: ExecutionTreeNode) -> Option<DiagnosticView> {
match node.metrics.operator_total_time_max { None => None, Some(max_time) => {
match node.metrics.operator_total_time { None => None, Some(avg_time) => {
if avg_time == 0 { None } else if max_time > 2 * avg_time { Some(node_diag("A001"@, "聚合数据倾斜"@, RuleSeverity::Warning, node, Seq::<char>::empty() + "聚合存在数据倾斜，max/avg 比率为 "@ + fmt_q(Dec { mant: max_time, exp: 0 }, 1, Dec { mant: avg_time, exp: 0 }, 1, 2), ""@, seq!["检查 GROUP BY 键的数据分布"@, "考虑使用两阶段聚合"@, "检查是否存在热点键"@], seq![])) } else { None } } } } }
}

impl DiagnosticRule for A001AggregationSkew {
    fn id(&self) -> (r: &'static str)
        ensures
            r@ == "A001"@,
    {
        "A001"
    }

    fn name(&self) -> (r: &'static str)
        ensures
            r@ == "聚合数据倾斜"@,
    {
        "聚合数据倾斜"
    }

    fn applicable_to(&self, node: &ExecutionTreeNode) -> (b: bool)
        ensures
            b == (name_has(*node, "AGG"@)),
    {
        upper_name_contains(node, "AGG")
    }

    fn evaluate(&self, context: &RuleContext) -> (r: Option<Diagnostic>)
        ensures
            r is Some == spec_a001(*context.node) is Some,
            r matches Some(d) ==> Some(d@) == spec_a001(*context.node),
    {
        let node = context.node;
        let max_time = match node.metrics.operator_total_time_max { Some(v) => v, None => { return None; } };
        let avg_time = match node.metrics.operator_total_time { Some(v) => v, None => { return None; } };
        if avg_time == 0 { return None; }
        if (max_time as u128) > 2 * (avg_time as u128) {
        let mut msg = String::new();
        push_str(&mut msg, "聚合存在数据倾斜，max/avg 比率为 ");
        { let t = format_quot(Dec { mant: max_time, exp: 0 }, 1, Dec { mant: avg_time, exp: 0 }, 1, 2); push_str(&mut msg, t.as_str()); }
        let mut ps: Vec<ParameterSuggestion> = Vec::new();
        proof { assert(vparams(ps@) =~= seq![]); }
        let sl: [&str; 3] = ["检查 GROUP BY 键的数据分布", "考虑使用两阶段聚合", "检查是否存在热点键"];
        proof { assert(vlit(sl@) =~= seq!["检查 GROUP BY 键的数据分布"@, "考虑使用两阶段聚合"@, "检查是否存在热点键"@]); }
        Some(make_diag("A001", "聚合数据倾斜", RuleSeverity::Warning, node, msg, "", &sl, ps))
        } else { None }
    }
}

/// A002: the aggregation uses more than 1 GB of memory.
pub struct A002HashTableTooLarge;

/// The diagnostic A002 reports on `node`, if any.
pub open spec fn spec_a002(node: ExecutionTreeNode) -> Option<DiagnosticView> {
match node.metrics.memory_usage { None => None, Some(memory) => {
if memory > 1073741824 { Some(node_diag("A002"@, "聚合 HashTable 过大"@, RuleSeverity::Warning, node, Seq::<char>::empty() + "聚合 HashTable 内存使用 "@ + spec_format_bytes(memory as nat), ""@, seq!["检查 GROUP BY 基数是否过高"@, "考虑使用物化视图预聚合"@, "启用 Spill 功能避免 OOM"@], seq![spec_suggestion("enable_spill"@, ParameterType::Session, None, "true"@, "SET enable_spill = true;"@), spec_suggestion("streaming_preaggregation_mode"@, ParameterType::Session, None, "auto"@, "SET streaming_preaggregation_mode = 'auto';"@)])) } else { None } } }
}

impl DiagnosticRule for A002HashTableTooLarge {
    fn id(&self) -> (r: &'static str)
        ensures
            r@ == "A002"@,
    {
        "A002"
    }

    fn name(&self) -> (r: &'static str)
        ensures
            r@ == "聚合 HashTable 过大"@,
    {
        "聚合 HashTable 过大"
    }

    fn applicable_to(&self, node: &ExecutionTreeNode) -> (b: bool)
        ensures
            b == (name_has(*node, "AGG"@)),
    {
        upper_name_contains(node, "AGG")
    }

    fn evaluate(&self, context: &RuleContext) -> (r: Option<Diagnostic>)
        ensures
            r is Some == spec_a002(*context.node) is Some,
            r matches Some(d) ==> Some(d@) == spec_a002(*context.node),
    {
        let node = context.node;
        let memory = match node.metrics.memory_usage { Some(v) => v, None => { return None; } };
        if memory > 1073741824 {
        let mut msg = String::new();
        push_str(&mut msg, "聚合 HashTable 内存使用 ");
        { let t = format_bytes(memory); push_str(&mut msg, t.as_str()); }
        let mut ps: Vec<ParameterSuggestion> = Vec::new();
        ps.push(param("enable_spill", ParameterType::Session, "true", "SET enable_spill = true;"));
        ps.push(param("streaming_preaggregation_mode", ParameterType::Session, "auto", "SET streaming_preaggregation_mode = 'auto';"));
        proof { assert(vparams(ps@) =~= seq![spec_suggestion("enable_spill"@, ParameterType::Session, None, "true"@, "SET enable_spill = true;"@), spec_suggestion("streaming_preaggregation_mode"@, ParameterType::Session, None, "auto"@, "SET streaming_preaggregation_mode = 'auto';"@)]); }
        let sl: [&str; 3] = ["检查 GROUP BY 基数是否过高", "考虑使用物化视图预聚合", "启用 Spill 功能避免 OOM"];
        proof { assert(vlit(sl@) =~= seq!["检查 GROUP BY 基数是否过高"@, "考虑使用物化视图预聚合"@, "启用 Spill 功能避免 OOM"@]); }
        Some(make_diag("A002", "聚合 HashTable 过大", RuleSeverity::Warning, node, msg, "", &sl, ps))
        } else { None }
    }
}

/// A003: aggregation input rows are skewed across instances (max/avg > 2).
pub struct A003DataSkew;

/// The diagnostic A003 reports on `node`, if any.
pub open spec fn spec_a003(node: ExecutionTreeNode) -> Option<DiagnosticView> {
match spec_get_metric(node, "__MAX_OF_InputRowCount"@) { None => None, Some(max_input) => {
let min_input = match spec_get_metric(node, "__MIN_OF_InputRowCount"@) { Some(x) => x, None => dint(0) };
if min_input.mant == 0 { None } else if skew_gt(max_input, min_input, 2) { Some(node_diag("A003"@, "聚合数据倾斜"@, RuleSeverity::Warning, node, Seq::<char>::empty() + "聚合存在数据倾斜，max/avg 比率为 "@ + fmt_skew(max_input, min_input), ""@, seq!["优化分组键选择"@, "考虑对热点键单独处理"@], seq![])) } else { None } } }
}

impl DiagnosticRule for A003DataSkew {
    fn id(&self) -> (r: &'static str)
        ensures
            r@ == "A003"@,
    {
        "A003"
    }

    fn name(&self) -> (r: &'static str)
        ensures
            r@ == "聚合数据倾斜"@,
    {
        "聚合数据倾斜"
    }

    fn applicable_to(&self, node: &ExecutionTreeNode) -> (b: bool)
        ensures
            b == (name_has(*node, "AGGREGATE"@)),
    {
        upper_name_contains(node, "AGGREGATE")
    }

    fn evaluate(&self, context: &RuleContext) -> (r: Option<Diagnostic>)
        ensures
            r is Some == spec_a003(*context.node) is Some,
            r matches Some(d) ==> Some(d@) == spec_a003(*context.node),
    {
        let node = context.node;
        let max_input = match context.get_metric("__MAX_OF_InputRowCount") { Some(v) => v, None => { return None; } };
        let min_input = match context.get_metric("__MIN_OF_InputRowCount") { Some(x) => x, None => Dec { mant: 0, exp: 0 } };
        if min_input.mant == 0 { return None; }
        if skew_gt_exec(max_input, min_input, 2) {
        let mut msg = String::new();
        push_str(&mut msg, "聚合存在数据倾斜，max/avg 比率为 ");
        { let t = format_skew(max_input, min_input); push_str(&mut msg, t.as_str()); }
        let mut ps: Vec<ParameterSuggestion> = Vec::new();
        proof { assert(vparams(ps@) =~= seq![]); }
        let sl: [&str; 2] = ["优化分组键选择", "考虑对热点键单独处理"];
        proof { assert(vlit(sl@) =~= seq!["优化分组键选择"@, "考虑对热点键单独处理"@]); }
        Some(make_diag("A003", "聚合数据倾斜", RuleSeverity::Warning, node, msg, "", &sl, ps))
        } else { None }
    }
}

/// A004: the aggregation has more than ten million groups.
pub struct A004HighCardinality;

/// The diagnostic A004 reports on `node`, if any.
pub open spec fn spec_a004(node: ExecutionTreeNode) -> Option<DiagnosticView> {
match or_dec(spec_get_metric(node, "HashTableSize"@), opt_int(node.metrics.pull_row_num)) { None => None, Some(hash_size) => {
if lin_gt(hash_size, 1, dint(10000000), 1) { Some(node_diag("A004"@, "高基数 GROUP BY"@, RuleSeverity::Warning, node, Seq::<char>::empty() + "GROUP BY 基数过高 \u{28}"@ + fmt_val(hash_size, 0) + " 个分组\u{29}"@, ""@, seq!["检查 GROUP BY 键的选择是否合理"@, "考虑使用流式聚合"@, "考虑创建物化视图预聚合"@], seq![spec_suggestion("enable_sort_aggregate"@, ParameterType::Session, None, "true"@, "SET enable_sort_aggregate = true;"@)])) } else { None } } }
}

impl DiagnosticRule for A004HighCardinality {
    fn id(&self) -> (r: &'static str)
        ensures
            r@ == "A004"@,
    {
        "A004"
    }

    fn name(&self) -> (r: &'static str)
        ensures
            r@ == "高基数 GROUP BY"@,
    {
        "高基数 GROUP BY"
    }

    fn applicable_to(&self, node: &ExecutionTreeNode) -> (b: bool)
        ensures
            b == (name_has(*node, "AGG"@)),
    {
        upper_name_contains(node, "AGG")
    }

    fn evaluate(&self, context: &RuleContext) -> (r: Option<Diagnostic>)
        ensures
            r is Some == spec_a004(*context.node) is Some,
            r matches Some(d) ==> Some(d@) == spec_a004(*context.node),
    {
        let node = context.node;
        let hash_size = match first_dec(context.get_metric("HashTableSize"), opt_int_exec(node.metrics.pull_row_num)) { Some(v) => v, None => { return None; } };
        if lin_gt_exec(hash_size, 1, Dec { mant: 10000000, exp: 0 }, 1) {
        let mut msg = String::new();
        push_str(&mut msg, "GROUP BY 基数过高 \u{28}");
        { let t = format_val(hash_size, 0); push_str(&mut msg, t.as_str()); }
        push_str(&mut msg, " 个分组\u{29}");
        let mut ps: Vec<ParameterSuggestion> = Vec::new();
        ps.push(param("enable_sort_aggregate", ParameterType::Session, "true", "SET enable_sort_aggregate = true;"));
        proof { assert(vparams(ps@) =~= seq![spec_suggestion("enable_sort_aggregate"@, ParameterType::Session, None, "true"@, "SET enable_sort_aggregate = true;"@)]); }
        let sl: [&str; 3] = ["检查 GROUP BY 键的选择是否合理", "考虑使用流式聚合", "考虑创建物化视图预聚合"];
        proof { assert(vlit(sl@) =~= seq!["检查 GROUP BY 键的选择是否合理"@, "考虑使用流式聚合"@, "考虑创建物化视图预聚合"@]); }
        Some(make_diag("A004", "高基数 GROUP BY", RuleSeverity::Warning, node, msg, "", &sl, ps))
        } else { None }
    }
}

/// A005: key expressions take more than half of the aggregate-function time and above 100 ms.
pub struct A005ExpensiveKeyExpr;

/// The diagnostic A005 reports on `node`, if any.
pub open spec fn spec_a005(node: ExecutionTreeNode) -> Option<DiagnosticView> {
match spec_get_metric(node, "ExprComputeTime"@) { None => None, Some(expr_time) => {
let agg_time = match spec_get_metric(node, "AggFuncComputeTime"@) { Some(x) => x, None => dint(1) };
if agg_time.mant == 0 { None } else if lin_gt(expr_time, 2, agg_time, 1) && lin_gt(expr_time, 1, dint(100000000), 1) { Some(node_diag("A005"@, "GROUP BY 键表达式计算开销高"@, RuleSeverity::Info, node, Seq::<char>::empty() + "GROUP BY 键表达式计算占比过高 \u{28}"@ + fmt_q(expr_time, 100, agg_time, 1, 1) + "%\u{29}"@, ""@, seq!["在子查询中物化复杂表达式"@, "将表达式提升为生成列"@, "避免在 GROUP BY 中使用复杂函数"@], seq![])) } else { None } } }
}

impl DiagnosticRule for A005ExpensiveKeyExpr {
    fn id(&self) -> (r: &'static str)
        ensures
            r@ == "A005"@,
    {
        "A005"
    }

    fn name(&self) -> (r: &'static str)
        ensures
            r@ == "GROUP BY 键表达式计算开销高"@,
    {
        "GROUP BY 键表达式计算开销高"
    }

    fn applicable_to(&self, node: &ExecutionTreeNode) -> (b: bool)
        ensures
            b == (name_has(*node, "AGGREGATE"@)),
    {
        upper_name_contains(node, "AGGREGATE")
    }

    fn evaluate(&self, context: &RuleContext) -> (r: Option<Diagnostic>)
        ensures
            r is Some == spec_a005(*context.node) is Some,
            r matches Some(d) ==> Some(d@) == spec_a005(*context.node),
    {
        let node = context.node;
        let expr_time = match context.get_metric("ExprComputeTime") { Some(v) => v, None => { return None; } };
        let agg_time = match context.get_metric("AggFuncComputeTime") { Some(x) => x, None => Dec { mant: 1, exp: 0 } };
        if agg_time.mant == 0 { return None; }
        if lin_gt_exec(expr_time, 2, agg_time, 1) && lin_gt_exec(expr_time, 1, Dec { mant: 100000000, exp: 0 }, 1) {
        let mut msg = String::new();
        push_str(&mut msg, "GROUP BY 键表达式计算占比过高 \u{28}");
        { let t = format_quot(expr_time, 100, agg_time, 1, 1); push_str(&mut msg, t.as_str()); }
        push_str(&mut msg, "%\u{29}");
        let mut ps: Vec<ParameterSuggestion> = Vec::new();
        proof { assert(vparams(ps@) =~= seq![]); }
        let sl: [&str; 3] = ["在子查询中物化复杂表达式", "将表达式提升为生成列", "避免在 GROUP BY 中使用复杂函数"];
        proof { assert(vlit(sl@) =~= seq!["在子查询中物化复杂表达式"@, "将表达式提升为生成列"@, "避免在 GROUP BY 中使用复杂函数"@]); }
        Some(make_diag("A005", "GROUP BY 键表达式计算开销高", RuleSeverity::Info, node, msg, "", &sl, ps))
        } else { None }
    }
}

} // verus!
