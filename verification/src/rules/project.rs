//! Rules for projection and local exchange operators (P001, L001).
use vstd::prelude::*;
use crate::num::{Dec, lin_gt, lin_gt_exec};
use crate::metrics::{push_str, spec_format_bytes, format_bytes};
use crate::model::{Diagnostic, DiagnosticView, ParameterSuggestion, ParameterType, RuleSeverity,
    spec_suggestion, vlit, vparams};
use crate::tree::ExecutionTreeNode;
use crate::rules::{
    DiagnosticRule, RuleContext, node_diag, make_diag, param, fmt_val, fmt_q, format_val,
    format_quot, spec_get_metric, or_dec, first_dec, opt_int, opt_int_exec, dint, dec_floor,
    floor_u64, skew_gt, skew_gt_exec, fmt_skew, format_skew, fmt_pct_left, format_pct_left,
    spec_operator_time_ms, name_has, upper_name_contains,
};

verus! {

/// P001: projection expressions take more than half of the operator time and above 100 ms.
pub struct P001ProjectExprHigh;

/// The diagnostic P001 reports on `node`, if any.
pub open spec fn spec_p001(node: ExecutionTreeNode) -> Option<DiagnosticView> {
match spec_get_metric(node, "ExprComputeTime"@) { None => None, Some(expr_time) => {
match node.metrics.operator_total_time { None => None, Some(op_time) => {
if op_time == 0 { None } else if lin_gt(expr_time, 2, Dec { mant: op_time, exp: 0 }, 1) && lin_gt(expr_time, 1, dint(100000000), 1) { Some(node_diag("P001"@, "Project 表达式计算耗时高"@, RuleSeverity::Warning, node, Seq::<char>::empty() + "Project 表达式计算占比过高 \u{28}"@ + fmt_q(expr_time, 100, Dec { mant: op_time, exp: 0 }, 1, 1) + "%\u{29}"@, ""@, seq!["简化 SELECT 中的复杂表达式"@, "将复杂计算移到物化视图中预计算"@, "检查是否有不必要的类型转换"@], seq![])) } else { None } } } } }
}

impl DiagnosticRule for P001ProjectExprHigh {
    fn id(&self) -> (r: &'static str)
        ensures
            r@ == "P001"@,
    {
        "P001"
    }

    fn name(&self) -> (r: &'static str)
        ensures
            r@ == "Project 表达式计算耗时高"@,
    {
        "Project 表达式计算耗时高"
    }

    fn applicable_to(&self, node: &ExecutionTreeNode) -> (b: bool)
        ensures
            b == (name_has(*node, "PROJECT"@)),
    {
        upper_name_contains(node, "PROJECT")
    }

    fn evaluate(&self, context: &RuleContext) -> (r: Option<Diagnostic>)
        ensures
            r is Some == spec_p001(*context.node) is Some,
            r matches Some(d) ==> Some(d@) == spec_p001(*context.node),
    {
        let node = context.node;
        let expr_time = match context.get_metric("ExprComputeTime") { Some(v) => v, None => { return None; } };
        let op_time = match node.metrics.operator_total_time { Some(v) => v, None => { return None; } };
        if op_time == 0 { return None; }
        if lin_gt_exec(expr_time, 2, Dec { mant: op_time, exp: 0 }, 1) && lin_gt_exec(expr_time, 1, Dec { mant: 100000000, exp: 0 }, 1) {
        let mut msg = String::new();
        push_str(&mut msg, "Project 表达式计算占比过高 \u{28}");
        { let t = format_quot(expr_time, 100, Dec { mant: op_time, exp: 0 }, 1, 1); push_str(&mut msg, t.as_str()); }
        push_str(&mut msg, "%\u{29}");
        let mut ps: Vec<ParameterSuggestion> = Vec::new();
        proof { assert(vparams(ps@) =~= seq![]); }
        let sl: [&str; 3] = ["简化 SELECT 中的复杂表达式", "将复杂计算移到物化视图中预计算", "检查是否有不必要的类型转换"];
        proof { assert(vlit(sl@) =~= seq!["简化 SELECT 中的复杂表达式"@, "将复杂计算移到物化视图中预计算"@, "检查是否有不必要的类型转换"@]); }
        Some(make_diag("P001", "Project 表达式计算耗时高", RuleSeverity::Warning, node, msg, "", &sl, ps))
        } else { None }
    }
}

/// L001: a local exchange uses more than 1 GB of memory.
pub struct L001LocalExchangeMemory;

/// The diagnostic L001 reports on `node`, if any.
pub open spec fn spec_l001(node: ExecutionTreeNode) -> Option<DiagnosticView> {
match or_dec(spec_get_metric(node, "LocalExchangePeakMemoryUsage"@), opt_int(node.metrics.memory_usage)) { None => None, Some(memory) => {
if lin_gt(memory, 1, dint(1073741824), 1) { Some(node_diag("L001"@, "LocalExchange 内存使用过高"@, RuleSeverity::Warning, node, Seq::<char>::empty() + "LocalExchange 内存使用 "@ + spec_format_bytes(dec_floor(memory)), ""@, seq!["检查上下游算子的数据流是否平衡"@, "调整 pipeline_dop 参数"@], seq![spec_suggestion("pipeline_dop"@, ParameterType::Session, None, "0"@, "SET pipeline_dop = 0; -- auto"@)])) } else { None } } }
}

impl DiagnosticRule for L001LocalExchangeMemory {
    fn id(&self) -> (r: &'static str)
        ensures
            r@ == "L001"@,
    {
        "L001"
    }

    fn name(&self) -> (r: &'static str)
        ensures
            r@ == "LocalExchange 内存使用过高"@,
    {
        "LocalExchange 内存使用过高"
    }

    fn applicable_to(&self, node: &ExecutionTreeNode) -> (b: bool)
        ensures
            b == (name_has(*node, "LOCAL"@) && name_has(*node, "EXCHANGE"@)),
    {
        upper_name_contains(node, "LOCAL") && upper_name_contains(node, "EXCHANGE")
    }

    fn evaluate(&self, context: &RuleContext) -> (r: Option<Diagnostic>)
        ensures
            r is Some == spec_l001(*context.node) is Some,
            r matches Some(d) ==> Some(d@) == spec_l001(*context.node),
    {
        let node = context.node;
        let memory = match first_dec(context.get_metric("LocalExchangePeakMemoryUsage"), opt_int_exec(node.metrics.memory_usage)) { Some(v) => v, None => { return None; } };
        if lin_gt_exec(memory, 1, Dec { mant: 1073741824, exp: 0 }, 1) {
        let mut msg = String::new();
        push_str(&mut msg, "LocalExchange 内存使用 ");
        { let t = format_bytes(floor_u64(memory)); push_str(&mut msg, t.as_str()); }
        let mut ps: Vec<ParameterSuggestion> = Vec::new();
        ps.push(param("pipeline_dop", ParameterType::Session, "0", "SET pipeline_dop = 0; -- auto"));
        proof { assert(vparams(ps@) =~= seq![spec_suggestion("pipeline_dop"@, ParameterType::Session, None, "0"@, "SET pipeline_dop = 0; -- auto"@)]); }
        let sl: [&str; 2] = ["检查上下游算子的数据流是否平衡", "调整 pipeline_dop 参数"];
        proof { assert(vlit(sl@) =~= seq!["检查上下游算子的数据流是否平衡"@, "调整 pipeline_dop 参数"@]); }
        Some(make_diag("L001", "LocalExchange 内存使用过高", RuleSeverity::Warning, node, msg, "", &sl, ps))
        } else { None }
    }
}

} // verus!
