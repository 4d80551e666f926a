//! Rules that apply to every operator (G001, G001b, G002, G003).
use vstd::prelude::*;
use crate::num::{Dec, lin_gt, lin_gt_exec};
use crate::metrics::{push_str, spec_format_bytes, format_bytes};
use crate::model::{Diagnostic, DiagnosticView, ParameterSuggestion, ParameterType, RuleSeverity,
    spec_suggestion, vlit, vparams};
use crate::tree::ExecutionTreeNode;
use crate::rules::{
    DiagnosticRule, RuleContext, node_diag, make_diag, param, fmt_val, fmt_q, format_val,
    format_quot, spec_get_metric, or_dec, first_dec, opt_int, opt_int_exec, dint, dec_floor,
    floor_u64, skew_gt, skew_gt_exec, fmt_skew, format_skew, fmt_pct_left, format_pct_left,
    spec_operator_time_ms, name_has, upper_name_contains,
};
use crate::text::{spec_to_uppercase, contains_seq, str_to_uppercase, str_contains};
use crate::model::{vstr, strings_of};

verus! {

/// Operator-specific suggestions, chosen by what the upper-cased operator name
/// contains (SCAN, JOIN, AGGREGATE/AGG, EXCHANGE, SORT, in that order).
pub open spec fn spec_operator_suggestions(operator_name: Seq<char>) -> Seq<Seq<char>> {
    let n = spec_to_uppercase(operator_name);
    if contains_seq(n, "SCAN"@) {
        seq![
            "检查是否可以添加过滤条件减少扫描数据量"@,
            "考虑添加索引或物化视图"@,
            "检查分区裁剪是否生效"@,
            "执行 ANALYZE TABLE 更新统计信息"@,
        ]
    } else if contains_seq(n, "JOIN"@) {
        seq![
            "检查 JOIN 顺序是否最优"@,
            "考虑使用 Runtime Filter"@,
            "检查是否存在数据倾斜"@,
            "执行 ANALYZE TABLE 更新统计信息"@,
        ]
    } else if contains_seq(n, "AGGREGATE"@) || contains_seq(n, "AGG"@) {
        seq!["检查聚合模式是否合适"@, "考虑使用预聚合或物化视图"@, "检查 GROUP BY 键的选择"@]
    } else if contains_seq(n, "EXCHANGE"@) {
        seq!["检查数据分布是否均匀"@, "考虑调整并行度"@, "检查网络带宽是否充足"@]
    } else if contains_seq(n, "SORT"@) {
        seq!["添加 LIMIT 限制结果集大小"@, "检查是否可以使用 Top-N 优化"@, "考虑使用物化视图预排序"@]
    } else {
        seq!["检查该算子是否处理数据量过大"@, "考虑优化查询计划"@]
    }
}

/// Operator-specific suggestions for an operator name.
pub fn get_operator_suggestions(operator_name: &str) -> (r: Vec<String>)
    ensures
        vstr(r@) == spec_operator_suggestions(operator_name@),
{
    let u = str_to_uppercase(operator_name);
    let n = u.as_str();
    if str_contains(n, "SCAN") {
        let r = strings_of(&["检查是否可以添加过滤条件减少扫描数据量", "考虑添加索引或物化视图", "检查分区裁剪是否生效", "执行 ANALYZE TABLE 更新统计信息"]);
        r
    } else if str_contains(n, "JOIN") {
        strings_of(&["检查 JOIN 顺序是否最优", "考虑使用 Runtime Filter", "检查是否存在数据倾斜", "执行 ANALYZE TABLE 更新统计信息"])
    } else if str_contains(n, "AGGREGATE") || str_contains(n, "AGG") {
        strings_of(&["检查聚合模式是否合适", "考虑使用预聚合或物化视图", "检查 GROUP BY 键的选择"])
    } else if str_contains(n, "EXCHANGE") {
        strings_of(&["检查数据分布是否均匀", "考虑调整并行度", "检查网络带宽是否充足"])
    } else if str_contains(n, "SORT") {
        strings_of(&["添加 LIMIT 限制结果集大小", "检查是否可以使用 Top-N 优化", "考虑使用物化视图预排序"])
    } else {
        strings_of(&["检查该算子是否处理数据量过大", "考虑优化查询计划"])
    }
}

/// G001: the operator takes more than 30% of the query time.
pub struct G001MostConsuming;

/// The diagnostic G001 reports on `node`, if any.
pub open spec fn spec_g001(node: ExecutionTreeNode) -> Option<DiagnosticView> {
match node.time_percentage { None => None, Some(p) => {
if lin_gt(p, 1, dint(30), 1) { Some(node_diag("G001"@, "算子时间占比过高"@, RuleSeverity::Error, node, Seq::<char>::empty() + "🔴 算子 "@ + node.operator_name@ + " 占用 "@ + fmt_val(p, 1) + "% 的执行时间（最耗时节点）"@, "算子执行时间占整体查询时间比例过高，是查询的主要瓶颈。优化该算子可获得最大收益。"@, spec_operator_suggestions(node.operator_name@), seq![])) } else { None } } }
}

impl DiagnosticRule for G001MostConsuming {
    fn id(&self) -> (r: &'static str)
        ensures
            r@ == "G001"@,
    {
        "G001"
    }

    fn name(&self) -> (r: &'static str)
        ensures
            r@ == "算子时间占比过高"@,
    {
        "算子时间占比过高"
    }

    fn applicable_to(&self, node: &ExecutionTreeNode) -> (b: bool)
        ensures
            b == (true),
    {
        true
    }

    fn evaluate(&self, context: &RuleContext) -> (r: Option<Diagnostic>)
        ensures
            r is Some == spec_g001(*context.node) is Some,
            r matches Some(d) ==> Some(d@) == spec_g001(*context.node),
    {
        let node = context.node;
        let p = match node.time_percentage { Some(v) => v, None => { return None; } };
        if lin_gt_exec(p, 1, Dec { mant: 30, exp: 0 }, 1) {
        let mut msg = String::new();
        push_str(&mut msg, "🔴 算子 ");
        push_str(&mut msg, node.operator_name.as_str());
        push_str(&mut msg, " 占用 ");
        { let t = format_val(p, 1); push_str(&mut msg, t.as_str()); }
        push_str(&mut msg, "% 的执行时间（最耗时节点）");
        let mut ps: Vec<ParameterSuggestion> = Vec::new();
        proof { assert(vparams(ps@) =~= seq![]); }
        let mut d = make_diag("G001", "算子时间占比过高", RuleSeverity::Error, node, msg, "算子执行时间占整体查询时间比例过高，是查询的主要瓶颈。优化该算子可获得最大收益。", &[], ps);
        d.suggestions = get_operator_suggestions(node.operator_name.as_str());
        Some(d)
        } else { None }
    }
}

/// G001b: the operator takes more than 15% and at most 30% of the query time.
pub struct G001bSecondConsuming;

/// The diagnostic G001b reports on `node`, if any.
pub open spec fn spec_g001b(node: ExecutionTreeNode) -> Option<DiagnosticView> {
match node.time_percentage { None => None, Some(p) => {
if lin_gt(p, 1, dint(15), 1) && !lin_gt(p, 1, dint(30), 1) { Some(node_diag("G001b"@, "算子时间占比较高"@, RuleSeverity::Warning, node, Seq::<char>::empty() + "🟠 算子 "@ + node.operator_name@ + " 占用 "@ + fmt_val(p, 1) + "% 的执行时间（次耗时节点）"@, "算子执行时间占整体查询时间比例过高，是查询的主要瓶颈。优化该算子可获得最大收益。"@, spec_operator_suggestions(node.operator_name@), seq![])) } else { None } } }
}

impl DiagnosticRule for G001bSecondConsuming {
    fn id(&self) -> (r: &'static str)
        ensures
            r@ == "G001b"@,
    {
        "G001b"
    }

    fn name(&self) -> (r: &'static str)
        ensures
            r@ == "算子时间占比较高"@,
    {
        "算子时间占比较高"
    }

    fn applicable_to(&self, node: &ExecutionTreeNode) -> (b: bool)
        ensures
            b == (true),
    {
        true
    }

    fn evaluate(&self, context: &RuleContext) -> (r: Option<Diagnostic>)
        ensures
            r is Some == spec_g001b(*context.node) is Some,
            r matches Some(d) ==> Some(d@) == spec_g001b(*context.node),
    {
        let node = context.node;
        let p = match node.time_percentage { Some(v) => v, None => { return None; } };
        if lin_gt_exec(p, 1, Dec { mant: 15, exp: 0 }, 1) && !lin_gt_exec(p, 1, Dec { mant: 30, exp: 0 }, 1) {
        let mut msg = String::new();
        push_str(&mut msg, "🟠 算子 ");
        push_str(&mut msg, node.operator_name.as_str());
        push_str(&mut msg, " 占用 ");
        { let t = format_val(p, 1); push_str(&mut msg, t.as_str()); }
        push_str(&mut msg, "% 的执行时间（次耗时节点）");
        let mut ps: Vec<ParameterSuggestion> = Vec::new();
        proof { assert(vparams(ps@) =~= seq![]); }
        let mut d = make_diag("G001b", "算子时间占比较高", RuleSeverity::Warning, node, msg, "算子执行时间占整体查询时间比例过高，是查询的主要瓶颈。优化该算子可获得最大收益。", &[], ps);
        d.suggestions = get_operator_suggestions(node.operator_name.as_str());
        Some(d)
        } else { None }
    }
}

/// G002: the operator uses more than 1 GB of memory.
pub struct G002HighMemory;

/// The diagnostic G002 reports on `node`, if any.
pub open spec fn spec_g002(node: ExecutionTreeNode) -> Option<DiagnosticView> {
match node.metrics.memory_usage { None => None, Some(memory) => {
if memory > 1073741824 { Some(node_diag("G002"@, "算子内存使用过高"@, RuleSeverity::Warning, node, Seq::<char>::empty() + "算子 "@ + node.operator_name@ + " 内存使用过高: "@ + spec_format_bytes(memory as nat), "算子内存使用过高，可能导致查询失败或触发 Spill。检查是否存在数据膨胀或中间结果过大。"@, seq!["检查是否存在数据膨胀"@, "考虑分批处理"@, "检查 HashTable 或中间结果是否过大"@], seq![])) } else { None } } }
}

impl DiagnosticRule for G002HighMemory {
    fn id(&self) -> (r: &'static str)
        ensures
            r@ == "G002"@,
    {
        "G002"
    }

    fn name(&self) -> (r: &'static str)
        ensures
            r@ == "算子内存使用过高"@,
    {
        "算子内存使用过高"
    }

    fn applicable_to(&self, node: &ExecutionTreeNode) -> (b: bool)
        ensures
            b == (true),
    {
        true
    }

    fn evaluate(&self, context: &RuleContext) -> (r: Option<Diagnostic>)
        ensures
            r is Some == spec_g002(*context.node) is Some,
            r matches Some(d) ==> Some(d@) == spec_g002(*context.node),
    {
        let node = context.node;
        let memory = match node.metrics.memory_usage { Some(v) => v, None => { return None; } };
        if memory > 1073741824 {
        let mut msg = String::new();
        push_str(&mut msg, "算子 ");
        push_str(&mut msg, node.operator_name.as_str());
        push_str(&mut msg, " 内存使用过高: ");
        { let t = format_bytes(memory); push_str(&mut msg, t.as_str()); }
        let mut ps: Vec<ParameterSuggestion> = Vec::new();
        proof { assert(vparams(ps@) =~= seq![]); }
        let sl: [&str; 3] = ["检查是否存在数据膨胀", "考虑分批处理", "检查 HashTable 或中间结果是否过大"];
        proof { assert(vlit(sl@) =~= seq!["检查是否存在数据膨胀"@, "考虑分批处理"@, "检查 HashTable 或中间结果是否过大"@]); }
        Some(make_diag("G002", "算子内存使用过高", RuleSeverity::Warning, node, msg, "算子内存使用过高，可能导致查询失败或触发 Spill。检查是否存在数据膨胀或中间结果过大。", &sl, ps))
        } else { None }
    }
}

/// G003: the slowest instance takes more than twice the average time.
pub struct G003ExecutionSkew;

/// The diagnostic G003 reports on `node`, if any.
pub open spec fn spec_g003(node: ExecutionTreeNode) -> Option<DiagnosticView> {
match node.metrics.operator_total_time_max { None => None, Some(max_time) => {
match node.metrics.operator_total_time { None => None, Some(avg_time) => {
if avg_time == 0 { None } else if max_time > 2 * avg_time { Some(node_diag("G003"@, "算子执行时间倾斜"@, RuleSeverity::Warning, node, Seq::<char>::empty() + "算子 "@ + node.operator_name@ + " 存在执行时间倾斜，max/avg 比率为 "@ + fmt_q(Dec { mant: max_time, exp: 0 }, 1, Dec { mant: avg_time, exp: 0 }, 1, 2), "算子在多个实例间执行时间差异大，部分实例成为瓶颈。通常是数据分布不均匀导致。"@, seq!["检查数据分布是否均匀"@, "检查分桶键选择是否合理"@, "考虑增加并行度"@], seq![])) } else { None } } } } }
}

impl DiagnosticRule for G003ExecutionSkew {
    fn id(&self) -> (r: &'static str)
        ensures
            r@ == "G003"@,
    {
        "G003"
    }

    fn name(&self) -> (r: &'static str)
        ensures
            r@ == "算子执行时间倾斜"@,
    {
        "算子执行时间倾斜"
    }

    fn applicable_to(&self, node: &ExecutionTreeNode) -> (b: bool)
        ensures
            b == (true),
    {
        true
    }

    fn evaluate(&self, context: &RuleContext) -> (r: Option<Diagnostic>)
        ensures
            r is Some == spec_g003(*context.node) is Some,
            r matches Some(d) ==> Some(d@) == spec_g003(*context.node),
    {
        let node = context.node;
        let max_time = match node.metrics.operator_total_time_max { Some(v) => v, None => { return None; } };
        let avg_time = match node.metrics.operator_total_time { Some(v) => v, None => { return None; } };
        if avg_time == 0 { return None; }
        if (max_time as u128) > 2 * (avg_time as u128) {
        let mut msg = String::new();
        push_str(&mut msg, "算子 ");
        push_str(&mut msg, node.operator_name.as_str());
        push_str(&mut msg, " 存在执行时间倾斜，max/avg 比率为 ");
        { let t = format_quot(Dec { mant: max_time, exp: 0 }, 1, Dec { mant: avg_time, exp: 0 }, 1, 2); push_str(&mut msg, t.as_str()); }
        let mut ps: Vec<ParameterSuggestion> = Vec::new();
        proof { assert(vparams(ps@) =~= seq![]); }
        let sl: [&str; 3] = ["检查数据分布是否均匀", "检查分桶键选择是否合理", "考虑增加并行度"];
        proof { assert(vlit(sl@) =~= seq!["检查数据分布是否均匀"@, "检查分桶键选择是否合理"@, "考虑增加并行度"@]); }
        Some(make_diag("G003", "算子执行时间倾斜", RuleSeverity::Warning, node, msg, "算子在多个实例间执行时间差异大，部分实例成为瓶颈。通常是数据分布不均匀导致。", &sl, ps))
        } else { None }
    }
}

} // verus!
