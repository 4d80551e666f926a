//! Rules for join operators (J001-J010).
use vstd::prelude::*;
use crate::num::{Dec, lin_gt, lin_gt_exec};
use crate::metrics::{push_str, spec_format_bytes, format_bytes};
use crate::model::{Diagnostic, DiagnosticView, ParameterSuggestion, ParameterType, RuleSeverity,
    spec_suggestion, vlit, vparams};
use crate::tree::ExecutionTreeNode;
use crate::rules::{spec_node_path, 
    DiagnosticRule, RuleContext, node_diag, make_diag, param, fmt_val, fmt_q, format_val,
    format_quot, spec_get_metric, or_dec, first_dec, opt_int, opt_int_exec, dint, dec_floor,
    floor_u64, skew_gt, skew_gt_exec, fmt_skew, format_skew, fmt_pct_left, format_pct_left,
    spec_operator_time_ms, name_has, upper_name_contains,
};

verus! {

/// J001: the join outputs more than ten times the probed rows.
pub struct J001ResultExplosion;

/// The diagnostic J001 reports on `node`, if any.
pub open spec fn spec_j001(node: ExecutionTreeNode) -> Option<DiagnosticView> {
match opt_int(node.metrics.pull_row_num) { None => None, Some(output_rows) => {
match spec_get_metric(node, "ProbeRows"@) { None => None, Some(probe_rows) => {
if probe_rows.mant == 0 { None } else if lin_gt(output_rows, 1, probe_rows, 10) { Some(node_diag("J001"@, "Join 结果膨胀"@, RuleSeverity::Error, node, Seq::<char>::empty() + "Join 结果膨胀 "@ + fmt_q(output_rows, 1, probe_rows, 1, 1) + " 倍 \u{28}输出 "@ + fmt_val(output_rows, 0) + " 行 / 探测 "@ + fmt_val(probe_rows, 0) + " 行\u{29}"@, "Join 输出结果显著大于输入，通常是缺少 Join 条件导致 Cross Join，或 Join 条件错误导致 1:N 匹配。"@, seq!["检查 JOIN 条件是否缺失或不完整"@, "检查是否存在多对多关系"@, "考虑添加更多过滤条件"@], seq![])) } else { None } } } } }
}

impl DiagnosticRule for J001ResultExplosion {
    fn id(&self) -> (r: &'static str)
        ensures
            r@ == "J001"@,
    {
        "J001"
    }

    fn name(&self) -> (r: &'static str)
        ensures
            r@ == "Join 结果膨胀"@,
    {
        "Join 结果膨胀"
    }

    fn applicable_to(&self, node: &ExecutionTreeNode) -> (b: bool)
        ensures
            b == (name_has(*node, "JOIN"@)),
    {
        upper_name_contains(node, "JOIN")
    }

    fn evaluate(&self, context: &RuleContext) -> (r: Option<Diagnostic>)
        ensures
            r is Some == spec_j001(*context.node) is Some,
            r matches Some(d) ==> Some(d@) == spec_j001(*context.node),
    {
        let node = context.node;
        let output_rows = match opt_int_exec(node.metrics.pull_row_num) { Some(v) => v, None => { return None; } };
        let probe_rows = match context.get_metric("ProbeRows") { Some(v) => v, None => { return None; } };
        if probe_rows.mant == 0 { return None; }
        if lin_gt_exec(output_rows, 1, probe_rows, 10) {
        let mut msg = String::new();
        push_str(&mut msg, "Join 结果膨胀 ");
        { let t = format_quot(output_rows, 1, probe_rows, 1, 1); push_str(&mut msg, t.as_str()); }
        push_str(&mut msg, " 倍 \u{28}输出 ");
        { let t = format_val(output_rows, 0); push_str(&mut msg, t.as_str()); }
        push_str(&mut msg, " 行 / 探测 ");
        { let t = format_val(probe_rows, 0); push_str(&mut msg, t.as_str()); }
        push_str(&mut msg, " 行\u{29}");
        let mut ps: Vec<ParameterSuggestion> = Vec::new();
        proof { assert(vparams(ps@) =~= seq![]); }
        let sl: [&str; 3] = ["检查 JOIN 条件是否缺失或不完整", "检查是否存在多对多关系", "考虑添加更多过滤条件"];
        proof { assert(vlit(sl@) =~= seq!["检查 JOIN 条件是否缺失或不完整"@, "检查是否存在多对多关系"@, "考虑添加更多过滤条件"@]); }
        Some(make_diag("J001", "Join 结果膨胀", RuleSeverity::Error, node, msg, "Join 输出结果显著大于输入，通常是缺少 Join 条件导致 Cross Join，或 Join 条件错误导致 1:N 匹配。", &sl, ps))
        } else { None }
    }
}

/// J002: the build side has more rows than the probe side and more than 100k rows.
pub struct J002BuildLargerThanProbe;

/// The diagnostic J002 reports on `node`, if any.
pub open spec fn spec_j002(node: ExecutionTreeNode) -> Option<DiagnosticView> {
match spec_get_metric(node, "BuildRows"@) { None => None, Some(build_rows) => {
match spec_get_metric(node, "ProbeRows"@) { None => None, Some(probe_rows) => {
if lin_gt(build_rows, 1, probe_rows, 1) && lin_gt(build_rows, 1, dint(100000), 1) { Some(node_diag("J002"@, "Join Build 端过大"@, RuleSeverity::Warning, node, Seq::<char>::empty() + "Build 端行数 \u{28}"@ + fmt_val(build_rows, 0) + "\u{29} 大于 Probe 端 \u{28}"@ + fmt_val(probe_rows, 0) + "，Join 顺序可能不优"@, "在 Hash Join 中，Build 端数据量大于 Probe 端，导致 HashTable 过大。优化器可能因统计信息不准确选择了错误的 Build 端。"@, seq!["执行 ANALYZE TABLE 更新统计信息"@, "检查优化器是否选择了正确的 Join 顺序"@, "考虑使用 Hint 指定 Join 顺序"@], seq![])) } else { None } } } } }
}

/// Law of J002: it reports exactly when the node has readable `BuildRows` and
/// `ProbeRows` with more rows on the build side than on the probe side and more than
/// 100000 build rows; the report is a warning with rule id `J002` on the node's
/// path.
pub proof fn lemma_j002_fires(node: ExecutionTreeNode)
    ensures
        spec_j002(node) is Some <==> (spec_get_metric(node, "BuildRows"@) matches Some(b)
            && spec_get_metric(node, "ProbeRows"@) matches Some(p)
            && b.mant * p.den() > p.mant * b.den()
            && b.mant > 100000 * b.den()),
        spec_j002(node) matches Some(d) ==> d.rule_id == "J002"@ && d.severity == RuleSeverity::Warning
            && d.node_path == spec_node_path(node),
{
    match spec_get_metric(node, "BuildRows"@) {
        Some(b) => match spec_get_metric(node, "ProbeRows"@) {
            Some(p) => {
                assert(dint(100000).den() == 1) by {
                    reveal_with_fuel(crate::num::pow10, 1);
                }
                assert(b.mant * 1 * dint(100000).den() == b.mant);
                assert(100000 * 1 * b.den() == 100000 * b.den());
                assert(b.mant * 1 * p.den() == b.mant * p.den());
                assert(p.mant * 1 * b.den() == p.mant * b.den());
            },
            None => {},
        },
        None => {},
    }
}

impl DiagnosticRule for J002BuildLargerThanProbe {
    fn id(&self) -> (r: &'static str)
        ensures
            r@ == "J002"@,
    {
        "J002"
    }

    fn name(&self) -> (r: &'static str)
        ensures
            r@ == "Join Build 端过大"@,
    {
        "Join Build 端过大"
    }

    fn applicable_to(&self, node: &ExecutionTreeNode) -> (b: bool)
        ensures
            b == (name_has(*node, "HASH"@) && name_has(*node, "JOIN"@)),
    {
        upper_name_contains(node, "HASH") && upper_name_contains(node, "JOIN")
    }

    fn evaluate(&self, context: &RuleContext) -> (r: Option<Diagnostic>)
        ensures
            r is Some == spec_j002(*context.node) is Some,
            r matches Some(d) ==> Some(d@) == spec_j002(*context.node),
    {
        let node = context.node;
        let build_rows = match context.get_metric("BuildRows") { Some(v) => v, None => { return None; } };
        let probe_rows = match context.get_metric("ProbeRows") { Some(v) => v, None => { return None; } };
        if lin_gt_exec(build_rows, 1, probe_rows, 1) && lin_gt_exec(build_rows, 1, Dec { mant: 100000, exp: 0 }, 1) {
        let mut msg = String::new();
        push_str(&mut msg, "Build 端行数 \u{28}");
        { let t = format_val(build_rows, 0); push_str(&mut msg, t.as_str()); }
        push_str(&mut msg, "\u{29} 大于 Probe 端 \u{28}");
        { let t = format_val(probe_rows, 0); push_str(&mut msg, t.as_str()); }
        push_str(&mut msg, "，Join 顺序可能不优");
        let mut ps: Vec<ParameterSuggestion> = Vec::new();
        proof { assert(vparams(ps@) =~= seq![]); }
        let sl: [&str; 3] = ["执行 ANALYZE TABLE 更新统计信息", "检查优化器是否选择了正确的 Join 顺序", "考虑使用 Hint 指定 Join 顺序"];
        proof { assert(vlit(sl@) =~= seq!["执行 ANALYZE TABLE 更新统计信息"@, "检查优化器是否选择了正确的 Join 顺序"@, "考虑使用 Hint 指定 Join 顺序"@]); }
        Some(make_diag("J002", "Join Build 端过大", RuleSeverity::Warning, node, msg, "在 Hash Join 中，Build 端数据量大于 Probe 端，导致 HashTable 过大。优化器可能因统计信息不准确选择了错误的 Build 端。", &sl, ps))
        } else { None }
    }
}

/// J003: the join hash table uses more than 1 GB.
pub struct J003HashTableTooLarge;

/// The diagnostic J003 reports on `node`, if any.
pub open spec fn spec_j003(node: ExecutionTreeNode) -> Option<DiagnosticView> {
match or_dec(spec_get_metric(node, "HashTableMemoryUsage"@), opt_int(node.metrics.memory_usage)) { None => None, Some(hash_memory) => {
if lin_gt(hash_memory, 1, dint(1073741824), 1) { Some(node_diag("J003"@, "HashTable 内存过大"@, RuleSeverity::Warning, node, Seq::<char>::empty() + "HashTable 内存使用 "@ + spec_format_bytes(dec_floor(hash_memory)) + "，可能导致内存压力"@, "Join 的 HashTable 占用内存过大，可能导致内存压力或触发 Spill。"@, seq!["检查 Build 端数据量是否过大"@, "考虑使用 Runtime Filter 减少数据量"@, "启用 Spill 功能避免 OOM"@], seq![])) } else { None } } }
}

impl DiagnosticRule for J003HashTableTooLarge {
    fn id(&self) -> (r: &'static str)
        ensures
            r@ == "J003"@,
    {
        "J003"
    }

    fn name(&self) -> (r: &'static str)
        ensures
            r@ == "HashTable 内存过大"@,
    {
        "HashTable 内存过大"
    }

    fn applicable_to(&self, node: &ExecutionTreeNode) -> (b: bool)
        ensures
            b == (name_has(*node, "HASH"@) && name_has(*node, "JOIN"@)),
    {
        upper_name_contains(node, "HASH") && upper_name_contains(node, "JOIN")
    }

    fn evaluate(&self, context: &RuleContext) -> (r: Option<Diagnostic>)
        ensures
            r is Some == spec_j003(*context.node) is Some,
            r matches Some(d) ==> Some(d@) == spec_j003(*context.node),
    {
        let node = context.node;
        let hash_memory = match first_dec(context.get_metric("HashTableMemoryUsage"), opt_int_exec(node.metrics.memory_usage)) { Some(v) => v, None => { return None; } };
        if lin_gt_exec(hash_memory, 1, Dec { mant: 1073741824, exp: 0 }, 1) {
        let mut msg = String::new();
        push_str(&mut msg, "HashTable 内存使用 ");
        { let t = format_bytes(floor_u64(hash_memory)); push_str(&mut msg, t.as_str()); }
        push_str(&mut msg, "，可能导致内存压力");
        let mut ps: Vec<ParameterSuggestion> = Vec::new();
        proof { assert(vparams(ps@) =~= seq![]); }
        let sl: [&str; 3] = ["检查 Build 端数据量是否过大", "考虑使用 Runtime Filter 减少数据量", "启用 Spill 功能避免 OOM"];
        proof { assert(vlit(sl@) =~= seq!["检查 Build 端数据量是否过大"@, "考虑使用 Runtime Filter 减少数据量"@, "启用 Spill 功能避免 OOM"@]); }
        Some(make_diag("J003", "HashTable 内存过大", RuleSeverity::Warning, node, msg, "Join 的 HashTable 占用内存过大，可能导致内存压力或触发 Spill。", &sl, ps))
        } else { None }
    }
}

/// J004: no runtime filter is built while the build side has more than 10k rows.
pub struct J004NoRuntimeFilter;

/// The diagnostic J004 reports on `node`, if any.
pub open spec fn spec_j004(node: ExecutionTreeNode) -> Option<DiagnosticView> {
let rf_num = match spec_get_metric(node, "RuntimeFilterNum"@) { Some(x) => x, None => dint(0) };
let build_rows = match spec_get_metric(node, "BuildRows"@) { Some(x) => x, None => dint(0) };
if rf_num.mant == 0 && lin_gt(build_rows, 1, dint(10000), 1) { Some(node_diag("J004"@, "未生成 Runtime Filter"@, RuleSeverity::Info, node, Seq::<char>::empty() + "Join 未生成 Runtime Filter，Build 端有 "@ + fmt_val(build_rows, 0) + " 行"@, "Runtime Filter 未生效或效果差，Scan 端未能有效过滤数据。可能是 Filter 构建失败或选择性差。"@, seq!["检查 enable_global_runtime_filter 是否启用"@, "检查 Join 条件是否适合生成 RF"@, "检查 Build 端行数是否超过阈值"@], seq![])) } else { None }
}

impl DiagnosticRule for J004NoRuntimeFilter {
    fn id(&self) -> (r: &'static str)
        ensures
            r@ == "J004"@,
    {
        "J004"
    }

    fn name(&self) -> (r: &'static str)
        ensures
            r@ == "未生成 Runtime Filter"@,
    {
        "未生成 Runtime Filter"
    }

    fn applicable_to(&self, node: &ExecutionTreeNode) -> (b: bool)
        ensures
            b == (name_has(*node, "JOIN"@)),
    {
        upper_name_contains(node, "JOIN")
    }

    fn evaluate(&self, context: &RuleContext) -> (r: Option<Diagnostic>)
        ensures
            r is Some == spec_j004(*context.node) is Some,
            r matches Some(d) ==> Some(d@) == spec_j004(*context.node),
    {
        let node = context.node;
        let rf_num = match context.get_metric("RuntimeFilterNum") { Some(x) => x, None => Dec { mant: 0, exp: 0 } };
        let build_rows = match context.get_metric("BuildRows") { Some(x) => x, None => Dec { mant: 0, exp: 0 } };
        if rf_num.mant == 0 && lin_gt_exec(build_rows, 1, Dec { mant: 10000, exp: 0 }, 1) {
        let mut msg = String::new();
        push_str(&mut msg, "Join 未生成 Runtime Filter，Build 端有 ");
        { let t = format_val(build_rows, 0); push_str(&mut msg, t.as_str()); }
        push_str(&mut msg, " 行");
        let mut ps: Vec<ParameterSuggestion> = Vec::new();
        proof { assert(vparams(ps@) =~= seq![]); }
        let sl: [&str; 3] = ["检查 enable_global_runtime_filter 是否启用", "检查 Join 条件是否适合生成 RF", "检查 Build 端行数是否超过阈值"];
        proof { assert(vlit(sl@) =~= seq!["检查 enable_global_runtime_filter 是否启用"@, "检查 Join 条件是否适合生成 RF"@, "检查 Build 端行数是否超过阈值"@]); }
        Some(make_diag("J004", "未生成 Runtime Filter", RuleSeverity::Info, node, msg, "Runtime Filter 未生效或效果差，Scan 端未能有效过滤数据。可能是 Filter 构建失败或选择性差。", &sl, ps))
        } else { None }
    }
}

/// J005: more than ten keys per hash bucket.
pub struct J005HashCollision;

/// The diagnostic J005 reports on `node`, if any.
pub open spec fn spec_j005(node: ExecutionTreeNode) -> Option<DiagnosticView> {
match spec_get_metric(node, "BuildKeysPerBucket%"@) { None => None, Some(keys_per_bucket) => {
if lin_gt(keys_per_bucket, 1, dint(10), 1) { Some(node_diag("J005"@, "Hash 碰撞严重"@, RuleSeverity::Warning, node, Seq::<char>::empty() + "Hash 表碰撞严重，平均每桶 "@ + fmt_val(keys_per_bucket, 1) + " 个键"@, "Hash 表存在大量冲突，导致探测效率下降。可能是 Join 键分布不均匀或 Hash 函数效果差。"@, seq!["优化 Join 键选择"@, "检查数据是否存在大量重复值"@], seq![])) } else { None } } }
}

impl DiagnosticRule for J005HashCollision {
    fn id(&self) -> (r: &'static str)
        ensures
            r@ == "J005"@,
    {
        "J005"
    }

    fn name(&self) -> (r: &'static str)
        ensures
            r@ == "Hash 碰撞严重"@,
    {
        "Hash 碰撞严重"
    }

    fn applicable_to(&self, node: &ExecutionTreeNode) -> (b: bool)
        ensures
            b == (name_has(*node, "JOIN"@)),
    {
        upper_name_contains(node, "JOIN")
    }

    fn evaluate(&self, context: &RuleContext) -> (r: Option<Diagnostic>)
        ensures
            r is Some == spec_j005(*context.node) is Some,
            r matches Some(d) ==> Some(d@) == spec_j005(*context.node),
    {
        let node = context.node;
        let keys_per_bucket = match context.get_metric("BuildKeysPerBucket%") { Some(v) => v, None => { return None; } };
        if lin_gt_exec(keys_per_bucket, 1, Dec { mant: 10, exp: 0 }, 1) {
        let mut msg = String::new();
        push_str(&mut msg, "Hash 表碰撞严重，平均每桶 ");
        { let t = format_val(keys_per_bucket, 1); push_str(&mut msg, t.as_str()); }
        push_str(&mut msg, " 个键");
        let mut ps: Vec<ParameterSuggestion> = Vec::new();
        proof { assert(vparams(ps@) =~= seq![]); }
        let sl: [&str; 2] = ["优化 Join 键选择", "检查数据是否存在大量重复值"];
        proof { assert(vlit(sl@) =~= seq!["优化 Join 键选择"@, "检查数据是否存在大量重复值"@]); }
        Some(make_diag("J005", "Hash 碰撞严重", RuleSeverity::Warning, node, msg, "Hash 表存在大量冲突，导致探测效率下降。可能是 Join 键分布不均匀或 Hash 函数效果差。", &sl, ps))
        } else { None }
    }
}

/// J006: probe rows are skewed across instances (max/avg > 3).
pub struct J006ShuffleSkew;

/// The diagnostic J006 reports on `node`, if any.
pub open spec fn spec_j006(node: ExecutionTreeNode) -> Option<DiagnosticView> {
match spec_get_metric(node, "__MAX_OF_ProbeRows"@) { None => None, Some(max_probe) => {
let min_probe = match spec_get_metric(node, "__MIN_OF_ProbeRows"@) { Some(x) => x, None => dint(0) };
if min_probe.mant == 0 { None } else if skew_gt(max_probe, min_probe, 3) { Some(node_diag("J006"@, "Join Shuffle 倾斜"@, RuleSeverity::Warning, node, Seq::<char>::empty() + "Join 数据分布倾斜，max/avg 比率为 "@ + fmt_skew(max_probe, min_probe), "Shuffle Join 的数据分布不均匀，部分节点处理更多数据。通常是 Join 键存在热点值。"@, seq!["切换到更高基数的连接键"@, "对键添加盐值"@], seq![])) } else { None } } }
}

impl DiagnosticRule for J006ShuffleSkew {
    fn id(&self) -> (r: &'static str)
        ensures
            r@ == "J006"@,
    {
        "J006"
    }

    fn name(&self) -> (r: &'static str)
        ensures
            r@ == "Join Shuffle 倾斜"@,
    {
        "Join Shuffle 倾斜"
    }

    fn applicable_to(&self, node: &ExecutionTreeNode) -> (b: bool)
        ensures
            b == (name_has(*node, "JOIN"@)),
    {
        upper_name_contains(node, "JOIN")
    }

    fn evaluate(&self, context: &RuleContext) -> (r: Option<Diagnostic>)
        ensures
            r is Some == spec_j006(*context.node) is Some,
            r matches Some(d) ==> Some(d@) == spec_j006(*context.node),
    {
        let node = context.node;
        let max_probe = match context.get_metric("__MAX_OF_ProbeRows") { Some(v) => v, None => { return None; } };
        let min_probe = match context.get_metric("__MIN_OF_ProbeRows") { Some(x) => x, None => Dec { mant: 0, exp: 0 } };
        if min_probe.mant == 0 { return None; }
        if skew_gt_exec(max_probe, min_probe, 3) {
        let mut msg = String::new();
        push_str(&mut msg, "Join 数据分布倾斜，max/avg 比率为 ");
        { let t = format_skew(max_probe, min_probe); push_str(&mut msg, t.as_str()); }
        let mut ps: Vec<ParameterSuggestion> = Vec::new();
        proof { assert(vparams(ps@) =~= seq![]); }
        let sl: [&str; 2] = ["切换到更高基数的连接键", "对键添加盐值"];
        proof { assert(vlit(sl@) =~= seq!["切换到更高基数的连接键"@, "对键添加盐值"@]); }
        Some(make_diag("J006", "Join Shuffle 倾斜", RuleSeverity::Warning, node, msg, "Shuffle Join 的数据分布不均匀，部分节点处理更多数据。通常是 Join 键存在热点值。", &sl, ps))
        } else { None }
    }
}

/// J007: partition probing takes more than half of the hash-table search time.
pub struct J007PartitionProbeOverhead;

/// The diagnostic J007 reports on `node`, if any.
pub open spec fn spec_j007(node: ExecutionTreeNode) -> Option<DiagnosticView> {
match spec_get_metric(node, "PartitionNums"@) { None => None, Some(partition_nums) => {
let probe_overhead = match spec_get_metric(node, "PartitionProbeOverhead"@) { Some(x) => x, None => dint(0) };
let search_time = match spec_get_metric(node, "SearchHashTableTime"@) { Some(x) => x, None => dint(1) };
if lin_gt(partition_nums, 1, dint(1), 1) && search_time.mant > 0 && lin_gt(probe_overhead, 2, search_time, 1) { Some(node_diag("J007"@, "分区 Join 探测开销高"@, RuleSeverity::Warning, node, Seq::<char>::empty() + "分区探测开销占比 "@ + fmt_q(probe_overhead, 100, search_time, 1, 1) + "%，分区数为 "@ + fmt_val(partition_nums, 0), "分区探测开销过高，可能是分区数过多或分区策略不当。"@, seq!["检查分区数是否合理"@, "考虑增加内存限制避免过度分区"@], seq![])) } else { None } } }
}

impl DiagnosticRule for J007PartitionProbeOverhead {
    fn id(&self) -> (r: &'static str)
        ensures
            r@ == "J007"@,
    {
        "J007"
    }

    fn name(&self) -> (r: &'static str)
        ensures
            r@ == "分区 Join 探测开销高"@,
    {
        "分区 Join 探测开销高"
    }

    fn applicable_to(&self, node: &ExecutionTreeNode) -> (b: bool)
        ensures
            b == (name_has(*node, "JOIN"@)),
    {
        upper_name_contains(node, "JOIN")
    }

    fn evaluate(&self, context: &RuleContext) -> (r: Option<Diagnostic>)
        ensures
            r is Some == spec_j007(*context.node) is Some,
            r matches Some(d) ==> Some(d@) == spec_j007(*context.node),
    {
        let node = context.node;
        let partition_nums = match context.get_metric("PartitionNums") { Some(v) => v, None => { return None; } };
        let probe_overhead = match context.get_metric("PartitionProbeOverhead") { Some(x) => x, None => Dec { mant: 0, exp: 0 } };
        let search_time = match context.get_metric("SearchHashTableTime") { Some(x) => x, None => Dec { mant: 1, exp: 0 } };
        if lin_gt_exec(partition_nums, 1, Dec { mant: 1, exp: 0 }, 1) && search_time.mant > 0 && lin_gt_exec(probe_overhead, 2, search_time, 1) {
        let mut msg = String::new();
        push_str(&mut msg, "分区探测开销占比 ");
        { let t = format_quot(probe_overhead, 100, search_time, 1, 1); push_str(&mut msg, t.as_str()); }
        push_str(&mut msg, "%，分区数为 ");
        { let t = format_val(partition_nums, 0); push_str(&mut msg, t.as_str()); }
        let mut ps: Vec<ParameterSuggestion> = Vec::new();
        proof { assert(vparams(ps@) =~= seq![]); }
        let sl: [&str; 2] = ["检查分区数是否合理", "考虑增加内存限制避免过度分区"];
        proof { assert(vlit(sl@) =~= seq!["检查分区数是否合理"@, "考虑增加内存限制避免过度分区"@]); }
        Some(make_diag("J007", "分区 Join 探测开销高", RuleSeverity::Warning, node, msg, "分区探测开销过高，可能是分区数过多或分区策略不当。", &sl, ps))
        } else { None }
    }
}

/// J008: runtime filters use more than 100 MB.
pub struct J008RFMemoryHigh;

/// The diagnostic J008 reports on `node`, if any.
pub open spec fn spec_j008(node: ExecutionTreeNode) -> Option<DiagnosticView> {
match spec_get_metric(node, "PartialRuntimeMembershipFilterBytes"@) { None => None, Some(rf_bytes) => {
if lin_gt(rf_bytes, 1, dint(104857600), 1) { Some(node_diag("J008"@, "Runtime Filter 内存占用高"@, RuleSeverity::Info, node, Seq::<char>::empty() + "Runtime Filter 内存占用 "@ + spec_format_bytes(dec_floor(rf_bytes)), "Runtime Filter 占用内存过高，可能是 Filter 数量过多或单个 Filter 过大。"@, seq!["降低 runtime_filter_max_size 配置"@, "检查 Join 键基数是否过高"@], seq![spec_suggestion("runtime_filter_max_size"@, ParameterType::Session, None, "67108864"@, "SET runtime_filter_max_size = 67108864; -- 64MB"@)])) } else { None } } }
}

impl DiagnosticRule for J008RFMemoryHigh {
    fn id(&self) -> (r: &'static str)
        ensures
            r@ == "J008"@,
    {
        "J008"
    }

    fn name(&self) -> (r: &'static str)
        ensures
            r@ == "Runtime Filter 内存占用高"@,
    {
        "Runtime Filter 内存占用高"
    }

    fn applicable_to(&self, node: &ExecutionTreeNode) -> (b: bool)
        ensures
            b == (name_has(*node, "JOIN"@)),
    {
        upper_name_contains(node, "JOIN")
    }

    fn evaluate(&self, context: &RuleContext) -> (r: Option<Diagnostic>)
        ensures
            r is Some == spec_j008(*context.node) is Some,
            r matches Some(d) ==> Some(d@) == spec_j008(*context.node),
    {
        let node = context.node;
        let rf_bytes = match context.get_metric("PartialRuntimeMembershipFilterBytes") { Some(v) => v, None => { return None; } };
        if lin_gt_exec(rf_bytes, 1, Dec { mant: 104857600, exp: 0 }, 1) {
        let mut msg = String::new();
        push_str(&mut msg, "Runtime Filter 内存占用 ");
        { let t = format_bytes(floor_u64(rf_bytes)); push_str(&mut msg, t.as_str()); }
        let mut ps: Vec<ParameterSuggestion> = Vec::new();
        ps.push(param("runtime_filter_max_size", ParameterType::Session, "67108864", "SET runtime_filter_max_size = 67108864; -- 64MB"));
        proof { assert(vparams(ps@) =~= seq![spec_suggestion("runtime_filter_max_size"@, ParameterType::Session, None, "67108864"@, "SET runtime_filter_max_size = 67108864; -- 64MB"@)]); }
        let sl: [&str; 2] = ["降低 runtime_filter_max_size 配置", "检查 Join 键基数是否过高"];
        proof { assert(vlit(sl@) =~= seq!["降低 runtime_filter_max_size 配置"@, "检查 Join 键基数是否过高"@]); }
        Some(make_diag("J008", "Runtime Filter 内存占用高", RuleSeverity::Info, node, msg, "Runtime Filter 占用内存过高，可能是 Filter 数量过多或单个 Filter 过大。", &sl, ps))
        } else { None }
    }
}

/// J009: a cross or nested-loop join handles more than 1000 rows on a side.
pub struct J009NonEquiJoin;

/// The diagnostic J009 reports on `node`, if any.
pub open spec fn spec_j009(node: ExecutionTreeNode) -> Option<DiagnosticView> {
let probe_rows = match spec_get_metric(node, "ProbeRows"@) { Some(x) => x, None => dint(0) };
let build_rows = match spec_get_metric(node, "BuildRows"@) { Some(x) => x, None => dint(0) };
if lin_gt(probe_rows, 1, dint(1000), 1) || lin_gt(build_rows, 1, dint(1000), 1) { Some(node_diag("J009"@, "非等式 Join 回退"@, RuleSeverity::Warning, node, Seq::<char>::empty() + "使用了 "@ + node.operator_name@ + " 算子，可能是非等式 Join 导致"@, "Join 条件包含非等式条件，无法使用 Hash Join，退化为 Nested Loop Join，性能较差。"@, seq!["检查 JOIN 条件是否包含等式条件"@, "尝试将非等式条件转换为等式条件"@, "考虑重构查询逻辑"@], seq![])) } else { None }
}

impl DiagnosticRule for J009NonEquiJoin {
    fn id(&self) -> (r: &'static str)
        ensures
            r@ == "J009"@,
    {
        "J009"
    }

    fn name(&self) -> (r: &'static str)
        ensures
            r@ == "非等式 Join 回退"@,
    {
        "非等式 Join 回退"
    }

    fn applicable_to(&self, node: &ExecutionTreeNode) -> (b: bool)
        ensures
            b == (name_has(*node, "CROSS"@) || name_has(*node, "NEST"@) || name_has(*node, "LOOP"@)),
    {
        upper_name_contains(node, "CROSS") || upper_name_contains(node, "NEST") || upper_name_contains(node, "LOOP")
    }

    fn evaluate(&self, context: &RuleContext) -> (r: Option<Diagnostic>)
        ensures
            r is Some == spec_j009(*context.node) is Some,
            r matches Some(d) ==> Some(d@) == spec_j009(*context.node),
    {
        let node = context.node;
        let probe_rows = match context.get_metric("ProbeRows") { Some(x) => x, None => Dec { mant: 0, exp: 0 } };
        let build_rows = match context.get_metric("BuildRows") { Some(x) => x, None => Dec { mant: 0, exp: 0 } };
        if lin_gt_exec(probe_rows, 1, Dec { mant: 1000, exp: 0 }, 1) || lin_gt_exec(build_rows, 1, Dec { mant: 1000, exp: 0 }, 1) {
        let mut msg = String::new();
        push_str(&mut msg, "使用了 ");
        push_str(&mut msg, node.operator_name.as_str());
        push_str(&mut msg, " 算子，可能是非等式 Join 导致");
        let mut ps: Vec<ParameterSuggestion> = Vec::new();
        proof { assert(vparams(ps@) =~= seq![]); }
        let sl: [&str; 3] = ["检查 JOIN 条件是否包含等式条件", "尝试将非等式条件转换为等式条件", "考虑重构查询逻辑"];
        proof { assert(vlit(sl@) =~= seq!["检查 JOIN 条件是否包含等式条件"@, "尝试将非等式条件转换为等式条件"@, "考虑重构查询逻辑"@]); }
        Some(make_diag("J009", "非等式 Join 回退", RuleSeverity::Warning, node, msg, "Join 条件包含非等式条件，无法使用 Hash Join，退化为 Nested Loop Join，性能较差。", &sl, ps))
        } else { None }
    }
}

/// J010: a hash table above 50 MB is probed with more than 100 times the build rows.
pub struct J010ProbeCacheUnfriendly;

/// The diagnostic J010 reports on `node`, if any.
pub open spec fn spec_j010(node: ExecutionTreeNode) -> Option<DiagnosticView> {
match or_dec(spec_get_metric(node, "HashTableMemoryUsage"@), opt_int(node.metrics.memory_usage)) { None => None, Some(hash_memory) => {
match spec_get_metric(node, "ProbeRows"@) { None => None, Some(probe_rows) => {
match spec_get_metric(node, "BuildRows"@) { None => None, Some(build_rows) => {
if lin_gt(hash_memory, 1, dint(52428800), 1) && lin_gt(probe_rows, 1, build_rows, 100) { Some(node_diag("J010"@, "探测缓存不友好"@, RuleSeverity::Info, node, Seq::<char>::empty() + "HashTable \u{28}"@ + spec_format_bytes(dec_floor(hash_memory)) + "\u{29} 超过 L3 缓存，探测行数 \u{28}"@ + fmt_val(probe_rows, 0) + "\u{29} 远大于构建行数 \u{28}"@ + fmt_val(build_rows, 0) + "，可能存在缓存不友好"@, "Hash 表探测时缓存命中率低，可能是 HashTable 过大超出 CPU 缓存或探测数据访问模式不友好。"@, seq!["考虑交换 Join 左右表顺序"@, "使用 Hint 指定 Join 顺序"@, "检查统计信息是否准确"@], seq![])) } else { None } } } } } } }
}

impl DiagnosticRule for J010ProbeCacheUnfriendly {
    fn id(&self) -> (r: &'static str)
        ensures
            r@ == "J010"@,
    {
        "J010"
    }

    fn name(&self) -> (r: &'static str)
        ensures
            r@ == "探测缓存不友好"@,
    {
        "探测缓存不友好"
    }

    fn applicable_to(&self, node: &ExecutionTreeNode) -> (b: bool)
        ensures
            b == (name_has(*node, "HASH"@) && name_has(*node, "JOIN"@)),
    {
        upper_name_contains(node, "HASH") && upper_name_contains(node, "JOIN")
    }

    fn evaluate(&self, context: &RuleContext) -> (r: Option<Diagnostic>)
        ensures
            r is Some == spec_j010(*context.node) is Some,
            r matches Some(d) ==> Some(d@) == spec_j010(*context.node),
    {
        let node = context.node;
        let hash_memory = match first_dec(context.get_metric("HashTableMemoryUsage"), opt_int_exec(node.metrics.memory_usage)) { Some(v) => v, None => { return None; } };
        let probe_rows = match context.get_metric("ProbeRows") { Some(v) => v, None => { return None; } };
        let build_rows = match context.get_metric("BuildRows") { Some(v) => v, None => { return None; } };
        if lin_gt_exec(hash_memory, 1, Dec { mant: 52428800, exp: 0 }, 1) && lin_gt_exec(probe_rows, 1, build_rows, 100) {
        let mut msg = String::new();
        push_str(&mut msg, "HashTable \u{28}");
        { let t = format_bytes(floor_u64(hash_memory)); push_str(&mut msg, t.as_str()); }
        push_str(&mut msg, "\u{29} 超过 L3 缓存，探测行数 \u{28}");
        { let t = format_val(probe_rows, 0); push_str(&mut msg, t.as_str()); }
        push_str(&mut msg, "\u{29} 远大于构建行数 \u{28}");
        { let t = format_val(build_rows, 0); push_str(&mut msg, t.as_str()); }
        push_str(&mut msg, "，可能存在缓存不友好");
        let mut ps: Vec<ParameterSuggestion> = Vec::new();
        proof { assert(vparams(ps@) =~= seq![]); }
        let sl: [&str; 3] = ["考虑交换 Join 左右表顺序", "使用 Hint 指定 Join 顺序", "检查统计信息是否准确"];
        proof { assert(vlit(sl@) =~= seq!["考虑交换 Join 左右表顺序"@, "使用 Hint 指定 Join 顺序"@, "检查统计信息是否准确"@]); }
        Some(make_diag("J010", "探测缓存不友好", RuleSeverity::Info, node, msg, "Hash 表探测时缓存命中率低，可能是 HashTable 过大超出 CPU 缓存或探测数据访问模式不友好。", &sl, ps))
        } else { None }
    }
}

} // verus!
