//! Rules for scan operators (S001-S014).
use vstd::prelude::*;
use crate::num::{Dec, lin_gt, lin_gt_exec};
use crate::metrics::{push_str, spec_format_bytes, format_bytes};
use crate::model::{Diagnostic, DiagnosticView, ParameterSuggestion, ParameterType, RuleSeverity,
    spec_suggestion, vlit, vparams};
use crate::tree::ExecutionTreeNode;
use crate::rules::{
    DiagnosticRule, RuleContext, node_diag, make_diag, param, fmt_val, fmt_q, format_val,
    format_quot, spec_get_metric, or_dec, first_dec, opt_int, opt_int_exec, dint, dec_floor,
    floor_u64, skew_gt, skew_gt_exec, fmt_skew, format_skew, fmt_pct_left, format_pct_left,
    spec_operator_time_ms, name_has, upper_name_contains,
};

verus! {

/// S001: rows read are skewed across instances (max/avg > 2).
pub struct S001DataSkew;

/// The diagnostic S001 reports on `node`, if any.
pub open spec fn spec_s001(node: ExecutionTreeNode) -> Option<DiagnosticView> {
match or_dec(spec_get_metric(node, "__MAX_OF_RowsRead"@), spec_get_metric(node, "RowsRead"@)) { None => None, Some(max_rows) => {
let min_rows = match spec_get_metric(node, "__MIN_OF_RowsRead"@) { Some(x) => x, None => dint(0) };
if min_rows.mant == 0 { None } else if skew_gt(max_rows, min_rows, 2) { Some(node_diag("S001"@, "Scan 数据倾斜"@, RuleSeverity::Warning, node, Seq::<char>::empty() + "Scan 存在数据倾斜，max/avg 比率为 "@ + fmt_skew(max_rows, min_rows), "StarRocks 数据在各个存储节点分布不均，使得某些节点在读取数据时需要扫描更多的数据，导致查询延迟。通常是分桶键选择不当导致数据分布不均匀。"@, seq!["检查分桶键选择是否合理"@, "考虑重新分桶以均匀分布数据"@, "检查是否存在热点数据"@], seq![])) } else { None } } }
}

impl DiagnosticRule for S001DataSkew {
    fn id(&self) -> (r: &'static str)
        ensures
            r@ == "S001"@,
    {
        "S001"
    }

    fn name(&self) -> (r: &'static str)
        ensures
            r@ == "Scan 数据倾斜"@,
    {
        "Scan 数据倾斜"
    }

    fn applicable_to(&self, node: &ExecutionTreeNode) -> (b: bool)
        ensures
            b == (name_has(*node, "SCAN"@)),
    {
        upper_name_contains(node, "SCAN")
    }

    fn evaluate(&self, context: &RuleContext) -> (r: Option<Diagnostic>)
        ensures
            r is Some == spec_s001(*context.node) is Some,
            r matches Some(d) ==> Some(d@) == spec_s001(*context.node),
    {
        let node = context.node;
        let max_rows = match first_dec(context.get_metric("__MAX_OF_RowsRead"), context.get_metric("RowsRead")) { Some(v) => v, None => { return None; } };
        let min_rows = match context.get_metric("__MIN_OF_RowsRead") { Some(x) => x, None => Dec { mant: 0, exp: 0 } };
        if min_rows.mant == 0 { return None; }
        if skew_gt_exec(max_rows, min_rows, 2) {
        let mut msg = String::new();
        push_str(&mut msg, "Scan 存在数据倾斜，max/avg 比率为 ");
        { let t = format_skew(max_rows, min_rows); push_str(&mut msg, t.as_str()); }
        let mut ps: Vec<ParameterSuggestion> = Vec::new();
        proof { assert(vparams(ps@) =~= seq![]); }
        let sl: [&str; 3] = ["检查分桶键选择是否合理", "考虑重新分桶以均匀分布数据", "检查是否存在热点数据"];
        proof { assert(vlit(sl@) =~= seq!["检查分桶键选择是否合理"@, "考虑重新分桶以均匀分布数据"@, "检查是否存在热点数据"@]); }
        Some(make_diag("S001", "Scan 数据倾斜", RuleSeverity::Warning, node, msg, "StarRocks 数据在各个存储节点分布不均，使得某些节点在读取数据时需要扫描更多的数据，导致查询延迟。通常是分桶键选择不当导致数据分布不均匀。", &sl, ps))
        } else { None }
    }
}

/// S002: IO time is skewed across instances (max/avg > 2).
pub struct S002IOSkew;

/// The diagnostic S002 reports on `node`, if any.
pub open spec fn spec_s002(node: ExecutionTreeNode) -> Option<DiagnosticView> {
match spec_get_metric(node, "__MAX_OF_IOTime"@) { None => None, Some(max_io) => {
let min_io = match spec_get_metric(node, "__MIN_OF_IOTime"@) { Some(x) => x, None => dint(0) };
if min_io.mant == 0 { None } else if skew_gt(max_io, min_io, 2) { Some(node_diag("S002"@, "Scan IO 倾斜"@, RuleSeverity::Warning, node, Seq::<char>::empty() + "Scan IO 耗时存在倾斜，max/avg 比率为 "@ + fmt_skew(max_io, min_io), "Scan 算子多个实例在读取数据时，部分实例花费的时间显著大于其它实例。可能是节点 IO 使用率不均或数据在节点上分布不均。"@, seq!["检查节点 IO 使用率是否不均"@, "检查存储设备是否存在性能问题"@], seq![])) } else { None } } }
}

impl DiagnosticRule for S002IOSkew {
    fn id(&self) -> (r: &'static str)
        ensures
            r@ == "S002"@,
    {
        "S002"
    }

    fn name(&self) -> (r: &'static str)
        ensures
            r@ == "Scan IO 倾斜"@,
    {
        "Scan IO 倾斜"
    }

    fn applicable_to(&self, node: &ExecutionTreeNode) -> (b: bool)
        ensures
            b == (name_has(*node, "SCAN"@)),
    {
        upper_name_contains(node, "SCAN")
    }

    fn evaluate(&self, context: &RuleContext) -> (r: Option<Diagnostic>)
        ensures
            r is Some == spec_s002(*context.node) is Some,
            r matches Some(d) ==> Some(d@) == spec_s002(*context.node),
    {
        let node = context.node;
        let max_io = match context.get_metric("__MAX_OF_IOTime") { Some(v) => v, None => { return None; } };
        let min_io = match context.get_metric("__MIN_OF_IOTime") { Some(x) => x, None => Dec { mant: 0, exp: 0 } };
        if min_io.mant == 0 { return None; }
        if skew_gt_exec(max_io, min_io, 2) {
        let mut msg = String::new();
        push_str(&mut msg, "Scan IO 耗时存在倾斜，max/avg 比率为 ");
        { let t = format_skew(max_io, min_io); push_str(&mut msg, t.as_str()); }
        let mut ps: Vec<ParameterSuggestion> = Vec::new();
        proof { assert(vparams(ps@) =~= seq![]); }
        let sl: [&str; 2] = ["检查节点 IO 使用率是否不均", "检查存储设备是否存在性能问题"];
        proof { assert(vlit(sl@) =~= seq!["检查节点 IO 使用率是否不均"@, "检查存储设备是否存在性能问题"@]); }
        Some(make_diag("S002", "Scan IO 倾斜", RuleSeverity::Warning, node, msg, "Scan 算子多个实例在读取数据时，部分实例花费的时间显著大于其它实例。可能是节点 IO 使用率不均或数据在节点上分布不均。", &sl, ps))
        } else { None }
    }
}

/// S003: less than 20% of the raw rows are filtered out (RowsRead/RawRowsRead > 0.8) on more than 100k raw rows.
pub struct S003PoorFilter;

/// The diagnostic S003 reports on `node`, if any.
pub open spec fn spec_s003(node: ExecutionTreeNode) -> Option<DiagnosticView> {
match spec_get_metric(node, "RowsRead"@) { None => None, Some(rows_read) => {
match spec_get_metric(node, "RawRowsRead"@) { None => None, Some(raw_rows_read) => {
if raw_rows_read.mant == 0 { None } else if lin_gt(rows_read, 10, raw_rows_read, 8) && lin_gt(raw_rows_read, 1, dint(100000), 1) { Some(node_diag("S003"@, "过滤效果差"@, RuleSeverity::Warning, node, Seq::<char>::empty() + "过滤效果差，仅过滤了 "@ + fmt_pct_left(rows_read, raw_rows_read) + "% 的数据 \u{28}读取 "@ + fmt_val(rows_read, 0) + " 行 / 原始 "@ + fmt_val(raw_rows_read, 0) + " 行\u{29}"@, "基于扫描原始数据量以及最终输出数据量判断，Scan 算子扫描数据量较大但输出给下游的数据量未显著减少。StarRocks 提供索引、谓词下推、Runtime Filter 等多种方式过滤数据。"@, seq!["添加更精确的过滤条件"@, "检查谓词是否可以下推到存储层"@, "考虑使用分区裁剪"@, "检查 ZoneMap 索引是否生效"@], seq![])) } else { None } } } } }
}

impl DiagnosticRule for S003PoorFilter {
    fn id(&self) -> (r: &'static str)
        ensures
            r@ == "S003"@,
    {
        "S003"
    }

    fn name(&self) -> (r: &'static str)
        ensures
            r@ == "过滤效果差"@,
    {
        "过滤效果差"
    }

    fn applicable_to(&self, node: &ExecutionTreeNode) -> (b: bool)
        ensures
            b == (name_has(*node, "SCAN"@)),
    {
        upper_name_contains(node, "SCAN")
    }

    fn evaluate(&self, context: &RuleContext) -> (r: Option<Diagnostic>)
        ensures
            r is Some == spec_s003(*context.node) is Some,
            r matches Some(d) ==> Some(d@) == spec_s003(*context.node),
    {
        let node = context.node;
        let rows_read = match context.get_metric("RowsRead") { Some(v) => v, None => { return None; } };
        let raw_rows_read = match context.get_metric("RawRowsRead") { Some(v) => v, None => { return None; } };
        if raw_rows_read.mant == 0 { return None; }
        if lin_gt_exec(rows_read, 10, raw_rows_read, 8) && lin_gt_exec(raw_rows_read, 1, Dec { mant: 100000, exp: 0 }, 1) {
        let mut msg = String::new();
        push_str(&mut msg, "过滤效果差，仅过滤了 ");
        { let t = format_pct_left(rows_read, raw_rows_read); push_str(&mut msg, t.as_str()); }
        push_str(&mut msg, "% 的数据 \u{28}读取 ");
        { let t = format_val(rows_read, 0); push_str(&mut msg, t.as_str()); }
        push_str(&mut msg, " 行 / 原始 ");
        { let t = format_val(raw_rows_read, 0); push_str(&mut msg, t.as_str()); }
        push_str(&mut msg, " 行\u{29}");
        let mut ps: Vec<ParameterSuggestion> = Vec::new();
        proof { assert(vparams(ps@) =~= seq![]); }
        let sl: [&str; 4] = ["添加更精确的过滤条件", "检查谓词是否可以下推到存储层", "考虑使用分区裁剪", "检查 ZoneMap 索引是否生效"];
        proof { assert(vlit(sl@) =~= seq!["添加更精确的过滤条件"@, "检查谓词是否可以下推到存储层"@, "考虑使用分区裁剪"@, "检查 ZoneMap 索引是否生效"@]); }
        Some(make_diag("S003", "过滤效果差", RuleSeverity::Warning, node, msg, "基于扫描原始数据量以及最终输出数据量判断，Scan 算子扫描数据量较大但输出给下游的数据量未显著减少。StarRocks 提供索引、谓词下推、Runtime Filter 等多种方式过滤数据。", &sl, ps))
        } else { None }
    }
}

/// S004: no predicate is pushed down while more than 10% of over 10k raw rows are filtered in expressions.
pub struct S004PredicateNotPushed;

/// The diagnostic S004 reports on `node`, if any.
pub open spec fn spec_s004(node: ExecutionTreeNode) -> Option<DiagnosticView> {
let pushdown = match spec_get_metric(node, "PushdownPredicates"@) { Some(x) => x, None => dint(0) };
let pred_filter = match spec_get_metric(node, "PredFilterRows"@) { Some(x) => x, None => dint(0) };
let raw_rows = match spec_get_metric(node, "RawRowsRead"@) { Some(x) => x, None => dint(0) };
if pushdown.mant == 0 && lin_gt(raw_rows, 1, dint(10000), 1) && lin_gt(pred_filter, 10, raw_rows, 1) { Some(node_diag("S004"@, "谓词未下推"@, RuleSeverity::Warning, node, Seq::<char>::empty() + "谓词未能下推到存储层，"@ + fmt_val(pred_filter, 0) + " 行 \u{28}"@ + fmt_q(pred_filter, 100, raw_rows, 1, 1) + "%\u{29} 在表达式层过滤"@, "查询条件未能下推到存储层执行，导致需要在计算层过滤大量数据。可能是查询条件包含函数、类型不匹配或不支持下推的表达式。"@, seq!["将谓词重写为简单比较"@, "添加 zonemap/Bloom 索引"@], seq![])) } else { None }
}

impl DiagnosticRule for S004PredicateNotPushed {
    fn id(&self) -> (r: &'static str)
        ensures
            r@ == "S004"@,
    {
        "S004"
    }

    fn name(&self) -> (r: &'static str)
        ensures
            r@ == "谓词未下推"@,
    {
        "谓词未下推"
    }

    fn applicable_to(&self, node: &ExecutionTreeNode) -> (b: bool)
        ensures
            b == (name_has(*node, "SCAN"@)),
    {
        upper_name_contains(node, "SCAN")
    }

    fn evaluate(&self, context: &RuleContext) -> (r: Option<Diagnostic>)
        ensures
            r is Some == spec_s004(*context.node) is Some,
            r matches Some(d) ==> Some(d@) == spec_s004(*context.node),
    {
        let node = context.node;
        let pushdown = match context.get_metric("PushdownPredicates") { Some(x) => x, None => Dec { mant: 0, exp: 0 } };
        let pred_filter = match context.get_metric("PredFilterRows") { Some(x) => x, None => Dec { mant: 0, exp: 0 } };
        let raw_rows = match context.get_metric("RawRowsRead") { Some(x) => x, None => Dec { mant: 0, exp: 0 } };
        if pushdown.mant == 0 && lin_gt_exec(raw_rows, 1, Dec { mant: 10000, exp: 0 }, 1) && lin_gt_exec(pred_filter, 10, raw_rows, 1) {
        let mut msg = String::new();
        push_str(&mut msg, "谓词未能下推到存储层，");
        { let t = format_val(pred_filter, 0); push_str(&mut msg, t.as_str()); }
        push_str(&mut msg, " 行 \u{28}");
        { let t = format_quot(pred_filter, 100, raw_rows, 1, 1); push_str(&mut msg, t.as_str()); }
        push_str(&mut msg, "%\u{29} 在表达式层过滤");
        let mut ps: Vec<ParameterSuggestion> = Vec::new();
        proof { assert(vparams(ps@) =~= seq![]); }
        let sl: [&str; 2] = ["将谓词重写为简单比较", "添加 zonemap/Bloom 索引"];
        proof { assert(vlit(sl@) =~= seq!["将谓词重写为简单比较"@, "添加 zonemap/Bloom 索引"@]); }
        Some(make_diag("S004", "谓词未下推", RuleSeverity::Warning, node, msg, "查询条件未能下推到存储层执行，导致需要在计算层过滤大量数据。可能是查询条件包含函数、类型不匹配或不支持下推的表达式。", &sl, ps))
        } else { None }
    }
}

/// S005: IO tasks wait more than 1 s with fewer than 10 peak IO tasks.
pub struct S005IOThreadPoolSaturation;

/// The diagnostic S005 reports on `node`, if any.
pub open spec fn spec_s005(node: ExecutionTreeNode) -> Option<DiagnosticView> {
let wait_time = match spec_get_metric(node, "IOTaskWaitTime"@) { Some(x) => x, None => dint(0) };
let peak_tasks = match spec_get_metric(node, "PeakIOTasks"@) { Some(x) => x, None => dint(100) };
if lin_gt(wait_time, 1, dint(1000000000), 1) && lin_gt(dint(10), 1, peak_tasks, 1) { Some(node_diag("S005"@, "IO 线程池饱和"@, RuleSeverity::Warning, node, Seq::<char>::empty() + "IO 线程池可能已饱和，等待时间 "@ + fmt_q(wait_time, 1, dint(1000000000), 1, 1) + "s"@, "IO 线程池使用率过高，导致 IO 任务等待时间过长。可能是并发查询过多或存储性能不足。"@, seq!["增加 BE 上的 max_io_threads 配置"@], seq![])) } else { None }
}

impl DiagnosticRule for S005IOThreadPoolSaturation {
    fn id(&self) -> (r: &'static str)
        ensures
            r@ == "S005"@,
    {
        "S005"
    }

    fn name(&self) -> (r: &'static str)
        ensures
            r@ == "IO 线程池饱和"@,
    {
        "IO 线程池饱和"
    }

    fn applicable_to(&self, node: &ExecutionTreeNode) -> (b: bool)
        ensures
            b == (name_has(*node, "SCAN"@)),
    {
        upper_name_contains(node, "SCAN")
    }

    fn evaluate(&self, context: &RuleContext) -> (r: Option<Diagnostic>)
        ensures
            r is Some == spec_s005(*context.node) is Some,
            r matches Some(d) ==> Some(d@) == spec_s005(*context.node),
    {
        let node = context.node;
        let wait_time = match context.get_metric("IOTaskWaitTime") { Some(x) => x, None => Dec { mant: 0, exp: 0 } };
        let peak_tasks = match context.get_metric("PeakIOTasks") { Some(x) => x, None => Dec { mant: 100, exp: 0 } };
        if lin_gt_exec(wait_time, 1, Dec { mant: 1000000000, exp: 0 }, 1) && lin_gt_exec(Dec { mant: 10, exp: 0 }, 1, peak_tasks, 1) {
        let mut msg = String::new();
        push_str(&mut msg, "IO 线程池可能已饱和，等待时间 ");
        { let t = format_quot(wait_time, 1, Dec { mant: 1000000000, exp: 0 }, 1, 1); push_str(&mut msg, t.as_str()); }
        push_str(&mut msg, "s");
        let mut ps: Vec<ParameterSuggestion> = Vec::new();
        proof { assert(vparams(ps@) =~= seq![]); }
        let sl: [&str; 1] = ["增加 BE 上的 max_io_threads 配置"];
        proof { assert(vlit(sl@) =~= seq!["增加 BE 上的 max_io_threads 配置"@]); }
        Some(make_diag("S005", "IO 线程池饱和", RuleSeverity::Warning, node, msg, "IO 线程池使用率过高，导致 IO 任务等待时间过长。可能是并发查询过多或存储性能不足。", &sl, ps))
        } else { None }
    }
}

/// S006: more than 100 rowsets read with segment initialisation above 500 ms.
pub struct S006RowsetFragmentation;

/// The diagnostic S006 reports on `node`, if any.
pub open spec fn spec_s006(node: ExecutionTreeNode) -> Option<DiagnosticView> {
let rowsets = match spec_get_metric(node, "RowsetsReadCount"@) { Some(x) => x, None => dint(0) };
let init_time = match spec_get_metric(node, "SegmentInitTime"@) { Some(x) => x, None => dint(0) };
if lin_gt(rowsets, 1, dint(100), 1) && lin_gt(init_time, 1, dint(500000000), 1) { Some(node_diag("S006"@, "Rowset 碎片化"@, RuleSeverity::Warning, node, Seq::<char>::empty() + "Rowset 数量过多 \u{28}"@ + fmt_val(rowsets, 0) + "，初始化耗时 "@ + fmt_q(init_time, 1, dint(1000000), 1, 1) + "ms"@, "Rowset 数量过多导致 Segment 初始化时间过长。通常是频繁小批量导入或 Compaction 不及时导致。"@, seq!["触发手动 Compaction"@, "批量合并小型导入任务"@], seq![])) } else { None }
}

impl DiagnosticRule for S006RowsetFragmentation {
    fn id(&self) -> (r: &'static str)
        ensures
            r@ == "S006"@,
    {
        "S006"
    }

    fn name(&self) -> (r: &'static str)
        ensures
            r@ == "Rowset 碎片化"@,
    {
        "Rowset 碎片化"
    }

    fn applicable_to(&self, node: &ExecutionTreeNode) -> (b: bool)
        ensures
            b == (name_has(*node, "SCAN"@)),
    {
        upper_name_contains(node, "SCAN")
    }

    fn evaluate(&self, context: &RuleContext) -> (r: Option<Diagnostic>)
        ensures
            r is Some == spec_s006(*context.node) is Some,
            r matches Some(d) ==> Some(d@) == spec_s006(*context.node),
    {
        let node = context.node;
        let rowsets = match context.get_metric("RowsetsReadCount") { Some(x) => x, None => Dec { mant: 0, exp: 0 } };
        let init_time = match context.get_metric("SegmentInitTime") { Some(x) => x, None => Dec { mant: 0, exp: 0 } };
        if lin_gt_exec(rowsets, 1, Dec { mant: 100, exp: 0 }, 1) && lin_gt_exec(init_time, 1, Dec { mant: 500000000, exp: 0 }, 1) {
        let mut msg = String::new();
        push_str(&mut msg, "Rowset 数量过多 \u{28}");
        { let t = format_val(rowsets, 0); push_str(&mut msg, t.as_str()); }
        push_str(&mut msg, "，初始化耗时 ");
        { let t = format_quot(init_time, 1, Dec { mant: 1000000, exp: 0 }, 1, 1); push_str(&mut msg, t.as_str()); }
        push_str(&mut msg, "ms");
        let mut ps: Vec<ParameterSuggestion> = Vec::new();
        proof { assert(vparams(ps@) =~= seq![]); }
        let sl: [&str; 2] = ["触发手动 Compaction", "批量合并小型导入任务"];
        proof { assert(vlit(sl@) =~= seq!["触发手动 Compaction"@, "批量合并小型导入任务"@]); }
        Some(make_diag("S006", "Rowset 碎片化", RuleSeverity::Warning, node, msg, "Rowset 数量过多导致 Segment 初始化时间过长。通常是频繁小批量导入或 Compaction 不及时导致。", &sl, ps))
        } else { None }
    }
}

/// S007: IO takes more than 80% of the scan time while more than 1 GB is read.
pub struct S007ColdStorage;

/// The diagnostic S007 reports on `node`, if any.
pub open spec fn spec_s007(node: ExecutionTreeNode) -> Option<DiagnosticView> {
match or_dec(spec_get_metric(node, "IOTime"@), spec_get_metric(node, "IOTaskExecTime"@)) { None => None, Some(io_time) => {
match or_dec(spec_get_metric(node, "ScanTime"@), spec_operator_time_ms(node)) { None => None, Some(scan_time) => {
let bytes_read = match spec_get_metric(node, "BytesRead"@) { Some(x) => x, None => dint(0) };
if scan_time.mant == 0 { None } else if lin_gt(io_time, 10, scan_time, 8) && lin_gt(bytes_read, 1, dint(1073741824), 1) { Some(node_diag("S007"@, "冷存储访问"@, RuleSeverity::Warning, node, Seq::<char>::empty() + "IO 时间占比 "@ + fmt_q(io_time, 100, scan_time, 1, 1) + "%，读取数据量 "@ + spec_format_bytes(dec_floor(bytes_read)) + "，可能存在存储瓶颈"@, "数据存储在冷存储（如对象存储）上，IO 延迟较高。冷存储的 IOPS 和吞吐量通常低于本地 SSD。"@, seq!["检查存储性能，考虑使用 SSD"@, "增大 PageCache 缓存"@, "检查网络带宽（如果是远程存储）"@], seq![spec_suggestion("storage_page_cache_limit"@, ParameterType::BE, None, "30%"@, "# 修改 be.conf: storage_page_cache_limit = 30%"@), spec_suggestion("io_tasks_per_scan_operator"@, ParameterType::Session, None, "8"@, "SET io_tasks_per_scan_operator = 8;"@)])) } else { None } } } } }
}

impl DiagnosticRule for S007ColdStorage {
    fn id(&self) -> (r: &'static str)
        ensures
            r@ == "S007"@,
    {
        "S007"
    }

    fn name(&self) -> (r: &'static str)
        ensures
            r@ == "冷存储访问"@,
    {
        "冷存储访问"
    }

    fn applicable_to(&self, node: &ExecutionTreeNode) -> (b: bool)
        ensures
            b == (name_has(*node, "SCAN"@)),
    {
        upper_name_contains(node, "SCAN")
    }

    fn evaluate(&self, context: &RuleContext) -> (r: Option<Diagnostic>)
        ensures
            r is Some == spec_s007(*context.node) is Some,
            r matches Some(d) ==> Some(d@) == spec_s007(*context.node),
    {
        let node = context.node;
        let io_time = match first_dec(context.get_metric("IOTime"), context.get_metric("IOTaskExecTime")) { Some(v) => v, None => { return None; } };
        let scan_time = match first_dec(context.get_metric("ScanTime"), context.get_operator_time_ms()) { Some(v) => v, None => { return None; } };
        let bytes_read = match context.get_metric("BytesRead") { Some(x) => x, None => Dec { mant: 0, exp: 0 } };
        if scan_time.mant == 0 { return None; }
        if lin_gt_exec(io_time, 10, scan_time, 8) && lin_gt_exec(bytes_read, 1, Dec { mant: 1073741824, exp: 0 }, 1) {
        let mut msg = String::new();
        push_str(&mut msg, "IO 时间占比 ");
        { let t = format_quot(io_time, 100, scan_time, 1, 1); push_str(&mut msg, t.as_str()); }
        push_str(&mut msg, "%，读取数据量 ");
        { let t = format_bytes(floor_u64(bytes_read)); push_str(&mut msg, t.as_str()); }
        push_str(&mut msg, "，可能存在存储瓶颈");
        let mut ps: Vec<ParameterSuggestion> = Vec::new();
        ps.push(param("storage_page_cache_limit", ParameterType::BE, "30%", "# 修改 be.conf: storage_page_cache_limit = 30%"));
        ps.push(param("io_tasks_per_scan_operator", ParameterType::Session, "8", "SET io_tasks_per_scan_operator = 8;"));
        proof { assert(vparams(ps@) =~= seq![spec_suggestion("storage_page_cache_limit"@, ParameterType::BE, None, "30%"@, "# 修改 be.conf: storage_page_cache_limit = 30%"@), spec_suggestion("io_tasks_per_scan_operator"@, ParameterType::Session, None, "8"@, "SET io_tasks_per_scan_operator = 8;"@)]); }
        let sl: [&str; 3] = ["检查存储性能，考虑使用 SSD", "增大 PageCache 缓存", "检查网络带宽（如果是远程存储）"];
        proof { assert(vlit(sl@) =~= seq!["检查存储性能，考虑使用 SSD"@, "增大 PageCache 缓存"@, "检查网络带宽（如果是远程存储）"@]); }
        Some(make_diag("S007", "冷存储访问", RuleSeverity::Warning, node, msg, "数据存储在冷存储（如对象存储）上，IO 延迟较高。冷存储的 IOPS 和吞吐量通常低于本地 SSD。", &sl, ps))
        } else { None }
    }
}

/// S008: the ZoneMap index filters nothing on more than 100k raw rows.
pub struct S008ZoneMapNotEffective;

/// The diagnostic S008 reports on `node`, if any.
pub open spec fn spec_s008(node: ExecutionTreeNode) -> Option<DiagnosticView> {
let zonemap_rows = match spec_get_metric(node, "ZoneMapIndexFilterRows"@) { Some(x) => x, None => dint(0) };
let raw_rows = match spec_get_metric(node, "RawRowsRead"@) { Some(x) => x, None => dint(0) };
if zonemap_rows.mant == 0 && lin_gt(raw_rows, 1, dint(100000), 1) { Some(node_diag("S008"@, "ZoneMap 索引未生效"@, RuleSeverity::Info, node, Seq::<char>::empty() + "ZoneMap 索引未能过滤数据"@, "ZoneMap 索引未能有效过滤数据。ZoneMap 基于排序键的 min/max 值过滤，需要查询条件包含排序键或前缀列。"@, seq!["确保查询条件包含排序键或前缀列"@], seq![])) } else { None }
}

impl DiagnosticRule for S008ZoneMapNotEffective {
    fn id(&self) -> (r: &'static str)
        ensures
            r@ == "S008"@,
    {
        "S008"
    }

    fn name(&self) -> (r: &'static str)
        ensures
            r@ == "ZoneMap 索引未生效"@,
    {
        "ZoneMap 索引未生效"
    }

    fn applicable_to(&self, node: &ExecutionTreeNode) -> (b: bool)
        ensures
            b == (name_has(*node, "SCAN"@)),
    {
        upper_name_contains(node, "SCAN")
    }

    fn evaluate(&self, context: &RuleContext) -> (r: Option<Diagnostic>)
        ensures
            r is Some == spec_s008(*context.node) is Some,
            r matches Some(d) ==> Some(d@) == spec_s008(*context.node),
    {
        let node = context.node;
        let zonemap_rows = match context.get_metric("ZoneMapIndexFilterRows") { Some(x) => x, None => Dec { mant: 0, exp: 0 } };
        let raw_rows = match context.get_metric("RawRowsRead") { Some(x) => x, None => Dec { mant: 0, exp: 0 } };
        if zonemap_rows.mant == 0 && lin_gt_exec(raw_rows, 1, Dec { mant: 100000, exp: 0 }, 1) {
        let mut msg = String::new();
        push_str(&mut msg, "ZoneMap 索引未能过滤数据");
        let mut ps: Vec<ParameterSuggestion> = Vec::new();
        proof { assert(vparams(ps@) =~= seq![]); }
        let sl: [&str; 1] = ["确保查询条件包含排序键或前缀列"];
        proof { assert(vlit(sl@) =~= seq!["确保查询条件包含排序键或前缀列"@]); }
        Some(make_diag("S008", "ZoneMap 索引未生效", RuleSeverity::Info, node, msg, "ZoneMap 索引未能有效过滤数据。ZoneMap 基于排序键的 min/max 值过滤，需要查询条件包含排序键或前缀列。", &sl, ps))
        } else { None }
    }
}

/// S009: fewer than 30% of more than 1000 read pages come from the cache.
pub struct S009LowCacheHit;

/// The diagnostic S009 reports on `node`, if any.
pub open spec fn spec_s009(node: ExecutionTreeNode) -> Option<DiagnosticView> {
match spec_get_metric(node, "CachedPagesNum"@) { None => None, Some(cached_pages) => {
match spec_get_metric(node, "ReadPagesNum"@) { None => None, Some(read_pages) => {
if read_pages.mant == 0 { None } else if lin_gt(read_pages, 3, cached_pages, 10) && lin_gt(read_pages, 1, dint(1000), 1) { Some(node_diag("S009"@, "缓存命中率低"@, RuleSeverity::Info, node, Seq::<char>::empty() + "缓存命中率仅 "@ + fmt_q(cached_pages, 100, read_pages, 1, 1) + "% \u{28}"@ + fmt_val(cached_pages, 0) + "/"@ + fmt_val(read_pages, 0) + " pages\u{29}"@, "数据缓存命中率低，大量数据需要从磁盘或远程存储读取。可能是缓存容量不足或数据访问模式不适合缓存。"@, seq!["增大 PageCache 容量"@, "检查是否有其他查询竞争缓存"@, "考虑启用数据缓存"@], seq![spec_suggestion("enable_scan_datacache"@, ParameterType::Session, None, "true"@, "SET enable_scan_datacache = true;"@)])) } else { None } } } } }
}

impl DiagnosticRule for S009LowCacheHit {
    fn id(&self) -> (r: &'static str)
        ensures
            r@ == "S009"@,
    {
        "S009"
    }

    fn name(&self) -> (r: &'static str)
        ensures
            r@ == "缓存命中率低"@,
    {
        "缓存命中率低"
    }

    fn applicable_to(&self, node: &ExecutionTreeNode) -> (b: bool)
        ensures
            b == (name_has(*node, "SCAN"@)),
    {
        upper_name_contains(node, "SCAN")
    }

    fn evaluate(&self, context: &RuleContext) -> (r: Option<Diagnostic>)
        ensures
            r is Some == spec_s009(*context.node) is Some,
            r matches Some(d) ==> Some(d@) == spec_s009(*context.node),
    {
        let node = context.node;
        let cached_pages = match context.get_metric("CachedPagesNum") { Some(v) => v, None => { return None; } };
        let read_pages = match context.get_metric("ReadPagesNum") { Some(v) => v, None => { return None; } };
        if read_pages.mant == 0 { return None; }
        if lin_gt_exec(read_pages, 3, cached_pages, 10) && lin_gt_exec(read_pages, 1, Dec { mant: 1000, exp: 0 }, 1) {
        let mut msg = String::new();
        push_str(&mut msg, "缓存命中率仅 ");
        { let t = format_quot(cached_pages, 100, read_pages, 1, 1); push_str(&mut msg, t.as_str()); }
        push_str(&mut msg, "% \u{28}");
        { let t = format_val(cached_pages, 0); push_str(&mut msg, t.as_str()); }
        push_str(&mut msg, "/");
        { let t = format_val(read_pages, 0); push_str(&mut msg, t.as_str()); }
        push_str(&mut msg, " pages\u{29}");
        let mut ps: Vec<ParameterSuggestion> = Vec::new();
        ps.push(param("enable_scan_datacache", ParameterType::Session, "true", "SET enable_scan_datacache = true;"));
        proof { assert(vparams(ps@) =~= seq![spec_suggestion("enable_scan_datacache"@, ParameterType::Session, None, "true"@, "SET enable_scan_datacache = true;"@)]); }
        let sl: [&str; 3] = ["增大 PageCache 容量", "检查是否有其他查询竞争缓存", "考虑启用数据缓存"];
        proof { assert(vlit(sl@) =~= seq!["增大 PageCache 容量"@, "检查是否有其他查询竞争缓存"@, "考虑启用数据缓存"@]); }
        Some(make_diag("S009", "缓存命中率低", RuleSeverity::Info, node, msg, "数据缓存命中率低，大量数据需要从磁盘或远程存储读取。可能是缓存容量不足或数据访问模式不适合缓存。", &sl, ps))
        } else { None }
    }
}

/// S010: runtime filters remove no row while more than 100k raw rows are scanned.
pub struct S010RFNotEffective;

/// The diagnostic S010 reports on `node`, if any.
pub open spec fn spec_s010(node: ExecutionTreeNode) -> Option<DiagnosticView> {
let rf_rows = match spec_get_metric(node, "RuntimeFilterRows"@) { Some(x) => x, None => dint(0) };
let raw_rows = match spec_get_metric(node, "RawRowsRead"@) { Some(x) => x, None => dint(0) };
if rf_rows.mant == 0 && lin_gt(raw_rows, 1, dint(100000), 1) { Some(node_diag("S010"@, "Scan Runtime Filter 未生效"@, RuleSeverity::Info, node, Seq::<char>::empty() + "Runtime Filter 未过滤任何行，扫描了 "@ + fmt_val(raw_rows, 0) + " 行"@, "Runtime Filter 未能有效过滤数据。可能是 Filter 构建失败、超时或 Filter 选择性差。"@, seq!["检查 Runtime Filter 是否被生成"@, "检查 Join 条件是否适合生成 RF"@, "确认 enable_global_runtime_filter 已启用"@], seq![spec_suggestion("enable_global_runtime_filter"@, ParameterType::Session, None, "true"@, "SET enable_global_runtime_filter = true;"@)])) } else { None }
}

impl DiagnosticRule for S010RFNotEffective {
    fn id(&self) -> (r: &'static str)
        ensures
            r@ == "S010"@,
    {
        "S010"
    }

    fn name(&self) -> (r: &'static str)
        ensures
            r@ == "Scan Runtime Filter 未生效"@,
    {
        "Scan Runtime Filter 未生效"
    }

    fn applicable_to(&self, node: &ExecutionTreeNode) -> (b: bool)
        ensures
            b == (name_has(*node, "SCAN"@)),
    {
        upper_name_contains(node, "SCAN")
    }

    fn evaluate(&self, context: &RuleContext) -> (r: Option<Diagnostic>)
        ensures
            r is Some == spec_s010(*context.node) is Some,
            r matches Some(d) ==> Some(d@) == spec_s010(*context.node),
    {
        let node = context.node;
        let rf_rows = match context.get_metric("RuntimeFilterRows") { Some(x) => x, None => Dec { mant: 0, exp: 0 } };
        let raw_rows = match context.get_metric("RawRowsRead") { Some(x) => x, None => Dec { mant: 0, exp: 0 } };
        if rf_rows.mant == 0 && lin_gt_exec(raw_rows, 1, Dec { mant: 100000, exp: 0 }, 1) {
        let mut msg = String::new();
        push_str(&mut msg, "Runtime Filter 未过滤任何行，扫描了 ");
        { let t = format_val(raw_rows, 0); push_str(&mut msg, t.as_str()); }
        push_str(&mut msg, " 行");
        let mut ps: Vec<ParameterSuggestion> = Vec::new();
        ps.push(param("enable_global_runtime_filter", ParameterType::Session, "true", "SET enable_global_runtime_filter = true;"));
        proof { assert(vparams(ps@) =~= seq![spec_suggestion("enable_global_runtime_filter"@, ParameterType::Session, None, "true"@, "SET enable_global_runtime_filter = true;"@)]); }
        let sl: [&str; 3] = ["检查 Runtime Filter 是否被生成", "检查 Join 条件是否适合生成 RF", "确认 enable_global_runtime_filter 已启用"];
        proof { assert(vlit(sl@) =~= seq!["检查 Runtime Filter 是否被生成"@, "检查 Join 条件是否适合生成 RF"@, "确认 enable_global_runtime_filter 已启用"@]); }
        Some(make_diag("S010", "Scan Runtime Filter 未生效", RuleSeverity::Info, node, msg, "Runtime Filter 未能有效过滤数据。可能是 Filter 构建失败、超时或 Filter 选择性差。", &sl, ps))
        } else { None }
    }
}

/// S011: soft-deleted rows are more than 30% of the raw rows.
pub struct S011SoftDeletes;

/// The diagnostic S011 reports on `node`, if any.
pub open spec fn spec_s011(node: ExecutionTreeNode) -> Option<DiagnosticView> {
match spec_get_metric(node, "DelVecFilterRows"@) { None => None, Some(del_vec_rows) => {
match spec_get_metric(node, "RawRowsRead"@) { None => None, Some(raw_rows) => {
if raw_rows.mant == 0 { None } else if lin_gt(del_vec_rows, 10, raw_rows, 3) { Some(node_diag("S011"@, "累积软删除过多"@, RuleSeverity::Warning, node, Seq::<char>::empty() + "软删除行占比 "@ + fmt_q(del_vec_rows, 100, raw_rows, 1, 1) + "%，建议执行 Compaction"@, "表中存在大量软删除记录，扫描时需要过滤这些已删除的行。建议执行 Compaction 清理删除标记。"@, seq!["执行手动 Compaction 清理软删除"@, "检查 Compaction 调度是否正常"@, "考虑调整 Compaction 策略"@], seq![])) } else { None } } } } }
}

impl DiagnosticRule for S011SoftDeletes {
    fn id(&self) -> (r: &'static str)
        ensures
            r@ == "S011"@,
    {
        "S011"
    }

    fn name(&self) -> (r: &'static str)
        ensures
            r@ == "累积软删除过多"@,
    {
        "累积软删除过多"
    }

    fn applicable_to(&self, node: &ExecutionTreeNode) -> (b: bool)
        ensures
            b == (name_has(*node, "SCAN"@)),
    {
        upper_name_contains(node, "SCAN")
    }

    fn evaluate(&self, context: &RuleContext) -> (r: Option<Diagnostic>)
        ensures
            r is Some == spec_s011(*context.node) is Some,
            r matches Some(d) ==> Some(d@) == spec_s011(*context.node),
    {
        let node = context.node;
        let del_vec_rows = match context.get_metric("DelVecFilterRows") { Some(v) => v, None => { return None; } };
        let raw_rows = match context.get_metric("RawRowsRead") { Some(v) => v, None => { return None; } };
        if raw_rows.mant == 0 { return None; }
        if lin_gt_exec(del_vec_rows, 10, raw_rows, 3) {
        let mut msg = String::new();
        push_str(&mut msg, "软删除行占比 ");
        { let t = format_quot(del_vec_rows, 100, raw_rows, 1, 1); push_str(&mut msg, t.as_str()); }
        push_str(&mut msg, "%，建议执行 Compaction");
        let mut ps: Vec<ParameterSuggestion> = Vec::new();
        proof { assert(vparams(ps@) =~= seq![]); }
        let sl: [&str; 3] = ["执行手动 Compaction 清理软删除", "检查 Compaction 调度是否正常", "考虑调整 Compaction 策略"];
        proof { assert(vlit(sl@) =~= seq!["执行手动 Compaction 清理软删除"@, "检查 Compaction 调度是否正常"@, "考虑调整 Compaction 策略"@]); }
        Some(make_diag("S011", "累积软删除过多", RuleSeverity::Warning, node, msg, "表中存在大量软删除记录，扫描时需要过滤这些已删除的行。建议执行 Compaction 清理删除标记。", &sl, ps))
        } else { None }
    }
}

/// S012: the bitmap index filters nothing while expressions filter more than 10% of over 100k raw rows.
pub struct S012BitmapIndexNotEffective;

/// The diagnostic S012 reports on `node`, if any.
pub open spec fn spec_s012(node: ExecutionTreeNode) -> Option<DiagnosticView> {
let bitmap_rows = match spec_get_metric(node, "BitmapIndexFilterRows"@) { Some(x) => x, None => dint(0) };
let raw_rows = match spec_get_metric(node, "RawRowsRead"@) { Some(x) => x, None => dint(0) };
let expr_filter = match spec_get_metric(node, "ExprFilterRows"@) { Some(x) => x, None => dint(0) };
if bitmap_rows.mant == 0 && lin_gt(raw_rows, 1, dint(100000), 1) && lin_gt(expr_filter, 10, raw_rows, 1) { Some(node_diag("S012"@, "Bitmap 索引未生效"@, RuleSeverity::Info, node, Seq::<char>::empty() + "Bitmap 索引未过滤数据，表达式过滤了 "@ + fmt_val(expr_filter, 0) + " 行"@, "Bitmap 索引适用于基数较低且大量重复的字段（如性别、状态）。如果查询条件包含这类字段但未命中索引，可能是未创建索引或查询条件不支持。"@, seq!["对低基数列（如状态、类型）创建 Bitmap 索引"@, "确保查询条件使用等值匹配 \u{28}=, IN\u{29}"@, "检查 Profile 中 BitmapIndexFilterRows 指标"@], seq![])) } else { None }
}

impl DiagnosticRule for S012BitmapIndexNotEffective {
    fn id(&self) -> (r: &'static str)
        ensures
            r@ == "S012"@,
    {
        "S012"
    }

    fn name(&self) -> (r: &'static str)
        ensures
            r@ == "Bitmap 索引未生效"@,
    {
        "Bitmap 索引未生效"
    }

    fn applicable_to(&self, node: &ExecutionTreeNode) -> (b: bool)
        ensures
            b == (name_has(*node, "SCAN"@)),
    {
        upper_name_contains(node, "SCAN")
    }

    fn evaluate(&self, context: &RuleContext) -> (r: Option<Diagnostic>)
        ensures
            r is Some == spec_s012(*context.node) is Some,
            r matches Some(d) ==> Some(d@) == spec_s012(*context.node),
    {
        let node = context.node;
        let bitmap_rows = match context.get_metric("BitmapIndexFilterRows") { Some(x) => x, None => Dec { mant: 0, exp: 0 } };
        let raw_rows = match context.get_metric("RawRowsRead") { Some(x) => x, None => Dec { mant: 0, exp: 0 } };
        let expr_filter = match context.get_metric("ExprFilterRows") { Some(x) => x, None => Dec { mant: 0, exp: 0 } };
        if bitmap_rows.mant == 0 && lin_gt_exec(raw_rows, 1, Dec { mant: 100000, exp: 0 }, 1) && lin_gt_exec(expr_filter, 10, raw_rows, 1) {
        let mut msg = String::new();
        push_str(&mut msg, "Bitmap 索引未过滤数据，表达式过滤了 ");
        { let t = format_val(expr_filter, 0); push_str(&mut msg, t.as_str()); }
        push_str(&mut msg, " 行");
        let mut ps: Vec<ParameterSuggestion> = Vec::new();
        proof { assert(vparams(ps@) =~= seq![]); }
        let sl: [&str; 3] = ["对低基数列（如状态、类型）创建 Bitmap 索引", "确保查询条件使用等值匹配 (=, IN)", "检查 Profile 中 BitmapIndexFilterRows 指标"];
        proof { assert(vlit(sl@) =~= seq!["对低基数列（如状态、类型）创建 Bitmap 索引"@, "确保查询条件使用等值匹配 \u{28}=, IN\u{29}"@, "检查 Profile 中 BitmapIndexFilterRows 指标"@]); }
        Some(make_diag("S012", "Bitmap 索引未生效", RuleSeverity::Info, node, msg, "Bitmap 索引适用于基数较低且大量重复的字段（如性别、状态）。如果查询条件包含这类字段但未命中索引，可能是未创建索引或查询条件不支持。", &sl, ps))
        } else { None }
    }
}

/// S013: the bloom filter index filters nothing while expressions filter more than half of over 100k raw rows.
pub struct S013BloomFilterNotEffective;

/// The diagnostic S013 reports on `node`, if any.
pub open spec fn spec_s013(node: ExecutionTreeNode) -> Option<DiagnosticView> {
let bloom_rows = match spec_get_metric(node, "BloomFilterFilterRows"@) { Some(x) => x, None => dint(0) };
let raw_rows = match spec_get_metric(node, "RawRowsRead"@) { Some(x) => x, None => dint(0) };
let expr_filter = match spec_get_metric(node, "ExprFilterRows"@) { Some(x) => x, None => dint(0) };
if bloom_rows.mant == 0 && lin_gt(raw_rows, 1, dint(100000), 1) && lin_gt(expr_filter, 2, raw_rows, 1) { Some(node_diag("S013"@, "Bloom Filter 索引未生效"@, RuleSeverity::Info, node, Seq::<char>::empty() + "Bloom Filter 索引未过滤数据，表达式过滤了 "@ + fmt_val(expr_filter, 0) + " 行"@, "Bloom Filter 索引适用于高基数列（如 ID 列）的等值查询。仅支持 = 和 IN 条件，且 TINYINT/FLOAT/DOUBLE/DECIMAL 类型不支持。"@, seq!["对高基数列（如 ID 列）创建 Bloom Filter 索引"@, "确保查询条件使用等值匹配 \u{28}=, IN\u{29}"@, "注意: TINYINT/FLOAT/DOUBLE/DECIMAL 类型不支持 Bloom Filter"@, "检查 Profile 中 BloomFilterFilterRows 指标"@], seq![])) } else { None }
}

impl DiagnosticRule for S013BloomFilterNotEffective {
    fn id(&self) -> (r: &'static str)
        ensures
            r@ == "S013"@,
    {
        "S013"
    }

    fn name(&self) -> (r: &'static str)
        ensures
            r@ == "Bloom Filter 索引未生效"@,
    {
        "Bloom Filter 索引未生效"
    }

    fn applicable_to(&self, node: &ExecutionTreeNode) -> (b: bool)
        ensures
            b == (name_has(*node, "SCAN"@)),
    {
        upper_name_contains(node, "SCAN")
    }

    fn evaluate(&self, context: &RuleContext) -> (r: Option<Diagnostic>)
        ensures
            r is Some == spec_s013(*context.node) is Some,
            r matches Some(d) ==> Some(d@) == spec_s013(*context.node),
    {
        let node = context.node;
        let bloom_rows = match context.get_metric("BloomFilterFilterRows") { Some(x) => x, None => Dec { mant: 0, exp: 0 } };
        let raw_rows = match context.get_metric("RawRowsRead") { Some(x) => x, None => Dec { mant: 0, exp: 0 } };
        let expr_filter = match context.get_metric("ExprFilterRows") { Some(x) => x, None => Dec { mant: 0, exp: 0 } };
        if bloom_rows.mant == 0 && lin_gt_exec(raw_rows, 1, Dec { mant: 100000, exp: 0 }, 1) && lin_gt_exec(expr_filter, 2, raw_rows, 1) {
        let mut msg = String::new();
        push_str(&mut msg, "Bloom Filter 索引未过滤数据，表达式过滤了 ");
        { let t = format_val(expr_filter, 0); push_str(&mut msg, t.as_str()); }
        push_str(&mut msg, " 行");
        let mut ps: Vec<ParameterSuggestion> = Vec::new();
        proof { assert(vparams(ps@) =~= seq![]); }
        let sl: [&str; 4] = ["对高基数列（如 ID 列）创建 Bloom Filter 索引", "确保查询条件使用等值匹配 (=, IN)", "注意: TINYINT/FLOAT/DOUBLE/DECIMAL 类型不支持 Bloom Filter", "检查 Profile 中 BloomFilterFilterRows 指标"];
        proof { assert(vlit(sl@) =~= seq!["对高基数列（如 ID 列）创建 Bloom Filter 索引"@, "确保查询条件使用等值匹配 \u{28}=, IN\u{29}"@, "注意: TINYINT/FLOAT/DOUBLE/DECIMAL 类型不支持 Bloom Filter"@, "检查 Profile 中 BloomFilterFilterRows 指标"@]); }
        Some(make_diag("S013", "Bloom Filter 索引未生效", RuleSeverity::Info, node, msg, "Bloom Filter 索引适用于高基数列（如 ID 列）的等值查询。仅支持 = 和 IN 条件，且 TINYINT/FLOAT/DOUBLE/DECIMAL 类型不支持。", &sl, ps))
        } else { None }
    }
}

/// S014: a shuffle hash join sends more than 100 MB over the network.
pub struct S014ColocateJoinOpportunity;

/// The diagnostic S014 reports on `node`, if any.
pub open spec fn spec_s014(node: ExecutionTreeNode) -> Option<DiagnosticView> {
let bytes_sent = match or_dec(spec_get_metric(node, "BytesSent"@), spec_get_metric(node, "NetworkBytesSent"@)) { Some(x) => x, None => dint(0) };
if lin_gt(bytes_sent, 1, dint(104857600), 1) { Some(node_diag("S014"@, "可优化为 Colocate Join"@, RuleSeverity::Info, node, Seq::<char>::empty() + "Shuffle Join 网络传输 "@ + spec_format_bytes(dec_floor(bytes_sent)) + "，考虑使用 Colocate Join 优化"@, "Colocate Join 可以避免数据网络传输，显著提升 Join 性能。当两个表的分桶键相同且分桶数相同时，可以使用 Colocate Join。"@, seq!["将频繁 Join 的表设置为同一 Colocation Group"@, "确保两表的分桶键和分桶数相同"@, "使用 SHOW COLOCATION GROUP 查看现有分组"@, "Colocate Join 可避免数据网络传输，显著提升性能"@], seq![])) } else { None }
}

impl DiagnosticRule for S014ColocateJoinOpportunity {
    fn id(&self) -> (r: &'static str)
        ensures
            r@ == "S014"@,
    {
        "S014"
    }

    fn name(&self) -> (r: &'static str)
        ensures
            r@ == "可优化为 Colocate Join"@,
    {
        "可优化为 Colocate Join"
    }

    fn applicable_to(&self, node: &ExecutionTreeNode) -> (b: bool)
        ensures
            b == (name_has(*node, "HASH"@) && name_has(*node, "JOIN"@) && name_has(*node, "SHUFFLE"@)),
    {
        upper_name_contains(node, "HASH") && upper_name_contains(node, "JOIN") && upper_name_contains(node, "SHUFFLE")
    }

    fn evaluate(&self, context: &RuleContext) -> (r: Option<Diagnostic>)
        ensures
            r is Some == spec_s014(*context.node) is Some,
            r matches Some(d) ==> Some(d@) == spec_s014(*context.node),
    {
        let node = context.node;
        let bytes_sent = match first_dec(context.get_metric("BytesSent"), context.get_metric("NetworkBytesSent")) { Some(x) => x, None => Dec { mant: 0, exp: 0 } };
        if lin_gt_exec(bytes_sent, 1, Dec { mant: 104857600, exp: 0 }, 1) {
        let mut msg = String::new();
        push_str(&mut msg, "Shuffle Join 网络传输 ");
        { let t = format_bytes(floor_u64(bytes_sent)); push_str(&mut msg, t.as_str()); }
        push_str(&mut msg, "，考虑使用 Colocate Join 优化");
        let mut ps: Vec<ParameterSuggestion> = Vec::new();
        proof { assert(vparams(ps@) =~= seq![]); }
        let sl: [&str; 4] = ["将频繁 Join 的表设置为同一 Colocation Group", "确保两表的分桶键和分桶数相同", "使用 SHOW COLOCATION GROUP 查看现有分组", "Colocate Join 可避免数据网络传输，显著提升性能"];
        proof { assert(vlit(sl@) =~= seq!["将频繁 Join 的表设置为同一 Colocation Group"@, "确保两表的分桶键和分桶数相同"@, "使用 SHOW COLOCATION GROUP 查看现有分组"@, "Colocate Join 可避免数据网络传输，显著提升性能"@]); }
        Some(make_diag("S014", "可优化为 Colocate Join", RuleSeverity::Info, node, msg, "Colocate Join 可以避免数据网络传输，显著提升 Join 性能。当两个表的分桶键相同且分桶数相同时，可以使用 Colocate Join。", &sl, ps))
        } else { None }
    }
}

} // verus!
