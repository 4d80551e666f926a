//! Query-level rules (Q001-Q009), evaluated on the whole profile.
use vstd::prelude::*;
use crate::num::{Dec, lin_gt, lin_gt_exec, spec_parse_signed, parse_signed_range};
use crate::text::chars_of;
use crate::metrics::{push_str, spec_format_bytes, format_bytes, spec_parse_bytes, parse_spill_bytes,
    spec_parse_duration_ms, parse_duration_ms};
use crate::model::{ParameterSuggestion, ParameterSuggestionView, ParameterType, RuleSeverity,
    spec_suggestion, vlit, vparams, vstr, strings_of};
use crate::tree::{Profile, lookup, lookup_index};
use crate::rules::{
    param, fmt_val, fmt_q, format_val, format_quot, or_dec, first_dec, dint,
    spec_format_duration_ms, format_duration_ms,
};

verus! {

/// A query-level diagnostic.
#[derive(Debug, Clone)]
pub struct QueryDiagnostic {
    pub rule_id: String,
    pub rule_name: String,
    pub severity: RuleSeverity,
    pub message: String,
    pub reason: String,
    pub suggestions: Vec<String>,
    pub parameter_suggestions: Vec<ParameterSuggestion>,
}

pub struct QueryDiagnosticView {
    pub rule_id: Seq<char>,
    pub rule_name: Seq<char>,
    pub severity: RuleSeverity,
    pub message: Seq<char>,
    pub reason: Seq<char>,
    pub suggestions: Seq<Seq<char>>,
    pub parameter_suggestions: Seq<ParameterSuggestionView>,
}

impl View for QueryDiagnostic {
    type V = QueryDiagnosticView;

    open spec fn view(&self) -> QueryDiagnosticView {
        QueryDiagnosticView {
            rule_id: self.rule_id@,
            rule_name: self.rule_name@,
            severity: self.severity,
            message: self.message@,
            reason: self.reason@,
            suggestions: vstr(self.suggestions@),
            parameter_suggestions: vparams(self.parameter_suggestions@),
        }
    }
}

/// A rule evaluated once on the whole profile.
pub trait QueryRule {
    /// Rule id (e.g. `"Q001"`).
    fn id(&self) -> &'static str;

    /// Rule name.
    fn name(&self) -> &'static str;

    /// The diagnostic the rule reports for the profile, if any.
    fn evaluate(&self, profile: &Profile) -> Option<QueryDiagnostic>
        requires
            profile.wf(),
    ;
}

pub open spec fn qdiag(
    id: Seq<char>,
    name: Seq<char>,
    severity: RuleSeverity,
    message: Seq<char>,
    suggestions: Seq<Seq<char>>,
    params: Seq<ParameterSuggestionView>,
) -> QueryDiagnosticView {
    QueryDiagnosticView {
        rule_id: id,
        rule_name: name,
        severity,
        message,
        reason: "请参考 StarRocks 官方文档了解更多信息。"@,
        suggestions,
        parameter_suggestions: params,
    }
}

fn make_qdiag(
    id: &str,
    name: &str,
    severity: RuleSeverity,
    message: String,
    suggestions: &[&str],
    params: Vec<ParameterSuggestion>,
) -> (d: QueryDiagnostic)
    ensures
        d@ == qdiag(id@, name@, severity, message@, vlit(suggestions@), vparams(params@)),
{
    QueryDiagnostic {
        rule_id: String::from_str(id),
        rule_name: String::from_str(name),
        severity,
        message,
        reason: String::from_str("请参考 StarRocks 官方文档了解更多信息。"),
        suggestions: strings_of(suggestions),
        parameter_suggestions: params,
    }
}

/// The query's total time in ms: the summary's value, else its total-time text read
/// as a duration.
pub open spec fn spec_total_ms(p: Profile) -> Option<Dec> {
    or_dec(p.summary.total_time_ms, spec_parse_duration_ms(p.summary.total_time@))
}

fn total_ms(p: &Profile) -> (r: Option<Dec>)
    requires
        p.wf(),
    ensures
        r == spec_total_ms(*p),
        r matches Some(d) ==> d.wf(),
{
    first_dec(p.summary.total_time_ms, parse_duration_ms(p.summary.total_time.as_str()))
}

/// An optional duration text read as ms.
pub open spec fn opt_duration(s: Option<String>) -> Option<Dec> {
    match s {
        Some(t) => spec_parse_duration_ms(t@),
        None => None,
    }
}

fn opt_duration_exec(s: &Option<String>) -> (r: Option<Dec>)
    ensures
        r == opt_duration(*s),
        r matches Some(d) ==> d.wf(),
{
    match s {
        Some(t) => parse_duration_ms(t.as_str()),
        None => None,
    }
}

/// An execution metric read as a plain non-negative number.
pub open spec fn exec_metric(p: Profile, name: Seq<char>) -> Option<Dec> {
    match lookup(p.execution.metrics@, name) {
        Some(v) => match spec_parse_signed(v) {
            Some((false, d)) => Some(d),
            _ => None,
        },
        None => None,
    }
}

fn exec_metric_exec(p: &Profile, name: &str) -> (r: Option<Dec>)
    ensures
        r == exec_metric(*p, name@),
        r matches Some(d) ==> d.wf(),
{
    match lookup_index(&p.execution.metrics, name) {
        Some(i) => {
            let v = chars_of(p.execution.metrics[i].1.as_str());
            proof {
                assert(v@.subrange(0, v@.len() as int) =~= v@);
            }
            match parse_signed_range(&v, 0, v.len()) {
                Some((false, d)) => Some(d),
                _ => None,
            }
        },
        None => None,
    }
}

/// A byte-count reading of an optional size text.
pub open spec fn opt_bytes(s: Option<String>) -> Option<u64> {
    match s {
        Some(t) => spec_parse_bytes(t@),
        None => None,
    }
}

/// Q001: the query runs longer than 60 s.
pub struct Q001LongRunning;

/// The diagnostic Q001 reports on the profile, if any.
pub open spec fn spec_q001(p: Profile) -> Option<QueryDiagnosticView> {
match spec_total_ms(p) { None => None, Some(total) => {
if lin_gt(total, 1, dint(60000), 1) { Some(qdiag("Q001"@, "查询执行时间过长"@, RuleSeverity::Warning, Seq::<char>::empty() + "查询执行时间 "@ + spec_format_duration_ms(total) + "，超过 60 秒阈值"@, seq!["检查是否存在性能瓶颈算子"@, "考虑优化查询计划"@, "检查是否存在数据倾斜"@], seq![spec_suggestion("query_timeout"@, ParameterType::Session, None, "600"@, "SET query_timeout = 600;"@), spec_suggestion("query_mem_limit"@, ParameterType::Session, None, "8589934592"@, "SET query_mem_limit = 8589934592; -- 8GB"@)])) } else { None } } }
}

impl QueryRule for Q001LongRunning {
    fn id(&self) -> (r: &'static str)
        ensures
            r@ == "Q001"@,
    {
        "Q001"
    }

    fn name(&self) -> (r: &'static str)
        ensures
            r@ == "查询执行时间过长"@,
    {
        "查询执行时间过长"
    }

    fn evaluate(&self, p: &Profile) -> (r: Option<QueryDiagnostic>)
        ensures
            r is Some == spec_q001(*p) is Some,
            r matches Some(d) ==> Some(d@) == spec_q001(*p),
    {
        let total = match total_ms(p) { Some(v) => v, None => { return None; } };
        if lin_gt_exec(total, 1, Dec { mant: 60000, exp: 0 }, 1) {
        let mut msg = String::new();
        push_str(&mut msg, "查询执行时间 ");
        { let t = format_duration_ms(total); push_str(&mut msg, t.as_str()); }
        push_str(&mut msg, "，超过 60 秒阈值");
        let mut ps: Vec<ParameterSuggestion> = Vec::new();
        ps.push(param("query_timeout", ParameterType::Session, "600", "SET query_timeout = 600;"));
        ps.push(param("query_mem_limit", ParameterType::Session, "8589934592", "SET query_mem_limit = 8589934592; -- 8GB"));
        proof { assert(vparams(ps@) =~= seq![spec_suggestion("query_timeout"@, ParameterType::Session, None, "600"@, "SET query_timeout = 600;"@), spec_suggestion("query_mem_limit"@, ParameterType::Session, None, "8589934592"@, "SET query_mem_limit = 8589934592; -- 8GB"@)]); }
        let sl: [&str; 3] = ["检查是否存在性能瓶颈算子", "考虑优化查询计划", "检查是否存在数据倾斜"];
        proof { assert(vlit(sl@) =~= seq!["检查是否存在性能瓶颈算子"@, "考虑优化查询计划"@, "检查是否存在数据倾斜"@]); }
        Some(make_qdiag("Q001", "查询执行时间过长", RuleSeverity::Warning, msg, &sl, ps))
        } else { None }
    }
}

/// Q002: the query peak memory exceeds 10 GB.
pub struct Q002HighMemory;

/// The diagnostic Q002 reports on the profile, if any.
pub open spec fn spec_q002(p: Profile) -> Option<QueryDiagnosticView> {
match p.summary.query_peak_memory { None => None, Some(peak) => {
if peak > 10737418240 { Some(qdiag("Q002"@, "查询内存使用过高"@, RuleSeverity::Warning, Seq::<char>::empty() + "查询峰值内存 "@ + spec_format_bytes(peak as nat) + "，超过 10GB 阈值"@, seq!["检查是否存在大表 Join"@, "考虑启用 Spill 功能"@, "优化查询减少中间结果"@], seq![spec_suggestion("enable_spill"@, ParameterType::Session, None, "true"@, "SET enable_spill = true;"@), spec_suggestion("query_mem_limit"@, ParameterType::Session, None, "17179869184"@, "SET query_mem_limit = 17179869184; -- 16GB"@)])) } else { None } } }
}

impl QueryRule for Q002HighMemory {
    fn id(&self) -> (r: &'static str)
        ensures
            r@ == "Q002"@,
    {
        "Q002"
    }

    fn name(&self) -> (r: &'static str)
        ensures
            r@ == "查询内存使用过高"@,
    {
        "查询内存使用过高"
    }

    fn evaluate(&self, p: &Profile) -> (r: Option<QueryDiagnostic>)
        ensures
            r is Some == spec_q002(*p) is Some,
            r matches Some(d) ==> Some(d@) == spec_q002(*p),
    {
        let peak = match p.summary.query_peak_memory { Some(v) => v, None => { return None; } };
        if peak > 10737418240 {
        let mut msg = String::new();
        push_str(&mut msg, "查询峰值内存 ");
        { let t = format_bytes(peak); push_str(&mut msg, t.as_str()); }
        push_str(&mut msg, "，超过 10GB 阈值");
        let mut ps: Vec<ParameterSuggestion> = Vec::new();
        ps.push(param("enable_spill", ParameterType::Session, "true", "SET enable_spill = true;"));
        ps.push(param("query_mem_limit", ParameterType::Session, "17179869184", "SET query_mem_limit = 17179869184; -- 16GB"));
        proof { assert(vparams(ps@) =~= seq![spec_suggestion("enable_spill"@, ParameterType::Session, None, "true"@, "SET enable_spill = true;"@), spec_suggestion("query_mem_limit"@, ParameterType::Session, None, "17179869184"@, "SET query_mem_limit = 17179869184; -- 16GB"@)]); }
        let sl: [&str; 3] = ["检查是否存在大表 Join", "考虑启用 Spill 功能", "优化查询减少中间结果"];
        proof { assert(vlit(sl@) =~= seq!["检查是否存在大表 Join"@, "考虑启用 Spill 功能"@, "优化查询减少中间结果"@]); }
        Some(make_qdiag("Q002", "查询内存使用过高", RuleSeverity::Warning, msg, &sl, ps))
        } else { None }
    }
}

/// Q003: the query spilled data to disk.
pub struct Q003QuerySpill;

/// The diagnostic Q003 reports on the profile, if any.
pub open spec fn spec_q003(p: Profile) -> Option<QueryDiagnosticView> {
match opt_bytes(p.summary.query_spill_bytes) { None => None, Some(spill) => {
if spill > 0 { Some(qdiag("Q003"@, "查询发生落盘"@, RuleSeverity::Info, Seq::<char>::empty() + "查询发生磁盘溢写，溢写数据量 "@ + spec_format_bytes(spill as nat), seq!["增加内存限制以减少 Spill"@, "优化查询减少中间结果"@, "检查 Spill 是否影响性能"@], seq![spec_suggestion("query_mem_limit"@, ParameterType::Session, None, "8589934592"@, "SET query_mem_limit = 8589934592; -- 8GB"@)])) } else { None } } }
}

impl QueryRule for Q003QuerySpill {
    fn id(&self) -> (r: &'static str)
        ensures
            r@ == "Q003"@,
    {
        "Q003"
    }

    fn name(&self) -> (r: &'static str)
        ensures
            r@ == "查询发生落盘"@,
    {
        "查询发生落盘"
    }

    fn evaluate(&self, p: &Profile) -> (r: Option<QueryDiagnostic>)
        ensures
            r is Some == spec_q003(*p) is Some,
            r matches Some(d) ==> Some(d@) == spec_q003(*p),
    {
        let spill = match match &p.summary.query_spill_bytes { Some(t) => parse_spill_bytes(t.as_str()), None => None } { Some(v) => v, None => { return None; } };
        if spill > 0 {
        let mut msg = String::new();
        push_str(&mut msg, "查询发生磁盘溢写，溢写数据量 ");
        { let t = format_bytes(spill); push_str(&mut msg, t.as_str()); }
        let mut ps: Vec<ParameterSuggestion> = Vec::new();
        ps.push(param("query_mem_limit", ParameterType::Session, "8589934592", "SET query_mem_limit = 8589934592; -- 8GB"));
        proof { assert(vparams(ps@) =~= seq![spec_suggestion("query_mem_limit"@, ParameterType::Session, None, "8589934592"@, "SET query_mem_limit = 8589934592; -- 8GB"@)]); }
        let sl: [&str; 3] = ["增加内存限制以减少 Spill", "优化查询减少中间结果", "检查 Spill 是否影响性能"];
        proof { assert(vlit(sl@) =~= seq!["增加内存限制以减少 Spill"@, "优化查询减少中间结果"@, "检查 Spill 是否影响性能"@]); }
        Some(make_qdiag("Q003", "查询发生落盘", RuleSeverity::Info, msg, &sl, ps))
        } else { None }
    }
}

/// Q004: CPU time is less than 30% of the wall time.
pub struct Q004LowCPU;

/// The diagnostic Q004 reports on the profile, if any.
pub open spec fn spec_q004(p: Profile) -> Option<QueryDiagnosticView> {
match p.summary.query_cumulative_cpu_time_ms { None => None, Some(cpu) => {
match p.summary.query_execution_wall_time_ms { None => None, Some(wall) => {
if wall.mant == 0 { None } else if lin_gt(wall, 3, cpu, 10) { Some(qdiag("Q004"@, "CPU 利用率低"@, RuleSeverity::Warning, Seq::<char>::empty() + "CPU 利用率仅 "@ + fmt_q(cpu, 100, wall, 1, 1) + "%，可能存在等待或 IO 瓶颈"@, seq!["检查是否存在等待"@, "增加并行度"@], seq![spec_suggestion("pipeline_dop"@, ParameterType::Session, None, "0"@, "SET pipeline_dop = 0; -- auto"@)])) } else { None } } } } }
}

impl QueryRule for Q004LowCPU {
    fn id(&self) -> (r: &'static str)
        ensures
            r@ == "Q004"@,
    {
        "Q004"
    }

    fn name(&self) -> (r: &'static str)
        ensures
            r@ == "CPU 利用率低"@,
    {
        "CPU 利用率低"
    }

    fn evaluate(&self, p: &Profile) -> (r: Option<QueryDiagnostic>)
        ensures
            r is Some == spec_q004(*p) is Some,
            r matches Some(d) ==> Some(d@) == spec_q004(*p),
    {
        let cpu = match p.summary.query_cumulative_cpu_time_ms { Some(v) => v, None => { return None; } };
        let wall = match p.summary.query_execution_wall_time_ms { Some(v) => v, None => { return None; } };
        if wall.mant == 0 { return None; }
        if lin_gt_exec(wall, 3, cpu, 10) {
        let mut msg = String::new();
        push_str(&mut msg, "CPU 利用率仅 ");
        { let t = format_quot(cpu, 100, wall, 1, 1); push_str(&mut msg, t.as_str()); }
        push_str(&mut msg, "%，可能存在等待或 IO 瓶颈");
        let mut ps: Vec<ParameterSuggestion> = Vec::new();
        ps.push(param("pipeline_dop", ParameterType::Session, "0", "SET pipeline_dop = 0; -- auto"));
        proof { assert(vparams(ps@) =~= seq![spec_suggestion("pipeline_dop"@, ParameterType::Session, None, "0"@, "SET pipeline_dop = 0; -- auto"@)]); }
        let sl: [&str; 2] = ["检查是否存在等待", "增加并行度"];
        proof { assert(vlit(sl@) =~= seq!["检查是否存在等待"@, "增加并行度"@]); }
        Some(make_qdiag("Q004", "CPU 利用率低", RuleSeverity::Warning, msg, &sl, ps))
        } else { None }
    }
}

/// Q005: scan time is more than 80% of the total time.
pub struct Q005ScanDominates;

/// The diagnostic Q005 reports on the profile, if any.
pub open spec fn spec_q005(p: Profile) -> Option<QueryDiagnosticView> {
match or_dec(p.summary.query_cumulative_scan_time_ms, opt_duration(p.summary.query_cumulative_scan_time)) { None => None, Some(scan) => {
match spec_total_ms(p) { None => None, Some(total) => {
if total.mant == 0 { None } else if lin_gt(scan, 10, total, 8) { Some(qdiag("Q005"@, "扫描时间占比过高"@, RuleSeverity::Warning, Seq::<char>::empty() + "扫描时间占比 "@ + fmt_q(scan, 100, total, 1, 1) + "%，查询瓶颈在数据扫描"@, seq!["添加过滤条件减少扫描数据量"@, "检查分区裁剪是否生效"@, "考虑创建物化视图"@, "检查存储性能"@], seq![spec_suggestion("enable_scan_datacache"@, ParameterType::Session, None, "true"@, "SET enable_scan_datacache = true;"@)])) } else { None } } } } }
}

impl QueryRule for Q005ScanDominates {
    fn id(&self) -> (r: &'static str)
        ensures
            r@ == "Q005"@,
    {
        "Q005"
    }

    fn name(&self) -> (r: &'static str)
        ensures
            r@ == "扫描时间占比过高"@,
    {
        "扫描时间占比过高"
    }

    fn evaluate(&self, p: &Profile) -> (r: Option<QueryDiagnostic>)
        ensures
            r is Some == spec_q005(*p) is Some,
            r matches Some(d) ==> Some(d@) == spec_q005(*p),
    {
        let scan = match first_dec(p.summary.query_cumulative_scan_time_ms, opt_duration_exec(&p.summary.query_cumulative_scan_time)) { Some(v) => v, None => { return None; } };
        let total = match total_ms(p) { Some(v) => v, None => { return None; } };
        if total.mant == 0 { return None; }
        if lin_gt_exec(scan, 10, total, 8) {
        let mut msg = String::new();
        push_str(&mut msg, "扫描时间占比 ");
        { let t = format_quot(scan, 100, total, 1, 1); push_str(&mut msg, t.as_str()); }
        push_str(&mut msg, "%，查询瓶颈在数据扫描");
        let mut ps: Vec<ParameterSuggestion> = Vec::new();
        ps.push(param("enable_scan_datacache", ParameterType::Session, "true", "SET enable_scan_datacache = true;"));
        proof { assert(vparams(ps@) =~= seq![spec_suggestion("enable_scan_datacache"@, ParameterType::Session, None, "true"@, "SET enable_scan_datacache = true;"@)]); }
        let sl: [&str; 4] = ["添加过滤条件减少扫描数据量", "检查分区裁剪是否生效", "考虑创建物化视图", "检查存储性能"];
        proof { assert(vlit(sl@) =~= seq!["添加过滤条件减少扫描数据量"@, "检查分区裁剪是否生效"@, "考虑创建物化视图"@, "检查存储性能"@]); }
        Some(make_qdiag("Q005", "扫描时间占比过高", RuleSeverity::Warning, msg, &sl, ps))
        } else { None }
    }
}

/// Q006: network time is more than half of the total time.
pub struct Q006NetworkDominates;

/// The diagnostic Q006 reports on the profile, if any.
pub open spec fn spec_q006(p: Profile) -> Option<QueryDiagnosticView> {
match or_dec(p.summary.query_cumulative_network_time_ms, opt_duration(p.summary.query_cumulative_network_time)) { None => None, Some(network) => {
match spec_total_ms(p) { None => None, Some(total) => {
if total.mant == 0 { None } else if lin_gt(network, 2, total, 1) { Some(qdiag("Q006"@, "网络时间占比过高"@, RuleSeverity::Warning, Seq::<char>::empty() + "网络时间占比 "@ + fmt_q(network, 100, total, 1, 1) + "%，查询瓶颈在网络传输"@, seq!["考虑使用 Colocate Join 减少 Shuffle"@, "检查网络带宽"@, "减少跨节点数据传输"@], seq![])) } else { None } } } } }
}

impl QueryRule for Q006NetworkDominates {
    fn id(&self) -> (r: &'static str)
        ensures
            r@ == "Q006"@,
    {
        "Q006"
    }

    fn name(&self) -> (r: &'static str)
        ensures
            r@ == "网络时间占比过高"@,
    {
        "网络时间占比过高"
    }

    fn evaluate(&self, p: &Profile) -> (r: Option<QueryDiagnostic>)
        ensures
            r is Some == spec_q006(*p) is Some,
            r matches Some(d) ==> Some(d@) == spec_q006(*p),
    {
        let network = match first_dec(p.summary.query_cumulative_network_time_ms, opt_duration_exec(&p.summary.query_cumulative_network_time)) { Some(v) => v, None => { return None; } };
        let total = match total_ms(p) { Some(v) => v, None => { return None; } };
        if total.mant == 0 { return None; }
        if lin_gt_exec(network, 2, total, 1) {
        let mut msg = String::new();
        push_str(&mut msg, "网络时间占比 ");
        { let t = format_quot(network, 100, total, 1, 1); push_str(&mut msg, t.as_str()); }
        push_str(&mut msg, "%，查询瓶颈在网络传输");
        let mut ps: Vec<ParameterSuggestion> = Vec::new();
        proof { assert(vparams(ps@) =~= seq![]); }
        let sl: [&str; 3] = ["考虑使用 Colocate Join 减少 Shuffle", "检查网络带宽", "减少跨节点数据传输"];
        proof { assert(vlit(sl@) =~= seq!["考虑使用 Colocate Join 减少 Shuffle"@, "检查网络带宽"@, "减少跨节点数据传输"@]); }
        Some(make_qdiag("Q006", "网络时间占比过高", RuleSeverity::Warning, msg, &sl, ps))
        } else { None }
    }
}

/// Q007: collecting the profile takes more than 100 ms.
pub struct Q007ProfileCollectSlow;

/// The diagnostic Q007 reports on the profile, if any.
pub open spec fn spec_q007(p: Profile) -> Option<QueryDiagnosticView> {
match exec_metric(p, "CollectProfileTime"@) { None => None, Some(collect) => {
if lin_gt(collect, 1, dint(100000000), 1) { Some(qdiag("Q007"@, "Profile 收集慢"@, RuleSeverity::Info, Seq::<char>::empty() + "Profile 收集时间 "@ + fmt_q(collect, 1, dint(1000000), 1, 1) + "ms"@, seq!["降低 pipeline_profile_level"@], seq![spec_suggestion("pipeline_profile_level"@, ParameterType::Session, None, "1"@, "SET pipeline_profile_level = 1;"@)])) } else { None } } }
}

impl QueryRule for Q007ProfileCollectSlow {
    fn id(&self) -> (r: &'static str)
        ensures
            r@ == "Q007"@,
    {
        "Q007"
    }

    fn name(&self) -> (r: &'static str)
        ensures
            r@ == "Profile 收集慢"@,
    {
        "Profile 收集慢"
    }

    fn evaluate(&self, p: &Profile) -> (r: Option<QueryDiagnostic>)
        ensures
            r is Some == spec_q007(*p) is Some,
            r matches Some(d) ==> Some(d@) == spec_q007(*p),
    {
        let collect = match exec_metric_exec(p, "CollectProfileTime") { Some(v) => v, None => { return None; } };
        if lin_gt_exec(collect, 1, Dec { mant: 100000000, exp: 0 }, 1) {
        let mut msg = String::new();
        push_str(&mut msg, "Profile 收集时间 ");
        { let t = format_quot(collect, 1, Dec { mant: 1000000, exp: 0 }, 1, 1); push_str(&mut msg, t.as_str()); }
        push_str(&mut msg, "ms");
        let mut ps: Vec<ParameterSuggestion> = Vec::new();
        ps.push(param("pipeline_profile_level", ParameterType::Session, "1", "SET pipeline_profile_level = 1;"));
        proof { assert(vparams(ps@) =~= seq![spec_suggestion("pipeline_profile_level"@, ParameterType::Session, None, "1"@, "SET pipeline_profile_level = 1;"@)]); }
        let sl: [&str; 1] = ["降低 pipeline_profile_level"];
        proof { assert(vlit(sl@) =~= seq!["降低 pipeline_profile_level"@]); }
        Some(make_qdiag("Q007", "Profile 收集慢", RuleSeverity::Info, msg, &sl, ps))
        } else { None }
    }
}

/// Q008: peak schedule time is more than 30% of the wall time.
pub struct Q008ScheduleTimeLong;

/// The diagnostic Q008 reports on the profile, if any.
pub open spec fn spec_q008(p: Profile) -> Option<QueryDiagnosticView> {
match p.summary.query_peak_schedule_time_ms { None => None, Some(schedule) => {
match p.summary.query_execution_wall_time_ms { None => None, Some(wall) => {
if wall.mant == 0 { None } else if lin_gt(schedule, 10, wall, 3) { Some(qdiag("Q008"@, "调度时间过长"@, RuleSeverity::Warning, Seq::<char>::empty() + "调度时间占比 "@ + fmt_q(schedule, 100, wall, 1, 1) + "%，Pipeline 调度可能存在瓶颈"@, seq!["检查 Pipeline 调度瓶颈"@, "增加并行度"@], seq![])) } else { None } } } } }
}

impl QueryRule for Q008ScheduleTimeLong {
    fn id(&self) -> (r: &'static str)
        ensures
            r@ == "Q008"@,
    {
        "Q008"
    }

    fn name(&self) -> (r: &'static str)
        ensures
            r@ == "调度时间过长"@,
    {
        "调度时间过长"
    }

    fn evaluate(&self, p: &Profile) -> (r: Option<QueryDiagnostic>)
        ensures
            r is Some == spec_q008(*p) is Some,
            r matches Some(d) ==> Some(d@) == spec_q008(*p),
    {
        let schedule = match p.summary.query_peak_schedule_time_ms { Some(v) => v, None => { return None; } };
        let wall = match p.summary.query_execution_wall_time_ms { Some(v) => v, None => { return None; } };
        if wall.mant == 0 { return None; }
        if lin_gt_exec(schedule, 10, wall, 3) {
        let mut msg = String::new();
        push_str(&mut msg, "调度时间占比 ");
        { let t = format_quot(schedule, 100, wall, 1, 1); push_str(&mut msg, t.as_str()); }
        push_str(&mut msg, "%，Pipeline 调度可能存在瓶颈");
        let mut ps: Vec<ParameterSuggestion> = Vec::new();
        proof { assert(vparams(ps@) =~= seq![]); }
        let sl: [&str; 2] = ["检查 Pipeline 调度瓶颈", "增加并行度"];
        proof { assert(vlit(sl@) =~= seq!["检查 Pipeline 调度瓶颈"@, "增加并行度"@]); }
        Some(make_qdiag("Q008", "调度时间过长", RuleSeverity::Warning, msg, &sl, ps))
        } else { None }
    }
}

/// Q009: delivering results (ns) takes more than 20% of the wall time.
pub struct Q009ResultDeliverySlow;

/// The diagnostic Q009 reports on the profile, if any.
pub open spec fn spec_q009(p: Profile) -> Option<QueryDiagnosticView> {
match exec_metric(p, "ResultDeliverTime"@) { None => None, Some(deliver) => {
match p.summary.query_execution_wall_time_ms { None => None, Some(wall) => {
if wall.mant == 0 { None } else if lin_gt(deliver, 5, wall, 1000000) { Some(qdiag("Q009"@, "结果传输慢"@, RuleSeverity::Info, Seq::<char>::empty() + "结果传输时间占比 "@ + fmt_q(deliver, 1, wall, 10000, 1) + "%"@, seq!["检查网络带宽"@, "减少结果集大小"@], seq![])) } else { None } } } } }
}

impl QueryRule for Q009ResultDeliverySlow {
    fn id(&self) -> (r: &'static str)
        ensures
            r@ == "Q009"@,
    {
        "Q009"
    }

    fn name(&self) -> (r: &'static str)
        ensures
            r@ == "结果传输慢"@,
    {
        "结果传输慢"
    }

    fn evaluate(&self, p: &Profile) -> (r: Option<QueryDiagnostic>)
        ensures
            r is Some == spec_q009(*p) is Some,
            r matches Some(d) ==> Some(d@) == spec_q009(*p),
    {
        let deliver = match exec_metric_exec(p, "ResultDeliverTime") { Some(v) => v, None => { return None; } };
        let wall = match p.summary.query_execution_wall_time_ms { Some(v) => v, None => { return None; } };
        if wall.mant == 0 { return None; }
        if lin_gt_exec(deliver, 5, wall, 1000000) {
        let mut msg = String::new();
        push_str(&mut msg, "结果传输时间占比 ");
        { let t = format_quot(deliver, 1, wall, 10000, 1); push_str(&mut msg, t.as_str()); }
        push_str(&mut msg, "%");
        let mut ps: Vec<ParameterSuggestion> = Vec::new();
        proof { assert(vparams(ps@) =~= seq![]); }
        let sl: [&str; 2] = ["检查网络带宽", "减少结果集大小"];
        proof { assert(vlit(sl@) =~= seq!["检查网络带宽"@, "减少结果集大小"@]); }
        Some(make_qdiag("Q009", "结果传输慢", RuleSeverity::Info, msg, &sl, ps))
        } else { None }
    }
}

} // verus!
