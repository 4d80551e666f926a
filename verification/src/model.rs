//! Data model of an analysed profile: execution-tree nodes, diagnostics,
//! parameter suggestions and hotspots.
use vstd::prelude::*;
use crate::text::{str_eq, string_push, chars_of, str_to_uppercase, spec_to_uppercase, contains_seq,
    str_contains};
use crate::num::{Dec, dec_str, u128_to_string, fixed_str, format_fixed};
use crate::metrics::{push_str, spec_parse_metric_value, parse_metric_value};

verus! {

/// The text views of a list of strings.
pub open spec fn vstr(v: Seq<String>) -> Seq<Seq<char>> {
    v.map_values(|s: String| s@)
}

/// The text views of a list of string slices.
pub open spec fn vlit(v: Seq<&str>) -> Seq<Seq<char>> {
    v.map_values(|s: &str| s@)
}

pub proof fn lemma_vstr_push(v: Seq<String>, s: String)
    ensures
        vstr(v.push(s)) == vstr(v).push(s@),
{
    assert(vstr(v.push(s)) =~= vstr(v).push(s@));
}

pub proof fn lemma_vlit_prefix(a: Seq<&str>, i: int)
    requires
        0 <= i < a.len(),
    ensures
        vlit(a.subrange(0, i + 1)) == vlit(a.subrange(0, i)).push(a[i]@),
{
    assert(vlit(a.subrange(0, i + 1)) =~= vlit(a.subrange(0, i)).push(a[i]@));
}

pub proof fn lemma_vstr_prefix(a: Seq<String>, i: int)
    requires
        0 <= i < a.len(),
    ensures
        vstr(a.subrange(0, i + 1)) == vstr(a.subrange(0, i)).push(a[i]@),
{
    assert(vstr(a.subrange(0, i + 1)) =~= vstr(a.subrange(0, i)).push(a[i]@));
}

/// Owned copies of the given texts, in order.
pub fn strings_of(a: &[&str]) -> (r: Vec<String>)
    ensures
        vstr(r@) == vlit(a@),
{
    let mut r: Vec<String> = Vec::new();
    let mut i: usize = 0;
    while i < a.len()
        invariant
            i <= a.len(),
            vstr(r@) == vlit(a@.subrange(0, i as int)),
        decreases a.len() - i,
    {
        let s = String::from_str(a[i]);
        proof {
            lemma_vstr_push(r@, s);
            lemma_vlit_prefix(a@, i as int);
        }
        r.push(s);
        i = i + 1;
    }
    assert(a@.subrange(0, a@.len() as int) =~= a@);
    r
}

/// A copy of a list of strings.
pub fn clone_strings(v: &Vec<String>) -> (r: Vec<String>)
    ensures
        vstr(r@) == vstr(v@),
{
    let mut r: Vec<String> = Vec::new();
    let mut i: usize = 0;
    while i < v.len()
        invariant
            i <= v.len(),
            vstr(r@) == vstr(v@.subrange(0, i as int)),
        decreases v.len() - i,
    {
        let c = v[i].clone();
        proof {
            lemma_vstr_push(r@, c);
            lemma_vstr_prefix(v@, i as int);
        }
        r.push(c);
        i = i + 1;
    }
    assert(v@.subrange(0, v@.len() as int) =~= v@);
    r
}

/// Decimal text of a signed integer.
pub open spec fn int_str(i: int) -> Seq<char> {
    if i < 0 {
        "-"@ + dec_str((-i) as nat)
    } else {
        dec_str(i as nat)
    }
}

/// Writes a signed integer in decimal.
pub fn i64_to_string(i: i64) -> (s: String)
    ensures
        s@ == int_str(i as int),
{
    if i < 0 {
        let mut s = String::from_str("-");
        let m: u128 = (0i128 - (i as i128)) as u128;
        let d = u128_to_string(m);
        push_str(&mut s, d.as_str());
        s
    } else {
        u128_to_string(i as u128)
    }
}

// ---------------------------------------------------------------------------
// Severities
// ---------------------------------------------------------------------------

/// Severity level of a diagnostic rule.
#[derive(Debug, Clone, Copy, PartialEq, Eq, Structural)]
pub enum RuleSeverity {
    Info,
    Warning,
    Error,
}

/// Rank of a severity: `Info < Warning < Error`.
pub open spec fn severity_rank(s: RuleSeverity) -> nat {
    match s {
        RuleSeverity::Info => 0,
        RuleSeverity::Warning => 1,
        RuleSeverity::Error => 2,
    }
}

impl RuleSeverity {
    /// Rank of this severity (`Info` 0, `Warning` 1, `Error` 2).
    pub fn rank(&self) -> (r: u8)
        ensures
            r == severity_rank(*self),
    {
        match self {
            RuleSeverity::Info => 0,
            RuleSeverity::Warning => 1,
            RuleSeverity::Error => 2,
        }
    }

    /// The variant name (`"Info"`, `"Warning"`, `"Error"`).
    pub fn name(&self) -> (s: String)
        ensures
            s@ == severity_name(*self),
    {
        match self {
            RuleSeverity::Info => String::from_str("Info"),
            RuleSeverity::Warning => String::from_str("Warning"),
            RuleSeverity::Error => String::from_str("Error"),
        }
    }
}

pub open spec fn severity_name(s: RuleSeverity) -> Seq<char> {
    match s {
        RuleSeverity::Info => "Info"@,
        RuleSeverity::Warning => "Warning"@,
        RuleSeverity::Error => "Error"@,
    }
}

/// Hotspot severity levels.
#[derive(Debug, Clone, Copy, PartialEq, Eq, Structural)]
pub enum HotSeverity {
    Normal,
    Mild,
    Moderate,
    High,
    Severe,
    Critical,
}

/// Hotspot severity of a rule severity: `Info -> Mild`, `Warning -> Moderate`,
/// `Error -> Severe`.
pub open spec fn spec_hot_of_rule(s: RuleSeverity) -> HotSeverity {
    match s {
        RuleSeverity::Info => HotSeverity::Mild,
        RuleSeverity::Warning => HotSeverity::Moderate,
        RuleSeverity::Error => HotSeverity::Severe,
    }
}

impl HotSeverity {
    /// The hotspot severity that a rule severity maps to.
    pub fn from_rule(s: RuleSeverity) -> (h: HotSeverity)
        ensures
            h == spec_hot_of_rule(s),
    {
        match s {
            RuleSeverity::Info => HotSeverity::Mild,
            RuleSeverity::Warning => HotSeverity::Moderate,
            RuleSeverity::Error => HotSeverity::Severe,
        }
    }

    /// The default severity, `Normal`.
    pub fn default_severity() -> (h: HotSeverity)
        ensures
            h == HotSeverity::Normal,
    {
        HotSeverity::Normal
    }
}

// ---------------------------------------------------------------------------
// Parameter suggestions
// ---------------------------------------------------------------------------

/// Kind of tunable parameter.
#[derive(Debug, Clone, Copy, PartialEq, Eq, Structural)]
pub enum ParameterType {
    Session,
    BE,
}

/// A suggested parameter change.
#[derive(Debug, Clone)]
pub struct ParameterSuggestion {
    pub name: String,
    pub param_type: ParameterType,
    pub current: Option<String>,
    pub recommended: String,
    pub command: String,
    pub description: String,
    pub impact: String,
}

pub struct ParameterSuggestionView {
    pub name: Seq<char>,
    pub param_type: ParameterType,
    pub current: Option<Seq<char>>,
    pub recommended: Seq<char>,
    pub command: Seq<char>,
    pub description: Seq<char>,
    pub impact: Seq<char>,
}

pub open spec fn opt_view(o: Option<String>) -> Option<Seq<char>> {
    match o {
        Some(s) => Some(s@),
        None => None,
    }
}

impl View for ParameterSuggestion {
    type V = ParameterSuggestionView;

    open spec fn view(&self) -> ParameterSuggestionView {
        ParameterSuggestionView {
            name: self.name@,
            param_type: self.param_type,
            current: opt_view(self.current),
            recommended: self.recommended@,
            command: self.command@,
            description: self.description@,
            impact: self.impact@,
        }
    }
}

pub open spec fn vparams(v: Seq<ParameterSuggestion>) -> Seq<ParameterSuggestionView> {
    v.map_values(|p: ParameterSuggestion| p@)
}

/// Description and expected impact of a parameter.
#[derive(Debug, Clone)]
pub struct ParameterMetadata {
    pub description: String,
    pub impact: String,
}

/// Description and impact of the known StarRocks parameters; any other name gets a
/// generic description that names it.
pub open spec fn spec_parameter_metadata(name: Seq<char>) -> (Seq<char>, Seq<char>) {
    if name == "enable_scan_datacache"@ {
        ("启用 DataCache 读取缓存，允许从本地缓存读取数据而非远程存储"@, "提升存算分离架构下的查询性能，减少网络 IO"@)
    } else if name == "enable_populate_datacache"@ {
        ("启用 DataCache 写入填充，将远程读取的数据缓存到本地"@, "后续查询可命中本地缓存，但首次查询会有额外写入开销"@)
    } else if name == "datacache_evict_probability"@ {
        ("DataCache 淘汰概率 (0-100)，控制缓存数据被淘汰的可能性"@, "降低该值可减少缓存抖动，但可能导致缓存空间不足"@)
    } else if name == "enable_query_cache"@ {
        ("启用查询结果缓存，相同查询可直接返回缓存结果"@, "对重复查询有显著加速，但会占用额外内存"@)
    } else if name == "enable_adaptive_sink_dop"@ {
        ("启用自适应 Sink 并行度，根据数据量动态调整写入并行度"@, "可优化数据写入性能，减少小文件产生"@)
    } else if name == "enable_runtime_adaptive_dop"@ {
        ("启用运行时自适应并行度，根据实际数据量动态调整执行并行度"@, "可优化资源利用率，避免小数据量查询占用过多资源"@)
    } else if name == "enable_spill"@ {
        ("启用中间结果落盘，当内存不足时将数据写入磁盘"@, "可处理超大数据量查询，但会降低查询性能"@)
    } else if name == "enable_connector_adaptive_io_tasks"@ {
        ("启用连接器自适应 IO 任务数，根据数据量动态调整 IO 并行度"@, "可优化外部表扫描性能，平衡 IO 和 CPU 资源"@)
    } else if name == "io_tasks_per_scan_operator"@ {
        ("每个扫描算子的 IO 任务数，控制本地表扫描并行度"@, "增大可提升扫描吞吐，但会增加 IO 压力"@)
    } else if name == "connector_io_tasks_per_scan_operator"@ {
        ("每个连接器扫描算子的 IO 任务数，控制外部表扫描并行度"@, "增大可提升外部表扫描吞吐，但会增加远程存储压力"@)
    } else if name == "hash_join_push_down_right_table"@ {
        ("启用 Hash Join 右表下推，将小表广播到各节点"@, "可减少数据 Shuffle，提升 Join 性能"@)
    } else if name == "enable_local_shuffle_agg"@ {
        ("启用本地 Shuffle 聚合，在本地先进行预聚合"@, "可减少网络传输数据量，提升聚合性能"@)
    } else if name == "runtime_filter_on_exchange_node"@ {
        ("在 Exchange 节点启用 Runtime Filter，跨节点传递过滤条件"@, "可提前过滤数据减少 Shuffle，但会增加 Filter 构建开销"@)
    } else if name == "global_runtime_filter_build_max_size"@ {
        ("全局 Runtime Filter 最大构建大小 (字节)"@, "增大可支持更大的 Filter，但会占用更多内存"@)
    } else if name == "parallel_fragment_exec_instance_num"@ {
        ("每个 Fragment 的并行执行实例数"@, "增大可提升并行度，但会占用更多资源"@)
    } else if name == "pipeline_dop"@ {
        ("Pipeline 执行并行度，0 表示自动"@, "手动设置可控制资源使用，自动模式根据 CPU 核数调整"@)
    } else if name == "query_mem_limit"@ {
        ("单个查询的内存限制 (字节)"@, "增大可处理更大数据量，但可能影响其他查询"@)
    } else if name == "query_timeout"@ {
        ("查询超时时间 (秒)"@, "增大可允许长时间运行的查询，但可能占用资源过久"@)
    } else if name == "streaming_preaggregation_mode"@ {
        ("流式预聚合模式 (auto/force_streaming/force_preaggregation)"@, "auto 模式自动选择最优策略，force 模式强制使用指定策略"@)
    } else if name == "enable_sort_aggregate"@ {
        ("启用排序聚合，适用于高基数 GROUP BY"@, "可减少内存使用，但需要额外排序开销"@)
    } else if name == "pipeline_profile_level"@ {
        ("Pipeline Profile 详细级别 (0-2)"@, "级别越高信息越详细，但收集开销也越大"@)
    } else if name == "storage_page_cache_limit"@ {
        ("BE 存储页缓存大小限制"@, "增大可提升热数据读取性能，但会占用更多内存"@)
    } else {
        ("StarRocks 参数 "@ + name, "请参考 StarRocks 官方文档了解详情"@)
    }
}

fn meta(d: &str, i: &str) -> (m: ParameterMetadata)
    ensures
        m.description@ == d@,
        m.impact@ == i@,
{
    ParameterMetadata { description: String::from_str(d), impact: String::from_str(i) }
}

/// Description and impact of a StarRocks parameter.
pub fn get_parameter_metadata(name: &str) -> (m: ParameterMetadata)
    ensures
        (m.description@, m.impact@) == spec_parameter_metadata(name@),
{
    if str_eq(name, "enable_scan_datacache") {
        meta("启用 DataCache 读取缓存，允许从本地缓存读取数据而非远程存储", "提升存算分离架构下的查询性能，减少网络 IO")
    } else if str_eq(name, "enable_populate_datacache") {
        meta("启用 DataCache 写入填充，将远程读取的数据缓存到本地", "后续查询可命中本地缓存，但首次查询会有额外写入开销")
    } else if str_eq(name, "datacache_evict_probability") {
        meta("DataCache 淘汰概率 (0-100)，控制缓存数据被淘汰的可能性", "降低该值可减少缓存抖动，但可能导致缓存空间不足")
    } else if str_eq(name, "enable_query_cache") {
        meta("启用查询结果缓存，相同查询可直接返回缓存结果", "对重复查询有显著加速，但会占用额外内存")
    } else if str_eq(name, "enable_adaptive_sink_dop") {
        meta("启用自适应 Sink 并行度，根据数据量动态调整写入并行度", "可优化数据写入性能，减少小文件产生")
    } else if str_eq(name, "enable_runtime_adaptive_dop") {
        meta("启用运行时自适应并行度，根据实际数据量动态调整执行并行度", "可优化资源利用率，避免小数据量查询占用过多资源")
    } else if str_eq(name, "enable_spill") {
        meta("启用中间结果落盘，当内存不足时将数据写入磁盘", "可处理超大数据量查询，但会降低查询性能")
    } else if str_eq(name, "enable_connector_adaptive_io_tasks") {
        meta("启用连接器自适应 IO 任务数，根据数据量动态调整 IO 并行度", "可优化外部表扫描性能，平衡 IO 和 CPU 资源")
    } else if str_eq(name, "io_tasks_per_scan_operator") {
        meta("每个扫描算子的 IO 任务数，控制本地表扫描并行度", "增大可提升扫描吞吐，但会增加 IO 压力")
    } else if str_eq(name, "connector_io_tasks_per_scan_operator") {
        meta("每个连接器扫描算子的 IO 任务数，控制外部表扫描并行度", "增大可提升外部表扫描吞吐，但会增加远程存储压力")
    } else if str_eq(name, "hash_join_push_down_right_table") {
        meta("启用 Hash Join 右表下推，将小表广播到各节点", "可减少数据 Shuffle，提升 Join 性能")
    } else if str_eq(name, "enable_local_shuffle_agg") {
        meta("启用本地 Shuffle 聚合，在本地先进行预聚合", "可减少网络传输数据量，提升聚合性能")
    } else if str_eq(name, "runtime_filter_on_exchange_node") {
        meta("在 Exchange 节点启用 Runtime Filter，跨节点传递过滤条件", "可提前过滤数据减少 Shuffle，但会增加 Filter 构建开销")
    } else if str_eq(name, "global_runtime_filter_build_max_size") {
        meta("全局 Runtime Filter 最大构建大小 (字节)", "增大可支持更大的 Filter，但会占用更多内存")
    } else if str_eq(name, "parallel_fragment_exec_instance_num") {
        meta("每个 Fragment 的并行执行实例数", "增大可提升并行度，但会占用更多资源")
    } else if str_eq(name, "pipeline_dop") {
        meta("Pipeline 执行并行度，0 表示自动", "手动设置可控制资源使用，自动模式根据 CPU 核数调整")
    } else if str_eq(name, "query_mem_limit") {
        meta("单个查询的内存限制 (字节)", "增大可处理更大数据量，但可能影响其他查询")
    } else if str_eq(name, "query_timeout") {
        meta("查询超时时间 (秒)", "增大可允许长时间运行的查询，但可能占用资源过久")
    } else if str_eq(name, "streaming_preaggregation_mode") {
        meta("流式预聚合模式 (auto/force_streaming/force_preaggregation)", "auto 模式自动选择最优策略，force 模式强制使用指定策略")
    } else if str_eq(name, "enable_sort_aggregate") {
        meta("启用排序聚合，适用于高基数 GROUP BY", "可减少内存使用，但需要额外排序开销")
    } else if str_eq(name, "pipeline_profile_level") {
        meta("Pipeline Profile 详细级别 (0-2)", "级别越高信息越详细，但收集开销也越大")
    } else if str_eq(name, "storage_page_cache_limit") {
        meta("BE 存储页缓存大小限制", "增大可提升热数据读取性能，但会占用更多内存")
    } else {
        let mut d = String::from_str("StarRocks 参数 ");
        push_str(&mut d, name);
        ParameterMetadata { description: d, impact: String::from_str("请参考 StarRocks 官方文档了解详情") }
    }
}

/// Known default values of common session parameters.
pub open spec fn spec_parameter_default(name: Seq<char>) -> Option<Seq<char>> {
    if name == "enable_scan_datacache"@ {
        Some("true"@)
    } else if name == "enable_populate_datacache"@ {
        Some("true"@)
    } else if name == "datacache_evict_probability"@ {
        Some("100"@)
    } else if name == "enable_query_cache"@ {
        Some("false"@)
    } else if name == "enable_adaptive_sink_dop"@ {
        Some("false"@)
    } else if name == "enable_runtime_adaptive_dop"@ {
        Some("false"@)
    } else if name == "enable_spill"@ {
        Some("false"@)
    } else if name == "enable_connector_adaptive_io_tasks"@ {
        Some("true"@)
    } else if name == "io_tasks_per_scan_operator"@ {
        Some("4"@)
    } else if name == "connector_io_tasks_per_scan_operator"@ {
        Some("16"@)
    } else if name == "hash_join_push_down_right_table"@ {
        Some("true"@)
    } else if name == "enable_local_shuffle_agg"@ {
        Some("true"@)
    } else if name == "runtime_filter_on_exchange_node"@ {
        Some("false"@)
    } else if name == "global_runtime_filter_build_max_size"@ {
        Some("67108864"@)
    } else if name == "parallel_fragment_exec_instance_num"@ {
        Some("1"@)
    } else if name == "pipeline_dop"@ {
        Some("0"@)
    } else {
        None
    }
}

fn some_str(s: &str) -> (r: Option<String>)
    ensures
        r matches Some(t) && t@ == s@,
{
    Some(String::from_str(s))
}

/// Default value of a common session parameter, when known.
pub fn get_parameter_default(name: &str) -> (r: Option<String>)
    ensures
        opt_view(r) == spec_parameter_default(name@),
{
    if str_eq(name, "enable_scan_datacache") {
        some_str("true")
    } else if str_eq(name, "enable_populate_datacache") {
        some_str("true")
    } else if str_eq(name, "datacache_evict_probability") {
        some_str("100")
    } else if str_eq(name, "enable_query_cache") {
        some_str("false")
    } else if str_eq(name, "enable_adaptive_sink_dop") {
        some_str("false")
    } else if str_eq(name, "enable_runtime_adaptive_dop") {
        some_str("false")
    } else if str_eq(name, "enable_spill") {
        some_str("false")
    } else if str_eq(name, "enable_connector_adaptive_io_tasks") {
        some_str("true")
    } else if str_eq(name, "io_tasks_per_scan_operator") {
        some_str("4")
    } else if str_eq(name, "connector_io_tasks_per_scan_operator") {
        some_str("16")
    } else if str_eq(name, "hash_join_push_down_right_table") {
        some_str("true")
    } else if str_eq(name, "enable_local_shuffle_agg") {
        some_str("true")
    } else if str_eq(name, "runtime_filter_on_exchange_node") {
        some_str("false")
    } else if str_eq(name, "global_runtime_filter_build_max_size") {
        some_str("67108864")
    } else if str_eq(name, "parallel_fragment_exec_instance_num") {
        some_str("1")
    } else if str_eq(name, "pipeline_dop") {
        some_str("0")
    } else {
        None
    }
}

/// A parameter suggestion with the metadata of `name`.
pub open spec fn spec_suggestion(
    name: Seq<char>,
    t: ParameterType,
    current: Option<Seq<char>>,
    recommended: Seq<char>,
    command: Seq<char>,
) -> ParameterSuggestionView {
    ParameterSuggestionView {
        name,
        param_type: t,
        current,
        recommended,
        command,
        description: spec_parameter_metadata(name).0,
        impact: spec_parameter_metadata(name).1,
    }
}

impl ParameterSuggestion {
    /// A suggestion that carries the description and impact of `name`.
    pub fn new(
        name: &str,
        param_type: ParameterType,
        current: Option<String>,
        recommended: &str,
        command: &str,
    ) -> (p: ParameterSuggestion)
        ensures
            p@ == spec_suggestion(name@, param_type, opt_view(current), recommended@, command@),
    {
        let m = get_parameter_metadata(name);
        ParameterSuggestion {
            name: String::from_str(name),
            param_type,
            current,
            recommended: String::from_str(recommended),
            command: String::from_str(command),
            description: m.description,
            impact: m.impact,
        }
    }

    /// A session parameter suggestion with the command `SET <name> = <value>;`.
    pub fn session(name: &str, recommended: &str) -> (p: ParameterSuggestion)
        ensures
            p@ == spec_suggestion(
                name@,
                ParameterType::Session,
                None,
                recommended@,
                "SET "@ + name@ + " = "@ + recommended@ + ";"@,
            ),
    {
        let mut command = String::from_str("SET ");
        push_str(&mut command, name);
        push_str(&mut command, " = ");
        push_str(&mut command, recommended);
        push_str(&mut command, ";");
        Self::new(name, ParameterType::Session, None, recommended, command.as_str())
    }

    /// A BE parameter suggestion with the command `# 修改 be.conf: <name> = <value>`.
    pub fn be(name: &str, recommended: &str) -> (p: ParameterSuggestion)
        ensures
            p@ == spec_suggestion(
                name@,
                ParameterType::BE,
                None,
                recommended@,
                "# 修改 be.conf: "@ + name@ + " = "@ + recommended@,
            ),
    {
        let mut command = String::from_str("# 修改 be.conf: ");
        push_str(&mut command, name);
        push_str(&mut command, " = ");
        push_str(&mut command, recommended);
        Self::new(name, ParameterType::BE, None, recommended, command.as_str())
    }
}

// ---------------------------------------------------------------------------
// Hotspots and diagnostics
// ---------------------------------------------------------------------------

/// A detected performance hotspot.
#[derive(Debug, Clone)]
pub struct HotSpot {
    pub node_path: String,
    pub severity: HotSeverity,
    pub issue_type: String,
    pub description: String,
    pub suggestions: Vec<String>,
}

pub struct HotSpotView {
    pub node_path: Seq<char>,
    pub severity: HotSeverity,
    pub issue_type: Seq<char>,
    pub description: Seq<char>,
    pub suggestions: Seq<Seq<char>>,
}

impl View for HotSpot {
    type V = HotSpotView;

    open spec fn view(&self) -> HotSpotView {
        HotSpotView {
            node_path: self.node_path@,
            severity: self.severity,
            issue_type: self.issue_type@,
            description: self.description@,
            suggestions: vstr(self.suggestions@),
        }
    }
}

/// A diagnostic result of rule evaluation.
#[derive(Debug, Clone)]
pub struct Diagnostic {
    pub rule_id: String,
    pub rule_name: String,
    pub severity: RuleSeverity,
    pub node_path: String,
    pub plan_node_id: Option<i32>,
    pub message: String,
    pub reason: String,
    pub suggestions: Vec<String>,
    pub parameter_suggestions: Vec<ParameterSuggestion>,
}

pub struct DiagnosticView {
    pub rule_id: Seq<char>,
    pub rule_name: Seq<char>,
    pub severity: RuleSeverity,
    pub node_path: Seq<char>,
    pub plan_node_id: Option<i32>,
    pub message: Seq<char>,
    pub reason: Seq<char>,
    pub suggestions: Seq<Seq<char>>,
    pub parameter_suggestions: Seq<ParameterSuggestionView>,
}

impl View for Diagnostic {
    type V = DiagnosticView;

    open spec fn view(&self) -> DiagnosticView {
        DiagnosticView {
            rule_id: self.rule_id@,
            rule_name: self.rule_name@,
            severity: self.severity,
            node_path: self.node_path@,
            plan_node_id: self.plan_node_id,
            message: self.message@,
            reason: self.reason@,
            suggestions: vstr(self.suggestions@),
            parameter_suggestions: vparams(self.parameter_suggestions@),
        }
    }
}

/// The line a parameter suggestion contributes to a hotspot.
pub open spec fn param_line(p: ParameterSuggestionView) -> Seq<char> {
    "调整参数: "@ + p.name + " → "@ + p.recommended + " (命令: "@ + p.command + ")"@
}

/// The hotspot form of a diagnostic: its suggestions followed by one line per
/// parameter suggestion.
pub open spec fn spec_to_hotspot(d: DiagnosticView) -> HotSpotView {
    HotSpotView {
        node_path: d.node_path,
        severity: spec_hot_of_rule(d.severity),
        issue_type: d.rule_id,
        description: d.message,
        suggestions: d.suggestions + d.parameter_suggestions.map_values(
            |p: ParameterSuggestionView| param_line(p),
        ),
    }
}

impl Diagnostic {
    /// Convert to a hotspot.
    pub fn to_hotspot(&self) -> (h: HotSpot)
        ensures
            h@ == spec_to_hotspot(self@),
    {
        let mut all = clone_strings(&self.suggestions);
        let ghost base = vstr(all@);
        let mut i: usize = 0;
        while i < self.parameter_suggestions.len()
            invariant
                i <= self.parameter_suggestions.len(),
                vstr(all@) == base + vparams(self.parameter_suggestions@).subrange(0, i as int).map_values(
                    |p: ParameterSuggestionView| param_line(p),
                ),
            decreases self.parameter_suggestions.len() - i,
        {
            let p = &self.parameter_suggestions[i];
            let mut line = String::from_str("调整参数: ");
            push_str(&mut line, p.name.as_str());
            push_str(&mut line, " → ");
            push_str(&mut line, p.recommended.as_str());
            push_str(&mut line, " (命令: ");
            push_str(&mut line, p.command.as_str());
            push_str(&mut line, ")");
            proof {
                lemma_vstr_push(all@, line);
                let ps = vparams(self.parameter_suggestions@);
                assert(ps[i as int] == p@);
                assert(ps.subrange(0, i + 1).map_values(|p: ParameterSuggestionView| param_line(p))
                    =~= ps.subrange(0, i as int).map_values(|p: ParameterSuggestionView| param_line(p)).push(param_line(p@)));
            }
            all.push(line);
            i = i + 1;
        }
        proof {
            assert(vparams(self.parameter_suggestions@).subrange(0, i as int) =~= vparams(self.parameter_suggestions@));
        }
        HotSpot {
            node_path: self.node_path.clone(),
            severity: HotSeverity::from_rule(self.severity),
            issue_type: self.rule_id.clone(),
            description: self.message.clone(),
            suggestions: all,
        }
    }
}

/// A copy of an optional text.
pub fn copy_opt_string(o: &Option<String>) -> (r: Option<String>)
    ensures
        opt_view(r) == opt_view(*o),
{
    match o {
        Some(s) => Some(s.clone()),
        None => None,
    }
}

impl ParameterSuggestion {
    /// A copy of this suggestion.
    pub fn copy(&self) -> (r: ParameterSuggestion)
        ensures
            r@ == self@,
    {
        ParameterSuggestion {
            name: self.name.clone(),
            param_type: self.param_type,
            current: copy_opt_string(&self.current),
            recommended: self.recommended.clone(),
            command: self.command.clone(),
            description: self.description.clone(),
            impact: self.impact.clone(),
        }
    }
}

/// A copy of a list of parameter suggestions.
pub fn copy_params(v: &Vec<ParameterSuggestion>) -> (r: Vec<ParameterSuggestion>)
    ensures
        vparams(r@) == vparams(v@),
{
    let mut r: Vec<ParameterSuggestion> = Vec::new();
    let mut i: usize = 0;
    while i < v.len()
        invariant
            i <= v.len(),
            vparams(r@) == vparams(v@.take(i as int)),
        decreases v.len() - i,
    {
        let c = v[i].copy();
        proof {
            assert(vparams(r@.push(c)) =~= vparams(r@).push(c@));
            assert(vparams(v@.take(i + 1)) =~= vparams(v@.take(i as int)).push(v@[i as int]@));
        }
        r.push(c);
        i = i + 1;
    }
    assert(v@.take(v@.len() as int) =~= v@);
    r
}

/// The views of a list of diagnostics.
pub open spec fn vdiags(v: Seq<Diagnostic>) -> Seq<DiagnosticView> {
    v.map_values(|d: Diagnostic| d@)
}

pub proof fn lemma_vdiags_push(v: Seq<Diagnostic>, d: Diagnostic)
    ensures
        vdiags(v.push(d)) == vdiags(v).push(d@),
{
    assert(vdiags(v.push(d)) =~= vdiags(v).push(d@));
}

pub proof fn lemma_vdiags_take(v: Seq<Diagnostic>, i: int)
    requires
        0 <= i < v.len(),
    ensures
        vdiags(v.take(i + 1)) == vdiags(v.take(i)).push(v[i]@),
        vdiags(v).take(i + 1) == vdiags(v).take(i).push(v[i]@),
{
    assert(vdiags(v.take(i + 1)) =~= vdiags(v.take(i)).push(v[i]@));
    assert(vdiags(v).take(i + 1) =~= vdiags(v).take(i).push(v[i]@));
}

impl Diagnostic {
    /// A copy of this diagnostic.
    pub fn copy(&self) -> (r: Diagnostic)
        ensures
            r@ == self@,
    {
        Diagnostic {
            rule_id: self.rule_id.clone(),
            rule_name: self.rule_name.clone(),
            severity: self.severity,
            node_path: self.node_path.clone(),
            plan_node_id: self.plan_node_id,
            message: self.message.clone(),
            reason: self.reason.clone(),
            suggestions: clone_strings(&self.suggestions),
            parameter_suggestions: copy_params(&self.parameter_suggestions),
        }
    }
}

impl HotSpot {
    /// A copy of this hotspot.
    pub fn copy(&self) -> (r: HotSpot)
        ensures
            r@ == self@,
    {
        HotSpot {
            node_path: self.node_path.clone(),
            severity: self.severity,
            issue_type: self.issue_type.clone(),
            description: self.description.clone(),
            suggestions: clone_strings(&self.suggestions),
        }
    }
}

} // verus!
