//! Execution-tree nodes and their operator metrics, as the diagnostic rules read them.
use vstd::prelude::*;
use crate::num::Dec;
use crate::model::HotSeverity;
use crate::text::{str_contains, contains_seq, str_eq};

verus! {

/// Node type classification for visualization styling.
#[derive(Debug, Clone, Copy, PartialEq, Eq, Structural)]
pub enum NodeType {
    OlapScan,
    ConnectorScan,
    HashJoin,
    Aggregate,
    Limit,
    ExchangeSink,
    ExchangeSource,
    ResultSink,
    ChunkAccumulate,
    Sort,
    Project,
    TableFunction,
    OlapTableSink,
    Unknown,
}

impl NodeType {
    /// The default node type, `Unknown`.
    pub fn default_type() -> (t: NodeType)
        ensures
            t == NodeType::Unknown,
    {
        NodeType::Unknown
    }
}

/// Scan operator specific metrics.
#[derive(Debug, Clone)]
pub struct ScanMetrics {
    pub table: String,
    pub rollup: String,
    pub shared_scan: bool,
    pub scan_time_ns: Option<u64>,
    pub io_time_ns: Option<u64>,
    pub bytes_read: Option<u64>,
    pub rows_read: Option<u64>,
}

/// Exchange sink operator metrics.
#[derive(Debug, Clone)]
pub struct ExchangeSinkMetrics {
    pub dest_fragment_ids: Vec<String>,
    pub dest_be_addresses: Vec<String>,
    pub part_type: String,
    pub bytes_sent: Option<u64>,
    pub network_time_ns: Option<u64>,
}

/// Join operator metrics.
#[derive(Debug, Clone)]
pub struct JoinMetrics {
    pub join_type: String,
    pub build_rows: Option<u64>,
    pub probe_rows: Option<u64>,
    pub runtime_filter_num: Option<u64>,
}

/// Aggregate operator metrics.
#[derive(Debug, Clone)]
pub struct AggregateMetrics {
    pub agg_mode: String,
    pub chunk_by_chunk: bool,
    pub input_rows: Option<u64>,
    pub agg_function_time_ns: Option<u64>,
}

/// Result sink operator metrics.
#[derive(Debug, Clone)]
pub struct ResultSinkMetrics {
    pub sink_type: String,
    pub append_chunk_time_ns: Option<u64>,
    pub result_send_time_ns: Option<u64>,
}

/// Specialized metrics for different operator types.
#[derive(Debug, Clone)]
pub enum OperatorSpecializedMetrics {
    Plain,
    ConnectorScan(ScanMetrics),
    OlapScan(ScanMetrics),
    ExchangeSink(ExchangeSinkMetrics),
    Join(JoinMetrics),
    Aggregate(AggregateMetrics),
    ResultSink(ResultSinkMetrics),
}

/// Common metrics for all operators.
#[derive(Debug, Clone)]
pub struct OperatorMetrics {
    pub operator_total_time: Option<u64>,
    pub operator_total_time_raw: Option<String>,
    pub operator_total_time_min: Option<u64>,
    pub operator_total_time_max: Option<u64>,
    pub push_chunk_num: Option<u64>,
    pub push_row_num: Option<u64>,
    pub pull_chunk_num: Option<u64>,
    pub pull_row_num: Option<u64>,
    pub push_total_time: Option<u64>,
    pub push_total_time_min: Option<u64>,
    pub push_total_time_max: Option<u64>,
    pub pull_total_time: Option<u64>,
    pub pull_total_time_min: Option<u64>,
    pub pull_total_time_max: Option<u64>,
    pub memory_usage: Option<u64>,
    pub output_chunk_bytes: Option<u64>,
    pub specialized: OperatorSpecializedMetrics,
}

impl OperatorMetrics {
    /// Metrics with nothing recorded.
    pub fn empty() -> (m: OperatorMetrics)
        ensures
            m.operator_total_time is None,
            m.operator_total_time_min is None,
            m.operator_total_time_max is None,
            m.pull_row_num is None,
            m.memory_usage is None,
    {
        OperatorMetrics {
            operator_total_time: None,
            operator_total_time_raw: None,
            operator_total_time_min: None,
            operator_total_time_max: None,
            push_chunk_num: None,
            push_row_num: None,
            pull_chunk_num: None,
            pull_row_num: None,
            push_total_time: None,
            push_total_time_min: None,
            push_total_time_max: None,
            pull_total_time: None,
            pull_total_time_min: None,
            pull_total_time_max: None,
            memory_usage: None,
            output_chunk_bytes: None,
            specialized: OperatorSpecializedMetrics::Plain,
        }
    }
}

/// A node of the execution tree.
///
/// `unique_metrics` holds the operator's unique metrics as name/value pairs with
/// distinct names; `time_percentage` is the node's share of the query time.
#[derive(Debug, Clone)]
pub struct ExecutionTreeNode {
    pub id: String,
    pub operator_name: String,
    pub node_type: NodeType,
    pub plan_node_id: Option<i32>,
    pub parent_plan_node_id: Option<i32>,
    pub metrics: OperatorMetrics,
    pub children: Vec<String>,
    pub depth: usize,
    pub is_hotspot: bool,
    pub hotspot_severity: HotSeverity,
    pub fragment_id: Option<String>,
    pub pipeline_id: Option<String>,
    pub time_percentage: Option<Dec>,
    pub is_most_consuming: bool,
    pub is_second_most_consuming: bool,
    pub unique_metrics: Vec<(String, String)>,
    /// Whether some diagnostic concerns this node.
    pub has_diagnostic: bool,
    /// Rule ids of the diagnostics that concern this node.
    pub diagnostic_ids: Vec<String>,
}

impl ExecutionTreeNode {
    /// The time share, when present, has at most nine fractional digits.
    pub open spec fn wf(self) -> bool {
        self.time_percentage matches Some(p) ==> p.wf()
    }
}

/// The execution tree.
#[derive(Debug, Clone)]
pub struct ExecutionTree {
    pub root: ExecutionTreeNode,
    pub nodes: Vec<ExecutionTreeNode>,
}

/// Value of the first pair whose name is `key`.
pub open spec fn lookup(kvs: Seq<(String, String)>, key: Seq<char>) -> Option<Seq<char>>
    decreases kvs.len(),
{
    if kvs.len() == 0 {
        None
    } else if kvs[0].0@ == key {
        Some(kvs[0].1@)
    } else {
        lookup(kvs.drop_first(), key)
    }
}

/// Index of the first pair whose name is `key`.
pub fn lookup_index(kvs: &Vec<(String, String)>, key: &str) -> (r: Option<usize>)
    ensures
        r is None ==> lookup(kvs@, key@) is None,
        r matches Some(i) ==> i < kvs@.len() && lookup(kvs@, key@) == Some(kvs@[i as int].1@),
{
    let mut i: usize = 0;
    assert(kvs@.skip(0) =~= kvs@);
    while i < kvs.len()
        invariant
            i <= kvs.len(),
            lookup(kvs@, key@) == lookup(kvs@.skip(i as int), key@),
        decreases kvs.len() - i,
    {
        let ghost rest = kvs@.skip(i as int);
        assert(rest[0] == kvs@[i as int]);
        if str_eq(kvs[i].0.as_str(), key) {
            return Some(i);
        }
        assert(rest.drop_first() =~= kvs@.skip(i + 1));
        i = i + 1;
    }
    None
}

/// Node class of a topology operator name.
#[derive(Debug, Clone, Copy, PartialEq, Eq, Structural)]
pub enum NodeClass {
    ExchangeNode,
    ScanNode,
    JoinNode,
    AggregationNode,
    SortNode,
    ProjectNode,
    ResultSink,
    OlapTableSink,
    Unknown,
}

/// The class of a topology node, from its operator name.
pub open spec fn spec_infer_node_class(name: Seq<char>) -> NodeClass {
    if name == "EXCHANGE"@ || name == "MERGE_EXCHANGE"@ {
        NodeClass::ExchangeNode
    } else if contains_seq(name, "SCAN"@) {
        NodeClass::ScanNode
    } else if contains_seq(name, "JOIN"@) {
        NodeClass::JoinNode
    } else if name == "AGGREGATE"@ || name == "AGGREGATION"@ {
        NodeClass::AggregationNode
    } else if name == "SORT"@ {
        NodeClass::SortNode
    } else if name == "PROJECT"@ {
        NodeClass::ProjectNode
    } else if name == "RESULT_SINK"@ {
        NodeClass::ResultSink
    } else if name == "OLAP_TABLE_SINK"@ {
        NodeClass::OlapTableSink
    } else {
        NodeClass::Unknown
    }
}

/// Infer a node class from an operator name.
pub fn infer_node_class(name: &str) -> (c: NodeClass)
    ensures
        c == spec_infer_node_class(name@),
{
    if str_eq(name, "EXCHANGE") || str_eq(name, "MERGE_EXCHANGE") {
        NodeClass::ExchangeNode
    } else if str_contains(name, "SCAN") {
        NodeClass::ScanNode
    } else if str_contains(name, "JOIN") {
        NodeClass::JoinNode
    } else if str_eq(name, "AGGREGATE") || str_eq(name, "AGGREGATION") {
        NodeClass::AggregationNode
    } else if str_eq(name, "SORT") {
        NodeClass::SortNode
    } else if str_eq(name, "PROJECT") {
        NodeClass::ProjectNode
    } else if str_eq(name, "RESULT_SINK") {
        NodeClass::ResultSink
    } else if str_eq(name, "OLAP_TABLE_SINK") {
        NodeClass::OlapTableSink
    } else {
        NodeClass::Unknown
    }
}

} // verus!

verus! {

/// Top time-consuming node for a quick performance overview.
#[derive(Debug, Clone)]
pub struct TopNode {
    pub rank: u32,
    pub operator_name: String,
    pub plan_node_id: i32,
    pub total_time: String,
    pub time_percentage: Dec,
    pub is_most_consuming: bool,
    pub is_second_most_consuming: bool,
}

/// Query summary information extracted from the profile header. Durations in ms
/// are exact decimal quantities; name/value tables are lists of pairs with distinct
/// names.
#[derive(Debug, Clone)]
pub struct ProfileSummary {
    pub query_id: String,
    pub start_time: String,
    pub end_time: String,
    pub total_time: String,
    pub query_state: String,
    pub starrocks_version: String,
    pub sql_statement: String,
    pub query_type: Option<String>,
    pub user: Option<String>,
    pub default_db: Option<String>,
    pub variables: Vec<(String, String)>,
    pub non_default_variables: Vec<(String, String)>,
    pub query_allocated_memory: Option<u64>,
    pub query_peak_memory: Option<u64>,
    pub query_sum_memory_usage: Option<String>,
    pub query_deallocated_memory_usage: Option<String>,
    pub total_time_ms: Option<Dec>,
    pub query_cumulative_operator_time: Option<String>,
    pub query_cumulative_operator_time_ms: Option<Dec>,
    pub query_execution_wall_time: Option<String>,
    pub query_execution_wall_time_ms: Option<Dec>,
    pub query_cumulative_cpu_time: Option<String>,
    pub query_cumulative_cpu_time_ms: Option<Dec>,
    pub query_cumulative_scan_time: Option<String>,
    pub query_cumulative_scan_time_ms: Option<Dec>,
    pub query_cumulative_network_time: Option<String>,
    pub query_cumulative_network_time_ms: Option<Dec>,
    pub query_peak_schedule_time: Option<String>,
    pub query_peak_schedule_time_ms: Option<Dec>,
    pub result_deliver_time: Option<String>,
    pub result_deliver_time_ms: Option<Dec>,
    pub query_spill_bytes: Option<String>,
    pub top_time_consuming_nodes: Option<Vec<TopNode>>,
}

pub open spec fn opt_wf(d: Option<Dec>) -> bool {
    d matches Some(x) ==> x.wf()
}

impl ProfileSummary {
    /// Every duration quantity has at most nine fractional digits.
    pub open spec fn wf(self) -> bool {
        &&& opt_wf(self.total_time_ms)
        &&& opt_wf(self.query_cumulative_operator_time_ms)
        &&& opt_wf(self.query_execution_wall_time_ms)
        &&& opt_wf(self.query_cumulative_cpu_time_ms)
        &&& opt_wf(self.query_cumulative_scan_time_ms)
        &&& opt_wf(self.query_cumulative_network_time_ms)
        &&& opt_wf(self.query_peak_schedule_time_ms)
        &&& opt_wf(self.result_deliver_time_ms)
    }
}

/// Planner phase information.
#[derive(Debug, Clone)]
pub struct PlannerInfo {
    pub details: Vec<(String, String)>,
}

/// Execution phase information including topology.
#[derive(Debug, Clone)]
pub struct ExecutionInfo {
    pub topology: String,
    pub metrics: Vec<(String, String)>,
}

/// An operator within a pipeline (its name, ids and metric tables; nested
/// operators are not read by the analysis and are not held here).
#[derive(Debug, Clone)]
pub struct Operator {
    pub name: String,
    pub plan_node_id: Option<String>,
    pub operator_id: Option<String>,
    pub common_metrics: Vec<(String, String)>,
    pub unique_metrics: Vec<(String, String)>,
}

/// A pipeline within a fragment.
#[derive(Debug, Clone)]
pub struct Pipeline {
    pub id: String,
    pub metrics: Vec<(String, String)>,
    pub operators: Vec<Operator>,
}

/// A fragment: a distributed execution unit.
#[derive(Debug, Clone)]
pub struct Fragment {
    pub id: String,
    pub backend_addresses: Vec<String>,
    pub instance_ids: Vec<String>,
    pub pipelines: Vec<Pipeline>,
}

/// A parsed profile.
#[derive(Debug, Clone)]
pub struct Profile {
    pub summary: ProfileSummary,
    pub planner: PlannerInfo,
    pub execution: ExecutionInfo,
    pub fragments: Vec<Fragment>,
    pub execution_tree: Option<ExecutionTree>,
}

impl Profile {
    /// The summary and every tree node are well formed.
    pub open spec fn wf(self) -> bool {
        &&& self.summary.wf()
        &&& (self.execution_tree matches Some(t) ==> forall|i: int|
            0 <= i < t.nodes@.len() ==> (#[trigger] t.nodes@[i]).wf())
    }
}

} // verus!
