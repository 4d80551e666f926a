//! Dispatch over the rule catalogue: which rule sits at which position, and the
//! evaluation of one rule by its position.
use vstd::prelude::*;
use crate::model::{Diagnostic, DiagnosticView};
use crate::tree::{ExecutionTreeNode, Profile};
use crate::rules::{DiagnosticRule, RuleContext, name_has};
use crate::rules::common::{G001MostConsuming, G001bSecondConsuming, G002HighMemory, G003ExecutionSkew, spec_g001, spec_g001b, spec_g002, spec_g003};
use crate::rules::scan::{S001DataSkew, S002IOSkew, S003PoorFilter, S004PredicateNotPushed, S005IOThreadPoolSaturation, S006RowsetFragmentation, S007ColdStorage, S008ZoneMapNotEffective, S009LowCacheHit, S010RFNotEffective, S011SoftDeletes, S012BitmapIndexNotEffective, S013BloomFilterNotEffective, S014ColocateJoinOpportunity, spec_s001, spec_s002, spec_s003, spec_s004, spec_s005, spec_s006, spec_s007, spec_s008, spec_s009, spec_s010, spec_s011, spec_s012, spec_s013, spec_s014};
use crate::rules::join::{J001ResultExplosion, J002BuildLargerThanProbe, J003HashTableTooLarge, J004NoRuntimeFilter, J005HashCollision, J006ShuffleSkew, J007PartitionProbeOverhead, J008RFMemoryHigh, J009NonEquiJoin, J010ProbeCacheUnfriendly, spec_j001, spec_j002, spec_j003, spec_j004, spec_j005, spec_j006, spec_j007, spec_j008, spec_j009, spec_j010};
use crate::rules::aggregate::{A001AggregationSkew, A002HashTableTooLarge, A003DataSkew, A004HighCardinality, A005ExpensiveKeyExpr, spec_a001, spec_a002, spec_a003, spec_a004, spec_a005};
use crate::rules::project::{P001ProjectExprHigh, L001LocalExchangeMemory, spec_p001, spec_l001};
use crate::rules::query::{QueryRule, QueryDiagnostic, QueryDiagnosticView, Q001LongRunning, Q002HighMemory, Q003QuerySpill, Q004LowCPU, Q005ScanDominates, Q006NetworkDominates, Q007ProfileCollectSlow, Q008ScheduleTimeLong, Q009ResultDeliverySlow, spec_q001, spec_q002, spec_q003, spec_q004, spec_q005, spec_q006, spec_q007, spec_q008, spec_q009};

verus! {

/// The view of an optional diagnostic.
pub open spec fn opt_dview(o: Option<Diagnostic>) -> Option<DiagnosticView> {
    match o {
        Some(d) => Some(d@),
        None => None,
    }
}

/// The view of an optional query-level diagnostic.
pub open spec fn opt_qview(o: Option<QueryDiagnostic>) -> Option<QueryDiagnosticView> {
    match o {
        Some(d) => Some(d@),
        None => None,
    }
}

/// Number of node-level rules.
pub const NODE_RULE_COUNT: usize = 35;

/// Number of query-level rules.
pub const QUERY_RULE_COUNT: usize = 9;

/// The diagnostic that rule `k` of the common rules reports on `node`, when it applies.
pub open spec fn common_rule(k: int, node: ExecutionTreeNode) -> Option<DiagnosticView> {
    if k == 0 {
        spec_g001(node)
    } else if k == 1 {
        spec_g001b(node)
    } else if k == 2 {
        spec_g002(node)
    } else {
        spec_g003(node)
    }
}

fn eval_common(k: usize, ctx: &RuleContext) -> (r: Option<Diagnostic>)
    requires
        k < 4,
        ctx.node.wf(),
    ensures
        opt_dview(r) == common_rule(k as int, *ctx.node),
{
    let node = ctx.node;
    if k == 0 {
        let rule = G001MostConsuming;
        if rule.applicable_to(node) { rule.evaluate(ctx) } else { None }
    } else if k == 1 {
        let rule = G001bSecondConsuming;
        if rule.applicable_to(node) { rule.evaluate(ctx) } else { None }
    } else if k == 2 {
        let rule = G002HighMemory;
        if rule.applicable_to(node) { rule.evaluate(ctx) } else { None }
    } else {
        let rule = G003ExecutionSkew;
        if rule.applicable_to(node) { rule.evaluate(ctx) } else { None }
    }
}

/// The diagnostic that rule `k` of the scan rules reports on `node`, when it applies.
pub open spec fn scan_rule(k: int, node: ExecutionTreeNode) -> Option<DiagnosticView> {
    if k == 0 {
        if name_has(node, "SCAN"@) { spec_s001(node) } else { None }
    } else if k == 1 {
        if name_has(node, "SCAN"@) { spec_s002(node) } else { None }
    } else if k == 2 {
        if name_has(node, "SCAN"@) { spec_s003(node) } else { None }
    } else if k == 3 {
        if name_has(node, "SCAN"@) { spec_s004(node) } else { None }
    } else if k == 4 {
        if name_has(node, "SCAN"@) { spec_s005(node) } else { None }
    } else if k == 5 {
        if name_has(node, "SCAN"@) { spec_s006(node) } else { None }
    } else if k == 6 {
        if name_has(node, "SCAN"@) { spec_s007(node) } else { None }
    } else if k == 7 {
        if name_has(node, "SCAN"@) { spec_s008(node) } else { None }
    } else if k == 8 {
        if name_has(node, "SCAN"@) { spec_s009(node) } else { None }
    } else if k == 9 {
        if name_has(node, "SCAN"@) { spec_s010(node) } else { None }
    } else if k == 10 {
        if name_has(node, "SCAN"@) { spec_s011(node) } else { None }
    } else if k == 11 {
        if name_has(node, "SCAN"@) { spec_s012(node) } else { None }
    } else if k == 12 {
        if name_has(node, "SCAN"@) { spec_s013(node) } else { None }
    } else {
        if name_has(node, "HASH"@) && name_has(node, "JOIN"@) && name_has(node, "SHUFFLE"@) { spec_s014(node) } else { None }
    }
}

fn eval_scan(k: usize, ctx: &RuleContext) -> (r: Option<Diagnostic>)
    requires
        k < 14,
        ctx.node.wf(),
    ensures
        opt_dview(r) == scan_rule(k as int, *ctx.node),
{
    let node = ctx.node;
    if k == 0 {
        let rule = S001DataSkew;
        if rule.applicable_to(node) { rule.evaluate(ctx) } else { None }
    } else if k == 1 {
        let rule = S002IOSkew;
        if rule.applicable_to(node) { rule.evaluate(ctx) } else { None }
    } else if k == 2 {
        let rule = S003PoorFilter;
        if rule.applicable_to(node) { rule.evaluate(ctx) } else { None }
    } else if k == 3 {
        let rule = S004PredicateNotPushed;
        if rule.applicable_to(node) { rule.evaluate(ctx) } else { None }
    } else if k == 4 {
        let rule = S005IOThreadPoolSaturation;
        if rule.applicable_to(node) { rule.evaluate(ctx) } else { None }
    } else if k == 5 {
        let rule = S006RowsetFragmentation;
        if rule.applicable_to(node) { rule.evaluate(ctx) } else { None }
    } else if k == 6 {
        let rule = S007ColdStorage;
        if rule.applicable_to(node) { rule.evaluate(ctx) } else { None }
    } else if k == 7 {
        let rule = S008ZoneMapNotEffective;
        if rule.applicable_to(node) { rule.evaluate(ctx) } else { None }
    } else if k == 8 {
        let rule = S009LowCacheHit;
        if rule.applicable_to(node) { rule.evaluate(ctx) } else { None }
    } else if k == 9 {
        let rule = S010RFNotEffective;
        if rule.applicable_to(node) { rule.evaluate(ctx) } else { None }
    } else if k == 10 {
        let rule = S011SoftDeletes;
        if rule.applicable_to(node) { rule.evaluate(ctx) } else { None }
    } else if k == 11 {
        let rule = S012BitmapIndexNotEffective;
        if rule.applicable_to(node) { rule.evaluate(ctx) } else { None }
    } else if k == 12 {
        let rule = S013BloomFilterNotEffective;
        if rule.applicable_to(node) { rule.evaluate(ctx) } else { None }
    } else {
        let rule = S014ColocateJoinOpportunity;
        if rule.applicable_to(node) { rule.evaluate(ctx) } else { None }
    }
}

/// The diagnostic that rule `k` of the join rules reports on `node`, when it applies.
pub open spec fn join_rule(k: int, node: ExecutionTreeNode) -> Option<DiagnosticView> {
    if k == 0 {
        if name_has(node, "JOIN"@) { spec_j001(node) } else { None }
    } else if k == 1 {
        if name_has(node, "HASH"@) && name_has(node, "JOIN"@) { spec_j002(node) } else { None }
    } else if k == 2 {
        if name_has(node, "HASH"@) && name_has(node, "JOIN"@) { spec_j003(node) } else { None }
    } else if k == 3 {
        if name_has(node, "JOIN"@) { spec_j004(node) } else { None }
    } else if k == 4 {
        if name_has(node, "JOIN"@) { spec_j005(node) } else { None }
    } else if k == 5 {
        if name_has(node, "JOIN"@) { spec_j006(node) } else { None }
    } else if k == 6 {
        if name_has(node, "JOIN"@) { spec_j007(node) } else { None }
    } else if k == 7 {
        if name_has(node, "JOIN"@) { spec_j008(node) } else { None }
    } else if k == 8 {
        if name_has(node, "CROSS"@) || name_has(node, "NEST"@) || name_has(node, "LOOP"@) { spec_j009(node) } else { None }
    } else {
        if name_has(node, "HASH"@) && name_has(node, "JOIN"@) { spec_j010(node) } else { None }
    }
}

fn eval_join(k: usize, ctx: &RuleContext) -> (r: Option<Diagnostic>)
    requires
        k < 10,
        ctx.node.wf(),
    ensures
        opt_dview(r) == join_rule(k as int, *ctx.node),
{
    let node = ctx.node;
    if k == 0 {
        let rule = J001ResultExplosion;
        if rule.applicable_to(node) { rule.evaluate(ctx) } else { None }
    } else if k == 1 {
        let rule = J002BuildLargerThanProbe;
        if rule.applicable_to(node) { rule.evaluate(ctx) } else { None }
    } else if k == 2 {
        let rule = J003HashTableTooLarge;
        if rule.applicable_to(node) { rule.evaluate(ctx) } else { None }
    } else if k == 3 {
        let rule = J004NoRuntimeFilter;
        if rule.applicable_to(node) { rule.evaluate(ctx) } else { None }
    } else if k == 4 {
        let rule = J005HashCollision;
        if rule.applicable_to(node) { rule.evaluate(ctx) } else { None }
    } else if k == 5 {
        let rule = J006ShuffleSkew;
        if rule.applicable_to(node) { rule.evaluate(ctx) } else { None }
    } else if k == 6 {
        let rule = J007PartitionProbeOverhead;
        if rule.applicable_to(node) { rule.evaluate(ctx) } else { None }
    } else if k == 7 {
        let rule = J008RFMemoryHigh;
        if rule.applicable_to(node) { rule.evaluate(ctx) } else { None }
    } else if k == 8 {
        let rule = J009NonEquiJoin;
        if rule.applicable_to(node) { rule.evaluate(ctx) } else { None }
    } else {
        let rule = J010ProbeCacheUnfriendly;
        if rule.applicable_to(node) { rule.evaluate(ctx) } else { None }
    }
}

/// The diagnostic that rule `k` of the aggregate rules reports on `node`, when it applies.
pub open spec fn aggregate_rule(k: int, node: ExecutionTreeNode) -> Option<DiagnosticView> {
    if k == 0 {
        if name_has(node, "AGG"@) { spec_a001(node) } else { None }
    } else if k == 1 {
        if name_has(node, "AGG"@) { spec_a002(node) } else { None }
    } else if k == 2 {
        if name_has(node, "AGGREGATE"@) { spec_a003(node) } else { None }
    } else if k == 3 {
        if name_has(node, "AGG"@) { spec_a004(node) } else { None }
    } else {
        if name_has(node, "AGGREGATE"@) { spec_a005(node) } else { None }
    }
}

fn eval_aggregate(k: usize, ctx: &RuleContext) -> (r: Option<Diagnostic>)
    requires
        k < 5,
        ctx.node.wf(),
    ensures
        opt_dview(r) == aggregate_rule(k as int, *ctx.node),
{
    let node = ctx.node;
    if k == 0 {
        let rule = A001AggregationSkew;
        if rule.applicable_to(node) { rule.evaluate(ctx) } else { None }
    } else if k == 1 {
        let rule = A002HashTableTooLarge;
        if rule.applicable_to(node) { rule.evaluate(ctx) } else { None }
    } else if k == 2 {
        let rule = A003DataSkew;
        if rule.applicable_to(node) { rule.evaluate(ctx) } else { None }
    } else if k == 3 {
        let rule = A004HighCardinality;
        if rule.applicable_to(node) { rule.evaluate(ctx) } else { None }
    } else {
        let rule = A005ExpensiveKeyExpr;
        if rule.applicable_to(node) { rule.evaluate(ctx) } else { None }
    }
}

/// The diagnostic that rule `k` of the project rules reports on `node`, when it applies.
pub open spec fn project_rule(k: int, node: ExecutionTreeNode) -> Option<DiagnosticView> {
    if k == 0 {
        if name_has(node, "PROJECT"@) { spec_p001(node) } else { None }
    } else {
        if name_has(node, "LOCAL"@) && name_has(node, "EXCHANGE"@) { spec_l001(node) } else { None }
    }
}

fn eval_project(k: usize, ctx: &RuleContext) -> (r: Option<Diagnostic>)
    requires
        k < 2,
        ctx.node.wf(),
    ensures
        opt_dview(r) == project_rule(k as int, *ctx.node),
{
    let node = ctx.node;
    if k == 0 {
        let rule = P001ProjectExprHigh;
        if rule.applicable_to(node) { rule.evaluate(ctx) } else { None }
    } else {
        let rule = L001LocalExchangeMemory;
        if rule.applicable_to(node) { rule.evaluate(ctx) } else { None }
    }
}

/// The diagnostic that query rule `k` (Q001 to Q009, in order) reports on the profile.
pub open spec fn query_rule(k: int, p: Profile) -> Option<QueryDiagnosticView> {
    if k == 0 {
        spec_q001(p)
    } else if k == 1 {
        spec_q002(p)
    } else if k == 2 {
        spec_q003(p)
    } else if k == 3 {
        spec_q004(p)
    } else if k == 4 {
        spec_q005(p)
    } else if k == 5 {
        spec_q006(p)
    } else if k == 6 {
        spec_q007(p)
    } else if k == 7 {
        spec_q008(p)
    } else {
        spec_q009(p)
    }
}

pub fn eval_query(k: usize, p: &Profile) -> (r: Option<QueryDiagnostic>)
    requires
        k < QUERY_RULE_COUNT,
        p.wf(),
    ensures
        opt_qview(r) == query_rule(k as int, *p),
{
    if k == 0 {
        Q001LongRunning.evaluate(p)
    } else if k == 1 {
        Q002HighMemory.evaluate(p)
    } else if k == 2 {
        Q003QuerySpill.evaluate(p)
    } else if k == 3 {
        Q004LowCPU.evaluate(p)
    } else if k == 4 {
        Q005ScanDominates.evaluate(p)
    } else if k == 5 {
        Q006NetworkDominates.evaluate(p)
    } else if k == 6 {
        Q007ProfileCollectSlow.evaluate(p)
    } else if k == 7 {
        Q008ScheduleTimeLong.evaluate(p)
    } else {
        Q009ResultDeliverySlow.evaluate(p)
    }
}

/// The diagnostic that node rule `k` reports on `node`, when the rule applies to it.
/// The rules, in order: G001, G001b, G002, G003, S001 to S014, J001 to J010, A001 to
/// A005, P001, L001.
pub open spec fn node_rule(k: int, node: ExecutionTreeNode) -> Option<DiagnosticView> {
    if k < 4 {
        common_rule(k, node)
    } else if k < 18 {
        scan_rule(k - 4, node)
    } else if k < 28 {
        join_rule(k - 18, node)
    } else if k < 33 {
        aggregate_rule(k - 28, node)
    } else {
        project_rule(k - 33, node)
    }
}

/// Evaluates node rule `k` on the context's node (nothing when it does not apply).
pub fn eval_node_rule(k: usize, ctx: &RuleContext) -> (r: Option<Diagnostic>)
    requires
        k < NODE_RULE_COUNT,
        ctx.node.wf(),
    ensures
        opt_dview(r) == node_rule(k as int, *ctx.node),
{
    if k < 4 {
        eval_common(k, ctx)
    } else if k < 18 {
        eval_scan(k - 4, ctx)
    } else if k < 28 {
        eval_join(k - 18, ctx)
    } else if k < 33 {
        eval_aggregate(k - 28, ctx)
    } else {
        eval_project(k - 33, ctx)
    }
}


/// A query-level rule of the catalogue.
#[derive(Clone, Copy, Debug, PartialEq, Eq, Structural)]
pub enum QueryRuleKind {
    Q001LongRunning,
    Q002HighMemory,
    Q003QuerySpill,
    Q004LowCPU,
    Q005ScanDominates,
    Q006NetworkDominates,
    Q007ProfileCollectSlow,
    Q008ScheduleTimeLong,
    Q009ResultDeliverySlow,
}

impl QueryRuleKind {
    /// Position of the rule in the catalogue (Q001 first).
    pub open spec fn pos(self) -> int {
        match self {
            QueryRuleKind::Q001LongRunning => 0,
            QueryRuleKind::Q002HighMemory => 1,
            QueryRuleKind::Q003QuerySpill => 2,
            QueryRuleKind::Q004LowCPU => 3,
            QueryRuleKind::Q005ScanDominates => 4,
            QueryRuleKind::Q006NetworkDominates => 5,
            QueryRuleKind::Q007ProfileCollectSlow => 6,
            QueryRuleKind::Q008ScheduleTimeLong => 7,
            QueryRuleKind::Q009ResultDeliverySlow => 8,
        }
    }

    /// The rule id.
    pub open spec fn spec_id(self) -> Seq<char> {
        match self {
            QueryRuleKind::Q001LongRunning => "Q001"@,
            QueryRuleKind::Q002HighMemory => "Q002"@,
            QueryRuleKind::Q003QuerySpill => "Q003"@,
            QueryRuleKind::Q004LowCPU => "Q004"@,
            QueryRuleKind::Q005ScanDominates => "Q005"@,
            QueryRuleKind::Q006NetworkDominates => "Q006"@,
            QueryRuleKind::Q007ProfileCollectSlow => "Q007"@,
            QueryRuleKind::Q008ScheduleTimeLong => "Q008"@,
            QueryRuleKind::Q009ResultDeliverySlow => "Q009"@,
        }
    }

    /// The rule name.
    pub open spec fn spec_name(self) -> Seq<char> {
        match self {
            QueryRuleKind::Q001LongRunning => "查询执行时间过长"@,
            QueryRuleKind::Q002HighMemory => "查询内存使用过高"@,
            QueryRuleKind::Q003QuerySpill => "查询发生落盘"@,
            QueryRuleKind::Q004LowCPU => "CPU 利用率低"@,
            QueryRuleKind::Q005ScanDominates => "扫描时间占比过高"@,
            QueryRuleKind::Q006NetworkDominates => "网络时间占比过高"@,
            QueryRuleKind::Q007ProfileCollectSlow => "Profile 收集慢"@,
            QueryRuleKind::Q008ScheduleTimeLong => "调度时间过长"@,
            QueryRuleKind::Q009ResultDeliverySlow => "结果传输慢"@,
        }
    }
}

impl QueryRule for QueryRuleKind {
    fn id(&self) -> (r: &'static str)
        ensures
            r@ == self.spec_id(),
    {
        match self {
            QueryRuleKind::Q001LongRunning => Q001LongRunning.id(),
            QueryRuleKind::Q002HighMemory => Q002HighMemory.id(),
            QueryRuleKind::Q003QuerySpill => Q003QuerySpill.id(),
            QueryRuleKind::Q004LowCPU => Q004LowCPU.id(),
            QueryRuleKind::Q005ScanDominates => Q005ScanDominates.id(),
            QueryRuleKind::Q006NetworkDominates => Q006NetworkDominates.id(),
            QueryRuleKind::Q007ProfileCollectSlow => Q007ProfileCollectSlow.id(),
            QueryRuleKind::Q008ScheduleTimeLong => Q008ScheduleTimeLong.id(),
            QueryRuleKind::Q009ResultDeliverySlow => Q009ResultDeliverySlow.id(),
        }
    }

    fn name(&self) -> (r: &'static str)
        ensures
            r@ == self.spec_name(),
    {
        match self {
            QueryRuleKind::Q001LongRunning => Q001LongRunning.name(),
            QueryRuleKind::Q002HighMemory => Q002HighMemory.name(),
            QueryRuleKind::Q003QuerySpill => Q003QuerySpill.name(),
            QueryRuleKind::Q004LowCPU => Q004LowCPU.name(),
            QueryRuleKind::Q005ScanDominates => Q005ScanDominates.name(),
            QueryRuleKind::Q006NetworkDominates => Q006NetworkDominates.name(),
            QueryRuleKind::Q007ProfileCollectSlow => Q007ProfileCollectSlow.name(),
            QueryRuleKind::Q008ScheduleTimeLong => Q008ScheduleTimeLong.name(),
            QueryRuleKind::Q009ResultDeliverySlow => Q009ResultDeliverySlow.name(),
        }
    }

    fn evaluate(&self, p: &Profile) -> (r: Option<QueryDiagnostic>)
        ensures
            opt_qview(r) == query_rule(self.pos(), *p),
    {
        let k: usize = match self {
            QueryRuleKind::Q001LongRunning => 0,
            QueryRuleKind::Q002HighMemory => 1,
            QueryRuleKind::Q003QuerySpill => 2,
            QueryRuleKind::Q004LowCPU => 3,
            QueryRuleKind::Q005ScanDominates => 4,
            QueryRuleKind::Q006NetworkDominates => 5,
            QueryRuleKind::Q007ProfileCollectSlow => 6,
            QueryRuleKind::Q008ScheduleTimeLong => 7,
            QueryRuleKind::Q009ResultDeliverySlow => 8,
        };
        eval_query(k, p)
    }
}

/// The query-level rules, Q001 to Q009 in order; they are evaluated once per profile.
pub fn get_query_rules() -> (r: Vec<QueryRuleKind>)
    ensures
        r@.len() == QUERY_RULE_COUNT,
        forall|k: int| 0 <= k < r@.len() ==> (#[trigger] r@[k]).pos() == k,
{
    let mut v: Vec<QueryRuleKind> = Vec::new();
    v.push(QueryRuleKind::Q001LongRunning);
    v.push(QueryRuleKind::Q002HighMemory);
    v.push(QueryRuleKind::Q003QuerySpill);
    v.push(QueryRuleKind::Q004LowCPU);
    v.push(QueryRuleKind::Q005ScanDominates);
    v.push(QueryRuleKind::Q006NetworkDominates);
    v.push(QueryRuleKind::Q007ProfileCollectSlow);
    v.push(QueryRuleKind::Q008ScheduleTimeLong);
    v.push(QueryRuleKind::Q009ResultDeliverySlow);
    v
}

} // verus!
