//! Hotspot detection: long-running queries, nodes that take most of the time or
//! much memory, and slow operators.
use vstd::prelude::*;
use vstd::string::*;
use crate::num::{Dec, pow10, pow10_exec, lemma_pow10_le, lemma_pow10_pos, spec_parse_signed, parse_signed_range,
    fixed_str, format_fixed, lin_gt, lin_gt_exec};
use crate::text::{trim_seq, contains_seq, ends_with_seq, str_trim, chars_of, str_to_uppercase, str_contains,
    spec_to_uppercase, occurs_at_exec};
use crate::metrics::{push_str, spec_format_bytes, format_bytes};
use crate::model::{HotSpot, HotSpotView, HotSeverity, vstr, strings_of};
use crate::tree::{ExecutionTreeNode, Profile, Fragment, Pipeline, Operator, lookup, lookup_index};
use crate::rules::{spec_node_path, node_path, fmt_val, format_val, dint};
use crate::suggestion::vhots;

verus! {

// ---------------------------------------------------------------------------
// Durations
// ---------------------------------------------------------------------------

/// A number read as a signed fraction `(numerator, denominator)`; text that is not a
/// number reads as 0.
pub open spec fn signed_value(s: Seq<char>) -> (int, int) {
    match spec_parse_signed(s) {
        Some((neg, d)) => (
            if neg {
                -(d.mant as int)
            } else {
                d.mant as int
            },
            d.den() as int,
        ),
        None => (0, 1),
    }
}

/// Position of the first `c` in `s`, or `s.len()`.
pub open spec fn char_pos(s: Seq<char>, c: char) -> int
    decreases s.len(),
{
    if s.len() == 0 {
        0
    } else if s[0] == c {
        0
    } else {
        1 + char_pos(s.drop_first(), c)
    }
}

/// The text before the first `c`.
pub open spec fn before_char(s: Seq<char>, c: char) -> Seq<char> {
    s.take(char_pos(s, c))
}

/// The text after the first `c` (empty when there is none).
pub open spec fn after_char(s: Seq<char>, c: char) -> Seq<char> {
    if char_pos(s, c) < s.len() {
        s.skip(char_pos(s, c) + 1)
    } else {
        Seq::empty()
    }
}

/// `s` with every trailing repetition of `suffix` removed.
pub open spec fn trim_end_all(s: Seq<char>, suffix: Seq<char>) -> Seq<char>
    decreases s.len(),
{
    if suffix.len() > 0 && suffix.len() <= s.len() && ends_with_seq(s, suffix) {
        trim_end_all(s.take(s.len() - suffix.len()), suffix)
    } else {
        s
    }
}

/// A duration text in seconds, as `(numerator, denominator)`: hours and minutes
/// (`"1h30m"`; what follows the minutes is dropped), minutes alone, or a number
/// followed by `ms`, `us`/`μs`, `ns` or `s`; other text is no duration.
pub open spec fn hot_duration(s: Seq<char>) -> Option<(int, int)> {
    let t = trim_seq(s);
    if contains_seq(t, "h"@) {
        let (hn, hd) = signed_value(before_char(t, 'h'));
        let rest = before_char(after_char(t, 'h'), 'h');
        let (mn, md) = signed_value(before_char(rest, 'm'));
        Some((hn * 3600 * md + mn * 60 * hd, hd * md))
    } else if contains_seq(t, "m"@) && !contains_seq(t, "ms"@) {
        let (mn, md) = signed_value(before_char(t, 'm'));
        Some((mn * 60, md))
    } else if ends_with_seq(t, "ms"@) {
        let (n, d) = signed_value(trim_end_all(t, "ms"@));
        Some((n, d * 1000))
    } else if ends_with_seq(t, "us"@) || ends_with_seq(t, "μs"@) {
        let (n, d) = signed_value(trim_end_all(trim_end_all(t, "us"@), "μs"@));
        Some((n, d * 1_000_000))
    } else if ends_with_seq(t, "ns"@) {
        let (n, d) = signed_value(trim_end_all(t, "ns"@));
        Some((n, d * 1_000_000_000))
    } else if ends_with_seq(t, "s"@) {
        Some(signed_value(trim_end_all(t, "s"@)))
    } else {
        None
    }
}

/// The signed value of `v[lo..hi]` as a fraction.
fn value_of_range(v: &Vec<char>, lo: usize, hi: usize) -> (r: (i128, i128))
    requires
        lo <= hi <= v.len(),
    ensures
        r.0 == signed_value(v@.subrange(lo as int, hi as int)).0,
        r.1 == signed_value(v@.subrange(lo as int, hi as int)).1,
        1 <= r.1 <= 1_000_000_000,
        -0xffff_ffff_ffff_ffff <= r.0 <= 0xffff_ffff_ffff_ffff,
{
    match parse_signed_range(v, lo, hi) {
        Some((neg, d)) => {
            proof {
                lemma_pow10_le(d.exp as nat);
                lemma_pow10_pos(d.exp as nat);
            }
            let den = pow10_exec(d.exp) as i128;
            let m = d.mant as i128;
            if neg {
                (0 - m, den)
            } else {
                (m, den)
            }
        },
        None => (0, 1),
    }
}

/// Position of the first `c` in `v[lo..hi]` (relative to `lo`), or `hi - lo`.
fn char_pos_range(v: &Vec<char>, lo: usize, hi: usize, c: char) -> (p: usize)
    requires
        lo <= hi <= v.len(),
    ensures
        p == char_pos(v@.subrange(lo as int, hi as int), c),
        p <= hi - lo,
{
    let ghost s = v@.subrange(lo as int, hi as int);
    let mut i = lo;
    assert(s.skip(0) =~= s);
    while i < hi && v[i] != c
        invariant
            lo <= i <= hi <= v.len(),
            s == v@.subrange(lo as int, hi as int),
            char_pos(s, c) == (i - lo) + char_pos(s.skip(i - lo), c),
        decreases hi - i,
    {
        assert(s.skip(i - lo)[0] == v@[i as int]);
        assert(s.skip(i - lo).drop_first() =~= s.skip(i - lo + 1));
        i = i + 1;
    }
    if i < hi {
        assert(s.skip(i - lo)[0] == v@[i as int]);
    } else {
        assert(s.skip(i - lo).len() == 0);
    }
    i - lo
}

/// The end of `v[lo..hi]` once every trailing repetition of `suffix` is removed.
fn trim_end_all_range(v: &Vec<char>, lo: usize, hi: usize, suffix: &str) -> (e: usize)
    requires
        lo <= hi <= v.len(),
    ensures
        lo <= e <= hi,
        v@.subrange(lo as int, e as int) == trim_end_all(v@.subrange(lo as int, hi as int), suffix@),
{
    let sv = chars_of(suffix);
    let mut e = hi;
    while sv.len() > 0 && sv.len() <= e - lo && occurs_at_exec(v, &sv, e - sv.len())
        invariant
            lo <= e <= hi <= v.len(),
            sv@ == suffix@,
            trim_end_all(v@.subrange(lo as int, hi as int), suffix@) == trim_end_all(
                v@.subrange(lo as int, e as int),
                suffix@,
            ),
        decreases e,
    {
        let ghost t = v@.subrange(lo as int, e as int);
        assert(t.subrange(t.len() - sv@.len(), t.len() as int) =~= v@.subrange(e - sv@.len(), e as int));
        assert(t.take(t.len() - sv@.len()) =~= v@.subrange(lo as int, e - sv@.len()));
        e = e - sv.len();
    }
    proof {
        let t = v@.subrange(lo as int, e as int);
        if sv@.len() > 0 && sv@.len() <= t.len() {
            assert(t.subrange(t.len() - sv@.len(), t.len() as int) =~= v@.subrange(e - sv@.len(), e as int));
        }
    }
    e
}

proof fn lemma_range_prefix(v: Seq<char>, lo: int, p: int, hi: int)
    requires
        0 <= lo <= lo + p <= hi <= v.len(),
    ensures
        v.subrange(lo, hi).take(p) == v.subrange(lo, lo + p),
{
    assert(v.subrange(lo, hi).take(p) =~= v.subrange(lo, lo + p));
}

/// A duration text in seconds, as a fraction (see `hot_duration`).
fn parse_hot_duration(s: &str) -> (r: Option<(i128, i128)>)
    ensures
        match r {
            Some((n, d)) => hot_duration(s@) == Some((n as int, d as int)) && d > 0
                && -1_000_000_000_000_000_000_000_000_000_000_000 < n < 1_000_000_000_000_000_000_000_000_000_000_000
                && d <= 1_000_000_000_000_000_000,
            None => hot_duration(s@) is None,
        },
{
    let t = str_trim(s);
    let v = chars_of(t);
    let n = v.len();
    let ghost tv = v@;
    assert(v@.subrange(0, n as int) =~= tv);
    if str_contains(t, "h") {
        let ph = char_pos_range(&v, 0, n, 'h');
        proof {
            reveal_strlit("h");
            lemma_range_prefix(v@, 0, ph as int, n as int);
            let q = choose|q: int| crate::text::occurs_at(tv, "h"@, q);
            assert(tv.subrange(q, q + 1)[0] == tv[q]);
            lemma_char_pos_found(tv, 'h', q);
        }
        let (hn, hd) = value_of_range(&v, 0, ph);
        let rest_lo = ph + 1;
        let pr = char_pos_range(&v, rest_lo, n, 'h');
        let pm = char_pos_range(&v, rest_lo, rest_lo + pr, 'm');
        proof {
            let after = tv.skip(ph + 1);
            assert(after == v@.subrange(rest_lo as int, n as int));
            lemma_range_prefix(v@, rest_lo as int, pr as int, n as int);
            let rest = before_char(after, 'h');
            assert(rest == v@.subrange(rest_lo as int, rest_lo + pr));
            lemma_range_prefix(v@, rest_lo as int, pm as int, rest_lo + pr);
        }
        let (mn, md) = value_of_range(&v, rest_lo, rest_lo + pm);
        assert(hn * 3600 * md <= 0xffff_ffff_ffff_ffff * 3600 * 1_000_000_000) by (nonlinear_arith)
            requires
                hn <= 0xffff_ffff_ffff_ffff,
                1 <= md <= 1_000_000_000,
        ;
        assert(hn * 3600 * md >= -0xffff_ffff_ffff_ffff * 3600 * 1_000_000_000) by (nonlinear_arith)
            requires
                hn >= -0xffff_ffff_ffff_ffff,
                1 <= md <= 1_000_000_000,
        ;
        assert(mn * 60 * hd <= 0xffff_ffff_ffff_ffff * 60 * 1_000_000_000) by (nonlinear_arith)
            requires
                mn <= 0xffff_ffff_ffff_ffff,
                1 <= hd <= 1_000_000_000,
        ;
        assert(mn * 60 * hd >= -0xffff_ffff_ffff_ffff * 60 * 1_000_000_000) by (nonlinear_arith)
            requires
                mn >= -0xffff_ffff_ffff_ffff,
                1 <= hd <= 1_000_000_000,
        ;
        assert(hd * md <= 1_000_000_000 * 1_000_000_000) by (nonlinear_arith)
            requires
                1 <= md <= 1_000_000_000,
                1 <= hd <= 1_000_000_000,
        ;
        assert(hd * md >= 1) by (nonlinear_arith)
            requires
                1 <= md,
                1 <= hd,
        ;
        return Some((hn * 3600 * md + mn * 60 * hd, hd * md));
    }
    if str_contains(t, "m") && !str_contains(t, "ms") {
        let pm = char_pos_range(&v, 0, n, 'm');
        proof {
            lemma_range_prefix(v@, 0, pm as int, n as int);
        }
        let (mn, md) = value_of_range(&v, 0, pm);
        return Some((mn * 60, md));
    }
    if crate::text::str_ends_with(t, "ms") {
        let e = trim_end_all_range(&v, 0, n, "ms");
        let (x, d) = value_of_range(&v, 0, e);
        return Some((x, d * 1000));
    }
    if crate::text::str_ends_with(t, "us") || crate::text::str_ends_with(t, "μs") {
        let e1 = trim_end_all_range(&v, 0, n, "us");
        let e2 = trim_end_all_range(&v, 0, e1, "μs");
        let (x, d) = value_of_range(&v, 0, e2);
        return Some((x, d * 1_000_000));
    }
    if crate::text::str_ends_with(t, "ns") {
        let e = trim_end_all_range(&v, 0, n, "ns");
        let (x, d) = value_of_range(&v, 0, e);
        return Some((x, d * 1_000_000_000));
    }
    if crate::text::str_ends_with(t, "s") {
        let e = trim_end_all_range(&v, 0, n, "s");
        let (x, d) = value_of_range(&v, 0, e);
        return Some((x, d));
    }
    None
}

proof fn lemma_char_pos_found(s: Seq<char>, c: char, q: int)
    requires
        0 <= q < s.len(),
        s[q] == c,
    ensures
        char_pos(s, c) <= q,
    decreases q,
{
    if s[0] != c {
        assert(s.drop_first()[q - 1] == c);
        lemma_char_pos_found(s.drop_first(), c, q - 1);
    }
}

// ---------------------------------------------------------------------------
// Hotspots
// ---------------------------------------------------------------------------

/// Suggestions for an operator, by what its upper-cased name contains (SCAN, JOIN,
/// AGGREGATE, EXCHANGE, in that order).
pub open spec fn hot_operator_suggestions(name: Seq<char>) -> Seq<Seq<char>> {
    let n = spec_to_uppercase(name);
    if contains_seq(n, "SCAN"@) {
        seq!["检查是否可以添加过滤条件减少扫描数据量"@, "考虑添加索引或物化视图"@, "检查分区裁剪是否生效"@]
    } else if contains_seq(n, "JOIN"@) {
        seq!["检查JOIN顺序是否最优"@, "考虑使用Runtime Filter"@, "检查是否存在数据倾斜"@]
    } else if contains_seq(n, "AGGREGATE"@) {
        seq!["检查聚合模式是否合适"@, "考虑使用预聚合或物化视图"@, "检查GROUP BY键的选择"@]
    } else if contains_seq(n, "EXCHANGE"@) {
        seq!["检查数据分布是否均匀"@, "考虑调整并行度"@, "检查网络带宽是否充足"@]
    } else {
        seq!["检查该算子是否处理数据量过大"@, "考虑优化查询计划"@]
    }
}

fn hot_operator_suggestions_exec(name: &str) -> (r: Vec<String>)
    ensures
        vstr(r@) == hot_operator_suggestions(name@),
{
    let u = str_to_uppercase(name);
    let n = u.as_str();
    if str_contains(n, "SCAN") {
        strings_of(&["检查是否可以添加过滤条件减少扫描数据量", "考虑添加索引或物化视图", "检查分区裁剪是否生效"])
    } else if str_contains(n, "JOIN") {
        strings_of(&["检查JOIN顺序是否最优", "考虑使用Runtime Filter", "检查是否存在数据倾斜"])
    } else if str_contains(n, "AGGREGATE") {
        strings_of(&["检查聚合模式是否合适", "考虑使用预聚合或物化视图", "检查GROUP BY键的选择"])
    } else if str_contains(n, "EXCHANGE") {
        strings_of(&["检查数据分布是否均匀", "考虑调整并行度", "检查网络带宽是否充足"])
    } else {
        strings_of(&["检查该算子是否处理数据量过大", "考虑优化查询计划"])
    }
}

pub open spec fn hot(path: Seq<char>, severity: HotSeverity, issue: Seq<char>, desc: Seq<char>, sugg: Seq<Seq<char>>) -> HotSpotView {
    HotSpotView { node_path: path, severity, issue_type: issue, description: desc, suggestions: sugg }
}

/// The hotspots of a node of the execution tree: a time share above 50% (severe) or
/// 30% (moderate), and a memory use above 1 GiB (moderate).
pub open spec fn node_hotspots(node: ExecutionTreeNode) -> Seq<HotSpotView> {
    let path = spec_node_path(node);
    let op = node.operator_name@;
    let a = match node.time_percentage {
        Some(p) => if lin_gt(p, 1, dint(50), 1) {
            seq![hot(path, HotSeverity::Severe, "HighTimeCost"@, "算子 "@ + op + " 占用 "@ + fmt_val(p, 1) + "% 的执行时间"@, hot_operator_suggestions(op))]
        } else if lin_gt(p, 1, dint(30), 1) {
            seq![hot(path, HotSeverity::Moderate, "HighTimeCost"@, "算子 "@ + op + " 占用 "@ + fmt_val(p, 1) + "% 的执行时间"@, hot_operator_suggestions(op))]
        } else {
            Seq::empty()
        },
        None => Seq::empty(),
    };
    let b = match node.metrics.memory_usage {
        Some(m) => if m > 1024 * 1024 * 1024 {
            seq![hot(path, HotSeverity::Moderate, "HighMemoryUsage"@, "算子 "@ + op + " 内存使用过高: "@ + spec_format_bytes(m as nat), seq!["检查是否内存泄漏"@, "考虑调整内存配置参数"@, "优化数据结构使用"@])]
        } else {
            Seq::empty()
        },
        None => Seq::empty(),
    };
    a + b
}

/// Law of time hotspots: a node whose time share is above 30% gets a `HighTimeCost`
/// hotspot first, severe above 50% and moderate otherwise; its suggestions follow
/// the kind of operator its upper-cased name names (scans first, then joins, then
/// aggregations, then exchanges), and a node with a share of at most 30% gets none.
pub proof fn lemma_time_hotspot(node: ExecutionTreeNode)
    ensures
        ({
            let hs = node_hotspots(node);
            let n = spec_to_uppercase(node.operator_name@);
            match node.time_percentage {
                Some(p) => if p.mant > 30 * p.den() {
                    &&& hs.len() >= 1
                    &&& hs[0].node_path == spec_node_path(node)
                    &&& hs[0].issue_type == "HighTimeCost"@
                    &&& hs[0].severity == (if p.mant > 50 * p.den() { HotSeverity::Severe } else { HotSeverity::Moderate })
                    &&& contains_seq(n, "SCAN"@) ==> hs[0].suggestions == seq![
                        "检查是否可以添加过滤条件减少扫描数据量"@,
                        "考虑添加索引或物化视图"@,
                        "检查分区裁剪是否生效"@,
                    ]
                    &&& !contains_seq(n, "SCAN"@) && contains_seq(n, "JOIN"@) ==> hs[0].suggestions == seq![
                        "检查JOIN顺序是否最优"@,
                        "考虑使用Runtime Filter"@,
                        "检查是否存在数据倾斜"@,
                    ]
                    &&& !contains_seq(n, "SCAN"@) && !contains_seq(n, "JOIN"@) && contains_seq(n, "AGGREGATE"@)
                        ==> hs[0].suggestions == seq![
                        "检查聚合模式是否合适"@,
                        "考虑使用预聚合或物化视图"@,
                        "检查GROUP BY键的选择"@,
                    ]
                    &&& !contains_seq(n, "SCAN"@) && !contains_seq(n, "JOIN"@) && !contains_seq(n, "AGGREGATE"@)
                        && contains_seq(n, "EXCHANGE"@) ==> hs[0].suggestions == seq![
                        "检查数据分布是否均匀"@,
                        "考虑调整并行度"@,
                        "检查网络带宽是否充足"@,
                    ]
                    &&& !contains_seq(n, "SCAN"@) && !contains_seq(n, "JOIN"@) && !contains_seq(n, "AGGREGATE"@)
                        && !contains_seq(n, "EXCHANGE"@) ==> hs[0].suggestions == seq![
                        "检查该算子是否处理数据量过大"@,
                        "考虑优化查询计划"@,
                    ]
                } else {
                    forall|i: int| 0 <= i < hs.len() ==> (#[trigger] hs[i]).issue_type != "HighTimeCost"@
                },
                None => forall|i: int| 0 <= i < hs.len() ==> (#[trigger] hs[i]).issue_type != "HighTimeCost"@,
            }
        }),
{
    reveal_strlit("HighTimeCost");
    reveal_strlit("HighMemoryUsage");
    let path = spec_node_path(node);
    let op = node.operator_name@;
    assert(dint(50).den() == 1 && dint(30).den() == 1) by {
        reveal_with_fuel(pow10, 1);
    }
    match node.time_percentage {
        Some(p) => {
            assert(p.mant * 1 * dint(50).den() == p.mant);
            assert(50 * 1 * p.den() == 50 * p.den());
            assert(p.mant * 1 * dint(30).den() == p.mant);
            assert(30 * 1 * p.den() == 30 * p.den());
        },
        None => {},
    }
    let hs = node_hotspots(node);
    assert forall|i: int| 0 <= i < hs.len() && hs[i].issue_type == "HighTimeCost"@ implies
        (node.time_percentage matches Some(p) && p.mant > 30 * p.den()) by {
        if !(node.time_percentage matches Some(p) && p.mant > 30 * p.den()) {
            assert(hs[i].issue_type == "HighMemoryUsage"@);
        }
    }
}

/// The hotspot of an operator: a total time above 300 s (severe).
pub open spec fn operator_hotspots(fragment_id: Seq<char>, pipeline_id: Seq<char>, op: Operator) -> Seq<HotSpotView> {
    let path = "Fragment"@ + fragment_id + ".Pipeline"@ + pipeline_id + "."@ + op.name@;
    match lookup(op.common_metrics@, "OperatorTotalTime"@) {
        Some(ts) => match hot_duration(ts) {
            Some((n, d)) => if n > 300 * d {
                seq![hot(path, HotSeverity::Severe, "HighTimeCost"@, "算子 "@ + op.name@ + " 耗时过高: "@ + fixed_str(n as nat, d as nat, 1) + "s"@, hot_operator_suggestions(op.name@))]
            } else {
                Seq::empty()
            },
            None => Seq::empty(),
        },
        None => Seq::empty(),
    }
}

pub open spec fn ops_hotspots(fragment_id: Seq<char>, pipeline_id: Seq<char>, ops: Seq<Operator>) -> Seq<HotSpotView>
    decreases ops.len(),
{
    if ops.len() == 0 {
        Seq::empty()
    } else {
        ops_hotspots(fragment_id, pipeline_id, ops.drop_last()) + operator_hotspots(fragment_id, pipeline_id, ops.last())
    }
}

pub open spec fn pipelines_hotspots(fragment_id: Seq<char>, ps: Seq<Pipeline>) -> Seq<HotSpotView>
    decreases ps.len(),
{
    if ps.len() == 0 {
        Seq::empty()
    } else {
        pipelines_hotspots(fragment_id, ps.drop_last()) + ops_hotspots(fragment_id, ps.last().id@, ps.last().operators@)
    }
}

/// The hotspots of the operators of a fragment.
pub open spec fn fragment_hotspots(f: Fragment) -> Seq<HotSpotView> {
    pipelines_hotspots(f.id@, f.pipelines@)
}

pub open spec fn fragments_hotspots(fs: Seq<Fragment>) -> Seq<HotSpotView>
    decreases fs.len(),
{
    if fs.len() == 0 {
        Seq::empty()
    } else {
        fragments_hotspots(fs.drop_last()) + fragment_hotspots(fs.last())
    }
}

pub open spec fn nodes_hotspots(ns: Seq<ExecutionTreeNode>) -> Seq<HotSpotView>
    decreases ns.len(),
{
    if ns.len() == 0 {
        Seq::empty()
    } else {
        nodes_hotspots(ns.drop_last()) + node_hotspots(ns.last())
    }
}

pub open spec fn hot_rank(s: HotSeverity) -> nat {
    match s {
        HotSeverity::Normal => 0,
        HotSeverity::Mild => 1,
        HotSeverity::Moderate => 2,
        HotSeverity::High => 3,
        HotSeverity::Severe => 4,
        HotSeverity::Critical => 5,
    }
}

pub open spec fn hot_rank_is(r: nat) -> spec_fn(HotSpotView) -> bool {
    |h: HotSpotView| hot_rank(h.severity) == r
}

/// The hotspots with severity rank at most `r`, most severe first, keeping the order
/// of equally severe ones.
pub open spec fn by_hot_rank(hs: Seq<HotSpotView>, r: nat) -> Seq<HotSpotView>
    decreases r,
{
    if r == 0 {
        hs.filter(hot_rank_is(0))
    } else {
        hs.filter(hot_rank_is(r)) + by_hot_rank(hs, (r - 1) as nat)
    }
}

/// The hotspot of a long-running query: a total time above one hour (severe).
pub open spec fn query_hotspots(p: Profile) -> Seq<HotSpotView> {
    match hot_duration(p.summary.total_time@) {
        Some((n, d)) => if n > 3600 * d {
            seq![hot("Query"@, HotSeverity::Severe, "LongRunning"@, "查询总执行时间过长: "@ + fixed_str(n as nat, d as nat, 1) + "s"@, seq!["检查是否存在数据倾斜"@, "考虑优化查询计划"@, "查看是否存在硬件瓶颈"@])]
        } else {
            Seq::empty()
        },
        None => Seq::empty(),
    }
}

/// The hotspots of a profile: the query's, then those of the execution tree's nodes
/// (or, without a tree, of the fragments' operators), most severe first.
pub open spec fn spec_profile_hotspots(p: Profile) -> Seq<HotSpotView> {
    by_hot_rank(
        query_hotspots(p) + match p.execution_tree {
            Some(t) => nodes_hotspots(t.nodes@),
            None => fragments_hotspots(p.fragments@),
        },
        5,
    )
}

fn make_hot(path: String, severity: HotSeverity, issue: &str, desc: String, sugg: Vec<String>) -> (h: HotSpot)
    ensures
        h@ == hot(path@, severity, issue@, desc@, vstr(sugg@)),
{
    HotSpot { node_path: path, severity, issue_type: String::from_str(issue), description: desc, suggestions: sugg }
}

fn push_hot(out: &mut Vec<HotSpot>, h: HotSpot)
    ensures
        vhots(final(out)@) == vhots(old(out)@).push(h@),
{
    out.push(h);
    assert(vhots(out@) =~= vhots(old(out)@).push(h@));
}

fn push_all_hots(out: &mut Vec<HotSpot>, v: Vec<HotSpot>)
    ensures
        vhots(final(out)@) == vhots(old(out)@) + vhots(v@),
{
    let ghost base = vhots(out@);
    let mut v = v;
    let ghost orig = v@;
    let mut k: usize = 0;
    let n = v.len();
    assert(orig.skip(0) =~= orig);
    assert(base + vhots(orig.take(0)) =~= base);
    while v.len() > 0
        invariant
            k + v@.len() == orig.len(),
            orig.len() == n,
            v@ == orig.skip(k as int),
            vhots(out@) == base + vhots(orig.take(k as int)),
        decreases v@.len(),
    {
        let h = v.remove(0);
        assert(h == orig[k as int]);
        assert(v@ =~= orig.skip(k + 1));
        push_hot(out, h);
        assert(orig.take(k + 1) =~= orig.take(k as int).push(h));
        assert(vhots(orig.take(k + 1)) =~= vhots(orig.take(k as int)).push(h@));
        k = k + 1;
    }
    assert(orig.take(k as int) =~= orig);
}

/// Hotspot detection over a profile.
pub struct HotSpotDetector;

impl HotSpotDetector {
    /// The hotspots of a node of the execution tree.
    pub fn analyze_execution_tree_node(node: &ExecutionTreeNode) -> (r: Vec<HotSpot>)
        requires
            node.wf(),
        ensures
            vhots(r@) == node_hotspots(*node),
    {
        let mut out: Vec<HotSpot> = Vec::new();
        let op = node.operator_name.as_str();
        match node.time_percentage {
            Some(p) => {
                let severe = lin_gt_exec(p, 1, Dec { mant: 50, exp: 0 }, 1);
                if severe || lin_gt_exec(p, 1, Dec { mant: 30, exp: 0 }, 1) {
                    let mut d = String::from_str("算子 ");
                    push_str(&mut d, op);
                    push_str(&mut d, " 占用 ");
                    let v = format_val(p, 1);
                    push_str(&mut d, v.as_str());
                    push_str(&mut d, "% 的执行时间");
                    let sev = if severe {
                        HotSeverity::Severe
                    } else {
                        HotSeverity::Moderate
                    };
                    let h = make_hot(node_path(node), sev, "HighTimeCost", d, hot_operator_suggestions_exec(op));
                    push_hot(&mut out, h);
                }
            },
            None => {},
        }
        let ghost a = vhots(out@);
        match node.metrics.memory_usage {
            Some(m) => {
                if m > 1024 * 1024 * 1024 {
                    let mut d = String::from_str("算子 ");
                    push_str(&mut d, op);
                    push_str(&mut d, " 内存使用过高: ");
                    let b = format_bytes(m);
                    push_str(&mut d, b.as_str());
                    let sl: [&str; 3] = ["检查是否内存泄漏", "考虑调整内存配置参数", "优化数据结构使用"];
                    let sugg = strings_of(&sl);
                    proof {
                        assert(crate::model::vlit(sl@) =~= seq!["检查是否内存泄漏"@, "考虑调整内存配置参数"@, "优化数据结构使用"@]);
                    }
                    let h = make_hot(node_path(node), HotSeverity::Moderate, "HighMemoryUsage", d, sugg);
                    push_hot(&mut out, h);
                }
            },
            None => {},
        }
        assert(vhots(out@) =~= node_hotspots(*node));
        out
    }

    /// The hotspot of an operator of a pipeline of a fragment.
    pub fn analyze_operator(fragment_id: &str, pipeline_id: &str, operator: &Operator) -> (r: Vec<HotSpot>)
        ensures
            vhots(r@) == operator_hotspots(fragment_id@, pipeline_id@, *operator),
    {
        let mut out: Vec<HotSpot> = Vec::new();
        assert(vhots(out@) =~= Seq::<HotSpotView>::empty());
        match lookup_index(&operator.common_metrics, "OperatorTotalTime") {
            Some(i) => {
                match parse_hot_duration(operator.common_metrics[i].1.as_str()) {
                    Some((n, d)) => {
                        if n > 300 * d {
                            let mut path = String::from_str("Fragment");
                            push_str(&mut path, fragment_id);
                            push_str(&mut path, ".Pipeline");
                            push_str(&mut path, pipeline_id);
                            push_str(&mut path, ".");
                            push_str(&mut path, operator.name.as_str());
                            let mut desc = String::from_str("算子 ");
                            push_str(&mut desc, operator.name.as_str());
                            push_str(&mut desc, " 耗时过高: ");
                            let x = format_fixed(n as u128, d as u128, 1);
                            push_str(&mut desc, x.as_str());
                            push_str(&mut desc, "s");
                            let h = make_hot(path, HotSeverity::Severe, "HighTimeCost", desc, hot_operator_suggestions_exec(operator.name.as_str()));
                            push_hot(&mut out, h);
                            assert(vhots(out@) =~= operator_hotspots(fragment_id@, pipeline_id@, *operator));
                        }
                    },
                    None => {},
                }
            },
            None => {},
        }
        out
    }

    /// The hotspots of the operators of a fragment.
    pub fn analyze_fragment(fragment: &Fragment) -> (r: Vec<HotSpot>)
        ensures
            vhots(r@) == fragment_hotspots(*fragment),
    {
        let ps = &fragment.pipelines;
        let mut out: Vec<HotSpot> = Vec::new();
        let mut j: usize = 0;
        assert(ps@.take(0) =~= Seq::<Pipeline>::empty());
        assert(vhots(out@) =~= Seq::<HotSpotView>::empty());
        while j < ps.len()
            invariant
                j <= ps.len(),
                ps == &fragment.pipelines,
                vhots(out@) == pipelines_hotspots(fragment.id@, ps@.take(j as int)),
            decreases ps.len() - j,
        {
            let ops = &ps[j].operators;
            let ghost mid = vhots(out@);
            let mut k: usize = 0;
            assert(ops@.take(0) =~= Seq::<Operator>::empty());
            assert(mid + ops_hotspots(fragment.id@, ps@[j as int].id@, ops@.take(0)) =~= mid);
            while k < ops.len()
                invariant
                    k <= ops.len(),
                    j < ps.len(),
                    ops == &ps@[j as int].operators,
                    vhots(out@) == mid + ops_hotspots(fragment.id@, ps@[j as int].id@, ops@.take(k as int)),
                decreases ops.len() - k,
            {
                let hs = Self::analyze_operator(fragment.id.as_str(), ps[j].id.as_str(), &ops[k]);
                push_all_hots(&mut out, hs);
                proof {
                    let t = ops@.take(k + 1);
                    assert(t.drop_last() =~= ops@.take(k as int));
                    assert(t.last() == ops@[k as int]);
                }
                k = k + 1;
            }
            assert(ops@.take(ops.len() as int) =~= ops@);
            proof {
                let t = ps@.take(j + 1);
                assert(t.drop_last() =~= ps@.take(j as int));
                assert(t.last() == ps@[j as int]);
            }
            j = j + 1;
        }
        assert(ps@.take(ps.len() as int) =~= ps@);
        out
    }

    /// The hotspots of a profile, most severe first.
    pub fn analyze(profile: &Profile) -> (r: Vec<HotSpot>)
        requires
            profile.wf(),
        ensures
            vhots(r@) == spec_profile_hotspots(*profile),
    {
        let mut all: Vec<HotSpot> = Vec::new();
        assert(vhots(all@) =~= Seq::<HotSpotView>::empty());
        match parse_hot_duration(profile.summary.total_time.as_str()) {
            Some((n, d)) => {
                if n > 3600 * d {
                    let mut desc = String::from_str("查询总执行时间过长: ");
                    let x = format_fixed(n as u128, d as u128, 1);
                    push_str(&mut desc, x.as_str());
                    push_str(&mut desc, "s");
                    let sl: [&str; 3] = ["检查是否存在数据倾斜", "考虑优化查询计划", "查看是否存在硬件瓶颈"];
                    let sugg = strings_of(&sl);
                    proof {
                        assert(crate::model::vlit(sl@) =~= seq!["检查是否存在数据倾斜"@, "考虑优化查询计划"@, "查看是否存在硬件瓶颈"@]);
                    }
                    let h = make_hot(String::from_str("Query"), HotSeverity::Severe, "LongRunning", desc, sugg);
                    push_hot(&mut all, h);
                }
            },
            None => {},
        }
        assert(vhots(all@) =~= query_hotspots(*profile));
        let ghost q = vhots(all@);
        match &profile.execution_tree {
            Some(t) => {
                let mut i: usize = 0;
                assert(t.nodes@.take(0) =~= Seq::<ExecutionTreeNode>::empty());
                assert(q + nodes_hotspots(t.nodes@.take(0)) =~= q);
                while i < t.nodes.len()
                    invariant
                        i <= t.nodes.len(),
                        forall|j: int| 0 <= j < t.nodes@.len() ==> (#[trigger] t.nodes@[j]).wf(),
                        vhots(all@) == q + nodes_hotspots(t.nodes@.take(i as int)),
                    decreases t.nodes.len() - i,
                {
                    let hs = Self::analyze_execution_tree_node(&t.nodes[i]);
                    push_all_hots(&mut all, hs);
                    proof {
                        let s = t.nodes@.take(i + 1);
                        assert(s.drop_last() =~= t.nodes@.take(i as int));
                        assert(s.last() == t.nodes@[i as int]);
                    }
                    i = i + 1;
                }
                assert(t.nodes@.take(t.nodes.len() as int) =~= t.nodes@);
            },
            None => {
                let fs = &profile.fragments;
                let mut i: usize = 0;
                assert(fs@.take(0) =~= Seq::<Fragment>::empty());
                assert(q + fragments_hotspots(fs@.take(0)) =~= q);
                while i < fs.len()
                    invariant
                        i <= fs.len(),
                        vhots(all@) == q + fragments_hotspots(fs@.take(i as int)),
                    decreases fs.len() - i,
                {
                    let hs = Self::analyze_fragment(&fs[i]);
                    push_all_hots(&mut all, hs);
                    proof {
                        let s = fs@.take(i + 1);
                        assert(s.drop_last() =~= fs@.take(i as int));
                        assert(s.last() == fs@[i as int]);
                    }
                    i = i + 1;
                }
                assert(fs@.take(fs.len() as int) =~= fs@);
            },
        }
        // most severe first, keeping the order of equally severe ones
        let ghost s = vhots(all@);
        let mut out: Vec<HotSpot> = Vec::new();
        let mut r: u8 = 6;
        assert(vhots(out@) + by_hot_rank(s, 5) =~= by_hot_rank(s, 5));
        while r > 0
            invariant
                r <= 6,
                s == vhots(all@),
                vhots(out@) + (if r == 0 {
                    Seq::<HotSpotView>::empty()
                } else {
                    by_hot_rank(s, (r - 1) as nat)
                }) == by_hot_rank(s, 5),
            decreases r,
        {
            r = r - 1;
            let ghost before = vhots(out@);
            let mut i: usize = 0;
            proof {
                reveal(Seq::filter);
                assert(s.take(0) =~= Seq::<HotSpotView>::empty());
                assert(before + s.take(0).filter(hot_rank_is(r as nat)) =~= before);
            }
            while i < all.len()
                invariant
                    i <= all.len(),
                    s == vhots(all@),
                    vhots(out@) == before + s.take(i as int).filter(hot_rank_is(r as nat)),
                decreases all.len() - i,
            {
                proof {
                    assert(s.take(i + 1) =~= s.take(i as int).push(s[i as int]));
                    s.take(i as int).lemma_filter_push(s[i as int], hot_rank_is(r as nat));
                    assert(s[i as int] == all@[i as int]@);
                }
                let rank: u8 = match all[i].severity {
                    HotSeverity::Normal => 0,
                    HotSeverity::Mild => 1,
                    HotSeverity::Moderate => 2,
                    HotSeverity::High => 3,
                    HotSeverity::Severe => 4,
                    HotSeverity::Critical => 5,
                };
                if rank == r {
                    let h = all[i].copy();
                    push_hot(&mut out, h);
                }
                i = i + 1;
            }
            assert(s.take(all.len() as int) =~= s);
            if r == 0 {
                assert(vhots(out@) + Seq::<HotSpotView>::empty() =~= by_hot_rank(s, 5));
            } else {
                assert(vhots(out@) + by_hot_rank(s, (r - 1) as nat) =~= by_hot_rank(s, 5));
            }
        }
        assert(vhots(out@) =~= by_hot_rank(s, 5));
        out
    }
}


proof fn lemma_by_hot_rank(hs: Seq<HotSpotView>, r: nat)
    ensures
        forall|i: int| 0 <= i < by_hot_rank(hs, r).len() ==> hot_rank((#[trigger] by_hot_rank(hs, r)[i]).severity) <= r,
        forall|i: int, j: int|
            0 <= i < j < by_hot_rank(hs, r).len() ==> hot_rank((#[trigger] by_hot_rank(hs, r)[i]).severity)
                >= hot_rank((#[trigger] by_hot_rank(hs, r)[j]).severity),
        forall|i: int| 0 <= i < by_hot_rank(hs, r).len() ==> hs.contains(#[trigger] by_hot_rank(hs, r)[i]),
        forall|j: int| 0 <= j < hs.len() && hot_rank(hs[j].severity) <= r ==> by_hot_rank(hs, r).contains(
            #[trigger] hs[j],
        ),
    decreases r,
{
    broadcast use Seq::lemma_filter_pred, Seq::lemma_filter_contains, Seq::lemma_filter_contains_rev;
    let top = hs.filter(hot_rank_is(r));
    let out = by_hot_rank(hs, r);
    if r == 0 {
        assert(out == top);
        assert forall|i: int| 0 <= i < out.len() implies hot_rank((#[trigger] out[i]).severity) == 0
            && hs.contains(out[i]) by {
            assert(hot_rank_is(0)(top[i]));
            assert(top.contains(top[i]));
        }
        assert forall|j: int| 0 <= j < hs.len() && hot_rank(hs[j].severity) <= r implies out.contains(
            #[trigger] hs[j],
        ) by {
            assert(hot_rank_is(0)(hs[j]));
        }
    } else {
        let rest = by_hot_rank(hs, (r - 1) as nat);
        lemma_by_hot_rank(hs, (r - 1) as nat);
        assert(out == top + rest);
        assert forall|i: int| 0 <= i < out.len() implies hs.contains(#[trigger] out[i]) && (i < top.len()
            ==> hot_rank(out[i].severity) == r) && (i >= top.len() ==> hot_rank(out[i].severity) <= r - 1) by {
            if i < top.len() {
                assert(out[i] == top[i]);
                assert(hot_rank_is(r)(top[i]));
                assert(top.contains(top[i]));
            } else {
                assert(out[i] == rest[i - top.len()]);
            }
        }
        assert forall|j: int| 0 <= j < hs.len() && hot_rank(hs[j].severity) <= r implies out.contains(
            #[trigger] hs[j],
        ) by {
            let x = hs[j];
            if hot_rank(x.severity) == r {
                assert(hot_rank_is(r)(x));
                assert(top.contains(x));
                let q = choose|q: int| 0 <= q < top.len() && top[q] == x;
                assert(out[q] == x);
            } else {
                assert(rest.contains(x));
                let q = choose|q: int| 0 <= q < rest.len() && rest[q] == x;
                assert(out[top.len() + q] == x);
            }
        }
    }
}

/// The hotspots found in a profile, before ordering: the long-running query's, then
/// those of the tree nodes (or, without a tree, of the fragment operators).
pub open spec fn found_hotspots(p: Profile) -> Seq<HotSpotView> {
    query_hotspots(p) + match p.execution_tree {
        Some(t) => nodes_hotspots(t.nodes@),
        None => fragments_hotspots(p.fragments@),
    }
}

/// Law of the hotspot report: the hotspots come most severe first, every hotspot
/// found is reported, and every hotspot reported was found.
pub proof fn lemma_hotspots_sorted(p: Profile)
    ensures
        ({
            let r = spec_profile_hotspots(p);
            let f = found_hotspots(p);
            &&& forall|i: int, j: int|
                0 <= i < j < r.len() ==> hot_rank((#[trigger] r[i]).severity) >= hot_rank((#[trigger] r[j]).severity)
            &&& forall|i: int| 0 <= i < r.len() ==> f.contains(#[trigger] r[i])
            &&& forall|j: int| 0 <= j < f.len() ==> r.contains(#[trigger] f[j])
        }),
{
    let f = found_hotspots(p);
    assert(spec_profile_hotspots(p) == by_hot_rank(f, 5));
    lemma_by_hot_rank(f, 5);
    assert forall|j: int| 0 <= j < f.len() implies hot_rank(#[trigger] f[j].severity) <= 5 by {
        match f[j].severity {
            _ => {},
        }
    }
}

} // verus!
