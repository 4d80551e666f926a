//! Conclusion, suggestions and score drawn from hotspots.
use vstd::prelude::*;
use crate::num::{Dec, dec_str, u128_to_string, lin_gt, lin_gt_exec};
use crate::metrics::{push_str, spec_parse_total_time_ms, parse_total_time_ms};
use crate::model::{HotSpot, HotSpotView, HotSeverity, vstr, strings_of, vlit};
use crate::tree::Profile;
use crate::rules::dint;
use crate::uniq::{dedup_by, same_text, push_new_texts};
use crate::engine::report::{
    time_deduction, time_points, total_ms_or_zero, total_time_or_zero, fmt_total_duration,
    format_total_duration,
};

verus! {

/// The views of a list of hotspots.
pub open spec fn vhots(v: Seq<HotSpot>) -> Seq<HotSpotView> {
    v.map_values(|h: HotSpot| h@)
}

/// The suggestions of the hotspots, one hotspot after another.
pub open spec fn hot_suggestions(hs: Seq<HotSpotView>) -> Seq<Seq<char>>
    decreases hs.len(),
{
    if hs.len() == 0 {
        Seq::empty()
    } else {
        hot_suggestions(hs.drop_last()) + hs.last().suggestions
    }
}

/// Suggestions that close every list.
pub open spec fn general_suggestions() -> Seq<Seq<char>> {
    seq!["考虑启用查询缓存以提高重复查询的性能"@, "检查硬件资源（CPU、内存、存储）是否充足"@, "定期维护表统计信息以优化查询计划"@]
}

/// Points a hotspot costs by severity.
pub open spec fn hot_penalty(s: HotSeverity) -> nat {
    match s {
        HotSeverity::Critical => 25,
        HotSeverity::Severe => 15,
        HotSeverity::High => 12,
        HotSeverity::Moderate => 8,
        HotSeverity::Mild => 3,
        HotSeverity::Normal => 0,
    }
}

pub open spec fn hot_total_penalty(hs: Seq<HotSpotView>) -> nat
    decreases hs.len(),
{
    if hs.len() == 0 {
        0
    } else {
        hot_total_penalty(hs.drop_last()) + hot_penalty(hs.last().severity)
    }
}

/// The performance score: 100 less the points of the hotspots and of the total
/// time, never below 0.
pub open spec fn spec_hot_score(hs: Seq<HotSpotView>, p: Profile) -> nat {
    let lost = hot_total_penalty(hs) + time_deduction(spec_parse_total_time_ms(p.summary.total_time@));
    if lost >= 100 {
        0
    } else {
        (100 - lost) as nat
    }
}

pub open spec fn is_severe(h: HotSpotView) -> bool {
    h.severity == HotSeverity::Severe || h.severity == HotSeverity::Critical
}

pub open spec fn is_moderate(h: HotSpotView) -> bool {
    h.severity == HotSeverity::Moderate
}

pub open spec fn severe_fn() -> spec_fn(HotSpotView) -> bool {
    |h: HotSpotView| is_severe(h)
}

pub open spec fn moderate_fn() -> spec_fn(HotSpotView) -> bool {
    |h: HotSpotView| is_moderate(h)
}

/// The conclusion drawn from the hotspots: severe ones (naming the first hotspot's
/// issue), more than two moderate ones, a total time above five minutes, or only
/// minor issues.
pub open spec fn spec_hot_conclusion(hs: Seq<HotSpotView>, p: Profile) -> Seq<char> {
    let severe = hs.filter(severe_fn()).len();
    let moderate = hs.filter(moderate_fn()).len();
    let t = total_ms_or_zero(p);
    if hs.len() == 0 {
        "查询执行良好，未发现明显性能问题。"@
    } else if severe > 0 {
        "查询存在"@ + dec_str(severe) + "个严重性能问题，执行时间较长（"@ + fmt_total_duration(t)
            + "）。主要问题是"@ + hs[0].issue_type + "。建议优先解决严重问题。"@
    } else if moderate > 2 {
        "查询存在"@ + dec_str(moderate) + "个中等程度性能问题，整体性能需优化。执行时间"@
            + fmt_total_duration(t) + "。"@
    } else if lin_gt(t, 1, dint(300_000), 1) {
        "查询执行时间较长（"@ + fmt_total_duration(t) + "），建议关注性能热点。"@
    } else {
        "查询发现"@ + dec_str(hs.len()) + "个小问题，整体性能可接受。"@
    }
}

fn count_hot(hotspots: &[HotSpot], moderate: bool) -> (n: usize)
    ensures
        n == vhots(hotspots@).filter(if moderate { moderate_fn() } else { severe_fn() }).len(),
{
    let ghost hs = vhots(hotspots@);
    let ghost f = if moderate { moderate_fn() } else { severe_fn() };
    let mut n: usize = 0;
    let mut i: usize = 0;
    proof {
        reveal(Seq::filter);
        assert(hs.take(0) =~= Seq::<HotSpotView>::empty());
    }
    while i < hotspots.len()
        invariant
            i <= hotspots.len(),
            hs == vhots(hotspots@),
            f == (if moderate { moderate_fn() } else { severe_fn() }),
            n == hs.take(i as int).filter(f).len(),
            n <= i,
        decreases hotspots.len() - i,
    {
        proof {
            assert(hs.take(i + 1) =~= hs.take(i as int).push(hs[i as int]));
            hs.take(i as int).lemma_filter_push(hs[i as int], f);
        }
        let s = hotspots[i].severity;
        let hit = if moderate {
            s == HotSeverity::Moderate
        } else {
            s == HotSeverity::Severe || s == HotSeverity::Critical
        };
        if hit {
            n = n + 1;
        }
        i = i + 1;
    }
    assert(hs.take(hotspots.len() as int) =~= hs);
    n
}

/// Conclusion, suggestions and score drawn from hotspots.
pub struct SuggestionEngine;

impl SuggestionEngine {
    /// A one-sentence conclusion on the hotspots of a profile.
    pub fn generate_conclusion(hotspots: &[HotSpot], profile: &Profile) -> (s: String)
        ensures
            s@ == spec_hot_conclusion(vhots(hotspots@), *profile),
    {
        let ghost hs = vhots(hotspots@);
        if hotspots.len() == 0 {
            return String::from_str("查询执行良好，未发现明显性能问题。");
        }
        let severe = count_hot(hotspots, false);
        let moderate = count_hot(hotspots, true);
        let t = total_time_or_zero(profile);
        if severe > 0 {
            let mut s = String::from_str("查询存在");
            let n = u128_to_string(severe as u128);
            push_str(&mut s, n.as_str());
            push_str(&mut s, "个严重性能问题，执行时间较长（");
            let d = format_total_duration(t);
            push_str(&mut s, d.as_str());
            push_str(&mut s, "）。主要问题是");
            push_str(&mut s, hotspots[0].issue_type.as_str());
            push_str(&mut s, "。建议优先解决严重问题。");
            assert(hs[0] == hotspots@[0]@);
            s
        } else if moderate > 2 {
            let mut s = String::from_str("查询存在");
            let n = u128_to_string(moderate as u128);
            push_str(&mut s, n.as_str());
            push_str(&mut s, "个中等程度性能问题，整体性能需优化。执行时间");
            let d = format_total_duration(t);
            push_str(&mut s, d.as_str());
            push_str(&mut s, "。");
            s
        } else if lin_gt_exec(t, 1, Dec { mant: 300_000, exp: 0 }, 1) {
            let mut s = String::from_str("查询执行时间较长（");
            let d = format_total_duration(t);
            push_str(&mut s, d.as_str());
            push_str(&mut s, "），建议关注性能热点。");
            s
        } else {
            let mut s = String::from_str("查询发现");
            let n = u128_to_string(hotspots.len() as u128);
            push_str(&mut s, n.as_str());
            push_str(&mut s, "个小问题，整体性能可接受。");
            s
        }
    }

    /// The suggestions of the hotspots followed by the general suggestions, each text
    /// once, in order of first appearance.
    pub fn generate_suggestions(hotspots: &[HotSpot]) -> (r: Vec<String>)
        ensures
            vstr(r@) == dedup_by(hot_suggestions(vhots(hotspots@)) + general_suggestions(), same_text()),
    {
        let ghost hs = vhots(hotspots@);
        let mut out: Vec<String> = Vec::new();
        let mut i: usize = 0;
        assert(hs.take(0) =~= Seq::<HotSpotView>::empty());
        assert(vstr(out@) =~= Seq::<Seq<char>>::empty());
        while i < hotspots.len()
            invariant
                i <= hotspots.len(),
                hs == vhots(hotspots@),
                vstr(out@) == dedup_by(hot_suggestions(hs.take(i as int)), same_text()),
            decreases hotspots.len() - i,
        {
            push_new_texts(&mut out, &hotspots[i].suggestions, Ghost(hot_suggestions(hs.take(i as int))));
            proof {
                let s = hs.take(i + 1);
                assert(s.drop_last() =~= hs.take(i as int));
                assert(s.last() == hotspots@[i as int]@);
            }
            i = i + 1;
        }
        assert(hs.take(hotspots.len() as int) =~= hs);
        let general = strings_of(
            &["考虑启用查询缓存以提高重复查询的性能", "检查硬件资源（CPU、内存、存储）是否充足", "定期维护表统计信息以优化查询计划"],
        );
        push_new_texts(&mut out, &general, Ghost(hot_suggestions(hs)));
        proof {
            let lits: [&str; 3] = ["考虑启用查询缓存以提高重复查询的性能", "检查硬件资源（CPU、内存、存储）是否充足", "定期维护表统计信息以优化查询计划"];
            assert(vlit(lits@) =~= general_suggestions());
        }
        out
    }

    /// The performance score (0 to 100) of a profile with these hotspots.
    pub fn calculate_performance_score(hotspots: &[HotSpot], profile: &Profile) -> (score: u32)
        ensures
            score == spec_hot_score(vhots(hotspots@), *profile),
    {
        let ghost hs = vhots(hotspots@);
        let mut lost: u32 = 0;
        let mut i: usize = 0;
        assert(hs.take(0) =~= Seq::<HotSpotView>::empty());
        while i < hotspots.len()
            invariant
                i <= hotspots.len(),
                hs == vhots(hotspots@),
                lost <= 200,
                lost == (if hot_total_penalty(hs.take(i as int)) >= 200 {
                    200
                } else {
                    hot_total_penalty(hs.take(i as int))
                }),
            decreases hotspots.len() - i,
        {
            let p: u32 = match hotspots[i].severity {
                HotSeverity::Critical => 25,
                HotSeverity::Severe => 15,
                HotSeverity::High => 12,
                HotSeverity::Moderate => 8,
                HotSeverity::Mild => 3,
                HotSeverity::Normal => 0,
            };
            proof {
                let s = hs.take(i + 1);
                assert(s.drop_last() =~= hs.take(i as int));
                assert(s.last() == hotspots@[i as int]@);
            }
            lost = if lost + p >= 200 {
                200
            } else {
                lost + p
            };
            i = i + 1;
        }
        assert(hs.take(hotspots.len() as int) =~= hs);
        let t = time_points(parse_total_time_ms(profile.summary.total_time.as_str()));
        if lost + t >= 100 {
            0
        } else {
            100 - lost - t
        }
    }
}


/// Laws of the hotspot score: it is at most 100, and one more hotspot never raises it.
pub proof fn lemma_hot_score_laws(hs: Seq<HotSpotView>, h: HotSpotView, p: Profile)
    ensures
        spec_hot_score(hs, p) <= 100,
        spec_hot_score(hs.push(h), p) <= spec_hot_score(hs, p),
        hs.len() == 0 && time_deduction(spec_parse_total_time_ms(p.summary.total_time@)) == 0
            ==> spec_hot_score(hs, p) == 100,
{
    assert(hs.push(h).drop_last() =~= hs);
}

} // verus!
