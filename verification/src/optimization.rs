//! Design-space studies: the seeded study, the checks a study must pass
//! before it runs, the recommendation a score earns and the ranking of the
//! scored candidates. Bounds and scores are held as the bit patterns of
//! their `f32` values; the weighted score of a candidate is `f32`
//! arithmetic that the caller computes and hands in.
use vstd::prelude::*;
use crate::floatbits::{bits32_le, bits32_lt, bits32_total_key, f32_le, f32_lt, total_key32};

verus! {

#[derive(Debug, Clone, PartialEq, Eq)]
pub struct OptimizationObjective {
    pub id: String,
    pub label: String,
    pub goal: String,
}

#[derive(Debug, Clone, PartialEq, Eq)]
pub struct OptimizationConstraint {
    pub id: String,
    pub label: String,
    pub expression: String,
}

/// A tunable variable; the bounds and current value are `f32` patterns.
#[derive(Debug, Clone, PartialEq, Eq)]
pub struct OptimizationVariable {
    pub id: String,
    pub label: String,
    pub minimum: u32,
    pub maximum: u32,
    pub current: u32,
}

#[derive(Debug, Clone, PartialEq, Eq)]
pub struct OptimizationCandidate {
    pub id: String,
    pub cycle_time_ms: u32,
    pub energy_wh: u32,
    pub safety_margin_mm: u32,
}

/// A candidate with its score (an `f32` pattern) and what to do with it.
#[derive(Debug, PartialEq, Eq)]
pub struct RankedCandidate {
    pub id: String,
    pub score: u32,
    pub recommendation: String,
}

#[derive(Debug, PartialEq, Eq)]
pub struct OptimizationStudy {
    pub id: String,
    pub objectives: Vec<OptimizationObjective>,
    pub constraints: Vec<OptimizationConstraint>,
    pub variables: Vec<OptimizationVariable>,
    pub candidates: Vec<OptimizationCandidate>,
}

#[derive(Debug, PartialEq, Eq)]
pub struct OptimizationRunReport {
    pub candidate_count: usize,
    pub ranked_candidates: Vec<RankedCandidate>,
    pub best_candidate_id: Option<String>,
}

#[derive(Debug, Clone, Copy, PartialEq, Eq, Structural)]
pub enum OptimizationError {
    EmptyStudy,
    EmptyObjectives,
    InvalidVariableBounds,
}

/// The text of an optimization error.
pub fn optimization_error_message(e: OptimizationError) -> (m: &'static str)
    ensures
        m@ == match e {
            OptimizationError::EmptyStudy => "an optimization study requires at least one candidate"@,
            OptimizationError::EmptyObjectives => "an optimization study requires at least one objective"@,
            OptimizationError::InvalidVariableBounds => "optimization variables must keep min <= current <= max"@,
        },
{
    match e {
        OptimizationError::EmptyStudy => "an optimization study requires at least one candidate",
        OptimizationError::EmptyObjectives => "an optimization study requires at least one objective",
        OptimizationError::InvalidVariableBounds => "optimization variables must keep min <= current <= max",
    }
}

fn objective(id: &str, label: &str, goal: &str) -> (o: OptimizationObjective)
    ensures
        o.id@ == id@,
        o.label@ == label@,
        o.goal@ == goal@,
{
    OptimizationObjective { id: String::from_str(id), label: String::from_str(label), goal: String::from_str(goal) }
}

fn constraint(id: &str, label: &str, expression: &str) -> (c: OptimizationConstraint)
    ensures
        c.id@ == id@,
        c.label@ == label@,
        c.expression@ == expression@,
{
    OptimizationConstraint {
        id: String::from_str(id),
        label: String::from_str(label),
        expression: String::from_str(expression),
    }
}

fn variable(id: &str, label: &str, minimum: u32, maximum: u32, current: u32) -> (v: OptimizationVariable)
    ensures
        v.id@ == id@,
        v.label@ == label@,
        v.minimum == minimum,
        v.maximum == maximum,
        v.current == current,
{
    OptimizationVariable { id: String::from_str(id), label: String::from_str(label), minimum, maximum, current }
}

fn candidate(id: &str, cycle_time_ms: u32, energy_wh: u32, safety_margin_mm: u32) -> (c: OptimizationCandidate)
    ensures
        c.id@ == id@,
        c.cycle_time_ms == cycle_time_ms,
        c.energy_wh == energy_wh,
        c.safety_margin_mm == safety_margin_mm,
{
    OptimizationCandidate { id: String::from_str(id), cycle_time_ms, energy_wh, safety_margin_mm }
}

/// The seeded study: minimise cycle time and energy, maximise the safety
/// margin; a speed scale in [0.6, 1.0] at 0.82 and a conveyor buffer in
/// [0, 120] at 35; a fast, a balanced and a safe candidate.
pub open spec fn seeded_study_spec(s: OptimizationStudy, id: Seq<char>) -> bool {
    let o = s.objectives@;
    let c = s.constraints@;
    let v = s.variables@;
    let k = s.candidates@;
    &&& s.id@ == id
    &&& o.len() == 3
    &&& o[0].id@ == "obj_cycle"@ && o[0].label@ == "Cycle Time"@ && o[0].goal@ == "minimize"@
    &&& o[1].id@ == "obj_energy"@ && o[1].label@ == "Energy"@ && o[1].goal@ == "minimize"@
    &&& o[2].id@ == "obj_safety"@ && o[2].label@ == "Safety Margin"@ && o[2].goal@ == "maximize"@
    &&& c.len() == 2
    &&& c[0].id@ == "cst_safety"@ && c[0].label@ == "Minimum safety margin"@ && c[0].expression@
        == "safety_margin_mm >= 18"@
    &&& c[1].id@ == "cst_clearance"@ && c[1].label@ == "Perception deviation"@ && c[1].expression@
        == "max_perception_deviation_mm <= 6"@
    &&& v.len() == 2
    &&& v[0].id@ == "var_speed"@ && v[0].label@ == "Robot speed scale"@
    &&& v[0].minimum == 0x3F19_999Au32 && v[0].maximum == 0x3F80_0000u32 && v[0].current == 0x3F51_EB85u32
    &&& v[1].id@ == "var_buffer"@ && v[1].label@ == "Conveyor buffer"@
    &&& v[1].minimum == 0u32 && v[1].maximum == 0x42F0_0000u32 && v[1].current == 0x420C_0000u32
    &&& k.len() == 3
    &&& k[0].id@ == "candidate_fast"@ && k[0].cycle_time_ms == 900 && k[0].energy_wh == 70 && k[0].safety_margin_mm == 15
    &&& k[1].id@ == "candidate_balanced"@ && k[1].cycle_time_ms == 1050 && k[1].energy_wh == 40
        && k[1].safety_margin_mm == 20
    &&& k[2].id@ == "candidate_safe"@ && k[2].cycle_time_ms == 1200 && k[2].energy_wh == 35 && k[2].safety_margin_mm == 24
}

pub fn seeded_study(id: String) -> (s: OptimizationStudy)
    ensures
        seeded_study_spec(s, id@),
{
    let mut objectives: Vec<OptimizationObjective> = Vec::new();
    objectives.push(objective("obj_cycle", "Cycle Time", "minimize"));
    objectives.push(objective("obj_energy", "Energy", "minimize"));
    objectives.push(objective("obj_safety", "Safety Margin", "maximize"));
    let mut constraints: Vec<OptimizationConstraint> = Vec::new();
    constraints.push(constraint("cst_safety", "Minimum safety margin", "safety_margin_mm >= 18"));
    constraints.push(constraint("cst_clearance", "Perception deviation", "max_perception_deviation_mm <= 6"));
    let mut variables: Vec<OptimizationVariable> = Vec::new();
    variables.push(variable("var_speed", "Robot speed scale", 0x3F19_999A, 0x3F80_0000, 0x3F51_EB85));
    variables.push(variable("var_buffer", "Conveyor buffer", 0, 0x42F0_0000, 0x420C_0000));
    let mut candidates: Vec<OptimizationCandidate> = Vec::new();
    candidates.push(candidate("candidate_fast", 900, 70, 15));
    candidates.push(candidate("candidate_balanced", 1050, 40, 20));
    candidates.push(candidate("candidate_safe", 1200, 35, 24));
    OptimizationStudy { id, objectives, constraints, variables, candidates }
}

/// `minimum > current || current > maximum` on the `f32` values.
pub open spec fn out_of_bounds(v: OptimizationVariable) -> bool {
    f32_lt(v.current, v.minimum) || f32_lt(v.maximum, v.current)
}

/// Why a study cannot run: no objective, no candidate, or a variable
/// outside its bounds, checked in that order.
pub open spec fn study_error(s: OptimizationStudy) -> Option<OptimizationError> {
    if s.objectives@.len() == 0 {
        Some(OptimizationError::EmptyObjectives)
    } else if s.candidates@.len() == 0 {
        Some(OptimizationError::EmptyStudy)
    } else if exists|i: int| 0 <= i < s.variables@.len() && #[trigger] out_of_bounds(s.variables@[i]) {
        Some(OptimizationError::InvalidVariableBounds)
    } else {
        None
    }
}

/// Checks that `study` can run.
pub fn validate_study(study: &OptimizationStudy) -> (r: Result<(), OptimizationError>)
    ensures
        match study_error(*study) {
            Some(e) => r == Err::<(), OptimizationError>(e),
            None => r is Ok,
        },
{
    if study.objectives.len() == 0 {
        return Err(OptimizationError::EmptyObjectives);
    }
    if study.candidates.len() == 0 {
        return Err(OptimizationError::EmptyStudy);
    }
    let n = study.variables.len();
    let mut i: usize = 0;
    while i < n
        invariant
            n == study.variables@.len(),
            study.objectives@.len() > 0,
            study.candidates@.len() > 0,
            i <= n,
            forall|j: int| 0 <= j < i ==> !#[trigger] out_of_bounds(study.variables@[j]),
        decreases n - i,
    {
        let v = &study.variables[i];
        if bits32_lt(v.current, v.minimum) || bits32_lt(v.maximum, v.current) {
            assert(out_of_bounds(study.variables@[i as int]));
            return Err(OptimizationError::InvalidVariableBounds);
        }
        i = i + 1;
    }
    Ok(())
}

/// What a score earns: `apply` from 33 up, `review` from 26 up, `reject`
/// below (and for NaN).
pub open spec fn recommendation_spec(score: u32) -> Seq<char> {
    if f32_le(0x4204_0000, score) {
        "apply"@
    } else if f32_le(0x41D0_0000, score) {
        "review"@
    } else {
        "reject"@
    }
}

pub fn recommendation(score: u32) -> (r: &'static str)
    ensures
        r@ == recommendation_spec(score),
{
    if bits32_le(0x4204_0000, score) {
        "apply"
    } else if bits32_le(0x41D0_0000, score) {
        "review"
    } else {
        "reject"
    }
}

/// A ranked candidate as the specification reads it.
pub struct RankedView {
    pub id: Seq<char>,
    pub score: u32,
    pub recommendation: Seq<char>,
}

pub open spec fn ranked_view(r: RankedCandidate) -> RankedView {
    RankedView { id: r.id@, score: r.score, recommendation: r.recommendation@ }
}

pub open spec fn ranked_views(s: Seq<RankedCandidate>) -> Seq<RankedView> {
    s.map_values(|r: RankedCandidate| ranked_view(r))
}

/// Candidate `i` with score `scores[i]`, before ranking.
pub open spec fn scored_views(cs: Seq<OptimizationCandidate>, scores: Seq<u32>) -> Seq<RankedView> {
    Seq::new(
        cs.len(),
        |i: int| RankedView { id: cs[i].id@, score: scores[i], recommendation: recommendation_spec(scores[i]) },
    )
}

/// `a` ranks strictly before `b`: its score is greater in the order of `f32::total_cmp`.
pub open spec fn ranks_before(a: RankedView, b: RankedView) -> bool {
    total_key32(a.score) > total_key32(b.score)
}

/// Where a stable insertion puts `x`: after every entry it does not rank before.
pub open spec fn rank_insert_pos(sorted: Seq<RankedView>, x: RankedView, i: int) -> int
    decreases sorted.len() - i,
{
    if i < 0 || i >= sorted.len() {
        sorted.len() as int
    } else if ranks_before(x, sorted[i]) {
        i
    } else {
        rank_insert_pos(sorted, x, i + 1)
    }
}

/// The entries by descending score, ties in their original order.
pub open spec fn sort_ranked(s: Seq<RankedView>) -> Seq<RankedView>
    decreases s.len(),
{
    if s.len() == 0 {
        Seq::empty()
    } else {
        let sorted = sort_ranked(s.drop_last());
        sorted.insert(rank_insert_pos(sorted, s.last(), 0), s.last())
    }
}

/// Ranks `candidates` by the scores handed in (`scores[i]` is the score of
/// `candidates[i]`), best first, ties in their original order, each with
/// its recommendation; an empty list is refused.
pub fn rank_scored_candidates(candidates: &[OptimizationCandidate], scores: &[u32]) -> (r: Result<Vec<RankedCandidate>, OptimizationError>)
    requires
        scores@.len() == candidates@.len(),
    ensures
        candidates@.len() == 0 ==> r == Err::<Vec<RankedCandidate>, OptimizationError>(OptimizationError::EmptyStudy),
        candidates@.len() > 0 ==> (r matches Ok(v) && ranked_views(v@) == sort_ranked(scored_views(candidates@, scores@))),
{
    let n = candidates.len();
    if n == 0 {
        return Err(OptimizationError::EmptyStudy);
    }
    let ghost all = scored_views(candidates@, scores@);
    let mut sorted: Vec<RankedCandidate> = Vec::new();
    let mut i: usize = 0;
    while i < n
        invariant
            n == candidates@.len(),
            n == scores@.len(),
            all == scored_views(candidates@, scores@),
            i <= n,
            ranked_views(sorted@) == sort_ranked(all.take(i as int)),
        decreases n - i,
    {
        assert(all.take(i + 1).drop_last() =~= all.take(i as int));
        let score = scores[i];
        let x = RankedCandidate {
            id: candidates[i].id.clone(),
            score,
            recommendation: String::from_str(recommendation(score)),
        };
        assert(ranked_view(x) == all[i as int]);
        assert(all.take(i + 1).last() == all[i as int]);
        let key = bits32_total_key(score);
        let m = sorted.len();
        let mut p: usize = 0;
        while p < m && !(key > bits32_total_key(sorted[p].score))
            invariant
                m == sorted@.len(),
                p <= m,
                key == total_key32(x.score),
                rank_insert_pos(ranked_views(sorted@), ranked_view(x), 0) == rank_insert_pos(
                    ranked_views(sorted@),
                    ranked_view(x),
                    p as int,
                ),
            decreases m - p,
        {
            assert(ranked_views(sorted@)[p as int] == ranked_view(sorted@[p as int]));
            p = p + 1;
        }
        proof {
            if p < m {
                assert(ranked_views(sorted@)[p as int] == ranked_view(sorted@[p as int]));
            }
        }
        let ghost before = sorted@;
        sorted.insert(p, x);
        assert(ranked_views(sorted@) =~= ranked_views(before).insert(p as int, ranked_view(x)));
        i = i + 1;
    }
    assert(all.take(n as int) =~= all);
    Ok(sorted)
}

/// Runs `study` with the scores handed in (`scores[i]` for candidate `i`):
/// the checks of `study_error`, then the ranking; the best candidate is the
/// first ranked.
pub fn run_scored_study(study: &OptimizationStudy, scores: &[u32]) -> (r: Result<OptimizationRunReport, OptimizationError>)
    requires
        scores@.len() == study.candidates@.len(),
    ensures
        match study_error(*study) {
            Some(e) => r == Err::<OptimizationRunReport, OptimizationError>(e),
            None => r matches Ok(report) && {
                let ranked = sort_ranked(scored_views(study.candidates@, scores@));
                &&& report.candidate_count == study.candidates@.len()
                &&& ranked_views(report.ranked_candidates@) == ranked
                &&& report.best_candidate_id matches Some(best) && best@ == ranked[0].id
            },
        },
{
    validate_study(study)?;
    let ranked = match rank_scored_candidates(study.candidates.as_slice(), scores) {
        Ok(v) => v,
        Err(e) => {
            return Err(e);
        },
    };
    proof {
        lemma_sort_ranked_len(scored_views(study.candidates@, scores@));
    }
    assert(ranked_views(ranked@)[0] == ranked_view(ranked@[0]));
    let best = ranked[0].id.clone();
    Ok(OptimizationRunReport { candidate_count: study.candidates.len(), ranked_candidates: ranked, best_candidate_id: Some(best) })
}

proof fn lemma_rank_insert_pos(sorted: Seq<RankedView>, x: RankedView, i: int)
    requires
        0 <= i <= sorted.len(),
    ensures
        i <= rank_insert_pos(sorted, x, i) <= sorted.len(),
        forall|k: int| i <= k < rank_insert_pos(sorted, x, i) ==> !ranks_before(x, #[trigger] sorted[k]),
        rank_insert_pos(sorted, x, i) < sorted.len() ==> ranks_before(x, sorted[rank_insert_pos(sorted, x, i)]),
    decreases sorted.len() - i,
{
    if i < sorted.len() && !ranks_before(x, sorted[i]) {
        lemma_rank_insert_pos(sorted, x, i + 1);
    }
}

proof fn lemma_sort_ranked_len(s: Seq<RankedView>)
    ensures
        sort_ranked(s).len() == s.len(),
    decreases s.len(),
{
    if s.len() > 0 {
        lemma_sort_ranked_len(s.drop_last());
        let rest = sort_ranked(s.drop_last());
        lemma_rank_insert_pos(rest, s.last(), 0);
    }
}

/// No entry ranks before one placed ahead of it.
pub open spec fn ranked_in_order(s: Seq<RankedView>) -> bool {
    forall|i: int, j: int| 0 <= i < j < s.len() ==> !ranks_before(#[trigger] s[j], #[trigger] s[i])
}

/// Ranking orders the candidates by descending score and neither loses nor
/// adds one: the ranking is a sorted permutation of the scored candidates.
pub proof fn law_ranking_sorted(s: Seq<RankedView>)
    ensures
        ranked_in_order(sort_ranked(s)),
        sort_ranked(s).to_multiset() == s.to_multiset(),
    decreases s.len(),
{
    broadcast use vstd::seq_lib::group_to_multiset_ensures;
    if s.len() > 0 {
        let rest = sort_ranked(s.drop_last());
        law_ranking_sorted(s.drop_last());
        let x = s.last();
        let p = rank_insert_pos(rest, x, 0);
        lemma_rank_insert_pos(rest, x, 0);
        let t = rest.insert(p, x);
        assert(t == sort_ranked(s));
        assert forall|i: int, j: int| 0 <= i < j < t.len() implies !ranks_before(#[trigger] t[j], #[trigger] t[i]) by {
            if j < p {
                assert(t[i] == rest[i] && t[j] == rest[j]);
            } else if j == p {
                assert(t[i] == rest[i] && t[j] == x);
            } else if i < p {
                assert(t[i] == rest[i] && t[j] == rest[j - 1]);
            } else if i == p {
                assert(t[i] == x && t[j] == rest[j - 1]);
                if j - 1 > p {
                    assert(!ranks_before(rest[j - 1], rest[p]));
                }
            } else {
                assert(t[i] == rest[i - 1] && t[j] == rest[j - 1]);
            }
        }
        assert(t.remove(p) =~= rest);
        assert(t[p] == x);
        assert(s.drop_last().push(x) =~= s);
    }
}

/// The best candidate of a ranking is one that no candidate outranks.
pub proof fn law_best_candidate_is_not_outranked(s: Seq<RankedView>)
    requires
        s.len() > 0,
    ensures
        sort_ranked(s).len() == s.len(),
        forall|i: int| 0 <= i < s.len() ==> !ranks_before(#[trigger] s[i], sort_ranked(s)[0]),
{
    broadcast use vstd::seq_lib::group_to_multiset_ensures;
    law_ranking_sorted(s);
    lemma_sort_ranked_len(s);
    let t = sort_ranked(s);
    assert forall|i: int| 0 <= i < s.len() implies !ranks_before(#[trigger] s[i], t[0]) by {
        assert(s.to_multiset().count(s[i]) > 0);
        assert(t.to_multiset().count(s[i]) > 0);
        assert(t.contains(s[i]));
        let j = choose|j: int| 0 <= j < t.len() && t[j] == s[i];
        if j > 0 {
            assert(!ranks_before(t[j], t[0]));
        }
    }
}

} // verus!
