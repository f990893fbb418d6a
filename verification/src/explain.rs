//! The structured explanation that the assistant attaches to an answer,
//! and the critic passes that review it. Confidences are `f64` in the
//! explanation: here each is held as the bit patterns of the `f64` terms
//! it is made of, and the caller does the floating-point sums.
use vstd::prelude::*;
use crate::ai::{opt_view, profile_label, AiProfilePreset};
use crate::assistant::joined;
use crate::keyed::{key_order, key_views, lists_in_order};
use crate::workspace::texts;
use crate::json::{json_bool, json_get, json_get_opt, json_items, json_text, json_u64, JsonValue};
use crate::project::{data_field, DocumentModel, EntityRecord, ProjectDocument};
use crate::text::{ascii_lower_seq, contains, contains_folded, contains_spec, decimal, decimal_string, seq_lt, str_eq, str_lt, trim, trim_spec};

verus! {

/// `0.08`, `0.12`, `0.14`, `0.1`, `0.03`, `0.04` and `0.02` as `f64` bits.
pub open spec fn penalty_short_context() -> u64 { 0x3FB47AE147AE147Bu64 }
pub open spec fn penalty_no_run() -> u64 { 0x3FBEB851EB851EB8u64 }
pub open spec fn penalty_no_perception() -> u64 { 0x3FC1EB851EB851ECu64 }
pub open spec fn penalty_no_commissioning() -> u64 { 0x3FB999999999999Au64 }
pub open spec fn penalty_long_command_list() -> u64 { 0x3F9EB851EB851EB8u64 }
pub open spec fn penalty_uneven_coverage() -> u64 { 0x3FA47AE147AE147Bu64 }
pub open spec fn penalty_furnace() -> u64 { 0x3F947AE147AE147Bu64 }

/// One review of an explanation. Its confidence delta is `0.0` minus each
/// of `confidence_penalties` in turn, as `f64`.
#[derive(Debug, Clone, PartialEq, Eq)]
pub struct AiCritiquePass {
    pub stage: String,
    pub summary: String,
    pub confidence_penalties: Vec<u64>,
    pub issues: Vec<String>,
    pub adjustments: Vec<String>,
}

pub struct CritiqueView {
    pub stage: Seq<char>,
    pub summary: Seq<char>,
    pub confidence_penalties: Seq<u64>,
    pub issues: Seq<Seq<char>>,
    pub adjustments: Seq<Seq<char>>,
}

pub open spec fn critique_view(p: AiCritiquePass) -> CritiqueView {
    CritiqueView {
        stage: p.stage@,
        summary: p.summary@,
        confidence_penalties: p.confidence_penalties@,
        issues: texts(p.issues@),
        adjustments: texts(p.adjustments@),
    }
}

/// `x` if `c`, else nothing.
pub open spec fn when<T>(c: bool, x: T) -> Seq<T> {
    if c {
        seq![x]
    } else {
        Seq::empty()
    }
}

/// The message, folded to ASCII lower case, holds one of the keywords.
pub open spec fn mentions(message: Seq<char>, keywords: Seq<Seq<char>>) -> bool {
    exists|i: int| 0 <= i < keywords.len() && contains_spec(ascii_lower_seq(message), #[trigger] keywords[i])
}

/// What the critic reviews: how many context references and proposed
/// commands the explanation has, whether a limitation says that no run was
/// found, and which artifacts the project holds.
pub struct CritiqueInput {
    pub context_ref_count: usize,
    pub proposed_command_count: usize,
    pub no_run_limitation: bool,
    pub has_perception_run: bool,
    pub has_commissioning_session: bool,
    pub has_safety_report: bool,
    pub has_simulation_run: bool,
}

pub open spec fn perception_keywords() -> Seq<Seq<char>> {
    seq!["perception"@, "lidar"@, "scan"@]
}

pub open spec fn commissioning_keywords() -> Seq<Seq<char>> {
    seq!["commissioning"@, "terrain"@, "as-built"@]
}

/// The findings of the first pass, in the order the critic checks them:
/// a short context, no local run, no perception run for a perception
/// question, no commissioning session for a commissioning question, and a
/// long list of commands (which only adds an adjustment).
pub open spec fn critic_conditions(input: CritiqueInput, message: Seq<char>) -> (bool, bool, bool, bool, bool) {
    (
        input.context_ref_count < 2,
        input.no_run_limitation,
        mentions(message, perception_keywords()) && !input.has_perception_run,
        mentions(message, commissioning_keywords()) && !input.has_commissioning_session,
        input.proposed_command_count > 2,
    )
}

pub open spec fn critic_pass(input: CritiqueInput, message: Seq<char>) -> CritiqueView {
    let (c1, c2, c3, c4, c5) = critic_conditions(input, message);
    let issues = when(c1, "contexte local trop court"@) + when(c2, "aucun run de simulation local"@) + when(
        c3,
        "aucun run perception local"@,
    ) + when(c4, "aucune session commissioning locale"@);
    CritiqueView {
        stage: "critic"@,
        summary: if issues.len() == 0 {
            "Le critic interne ne detecte pas de contradiction majeure dans les artefacts locaux."@
        } else {
            decimal(issues.len()) + " point(s) de vigilance detecte(s)."@
        },
        confidence_penalties: when(c1, penalty_short_context()) + when(c2, penalty_no_run()) + when(
            c3,
            penalty_no_perception(),
        ) + when(c4, penalty_no_commissioning()) + when(c5, penalty_long_command_list()),
        issues,
        adjustments: when(c1, "demand additional local artifacts before applying changes"@) + when(
            c2,
            "prefer simulation.run.start before deeper explanation"@,
        ) + when(c3, "collect a perception run before trusting scene comparison"@) + when(
            c4,
            "open a commissioning session and attach captures"@,
        ) + when(c5, "keep the suggested command list short and explicit"@),
    }
}

/// The consistency pass of the `max` and `furnace` profiles: a simulation
/// run without a safety report is uneven coverage.
pub open spec fn consistency_pass(input: CritiqueInput) -> CritiqueView {
    let uneven = !input.has_safety_report && input.has_simulation_run;
    CritiqueView {
        stage: "critic_consistency"@,
        summary: if uneven {
            "Le second regard releve une couverture inegale entre simulation et safety."@
        } else {
            "Le second regard ne releve pas d incoherence majeure entre artefacts."@
        },
        confidence_penalties: when(uneven, penalty_uneven_coverage()),
        issues: when(uneven, "simulation available without a recent safety report"@),
        adjustments: seq!["cross-check safety and simulation artifacts"@],
    }
}

/// The final pass of the `furnace` profile.
pub open spec fn furnace_pass() -> CritiqueView {
    CritiqueView {
        stage: "critic_final"@,
        summary: "La passe furnace privilegie la prudence: aucune mutation n est recommandee sans artefact rejouable."@,
        confidence_penalties: seq![penalty_furnace()],
        issues: Seq::empty(),
        adjustments: seq!["require replayable artifacts before apply"@],
    }
}

/// The passes for a profile: the critic always, the consistency pass for
/// `max` and `furnace`, the final pass for `furnace`.
pub open spec fn critique_spec(input: CritiqueInput, message: Seq<char>, profile: AiProfilePreset) -> Seq<CritiqueView> {
    seq![critic_pass(input, message)] + when(profile != AiProfilePreset::Balanced, consistency_pass(input)) + when(
        profile == AiProfilePreset::Furnace,
        furnace_pass(),
    )
}

fn mentions_any(message: &str, a: &str, b: &str, c: &str) -> (r: bool)
    ensures
        r == mentions(message@, seq![a@, b@, c@]),
{
    let r = contains_folded(message, a) || contains_folded(message, b) || contains_folded(message, c);
    proof {
        let ks = seq![a@, b@, c@];
        if r {
            if contains_spec(ascii_lower_seq(message@), a@) {
                assert(ks[0] == a@);
            } else if contains_spec(ascii_lower_seq(message@), b@) {
                assert(ks[1] == b@);
            } else {
                assert(ks[2] == c@);
            }
        } else {
            assert forall|i: int| 0 <= i < ks.len() implies !contains_spec(ascii_lower_seq(message@), #[trigger] ks[i]) by {
                if i == 0 {
                } else if i == 1 {
                } else {
                }
            }
        }
    }
    r
}

fn text(s: &str) -> (r: String)
    ensures
        r@ == s@,
{
    String::from_str(s)
}

fn critic_pass_exec(input: &CritiqueInput, message: &str) -> (p: AiCritiquePass)
    ensures
        critique_view(p) == critic_pass(*input, message@),
{
    let c1 = input.context_ref_count < 2;
    let c2 = input.no_run_limitation;
    let c3 = mentions_any(message, "perception", "lidar", "scan") && !input.has_perception_run;
    let c4 = mentions_any(message, "commissioning", "terrain", "as-built") && !input.has_commissioning_session;
    let c5 = input.proposed_command_count > 2;
    proof {
        assert(seq!["perception"@, "lidar"@, "scan"@] =~= perception_keywords());
        assert(seq!["commissioning"@, "terrain"@, "as-built"@] =~= commissioning_keywords());
    }
    let mut issues: Vec<String> = Vec::new();
    let mut adjustments: Vec<String> = Vec::new();
    let mut penalties: Vec<u64> = Vec::new();
    if c1 {
        issues.push(text("contexte local trop court"));
        adjustments.push(text("demand additional local artifacts before applying changes"));
        penalties.push(0x3FB47AE147AE147Bu64);
    }
    if c2 {
        issues.push(text("aucun run de simulation local"));
        adjustments.push(text("prefer simulation.run.start before deeper explanation"));
        penalties.push(0x3FBEB851EB851EB8u64);
    }
    if c3 {
        issues.push(text("aucun run perception local"));
        adjustments.push(text("collect a perception run before trusting scene comparison"));
        penalties.push(0x3FC1EB851EB851ECu64);
    }
    if c4 {
        issues.push(text("aucune session commissioning locale"));
        adjustments.push(text("open a commissioning session and attach captures"));
        penalties.push(0x3FB999999999999Au64);
    }
    if c5 {
        adjustments.push(text("keep the suggested command list short and explicit"));
        penalties.push(0x3F9EB851EB851EB8u64);
    }
    let ghost want = critic_pass(*input, message@);
    assert(texts(issues@) =~= want.issues);
    assert(texts(adjustments@) =~= want.adjustments);
    assert(penalties@ =~= want.confidence_penalties);
    let summary = if issues.len() == 0 {
        text("Le critic interne ne detecte pas de contradiction majeure dans les artefacts locaux.")
    } else {
        let mut s = decimal_string(issues.len() as u64);
        s.append(" point(s) de vigilance detecte(s).");
        s
    };
    AiCritiquePass { stage: text("critic"), summary, confidence_penalties: penalties, issues, adjustments }
}

fn consistency_pass_exec(input: &CritiqueInput) -> (p: AiCritiquePass)
    ensures
        critique_view(p) == consistency_pass(*input),
{
    let uneven = !input.has_safety_report && input.has_simulation_run;
    let mut issues: Vec<String> = Vec::new();
    let mut penalties: Vec<u64> = Vec::new();
    if uneven {
        issues.push(text("simulation available without a recent safety report"));
        penalties.push(0x3FA47AE147AE147Bu64);
    }
    let mut adjustments: Vec<String> = Vec::new();
    adjustments.push(text("cross-check safety and simulation artifacts"));
    let summary = if uneven {
        text("Le second regard releve une couverture inegale entre simulation et safety.")
    } else {
        text("Le second regard ne releve pas d incoherence majeure entre artefacts.")
    };
    let p = AiCritiquePass {
        stage: text("critic_consistency"),
        summary,
        confidence_penalties: penalties,
        issues,
        adjustments,
    };
    assert(texts(p.issues@) =~= consistency_pass(*input).issues);
    assert(texts(p.adjustments@) =~= consistency_pass(*input).adjustments);
    assert(p.confidence_penalties@ =~= consistency_pass(*input).confidence_penalties);
    p
}

fn furnace_pass_exec() -> (p: AiCritiquePass)
    ensures
        critique_view(p) == furnace_pass(),
{
    let mut adjustments: Vec<String> = Vec::new();
    adjustments.push(text("require replayable artifacts before apply"));
    let mut penalties: Vec<u64> = Vec::new();
    penalties.push(0x3F947AE147AE147Bu64);
    let p = AiCritiquePass {
        stage: text("critic_final"),
        summary: text("La passe furnace privilegie la prudence: aucune mutation n est recommandee sans artefact rejouable."),
        confidence_penalties: penalties,
        issues: Vec::new(),
        adjustments,
    };
    assert(texts(p.issues@) =~= furnace_pass().issues);
    assert(texts(p.adjustments@) =~= furnace_pass().adjustments);
    assert(p.confidence_penalties@ =~= furnace_pass().confidence_penalties);
    p
}

/// The critic passes of an explanation.
pub fn critique_passes(input: &CritiqueInput, message: &str, profile: AiProfilePreset) -> (r: Vec<AiCritiquePass>)
    ensures
        r@.map_values(|p: AiCritiquePass| critique_view(p)) == critique_spec(*input, message@, profile),
{
    let mut passes: Vec<AiCritiquePass> = Vec::new();
    passes.push(critic_pass_exec(input, message));
    let ghost mut expect: Seq<CritiqueView> = seq![critic_pass(*input, message@)];
    assert(passes@.map_values(|p: AiCritiquePass| critique_view(p)) =~= expect);
    match profile {
        AiProfilePreset::Balanced => {},
        _ => {
            passes.push(consistency_pass_exec(input));
            proof {
                expect = expect.push(consistency_pass(*input));
            }
            assert(passes@.map_values(|p: AiCritiquePass| critique_view(p)) =~= expect);
        },
    }
    match profile {
        AiProfilePreset::Furnace => {
            passes.push(furnace_pass_exec());
            proof {
                expect = expect.push(furnace_pass());
            }
            assert(passes@.map_values(|p: AiCritiquePass| critique_view(p)) =~= expect);
        },
        _ => {},
    }
    assert(expect =~= critique_spec(*input, message@, profile));
    passes
}

/// How risky acting on an explanation is.
#[derive(Debug, Clone, Copy, PartialEq, Eq, Structural)]
pub enum AiRiskLevel {
    Low,
    Medium,
    High,
}

/// A place in the project an explanation relies on.
#[derive(Debug, Clone, PartialEq, Eq)]
pub struct AiContextReference {
    pub entity_id: Option<String>,
    pub role: String,
    pub path: String,
}

/// The change a proposed command carries: none, or a new `currentValue`
/// for a signal (a scalar as `f64` bits).
#[derive(Debug, Clone, Copy, PartialEq, Eq, Structural)]
pub enum ProposedPayload {
    Empty,
    CurrentValueBool(bool),
    CurrentValueScalar(u64),
}

/// A command the assistant suggests.
#[derive(Debug, Clone, PartialEq, Eq)]
pub struct AiProposedCommand {
    pub kind: String,
    pub target_id: Option<String>,
    pub payload: ProposedPayload,
}

pub open spec fn ctx_view(c: AiContextReference) -> (Option<Seq<char>>, Seq<char>, Seq<char>) {
    (opt_view(c.entity_id), c.role@, c.path@)
}

pub open spec fn cmd_view(c: AiProposedCommand) -> (Seq<char>, Option<Seq<char>>, ProposedPayload) {
    (c.kind@, opt_view(c.target_id), c.payload)
}

pub open spec fn ctx_views(s: Seq<AiContextReference>) -> Seq<(Option<Seq<char>>, Seq<char>, Seq<char>)> {
    s.map_values(|c: AiContextReference| ctx_view(c))
}

pub open spec fn cmd_views(s: Seq<AiProposedCommand>) -> Seq<(Seq<char>, Option<Seq<char>>, ProposedPayload)> {
    s.map_values(|c: AiProposedCommand| cmd_view(c))
}

/// What an explanation reads of the latest safety report.
pub struct SafetyReportFacts {
    pub id: String,
    pub name: String,
    pub inhibited: Option<bool>,
    pub status: Option<String>,
    pub blocking_interlock_count: Option<u64>,
    pub active_zone_count: Option<u64>,
    /// The cause zone array, each entry kept where it is a string.
    pub cause_zone_ids: Option<Vec<Option<String>>>,
    pub robot_cell_id: Option<String>,
}

/// What an explanation reads of the first contact of a run.
pub struct ContactFacts {
    pub left_entity_id: Option<String>,
    pub right_entity_id: Option<String>,
    pub timestamp_ms: Option<u64>,
}

/// What an explanation reads of the latest simulation run.
pub struct RunFacts {
    pub id: String,
    pub name: String,
    pub collision_count: Option<u64>,
    pub blocked_sequence_detected: Option<bool>,
    pub blocked_state_id: Option<String>,
    pub cycle_time_ms: Option<u64>,
    /// The first entry of a non-empty contact array.
    pub first_contact: Option<ContactFacts>,
    pub robot_cell_id: Option<String>,
}

/// The part of an explanation one branch decides.
pub struct BranchView {
    pub summary: Seq<char>,
    pub context_refs: Seq<(Option<Seq<char>>, Seq<char>, Seq<char>)>,
    pub explanation: Seq<Seq<char>>,
    pub base_confidence: u64,
    pub risk_level: AiRiskLevel,
    pub proposed: Seq<(Seq<char>, Option<Seq<char>>, ProposedPayload)>,
}

pub open spec fn some_texts(s: Seq<Option<String>>) -> Seq<Seq<char>>
    decreases s.len(),
{
    if s.len() == 0 {
        Seq::empty()
    } else {
        some_texts(s.drop_last()) + match s.last() {
            Some(t) => seq![t@],
            None => Seq::empty(),
        }
    }
}

pub open spec fn or_text(o: Option<String>, d: Seq<char>) -> Seq<char> {
    match o {
        Some(t) => t@,
        None => d,
    }
}

pub open spec fn or_zero(o: Option<u64>) -> nat {
    match o {
        Some(n) => n as nat,
        None => 0,
    }
}

pub open spec fn or_false(o: Option<bool>) -> bool {
    match o {
        Some(b) => b,
        None => false,
    }
}

/// The safety branch: the report's status and blocking interlocks.
pub open spec fn safety_branch(r: SafetyReportFacts, safety_clear_signal: Option<Seq<char>>) -> BranchView {
    let blocked = or_false(r.inhibited);
    let bi = or_zero(r.blocking_interlock_count);
    let az = or_zero(r.active_zone_count);
    let causes = match r.cause_zone_ids {
        Some(v) => some_texts(v@),
        None => Seq::empty(),
    };
    BranchView {
        summary: if blocked {
            "Le dernier rapport safety bloque l action avec "@ + decimal(bi) + " interlock(s) sur "@ + r.name@ + "."@
        } else {
            "Le dernier rapport safety reste "@ + or_text(r.status, "unknown"@) + " avec "@ + decimal(az)
                + " zone(s) active(s) sur "@ + r.name@ + "."@
        },
        context_refs: seq![
            (Some(r.id@), "source"@, "summary.status"@),
            (Some(r.id@), "source"@, "summary.blockingInterlockCount"@),
        ],
        explanation: seq![
            "Le rapport "@ + r.id@ + " expose "@ + decimal(az) + " zone(s) active(s) et "@ + decimal(bi)
                + " interlock(s) bloquant(s)."@,
        ] + when(causes.len() > 0, "Les causes explicites du blocage sont: "@ + joined(causes, ", "@) + "."@),
        base_confidence: if blocked { 0x3FECCCCCCCCCCCCDu64 } else { 0x3FE8F5C28F5C28F6u64 },
        risk_level: if blocked { AiRiskLevel::High } else { AiRiskLevel::Medium },
        proposed: (match safety_clear_signal {
            Some(sid) => when(blocked, ("entity.properties.update"@, Some(sid), ProposedPayload::CurrentValueBool(true))),
            None => Seq::empty(),
        }) + seq![("analyze.safety"@, opt_view(r.robot_cell_id), ProposedPayload::Empty)],
    }
}

/// The run branch: collisions, a blocked sequence and the cycle time.
pub open spec fn run_branch(r: RunFacts, progress_gate_signal: Option<Seq<char>>, cycle_start_signal: Option<Seq<char>>) -> BranchView {
    let cc = or_zero(r.collision_count);
    let blocked = or_false(r.blocked_sequence_detected);
    let ct = or_zero(r.cycle_time_ms);
    BranchView {
        summary: if cc > 0 {
            "Le dernier run detecte "@ + decimal(cc) + " collision(s) sur "@ + r.name@ + "."@
        } else if blocked {
            "Le dernier run se termine sans collision mais avec une sequence bloquee sur "@ + r.name@ + "."@
        } else {
            "Le dernier run "@ + r.name@ + " termine sans collision en "@ + decimal(ct) + " ms."@
        },
        context_refs: seq![
            (Some(r.id@), "source"@, "summary.collisionCount"@),
            (Some(r.id@), "source"@, "summary.blockedSequenceDetected"@),
        ] + when(r.first_contact is Some, (Some(r.id@), "source"@, "contacts[0]"@)),
        explanation: seq!["Le run "@ + r.id@ + " garde un temps de cycle de "@ + decimal(ct) + " ms."@] + (match r.first_contact {
            Some(c) => seq![
                "Le premier contact critique apparait entre "@ + or_text(c.left_entity_id, "left"@) + " et "@
                    + or_text(c.right_entity_id, "right"@) + " a t="@ + decimal(or_zero(c.timestamp_ms)) + " ms."@,
            ],
            None => Seq::empty(),
        }) + (match r.blocked_state_id {
            Some(st) => seq!["La machine a etats reste bloquee dans l etat `"@ + st@ + "`."@],
            None => Seq::empty(),
        }),
        base_confidence: if cc > 0 || blocked { 0x3FEB851EB851EB85u64 } else { 0x3FE7AE147AE147AEu64 },
        risk_level: if cc > 0 {
            AiRiskLevel::High
        } else if blocked {
            AiRiskLevel::Medium
        } else {
            AiRiskLevel::Low
        },
        proposed: (match progress_gate_signal {
            Some(sid) => when(
                blocked,
                ("entity.properties.update"@, Some(sid), ProposedPayload::CurrentValueScalar(0x3FF0000000000000u64)),
            ),
            None => Seq::empty(),
        }) + (match cycle_start_signal {
            Some(sid) => when(cc > 0, ("entity.properties.update"@, Some(sid), ProposedPayload::CurrentValueBool(false))),
            None => Seq::empty(),
        }) + seq![("simulation.run.start"@, opt_view(r.robot_cell_id), ProposedPayload::Empty)],
    }
}

fn join_with(items: &Vec<String>, sep: &str) -> (s: String)
    ensures
        s@ == joined(key_views(items@), sep@),
{
    let ghost all = key_views(items@);
    let mut s = String::new();
    let n = items.len();
    let mut i: usize = 0;
    while i < n
        invariant
            n == items@.len(),
            all == key_views(items@),
            i <= n,
            s@ == joined(all.take(i as int), sep@),
        decreases n - i,
    {
        let ghost prev = all.take(i as int);
        assert(all.take(i + 1).drop_last() =~= prev);
        if i > 0 {
            s.append(sep);
        } else {
            assert(prev =~= Seq::<Seq<char>>::empty());
        }
        s.append(items[i].as_str());
        i = i + 1;
    }
    assert(all.take(n as int) =~= all);
    s
}

pub(crate) fn cause_texts(v: &Vec<Option<String>>) -> (r: Vec<String>)
    ensures
        key_views(r@) == some_texts(v@),
{
    let mut r: Vec<String> = Vec::new();
    let n = v.len();
    let mut i: usize = 0;
    while i < n
        invariant
            n == v@.len(),
            i <= n,
            key_views(r@) == some_texts(v@.take(i as int)),
        decreases n - i,
    {
        assert(v@.take(i + 1).drop_last() =~= v@.take(i as int));
        let ghost before = r@;
        match &v[i] {
            Some(t) => {
                r.push(t.clone());
                assert(key_views(r@) =~= key_views(before).push(t@));
            },
            None => {},
        }
        assert(key_views(r@) =~= some_texts(v@.take(i + 1)));
        i = i + 1;
    }
    assert(v@.take(n as int) =~= v@);
    r
}

fn ctx(entity_id: &String, role: &str, path: &str) -> (c: AiContextReference)
    ensures
        ctx_view(c) == (Some(entity_id@), role@, path@),
{
    AiContextReference { entity_id: Some(entity_id.clone()), role: text(role), path: text(path) }
}

fn opt_clone(o: &Option<String>) -> (r: Option<String>)
    ensures
        opt_view(r) == opt_view(*o),
{
    match o {
        Some(t) => Some(t.clone()),
        None => None,
    }
}

fn cmd(kind: &str, target_id: Option<String>, payload: ProposedPayload) -> (c: AiProposedCommand)
    ensures
        cmd_view(c) == (kind@, opt_view(target_id), payload),
{
    AiProposedCommand { kind: text(kind), target_id, payload }
}

/// The branch output as exec values.
pub struct Branch {
    pub summary: String,
    pub context_refs: Vec<AiContextReference>,
    pub explanation: Vec<String>,
    pub base_confidence: u64,
    pub risk_level: AiRiskLevel,
    pub proposed: Vec<AiProposedCommand>,
}

pub open spec fn branch_view(b: Branch) -> BranchView {
    BranchView {
        summary: b.summary@,
        context_refs: ctx_views(b.context_refs@),
        explanation: key_views(b.explanation@),
        base_confidence: b.base_confidence,
        risk_level: b.risk_level,
        proposed: cmd_views(b.proposed@),
    }
}

fn decimal_u64(n: Option<u64>) -> (s: String)
    ensures
        s@ == decimal(or_zero(n)),
{
    match n {
        Some(v) => decimal_string(v),
        None => decimal_string(0),
    }
}

fn explain_safety(r: &SafetyReportFacts, safety_clear_signal: &Option<String>) -> (b: Branch)
    ensures
        branch_view(b) == safety_branch(*r, opt_view(*safety_clear_signal)),
{
    let ghost want = safety_branch(*r, opt_view(*safety_clear_signal));
    let blocked = match r.inhibited {
        Some(b) => b,
        None => false,
    };
    let summary = if blocked {
        let mut s = text("Le dernier rapport safety bloque l action avec ");
        s.append(decimal_u64(r.blocking_interlock_count).as_str());
        s.append(" interlock(s) sur ");
        s.append(r.name.as_str());
        s.append(".");
        s
    } else {
        let mut s = text("Le dernier rapport safety reste ");
        match &r.status {
            Some(st) => s.append(st.as_str()),
            None => s.append("unknown"),
        }
        s.append(" avec ");
        s.append(decimal_u64(r.active_zone_count).as_str());
        s.append(" zone(s) active(s) sur ");
        s.append(r.name.as_str());
        s.append(".");
        s
    };
    let mut context_refs: Vec<AiContextReference> = Vec::new();
    context_refs.push(ctx(&r.id, "source", "summary.status"));
    context_refs.push(ctx(&r.id, "source", "summary.blockingInterlockCount"));
    assert(ctx_views(context_refs@) =~= want.context_refs);
    let mut explanation: Vec<String> = Vec::new();
    let mut line = text("Le rapport ");
    line.append(r.id.as_str());
    line.append(" expose ");
    line.append(decimal_u64(r.active_zone_count).as_str());
    line.append(" zone(s) active(s) et ");
    line.append(decimal_u64(r.blocking_interlock_count).as_str());
    line.append(" interlock(s) bloquant(s).");
    explanation.push(line);
    match &r.cause_zone_ids {
        Some(v) => {
            let causes = cause_texts(v);
            if causes.len() > 0 {
                let mut l = text("Les causes explicites du blocage sont: ");
                l.append(join_with(&causes, ", ").as_str());
                l.append(".");
                explanation.push(l);
            }
        },
        None => {},
    }
    assert(key_views(explanation@) =~= want.explanation);
    let mut proposed: Vec<AiProposedCommand> = Vec::new();
    if blocked {
        match safety_clear_signal {
            Some(sid) => proposed.push(cmd("entity.properties.update", Some(sid.clone()), ProposedPayload::CurrentValueBool(true))),
            None => {},
        }
    }
    proposed.push(cmd("analyze.safety", opt_clone(&r.robot_cell_id), ProposedPayload::Empty));
    assert(cmd_views(proposed@) =~= want.proposed);
    Branch {
        summary,
        context_refs,
        explanation,
        base_confidence: if blocked { 0x3FECCCCCCCCCCCCDu64 } else { 0x3FE8F5C28F5C28F6u64 },
        risk_level: if blocked { AiRiskLevel::High } else { AiRiskLevel::Medium },
        proposed,
    }
}

fn explain_run(r: &RunFacts, progress_gate_signal: &Option<String>, cycle_start_signal: &Option<String>) -> (b: Branch)
    ensures
        branch_view(b) == run_branch(*r, opt_view(*progress_gate_signal), opt_view(*cycle_start_signal)),
{
    let ghost want = run_branch(*r, opt_view(*progress_gate_signal), opt_view(*cycle_start_signal));
    let cc: u64 = match r.collision_count {
        Some(n) => n,
        None => 0,
    };
    let blocked = match r.blocked_sequence_detected {
        Some(b) => b,
        None => false,
    };
    let summary = if cc > 0 {
        let mut s = text("Le dernier run detecte ");
        s.append(decimal_string(cc).as_str());
        s.append(" collision(s) sur ");
        s.append(r.name.as_str());
        s.append(".");
        s
    } else if blocked {
        let mut s = text("Le dernier run se termine sans collision mais avec une sequence bloquee sur ");
        s.append(r.name.as_str());
        s.append(".");
        s
    } else {
        let mut s = text("Le dernier run ");
        s.append(r.name.as_str());
        s.append(" termine sans collision en ");
        s.append(decimal_u64(r.cycle_time_ms).as_str());
        s.append(" ms.");
        s
    };
    let mut context_refs: Vec<AiContextReference> = Vec::new();
    context_refs.push(ctx(&r.id, "source", "summary.collisionCount"));
    context_refs.push(ctx(&r.id, "source", "summary.blockedSequenceDetected"));
    if r.first_contact.is_some() {
        context_refs.push(ctx(&r.id, "source", "contacts[0]"));
    }
    assert(ctx_views(context_refs@) =~= want.context_refs);
    let mut explanation: Vec<String> = Vec::new();
    let mut line = text("Le run ");
    line.append(r.id.as_str());
    line.append(" garde un temps de cycle de ");
    line.append(decimal_u64(r.cycle_time_ms).as_str());
    line.append(" ms.");
    explanation.push(line);
    match &r.first_contact {
        Some(c) => {
            let mut l = text("Le premier contact critique apparait entre ");
            match &c.left_entity_id {
                Some(t) => l.append(t.as_str()),
                None => l.append("left"),
            }
            l.append(" et ");
            match &c.right_entity_id {
                Some(t) => l.append(t.as_str()),
                None => l.append("right"),
            }
            l.append(" a t=");
            l.append(decimal_u64(c.timestamp_ms).as_str());
            l.append(" ms.");
            explanation.push(l);
        },
        None => {},
    }
    match &r.blocked_state_id {
        Some(st) => {
            let mut l = text("La machine a etats reste bloquee dans l etat `");
            l.append(st.as_str());
            l.append("`.");
            explanation.push(l);
        },
        None => {},
    }
    assert(key_views(explanation@) =~= want.explanation);
    let mut proposed: Vec<AiProposedCommand> = Vec::new();
    if blocked {
        match progress_gate_signal {
            Some(sid) => proposed.push(
                cmd("entity.properties.update", Some(sid.clone()), ProposedPayload::CurrentValueScalar(0x3FF0000000000000u64)),
            ),
            None => {},
        }
    }
    if cc > 0 {
        match cycle_start_signal {
            Some(sid) => proposed.push(cmd("entity.properties.update", Some(sid.clone()), ProposedPayload::CurrentValueBool(false))),
            None => {},
        }
    }
    proposed.push(cmd("simulation.run.start", opt_clone(&r.robot_cell_id), ProposedPayload::Empty));
    assert(cmd_views(proposed@) =~= want.proposed);
    Branch {
        summary,
        context_refs,
        explanation,
        base_confidence: if cc > 0 || blocked { 0x3FEB851EB851EB85u64 } else { 0x3FE7AE147AE147AEu64 },
        risk_level: if cc > 0 {
            AiRiskLevel::High
        } else if blocked {
            AiRiskLevel::Medium
        } else {
            AiRiskLevel::Low
        },
        proposed,
    }
}

/// What an explanation reads of the project: its name and size, the
/// latest safety report and run, the latest robot cell, the signal
/// entities it may propose to set, and whether perception runs and
/// commissioning sessions exist.
pub struct ExplainFacts {
    pub project_name: String,
    pub node_count: usize,
    pub safety_report: Option<SafetyReportFacts>,
    pub run: Option<RunFacts>,
    pub robot_cell_id: Option<String>,
    pub safety_clear_signal: Option<String>,
    pub progress_gate_signal: Option<String>,
    pub cycle_start_signal: Option<String>,
    pub has_perception_run: bool,
    pub has_commissioning_session: bool,
}

/// The explanation attached to an answer. Its confidence is the `f64`
/// whose bits are `base_confidence`, with each pass's delta added, kept
/// within `0.05..=0.98`.
#[derive(Debug, Clone, PartialEq, Eq)]
pub struct AiStructuredExplain {
    pub summary: String,
    pub runtime_profile: String,
    pub context_refs: Vec<AiContextReference>,
    pub base_confidence: u64,
    pub risk_level: AiRiskLevel,
    pub limitations: Vec<String>,
    pub critique_passes: Vec<AiCritiquePass>,
    pub proposed_commands: Vec<AiProposedCommand>,
    pub explanation: Vec<String>,
}

pub struct ExplainView {
    pub summary: Seq<char>,
    pub runtime_profile: Seq<char>,
    pub context_refs: Seq<(Option<Seq<char>>, Seq<char>, Seq<char>)>,
    pub base_confidence: u64,
    pub risk_level: AiRiskLevel,
    pub limitations: Seq<Seq<char>>,
    pub critique_passes: Seq<CritiqueView>,
    pub proposed_commands: Seq<(Seq<char>, Option<Seq<char>>, ProposedPayload)>,
    pub explanation: Seq<Seq<char>>,
}

pub open spec fn explain_view(e: AiStructuredExplain) -> ExplainView {
    ExplainView {
        summary: e.summary@,
        runtime_profile: e.runtime_profile@,
        context_refs: ctx_views(e.context_refs@),
        base_confidence: e.base_confidence,
        risk_level: e.risk_level,
        limitations: key_views(e.limitations@),
        critique_passes: e.critique_passes@.map_values(|p: AiCritiquePass| critique_view(p)),
        proposed_commands: cmd_views(e.proposed_commands@),
        explanation: key_views(e.explanation@),
    }
}

pub open spec fn safety_keywords() -> Seq<Seq<char>> {
    seq!["safety"@, "bloc"@, "interlock"@]
}

pub open spec fn collision_keywords() -> Seq<Seq<char>> {
    seq!["collision"@, "contact"@]
}

/// The branch an explanation takes: the safety report when there is one
/// and the question is about safety or not about collisions, else the
/// latest run, else none.
pub open spec fn chosen_branch(f: ExplainFacts, message: Seq<char>) -> Option<BranchView> {
    let safety_first = mentions(message, safety_keywords()) || !mentions(message, collision_keywords());
    if f.safety_report is Some && safety_first {
        Some(safety_branch(f.safety_report->0, opt_view(f.safety_clear_signal)))
    } else if f.run is Some {
        Some(run_branch(f.run->0, opt_view(f.progress_gate_signal), opt_view(f.cycle_start_signal)))
    } else {
        None
    }
}

pub open spec fn project_summary(f: ExplainFacts) -> Seq<char> {
    "Le projet "@ + f.project_name@ + " contient "@ + decimal(f.node_count as nat) + " entites exploitables."@
}

pub open spec fn limitations_spec(f: ExplainFacts, message: Seq<char>) -> Seq<Seq<char>> {
    let found = when(chosen_branch(f, message) is None, "Le modele n a trouve ni run de simulation ni rapport safety persiste."@)
        + when(f.run is None, "Aucun run de simulation disponible dans le graphe courant."@) + when(
        f.safety_report is None,
        "Aucun rapport safety disponible dans le graphe courant."@,
    );
    if found.len() == 0 {
        seq!["Le raisonnement est borne aux artefacts locaux disponibles."@]
    } else {
        found
    }
}

pub open spec fn context_spec(f: ExplainFacts, message: Seq<char>) -> Seq<(Option<Seq<char>>, Seq<char>, Seq<char>)> {
    seq![(None, "source"@, "metadata.projectId"@)] + (match chosen_branch(f, message) {
        Some(b) => b.context_refs,
        None => Seq::empty(),
    }) + (match f.robot_cell_id {
        Some(c) => seq![(Some(c@), "context"@, "sequenceValidation.estimatedCycleTimeMs"@)],
        None => Seq::empty(),
    })
}

pub open spec fn proposed_spec(f: ExplainFacts, message: Seq<char>) -> Seq<(Seq<char>, Option<Seq<char>>, ProposedPayload)> {
    match chosen_branch(f, message) {
        Some(b) => b.proposed,
        None => match f.robot_cell_id {
            Some(c) => seq![("simulation.run.start"@, Some(c@), ProposedPayload::Empty)],
            None => Seq::empty(),
        },
    }
}

pub open spec fn critique_input_spec(f: ExplainFacts, message: Seq<char>) -> CritiqueInput {
    CritiqueInput {
        context_ref_count: context_spec(f, message).len() as usize,
        proposed_command_count: proposed_spec(f, message).len() as usize,
        no_run_limitation: exists|i: int|
            0 <= i < limitations_spec(f, message).len() && contains_spec(
                #[trigger] limitations_spec(f, message)[i],
                "Aucun run"@,
            ),
        has_perception_run: f.has_perception_run,
        has_commissioning_session: f.has_commissioning_session,
        has_safety_report: f.safety_report is Some,
        has_simulation_run: f.run is Some,
    }
}

pub open spec fn critique_line(p: CritiqueView) -> Seq<char> {
    "Critique "@ + p.stage + ": "@ + p.summary
}

/// At most the first `n` items of `s`.
pub open spec fn at_most<T>(s: Seq<T>, n: nat) -> Seq<T> {
    if s.len() <= n {
        s
    } else {
        s.take(n as int)
    }
}

/// The explanation of `message` over the facts read from the project.
pub open spec fn explain_spec(f: ExplainFacts, message: Seq<char>, profile: AiProfilePreset) -> ExplainView {
    let branch = chosen_branch(f, message);
    let passes = critique_spec(critique_input_spec(f, message), message, profile);
    let lines = match branch {
        Some(b) => b.explanation,
        None => Seq::empty(),
    };
    let lines = if lines.len() == 0 {
        seq!["La demande \""@ + trim_spec(message) + "\" a ete analysee a partir du graphe projet courant."@]
    } else {
        lines
    };
    ExplainView {
        summary: match branch {
            Some(b) => b.summary,
            None => project_summary(f),
        },
        runtime_profile: profile_label(profile),
        context_refs: at_most(context_spec(f, message), 8),
        base_confidence: match branch {
            Some(b) => b.base_confidence,
            None => 0x3FE28F5C28F5C28Fu64,
        },
        risk_level: match branch {
            Some(b) => b.risk_level,
            None => AiRiskLevel::Low,
        },
        limitations: limitations_spec(f, message),
        critique_passes: passes,
        proposed_commands: at_most(proposed_spec(f, message), 4),
        explanation: lines + passes.map_values(|p: CritiqueView| critique_line(p)),
    }
}

fn mentions_two(message: &str, a: &str, b: &str) -> (r: bool)
    ensures
        r == mentions(message@, seq![a@, b@]),
{
    let r = contains_folded(message, a) || contains_folded(message, b);
    proof {
        let ks = seq![a@, b@];
        if r {
            if contains_spec(ascii_lower_seq(message@), a@) {
                assert(ks[0] == a@);
            } else {
                assert(ks[1] == b@);
            }
        } else {
            assert forall|i: int| 0 <= i < ks.len() implies !contains_spec(ascii_lower_seq(message@), #[trigger] ks[i]) by {
                if i == 0 {
                } else {
                }
            }
        }
    }
    r
}

fn any_contains(v: &Vec<String>, pat: &str) -> (r: bool)
    ensures
        r == exists|i: int| 0 <= i < v@.len() && contains_spec(#[trigger] key_views(v@)[i], pat@),
{
    let n = v.len();
    let mut i: usize = 0;
    while i < n
        invariant
            n == v@.len(),
            i <= n,
            forall|j: int| 0 <= j < i ==> !contains_spec(#[trigger] key_views(v@)[j], pat@),
        decreases n - i,
    {
        if contains(v[i].as_str(), pat) {
            assert(contains_spec(key_views(v@)[i as int], pat@));
            return true;
        }
        i = i + 1;
    }
    false
}

fn push_all<T>(v: &mut Vec<T>, w: Vec<T>)
    ensures
        final(v)@ == old(v)@ + w@,
{
    let mut w = w;
    v.append(&mut w);
}

/// The explanation of `message` over facts read from the project.
pub fn explain_from_facts(f: &ExplainFacts, message: &str, profile: AiProfilePreset) -> (r: AiStructuredExplain)
    ensures
        explain_view(r) == explain_spec(*f, message@, profile),
{
    let asks_safety = mentions_any(message, "safety", "bloc", "interlock");
    let asks_collision = mentions_two(message, "collision", "contact");
    proof {
        assert(seq!["safety"@, "bloc"@, "interlock"@] =~= safety_keywords());
        assert(seq!["collision"@, "contact"@] =~= collision_keywords());
    }
    let ghost branch = chosen_branch(*f, message@);
    let mut chosen: Option<Branch> = None;
    if f.safety_report.is_some() && (asks_safety || !asks_collision) {
        match &f.safety_report {
            Some(r) => chosen = Some(explain_safety(r, &f.safety_clear_signal)),
            None => {},
        }
    } else {
        match &f.run {
            Some(r) => chosen = Some(explain_run(r, &f.progress_gate_signal, &f.cycle_start_signal)),
            None => {},
        }
    }
    assert(chosen is Some <==> branch is Some);
    assert(chosen matches Some(b) ==> branch == Some(branch_view(b)));
    let mut context_refs: Vec<AiContextReference> = Vec::new();
    context_refs.push(AiContextReference { entity_id: None, role: text("source"), path: text("metadata.projectId") });
    let mut limitations: Vec<String> = Vec::new();
    let mut proposed: Vec<AiProposedCommand> = Vec::new();
    let (summary, mut explanation, base_confidence, risk_level) = match chosen {
        Some(b) => {
            push_all(&mut context_refs, b.context_refs);
            push_all(&mut proposed, b.proposed);
            (b.summary, b.explanation, b.base_confidence, b.risk_level)
        },
        None => {
            limitations.push(text("Le modele n a trouve ni run de simulation ni rapport safety persiste."));
            match &f.robot_cell_id {
                Some(c) => proposed.push(cmd("simulation.run.start", Some(c.clone()), ProposedPayload::Empty)),
                None => {},
            }
            let mut s = text("Le projet ");
            s.append(f.project_name.as_str());
            s.append(" contient ");
            s.append(decimal_string(f.node_count as u64).as_str());
            s.append(" entites exploitables.");
            (s, Vec::new(), 0x3FE28F5C28F5C28Fu64, AiRiskLevel::Low)
        },
    };
    if f.run.is_none() {
        limitations.push(text("Aucun run de simulation disponible dans le graphe courant."));
    }
    if f.safety_report.is_none() {
        limitations.push(text("Aucun rapport safety disponible dans le graphe courant."));
    }
    match &f.robot_cell_id {
        Some(c) => context_refs.push(ctx(c, "context", "sequenceValidation.estimatedCycleTimeMs")),
        None => {},
    }
    assert(ctx_views(context_refs@) =~= context_spec(*f, message@));
    assert(cmd_views(proposed@) =~= proposed_spec(*f, message@));
    if explanation.len() == 0 {
        let mut l = text("La demande \"");
        l.append(trim(message).as_str());
        l.append("\" a ete analysee a partir du graphe projet courant.");
        explanation.push(l);
    }
    if limitations.len() == 0 {
        limitations.push(text("Le raisonnement est borne aux artefacts locaux disponibles."));
    }
    assert(key_views(limitations@) =~= limitations_spec(*f, message@));
    let no_run = any_contains(&limitations, "Aucun run");
    let input = CritiqueInput {
        context_ref_count: context_refs.len(),
        proposed_command_count: proposed.len(),
        no_run_limitation: no_run,
        has_perception_run: f.has_perception_run,
        has_commissioning_session: f.has_commissioning_session,
        has_safety_report: f.safety_report.is_some(),
        has_simulation_run: f.run.is_some(),
    };
    assert(input == critique_input_spec(*f, message@));
    let passes = critique_passes(&input, message, profile);
    let ghost pv = passes@.map_values(|p: AiCritiquePass| critique_view(p));
    let ghost lines0 = key_views(explanation@);
    let n = passes.len();
    let mut i: usize = 0;
    while i < n
        invariant
            n == passes@.len(),
            pv == passes@.map_values(|p: AiCritiquePass| critique_view(p)),
            i <= n,
            key_views(explanation@) == lines0 + pv.take(i as int).map_values(|p: CritiqueView| critique_line(p)),
        decreases n - i,
    {
        let mut l = text("Critique ");
        l.append(passes[i].stage.as_str());
        l.append(": ");
        l.append(passes[i].summary.as_str());
        assert(l@ == critique_line(pv[i as int]));
        let ghost before = explanation@;
        explanation.push(l);
        assert(pv.take(i + 1).map_values(|p: CritiqueView| critique_line(p)) =~= pv.take(i as int).map_values(
            |p: CritiqueView| critique_line(p),
        ).push(critique_line(pv[i as int])));
        assert(key_views(explanation@) =~= key_views(before).push(l@));
        i = i + 1;
    }
    assert(pv.take(n as int) =~= pv);
    let mut context_refs = context_refs;
    let mut proposed = proposed;
    let ghost all_refs = context_refs@;
    let ghost all_proposed = proposed@;
    context_refs.truncate(8);
    proposed.truncate(4);
    assert(ctx_views(context_refs@) =~= at_most(ctx_views(all_refs), 8));
    assert(cmd_views(proposed@) =~= at_most(cmd_views(all_proposed), 4));
    let r = AiStructuredExplain {
        summary,
        runtime_profile: text(profile.as_str()),
        context_refs,
        base_confidence,
        risk_level,
        limitations,
        critique_passes: passes,
        proposed_commands: proposed,
        explanation,
    };
    assert(explain_view(r).explanation =~= explain_spec(*f, message@, profile).explanation);
    r
}

/// The nodes of a project in key order.
pub open spec fn nodes_in_order(d: DocumentModel) -> Seq<EntityRecord> {
    key_order(d.nodes).map_values(|k: Seq<char>| d.nodes[k])
}

/// The index of the latest entity of type `ty`: the one with the greatest
/// id, the last of equal ids, as `max_by` on the ids picks it.
pub open spec fn latest_of_type(s: Seq<EntityRecord>, ty: Seq<char>) -> Option<int>
    decreases s.len(),
{
    if s.len() == 0 {
        None
    } else {
        let prev = latest_of_type(s.drop_last(), ty);
        if s.last().entity_type@ != ty {
            prev
        } else {
            match prev {
                None => Some(s.len() - 1),
                Some(b) => if seq_lt(s.last().id@, s[b].id@) {
                    Some(b)
                } else {
                    Some(s.len() - 1)
                },
            }
        }
    }
}

proof fn lemma_latest_of_type(s: Seq<EntityRecord>, ty: Seq<char>)
    ensures
        latest_of_type(s, ty) matches Some(b) ==> 0 <= b < s.len() && s[b].entity_type@ == ty,
        latest_of_type(s, ty) is None <==> forall|i: int| 0 <= i < s.len() ==> (#[trigger] s[i]).entity_type@ != ty,
    decreases s.len(),
{
    if s.len() > 0 {
        lemma_latest_of_type(s.drop_last(), ty);
        if latest_of_type(s.drop_last(), ty) is None && s.last().entity_type@ != ty {
            assert forall|i: int| 0 <= i < s.len() implies (#[trigger] s[i]).entity_type@ != ty by {
                if i < s.len() - 1 {
                    assert(s.drop_last()[i] == s[i]);
                }
            }
        }
        if latest_of_type(s.drop_last(), ty) is Some {
            let b = latest_of_type(s.drop_last(), ty)->0;
            assert(s.drop_last()[b] == s[b]);
        }
    }
}

/// The latest entity of type `ty` in `document`.
pub fn latest_entity_by_type<'a>(document: &'a ProjectDocument, ty: &str) -> (r: Option<&'a EntityRecord>)
    ensures
        match latest_of_type(nodes_in_order(document@), ty@) {
            Some(b) => r matches Some(e) && *e == nodes_in_order(document@)[b],
            None => r is None,
        },
{
    let map = &document.nodes;
    let keys = map.sorted_keys();
    let ghost nodes = nodes_in_order(document@);
    let n = keys.len();
    let mut best: Option<&EntityRecord> = None;
    let ghost mut best_idx: Option<int> = None;
    let mut i: usize = 0;
    while i < n
        invariant
            n == keys@.len(),
            key_views(keys@) == key_order(map@),
            lists_in_order(key_order(map@), map@.dom()),
            map@ == document@.nodes,
            nodes == key_order(map@).map_values(|k: Seq<char>| map@[k]),
            i <= n,
            best_idx == latest_of_type(nodes.take(i as int), ty@),
            best_idx matches Some(b) ==> 0 <= b < i && (best matches Some(e) && *e == nodes[b]),
            best_idx is None ==> best is None,
        decreases n - i,
    {
        assert(key_views(keys@)[i as int] == keys@[i as int]@);
        assert(key_order(map@).contains(keys@[i as int]@));
        let e = match map.get(keys[i].as_str()) {
            Some(e) => e,
            None => {
                assert(false);
                return None;
            },
        };
        assert(*e == nodes[i as int]);
        assert(nodes.take(i + 1).drop_last() =~= nodes.take(i as int));
        assert(nodes.take(i + 1).last() == nodes[i as int]);
        if str_eq(e.entity_type.as_str(), ty) {
            let replace = match best {
                None => true,
                Some(b) => !str_lt(e.id.as_str(), b.id.as_str()),
            };
            if replace {
                best = Some(e);
                proof {
                    best_idx = Some(i as int);
                }
            }
        }
        proof {
            if let Some(b) = best_idx {
                assert(nodes.take(i + 1)[b] == nodes[b]);
            }
        }
        i = i + 1;
    }
    assert(nodes.take(n as int) =~= nodes);
    best
}

fn get_opt(v: &Option<JsonValue>, key: &str) -> (r: Option<JsonValue>)
    ensures
        r == json_get_opt(*v, key@),
{
    match v {
        Some(x) => match x.get(key) {
            Some(y) => Some(y.clone()),
            None => None,
        },
        None => None,
    }
}

fn bool_of(v: &Option<JsonValue>) -> (r: Option<bool>)
    ensures
        r == json_bool(*v),
{
    match v {
        Some(x) => x.as_bool(),
        None => None,
    }
}

fn u64_of(v: &Option<JsonValue>) -> (r: Option<u64>)
    ensures
        r == json_u64(*v),
{
    match v {
        Some(x) => x.as_u64(),
        None => None,
    }
}

pub(crate) fn text_of(v: &Option<JsonValue>) -> (r: Option<String>)
    ensures
        opt_view(r) == json_text(*v),
{
    match v {
        Some(x) => match x.as_text() {
            Some(t) => Some(t.clone()),
            None => None,
        },
        None => None,
    }
}

/// Each item's text, where it is a string.
pub open spec fn item_texts(items: Seq<JsonValue>) -> Seq<Option<Seq<char>>> {
    items.map_values(|x: JsonValue| json_text(Some(x)))
}

pub open spec fn opt_texts_view(v: Option<Vec<Option<String>>>) -> Option<Seq<Option<Seq<char>>>> {
    match v {
        Some(items) => Some(items@.map_values(|o: Option<String>| opt_view(o))),
        None => None,
    }
}

/// The items of an array value, each kept as its text where it is one.
pub(crate) fn texts_of_items(v: &Option<JsonValue>) -> (r: Option<Vec<Option<String>>>)
    ensures
        opt_texts_view(r) == match json_items(*v) {
            Some(items) => Some(item_texts(items)),
            None => None,
        },
{
    let items = match v {
        Some(x) => x.items(),
        None => None,
    };
    match items {
        Some(items) => {
            let mut ids: Vec<Option<String>> = Vec::new();
            let mut i: usize = 0;
            while i < items.len()
                invariant
                    i <= items@.len(),
                    ids@.map_values(|o: Option<String>| opt_view(o)) == item_texts(items@.take(i as int)),
                decreases items@.len() - i,
            {
                let t = text_of(&Some(items[i].clone()));
                let ghost before = ids@;
                ids.push(t);
                assert(ids@.map_values(|o: Option<String>| opt_view(o)) =~= before.map_values(
                    |o: Option<String>| opt_view(o),
                ).push(opt_view(t)));
                assert(item_texts(items@.take(i + 1)) =~= item_texts(items@.take(i as int)).push(
                    json_text(Some(items@[i as int])),
                ));
                i = i + 1;
            }
            assert(items@.take(items@.len() as int) =~= items@);
            Some(ids)
        },
        None => None,
    }
}

/// The facts of a safety report read from its data: the `summary` fields
/// `inhibited`, `status`, `blockingInterlockCount`, `activeZoneCount` and
/// `causeZoneIds`, and the `robotCellId`.
pub open spec fn safety_facts_of(r: SafetyReportFacts, e: EntityRecord) -> bool {
    let summary = data_field(e.data, "summary"@);
    &&& r.id@ == e.id@
    &&& r.name@ == e.name@
    &&& r.inhibited == json_bool(json_get_opt(summary, "inhibited"@))
    &&& opt_view(r.status) == json_text(json_get_opt(summary, "status"@))
    &&& r.blocking_interlock_count == json_u64(json_get_opt(summary, "blockingInterlockCount"@))
    &&& r.active_zone_count == json_u64(json_get_opt(summary, "activeZoneCount"@))
    &&& opt_texts_view(r.cause_zone_ids) == match json_items(json_get_opt(summary, "causeZoneIds"@)) {
        Some(items) => Some(item_texts(items)),
        None => None,
    }
    &&& opt_view(r.robot_cell_id) == json_text(data_field(e.data, "robotCellId"@))
}

/// The facts of a contact read from its `leftEntityId`, `rightEntityId`
/// and `timestampMs`.
pub open spec fn contact_facts_of(c: ContactFacts, x: JsonValue) -> bool {
    &&& opt_view(c.left_entity_id) == json_text(json_get(x, "leftEntityId"@))
    &&& opt_view(c.right_entity_id) == json_text(json_get(x, "rightEntityId"@))
    &&& c.timestamp_ms == json_u64(json_get(x, "timestampMs"@))
}

/// The facts of a run read from its data: the `summary` fields
/// `collisionCount`, `blockedSequenceDetected`, `blockedStateId` and
/// `cycleTimeMs`, the first of its `contacts`, and the `robotCellId`.
pub open spec fn run_facts_of(r: RunFacts, e: EntityRecord) -> bool {
    let summary = data_field(e.data, "summary"@);
    &&& r.id@ == e.id@
    &&& r.name@ == e.name@
    &&& r.collision_count == json_u64(json_get_opt(summary, "collisionCount"@))
    &&& r.blocked_sequence_detected == json_bool(json_get_opt(summary, "blockedSequenceDetected"@))
    &&& opt_view(r.blocked_state_id) == json_text(json_get_opt(summary, "blockedStateId"@))
    &&& r.cycle_time_ms == json_u64(json_get_opt(summary, "cycleTimeMs"@))
    &&& match json_items(data_field(e.data, "contacts"@)) {
        Some(items) => if items.len() > 0 {
            r.first_contact matches Some(c) && contact_facts_of(c, items[0])
        } else {
            r.first_contact is None
        },
        None => r.first_contact is None,
    }
    &&& opt_view(r.robot_cell_id) == json_text(data_field(e.data, "robotCellId"@))
}

fn safety_facts(e: &EntityRecord) -> (f: SafetyReportFacts)
    ensures
        safety_facts_of(f, *e),
{
    let summary = e.data.field("summary");
    SafetyReportFacts {
        id: e.id.clone(),
        name: e.name.clone(),
        inhibited: bool_of(&get_opt(&summary, "inhibited")),
        status: text_of(&get_opt(&summary, "status")),
        blocking_interlock_count: u64_of(&get_opt(&summary, "blockingInterlockCount")),
        active_zone_count: u64_of(&get_opt(&summary, "activeZoneCount")),
        cause_zone_ids: texts_of_items(&get_opt(&summary, "causeZoneIds")),
        robot_cell_id: text_of(&e.data.field("robotCellId")),
    }
}

fn run_facts(e: &EntityRecord) -> (f: RunFacts)
    ensures
        run_facts_of(f, *e),
{
    let summary = e.data.field("summary");
    let contacts = e.data.field("contacts");
    let items = match &contacts {
        Some(x) => x.items(),
        None => None,
    };
    let first_contact = match items {
        Some(items) => if items.len() > 0 {
            let c = Some(items[0].clone());
            Some(
                ContactFacts {
                    left_entity_id: text_of(&get_opt(&c, "leftEntityId")),
                    right_entity_id: text_of(&get_opt(&c, "rightEntityId")),
                    timestamp_ms: u64_of(&get_opt(&c, "timestampMs")),
                },
            )
        } else {
            None
        },
        None => None,
    };
    RunFacts {
        id: e.id.clone(),
        name: e.name.clone(),
        collision_count: u64_of(&get_opt(&summary, "collisionCount")),
        blocked_sequence_detected: bool_of(&get_opt(&summary, "blockedSequenceDetected")),
        blocked_state_id: text_of(&get_opt(&summary, "blockedStateId")),
        cycle_time_ms: u64_of(&get_opt(&summary, "cycleTimeMs")),
        first_contact,
        robot_cell_id: text_of(&e.data.field("robotCellId")),
    }
}

/// `e` is a signal entity whose data names it `signal_id`.
pub open spec fn is_signal_named(e: EntityRecord, signal_id: Seq<char>) -> bool {
    e.entity_type@ == "Signal"@ && json_text(data_field(e.data, "signalId"@)) == Some(signal_id)
}

/// The first position from `i` on of a signal entity named `signal_id`.
pub open spec fn first_signal_from(s: Seq<EntityRecord>, signal_id: Seq<char>, i: int) -> Option<int>
    decreases s.len() - i,
{
    if i < 0 || i >= s.len() {
        None
    } else if is_signal_named(s[i], signal_id) {
        Some(i)
    } else {
        first_signal_from(s, signal_id, i + 1)
    }
}

/// The id of the first signal entity, in key order, named `signal_id`.
pub open spec fn signal_id_of(d: DocumentModel, signal_id: Seq<char>) -> Option<Seq<char>> {
    match first_signal_from(nodes_in_order(d), signal_id, 0) {
        Some(i) => Some(nodes_in_order(d)[i].id@),
        None => None,
    }
}

/// The id of the first signal entity, in key order, whose `signalId` is
/// `signal_id`.
fn find_signal_entity(document: &ProjectDocument, signal_id: &str) -> (r: Option<String>)
    ensures
        opt_view(r) == signal_id_of(document@, signal_id@),
{
    let map = &document.nodes;
    let keys = map.sorted_keys();
    let ghost nodes = nodes_in_order(document@);
    let n = keys.len();
    let mut i: usize = 0;
    while i < n
        invariant
            n == keys@.len(),
            key_views(keys@) == key_order(map@),
            lists_in_order(key_order(map@), map@.dom()),
            map@ == document@.nodes,
            nodes == key_order(map@).map_values(|k: Seq<char>| map@[k]),
            i <= n,
            first_signal_from(nodes, signal_id@, 0) == first_signal_from(nodes, signal_id@, i as int),
        decreases n - i,
    {
        assert(key_views(keys@)[i as int] == keys@[i as int]@);
        assert(key_order(map@).contains(keys@[i as int]@));
        let e = match map.get(keys[i].as_str()) {
            Some(e) => e,
            None => {
                assert(false);
                return None;
            },
        };
        assert(*e == nodes[i as int]);
        if str_eq(e.entity_type.as_str(), "Signal") {
            match text_of(&e.data.field("signalId")) {
                Some(t) => {
                    if str_eq(t.as_str(), signal_id) {
                        return Some(e.id.clone());
                    }
                },
                None => {},
            }
        }
        i = i + 1;
    }
    None
}

pub open spec fn latest_id(d: DocumentModel, ty: Seq<char>) -> Option<Seq<char>> {
    match latest_of_type(nodes_in_order(d), ty) {
        Some(b) => Some(nodes_in_order(d)[b].id@),
        None => None,
    }
}

pub open spec fn latest_name(d: DocumentModel, ty: Seq<char>) -> Option<Seq<char>> {
    match latest_of_type(nodes_in_order(d), ty) {
        Some(b) => Some(nodes_in_order(d)[b].name@),
        None => None,
    }
}

/// The facts are those of the project: its name and size, what the latest
/// safety report and run hold, the latest robot cell, the signal entities
/// named `sig_safety_clear`, `sig_progress_gate` and `sig_cycle_start`, and
/// whether perception runs and commissioning sessions exist. Every field is
/// fixed by the project, so the explanation is too.
pub open spec fn facts_fit(f: ExplainFacts, d: DocumentModel) -> bool {
    &&& f.project_name@ == d.metadata.name@
    &&& f.node_count == d.nodes.dom().len()
    &&& (match latest_of_type(nodes_in_order(d), "SafetyReport"@) {
        Some(b) => f.safety_report matches Some(r) && safety_facts_of(r, nodes_in_order(d)[b]),
        None => f.safety_report is None,
    })
    &&& (match latest_of_type(nodes_in_order(d), "SimulationRun"@) {
        Some(b) => f.run matches Some(r) && run_facts_of(r, nodes_in_order(d)[b]),
        None => f.run is None,
    })
    &&& opt_view(f.robot_cell_id) == latest_id(d, "RobotCell"@)
    &&& f.has_perception_run == (latest_id(d, "PerceptionRun"@) is Some)
    &&& f.has_commissioning_session == (latest_id(d, "CommissioningSession"@) is Some)
    &&& opt_view(f.safety_clear_signal) == signal_id_of(d, "sig_safety_clear"@)
    &&& opt_view(f.progress_gate_signal) == signal_id_of(d, "sig_progress_gate"@)
    &&& opt_view(f.cycle_start_signal) == signal_id_of(d, "sig_cycle_start"@)
}

/// `e` explains `message` on `d` under `profile`, for facts that agree
/// with the project.
pub open spec fn explains(e: AiStructuredExplain, d: DocumentModel, message: Seq<char>, profile: AiProfilePreset) -> bool {
    exists|f: ExplainFacts| #[trigger] facts_fit(f, d) && explain_view(e) == explain_spec(f, message, profile)
}

/// The structured explanation of `message` on `document`, over the facts
/// read from the project.
pub fn build_structured_explain(document: &ProjectDocument, message: &str, profile: AiProfilePreset) -> (r: AiStructuredExplain)
    ensures
        explains(r, document@, message@, profile),
        r.runtime_profile@ == profile_label(profile),
        r.context_refs@.len() <= 8,
        r.proposed_commands@.len() <= 4,
        r.limitations@.len() > 0,
        r.explanation@.len() > 0,
{
    let safety_report = match latest_entity_by_type(document, "SafetyReport") {
        Some(e) => Some(safety_facts(e)),
        None => None,
    };
    let run = match latest_entity_by_type(document, "SimulationRun") {
        Some(e) => Some(run_facts(e)),
        None => None,
    };
    let robot_cell_id = match latest_entity_by_type(document, "RobotCell") {
        Some(e) => Some(e.id.clone()),
        None => None,
    };
    let facts = ExplainFacts {
        project_name: document.metadata.name.clone(),
        node_count: document.nodes.len(),
        safety_report,
        run,
        robot_cell_id,
        safety_clear_signal: find_signal_entity(document, "sig_safety_clear"),
        progress_gate_signal: find_signal_entity(document, "sig_progress_gate"),
        cycle_start_signal: find_signal_entity(document, "sig_cycle_start"),
        has_perception_run: latest_entity_by_type(document, "PerceptionRun").is_some(),
        has_commissioning_session: latest_entity_by_type(document, "CommissioningSession").is_some(),
    };
    let r = explain_from_facts(&facts, message, profile);
    assert(facts_fit(facts, document@));
    proof {
        law_explanation_shape(facts, message@, profile);
    }
    r
}

/// What every explanation holds: it names its profile, has one critic
/// pass and one more for `max` and two more for `furnace`, at most eight
/// context references and four proposed commands, and at least one
/// limitation and one line of explanation.
pub proof fn law_explanation_shape(f: ExplainFacts, message: Seq<char>, profile: AiProfilePreset)
    ensures
        ({
            let e = explain_spec(f, message, profile);
            &&& e.runtime_profile == profile_label(profile)
            &&& e.critique_passes.len() == (match profile {
                AiProfilePreset::Balanced => 1int,
                AiProfilePreset::Max => 2int,
                AiProfilePreset::Furnace => 3int,
            })
            &&& e.context_refs.len() <= 8
            &&& e.proposed_commands.len() <= 4
            &&& e.limitations.len() > 0
            &&& e.explanation.len() > 0
        }),
{
    let passes = critique_spec(critique_input_spec(f, message), message, profile);
    assert(passes.len() == (match profile {
        AiProfilePreset::Balanced => 1int,
        AiProfilePreset::Max => 2int,
        AiProfilePreset::Furnace => 3int,
    }));
}

} // verus!
