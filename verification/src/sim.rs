//! The deterministic cycle simulation: request checks, the scheduled signal
//! changes, the controller trace step by step, collisions and contacts.
//! Lengths are held as the bit patterns of their `f64` values; the metrics
//! that need floating-point arithmetic (tracking error, energy, overlap) are
//! not computed here.
use vstd::prelude::*;
use crate::floatbits::{bits_is_finite, bits_lt, f64_lt, is_finite};
use crate::robotics::{
    find_state, first_enabled, first_enabled_transition, lemma_state_from_exists, state_with_id,
};
use crate::signals::{control_signal_values, initial_values, SignalValues};
use crate::text::{chars_of, chars_lt, is_blank, lemma_seq_lt_irreflexive, lemma_seq_lt_transitive, seq_lt, trim_spec};
use crate::types::{
    ControlTransition, ControllerState, ControllerStateMachine, SignalAssignment, SignalDefinition,
    SignalValue,
};

verus! {

/// A signal write planned for a given step.
#[derive(Debug)]
pub struct ScheduledSignalChange {
    pub step_index: u32,
    pub signal_id: String,
    pub value: SignalValue,
    pub reason: String,
}

impl Clone for ScheduledSignalChange {
    fn clone(&self) -> (r: Self)
        ensures
            r == *self,
    {
        ScheduledSignalChange {
            step_index: self.step_index,
            signal_id: self.signal_id.clone(),
            value: self.value.clone(),
            reason: self.reason.clone(),
        }
    }
}

/// Two bodies whose contact the simulation reports; the clearance is the
/// bit pattern of an `f64`.
#[derive(Debug, PartialEq, Eq)]
pub struct SimulationContactPair {
    pub id: String,
    pub left_entity_id: String,
    pub right_entity_id: String,
    pub base_clearance_mm: u64,
}

impl Clone for SimulationContactPair {
    fn clone(&self) -> (r: Self)
        ensures
            r == *self,
    {
        SimulationContactPair {
            id: self.id.clone(),
            left_entity_id: self.left_entity_id.clone(),
            right_entity_id: self.right_entity_id.clone(),
            base_clearance_mm: self.base_clearance_mm,
        }
    }
}

/// What to simulate; the path length is the bit pattern of an `f64`.
#[derive(Debug)]
pub struct SimulationRequest {
    pub scenario_name: String,
    pub seed: u64,
    pub engine_version: String,
    pub step_count: u32,
    pub planned_cycle_time_ms: u32,
    pub path_length_mm: u64,
    pub endpoint_count: u32,
    pub safety_zone_count: u32,
    pub signals: Vec<SignalDefinition>,
    pub controller: Option<ControllerStateMachine>,
    pub scheduled_signal_changes: Vec<ScheduledSignalChange>,
    pub contact_pairs: Vec<SimulationContactPair>,
}

#[derive(Debug, Clone, Copy, PartialEq, Eq, Structural)]
pub enum SimulationStatus {
    Completed,
    Warning,
    Collided,
}

#[derive(Debug, Clone, PartialEq, Eq)]
pub enum SimulationError {
    InvalidStepCount,
    InvalidCycleTime,
    InvalidPathLength,
    UnknownInitialState(String),
    UnknownTransitionState { transition_id: String, state_id: String },
}

/// A signal value observed at a step, and why it changed.
#[derive(Debug, PartialEq)]
pub struct SignalSample {
    pub step_index: u32,
    pub timestamp_ms: u32,
    pub signal_id: String,
    pub value: SignalValue,
    pub reason: String,
}

/// A controller state entered at a step, and why.
#[derive(Debug, Clone, PartialEq, Eq)]
pub struct ControllerStateSample {
    pub step_index: u32,
    pub timestamp_ms: u32,
    pub state_id: String,
    pub state_name: String,
    pub reason: String,
}

/// A collision slot: when it happens and between which bodies.
#[derive(Debug, Clone, PartialEq, Eq)]
pub struct ContactSlot {
    pub collision_index: u32,
    pub step_index: u32,
    pub timestamp_ms: u32,
    pub pair: SimulationContactPair,
}

/// Everything a run decides besides its floating-point metrics.
#[derive(Debug)]
pub struct SimulationTrace {
    pub seed: u64,
    pub engine_version: String,
    pub cycle_time_ms: u32,
    pub collision_count: u32,
    pub blocked_sequence_detected: bool,
    pub blocked_state_id: Option<String>,
    pub signal_samples: Vec<SignalSample>,
    pub controller_state_samples: Vec<ControllerStateSample>,
    pub contacts: Vec<ContactSlot>,
}

pub struct SignalSampleView {
    pub step_index: u32,
    pub timestamp_ms: u32,
    pub signal_id: Seq<char>,
    pub value: SignalValue,
    pub reason: Seq<char>,
}

pub struct StateSampleView {
    pub step_index: u32,
    pub timestamp_ms: u32,
    pub state_id: Seq<char>,
    pub state_name: Seq<char>,
    pub reason: Seq<char>,
}

pub open spec fn signal_sample_view(s: SignalSample) -> SignalSampleView {
    SignalSampleView {
        step_index: s.step_index,
        timestamp_ms: s.timestamp_ms,
        signal_id: s.signal_id@,
        value: s.value,
        reason: s.reason@,
    }
}

pub open spec fn state_sample_view(s: ControllerStateSample) -> StateSampleView {
    StateSampleView {
        step_index: s.step_index,
        timestamp_ms: s.timestamp_ms,
        state_id: s.state_id@,
        state_name: s.state_name@,
        reason: s.reason@,
    }
}

/// Scheduled changes are ordered by step, then by signal id.
pub open spec fn change_lt(a: ScheduledSignalChange, b: ScheduledSignalChange) -> bool {
    a.step_index < b.step_index || (a.step_index == b.step_index && seq_lt(a.signal_id@, b.signal_id@))
}

/// Where a stable insertion puts `x`: after every element not greater than it.
pub open spec fn insert_pos(sorted: Seq<ScheduledSignalChange>, x: ScheduledSignalChange, i: int) -> int
    decreases sorted.len() - i,
{
    if i < 0 || i >= sorted.len() {
        sorted.len() as int
    } else if change_lt(x, sorted[i]) {
        i
    } else {
        insert_pos(sorted, x, i + 1)
    }
}

/// The changes in stable order of `(step_index, signal_id)`.
pub open spec fn sort_changes(s: Seq<ScheduledSignalChange>) -> Seq<ScheduledSignalChange>
    decreases s.len(),
{
    if s.len() == 0 {
        Seq::empty()
    } else {
        let sorted = sort_changes(s.drop_last());
        sorted.insert(insert_pos(sorted, s.last(), 0), s.last())
    }
}

fn change_before(x: &ScheduledSignalChange, y: &ScheduledSignalChange) -> (r: bool)
    ensures
        r == change_lt(*x, *y),
{
    if x.step_index < y.step_index {
        return true;
    }
    if x.step_index != y.step_index {
        return false;
    }
    let a = chars_of(x.signal_id.as_str());
    let b = chars_of(y.signal_id.as_str());
    assert(a@.subrange(0, a@.len() as int) =~= a@);
    assert(b@.subrange(0, b@.len() as int) =~= b@);
    chars_lt(&a, &b, 0)
}

/// The scheduled changes in the order the run applies them.
pub fn sorted_changes(changes: &Vec<ScheduledSignalChange>) -> (r: Vec<ScheduledSignalChange>)
    ensures
        r@ == sort_changes(changes@),
{
    let n = changes.len();
    let mut sorted: Vec<ScheduledSignalChange> = Vec::new();
    let mut i: usize = 0;
    while i < n
        invariant
            n == changes@.len(),
            i <= n,
            sorted@ == sort_changes(changes@.take(i as int)),
        decreases n - i,
    {
        assert(changes@.take(i + 1).drop_last() =~= changes@.take(i as int));
        let x = changes[i].clone();
        let m = sorted.len();
        let mut p: usize = 0;
        while p < m && !change_before(&x, &sorted[p])
            invariant
                m == sorted@.len(),
                p <= m,
                insert_pos(sorted@, x, 0) == insert_pos(sorted@, x, p as int),
            decreases m - p,
        {
            p = p + 1;
        }
        sorted.insert(p, x);
        i = i + 1;
    }
    assert(changes@.take(n as int) =~= changes@);
    sorted
}

/// The timestamp of a step: the share of the cycle completed at its end.
pub open spec fn step_timestamp_spec(step_index: u32, step_count: u32, cycle_time_ms: u32) -> u32 {
    if step_count <= 1 {
        cycle_time_ms
    } else {
        ((cycle_time_ms as int * (step_index as int + 1)) / step_count as int) as u32
    }
}

/// The timestamp of step `step_index`: the cycle share completed at its end,
/// truncated to `u32` as the original cast does for a step past the last.
pub fn step_timestamp_ms(step_index: u32, step_count: u32, cycle_time_ms: u32) -> (t: u32)
    requires
        step_index < u32::MAX,
    ensures
        t == step_timestamp_spec(step_index, step_count, cycle_time_ms),
        step_index < step_count ==> t <= cycle_time_ms,
{
    if step_count <= 1 {
        return cycle_time_ms;
    }
    assert((cycle_time_ms as int) * (step_index as int + 1) <= 0xFFFF_FFFF * 0x1_0000_0000) by (nonlinear_arith)
        requires
            cycle_time_ms <= 0xFFFF_FFFF,
            step_index < 0xFFFF_FFFF,
    ;
    let num: u64 = (cycle_time_ms as u64) * ((step_index as u64) + 1);
    let q: u64 = num / (step_count as u64);
    if step_index < step_count {
        assert(q <= cycle_time_ms) by (nonlinear_arith)
            requires
                num as int == cycle_time_ms as int * (step_index as int + 1),
                step_index < step_count,
                q as int == num as int / step_count as int,
                step_count > 1,
        {
            assert(num as int <= cycle_time_ms as int * step_count as int);
        }
    }
    q as u32
}

/// The simulated state between steps.
pub struct SimState {
    pub values: Map<Seq<char>, SignalValue>,
    pub state: Option<ControllerState>,
    pub signal_samples: Seq<SignalSampleView>,
    pub state_samples: Seq<StateSampleView>,
}

/// The defects a run can meet.
pub enum SimFault {
    UnknownInitialState(Seq<char>),
    UnknownTransitionState(Seq<char>, Seq<char>),
}

/// Applies the changes due at `step`, from position `cursor` of the sorted
/// changes on; returns the new state and the position of the next change.
pub open spec fn apply_changes_spec(
    sorted: Seq<ScheduledSignalChange>,
    cursor: int,
    step: u32,
    ts: u32,
    st: SimState,
) -> (SimState, int)
    decreases sorted.len() - cursor,
{
    if 0 <= cursor < sorted.len() && sorted[cursor].step_index == step {
        let c = sorted[cursor];
        apply_changes_spec(
            sorted,
            cursor + 1,
            step,
            ts,
            SimState {
                values: st.values.insert(c.signal_id@, c.value),
                signal_samples: st.signal_samples.push(
                    SignalSampleView { step_index: step, timestamp_ms: ts, signal_id: c.signal_id@, value: c.value, reason: c.reason@ },
                ),
                ..st
            },
        )
    } else {
        (st, cursor)
    }
}

/// Applies a transition's assignments in order, sampling each with `reason`.
pub open spec fn assign_spec(
    assignments: Seq<SignalAssignment>,
    step: u32,
    ts: u32,
    reason: Seq<char>,
    st: SimState,
) -> SimState
    decreases assignments.len(),
{
    if assignments.len() == 0 {
        st
    } else {
        let s1 = assign_spec(assignments.drop_last(), step, ts, reason, st);
        let a = assignments.last();
        SimState {
            values: s1.values.insert(a.signal_id@, a.value),
            signal_samples: s1.signal_samples.push(
                SignalSampleView { step_index: step, timestamp_ms: ts, signal_id: a.signal_id@, value: a.value, reason },
            ),
            ..s1
        }
    }
}

/// The reason recorded when a transition fires: its description, else its id.
pub open spec fn transition_reason(t: ControlTransition) -> Seq<char> {
    match t.description {
        Some(d) => d@,
        None => t.id@,
    }
}

/// One controller step: the first enabled transition out of the current
/// state fires, whether or not that state is terminal.
pub open spec fn controller_step_spec(
    controller: Option<ControllerStateMachine>,
    step: u32,
    ts: u32,
    st: SimState,
) -> Result<SimState, SimFault> {
    match (controller, st.state) {
        (Some(c), Some(cur)) => match first_enabled(c.transitions@, cur.id@, st.values) {
            None => Ok(st),
            Some(k) => {
                let t = c.transitions@[k];
                let s1 = assign_spec(t.assignments@, step, ts, "transition:"@ + t.id@, st);
                match state_with_id(c.states@, t.to_state_id@) {
                    None => Err(SimFault::UnknownTransitionState(t.id@, t.to_state_id@)),
                    Some(next) => Ok(
                        SimState {
                            state: Some(next),
                            state_samples: s1.state_samples.push(
                                StateSampleView {
                                    step_index: step,
                                    timestamp_ms: ts,
                                    state_id: next.id@,
                                    state_name: next.name@,
                                    reason: transition_reason(t),
                                },
                            ),
                            ..s1
                        },
                    ),
                }
            },
        },
        _ => Ok(st),
    }
}

/// The sample recorded for each signal's initial value.
pub open spec fn initial_samples(signals: Seq<SignalDefinition>) -> Seq<SignalSampleView> {
    signals.map_values(
        |s: SignalDefinition|
            SignalSampleView { step_index: 0, timestamp_ms: 0, signal_id: s.id@, value: s.initial_value, reason: "initial_value"@ },
    )
}

/// The state before the first step.
pub open spec fn initial_sim_state(r: SimulationRequest) -> Result<SimState, SimFault> {
    let base = SimState {
        values: initial_values(r.signals@),
        state: None,
        signal_samples: initial_samples(r.signals@),
        state_samples: Seq::empty(),
    };
    match r.controller {
        None => Ok(base),
        Some(c) => match state_with_id(c.states@, c.initial_state_id@) {
            None => Err(SimFault::UnknownInitialState(c.initial_state_id@)),
            Some(s) => Ok(
                SimState {
                    state: Some(s),
                    state_samples: seq![
                        StateSampleView { step_index: 0, timestamp_ms: 0, state_id: s.id@, state_name: s.name@, reason: "initial_state"@ },
                    ],
                    ..base
                },
            ),
        },
    }
}

/// The cycle time: planned time, 6 ms per endpoint and a jitter of the seed modulo 11.
pub open spec fn cycle_time_spec(r: SimulationRequest) -> int {
    r.planned_cycle_time_ms + r.endpoint_count * 6 + (r.seed % 11)
}

/// The state after the first `k` steps, with the position of the next scheduled change.
pub open spec fn steps_spec(r: SimulationRequest, k: nat) -> Result<(SimState, int), SimFault>
    decreases k,
{
    if k == 0 {
        match initial_sim_state(r) {
            Err(f) => Err(f),
            Ok(s) => Ok((s, 0)),
        }
    } else {
        match steps_spec(r, (k - 1) as nat) {
            Err(f) => Err(f),
            Ok((st, cursor)) => {
                let step = (k - 1) as u32;
                let ts = step_timestamp_spec(step, r.step_count, cycle_time_spec(r) as u32);
                let (s1, c1) = apply_changes_spec(sort_changes(r.scheduled_signal_changes@), cursor, step, ts, st);
                match controller_step_spec(r.controller, step, ts, s1) {
                    Err(f) => Err(f),
                    Ok(s2) => Ok((s2, c1)),
                }
            },
        }
    }
}

/// The request is rejected when it has no steps, no planned time, or a path
/// length that is not a finite non-negative number.
pub open spec fn request_error(r: SimulationRequest) -> Option<SimulationError> {
    if r.step_count == 0 {
        Some(SimulationError::InvalidStepCount)
    } else if r.planned_cycle_time_ms == 0 {
        Some(SimulationError::InvalidCycleTime)
    } else if !is_finite(r.path_length_mm) || f64_lt(r.path_length_mm, 0) {
        Some(SimulationError::InvalidPathLength)
    } else {
        None
    }
}

/// Number of collisions: without safety zones `(seed + steps) % 3`, with
/// more than two endpoints `(seed + endpoints) % 2`, else none.
pub open spec fn collision_count_spec(r: SimulationRequest) -> int {
    if r.safety_zone_count == 0 {
        (r.seed + r.step_count) % 3
    } else if r.endpoint_count > 2 {
        (r.seed + r.endpoint_count) % 2
    } else {
        0
    }
}

pub fn compute_collision_count(request: &SimulationRequest) -> (n: u32)
    ensures
        n == collision_count_spec(*request),
        n <= 2,
{
    if request.safety_zone_count == 0 {
        (((request.seed % 3) + (request.step_count as u64 % 3)) % 3) as u32
    } else if request.endpoint_count > 2 {
        (((request.seed % 2) + (request.endpoint_count as u64 % 2)) % 2) as u32
    } else {
        0
    }
}

/// The pair used when the request names none.
pub open spec fn default_pair_spec(p: SimulationContactPair) -> bool {
    &&& p.id@ == "pair_default"@
    &&& p.left_entity_id@ == "ent_tool_001"@
    &&& p.right_entity_id@ == "ent_fixture_001"@
    &&& p.base_clearance_mm == 0x3FE999999999999Au64
}

/// The step of the `index`-th of `collisions` collisions: evenly spread, never past the last step.
pub open spec fn contact_step_spec(index: int, collisions: int, step_count: u32) -> int {
    let even = ((index + 1) * step_count) / (collisions + 1);
    if even < step_count - 1 {
        even
    } else {
        step_count - 1
    }
}

/// The slots of the collisions of a run.
pub open spec fn contacts_ok(r: SimulationRequest, collisions: u32, cycle: u32, out: Seq<ContactSlot>) -> bool {
    &&& out.len() == collisions
    &&& forall|k: int|
        0 <= k < collisions ==> {
            let c = #[trigger] out[k];
            &&& c.collision_index == k
            &&& c.step_index == contact_step_spec(k, collisions as int, r.step_count)
            &&& c.timestamp_ms == step_timestamp_spec(c.step_index, r.step_count, cycle)
            &&& if r.contact_pairs@.len() == 0 {
                default_pair_spec(c.pair)
            } else {
                c.pair == r.contact_pairs@[k % r.contact_pairs@.len() as int]
            }
        }
}

fn build_contacts(request: &SimulationRequest, collision_count: u32, cycle_time_ms: u32) -> (out: Vec<ContactSlot>)
    requires
        request.step_count > 0,
        collision_count <= 2,
    ensures
        contacts_ok(*request, collision_count, cycle_time_ms, out@),
{
    let mut out: Vec<ContactSlot> = Vec::new();
    let mut index: u32 = 0;
    while index < collision_count
        invariant
            request.step_count > 0,
            collision_count <= 2,
            index <= collision_count,
            out@.len() == index,
            forall|k: int|
                0 <= k < index ==> {
                    let c = #[trigger] out@[k];
                    &&& c.collision_index == k
                    &&& c.step_index == contact_step_spec(k, collision_count as int, request.step_count)
                    &&& c.timestamp_ms == step_timestamp_spec(c.step_index, request.step_count, cycle_time_ms)
                    &&& if request.contact_pairs@.len() == 0 {
                        default_pair_spec(c.pair)
                    } else {
                        c.pair == request.contact_pairs@[k % request.contact_pairs@.len() as int]
                    }
                },
        decreases collision_count - index,
    {
        assert((index as int + 1) * (request.step_count as int) <= 3 * 0xFFFF_FFFF) by (nonlinear_arith)
            requires
                index < 2,
                request.step_count <= 0xFFFF_FFFF,
        ;
        let even: u64 = ((index as u64) + 1) * (request.step_count as u64) / ((collision_count as u64) + 1);
        assert(even <= request.step_count) by (nonlinear_arith)
            requires
                even == ((index as int + 1) * request.step_count as int) / (collision_count as int + 1),
                index < collision_count,
        {
            assert((index as int + 1) * request.step_count as int <= (collision_count as int + 1) * request.step_count as int);
        }
        let last: u32 = request.step_count - 1;
        let step_index: u32 = if even < last as u64 {
            even as u32
        } else {
            last
        };
        let timestamp_ms = step_timestamp_ms(step_index, request.step_count, cycle_time_ms);
        let pair = if request.contact_pairs.len() == 0 {
            SimulationContactPair {
                id: String::from_str("pair_default"),
                left_entity_id: String::from_str("ent_tool_001"),
                right_entity_id: String::from_str("ent_fixture_001"),
                base_clearance_mm: 0x3FE999999999999A,
            }
        } else {
            request.contact_pairs[(index as usize) % request.contact_pairs.len()].clone()
        };
        out.push(ContactSlot { collision_index: index, step_index, timestamp_ms, pair });
        index = index + 1;
    }
    out
}


pub open spec fn signal_sample_views(s: Seq<SignalSample>) -> Seq<SignalSampleView> {
    s.map_values(|x: SignalSample| signal_sample_view(x))
}

pub open spec fn state_sample_views(s: Seq<ControllerStateSample>) -> Seq<StateSampleView> {
    s.map_values(|x: ControllerStateSample| state_sample_view(x))
}

/// The simulated state that the run's variables stand for.
pub open spec fn sim_state(
    values: Map<Seq<char>, SignalValue>,
    state: Option<ControllerState>,
    signal_samples: Seq<SignalSample>,
    state_samples: Seq<ControllerStateSample>,
) -> SimState {
    SimState {
        values,
        state,
        signal_samples: signal_sample_views(signal_samples),
        state_samples: state_sample_views(state_samples),
    }
}

/// The error reported for a defect.
pub open spec fn fault_error(f: SimFault, e: SimulationError) -> bool {
    match f {
        SimFault::UnknownInitialState(id) => e matches SimulationError::UnknownInitialState(s) && s@ == id,
        SimFault::UnknownTransitionState(tid, sid) => e matches SimulationError::UnknownTransitionState {
            transition_id,
            state_id,
        } && transition_id@ == tid && state_id@ == sid,
    }
}

/// The state the run ends blocked in: a non-terminal current state.
pub open spec fn blocked_state(st: SimState) -> Option<ControllerState> {
    match st.state {
        Some(s) => if s.terminal {
            None
        } else {
            Some(s)
        },
        None => None,
    }
}

/// The engine version reported: the requested one, or the default when it is blank.
pub open spec fn engine_version_spec(v: Seq<char>) -> Seq<char> {
    if trim_spec(v).len() == 0 {
        "faero-sim@0.2.0"@
    } else {
        v
    }
}

/// The controller samples of a run: those of its steps, then a
/// `sequence_blocked` sample at the last step when it ends blocked.
pub open spec fn final_state_samples(r: SimulationRequest, st: SimState, cycle: u32) -> Seq<StateSampleView> {
    match blocked_state(st) {
        Some(s) => st.state_samples.push(
            StateSampleView {
                step_index: (r.step_count - 1) as u32,
                timestamp_ms: cycle,
                state_id: s.id@,
                state_name: s.name@,
                reason: "sequence_blocked"@,
            },
        ),
        None => st.state_samples,
    }
}

/// `t` is the trace of a run of `r` that ended in `st`.
pub open spec fn trace_of(r: SimulationRequest, st: SimState, t: SimulationTrace) -> bool {
    &&& t.seed == r.seed
    &&& t.engine_version@ == engine_version_spec(r.engine_version@)
    &&& t.cycle_time_ms == cycle_time_spec(r)
    &&& t.collision_count == collision_count_spec(r)
    &&& t.blocked_sequence_detected == blocked_state(st) is Some
    &&& match blocked_state(st) {
        Some(s) => t.blocked_state_id matches Some(id) && id@ == s.id@,
        None => t.blocked_state_id is None,
    }
    &&& signal_sample_views(t.signal_samples@) == st.signal_samples
    &&& state_sample_views(t.controller_state_samples@) == final_state_samples(r, st, t.cycle_time_ms)
    &&& contacts_ok(r, t.collision_count, t.cycle_time_ms, t.contacts@)
}

/// What a run of `r` gives: the request's error, the defect met while
/// stepping, or the trace of all `step_count` steps.
pub open spec fn simulation_outcome(r: SimulationRequest, out: Result<SimulationTrace, SimulationError>) -> bool {
    match request_error(r) {
        Some(e) => out == Err::<SimulationTrace, SimulationError>(e),
        None => match steps_spec(r, r.step_count as nat) {
            Err(f) => out matches Err(e) && fault_error(f, e),
            Ok((st, _)) => out matches Ok(t) && trace_of(r, st, t),
        },
    }
}

proof fn lemma_fault_persists(r: SimulationRequest, k: nat, m: nat)
    requires
        k <= m,
        steps_spec(r, k) is Err,
    ensures
        steps_spec(r, m) == steps_spec(r, k),
    decreases m - k,
{
    if k < m {
        lemma_fault_persists(r, k, (m - 1) as nat);
    }
}

fn initial_signal_samples(signals: &Vec<SignalDefinition>) -> (out: Vec<SignalSample>)
    ensures
        signal_sample_views(out@) == initial_samples(signals@),
{
    let n = signals.len();
    let mut out: Vec<SignalSample> = Vec::new();
    let mut i: usize = 0;
    while i < n
        invariant
            n == signals@.len(),
            i <= n,
            signal_sample_views(out@) == initial_samples(signals@.take(i as int)),
        decreases n - i,
    {
        let ghost before = out@;
        out.push(
            SignalSample {
                step_index: 0,
                timestamp_ms: 0,
                signal_id: signals[i].id.clone(),
                value: signals[i].initial_value.clone(),
                reason: String::from_str("initial_value"),
            },
        );
        assert(signal_sample_views(out@) =~= signal_sample_views(before).push(signal_sample_view(out@.last())));
        assert(initial_samples(signals@.take(i + 1)) =~= initial_samples(signals@.take(i as int)).push(
            signal_sample_view(out@.last()),
        ));
        i = i + 1;
    }
    assert(signals@.take(n as int) =~= signals@);
    out
}

/// Applies the changes due at `step`, from position `cursor` on.
fn apply_due_changes(
    sorted: &Vec<ScheduledSignalChange>,
    cursor: usize,
    step: u32,
    ts: u32,
    values: &mut SignalValues,
    samples: &mut Vec<SignalSample>,
    Ghost(state): Ghost<Option<ControllerState>>,
    Ghost(state_samples): Ghost<Seq<ControllerStateSample>>,
) -> (next: usize)
    requires
        old(values).wf(),
        cursor <= sorted@.len(),
    ensures
        final(values).wf(),
        next <= sorted@.len(),
        apply_changes_spec(sorted@, cursor as int, step, ts, sim_state(old(values)@, state, old(samples)@, state_samples))
            == (sim_state(final(values)@, state, final(samples)@, state_samples), next as int),
{
    let mut c = cursor;
    while c < sorted.len() && sorted[c].step_index == step
        invariant
            values.wf(),
            cursor <= c <= sorted@.len(),
            apply_changes_spec(sorted@, cursor as int, step, ts, sim_state(old(values)@, state, old(samples)@, state_samples))
                == apply_changes_spec(sorted@, c as int, step, ts, sim_state(values@, state, samples@, state_samples)),
        decreases sorted@.len() - c,
    {
        let ghost before = samples@;
        let change = &sorted[c];
        values.insert(change.signal_id.clone(), change.value.clone());
        samples.push(
            SignalSample {
                step_index: step,
                timestamp_ms: ts,
                signal_id: change.signal_id.clone(),
                value: change.value.clone(),
                reason: change.reason.clone(),
            },
        );
        assert(signal_sample_views(samples@) =~= signal_sample_views(before).push(signal_sample_view(samples@.last())));
        c = c + 1;
    }
    c
}

/// Fires the first enabled transition out of `current`, if any: applies its
/// assignments and enters its target state.
fn controller_step(
    controller: &ControllerStateMachine,
    current: &ControllerState,
    step: u32,
    ts: u32,
    values: &mut SignalValues,
    samples: &mut Vec<SignalSample>,
    state_samples: &mut Vec<ControllerStateSample>,
) -> (r: Result<Option<ControllerState>, SimulationError>)
    requires
        old(values).wf(),
    ensures
        final(values).wf(),
        match controller_step_spec(
            Some(*controller),
            step,
            ts,
            sim_state(old(values)@, Some(*current), old(samples)@, old(state_samples)@),
        ) {
            Err(f) => r matches Err(e) && fault_error(f, e),
            Ok(st) => r matches Ok(next) && st == sim_state(
                final(values)@,
                match next {
                    Some(n) => Some(n),
                    None => Some(*current),
                },
                final(samples)@,
                final(state_samples)@,
            ),
        },
{
    let ghost st0 = sim_state(values@, Some(*current), samples@, state_samples@);
    let k = match first_enabled_transition(&controller.transitions, current.id.as_str(), values) {
        None => {
            return Ok(None);
        },
        Some(k) => k,
    };
    let t = &controller.transitions[k];
    let mut reason = String::from_str("transition:");
    reason.append(t.id.as_str());
    let n = t.assignments.len();
    let mut j: usize = 0;
    while j < n
        invariant
            n == t.assignments@.len(),
            j <= n,
            values.wf(),
            reason@ == "transition:"@ + t.id@,
            state_samples@ == old(state_samples)@,
            assign_spec(t.assignments@.take(j as int), step, ts, reason@, st0) == sim_state(
                values@,
                Some(*current),
                samples@,
                state_samples@,
            ),
        decreases n - j,
    {
        let ghost before = samples@;
        let a = &t.assignments[j];
        values.insert(a.signal_id.clone(), a.value.clone());
        samples.push(
            SignalSample {
                step_index: step,
                timestamp_ms: ts,
                signal_id: a.signal_id.clone(),
                value: a.value.clone(),
                reason: reason.clone(),
            },
        );
        assert(signal_sample_views(samples@) =~= signal_sample_views(before).push(signal_sample_view(samples@.last())));
        assert(t.assignments@.take(j + 1).drop_last() =~= t.assignments@.take(j as int));
        j = j + 1;
    }
    assert(t.assignments@.take(n as int) =~= t.assignments@);
    match find_state(&controller.states, t.to_state_id.as_str()) {
        None => Err(
            SimulationError::UnknownTransitionState {
                transition_id: t.id.clone(),
                state_id: t.to_state_id.clone(),
            },
        ),
        Some(next) => {
            let ghost before = state_samples@;
            let why = match &t.description {
                Some(d) => d.clone(),
                None => t.id.clone(),
            };
            state_samples.push(
                ControllerStateSample {
                    step_index: step,
                    timestamp_ms: ts,
                    state_id: next.id.clone(),
                    state_name: next.name.clone(),
                    reason: why,
                },
            );
            assert(state_sample_views(state_samples@) =~= state_sample_views(before).push(
                state_sample_view(state_samples@.last()),
            ));
            Ok(Some(next))
        },
    }
}


/// Runs the simulation of `request` up to its floating-point metrics: the
/// request checks, the scheduled signal changes, the controller trace, the
/// blocked-sequence verdict, the collisions and their contact slots.
pub fn simulate_trace(request: &SimulationRequest) -> (out: Result<SimulationTrace, SimulationError>)
    requires
        request_error(*request) is None ==> cycle_time_spec(*request) <= u32::MAX,
    ensures
        simulation_outcome(*request, out),
{
    if request.step_count == 0 {
        return Err(SimulationError::InvalidStepCount);
    }
    if request.planned_cycle_time_ms == 0 {
        return Err(SimulationError::InvalidCycleTime);
    }
    if !bits_is_finite(request.path_length_mm) || bits_lt(request.path_length_mm, 0) {
        return Err(SimulationError::InvalidPathLength);
    }
    let cycle_time_ms: u32 = request.planned_cycle_time_ms + request.endpoint_count * 6 + (request.seed % 11) as u32;
    let mut values = control_signal_values(request.signals.as_slice());
    let mut signal_samples = initial_signal_samples(&request.signals);
    let mut state_samples: Vec<ControllerStateSample> = Vec::new();
    let mut current: Option<ControllerState> = None;
    if let Some(c) = &request.controller {
        match find_state(&c.states, c.initial_state_id.as_str()) {
            None => {
                proof {
                    lemma_fault_persists(*request, 0, request.step_count as nat);
                }
                return Err(SimulationError::UnknownInitialState(c.initial_state_id.clone()));
            },
            Some(s) => {
                state_samples.push(
                    ControllerStateSample {
                        step_index: 0,
                        timestamp_ms: 0,
                        state_id: s.id.clone(),
                        state_name: s.name.clone(),
                        reason: String::from_str("initial_state"),
                    },
                );
                current = Some(s);
            },
        }
    }
    assert(state_sample_views(state_samples@) =~= initial_sim_state(*request)->Ok_0.state_samples);
    let sorted = sorted_changes(&request.scheduled_signal_changes);
    let mut cursor: usize = 0;
    let mut step: u32 = 0;
    while step < request.step_count
        invariant
            request_error(*request) is None,
            step <= request.step_count,
            cycle_time_ms == cycle_time_spec(*request),
            sorted@ == sort_changes(request.scheduled_signal_changes@),
            values.wf(),
            cursor <= sorted@.len(),
            steps_spec(*request, step as nat) == Ok::<(SimState, int), SimFault>(
                (sim_state(values@, current, signal_samples@, state_samples@), cursor as int),
            ),
        decreases request.step_count - step,
    {
        let ts = step_timestamp_ms(step, request.step_count, cycle_time_ms);
        cursor = apply_due_changes(
            &sorted,
            cursor,
            step,
            ts,
            &mut values,
            &mut signal_samples,
            Ghost(current),
            Ghost(state_samples@),
        );
        let mut entered: Option<ControllerState> = None;
        if let Some(c) = &request.controller {
            if let Some(s) = &current {
                match controller_step(c, s, step, ts, &mut values, &mut signal_samples, &mut state_samples) {
                    Err(e) => {
                        proof {
                            lemma_fault_persists(*request, (step + 1) as nat, request.step_count as nat);
                        }
                        return Err(e);
                    },
                    Ok(next) => {
                        entered = next;
                    },
                }
            }
        }
        if entered.is_some() {
            current = entered;
        }
        step = step + 1;
    }
    let blocked = match &current {
        Some(s) => !s.terminal,
        None => false,
    };
    let mut blocked_state_id: Option<String> = None;
    if let Some(s) = &current {
        if !s.terminal {
            let ghost before = state_samples@;
            blocked_state_id = Some(s.id.clone());
            state_samples.push(
                ControllerStateSample {
                    step_index: request.step_count - 1,
                    timestamp_ms: cycle_time_ms,
                    state_id: s.id.clone(),
                    state_name: s.name.clone(),
                    reason: String::from_str("sequence_blocked"),
                },
            );
            assert(state_sample_views(state_samples@) =~= state_sample_views(before).push(
                state_sample_view(state_samples@.last()),
            ));
        }
    }
    let engine_version = if is_blank(request.engine_version.as_str()) {
        String::from_str("faero-sim@0.2.0")
    } else {
        request.engine_version.clone()
    };
    let collision_count = compute_collision_count(request);
    let contacts = build_contacts(request, collision_count, cycle_time_ms);
    Ok(
        SimulationTrace {
            seed: request.seed,
            engine_version,
            cycle_time_ms,
            collision_count,
            blocked_sequence_detected: blocked,
            blocked_state_id,
            signal_samples,
            controller_state_samples: state_samples,
            contacts,
        },
    )
}

/// The verdict of a run: any collision makes it collided; a blocked sequence
/// or a tracking error over the limit makes it a warning.
pub fn simulation_status(collision_count: u32, blocked_sequence_detected: bool, tracking_over_limit: bool) -> (s: SimulationStatus)
    ensures
        collision_count > 0 ==> s == SimulationStatus::Collided,
        collision_count == 0 && (blocked_sequence_detected || tracking_over_limit) ==> s == SimulationStatus::Warning,
        collision_count == 0 && !blocked_sequence_detected && !tracking_over_limit ==> s == SimulationStatus::Completed,
{
    if collision_count > 0 {
        SimulationStatus::Collided
    } else if blocked_sequence_detected || tracking_over_limit {
        SimulationStatus::Warning
    } else {
        SimulationStatus::Completed
    }
}


proof fn lemma_change_lt_transitive(a: ScheduledSignalChange, b: ScheduledSignalChange, c: ScheduledSignalChange)
    requires
        change_lt(a, b),
        change_lt(b, c),
    ensures
        change_lt(a, c),
{
    if a.step_index == b.step_index && b.step_index == c.step_index {
        lemma_seq_lt_transitive(a.signal_id@, b.signal_id@, c.signal_id@);
    }
}

/// No change comes after one it must precede.
pub open spec fn changes_in_order(s: Seq<ScheduledSignalChange>) -> bool {
    forall|i: int, j: int| 0 <= i < j < s.len() ==> !change_lt(#[trigger] s[j], #[trigger] s[i])
}

proof fn lemma_insert_pos(sorted: Seq<ScheduledSignalChange>, x: ScheduledSignalChange, i: int)
    requires
        0 <= i <= sorted.len(),
    ensures
        i <= insert_pos(sorted, x, i) <= sorted.len(),
        forall|k: int| i <= k < insert_pos(sorted, x, i) ==> !change_lt(x, #[trigger] sorted[k]),
        insert_pos(sorted, x, i) < sorted.len() ==> change_lt(x, sorted[insert_pos(sorted, x, i)]),
    decreases sorted.len() - i,
{
    if i < sorted.len() && !change_lt(x, sorted[i]) {
        lemma_insert_pos(sorted, x, i + 1);
    }
}

/// The changes are applied in order of step, then of signal id, and none
/// is lost or added: the applied order is a sorted permutation of the schedule.
pub proof fn law_scheduled_changes_sorted(s: Seq<ScheduledSignalChange>)
    ensures
        changes_in_order(sort_changes(s)),
        sort_changes(s).to_multiset() == s.to_multiset(),
    decreases s.len(),
{
    broadcast use vstd::seq_lib::group_to_multiset_ensures;
    if s.len() > 0 {
        let rest = sort_changes(s.drop_last());
        law_scheduled_changes_sorted(s.drop_last());
        let x = s.last();
        let p = insert_pos(rest, x, 0);
        lemma_insert_pos(rest, x, 0);
        let t = rest.insert(p, x);
        assert(t == sort_changes(s));
        assert forall|i: int, j: int| 0 <= i < j < t.len() implies !change_lt(#[trigger] t[j], #[trigger] t[i]) by {
            if j < p {
                assert(t[i] == rest[i] && t[j] == rest[j]);
            } else if j == p {
                assert(t[i] == rest[i] && t[j] == x);
            } else if i < p {
                assert(t[i] == rest[i] && t[j] == rest[j - 1]);
            } else if i == p {
                assert(t[i] == x && t[j] == rest[j - 1]);
                if change_lt(rest[j - 1], x) {
                    lemma_change_lt_transitive(rest[j - 1], x, rest[p]);
                    if j - 1 == p {
                        lemma_seq_lt_irreflexive(rest[p].signal_id@);
                    } else {
                        assert(!change_lt(rest[j - 1], rest[p]));
                    }
                }
            } else {
                assert(t[i] == rest[i - 1] && t[j] == rest[j - 1]);
            }
        }
        assert(t.remove(p) =~= rest);
        assert(t[p] == x);
        assert(s.drop_last().push(x) =~= s);
    }
}


/// Two traces report the same run: the same numbers, verdicts, samples and
/// collision slots.
pub open spec fn same_trace(a: SimulationTrace, b: SimulationTrace) -> bool {
    &&& a.seed == b.seed
    &&& a.engine_version@ == b.engine_version@
    &&& a.cycle_time_ms == b.cycle_time_ms
    &&& a.collision_count == b.collision_count
    &&& a.blocked_sequence_detected == b.blocked_sequence_detected
    &&& opt_str(a.blocked_state_id) == opt_str(b.blocked_state_id)
    &&& signal_sample_views(a.signal_samples@) == signal_sample_views(b.signal_samples@)
    &&& state_sample_views(a.controller_state_samples@) == state_sample_views(b.controller_state_samples@)
    &&& a.contacts@.len() == b.contacts@.len()
    &&& forall|k: int|
        0 <= k < a.contacts@.len() ==> {
            let x = #[trigger] a.contacts@[k];
            let y = b.contacts@[k];
            &&& x.collision_index == y.collision_index
            &&& x.step_index == y.step_index
            &&& x.timestamp_ms == y.timestamp_ms
            &&& x.pair.id@ == y.pair.id@
            &&& x.pair.left_entity_id@ == y.pair.left_entity_id@
            &&& x.pair.right_entity_id@ == y.pair.right_entity_id@
            &&& x.pair.base_clearance_mm == y.pair.base_clearance_mm
        }
}

pub open spec fn opt_str(o: Option<String>) -> Option<Seq<char>> {
    match o {
        Some(s) => Some(s@),
        None => None,
    }
}

/// The simulation is deterministic: two runs of the same request fail
/// alike or report the same trace.
pub proof fn law_simulation_deterministic(
    r: SimulationRequest,
    a: Result<SimulationTrace, SimulationError>,
    b: Result<SimulationTrace, SimulationError>,
)
    requires
        simulation_outcome(r, a),
        simulation_outcome(r, b),
    ensures
        a is Ok <==> b is Ok,
        a matches Ok(x) ==> b matches Ok(y) && same_trace(x, y),
{
    if a is Ok && b is Ok {
        let x = a->Ok_0;
        let y = b->Ok_0;
        assert forall|k: int| 0 <= k < x.contacts@.len() implies x.contacts@[k].pair.id@ == y.contacts@[k].pair.id@ by {
            assert(y.contacts@[k] == y.contacts@[k]);
        }
    }
}

/// A run's contacts go round the request's contact pairs: the `k`-th
/// contact is on pair `k` modulo the number of pairs, and on the default
/// pair when the request names none; there is one contact per collision.
pub proof fn law_contacts_cycle_over_pairs(r: SimulationRequest, t: SimulationTrace, k: int)
    requires
        simulation_outcome(r, Ok(t)),
        0 <= k < t.contacts@.len(),
    ensures
        t.contacts@.len() == t.collision_count,
        t.contacts@[k].collision_index == k,
        r.contact_pairs@.len() > 0 ==> t.contacts@[k].pair == r.contact_pairs@[k % r.contact_pairs@.len() as int],
        r.contact_pairs@.len() == 0 ==> t.contacts@[k].pair.id@ == "pair_default"@,
{
    let st = steps_spec(r, r.step_count as nat)->Ok_0.0;
    assert(trace_of(r, st, t));
    assert(contacts_ok(r, t.collision_count, t.cycle_time_ms, t.contacts@));
}

} // verus!
