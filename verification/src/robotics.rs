//! Robot cell control: validation of the signal / controller model and the
//! deterministic dry run that tells whether the controller reaches a
//! terminal state from the initial signal values.
use vstd::prelude::*;
use crate::signals::{all_conditions_match, all_hold, apply_control_assignments, assign_all, control_signal_values, initial_values, SignalValues, comparator_supported, signal_comparator_supported, signal_value_matches_kind, value_matches_kind};
use crate::floatbits::{bits_is_finite, bits_le, bits_lt, f64_le, f64_lt, finite_positive, is_finite};
use crate::text::{is_blank, is_blank_spec, str_eq};
use crate::types::{SignalValue,
    ControlTransition, ControllerState, ControllerStateMachine, SignalAssignment, SignalComparator,
    SignalCondition, SignalDefinition, SignalKind,
};

verus! {

/// The declared members of a robot cell.
#[derive(Debug, Clone, PartialEq, Eq)]
pub struct RobotCellModel {
    pub id: String,
    pub scene_assembly_id: String,
    pub robot_ids: Vec<String>,
    pub equipment_ids: Vec<String>,
    pub safety_zone_ids: Vec<String>,
    pub sequence_ids: Vec<String>,
    pub controller_model_ids: Vec<String>,
}

#[derive(Debug, Clone, PartialEq, Eq)]
pub struct RobotToolMountRef {
    pub equipment_id: String,
    pub role: String,
}

#[derive(Debug, Clone, Copy, PartialEq, Eq, Structural)]
pub enum EquipmentType {
    Conveyor,
    Workstation,
    Gripper,
}

/// Member counts of a validated robot cell.
#[derive(Debug, Clone, PartialEq, Eq)]
pub struct RobotCellStructureSummary {
    pub robot_count: usize,
    pub equipment_count: usize,
    pub safety_zone_count: usize,
    pub sequence_count: usize,
    pub controller_count: usize,
}

/// Signals and controller of a robot cell.
#[derive(Debug)]
pub struct RobotCellControlModel {
    pub cell_id: String,
    pub signals: Vec<SignalDefinition>,
    pub controller: ControllerStateMachine,
}

/// What the dry run of a cell controller found.
#[derive(Debug, Clone, PartialEq, Eq)]
pub struct RobotCellControlSummary {
    pub signal_count: usize,
    pub controller_transition_count: usize,
    pub blocked_sequence_detected: bool,
    pub blocked_state_id: Option<String>,
}

/// Why a robot cell description was refused.
#[derive(Debug, PartialEq)]
pub enum RoboticsError {
    EmptySequence,
    InvalidTargetSet,
    InvalidPose,
    InvalidRobotCellStructure,
    InvalidRobotModelSet,
    InvalidEquipmentModelSet,
    InvalidRobotSequenceSet,
    InvalidRobotTargetModelSet,
    InvalidRobotCellControlModel,
    InvalidControllerStateMachine,
    UnknownInitialControllerState(String),
    UnknownControllerTransitionState { transition_id: String, state_id: String },
    UnknownControllerSignal { transition_id: String, signal_id: String },
    InvalidSignalValueForKind { signal_id: String, expected_kind: SignalKind, context: &'static str },
    InvalidSignalComparator {
        transition_id: String,
        signal_id: String,
        comparator: SignalComparator,
        kind: SignalKind,
    },
}

/// The first defect of a control model, as the checks meet it.
pub enum ControlFault {
    InvalidControlModel,
    InvalidStateMachine,
    UnknownInitialState(Seq<char>),
    /// `(transition_id, state_id)`
    UnknownTransitionState(Seq<char>, Seq<char>),
    /// `(transition_id, signal_id)`
    UnknownSignal(Seq<char>, Seq<char>),
    /// `(signal_id, expected_kind, context)`
    ValueForKind(Seq<char>, SignalKind, Seq<char>),
    /// `(transition_id, signal_id, comparator, kind)`
    Comparator(Seq<char>, Seq<char>, SignalComparator, SignalKind),
}

/// `e` reports the defect `f`.
pub open spec fn fault_matches(e: RoboticsError, f: ControlFault) -> bool {
    match (e, f) {
        (RoboticsError::InvalidRobotCellControlModel, ControlFault::InvalidControlModel) => true,
        (RoboticsError::InvalidControllerStateMachine, ControlFault::InvalidStateMachine) => true,
        (RoboticsError::UnknownInitialControllerState(s), ControlFault::UnknownInitialState(x)) => s@ == x,
        (
            RoboticsError::UnknownControllerTransitionState { transition_id, state_id },
            ControlFault::UnknownTransitionState(t, s),
        ) => transition_id@ == t && state_id@ == s,
        (
            RoboticsError::UnknownControllerSignal { transition_id, signal_id },
            ControlFault::UnknownSignal(t, s),
        ) => transition_id@ == t && signal_id@ == s,
        (
            RoboticsError::InvalidSignalValueForKind { signal_id, expected_kind, context },
            ControlFault::ValueForKind(s, k, c),
        ) => signal_id@ == s && expected_kind == k && context@ == c,
        (
            RoboticsError::InvalidSignalComparator { transition_id, signal_id, comparator, kind },
            ControlFault::Comparator(t, s, c, k),
        ) => transition_id@ == t && signal_id@ == s && comparator == c && kind == k,
        _ => false,
    }
}

/// `r` is what a check whose first defect is `f` returns.
pub open spec fn verdict(r: Result<(), RoboticsError>, f: Option<ControlFault>) -> bool {
    match r {
        Ok(()) => f is None,
        Err(e) => f matches Some(ff) && fault_matches(e, ff),
    }
}

pub open spec fn blank(s: String) -> bool {
    is_blank_spec(s@)
}

pub open spec fn signal_ids_contain(signals: Seq<SignalDefinition>, id: Seq<char>) -> bool {
    exists|i: int| 0 <= i < signals.len() && #[trigger] signals[i].id@ == id
}

/// The defect of `s`, given the signals declared before it.
pub open spec fn signal_fault(prefix: Seq<SignalDefinition>, s: SignalDefinition) -> Option<ControlFault> {
    if blank(s.id) || blank(s.name) || signal_ids_contain(prefix, s.id@) {
        Some(ControlFault::InvalidControlModel)
    } else if !value_matches_kind(s.kind, s.initial_value) {
        Some(ControlFault::ValueForKind(s.id@, s.kind, "signal.initialValue"@))
    } else {
        None
    }
}

pub open spec fn signals_fault(signals: Seq<SignalDefinition>) -> Option<ControlFault>
    decreases signals.len(),
{
    if signals.len() == 0 {
        None
    } else {
        match signals_fault(signals.drop_last()) {
            Some(f) => Some(f),
            None => signal_fault(signals.drop_last(), signals.last()),
        }
    }
}

/// The kind declared for `id`, a later declaration winning.
pub open spec fn kind_of(signals: Seq<SignalDefinition>, id: Seq<char>) -> Option<SignalKind>
    decreases signals.len(),
{
    if signals.len() == 0 {
        None
    } else if signals.last().id@ == id {
        Some(signals.last().kind)
    } else {
        kind_of(signals.drop_last(), id)
    }
}

pub open spec fn state_ids_contain(states: Seq<ControllerState>, id: Seq<char>) -> bool {
    exists|i: int| 0 <= i < states.len() && #[trigger] states[i].id@ == id
}

pub open spec fn state_fault(prefix: Seq<ControllerState>, s: ControllerState) -> Option<ControlFault> {
    if blank(s.id) || blank(s.name) || state_ids_contain(prefix, s.id@) {
        Some(ControlFault::InvalidStateMachine)
    } else {
        None
    }
}

pub open spec fn states_fault(states: Seq<ControllerState>) -> Option<ControlFault>
    decreases states.len(),
{
    if states.len() == 0 {
        None
    } else {
        match states_fault(states.drop_last()) {
            Some(f) => Some(f),
            None => state_fault(states.drop_last(), states.last()),
        }
    }
}

pub open spec fn condition_fault(
    transition_id: Seq<char>,
    signals: Seq<SignalDefinition>,
    c: SignalCondition,
) -> Option<ControlFault> {
    match kind_of(signals, c.signal_id@) {
        None => Some(ControlFault::UnknownSignal(transition_id, c.signal_id@)),
        Some(k) => if !value_matches_kind(k, c.expected_value) {
            Some(ControlFault::ValueForKind(c.signal_id@, k, "condition.expectedValue"@))
        } else if !comparator_supported(k, c.comparator) {
            Some(ControlFault::Comparator(transition_id, c.signal_id@, c.comparator, k))
        } else {
            None
        },
    }
}

pub open spec fn conditions_fault(
    transition_id: Seq<char>,
    signals: Seq<SignalDefinition>,
    cs: Seq<SignalCondition>,
) -> Option<ControlFault>
    decreases cs.len(),
{
    if cs.len() == 0 {
        None
    } else {
        match conditions_fault(transition_id, signals, cs.drop_last()) {
            Some(f) => Some(f),
            None => condition_fault(transition_id, signals, cs.last()),
        }
    }
}

pub open spec fn assignment_fault(
    transition_id: Seq<char>,
    signals: Seq<SignalDefinition>,
    a: SignalAssignment,
) -> Option<ControlFault> {
    match kind_of(signals, a.signal_id@) {
        None => Some(ControlFault::UnknownSignal(transition_id, a.signal_id@)),
        Some(k) => if !value_matches_kind(k, a.value) {
            Some(ControlFault::ValueForKind(a.signal_id@, k, "assignment.value"@))
        } else {
            None
        },
    }
}

pub open spec fn assignments_fault(
    transition_id: Seq<char>,
    signals: Seq<SignalDefinition>,
    assignments: Seq<SignalAssignment>,
) -> Option<ControlFault>
    decreases assignments.len(),
{
    if assignments.len() == 0 {
        None
    } else {
        match assignments_fault(transition_id, signals, assignments.drop_last()) {
            Some(f) => Some(f),
            None => assignment_fault(transition_id, signals, assignments.last()),
        }
    }
}

pub open spec fn transition_ids_contain(ts: Seq<ControlTransition>, id: Seq<char>) -> bool {
    exists|i: int| 0 <= i < ts.len() && #[trigger] ts[i].id@ == id
}

pub open spec fn transition_fault(
    prefix: Seq<ControlTransition>,
    states: Seq<ControllerState>,
    signals: Seq<SignalDefinition>,
    t: ControlTransition,
) -> Option<ControlFault> {
    if blank(t.id) || blank(t.from_state_id) || blank(t.to_state_id) || transition_ids_contain(prefix, t.id@) {
        Some(ControlFault::InvalidStateMachine)
    } else if !state_ids_contain(states, t.from_state_id@) {
        Some(ControlFault::UnknownTransitionState(t.id@, t.from_state_id@))
    } else if !state_ids_contain(states, t.to_state_id@) {
        Some(ControlFault::UnknownTransitionState(t.id@, t.to_state_id@))
    } else {
        match conditions_fault(t.id@, signals, t.conditions@) {
            Some(f) => Some(f),
            None => assignments_fault(t.id@, signals, t.assignments@),
        }
    }
}

pub open spec fn transitions_fault(
    ts: Seq<ControlTransition>,
    states: Seq<ControllerState>,
    signals: Seq<SignalDefinition>,
) -> Option<ControlFault>
    decreases ts.len(),
{
    if ts.len() == 0 {
        None
    } else {
        match transitions_fault(ts.drop_last(), states, signals) {
            Some(f) => Some(f),
            None => transition_fault(ts.drop_last(), states, signals, ts.last()),
        }
    }
}

/// The first defect of a control model, or `None` when it is valid.
pub open spec fn control_fault(c: RobotCellControlModel) -> Option<ControlFault> {
    let ctrl = c.controller;
    if blank(c.cell_id) || blank(ctrl.id) || blank(ctrl.name) || c.signals@.len() == 0 {
        Some(ControlFault::InvalidControlModel)
    } else if signals_fault(c.signals@) is Some {
        signals_fault(c.signals@)
    } else if blank(ctrl.initial_state_id) || ctrl.states@.len() == 0 {
        Some(ControlFault::InvalidStateMachine)
    } else if states_fault(ctrl.states@) is Some {
        states_fault(ctrl.states@)
    } else if !state_ids_contain(ctrl.states@, ctrl.initial_state_id@) {
        Some(ControlFault::UnknownInitialState(ctrl.initial_state_id@))
    } else {
        transitions_fault(ctrl.transitions@, ctrl.states@, c.signals@)
    }
}

proof fn lemma_signals_fault_prefix(s: Seq<SignalDefinition>, k: int)
    requires
        0 <= k <= s.len(),
        signals_fault(s.take(k)) is Some,
    ensures
        signals_fault(s) == signals_fault(s.take(k)),
    decreases s.len() - k,
{
    if k == s.len() {
        assert(s.take(k) =~= s);
    } else {
        let d = s.drop_last();
        assert(d.take(k) =~= s.take(k));
        lemma_signals_fault_prefix(d, k);
    }
}

proof fn lemma_states_fault_prefix(s: Seq<ControllerState>, k: int)
    requires
        0 <= k <= s.len(),
        states_fault(s.take(k)) is Some,
    ensures
        states_fault(s) == states_fault(s.take(k)),
    decreases s.len() - k,
{
    if k == s.len() {
        assert(s.take(k) =~= s);
    } else {
        let d = s.drop_last();
        assert(d.take(k) =~= s.take(k));
        lemma_states_fault_prefix(d, k);
    }
}

proof fn lemma_conditions_fault_prefix(t: Seq<char>, sig: Seq<SignalDefinition>, s: Seq<SignalCondition>, k: int)
    requires
        0 <= k <= s.len(),
        conditions_fault(t, sig, s.take(k)) is Some,
    ensures
        conditions_fault(t, sig, s) == conditions_fault(t, sig, s.take(k)),
    decreases s.len() - k,
{
    if k == s.len() {
        assert(s.take(k) =~= s);
    } else {
        let d = s.drop_last();
        assert(d.take(k) =~= s.take(k));
        lemma_conditions_fault_prefix(t, sig, d, k);
    }
}

proof fn lemma_assignments_fault_prefix(t: Seq<char>, sig: Seq<SignalDefinition>, s: Seq<SignalAssignment>, k: int)
    requires
        0 <= k <= s.len(),
        assignments_fault(t, sig, s.take(k)) is Some,
    ensures
        assignments_fault(t, sig, s) == assignments_fault(t, sig, s.take(k)),
    decreases s.len() - k,
{
    if k == s.len() {
        assert(s.take(k) =~= s);
    } else {
        let d = s.drop_last();
        assert(d.take(k) =~= s.take(k));
        lemma_assignments_fault_prefix(t, sig, d, k);
    }
}

proof fn lemma_transitions_fault_prefix(
    s: Seq<ControlTransition>,
    st: Seq<ControllerState>,
    sig: Seq<SignalDefinition>,
    k: int,
)
    requires
        0 <= k <= s.len(),
        transitions_fault(s.take(k), st, sig) is Some,
    ensures
        transitions_fault(s, st, sig) == transitions_fault(s.take(k), st, sig),
    decreases s.len() - k,
{
    if k == s.len() {
        assert(s.take(k) =~= s);
    } else {
        let d = s.drop_last();
        assert(d.take(k) =~= s.take(k));
        lemma_transitions_fault_prefix(d, st, sig, k);
    }
}

fn check_signals(signals: &Vec<SignalDefinition>) -> (r: Result<(), RoboticsError>)
    ensures
        verdict(r, signals_fault(signals@)),
{
    let n = signals.len();
    let mut i: usize = 0;
    while i < n
        invariant
            n == signals@.len(),
            i <= n,
            signals_fault(signals@.take(i as int)) is None,
        decreases n - i,
    {
        let ghost prefix = signals@.take(i as int);
        assert(signals@.take(i + 1).drop_last() =~= prefix);
        let s = &signals[i];
        let mut dup = false;
        let mut j: usize = 0;
        while j < i
            invariant
                i < n,
                n == signals@.len(),
                j <= i,
                prefix == signals@.take(i as int),
                *s == signals@[i as int],
                dup == signal_ids_contain(prefix.take(j as int), signals@[i as int].id@),
            decreases i - j,
        {
            assert(prefix.take(j + 1) =~= prefix.take(j as int).push(prefix[j as int]));
            if str_eq(signals[j].id.as_str(), s.id.as_str()) {
                dup = true;
            }
            proof {
                let p1 = prefix.take(j + 1);
                if signal_ids_contain(p1, s.id@) {
                    let k = choose|k: int| 0 <= k < p1.len() && #[trigger] p1[k].id@ == s.id@;
                    if k < j {
                        assert(prefix.take(j as int)[k].id@ == s.id@);
                    }
                }
                if dup && !signal_ids_contain(prefix.take(j as int), s.id@) {
                    assert(p1[j as int].id@ == s.id@);
                }
            }
            j = j + 1;
        }
        assert(prefix.take(i as int) =~= prefix);
        if is_blank(s.id.as_str()) || is_blank(s.name.as_str()) || dup {
            proof {
                lemma_signals_fault_prefix(signals@, i + 1);
            }
            return Err(RoboticsError::InvalidRobotCellControlModel);
        }
        if !signal_value_matches_kind(&s.kind, &s.initial_value) {
            proof {
                lemma_signals_fault_prefix(signals@, i + 1);
            }
            return Err(
                RoboticsError::InvalidSignalValueForKind {
                    signal_id: s.id.clone(),
                    expected_kind: s.kind,
                    context: "signal.initialValue",
                },
            );
        }
        i = i + 1;
    }
    assert(signals@.take(n as int) =~= signals@);
    Ok(())
}

fn check_states(states: &Vec<ControllerState>) -> (r: Result<(), RoboticsError>)
    ensures
        verdict(r, states_fault(states@)),
{
    let n = states.len();
    let mut i: usize = 0;
    while i < n
        invariant
            n == states@.len(),
            i <= n,
            states_fault(states@.take(i as int)) is None,
        decreases n - i,
    {
        let ghost prefix = states@.take(i as int);
        assert(states@.take(i + 1).drop_last() =~= prefix);
        let s = &states[i];
        let mut dup = false;
        let mut j: usize = 0;
        while j < i
            invariant
                i < n,
                n == states@.len(),
                j <= i,
                prefix == states@.take(i as int),
                *s == states@[i as int],
                dup == state_ids_contain(prefix.take(j as int), states@[i as int].id@),
            decreases i - j,
        {
            assert(prefix.take(j + 1) =~= prefix.take(j as int).push(prefix[j as int]));
            if str_eq(states[j].id.as_str(), s.id.as_str()) {
                dup = true;
            }
            proof {
                let p1 = prefix.take(j + 1);
                if state_ids_contain(p1, s.id@) {
                    let k = choose|k: int| 0 <= k < p1.len() && #[trigger] p1[k].id@ == s.id@;
                    if k < j {
                        assert(prefix.take(j as int)[k].id@ == s.id@);
                    }
                }
                if dup && !state_ids_contain(prefix.take(j as int), s.id@) {
                    assert(p1[j as int].id@ == s.id@);
                }
            }
            j = j + 1;
        }
        assert(prefix.take(i as int) =~= prefix);
        if is_blank(s.id.as_str()) || is_blank(s.name.as_str()) || dup {
            proof {
                lemma_states_fault_prefix(states@, i + 1);
            }
            return Err(RoboticsError::InvalidControllerStateMachine);
        }
        i = i + 1;
    }
    assert(states@.take(n as int) =~= states@);
    Ok(())
}

fn has_state(states: &Vec<ControllerState>, id: &str) -> (b: bool)
    ensures
        b == state_ids_contain(states@, id@),
{
    let n = states.len();
    let mut i: usize = 0;
    while i < n
        invariant
            n == states@.len(),
            i <= n,
            forall|j: int| 0 <= j < i ==> states@[j].id@ != id@,
        decreases n - i,
    {
        if str_eq(states[i].id.as_str(), id) {
            assert(states@[i as int].id@ == id@);
            return true;
        }
        i = i + 1;
    }
    false
}

fn find_kind(signals: &Vec<SignalDefinition>, id: &str) -> (k: Option<SignalKind>)
    ensures
        k == kind_of(signals@, id@),
{
    let n = signals.len();
    let mut found: Option<SignalKind> = None;
    let mut i: usize = 0;
    while i < n
        invariant
            n == signals@.len(),
            i <= n,
            found == kind_of(signals@.take(i as int), id@),
        decreases n - i,
    {
        assert(signals@.take(i + 1).drop_last() =~= signals@.take(i as int));
        if str_eq(signals[i].id.as_str(), id) {
            found = Some(signals[i].kind);
        }
        i = i + 1;
    }
    assert(signals@.take(n as int) =~= signals@);
    found
}

fn check_conditions(
    transition_id: &String,
    signals: &Vec<SignalDefinition>,
    conditions: &Vec<SignalCondition>,
) -> (r: Result<(), RoboticsError>)
    ensures
        verdict(r, conditions_fault(transition_id@, signals@, conditions@)),
{
    let n = conditions.len();
    let mut i: usize = 0;
    while i < n
        invariant
            n == conditions@.len(),
            i <= n,
            conditions_fault(transition_id@, signals@, conditions@.take(i as int)) is None,
        decreases n - i,
    {
        assert(conditions@.take(i + 1).drop_last() =~= conditions@.take(i as int));
        let c = &conditions[i];
        match find_kind(signals, c.signal_id.as_str()) {
            None => {
                proof {
                    lemma_conditions_fault_prefix(transition_id@, signals@, conditions@, i + 1);
                }
                return Err(
                    RoboticsError::UnknownControllerSignal {
                        transition_id: transition_id.clone(),
                        signal_id: c.signal_id.clone(),
                    },
                );
            },
            Some(k) => {
                if !signal_value_matches_kind(&k, &c.expected_value) {
                    proof {
                    lemma_conditions_fault_prefix(transition_id@, signals@, conditions@, i + 1);
                }
                return Err(
                        RoboticsError::InvalidSignalValueForKind {
                            signal_id: c.signal_id.clone(),
                            expected_kind: k,
                            context: "condition.expectedValue",
                        },
                    );
                }
                if !signal_comparator_supported(&k, &c.comparator) {
                    proof {
                    lemma_conditions_fault_prefix(transition_id@, signals@, conditions@, i + 1);
                }
                return Err(
                        RoboticsError::InvalidSignalComparator {
                            transition_id: transition_id.clone(),
                            signal_id: c.signal_id.clone(),
                            comparator: c.comparator,
                            kind: k,
                        },
                    );
                }
            },
        }
        i = i + 1;
    }
    assert(conditions@.take(n as int) =~= conditions@);
    Ok(())
}

fn check_assignments(
    transition_id: &String,
    signals: &Vec<SignalDefinition>,
    assignments: &Vec<SignalAssignment>,
) -> (r: Result<(), RoboticsError>)
    ensures
        verdict(r, assignments_fault(transition_id@, signals@, assignments@)),
{
    let n = assignments.len();
    let mut i: usize = 0;
    while i < n
        invariant
            n == assignments@.len(),
            i <= n,
            assignments_fault(transition_id@, signals@, assignments@.take(i as int)) is None,
        decreases n - i,
    {
        assert(assignments@.take(i + 1).drop_last() =~= assignments@.take(i as int));
        let a = &assignments[i];
        match find_kind(signals, a.signal_id.as_str()) {
            None => {
                proof {
                    lemma_assignments_fault_prefix(transition_id@, signals@, assignments@, i + 1);
                }
                return Err(
                    RoboticsError::UnknownControllerSignal {
                        transition_id: transition_id.clone(),
                        signal_id: a.signal_id.clone(),
                    },
                );
            },
            Some(k) => {
                if !signal_value_matches_kind(&k, &a.value) {
                    proof {
                    lemma_assignments_fault_prefix(transition_id@, signals@, assignments@, i + 1);
                }
                return Err(
                        RoboticsError::InvalidSignalValueForKind {
                            signal_id: a.signal_id.clone(),
                            expected_kind: k,
                            context: "assignment.value",
                        },
                    );
                }
            },
        }
        i = i + 1;
    }
    assert(assignments@.take(n as int) =~= assignments@);
    Ok(())
}

fn check_transitions(
    transitions: &Vec<ControlTransition>,
    states: &Vec<ControllerState>,
    signals: &Vec<SignalDefinition>,
) -> (r: Result<(), RoboticsError>)
    ensures
        verdict(r, transitions_fault(transitions@, states@, signals@)),
{
    let n = transitions.len();
    let mut i: usize = 0;
    while i < n
        invariant
            n == transitions@.len(),
            i <= n,
            transitions_fault(transitions@.take(i as int), states@, signals@) is None,
        decreases n - i,
    {
        let ghost prefix = transitions@.take(i as int);
        assert(transitions@.take(i + 1).drop_last() =~= prefix);
        let t = &transitions[i];
        let mut dup = false;
        let mut j: usize = 0;
        while j < i
            invariant
                i < n,
                n == transitions@.len(),
                j <= i,
                prefix == transitions@.take(i as int),
                *t == transitions@[i as int],
                dup == transition_ids_contain(prefix.take(j as int), transitions@[i as int].id@),
            decreases i - j,
        {
            assert(prefix.take(j + 1) =~= prefix.take(j as int).push(prefix[j as int]));
            if str_eq(transitions[j].id.as_str(), t.id.as_str()) {
                dup = true;
            }
            proof {
                let p1 = prefix.take(j + 1);
                if transition_ids_contain(p1, t.id@) {
                    let k = choose|k: int| 0 <= k < p1.len() && #[trigger] p1[k].id@ == t.id@;
                    if k < j {
                        assert(prefix.take(j as int)[k].id@ == t.id@);
                    }
                }
                if dup && !transition_ids_contain(prefix.take(j as int), t.id@) {
                    assert(p1[j as int].id@ == t.id@);
                }
            }
            j = j + 1;
        }
        assert(prefix.take(i as int) =~= prefix);
        if is_blank(t.id.as_str()) || is_blank(t.from_state_id.as_str()) || is_blank(
            t.to_state_id.as_str(),
        ) || dup {
            proof {
                lemma_transitions_fault_prefix(transitions@, states@, signals@, i + 1);
            }
            return Err(RoboticsError::InvalidControllerStateMachine);
        }
        if !has_state(states, t.from_state_id.as_str()) {
            proof {
                lemma_transitions_fault_prefix(transitions@, states@, signals@, i + 1);
            }
            return Err(
                RoboticsError::UnknownControllerTransitionState {
                    transition_id: t.id.clone(),
                    state_id: t.from_state_id.clone(),
                },
            );
        }
        if !has_state(states, t.to_state_id.as_str()) {
            proof {
                lemma_transitions_fault_prefix(transitions@, states@, signals@, i + 1);
            }
            return Err(
                RoboticsError::UnknownControllerTransitionState {
                    transition_id: t.id.clone(),
                    state_id: t.to_state_id.clone(),
                },
            );
        }
        match check_conditions(&t.id, signals, &t.conditions) {
            Err(e) => {
                proof {
                lemma_transitions_fault_prefix(transitions@, states@, signals@, i + 1);
            }
            return Err(e);
            },
            Ok(()) => {},
        }
        match check_assignments(&t.id, signals, &t.assignments) {
            Err(e) => {
                proof {
                lemma_transitions_fault_prefix(transitions@, states@, signals@, i + 1);
            }
            return Err(e);
            },
            Ok(()) => {},
        }
        i = i + 1;
    }
    assert(transitions@.take(n as int) =~= transitions@);
    Ok(())
}

/// Checks the control model of a cell; the error names the first defect met.
pub fn validate_robot_cell_control(control: &RobotCellControlModel) -> (r: Result<(), RoboticsError>)
    ensures
        verdict(r, control_fault(*control)),
        r is Ok <==> control_fault(*control) is None,
{
    let ctrl = &control.controller;
    if is_blank(control.cell_id.as_str()) || is_blank(ctrl.id.as_str()) || is_blank(ctrl.name.as_str())
        || control.signals.len() == 0 {
        return Err(RoboticsError::InvalidRobotCellControlModel);
    }
    match check_signals(&control.signals) {
        Err(e) => {
            return Err(e);
        },
        Ok(()) => {},
    }
    if is_blank(ctrl.initial_state_id.as_str()) || ctrl.states.len() == 0 {
        return Err(RoboticsError::InvalidControllerStateMachine);
    }
    match check_states(&ctrl.states) {
        Err(e) => {
            return Err(e);
        },
        Ok(()) => {},
    }
    if !has_state(&ctrl.states, ctrl.initial_state_id.as_str()) {
        return Err(RoboticsError::UnknownInitialControllerState(ctrl.initial_state_id.clone()));
    }
    check_transitions(&ctrl.transitions, &ctrl.states, &control.signals)
}


/// The first state of `states` from position `i` on whose id is `id`.
pub open spec fn state_from(states: Seq<ControllerState>, id: Seq<char>, i: int) -> Option<ControllerState>
    decreases states.len() - i,
{
    if i < 0 || i >= states.len() {
        None
    } else if states[i].id@ == id {
        Some(states[i])
    } else {
        state_from(states, id, i + 1)
    }
}

/// The first state of `states` whose id is `id`.
pub open spec fn state_with_id(states: Seq<ControllerState>, id: Seq<char>) -> Option<ControllerState> {
    state_from(states, id, 0)
}

pub proof fn lemma_state_from_exists(states: Seq<ControllerState>, id: Seq<char>, i: int)
    requires
        0 <= i,
    ensures
        state_from(states, id, i) is Some <==> exists|j: int| i <= j < states.len() && #[trigger] states[j].id@ == id,
        state_from(states, id, i) matches Some(st) ==> st.id@ == id,
    decreases states.len() - i,
{
    if i < states.len() {
        lemma_state_from_exists(states, id, i + 1);
        if exists|j: int| i <= j < states.len() && #[trigger] states[j].id@ == id {
            let j = choose|j: int| i <= j < states.len() && #[trigger] states[j].id@ == id;
            if j > i && states[i].id@ != id {
                assert(i + 1 <= j);
            }
        }
    }
}

/// The first state of `states` whose id is `id`, cloned.
pub fn find_state(states: &Vec<ControllerState>, id: &str) -> (r: Option<ControllerState>)
    ensures
        r == state_with_id(states@, id@),
{
    let n = states.len();
    let mut i: usize = 0;
    while i < n
        invariant
            n == states@.len(),
            i <= n,
            state_with_id(states@, id@) == state_from(states@, id@, i as int),
        decreases n - i,
    {
        if str_eq(states[i].id.as_str(), id) {
            return Some(states[i].clone());
        }
        i = i + 1;
    }
    None
}

/// The state the controller starts in.
pub fn resolve_initial_control_state(control: &RobotCellControlModel) -> (r: Result<ControllerState, RoboticsError>)
    ensures
        match state_with_id(control.controller.states@, control.controller.initial_state_id@) {
            Some(st) => r == Ok::<ControllerState, RoboticsError>(st),
            None => r matches Err(RoboticsError::UnknownInitialControllerState(id))
                && id@ == control.controller.initial_state_id@,
        },
{
    match find_state(&control.controller.states, control.controller.initial_state_id.as_str()) {
        Some(st) => Ok(st),
        None => Err(RoboticsError::UnknownInitialControllerState(control.controller.initial_state_id.clone())),
    }
}

/// The state `transition` leads to.
pub fn resolve_control_transition_state(
    controller: &ControllerStateMachine,
    transition: &ControlTransition,
) -> (r: Result<ControllerState, RoboticsError>)
    ensures
        match state_with_id(controller.states@, transition.to_state_id@) {
            Some(st) => r == Ok::<ControllerState, RoboticsError>(st),
            None => r matches Err(RoboticsError::UnknownControllerTransitionState { transition_id, state_id })
                && transition_id@ == transition.id@ && state_id@ == transition.to_state_id@,
        },
{
    match find_state(&controller.states, transition.to_state_id.as_str()) {
        Some(st) => Ok(st),
        None => Err(
            RoboticsError::UnknownControllerTransitionState {
                transition_id: transition.id.clone(),
                state_id: transition.to_state_id.clone(),
            },
        ),
    }
}

/// `t` leaves `state_id` and all its guards hold.
pub open spec fn transition_enabled(t: ControlTransition, state_id: Seq<char>, values: Map<Seq<char>, SignalValue>) -> bool {
    t.from_state_id@ == state_id && all_hold(t.conditions@, values)
}

/// Position of the first transition from position `i` on that is enabled.
pub open spec fn enabled_from(
    ts: Seq<ControlTransition>,
    state_id: Seq<char>,
    values: Map<Seq<char>, SignalValue>,
    i: int,
) -> Option<int>
    decreases ts.len() - i,
{
    if i < 0 || i >= ts.len() {
        None
    } else if transition_enabled(ts[i], state_id, values) {
        Some(i)
    } else {
        enabled_from(ts, state_id, values, i + 1)
    }
}

/// Position of the first transition that is enabled.
pub open spec fn first_enabled(
    ts: Seq<ControlTransition>,
    state_id: Seq<char>,
    values: Map<Seq<char>, SignalValue>,
) -> Option<int> {
    enabled_from(ts, state_id, values, 0)
}

proof fn lemma_enabled_from_range(
    ts: Seq<ControlTransition>,
    state_id: Seq<char>,
    values: Map<Seq<char>, SignalValue>,
    i: int,
)
    requires
        0 <= i,
    ensures
        enabled_from(ts, state_id, values, i) matches Some(k) ==> i <= k < ts.len()
            && transition_enabled(ts[k], state_id, values)
            && forall|j: int| i <= j < k ==> !transition_enabled(#[trigger] ts[j], state_id, values),
        enabled_from(ts, state_id, values, i) is None ==> forall|j: int|
            i <= j < ts.len() ==> !transition_enabled(#[trigger] ts[j], state_id, values),
    decreases ts.len() - i,
{
    if i < ts.len() {
        lemma_enabled_from_range(ts, state_id, values, i + 1);
    }
}

/// Position of the first transition of `ts` that leaves `current_state_id`
/// with all its guards holding on `signal_values`.
pub fn first_enabled_transition(
    ts: &Vec<ControlTransition>,
    current_state_id: &str,
    signal_values: &SignalValues,
) -> (r: Option<usize>)
    requires
        signal_values.wf(),
    ensures
        match r {
            Some(k) => first_enabled(ts@, current_state_id@, signal_values@) == Some(k as int) && k < ts@.len(),
            None => first_enabled(ts@, current_state_id@, signal_values@) is None,
        },
{
    let n = ts.len();
    let mut i: usize = 0;
    while i < n
        invariant
            n == ts@.len(),
            i <= n,
            signal_values.wf(),
            first_enabled(ts@, current_state_id@, signal_values@) == enabled_from(ts@, current_state_id@, signal_values@, i as int),
        decreases n - i,
    {
        if str_eq(ts[i].from_state_id.as_str(), current_state_id) && all_conditions_match(
            ts[i].conditions.as_slice(),
            signal_values,
        ) {
            assert(transition_enabled(ts@[i as int], current_state_id@, signal_values@));
            assert(enabled_from(ts@, current_state_id@, signal_values@, i as int) == Some(i as int));
            return Some(i);
        }
        i = i + 1;
    }
    None
}

/// The first transition out of `current_state_id` whose guards all hold.
pub fn enabled_control_transition<'a>(
    control: &'a RobotCellControlModel,
    current_state_id: &str,
    signal_values: &SignalValues,
) -> (r: Option<&'a ControlTransition>)
    requires
        signal_values.wf(),
    ensures
        match first_enabled(control.controller.transitions@, current_state_id@, signal_values@) {
            Some(k) => r matches Some(t) && *t == control.controller.transitions@[k],
            None => r is None,
        },
{
    match first_enabled_transition(&control.controller.transitions, current_state_id, signal_values) {
        Some(i) => Some(&control.controller.transitions[i]),
        None => None,
    }
}

/// The state the dry run stops in: from `state`, follow the first enabled
/// transition at most `fuel` times, stopping early in a terminal state or
/// when no transition is enabled.
pub open spec fn run_from(
    c: RobotCellControlModel,
    values: Map<Seq<char>, SignalValue>,
    state: ControllerState,
    fuel: nat,
) -> ControllerState
    decreases fuel,
{
    if state.terminal || fuel == 0 {
        state
    } else {
        match first_enabled(c.controller.transitions@, state.id@, values) {
            None => state,
            Some(k) => {
                let t = c.controller.transitions@[k];
                match state_with_id(c.controller.states@, t.to_state_id@) {
                    Some(next) => run_from(c, assign_all(values, t.assignments@), next, (fuel - 1) as nat),
                    None => state,
                }
            },
        }
    }
}

/// The step budget of the dry run.
pub open spec fn step_budget(c: RobotCellControlModel) -> nat {
    (c.controller.transitions@.len() + c.controller.states@.len() + 1) as nat
}

/// The state the dry run of a valid control model stops in.
pub open spec fn dry_run_state(c: RobotCellControlModel) -> ControllerState {
    run_from(
        c,
        initial_values(c.signals@),
        state_with_id(c.controller.states@, c.controller.initial_state_id@).unwrap(),
        step_budget(c),
    )
}

/// The summary that the dry run of a valid model yields.
pub open spec fn summary_of(c: RobotCellControlModel, s: RobotCellControlSummary) -> bool {
    let fin = dry_run_state(c);
    &&& s.signal_count == c.signals@.len()
    &&& s.controller_transition_count == c.controller.transitions@.len()
    &&& s.blocked_sequence_detected == !fin.terminal
    &&& if fin.terminal {
        s.blocked_state_id is None
    } else {
        s.blocked_state_id matches Some(id) && id@ == fin.id@
    }
}

proof fn lemma_valid_targets_exist(ts: Seq<ControlTransition>, st: Seq<ControllerState>, sig: Seq<SignalDefinition>)
    requires
        transitions_fault(ts, st, sig) is None,
    ensures
        forall|k: int| 0 <= k < ts.len() ==> state_ids_contain(st, #[trigger] ts[k].to_state_id@),
    decreases ts.len(),
{
    if ts.len() > 0 {
        lemma_valid_targets_exist(ts.drop_last(), st, sig);
        assert forall|k: int| 0 <= k < ts.len() implies state_ids_contain(st, #[trigger] ts[k].to_state_id@) by {
            if k < ts.len() - 1 {
                assert(ts.drop_last()[k] == ts[k]);
            }
        }
    }
}

/// Validates the control model, then dry-runs the controller from its
/// initial state and initial signal values and reports whether it gets
/// stuck before a terminal state.
pub fn summarize_robot_cell_control(control: &RobotCellControlModel) -> (r: Result<RobotCellControlSummary, RoboticsError>)
    requires
        control.controller.transitions@.len() + control.controller.states@.len() + 1 <= usize::MAX,
    ensures
        r is Ok <==> control_fault(*control) is None,
        r matches Err(e) ==> control_fault(*control) matches Some(f) && fault_matches(e, f),
        r matches Ok(s) ==> summary_of(*control, s),
        r matches Ok(s) ==> (s.blocked_sequence_detected <==> s.blocked_state_id is Some),
{
    match validate_robot_cell_control(control) {
        Err(e) => {
            return Err(e);
        },
        Ok(()) => {},
    }
    let ghost c = *control;
    proof {
        lemma_valid_targets_exist(control.controller.transitions@, control.controller.states@, control.signals@);
        lemma_state_from_exists(control.controller.states@, control.controller.initial_state_id@, 0);
    }
    let mut signal_values = control_signal_values(control.signals.as_slice());
    let mut current = match resolve_initial_control_state(control) {
        Ok(st) => st,
        Err(e) => {
            return Err(e);
        },
    };
    let max_steps = control.controller.transitions.len() + control.controller.states.len() + 1;
    let mut steps: usize = 0;
    while !current.terminal && steps < max_steps
        invariant
            c == *control,
            control_fault(c) is None,
            forall|k: int|
                0 <= k < control.controller.transitions@.len() ==> state_ids_contain(
                    control.controller.states@,
                    #[trigger] control.controller.transitions@[k].to_state_id@,
                ),
            max_steps == step_budget(c),
            steps <= max_steps,
            signal_values.wf(),
            dry_run_state(c) == run_from(c, signal_values@, current, (max_steps - steps) as nat),
        ensures
            dry_run_state(c) == current,
        decreases max_steps - steps,
    {
        let k = match first_enabled_transition(&control.controller.transitions, current.id.as_str(), &signal_values) {
            None => {
                assert(run_from(c, signal_values@, current, (max_steps - steps) as nat) == current);
                break;
            },
            Some(k) => k,
        };
        let transition = &control.controller.transitions[k];
        let ghost before = signal_values@;
        apply_control_assignments(&mut signal_values, transition.assignments.as_slice());
        proof {
            lemma_state_from_exists(control.controller.states@, transition.to_state_id@, 0);
        }
        current = match resolve_control_transition_state(&control.controller, transition) {
            Ok(st) => st,
            Err(e) => {
                return Err(e);
            },
        };
        steps = steps + 1;
    }
    let blocked = !current.terminal;
    let blocked_state_id = if blocked {
        Some(current.id.clone())
    } else {
        None
    };
    Ok(
        RobotCellControlSummary {
            signal_count: control.signals.len(),
            controller_transition_count: control.controller.transitions.len(),
            blocked_sequence_detected: blocked,
            blocked_state_id,
        },
    )
}

/// A point in millimetres; each coordinate is the bit pattern of an `f64`.
#[derive(Debug, Clone, Copy, PartialEq, Eq, Default)]
pub struct CartesianPose {
    pub x_mm: u64,
    pub y_mm: u64,
    pub z_mm: u64,
}

pub open spec fn pose_finite(p: CartesianPose) -> bool {
    is_finite(p.x_mm) && is_finite(p.y_mm) && is_finite(p.z_mm)
}

fn pose_is_finite(p: &CartesianPose) -> (b: bool)
    ensures
        b == pose_finite(*p),
{
    bits_is_finite(p.x_mm) && bits_is_finite(p.y_mm) && bits_is_finite(p.z_mm)
}

/// Reach of a robot; each length is the bit pattern of an `f64`.
#[derive(Debug, Clone, Copy, PartialEq, Eq)]
pub struct RobotWorkspaceBounds {
    pub reach_radius_mm: u64,
    pub vertical_span_mm: u64,
}

/// Payload limits of a robot; each mass is the bit pattern of an `f64`.
#[derive(Debug, Clone, Copy, PartialEq, Eq)]
pub struct RobotPayloadLimits {
    pub nominal_kg: u64,
    pub max_kg: u64,
}

#[derive(Debug, Clone, PartialEq, Eq)]
pub struct RobotModel {
    pub id: String,
    pub cell_id: String,
    pub kinematic_chain: Vec<String>,
    pub joint_ids: Vec<String>,
    pub tool_mount_ref: RobotToolMountRef,
    pub workspace_bounds: RobotWorkspaceBounds,
    pub payload_limits: RobotPayloadLimits,
    pub calibration_state: String,
}

/// Dimensions of a piece of equipment; each length is the bit pattern of an `f64`.
#[derive(Debug, Clone, Copy, PartialEq, Eq)]
pub struct EquipmentParameterSet {
    pub width_mm: u64,
    pub height_mm: u64,
    pub depth_mm: u64,
    pub nominal_speed_mm_s: Option<u32>,
}

#[derive(Debug, Clone, PartialEq, Eq)]
pub struct EquipmentModel {
    pub id: String,
    pub cell_id: String,
    pub equipment_type: EquipmentType,
    pub assembly_occurrence_id: String,
    pub parameter_set: EquipmentParameterSet,
    pub io_port_ids: Vec<String>,
}

/// A robot path of the cell; the length is the bit pattern of an `f64`.
#[derive(Debug, Clone, PartialEq, Eq)]
pub struct RobotSequenceModel {
    pub id: String,
    pub cell_id: String,
    pub robot_id: String,
    pub target_ids: Vec<String>,
    pub path_length_mm: u64,
    pub estimated_cycle_time_ms: u32,
}

/// A target of a robot sequence as stored in the project.
#[derive(Debug, Clone, PartialEq, Eq)]
pub struct RobotTargetModel {
    pub id: String,
    pub cell_id: String,
    pub sequence_id: String,
    pub target_key: String,
    pub order_index: u32,
    pub pose: CartesianPose,
    pub nominal_speed_mm_s: u32,
    pub dwell_time_ms: u32,
}

/// A target as the sequence validation reads it.
#[derive(Debug, Clone, PartialEq, Eq)]
pub struct RobotTarget {
    pub id: String,
    pub pose: CartesianPose,
    pub nominal_speed_mm_s: u32,
    pub dwell_time_ms: u32,
}

pub open spec fn ids(s: Seq<String>) -> Seq<Seq<char>> {
    s.map_values(|x: String| x@)
}

/// Every id is non-empty and none repeats.
pub open spec fn ids_unique_spec(s: Seq<String>) -> bool {
    &&& forall|i: int| 0 <= i < s.len() ==> (#[trigger] s[i])@.len() > 0
    &&& ids(s).no_duplicates()
}

/// The two lists hold the same ids, ignoring order and repetition.
pub open spec fn same_id_set_spec(expected: Seq<String>, actual: Seq<Seq<char>>) -> bool {
    ids(expected).to_set() == actual.to_set()
}

fn ids_are_unique(s: &Vec<String>) -> (b: bool)
    ensures
        b == ids_unique_spec(s@),
{
    let n = s.len();
    let mut i: usize = 0;
    while i < n
        invariant
            n == s@.len(),
            i <= n,
            forall|k: int| 0 <= k < i ==> (#[trigger] s@[k])@.len() > 0,
            forall|a: int, b: int| 0 <= a < b < i ==> ids(s@)[a] != ids(s@)[b],
        decreases n - i,
    {
        if s[i].as_str().unicode_len() == 0 {
            return false;
        }
        let mut j: usize = 0;
        while j < i
            invariant
                n == s@.len(),
                i < n,
                j <= i,
                forall|a: int| 0 <= a < j ==> ids(s@)[a] != ids(s@)[i as int],
            decreases i - j,
        {
            if str_eq(s[j].as_str(), s[i].as_str()) {
                assert(ids(s@)[j as int] == ids(s@)[i as int]);
                return false;
            }
            j = j + 1;
        }
        i = i + 1;
    }
    true
}

fn contains_id(s: &Vec<String>, x: &str) -> (b: bool)
    ensures
        b == ids(s@).contains(x@),
{
    let n = s.len();
    let mut i: usize = 0;
    while i < n
        invariant
            n == s@.len(),
            i <= n,
            forall|k: int| 0 <= k < i ==> ids(s@)[k] != x@,
        decreases n - i,
    {
        if str_eq(s[i].as_str(), x) {
            assert(ids(s@)[i as int] == x@);
            return true;
        }
        i = i + 1;
    }
    false
}

fn same_id_set(expected: &Vec<String>, actual: &Vec<String>) -> (b: bool)
    ensures
        b == same_id_set_spec(expected@, ids(actual@)),
{
    let n = expected.len();
    let mut i: usize = 0;
    while i < n
        invariant
            n == expected@.len(),
            i <= n,
            forall|k: int| 0 <= k < i ==> ids(actual@).contains(#[trigger] ids(expected@)[k]),
        decreases n - i,
    {
        if !contains_id(actual, expected[i].as_str()) {
            proof {
                assert(ids(expected@).to_set().contains(ids(expected@)[i as int]));
                assert(!ids(actual@).to_set().contains(ids(expected@)[i as int]));
            }
            return false;
        }
        i = i + 1;
    }
    let m = actual.len();
    let mut j: usize = 0;
    while j < m
        invariant
            m == actual@.len(),
            n == expected@.len(),
            j <= m,
            forall|k: int| 0 <= k < n ==> ids(actual@).contains(#[trigger] ids(expected@)[k]),
            forall|k: int| 0 <= k < j ==> ids(expected@).contains(#[trigger] ids(actual@)[k]),
        decreases m - j,
    {
        if !contains_id(expected, actual[j].as_str()) {
            proof {
                assert(ids(actual@).to_set().contains(ids(actual@)[j as int]));
                assert(!ids(expected@).to_set().contains(ids(actual@)[j as int]));
            }
            return false;
        }
        j = j + 1;
    }
    proof {
        assert forall|x: Seq<char>| ids(expected@).to_set().contains(x) <==> ids(actual@).to_set().contains(x) by {
            if ids(expected@).contains(x) {
                let k = choose|k: int| 0 <= k < ids(expected@).len() && ids(expected@)[k] == x;
                assert(ids(actual@).contains(ids(expected@)[k]));
            }
            if ids(actual@).contains(x) {
                let k = choose|k: int| 0 <= k < ids(actual@).len() && ids(actual@)[k] == x;
                assert(ids(expected@).contains(ids(actual@)[k]));
            }
        }
        assert(ids(expected@).to_set() =~= ids(actual@).to_set());
    }
    true
}

/// The cell declares a scene and non-empty lists of unique, non-empty member ids.
pub open spec fn cell_valid(cell: RobotCellModel) -> bool {
    &&& cell.id@.len() > 0
    &&& cell.scene_assembly_id@.len() > 0
    &&& cell.robot_ids@.len() > 0
    &&& cell.equipment_ids@.len() > 0
    &&& cell.safety_zone_ids@.len() > 0
    &&& cell.sequence_ids@.len() > 0
    &&& cell.controller_model_ids@.len() > 0
    &&& ids_unique_spec(cell.robot_ids@)
    &&& ids_unique_spec(cell.equipment_ids@)
    &&& ids_unique_spec(cell.safety_zone_ids@)
    &&& ids_unique_spec(cell.sequence_ids@)
    &&& ids_unique_spec(cell.controller_model_ids@)
}

pub open spec fn robot_valid(cell: RobotCellModel, r: RobotModel) -> bool {
    &&& r.cell_id@ == cell.id@
    &&& r.kinematic_chain@.len() > 0
    &&& r.joint_ids@.len() > 0
    &&& r.tool_mount_ref.equipment_id@.len() > 0
    &&& r.tool_mount_ref.role@.len() > 0
    &&& finite_positive(r.workspace_bounds.reach_radius_mm)
    &&& finite_positive(r.workspace_bounds.vertical_span_mm)
    &&& finite_positive(r.payload_limits.nominal_kg)
    &&& is_finite(r.payload_limits.max_kg)
    &&& !f64_lt(r.payload_limits.max_kg, r.payload_limits.nominal_kg)
    &&& r.calibration_state@.len() > 0
}

pub open spec fn equipment_valid(cell: RobotCellModel, e: EquipmentModel) -> bool {
    &&& e.cell_id@ == cell.id@
    &&& e.assembly_occurrence_id@.len() > 0
    &&& finite_positive(e.parameter_set.width_mm)
    &&& finite_positive(e.parameter_set.height_mm)
    &&& finite_positive(e.parameter_set.depth_mm)
}

pub open spec fn sequence_valid(cell: RobotCellModel, q: RobotSequenceModel) -> bool {
    &&& q.cell_id@ == cell.id@
    &&& ids(cell.robot_ids@).contains(q.robot_id@)
    &&& q.target_ids@.len() > 0
    &&& finite_positive(q.path_length_mm)
    &&& q.estimated_cycle_time_ms != 0
}

/// The robots match the declared robot ids and are each valid.
pub open spec fn robots_valid(cell: RobotCellModel, robots: Seq<RobotModel>) -> bool {
    &&& robots.len() == cell.robot_ids@.len()
    &&& same_id_set_spec(cell.robot_ids@, robots.map_values(|r: RobotModel| r.id@))
    &&& forall|i: int| 0 <= i < robots.len() ==> robot_valid(cell, #[trigger] robots[i])
}

pub open spec fn equipment_set_valid(cell: RobotCellModel, equipment: Seq<EquipmentModel>) -> bool {
    &&& equipment.len() == cell.equipment_ids@.len()
    &&& same_id_set_spec(cell.equipment_ids@, equipment.map_values(|e: EquipmentModel| e.id@))
    &&& forall|i: int| 0 <= i < equipment.len() ==> equipment_valid(cell, #[trigger] equipment[i])
}

pub open spec fn sequences_valid(cell: RobotCellModel, sequences: Seq<RobotSequenceModel>) -> bool {
    &&& sequences.len() == cell.sequence_ids@.len()
    &&& same_id_set_spec(cell.sequence_ids@, sequences.map_values(|q: RobotSequenceModel| q.id@))
    &&& forall|i: int| 0 <= i < sequences.len() ==> sequence_valid(cell, #[trigger] sequences[i])
}

fn check_robot(cell: &RobotCellModel, r: &RobotModel) -> (b: bool)
    ensures
        b == robot_valid(*cell, *r),
{
    str_eq(r.cell_id.as_str(), cell.id.as_str()) && r.kinematic_chain.len() > 0 && r.joint_ids.len() > 0
        && r.tool_mount_ref.equipment_id.as_str().unicode_len() > 0
        && r.tool_mount_ref.role.as_str().unicode_len() > 0
        && bits_is_finite(r.workspace_bounds.reach_radius_mm) && !bits_le(r.workspace_bounds.reach_radius_mm, 0)
        && bits_is_finite(r.workspace_bounds.vertical_span_mm) && !bits_le(r.workspace_bounds.vertical_span_mm, 0)
        && bits_is_finite(r.payload_limits.nominal_kg) && !bits_le(r.payload_limits.nominal_kg, 0)
        && bits_is_finite(r.payload_limits.max_kg) && !bits_lt(r.payload_limits.max_kg, r.payload_limits.nominal_kg)
        && r.calibration_state.as_str().unicode_len() > 0
}

fn check_equipment(cell: &RobotCellModel, e: &EquipmentModel) -> (b: bool)
    ensures
        b == equipment_valid(*cell, *e),
{
    str_eq(e.cell_id.as_str(), cell.id.as_str()) && e.assembly_occurrence_id.as_str().unicode_len() > 0
        && bits_is_finite(e.parameter_set.width_mm) && !bits_le(e.parameter_set.width_mm, 0)
        && bits_is_finite(e.parameter_set.height_mm) && !bits_le(e.parameter_set.height_mm, 0)
        && bits_is_finite(e.parameter_set.depth_mm) && !bits_le(e.parameter_set.depth_mm, 0)
}

fn check_sequence_model(cell: &RobotCellModel, q: &RobotSequenceModel) -> (b: bool)
    ensures
        b == sequence_valid(*cell, *q),
{
    str_eq(q.cell_id.as_str(), cell.id.as_str()) && contains_id(&cell.robot_ids, q.robot_id.as_str())
        && q.target_ids.len() > 0 && bits_is_finite(q.path_length_mm) && !bits_le(q.path_length_mm, 0)
        && q.estimated_cycle_time_ms != 0
}

/// Checks that the robots, equipment and sequences match the cell's declared
/// members and are individually sound; errors name the first failing group.
pub fn validate_robot_cell_structure(
    cell: &RobotCellModel,
    robots: &[RobotModel],
    equipment: &[EquipmentModel],
    sequences: &[RobotSequenceModel],
) -> (r: Result<RobotCellStructureSummary, RoboticsError>)
    ensures
        match r {
            Ok(s) => cell_valid(*cell) && robots_valid(*cell, robots@) && equipment_set_valid(*cell, equipment@)
                && sequences_valid(*cell, sequences@) && s.robot_count == cell.robot_ids@.len()
                && s.equipment_count == cell.equipment_ids@.len() && s.safety_zone_count
                == cell.safety_zone_ids@.len() && s.sequence_count == cell.sequence_ids@.len()
                && s.controller_count == cell.controller_model_ids@.len(),
            Err(RoboticsError::InvalidRobotCellStructure) => !cell_valid(*cell),
            Err(RoboticsError::InvalidRobotModelSet) => cell_valid(*cell) && !robots_valid(*cell, robots@),
            Err(RoboticsError::InvalidEquipmentModelSet) => cell_valid(*cell) && robots_valid(*cell, robots@)
                && !equipment_set_valid(*cell, equipment@),
            Err(RoboticsError::InvalidRobotSequenceSet) => cell_valid(*cell) && robots_valid(*cell, robots@)
                && equipment_set_valid(*cell, equipment@) && !sequences_valid(*cell, sequences@),
            Err(_) => false,
        },
{
    if cell.id.as_str().unicode_len() == 0 || cell.scene_assembly_id.as_str().unicode_len() == 0
        || cell.robot_ids.len() == 0 || cell.equipment_ids.len() == 0 || cell.safety_zone_ids.len() == 0
        || cell.sequence_ids.len() == 0 || cell.controller_model_ids.len() == 0 || !ids_are_unique(&cell.robot_ids)
        || !ids_are_unique(&cell.equipment_ids) || !ids_are_unique(&cell.safety_zone_ids)
        || !ids_are_unique(&cell.sequence_ids) || !ids_are_unique(&cell.controller_model_ids) {
        return Err(RoboticsError::InvalidRobotCellStructure);
    }
    let mut robot_ids: Vec<String> = Vec::new();
    let mut all_robots_ok = true;
    let mut i: usize = 0;
    while i < robots.len()
        invariant
            i <= robots@.len(),
            ids(robot_ids@) == robots@.take(i as int).map_values(|r: RobotModel| r.id@),
            all_robots_ok == forall|k: int| 0 <= k < i ==> robot_valid(*cell, #[trigger] robots@[k]),
        decreases robots@.len() - i,
    {
        let ghost before = robot_ids@;
        robot_ids.push(robots[i].id.clone());
        assert(robot_ids@ == before.push(robots@[i as int].id));
        assert(ids(robot_ids@) =~= ids(before).push(robots@[i as int].id@));
        assert(robots@.take(i + 1).map_values(|r: RobotModel| r.id@) =~= robots@.take(i as int).map_values(|r: RobotModel| r.id@).push(robots@[i as int].id@));
        let ok = check_robot(cell, &robots[i]);
        proof {
            assert(ids(robot_ids@) =~= robots@.take(i + 1).map_values(|r: RobotModel| r.id@));
            if !ok {
                assert(!robot_valid(*cell, robots@[i as int]));
            }
        }
        all_robots_ok = all_robots_ok && ok;
        i = i + 1;
    }
    assert(robots@.take(robots@.len() as int) =~= robots@);
    if robots.len() != cell.robot_ids.len() || !same_id_set(&cell.robot_ids, &robot_ids) || !all_robots_ok {
        return Err(RoboticsError::InvalidRobotModelSet);
    }
    let mut equipment_ids: Vec<String> = Vec::new();
    let mut all_equipment_ok = true;
    let mut i: usize = 0;
    while i < equipment.len()
        invariant
            i <= equipment@.len(),
            ids(equipment_ids@) == equipment@.take(i as int).map_values(|e: EquipmentModel| e.id@),
            all_equipment_ok == forall|k: int| 0 <= k < i ==> equipment_valid(*cell, #[trigger] equipment@[k]),
        decreases equipment@.len() - i,
    {
        let ghost before = equipment_ids@;
        equipment_ids.push(equipment[i].id.clone());
        assert(equipment_ids@ == before.push(equipment@[i as int].id));
        assert(ids(equipment_ids@) =~= ids(before).push(equipment@[i as int].id@));
        assert(equipment@.take(i + 1).map_values(|e: EquipmentModel| e.id@) =~= equipment@.take(i as int).map_values(|e: EquipmentModel| e.id@).push(equipment@[i as int].id@));
        let ok = check_equipment(cell, &equipment[i]);
        proof {
            assert(ids(equipment_ids@) =~= equipment@.take(i + 1).map_values(|e: EquipmentModel| e.id@));
            if !ok {
                assert(!equipment_valid(*cell, equipment@[i as int]));
            }
        }
        all_equipment_ok = all_equipment_ok && ok;
        i = i + 1;
    }
    assert(equipment@.take(equipment@.len() as int) =~= equipment@);
    if equipment.len() != cell.equipment_ids.len() || !same_id_set(&cell.equipment_ids, &equipment_ids)
        || !all_equipment_ok {
        return Err(RoboticsError::InvalidEquipmentModelSet);
    }
    let mut sequence_ids: Vec<String> = Vec::new();
    let mut all_sequences_ok = true;
    let mut i: usize = 0;
    while i < sequences.len()
        invariant
            i <= sequences@.len(),
            ids(sequence_ids@) == sequences@.take(i as int).map_values(|q: RobotSequenceModel| q.id@),
            all_sequences_ok == forall|k: int| 0 <= k < i ==> sequence_valid(*cell, #[trigger] sequences@[k]),
        decreases sequences@.len() - i,
    {
        let ghost before = sequence_ids@;
        sequence_ids.push(sequences[i].id.clone());
        assert(sequence_ids@ == before.push(sequences@[i as int].id));
        assert(ids(sequence_ids@) =~= ids(before).push(sequences@[i as int].id@));
        assert(sequences@.take(i + 1).map_values(|q: RobotSequenceModel| q.id@) =~= sequences@.take(i as int).map_values(|q: RobotSequenceModel| q.id@).push(sequences@[i as int].id@));
        let ok = check_sequence_model(cell, &sequences[i]);
        proof {
            assert(ids(sequence_ids@) =~= sequences@.take(i + 1).map_values(|q: RobotSequenceModel| q.id@));
            if !ok {
                assert(!sequence_valid(*cell, sequences@[i as int]));
            }
        }
        all_sequences_ok = all_sequences_ok && ok;
        i = i + 1;
    }
    assert(sequences@.take(sequences@.len() as int) =~= sequences@);
    if sequences.len() != cell.sequence_ids.len() || !same_id_set(&cell.sequence_ids, &sequence_ids)
        || !all_sequences_ok {
        return Err(RoboticsError::InvalidRobotSequenceSet);
    }
    Ok(
        RobotCellStructureSummary {
            robot_count: cell.robot_ids.len(),
            equipment_count: cell.equipment_ids.len(),
            safety_zone_count: cell.safety_zone_ids.len(),
            sequence_count: cell.sequence_ids.len(),
            controller_count: cell.controller_model_ids.len(),
        },
    )
}

/// The scope and fields of a target model are sound.
pub open spec fn target_fields_ok(cell_id: Seq<char>, sequence_id: Seq<char>, t: RobotTargetModel) -> bool {
    &&& t.id@.len() > 0
    &&& t.cell_id@ == cell_id
    &&& t.sequence_id@ == sequence_id
    &&& t.target_key@.len() > 0
    &&& t.order_index != 0
    &&& t.nominal_speed_mm_s != 0
}

/// Every target model is sound and ids, keys and order indexes are unique.
pub open spec fn target_models_ok(cell_id: Seq<char>, sequence_id: Seq<char>, ts: Seq<RobotTargetModel>) -> bool {
    &&& forall|i: int| 0 <= i < ts.len() ==> target_fields_ok(cell_id, sequence_id, #[trigger] ts[i])
    &&& forall|a: int, b: int|
        0 <= a < b < ts.len() ==> (#[trigger] ts[a]).id@ != (#[trigger] ts[b]).id@ && ts[a].target_key@
            != ts[b].target_key@ && ts[a].order_index != ts[b].order_index
}

/// `t` is the sequence target read from the model `m`.
pub open spec fn target_of(m: RobotTargetModel, t: RobotTarget) -> bool {
    &&& t.id@ == m.target_key@
    &&& t.pose == m.pose
    &&& t.nominal_speed_mm_s == m.nominal_speed_mm_s
    &&& t.dwell_time_ms == m.dwell_time_ms
}

/// `p` lists every position of `0..n` once.
pub open spec fn is_permutation(p: Seq<int>, n: nat) -> bool {
    &&& p.len() == n
    &&& forall|k: int| 0 <= k < n ==> 0 <= #[trigger] p[k] < n
    &&& forall|a: int, b: int| 0 <= a < b < n ==> #[trigger] p[a] != #[trigger] p[b]
}

/// `out` holds the targets of `ts` in increasing order index.
pub open spec fn ordered_targets(ts: Seq<RobotTargetModel>, out: Seq<RobotTarget>) -> bool {
    exists|p: Seq<int>|
        #![trigger is_permutation(p, ts.len())]
        is_permutation(p, ts.len()) && out.len() == ts.len() && (forall|a: int, b: int|
            0 <= a < b < ts.len() ==> ts[#[trigger] p[a]].order_index < ts[#[trigger] p[b]].order_index)
            && (forall|k: int| 0 <= k < ts.len() ==> target_of(ts[p[k]], #[trigger] out[k]))
}

fn target_models_sound(cell_id: &str, sequence_id: &str, ts: &[RobotTargetModel]) -> (b: bool)
    ensures
        b == target_models_ok(cell_id@, sequence_id@, ts@),
{
    let n = ts.len();
    let mut i: usize = 0;
    while i < n
        invariant
            n == ts@.len(),
            i <= n,
            forall|k: int| 0 <= k < i ==> target_fields_ok(cell_id@, sequence_id@, #[trigger] ts@[k]),
            forall|a: int, b: int|
                0 <= a < b < i ==> (#[trigger] ts@[a]).id@ != (#[trigger] ts@[b]).id@ && ts@[a].target_key@
                    != ts@[b].target_key@ && ts@[a].order_index != ts@[b].order_index,
        decreases n - i,
    {
        let t = &ts[i];
        if t.id.as_str().unicode_len() == 0 || !str_eq(t.cell_id.as_str(), cell_id) || !str_eq(
            t.sequence_id.as_str(),
            sequence_id,
        ) || t.target_key.as_str().unicode_len() == 0 || t.order_index == 0 || t.nominal_speed_mm_s == 0 {
            assert(!target_fields_ok(cell_id@, sequence_id@, ts@[i as int]));
            return false;
        }
        let mut j: usize = 0;
        while j < i
            invariant
                n == ts@.len(),
                i < n,
                j <= i,
                forall|a: int|
                    0 <= a < j ==> (#[trigger] ts@[a]).id@ != ts@[i as int].id@ && ts@[a].target_key@
                        != ts@[i as int].target_key@ && ts@[a].order_index != ts@[i as int].order_index,
            decreases i - j,
        {
            if str_eq(ts[j].id.as_str(), ts[i].id.as_str()) || str_eq(ts[j].target_key.as_str(), ts[i].target_key.as_str())
                || ts[j].order_index == ts[i].order_index {
                assert(!((ts@[j as int]).id@ != (ts@[i as int]).id@ && ts@[j as int].target_key@
                    != ts@[i as int].target_key@ && ts@[j as int].order_index != ts@[i as int].order_index));
                return false;
            }
            j = j + 1;
        }
        i = i + 1;
    }
    true
}

/// Validates the target models of one sequence and returns them as sequence
/// targets in increasing order index.
pub fn validate_target_models(
    cell_id: &str,
    sequence_id: &str,
    target_models: &[RobotTargetModel],
) -> (r: Result<Vec<RobotTarget>, RoboticsError>)
    ensures
        match r {
            Ok(out) => target_models@.len() > 0 && target_models_ok(cell_id@, sequence_id@, target_models@)
                && (forall|i: int| 0 <= i < target_models@.len() ==> pose_finite(#[trigger] target_models@[i].pose))
                && ordered_targets(target_models@, out@),
            Err(RoboticsError::EmptySequence) => target_models@.len() == 0,
            Err(RoboticsError::InvalidRobotTargetModelSet) => target_models@.len() > 0 && !target_models_ok(
                cell_id@,
                sequence_id@,
                target_models@,
            ),
            Err(RoboticsError::InvalidPose) => target_models@.len() > 0 && target_models_ok(cell_id@, sequence_id@, target_models@)
                && exists|i: int| 0 <= i < target_models@.len() && !pose_finite(#[trigger] target_models@[i].pose),
            Err(_) => false,
        },
{
    let n = target_models.len();
    if n == 0 {
        return Err(RoboticsError::EmptySequence);
    }
    if !target_models_sound(cell_id, sequence_id, target_models) {
        return Err(RoboticsError::InvalidRobotTargetModelSet);
    }
    let mut i: usize = 0;
    while i < n
        invariant
            n == target_models@.len(),
            n > 0,
            target_models_ok(cell_id@, sequence_id@, target_models@),
            i <= n,
            forall|k: int| 0 <= k < i ==> pose_finite(#[trigger] target_models@[k].pose),
        decreases n - i,
    {
        if !pose_is_finite(&target_models[i].pose) {
            assert(!pose_finite(target_models@[i as int].pose));
            return Err(RoboticsError::InvalidPose);
        }
        i = i + 1;
    }
    let ghost ts = target_models@;
    let mut idx: Vec<usize> = Vec::new();
    let mut k: usize = 0;
    while k < n
        invariant
            n == ts.len(),
            k <= n,
            idx@.len() == k,
            forall|a: int| 0 <= a < k ==> #[trigger] idx@[a] == a,
        decreases n - k,
    {
        idx.push(k);
        k = k + 1;
    }
    let mut i: usize = 0;
    while i < n
        invariant
            n == ts.len(),
            ts == target_models@,
            target_models_ok(cell_id@, sequence_id@, ts),
            i <= n,
            idx@.len() == n,
            forall|a: int| 0 <= a < n ==> #[trigger] idx@[a] < n,
            forall|a: int, b: int| 0 <= a < b < n ==> #[trigger] idx@[a] != #[trigger] idx@[b],
            forall|a: int, b: int|
                0 <= a < b < i ==> ts[#[trigger] idx@[a] as int].order_index < ts[#[trigger] idx@[b] as int].order_index,
            forall|a: int, b: int|
                0 <= a < i <= b < n ==> ts[#[trigger] idx@[a] as int].order_index < ts[#[trigger] idx@[b] as int].order_index,
        decreases n - i,
    {
        let mut m: usize = i;
        let mut j: usize = i + 1;
        while j < n
            invariant
                n == ts.len(),
                ts == target_models@,
                idx@.len() == n,
                forall|a: int| 0 <= a < n ==> #[trigger] idx@[a] < n,
                i <= m < n,
                i < j <= n,
                forall|b: int| i <= b < j ==> ts[idx@[m as int] as int].order_index <= ts[#[trigger] idx@[b] as int].order_index,
            decreases n - j,
        {
            if target_models[idx[j]].order_index < target_models[idx[m]].order_index {
                m = j;
            }
            j = j + 1;
        }
        let a_val = idx[i];
        let b_val = idx[m];
        let ghost before = idx@;
        idx.set(i, b_val);
        idx.set(m, a_val);
        proof {
            assert forall|a: int, b: int| 0 <= a < b < n implies #[trigger] idx@[a] != #[trigger] idx@[b] by {
                let a0 = if a == i { m as int } else if a == m { i as int } else { a };
                let b0 = if b == i { m as int } else if b == m { i as int } else { b };
                assert(idx@[a] == before[a0]);
                assert(idx@[b] == before[b0]);
                assert(a0 != b0);
            }
            assert forall|a: int, b: int|
                0 <= a < i + 1 <= b < n implies ts[#[trigger] idx@[a] as int].order_index < ts[#[trigger] idx@[b] as int].order_index by {
                let b0 = if b == m { i as int } else { b };
                assert(idx@[b] == before[b0]);
                if a < i {
                    assert(idx@[a] == before[a]);
                } else {
                    assert(idx@[a] == before[m as int]);
                    assert(ts[before[m as int] as int].order_index <= ts[before[b0] as int].order_index);
                    assert(before[m as int] != before[b0]);
                }
            }
            assert forall|a: int, b: int|
                0 <= a < b < i + 1 implies ts[#[trigger] idx@[a] as int].order_index < ts[#[trigger] idx@[b] as int].order_index by {
                assert(idx@[a] == before[a]);
                if b < i {
                    assert(idx@[b] == before[b]);
                } else {
                    assert(idx@[b] == before[m as int]);
                }
            }
        }
        i = i + 1;
    }
    let mut out: Vec<RobotTarget> = Vec::new();
    let mut k: usize = 0;
    while k < n
        invariant
            n == ts.len(),
            ts == target_models@,
            idx@.len() == n,
            forall|a: int| 0 <= a < n ==> #[trigger] idx@[a] < n,
            k <= n,
            out@.len() == k,
            forall|c: int| 0 <= c < k ==> target_of(ts[idx@[c] as int], #[trigger] out@[c]),
        decreases n - k,
    {
        let m = &target_models[idx[k]];
        out.push(
            RobotTarget {
                id: m.target_key.clone(),
                pose: m.pose,
                nominal_speed_mm_s: m.nominal_speed_mm_s,
                dwell_time_ms: m.dwell_time_ms,
            },
        );
        k = k + 1;
    }
    proof {
        let p = idx@.map_values(|x: usize| x as int);
        assert(is_permutation(p, ts.len()));
        assert forall|k: int| 0 <= k < ts.len() implies target_of(ts[p[k]], #[trigger] out@[k]) by {
            assert(p[k] == idx@[k] as int);
        }
        assert forall|a: int, b: int| 0 <= a < b < ts.len() implies ts[#[trigger] p[a]].order_index < ts[#[trigger] p[b]].order_index by {
            assert(p[a] == idx@[a] as int);
            assert(p[b] == idx@[b] as int);
        }
        assert(ordered_targets(ts, out@));
    }
    Ok(out)
}

/// The targets of a sequence have unique ids and non-zero speeds.
pub open spec fn sequence_targets_ok(ts: Seq<RobotTarget>) -> bool {
    &&& forall|i: int| 0 <= i < ts.len() ==> (#[trigger] ts[i]).nominal_speed_mm_s != 0
    &&& forall|a: int, b: int| 0 <= a < b < ts.len() ==> (#[trigger] ts[a]).id@ != (#[trigger] ts[b]).id@
}

/// The checks a robot sequence must pass before its path is measured: it
/// is not empty, ids are unique, speeds are non-zero and poses finite.
pub fn check_sequence_targets(targets: &[RobotTarget]) -> (r: Result<(), RoboticsError>)
    ensures
        match r {
            Ok(()) => targets@.len() > 0 && sequence_targets_ok(targets@) && forall|i: int|
                0 <= i < targets@.len() ==> pose_finite(#[trigger] targets@[i].pose),
            Err(RoboticsError::EmptySequence) => targets@.len() == 0,
            Err(RoboticsError::InvalidTargetSet) => targets@.len() > 0 && !sequence_targets_ok(targets@),
            Err(RoboticsError::InvalidPose) => targets@.len() > 0 && sequence_targets_ok(targets@) && exists|i: int|
                0 <= i < targets@.len() && !pose_finite(#[trigger] targets@[i].pose),
            Err(_) => false,
        },
{
    let n = targets.len();
    if n == 0 {
        return Err(RoboticsError::EmptySequence);
    }
    let mut i: usize = 0;
    while i < n
        invariant
            n == targets@.len(),
            i <= n,
            forall|k: int| 0 <= k < i ==> (#[trigger] targets@[k]).nominal_speed_mm_s != 0,
            forall|a: int, b: int| 0 <= a < b < i ==> (#[trigger] targets@[a]).id@ != (#[trigger] targets@[b]).id@,
        decreases n - i,
    {
        if targets[i].nominal_speed_mm_s == 0 {
            return Err(RoboticsError::InvalidTargetSet);
        }
        let mut j: usize = 0;
        while j < i
            invariant
                n == targets@.len(),
                i < n,
                j <= i,
                forall|a: int| 0 <= a < j ==> (#[trigger] targets@[a]).id@ != targets@[i as int].id@,
            decreases i - j,
        {
            if str_eq(targets[j].id.as_str(), targets[i].id.as_str()) {
                return Err(RoboticsError::InvalidTargetSet);
            }
            j = j + 1;
        }
        i = i + 1;
    }
    let mut i: usize = 0;
    while i < n
        invariant
            n == targets@.len(),
            n > 0,
            sequence_targets_ok(targets@),
            i <= n,
            forall|k: int| 0 <= k < i ==> pose_finite(#[trigger] targets@[k].pose),
        decreases n - i,
    {
        if !pose_is_finite(&targets[i].pose) {
            assert(!pose_finite(targets@[i as int].pose));
            return Err(RoboticsError::InvalidPose);
        }
        i = i + 1;
    }
    Ok(())
}

/// The declared signals are sound: each has an id and a name, no id is
/// declared twice, and each initial value is of the signal's kind.
pub open spec fn signals_ok(s: Seq<SignalDefinition>) -> bool {
    forall|i: int|
        0 <= i < s.len() ==> {
            &&& !blank(#[trigger] s[i].id)
            &&& !blank(s[i].name)
            &&& value_matches_kind(s[i].kind, s[i].initial_value)
            &&& forall|j: int| 0 <= j < i ==> (#[trigger] s[j]).id@ != s[i].id@
        }
}

/// The states are sound: each has an id and a name, and no id repeats.
pub open spec fn states_ok(s: Seq<ControllerState>) -> bool {
    forall|i: int|
        0 <= i < s.len() ==> {
            &&& !blank(#[trigger] s[i].id)
            &&& !blank(s[i].name)
            &&& forall|j: int| 0 <= j < i ==> (#[trigger] s[j]).id@ != s[i].id@
        }
}

/// Each condition names a declared signal, expects a value of its kind
/// and uses a comparator that kind supports.
pub open spec fn conditions_ok(sig: Seq<SignalDefinition>, cs: Seq<SignalCondition>) -> bool {
    forall|i: int|
        0 <= i < cs.len() ==> (kind_of(sig, (#[trigger] cs[i]).signal_id@) matches Some(k) && value_matches_kind(
            k,
            cs[i].expected_value,
        ) && comparator_supported(k, cs[i].comparator))
}

/// Each assignment names a declared signal and writes a value of its kind.
pub open spec fn assignments_ok(sig: Seq<SignalDefinition>, xs: Seq<SignalAssignment>) -> bool {
    forall|i: int|
        0 <= i < xs.len() ==> (kind_of(sig, (#[trigger] xs[i]).signal_id@) matches Some(k) && value_matches_kind(
            k,
            xs[i].value,
        ))
}

/// The transitions are sound: each has an id, a source and a target, no
/// id repeats, both ends are states, and its conditions and assignments
/// are sound.
pub open spec fn transitions_ok(ts: Seq<ControlTransition>, states: Seq<ControllerState>, sig: Seq<SignalDefinition>) -> bool {
    forall|i: int|
        0 <= i < ts.len() ==> {
            &&& !blank(#[trigger] ts[i].id)
            &&& !blank(ts[i].from_state_id)
            &&& !blank(ts[i].to_state_id)
            &&& forall|j: int| 0 <= j < i ==> (#[trigger] ts[j]).id@ != ts[i].id@
            &&& state_ids_contain(states, ts[i].from_state_id@)
            &&& state_ids_contain(states, ts[i].to_state_id@)
            &&& conditions_ok(sig, ts[i].conditions@)
            &&& assignments_ok(sig, ts[i].assignments@)
        }
}

/// A control model is sound: the cell, controller id and name and initial
/// state are not blank, there are signals and states, all are sound, the
/// initial state exists, and every transition is sound.
pub open spec fn control_ok(c: RobotCellControlModel) -> bool {
    let ctrl = c.controller;
    &&& !blank(c.cell_id)
    &&& !blank(ctrl.id)
    &&& !blank(ctrl.name)
    &&& c.signals@.len() > 0
    &&& signals_ok(c.signals@)
    &&& !blank(ctrl.initial_state_id)
    &&& ctrl.states@.len() > 0
    &&& states_ok(ctrl.states@)
    &&& state_ids_contain(ctrl.states@, ctrl.initial_state_id@)
    &&& transitions_ok(ctrl.transitions@, ctrl.states@, c.signals@)
}

proof fn lemma_signals_ok(s: Seq<SignalDefinition>)
    ensures
        signals_fault(s) is None <==> signals_ok(s),
    decreases s.len(),
{
    if s.len() > 0 {
        let d = s.drop_last();
        lemma_signals_ok(d);
        if signals_ok(s) {
            assert forall|i: int| 0 <= i < d.len() implies {
                &&& !blank(#[trigger] d[i].id)
                &&& !blank(d[i].name)
                &&& value_matches_kind(d[i].kind, d[i].initial_value)
                &&& forall|j: int| 0 <= j < i ==> (#[trigger] d[j]).id@ != d[i].id@
            } by {
                assert(d[i] == s[i]);
                assert forall|j: int| 0 <= j < i implies (#[trigger] d[j]).id@ != d[i].id@ by {
                    assert(d[j] == s[j]);
                }
            }
            let x = s[s.len() - 1];
            assert(!signal_ids_contain(d, x.id@)) by {
                if signal_ids_contain(d, x.id@) {
                    let j = choose|j: int| 0 <= j < d.len() && #[trigger] d[j].id@ == x.id@;
                    assert(s[j] == d[j]);
                }
            }
        }
        if signals_fault(s) is None {
            assert forall|i: int| 0 <= i < s.len() implies {
                &&& !blank(#[trigger] s[i].id)
                &&& !blank(s[i].name)
                &&& value_matches_kind(s[i].kind, s[i].initial_value)
                &&& forall|j: int| 0 <= j < i ==> (#[trigger] s[j]).id@ != s[i].id@
            } by {
                if i < d.len() {
                    assert(d[i] == s[i]);
                    assert forall|j: int| 0 <= j < i implies (#[trigger] s[j]).id@ != s[i].id@ by {
                        assert(d[j] == s[j]);
                    }
                } else {
                    assert forall|j: int| 0 <= j < i implies (#[trigger] s[j]).id@ != s[i].id@ by {
                        assert(d[j] == s[j]);
                        if s[j].id@ == s[i].id@ {
                            assert(signal_ids_contain(d, s[i].id@));
                        }
                    }
                }
            }
        }
    }
}

proof fn lemma_states_ok(s: Seq<ControllerState>)
    ensures
        states_fault(s) is None <==> states_ok(s),
    decreases s.len(),
{
    if s.len() > 0 {
        let d = s.drop_last();
        lemma_states_ok(d);
        if states_ok(s) {
            assert forall|i: int| 0 <= i < d.len() implies {
                &&& !blank(#[trigger] d[i].id)
                &&& !blank(d[i].name)
                &&& forall|j: int| 0 <= j < i ==> (#[trigger] d[j]).id@ != d[i].id@
            } by {
                assert(d[i] == s[i]);
                assert forall|j: int| 0 <= j < i implies (#[trigger] d[j]).id@ != d[i].id@ by {
                    assert(d[j] == s[j]);
                }
            }
            let x = s[s.len() - 1];
            assert(!state_ids_contain(d, x.id@)) by {
                if state_ids_contain(d, x.id@) {
                    let j = choose|j: int| 0 <= j < d.len() && #[trigger] d[j].id@ == x.id@;
                    assert(s[j] == d[j]);
                }
            }
        }
        if states_fault(s) is None {
            assert forall|i: int| 0 <= i < s.len() implies {
                &&& !blank(#[trigger] s[i].id)
                &&& !blank(s[i].name)
                &&& forall|j: int| 0 <= j < i ==> (#[trigger] s[j]).id@ != s[i].id@
            } by {
                if i < d.len() {
                    assert(d[i] == s[i]);
                    assert forall|j: int| 0 <= j < i implies (#[trigger] s[j]).id@ != s[i].id@ by {
                        assert(d[j] == s[j]);
                    }
                } else {
                    assert forall|j: int| 0 <= j < i implies (#[trigger] s[j]).id@ != s[i].id@ by {
                        assert(d[j] == s[j]);
                        if s[j].id@ == s[i].id@ {
                            assert(state_ids_contain(d, s[i].id@));
                        }
                    }
                }
            }
        }
    }
}

proof fn lemma_conditions_ok(t: Seq<char>, sig: Seq<SignalDefinition>, cs: Seq<SignalCondition>)
    ensures
        conditions_fault(t, sig, cs) is None <==> conditions_ok(sig, cs),
    decreases cs.len(),
{
    if cs.len() > 0 {
        let d = cs.drop_last();
        lemma_conditions_ok(t, sig, d);
        if conditions_ok(sig, cs) {
            assert forall|i: int| 0 <= i < d.len() implies (kind_of(sig, (#[trigger] d[i]).signal_id@) matches Some(k)
                && value_matches_kind(k, d[i].expected_value) && comparator_supported(k, d[i].comparator)) by {
                assert(d[i] == cs[i]);
            }
            assert(cs[cs.len() - 1] == cs.last());
        }
        if conditions_fault(t, sig, cs) is None {
            assert forall|i: int| 0 <= i < cs.len() implies (kind_of(sig, (#[trigger] cs[i]).signal_id@) matches Some(k)
                && value_matches_kind(k, cs[i].expected_value) && comparator_supported(k, cs[i].comparator)) by {
                if i < d.len() {
                    assert(d[i] == cs[i]);
                }
            }
        }
    }
}

proof fn lemma_assignments_ok(t: Seq<char>, sig: Seq<SignalDefinition>, xs: Seq<SignalAssignment>)
    ensures
        assignments_fault(t, sig, xs) is None <==> assignments_ok(sig, xs),
    decreases xs.len(),
{
    if xs.len() > 0 {
        let d = xs.drop_last();
        lemma_assignments_ok(t, sig, d);
        if assignments_ok(sig, xs) {
            assert forall|i: int| 0 <= i < d.len() implies (kind_of(sig, (#[trigger] d[i]).signal_id@) matches Some(k)
                && value_matches_kind(k, d[i].value)) by {
                assert(d[i] == xs[i]);
            }
            assert(xs[xs.len() - 1] == xs.last());
        }
        if assignments_fault(t, sig, xs) is None {
            assert forall|i: int| 0 <= i < xs.len() implies (kind_of(sig, (#[trigger] xs[i]).signal_id@) matches Some(k)
                && value_matches_kind(k, xs[i].value)) by {
                if i < d.len() {
                    assert(d[i] == xs[i]);
                }
            }
        }
    }
}

proof fn lemma_transition_ok(
    prefix: Seq<ControlTransition>,
    states: Seq<ControllerState>,
    sig: Seq<SignalDefinition>,
    x: ControlTransition,
)
    ensures
        transition_fault(prefix, states, sig, x) is None <==> {
            &&& !blank(x.id)
            &&& !blank(x.from_state_id)
            &&& !blank(x.to_state_id)
            &&& !transition_ids_contain(prefix, x.id@)
            &&& state_ids_contain(states, x.from_state_id@)
            &&& state_ids_contain(states, x.to_state_id@)
            &&& conditions_ok(sig, x.conditions@)
            &&& assignments_ok(sig, x.assignments@)
        },
{
    lemma_conditions_ok(x.id@, sig, x.conditions@);
    lemma_assignments_ok(x.id@, sig, x.assignments@);
}

proof fn lemma_transitions_ok(ts: Seq<ControlTransition>, states: Seq<ControllerState>, sig: Seq<SignalDefinition>)
    ensures
        transitions_fault(ts, states, sig) is None <==> transitions_ok(ts, states, sig),
    decreases ts.len(),
{
    if ts.len() > 0 {
        let d = ts.drop_last();
        let x = ts[ts.len() - 1];
        lemma_transitions_ok(d, states, sig);
        lemma_transition_ok(d, states, sig, x);
        assert(x == ts.last());
        if transitions_ok(ts, states, sig) {
            assert forall|i: int| 0 <= i < d.len() implies {
                &&& !blank(#[trigger] d[i].id)
                &&& !blank(d[i].from_state_id)
                &&& !blank(d[i].to_state_id)
                &&& forall|j: int| 0 <= j < i ==> (#[trigger] d[j]).id@ != d[i].id@
                &&& state_ids_contain(states, d[i].from_state_id@)
                &&& state_ids_contain(states, d[i].to_state_id@)
                &&& conditions_ok(sig, d[i].conditions@)
                &&& assignments_ok(sig, d[i].assignments@)
            } by {
                assert(d[i] == ts[i]);
                assert forall|j: int| 0 <= j < i implies (#[trigger] d[j]).id@ != d[i].id@ by {
                    assert(d[j] == ts[j]);
                }
            }
            assert(!transition_ids_contain(d, x.id@)) by {
                if transition_ids_contain(d, x.id@) {
                    let j = choose|j: int| 0 <= j < d.len() && #[trigger] d[j].id@ == x.id@;
                    assert(ts[j] == d[j]);
                }
            }
        }
        if transitions_fault(ts, states, sig) is None {
            assert forall|i: int| 0 <= i < ts.len() implies {
                &&& !blank(#[trigger] ts[i].id)
                &&& !blank(ts[i].from_state_id)
                &&& !blank(ts[i].to_state_id)
                &&& forall|j: int| 0 <= j < i ==> (#[trigger] ts[j]).id@ != ts[i].id@
                &&& state_ids_contain(states, ts[i].from_state_id@)
                &&& state_ids_contain(states, ts[i].to_state_id@)
                &&& conditions_ok(sig, ts[i].conditions@)
                &&& assignments_ok(sig, ts[i].assignments@)
            } by {
                if i < d.len() {
                    assert(d[i] == ts[i]);
                    assert forall|j: int| 0 <= j < i implies (#[trigger] ts[j]).id@ != ts[i].id@ by {
                        assert(d[j] == ts[j]);
                    }
                } else {
                    assert forall|j: int| 0 <= j < i implies (#[trigger] ts[j]).id@ != ts[i].id@ by {
                        assert(d[j] == ts[j]);
                        if ts[j].id@ == ts[i].id@ {
                            assert(transition_ids_contain(d, ts[i].id@));
                        }
                    }
                }
            }
        }
    }
}

/// A control model passes validation exactly when it is sound: the first
/// defect the check reports exists if and only if one of the listed
/// conditions fails.
pub proof fn law_control_valid_iff_sound(c: RobotCellControlModel)
    ensures
        control_fault(c) is None <==> control_ok(c),
{
    lemma_signals_ok(c.signals@);
    lemma_states_ok(c.controller.states@);
    lemma_transitions_ok(c.controller.transitions@, c.controller.states@, c.signals@);
}

} // verus!
