//! The rules of the commands that edit an assembly: which occurrences,
//! mates and joints an edit may add, move, remove or drive, and the joint
//! axis and state checks. Joint quantities are held as the bit patterns of
//! their `f64` values.
use vstd::prelude::*;
use crate::assembly::{
    position_of, position_from,
    joint_degrees_of_freedom, joint_dof_spec, AssemblyError, AssemblySolveStatus, JointType,
    MateConstraint, MateType, Occurrence, Transform3D,
};
use crate::floatbits::{abs_le, bits_abs_le, bits_is_finite, bits_lt, epsilon, f64_lt, is_finite};
use crate::project::CoreError;
use crate::text::str_eq;

verus! {

/// A joint axis direction (bit patterns).
#[derive(Debug, Clone, Copy, PartialEq, Eq)]
pub struct JointAxis {
    pub x: u64,
    pub y: u64,
    pub z: u64,
}

/// The travel range of a joint (bit patterns).
#[derive(Debug, Clone, Copy, PartialEq, Eq)]
pub struct JointLimits {
    pub min: u64,
    pub max: u64,
}

/// A joint between two occurrences of an assembly.
#[derive(Debug)]
pub struct AssemblyJoint {
    pub id: String,
    pub joint_type: JointType,
    pub source_occurrence_id: String,
    pub target_occurrence_id: String,
    pub axis: JointAxis,
    pub limits: Option<JointLimits>,
    pub current_position: u64,
    pub degrees_of_freedom: usize,
}

/// The parts of an assembly that its edit commands change.
#[derive(Debug)]
pub struct AssemblyParts {
    pub occurrences: Vec<Occurrence>,
    pub mate_constraints: Vec<MateConstraint>,
    pub joints: Vec<AssemblyJoint>,
}

/// The axis is the zero vector: every component within `f64::EPSILON` of 0.
pub open spec fn axis_is_zero(axis: JointAxis) -> bool {
    abs_le(axis.x, epsilon()) && abs_le(axis.y, epsilon()) && abs_le(axis.z, epsilon())
}

pub fn validate_joint_axis(axis: JointAxis) -> (r: Result<(), CoreError>)
    ensures
        axis_is_zero(axis) ==> r == Err::<(), CoreError>(CoreError::AssemblyJointAxisInvalid),
        !axis_is_zero(axis) ==> r is Ok,
{
    let eps: u64 = 0x3CB0_0000_0000_0000;
    if bits_abs_le(axis.x, eps) && bits_abs_le(axis.y, eps) && bits_abs_le(axis.z, eps) {
        return Err(CoreError::AssemblyJointAxisInvalid);
    }
    Ok(())
}

/// Why a joint of `joint_type` with `limits` cannot sit at `position`, if it cannot.
pub enum JointStateFault {
    NotFinite,
    BadLimits,
    FixedMoved,
    OutOfLimits,
}

pub open spec fn joint_state_fault(joint_type: JointType, limits: Option<JointLimits>, position: u64) -> Option<JointStateFault> {
    if !is_finite(position) {
        Some(JointStateFault::NotFinite)
    } else if (limits matches Some(l) && (!is_finite(l.min) || !is_finite(l.max) || f64_lt(l.max, l.min) || (
    joint_type == JointType::Fixed && (!abs_le(l.min, epsilon()) || !abs_le(l.max, epsilon()))))) {
        Some(JointStateFault::BadLimits)
    } else if joint_type == JointType::Fixed && !abs_le(position, epsilon()) {
        Some(JointStateFault::FixedMoved)
    } else if (limits matches Some(l) && (f64_lt(position, l.min) || f64_lt(l.max, position))) {
        Some(JointStateFault::OutOfLimits)
    } else {
        None
    }
}

/// The error reported for a joint state fault.
pub open spec fn joint_state_error(f: JointStateFault, e: CoreError) -> bool {
    match f {
        JointStateFault::NotFinite => e matches CoreError::AssemblyJointStateInvalid(m) && m@ == "current position must be finite"@,
        JointStateFault::BadLimits => e == CoreError::AssemblyJointLimitsInvalid,
        JointStateFault::FixedMoved => e matches CoreError::AssemblyJointStateInvalid(m) && m@
            == "fixed joints must stay at position 0"@,
        JointStateFault::OutOfLimits => e matches CoreError::AssemblyJointStateInvalid(m) && m@
            == "current position must stay within joint limits"@,
    }
}

pub fn validate_joint_state(joint_type: JointType, limits: Option<JointLimits>, current_position: u64) -> (r: Result<(), CoreError>)
    ensures
        match joint_state_fault(joint_type, limits, current_position) {
            None => r is Ok,
            Some(f) => r matches Err(e) && joint_state_error(f, e),
        },
{
    let eps: u64 = 0x3CB0_0000_0000_0000;
    if !bits_is_finite(current_position) {
        return Err(CoreError::AssemblyJointStateInvalid(String::from_str("current position must be finite")));
    }
    if let Some(l) = limits {
        if !bits_is_finite(l.min) || !bits_is_finite(l.max) || bits_lt(l.max, l.min) {
            return Err(CoreError::AssemblyJointLimitsInvalid);
        }
        if joint_type == JointType::Fixed && (!bits_abs_le(l.min, eps) || !bits_abs_le(l.max, eps)) {
            return Err(CoreError::AssemblyJointLimitsInvalid);
        }
    }
    if joint_type == JointType::Fixed && !bits_abs_le(current_position, eps) {
        return Err(CoreError::AssemblyJointStateInvalid(String::from_str("fixed joints must stay at position 0")));
    }
    if let Some(l) = limits {
        if bits_lt(current_position, l.min) || bits_lt(l.max, current_position) {
            return Err(CoreError::AssemblyJointStateInvalid(String::from_str("current position must stay within joint limits")));
        }
    }
    Ok(())
}

/// A mate can be added only between two distinct occurrences and with a
/// non-negative offset; checked before the assembly is read.
pub open spec fn mate_payload_error(mate: MateConstraint) -> Option<Seq<char>> {
    if mate.left_occurrence_id@ == mate.right_occurrence_id@ {
        Some("mate constraints must target two distinct occurrences"@)
    } else if (mate.mate_type matches MateType::Offset { distance_mm } && f64_lt(distance_mm, 0)) {
        Some("offset mates must use a non-negative distance"@)
    } else {
        None
    }
}

pub fn check_mate_payload(mate: &MateConstraint) -> (r: Result<(), CoreError>)
    ensures
        match mate_payload_error(*mate) {
            None => r is Ok,
            Some(m) => r matches Err(CoreError::AssemblyPayloadInvalid(t)) && t@ == m,
        },
{
    if str_eq(mate.left_occurrence_id.as_str(), mate.right_occurrence_id.as_str()) {
        return Err(CoreError::AssemblyPayloadInvalid(String::from_str("mate constraints must target two distinct occurrences")));
    }
    if let MateType::Offset { distance_mm } = mate.mate_type {
        if bits_lt(distance_mm, 0) {
            return Err(CoreError::AssemblyPayloadInvalid(String::from_str("offset mates must use a non-negative distance")));
        }
    }
    Ok(())
}

/// Checks a new joint's axis and state, then sets its degrees of freedom from its type.
pub fn prepare_joint(joint: &mut AssemblyJoint) -> (r: Result<(), CoreError>)
    ensures
        axis_is_zero(old(joint).axis) ==> r == Err::<(), CoreError>(CoreError::AssemblyJointAxisInvalid) && *final(joint)
            == *old(joint),
        !axis_is_zero(old(joint).axis) ==> match joint_state_fault(old(joint).joint_type, old(joint).limits, old(joint).current_position) {
            None => r is Ok && *final(joint) == (AssemblyJoint {
                degrees_of_freedom: joint_dof_spec(old(joint).joint_type),
                ..*old(joint)
            }),
            Some(f) => r matches Err(e) && joint_state_error(f, e) && *final(joint) == *old(joint),
        },
{
    validate_joint_axis(joint.axis)?;
    validate_joint_state(joint.joint_type, joint.limits, joint.current_position)?;
    joint.degrees_of_freedom = joint_degrees_of_freedom(joint.joint_type);
    Ok(())
}


/// Position of the first mate named `id`, or the length.
pub open spec fn mate_position(ms: Seq<MateConstraint>, id: Seq<char>, i: int) -> int
    decreases ms.len() - i,
{
    if i < 0 || i >= ms.len() {
        ms.len() as int
    } else if ms[i].id@ == id {
        i
    } else {
        mate_position(ms, id, i + 1)
    }
}

/// Position of the first joint named `id`, or the length.
pub open spec fn joint_position(js: Seq<AssemblyJoint>, id: Seq<char>, i: int) -> int
    decreases js.len() - i,
{
    if i < 0 || i >= js.len() {
        js.len() as int
    } else if js[i].id@ == id {
        i
    } else {
        joint_position(js, id, i + 1)
    }
}

/// The assembly has an occurrence named `id`.
pub open spec fn has_occurrence(parts: AssemblyParts, id: Seq<char>) -> bool {
    position_of(parts.occurrences@, id) < parts.occurrences@.len()
}

fn find_occurrence(occurrences: &Vec<Occurrence>, id: &str) -> (r: usize)
    ensures
        r == position_of(occurrences@, id@),
        r <= occurrences@.len(),
{
    let n = occurrences.len();
    let mut i: usize = 0;
    while i < n
        invariant
            n == occurrences@.len(),
            i <= n,
            position_of(occurrences@, id@) == position_from(occurrences@, id@, i as int),
        decreases n - i,
    {
        if str_eq(occurrences[i].id.as_str(), id) {
            return i;
        }
        i = i + 1;
    }
    n
}

fn find_mate(mates: &Vec<MateConstraint>, id: &str) -> (r: usize)
    ensures
        r == mate_position(mates@, id@, 0),
        r <= mates@.len(),
{
    let n = mates.len();
    let mut i: usize = 0;
    while i < n
        invariant
            n == mates@.len(),
            i <= n,
            mate_position(mates@, id@, 0) == mate_position(mates@, id@, i as int),
        decreases n - i,
    {
        if str_eq(mates[i].id.as_str(), id) {
            return i;
        }
        i = i + 1;
    }
    n
}

fn find_joint(joints: &Vec<AssemblyJoint>, id: &str) -> (r: usize)
    ensures
        r == joint_position(joints@, id@, 0),
        r <= joints@.len(),
{
    let n = joints.len();
    let mut i: usize = 0;
    while i < n
        invariant
            n == joints@.len(),
            i <= n,
            joint_position(joints@, id@, 0) == joint_position(joints@, id@, i as int),
        decreases n - i,
    {
        if str_eq(joints[i].id.as_str(), id) {
            return i;
        }
        i = i + 1;
    }
    n
}

/// Adds an occurrence whose id the assembly does not hold yet.
pub fn add_occurrence(parts: &mut AssemblyParts, occurrence: Occurrence) -> (r: Result<(), CoreError>)
    ensures
        has_occurrence(*old(parts), occurrence.id@) ==> (r matches Err(CoreError::AssemblyOccurrenceAlreadyExists(id))
            && id@ == occurrence.id@ && *final(parts) == *old(parts)),
        !has_occurrence(*old(parts), occurrence.id@) ==> r is Ok && final(parts).occurrences@ == old(parts).occurrences@.push(
            occurrence,
        ) && final(parts).mate_constraints == old(parts).mate_constraints && final(parts).joints == old(parts).joints,
{
    if find_occurrence(&parts.occurrences, occurrence.id.as_str()) < parts.occurrences.len() {
        return Err(CoreError::AssemblyOccurrenceAlreadyExists(occurrence.id));
    }
    parts.occurrences.push(occurrence);
    Ok(())
}

/// Moves the first occurrence named `occurrence_id` to `transform`.
pub fn transform_occurrence(parts: &mut AssemblyParts, occurrence_id: &str, transform: Transform3D) -> (r: Result<(), CoreError>)
    ensures
        !has_occurrence(*old(parts), occurrence_id@) ==> (r matches Err(CoreError::AssemblyOccurrenceNotFound(id)) && id@
            == occurrence_id@ && *final(parts) == *old(parts)),
        has_occurrence(*old(parts), occurrence_id@) ==> {
            let i = position_of(old(parts).occurrences@, occurrence_id@);
            &&& r is Ok
            &&& final(parts).occurrences@ == old(parts).occurrences@.update(
                i,
                Occurrence { transform, ..old(parts).occurrences@[i] },
            )
            &&& final(parts).mate_constraints == old(parts).mate_constraints
            &&& final(parts).joints == old(parts).joints
        },
{
    let i = find_occurrence(&parts.occurrences, occurrence_id);
    if i == parts.occurrences.len() {
        return Err(CoreError::AssemblyOccurrenceNotFound(String::from_str(occurrence_id)));
    }
    let moved = Occurrence {
        id: parts.occurrences[i].id.clone(),
        definition_entity_id: parts.occurrences[i].definition_entity_id.clone(),
        transform,
    };
    parts.occurrences.set(i, moved);
    Ok(())
}

/// Adds a mate with a new id between two occurrences the assembly holds.
pub fn add_mate(parts: &mut AssemblyParts, mate: MateConstraint) -> (r: Result<(), CoreError>)
    ensures
        ({
            let ms = old(parts).mate_constraints@;
            if mate_position(ms, mate.id@, 0) < ms.len() {
                r matches Err(CoreError::AssemblyMateAlreadyExists(id)) && id@ == mate.id@ && *final(parts) == *old(parts)
            } else if !has_occurrence(*old(parts), mate.left_occurrence_id@) {
                r matches Err(CoreError::AssemblyOccurrenceNotFound(id)) && id@ == mate.left_occurrence_id@ && *final(parts)
                    == *old(parts)
            } else if !has_occurrence(*old(parts), mate.right_occurrence_id@) {
                r matches Err(CoreError::AssemblyOccurrenceNotFound(id)) && id@ == mate.right_occurrence_id@ && *final(parts)
                    == *old(parts)
            } else {
                &&& r is Ok
                &&& final(parts).mate_constraints@ == ms.push(mate)
                &&& final(parts).occurrences == old(parts).occurrences
                &&& final(parts).joints == old(parts).joints
            }
        }),
{
    if find_mate(&parts.mate_constraints, mate.id.as_str()) < parts.mate_constraints.len() {
        return Err(CoreError::AssemblyMateAlreadyExists(mate.id));
    }
    if find_occurrence(&parts.occurrences, mate.left_occurrence_id.as_str()) == parts.occurrences.len() {
        return Err(CoreError::AssemblyOccurrenceNotFound(mate.left_occurrence_id));
    }
    if find_occurrence(&parts.occurrences, mate.right_occurrence_id.as_str()) == parts.occurrences.len() {
        return Err(CoreError::AssemblyOccurrenceNotFound(mate.right_occurrence_id));
    }
    parts.mate_constraints.push(mate);
    Ok(())
}

/// The test that keeps the mates not named `id`.
pub open spec fn not_named(id: Seq<char>) -> spec_fn(MateConstraint) -> bool {
    |c: MateConstraint| c.id@ != id
}

/// Removes every mate named `mate_id`; refused when there is none.
pub fn remove_mate(parts: &mut AssemblyParts, mate_id: &str) -> (r: Result<(), CoreError>)
    ensures
        ({
            let kept = old(parts).mate_constraints@.filter(not_named(mate_id@));
            if kept.len() == old(parts).mate_constraints@.len() {
                r matches Err(CoreError::AssemblyMateNotFound(id)) && id@ == mate_id@ && *final(parts) == *old(parts)
            } else {
                &&& r is Ok
                &&& final(parts).mate_constraints@ == kept
                &&& final(parts).occurrences == old(parts).occurrences
                &&& final(parts).joints == old(parts).joints
            }
        }),
{
    let ghost ms = parts.mate_constraints@;
    let mut old_mates: Vec<MateConstraint> = Vec::new();
    std::mem::swap(&mut old_mates, &mut parts.mate_constraints);
    let n = old_mates.len();
    let mut kept: Vec<MateConstraint> = Vec::new();
    let mut i: usize = 0;
    while i < n
        invariant
            n == old_mates@.len(),
            old_mates@ == ms,
            i <= n,
            kept@ == ms.take(i as int).filter(not_named(mate_id@)),
        decreases n - i,
    {
        proof {
            reveal(Seq::filter);
            assert(ms.take(i + 1).drop_last() =~= ms.take(i as int));
        }
        if !str_eq(old_mates[i].id.as_str(), mate_id) {
            let c = MateConstraint {
                id: old_mates[i].id.clone(),
                left_occurrence_id: old_mates[i].left_occurrence_id.clone(),
                right_occurrence_id: old_mates[i].right_occurrence_id.clone(),
                mate_type: old_mates[i].mate_type,
            };
            kept.push(c);
        }
        i = i + 1;
    }
    assert(ms.take(n as int) =~= ms);
    if kept.len() == n {
        parts.mate_constraints = old_mates;
        return Err(CoreError::AssemblyMateNotFound(String::from_str(mate_id)));
    }
    parts.mate_constraints = kept;
    Ok(())
}

/// Adds a joint with a new id between two distinct occurrences the assembly holds.
pub fn add_joint(parts: &mut AssemblyParts, joint: AssemblyJoint) -> (r: Result<(), CoreError>)
    ensures
        ({
            let js = old(parts).joints@;
            if joint_position(js, joint.id@, 0) < js.len() {
                r matches Err(CoreError::AssemblyJointAlreadyExists(id)) && id@ == joint.id@ && *final(parts) == *old(parts)
            } else if joint.source_occurrence_id@ == joint.target_occurrence_id@ || !has_occurrence(
                *old(parts),
                joint.source_occurrence_id@,
            ) || !has_occurrence(*old(parts), joint.target_occurrence_id@) {
                r == Err::<(), CoreError>(CoreError::AssemblyJointInvalidOccurrences) && *final(parts) == *old(parts)
            } else {
                &&& r is Ok
                &&& final(parts).joints@ == js.push(joint)
                &&& final(parts).occurrences == old(parts).occurrences
                &&& final(parts).mate_constraints == old(parts).mate_constraints
            }
        }),
{
    if find_joint(&parts.joints, joint.id.as_str()) < parts.joints.len() {
        return Err(CoreError::AssemblyJointAlreadyExists(joint.id));
    }
    if str_eq(joint.source_occurrence_id.as_str(), joint.target_occurrence_id.as_str()) {
        return Err(CoreError::AssemblyJointInvalidOccurrences);
    }
    if find_occurrence(&parts.occurrences, joint.source_occurrence_id.as_str()) == parts.occurrences.len()
        || find_occurrence(&parts.occurrences, joint.target_occurrence_id.as_str()) == parts.occurrences.len() {
        return Err(CoreError::AssemblyJointInvalidOccurrences);
    }
    parts.joints.push(joint);
    Ok(())
}

/// Drives the first joint named `joint_id` to `position`, within its limits.
pub fn set_joint_state(parts: &mut AssemblyParts, joint_id: &str, position: u64) -> (r: Result<(), CoreError>)
    ensures
        ({
            let js = old(parts).joints@;
            let i = joint_position(js, joint_id@, 0);
            if i == js.len() {
                r matches Err(CoreError::AssemblyJointNotFound(id)) && id@ == joint_id@ && *final(parts) == *old(parts)
            } else {
                match joint_state_fault(js[i].joint_type, js[i].limits, position) {
                    Some(f) => r matches Err(e) && joint_state_error(f, e) && *final(parts) == *old(parts),
                    None => {
                        &&& r is Ok
                        &&& final(parts).joints@ == js.update(
                            i,
                            AssemblyJoint {
                                current_position: position,
                                degrees_of_freedom: joint_dof_spec(js[i].joint_type),
                                ..js[i]
                            },
                        )
                        &&& final(parts).occurrences == old(parts).occurrences
                        &&& final(parts).mate_constraints == old(parts).mate_constraints
                    },
                }
            }
        }),
{
    let i = find_joint(&parts.joints, joint_id);
    if i == parts.joints.len() {
        return Err(CoreError::AssemblyJointNotFound(String::from_str(joint_id)));
    }
    let j = &parts.joints[i];
    validate_joint_state(j.joint_type, j.limits, position)?;
    let driven = AssemblyJoint {
        id: j.id.clone(),
        joint_type: j.joint_type,
        source_occurrence_id: j.source_occurrence_id.clone(),
        target_occurrence_id: j.target_occurrence_id.clone(),
        axis: j.axis,
        limits: j.limits,
        current_position: position,
        degrees_of_freedom: joint_degrees_of_freedom(j.joint_type),
    };
    parts.joints.set(i, driven);
    Ok(())
}

/// The text of an assembly error, as the solver reports it.
pub open spec fn assembly_error_text(e: AssemblyError) -> Seq<char> {
    match e {
        AssemblyError::NotEnoughOccurrences => "an assembly requires at least two occurrences"@,
        AssemblyError::InvalidOccurrenceSet => "occurrence ids must be unique and reference a part entity"@,
        AssemblyError::InvalidConstraintGraph => "mate constraints must target distinct known occurrences without duplicates"@,
        AssemblyError::NegativeOffset => "offset mates must use a non-negative distance"@,
    }
}

pub fn assembly_error_message(e: AssemblyError) -> (m: &'static str)
    ensures
        m@ == assembly_error_text(e),
{
    match e {
        AssemblyError::NotEnoughOccurrences => "an assembly requires at least two occurrences",
        AssemblyError::InvalidOccurrenceSet => "occurrence ids must be unique and reference a part entity",
        AssemblyError::InvalidConstraintGraph => "mate constraints must target distinct known occurrences without duplicates",
        AssemblyError::NegativeOffset => "offset mates must use a non-negative distance",
    }
}

/// How an edit treats an assembly the solver refuses: too few occurrences
/// still gives a (conflicting) report, any other refusal rejects the edit
/// as an invalid payload.
pub fn solve_refusal(e: AssemblyError) -> (r: Option<CoreError>)
    ensures
        e == AssemblyError::NotEnoughOccurrences ==> r is None,
        e != AssemblyError::NotEnoughOccurrences ==> (r matches Some(CoreError::AssemblyPayloadInvalid(m)) && m@
            == assembly_error_text(e)),
{
    match e {
        AssemblyError::NotEnoughOccurrences => None,
        _ => Some(CoreError::AssemblyPayloadInvalid(String::from_str(assembly_error_message(e)))),
    }
}

/// The event an assembly edit causes: the command's own kind when it has
/// one, else whether the assembly solved.
pub fn assembly_event_kind(kind_override: Option<&'static str>, status: AssemblySolveStatus) -> (k: &'static str)
    ensures
        kind_override matches Some(o) ==> k == o,
        kind_override is None && status == AssemblySolveStatus::Solved ==> k@ == "assembly.solved"@,
        kind_override is None && status == AssemblySolveStatus::Conflicting ==> k@ == "assembly.unsolved"@,
{
    match kind_override {
        Some(o) => o,
        None => match status {
            AssemblySolveStatus::Solved => "assembly.solved",
            AssemblySolveStatus::Conflicting => "assembly.unsolved",
        },
    }
}

} // verus!
