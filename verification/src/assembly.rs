//! Assembly rules: joint mobility, the validation of mate graphs and the
//! order in which mates propagate placements from the first occurrence.
//! Placements are held as the bit patterns of their `f64` values; adding an
//! offset to a placement and comparing placements are floating-point work
//! that the caller does along the plan computed here.
use vstd::prelude::*;
use crate::floatbits::{bits_lt, f64_lt};
use crate::text::str_eq;

verus! {

/// The kinds of joint an assembly knows.
#[derive(Debug, Clone, Copy, PartialEq, Eq, Structural)]
pub enum JointType {
    Fixed,
    Revolute,
    Prismatic,
}

/// Why an assembly could not be solved.
#[derive(Debug, Clone, Copy, PartialEq, Eq, Structural)]
pub enum AssemblyError {
    NotEnoughOccurrences,
    InvalidOccurrenceSet,
    InvalidConstraintGraph,
    NegativeOffset,
}

/// Degrees of freedom a joint leaves: none for a fixed joint, one otherwise.
pub open spec fn joint_dof_spec(joint_type: JointType) -> usize {
    match joint_type {
        JointType::Fixed => 0,
        JointType::Revolute => 1,
        JointType::Prismatic => 1,
    }
}

pub fn joint_degrees_of_freedom(joint_type: JointType) -> (n: usize)
    ensures
        n == joint_dof_spec(joint_type),
{
    match joint_type {
        JointType::Fixed => 0,
        JointType::Revolute | JointType::Prismatic => 1,
    }
}


/// A placement: the bit patterns of the `f64` offsets along x, y, z and the yaw.
#[derive(Debug, Clone, Copy, PartialEq, Eq, Structural)]
pub struct Transform3D {
    pub x_mm: u64,
    pub y_mm: u64,
    pub z_mm: u64,
    pub yaw_deg: u64,
}

impl Default for Transform3D {
    /// The origin: every component `0.0`.
    fn default() -> (t: Self)
        ensures
            t.x_mm == 0 && t.y_mm == 0 && t.z_mm == 0 && t.yaw_deg == 0,
    {
        Transform3D { x_mm: 0, y_mm: 0, z_mm: 0, yaw_deg: 0 }
    }
}

/// A placed instance of a part.
#[derive(Debug)]
pub struct Occurrence {
    pub id: String,
    pub definition_entity_id: String,
    pub transform: Transform3D,
}

/// How a mate relates its two occurrences; the distance is the bit pattern of an `f64`.
#[derive(Debug, Clone, Copy, PartialEq, Eq, Structural)]
pub enum MateType {
    Coincident,
    Offset { distance_mm: u64 },
}

/// A mate between two occurrences.
#[derive(Debug)]
pub struct MateConstraint {
    pub id: String,
    pub left_occurrence_id: String,
    pub right_occurrence_id: String,
    pub mate_type: MateType,
}

#[derive(Debug, Clone, Copy, PartialEq, Eq, Structural)]
pub enum AssemblySolveStatus {
    Solved,
    Conflicting,
}

/// One traversal of a mate during propagation: from a placed occurrence to
/// its mate partner. `solves` says whether the partner is placed by this
/// step or was placed before, in which case the step checks it;
/// `toward_right` says whether the partner is the mate's right side, which
/// is the direction the offset is added in.
#[derive(Debug, Clone, Copy, PartialEq, Eq, Structural)]
pub struct PropagationStep {
    pub constraint_index: usize,
    pub from_index: usize,
    pub to_index: usize,
    pub solves: bool,
    pub toward_right: bool,
}

/// What solving an assembly decides besides the placements themselves.
#[derive(Debug)]
pub struct AssemblyPlan {
    pub steps: Vec<PropagationStep>,
    pub solved: Vec<bool>,
    pub all_connected: bool,
    pub constrained_occurrence_count: usize,
    pub total_mate_count: usize,
    pub degrees_of_freedom_estimate: usize,
}

/// Occurrence `i` has an id and a definition, and no earlier occurrence has its id.
pub open spec fn occurrence_ok(occs: Seq<Occurrence>, i: int) -> bool {
    &&& occs[i].id@.len() > 0
    &&& occs[i].definition_entity_id@.len() > 0
    &&& forall|j: int| 0 <= j < i ==> occs[j].id@ != occs[i].id@
}

pub open spec fn occurrences_ok(occs: Seq<Occurrence>) -> bool {
    forall|i: int| 0 <= i < occs.len() ==> #[trigger] occurrence_ok(occs, i)
}

/// Position of the first occurrence from `i` on whose id is `id`, or the length.
pub open spec fn position_from(occs: Seq<Occurrence>, id: Seq<char>, i: int) -> int
    decreases occs.len() - i,
{
    if i < 0 || i >= occs.len() {
        occs.len() as int
    } else if occs[i].id@ == id {
        i
    } else {
        position_from(occs, id, i + 1)
    }
}

/// Position of the occurrence whose id is `id`, or the length when there is none.
pub open spec fn position_of(occs: Seq<Occurrence>, id: Seq<char>) -> int {
    position_from(occs, id, 0)
}

/// The two mates join the same two occurrences, in either order.
pub open spec fn same_pair(a: MateConstraint, b: MateConstraint) -> bool {
    ||| (a.left_occurrence_id@ == b.left_occurrence_id@ && a.right_occurrence_id@ == b.right_occurrence_id@)
    ||| (a.left_occurrence_id@ == b.right_occurrence_id@ && a.right_occurrence_id@ == b.left_occurrence_id@)
}

/// Why mate `c` is refused after the accepted mates `prefix`: it mates an
/// occurrence with itself, names an unknown occurrence, has a negative
/// offset, or repeats a pair.
pub open spec fn constraint_error(occs: Seq<Occurrence>, prefix: Seq<MateConstraint>, c: MateConstraint) -> Option<AssemblyError> {
    if c.left_occurrence_id@ == c.right_occurrence_id@ {
        Some(AssemblyError::InvalidConstraintGraph)
    } else if position_of(occs, c.left_occurrence_id@) == occs.len() || position_of(occs, c.right_occurrence_id@) == occs.len() {
        Some(AssemblyError::InvalidConstraintGraph)
    } else if (c.mate_type matches MateType::Offset { distance_mm } && f64_lt(distance_mm, 0)) {
        Some(AssemblyError::NegativeOffset)
    } else if exists|j: int| 0 <= j < prefix.len() && #[trigger] same_pair(prefix[j], c) {
        Some(AssemblyError::InvalidConstraintGraph)
    } else {
        None
    }
}

/// The error of the first refused mate.
pub open spec fn constraints_error(occs: Seq<Occurrence>, cs: Seq<MateConstraint>) -> Option<AssemblyError>
    decreases cs.len(),
{
    if cs.len() == 0 {
        None
    } else {
        match constraints_error(occs, cs.drop_last()) {
            Some(e) => Some(e),
            None => constraint_error(occs, cs.drop_last(), cs.last()),
        }
    }
}

/// Why an assembly cannot be solved, if it cannot.
pub open spec fn assembly_error(occs: Seq<Occurrence>, cs: Seq<MateConstraint>) -> Option<AssemblyError> {
    if occs.len() < 2 {
        Some(AssemblyError::NotEnoughOccurrences)
    } else if !occurrences_ok(occs) {
        Some(AssemblyError::InvalidOccurrenceSet)
    } else {
        constraints_error(occs, cs)
    }
}

/// The traversal state: the queue of placed occurrences with the position
/// of its front, which occurrences are placed, and the steps so far.
pub struct Traversal {
    pub queue: Seq<int>,
    pub head: int,
    pub solved: Seq<bool>,
    pub steps: Seq<PropagationStep>,
}

/// Visits the mates of occurrence `u` from mate `k` on, in mate order.
pub open spec fn visit(occs: Seq<Occurrence>, cs: Seq<MateConstraint>, u: int, k: int, t: Traversal) -> Traversal
    decreases cs.len() - k,
{
    if k < 0 || k >= cs.len() {
        t
    } else {
        let l = position_of(occs, cs[k].left_occurrence_id@);
        let r = position_of(occs, cs[k].right_occurrence_id@);
        let t1 = if l == u || r == u {
            let v = if l == u {
                r
            } else {
                l
            };
            let step = PropagationStep {
                constraint_index: k as usize,
                from_index: u as usize,
                to_index: v as usize,
                solves: !t.solved[v],
                toward_right: v == r,
            };
            if t.solved[v] {
                Traversal { steps: t.steps.push(step), ..t }
            } else {
                Traversal { queue: t.queue.push(v), solved: t.solved.update(v, true), steps: t.steps.push(step), ..t }
            }
        } else {
            t
        };
        visit(occs, cs, u, k + 1, t1)
    }
}

/// Breadth-first propagation: takes the front of the queue and visits its
/// mates, at most `fuel` times.
pub open spec fn traverse(occs: Seq<Occurrence>, cs: Seq<MateConstraint>, t: Traversal, fuel: nat) -> Traversal
    decreases fuel,
{
    if fuel == 0 || t.head < 0 || t.head >= t.queue.len() {
        t
    } else {
        let u = t.queue[t.head];
        traverse(occs, cs, visit(occs, cs, u, 0, Traversal { head: t.head + 1, ..t }), (fuel - 1) as nat)
    }
}

/// The propagation from the first occurrence; each occurrence enters the
/// queue at most once, so as many rounds as occurrences empty it.
pub open spec fn propagation(occs: Seq<Occurrence>, cs: Seq<MateConstraint>) -> Traversal {
    traverse(
        occs,
        cs,
        Traversal { queue: seq![0int], head: 0, solved: Seq::new(occs.len(), |i: int| i == 0), steps: Seq::empty() },
        occs.len(),
    )
}

/// Mate `c` joins occurrence `i`.
pub open spec fn names(occs: Seq<Occurrence>, c: MateConstraint, i: int) -> bool {
    position_of(occs, c.left_occurrence_id@) == i || position_of(occs, c.right_occurrence_id@) == i
}

/// Occurrence `i` is named by some mate.
pub open spec fn constrained(occs: Seq<Occurrence>, cs: Seq<MateConstraint>, i: int) -> bool {
    exists|k: int| 0 <= k < cs.len() && #[trigger] names(occs, cs[k], i)
}

/// How many of the first `n` occurrences some mate names.
pub open spec fn constrained_count(occs: Seq<Occurrence>, cs: Seq<MateConstraint>, n: int) -> nat
    decreases n,
{
    if n <= 0 {
        0
    } else {
        constrained_count(occs, cs, n - 1) + if constrained(occs, cs, n - 1) {
            1nat
        } else {
            0nat
        }
    }
}

/// Three degrees of freedom for each occurrence beyond a spanning tree of the mates.
pub open spec fn dof_estimate(n: int, m: int) -> int {
    if n > m + 1 {
        (n - (m + 1)) * 3
    } else {
        0
    }
}

/// `p` is the plan of a valid assembly.
pub open spec fn plan_of(occs: Seq<Occurrence>, cs: Seq<MateConstraint>, p: AssemblyPlan) -> bool {
    let t = propagation(occs, cs);
    &&& p.steps@ == t.steps
    &&& p.solved@ == t.solved
    &&& p.all_connected == (forall|i: int| 0 <= i < occs.len() ==> #[trigger] t.solved[i])
    &&& p.constrained_occurrence_count == constrained_count(occs, cs, occs.len() as int)
    &&& p.total_mate_count == cs.len()
    &&& p.degrees_of_freedom_estimate == dof_estimate(occs.len() as int, cs.len() as int)
}

fn position(occurrences: &[Occurrence], id: &str) -> (r: usize)
    ensures
        r == position_of(occurrences@, id@),
        r <= occurrences@.len(),
{
    let n = occurrences.len();
    let mut i: usize = 0;
    while i < n
        invariant
            n == occurrences@.len(),
            i <= n,
            position_of(occurrences@, id@) == position_from(occurrences@, id@, i as int),
        decreases n - i,
    {
        if str_eq(occurrences[i].id.as_str(), id) {
            return i;
        }
        i = i + 1;
    }
    n
}

fn check_occurrences(occurrences: &[Occurrence]) -> (ok: bool)
    ensures
        ok == occurrences_ok(occurrences@),
{
    let n = occurrences.len();
    let mut i: usize = 0;
    while i < n
        invariant
            n == occurrences@.len(),
            i <= n,
            forall|a: int| 0 <= a < i ==> #[trigger] occurrence_ok(occurrences@, a),
        decreases n - i,
    {
        if occurrences[i].id.as_str().is_empty() || occurrences[i].definition_entity_id.as_str().is_empty() {
            assert(!occurrence_ok(occurrences@, i as int));
            return false;
        }
        let mut j: usize = 0;
        while j < i
            invariant
                n == occurrences@.len(),
                j <= i < n,
                forall|b: int| 0 <= b < j ==> occurrences@[b].id@ != occurrences@[i as int].id@,
            decreases i - j,
        {
            if str_eq(occurrences[j].id.as_str(), occurrences[i].id.as_str()) {
                assert(!occurrence_ok(occurrences@, i as int));
                return false;
            }
            j = j + 1;
        }
        i = i + 1;
    }
    true
}

fn pair_repeated(constraints: &[MateConstraint], k: usize) -> (r: bool)
    requires
        k < constraints@.len(),
    ensures
        r == exists|j: int| 0 <= j < k && #[trigger] same_pair(constraints@[j], constraints@[k as int]),
{
    let c = &constraints[k];
    let mut j: usize = 0;
    while j < k
        invariant
            k < constraints@.len(),
            j <= k,
            *c == constraints@[k as int],
            forall|b: int| 0 <= b < j ==> !#[trigger] same_pair(constraints@[b], constraints@[k as int]),
        decreases k - j,
    {
        let d = &constraints[j];
        if (str_eq(d.left_occurrence_id.as_str(), c.left_occurrence_id.as_str()) && str_eq(
            d.right_occurrence_id.as_str(),
            c.right_occurrence_id.as_str(),
        )) || (str_eq(d.left_occurrence_id.as_str(), c.right_occurrence_id.as_str()) && str_eq(
            d.right_occurrence_id.as_str(),
            c.left_occurrence_id.as_str(),
        )) {
            assert(same_pair(constraints@[j as int], constraints@[k as int]));
            return true;
        }
        j = j + 1;
    }
    false
}


proof fn lemma_error_stays(occs: Seq<Occurrence>, cs: Seq<MateConstraint>, k: int, m: int)
    requires
        0 <= k <= m <= cs.len(),
        constraints_error(occs, cs.take(k)) is Some,
    ensures
        constraints_error(occs, cs.take(m)) == constraints_error(occs, cs.take(k)),
    decreases m - k,
{
    if k < m {
        lemma_error_stays(occs, cs, k, m - 1);
        assert(cs.take(m).drop_last() =~= cs.take(m - 1));
    }
}

/// Checks the mates in order and gives, for each, the positions of its two sides.
fn check_constraints(occurrences: &[Occurrence], constraints: &[MateConstraint]) -> (r: Result<Vec<(usize, usize)>, AssemblyError>)
    ensures
        match constraints_error(occurrences@, constraints@) {
            Some(e) => r == Err::<Vec<(usize, usize)>, AssemblyError>(e),
            None => r matches Ok(ends) && ends@.len() == constraints@.len() && forall|k: int|
                0 <= k < ends@.len() ==> {
                    &&& (#[trigger] ends@[k]).0 == position_of(occurrences@, constraints@[k].left_occurrence_id@)
                    &&& ends@[k].1 == position_of(occurrences@, constraints@[k].right_occurrence_id@)
                    &&& ends@[k].0 < occurrences@.len()
                    &&& ends@[k].1 < occurrences@.len()
                    &&& ends@[k].0 != ends@[k].1
                },
        },
{
    let m = constraints.len();
    let mut ends: Vec<(usize, usize)> = Vec::new();
    let mut k: usize = 0;
    while k < m
        invariant
            m == constraints@.len(),
            k <= m,
            constraints_error(occurrences@, constraints@.take(k as int)) is None,
            ends@.len() == k,
            forall|j: int|
                0 <= j < k ==> {
                    &&& (#[trigger] ends@[j]).0 == position_of(occurrences@, constraints@[j].left_occurrence_id@)
                    &&& ends@[j].1 == position_of(occurrences@, constraints@[j].right_occurrence_id@)
                    &&& ends@[j].0 < occurrences@.len()
                    &&& ends@[j].1 < occurrences@.len()
                    &&& ends@[j].0 != ends@[j].1
                },
        decreases m - k,
    {
        let c = &constraints[k];
        let ghost prefix = constraints@.take(k as int);
        assert(constraints@.take(k + 1).drop_last() =~= prefix);
        assert(constraints@.take(k + 1).last() == constraints@[k as int]);
        assert forall|j: int| 0 <= j < prefix.len() implies prefix[j] == constraints@[j] by {}
        let mut err: Option<AssemblyError> = None;
        let l = position(occurrences, c.left_occurrence_id.as_str());
        let r = position(occurrences, c.right_occurrence_id.as_str());
        if str_eq(c.left_occurrence_id.as_str(), c.right_occurrence_id.as_str()) {
            err = Some(AssemblyError::InvalidConstraintGraph);
        } else if l == occurrences.len() || r == occurrences.len() {
            err = Some(AssemblyError::InvalidConstraintGraph);
        } else if match c.mate_type {
            MateType::Offset { distance_mm } => bits_lt(distance_mm, 0),
            MateType::Coincident => false,
        } {
            err = Some(AssemblyError::NegativeOffset);
        } else if pair_repeated(constraints, k) {
            proof {
                let j = choose|j: int| 0 <= j < k && #[trigger] same_pair(constraints@[j], constraints@[k as int]);
                assert(same_pair(prefix[j], constraints@[k as int]));
            }
            err = Some(AssemblyError::InvalidConstraintGraph);
        } else {
            proof {
                assert forall|j: int| 0 <= j < prefix.len() implies !#[trigger] same_pair(prefix[j], constraints@[k as int]) by {
                    assert(prefix[j] == constraints@[j]);
                }
            }
        }
        assert(err == constraints_error(occurrences@, constraints@.take(k + 1)));
        if let Some(e) = err {
            proof {
                lemma_error_stays(occurrences@, constraints@, k + 1, m as int);
                assert(constraints@.take(m as int) =~= constraints@);
            }
            return Err(e);
        }
        proof {
            if l == r {
                assert(position_of(occurrences@, c.left_occurrence_id@) == position_of(occurrences@, c.right_occurrence_id@));
                lemma_position_found(occurrences@, c.left_occurrence_id@, 0);
                lemma_position_found(occurrences@, c.right_occurrence_id@, 0);
            }
        }
        ends.push((l, r));
        k = k + 1;
    }
    assert(constraints@.take(m as int) =~= constraints@);
    Ok(ends)
}

proof fn lemma_position_found(occs: Seq<Occurrence>, id: Seq<char>, i: int)
    requires
        0 <= i,
    ensures
        position_from(occs, id, i) < occs.len() ==> occs[position_from(occs, id, i)].id@ == id,
        i <= occs.len() ==> i <= position_from(occs, id, i) <= occs.len(),
    decreases occs.len() - i,
{
    if i < occs.len() {
        lemma_position_found(occs, id, i + 1);
    }
}

/// Number of `true` entries.
pub open spec fn count_true(s: Seq<bool>) -> nat
    decreases s.len(),
{
    if s.len() == 0 {
        0
    } else {
        count_true(s.drop_last()) + if s.last() {
            1nat
        } else {
            0nat
        }
    }
}

proof fn lemma_count_true_bound(s: Seq<bool>)
    ensures
        count_true(s) <= s.len(),
    decreases s.len(),
{
    if s.len() > 0 {
        lemma_count_true_bound(s.drop_last());
    }
}

proof fn lemma_count_true_set(s: Seq<bool>, v: int)
    requires
        0 <= v < s.len(),
        !s[v],
    ensures
        count_true(s.update(v, true)) == count_true(s) + 1,
    decreases s.len(),
{
    let t = s.update(v, true);
    if v == s.len() - 1 {
        assert(t.drop_last() =~= s.drop_last());
    } else {
        assert(t.drop_last() =~= s.drop_last().update(v, true));
        lemma_count_true_set(s.drop_last(), v);
    }
}


pub open spec fn queue_view(q: Seq<usize>) -> Seq<int> {
    q.map_values(|x: usize| x as int)
}

pub open spec fn traversal_of(queue: Seq<usize>, head: usize, solved: Seq<bool>, steps: Seq<PropagationStep>) -> Traversal {
    Traversal { queue: queue_view(queue), head: head as int, solved, steps }
}

/// Visits the mates of `u` in order, placing the partners not yet placed.
fn visit_mates(
    occurrences: &[Occurrence],
    constraints: &[MateConstraint],
    ends: &Vec<(usize, usize)>,
    u: usize,
    queue: &mut Vec<usize>,
    solved: &mut Vec<bool>,
    steps: &mut Vec<PropagationStep>,
    Ghost(head): Ghost<usize>,
)
    requires
        ends@.len() == constraints@.len(),
        forall|k: int|
            0 <= k < ends@.len() ==> {
                &&& (#[trigger] ends@[k]).0 == position_of(occurrences@, constraints@[k].left_occurrence_id@)
                &&& ends@[k].1 == position_of(occurrences@, constraints@[k].right_occurrence_id@)
                &&& ends@[k].0 < occurrences@.len()
                &&& ends@[k].1 < occurrences@.len()
            },
        old(solved)@.len() == occurrences@.len(),
        old(queue)@.len() == count_true(old(solved)@),
        forall|q: int| 0 <= q < old(queue)@.len() ==> #[trigger] old(queue)@[q] < occurrences@.len(),
    ensures
        final(solved)@.len() == occurrences@.len(),
        final(queue)@.len() == count_true(final(solved)@),
        old(queue)@.len() <= final(queue)@.len(),
        forall|q: int| 0 <= q < final(queue)@.len() ==> #[trigger] final(queue)@[q] < occurrences@.len(),
        visit(occurrences@, constraints@, u as int, 0, traversal_of(old(queue)@, head, old(solved)@, old(steps)@))
            == traversal_of(final(queue)@, head, final(solved)@, final(steps)@),
{
    let m = constraints.len();
    let ghost start = traversal_of(queue@, head, solved@, steps@);
    let mut k: usize = 0;
    while k < m
        invariant
            m == constraints@.len(),
            k <= m,
            ends@.len() == constraints@.len(),
            forall|j: int|
                0 <= j < ends@.len() ==> {
                    &&& (#[trigger] ends@[j]).0 == position_of(occurrences@, constraints@[j].left_occurrence_id@)
                    &&& ends@[j].1 == position_of(occurrences@, constraints@[j].right_occurrence_id@)
                    &&& ends@[j].0 < occurrences@.len()
                    &&& ends@[j].1 < occurrences@.len()
                },
            solved@.len() == occurrences@.len(),
            queue@.len() == count_true(solved@),
            old(queue)@.len() <= queue@.len(),
            forall|q: int| 0 <= q < queue@.len() ==> #[trigger] queue@[q] < occurrences@.len(),
            visit(occurrences@, constraints@, u as int, 0, start) == visit(
                occurrences@,
                constraints@,
                u as int,
                k as int,
                traversal_of(queue@, head, solved@, steps@),
            ),
        decreases m - k,
    {
        let (l, r) = ends[k];
        if l == u || r == u {
            let v = if l == u {
                r
            } else {
                l
            };
            let step = PropagationStep {
                constraint_index: k,
                from_index: u,
                to_index: v,
                solves: !solved[v],
                toward_right: v == r,
            };
            if solved[v] {
                steps.push(step);
            } else {
                let ghost old_queue = queue@;
                proof {
                    lemma_count_true_set(solved@, v as int);
                }
                solved.set(v, true);
                queue.push(v);
                steps.push(step);
                assert(queue_view(queue@) =~= queue_view(old_queue).push(v as int));
            }
        }
        k = k + 1;
    }
}

/// Validates the assembly and computes its propagation plan: the mates are
/// traversed breadth first from the first occurrence, each mate of a
/// dequeued occurrence either placing its partner or checking it.
pub fn plan_assembly(occurrences: &[Occurrence], constraints: &[MateConstraint]) -> (r: Result<AssemblyPlan, AssemblyError>)
    requires
        dof_estimate(occurrences@.len() as int, constraints@.len() as int) <= usize::MAX,
    ensures
        match assembly_error(occurrences@, constraints@) {
            Some(e) => r == Err::<AssemblyPlan, AssemblyError>(e),
            None => r matches Ok(p) && plan_of(occurrences@, constraints@, p),
        },
{
    let n = occurrences.len();
    let m = constraints.len();
    if n < 2 {
        return Err(AssemblyError::NotEnoughOccurrences);
    }
    if !check_occurrences(occurrences) {
        return Err(AssemblyError::InvalidOccurrenceSet);
    }
    let ends = match check_constraints(occurrences, constraints) {
        Err(e) => {
            return Err(e);
        },
        Ok(ends) => ends,
    };
    let mut solved: Vec<bool> = Vec::new();
    let mut i: usize = 0;
    while i < n
        invariant
            n == occurrences@.len(),
            i <= n,
            solved@ == Seq::new(i as nat, |j: int| j == 0),
            count_true(solved@) == if i > 0 {
                1nat
            } else {
                0nat
            },
        decreases n - i,
    {
        let ghost before = solved@;
        solved.push(i == 0);
        assert(solved@.drop_last() =~= before);
        assert(solved@ =~= Seq::new((i + 1) as nat, |j: int| j == 0));
        i = i + 1;
    }
    let mut queue: Vec<usize> = Vec::new();
    queue.push(0);
    let mut steps: Vec<PropagationStep> = Vec::new();
    let mut head: usize = 0;
    assert(queue_view(queue@) =~= seq![0int]);
    while head < queue.len()
        invariant
            n == occurrences@.len(),
            n >= 2,
            ends@.len() == constraints@.len(),
            forall|k: int|
                0 <= k < ends@.len() ==> {
                    &&& (#[trigger] ends@[k]).0 == position_of(occurrences@, constraints@[k].left_occurrence_id@)
                    &&& ends@[k].1 == position_of(occurrences@, constraints@[k].right_occurrence_id@)
                    &&& ends@[k].0 < occurrences@.len()
                    &&& ends@[k].1 < occurrences@.len()
                },
            solved@.len() == n,
            queue@.len() == count_true(solved@),
            head <= queue@.len(),
            forall|q: int| 0 <= q < queue@.len() ==> #[trigger] queue@[q] < n,
            propagation(occurrences@, constraints@) == traverse(
                occurrences@,
                constraints@,
                traversal_of(queue@, head, solved@, steps@),
                (n - head) as nat,
            ),
        decreases queue@.len() - head + (n - count_true(solved@)),
    {
        proof {
            lemma_count_true_bound(solved@);
        }
        let u = queue[head];
        let ghost before = traversal_of(queue@, head, solved@, steps@);
        assert(before.queue[head as int] == u as int);
        head = head + 1;
        visit_mates(occurrences, constraints, &ends, u, &mut queue, &mut solved, &mut steps, Ghost(head));
        proof {
            lemma_count_true_bound(solved@);
        }
    }
    let mut all_connected = true;
    let mut a: usize = 0;
    while a < n
        invariant
            n == occurrences@.len(),
            solved@.len() == n,
            a <= n,
            all_connected == (forall|j: int| 0 <= j < a ==> #[trigger] solved@[j]),
        decreases n - a,
    {
        if !solved[a] {
            all_connected = false;
        }
        a = a + 1;
    }
    let mut constrained_occurrence_count: usize = 0;
    let mut b: usize = 0;
    while b < n
        invariant
            n == occurrences@.len(),
            m == constraints@.len(),
            b <= n,
            ends@.len() == constraints@.len(),
            forall|k: int|
                0 <= k < ends@.len() ==> {
                    &&& (#[trigger] ends@[k]).0 == position_of(occurrences@, constraints@[k].left_occurrence_id@)
                    &&& ends@[k].1 == position_of(occurrences@, constraints@[k].right_occurrence_id@)
                },
            constrained_occurrence_count == constrained_count(occurrences@, constraints@, b as int),
            constrained_occurrence_count <= b,
        decreases n - b,
    {
        let mut hit = false;
        let mut k: usize = 0;
        while k < m
            invariant
                m == constraints@.len(),
                k <= m,
                ends@.len() == constraints@.len(),
                forall|j: int|
                    0 <= j < ends@.len() ==> {
                        &&& (#[trigger] ends@[j]).0 == position_of(occurrences@, constraints@[j].left_occurrence_id@)
                        &&& ends@[j].1 == position_of(occurrences@, constraints@[j].right_occurrence_id@)
                    },
                hit == exists|j: int| 0 <= j < k && #[trigger] names(occurrences@, constraints@[j], b as int),
            decreases m - k,
        {
            let (l, r) = ends[k];
            assert(ends@[k as int].0 == l);
            assert(names(occurrences@, constraints@[k as int], b as int) == (l == b || r == b));
            if l == b || r == b {
                hit = true;
            }
            k = k + 1;
        }
        if hit {
            constrained_occurrence_count = constrained_occurrence_count + 1;
        }
        b = b + 1;
    }
    let degrees_of_freedom_estimate: usize = if n > m && n - m > 1 {
        (n - m - 1) * 3
    } else {
        0
    };
    Ok(
        AssemblyPlan {
            steps,
            solved,
            all_connected,
            constrained_occurrence_count,
            total_mate_count: m,
            degrees_of_freedom_estimate,
        },
    )
}

/// Solved when every occurrence is placed and no mate contradicts a placement.
pub fn assembly_status(all_connected: bool, conflict_detected: bool) -> (s: AssemblySolveStatus)
    ensures
        s == (if all_connected && !conflict_detected {
            AssemblySolveStatus::Solved
        } else {
            AssemblySolveStatus::Conflicting
        }),
{
    if all_connected && !conflict_detected {
        AssemblySolveStatus::Solved
    } else {
        AssemblySolveStatus::Conflicting
    }
}

/// An occurrence and where the solve placed it.
#[derive(Debug, Clone, PartialEq, Eq)]
pub struct SolvedOccurrence {
    pub occurrence_id: String,
    pub transform: Transform3D,
}

/// The outcome of solving an assembly.
#[derive(Debug, PartialEq, Eq)]
pub struct AssemblySolveReport {
    pub status: AssemblySolveStatus,
    pub constrained_occurrence_count: usize,
    pub total_mate_count: usize,
    pub degrees_of_freedom_estimate: usize,
    pub solved_occurrences: Vec<SolvedOccurrence>,
    pub warnings: Vec<String>,
}

/// The steps of `plan` name known mates and occurrences, and it has one
/// placement flag per occurrence.
pub open spec fn plan_indices_ok(occs: Seq<Occurrence>, cs: Seq<MateConstraint>, plan: AssemblyPlan) -> bool {
    &&& plan.solved@.len() == occs.len()
    &&& forall|k: int|
        0 <= k < plan.steps@.len() ==> (#[trigger] plan.steps@[k]).constraint_index < cs.len()
            && plan.steps@[k].to_index < occs.len()
}

/// Where the report puts occurrence `i`: the first occurrence stays where
/// it is, a placed one goes where propagation put it, any other stays.
pub open spec fn placement_of(occs: Seq<Occurrence>, plan: AssemblyPlan, placements: Seq<Transform3D>, i: int) -> Transform3D {
    if i == 0 {
        occs[0].transform
    } else if plan.solved@[i] {
        placements[i]
    } else {
        occs[i].transform
    }
}

/// One warning per checking step whose placement disagreed (`conflicts[k]`
/// for step `k`), in step order.
pub open spec fn conflict_warnings(
    occs: Seq<Occurrence>,
    cs: Seq<MateConstraint>,
    steps: Seq<PropagationStep>,
    conflicts: Seq<bool>,
) -> Seq<Seq<char>>
    decreases steps.len(),
{
    if steps.len() == 0 || conflicts.len() != steps.len() {
        Seq::empty()
    } else {
        let rest = conflict_warnings(occs, cs, steps.drop_last(), conflicts.drop_last());
        let st = steps.last();
        if !st.solves && conflicts.last() {
            rest.push(
                "constraint `"@ + cs[st.constraint_index as int].id@ + "` over-constrains occurrence `"@
                    + occs[st.to_index as int].id@ + "`"@,
            )
        } else {
            rest
        }
    }
}

/// Some checking step disagreed.
pub open spec fn any_conflict(steps: Seq<PropagationStep>, conflicts: Seq<bool>) -> bool {
    exists|k: int| 0 <= k < steps.len() && !(#[trigger] steps[k]).solves && conflicts[k]
}

/// The warnings of a report: the disagreements, then a note when some
/// occurrence stayed unplaced.
pub open spec fn report_warnings(occs: Seq<Occurrence>, cs: Seq<MateConstraint>, plan: AssemblyPlan, conflicts: Seq<bool>) -> Seq<Seq<char>> {
    conflict_warnings(occs, cs, plan.steps@, conflicts) + if plan.all_connected {
        Seq::empty()
    } else {
        seq!["assembly graph is under-connected"@]
    }
}

proof fn lemma_conflict_warnings_empty(occs: Seq<Occurrence>, cs: Seq<MateConstraint>, steps: Seq<PropagationStep>, conflicts: Seq<bool>)
    requires
        conflicts.len() == steps.len(),
    ensures
        (conflict_warnings(occs, cs, steps, conflicts).len() == 0) == !any_conflict(steps, conflicts),
    decreases steps.len(),
{
    if steps.len() > 0 {
        let s0 = steps.drop_last();
        let c0 = conflicts.drop_last();
        lemma_conflict_warnings_empty(occs, cs, s0, c0);
        if any_conflict(s0, c0) {
            let k = choose|k: int| 0 <= k < s0.len() && !(#[trigger] s0[k]).solves && c0[k];
            assert(!steps[k].solves && conflicts[k]);
        }
        if any_conflict(steps, conflicts) {
            let k = choose|k: int| 0 <= k < steps.len() && !(#[trigger] steps[k]).solves && conflicts[k];
            if k < steps.len() - 1 {
                assert(!s0[k].solves && c0[k]);
            }
        }
    }
}

/// The report of a solve that followed `plan`: `placements[i]` is where
/// propagation placed occurrence `i` (read only for placed occurrences
/// other than the first), `conflicts[k]` whether checking step `k` found
/// its occurrence elsewhere than the mate asks. The status is solved when
/// every occurrence is placed and no check disagreed.
pub fn assembly_report(
    occurrences: &[Occurrence],
    constraints: &[MateConstraint],
    plan: &AssemblyPlan,
    placements: &[Transform3D],
    conflicts: &[bool],
) -> (r: AssemblySolveReport)
    requires
        occurrences@.len() > 0,
        placements@.len() == occurrences@.len(),
        conflicts@.len() == plan.steps@.len(),
        plan_indices_ok(occurrences@, constraints@, *plan),
    ensures
        r.status == (if plan.all_connected && !any_conflict(plan.steps@, conflicts@) {
            AssemblySolveStatus::Solved
        } else {
            AssemblySolveStatus::Conflicting
        }),
        r.constrained_occurrence_count == plan.constrained_occurrence_count,
        r.total_mate_count == plan.total_mate_count,
        r.degrees_of_freedom_estimate == plan.degrees_of_freedom_estimate,
        r.solved_occurrences@.len() == occurrences@.len(),
        forall|i: int|
            0 <= i < occurrences@.len() ==> (#[trigger] r.solved_occurrences@[i]).occurrence_id@ == occurrences@[i].id@
                && r.solved_occurrences@[i].transform == placement_of(occurrences@, *plan, placements@, i),
        r.warnings@.map_values(|w: String| w@) == report_warnings(occurrences@, constraints@, *plan, conflicts@),
        (r.warnings@.len() == 0) == (r.status == AssemblySolveStatus::Solved),
{
    let m = plan.steps.len();
    let mut warnings: Vec<String> = Vec::new();
    let mut conflict = false;
    let mut k: usize = 0;
    while k < m
        invariant
            m == plan.steps@.len(),
            m == conflicts@.len(),
            plan_indices_ok(occurrences@, constraints@, *plan),
            k <= m,
            warnings@.map_values(|w: String| w@) == conflict_warnings(
                occurrences@,
                constraints@,
                plan.steps@.take(k as int),
                conflicts@.take(k as int),
            ),
            conflict == any_conflict(plan.steps@.take(k as int), conflicts@.take(k as int)),
        decreases m - k,
    {
        let ghost s1 = plan.steps@.take(k + 1);
        let ghost c1 = conflicts@.take(k + 1);
        assert(s1.drop_last() =~= plan.steps@.take(k as int));
        assert(c1.drop_last() =~= conflicts@.take(k as int));
        let st = plan.steps[k];
        assert(st == plan.steps@[k as int]);
        if !st.solves && conflicts[k] {
            let mut w = String::from_str("constraint `");
            w.append(constraints[st.constraint_index].id.as_str());
            w.append("` over-constrains occurrence `");
            w.append(occurrences[st.to_index].id.as_str());
            w.append("`");
            let ghost before = warnings@;
            warnings.push(w);
            assert(warnings@.map_values(|w: String| w@) =~= before.map_values(|w: String| w@).push(w@));
            conflict = true;
            assert(!s1[k as int].solves && c1[k as int]);
        } else {
            proof {
                if any_conflict(s1, c1) {
                    let j = choose|j: int| 0 <= j < s1.len() && !(#[trigger] s1[j]).solves && c1[j];
                    assert(j < k);
                    assert(!plan.steps@.take(k as int)[j].solves && conflicts@.take(k as int)[j]);
                }
            }
        }
        proof {
            if conflict && any_conflict(plan.steps@.take(k as int), conflicts@.take(k as int)) {
                let j = choose|j: int|
                    0 <= j < plan.steps@.take(k as int).len() && !(#[trigger] plan.steps@.take(k as int)[j]).solves
                        && conflicts@.take(k as int)[j];
                assert(!s1[j].solves && c1[j]);
            }
        }
        k = k + 1;
    }
    assert(plan.steps@.take(m as int) =~= plan.steps@);
    assert(conflicts@.take(m as int) =~= conflicts@);
    proof {
        lemma_conflict_warnings_empty(occurrences@, constraints@, plan.steps@, conflicts@);
    }
    if !plan.all_connected {
        let ghost before = warnings@;
        warnings.push(String::from_str("assembly graph is under-connected"));
        assert(warnings@.map_values(|w: String| w@) =~= before.map_values(|w: String| w@).push(
            "assembly graph is under-connected"@,
        ));
    }
    let n = occurrences.len();
    let mut solved: Vec<SolvedOccurrence> = Vec::new();
    let mut i: usize = 0;
    while i < n
        invariant
            n == occurrences@.len(),
            n == placements@.len(),
            plan.solved@.len() == n,
            i <= n,
            solved@.len() == i,
            forall|j: int|
                0 <= j < i ==> (#[trigger] solved@[j]).occurrence_id@ == occurrences@[j].id@ && solved@[j].transform
                    == placement_of(occurrences@, *plan, placements@, j),
        decreases n - i,
    {
        let transform = if i == 0 {
            occurrences[0].transform
        } else if plan.solved[i] {
            placements[i]
        } else {
            occurrences[i].transform
        };
        solved.push(SolvedOccurrence { occurrence_id: occurrences[i].id.clone(), transform });
        i = i + 1;
    }
    AssemblySolveReport {
        status: assembly_status(plan.all_connected, conflict),
        constrained_occurrence_count: plan.constrained_occurrence_count,
        total_mate_count: plan.total_mate_count,
        degrees_of_freedom_estimate: plan.degrees_of_freedom_estimate,
        solved_occurrences: solved,
        warnings,
    }
}

} // verus!
