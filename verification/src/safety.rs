//! Safety interlock evaluation: which active zones inhibit an attempted action.
use vstd::prelude::*;
use crate::text::str_eq;

verus! {

#[derive(Debug, Clone, Copy, PartialEq, Eq, Structural)]
pub enum SafetyZoneKind {
    ProtectiveStop,
    Warning,
    LidarProtective,
}

#[derive(Debug, Clone, PartialEq, Eq)]
pub struct SafetyZone {
    pub id: String,
    pub kind: SafetyZoneKind,
    pub active: bool,
}

#[derive(Debug, Clone, PartialEq, Eq)]
pub struct SafetyInterlock {
    pub id: String,
    pub source_zone_id: String,
    pub inhibited_action: String,
    pub requires_manual_reset: bool,
}

#[derive(Debug, Clone, Copy, PartialEq, Eq, Structural)]
pub enum SafetyStatus {
    Clear,
    Warning,
    Blocked,
}

#[derive(Debug, Clone, PartialEq, Eq)]
pub struct SafetyEvaluation {
    pub status: SafetyStatus,
    pub inhibited: bool,
    pub cause_zone_ids: Vec<String>,
    pub active_zone_count: usize,
    pub blocking_interlock_count: usize,
    pub advisory_zone_count: usize,
}

/// Some active zone of `zones` has id `id`.
pub open spec fn has_active_zone(zones: Seq<SafetyZone>, id: Seq<char>) -> bool {
    exists|i: int| 0 <= i < zones.len() && #[trigger] zones[i].active && zones[i].id@ == id
}

/// The interlock fires for `action`: it inhibits that action and its source zone is active.
pub open spec fn interlock_fires(zones: Seq<SafetyZone>, interlock: SafetyInterlock, action: Seq<char>) -> bool {
    interlock.inhibited_action@ == action && has_active_zone(zones, interlock.source_zone_id@)
}

/// The source zone ids of the interlocks that fire, in interlock order.
pub open spec fn cause_ids(zones: Seq<SafetyZone>, interlocks: Seq<SafetyInterlock>, action: Seq<char>) -> Seq<Seq<char>>
    decreases interlocks.len(),
{
    if interlocks.len() == 0 {
        Seq::empty()
    } else {
        let rest = cause_ids(zones, interlocks.drop_last(), action);
        if interlock_fires(zones, interlocks.last(), action) {
            rest.push(interlocks.last().source_zone_id@)
        } else {
            rest
        }
    }
}

/// Number of active zones.
pub open spec fn active_count(zones: Seq<SafetyZone>) -> nat
    decreases zones.len(),
{
    if zones.len() == 0 {
        0
    } else {
        active_count(zones.drop_last()) + if zones.last().active { 1nat } else { 0nat }
    }
}

/// Number of active warning zones.
pub open spec fn advisory_count(zones: Seq<SafetyZone>) -> nat
    decreases zones.len(),
{
    if zones.len() == 0 {
        0
    } else {
        advisory_count(zones.drop_last()) + if zones.last().active && zones.last().kind
            == SafetyZoneKind::Warning {
            1nat
        } else {
            0nat
        }
    }
}

/// The status that blocking causes and advisory zones give.
pub open spec fn status_spec(blocking: nat, advisory: nat) -> SafetyStatus {
    if blocking > 0 {
        SafetyStatus::Blocked
    } else if advisory > 0 {
        SafetyStatus::Warning
    } else {
        SafetyStatus::Clear
    }
}

proof fn lemma_advisory_le_active(zones: Seq<SafetyZone>)
    ensures
        advisory_count(zones) <= active_count(zones) <= zones.len(),
    decreases zones.len(),
{
    if zones.len() > 0 {
        lemma_advisory_le_active(zones.drop_last());
    }
}

proof fn lemma_causes_are_active(zones: Seq<SafetyZone>, interlocks: Seq<SafetyInterlock>, action: Seq<char>)
    ensures
        forall|k: int|
            0 <= k < cause_ids(zones, interlocks, action).len() ==> has_active_zone(
                zones,
                #[trigger] cause_ids(zones, interlocks, action)[k],
            ),
        cause_ids(zones, interlocks, action).len() <= interlocks.len(),
    decreases interlocks.len(),
{
    if interlocks.len() > 0 {
        lemma_causes_are_active(zones, interlocks.drop_last(), action);
    }
}

fn find_active_zone(zones: &[SafetyZone], id: &str) -> (r: bool)
    ensures
        r == has_active_zone(zones@, id@),
{
    let n = zones.len();
    let mut i: usize = 0;
    while i < n
        invariant
            n == zones@.len(),
            i <= n,
            forall|j: int| 0 <= j < i ==> !(#[trigger] zones@[j].active && zones@[j].id@ == id@),
        decreases n - i,
    {
        if zones[i].active && str_eq(zones[i].id.as_str(), id) {
            assert(zones@[i as int].active && zones@[i as int].id@ == id@);
            return true;
        }
        i = i + 1;
    }
    false
}

/// Evaluates whether `attempted_action` is inhibited by an interlock whose
/// source zone is active, and whether advisory zones call for a warning.
pub fn evaluate_safety(
    zones: &[SafetyZone],
    interlocks: &[SafetyInterlock],
    attempted_action: &str,
) -> (e: SafetyEvaluation)
    ensures
        e.cause_zone_ids@.map_values(|s: String| s@) == cause_ids(zones@, interlocks@, attempted_action@),
        e.blocking_interlock_count == e.cause_zone_ids@.len(),
        e.active_zone_count == active_count(zones@),
        e.advisory_zone_count == advisory_count(zones@),
        e.status == status_spec(e.blocking_interlock_count as nat, e.advisory_zone_count as nat),
        e.inhibited == (e.blocking_interlock_count > 0),
        e.inhibited <==> e.status == SafetyStatus::Blocked,
        e.advisory_zone_count <= e.active_zone_count <= zones@.len(),
        e.blocking_interlock_count <= interlocks@.len(),
        forall|k: int|
            0 <= k < e.cause_zone_ids@.len() ==> has_active_zone(zones@, #[trigger] e.cause_zone_ids@[k]@),
{
    let n = zones.len();
    let mut active: usize = 0;
    let mut advisory: usize = 0;
    let mut i: usize = 0;
    while i < n
        invariant
            n == zones@.len(),
            i <= n,
            active == active_count(zones@.take(i as int)),
            advisory == advisory_count(zones@.take(i as int)),
            active <= i,
        decreases n - i,
    {
        assert(zones@.take(i + 1).drop_last() =~= zones@.take(i as int));
        proof {
            lemma_advisory_le_active(zones@.take(i as int));
        }
        if zones[i].active {
            active = active + 1;
            match zones[i].kind {
                SafetyZoneKind::Warning => {
                    advisory = advisory + 1;
                },
                _ => {},
            }
        }
        i = i + 1;
    }
    assert(zones@.take(n as int) =~= zones@);

    let m = interlocks.len();
    let mut causes: Vec<String> = Vec::new();
    let mut j: usize = 0;
    while j < m
        invariant
            m == interlocks@.len(),
            j <= m,
            causes@.map_values(|s: String| s@) == cause_ids(zones@, interlocks@.take(j as int), attempted_action@),
        decreases m - j,
    {
        assert(interlocks@.take(j + 1).drop_last() =~= interlocks@.take(j as int));
        let interlock = &interlocks[j];
        if str_eq(interlock.inhibited_action.as_str(), attempted_action) && find_active_zone(
            zones,
            interlock.source_zone_id.as_str(),
        ) {
            causes.push(interlock.source_zone_id.clone());
        }
        assert(causes@.map_values(|s: String| s@) =~= cause_ids(zones@, interlocks@.take(j + 1), attempted_action@));
        j = j + 1;
    }
    assert(interlocks@.take(m as int) =~= interlocks@);
    proof {
        lemma_advisory_le_active(zones@);
        lemma_causes_are_active(zones@, interlocks@, attempted_action@);
        assert forall|k: int| 0 <= k < causes@.len() implies has_active_zone(zones@, #[trigger] causes@[k]@) by {
            assert(causes@.map_values(|s: String| s@)[k] == causes@[k]@);
        }
    }
    let blocking = causes.len();
    let status = if blocking > 0 {
        SafetyStatus::Blocked
    } else if advisory > 0 {
        SafetyStatus::Warning
    } else {
        SafetyStatus::Clear
    };
    SafetyEvaluation {
        status,
        inhibited: blocking > 0,
        cause_zone_ids: causes,
        active_zone_count: active,
        blocking_interlock_count: blocking,
        advisory_zone_count: advisory,
    }
}

} // verus!
