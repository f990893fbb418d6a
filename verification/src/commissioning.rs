//! Commissioning on site: the capture session and its adjustment journal,
//! and the acceptance of as-built measurements against their tolerances.
//! Deviations and tolerances are held as the bit patterns of their `f32`
//! values (`f32::to_bits`).
use vstd::prelude::*;
use crate::floatbits::{bits32_is_nan, is_nan32, magnitude32, order_key32};

verus! {

/// `deviation.abs() <= tolerance` on the `f32` values; false when either is NaN.
pub open spec fn within_tolerance(deviation: u32, tolerance: u32) -> bool {
    !is_nan32(deviation) && !is_nan32(tolerance) && magnitude32(deviation) <= order_key32(tolerance)
}

fn bits_within_tolerance(deviation: u32, tolerance: u32) -> (r: bool)
    ensures
        r == within_tolerance(deviation, tolerance),
{
    if bits32_is_nan(deviation) || bits32_is_nan(tolerance) {
        return false;
    }
    let magnitude = deviation % 0x8000_0000;
    if tolerance >= 0x8000_0000 {
        magnitude == 0 && tolerance % 0x8000_0000 == 0
    } else {
        magnitude <= tolerance
    }
}

/// A measured deviation of an installed target from its nominal placement.
#[derive(Debug, Clone, PartialEq, Eq)]
pub struct AsBuiltMeasurement {
    pub id: String,
    pub target_id: String,
    pub deviation_mm: u32,
    pub tolerance_mm: u32,
    pub source_capture_id: String,
}

/// A capture taken on site.
#[derive(Debug, PartialEq, Eq)]
pub struct CommissioningCapture {
    pub id: String,
    pub source: String,
    pub capture_type: String,
    pub asset_ref: String,
}

/// An adjustment done or planned during commissioning.
#[derive(Debug, PartialEq, Eq)]
pub struct AdjustmentLogEntry {
    pub id: String,
    pub target_id: String,
    pub action: String,
    pub status: String,
}

/// A commissioning session; the progress ratio is the bit pattern of an `f32`.
#[derive(Debug)]
pub struct CommissioningSession {
    pub session_id: String,
    pub status: String,
    pub progress_ratio: u32,
    pub captures: Vec<CommissioningCapture>,
    pub adjustments: Vec<AdjustmentLogEntry>,
}

/// How many measurements are within tolerance and how many are not.
#[derive(Debug, Clone, Copy, PartialEq, Eq)]
pub struct CommissioningReport {
    pub accepted_count: usize,
    pub rejected_count: usize,
}

/// The progress of a session with `n` captures: `0.2` before any capture,
/// else `0.35 + 0.25 * n` in `f32` arithmetic, capped at `1.0`; the values
/// are the patterns of those `f32` results.
pub open spec fn progress_ratio_bits(n: nat) -> u32 {
    if n == 0 {
        0x3E4C_CCCD
    } else if n == 1 {
        0x3F19_999A
    } else if n == 2 {
        0x3F59_999A
    } else {
        0x3F80_0000
    }
}

/// The journal every session opens with.
pub open spec fn initial_adjustments(a: Seq<AdjustmentLogEntry>) -> bool {
    &&& a.len() == 2
    &&& a[0].id@ == "adj_001"@
    &&& a[0].target_id@ == "fixture.world"@
    &&& a[0].action@ == "verify network bindings"@
    &&& a[0].status@ == "done"@
    &&& a[1].id@ == "adj_002"@
    &&& a[1].target_id@ == "sensor_rig.main"@
    &&& a[1].action@ == "review lidar extrinsics"@
    &&& a[1].status@ == "pending"@
}

fn adjustment(id: &str, target_id: &str, action: &str, status: &str) -> (e: AdjustmentLogEntry)
    ensures
        e.id@ == id@,
        e.target_id@ == target_id@,
        e.action@ == action@,
        e.status@ == status@,
{
    AdjustmentLogEntry {
        id: String::from_str(id),
        target_id: String::from_str(target_id),
        action: String::from_str(action),
        status: String::from_str(status),
    }
}

/// Opens a session on `captures`: `open` without captures, `capturing` with
/// some, with the standard adjustment journal.
pub fn start_commissioning_session(session_id: String, captures: Vec<CommissioningCapture>) -> (s: CommissioningSession)
    ensures
        s.session_id == session_id,
        s.status@ == (if captures@.len() == 0 { "open"@ } else { "capturing"@ }),
        s.progress_ratio == progress_ratio_bits(captures@.len()),
        s.captures@ == captures@,
        initial_adjustments(s.adjustments@),
{
    let n = captures.len();
    let progress_ratio: u32 = if n == 0 {
        0x3E4C_CCCD
    } else if n == 1 {
        0x3F19_999A
    } else if n == 2 {
        0x3F59_999A
    } else {
        0x3F80_0000
    };
    let status = if n == 0 { String::from_str("open") } else { String::from_str("capturing") };
    let mut adjustments: Vec<AdjustmentLogEntry> = Vec::new();
    adjustments.push(adjustment("adj_001", "fixture.world", "verify network bindings", "done"));
    adjustments.push(adjustment("adj_002", "sensor_rig.main", "review lidar extrinsics", "pending"));
    CommissioningSession { session_id, status, progress_ratio, captures, adjustments }
}

/// How many of `ms` are within their tolerance.
pub open spec fn accepted_count(ms: Seq<AsBuiltMeasurement>) -> nat
    decreases ms.len(),
{
    if ms.len() == 0 {
        0
    } else {
        accepted_count(ms.drop_last()) + if within_tolerance(ms.last().deviation_mm, ms.last().tolerance_mm) {
            1nat
        } else {
            0nat
        }
    }
}

proof fn lemma_accepted_bound(ms: Seq<AsBuiltMeasurement>)
    ensures
        accepted_count(ms) <= ms.len(),
    decreases ms.len(),
{
    if ms.len() > 0 {
        lemma_accepted_bound(ms.drop_last());
    }
}

/// Counts the measurements whose absolute deviation is within tolerance;
/// the others are rejected.
pub fn build_commissioning_report(measurements: &[AsBuiltMeasurement]) -> (r: CommissioningReport)
    ensures
        r.accepted_count == accepted_count(measurements@),
        r.rejected_count == measurements@.len() - accepted_count(measurements@),
{
    let n = measurements.len();
    let mut accepted: usize = 0;
    let mut i: usize = 0;
    while i < n
        invariant
            n == measurements@.len(),
            i <= n,
            accepted == accepted_count(measurements@.subrange(0, i as int)),
        decreases n - i,
    {
        assert(measurements@.subrange(0, (i + 1) as int).drop_last() =~= measurements@.subrange(0, i as int));
        proof {
            lemma_accepted_bound(measurements@.subrange(0, i as int));
        }
        if bits_within_tolerance(measurements[i].deviation_mm, measurements[i].tolerance_mm) {
            accepted = accepted + 1;
        }
        i = i + 1;
    }
    assert(measurements@.subrange(0, n as int) =~= measurements@);
    proof {
        lemma_accepted_bound(measurements@);
    }
    CommissioningReport { accepted_count: accepted, rejected_count: n - accepted }
}

/// The largest absolute deviation of `ms`, NaN deviations skipped, `0.0`
/// when there is none: the pattern of `fold(0.0, f32::max)` over the
/// absolute values.
pub open spec fn max_abs_deviation_spec(ms: Seq<AsBuiltMeasurement>) -> u32
    decreases ms.len(),
{
    if ms.len() == 0 {
        0
    } else {
        let acc = max_abs_deviation_spec(ms.drop_last());
        let d = ms.last().deviation_mm;
        if !is_nan32(d) && magnitude32(d) > acc {
            magnitude32(d) as u32
        } else {
            acc
        }
    }
}

/// The largest absolute deviation among `measurements` (see
/// `max_abs_deviation_spec`), as an `f32` pattern.
pub fn max_abs_deviation(measurements: &[AsBuiltMeasurement]) -> (m: u32)
    ensures
        m == max_abs_deviation_spec(measurements@),
{
    let n = measurements.len();
    let mut acc: u32 = 0;
    let mut i: usize = 0;
    while i < n
        invariant
            n == measurements@.len(),
            i <= n,
            acc == max_abs_deviation_spec(measurements@.subrange(0, i as int)),
        decreases n - i,
    {
        assert(measurements@.subrange(0, (i + 1) as int).drop_last() =~= measurements@.subrange(0, i as int));
        let d = measurements[i].deviation_mm;
        let magnitude = d % 0x8000_0000;
        if !bits32_is_nan(d) && magnitude > acc {
            acc = magnitude;
        }
        i = i + 1;
    }
    assert(measurements@.subrange(0, n as int) =~= measurements@);
    acc
}

/// Acceptance looks at the size of a deviation only: flipping its sign
/// never changes whether it is within tolerance.
pub proof fn law_acceptance_ignores_deviation_sign(deviation: u32, tolerance: u32)
    ensures
        within_tolerance(deviation, tolerance) == within_tolerance(deviation ^ 0x8000_0000, tolerance),
{
    let flipped = deviation ^ 0x8000_0000;
    assert(flipped as int % 0x8000_0000 == deviation as int % 0x8000_0000) by (bit_vector)
        requires
            flipped == deviation ^ 0x8000_0000u32,
    ;
    assert((flipped as int / 0x80_0000) % 0x100 == (deviation as int / 0x80_0000) % 0x100) by (bit_vector)
        requires
            flipped == deviation ^ 0x8000_0000u32,
    ;
    assert(flipped as int % 0x80_0000 == deviation as int % 0x80_0000) by (bit_vector)
        requires
            flipped == deviation ^ 0x8000_0000u32,
    ;
}

/// Every measurement is either accepted or rejected, never both.
pub proof fn law_report_partitions_measurements(ms: Seq<AsBuiltMeasurement>)
    ensures
        accepted_count(ms) <= ms.len(),
        accepted_count(ms) + (ms.len() - accepted_count(ms)) == ms.len(),
{
    lemma_accepted_bound(ms);
}

} // verus!
