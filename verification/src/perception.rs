//! Perception of the cell: the seeded sensor rig, the checks on a
//! calibration and on a replayed dataset, the calibration warnings, and the
//! counts and verdict of a perception run. Offsets, angles, rates, ratios
//! and residuals are held as the bit patterns of their `f32` values; the
//! quality score, averages and scene deviations are `f32` arithmetic that
//! the caller computes.
use vstd::prelude::*;
use crate::floatbits::{bits32_le, bits32_lt, f32_le, f32_lt};
use crate::text::str_eq;

verus! {

#[derive(Debug, Clone, Copy, PartialEq, Eq, Structural)]
pub enum SensorKind {
    Lidar2d,
    Lidar3d,
    Camera,
    SafetyLidar,
}

/// A sensor on the rig; offsets, angles and rate are `f32` patterns.
#[derive(Debug, Clone, PartialEq, Eq)]
pub struct SensorMount {
    pub sensor_id: String,
    pub sensor_kind: SensorKind,
    pub frame_id: String,
    pub offset_mm: [u32; 3],
    pub yaw_pitch_roll_deg: [u32; 3],
    pub sample_rate_hz: u32,
}

#[derive(Debug, PartialEq, Eq)]
pub struct SensorRigDefinition {
    pub id: String,
    pub name: String,
    pub base_frame_id: String,
    pub mounts: Vec<SensorMount>,
}

/// One replayed frame; the coverage ratio is an `f32` pattern.
#[derive(Debug, Clone, Copy, PartialEq, Eq)]
pub struct PointCloudFrame {
    pub point_count: u32,
    pub coverage_ratio: u32,
    pub timestamp_ms: u32,
    pub observed_obstacle_count: u32,
}

/// A rig calibration; skew, residual and quality are `f32` patterns.
#[derive(Debug, PartialEq, Eq)]
pub struct CalibrationProfile {
    pub rig_id: String,
    pub status: String,
    pub sync_skew_ms: u32,
    pub residual_mm: u32,
    pub quality_score: u32,
    pub warnings: Vec<String>,
}

#[derive(Debug, Clone, Copy, PartialEq, Eq, Structural)]
pub enum PerceptionError {
    EmptyRig,
    EmptyDataset,
    InvalidCoverage,
    InvalidSyncSkew,
    InvalidResidual,
}

/// The text of a perception error.
pub fn perception_error_message(e: PerceptionError) -> (m: &'static str)
    ensures
        m@ == match e {
            PerceptionError::EmptyRig => "a sensor rig requires at least one mounted sensor"@,
            PerceptionError::EmptyDataset => "a perception replay requires at least one frame"@,
            PerceptionError::InvalidCoverage => "coverage ratios must stay between 0.0 and 1.0"@,
            PerceptionError::InvalidSyncSkew => "sync skew must stay between 0.0 and 50.0 ms"@,
            PerceptionError::InvalidResidual => "residual mm must stay non-negative"@,
        },
{
    match e {
        PerceptionError::EmptyRig => "a sensor rig requires at least one mounted sensor",
        PerceptionError::EmptyDataset => "a perception replay requires at least one frame",
        PerceptionError::InvalidCoverage => "coverage ratios must stay between 0.0 and 1.0",
        PerceptionError::InvalidSyncSkew => "sync skew must stay between 0.0 and 50.0 ms",
        PerceptionError::InvalidResidual => "residual mm must stay non-negative",
    }
}

pub open spec fn mount_spec(
    m: SensorMount,
    sensor_id: Seq<char>,
    kind: SensorKind,
    frame_id: Seq<char>,
    offset: [u32; 3],
    angles: [u32; 3],
    rate: u32,
) -> bool {
    &&& m.sensor_id@ == sensor_id
    &&& m.sensor_kind == kind
    &&& m.frame_id@ == frame_id
    &&& m.offset_mm == offset
    &&& m.yaw_pitch_roll_deg == angles
    &&& m.sample_rate_hz == rate
}

/// The demo rig in the cell frame: a front 3D lidar at (420, 120, 1650) mm
/// pitched -5°, 15 Hz; an overhead camera at 2400 mm pitched -90°, 30 Hz;
/// a safety lidar at (850, -300, 700) mm rolled 180°, 25 Hz.
pub open spec fn seeded_rig_spec(r: SensorRigDefinition, id: Seq<char>, name: Seq<char>) -> bool {
    let m = r.mounts@;
    &&& r.id@ == id
    &&& r.name@ == name
    &&& r.base_frame_id@ == "cell.world"@
    &&& m.len() == 3
    &&& mount_spec(
        m[0],
        "sensor_lidar_front"@,
        SensorKind::Lidar3d,
        "cell.lidar.front"@,
        [0x43D2_0000u32, 0x42F0_0000u32, 0x44CE_4000u32],
        [0u32, 0xC0A0_0000u32, 0u32],
        0x4170_0000u32,
    )
    &&& mount_spec(
        m[1],
        "sensor_cam_overhead"@,
        SensorKind::Camera,
        "cell.camera.overhead"@,
        [0u32, 0u32, 0x4516_0000u32],
        [0u32, 0xC2B4_0000u32, 0u32],
        0x41F0_0000u32,
    )
    &&& mount_spec(
        m[2],
        "sensor_safety_gate"@,
        SensorKind::SafetyLidar,
        "cell.lidar.safety"@,
        [0x4454_8000u32, 0xC396_0000u32, 0x442F_0000u32],
        [0u32, 0u32, 0x4334_0000u32],
        0x41C8_0000u32,
    )
}

fn mount(
    sensor_id: &str,
    sensor_kind: SensorKind,
    frame_id: &str,
    offset_mm: [u32; 3],
    yaw_pitch_roll_deg: [u32; 3],
    sample_rate_hz: u32,
) -> (m: SensorMount)
    ensures
        mount_spec(m, sensor_id@, sensor_kind, frame_id@, offset_mm, yaw_pitch_roll_deg, sample_rate_hz),
{
    SensorMount {
        sensor_id: String::from_str(sensor_id),
        sensor_kind,
        frame_id: String::from_str(frame_id),
        offset_mm,
        yaw_pitch_roll_deg,
        sample_rate_hz,
    }
}

pub fn seeded_sensor_rig(id: String, name: String) -> (r: SensorRigDefinition)
    ensures
        seeded_rig_spec(r, id@, name@),
{
    let mut mounts: Vec<SensorMount> = Vec::new();
    mounts.push(
        mount(
            "sensor_lidar_front",
            SensorKind::Lidar3d,
            "cell.lidar.front",
            [0x43D2_0000, 0x42F0_0000, 0x44CE_4000],
            [0, 0xC0A0_0000, 0],
            0x4170_0000,
        ),
    );
    mounts.push(
        mount(
            "sensor_cam_overhead",
            SensorKind::Camera,
            "cell.camera.overhead",
            [0, 0, 0x4516_0000],
            [0, 0xC2B4_0000, 0],
            0x41F0_0000,
        ),
    );
    mounts.push(
        mount(
            "sensor_safety_gate",
            SensorKind::SafetyLidar,
            "cell.lidar.safety",
            [0x4454_8000, 0xC396_0000, 0x442F_0000],
            [0, 0, 0x4334_0000],
            0x41C8_0000,
        ),
    );
    SensorRigDefinition { id, name, base_frame_id: String::from_str("cell.world"), mounts }
}

/// Why a calibration with this skew and residual is refused: a rig without
/// sensors, a skew outside [0, 50] ms (NaN included), a negative residual.
pub open spec fn calibration_error(rig: SensorRigDefinition, sync_skew_ms: u32, residual_mm: u32) -> Option<PerceptionError> {
    if rig.mounts@.len() == 0 {
        Some(PerceptionError::EmptyRig)
    } else if !(f32_le(0, sync_skew_ms) && f32_le(sync_skew_ms, 0x4248_0000)) {
        Some(PerceptionError::InvalidSyncSkew)
    } else if f32_lt(residual_mm, 0) {
        Some(PerceptionError::InvalidResidual)
    } else {
        None
    }
}

/// The warnings of a calibration: a skew above 8 ms, a residual above 1.5 mm.
pub open spec fn calibration_warnings(sync_skew_ms: u32, residual_mm: u32) -> Seq<Seq<char>> {
    let skew = if f32_lt(0x4100_0000, sync_skew_ms) {
        seq!["synchronization drift approaching warning threshold"@]
    } else {
        Seq::empty()
    };
    let residual = if f32_lt(0x3FC0_0000, residual_mm) {
        seq!["extrinsic residual above nominal target"@]
    } else {
        Seq::empty()
    };
    skew + residual
}

/// Calibrates `rig` with the measured skew and residual and the quality
/// score computed from them: `stable` without warnings, `warning` with some.
pub fn calibrate_scored_rig(rig: &SensorRigDefinition, sync_skew_ms: u32, residual_mm: u32, quality_score: u32) -> (r: Result<CalibrationProfile, PerceptionError>)
    ensures
        match calibration_error(*rig, sync_skew_ms, residual_mm) {
            Some(e) => r == Err::<CalibrationProfile, PerceptionError>(e),
            None => r matches Ok(p) && {
                let warnings = calibration_warnings(sync_skew_ms, residual_mm);
                &&& p.rig_id@ == rig.id@
                &&& p.status@ == (if warnings.len() == 0 { "stable"@ } else { "warning"@ })
                &&& p.sync_skew_ms == sync_skew_ms
                &&& p.residual_mm == residual_mm
                &&& p.quality_score == quality_score
                &&& p.warnings@.map_values(|w: String| w@) == warnings
            },
        },
{
    if rig.mounts.len() == 0 {
        return Err(PerceptionError::EmptyRig);
    }
    if !(bits32_le(0, sync_skew_ms) && bits32_le(sync_skew_ms, 0x4248_0000)) {
        return Err(PerceptionError::InvalidSyncSkew);
    }
    if bits32_lt(residual_mm, 0) {
        return Err(PerceptionError::InvalidResidual);
    }
    let mut warnings: Vec<String> = Vec::new();
    if bits32_lt(0x4100_0000, sync_skew_ms) {
        warnings.push(String::from_str("synchronization drift approaching warning threshold"));
    }
    if bits32_lt(0x3FC0_0000, residual_mm) {
        warnings.push(String::from_str("extrinsic residual above nominal target"));
    }
    assert(warnings@.map_values(|w: String| w@) =~= calibration_warnings(sync_skew_ms, residual_mm));
    let status = if warnings.len() == 0 { String::from_str("stable") } else { String::from_str("warning") };
    Ok(
        CalibrationProfile {
            rig_id: rig.id.clone(),
            status,
            sync_skew_ms,
            residual_mm,
            quality_score,
            warnings,
        },
    )
}

/// A coverage ratio within [0, 1]; NaN is not.
pub open spec fn coverage_ok(c: u32) -> bool {
    f32_le(0, c) && f32_le(c, 0x3F80_0000)
}

/// Why a perception run on these inputs is refused: a rig without
/// sensors, no frame, or a frame whose coverage is outside [0, 1].
pub open spec fn perception_error(rig: SensorRigDefinition, frames: Seq<PointCloudFrame>) -> Option<PerceptionError> {
    if rig.mounts@.len() == 0 {
        Some(PerceptionError::EmptyRig)
    } else if frames.len() == 0 {
        Some(PerceptionError::EmptyDataset)
    } else if exists|i: int| 0 <= i < frames.len() && !coverage_ok(#[trigger] frames[i].coverage_ratio) {
        Some(PerceptionError::InvalidCoverage)
    } else {
        None
    }
}

pub fn check_perception_inputs(rig: &SensorRigDefinition, frames: &[PointCloudFrame]) -> (r: Result<(), PerceptionError>)
    ensures
        match perception_error(*rig, frames@) {
            Some(e) => r == Err::<(), PerceptionError>(e),
            None => r is Ok,
        },
{
    if rig.mounts.len() == 0 {
        return Err(PerceptionError::EmptyRig);
    }
    let n = frames.len();
    if n == 0 {
        return Err(PerceptionError::EmptyDataset);
    }
    let mut i: usize = 0;
    while i < n
        invariant
            n == frames@.len(),
            n > 0,
            rig.mounts@.len() > 0,
            i <= n,
            forall|j: int| 0 <= j < i ==> coverage_ok(#[trigger] frames@[j].coverage_ratio),
        decreases n - i,
    {
        let c = frames[i].coverage_ratio;
        if !(bits32_le(0, c) && bits32_le(c, 0x3F80_0000)) {
            assert(!coverage_ok(frames@[i as int].coverage_ratio));
            return Err(PerceptionError::InvalidCoverage);
        }
        i = i + 1;
    }
    Ok(())
}

/// The points of all frames.
pub open spec fn point_total(frames: Seq<PointCloudFrame>) -> nat
    decreases frames.len(),
{
    if frames.len() == 0 {
        0
    } else {
        point_total(frames.drop_last()) + frames.last().point_count as nat
    }
}

proof fn lemma_point_total_prefix(frames: Seq<PointCloudFrame>, i: int)
    requires
        0 <= i <= frames.len(),
    ensures
        point_total(frames.take(i)) <= point_total(frames),
    decreases frames.len() - i,
{
    if i < frames.len() {
        lemma_point_total_prefix(frames, i + 1);
        assert(frames.take(i + 1).drop_last() =~= frames.take(i));
    } else {
        assert(frames.take(i) =~= frames);
    }
}

/// The number of points the frames hold together.
pub fn total_point_count(frames: &[PointCloudFrame]) -> (n: u32)
    requires
        point_total(frames@) <= u32::MAX,
    ensures
        n == point_total(frames@),
{
    let len = frames.len();
    let mut total: u32 = 0;
    let mut i: usize = 0;
    while i < len
        invariant
            len == frames@.len(),
            point_total(frames@) <= u32::MAX,
            i <= len,
            total == point_total(frames@.take(i as int)),
        decreases len - i,
    {
        assert(frames@.take(i + 1).drop_last() =~= frames@.take(i as int));
        proof {
            lemma_point_total_prefix(frames@, i + 1);
        }
        total = total + frames[i].point_count;
        i = i + 1;
    }
    assert(frames@.take(len as int) =~= frames@);
    total
}

/// How far the most obstacles a frame observed exceed `targets`, zero when
/// they do not.
pub open spec fn unknown_obstacles(frames: Seq<PointCloudFrame>, targets: u32) -> u32 {
    if peak_obstacles(frames) > targets {
        (peak_obstacles(frames) - targets) as u32
    } else {
        0u32
    }
}

/// The most obstacles a single frame observed.
pub open spec fn peak_obstacles(frames: Seq<PointCloudFrame>) -> u32
    decreases frames.len(),
{
    if frames.len() == 0 {
        0
    } else {
        let rest = peak_obstacles(frames.drop_last());
        if frames.last().observed_obstacle_count > rest {
            frames.last().observed_obstacle_count
        } else {
            rest
        }
    }
}

/// Obstacles beyond the nominal targets: the peak count of a frame less the
/// target count (truncated to `u32`), never below zero.
pub fn unknown_obstacle_count(frames: &[PointCloudFrame], target_count: usize) -> (n: u32)
    ensures
        n == unknown_obstacles(frames@, target_count as u32),
{
    let len = frames.len();
    let mut peak: u32 = 0;
    let mut i: usize = 0;
    while i < len
        invariant
            len == frames@.len(),
            i <= len,
            peak == peak_obstacles(frames@.take(i as int)),
        decreases len - i,
    {
        assert(frames@.take(i + 1).drop_last() =~= frames@.take(i as int));
        if frames[i].observed_obstacle_count > peak {
            peak = frames[i].observed_obstacle_count;
        }
        i = i + 1;
    }
    assert(frames@.take(len as int) =~= frames@);
    let targets = target_count as u32;
    if peak > targets {
        peak - targets
    } else {
        0
    }
}

/// The verdict of a run: `clear` for a stable calibration and no
/// deviation, else `warning` when unknown obstacles were seen, else `review`.
pub fn perception_status(calibration_status: &str, deviation_count: usize, unknown_obstacle_count: u32) -> (s: &'static str)
    ensures
        s@ == (if calibration_status@ == "stable"@ && deviation_count == 0 {
            "clear"@
        } else if unknown_obstacle_count > 0 {
            "warning"@
        } else {
            "review"@
        }),
{
    if str_eq(calibration_status, "stable") && deviation_count == 0 {
        "clear"
    } else if unknown_obstacle_count > 0 {
        "warning"
    } else {
        "review"
    }
}

/// The obstacle peak is the largest count a frame observed: no frame saw
/// more, and some frame saw exactly that many (none of an empty run), so it
/// does not depend on the order of the frames.
pub proof fn law_peak_is_the_largest_frame(frames: Seq<PointCloudFrame>)
    ensures
        forall|i: int| 0 <= i < frames.len() ==> #[trigger] frames[i].observed_obstacle_count <= peak_obstacles(frames),
        frames.len() == 0 ==> peak_obstacles(frames) == 0,
        frames.len() > 0 ==> exists|i: int|
            0 <= i < frames.len() && #[trigger] frames[i].observed_obstacle_count == peak_obstacles(frames),
    decreases frames.len(),
{
    if frames.len() > 0 {
        let rest = frames.drop_last();
        law_peak_is_the_largest_frame(rest);
        assert forall|i: int| 0 <= i < frames.len() implies #[trigger] frames[i].observed_obstacle_count <= peak_obstacles(
            frames,
        ) by {
            if i < frames.len() - 1 {
                assert(frames[i] == rest[i]);
            }
        }
        if frames.last().observed_obstacle_count > peak_obstacles(rest) || rest.len() == 0 {
            assert(frames[frames.len() - 1].observed_obstacle_count == peak_obstacles(frames));
        } else {
            let j = choose|j: int| 0 <= j < rest.len() && #[trigger] rest[j].observed_obstacle_count == peak_obstacles(rest);
            assert(frames[j] == rest[j]);
        }
    }
}

/// The unknown obstacles of a run, told by the frames alone: no frame
/// saw more than the targets plus the unknown obstacles, a positive count
/// is reached by some frame, and the count is zero exactly when no frame
/// saw more obstacles than there are targets.
pub proof fn law_unknown_obstacles_over_targets(frames: Seq<PointCloudFrame>, targets: u32)
    ensures
        forall|i: int|
            0 <= i < frames.len() ==> #[trigger] frames[i].observed_obstacle_count <= unknown_obstacles(frames, targets)
                + targets,
        unknown_obstacles(frames, targets) > 0 ==> exists|i: int|
            0 <= i < frames.len() && #[trigger] frames[i].observed_obstacle_count == unknown_obstacles(frames, targets)
                + targets,
        unknown_obstacles(frames, targets) == 0 <==> forall|i: int|
            0 <= i < frames.len() ==> #[trigger] frames[i].observed_obstacle_count <= targets,
{
    law_peak_is_the_largest_frame(frames);
    if unknown_obstacles(frames, targets) == 0 && frames.len() > 0 {
        let j = choose|j: int| 0 <= j < frames.len() && #[trigger] frames[j].observed_obstacle_count == peak_obstacles(frames);
        assert(frames[j].observed_obstacle_count <= targets);
    }
    if unknown_obstacles(frames, targets) != 0 {
        let j = choose|j: int| 0 <= j < frames.len() && #[trigger] frames[j].observed_obstacle_count == peak_obstacles(frames);
        assert(frames[j].observed_obstacle_count > targets);
    }
}

} // verus!
