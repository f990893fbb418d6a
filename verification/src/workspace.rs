//! Rules of the desktop workspace that do not touch the window, the disk or
//! the clock: file-name sanitising, endpoint and document labels, the ids
//! and default models of a generated robot cell.
use vstd::prelude::*;
use crate::assembly::{AssemblySolveStatus, JointType, MateConstraint, MateType, Occurrence, Transform3D};
use crate::geometry::SketchConstraintState;
use crate::robotics::{
    control_fault, fault_matches, summarize_robot_cell_control, summary_of, validate_robot_cell_control,
    RobotCellControlModel, RobotCellControlSummary, RobotCellModel, RobotTarget, RoboticsError,
};
use crate::safety::{SafetyInterlock, SafetyStatus, SafetyZone, SafetyZoneKind};
use crate::sim::{SimulationContactPair, SimulationStatus};
use crate::types::{
    PluginManifest, ControlTransition, ControllerState, ControllerStateMachine, SignalAssignment, SignalComparator,
    SignalCondition, SignalDefinition, SignalKind, SignalValue,
};
use crate::text::{chars_of, decimal, decimal_string, padded_decimal, zero_pad, starts_with, starts_with_spec, string_of, trim, trim_spec};

verus! {

/// `s` without the leading copies of `c`.
pub open spec fn strip_start(s: Seq<char>, c: char) -> Seq<char>
    decreases s.len(),
{
    if s.len() > 0 && s[0] == c {
        strip_start(s.drop_first(), c)
    } else {
        s
    }
}

/// `s` without the trailing copies of `c`.
pub open spec fn strip_end(s: Seq<char>, c: char) -> Seq<char>
    decreases s.len(),
{
    if s.len() > 0 && s.last() == c {
        strip_end(s.drop_last(), c)
    } else {
        s
    }
}

proof fn lemma_strip_start_skip(s: Seq<char>, c: char, i: int)
    requires
        0 <= i <= s.len(),
        forall|j: int| 0 <= j < i ==> s[j] == c,
    ensures
        strip_start(s, c) == strip_start(s.skip(i), c),
    decreases i,
{
    if i > 0 {
        lemma_strip_start_skip(s.drop_first(), c, i - 1);
        assert(s.drop_first().skip(i - 1) =~= s.skip(i));
    } else {
        assert(s.skip(0) =~= s);
    }
}

proof fn lemma_strip_end_take(s: Seq<char>, c: char, k: int)
    requires
        0 <= k <= s.len(),
        forall|j: int| k <= j < s.len() ==> s[j] == c,
    ensures
        strip_end(s, c) == strip_end(s.take(k), c),
    decreases s.len() - k,
{
    if k < s.len() {
        lemma_strip_end_take(s.drop_last(), c, k);
        assert(s.drop_last().take(k) =~= s.take(k));
    } else {
        assert(s.take(k) =~= s);
    }
}

/// ASCII letters and digits.
pub open spec fn ascii_alnum(c: char) -> bool {
    ('0' <= c <= '9') || ('A' <= c <= 'Z') || ('a' <= c <= 'z')
}

/// The character kept in a path segment: ASCII alphanumerics, `-` and `_`; anything else becomes `_`.
pub open spec fn path_char(c: char) -> char {
    if ascii_alnum(c) || c == '-' || c == '_' {
        c
    } else {
        '_'
    }
}

/// A file-name segment made of `value`: characters replaced as `path_char`
/// says, leading and trailing `_` dropped, `workspace` when nothing is left.
pub open spec fn sanitized(value: Seq<char>) -> Seq<char> {
    let t = strip_end(strip_start(value.map_values(|c: char| path_char(c)), '_'), '_');
    if t.len() == 0 {
        "workspace"@
    } else {
        t
    }
}

pub fn sanitize_path_segment(value: &str) -> (r: String)
    ensures
        r@ == sanitized(value@),
{
    let v = chars_of(value);
    let n = v.len();
    let mut mapped: Vec<char> = Vec::new();
    let mut i: usize = 0;
    while i < n
        invariant
            n == v@.len(),
            v@ == value@,
            i <= n,
            mapped@ == value@.take(i as int).map_values(|c: char| path_char(c)),
        decreases n - i,
    {
        let c = v[i];
        let k = if ('0' <= c && c <= '9') || ('A' <= c && c <= 'Z') || ('a' <= c && c <= 'z') || c == '-' || c
            == '_' {
            c
        } else {
            '_'
        };
        mapped.push(k);
        assert(mapped@ =~= value@.take(i + 1).map_values(|c: char| path_char(c)));
        i = i + 1;
    }
    let ghost m = value@.map_values(|c: char| path_char(c));
    assert(mapped@ =~= m);
    let mut lo: usize = 0;
    while lo < n && mapped[lo] == '_'
        invariant
            n == mapped@.len(),
            lo <= n,
            forall|j: int| 0 <= j < lo ==> mapped@[j] == '_',
        decreases n - lo,
    {
        lo = lo + 1;
    }
    proof {
        lemma_strip_start_skip(m, '_', lo as int);
    }
    let ghost rest = m.skip(lo as int);
    assert(lo == n || rest[0] != '_');
    assert(strip_start(rest, '_') == rest);
    let mut hi: usize = n;
    while hi > lo && mapped[hi - 1] == '_'
        invariant
            n == mapped@.len(),
            lo <= hi <= n,
            forall|j: int| hi <= j < n ==> mapped@[j] == '_',
        decreases hi - lo,
    {
        hi = hi - 1;
    }
    proof {
        let k = hi - lo;
        assert forall|j: int| k <= j < rest.len() implies rest[j] == '_' by {
            assert(rest[j] == m[j + lo]);
        }
        lemma_strip_end_take(rest, '_', k);
        let r = rest.take(k);
        assert(r.len() == 0 || r.last() != '_');
        assert(strip_end(r, '_') == r);
    }
    if hi == lo {
        return String::from_str("workspace");
    }
    let mut out: Vec<char> = Vec::new();
    let mut j: usize = lo;
    while j < hi
        invariant
            n == mapped@.len(),
            lo <= j <= hi <= n,
            out@ == mapped@.subrange(lo as int, j as int),
        decreases hi - j,
    {
        out.push(mapped[j]);
        assert(out@ =~= mapped@.subrange(lo as int, j + 1));
        j = j + 1;
    }
    assert(out@ =~= rest.take(hi - lo));
    string_of(&out)
}


pub open spec fn opt_text(o: Option<&str>) -> Option<Seq<char>> {
    match o {
        Some(s) => Some(s@),
        None => None,
    }
}

/// How an endpoint is reached: `host[:port][path]`, else the device id, else `n/a`.
pub open spec fn address_label(
    host: Option<Seq<char>>,
    port: Option<u16>,
    path: Option<Seq<char>>,
    device_id: Option<Seq<char>>,
) -> Seq<char> {
    match host {
        Some(h) => {
            let with_port = match port {
                Some(p) => h + ":"@ + decimal(p as nat),
                None => h,
            };
            match path {
                Some(p) => with_port + p,
                None => with_port,
            }
        },
        None => match device_id {
            Some(d) => d,
            None => "n/a"@,
        },
    }
}

pub fn endpoint_address_label(host: Option<&str>, port: Option<u16>, path: Option<&str>, device_id: Option<&str>) -> (r: String)
    ensures
        r@ == address_label(opt_text(host), port, opt_text(path), opt_text(device_id)),
{
    match host {
        Some(h) => {
            let mut s = String::from_str(h);
            if let Some(p) = port {
                s.append(":");
                let digits = decimal_string(p as u64);
                s.append(digits.as_str());
            }
            if let Some(p) = path {
                s.append(p);
            }
            s
        },
        None => match device_id {
            Some(d) => String::from_str(d),
            None => String::from_str("n/a"),
        },
    }
}

/// Position of the first line break in `s` from `i` on, or the length.
pub open spec fn newline_from(s: Seq<char>, i: int) -> int
    decreases s.len() - i,
{
    if i < 0 || i >= s.len() {
        s.len() as int
    } else if s[i] == '\n' {
        i
    } else {
        newline_from(s, i + 1)
    }
}

pub proof fn lemma_newline_from(s: Seq<char>, i: int)
    requires
        0 <= i <= s.len(),
    ensures
        i <= newline_from(s, i) <= s.len(),
        newline_from(s, i) < s.len() ==> s[newline_from(s, i)] == '\n',
        forall|j: int| i <= j < newline_from(s, i) ==> s[j] != '\n',
    decreases s.len() - i,
{
    if i < s.len() {
        lemma_newline_from(s, i + 1);
    }
}

/// The first line of `s` that is not blank, trimmed.
pub open spec fn first_filled_line(s: Seq<char>) -> Option<Seq<char>>
    decreases s.len(),
{
    let k = newline_from(s, 0);
    let line = trim_spec(s.take(k));
    if line.len() > 0 {
        Some(line)
    } else if k < 0 || k >= s.len() {
        None
    } else {
        first_filled_line(s.skip(k + 1))
    }
}

/// The excerpt of an OpenSpec document: its first non-blank line, without
/// heading marks; a fixed sentence when every line is blank.
pub open spec fn excerpt(content: Seq<char>) -> Seq<char> {
    match first_filled_line(content) {
        Some(line) => trim_spec(strip_start(line, '#')),
        None => "Document OpenSpec sans contenu"@,
    }
}

pub fn open_spec_excerpt(content: &str) -> (r: String)
    ensures
        r@ == excerpt(content@),
{
    let v = chars_of(content);
    let n = v.len();
    let mut start: usize = 0;
    assert(content@.skip(0) =~= content@);
    loop
        invariant
            n == v@.len(),
            v@ == content@,
            start <= n,
            first_filled_line(content@) == first_filled_line(content@.skip(start as int)),
        decreases n - start,
    {
        let ghost rest = content@.skip(start as int);
        let mut k: usize = start;
        while k < n && v[k] != '\n'
            invariant
                n == v@.len(),
                start <= k <= n,
                forall|j: int| start <= j < k ==> v@[j] != '\n',
            decreases n - k,
        {
            k = k + 1;
        }
        proof {
            lemma_newline_from(rest, 0);
            let e = newline_from(rest, 0);
            if e < k - start {
                assert(rest[e] == v@[e + start]);
            }
            if k - start < e {
                assert(rest[k - start] == v@[k as int]);
            }
            assert(e == k - start);
        }
        let line_text = content.substring_char(start, k);
        let line = trim(line_text);
        assert(line_text@ =~= rest.take(k - start));
        if line.as_str().unicode_len() > 0 {
            let body = line.as_str();
            let b = chars_of(body);
            let m = b.len();
            let mut h: usize = 0;
            while h < m && b[h] == '#'
                invariant
                    m == b@.len(),
                    h <= m,
                    forall|j: int| 0 <= j < h ==> b@[j] == '#',
                decreases m - h,
            {
                h = h + 1;
            }
            proof {
                lemma_strip_start_skip(b@, '#', h as int);
                assert(h == m || b@.skip(h as int)[0] != '#');
                assert(strip_start(b@.skip(h as int), '#') == b@.skip(h as int));
            }
            let unmarked = body.substring_char(h, m);
            assert(unmarked@ =~= b@.skip(h as int));
            return trim(unmarked);
        }
        if k == n {
            assert(rest.take(k - start) =~= rest);
            return String::from_str("Document OpenSpec sans contenu");
        }
        assert(rest.skip(k - start + 1) =~= content@.skip(k + 1));
        start = k + 1;
    }
}


pub open spec fn sketch_state_label_spec(state: SketchConstraintState) -> Seq<char> {
    match state {
        SketchConstraintState::UnderConstrained => "under_constrained"@,
        SketchConstraintState::WellConstrained => "well_constrained"@,
        SketchConstraintState::OverConstrained => "over_constrained"@,
    }
}

pub fn sketch_constraint_state_label(state: SketchConstraintState) -> (r: &'static str)
    ensures
        r@ == sketch_state_label_spec(state),
{
    match state {
        SketchConstraintState::UnderConstrained => "under_constrained",
        SketchConstraintState::WellConstrained => "well_constrained",
        SketchConstraintState::OverConstrained => "over_constrained",
    }
}

pub open spec fn solve_status_label_spec(status: AssemblySolveStatus) -> Seq<char> {
    match status {
        AssemblySolveStatus::Solved => "solved"@,
        AssemblySolveStatus::Conflicting => "conflicting"@,
    }
}

pub fn assembly_solve_status_label(status: AssemblySolveStatus) -> (r: &'static str)
    ensures
        r@ == solve_status_label_spec(status),
{
    match status {
        AssemblySolveStatus::Solved => "solved",
        AssemblySolveStatus::Conflicting => "conflicting",
    }
}

pub open spec fn joint_type_label_spec(joint_type: JointType) -> Seq<char> {
    match joint_type {
        JointType::Fixed => "fixed"@,
        JointType::Revolute => "revolute"@,
        JointType::Prismatic => "prismatic"@,
    }
}

pub fn assembly_joint_type_label(joint_type: JointType) -> (r: &'static str)
    ensures
        r@ == joint_type_label_spec(joint_type),
{
    match joint_type {
        JointType::Fixed => "fixed",
        JointType::Revolute => "revolute",
        JointType::Prismatic => "prismatic",
    }
}

pub open spec fn simulation_status_label_spec(status: SimulationStatus) -> Seq<char> {
    match status {
        SimulationStatus::Completed => "completed"@,
        SimulationStatus::Warning => "warning"@,
        SimulationStatus::Collided => "collided"@,
    }
}

pub fn simulation_status_label(status: &SimulationStatus) -> (r: &'static str)
    ensures
        r@ == simulation_status_label_spec(*status),
{
    match status {
        SimulationStatus::Completed => "completed",
        SimulationStatus::Warning => "warning",
        SimulationStatus::Collided => "collided",
    }
}

pub open spec fn safety_status_label_spec(status: SafetyStatus) -> Seq<char> {
    match status {
        SafetyStatus::Clear => "clear"@,
        SafetyStatus::Warning => "warning"@,
        SafetyStatus::Blocked => "blocked"@,
    }
}

pub fn safety_status_label(status: &SafetyStatus) -> (r: &'static str)
    ensures
        r@ == safety_status_label_spec(*status),
{
    match status {
        SafetyStatus::Clear => "clear",
        SafetyStatus::Warning => "warning",
        SafetyStatus::Blocked => "blocked",
    }
}

/// The token of a robot cell: its id without the `ent_cell_` prefix.
pub open spec fn cell_token(cell_id: Seq<char>) -> Seq<char> {
    if starts_with_spec(cell_id, "ent_cell_"@) {
        cell_id.skip("ent_cell_"@.len() as int)
    } else {
        cell_id
    }
}

pub fn robot_cell_token(cell_id: &str) -> (t: String)
    ensures
        t@ == cell_token(cell_id@),
{
    if starts_with(cell_id, "ent_cell_") {
        proof {
            reveal_strlit("ent_cell_");
        }
        let n = cell_id.unicode_len();
        let rest = cell_id.substring_char(9, n);
        assert(rest@ =~= cell_id@.skip(9));
        rest.to_owned()
    } else {
        cell_id.to_owned()
    }
}

fn prefixed(prefix: &str, rest: &str) -> (r: String)
    ensures
        r@ == prefix@ + rest@,
{
    let mut r = String::from_str(prefix);
    r.append(rest);
    r
}

fn joined(prefix: &str, middle: &str, suffix: &str) -> (r: String)
    ensures
        r@ == prefix@ + middle@ + suffix@,
{
    let mut r = String::from_str(prefix);
    r.append(middle);
    r.append(suffix);
    r
}

/// `ent_asm_cell_<token>`.
pub fn robot_cell_scene_assembly_entity_id(cell_id: &str) -> (r: String)
    ensures
        r@ == "ent_asm_cell_"@ + cell_token(cell_id@),
{
    let t = robot_cell_token(cell_id);
    prefixed("ent_asm_cell_", t.as_str())
}

/// `ent_part_<kind>_<token>`.
pub fn robot_cell_part_entity_id(cell_id: &str, part_kind: &str) -> (r: String)
    ensures
        r@ == "ent_part_"@ + part_kind@ + "_"@ + cell_token(cell_id@),
{
    let t = robot_cell_token(cell_id);
    let mut r = joined("ent_part_", part_kind, "_");
    r.append(t.as_str());
    r
}

/// `occ_<kind>_001`.
pub fn robot_cell_occurrence_id(part_kind: &str) -> (r: String)
    ensures
        r@ == "occ_"@ + part_kind@ + "_001"@,
{
    joined("occ_", part_kind, "_001")
}

/// `ent_robot_<token>`.
pub fn robot_cell_robot_entity_id(cell_id: &str) -> (r: String)
    ensures
        r@ == "ent_robot_"@ + cell_token(cell_id@),
{
    let t = robot_cell_token(cell_id);
    prefixed("ent_robot_", t.as_str())
}

/// `ent_<kind>_<token>`.
pub fn robot_cell_equipment_entity_id(cell_id: &str, equipment_kind: &str) -> (r: String)
    ensures
        r@ == "ent_"@ + equipment_kind@ + "_"@ + cell_token(cell_id@),
{
    let t = robot_cell_token(cell_id);
    let mut r = joined("ent_", equipment_kind, "_");
    r.append(t.as_str());
    r
}

/// `ent_seq_<token>`.
pub fn robot_cell_sequence_entity_id(cell_id: &str) -> (r: String)
    ensures
        r@ == "ent_seq_"@ + cell_token(cell_id@),
{
    let t = robot_cell_token(cell_id);
    prefixed("ent_seq_", t.as_str())
}

/// `ent_target_<token>_<key>`.
pub fn robot_cell_target_entity_id(cell_id: &str, target_key: &str) -> (r: String)
    ensures
        r@ == "ent_target_"@ + cell_token(cell_id@) + "_"@ + target_key@,
{
    let t = robot_cell_token(cell_id);
    let mut r = joined("ent_target_", t.as_str(), "_");
    r.append(target_key);
    r
}

/// `ent_zone_<token>_<suffix>`.
pub fn robot_cell_safety_zone_entity_id(cell_id: &str, zone_suffix: &str) -> (r: String)
    ensures
        r@ == "ent_zone_"@ + cell_token(cell_id@) + "_"@ + zone_suffix@,
{
    let t = robot_cell_token(cell_id);
    let mut r = joined("ent_zone_", t.as_str(), "_");
    r.append(zone_suffix);
    r
}

/// `ent_ctrl_<token>`.
pub fn robot_cell_controller_entity_id(cell_id: &str) -> (r: String)
    ensures
        r@ == "ent_ctrl_"@ + cell_token(cell_id@),
{
    let t = robot_cell_token(cell_id);
    prefixed("ent_ctrl_", t.as_str())
}

/// `ent_sig_<token>_<suffix>`.
pub fn robot_cell_signal_entity_id(cell_id: &str, signal_suffix: &str) -> (r: String)
    ensures
        r@ == "ent_sig_"@ + cell_token(cell_id@) + "_"@ + signal_suffix@,
{
    let t = robot_cell_token(cell_id);
    let mut r = joined("ent_sig_", t.as_str(), "_");
    r.append(signal_suffix);
    r
}


pub open spec fn texts(v: Seq<String>) -> Seq<Seq<char>> {
    v.map_values(|s: String| s@)
}

pub open spec fn opt_string(o: Option<String>) -> Option<Seq<char>> {
    match o {
        Some(s) => Some(s@),
        None => None,
    }
}

fn text_pair(a: &str, b: &str) -> (v: Vec<String>)
    ensures
        texts(v@) == seq![a@, b@],
{
    let mut v: Vec<String> = Vec::new();
    v.push(String::from_str(a));
    v.push(String::from_str(b));
    assert(texts(v@) =~= seq![a@, b@]);
    v
}

/// `d` declares the signal `id` with these name, kind, unit and tags.
pub open spec fn signal_is(
    d: SignalDefinition,
    id: Seq<char>,
    name: Seq<char>,
    kind: SignalKind,
    unit: Option<Seq<char>>,
    tags: Seq<Seq<char>>,
) -> bool {
    &&& d.id@ == id
    &&& d.name@ == name
    &&& d.kind == kind
    &&& opt_string(d.unit) == unit
    &&& texts(d.tags@) == tags
}

fn signal(id: &str, name: &str, kind: SignalKind, initial_value: SignalValue, unit: Option<&str>, tag_a: &str, tag_b: &str) -> (d: SignalDefinition)
    ensures
        signal_is(d, id@, name@, kind, opt_text(unit), seq![tag_a@, tag_b@]),
        d.initial_value == initial_value,
{
    SignalDefinition {
        id: String::from_str(id),
        name: String::from_str(name),
        kind,
        initial_value,
        unit: match unit {
            Some(u) => Some(String::from_str(u)),
            None => None,
        },
        tags: text_pair(tag_a, tag_b),
    }
}

/// The signals of a generated robot cell; `safety_clear` is the initial
/// value of the safety signal, the progress gate starts at `0.62`.
pub fn robot_cell_signal_definitions(safety_clear: bool) -> (r: Vec<SignalDefinition>)
    ensures
        r@.len() == 5,
        signal_is(r@[0], "sig_cycle_start"@, "Cycle Start"@, SignalKind::Boolean, None, seq!["control"@, "boolean"@]),
        r@[0].initial_value == SignalValue::Bool(false),
        signal_is(
            r@[1],
            "sig_progress_gate"@,
            "Progress Gate"@,
            SignalKind::Scalar,
            Some("ratio"@),
            seq!["control"@, "scalar"@],
        ),
        r@[1].initial_value == SignalValue::Scalar(0x3FE3D70A3D70A3D7),
        signal_is(r@[2], "sig_safety_clear"@, "Safety Clear"@, SignalKind::Boolean, None, seq!["safety"@, "boolean"@]),
        r@[2].initial_value == SignalValue::Bool(safety_clear),
        signal_is(
            r@[3],
            "sig_payload_released"@,
            "Payload Released"@,
            SignalKind::Boolean,
            None,
            seq!["process"@, "boolean"@],
        ),
        r@[3].initial_value == SignalValue::Bool(false),
        signal_is(r@[4], "sig_operator_mode"@, "Operator Mode"@, SignalKind::Text, None, seq!["control"@, "text"@]),
        r@[4].initial_value matches SignalValue::Text(t) && t@ == "auto"@,
{
    let mut r: Vec<SignalDefinition> = Vec::new();
    r.push(signal("sig_cycle_start", "Cycle Start", SignalKind::Boolean, SignalValue::Bool(false), None, "control", "boolean"));
    r.push(
        signal(
            "sig_progress_gate",
            "Progress Gate",
            SignalKind::Scalar,
            SignalValue::Scalar(0x3FE3D70A3D70A3D7),
            Some("ratio"),
            "control",
            "scalar",
        ),
    );
    r.push(signal("sig_safety_clear", "Safety Clear", SignalKind::Boolean, SignalValue::Bool(safety_clear), None, "safety", "boolean"));
    r.push(
        signal(
            "sig_payload_released",
            "Payload Released",
            SignalKind::Boolean,
            SignalValue::Bool(false),
            None,
            "process",
            "boolean",
        ),
    );
    r.push(
        signal(
            "sig_operator_mode",
            "Operator Mode",
            SignalKind::Text,
            SignalValue::Text(String::from_str("auto")),
            None,
            "control",
            "text",
        ),
    );
    r
}

/// `s` is the state `id` named `name`.
pub open spec fn state_is(s: ControllerState, id: Seq<char>, name: Seq<char>, terminal: bool) -> bool {
    s.id@ == id && s.name@ == name && s.terminal == terminal
}

/// `c` compares signal `id` against `expected` with `comparator`.
pub open spec fn condition_is(c: SignalCondition, id: Seq<char>, comparator: SignalComparator, expected: SignalValue) -> bool {
    c.signal_id@ == id && c.comparator == comparator && c.expected_value == expected
}

/// `t` is the transition `id` from `from` to `to` described by `description`.
pub open spec fn transition_is(t: ControlTransition, id: Seq<char>, from: Seq<char>, to: Seq<char>, description: Seq<char>) -> bool {
    &&& t.id@ == id
    &&& t.from_state_id@ == from
    &&& t.to_state_id@ == to
    &&& opt_string(t.description) == Some(description)
}

fn state(id: &str, name: &str, terminal: bool) -> (s: ControllerState)
    ensures
        state_is(s, id@, name@, terminal),
{
    ControllerState { id: String::from_str(id), name: String::from_str(name), terminal }
}

fn condition(id: &str, comparator: SignalComparator, expected_value: SignalValue) -> (c: SignalCondition)
    ensures
        condition_is(c, id@, comparator, expected_value),
{
    SignalCondition { signal_id: String::from_str(id), comparator, expected_value }
}

fn transition(
    id: &str,
    from: &str,
    to: &str,
    conditions: Vec<SignalCondition>,
    assignments: Vec<SignalAssignment>,
    description: &str,
) -> (t: ControlTransition)
    ensures
        transition_is(t, id@, from@, to@, description@),
        t.conditions@ == conditions@,
        t.assignments@ == assignments@,
{
    ControlTransition {
        id: String::from_str(id),
        from_state_id: String::from_str(from),
        to_state_id: String::from_str(to),
        conditions,
        assignments,
        description: Some(String::from_str(description)),
    }
}

/// The controller of a generated robot cell: idle, transfer, place, done;
/// the cycle starts on the start and safety signals, then the progress gate
/// leads to place at `0.55` and to done at `0.95`, releasing the payload.
pub fn robot_cell_controller_state_machine(cell_id: &str) -> (c: ControllerStateMachine)
    ensures
        c.id@ == "ctrl_"@ + cell_token(cell_id@),
        c.name@ == "Controller "@ + cell_token(cell_id@),
        c.initial_state_id@ == "idle"@,
        c.states@.len() == 4,
        state_is(c.states@[0], "idle"@, "Idle"@, false),
        state_is(c.states@[1], "transfer"@, "Transfer"@, false),
        state_is(c.states@[2], "place"@, "Place"@, false),
        state_is(c.states@[3], "done"@, "Done"@, true),
        c.transitions@.len() == 3,
        transition_is(c.transitions@[0], "tr_start_cycle"@, "idle"@, "transfer"@, "cycle_start_confirmed"@),
        c.transitions@[0].conditions@.len() == 2,
        condition_is(c.transitions@[0].conditions@[0], "sig_cycle_start"@, SignalComparator::Equal, SignalValue::Bool(true)),
        condition_is(c.transitions@[0].conditions@[1], "sig_safety_clear"@, SignalComparator::Equal, SignalValue::Bool(true)),
        c.transitions@[0].assignments@.len() == 0,
        transition_is(c.transitions@[1], "tr_reach_place"@, "transfer"@, "place"@, "progress_gate_reached"@),
        c.transitions@[1].conditions@.len() == 1,
        condition_is(
            c.transitions@[1].conditions@[0],
            "sig_progress_gate"@,
            SignalComparator::GreaterThanOrEqual,
            SignalValue::Scalar(0x3FE199999999999A),
        ),
        c.transitions@[1].assignments@.len() == 0,
        transition_is(c.transitions@[2], "tr_finish_cycle"@, "place"@, "done"@, "placement_complete"@),
        c.transitions@[2].conditions@.len() == 1,
        condition_is(
            c.transitions@[2].conditions@[0],
            "sig_progress_gate"@,
            SignalComparator::GreaterThanOrEqual,
            SignalValue::Scalar(0x3FEE666666666666),
        ),
        c.transitions@[2].assignments@.len() == 1,
        c.transitions@[2].assignments@[0].signal_id@ == "sig_payload_released"@,
        c.transitions@[2].assignments@[0].value == SignalValue::Bool(true),
{
    let token = robot_cell_token(cell_id);
    let mut states: Vec<ControllerState> = Vec::new();
    states.push(state("idle", "Idle", false));
    states.push(state("transfer", "Transfer", false));
    states.push(state("place", "Place", false));
    states.push(state("done", "Done", true));
    let mut start_conditions: Vec<SignalCondition> = Vec::new();
    start_conditions.push(condition("sig_cycle_start", SignalComparator::Equal, SignalValue::Bool(true)));
    start_conditions.push(condition("sig_safety_clear", SignalComparator::Equal, SignalValue::Bool(true)));
    let mut place_conditions: Vec<SignalCondition> = Vec::new();
    place_conditions.push(
        condition("sig_progress_gate", SignalComparator::GreaterThanOrEqual, SignalValue::Scalar(0x3FE199999999999A)),
    );
    let mut done_conditions: Vec<SignalCondition> = Vec::new();
    done_conditions.push(
        condition("sig_progress_gate", SignalComparator::GreaterThanOrEqual, SignalValue::Scalar(0x3FEE666666666666)),
    );
    let mut release: Vec<SignalAssignment> = Vec::new();
    release.push(SignalAssignment { signal_id: String::from_str("sig_payload_released"), value: SignalValue::Bool(true) });
    let mut transitions: Vec<ControlTransition> = Vec::new();
    transitions.push(transition("tr_start_cycle", "idle", "transfer", start_conditions, Vec::new(), "cycle_start_confirmed"));
    transitions.push(transition("tr_reach_place", "transfer", "place", place_conditions, Vec::new(), "progress_gate_reached"));
    transitions.push(transition("tr_finish_cycle", "place", "done", done_conditions, release, "placement_complete"));
    ControllerStateMachine {
        id: prefixed("ctrl_", token.as_str()),
        name: prefixed("Controller ", token.as_str()),
        initial_state_id: String::from_str("idle"),
        states,
        transitions,
    }
}

/// The contact pairs of a generated robot cell, as listed below.
pub open spec fn cell_contact_pairs(cell_id: Seq<char>, r: Seq<SimulationContactPair>) -> bool {
    &&& r.len() == 2
    &&& r[0].id@ == "pair_"@ + cell_token(cell_id) + "_tool_fixture"@
    &&& r[0].left_entity_id@ == "ent_tool_"@ + cell_token(cell_id)
    &&& r[0].right_entity_id@ == "ent_fixture_"@ + cell_token(cell_id)
    &&& r[0].base_clearance_mm == 0x3FDAE147AE147AE1u64
    &&& r[1].id@ == "pair_"@ + cell_token(cell_id) + "_tool_conveyor"@
    &&& r[1].left_entity_id@ == "ent_tool_"@ + cell_token(cell_id)
    &&& r[1].right_entity_id@ == "ent_conveyor_"@ + cell_token(cell_id)
    &&& r[1].base_clearance_mm == 0x3FD70A3D70A3D70Au64
}

/// The contact pairs watched in a generated robot cell: the tool against
/// the fixture (clearance `0.42`) and against the conveyor (`0.36`).
pub fn robot_cell_contact_pairs(cell_id: &str) -> (r: Vec<SimulationContactPair>)
    ensures
        cell_contact_pairs(cell_id@, r@),
{
    let token = robot_cell_token(cell_id);
    let t = token.as_str();
    let mut r: Vec<SimulationContactPair> = Vec::new();
    r.push(
        SimulationContactPair {
            id: joined("pair_", t, "_tool_fixture"),
            left_entity_id: prefixed("ent_tool_", t),
            right_entity_id: prefixed("ent_fixture_", t),
            base_clearance_mm: 0x3FDAE147AE147AE1,
        },
    );
    r.push(
        SimulationContactPair {
            id: joined("pair_", t, "_tool_conveyor"),
            left_entity_id: prefixed("ent_tool_", t),
            right_entity_id: prefixed("ent_conveyor_", t),
            base_clearance_mm: 0x3FD70A3D70A3D70A,
        },
    );
    r
}


/// The control model of a generated robot cell.
pub fn robot_cell_control_model(cell_id: &str, safety_clear: bool) -> (m: RobotCellControlModel)
    ensures
        m.cell_id@ == cell_id@,
        m.signals@.len() == 5,
        m.signals@[2].initial_value == SignalValue::Bool(safety_clear),
        m.controller.id@ == "ctrl_"@ + cell_token(cell_id@),
        m.controller.states@.len() == 4,
        m.controller.transitions@.len() == 3,
{
    RobotCellControlModel {
        cell_id: String::from_str(cell_id),
        signals: robot_cell_signal_definitions(safety_clear),
        controller: robot_cell_controller_state_machine(cell_id),
    }
}

/// Validates a control model, then summarizes its dry run.
pub fn robot_cell_control_summary(control_model: &RobotCellControlModel) -> (r: Result<RobotCellControlSummary, RoboticsError>)
    requires
        control_model.controller.transitions@.len() + control_model.controller.states@.len() + 1 <= usize::MAX,
    ensures
        r is Ok <==> control_fault(*control_model) is None,
        r matches Err(e) ==> control_fault(*control_model) matches Some(f) && fault_matches(e, f),
        r matches Ok(s) ==> summary_of(*control_model, s),
{
    match validate_robot_cell_control(control_model) {
        Err(e) => Err(e),
        Ok(()) => summarize_robot_cell_control(control_model),
    }
}

/// The id suffix of a safety zone of a generated cell.
pub open spec fn zone_suffix(kind: SafetyZoneKind) -> Seq<char> {
    match kind {
        SafetyZoneKind::Warning => "warning"@,
        _ => "protective"@,
    }
}

/// The structure of a generated robot cell around `safety_zones`.
pub fn robot_cell_model(cell_id: &str, safety_zones: &[SafetyZone]) -> (m: RobotCellModel)
    ensures
        m.id@ == cell_id@,
        m.scene_assembly_id@ == "ent_asm_cell_"@ + cell_token(cell_id@),
        texts(m.robot_ids@) == seq!["ent_robot_"@ + cell_token(cell_id@)],
        texts(m.equipment_ids@) == seq![
            "ent_"@ + "conveyor"@ + "_"@ + cell_token(cell_id@),
            "ent_"@ + "fixture"@ + "_"@ + cell_token(cell_id@),
            "ent_"@ + "tool"@ + "_"@ + cell_token(cell_id@),
        ],
        m.safety_zone_ids@.len() == safety_zones@.len(),
        forall|i: int|
            0 <= i < safety_zones@.len() ==> (#[trigger] m.safety_zone_ids@[i])@ == "ent_zone_"@ + cell_token(cell_id@) + "_"@
                + zone_suffix(safety_zones@[i].kind),
        texts(m.sequence_ids@) == seq!["ent_seq_"@ + cell_token(cell_id@)],
        texts(m.controller_model_ids@) == seq!["ent_ctrl_"@ + cell_token(cell_id@)],
{
    let mut robot_ids: Vec<String> = Vec::new();
    robot_ids.push(robot_cell_robot_entity_id(cell_id));
    let mut equipment_ids: Vec<String> = Vec::new();
    equipment_ids.push(robot_cell_equipment_entity_id(cell_id, "conveyor"));
    equipment_ids.push(robot_cell_equipment_entity_id(cell_id, "fixture"));
    equipment_ids.push(robot_cell_equipment_entity_id(cell_id, "tool"));
    let mut zone_ids: Vec<String> = Vec::new();
    let n = safety_zones.len();
    let mut i: usize = 0;
    while i < n
        invariant
            n == safety_zones@.len(),
            i <= n,
            zone_ids@.len() == i,
            forall|j: int|
                0 <= j < i ==> (#[trigger] zone_ids@[j])@ == "ent_zone_"@ + cell_token(cell_id@) + "_"@ + zone_suffix(
                    safety_zones@[j].kind,
                ),
        decreases n - i,
    {
        let id = match safety_zones[i].kind {
            SafetyZoneKind::Warning => robot_cell_safety_zone_entity_id(cell_id, "warning"),
            _ => robot_cell_safety_zone_entity_id(cell_id, "protective"),
        };
        zone_ids.push(id);
        i = i + 1;
    }
    let mut sequence_ids: Vec<String> = Vec::new();
    sequence_ids.push(robot_cell_sequence_entity_id(cell_id));
    let mut controller_ids: Vec<String> = Vec::new();
    controller_ids.push(robot_cell_controller_entity_id(cell_id));
    let m = RobotCellModel {
        id: String::from_str(cell_id),
        scene_assembly_id: robot_cell_scene_assembly_entity_id(cell_id),
        robot_ids,
        equipment_ids,
        safety_zone_ids: zone_ids,
        sequence_ids,
        controller_model_ids: controller_ids,
    };
    assert(texts(m.robot_ids@) =~= seq!["ent_robot_"@ + cell_token(cell_id@)]);
    assert(texts(m.equipment_ids@) =~= seq![
        "ent_"@ + "conveyor"@ + "_"@ + cell_token(cell_id@),
        "ent_"@ + "fixture"@ + "_"@ + cell_token(cell_id@),
        "ent_"@ + "tool"@ + "_"@ + cell_token(cell_id@),
    ]);
    assert(texts(m.sequence_ids@) =~= seq!["ent_seq_"@ + cell_token(cell_id@)]);
    assert(texts(m.controller_model_ids@) =~= seq!["ent_ctrl_"@ + cell_token(cell_id@)]);
    m
}

/// The placements of the scene of a generated robot cell: the robot at the
/// origin, the conveyor at (620, 120, 0), the fixture at (980, -140, 0),
/// the tool at (120, 0, 260); each an occurrence of the cell's part of that kind.
pub fn robot_cell_scene_occurrences(cell_id: &str) -> (r: Vec<Occurrence>)
    ensures
        r@.len() == 4,
        r@[0].id@ == "occ_"@ + "robot"@ + "_001"@,
        r@[0].definition_entity_id@ == "ent_part_"@ + "robot"@ + "_"@ + cell_token(cell_id@),
        r@[0].transform == (Transform3D { x_mm: 0, y_mm: 0, z_mm: 0, yaw_deg: 0 }),
        r@[1].id@ == "occ_"@ + "conveyor"@ + "_001"@,
        r@[1].definition_entity_id@ == "ent_part_"@ + "conveyor"@ + "_"@ + cell_token(cell_id@),
        r@[1].transform == (Transform3D { x_mm: 0x4083600000000000, y_mm: 0x405E000000000000, z_mm: 0, yaw_deg: 0 }),
        r@[2].id@ == "occ_"@ + "fixture"@ + "_001"@,
        r@[2].definition_entity_id@ == "ent_part_"@ + "fixture"@ + "_"@ + cell_token(cell_id@),
        r@[2].transform == (Transform3D { x_mm: 0x408EA00000000000, y_mm: 0xC061800000000000, z_mm: 0, yaw_deg: 0 }),
        r@[3].id@ == "occ_"@ + "tool"@ + "_001"@,
        r@[3].definition_entity_id@ == "ent_part_"@ + "tool"@ + "_"@ + cell_token(cell_id@),
        r@[3].transform == (Transform3D { x_mm: 0x405E000000000000, y_mm: 0, z_mm: 0x4070400000000000, yaw_deg: 0 }),
{
    let mut r: Vec<Occurrence> = Vec::new();
    r.push(
        Occurrence {
            id: robot_cell_occurrence_id("robot"),
            definition_entity_id: robot_cell_part_entity_id(cell_id, "robot"),
            transform: Transform3D::default(),
        },
    );
    r.push(
        Occurrence {
            id: robot_cell_occurrence_id("conveyor"),
            definition_entity_id: robot_cell_part_entity_id(cell_id, "conveyor"),
            transform: Transform3D { x_mm: 0x4083600000000000, y_mm: 0x405E000000000000, z_mm: 0, yaw_deg: 0 },
        },
    );
    r.push(
        Occurrence {
            id: robot_cell_occurrence_id("fixture"),
            definition_entity_id: robot_cell_part_entity_id(cell_id, "fixture"),
            transform: Transform3D { x_mm: 0x408EA00000000000, y_mm: 0xC061800000000000, z_mm: 0, yaw_deg: 0 },
        },
    );
    r.push(
        Occurrence {
            id: robot_cell_occurrence_id("tool"),
            definition_entity_id: robot_cell_part_entity_id(cell_id, "tool"),
            transform: Transform3D { x_mm: 0x405E000000000000, y_mm: 0, z_mm: 0x4070400000000000, yaw_deg: 0 },
        },
    );
    r
}

/// `m` is the offset mate `id` from `left` to `right` at `distance` (bit pattern).
pub open spec fn offset_mate_is(m: MateConstraint, id: Seq<char>, left: Seq<char>, right: Seq<char>, distance: u64) -> bool {
    &&& m.id@ == id
    &&& m.left_occurrence_id@ == left
    &&& m.right_occurrence_id@ == right
    &&& m.mate_type == MateType::Offset { distance_mm: distance }
}

fn offset_mate(id: &str, left: &str, right: &str, distance_mm: u64) -> (m: MateConstraint)
    ensures
        offset_mate_is(m, id@, "occ_"@ + left@ + "_001"@, "occ_"@ + right@ + "_001"@, distance_mm),
{
    MateConstraint {
        id: String::from_str(id),
        left_occurrence_id: robot_cell_occurrence_id(left),
        right_occurrence_id: robot_cell_occurrence_id(right),
        mate_type: MateType::Offset { distance_mm },
    }
}

/// The mates of the scene of a generated robot cell: robot to conveyor at
/// 620 mm, conveyor to fixture at 360 mm, robot to tool at 120 mm.
pub fn robot_cell_scene_mates() -> (r: Vec<MateConstraint>)
    ensures
        r@.len() == 3,
        offset_mate_is(
            r@[0],
            "mate_robot_conveyor"@,
            "occ_"@ + "robot"@ + "_001"@,
            "occ_"@ + "conveyor"@ + "_001"@,
            0x4083600000000000,
        ),
        offset_mate_is(
            r@[1],
            "mate_conveyor_fixture"@,
            "occ_"@ + "conveyor"@ + "_001"@,
            "occ_"@ + "fixture"@ + "_001"@,
            0x4076800000000000,
        ),
        offset_mate_is(
            r@[2],
            "mate_robot_tool"@,
            "occ_"@ + "robot"@ + "_001"@,
            "occ_"@ + "tool"@ + "_001"@,
            0x405E000000000000,
        ),
{
    let mut r: Vec<MateConstraint> = Vec::new();
    r.push(offset_mate("mate_robot_conveyor", "robot", "conveyor", 0x4083600000000000));
    r.push(offset_mate("mate_conveyor_fixture", "conveyor", "fixture", 0x4076800000000000));
    r.push(offset_mate("mate_robot_tool", "robot", "tool", 0x405E000000000000));
    r
}

/// The safety zones of the demo cell: an active warning perimeter and an
/// inactive lidar protective field.
pub fn sample_safety_zones() -> (r: Vec<SafetyZone>)
    ensures
        r@.len() == 2,
        r@[0].id@ == "zone_warning_perimeter"@ && r@[0].kind == SafetyZoneKind::Warning && r@[0].active,
        r@[1].id@ == "zone_lidar_protective"@ && r@[1].kind == SafetyZoneKind::LidarProtective && !r@[1].active,
{
    let mut r: Vec<SafetyZone> = Vec::new();
    r.push(SafetyZone { id: String::from_str("zone_warning_perimeter"), kind: SafetyZoneKind::Warning, active: true });
    r.push(SafetyZone { id: String::from_str("zone_lidar_protective"), kind: SafetyZoneKind::LidarProtective, active: false });
    r
}

/// The interlocks of the demo cell: the warning perimeter inhibits speeding
/// up, the lidar field stops moves and needs a manual reset.
pub fn sample_safety_interlocks() -> (r: Vec<SafetyInterlock>)
    ensures
        r@.len() == 2,
        r@[0].id@ == "int_warning_reduce_speed"@ && r@[0].source_zone_id@ == "zone_warning_perimeter"@
            && r@[0].inhibited_action@ == "robot.speed.up"@ && !r@[0].requires_manual_reset,
        r@[1].id@ == "int_lidar_stop_move"@ && r@[1].source_zone_id@ == "zone_lidar_protective"@
            && r@[1].inhibited_action@ == "robot.move"@ && r@[1].requires_manual_reset,
{
    let mut r: Vec<SafetyInterlock> = Vec::new();
    r.push(
        SafetyInterlock {
            id: String::from_str("int_warning_reduce_speed"),
            source_zone_id: String::from_str("zone_warning_perimeter"),
            inhibited_action: String::from_str("robot.speed.up"),
            requires_manual_reset: false,
        },
    );
    r.push(
        SafetyInterlock {
            id: String::from_str("int_lidar_stop_move"),
            source_zone_id: String::from_str("zone_lidar_protective"),
            inhibited_action: String::from_str("robot.move"),
            requires_manual_reset: true,
        },
    );
    r
}


/// What the workspace shows of an assembly entity.
#[derive(Debug, Clone, PartialEq, Eq)]
pub struct AssemblyEntitySummary {
    pub status: String,
    pub occurrence_count: usize,
    pub mate_count: usize,
    pub joint_count: usize,
    pub joint_state_summary: Option<String>,
    pub degrees_of_freedom_estimate: usize,
    pub warning_count: usize,
}

/// What the workspace shows of a safety report entity.
#[derive(Debug, Clone, PartialEq, Eq)]
pub struct SafetyReportEntitySummary {
    pub status: String,
    pub inhibited: bool,
    pub active_zone_count: usize,
    pub blocking_interlock_count: usize,
    pub advisory_zone_count: usize,
}

fn append_count(s: &mut String, n: usize, label: &str)
    ensures
        final(s)@ == old(s)@ + decimal(n as nat) + label@,
{
    let digits = decimal_string(n as u64);
    s.append(digits.as_str());
    s.append(label);
}

/// `status | n occ | n mates | n joints | joint state | n ddl`.
pub open spec fn assembly_detail(summary: AssemblyEntitySummary) -> Seq<char> {
    summary.status@ + " | "@ + decimal(summary.occurrence_count as nat) + " occ | "@ + decimal(summary.mate_count as nat)
        + " mates | "@ + decimal(summary.joint_count as nat) + " joints | "@ + match summary.joint_state_summary {
        Some(j) => j@,
        None => "no joint state"@,
    } + " | "@ + decimal(summary.degrees_of_freedom_estimate as nat) + " ddl"@
}

pub fn format_assembly_entity_detail(summary: &AssemblyEntitySummary) -> (r: String)
    ensures
        r@ == assembly_detail(*summary),
{
    let mut s = summary.status.clone();
    s.append(" | ");
    append_count(&mut s, summary.occurrence_count, " occ | ");
    append_count(&mut s, summary.mate_count, " mates | ");
    append_count(&mut s, summary.joint_count, " joints | ");
    match &summary.joint_state_summary {
        Some(j) => s.append(j.as_str()),
        None => s.append("no joint state"),
    }
    s.append(" | ");
    append_count(&mut s, summary.degrees_of_freedom_estimate, " ddl");
    assert(s@ =~= assembly_detail(*summary));
    s
}

/// `status | n active | n block`.
pub open spec fn safety_detail(summary: SafetyReportEntitySummary) -> Seq<char> {
    summary.status@ + " | "@ + decimal(summary.active_zone_count as nat) + " active | "@ + decimal(
        summary.blocking_interlock_count as nat,
    ) + " block"@
}

pub fn format_safety_report_entity_detail(summary: &SafetyReportEntitySummary) -> (r: String)
    ensures
        r@ == safety_detail(*summary),
{
    let mut s = summary.status.clone();
    s.append(" | ");
    append_count(&mut s, summary.active_zone_count, " active | ");
    append_count(&mut s, summary.blocking_interlock_count, " block");
    assert(s@ =~= safety_detail(*summary));
    s
}

/// What the workspace shows of a perception run entity; the average
/// coverage is the bit pattern of an `f64`.
#[derive(Debug, Clone, PartialEq, Eq)]
pub struct PerceptionRunEntitySummary {
    pub status: String,
    pub frame_count: usize,
    pub average_coverage_ratio: u64,
    pub unknown_obstacle_count: u32,
    pub deviation_count: usize,
}

/// `status | n frame(s) | n unknown`.
pub open spec fn perception_run_detail(summary: PerceptionRunEntitySummary) -> Seq<char> {
    summary.status@ + " | "@ + decimal(summary.frame_count as nat) + " frame(s) | "@ + decimal(
        summary.unknown_obstacle_count as nat,
    ) + " unknown"@
}

pub fn format_perception_run_entity_detail(summary: &PerceptionRunEntitySummary) -> (r: String)
    ensures
        r@ == perception_run_detail(*summary),
{
    let mut s = summary.status.clone();
    s.append(" | ");
    append_count(&mut s, summary.frame_count, " frame(s) | ");
    let digits = decimal_string(summary.unknown_obstacle_count as u64);
    s.append(digits.as_str());
    s.append(" unknown");
    assert(s@ =~= perception_run_detail(*summary));
    s
}

/// What the workspace shows of a robot cell entity; path lengths are the
/// bit patterns of `f64` values.
#[derive(Debug, Clone, PartialEq, Eq)]
pub struct RobotCellEntitySummary {
    pub scene_assembly_id: Option<String>,
    pub target_preview: Option<String>,
    pub target_count: usize,
    pub path_length_mm: u64,
    pub max_segment_mm: u64,
    pub estimated_cycle_time_ms: u32,
    pub equipment_count: usize,
    pub sequence_count: usize,
    pub safety_zone_count: usize,
    pub signal_count: usize,
    pub controller_transition_count: usize,
    pub blocked_sequence_detected: bool,
    pub blocked_state_id: Option<String>,
    pub warning_count: usize,
}

/// `n pts | n equip | n sig | n tr | scene | n ms[ | blocked state][ | preview]`.
pub open spec fn robot_cell_detail(summary: RobotCellEntitySummary) -> Seq<char> {
    let scene = match summary.scene_assembly_id {
        Some(id) => id@,
        None => "scene"@,
    };
    let blocked = if summary.blocked_sequence_detected {
        " | blocked "@ + match summary.blocked_state_id {
            Some(id) => id@,
            None => "state"@,
        }
    } else {
        Seq::empty()
    };
    let preview = match summary.target_preview {
        Some(p) => " | "@ + p@,
        None => Seq::empty(),
    };
    decimal(summary.target_count as nat) + " pts | "@ + decimal(summary.equipment_count as nat) + " equip | "@ + decimal(
        summary.signal_count as nat,
    ) + " sig | "@ + decimal(summary.controller_transition_count as nat) + " tr | "@ + scene + " | "@ + decimal(
        summary.estimated_cycle_time_ms as nat,
    ) + " ms"@ + blocked + preview
}

pub fn format_robot_cell_entity_detail(summary: &RobotCellEntitySummary) -> (r: String)
    ensures
        r@ == robot_cell_detail(*summary),
{
    let mut s = String::new();
    append_count(&mut s, summary.target_count, " pts | ");
    append_count(&mut s, summary.equipment_count, " equip | ");
    append_count(&mut s, summary.signal_count, " sig | ");
    append_count(&mut s, summary.controller_transition_count, " tr | ");
    match &summary.scene_assembly_id {
        Some(id) => s.append(id.as_str()),
        None => s.append("scene"),
    }
    s.append(" | ");
    let digits = decimal_string(summary.estimated_cycle_time_ms as u64);
    s.append(digits.as_str());
    s.append(" ms");
    if summary.blocked_sequence_detected {
        s.append(" | blocked ");
        match &summary.blocked_state_id {
            Some(id) => s.append(id.as_str()),
            None => s.append("state"),
        }
    }
    if let Some(p) = &summary.target_preview {
        s.append(" | ");
        s.append(p.as_str());
    }
    assert(s@ =~= robot_cell_detail(*summary));
    s
}

/// The target ids joined by ` -> `.
pub open spec fn target_preview_spec(ids: Seq<Seq<char>>) -> Seq<char>
    decreases ids.len(),
{
    if ids.len() == 0 {
        Seq::empty()
    } else if ids.len() == 1 {
        ids[0]
    } else {
        target_preview_spec(ids.drop_last()) + " -> "@ + ids.last()
    }
}

pub open spec fn target_ids(targets: Seq<RobotTarget>) -> Seq<Seq<char>> {
    targets.map_values(|t: RobotTarget| t.id@)
}

/// The order of a sequence at a glance: its target ids joined by ` -> `.
pub fn ordered_target_preview(targets: &[RobotTarget]) -> (r: String)
    ensures
        r@ == target_preview_spec(target_ids(targets@)),
{
    let n = targets.len();
    let mut s = String::new();
    if n == 0 {
        assert(target_ids(targets@) =~= Seq::<Seq<char>>::empty());
        return s;
    }
    let ghost ids = target_ids(targets@);
    s.append(targets[0].id.as_str());
    assert(ids.take(1) =~= seq![ids[0]]);
    let mut i: usize = 1;
    while i < n
        invariant
            n == targets@.len(),
            ids == target_ids(targets@),
            1 <= i <= n,
            s@ == target_preview_spec(ids.take(i as int)),
        decreases n - i,
    {
        assert(ids.take(i + 1).drop_last() =~= ids.take(i as int));
        s.append(" -> ");
        s.append(targets[i].id.as_str());
        i = i + 1;
    }
    assert(ids.take(n as int) =~= ids);
    s
}

/// The manifest of the `index`-th demo plugin of the desktop runtime.
pub fn sample_plugin_manifest(index: usize, plugin_id: &str) -> (m: PluginManifest)
    ensures
        m.id@ == "ent_plugin_"@ + zero_pad(decimal(index as nat), 3),
        m.plugin_id@ == plugin_id@,
        m.version@ == "0.1.0"@,
        texts(m.capabilities@) == seq!["panel"@, "command"@],
        texts(m.permissions@) == seq!["project.read"@, "plugin.ui.mount"@],
        texts(m.entrypoints@) == seq!["plugins/desktop-runtime/index.js"@],
        texts(m.compatibility@) == seq!["faero-core@0.1"@],
        m.status@ == "installed"@,
{
    let number = padded_decimal(index as u64, 3);
    let mut entrypoints: Vec<String> = Vec::new();
    entrypoints.push(String::from_str("plugins/desktop-runtime/index.js"));
    let mut compatibility: Vec<String> = Vec::new();
    compatibility.push(String::from_str("faero-core@0.1"));
    let m = PluginManifest {
        id: prefixed("ent_plugin_", number.as_str()),
        plugin_id: String::from_str(plugin_id),
        version: String::from_str("0.1.0"),
        capabilities: text_pair("panel", "command"),
        permissions: text_pair("project.read", "plugin.ui.mount"),
        entrypoints,
        compatibility,
        status: String::from_str("installed"),
    };
    assert(texts(m.entrypoints@) =~= seq!["plugins/desktop-runtime/index.js"@]);
    assert(texts(m.compatibility@) =~= seq!["faero-core@0.1"@]);
    m
}


/// A character a path segment may keep.
pub open spec fn path_safe(c: char) -> bool {
    ascii_alnum(c) || c == '-' || c == '_'
}

proof fn lemma_strip_start_shape(s: Seq<char>, c: char)
    ensures
        strip_start(s, c).len() == 0 || strip_start(s, c)[0] != c,
        exists|k: int| 0 <= k <= s.len() && strip_start(s, c) == s.skip(k),
    decreases s.len(),
{
    if s.len() > 0 && s[0] == c {
        lemma_strip_start_shape(s.drop_first(), c);
        let k = choose|k: int| 0 <= k <= s.drop_first().len() && strip_start(s.drop_first(), c) == s.drop_first().skip(k);
        assert(s.drop_first().skip(k) =~= s.skip(k + 1));
    } else {
        assert(s.skip(0) =~= s);
    }
}

proof fn lemma_strip_end_shape(s: Seq<char>, c: char)
    ensures
        strip_end(s, c).len() == 0 || strip_end(s, c).last() != c,
        exists|k: int| 0 <= k <= s.len() && strip_end(s, c) == s.take(k),
    decreases s.len(),
{
    if s.len() > 0 && s.last() == c {
        lemma_strip_end_shape(s.drop_last(), c);
        let k = choose|k: int| 0 <= k <= s.drop_last().len() && strip_end(s.drop_last(), c) == s.drop_last().take(k);
        assert(s.drop_last().take(k) =~= s.take(k));
    } else {
        assert(s.take(s.len() as int) =~= s);
    }
}

/// A sanitized segment is never empty, holds only ASCII alphanumerics, `-`
/// and `_`, and neither starts nor ends with `_`.
pub proof fn law_sanitized_segment_is_safe(value: Seq<char>)
    ensures
        sanitized(value).len() > 0,
        forall|i: int| 0 <= i < sanitized(value).len() ==> path_safe(#[trigger] sanitized(value)[i]),
        sanitized(value)[0] != '_',
        sanitized(value).last() != '_',
{
    let m = value.map_values(|c: char| path_char(c));
    let a = strip_start(m, '_');
    lemma_strip_start_shape(m, '_');
    lemma_strip_end_shape(a, '_');
    let t = strip_end(a, '_');
    let ka = choose|k: int| 0 <= k <= m.len() && a == m.skip(k);
    let kt = choose|k: int| 0 <= k <= a.len() && t == a.take(k);
    assert forall|i: int| 0 <= i < t.len() implies path_safe(#[trigger] t[i]) by {
        assert(t[i] == m[i + ka]);
    }
    if t.len() == 0 {
        reveal_strlit("workspace");
    } else {
        assert(t[0] == a[0]);
    }
}

} // verus!
