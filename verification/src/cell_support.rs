//! The entities a generated robot cell brings along for its safety zones
//! and its control signals, with their data as JSON.
use vstd::prelude::*;
use crate::json::{fields_view, json_view, JsonFields, JsonModel, JsonValue};
use crate::keyed::key_views;
use crate::project::{signal_json, signal_value_json, EntityData, EntityRecord};
use crate::properties::{tags_json, tags_model};
use crate::robotics::RobotCellControlModel;
use crate::safety::{SafetyInterlock, SafetyZone, SafetyZoneKind};
use crate::types::{SignalDefinition, SignalKind};
use crate::workspace::{cell_token, robot_cell_safety_zone_entity_id, robot_cell_signal_entity_id};

verus! {

/// The suffix of a zone's entity id: `warning` or `protective`.
pub open spec fn zone_suffix(k: SafetyZoneKind) -> Seq<char> {
    match k {
        SafetyZoneKind::Warning => "warning"@,
        _ => "protective"@,
    }
}

/// The zone kind as entity data and serde write it.
pub open spec fn zone_kind_label(k: SafetyZoneKind) -> Seq<char> {
    match k {
        SafetyZoneKind::Warning => "warning"@,
        SafetyZoneKind::ProtectiveStop => "protective_stop"@,
        SafetyZoneKind::LidarProtective => "lidar_protective"@,
    }
}

/// The ids of the interlocks whose source is zone `zone_id`, in order.
pub open spec fn zone_interlock_ids(zone_id: Seq<char>, interlocks: Seq<SafetyInterlock>) -> Seq<Seq<char>>
    decreases interlocks.len(),
{
    if interlocks.len() == 0 {
        Seq::empty()
    } else {
        let rest = zone_interlock_ids(zone_id, interlocks.drop_last());
        if interlocks.last().source_zone_id@ == zone_id {
            rest.push(interlocks.last().id@)
        } else {
            rest
        }
    }
}

/// The id of the entity of `zone` in cell `cell_id`.
pub open spec fn zone_entity_id(cell_id: Seq<char>, zone: SafetyZone) -> Seq<char> {
    "ent_zone_"@ + cell_token(cell_id) + "_"@ + zone_suffix(zone.kind)
}

/// The data of the entity of `zone`.
pub open spec fn zone_data(cell_id: Seq<char>, zone: SafetyZone, interlocks: Seq<SafetyInterlock>) -> JsonModel {
    JsonModel::Object(
        seq![
            ("active"@, JsonModel::Bool(zone.active)),
            ("cellId"@, JsonModel::Text(cell_id)),
            ("id"@, JsonModel::Text(zone_entity_id(cell_id, zone))),
            ("interlockIds"@, tags_model(zone_interlock_ids(zone.id@, interlocks))),
            ("zoneId"@, JsonModel::Text(zone.id@)),
            ("zoneKind"@, JsonModel::Text(zone_kind_label(zone.kind))),
        ],
    )
}

/// `e` is the `SafetyZoneModel` entity of `zone` in cell `cell_id` named
/// `cell_name`.
pub open spec fn zone_entity_is(e: EntityRecord, cell_id: Seq<char>, cell_name: Seq<char>, zone: SafetyZone, interlocks: Seq<SafetyInterlock>) -> bool {
    &&& e.id@ == zone_entity_id(cell_id, zone)
    &&& e.entity_type@ == "SafetyZoneModel"@
    &&& e.name@ == cell_name + " / "@ + zone.id@
    &&& e.revision@ == "rev_seed"@
    &&& e.status@ == "active"@
    &&& e.data matches EntityData::Json(v) && json_view(v) == zone_data(cell_id, zone, interlocks)
}

/// `s` without every leading `sig_`.
pub open spec fn strip_sig(s: Seq<char>) -> Seq<char>
    decreases s.len(),
{
    if s.len() >= 4 && s[0] == 's' && s[1] == 'i' && s[2] == 'g' && s[3] == '_' {
        strip_sig(s.skip(4))
    } else {
        s
    }
}

pub open spec fn signal_kind_label(k: SignalKind) -> Seq<char> {
    match k {
        SignalKind::Boolean => "boolean"@,
        SignalKind::Scalar => "scalar"@,
        SignalKind::Text => "text"@,
    }
}

pub open spec fn unit_model(u: Option<String>) -> JsonModel {
    match u {
        Some(t) => JsonModel::Text(t@),
        None => JsonModel::Null,
    }
}

/// The data of the entity of signal `s`: its initial value is also its
/// current value.
pub open spec fn signal_data(cell_id: Seq<char>, s: SignalDefinition) -> JsonModel {
    let v = json_view(signal_json(s.initial_value));
    JsonModel::Object(
        seq![
            ("cellId"@, JsonModel::Text(cell_id)),
            ("currentValue"@, v),
            ("initialValue"@, v),
            ("kind"@, JsonModel::Text(signal_kind_label(s.kind))),
            ("parameterSet"@, JsonModel::Object(seq![("currentValue"@, v), ("unit"@, unit_model(s.unit))])),
            ("signalId"@, JsonModel::Text(s.id@)),
            ("tags"@, tags_model(key_views(s.tags@))),
        ],
    )
}

/// `e` is the `Signal` entity of `s` in cell `cell_id` named `cell_name`.
pub open spec fn signal_entity_is(e: EntityRecord, cell_id: Seq<char>, cell_name: Seq<char>, s: SignalDefinition) -> bool {
    &&& e.id@ == "ent_sig_"@ + cell_token(cell_id) + "_"@ + strip_sig(s.id@)
    &&& e.entity_type@ == "Signal"@
    &&& e.name@ == cell_name + " / "@ + s.name@
    &&& e.revision@ == "rev_seed"@
    &&& e.status@ == "active"@
    &&& e.data matches EntityData::Json(v) && json_view(v) == signal_data(cell_id, s)
}

fn labelled(cell_name: &str, label: &str) -> (r: String)
    ensures
        r@ == cell_name@ + " / "@ + label@,
{
    let mut r = String::from_str(cell_name);
    r.append(" / ");
    r.append(label);
    r
}

fn interlock_ids_json(zone_id: &str, interlocks: &[SafetyInterlock]) -> (r: JsonValue)
    ensures
        json_view(r) == tags_model(zone_interlock_ids(zone_id@, interlocks@)),
{
    let mut ids: Vec<String> = Vec::new();
    let mut i: usize = 0;
    while i < interlocks.len()
        invariant
            i <= interlocks@.len(),
            key_views(ids@) == zone_interlock_ids(zone_id@, interlocks@.take(i as int)),
        decreases interlocks@.len() - i,
    {
        assert(interlocks@.take(i + 1).drop_last() =~= interlocks@.take(i as int));
        let lock = &interlocks[i];
        if crate::text::str_eq(lock.source_zone_id.as_str(), zone_id) {
            let ghost before = ids@;
            ids.push(lock.id.clone());
            assert(key_views(ids@) =~= key_views(before).push(lock.id@));
        }
        i = i + 1;
    }
    assert(interlocks@.take(i as int) =~= interlocks@);
    tags_json(&ids)
}

pub(crate) fn zone_kind_text(k: SafetyZoneKind) -> (r: &'static str)
    ensures
        r@ == zone_kind_label(k),
{
    match k {
        SafetyZoneKind::Warning => "warning",
        SafetyZoneKind::ProtectiveStop => "protective_stop",
        SafetyZoneKind::LidarProtective => "lidar_protective",
    }
}

/// The `SafetyZoneModel` entity of `zone`.
pub fn robot_cell_zone_entity(cell_id: &str, cell_name: &str, zone: &SafetyZone, interlocks: &[SafetyInterlock]) -> (r: EntityRecord)
    ensures
        zone_entity_is(r, cell_id@, cell_name@, *zone, interlocks@),
{
    let suffix = match zone.kind {
        SafetyZoneKind::Warning => "warning",
        _ => "protective",
    };
    let id = robot_cell_safety_zone_entity_id(cell_id, suffix);
    let fs = JsonFields::cons(
        "active",
        JsonValue::Bool(zone.active),
        JsonFields::cons(
            "cellId",
            JsonValue::Text(String::from_str(cell_id)),
            JsonFields::cons(
                "id",
                JsonValue::Text(id.clone()),
                JsonFields::cons(
                    "interlockIds",
                    interlock_ids_json(zone.id.as_str(), interlocks),
                    JsonFields::cons(
                        "zoneId",
                        JsonValue::Text(zone.id.clone()),
                        JsonFields::cons("zoneKind", JsonValue::Text(String::from_str(zone_kind_text(zone.kind))), JsonFields::Nil),
                    ),
                ),
            ),
        ),
    );
    assert(fields_view(fs) =~= zone_data(cell_id@, *zone, interlocks@)->Object_0);
    EntityRecord {
        id,
        entity_type: String::from_str("SafetyZoneModel"),
        name: labelled(cell_name, zone.id.as_str()),
        revision: String::from_str("rev_seed"),
        status: String::from_str("active"),
        data: EntityData::Json(JsonValue::Object(fs)),
    }
}

/// The `SafetyZoneModel` entities of the cell's zones, one per zone in
/// order.
pub fn robot_cell_zone_entities(cell_id: &str, cell_name: &str, zones: &[SafetyZone], interlocks: &[SafetyInterlock]) -> (r: Vec<EntityRecord>)
    ensures
        r@.len() == zones@.len(),
        forall|i: int| 0 <= i < zones@.len() ==> zone_entity_is(#[trigger] r@[i], cell_id@, cell_name@, zones@[i], interlocks@),
{
    let mut r: Vec<EntityRecord> = Vec::new();
    let mut i: usize = 0;
    while i < zones.len()
        invariant
            i <= zones@.len(),
            r@.len() == i,
            forall|j: int| 0 <= j < i ==> zone_entity_is(#[trigger] r@[j], cell_id@, cell_name@, zones@[j], interlocks@),
        decreases zones@.len() - i,
    {
        r.push(robot_cell_zone_entity(cell_id, cell_name, &zones[i], interlocks));
        i = i + 1;
    }
    r
}

/// `id` without every leading `sig_`.
pub fn strip_signal_prefix(id: &str) -> (r: &str)
    ensures
        r@ == strip_sig(id@),
{
    let n = id.unicode_len();
    let mut i: usize = 0;
    assert(id@.skip(0) =~= id@);
    while n - i >= 4 && id.get_char(i) == 's' && id.get_char(i + 1) == 'i' && id.get_char(i + 2) == 'g' && id.get_char(
        i + 3,
    ) == '_'
        invariant
            i <= n,
            n == id@.len(),
            strip_sig(id@) == strip_sig(id@.skip(i as int)),
        decreases n - i,
    {
        assert(id@.skip(i as int).skip(4) =~= id@.skip(i + 4));
        i = i + 4;
    }
    assert(id@.skip(i as int) =~= id@.subrange(i as int, n as int));
    id.substring_char(i, n)
}

fn signal_kind_text(k: &SignalKind) -> (r: &'static str)
    ensures
        r@ == signal_kind_label(*k),
{
    match k {
        SignalKind::Boolean => "boolean",
        SignalKind::Scalar => "scalar",
        SignalKind::Text => "text",
    }
}

/// The `Signal` entity of signal `s`.
pub fn robot_cell_signal_entity(cell_id: &str, cell_name: &str, s: &SignalDefinition) -> (r: EntityRecord)
    ensures
        signal_entity_is(r, cell_id@, cell_name@, *s),
{
    let unit = match &s.unit {
        Some(t) => JsonValue::Text(t.clone()),
        None => JsonValue::Null,
    };
    let params = JsonFields::cons(
        "currentValue",
        signal_value_json(&s.initial_value),
        JsonFields::cons("unit", unit, JsonFields::Nil),
    );
    let fs = JsonFields::cons(
        "cellId",
        JsonValue::Text(String::from_str(cell_id)),
        JsonFields::cons(
            "currentValue",
            signal_value_json(&s.initial_value),
            JsonFields::cons(
                "initialValue",
                signal_value_json(&s.initial_value),
                JsonFields::cons(
                    "kind",
                    JsonValue::Text(String::from_str(signal_kind_text(&s.kind))),
                    JsonFields::cons(
                        "parameterSet",
                        JsonValue::Object(params),
                        JsonFields::cons("signalId", JsonValue::Text(s.id.clone()), JsonFields::cons("tags", tags_json(&s.tags), JsonFields::Nil)),
                    ),
                ),
            ),
        ),
    );
    assert(fields_view(params) =~= seq![
        ("currentValue"@, json_view(signal_json(s.initial_value))),
        ("unit"@, unit_model(s.unit)),
    ]);
    assert(fields_view(fs) =~= signal_data(cell_id@, *s)->Object_0);
    EntityRecord {
        id: robot_cell_signal_entity_id(cell_id, strip_signal_prefix(s.id.as_str())),
        entity_type: String::from_str("Signal"),
        name: labelled(cell_name, s.name.as_str()),
        revision: String::from_str("rev_seed"),
        status: String::from_str("active"),
        data: EntityData::Json(JsonValue::Object(fs)),
    }
}

/// The `Signal` entities of the control model's signals, one per signal in
/// order.
pub fn robot_cell_signal_entities(cell_id: &str, cell_name: &str, control: &RobotCellControlModel) -> (r: Vec<EntityRecord>)
    ensures
        r@.len() == control.signals@.len(),
        forall|i: int|
            0 <= i < control.signals@.len() ==> signal_entity_is(#[trigger] r@[i], cell_id@, cell_name@, control.signals@[i]),
{
    let mut r: Vec<EntityRecord> = Vec::new();
    let mut i: usize = 0;
    while i < control.signals.len()
        invariant
            i <= control.signals@.len(),
            r@.len() == i,
            forall|j: int| 0 <= j < i ==> signal_entity_is(#[trigger] r@[j], cell_id@, cell_name@, control.signals@[j]),
        decreases control.signals@.len() - i,
    {
        r.push(robot_cell_signal_entity(cell_id, cell_name, &control.signals[i]));
        i = i + 1;
    }
    r
}

} // verus!
