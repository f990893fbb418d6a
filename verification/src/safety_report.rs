//! The safety report of a robot cell: its zones and interlocks evaluated
//! against an attempted action, written as a `SafetyReport` entity.
use vstd::prelude::*;
use crate::json::{fields_view, json_view, JsonFields, JsonModel, JsonNumber, JsonValue};
use crate::keyed::key_views;
use crate::cell_support::{zone_kind_label, zone_kind_text};
use crate::project::{log_numbers_below, counters_fit, CoreCommand, CoreError, EntityData, EntityRecord};
use crate::properties::{tags_json, tags_model};
use crate::safety::{
    active_count, advisory_count, cause_ids, evaluate_safety, status_spec, SafetyInterlock, SafetyZone,
};
use crate::session::{journal_view, result_view, system_entry, CommandResult, WorkspaceSession};
use crate::text::{decimal, decimal_string, padded_decimal, zero_pad};
use crate::workspace::{safety_status_label, safety_status_label_spec};

verus! {

/// A zone as JSON.
pub open spec fn zone_json(z: SafetyZone) -> JsonModel {
    JsonModel::Object(
        seq![
            ("active"@, JsonModel::Bool(z.active)),
            ("id"@, JsonModel::Text(z.id@)),
            ("kind"@, JsonModel::Text(zone_kind_label(z.kind))),
        ],
    )
}

/// An interlock as JSON.
pub open spec fn interlock_json(i: SafetyInterlock) -> JsonModel {
    JsonModel::Object(
        seq![
            ("id"@, JsonModel::Text(i.id@)),
            ("inhibitedAction"@, JsonModel::Text(i.inhibited_action@)),
            ("requiresManualReset"@, JsonModel::Bool(i.requires_manual_reset)),
            ("sourceZoneId"@, JsonModel::Text(i.source_zone_id@)),
        ],
    )
}

pub open spec fn count_json(n: nat) -> JsonModel {
    JsonModel::Number(JsonNumber::PosInt(n as u64))
}

/// The status the evaluation of `zones` and `interlocks` gives `action`.
pub open spec fn report_status(zones: Seq<SafetyZone>, interlocks: Seq<SafetyInterlock>, action: Seq<char>) -> Seq<char> {
    safety_status_label_spec(status_spec(cause_ids(zones, interlocks, action).len(), advisory_count(zones)))
}

/// The data of the safety report of cell `cell_id`.
pub open spec fn report_data(cell_id: Seq<char>, zones: Seq<SafetyZone>, interlocks: Seq<SafetyInterlock>, action: Seq<char>) -> JsonModel {
    let causes = cause_ids(zones, interlocks, action);
    JsonModel::Object(
        seq![
            ("attemptedAction"@, JsonModel::Text(action)),
            ("interlocks"@, JsonModel::Array(interlocks.map_values(|i: SafetyInterlock| interlock_json(i)))),
            ("parameterSet"@, JsonModel::Object(seq![("attemptedAction"@, JsonModel::Text(action))])),
            ("robotCellId"@, JsonModel::Text(cell_id)),
            (
                "summary"@,
                JsonModel::Object(
                    seq![
                        ("activeZoneCount"@, count_json(active_count(zones))),
                        ("advisoryZoneCount"@, count_json(advisory_count(zones))),
                        ("blockingInterlockCount"@, count_json(causes.len())),
                        ("causeZoneIds"@, tags_model(causes)),
                        ("inhibited"@, JsonModel::Bool(causes.len() > 0)),
                        ("status"@, JsonModel::Text(report_status(zones, interlocks, action))),
                    ],
                ),
            ),
            ("tags"@, tags_model(seq!["safety"@, "analysis"@])),
            ("zones"@, JsonModel::Array(zones.map_values(|z: SafetyZone| zone_json(z)))),
        ],
    )
}

/// `e` is the `SafetyReport` entity `id` named `name` on cell `cell_id`.
pub open spec fn report_entity_is(
    e: EntityRecord,
    id: Seq<char>,
    name: Seq<char>,
    cell_id: Seq<char>,
    zones: Seq<SafetyZone>,
    interlocks: Seq<SafetyInterlock>,
    action: Seq<char>,
) -> bool {
    &&& e.id@ == id
    &&& e.entity_type@ == "SafetyReport"@
    &&& e.name@ == name
    &&& e.revision@ == "rev_seed"@
    &&& e.status@ == "active"@
    &&& e.data matches EntityData::Json(v) && json_view(v) == report_data(cell_id, zones, interlocks, action)
}

fn text(s: &str) -> (r: JsonValue)
    ensures
        json_view(r) == JsonModel::Text(s@),
{
    JsonValue::Text(String::from_str(s))
}

fn count(n: usize) -> (r: JsonValue)
    ensures
        json_view(r) == count_json(n as nat),
{
    JsonValue::Number(JsonNumber::PosInt(n as u64))
}

fn zone_value(z: &SafetyZone) -> (r: JsonValue)
    ensures
        json_view(r) == zone_json(*z),
{
    let kind = zone_kind_text(z.kind);
    let fs = JsonFields::cons(
        "active",
        JsonValue::Bool(z.active),
        JsonFields::cons("id", JsonValue::Text(z.id.clone()), JsonFields::cons("kind", text(kind), JsonFields::Nil)),
    );
    assert(fields_view(fs) =~= zone_json(*z)->Object_0);
    JsonValue::Object(fs)
}

fn interlock_value(i: &SafetyInterlock) -> (r: JsonValue)
    ensures
        json_view(r) == interlock_json(*i),
{
    let fs = JsonFields::cons(
        "id",
        JsonValue::Text(i.id.clone()),
        JsonFields::cons(
            "inhibitedAction",
            JsonValue::Text(i.inhibited_action.clone()),
            JsonFields::cons(
                "requiresManualReset",
                JsonValue::Bool(i.requires_manual_reset),
                JsonFields::cons("sourceZoneId", JsonValue::Text(i.source_zone_id.clone()), JsonFields::Nil),
            ),
        ),
    );
    assert(fields_view(fs) =~= interlock_json(*i)->Object_0);
    JsonValue::Object(fs)
}

fn zones_value(zones: &[SafetyZone]) -> (r: JsonValue)
    ensures
        json_view(r) == JsonModel::Array(zones@.map_values(|z: SafetyZone| zone_json(z))),
{
    let mut items: Vec<JsonValue> = Vec::new();
    let mut i: usize = 0;
    while i < zones.len()
        invariant
            i <= zones@.len(),
            items@.map_values(|x: JsonValue| json_view(x)) == zones@.take(i as int).map_values(|z: SafetyZone| zone_json(z)),
        decreases zones@.len() - i,
    {
        let ghost before = items@;
        items.push(zone_value(&zones[i]));
        assert(items@.map_values(|x: JsonValue| json_view(x)) =~= before.map_values(|x: JsonValue| json_view(x)).push(
            zone_json(zones@[i as int]),
        ));
        assert(zones@.take(i + 1).map_values(|z: SafetyZone| zone_json(z)) =~= zones@.take(i as int).map_values(
            |z: SafetyZone| zone_json(z),
        ).push(zone_json(zones@[i as int])));
        i = i + 1;
    }
    assert(zones@.take(i as int) =~= zones@);
    JsonValue::array(items)
}

fn interlocks_value(interlocks: &[SafetyInterlock]) -> (r: JsonValue)
    ensures
        json_view(r) == JsonModel::Array(interlocks@.map_values(|x: SafetyInterlock| interlock_json(x))),
{
    let mut items: Vec<JsonValue> = Vec::new();
    let mut i: usize = 0;
    while i < interlocks.len()
        invariant
            i <= interlocks@.len(),
            items@.map_values(|x: JsonValue| json_view(x)) == interlocks@.take(i as int).map_values(
                |x: SafetyInterlock| interlock_json(x),
            ),
        decreases interlocks@.len() - i,
    {
        let ghost before = items@;
        items.push(interlock_value(&interlocks[i]));
        assert(items@.map_values(|x: JsonValue| json_view(x)) =~= before.map_values(|x: JsonValue| json_view(x)).push(
            interlock_json(interlocks@[i as int]),
        ));
        assert(interlocks@.take(i + 1).map_values(|x: SafetyInterlock| interlock_json(x)) =~= interlocks@.take(
            i as int,
        ).map_values(|x: SafetyInterlock| interlock_json(x)).push(interlock_json(interlocks@[i as int])));
        i = i + 1;
    }
    assert(interlocks@.take(i as int) =~= interlocks@);
    JsonValue::array(items)
}

fn safety_tags() -> (r: JsonValue)
    ensures
        json_view(r) == tags_model(seq!["safety"@, "analysis"@]),
{
    let mut tags: Vec<String> = Vec::new();
    tags.push(String::from_str("safety"));
    tags.push(String::from_str("analysis"));
    assert(key_views(tags@) =~= seq!["safety"@, "analysis"@]);
    tags_json(&tags)
}

/// The `SafetyReport` entity `id` named `name` for cell `cell_id`, with the
/// evaluation of `action` against its zones and interlocks.
pub fn safety_report_entity(
    id: &str,
    name: &str,
    cell_id: &str,
    zones: &[SafetyZone],
    interlocks: &[SafetyInterlock],
    action: &str,
) -> (r: EntityRecord)
    ensures
        report_entity_is(r, id@, name@, cell_id@, zones@, interlocks@, action@),
{
    let e = evaluate_safety(zones, interlocks, action);
    let summary = JsonFields::cons(
        "activeZoneCount",
        count(e.active_zone_count),
        JsonFields::cons(
            "advisoryZoneCount",
            count(e.advisory_zone_count),
            JsonFields::cons(
                "blockingInterlockCount",
                count(e.blocking_interlock_count),
                JsonFields::cons(
                    "causeZoneIds",
                    tags_json(&e.cause_zone_ids),
                    JsonFields::cons(
                        "inhibited",
                        JsonValue::Bool(e.inhibited),
                        JsonFields::cons("status", text(safety_status_label(&e.status)), JsonFields::Nil),
                    ),
                ),
            ),
        ),
    );
    let fs = JsonFields::cons(
        "attemptedAction",
        text(action),
        JsonFields::cons(
            "interlocks",
            interlocks_value(interlocks),
            JsonFields::cons(
                "parameterSet",
                JsonValue::Object(JsonFields::cons("attemptedAction", text(action), JsonFields::Nil)),
                JsonFields::cons(
                    "robotCellId",
                    text(cell_id),
                    JsonFields::cons(
                        "summary",
                        JsonValue::Object(summary),
                        JsonFields::cons("tags", safety_tags(), JsonFields::cons("zones", zones_value(zones), JsonFields::Nil)),
                    ),
                ),
            ),
        ),
    );
    proof {
        let causes = cause_ids(zones@, interlocks@, action@);
        assert(key_views(e.cause_zone_ids@) == causes);
        assert(fields_view(summary) =~= report_data(cell_id@, zones@, interlocks@, action@)->Object_0[4].1->Object_0);
        assert(fields_view(fs) =~= report_data(cell_id@, zones@, interlocks@, action@)->Object_0);
    }
    EntityRecord {
        id: String::from_str(id),
        entity_type: String::from_str("SafetyReport"),
        name: String::from_str(name),
        revision: String::from_str("rev_seed"),
        status: String::from_str("active"),
        data: EntityData::Json(JsonValue::Object(fs)),
    }
}

/// The id of the report created when the document holds `n` entities.
pub open spec fn report_id(n: nat) -> Seq<char> {
    "ent_safe_"@ + zero_pad(decimal(n + 1), 3)
}

pub open spec fn report_name(n: nat) -> Seq<char> {
    "SafetyReport-"@ + zero_pad(decimal(n + 1), 3)
}

/// The answer to a safety analysis.
pub open spec fn report_message(zones: Seq<SafetyZone>, interlocks: Seq<SafetyInterlock>, action: Seq<char>) -> Seq<char> {
    "rapport safety genere: "@ + report_status(zones, interlocks, action) + " | "@ + decimal(active_count(zones))
        + " zone(s) actives | "@ + decimal(cause_ids(zones, interlocks, action).len()) + " blocage(s)"@
}

impl WorkspaceSession {
    /// Completes `analyze.safety` once the caller found the robot cell
    /// `robot_cell_id` and read its zones and interlocks: the report of
    /// `robot.move` is created as the next entity and journaled.
    pub fn complete_safety_analysis(&mut self, robot_cell_id: &str, zones: &[SafetyZone], interlocks: &[SafetyInterlock]) -> (r:
        Result<CommandResult, CoreError>)
        requires
            log_numbers_below(old(self).graph@),
            counters_fit(old(self).graph@),
            old(self).system_counter < usize::MAX,
            old(self).graph@.document.nodes.len() + 1 < u64::MAX,
        ensures
            log_numbers_below(final(self).graph@),
            final(self).fixture_id == old(self).fixture_id,
            ({
                let d0 = old(self).graph@.document;
                let d1 = final(self).graph@.document;
                let n = d0.nodes.len();
                let id = report_id(n);
                &&& d0.nodes.dom().contains(id) ==> (r matches Err(CoreError::EntityAlreadyExists(x)) && x@ == id
                    && final(self).graph@ == old(self).graph@ && final(self).system_activity == old(self).system_activity
                    && final(self).system_counter == old(self).system_counter)
                &&& !d0.nodes.dom().contains(id) ==> {
                    &&& r matches Ok(res) && result_view(res) == (
                        "analyze.safety"@,
                        "applied"@,
                        report_message(zones@, interlocks@, "robot.move"@),
                    )
                    &&& d1.nodes.dom() == d0.nodes.dom().insert(id)
                    &&& report_entity_is(d1.nodes[id], id, report_name(n), robot_cell_id@, zones@, interlocks@, "robot.move"@)
                    &&& forall|k: Seq<char>| k != id && d0.nodes.dom().contains(k) ==> d1.nodes[k] == d0.nodes[k]
                    &&& final(self).system_counter == old(self).system_counter + 1
                    &&& journal_view(final(self).system_activity@) == journal_view(old(self).system_activity@).push(
                        system_entry(old(self).system_counter as nat, "analysis.safety.generated"@, Some(id)),
                    )
                }
            }),
    {
        let n = self.graph.entity_count();
        let digits = padded_decimal(n as u64 + 1, 3);
        let mut id = String::from_str("ent_safe_");
        id.append(digits.as_str());
        let mut name = String::from_str("SafetyReport-");
        name.append(digits.as_str());
        let entity = safety_report_entity(id.as_str(), name.as_str(), robot_cell_id, zones, interlocks, "robot.move");
        let e = evaluate_safety(zones, interlocks, "robot.move");
        match self.graph.apply_command(CoreCommand::CreateEntity(entity)) {
            Ok(_) => {},
            Err(error) => return Err(error),
        }
        self.push_system_activity("analysis.safety.generated", Some(id));
        let mut message = String::from_str("rapport safety genere: ");
        message.append(safety_status_label(&e.status));
        message.append(" | ");
        message.append(decimal_string(e.active_zone_count as u64).as_str());
        message.append(" zone(s) actives | ");
        message.append(decimal_string(e.blocking_interlock_count as u64).as_str());
        message.append(" blocage(s)");
        Ok(CommandResult { command_id: String::from_str("analyze.safety"), status: String::from_str("applied"), message })
    }
}

} // verus!
