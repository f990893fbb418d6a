//! The project graph: a project document and the log of commands that
//! change it. Each applied command is recorded with the event it caused,
//! under sequential command, event and revision numbers.
use vstd::prelude::*;
use crate::floatbits::{bits_is_finite, is_finite};
use crate::json::{json_get, JsonNumber, JsonValue};
use crate::keyed::KeyedMap;
use crate::text::{decimal, law_decimal_round_trip, padded_decimal, parse_usize, parse_usize_spec, starts_with, starts_with_spec, str_eq, zero_pad};
use crate::types::{
    clone_opt_text, clone_texts, same_manifest, scaffolded, Addressing, ConnectionMode, EndpointType,
    GraphEdge, OpenSpecDocument, PluginManifest, ProjectMetadata, QosProfile, SignalValue,
    StreamDirection, TimingProfile, TransportProfile,
};

verus! {

/// The free-form data of an entity: a JSON document, or an earlier data
/// with its `currentValue` field set to a signal value (the field is added
/// to a JSON object; any other JSON is replaced by an object holding only
/// that field).
#[derive(Debug)]
pub enum EntityData {
    Json(JsonValue),
    WithCurrentValue(Box<EntityData>, SignalValue),
}

impl Clone for EntityData {
    fn clone(&self) -> (r: Self)
        ensures
            r == *self,
        decreases self,
    {
        match self {
            EntityData::Json(v) => EntityData::Json(v.clone()),
            EntityData::WithCurrentValue(base, value) => {
                let b: &EntityData = base;
                EntityData::WithCurrentValue(Box::new(b.clone()), value.clone())
            },
        }
    }
}

/// The JSON of a signal value: a boolean, a number (`null` for a value
/// that is not finite, as JSON has no such number) or a string.
pub open spec fn signal_json(v: SignalValue) -> JsonValue {
    match v {
        SignalValue::Bool(b) => JsonValue::Bool(b),
        SignalValue::Scalar(bits) => if is_finite(bits) {
            JsonValue::Number(JsonNumber::Float(bits))
        } else {
            JsonValue::Null
        },
        SignalValue::Text(t) => JsonValue::Text(t),
    }
}

pub fn signal_value_json(v: &SignalValue) -> (r: JsonValue)
    ensures
        r == signal_json(*v),
{
    match v {
        SignalValue::Bool(b) => JsonValue::Bool(*b),
        SignalValue::Scalar(bits) => if bits_is_finite(*bits) {
            JsonValue::Number(JsonNumber::Float(*bits))
        } else {
            JsonValue::Null
        },
        SignalValue::Text(t) => JsonValue::Text(t.clone()),
    }
}

/// The data is a JSON object.
pub open spec fn data_is_object(d: EntityData) -> bool {
    match d {
        EntityData::Json(v) => v is Object,
        EntityData::WithCurrentValue(..) => true,
    }
}

/// The field `key` of an entity's data: setting the current value puts it
/// in the object (an object that was not one before holds only that field).
pub open spec fn data_field(d: EntityData, key: Seq<char>) -> Option<JsonValue>
    decreases d,
{
    match d {
        EntityData::Json(v) => json_get(v, key),
        EntityData::WithCurrentValue(base, value) => if key == "currentValue"@ {
            Some(signal_json(value))
        } else if data_is_object(*base) {
            data_field(*base, key)
        } else {
            None
        },
    }
}

impl EntityData {
    pub fn field(&self, key: &str) -> (r: Option<JsonValue>)
        ensures
            r == data_field(*self, key@),
        decreases self,
    {
        match self {
            EntityData::Json(v) => match v.get(key) {
                Some(x) => Some(x.clone()),
                None => None,
            },
            EntityData::WithCurrentValue(base, value) => {
                if str_eq(key, "currentValue") {
                    Some(signal_value_json(value))
                } else {
                    let b: &EntityData = base;
                    let is_object = match b {
                        EntityData::Json(v) => match v {
                            JsonValue::Object(_) => true,
                            _ => false,
                        },
                        EntityData::WithCurrentValue(..) => true,
                    };
                    if is_object {
                        b.field(key)
                    } else {
                        None
                    }
                }
            },
        }
    }
}

/// A node of the project graph.
#[derive(Debug)]
pub struct EntityRecord {
    pub id: String,
    pub entity_type: String,
    pub name: String,
    pub revision: String,
    pub status: String,
    pub data: EntityData,
}

impl Clone for EntityRecord {
    fn clone(&self) -> (r: Self)
        ensures
            r == *self,
    {
        EntityRecord {
            id: self.id.clone(),
            entity_type: self.entity_type.clone(),
            name: self.name.clone(),
            revision: self.revision.clone(),
            status: self.status.clone(),
            data: self.data.clone(),
        }
    }
}

/// Measured quality of a link; the drop rate is the bit pattern of an `f64`.
#[derive(Debug, Clone, Copy, PartialEq, Eq, Default)]
pub struct LinkMetrics {
    pub latency_ms: Option<u32>,
    pub jitter_ms: Option<u32>,
    pub drop_rate: Option<u64>,
    pub rssi_dbm: Option<i32>,
    pub bandwidth_kbps: Option<u32>,
}

/// A device or service the project exchanges data with.
#[derive(Debug)]
pub struct ExternalEndpoint {
    pub id: String,
    pub name: String,
    pub endpoint_type: EndpointType,
    pub transport_profile: TransportProfile,
    pub connection_profile: JsonValue,
    pub addressing: Addressing,
    pub signal_map_ids: Vec<String>,
    pub mode: ConnectionMode,
    pub link_metrics: LinkMetrics,
    pub status: String,
}

/// The two endpoints hold the same values.
pub open spec fn same_endpoint(a: ExternalEndpoint, b: ExternalEndpoint) -> bool {
    &&& a.id == b.id
    &&& a.name == b.name
    &&& a.endpoint_type == b.endpoint_type
    &&& a.transport_profile == b.transport_profile
    &&& a.connection_profile == b.connection_profile
    &&& a.addressing == b.addressing
    &&& a.signal_map_ids@ == b.signal_map_ids@
    &&& a.mode == b.mode
    &&& a.link_metrics == b.link_metrics
    &&& a.status == b.status
}

impl Clone for ExternalEndpoint {
    fn clone(&self) -> (r: Self)
        ensures
            same_endpoint(r, *self),
    {
        ExternalEndpoint {
            id: self.id.clone(),
            name: self.name.clone(),
            endpoint_type: self.endpoint_type,
            transport_profile: self.transport_profile.clone(),
            connection_profile: self.connection_profile.clone(),
            addressing: self.addressing.clone(),
            signal_map_ids: clone_texts(&self.signal_map_ids),
            mode: self.mode,
            link_metrics: self.link_metrics,
            status: self.status.clone(),
        }
    }
}

/// A telemetry stream carried by an endpoint.
#[derive(Debug)]
pub struct TelemetryStream {
    pub id: String,
    pub name: String,
    pub endpoint_id: String,
    pub stream_type: String,
    pub direction: StreamDirection,
    pub codec_profile: JsonValue,
    pub schema_ref: String,
    pub timing_profile: TimingProfile,
    pub qos_profile: QosProfile,
    pub status: String,
}

impl Clone for TelemetryStream {
    fn clone(&self) -> (r: Self)
        ensures
            r == *self,
    {
        TelemetryStream {
            id: self.id.clone(),
            name: self.name.clone(),
            endpoint_id: self.endpoint_id.clone(),
            stream_type: self.stream_type.clone(),
            direction: self.direction,
            codec_profile: self.codec_profile.clone(),
            schema_ref: self.schema_ref.clone(),
            timing_profile: self.timing_profile,
            qos_profile: self.qos_profile.clone(),
            status: self.status.clone(),
        }
    }
}

/// What a logged command or event carries: the JSON serialisation of the
/// value named here, or a JSON document as it was loaded.
#[derive(Debug)]
pub enum Payload {
    Json(JsonValue),
    Entity(EntityRecord),
    Endpoint(ExternalEndpoint),
    Stream(TelemetryStream),
    Plugin(PluginManifest),
    PluginState { plugin_id: String, enabled: bool },
    SignalValue { entity_id: String, value: SignalValue },
}

/// The two payloads carry the same values.
pub open spec fn same_payload(p: Payload, q: Payload) -> bool {
    match (p, q) {
        (Payload::Endpoint(a), Payload::Endpoint(b)) => same_endpoint(a, b),
        (Payload::Plugin(a), Payload::Plugin(b)) => same_manifest(a, b),
        _ => p == q,
    }
}

impl Clone for Payload {
    fn clone(&self) -> (r: Self)
        ensures
            same_payload(r, *self),
    {
        match self {
            Payload::Json(v) => Payload::Json(v.clone()),
            Payload::Entity(e) => Payload::Entity(e.clone()),
            Payload::Endpoint(e) => Payload::Endpoint(e.clone()),
            Payload::Stream(s) => Payload::Stream(s.clone()),
            Payload::Plugin(m) => Payload::Plugin(m.clone()),
            Payload::PluginState { plugin_id, enabled } => Payload::PluginState {
                plugin_id: plugin_id.clone(),
                enabled: *enabled,
            },
            Payload::SignalValue { entity_id, value } => Payload::SignalValue {
                entity_id: entity_id.clone(),
                value: value.clone(),
            },
        }
    }
}

/// A command as the log keeps it.
#[derive(Debug)]
pub struct CommandEnvelope {
    pub command_id: String,
    pub kind: String,
    pub project_id: String,
    pub target_id: Option<String>,
    pub actor_id: String,
    pub timestamp: String,
    pub base_revision: Option<String>,
    pub payload: Payload,
}

/// An event as the log keeps it.
#[derive(Debug)]
pub struct EventEnvelope {
    pub event_id: String,
    pub kind: String,
    pub project_id: String,
    pub target_id: Option<String>,
    pub caused_by_command_id: String,
    pub timestamp: String,
    pub revision: String,
    pub payload: Payload,
}

/// The two events carry the same values.
pub open spec fn same_event(a: EventEnvelope, b: EventEnvelope) -> bool {
    &&& a.event_id == b.event_id
    &&& a.kind == b.kind
    &&& a.project_id == b.project_id
    &&& a.target_id == b.target_id
    &&& a.caused_by_command_id == b.caused_by_command_id
    &&& a.timestamp == b.timestamp
    &&& a.revision == b.revision
    &&& same_payload(a.payload, b.payload)
}

impl Clone for EventEnvelope {
    fn clone(&self) -> (r: Self)
        ensures
            same_event(r, *self),
    {
        EventEnvelope {
            event_id: self.event_id.clone(),
            kind: self.kind.clone(),
            project_id: self.project_id.clone(),
            target_id: clone_opt_text(&self.target_id),
            caused_by_command_id: self.caused_by_command_id.clone(),
            timestamp: self.timestamp.clone(),
            revision: self.revision.clone(),
            payload: self.payload.clone(),
        }
    }
}

/// A project: metadata, graph nodes and edges, integration endpoints and
/// streams, plugins, design documents and the command and event logs.
#[derive(Debug)]
pub struct ProjectDocument {
    pub metadata: ProjectMetadata,
    pub nodes: KeyedMap<EntityRecord>,
    pub edges: Vec<GraphEdge>,
    pub endpoints: KeyedMap<ExternalEndpoint>,
    pub streams: KeyedMap<TelemetryStream>,
    pub plugin_manifests: KeyedMap<PluginManifest>,
    pub plugin_states: KeyedMap<bool>,
    pub open_spec_documents: KeyedMap<OpenSpecDocument>,
    pub commands: Vec<CommandEnvelope>,
    pub events: Vec<EventEnvelope>,
}

/// The content of a project document.
pub struct DocumentModel {
    pub metadata: ProjectMetadata,
    pub nodes: Map<Seq<char>, EntityRecord>,
    pub edges: Seq<GraphEdge>,
    pub endpoints: Map<Seq<char>, ExternalEndpoint>,
    pub streams: Map<Seq<char>, TelemetryStream>,
    pub plugin_manifests: Map<Seq<char>, PluginManifest>,
    pub plugin_states: Map<Seq<char>, bool>,
    pub open_spec_documents: Map<Seq<char>, OpenSpecDocument>,
    pub commands: Seq<CommandEnvelope>,
    pub events: Seq<EventEnvelope>,
}

impl View for ProjectDocument {
    type V = DocumentModel;

    open spec fn view(&self) -> DocumentModel {
        DocumentModel {
            metadata: self.metadata,
            nodes: self.nodes@,
            edges: self.edges@,
            endpoints: self.endpoints@,
            streams: self.streams@,
            plugin_manifests: self.plugin_manifests@,
            plugin_states: self.plugin_states@,
            open_spec_documents: self.open_spec_documents@,
            commands: self.commands@,
            events: self.events@,
        }
    }
}

impl ProjectDocument {
    /// An empty project named `name`, with scaffolded metadata.
    pub fn empty(name: String) -> (d: Self)
        ensures
            scaffolded(d.metadata, name@),
            d@.nodes.is_empty(),
            d@.edges.len() == 0,
            d@.endpoints.is_empty(),
            d@.streams.is_empty(),
            d@.plugin_manifests.is_empty(),
            d@.plugin_states.is_empty(),
            d@.open_spec_documents.is_empty(),
            d@.commands.len() == 0,
            d@.events.len() == 0,
    {
        ProjectDocument {
            metadata: ProjectMetadata::scaffold(name),
            nodes: KeyedMap::new(),
            edges: Vec::new(),
            endpoints: KeyedMap::new(),
            streams: KeyedMap::new(),
            plugin_manifests: KeyedMap::new(),
            plugin_states: KeyedMap::new(),
            open_spec_documents: KeyedMap::new(),
            commands: Vec::new(),
            events: Vec::new(),
        }
    }
}

/// Why a command was refused.
#[derive(Debug, Clone, PartialEq, Eq)]
pub enum CoreError {
    EntityAlreadyExists(String),
    EntityNotFound(String),
    EndpointAlreadyExists(String),
    StreamAlreadyExists(String),
    UnknownEndpoint(String),
    PluginAlreadyInstalled(String),
    PluginNotInstalled(String),
    SignalEntityNotFound(String),
    EntityIsNotSignal(String),
    EntityIsNotAssembly(String),
    AssemblyPayloadInvalid(String),
    AssemblyDefinitionNotFound(String),
    AssemblyDefinitionUnsupported(String),
    AssemblyOccurrenceAlreadyExists(String),
    AssemblyOccurrenceNotFound(String),
    AssemblyMateAlreadyExists(String),
    AssemblyMateNotFound(String),
    AssemblyJointAlreadyExists(String),
    AssemblyJointNotFound(String),
    AssemblyJointInvalidOccurrences,
    AssemblyJointAxisInvalid,
    AssemblyJointLimitsInvalid,
    AssemblyJointStateInvalid(String),
}

/// The commands that change a project graph outside its assemblies.
#[derive(Debug)]
pub enum CoreCommand {
    CreateEntity(EntityRecord),
    ReplaceEntity(EntityRecord),
    RegisterEndpoint(ExternalEndpoint),
    RegisterStream(TelemetryStream),
    InstallPlugin(PluginManifest),
    SetPluginEnabled { plugin_id: String, enabled: bool },
    SetSignalValue { entity_id: String, value: SignalValue },
}

/// A project document and the numbers the next command, event and revision take.
#[derive(Debug)]
pub struct ProjectGraph {
    document: ProjectDocument,
    revision_counter: usize,
    command_counter: usize,
    event_counter: usize,
}

/// The state of a project graph.
pub struct GraphModel {
    pub document: DocumentModel,
    pub revision_counter: nat,
    pub command_counter: nat,
    pub event_counter: nat,
}

impl View for ProjectGraph {
    type V = GraphModel;

    closed spec fn view(&self) -> GraphModel {
        GraphModel {
            document: self.document@,
            revision_counter: self.revision_counter as nat,
            command_counter: self.command_counter as nat,
            event_counter: self.event_counter as nat,
        }
    }
}

/// `prefix` followed by `n` written on at least four digits, as `{:04}` does.
pub open spec fn numbered(prefix: Seq<char>, n: nat) -> Seq<char> {
    prefix + zero_pad(decimal(n), 4)
}

pub open spec fn opt_view(o: Option<String>) -> Option<Seq<char>> {
    match o {
        Some(s) => Some(s@),
        None => None,
    }
}

/// `c` is the command the graph logs: issued by the scaffold actor at the
/// project's fixed command time.
pub open spec fn command_is(
    c: CommandEnvelope,
    id: Seq<char>,
    kind: Seq<char>,
    project_id: Seq<char>,
    target: Option<Seq<char>>,
    base: Option<Seq<char>>,
    payload: Payload,
) -> bool {
    &&& c.command_id@ == id
    &&& c.kind@ == kind
    &&& c.project_id@ == project_id
    &&& opt_view(c.target_id) == target
    &&& c.actor_id@ == "system.scaffold"@
    &&& c.timestamp@ == "2026-04-06T00:00:00Z"@
    &&& opt_view(c.base_revision) == base
    &&& same_payload(c.payload, payload)
}

/// `e` is the event the graph logs, at the project's fixed event time.
pub open spec fn event_is(
    e: EventEnvelope,
    id: Seq<char>,
    kind: Seq<char>,
    project_id: Seq<char>,
    target: Option<Seq<char>>,
    caused_by: Seq<char>,
    revision: Seq<char>,
    payload: Payload,
) -> bool {
    &&& e.event_id@ == id
    &&& e.kind@ == kind
    &&& e.project_id@ == project_id
    &&& opt_view(e.target_id) == target
    &&& e.caused_by_command_id@ == caused_by
    &&& e.timestamp@ == "2026-04-06T00:00:01Z"@
    &&& e.revision@ == revision
    &&& same_payload(e.payload, payload)
}

/// The metadata after a new revision: only its update time changes.
pub open spec fn touched(pre: ProjectMetadata, post: ProjectMetadata) -> bool {
    &&& post.updated_at@ == "2026-04-06T00:00:01Z"@
    &&& post == ProjectMetadata { updated_at: post.updated_at, ..pre }
}

/// The bookkeeping of one applied command: the command is logged under the
/// next command number, a new revision is taken, and the event `ev` it
/// caused is logged under the next event number.
pub open spec fn recorded(
    pre: GraphModel,
    post: GraphModel,
    kind: Seq<char>,
    target: Option<Seq<char>>,
    base: Option<Seq<char>>,
    command_payload: Payload,
    event_kind: Seq<char>,
    event_payload: Payload,
    ev: EventEnvelope,
) -> bool {
    let d0 = pre.document;
    let d1 = post.document;
    &&& d1.commands.len() == d0.commands.len() + 1
    &&& d1.commands.drop_last() == d0.commands
    &&& command_is(
        d1.commands.last(),
        numbered("cmd_"@, pre.command_counter),
        kind,
        d0.metadata.project_id@,
        target,
        base,
        command_payload,
    )
    &&& d1.events.len() == d0.events.len() + 1
    &&& d1.events.drop_last() == d0.events
    &&& same_event(d1.events.last(), ev)
    &&& event_is(
        ev,
        numbered("evt_"@, pre.event_counter),
        event_kind,
        d0.metadata.project_id@,
        target,
        numbered("cmd_"@, pre.command_counter),
        numbered("rev_"@, pre.revision_counter),
        event_payload,
    )
    &&& post.command_counter == pre.command_counter + 1
    &&& post.event_counter == pre.event_counter + 1
    &&& post.revision_counter == pre.revision_counter + 1
    &&& touched(d0.metadata, d1.metadata)
}

/// The document after a command, with the given collections and the
/// bookkeeping of `post`.
pub open spec fn with_logs(pre: DocumentModel, post: DocumentModel) -> DocumentModel {
    DocumentModel { metadata: post.metadata, commands: post.commands, events: post.events, ..pre }
}

fn numbered_text(prefix: &str, n: usize) -> (s: String)
    ensures
        s@ == numbered(prefix@, n as nat),
{
    let digits = padded_decimal(n as u64, 4);
    let mut s = String::from_str(prefix);
    s.append(digits.as_str());
    s
}

impl ProjectGraph {
    fn record_command(&mut self, kind: &str, target_id: Option<String>, base_revision: Option<String>, payload: Payload) -> (id: String)
        requires
            log_numbers_below(old(self)@),
            old(self).command_counter < usize::MAX,
        ensures
            log_numbers_below(final(self)@),
            id@ == numbered("cmd_"@, old(self)@.command_counter),
            !command_ids(old(self)@.document).contains(id@),
            final(self)@ == (GraphModel {
                document: DocumentModel { commands: final(self)@.document.commands, ..old(self)@.document },
                command_counter: old(self)@.command_counter + 1,
                ..old(self)@
            }),
            final(self)@.document.commands.len() == old(self)@.document.commands.len() + 1,
            final(self)@.document.commands.drop_last() == old(self)@.document.commands,
            command_is(
                final(self)@.document.commands.last(),
                numbered("cmd_"@, old(self)@.command_counter),
                kind@,
                old(self)@.document.metadata.project_id@,
                opt_view(target_id),
                opt_view(base_revision),
                payload,
            ),
    {
        proof {
            lemma_numbered_suffix("cmd_"@, self.command_counter as nat);
        }
        let ghost pre_ids = command_ids(self@.document);
        let command_id = numbered_text("cmd_", self.command_counter);
        self.command_counter = self.command_counter + 1;
        let ghost before = self.document.commands@;
        self.document.commands.push(
            CommandEnvelope {
                command_id: command_id.clone(),
                kind: String::from_str(kind),
                project_id: self.document.metadata.project_id.clone(),
                target_id,
                actor_id: String::from_str("system.scaffold"),
                timestamp: String::from_str("2026-04-06T00:00:00Z"),
                base_revision,
                payload,
            },
        );
        assert(self.document.commands@.drop_last() =~= before);
        proof {
            lemma_command_id_set_push(before, self.document.commands@.last());
            assert(self.document.commands@ == before.push(self.document.commands@.last()));
        }
        command_id
    }

    fn next_revision(&mut self) -> (rev: String)
        requires
            log_numbers_below(old(self)@),
            old(self).revision_counter < usize::MAX,
        ensures
            log_numbers_below(final(self)@),
            rev@ == numbered("rev_"@, old(self)@.revision_counter),
            final(self)@.document == (DocumentModel { metadata: final(self)@.document.metadata, ..old(self)@.document }),
            touched(old(self)@.document.metadata, final(self)@.document.metadata),
            final(self)@.revision_counter == old(self)@.revision_counter + 1,
            final(self)@.command_counter == old(self)@.command_counter,
            final(self)@.event_counter == old(self)@.event_counter,
    {
        let revision = numbered_text("rev_", self.revision_counter);
        self.revision_counter = self.revision_counter + 1;
        self.document.metadata.updated_at = String::from_str("2026-04-06T00:00:01Z");
        revision
    }

    fn record_event(
        &mut self,
        kind: &str,
        target_id: Option<String>,
        caused_by_command_id: String,
        revision: String,
        payload: Payload,
    ) -> (ev: EventEnvelope)
        requires
            log_numbers_below(old(self)@),
            old(self).event_counter < usize::MAX,
        ensures
            log_numbers_below(final(self)@),
            !event_ids(old(self)@.document).contains(ev.event_id@),
            event_is(
                ev,
                numbered("evt_"@, old(self)@.event_counter),
                kind@,
                old(self)@.document.metadata.project_id@,
                opt_view(target_id),
                caused_by_command_id@,
                revision@,
                payload,
            ),
            final(self)@ == (GraphModel {
                document: DocumentModel { events: final(self)@.document.events, ..old(self)@.document },
                event_counter: old(self)@.event_counter + 1,
                ..old(self)@
            }),
            final(self)@.document.events.len() == old(self)@.document.events.len() + 1,
            final(self)@.document.events.drop_last() == old(self)@.document.events,
            same_event(final(self)@.document.events.last(), ev),
    {
        proof {
            lemma_numbered_suffix("evt_"@, self.event_counter as nat);
        }
        let event = EventEnvelope {
            event_id: numbered_text("evt_", self.event_counter),
            kind: String::from_str(kind),
            project_id: self.document.metadata.project_id.clone(),
            target_id,
            caused_by_command_id,
            timestamp: String::from_str("2026-04-06T00:00:01Z"),
            revision,
            payload,
        };
        self.event_counter = self.event_counter + 1;
        let ghost before = self.document.events@;
        self.document.events.push(event.clone());
        proof {
            lemma_event_id_set_push(before, self.document.events@.last());
            assert(self.document.events@ == before.push(self.document.events@.last()));
        }
        assert(self.document.events@.drop_last() =~= before);
        event
    }
}


/// The refusal `r` leaves the graph as it was.
pub open spec fn refused(pre: GraphModel, post: GraphModel, r: Result<EventEnvelope, CoreError>, e: CoreError) -> bool {
    r == Err::<EventEnvelope, CoreError>(e) && post == pre
}

/// The entity the graph stores after a write: `e` under the new revision.
pub open spec fn revised(e: EntityRecord, stored: EntityRecord, pre: GraphModel) -> bool {
    stored == EntityRecord { revision: stored.revision, ..e } && stored.revision@ == numbered("rev_"@, pre.revision_counter)
}

/// What applying `command` to a graph in state `pre` gives: the state
/// `post` and the result `r`.
pub open spec fn applied(pre: GraphModel, command: CoreCommand, post: GraphModel, r: Result<EventEnvelope, CoreError>) -> bool {
    let d0 = pre.document;
    let d1 = post.document;
    match command {
        CoreCommand::CreateEntity(e) => if d0.nodes.dom().contains(e.id@) {
            r matches Err(CoreError::EntityAlreadyExists(id)) && id@ == e.id@ && post == pre
        } else {
            &&& r matches Ok(ev) && recorded(
                pre,
                post,
                "entity.create"@,
                Some(e.id@),
                None,
                Payload::Entity(e),
                "entity.created"@,
                Payload::Entity(e),
                ev,
            )
            &&& d1 == (DocumentModel { nodes: d0.nodes.insert(e.id@, e), ..with_logs(d0, d1) })
        },
        CoreCommand::ReplaceEntity(e) => if !d0.nodes.dom().contains(e.id@) {
            r matches Err(CoreError::EntityNotFound(id)) && id@ == e.id@ && post == pre
        } else {
            let stored = d1.nodes[e.id@];
            &&& revised(e, stored, pre)
            &&& r matches Ok(ev) && recorded(
                pre,
                post,
                "entity.update"@,
                Some(e.id@),
                Some(d0.nodes[e.id@].revision@),
                Payload::Entity(e),
                "entity.updated"@,
                Payload::Entity(stored),
                ev,
            )
            &&& d1 == (DocumentModel { nodes: d0.nodes.insert(e.id@, stored), ..with_logs(d0, d1) })
        },
        CoreCommand::RegisterEndpoint(ep) => if d0.endpoints.dom().contains(ep.id@) {
            r matches Err(CoreError::EndpointAlreadyExists(id)) && id@ == ep.id@ && post == pre
        } else {
            let stored = d1.endpoints[ep.id@];
            &&& same_endpoint(stored, ep)
            &&& r matches Ok(ev) && recorded(
                pre,
                post,
                "wireless.endpoint.create"@,
                Some(ep.id@),
                None,
                Payload::Endpoint(ep),
                "integration.connected"@,
                Payload::Endpoint(ep),
                ev,
            )
            &&& d1 == (DocumentModel { endpoints: d0.endpoints.insert(ep.id@, stored), ..with_logs(d0, d1) })
        },
        CoreCommand::RegisterStream(st) => if d0.streams.dom().contains(st.id@) {
            r matches Err(CoreError::StreamAlreadyExists(id)) && id@ == st.id@ && post == pre
        } else if !d0.endpoints.dom().contains(st.endpoint_id@) {
            r matches Err(CoreError::UnknownEndpoint(id)) && id@ == st.endpoint_id@ && post == pre
        } else {
            &&& r matches Ok(ev) && recorded(
                pre,
                post,
                "telemetry.stream.create"@,
                Some(st.id@),
                None,
                Payload::Stream(st),
                "entity.created"@,
                Payload::Stream(st),
                ev,
            )
            &&& d1 == (DocumentModel { streams: d0.streams.insert(st.id@, st), ..with_logs(d0, d1) })
        },
        CoreCommand::InstallPlugin(m) => if d0.plugin_manifests.dom().contains(m.plugin_id@) {
            r matches Err(CoreError::PluginAlreadyInstalled(id)) && id@ == m.plugin_id@ && post == pre
        } else {
            let stored = d1.plugin_manifests[m.plugin_id@];
            &&& same_manifest(stored, m)
            &&& r matches Ok(ev) && recorded(
                pre,
                post,
                "plugin.install"@,
                Some(m.plugin_id@),
                None,
                Payload::Plugin(m),
                "plugin.installed"@,
                Payload::Plugin(m),
                ev,
            )
            &&& d1 == (DocumentModel {
                plugin_manifests: d0.plugin_manifests.insert(m.plugin_id@, stored),
                plugin_states: d0.plugin_states.insert(m.plugin_id@, false),
                ..with_logs(d0, d1)
            })
        },
        CoreCommand::SetPluginEnabled { plugin_id, enabled } => if !d0.plugin_manifests.dom().contains(plugin_id@) {
            r matches Err(CoreError::PluginNotInstalled(id)) && id@ == plugin_id@ && post == pre
        } else {
            &&& r matches Ok(ev) && recorded(
                pre,
                post,
                "plugin.state.set"@,
                Some(plugin_id@),
                None,
                Payload::PluginState { plugin_id, enabled },
                if enabled {
                    "plugin.enabled"@
                } else {
                    "plugin.disabled"@
                },
                Payload::PluginState { plugin_id, enabled },
                ev,
            )
            &&& d1 == (DocumentModel { plugin_states: d0.plugin_states.insert(plugin_id@, enabled), ..with_logs(d0, d1) })
        },
        CoreCommand::SetSignalValue { entity_id, value } => if !d0.nodes.dom().contains(entity_id@) {
            r matches Err(CoreError::SignalEntityNotFound(id)) && id@ == entity_id@ && post == pre
        } else {
            let existing = d0.nodes[entity_id@];
            if existing.entity_type@ != "Signal"@ {
                r matches Err(CoreError::EntityIsNotSignal(id)) && id@ == existing.id@ && post == pre
            } else {
                let stored = d1.nodes[existing.id@];
                &&& revised(
                    EntityRecord { data: EntityData::WithCurrentValue(Box::new(existing.data), value), ..existing },
                    stored,
                    pre,
                )
                &&& r matches Ok(ev) && recorded(
                    pre,
                    post,
                    "signal.value.set"@,
                    Some(existing.id@),
                    Some(existing.revision@),
                    Payload::SignalValue { entity_id, value },
                    "signal.value.updated"@,
                    Payload::Entity(stored),
                    ev,
                )
                &&& d1 == (DocumentModel { nodes: d0.nodes.insert(existing.id@, stored), ..with_logs(d0, d1) })
            }
        },
    }
}

/// The numbers of the next command, event and revision are below the
/// largest `usize`, so that taking them does not overflow.
pub open spec fn counters_fit(g: GraphModel) -> bool {
    g.command_counter < usize::MAX && g.event_counter < usize::MAX && g.revision_counter < usize::MAX
}

impl ProjectGraph {
    fn create_entity(&mut self, entity: EntityRecord) -> (r: Result<EventEnvelope, CoreError>)
        requires
            log_numbers_below(old(self)@),
            counters_fit(old(self)@),
        ensures
            log_numbers_below(final(self)@),
            applied(old(self)@, CoreCommand::CreateEntity(entity), final(self)@, r),
    {
        if self.document.nodes.contains_key(entity.id.as_str()) {
            return Err(CoreError::EntityAlreadyExists(entity.id));
        }
        let ghost pre = self@;
        let id = entity.id.clone();
        let command_id = self.record_command("entity.create", Some(id.clone()), None, Payload::Entity(entity.clone()));
        self.document.nodes.insert(id.clone(), entity.clone());
        let revision = self.next_revision();
        let ev = self.record_event("entity.created", Some(id), command_id, revision, Payload::Entity(entity));
        assert(self@.document =~= (DocumentModel {
            nodes: pre.document.nodes.insert(entity.id@, entity),
            ..with_logs(pre.document, self@.document)
        }));
        Ok(ev)
    }

    fn replace_entity(&mut self, entity: EntityRecord) -> (r: Result<EventEnvelope, CoreError>)
        requires
            log_numbers_below(old(self)@),
            counters_fit(old(self)@),
        ensures
            log_numbers_below(final(self)@),
            applied(old(self)@, CoreCommand::ReplaceEntity(entity), final(self)@, r),
    {
        let base_revision = match self.document.nodes.get(entity.id.as_str()) {
            None => {
                return Err(CoreError::EntityNotFound(entity.id));
            },
            Some(existing) => existing.revision.clone(),
        };
        let ghost pre = self@;
        let id = entity.id.clone();
        let command_id = self.record_command("entity.update", Some(id.clone()), Some(base_revision), Payload::Entity(entity.clone()));
        let revision = self.next_revision();
        let next_entity = EntityRecord { revision: revision.clone(), ..entity };
        self.document.nodes.insert(id.clone(), next_entity.clone());
        let ev = self.record_event("entity.updated", Some(id), command_id, revision, Payload::Entity(next_entity));
        assert(self@.document.nodes[entity.id@] == next_entity);
        assert(self@.document =~= (DocumentModel {
            nodes: pre.document.nodes.insert(entity.id@, next_entity),
            ..with_logs(pre.document, self@.document)
        }));
        Ok(ev)
    }

    fn register_endpoint(&mut self, endpoint: ExternalEndpoint) -> (r: Result<EventEnvelope, CoreError>)
        requires
            log_numbers_below(old(self)@),
            counters_fit(old(self)@),
        ensures
            log_numbers_below(final(self)@),
            applied(old(self)@, CoreCommand::RegisterEndpoint(endpoint), final(self)@, r),
    {
        if self.document.endpoints.contains_key(endpoint.id.as_str()) {
            return Err(CoreError::EndpointAlreadyExists(endpoint.id));
        }
        let ghost pre = self@;
        let id = endpoint.id.clone();
        let command_id = self.record_command(
            "wireless.endpoint.create",
            Some(id.clone()),
            None,
            Payload::Endpoint(endpoint.clone()),
        );
        let stored = endpoint.clone();
        self.document.endpoints.insert(id.clone(), stored);
        let revision = self.next_revision();
        let ev = self.record_event("integration.connected", Some(id), command_id, revision, Payload::Endpoint(endpoint));
        assert(self@.document =~= (DocumentModel {
            endpoints: pre.document.endpoints.insert(endpoint.id@, self@.document.endpoints[endpoint.id@]),
            ..with_logs(pre.document, self@.document)
        }));
        Ok(ev)
    }

    fn register_stream(&mut self, stream: TelemetryStream) -> (r: Result<EventEnvelope, CoreError>)
        requires
            log_numbers_below(old(self)@),
            counters_fit(old(self)@),
        ensures
            log_numbers_below(final(self)@),
            applied(old(self)@, CoreCommand::RegisterStream(stream), final(self)@, r),
    {
        if self.document.streams.contains_key(stream.id.as_str()) {
            return Err(CoreError::StreamAlreadyExists(stream.id));
        }
        if !self.document.endpoints.contains_key(stream.endpoint_id.as_str()) {
            return Err(CoreError::UnknownEndpoint(stream.endpoint_id));
        }
        let ghost pre = self@;
        let id = stream.id.clone();
        let command_id = self.record_command("telemetry.stream.create", Some(id.clone()), None, Payload::Stream(stream.clone()));
        self.document.streams.insert(id.clone(), stream.clone());
        let revision = self.next_revision();
        let ev = self.record_event("entity.created", Some(id), command_id, revision, Payload::Stream(stream));
        assert(self@.document =~= (DocumentModel {
            streams: pre.document.streams.insert(stream.id@, stream),
            ..with_logs(pre.document, self@.document)
        }));
        Ok(ev)
    }

    fn install_plugin(&mut self, manifest: PluginManifest) -> (r: Result<EventEnvelope, CoreError>)
        requires
            log_numbers_below(old(self)@),
            counters_fit(old(self)@),
        ensures
            log_numbers_below(final(self)@),
            applied(old(self)@, CoreCommand::InstallPlugin(manifest), final(self)@, r),
    {
        if self.document.plugin_manifests.contains_key(manifest.plugin_id.as_str()) {
            return Err(CoreError::PluginAlreadyInstalled(manifest.plugin_id));
        }
        let ghost pre = self@;
        let id = manifest.plugin_id.clone();
        let command_id = self.record_command("plugin.install", Some(id.clone()), None, Payload::Plugin(manifest.clone()));
        self.document.plugin_manifests.insert(id.clone(), manifest.clone());
        self.document.plugin_states.insert(id.clone(), false);
        let revision = self.next_revision();
        let ev = self.record_event("plugin.installed", Some(id), command_id, revision, Payload::Plugin(manifest));
        assert(self@.document =~= (DocumentModel {
            plugin_manifests: pre.document.plugin_manifests.insert(
                manifest.plugin_id@,
                self@.document.plugin_manifests[manifest.plugin_id@],
            ),
            plugin_states: pre.document.plugin_states.insert(manifest.plugin_id@, false),
            ..with_logs(pre.document, self@.document)
        }));
        Ok(ev)
    }

    fn set_plugin_enabled(&mut self, plugin_id: String, enabled: bool) -> (r: Result<EventEnvelope, CoreError>)
        requires
            log_numbers_below(old(self)@),
            counters_fit(old(self)@),
        ensures
            log_numbers_below(final(self)@),
            applied(old(self)@, CoreCommand::SetPluginEnabled { plugin_id, enabled }, final(self)@, r),
    {
        if !self.document.plugin_manifests.contains_key(plugin_id.as_str()) {
            return Err(CoreError::PluginNotInstalled(plugin_id));
        }
        let ghost pre = self@;
        let command_id = self.record_command(
            "plugin.state.set",
            Some(plugin_id.clone()),
            None,
            Payload::PluginState { plugin_id: plugin_id.clone(), enabled },
        );
        self.document.plugin_states.insert(plugin_id.clone(), enabled);
        let revision = self.next_revision();
        let kind = if enabled {
            "plugin.enabled"
        } else {
            "plugin.disabled"
        };
        let ev = self.record_event(
            kind,
            Some(plugin_id.clone()),
            command_id,
            revision,
            Payload::PluginState { plugin_id: plugin_id.clone(), enabled },
        );
        assert(self@.document =~= (DocumentModel {
            plugin_states: pre.document.plugin_states.insert(plugin_id@, enabled),
            ..with_logs(pre.document, self@.document)
        }));
        Ok(ev)
    }

    fn set_signal_value(&mut self, entity_id: String, value: SignalValue) -> (r: Result<EventEnvelope, CoreError>)
        requires
            log_numbers_below(old(self)@),
            counters_fit(old(self)@),
        ensures
            log_numbers_below(final(self)@),
            applied(old(self)@, CoreCommand::SetSignalValue { entity_id, value }, final(self)@, r),
    {
        let existing = match self.document.nodes.get(entity_id.as_str()) {
            None => {
                return Err(CoreError::SignalEntityNotFound(entity_id));
            },
            Some(existing) => existing.clone(),
        };
        if !str_eq(existing.entity_type.as_str(), "Signal") {
            return Err(CoreError::EntityIsNotSignal(existing.id));
        }
        let ghost pre = self@;
        let command_id = self.record_command(
            "signal.value.set",
            Some(existing.id.clone()),
            Some(existing.revision.clone()),
            Payload::SignalValue { entity_id: entity_id.clone(), value: value.clone() },
        );
        let revision = self.next_revision();
        let id = existing.id.clone();
        let next_entity = EntityRecord {
            revision: revision.clone(),
            data: EntityData::WithCurrentValue(Box::new(existing.data), value),
            ..existing
        };
        self.document.nodes.insert(id.clone(), next_entity.clone());
        let ev = self.record_event("signal.value.updated", Some(id.clone()), command_id, revision, Payload::Entity(next_entity));
        assert(self@.document.nodes[id@] == next_entity);
        assert(self@.document =~= (DocumentModel {
            nodes: pre.document.nodes.insert(id@, next_entity),
            ..with_logs(pre.document, self@.document)
        }));
        Ok(ev)
    }

    /// Applies `command`: checks it against the document, changes the
    /// document, logs the command and the event it caused.
    pub fn apply_command(&mut self, command: CoreCommand) -> (r: Result<EventEnvelope, CoreError>)
        requires
            log_numbers_below(old(self)@),
            counters_fit(old(self)@),
        ensures
            log_numbers_below(final(self)@),
            applied(old(self)@, command, final(self)@, r),
            r matches Ok(ev) ==> !command_ids(old(self)@.document).contains(final(self)@.document.commands.last().command_id@)
                && !event_ids(old(self)@.document).contains(ev.event_id@),
    {
        proof {
            lemma_numbered_suffix("cmd_"@, self@.command_counter);
            lemma_numbered_suffix("evt_"@, self@.event_counter);
        }
        match command {
            CoreCommand::CreateEntity(entity) => self.create_entity(entity),
            CoreCommand::ReplaceEntity(entity) => self.replace_entity(entity),
            CoreCommand::RegisterEndpoint(endpoint) => self.register_endpoint(endpoint),
            CoreCommand::RegisterStream(stream) => self.register_stream(stream),
            CoreCommand::InstallPlugin(manifest) => self.install_plugin(manifest),
            CoreCommand::SetPluginEnabled { plugin_id, enabled } => self.set_plugin_enabled(plugin_id, enabled),
            CoreCommand::SetSignalValue { entity_id, value } => self.set_signal_value(entity_id, value),
        }
    }
}


/// The number that `id` carries after `prefix`, when it is one.
pub open spec fn suffix_value(id: Seq<char>, prefix: Seq<char>) -> Option<nat> {
    if starts_with_spec(id, prefix) {
        match parse_usize_spec(id.skip(prefix.len() as int)) {
            Some(v) => Some(v as nat),
            None => None,
        }
    } else {
        None
    }
}

/// `n` follows the largest number carried by the ids of `ids` after
/// `prefix`, or is 1 when none carries one.
pub open spec fn next_number(ids: Set<Seq<char>>, prefix: Seq<char>, n: nat) -> bool {
    &&& n >= 1
    &&& forall|id: Seq<char>| #[trigger] ids.contains(id) && suffix_value(id, prefix) is Some ==> suffix_value(id, prefix)->0 < n
    &&& (n == 1 || exists|id: Seq<char>| #[trigger] ids.contains(id) && suffix_value(id, prefix) == Some((n - 1) as nat))
}

/// No id of `ids` carries the largest `usize` after `prefix`.
pub open spec fn numbers_fit(ids: Set<Seq<char>>, prefix: Seq<char>) -> bool {
    forall|id: Seq<char>| #[trigger] ids.contains(id) ==> suffix_value(id, prefix) != Some(usize::MAX as nat)
}

/// The revisions a document holds: those of its nodes and of its events.
pub open spec fn revision_ids(d: DocumentModel) -> Set<Seq<char>> {
    Set::new(
        |r: Seq<char>|
            (exists|k: Seq<char>| #[trigger] d.nodes.dom().contains(k) && d.nodes[k].revision@ == r) || (exists|i: int|
                0 <= i < d.events.len() && #[trigger] d.events[i].revision@ == r),
    )
}

/// The ids of the logged commands.
pub open spec fn command_ids(d: DocumentModel) -> Set<Seq<char>> {
    command_id_set(d.commands)
}

/// The ids of the logged events.
pub open spec fn event_ids(d: DocumentModel) -> Set<Seq<char>> {
    event_id_set(d.events)
}

/// The next number after `best` once `id` is seen.
pub open spec fn bumped(best: nat, id: Seq<char>, prefix: Seq<char>) -> nat {
    match suffix_value(id, prefix) {
        Some(v) => if v + 1 > best {
            v + 1
        } else {
            best
        },
        None => best,
    }
}

fn note_number(best: usize, id: &str, prefix: &str) -> (r: usize)
    requires
        best >= 1,
        suffix_value(id@, prefix@) != Some(usize::MAX as nat),
    ensures
        r == bumped(best as nat, id@, prefix@),
{
    if !starts_with(id, prefix) {
        return best;
    }
    let n = id.unicode_len();
    let k = prefix.unicode_len();
    let rest = id.substring_char(k, n);
    assert(rest@ =~= id@.skip(prefix@.len() as int));
    match parse_usize(rest) {
        Some(v) => if v + 1 > best {
            v + 1
        } else {
            best
        },
        None => best,
    }
}

proof fn lemma_next_number_step(ids: Set<Seq<char>>, prefix: Seq<char>, n: nat, id: Seq<char>, m: nat)
    requires
        next_number(ids, prefix, n),
        m == bumped(n, id, prefix),
    ensures
        next_number(ids.insert(id), prefix, m),
{
    let s = ids.insert(id);
    assert forall|x: Seq<char>| #[trigger] s.contains(x) && suffix_value(x, prefix) is Some implies suffix_value(x, prefix)->0 < m by {
        if x != id {
            assert(ids.contains(x));
        }
    }
    if m != 1 {
        if m == n {
            let w = choose|w: Seq<char>| #[trigger] ids.contains(w) && suffix_value(w, prefix) == Some((n - 1) as nat);
            assert(s.contains(w));
        } else {
            assert(s.contains(id));
        }
    }
}

impl ProjectGraph {
    /// An empty project named `name`; numbering starts at 1.
    pub fn new(name: String) -> (g: Self)
        ensures
            scaffolded(g@.document.metadata, name@),
            g@.document.nodes.is_empty(),
            g@.document.edges.len() == 0,
            g@.document.endpoints.is_empty(),
            g@.document.streams.is_empty(),
            g@.document.plugin_manifests.is_empty(),
            g@.document.plugin_states.is_empty(),
            g@.document.open_spec_documents.is_empty(),
            g@.document.commands.len() == 0,
            g@.document.events.len() == 0,
            g@.revision_counter == 1,
            g@.command_counter == 1,
            g@.event_counter == 1,
            log_numbers_below(g@),
    {
        ProjectGraph { document: ProjectDocument::empty(name), revision_counter: 1, command_counter: 1, event_counter: 1 }
    }

    /// The graph of a loaded document: numbering resumes after the largest
    /// revision, command and event numbers the document holds.
    #[verifier::loop_isolation(false)]
    pub fn from_document(document: ProjectDocument) -> (g: Self)
        requires
            numbers_fit(revision_ids(document@), "rev_"@),
            numbers_fit(command_ids(document@), "cmd_"@),
            numbers_fit(event_ids(document@), "evt_"@),
        ensures
            g@.document == document@,
            next_number(revision_ids(document@), "rev_"@, g@.revision_counter),
            next_number(command_ids(document@), "cmd_"@, g@.command_counter),
            next_number(event_ids(document@), "evt_"@, g@.event_counter),
            log_numbers_below(g@),
    {
        let ghost d = document@;
        let entries = document.nodes.entries();
        assert(d.nodes == document.nodes@);
        assert forall|j: int| 0 <= j < entries@.len() implies #[trigger] d.nodes.dom().contains(entries@[j].0@)
            && d.nodes[entries@[j].0@] == entries@[j].1 by {
            assert(document.nodes@.dom().contains(entries@[j].0@));
        }
        let mut revision: usize = 1;
        let ghost mut seen: Set<Seq<char>> = Set::empty();
        let mut i: usize = 0;
        while i < entries.len()
            invariant
                i <= entries@.len(),
                seen == Set::new(|r: Seq<char>| exists|j: int| 0 <= j < i && #[trigger] entries@[j].1.revision@ == r),
                next_number(seen, "rev_"@, revision as nat),
            decreases entries@.len() - i,
        {
            let ghost id = entries@[i as int].1.revision@;
            assert(revision_ids(d).contains(id)) by {
                assert(d.nodes.dom().contains(entries@[i as int].0@));
            }
            proof {
                lemma_next_number_step(seen, "rev_"@, revision as nat, id, bumped(revision as nat, id, "rev_"@));
            }
            revision = note_number(revision, entries[i].1.revision.as_str(), "rev_");
            proof {
                seen = seen.insert(id);
                assert(seen =~= Set::new(|r: Seq<char>| exists|j: int| 0 <= j < i + 1 && #[trigger] entries@[j].1.revision@ == r));
            }
            i = i + 1;
        }
        let mut e: usize = 0;
        while e < document.events.len()
            invariant
                e <= d.events.len(),
                seen == Set::new(|r: Seq<char>| (exists|j: int| 0 <= j < entries@.len() && #[trigger] entries@[j].1.revision@ == r) || (exists|j: int| 0 <= j < e && #[trigger] d.events[j].revision@ == r)),
                next_number(seen, "rev_"@, revision as nat),
            decreases d.events.len() - e,
        {
            let ghost id = d.events[e as int].revision@;
            assert(revision_ids(d).contains(id));
            proof {
                lemma_next_number_step(seen, "rev_"@, revision as nat, id, bumped(revision as nat, id, "rev_"@));
            }
            revision = note_number(revision, document.events[e].revision.as_str(), "rev_");
            proof {
                seen = seen.insert(id);
                assert(seen =~= Set::new(|r: Seq<char>| (exists|j: int| 0 <= j < entries@.len() && #[trigger] entries@[j].1.revision@ == r) || (exists|j: int| 0 <= j < e + 1 && #[trigger] d.events[j].revision@ == r)));
            }
            e = e + 1;
        }
        assert(seen =~= revision_ids(d)) by {
            assert forall|r: Seq<char>| seen.contains(r) implies revision_ids(d).contains(r) by {
                if exists|j: int| 0 <= j < entries@.len() && #[trigger] entries@[j].1.revision@ == r {
                    let j = choose|j: int| 0 <= j < entries@.len() && #[trigger] entries@[j].1.revision@ == r;
                    assert(d.nodes.dom().contains(entries@[j].0@));
                }
            }
            assert forall|r: Seq<char>| revision_ids(d).contains(r) implies seen.contains(r) by {
                if exists|k: Seq<char>| #[trigger] d.nodes.dom().contains(k) && d.nodes[k].revision@ == r {
                    let k = choose|k: Seq<char>| #[trigger] d.nodes.dom().contains(k) && d.nodes[k].revision@ == r;
                    let j = choose|j: int| 0 <= j < entries@.len() && entries@[j].0@ == k;
                    assert(entries@[j].1.revision@ == r);
                }
            }
        }
        let command_counter = next_log_number_commands(&document.commands);
        let event_counter = next_log_number_events(&document.events);
        ProjectGraph { document, revision_counter: revision, command_counter, event_counter }
    }
}

fn next_log_number_commands(commands: &Vec<CommandEnvelope>) -> (n: usize)
    requires
        numbers_fit(Set::new(|r: Seq<char>| exists|i: int| 0 <= i < commands@.len() && #[trigger] commands@[i].command_id@ == r), "cmd_"@),
    ensures
        next_number(Set::new(|r: Seq<char>| exists|i: int| 0 <= i < commands@.len() && #[trigger] commands@[i].command_id@ == r), "cmd_"@, n as nat),
{
    let ghost all = Set::new(|r: Seq<char>| exists|i: int| 0 <= i < commands@.len() && #[trigger] commands@[i].command_id@ == r);
    let mut best: usize = 1;
    let ghost mut seen: Set<Seq<char>> = Set::empty();
    let mut i: usize = 0;
    while i < commands.len()
        invariant
            numbers_fit(all, "cmd_"@),
            all == Set::new(|r: Seq<char>| exists|i: int| 0 <= i < commands@.len() && #[trigger] commands@[i].command_id@ == r),
            i <= commands@.len(),
            seen == Set::new(|r: Seq<char>| exists|j: int| 0 <= j < i && #[trigger] commands@[j].command_id@ == r),
            next_number(seen, "cmd_"@, best as nat),
        decreases commands@.len() - i,
    {
        let ghost id = commands@[i as int].command_id@;
        assert(all.contains(id));
        proof {
            lemma_next_number_step(seen, "cmd_"@, best as nat, id, bumped(best as nat, id, "cmd_"@));
        }
        best = note_number(best, commands[i].command_id.as_str(), "cmd_");
        proof {
            seen = seen.insert(id);
            assert(seen =~= Set::new(|r: Seq<char>| exists|j: int| 0 <= j < i + 1 && #[trigger] commands@[j].command_id@ == r));
        }
        i = i + 1;
    }
    assert(seen =~= all);
    best
}

fn next_log_number_events(events: &Vec<EventEnvelope>) -> (n: usize)
    requires
        numbers_fit(Set::new(|r: Seq<char>| exists|i: int| 0 <= i < events@.len() && #[trigger] events@[i].event_id@ == r), "evt_"@),
    ensures
        next_number(Set::new(|r: Seq<char>| exists|i: int| 0 <= i < events@.len() && #[trigger] events@[i].event_id@ == r), "evt_"@, n as nat),
{
    let ghost all = Set::new(|r: Seq<char>| exists|i: int| 0 <= i < events@.len() && #[trigger] events@[i].event_id@ == r);
    let mut best: usize = 1;
    let ghost mut seen: Set<Seq<char>> = Set::empty();
    let mut i: usize = 0;
    while i < events.len()
        invariant
            numbers_fit(all, "evt_"@),
            all == Set::new(|r: Seq<char>| exists|i: int| 0 <= i < events@.len() && #[trigger] events@[i].event_id@ == r),
            i <= events@.len(),
            seen == Set::new(|r: Seq<char>| exists|j: int| 0 <= j < i && #[trigger] events@[j].event_id@ == r),
            next_number(seen, "evt_"@, best as nat),
        decreases events@.len() - i,
    {
        let ghost id = events@[i as int].event_id@;
        assert(all.contains(id));
        proof {
            lemma_next_number_step(seen, "evt_"@, best as nat, id, bumped(best as nat, id, "evt_"@));
        }
        best = note_number(best, events[i].event_id.as_str(), "evt_");
        proof {
            seen = seen.insert(id);
            assert(seen =~= Set::new(|r: Seq<char>| exists|j: int| 0 <= j < i + 1 && #[trigger] events@[j].event_id@ == r));
        }
        i = i + 1;
    }
    assert(seen =~= all);
    best
}


impl ProjectGraph {
    pub fn document(&self) -> (d: &ProjectDocument)
        ensures
            d@ == self@.document,
    {
        &self.document
    }

    pub fn into_document(self) -> (d: ProjectDocument)
        ensures
            d@ == self@.document,
    {
        self.document
    }

    pub fn project_name(&self) -> (name: &str)
        ensures
            name@ == self@.document.metadata.name@,
    {
        self.document.metadata.name.as_str()
    }

    pub fn entity_count(&self) -> (n: usize)
        ensures
            n == self@.document.nodes.len(),
    {
        self.document.nodes.len()
    }

    pub fn endpoint_count(&self) -> (n: usize)
        ensures
            n == self@.document.endpoints.len(),
    {
        self.document.endpoints.len()
    }

    pub fn stream_count(&self) -> (n: usize)
        ensures
            n == self@.document.streams.len(),
    {
        self.document.streams.len()
    }

    pub fn plugin_count(&self) -> (n: usize)
        ensures
            n == self@.document.plugin_manifests.len(),
    {
        self.document.plugin_manifests.len()
    }

    pub fn plugin_state(&self) -> (states: &KeyedMap<bool>)
        ensures
            states@ == self@.document.plugin_states,
    {
        &self.document.plugin_states
    }
}


impl ProjectGraph {
    /// The assembly entity `assembly_id` names, as an assembly edit reads it.
    pub fn assembly_target(&self, assembly_id: &str) -> (r: Result<EntityRecord, CoreError>)
        ensures
            !self@.document.nodes.dom().contains(assembly_id@) ==> (r matches Err(CoreError::EntityNotFound(id)) && id@
                == assembly_id@),
            self@.document.nodes.dom().contains(assembly_id@) ==> {
                let existing = self@.document.nodes[assembly_id@];
                if existing.entity_type@ != "Assembly"@ {
                    r matches Err(CoreError::EntityIsNotAssembly(id)) && id@ == existing.id@
                } else {
                    r == Ok::<EntityRecord, CoreError>(existing)
                }
            },
    {
        match self.document.nodes.get(assembly_id) {
            None => Err(CoreError::EntityNotFound(String::from_str(assembly_id))),
            Some(existing) => if str_eq(existing.entity_type.as_str(), "Assembly") {
                Ok(existing.clone())
            } else {
                Err(CoreError::EntityIsNotAssembly(existing.id.clone()))
            },
        }
    }

    /// An occurrence must place an existing part or assembly.
    pub fn check_occurrence_definition(&self, definition_entity_id: &str) -> (r: Result<(), CoreError>)
        ensures
            !self@.document.nodes.dom().contains(definition_entity_id@) ==> (r matches Err(
                CoreError::AssemblyDefinitionNotFound(id),
            ) && id@ == definition_entity_id@),
            self@.document.nodes.dom().contains(definition_entity_id@) ==> {
                let t = self@.document.nodes[definition_entity_id@].entity_type@;
                if t == "Part"@ || t == "Assembly"@ {
                    r is Ok
                } else {
                    r matches Err(CoreError::AssemblyDefinitionUnsupported(id)) && id@ == definition_entity_id@
                }
            },
    {
        match self.document.nodes.get(definition_entity_id) {
            None => Err(CoreError::AssemblyDefinitionNotFound(String::from_str(definition_entity_id))),
            Some(definition) => if str_eq(definition.entity_type.as_str(), "Part") || str_eq(
                definition.entity_type.as_str(),
                "Assembly",
            ) {
                Ok(())
            } else {
                Err(CoreError::AssemblyDefinitionUnsupported(String::from_str(definition_entity_id)))
            },
        }
    }

    /// Stores the edited assembly data of `existing` under a new revision and
    /// logs the edit command and the event it caused, whose payload is the new data.
    pub fn commit_assembly_edit(
        &mut self,
        existing: &EntityRecord,
        command_kind: &str,
        event_kind: &str,
        command_payload: Payload,
        data: JsonValue,
    ) -> (ev: EventEnvelope)
        requires
            log_numbers_below(old(self)@),
            counters_fit(old(self)@),
        ensures
            log_numbers_below(final(self)@),
            ({
                let pre = old(self)@;
                let post = final(self)@;
                let stored = post.document.nodes[existing.id@];
                &&& revised(EntityRecord { data: EntityData::Json(data), ..*existing }, stored, pre)
                &&& recorded(
                    pre,
                    post,
                    command_kind@,
                    Some(existing.id@),
                    Some(existing.revision@),
                    command_payload,
                    event_kind@,
                    Payload::Json(data),
                    ev,
                )
                &&& post.document == (DocumentModel {
                    nodes: pre.document.nodes.insert(existing.id@, stored),
                    ..with_logs(pre.document, post.document)
                })
            }),
    {
        let ghost pre = self@;
        let command_id = self.record_command(
            command_kind,
            Some(existing.id.clone()),
            Some(existing.revision.clone()),
            command_payload,
        );
        let revision = self.next_revision();
        let next_entity = EntityRecord {
            id: existing.id.clone(),
            entity_type: existing.entity_type.clone(),
            name: existing.name.clone(),
            revision: revision.clone(),
            status: existing.status.clone(),
            data: EntityData::Json(data.clone()),
        };
        self.document.nodes.insert(existing.id.clone(), next_entity.clone());
        let ev = self.record_event(event_kind, Some(existing.id.clone()), command_id, revision, Payload::Json(data));
        assert(self@.document.nodes[existing.id@] == next_entity);
        assert(self@.document =~= (DocumentModel {
            nodes: pre.document.nodes.insert(existing.id@, next_entity),
            ..with_logs(pre.document, self@.document)
        }));
        ev
    }
}


/// Every id of `ids` that carries a number after `prefix` carries one below `n`.
pub open spec fn numbers_below(ids: Set<Seq<char>>, prefix: Seq<char>, n: nat) -> bool {
    forall|id: Seq<char>| #[trigger] ids.contains(id) && suffix_value(id, prefix) is Some ==> suffix_value(id, prefix)->0 < n
}

/// The command and event ids of the log are all numbered below the next ones.
pub open spec fn log_numbers_below(g: GraphModel) -> bool {
    &&& numbers_below(command_ids(g.document), "cmd_"@, g.command_counter)
    &&& numbers_below(event_ids(g.document), "evt_"@, g.event_counter)
}

/// A numbered id carries its number.
pub proof fn lemma_numbered_suffix(prefix: Seq<char>, n: nat)
    requires
        n <= usize::MAX,
    ensures
        suffix_value(numbered(prefix, n), prefix) == Some(n),
{
    let id = numbered(prefix, n);
    let rest = zero_pad(decimal(n), 4);
    assert(id.subrange(0, prefix.len() as int) =~= prefix);
    assert(id.skip(prefix.len() as int) =~= rest);
    law_decimal_round_trip(n as u64, 4);
}

/// The numbers a reloaded graph gives out are fresh: the next command,
/// event or revision id is none of the ids the loaded document holds.
pub proof fn law_reloaded_numbers_fresh(ids: Set<Seq<char>>, prefix: Seq<char>, n: nat)
    requires
        next_number(ids, prefix, n),
        n <= usize::MAX,
    ensures
        !ids.contains(numbered(prefix, n)),
{
    lemma_numbered_suffix(prefix, n);
}

pub open spec fn command_id_set(cs: Seq<CommandEnvelope>) -> Set<Seq<char>> {
    Set::new(|r: Seq<char>| exists|i: int| 0 <= i < cs.len() && #[trigger] cs[i].command_id@ == r)
}

pub open spec fn event_id_set(es: Seq<EventEnvelope>) -> Set<Seq<char>> {
    Set::new(|r: Seq<char>| exists|i: int| 0 <= i < es.len() && #[trigger] es[i].event_id@ == r)
}

proof fn lemma_command_id_set_push(cs: Seq<CommandEnvelope>, c: CommandEnvelope)
    ensures
        command_id_set(cs.push(c)) == command_id_set(cs).insert(c.command_id@),
{
    let p = cs.push(c);
    let a = command_id_set(p);
    let b = command_id_set(cs).insert(c.command_id@);
    assert forall|r: Seq<char>| a.contains(r) implies b.contains(r) by {
        let i = choose|i: int| 0 <= i < p.len() && #[trigger] p[i].command_id@ == r;
        if i < cs.len() {
            assert(cs[i] == p[i]);
        }
    }
    assert forall|r: Seq<char>| b.contains(r) implies a.contains(r) by {
        if r == c.command_id@ {
            assert(p[cs.len() as int] == c);
        } else {
            let i = choose|i: int| 0 <= i < cs.len() && #[trigger] cs[i].command_id@ == r;
            assert(p[i] == cs[i]);
        }
    }
    assert(a =~= b);
}

proof fn lemma_event_id_set_push(es: Seq<EventEnvelope>, e: EventEnvelope)
    ensures
        event_id_set(es.push(e)) == event_id_set(es).insert(e.event_id@),
{
    let p = es.push(e);
    let a = event_id_set(p);
    let b = event_id_set(es).insert(e.event_id@);
    assert forall|r: Seq<char>| a.contains(r) implies b.contains(r) by {
        let i = choose|i: int| 0 <= i < p.len() && #[trigger] p[i].event_id@ == r;
        if i < es.len() {
            assert(es[i] == p[i]);
        }
    }
    assert forall|r: Seq<char>| b.contains(r) implies a.contains(r) by {
        if r == e.event_id@ {
            assert(p[es.len() as int] == e);
        } else {
            let i = choose|i: int| 0 <= i < es.len() && #[trigger] es[i].event_id@ == r;
            assert(p[i] == es[i]);
        }
    }
    assert(a =~= b);
}


/// A refused command leaves the graph exactly as it was: no document
/// change, no logged command or event, no number taken.
pub proof fn law_refused_command_changes_nothing(
    pre: GraphModel,
    command: CoreCommand,
    post: GraphModel,
    r: Result<EventEnvelope, CoreError>,
)
    requires
        applied(pre, command, post, r),
        r is Err,
    ensures
        post == pre,
{
}

/// An accepted command logs exactly one command and the one event it caused,
/// the event naming that command, and takes the next command, event and
/// revision numbers.
pub proof fn law_accepted_command_is_logged_once(
    pre: GraphModel,
    command: CoreCommand,
    post: GraphModel,
    ev: EventEnvelope,
)
    requires
        applied(pre, command, post, Ok(ev)),
    ensures
        post.document.commands.len() == pre.document.commands.len() + 1,
        post.document.commands.drop_last() == pre.document.commands,
        post.document.events.len() == pre.document.events.len() + 1,
        post.document.events.drop_last() == pre.document.events,
        same_event(post.document.events.last(), ev),
        ev.caused_by_command_id@ == post.document.commands.last().command_id@,
        ev.caused_by_command_id@ == numbered("cmd_"@, pre.command_counter),
        ev.event_id@ == numbered("evt_"@, pre.event_counter),
        ev.revision@ == numbered("rev_"@, pre.revision_counter),
        post.command_counter == pre.command_counter + 1,
        post.event_counter == pre.event_counter + 1,
        post.revision_counter == pre.revision_counter + 1,
{
}

/// Reading back a write: after an accepted `CreateEntity`, the document
/// holds the entity under its id; after an accepted `SetPluginEnabled`, the
/// plugin's state is the one written.
pub proof fn law_read_after_write(pre: GraphModel, command: CoreCommand, post: GraphModel, ev: EventEnvelope)
    requires
        applied(pre, command, post, Ok(ev)),
    ensures
        command matches CoreCommand::CreateEntity(e) ==> post.document.nodes.dom().contains(e.id@) && post.document.nodes[e.id@]
            == e,
        command matches CoreCommand::SetPluginEnabled { plugin_id, enabled } ==> post.document.plugin_states.dom().contains(
            plugin_id@,
        ) && post.document.plugin_states[plugin_id@] == enabled,
        command matches CoreCommand::ReplaceEntity(e) ==> post.document.nodes[e.id@] == (EntityRecord {
            revision: post.document.nodes[e.id@].revision,
            ..e
        }),
{
}

} // verus!
