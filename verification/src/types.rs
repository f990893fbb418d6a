//! Shared project data: metadata, graph records, integration descriptors,
//! plugin manifests and the signal / controller vocabulary of robot cells.
use vstd::prelude::*;
use vstd::std_specs::cmp::PartialEqSpecImpl;
use crate::floatbits::{bits_eq, f64_eq};

verus! {

/// Units used to display lengths, angles and masses.
#[derive(Debug, PartialEq, Eq)]
pub struct DisplayUnits {
    pub length: String,
    pub angle: String,
    pub mass: String,
}

impl Clone for DisplayUnits {
    fn clone(&self) -> (r: Self)
        ensures
            r == *self,
    {
        DisplayUnits { length: self.length.clone(), angle: self.angle.clone(), mass: self.mass.clone() }
    }
}

impl Default for DisplayUnits {
    /// Millimetres, degrees and kilograms.
    fn default() -> (r: Self)
        ensures
            r.length@ == "mm"@,
            r.angle@ == "deg"@,
            r.mass@ == "kg"@,
    {
        DisplayUnits {
            length: String::from_str("mm"),
            angle: String::from_str("deg"),
            mass: String::from_str("kg"),
        }
    }
}

/// Identity and bookkeeping of a project.
#[derive(Debug, PartialEq, Eq)]
pub struct ProjectMetadata {
    pub project_id: String,
    pub name: String,
    pub format_version: String,
    pub created_at: String,
    pub updated_at: String,
    pub app_version: String,
    pub display_units: DisplayUnits,
    pub default_frame: String,
    pub root_scene_id: Option<String>,
    pub active_configuration_id: String,
}

impl Clone for ProjectMetadata {
    fn clone(&self) -> (r: Self)
        ensures
            r == *self,
    {
        ProjectMetadata {
            project_id: self.project_id.clone(),
            name: self.name.clone(),
            format_version: self.format_version.clone(),
            created_at: self.created_at.clone(),
            updated_at: self.updated_at.clone(),
            app_version: self.app_version.clone(),
            display_units: self.display_units.clone(),
            default_frame: self.default_frame.clone(),
            root_scene_id: match &self.root_scene_id {
                Some(id) => Some(id.clone()),
                None => None,
            },
            active_configuration_id: self.active_configuration_id.clone(),
        }
    }
}

/// The metadata that a freshly scaffolded project named `name` carries.
pub open spec fn scaffolded(m: ProjectMetadata, name: Seq<char>) -> bool {
    &&& m.project_id@ == "prj_0001"@
    &&& m.name@ == name
    &&& m.format_version@ == "0.1.0"@
    &&& m.created_at@ == "2026-04-06T00:00:00Z"@
    &&& m.updated_at@ == "2026-04-06T00:00:00Z"@
    &&& m.app_version@ == "0.1.0-alpha"@
    &&& m.display_units.length@ == "mm"@
    &&& m.display_units.angle@ == "deg"@
    &&& m.display_units.mass@ == "kg"@
    &&& m.default_frame@ == "world"@
    &&& m.root_scene_id is None
    &&& m.active_configuration_id@ == "cfg_default"@
}

impl ProjectMetadata {
    pub fn scaffold(name: String) -> (m: Self)
        ensures
            scaffolded(m, name@),
    {
        ProjectMetadata {
            project_id: String::from_str("prj_0001"),
            name,
            format_version: String::from_str("0.1.0"),
            created_at: String::from_str("2026-04-06T00:00:00Z"),
            updated_at: String::from_str("2026-04-06T00:00:00Z"),
            app_version: String::from_str("0.1.0-alpha"),
            display_units: DisplayUnits::default(),
            default_frame: String::from_str("world"),
            root_scene_id: None,
            active_configuration_id: String::from_str("cfg_default"),
        }
    }
}

impl Default for ProjectMetadata {
    /// The scaffold of a project named `Unnamed Project`.
    fn default() -> (m: Self)
        ensures
            scaffolded(m, "Unnamed Project"@),
    {
        ProjectMetadata::scaffold(String::from_str("Unnamed Project"))
    }
}

/// A typed edge of the project graph.
#[derive(Debug, Clone, PartialEq, Eq)]
pub struct GraphEdge {
    pub edge_id: String,
    pub from: String,
    pub to: String,
    pub relation_type: String,
    pub created_at: String,
}

#[derive(Debug, Clone, Copy, PartialEq, Eq)]
pub enum ConnectionMode {
    Live,
    Replay,
    Emulated,
    Gateway,
}

#[derive(Debug, Clone, Copy, PartialEq, Eq)]
pub enum EndpointType {
    Ros2,
    Opcua,
    Plc,
    RobotController,
    BluetoothLe,
    BluetoothClassic,
    WifiDevice,
    MqttBroker,
    WebsocketPeer,
    TcpStream,
    UdpStream,
    SerialDevice,
    FieldbusTrace,
    CustomStream,
}

/// The snake-case label of an endpoint type.
pub open spec fn endpoint_type_label_spec(t: EndpointType) -> Seq<char> {
    match t {
        EndpointType::Ros2 => "ros2"@,
        EndpointType::Opcua => "opcua"@,
        EndpointType::Plc => "plc"@,
        EndpointType::RobotController => "robot_controller"@,
        EndpointType::BluetoothLe => "bluetooth_le"@,
        EndpointType::BluetoothClassic => "bluetooth_classic"@,
        EndpointType::WifiDevice => "wifi_device"@,
        EndpointType::MqttBroker => "mqtt_broker"@,
        EndpointType::WebsocketPeer => "websocket_peer"@,
        EndpointType::TcpStream => "tcp_stream"@,
        EndpointType::UdpStream => "udp_stream"@,
        EndpointType::SerialDevice => "serial_device"@,
        EndpointType::FieldbusTrace => "fieldbus_trace"@,
        EndpointType::CustomStream => "custom_stream"@,
    }
}

impl EndpointType {
    pub fn as_str(&self) -> (s: &'static str)
        ensures
            s@ == endpoint_type_label_spec(*self),
    {
        match self {
            EndpointType::Ros2 => "ros2",
            EndpointType::Opcua => "opcua",
            EndpointType::Plc => "plc",
            EndpointType::RobotController => "robot_controller",
            EndpointType::BluetoothLe => "bluetooth_le",
            EndpointType::BluetoothClassic => "bluetooth_classic",
            EndpointType::WifiDevice => "wifi_device",
            EndpointType::MqttBroker => "mqtt_broker",
            EndpointType::WebsocketPeer => "websocket_peer",
            EndpointType::TcpStream => "tcp_stream",
            EndpointType::UdpStream => "udp_stream",
            EndpointType::SerialDevice => "serial_device",
            EndpointType::FieldbusTrace => "fieldbus_trace",
            EndpointType::CustomStream => "custom_stream",
        }
    }
}

/// How an endpoint is reached.
#[derive(Debug, PartialEq, Eq, Default)]
pub struct TransportProfile {
    pub transport_kind: String,
    pub adapter_id: Option<String>,
    pub discovery_mode: Option<String>,
    pub credential_policy: Option<String>,
    pub security_mode: Option<String>,
}

/// Where an endpoint lives.
#[derive(Debug, PartialEq, Eq, Default)]
pub struct Addressing {
    pub host: Option<String>,
    pub port: Option<u16>,
    pub path: Option<String>,
    pub device_id: Option<String>,
}

/// A copy of an optional text.
pub fn clone_opt_text(o: &Option<String>) -> (r: Option<String>)
    ensures
        r == *o,
{
    match o {
        Some(s) => Some(s.clone()),
        None => None,
    }
}

/// A copy of a list of texts.
pub fn clone_texts(v: &Vec<String>) -> (r: Vec<String>)
    ensures
        r@ == v@,
{
    let mut r: Vec<String> = Vec::new();
    let n = v.len();
    let mut i: usize = 0;
    while i < n
        invariant
            n == v@.len(),
            i <= n,
            r@ == v@.take(i as int),
        decreases n - i,
    {
        r.push(v[i].clone());
        assert(r@ =~= v@.take(i + 1));
        i = i + 1;
    }
    assert(v@.take(n as int) =~= v@);
    r
}

impl Clone for TransportProfile {
    fn clone(&self) -> (r: Self)
        ensures
            r == *self,
    {
        TransportProfile {
            transport_kind: self.transport_kind.clone(),
            adapter_id: clone_opt_text(&self.adapter_id),
            discovery_mode: clone_opt_text(&self.discovery_mode),
            credential_policy: clone_opt_text(&self.credential_policy),
            security_mode: clone_opt_text(&self.security_mode),
        }
    }
}

impl Clone for Addressing {
    fn clone(&self) -> (r: Self)
        ensures
            r == *self,
    {
        Addressing {
            host: clone_opt_text(&self.host),
            port: self.port,
            path: clone_opt_text(&self.path),
            device_id: clone_opt_text(&self.device_id),
        }
    }
}

#[derive(Debug, Clone, Copy, PartialEq, Eq)]
pub enum StreamDirection {
    Inbound,
    Outbound,
    Bidirectional,
}

/// The snake-case label of a stream direction.
pub open spec fn stream_direction_label_spec(d: StreamDirection) -> Seq<char> {
    match d {
        StreamDirection::Inbound => "inbound"@,
        StreamDirection::Outbound => "outbound"@,
        StreamDirection::Bidirectional => "bidirectional"@,
    }
}

impl StreamDirection {
    pub fn as_str(&self) -> (s: &'static str)
        ensures
            s@ == stream_direction_label_spec(*self),
    {
        match self {
            StreamDirection::Inbound => "inbound",
            StreamDirection::Outbound => "outbound",
            StreamDirection::Bidirectional => "bidirectional",
        }
    }
}

/// Expected rate and latency budget of a telemetry stream.
#[derive(Debug, Clone, Copy, PartialEq, Eq)]
pub struct TimingProfile {
    pub expected_rate_hz: u32,
    pub max_latency_ms: u32,
}

/// Delivery guarantees of a telemetry stream.
#[derive(Debug, PartialEq, Eq)]
pub struct QosProfile {
    pub delivery: String,
    pub ordering: String,
}

impl Clone for QosProfile {
    fn clone(&self) -> (r: Self)
        ensures
            r == *self,
    {
        QosProfile { delivery: self.delivery.clone(), ordering: self.ordering.clone() }
    }
}

/// The manifest a plugin ships with.
#[derive(Debug, PartialEq, Eq)]
pub struct PluginManifest {
    pub id: String,
    pub plugin_id: String,
    pub version: String,
    pub capabilities: Vec<String>,
    pub permissions: Vec<String>,
    pub entrypoints: Vec<String>,
    pub compatibility: Vec<String>,
    pub status: String,
}

/// The two manifests hold the same texts.
pub open spec fn same_manifest(a: PluginManifest, b: PluginManifest) -> bool {
    &&& a.id == b.id
    &&& a.plugin_id == b.plugin_id
    &&& a.version == b.version
    &&& a.capabilities@ == b.capabilities@
    &&& a.permissions@ == b.permissions@
    &&& a.entrypoints@ == b.entrypoints@
    &&& a.compatibility@ == b.compatibility@
    &&& a.status == b.status
}

impl Clone for PluginManifest {
    fn clone(&self) -> (r: Self)
        ensures
            same_manifest(r, *self),
    {
        PluginManifest {
            id: self.id.clone(),
            plugin_id: self.plugin_id.clone(),
            version: self.version.clone(),
            capabilities: clone_texts(&self.capabilities),
            permissions: clone_texts(&self.permissions),
            entrypoints: clone_texts(&self.entrypoints),
            compatibility: clone_texts(&self.compatibility),
            status: self.status.clone(),
        }
    }
}

/// A readable design document attached to the project.
#[derive(Debug, Clone, PartialEq, Eq)]
pub struct OpenSpecDocument {
    pub id: String,
    pub title: String,
    pub kind: String,
    pub status: String,
    pub body_format: String,
    pub entity_refs: Vec<String>,
    pub external_refs: Vec<String>,
    pub tags: Vec<String>,
    pub updated_at: String,
    pub content: String,
}

/// The kind of value a control signal carries.
#[derive(Debug, Clone, Copy, PartialEq, Eq, Structural)]
pub enum SignalKind {
    Boolean,
    Scalar,
    Text,
}

/// A control signal value; a scalar is held as the bit pattern of its `f64`.
#[derive(Debug)]
pub enum SignalValue {
    Bool(bool),
    Scalar(u64),
    Text(String),
}

/// Equality of signal values, scalars compared as IEEE-754 doubles.
pub open spec fn signal_value_eq(a: SignalValue, b: SignalValue) -> bool {
    match (a, b) {
        (SignalValue::Bool(x), SignalValue::Bool(y)) => x == y,
        (SignalValue::Scalar(x), SignalValue::Scalar(y)) => f64_eq(x, y),
        (SignalValue::Text(x), SignalValue::Text(y)) => x@ == y@,
        _ => false,
    }
}

pub fn signal_values_equal(a: &SignalValue, b: &SignalValue) -> (r: bool)
    ensures
        r == signal_value_eq(*a, *b),
{
    match (a, b) {
        (SignalValue::Bool(x), SignalValue::Bool(y)) => *x == *y,
        (SignalValue::Scalar(x), SignalValue::Scalar(y)) => bits_eq(*x, *y),
        (SignalValue::Text(x), SignalValue::Text(y)) => crate::text::str_eq(x.as_str(), y.as_str()),
        _ => false,
    }
}

impl PartialEq for SignalValue {
    fn eq(&self, other: &Self) -> (r: bool) {
        signal_values_equal(self, other)
    }
}

impl PartialEqSpecImpl for SignalValue {
    open spec fn obeys_eq_spec() -> bool {
        true
    }

    open spec fn eq_spec(&self, other: &Self) -> bool {
        signal_value_eq(*self, *other)
    }
}

impl Clone for SignalValue {
    fn clone(&self) -> (r: Self)
        ensures
            r == *self,
    {
        match self {
            SignalValue::Bool(b) => SignalValue::Bool(*b),
            SignalValue::Scalar(x) => SignalValue::Scalar(*x),
            SignalValue::Text(t) => SignalValue::Text(t.clone()),
        }
    }
}

#[derive(Debug, Clone, Copy, PartialEq, Eq, Structural)]
pub enum SignalComparator {
    Equal,
    NotEqual,
    GreaterThan,
    GreaterThanOrEqual,
    LessThan,
    LessThanOrEqual,
}

/// A guard on one signal.
#[derive(Debug)]
pub struct SignalCondition {
    pub signal_id: String,
    pub comparator: SignalComparator,
    pub expected_value: SignalValue,
}

/// A write of one signal performed by a transition.
#[derive(Debug)]
pub struct SignalAssignment {
    pub signal_id: String,
    pub value: SignalValue,
}

/// A declared control signal.
#[derive(Debug)]
pub struct SignalDefinition {
    pub id: String,
    pub name: String,
    pub kind: SignalKind,
    pub initial_value: SignalValue,
    pub unit: Option<String>,
    pub tags: Vec<String>,
}

/// A state of a cell controller.
#[derive(Debug, PartialEq, Eq)]
pub struct ControllerState {
    pub id: String,
    pub name: String,
    pub terminal: bool,
}

impl Clone for ControllerState {
    fn clone(&self) -> (r: Self)
        ensures
            r == *self,
    {
        ControllerState { id: self.id.clone(), name: self.name.clone(), terminal: self.terminal }
    }
}

/// A guarded transition of a cell controller.
#[derive(Debug)]
pub struct ControlTransition {
    pub id: String,
    pub from_state_id: String,
    pub to_state_id: String,
    pub conditions: Vec<SignalCondition>,
    pub assignments: Vec<SignalAssignment>,
    pub description: Option<String>,
}

/// The state machine that drives a robot cell.
#[derive(Debug)]
pub struct ControllerStateMachine {
    pub id: String,
    pub name: String,
    pub initial_state_id: String,
    pub states: Vec<ControllerState>,
    pub transitions: Vec<ControlTransition>,
}

} // verus!
