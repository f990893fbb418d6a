//! Stub integrations: the endpoint families the workbench can talk to, the
//! signal bindings registered against them, and the link metrics seen under
//! a degradation profile, live or on a recorded trace. Drop rates are held
//! as the bit patterns of their `f64` values; they are carried, not computed.
use vstd::prelude::*;
use crate::keyed::KeyedMap;
use crate::json::{field_entries, JsonNumber, JsonValue};
use crate::project::{ExternalEndpoint, LinkMetrics};
use crate::text::{contains, contains_spec};
use crate::types::{clone_texts, Addressing, ConnectionMode, EndpointType, TransportProfile};

verus! {

/// A recorded network capture of an endpoint.
#[derive(Debug)]
pub struct NetworkCaptureDataset {
    pub id: String,
    pub endpoint_id: String,
    pub capture_type: String,
    pub timestamp_range: String,
    pub asset_refs: Vec<String>,
    pub link_metrics: LinkMetrics,
    pub status: String,
}

/// What replaying a capture gives.
#[derive(Debug, Clone, PartialEq, Eq)]
pub struct ReplayReport {
    pub capture_id: String,
    pub replayable: bool,
    pub sample_count: u32,
    pub degraded: bool,
    pub effective_metrics: LinkMetrics,
}

/// How many signal bindings an endpoint has, and how many of them are malformed.
#[derive(Debug, Clone, PartialEq, Eq)]
pub struct BindingReport {
    pub endpoint_id: String,
    pub binding_count: usize,
    pub invalid_binding_count: usize,
}

/// Penalties a degraded link adds; the drop rate is the bit pattern of an `f64`.
#[derive(Debug, Clone, Copy, PartialEq, Eq)]
pub struct LinkDegradationProfile {
    pub latency_penalty_ms: u32,
    pub jitter_penalty_ms: u32,
    pub drop_rate: u64,
    pub rssi_penalty_dbm: i32,
    pub bandwidth_divider: u32,
}

/// The profile of a congested wireless link: +120 ms latency, +25 ms
/// jitter, a 5 % drop rate, -15 dBm and a third of the bandwidth.
pub open spec fn degraded_wireless_spec() -> LinkDegradationProfile {
    LinkDegradationProfile {
        latency_penalty_ms: 120,
        jitter_penalty_ms: 25,
        drop_rate: 0x3FA9_9999_9999_999A,
        rssi_penalty_dbm: 15,
        bandwidth_divider: 3,
    }
}

pub fn degraded_wireless_profile() -> (p: LinkDegradationProfile)
    ensures
        p == degraded_wireless_spec(),
{
    LinkDegradationProfile {
        latency_penalty_ms: 120,
        jitter_penalty_ms: 25,
        drop_rate: 0x3FA9_9999_9999_999A,
        rssi_penalty_dbm: 15,
        bandwidth_divider: 3,
    }
}

/// The penalties of `p` can be applied to `m` without leaving the integer ranges.
pub open spec fn degradation_fits(m: LinkMetrics, p: LinkDegradationProfile) -> bool {
    &&& (m.latency_ms matches Some(l) ==> l + p.latency_penalty_ms <= u32::MAX)
    &&& (m.jitter_ms matches Some(j) ==> j + p.jitter_penalty_ms <= u32::MAX)
    &&& (m.rssi_dbm matches Some(r) ==> i32::MIN <= r - p.rssi_penalty_dbm <= i32::MAX)
}

/// The metrics of a link with the penalties of `p`: latency and jitter
/// grow by the penalties, the drop rate is the profile's, the signal
/// strength drops by its penalty and the bandwidth is divided by its
/// divider (a zero divider counts as one).
pub open spec fn degraded_metrics(m: LinkMetrics, p: LinkDegradationProfile) -> LinkMetrics {
    LinkMetrics {
        latency_ms: match m.latency_ms {
            Some(l) => Some((l + p.latency_penalty_ms) as u32),
            None => None,
        },
        jitter_ms: match m.jitter_ms {
            Some(j) => Some((j + p.jitter_penalty_ms) as u32),
            None => None,
        },
        drop_rate: Some(p.drop_rate),
        rssi_dbm: match m.rssi_dbm {
            Some(r) => Some((r - p.rssi_penalty_dbm) as i32),
            None => None,
        },
        bandwidth_kbps: match m.bandwidth_kbps {
            Some(b) => Some((b / (if p.bandwidth_divider == 0 { 1 } else { p.bandwidth_divider })) as u32),
            None => None,
        },
    }
}

fn degrade(m: LinkMetrics, p: &LinkDegradationProfile) -> (r: LinkMetrics)
    requires
        degradation_fits(m, *p),
    ensures
        r == degraded_metrics(m, *p),
{
    let divider: u32 = if p.bandwidth_divider == 0 { 1 } else { p.bandwidth_divider };
    LinkMetrics {
        latency_ms: match m.latency_ms {
            Some(l) => Some(l + p.latency_penalty_ms),
            None => None,
        },
        jitter_ms: match m.jitter_ms {
            Some(j) => Some(j + p.jitter_penalty_ms),
            None => None,
        },
        drop_rate: Some(p.drop_rate),
        rssi_dbm: match m.rssi_dbm {
            Some(r) => Some(r - p.rssi_penalty_dbm),
            None => None,
        },
        bandwidth_kbps: match m.bandwidth_kbps {
            Some(b) => Some(b / divider),
            None => None,
        },
    }
}

/// `json` is the object with the one entry `key: value`.
pub open spec fn single_entry(json: JsonValue, key: Seq<char>, value: JsonValue) -> bool {
    json matches JsonValue::Object(f) && field_entries(f) == seq![(key, value)]
}

pub open spec fn is_some_text(o: Option<String>, t: Seq<char>) -> bool {
    o matches Some(s) && s@ == t
}

/// A local replay stub: a static, locally secured transport of `kind` at
/// 127.0.0.1:4840, 5 ms latency, 1 ms jitter, no drops, 1000 kbps, ready.
/// Its connection profile is the JSON object `{"stub": true}`.
pub open spec fn local_stub(e: ExternalEndpoint, id: Seq<char>, name: Seq<char>, t: EndpointType, kind: Seq<char>) -> bool {
    &&& e.id@ == id
    &&& single_entry(e.connection_profile, "stub"@, JsonValue::Bool(true))
    &&& e.name@ == name
    &&& e.endpoint_type == t
    &&& e.transport_profile.transport_kind@ == kind
    &&& e.transport_profile.adapter_id is None
    &&& is_some_text(e.transport_profile.discovery_mode, "static"@)
    &&& e.transport_profile.credential_policy is None
    &&& is_some_text(e.transport_profile.security_mode, "local"@)
    &&& is_some_text(e.addressing.host, "127.0.0.1"@)
    &&& e.addressing.port == Some(4840u16)
    &&& e.addressing.path is None
    &&& e.addressing.device_id is None
    &&& e.signal_map_ids@.len() == 0
    &&& e.mode == ConnectionMode::Replay
    &&& e.link_metrics == (LinkMetrics {
        latency_ms: Some(5),
        jitter_ms: Some(1),
        drop_rate: Some(0),
        rssi_dbm: None,
        bandwidth_kbps: Some(1000),
    })
    &&& e.status@ == "ready"@
}

fn local_stub_endpoint(id: &str, name: &str, endpoint_type: EndpointType, transport_kind: &str) -> (e: ExternalEndpoint)
    ensures
        local_stub(e, id@, name@, endpoint_type, transport_kind@),
{
    ExternalEndpoint {
        id: String::from_str(id),
        name: String::from_str(name),
        endpoint_type,
        transport_profile: TransportProfile {
            transport_kind: String::from_str(transport_kind),
            adapter_id: None,
            discovery_mode: Some(String::from_str("static")),
            credential_policy: None,
            security_mode: Some(String::from_str("local")),
        },
        connection_profile: JsonValue::object1("stub", JsonValue::Bool(true)),
        addressing: Addressing { host: Some(String::from_str("127.0.0.1")), port: Some(4840), path: None, device_id: None },
        signal_map_ids: Vec::new(),
        mode: ConnectionMode::Replay,
        link_metrics: LinkMetrics {
            latency_ms: Some(5),
            jitter_ms: Some(1),
            drop_rate: Some(0),
            rssi_dbm: None,
            bandwidth_kbps: Some(1000),
        },
        status: String::from_str("ready"),
    }
}

pub fn stub_ros2_endpoint() -> (e: ExternalEndpoint)
    ensures
        local_stub(e, "ext_ros2_001"@, "ROS2 Bridge"@, EndpointType::Ros2, "ros2"@),
{
    local_stub_endpoint("ext_ros2_001", "ROS2 Bridge", EndpointType::Ros2, "ros2")
}

pub fn stub_opcua_endpoint() -> (e: ExternalEndpoint)
    ensures
        local_stub(e, "ext_opcua_001"@, "OPCUA Cellule"@, EndpointType::Opcua, "opcua"@),
{
    local_stub_endpoint("ext_opcua_001", "OPCUA Cellule", EndpointType::Opcua, "opcua")
}

pub fn stub_plc_endpoint() -> (e: ExternalEndpoint)
    ensures
        local_stub(e, "ext_plc_001"@, "PLC Mock"@, EndpointType::Plc, "plc"@),
{
    local_stub_endpoint("ext_plc_001", "PLC Mock", EndpointType::Plc, "plc")
}

pub fn stub_robot_controller_endpoint() -> (e: ExternalEndpoint)
    ensures
        local_stub(e, "ext_robot_001"@, "Robot Controller Mock"@, EndpointType::RobotController, "robot_controller"@),
{
    local_stub_endpoint("ext_robot_001", "Robot Controller Mock", EndpointType::RobotController, "robot_controller")
}

/// The Wi-Fi edge device: wlan0, mDNS discovery, WPA3, at
/// wireless-edge.local:9001/telemetry, live and connected.
/// Its connection profile is `{"retryBackoffMs": 250}`.
pub open spec fn wifi_stub(e: ExternalEndpoint) -> bool {
    &&& e.id@ == "ext_wifi_001"@
    &&& single_entry(e.connection_profile, "retryBackoffMs"@, JsonValue::Number(JsonNumber::PosInt(250)))
    &&& e.name@ == "Wireless Edge"@
    &&& e.endpoint_type == EndpointType::WifiDevice
    &&& e.transport_profile.transport_kind@ == "wifi"@
    &&& is_some_text(e.transport_profile.adapter_id, "wlan0"@)
    &&& is_some_text(e.transport_profile.discovery_mode, "mdns"@)
    &&& is_some_text(e.transport_profile.credential_policy, "runtime_prompt"@)
    &&& is_some_text(e.transport_profile.security_mode, "wpa3"@)
    &&& is_some_text(e.addressing.host, "wireless-edge.local"@)
    &&& e.addressing.port == Some(9001u16)
    &&& is_some_text(e.addressing.path, "/telemetry"@)
    &&& e.addressing.device_id is None
    &&& e.signal_map_ids@.len() == 1
    &&& e.signal_map_ids@[0]@ == "sig_wireless_001"@
    &&& e.mode == ConnectionMode::Live
    &&& e.link_metrics == (LinkMetrics {
        latency_ms: Some(18),
        jitter_ms: Some(4),
        drop_rate: Some(0),
        rssi_dbm: Some(-55i32),
        bandwidth_kbps: Some(10000),
    })
    &&& e.status@ == "connected"@
}

pub fn stub_wifi_endpoint() -> (e: ExternalEndpoint)
    ensures
        wifi_stub(e),
{
    let mut signal_map_ids: Vec<String> = Vec::new();
    signal_map_ids.push(String::from_str("sig_wireless_001"));
    ExternalEndpoint {
        id: String::from_str("ext_wifi_001"),
        name: String::from_str("Wireless Edge"),
        endpoint_type: EndpointType::WifiDevice,
        transport_profile: TransportProfile {
            transport_kind: String::from_str("wifi"),
            adapter_id: Some(String::from_str("wlan0")),
            discovery_mode: Some(String::from_str("mdns")),
            credential_policy: Some(String::from_str("runtime_prompt")),
            security_mode: Some(String::from_str("wpa3")),
        },
        connection_profile: JsonValue::object1("retryBackoffMs", JsonValue::Number(JsonNumber::PosInt(250))),
        addressing: Addressing {
            host: Some(String::from_str("wireless-edge.local")),
            port: Some(9001),
            path: Some(String::from_str("/telemetry")),
            device_id: None,
        },
        signal_map_ids,
        mode: ConnectionMode::Live,
        link_metrics: LinkMetrics {
            latency_ms: Some(18),
            jitter_ms: Some(4),
            drop_rate: Some(0),
            rssi_dbm: Some(-55i32),
            bandwidth_kbps: Some(10000),
        },
        status: String::from_str("connected"),
    }
}

/// The Bluetooth LE tool: hci0, scan discovery, pairing, LE secure
/// connections, device ble-tool-001, live and paired, 1 % drops.
/// Its connection profile is `{"mtu": 247}`.
pub open spec fn bluetooth_stub(e: ExternalEndpoint) -> bool {
    &&& e.id@ == "ext_ble_001"@
    &&& single_entry(e.connection_profile, "mtu"@, JsonValue::Number(JsonNumber::PosInt(247)))
    &&& e.name@ == "BLE Tool"@
    &&& e.endpoint_type == EndpointType::BluetoothLe
    &&& e.transport_profile.transport_kind@ == "bluetooth_le"@
    &&& is_some_text(e.transport_profile.adapter_id, "hci0"@)
    &&& is_some_text(e.transport_profile.discovery_mode, "scan"@)
    &&& is_some_text(e.transport_profile.credential_policy, "pairing"@)
    &&& is_some_text(e.transport_profile.security_mode, "le_secure_connections"@)
    &&& e.addressing.host is None
    &&& e.addressing.port is None
    &&& e.addressing.path is None
    &&& is_some_text(e.addressing.device_id, "ble-tool-001"@)
    &&& e.signal_map_ids@.len() == 1
    &&& e.signal_map_ids@[0]@ == "sig_ble_001"@
    &&& e.mode == ConnectionMode::Live
    &&& e.link_metrics == (LinkMetrics {
        latency_ms: Some(35),
        jitter_ms: Some(10),
        drop_rate: Some(0x3F84_7AE1_47AE_147B),
        rssi_dbm: Some(-62i32),
        bandwidth_kbps: Some(256),
    })
    &&& e.status@ == "paired"@
}

pub fn stub_bluetooth_endpoint() -> (e: ExternalEndpoint)
    ensures
        bluetooth_stub(e),
{
    let mut signal_map_ids: Vec<String> = Vec::new();
    signal_map_ids.push(String::from_str("sig_ble_001"));
    ExternalEndpoint {
        id: String::from_str("ext_ble_001"),
        name: String::from_str("BLE Tool"),
        endpoint_type: EndpointType::BluetoothLe,
        transport_profile: TransportProfile {
            transport_kind: String::from_str("bluetooth_le"),
            adapter_id: Some(String::from_str("hci0")),
            discovery_mode: Some(String::from_str("scan")),
            credential_policy: Some(String::from_str("pairing")),
            security_mode: Some(String::from_str("le_secure_connections")),
        },
        connection_profile: JsonValue::object1("mtu", JsonValue::Number(JsonNumber::PosInt(247))),
        addressing: Addressing { host: None, port: None, path: None, device_id: Some(String::from_str("ble-tool-001")) },
        signal_map_ids,
        mode: ConnectionMode::Live,
        link_metrics: LinkMetrics {
            latency_ms: Some(35),
            jitter_ms: Some(10),
            drop_rate: Some(0x3F84_7AE1_47AE_147B),
            rssi_dbm: Some(-62i32),
            bandwidth_kbps: Some(256),
        },
        status: String::from_str("paired"),
    }
}


/// What a registry holds: endpoints and traces by id, and the signal
/// bindings registered for each endpoint id, in registration order.
pub struct RegistryModel {
    pub endpoints: Map<Seq<char>, ExternalEndpoint>,
    pub traces: Map<Seq<char>, NetworkCaptureDataset>,
    pub bindings: Map<Seq<char>, Seq<Seq<char>>>,
}

/// Stub endpoints, recorded traces and signal bindings of a workbench.
#[derive(Debug)]
pub struct IntegrationStubRegistry {
    endpoints: KeyedMap<ExternalEndpoint>,
    traces: KeyedMap<NetworkCaptureDataset>,
    signal_bindings: KeyedMap<Vec<String>>,
}

pub open spec fn texts_of(v: Seq<String>) -> Seq<Seq<char>> {
    v.map_values(|s: String| s@)
}

impl View for IntegrationStubRegistry {
    type V = RegistryModel;

    closed spec fn view(&self) -> RegistryModel {
        RegistryModel {
            endpoints: self.endpoints@,
            traces: self.traces@,
            bindings: self.signal_bindings@.map_values(|v: Vec<String>| texts_of(v@)),
        }
    }
}

/// The bindings registered for `id`; none when it has none.
pub open spec fn bindings_of(m: RegistryModel, id: Seq<char>) -> Seq<Seq<char>> {
    if m.bindings.dom().contains(id) {
        m.bindings[id]
    } else {
        Seq::empty()
    }
}

/// Controllers and PLCs address their signals as `scheme:path`.
pub open spec fn needs_scheme(t: EndpointType) -> bool {
    t == EndpointType::Plc || t == EndpointType::RobotController
}

/// How many of `bindings` lack the `:` an endpoint of type `t` needs.
pub open spec fn malformed_count(t: EndpointType, bindings: Seq<Seq<char>>) -> nat
    decreases bindings.len(),
{
    if bindings.len() == 0 {
        0
    } else {
        malformed_count(t, bindings.drop_last()) + if needs_scheme(t) && !contains_spec(bindings.last(), ":"@) {
            1nat
        } else {
            0nat
        }
    }
}

impl Default for IntegrationStubRegistry {
    /// An empty registry.
    fn default() -> (r: Self)
        ensures
            r@.endpoints.is_empty(),
            r@.traces.is_empty(),
            r@.bindings.is_empty(),
    {
        let r = IntegrationStubRegistry { endpoints: KeyedMap::new(), traces: KeyedMap::new(), signal_bindings: KeyedMap::new() };
        assert(r@.bindings =~= Map::<Seq<char>, Seq<Seq<char>>>::empty());
        r
    }
}

impl IntegrationStubRegistry {
    /// Registers `endpoint` under its id, replacing one registered before.
    pub fn register_endpoint(&mut self, endpoint: ExternalEndpoint)
        ensures
            final(self)@.endpoints == old(self)@.endpoints.insert(endpoint.id@, endpoint),
            final(self)@.traces == old(self)@.traces,
            final(self)@.bindings == old(self)@.bindings,
    {
        let id = endpoint.id.clone();
        self.endpoints.insert(id, endpoint);
    }

    /// Registers `trace` under its id, replacing one registered before.
    pub fn register_trace(&mut self, trace: NetworkCaptureDataset)
        ensures
            final(self)@.traces == old(self)@.traces.insert(trace.id@, trace),
            final(self)@.endpoints == old(self)@.endpoints,
            final(self)@.bindings == old(self)@.bindings,
    {
        let id = trace.id.clone();
        self.traces.insert(id, trace);
    }

    /// Adds `binding` after the bindings of `endpoint_id`.
    pub fn register_binding(&mut self, endpoint_id: &str, binding: &str)
        ensures
            final(self)@.bindings == old(self)@.bindings.insert(endpoint_id@, bindings_of(old(self)@, endpoint_id@).push(binding@)),
            final(self)@.endpoints == old(self)@.endpoints,
            final(self)@.traces == old(self)@.traces,
    {
        let ghost pre = self.signal_bindings@;
        let mut list: Vec<String> = match self.signal_bindings.get(endpoint_id) {
            Some(v) => clone_texts(v),
            None => Vec::new(),
        };
        let ghost before = list@;
        list.push(String::from_str(binding));
        proof {
            assert(texts_of(list@) =~= texts_of(before).push(binding@));
            if pre.dom().contains(endpoint_id@) {
                assert(texts_of(before) == bindings_of(old(self)@, endpoint_id@));
            } else {
                assert(texts_of(before) =~= Seq::<Seq<char>>::empty());
            }
        }
        self.signal_bindings.insert(String::from_str(endpoint_id), list);
        proof {
            assert(self@.bindings =~= old(self)@.bindings.insert(endpoint_id@, bindings_of(old(self)@, endpoint_id@).push(binding@)));
        }
    }

    /// The endpoint registered under `id`.
    pub fn endpoint(&self, id: &str) -> (r: Option<&ExternalEndpoint>)
        ensures
            r is None <==> !self@.endpoints.dom().contains(id@),
            r matches Some(e) ==> *e == self@.endpoints[id@],
    {
        self.endpoints.get(id)
    }

    /// Number of registered endpoints.
    pub fn endpoint_count(&self) -> (n: usize)
        ensures
            n == self@.endpoints.len(),
    {
        self.endpoints.len()
    }

    /// The bindings of a registered endpoint: how many there are and how
    /// many lack the `scheme:` a controller or PLC needs; `None` for an
    /// unknown endpoint.
    pub fn binding_report(&self, endpoint_id: &str) -> (r: Option<BindingReport>)
        ensures
            r is None <==> !self@.endpoints.dom().contains(endpoint_id@),
            r matches Some(report) ==> {
                &&& report.endpoint_id@ == endpoint_id@
                &&& report.binding_count == bindings_of(self@, endpoint_id@).len()
                &&& report.invalid_binding_count == malformed_count(
                    self@.endpoints[endpoint_id@].endpoint_type,
                    bindings_of(self@, endpoint_id@),
                )
            },
    {
        let endpoint = match self.endpoints.get(endpoint_id) {
            None => {
                return None;
            },
            Some(e) => e,
        };
        let t = endpoint.endpoint_type;
        let checked = match t {
            EndpointType::Plc | EndpointType::RobotController => true,
            _ => false,
        };
        let empty: Vec<String> = Vec::new();
        let bindings: &Vec<String> = match self.signal_bindings.get(endpoint_id) {
            Some(v) => v,
            None => &empty,
        };
        let ghost all = texts_of(bindings@);
        proof {
            if self.signal_bindings@.dom().contains(endpoint_id@) {
                assert(all == bindings_of(self@, endpoint_id@));
            } else {
                assert(all =~= bindings_of(self@, endpoint_id@));
            }
        }
        let n = bindings.len();
        let mut invalid: usize = 0;
        let mut i: usize = 0;
        while i < n
            invariant
                n == bindings@.len(),
                all == texts_of(bindings@),
                checked == needs_scheme(t),
                i <= n,
                invalid == malformed_count(t, all.subrange(0, i as int)),
                invalid <= i,
            decreases n - i,
        {
            assert(all.subrange(0, (i + 1) as int).drop_last() =~= all.subrange(0, i as int));
            if checked && !contains(bindings[i].as_str(), ":") {
                invalid = invalid + 1;
            }
            i = i + 1;
        }
        assert(all.subrange(0, n as int) =~= all);
        Some(BindingReport { endpoint_id: String::from_str(endpoint_id), binding_count: n, invalid_binding_count: invalid })
    }

    /// The metrics of the link to a registered endpoint, under `degradation`
    /// when one is given; `None` for an unknown endpoint.
    pub fn simulate_link(&self, endpoint_id: &str, degradation: Option<&LinkDegradationProfile>) -> (r: Option<LinkMetrics>)
        requires
            self@.endpoints.dom().contains(endpoint_id@) ==> (degradation matches Some(p) ==> degradation_fits(
                self@.endpoints[endpoint_id@].link_metrics,
                *p,
            )),
        ensures
            r is None <==> !self@.endpoints.dom().contains(endpoint_id@),
            r matches Some(m) ==> m == match degradation {
                None => self@.endpoints[endpoint_id@].link_metrics,
                Some(p) => degraded_metrics(self@.endpoints[endpoint_id@].link_metrics, *p),
            },
    {
        let endpoint = match self.endpoints.get(endpoint_id) {
            None => {
                return None;
            },
            Some(e) => e,
        };
        match degradation {
            None => Some(endpoint.link_metrics),
            Some(p) => Some(degrade(endpoint.link_metrics, p)),
        }
    }

    /// Replays a recorded trace, under `degradation` when one is given: one
    /// sample per recorded asset; `None` for an unknown trace.
    pub fn replay_trace(&self, trace_id: &str, degradation: Option<&LinkDegradationProfile>) -> (r: Option<ReplayReport>)
        requires
            self@.traces.dom().contains(trace_id@) ==> (degradation matches Some(p) ==> degradation_fits(
                self@.traces[trace_id@].link_metrics,
                *p,
            )),
        ensures
            r is None <==> !self@.traces.dom().contains(trace_id@),
            r matches Some(report) ==> {
                let trace = self@.traces[trace_id@];
                &&& report.capture_id@ == trace.id@
                &&& report.replayable
                &&& report.sample_count == trace.asset_refs@.len() as u32
                &&& report.degraded == (degradation is Some)
                &&& report.effective_metrics == match degradation {
                    None => trace.link_metrics,
                    Some(p) => degraded_metrics(trace.link_metrics, *p),
                }
            },
    {
        let trace = match self.traces.get(trace_id) {
            None => {
                return None;
            },
            Some(t) => t,
        };
        let effective_metrics = match degradation {
            None => trace.link_metrics,
            Some(p) => degrade(trace.link_metrics, p),
        };
        Some(
            ReplayReport {
                capture_id: trace.id.clone(),
                replayable: true,
                sample_count: trace.asset_refs.len() as u32,
                degraded: degradation.is_some(),
                effective_metrics,
            },
        )
    }
}


/// The endpoints of the seeded registry: the six stub families under their ids.
pub open spec fn seeded_endpoints(m: Map<Seq<char>, ExternalEndpoint>) -> bool {
    &&& m.dom() == set!["ext_ros2_001"@, "ext_opcua_001"@, "ext_plc_001"@, "ext_robot_001"@, "ext_wifi_001"@, "ext_ble_001"@]
    &&& local_stub(m["ext_ros2_001"@], "ext_ros2_001"@, "ROS2 Bridge"@, EndpointType::Ros2, "ros2"@)
    &&& local_stub(m["ext_opcua_001"@], "ext_opcua_001"@, "OPCUA Cellule"@, EndpointType::Opcua, "opcua"@)
    &&& local_stub(m["ext_plc_001"@], "ext_plc_001"@, "PLC Mock"@, EndpointType::Plc, "plc"@)
    &&& local_stub(
        m["ext_robot_001"@],
        "ext_robot_001"@,
        "Robot Controller Mock"@,
        EndpointType::RobotController,
        "robot_controller"@,
    )
    &&& wifi_stub(m["ext_wifi_001"@])
    &&& bluetooth_stub(m["ext_ble_001"@])
}

/// One signal binding for each seeded endpoint.
pub open spec fn seeded_bindings() -> Map<Seq<char>, Seq<Seq<char>>> {
    map![
        "ext_ros2_001"@ => seq!["topic:/cell/state"@],
        "ext_opcua_001"@ => seq!["node:/Objects/Cell/Speed"@],
        "ext_plc_001"@ => seq!["tag:plc.cycle_start"@],
        "ext_robot_001"@ => seq!["robot:program/status"@],
        "ext_wifi_001"@ => seq!["mqtt:/telemetry/status"@],
        "ext_ble_001"@ => seq!["gatt:/battery/state"@]
    ]
}

/// The six seeded ids are pairwise different.
proof fn lemma_seeded_ids_distinct()
    ensures
        "ext_ros2_001"@ != "ext_opcua_001"@,
        "ext_ros2_001"@ != "ext_plc_001"@,
        "ext_ros2_001"@ != "ext_robot_001"@,
        "ext_ros2_001"@ != "ext_wifi_001"@,
        "ext_ros2_001"@ != "ext_ble_001"@,
        "ext_opcua_001"@ != "ext_plc_001"@,
        "ext_opcua_001"@ != "ext_robot_001"@,
        "ext_opcua_001"@ != "ext_wifi_001"@,
        "ext_opcua_001"@ != "ext_ble_001"@,
        "ext_plc_001"@ != "ext_robot_001"@,
        "ext_plc_001"@ != "ext_wifi_001"@,
        "ext_plc_001"@ != "ext_ble_001"@,
        "ext_robot_001"@ != "ext_wifi_001"@,
        "ext_robot_001"@ != "ext_ble_001"@,
        "ext_wifi_001"@ != "ext_ble_001"@,
{
    reveal_strlit("ext_ros2_001");
    reveal_strlit("ext_opcua_001");
    reveal_strlit("ext_plc_001");
    reveal_strlit("ext_robot_001");
    reveal_strlit("ext_wifi_001");
    reveal_strlit("ext_ble_001");
    assert("ext_ros2_001"@[4] == 'r');
    assert("ext_opcua_001"@[4] == 'o');
    assert("ext_plc_001"@[4] == 'p');
    assert("ext_robot_001"@[4] == 'r');
    assert("ext_wifi_001"@[4] == 'w');
    assert("ext_ble_001"@[4] == 'b');
    assert("ext_ros2_001"@.len() == 12);
    assert("ext_robot_001"@.len() == 13);
}

impl IntegrationStubRegistry {
    /// A registry with the six stub endpoints and one binding each, and no trace.
    pub fn seeded() -> (r: Self)
        ensures
            seeded_endpoints(r@.endpoints),
            r@.bindings == seeded_bindings(),
            r@.traces.is_empty(),
    {
        proof {
            lemma_seeded_ids_distinct();
        }
        let mut registry = IntegrationStubRegistry::default();
        registry.register_endpoint(stub_ros2_endpoint());
        registry.register_endpoint(stub_opcua_endpoint());
        registry.register_endpoint(stub_plc_endpoint());
        registry.register_endpoint(stub_robot_controller_endpoint());
        registry.register_endpoint(stub_wifi_endpoint());
        registry.register_endpoint(stub_bluetooth_endpoint());
        registry.register_binding("ext_ros2_001", "topic:/cell/state");
        assert(registry@.bindings =~= map!["ext_ros2_001"@ => seq!["topic:/cell/state"@]]);
        registry.register_binding("ext_opcua_001", "node:/Objects/Cell/Speed");
        registry.register_binding("ext_plc_001", "tag:plc.cycle_start");
        registry.register_binding("ext_robot_001", "robot:program/status");
        registry.register_binding("ext_wifi_001", "mqtt:/telemetry/status");
        registry.register_binding("ext_ble_001", "gatt:/battery/state");
        assert(registry@.endpoints.dom() =~= set![
            "ext_ros2_001"@,
            "ext_opcua_001"@,
            "ext_plc_001"@,
            "ext_robot_001"@,
            "ext_wifi_001"@,
            "ext_ble_001"@
        ]);
        assert(registry@.bindings =~= seeded_bindings());
        registry
    }
}

/// A degraded link is never faster: latency and jitter do not drop, each
/// metric stays known exactly when it was, and the drop rate becomes the
/// profile's.
pub proof fn law_degradation_never_improves_latency(m: LinkMetrics, p: LinkDegradationProfile)
    requires
        degradation_fits(m, p),
    ensures
        ({
            let d = degraded_metrics(m, p);
            &&& (d.latency_ms is Some <==> m.latency_ms is Some)
            &&& (d.jitter_ms is Some <==> m.jitter_ms is Some)
            &&& (d.rssi_dbm is Some <==> m.rssi_dbm is Some)
            &&& (d.bandwidth_kbps is Some <==> m.bandwidth_kbps is Some)
            &&& (m.latency_ms matches Some(l) ==> d.latency_ms.unwrap() >= l)
            &&& (m.jitter_ms matches Some(j) ==> d.jitter_ms.unwrap() >= j)
            &&& d.drop_rate == Some(p.drop_rate)
        }),
{
}

} // verus!
