//! The desktop workspace session: the project graph it edits, its own
//! journal of system activity, and the dispatch of the shell's commands.
//! Commands whose work is on disk (saving, exporting, importing) or in
//! floating point (part and cell geometry, simulation, perception, replay
//! metrics, commissioning, optimization) are handed back to the caller,
//! which completes them here; a safety analysis is handed back for the
//! caller to find the robot cell and read its zones, and completed by
//! `complete_safety_analysis`.
use vstd::prelude::*;
use crate::ai::{opt_view, AiRuntimeStatus};
use crate::assistant::AiChatResponse;
use crate::explain::{
    cause_texts, item_texts, latest_entity_by_type, latest_of_type, nodes_in_order, opt_texts_view, some_texts, text_of,
    texts_of_items, AiRiskLevel,
};
use crate::json::{field_entries, json_items, json_text, JsonValue};
use crate::keyed::{key_order, key_views, lists_in_order};
use crate::project::{data_field, EntityRecord, log_numbers_below, CoreCommand, CoreError, ExternalEndpoint, ProjectDocument, ProjectGraph, TelemetryStream};
use crate::integration::{
    bluetooth_stub, local_stub, stub_bluetooth_endpoint, stub_opcua_endpoint, stub_plc_endpoint, stub_robot_controller_endpoint,
    stub_ros2_endpoint, stub_wifi_endpoint, wifi_stub,
};
use crate::assistant::plugin_enabled;
use crate::plugin_host::validate_manifest;
use crate::workspace::sample_plugin_manifest;
use crate::snapshot::{activity_view, ActivityEntry, ActivityView};
use crate::text::{decimal, decimal_string, is_blank, padded_decimal, seq_lt, str_eq, str_lt, trim, trim_spec, zero_pad};
use crate::robotics::RobotCellControlModel;
use crate::safety::{cause_ids, evaluate_safety, SafetyInterlock, SafetyZone};
use crate::sim::{ScheduledSignalChange, SimulationRequest};
use crate::types::{EndpointType, QosProfile, StreamDirection, TimingProfile, scaffolded, OpenSpecDocument, SignalValue};
use crate::workspace::{cell_contact_pairs, robot_cell_contact_pairs, RobotCellEntitySummary};

verus! {

/// What a shell command reports back.
#[derive(Debug, Clone, PartialEq, Eq)]
pub struct CommandResult {
    pub command_id: String,
    pub status: String,
    pub message: String,
}

pub open spec fn result_view(r: CommandResult) -> (Seq<char>, Seq<char>, Seq<char>) {
    (r.command_id@, r.status@, r.message@)
}

/// `sys_` and the entry's number on four digits.
pub open spec fn system_entry_id(n: nat) -> Seq<char> {
    "sys_"@ + zero_pad(decimal(n), 4)
}

/// The session clock: minute and second of the entry's number, within
/// the same hour of the same day.
pub open spec fn system_entry_timestamp(n: nat) -> Seq<char> {
    "2026-04-06T12:"@ + zero_pad(decimal((n / 60) % 60), 2) + ":"@ + zero_pad(decimal(n % 60), 2) + "Z"@
}

/// The `n`-th entry of the system journal.
pub open spec fn system_entry(n: nat, kind: Seq<char>, target_id: Option<Seq<char>>) -> ActivityView {
    ActivityView {
        id: system_entry_id(n),
        channel: "system"@,
        kind,
        timestamp: system_entry_timestamp(n),
        target_id,
    }
}

pub open spec fn journal_view(s: Seq<ActivityEntry>) -> Seq<ActivityView> {
    s.map_values(|a: ActivityEntry| activity_view(a))
}

/// The id the shell gives a session that was not loaded from a fixture.
pub open spec fn untitled_session_id() -> Seq<char> {
    "session:untitled"@
}

/// The journal of `s` is numbered from one without gaps, and the next
/// entry takes the next number.
pub open spec fn journal_numbered(s: WorkspaceSession) -> bool {
    &&& s.system_counter == s.system_activity@.len() + 1
    &&& forall|i: int|
        0 <= i < s.system_activity@.len() ==> (#[trigger] s.system_activity@[i]).id@ == system_entry_id((i + 1) as nat)
}

/// A workspace session.
pub struct WorkspaceSession {
    pub fixture_id: String,
    pub graph: ProjectGraph,
    pub system_activity: Vec<ActivityEntry>,
    pub system_counter: usize,
}

fn concat(a: &str, b: &str) -> (r: String)
    ensures
        r@ == a@ + b@,
{
    let mut r = String::from_str(a);
    r.append(b);
    r
}

fn system_timestamp(n: usize) -> (t: String)
    ensures
        t@ == system_entry_timestamp(n as nat),
{
    let minutes = padded_decimal(((n / 60) % 60) as u64, 2);
    let seconds = padded_decimal((n % 60) as u64, 2);
    let mut t = String::from_str("2026-04-06T12:");
    t.append(minutes.as_str());
    t.append(":");
    t.append(seconds.as_str());
    t.append("Z");
    t
}

impl WorkspaceSession {
    /// Adds the next entry of the system journal and advances its numbering.
    pub fn push_system_activity(&mut self, kind: &str, target_id: Option<String>)
        requires
            old(self).system_counter < usize::MAX,
        ensures
            final(self).system_counter == old(self).system_counter + 1,
            journal_view(final(self).system_activity@) == journal_view(old(self).system_activity@).push(
                system_entry(old(self).system_counter as nat, kind@, opt_view(target_id)),
            ),
            final(self).graph == old(self).graph,
            final(self).fixture_id == old(self).fixture_id,
            journal_numbered(*old(self)) ==> journal_numbered(*final(self)),
    {
        let n = self.system_counter;
        let digits = padded_decimal(n as u64, 4);
        let entry = ActivityEntry {
            id: concat("sys_", digits.as_str()),
            channel: String::from_str("system"),
            kind: String::from_str(kind),
            timestamp: system_timestamp(n),
            target_id,
        };
        assert(activity_view(entry) == system_entry(n as nat, kind@, opt_view(target_id)));
        let ghost before = self.system_activity@;
        self.system_counter = n + 1;
        self.system_activity.push(entry);
        assert(journal_view(self.system_activity@) =~= journal_view(before).push(activity_view(entry)));
        assert(self.system_activity@[before.len() as int] == entry);
        assert(forall|i: int| 0 <= i < before.len() ==> self.system_activity@[i] == before[i]);
    }

    /// A new empty project named `name`, whose journal opens with
    /// `workspace.created`.
    pub fn empty(name: String) -> (s: Self)
        ensures
            s.fixture_id@ == untitled_session_id(),
            scaffolded(s.graph@.document.metadata, name@),
            s.graph@.document.nodes.is_empty(),
            s.graph@.document.commands.len() == 0,
            s.graph@.document.events.len() == 0,
            s.system_counter == 2,
            journal_view(s.system_activity@) == seq![system_entry(1, "workspace.created"@, Some(name@))],
            journal_numbered(s),
            session_ready(s),
    {
        let label = name.clone();
        let ghost nm = name@;
        let mut s = WorkspaceSession {
            fixture_id: String::from_str("session:untitled"),
            graph: ProjectGraph::new(name),
            system_activity: Vec::new(),
            system_counter: 1,
        };
        s.push_system_activity("workspace.created", Some(label));
        assert(journal_view(Seq::<ActivityEntry>::empty()) =~= Seq::<ActivityView>::empty());
        assert(Seq::<ActivityView>::empty().push(system_entry(1, "workspace.created"@, Some(nm))) =~= seq![
            system_entry(1, "workspace.created"@, Some(nm)),
        ]);
        s
    }

    /// The session of a project loaded under `fixture_id`: its journal
    /// opens with `workspace.loaded`.
    pub fn open(fixture_id: String, graph: ProjectGraph) -> (s: Self)
        ensures
            s.fixture_id@ == fixture_id@,
            s.graph == graph,
            s.system_counter == 2,
            journal_view(s.system_activity@) == seq![system_entry(1, "workspace.loaded"@, Some(fixture_id@))],
            journal_numbered(s),
    {
        let label = fixture_id.clone();
        let ghost fid = fixture_id@;
        let mut s = WorkspaceSession { fixture_id, graph, system_activity: Vec::new(), system_counter: 1 };
        s.push_system_activity("workspace.loaded", Some(label));
        assert(journal_view(Seq::<ActivityEntry>::empty()) =~= Seq::<ActivityView>::empty());
        assert(Seq::<ActivityView>::empty().push(system_entry(1, "workspace.loaded"@, Some(fid))) =~= seq![
            system_entry(1, "workspace.loaded"@, Some(fid)),
        ]);
        s
    }
}

/// The commands of the desktop shell.
#[derive(Debug, Clone, Copy, PartialEq, Eq)]
pub enum ShellCommand {
    ProjectCreate,
    ProjectSave,
    ProjectSaveAll,
    ProjectImport,
    ProjectExport,
    CreatePart,
    RegeneratePart,
    CreateAssembly,
    CreateRobotCell,
    CreateSensorRig,
    CreateExternalEndpoint,
    PluginManage,
    SimulationRunStart,
    PerceptionRunStart,
    IntegrationReplayDegraded,
    CommissioningSessionStart,
    CommissioningCompareAsBuilt,
    OptimizationRunStart,
    TestRunFixture,
    AnalyzeSafety,
    AnalyzeValidationReport,
    HelpOpenSpec,
    /// Any other id: the shell only simulates it.
    Simulated,
}

/// The command a shell id names.
pub open spec fn shell_command_of(id: Seq<char>) -> ShellCommand {
    if id == "project.create"@ {
        ShellCommand::ProjectCreate
    } else if id == "project.save"@ {
        ShellCommand::ProjectSave
    } else if id == "project.save_all"@ {
        ShellCommand::ProjectSaveAll
    } else if id == "project.import"@ {
        ShellCommand::ProjectImport
    } else if id == "project.export"@ {
        ShellCommand::ProjectExport
    } else if id == "entity.create.part"@ {
        ShellCommand::CreatePart
    } else if id == "build.regenerate_part"@ {
        ShellCommand::RegeneratePart
    } else if id == "entity.create.assembly"@ {
        ShellCommand::CreateAssembly
    } else if id == "entity.create.robot_cell"@ {
        ShellCommand::CreateRobotCell
    } else if id == "entity.create.sensor_rig"@ {
        ShellCommand::CreateSensorRig
    } else if id == "entity.create.external_endpoint"@ {
        ShellCommand::CreateExternalEndpoint
    } else if id == "plugin.manage"@ {
        ShellCommand::PluginManage
    } else if id == "simulation.run.start"@ {
        ShellCommand::SimulationRunStart
    } else if id == "perception.run.start"@ {
        ShellCommand::PerceptionRunStart
    } else if id == "integration.replay.degraded"@ {
        ShellCommand::IntegrationReplayDegraded
    } else if id == "commissioning.session.start"@ {
        ShellCommand::CommissioningSessionStart
    } else if id == "commissioning.compare.as_built"@ {
        ShellCommand::CommissioningCompareAsBuilt
    } else if id == "optimization.run.start"@ {
        ShellCommand::OptimizationRunStart
    } else if id == "test.run_fixture"@ {
        ShellCommand::TestRunFixture
    } else if id == "analyze.safety"@ {
        ShellCommand::AnalyzeSafety
    } else if id == "analyze.validation_report"@ {
        ShellCommand::AnalyzeValidationReport
    } else if id == "help.openspec"@ {
        ShellCommand::HelpOpenSpec
    } else {
        ShellCommand::Simulated
    }
}

pub fn parse_shell_command(id: &str) -> (c: ShellCommand)
    ensures
        c == shell_command_of(id@),
{
    if str_eq(id, "project.create") {
        ShellCommand::ProjectCreate
    } else if str_eq(id, "project.save") {
        ShellCommand::ProjectSave
    } else if str_eq(id, "project.save_all") {
        ShellCommand::ProjectSaveAll
    } else if str_eq(id, "project.import") {
        ShellCommand::ProjectImport
    } else if str_eq(id, "project.export") {
        ShellCommand::ProjectExport
    } else if str_eq(id, "entity.create.part") {
        ShellCommand::CreatePart
    } else if str_eq(id, "build.regenerate_part") {
        ShellCommand::RegeneratePart
    } else if str_eq(id, "entity.create.assembly") {
        ShellCommand::CreateAssembly
    } else if str_eq(id, "entity.create.robot_cell") {
        ShellCommand::CreateRobotCell
    } else if str_eq(id, "entity.create.sensor_rig") {
        ShellCommand::CreateSensorRig
    } else if str_eq(id, "entity.create.external_endpoint") {
        ShellCommand::CreateExternalEndpoint
    } else if str_eq(id, "plugin.manage") {
        ShellCommand::PluginManage
    } else if str_eq(id, "simulation.run.start") {
        ShellCommand::SimulationRunStart
    } else if str_eq(id, "perception.run.start") {
        ShellCommand::PerceptionRunStart
    } else if str_eq(id, "integration.replay.degraded") {
        ShellCommand::IntegrationReplayDegraded
    } else if str_eq(id, "commissioning.session.start") {
        ShellCommand::CommissioningSessionStart
    } else if str_eq(id, "commissioning.compare.as_built") {
        ShellCommand::CommissioningCompareAsBuilt
    } else if str_eq(id, "optimization.run.start") {
        ShellCommand::OptimizationRunStart
    } else if str_eq(id, "test.run_fixture") {
        ShellCommand::TestRunFixture
    } else if str_eq(id, "analyze.safety") {
        ShellCommand::AnalyzeSafety
    } else if str_eq(id, "analyze.validation_report") {
        ShellCommand::AnalyzeValidationReport
    } else if str_eq(id, "help.openspec") {
        ShellCommand::HelpOpenSpec
    } else {
        ShellCommand::Simulated
    }
}

/// The index of the most recently updated document: the last one whose
/// `updated_at` no other exceeds, as `max_by` picks it.
pub open spec fn latest_updated(docs: Seq<OpenSpecDocument>) -> Option<int>
    decreases docs.len(),
{
    if docs.len() == 0 {
        None
    } else {
        match latest_updated(docs.drop_last()) {
            None => Some(docs.len() - 1),
            Some(b) => if seq_lt(docs.last().updated_at@, docs[b].updated_at@) {
                Some(b)
            } else {
                Some(docs.len() - 1)
            },
        }
    }
}

proof fn lemma_latest_updated_range(docs: Seq<OpenSpecDocument>)
    ensures
        docs.len() == 0 <==> latest_updated(docs) is None,
        latest_updated(docs) matches Some(b) ==> 0 <= b < docs.len(),
    decreases docs.len(),
{
    if docs.len() > 0 {
        lemma_latest_updated_range(docs.drop_last());
    }
}

/// The OpenSpec documents of a project in key order.
pub open spec fn open_spec_in_order(d: crate::project::DocumentModel) -> Seq<OpenSpecDocument> {
    key_order(d.open_spec_documents).map_values(|k: Seq<char>| d.open_spec_documents[k])
}

/// What reviewing the OpenSpec documents reports.
pub open spec fn open_spec_review_message(count: nat, latest: Option<OpenSpecDocument>) -> Seq<char> {
    match latest {
        Some(doc) => decimal(count) + " document(s) OpenSpec lisible(s) | dernier: "@ + doc.title@,
        None => "aucun document OpenSpec enregistre dans ce projet"@,
    }
}

pub open spec fn latest_open_spec(d: crate::project::DocumentModel) -> Option<OpenSpecDocument> {
    match latest_updated(open_spec_in_order(d)) {
        Some(b) => Some(open_spec_in_order(d)[b]),
        None => None,
    }
}

/// The number of OpenSpec documents, and the id and title of the most
/// recently updated one.
pub fn review_open_spec(document: &ProjectDocument) -> (r: (usize, Option<String>, Option<String>))
    ensures
        r.0 == document@.open_spec_documents.dom().len(),
        opt_view(r.1) == (match latest_open_spec(document@) {
            Some(doc) => Some(doc.id@),
            None => None,
        }),
        opt_view(r.2) == (match latest_open_spec(document@) {
            Some(doc) => Some(doc.title@),
            None => None,
        }),
{
    let map = &document.open_spec_documents;
    let keys = map.sorted_keys();
    let ghost docs = open_spec_in_order(document@);
    let n = keys.len();
    let mut best: Option<&OpenSpecDocument> = None;
    let ghost mut best_idx: Option<int> = None;
    let mut i: usize = 0;
    while i < n
        invariant
            n == keys@.len(),
            key_views(keys@) == key_order(map@),
            lists_in_order(key_order(map@), map@.dom()),
            map@ == document@.open_spec_documents,
            docs == key_order(map@).map_values(|k: Seq<char>| map@[k]),
            i <= n,
            best_idx == latest_updated(docs.take(i as int)),
            best_idx matches Some(b) ==> 0 <= b < i && (best matches Some(bd) && *bd == docs[b]),
            best_idx is None ==> best is None,
        decreases n - i,
    {
        assert(key_views(keys@)[i as int] == keys@[i as int]@);
        assert(key_order(map@).contains(keys@[i as int]@));
        let o = match map.get(keys[i].as_str()) {
            Some(o) => o,
            None => {
                assert(false);
                return (0, None, None);
            },
        };
        assert(*o == docs[i as int]);
        let ghost prev = docs.take(i as int);
        assert(docs.take(i + 1).drop_last() =~= prev);
        assert(docs.take(i + 1).last() == docs[i as int]);
        let replace = match best {
            None => true,
            Some(b) => !str_lt(o.updated_at.as_str(), b.updated_at.as_str()),
        };
        if replace {
            best = Some(o);
            proof {
                best_idx = Some(i as int);
            }
        }
        proof {
            if let Some(b) = best_idx {
                assert(docs.take(i + 1)[b] == docs[b]);
            }
        }
        i = i + 1;
    }
    assert(docs.take(n as int) =~= docs);
    proof {
        lemma_latest_updated_range(docs);
    }
    let count = map.len();
    assert(docs.len() == key_order(map@).len());
    proof {
        crate::keyed::lemma_key_order_len(map@);
    }
    match best {
        Some(doc) => (count, Some(doc.id.clone()), Some(doc.title.clone())),
        None => (count, None, None),
    }
}

/// The plugin command's effect: a fresh install is enabled, an installed
/// runtime plugin is toggled; nothing else changes but the logs.
pub open spec fn plugin_managed(pre: WorkspaceSession, post: WorkspaceSession, r: CommandResult) -> bool {
    let d0 = pre.graph@.document;
    let d1 = post.graph@.document;
    let installed = d0.plugin_manifests.dom().contains(runtime_plugin_id());
    let was_enabled = plugin_enabled(d0.plugin_states, runtime_plugin_id());
    &&& result_view(r) == ("plugin.manage"@, "applied"@, plugin_manage_message(installed, was_enabled))
    &&& d1.plugin_manifests.dom() == d0.plugin_manifests.dom().insert(runtime_plugin_id())
    &&& installed ==> d1.plugin_manifests == d0.plugin_manifests
    &&& d1.plugin_states == d0.plugin_states.insert(runtime_plugin_id(), !installed || !was_enabled)
    &&& d1.nodes == d0.nodes
    &&& d1.endpoints == d0.endpoints
    &&& d1.streams == d0.streams
    &&& d1.commands.len() == d0.commands.len() + (if installed { 1int } else { 2int })
    &&& log_numbers_below(post.graph@)
    &&& post.system_activity == pre.system_activity
    &&& post.system_counter == pre.system_counter
    &&& post.fixture_id == pre.fixture_id
}

/// The endpoint command's effect: the next sample endpoint and its stream
/// are registered; a taken endpoint id changes nothing, a taken stream id
/// keeps the endpoint.
pub open spec fn endpoint_added(pre: WorkspaceSession, post: WorkspaceSession, r: Result<CommandResult, CoreError>) -> bool {
    let d0 = pre.graph@.document;
    let d1 = post.graph@.document;
    let index = d0.endpoints.len() + 1;
    let id = sample_endpoint_id(index);
    let sid = sample_stream_id(index);
    &&& d0.endpoints.dom().contains(id) ==> (r matches Err(CoreError::EndpointAlreadyExists(x)) && x@ == id && post.graph@
        == pre.graph@)
    &&& !d0.endpoints.dom().contains(id) && d0.streams.dom().contains(sid) ==> (r matches Err(
        CoreError::StreamAlreadyExists(x),
    ) && x@ == sid && d1.endpoints.dom() == d0.endpoints.dom().insert(id) && d1.streams == d0.streams)
    &&& !d0.endpoints.dom().contains(id) && !d0.streams.dom().contains(sid) ==> (r matches Ok(res) && result_view(res) == (
        "entity.create.external_endpoint"@,
        "applied"@,
        "endpoint externe, binding et flux telemetrie ajoutes"@,
    ) && d1.endpoints.dom() == d0.endpoints.dom().insert(id) && d1.streams.dom() == d0.streams.dom().insert(sid)
        && renumbered_from_stub(d1.endpoints[id], index) && sample_stream(d1.endpoints[id], d1.streams[sid], index))
    &&& d1.nodes == d0.nodes
    &&& d1.plugin_manifests == d0.plugin_manifests
    &&& d1.plugin_states == d0.plugin_states
    &&& log_numbers_below(post.graph@)
    &&& post.system_activity == pre.system_activity
    &&& post.system_counter == pre.system_counter
    &&& post.fixture_id == pre.fixture_id
}

/// `post` is `pre` with one more journal entry of `kind` for `target`.
pub open spec fn journaled(pre: WorkspaceSession, post: WorkspaceSession, kind: Seq<char>, target: Option<Seq<char>>) -> bool {
    &&& post.graph == pre.graph
    &&& post.fixture_id == pre.fixture_id
    &&& post.system_counter == pre.system_counter + 1
    &&& journal_view(post.system_activity@) == journal_view(pre.system_activity@).push(
        system_entry(pre.system_counter as nat, kind, target),
    )
}

/// The session can run any shell command: its log numbering is sound and
/// its counters have room for the commands a shell command records.
pub open spec fn session_ready(s: WorkspaceSession) -> bool {
    &&& log_numbers_below(s.graph@)
    &&& s.graph@.command_counter + 2 < usize::MAX
    &&& s.graph@.event_counter + 2 < usize::MAX
    &&& s.graph@.revision_counter + 2 < usize::MAX
    &&& s.graph@.document.endpoints.len() < usize::MAX
    &&& s.graph@.document.plugin_manifests.len() < usize::MAX
    &&& s.system_counter < usize::MAX
}

/// What the session did with a command: carried it out, refused it with
/// the graph's error, or handed it back because it needs the disk or
/// floating-point geometry, simulation or metrics, or the robot cell's
/// safety setup read from its JSON; the caller does that work and
/// completes the command with `record_saved`, `complete_entity_creation`
/// or `complete_safety_analysis`.
#[derive(Debug)]
pub enum SessionStep {
    Done(CommandResult),
    Refused(CoreError),
    Delegated(ShellCommand),
}

/// Commands the session carries out itself.
pub open spec fn handled_here(c: ShellCommand) -> bool {
    ||| c == ShellCommand::ProjectCreate
    ||| c == ShellCommand::HelpOpenSpec
    ||| c == ShellCommand::Simulated
    ||| c == ShellCommand::PluginManage
    ||| c == ShellCommand::CreateExternalEndpoint
    ||| c == ShellCommand::TestRunFixture
    ||| c == ShellCommand::AnalyzeValidationReport
}

pub open spec fn latest_open_spec_id(d: crate::project::DocumentModel) -> Option<Seq<char>> {
    match latest_open_spec(d) {
        Some(doc) => Some(doc.id@),
        None => None,
    }
}

/// The name of the project a new session starts with.
pub open spec fn default_session_name() -> Seq<char> {
    "FutureAero Session"@
}

impl WorkspaceSession {
    /// Runs the shell command `command_id`. A new project replaces the
    /// session; the plugin and endpoint commands change the graph; reviewing
    /// OpenSpec documents, replaying the test fixture, the validation report
    /// and unknown ids add a journal entry; the other commands are handed
    /// back untouched.
    pub fn execute_command(&mut self, command_id: &str) -> (r: SessionStep)
        requires
            session_ready(*old(self)),
        ensures
            log_numbers_below(final(self).graph@),
            shell_command_of(command_id@) == ShellCommand::PluginManage ==> (r matches SessionStep::Done(res)
                && plugin_managed(*old(self), *final(self), res)),
            shell_command_of(command_id@) == ShellCommand::CreateExternalEndpoint ==> {
                &&& r !is Delegated
                &&& r matches SessionStep::Done(res) ==> endpoint_added(*old(self), *final(self), Ok(res))
                &&& r matches SessionStep::Refused(e) ==> endpoint_added(*old(self), *final(self), Err(e))
            },
            shell_command_of(command_id@) == ShellCommand::TestRunFixture ==> (r matches SessionStep::Done(res) && result_view(
                res,
            ) == (command_id@, "simulated"@, "fixture de test rejouee"@) && journaled(
                *old(self),
                *final(self),
                "test.fixture.executed"@,
                Some(old(self).fixture_id@),
            )),
            shell_command_of(command_id@) == ShellCommand::AnalyzeValidationReport ==> (r matches SessionStep::Done(res)
                && result_view(res) == (command_id@, "simulated"@, "rapport de validation genere"@) && journaled(
                *old(self),
                *final(self),
                "analysis.validation.generated"@,
                Some(old(self).fixture_id@),
            )),
            journal_numbered(*old(self)) ==> journal_numbered(*final(self)),
            !handled_here(shell_command_of(command_id@)) ==> r == SessionStep::Delegated(shell_command_of(command_id@))
                && *final(self) == *old(self),
            shell_command_of(command_id@) == ShellCommand::ProjectCreate ==> {
                &&& r matches SessionStep::Done(res) && result_view(res) == (
                    command_id@,
                    "applied"@,
                    "nouveau projet de session cree"@,
                )
                &&& final(self).fixture_id@ == untitled_session_id()
                &&& scaffolded(final(self).graph@.document.metadata, default_session_name())
                &&& final(self).graph@.document.nodes.is_empty()
                &&& final(self).graph@.document.commands.len() == 0
                &&& final(self).graph@.document.events.len() == 0
                &&& final(self).system_counter == 2
                &&& journal_view(final(self).system_activity@) == seq![
                    system_entry(1, "workspace.created"@, Some(default_session_name())),
                ]
            },
            shell_command_of(command_id@) == ShellCommand::HelpOpenSpec ==> {
                &&& r matches SessionStep::Done(res) && result_view(res) == (
                    command_id@,
                    "applied"@,
                    open_spec_review_message(
                        old(self).graph@.document.open_spec_documents.dom().len(),
                        latest_open_spec(old(self).graph@.document),
                    ),
                )
                &&& final(self).graph == old(self).graph
                &&& final(self).fixture_id == old(self).fixture_id
                &&& final(self).system_counter == old(self).system_counter + 1
                &&& journal_view(final(self).system_activity@) == journal_view(old(self).system_activity@).push(
                    system_entry(
                        old(self).system_counter as nat,
                        "help.openspec.reviewed"@,
                        latest_open_spec_id(old(self).graph@.document),
                    ),
                )
            },
            shell_command_of(command_id@) == ShellCommand::Simulated ==> {
                &&& r matches SessionStep::Done(res) && result_view(res) == (
                    command_id@,
                    "simulated"@,
                    "commande simulee dans le shell desktop"@,
                )
                &&& final(self).graph == old(self).graph
                &&& final(self).fixture_id == old(self).fixture_id
                &&& final(self).system_counter == old(self).system_counter + 1
                &&& journal_view(final(self).system_activity@) == journal_view(old(self).system_activity@).push(
                    system_entry(old(self).system_counter as nat, "command.simulated"@, Some(command_id@)),
                )
            },
    {
        let command = parse_shell_command(command_id);
        match command {
            ShellCommand::ProjectCreate => {
                *self = WorkspaceSession::empty(String::from_str("FutureAero Session"));
                SessionStep::Done(
                    CommandResult {
                        command_id: String::from_str(command_id),
                        status: String::from_str("applied"),
                        message: String::from_str("nouveau projet de session cree"),
                    },
                )
            },
            ShellCommand::HelpOpenSpec => {
                let (count, latest_id, latest_title) = review_open_spec(self.graph.document());
                self.push_system_activity("help.openspec.reviewed", latest_id);
                let message = match latest_title {
                    Some(title) => {
                        let mut m = decimal_string(count as u64);
                        m.append(" document(s) OpenSpec lisible(s) | dernier: ");
                        m.append(title.as_str());
                        m
                    },
                    None => String::from_str("aucun document OpenSpec enregistre dans ce projet"),
                };
                SessionStep::Done(
                    CommandResult { command_id: String::from_str(command_id), status: String::from_str("applied"), message },
                )
            },
            ShellCommand::Simulated => {
                self.push_system_activity("command.simulated", Some(String::from_str(command_id)));
                SessionStep::Done(
                    CommandResult {
                        command_id: String::from_str(command_id),
                        status: String::from_str("simulated"),
                        message: String::from_str("commande simulee dans le shell desktop"),
                    },
                )
            },
            ShellCommand::PluginManage => SessionStep::Done(self.manage_runtime_plugin()),
            ShellCommand::CreateExternalEndpoint => match self.add_sample_endpoint() {
                Ok(res) => SessionStep::Done(res),
                Err(e) => SessionStep::Refused(e),
            },
            ShellCommand::TestRunFixture => {
                let target = self.fixture_id.clone();
                self.push_system_activity("test.fixture.executed", Some(target));
                SessionStep::Done(
                    CommandResult {
                        command_id: String::from_str(command_id),
                        status: String::from_str("simulated"),
                        message: String::from_str("fixture de test rejouee"),
                    },
                )
            },
            ShellCommand::AnalyzeValidationReport => {
                let target = self.fixture_id.clone();
                self.push_system_activity("analysis.validation.generated", Some(target));
                SessionStep::Done(
                    CommandResult {
                        command_id: String::from_str(command_id),
                        status: String::from_str("simulated"),
                        message: String::from_str("rapport de validation genere"),
                    },
                )
            },
            other => SessionStep::Delegated(other),
        }
    }
}

/// A planned signal write as plain values.
pub open spec fn change_view(c: ScheduledSignalChange) -> (u32, Seq<char>, SignalValue, Seq<char>) {
    (c.step_index, c.signal_id@, c.value, c.reason@)
}

/// The signal writes of a run: the cycle starts at step 1, the progress
/// gate reaches `0.62` at step 3 and, unless safety inhibits the move,
/// `1.0` at step 7.
pub open spec fn run_signal_changes(inhibited: bool) -> Seq<(u32, Seq<char>, SignalValue, Seq<char>)> {
    let base = seq![
        (1u32, "sig_cycle_start"@, SignalValue::Bool(true), "simulation.run.start"@),
        (3u32, "sig_progress_gate"@, SignalValue::Scalar(0x3FE3D70A3D70A3D7u64), "robot.transfer.reached"@),
    ];
    if inhibited {
        base
    } else {
        base.push((7u32, "sig_progress_gate"@, SignalValue::Scalar(0x3FF0000000000000u64), "robot.place.completed"@))
    }
}

/// The steps of a run: four per target, and at least three targets.
pub open spec fn run_step_count(target_count: usize) -> int {
    (if target_count > 3 { target_count } else { 3usize }) as u32 * 4
}

fn signal_change(step_index: u32, signal_id: &str, value: SignalValue, reason: &str) -> (c: ScheduledSignalChange)
    ensures
        change_view(c) == (step_index, signal_id@, value, reason@),
{
    ScheduledSignalChange {
        step_index,
        signal_id: String::from_str(signal_id),
        value,
        reason: String::from_str(reason),
    }
}

/// The simulation request of a robot cell run: the scenario is named after
/// the cell, seeded from its target and endpoint counts, and plays the
/// cell's controller with the signal writes that safety allows for a
/// `robot.move`.
pub fn simulation_run_request(
    cell_id: &str,
    cell_name: &str,
    summary: &RobotCellEntitySummary,
    control_model: RobotCellControlModel,
    zones: &[SafetyZone],
    interlocks: &[SafetyInterlock],
    endpoint_count: usize,
) -> (r: SimulationRequest)
    requires
        summary.target_count * 97 + endpoint_count * 17 <= u64::MAX,
        run_step_count(summary.target_count) <= u32::MAX,
    ensures
        r.scenario_name@ == cell_name@,
        r.seed == summary.target_count * 97 + endpoint_count * 17,
        r.engine_version@ == "faero-sim@0.2.0"@,
        r.step_count == run_step_count(summary.target_count),
        r.planned_cycle_time_ms == summary.estimated_cycle_time_ms,
        r.path_length_mm == summary.path_length_mm,
        r.endpoint_count == endpoint_count as u32,
        r.safety_zone_count == summary.safety_zone_count as u32,
        r.signals == control_model.signals,
        r.controller == Some(control_model.controller),
        r.scheduled_signal_changes@.map_values(|c: ScheduledSignalChange| change_view(c)) == run_signal_changes(
            cause_ids(zones@, interlocks@, "robot.move"@).len() > 0,
        ),
        cell_contact_pairs(cell_id@, r.contact_pairs@),
{
    let evaluation = evaluate_safety(zones, interlocks, "robot.move");
    let mut changes: Vec<ScheduledSignalChange> = Vec::new();
    changes.push(signal_change(1, "sig_cycle_start", SignalValue::Bool(true), "simulation.run.start"));
    changes.push(signal_change(3, "sig_progress_gate", SignalValue::Scalar(0x3FE3D70A3D70A3D7u64), "robot.transfer.reached"));
    if !evaluation.inhibited {
        changes.push(signal_change(7, "sig_progress_gate", SignalValue::Scalar(0x3FF0000000000000u64), "robot.place.completed"));
    }
    assert(changes@.map_values(|c: ScheduledSignalChange| change_view(c)) =~= run_signal_changes(
        cause_ids(zones@, interlocks@, "robot.move"@).len() > 0,
    ));
    let targets = if summary.target_count > 3 { summary.target_count } else { 3 };
    let RobotCellControlModel { cell_id: _, signals, controller } = control_model;
    SimulationRequest {
        scenario_name: String::from_str(cell_name),
        seed: (summary.target_count as u64) * 97 + (endpoint_count as u64) * 17,
        engine_version: String::from_str("faero-sim@0.2.0"),
        step_count: (targets as u32) * 4,
        planned_cycle_time_ms: summary.estimated_cycle_time_ms,
        path_length_mm: summary.path_length_mm,
        endpoint_count: endpoint_count as u32,
        safety_zone_count: summary.safety_zone_count as u32,
        signals,
        controller: Some(controller),
        scheduled_signal_changes: changes,
        contact_pairs: robot_cell_contact_pairs(cell_id),
    }
}

/// The id of the suggestion recorded when the project has `count` entities.
pub open spec fn ai_suggestion_id(count: nat) -> Seq<char> {
    "ent_ai_suggestion_"@ + zero_pad(decimal(count + 1), 3)
}

/// The id of the first session entity when the project has `count` entities.
pub open spec fn ai_session_entity_id(count: nat) -> Seq<char> {
    "ent_ai_session_"@ + zero_pad(decimal(count + 2), 3)
}

/// What recording reads of the latest AI session entity: its id, and its
/// `sessionId` and suggestion id arrays (each entry kept where it is a
/// string).
pub struct AiSessionFacts {
    pub entity_id: String,
    pub session_id: Option<String>,
    pub created_suggestion_ids: Option<Vec<Option<String>>>,
    pub accepted_suggestion_ids: Option<Vec<Option<String>>>,
}

/// How an answer is journaled: the suggestion entity to create, the
/// session entity to create or replace, and the session log's fields.
#[derive(Debug, Clone, PartialEq, Eq)]
pub struct AiRecordPlan {
    pub suggestion_id: String,
    pub session_entity_id: String,
    pub replace_session: bool,
    pub session_id: String,
    pub created_suggestion_ids: Vec<String>,
    pub accepted_suggestion_ids: Vec<String>,
    pub model_info: String,
    pub critic_model_info: String,
    pub critique_pass_count: usize,
    pub risk_level: String,
}

pub open spec fn risk_label(r: AiRiskLevel) -> Seq<char> {
    match r {
        AiRiskLevel::Low => "low"@,
        AiRiskLevel::Medium => "medium"@,
        AiRiskLevel::High => "high"@,
    }
}

pub open spec fn texts_or_empty(v: Option<Vec<Option<String>>>) -> Seq<Seq<char>> {
    match v {
        Some(items) => some_texts(items@),
        None => Seq::empty(),
    }
}

/// The plan for `count` entities, the session facts if a session exists,
/// the runtime and the explanation's pass count and risk.
pub open spec fn record_plan_spec(
    count: nat,
    session: Option<AiSessionFacts>,
    runtime: AiRuntimeStatus,
    pass_count: nat,
    risk: AiRiskLevel,
) -> (Seq<char>, Seq<char>, Seq<char>, Seq<Seq<char>>, Seq<Seq<char>>, Seq<char>, Seq<char>, nat, Seq<char>) {
    (
        ai_suggestion_id(count),
        match session {
            Some(f) => f.entity_id@,
            None => ai_session_entity_id(count),
        },
        match session {
            Some(f) => match f.session_id {
                Some(id) => id@,
                None => "ai_session_001"@,
            },
            None => "ai_session_001"@,
        },
        match session {
            Some(f) => texts_or_empty(f.created_suggestion_ids),
            None => Seq::empty(),
        }.push(ai_suggestion_id(count)),
        match session {
            Some(f) => texts_or_empty(f.accepted_suggestion_ids),
            None => Seq::empty(),
        },
        runtime.provider@ + ":"@ + match runtime.active_model {
            Some(m) => m@,
            None => runtime.mode@,
        },
        runtime.provider@ + ":"@ + runtime.active_profile@ + ":critic"@,
        pass_count,
        risk_label(risk),
    )
}

pub open spec fn record_plan_view(p: AiRecordPlan) -> (Seq<char>, Seq<char>, Seq<char>, Seq<Seq<char>>, Seq<Seq<char>>, Seq<char>, Seq<char>, nat, Seq<char>) {
    (
        p.suggestion_id@,
        p.session_entity_id@,
        p.session_id@,
        crate::keyed::key_views(p.created_suggestion_ids@),
        crate::keyed::key_views(p.accepted_suggestion_ids@),
        p.model_info@,
        p.critic_model_info@,
        p.critique_pass_count as nat,
        p.risk_level@,
    )
}

fn present_texts(v: &Option<Vec<Option<String>>>) -> (r: Vec<String>)
    ensures
        crate::keyed::key_views(r@) == texts_or_empty(*v),
{
    match v {
        Some(items) => cause_texts(items),
        None => {
            let r: Vec<String> = Vec::new();
            assert(crate::keyed::key_views(r@) =~= Seq::<Seq<char>>::empty());
            r
        },
    }
}

/// The plan for the given facts; an answer without an explanation cannot
/// be recorded.
pub fn record_plan(
    document: &ProjectDocument,
    session: Option<AiSessionFacts>,
    response: &AiChatResponse,
) -> (r: Result<AiRecordPlan, String>)
    requires
        document@.nodes.len() + 2 <= u64::MAX,
    ensures
        response.structured is None ==> (r matches Err(e) && e@ == "structured AI response missing"@),
        response.structured matches Some(x) ==> (r matches Ok(p) && record_plan_view(p) == record_plan_spec(
            document@.nodes.len(),
            session,
            response.runtime,
            x.critique_passes@.len(),
            x.risk_level,
        ) && p.replace_session == document@.nodes.dom().contains(p.session_entity_id@)),
{
    let count = document.nodes.len();
    let mut suggestion_id = String::from_str("ent_ai_suggestion_");
    suggestion_id.append(padded_decimal(count as u64 + 1, 3).as_str());
    let structured = match &response.structured {
        Some(x) => x,
        None => return Err(String::from_str("structured AI response missing")),
    };
    let (session_entity_id, session_id, mut created, accepted) = match &session {
        Some(f) => (
            f.entity_id.clone(),
            match &f.session_id {
                Some(id) => id.clone(),
                None => String::from_str("ai_session_001"),
            },
            present_texts(&f.created_suggestion_ids),
            present_texts(&f.accepted_suggestion_ids),
        ),
        None => {
            let mut id = String::from_str("ent_ai_session_");
            id.append(padded_decimal(count as u64 + 2, 3).as_str());
            let none: Vec<String> = Vec::new();
            assert(crate::keyed::key_views(none@) =~= Seq::<Seq<char>>::empty());
            (id, String::from_str("ai_session_001"), Vec::new(), none)
        },
    };
    let ghost before = created@;
    created.push(suggestion_id.clone());
    assert(crate::keyed::key_views(created@) =~= crate::keyed::key_views(before).push(suggestion_id@));
    let runtime = &response.runtime;
    let mut model_info = runtime.provider.clone();
    model_info.append(":");
    match &runtime.active_model {
        Some(m) => model_info.append(m.as_str()),
        None => model_info.append(runtime.mode.as_str()),
    }
    let mut critic = runtime.provider.clone();
    critic.append(":");
    critic.append(runtime.active_profile.as_str());
    critic.append(":critic");
    let risk = match structured.risk_level {
        AiRiskLevel::Low => String::from_str("low"),
        AiRiskLevel::Medium => String::from_str("medium"),
        AiRiskLevel::High => String::from_str("high"),
    };
    let replace_session = document.nodes.get(session_entity_id.as_str()).is_some();
    let plan = AiRecordPlan {
        suggestion_id,
        session_entity_id,
        replace_session,
        session_id,
        created_suggestion_ids: created,
        accepted_suggestion_ids: accepted,
        model_info,
        critic_model_info: critic,
        critique_pass_count: structured.critique_passes.len(),
        risk_level: risk,
    };
    Ok(plan)
}

/// The facts of an AI session entity read from its data: its `sessionId`
/// and its `createdSuggestionIds` and `acceptedSuggestionIds` arrays.
pub open spec fn ai_session_facts_of(f: AiSessionFacts, e: EntityRecord) -> bool {
    &&& f.entity_id@ == e.id@
    &&& opt_view(f.session_id) == json_text(data_field(e.data, "sessionId"@))
    &&& opt_texts_view(f.created_suggestion_ids) == match json_items(data_field(e.data, "createdSuggestionIds"@)) {
        Some(items) => Some(item_texts(items)),
        None => None,
    }
    &&& opt_texts_view(f.accepted_suggestion_ids) == match json_items(data_field(e.data, "acceptedSuggestionIds"@)) {
        Some(items) => Some(item_texts(items)),
        None => None,
    }
}

/// What recording an answer reads of the latest AI session entity, if any.
pub fn latest_ai_session(document: &ProjectDocument) -> (r: Option<AiSessionFacts>)
    ensures
        match latest_of_type(nodes_in_order(document@), "AiSession"@) {
            Some(b) => r matches Some(f) && ai_session_facts_of(f, nodes_in_order(document@)[b]),
            None => r is None,
        },
{
    match latest_entity_by_type(document, "AiSession") {
        Some(e) => Some(
            AiSessionFacts {
                entity_id: e.id.clone(),
                session_id: text_of(&e.data.field("sessionId")),
                created_suggestion_ids: texts_of_items(&e.data.field("createdSuggestionIds")),
                accepted_suggestion_ids: texts_of_items(&e.data.field("acceptedSuggestionIds")),
            },
        ),
        None => None,
    }
}

/// The name an entity takes from a properties edit: the requested name
/// trimmed when it is not blank, else the current one; a blank result is
/// refused.
pub open spec fn edited_name(requested: Option<Seq<char>>, current: Seq<char>) -> Result<Seq<char>, Seq<char>> {
    let name = match requested {
        Some(n) => if trim_spec(n).len() > 0 {
            trim_spec(n)
        } else {
            current
        },
        None => current,
    };
    if trim_spec(name).len() == 0 {
        Err("le nom ne peut pas etre vide"@)
    } else {
        Ok(name)
    }
}

pub fn edit_entity_name(requested: Option<&str>, current: &str) -> (r: Result<String, String>)
    ensures
        match edited_name(crate::workspace::opt_text(requested), current@) {
            Ok(n) => r matches Ok(s) && s@ == n,
            Err(e) => r matches Err(s) && s@ == e,
        },
{
    let name = match requested {
        Some(n) => {
            let t = trim(n);
            if t.as_str().unicode_len() > 0 {
                t
            } else {
                String::from_str(current)
            }
        },
        None => String::from_str(current),
    };
    if is_blank(name.as_str()) {
        Err(String::from_str("le nom ne peut pas etre vide"))
    } else {
        Ok(name)
    }
}

/// The trimmed, non-blank texts among the entries.
pub open spec fn kept_tags(items: Seq<Option<String>>) -> Seq<Seq<char>>
    decreases items.len(),
{
    if items.len() == 0 {
        Seq::empty()
    } else {
        kept_tags(items.drop_last()) + match items.last() {
            Some(t) => if trim_spec(t@).len() > 0 {
                seq![trim_spec(t@)]
            } else {
                Seq::empty()
            },
            None => Seq::empty(),
        }
    }
}

/// The tags an entity takes from a properties edit. `requested` is `None`
/// when the edit has no `tags` field, `Some(None)` when that field is not
/// an array, and otherwise its entries, each kept where it is a string.
/// Without the field the current string tags stay as they are.
pub open spec fn edited_tags(
    requested: Option<Option<Vec<Option<String>>>>,
    current: Seq<Option<String>>,
) -> Result<Seq<Seq<char>>, Seq<char>> {
    match requested {
        None => Ok(crate::explain::some_texts(current)),
        Some(None) => Err("tags doit rester un tableau"@),
        Some(Some(items)) => Ok(kept_tags(items@)),
    }
}

fn keep_tags(items: &Vec<Option<String>>) -> (r: Vec<String>)
    ensures
        crate::keyed::key_views(r@) == kept_tags(items@),
{
    let mut r: Vec<String> = Vec::new();
    let n = items.len();
    let mut i: usize = 0;
    while i < n
        invariant
            n == items@.len(),
            i <= n,
            crate::keyed::key_views(r@) == kept_tags(items@.take(i as int)),
        decreases n - i,
    {
        assert(items@.take(i + 1).drop_last() =~= items@.take(i as int));
        let ghost before = r@;
        match &items[i] {
            Some(t) => {
                let tt = trim(t.as_str());
                if tt.as_str().unicode_len() > 0 {
                    r.push(tt);
                    assert(crate::keyed::key_views(r@) =~= crate::keyed::key_views(before).push(tt@));
                }
            },
            None => {},
        }
        assert(crate::keyed::key_views(r@) =~= kept_tags(items@.take(i + 1)));
        i = i + 1;
    }
    assert(items@.take(n as int) =~= items@);
    r
}

pub fn edit_entity_tags(
    requested: Option<Option<Vec<Option<String>>>>,
    current: Vec<Option<String>>,
) -> (r: Result<Vec<String>, String>)
    ensures
        match edited_tags(requested, current@) {
            Ok(t) => r matches Ok(v) && crate::keyed::key_views(v@) == t,
            Err(e) => r matches Err(s) && s@ == e,
        },
{
    match requested {
        None => Ok(cause_texts(&current)),
        Some(None) => Err(String::from_str("tags doit rester un tableau")),
        Some(Some(items)) => Ok(keep_tags(&items)),
    }
}

/// The plugin the shell's plugin command installs and toggles.
pub open spec fn runtime_plugin_id() -> Seq<char> {
    "plg.desktop.runtime"@
}

/// What the plugin command reports: a fresh install is enabled, an
/// installed plugin is toggled.
pub open spec fn plugin_manage_message(installed: bool, was_enabled: bool) -> Seq<char> {
    if !installed {
        "plugin runtime installe et active"@
    } else if was_enabled {
        "plugin runtime desactive"@
    } else {
        "plugin runtime active"@
    }
}

impl WorkspaceSession {
    /// The shell's plugin command: installs and enables the desktop runtime
    /// plugin, or toggles it once installed.
    pub fn manage_runtime_plugin(&mut self) -> (r: CommandResult)
        requires
            log_numbers_below(old(self).graph@),
            old(self).graph@.command_counter + 2 < usize::MAX,
            old(self).graph@.event_counter + 2 < usize::MAX,
            old(self).graph@.revision_counter + 2 < usize::MAX,
            old(self).graph@.document.plugin_manifests.len() < usize::MAX,
        ensures
            plugin_managed(*old(self), *final(self), r),
    {
        let ghost d0 = self.graph@.document;
        let installed = self.graph.document().plugin_manifests.get("plg.desktop.runtime").is_some();
        if !installed {
            let manifest = sample_plugin_manifest(self.graph.plugin_count() + 1, "plg.desktop.runtime");
            proof {
                let ps = manifest.permissions@;
                assert(crate::workspace::texts(ps).len() == 2);
                assert(crate::workspace::texts(ps)[0] == ps[0]@);
                assert(crate::workspace::texts(ps)[1] == ps[1]@);
                assert(crate::plugin_host::manifest_valid(manifest));
            }
            let checked = validate_manifest(&manifest);
            assert(checked is Ok);
            let _ = self.graph.apply_command(CoreCommand::InstallPlugin(manifest));
            let _ = self.graph.apply_command(
                CoreCommand::SetPluginEnabled { plugin_id: String::from_str("plg.desktop.runtime"), enabled: true },
            );
            assert(self.graph@.document.plugin_states =~= d0.plugin_states.insert(runtime_plugin_id(), true));
            CommandResult {
                command_id: String::from_str("plugin.manage"),
                status: String::from_str("applied"),
                message: String::from_str("plugin runtime installe et active"),
            }
        } else {
            let currently_enabled = match self.graph.plugin_state().get("plg.desktop.runtime") {
                Some(e) => *e,
                None => false,
            };
            let _ = self.graph.apply_command(
                CoreCommand::SetPluginEnabled { plugin_id: String::from_str("plg.desktop.runtime"), enabled: !currently_enabled },
            );
            assert(self.graph@.document.plugin_states =~= d0.plugin_states.insert(runtime_plugin_id(), !currently_enabled));
            assert(self.graph@.document.plugin_manifests.dom() =~= d0.plugin_manifests.dom().insert(runtime_plugin_id()));
            CommandResult {
                command_id: String::from_str("plugin.manage"),
                status: String::from_str("applied"),
                message: if currently_enabled {
                    String::from_str("plugin runtime desactive")
                } else {
                    String::from_str("plugin runtime active")
                },
            }
        }
    }
}

/// The stub endpoint a sample of kind `k` starts from.
pub open spec fn sample_stub(k: int, e: ExternalEndpoint) -> bool {
    if k == 0 {
        local_stub(e, "ext_ros2_001"@, "ROS2 Bridge"@, EndpointType::Ros2, "ros2"@)
    } else if k == 1 {
        local_stub(e, "ext_opcua_001"@, "OPCUA Cellule"@, EndpointType::Opcua, "opcua"@)
    } else if k == 2 {
        local_stub(e, "ext_plc_001"@, "PLC Mock"@, EndpointType::Plc, "plc"@)
    } else if k == 3 {
        local_stub(e, "ext_robot_001"@, "Robot Controller Mock"@, EndpointType::RobotController, "robot_controller"@)
    } else if k == 4 {
        wifi_stub(e)
    } else {
        bluetooth_stub(e)
    }
}

/// The short name of an endpoint type in sample ids.
pub open spec fn sample_prefix(t: EndpointType) -> Seq<char> {
    match t {
        EndpointType::Ros2 => "ros2"@,
        EndpointType::Opcua => "opcua"@,
        EndpointType::Plc => "plc"@,
        EndpointType::RobotController => "robot"@,
        EndpointType::WifiDevice => "wifi"@,
        _ => "ble"@,
    }
}

/// The stream type a sample stream of an endpoint type carries.
pub open spec fn sample_stream_type(t: EndpointType) -> Seq<char> {
    match t {
        EndpointType::Ros2 => "ros2_topic"@,
        EndpointType::Opcua => "opcua_subscription"@,
        EndpointType::Plc => "plc_tag"@,
        EndpointType::RobotController => "robot_status"@,
        EndpointType::WifiDevice => "mqtt_topic"@,
        _ => "gatt_characteristic"@,
    }
}

/// `e` is the stub `base` renumbered as the `index`-th sample: id, name,
/// host, device and signal map follow the index; the rest is the stub's.
pub open spec fn renumbered(base: ExternalEndpoint, e: ExternalEndpoint, index: nat) -> bool {
    let p = sample_prefix(base.endpoint_type);
    let n = zero_pad(decimal(index), 3);
    &&& e.id@ == "ext_"@ + p + "_"@ + n
    &&& e.name@ == base.name@ + " "@ + n
    &&& e.endpoint_type == base.endpoint_type
    &&& e.transport_profile == base.transport_profile
    &&& e.connection_profile == base.connection_profile
    &&& opt_view(e.addressing.host) == (if base.addressing.host is Some {
        Some(p + "-"@ + n + ".local"@)
    } else {
        None
    })
    &&& e.addressing.port == base.addressing.port
    &&& e.addressing.path == base.addressing.path
    &&& opt_view(e.addressing.device_id) == (if base.addressing.device_id is Some {
        Some(p + "-device-"@ + n)
    } else {
        None
    })
    &&& crate::keyed::key_views(e.signal_map_ids@) == seq!["sig_"@ + p + "_"@ + n]
    &&& e.mode == base.mode
    &&& e.link_metrics == base.link_metrics
    &&& e.status == base.status
}

/// The sample stream of the `index`-th sample endpoint `e`.
pub open spec fn sample_stream(e: ExternalEndpoint, s: TelemetryStream, index: nat) -> bool {
    let p = sample_prefix(e.endpoint_type);
    let n = zero_pad(decimal(index), 3);
    &&& s.id@ == "str_"@ + p + "_"@ + n
    &&& s.name@ == "Telemetry-"@ + p + "-"@ + n
    &&& s.endpoint_id@ == e.id@
    &&& s.stream_type@ == sample_stream_type(e.endpoint_type)
    &&& s.direction == StreamDirection::Inbound
    &&& s.codec_profile matches JsonValue::Object(f) && field_entries(f).len() == 1 && field_entries(f)[0].0
        == "encoding"@ && json_text(Some(field_entries(f)[0].1)) == Some("json"@)
    &&& s.schema_ref@ == "schemas/telemetry/bumper-status.schema.json"@
    &&& s.timing_profile == (TimingProfile { expected_rate_hz: 20, max_latency_ms: 80 })
    &&& s.qos_profile.delivery@ == "at_least_once"@
    &&& s.qos_profile.ordering@ == "best_effort"@
    &&& s.status@ == "ready"@
}

fn sample_prefix_of(t: EndpointType) -> (p: &'static str)
    ensures
        p@ == sample_prefix(t),
{
    match t {
        EndpointType::Ros2 => "ros2",
        EndpointType::Opcua => "opcua",
        EndpointType::Plc => "plc",
        EndpointType::RobotController => "robot",
        EndpointType::WifiDevice => "wifi",
        _ => "ble",
    }
}

fn sample_stream_type_of(t: EndpointType) -> (p: &'static str)
    ensures
        p@ == sample_stream_type(t),
{
    match t {
        EndpointType::Ros2 => "ros2_topic",
        EndpointType::Opcua => "opcua_subscription",
        EndpointType::Plc => "plc_tag",
        EndpointType::RobotController => "robot_status",
        EndpointType::WifiDevice => "mqtt_topic",
        _ => "gatt_characteristic",
    }
}

/// The `index`-th sample endpoint and its telemetry stream: the stubs are
/// taken in turn (ROS2, OPC UA, PLC, robot controller, Wi-Fi, Bluetooth)
/// and renumbered; the stream's codec profile is `{"encoding": "json"}`.
pub fn sample_endpoint_with_stream(index: usize) -> (r: (ExternalEndpoint, TelemetryStream))
    requires
        index >= 1,
    ensures
        exists|base: ExternalEndpoint|
            #[trigger] sample_stub((index - 1) % 6, base) && renumbered(base, r.0, index as nat),
        sample_stream(r.0, r.1, index as nat),
{
    let kind = (index - 1) % 6;
    let base = if kind == 0 {
        stub_ros2_endpoint()
    } else if kind == 1 {
        stub_opcua_endpoint()
    } else if kind == 2 {
        stub_plc_endpoint()
    } else if kind == 3 {
        stub_robot_controller_endpoint()
    } else if kind == 4 {
        stub_wifi_endpoint()
    } else {
        stub_bluetooth_endpoint()
    };
    assert(sample_stub((index - 1) % 6, base));
    let ghost b = base;
    let p = sample_prefix_of(base.endpoint_type);
    let n = padded_decimal(index as u64, 3);
    let mut e = base;
    let mut id = String::from_str("ext_");
    id.append(p);
    id.append("_");
    id.append(n.as_str());
    e.id = id;
    let mut name = e.name.clone();
    name.append(" ");
    name.append(n.as_str());
    e.name = name;
    if e.addressing.host.is_some() {
        let mut host = String::from_str(p);
        host.append("-");
        host.append(n.as_str());
        host.append(".local");
        e.addressing.host = Some(host);
    }
    if e.addressing.device_id.is_some() {
        let mut device = String::from_str(p);
        device.append("-device-");
        device.append(n.as_str());
        e.addressing.device_id = Some(device);
    }
    let mut signal = String::from_str("sig_");
    signal.append(p);
    signal.append("_");
    signal.append(n.as_str());
    let mut signals: Vec<String> = Vec::new();
    signals.push(signal);
    e.signal_map_ids = signals;
    assert(crate::keyed::key_views(e.signal_map_ids@) =~= seq!["sig_"@ + sample_prefix(b.endpoint_type) + "_"@ + n@]);
    assert(renumbered(b, e, index as nat));
    let mut sid = String::from_str("str_");
    sid.append(p);
    sid.append("_");
    sid.append(n.as_str());
    let mut sname = String::from_str("Telemetry-");
    sname.append(p);
    sname.append("-");
    sname.append(n.as_str());
    let stream = TelemetryStream {
        id: sid,
        name: sname,
        endpoint_id: e.id.clone(),
        stream_type: String::from_str(sample_stream_type_of(e.endpoint_type)),
        direction: StreamDirection::Inbound,
        codec_profile: JsonValue::object1("encoding", JsonValue::Text(String::from_str("json"))),
        schema_ref: String::from_str("schemas/telemetry/bumper-status.schema.json"),
        timing_profile: TimingProfile { expected_rate_hz: 20, max_latency_ms: 80 },
        qos_profile: QosProfile { delivery: String::from_str("at_least_once"), ordering: String::from_str("best_effort") },
        status: String::from_str("ready"),
    };
    (e, stream)
}

/// The short name of the `k`-th stub in sample ids.
pub open spec fn kind_prefix(k: int) -> Seq<char> {
    if k == 0 {
        "ros2"@
    } else if k == 1 {
        "opcua"@
    } else if k == 2 {
        "plc"@
    } else if k == 3 {
        "robot"@
    } else if k == 4 {
        "wifi"@
    } else {
        "ble"@
    }
}

proof fn lemma_sample_prefix(k: int, base: ExternalEndpoint)
    requires
        0 <= k < 6,
        sample_stub(k, base),
    ensures
        sample_prefix(base.endpoint_type) == kind_prefix(k),
{
}

/// The id of the `index`-th sample endpoint.
pub open spec fn sample_endpoint_id(index: nat) -> Seq<char> {
    "ext_"@ + kind_prefix((index - 1) % 6) + "_"@ + zero_pad(decimal(index), 3)
}

/// The id of the `index`-th sample stream.
pub open spec fn sample_stream_id(index: nat) -> Seq<char> {
    "str_"@ + kind_prefix((index - 1) % 6) + "_"@ + zero_pad(decimal(index), 3)
}

impl WorkspaceSession {
    /// The shell's endpoint command: registers the next sample endpoint and
    /// its telemetry stream. A taken endpoint id leaves the project as it
    /// was; a taken stream id keeps the endpoint just registered.
    pub fn add_sample_endpoint(&mut self) -> (r: Result<CommandResult, CoreError>)
        requires
            log_numbers_below(old(self).graph@),
            old(self).graph@.command_counter + 2 < usize::MAX,
            old(self).graph@.event_counter + 2 < usize::MAX,
            old(self).graph@.revision_counter + 2 < usize::MAX,
            old(self).graph@.document.endpoints.len() < usize::MAX,
        ensures
            endpoint_added(*old(self), *final(self), r),
    {
        let index = self.graph.endpoint_count() + 1;
        let (endpoint, stream) = sample_endpoint_with_stream(index);
        let ghost d0 = self.graph@.document;
        let ghost e = endpoint;
        let ghost st = stream;
        let ghost base = choose|base: ExternalEndpoint|
            #[trigger] sample_stub((index - 1) % 6, base) && renumbered(base, e, index as nat);
        proof {
            lemma_sample_prefix((index - 1) % 6, base);
            assert(e.id@ == sample_endpoint_id(index as nat));
            assert(st.id@ == sample_stream_id(index as nat));
        }
        match self.graph.apply_command(CoreCommand::RegisterEndpoint(endpoint)) {
            Ok(_) => {},
            Err(error) => return Err(error),
        }
        assert(crate::project::same_endpoint(self.graph@.document.endpoints[e.id@], e));
        match self.graph.apply_command(CoreCommand::RegisterStream(stream)) {
            Ok(_) => {},
            Err(error) => return Err(error),
        }
        proof {
            let stored = self.graph@.document.endpoints[e.id@];
            assert(crate::keyed::key_views(stored.signal_map_ids@) == crate::keyed::key_views(e.signal_map_ids@));
            assert(renumbered(base, stored, index as nat));
            assert(sample_stub((index - 1) % 6, base));
        }
        Ok(
            CommandResult {
                command_id: String::from_str("entity.create.external_endpoint"),
                status: String::from_str("applied"),
                message: String::from_str("endpoint externe, binding et flux telemetrie ajoutes"),
            },
        )
    }
}

/// `e` is a stub renumbered as the `index`-th sample.
pub open spec fn renumbered_from_stub(e: ExternalEndpoint, index: nat) -> bool {
    exists|base: ExternalEndpoint| #[trigger] sample_stub((index - 1) % 6, base) && renumbered(base, e, index)
}

/// The journal kind and message of a command that wrote the project to
/// `path`.
pub open spec fn saved_record(command: ShellCommand, path: Seq<char>) -> (Seq<char>, Seq<char>, Seq<char>) {
    match command {
        ShellCommand::ProjectSaveAll => (
            "project.save_all"@,
            "project.saved_all"@,
            "toutes les donnees session enregistrees dans "@ + path,
        ),
        ShellCommand::ProjectExport => ("project.export"@, "project.exported"@, "export du projet cree dans "@ + path),
        _ => ("project.save"@, "project.saved"@, "session enregistree dans "@ + path),
    }
}

impl WorkspaceSession {
    /// Completes a save, save-all or export once the caller wrote the
    /// project to `path`: the journal records it and the answer names it.
    pub fn record_saved(&mut self, command: ShellCommand, path: &str) -> (r: CommandResult)
        requires
            old(self).system_counter < usize::MAX,
            command == ShellCommand::ProjectSave || command == ShellCommand::ProjectSaveAll || command
                == ShellCommand::ProjectExport,
        ensures
            ({
                let (id, kind, message) = saved_record(command, path@);
                &&& result_view(r) == (id, "applied"@, message)
                &&& journaled(*old(self), *final(self), kind, Some(path@))
            }),
            journal_numbered(*old(self)) ==> journal_numbered(*final(self)),
    {
        let (id, kind, prefix) = match command {
            ShellCommand::ProjectSaveAll => (
                "project.save_all",
                "project.saved_all",
                "toutes les donnees session enregistrees dans ",
            ),
            ShellCommand::ProjectExport => ("project.export", "project.exported", "export du projet cree dans "),
            _ => ("project.save", "project.saved", "session enregistree dans "),
        };
        self.push_system_activity(kind, Some(String::from_str(path)));
        let mut message = String::from_str(prefix);
        message.append(path);
        CommandResult { command_id: String::from_str(id), status: String::from_str("applied"), message }
    }

    /// Completes a command that creates `entity` once the caller built it:
    /// the entity is created in the graph and the answer is `message`.
    pub fn complete_entity_creation(&mut self, command_id: &str, entity: EntityRecord, message: String) -> (r: Result<
        CommandResult,
        CoreError,
    >)
        requires
            log_numbers_below(old(self).graph@),
            crate::project::counters_fit(old(self).graph@),
        ensures
            ({
                let d0 = old(self).graph@.document;
                let d1 = final(self).graph@.document;
                &&& d0.nodes.dom().contains(entity.id@) ==> (r matches Err(CoreError::EntityAlreadyExists(x)) && x@
                    == entity.id@ && final(self).graph@ == old(self).graph@)
                &&& !d0.nodes.dom().contains(entity.id@) ==> (r matches Ok(res) && result_view(res) == (
                    command_id@,
                    "applied"@,
                    message@,
                ) && d1.nodes == d0.nodes.insert(entity.id@, entity) && d1.endpoints == d0.endpoints
                    && d1.plugin_manifests == d0.plugin_manifests)
            }),
            log_numbers_below(final(self).graph@),
            final(self).system_activity == old(self).system_activity,
            final(self).system_counter == old(self).system_counter,
            final(self).fixture_id == old(self).fixture_id,
    {
        match self.graph.apply_command(CoreCommand::CreateEntity(entity)) {
            Ok(_) => Ok(CommandResult { command_id: String::from_str(command_id), status: String::from_str("applied"), message }),
            Err(e) => Err(e),
        }
    }
}


/// The menu id of each shell command; `Simulated` stands for every other id.
pub open spec fn shell_command_id(c: ShellCommand) -> Option<Seq<char>> {
    match c {
        ShellCommand::ProjectCreate => Some("project.create"@),
        ShellCommand::ProjectSave => Some("project.save"@),
        ShellCommand::ProjectSaveAll => Some("project.save_all"@),
        ShellCommand::ProjectImport => Some("project.import"@),
        ShellCommand::ProjectExport => Some("project.export"@),
        ShellCommand::CreatePart => Some("entity.create.part"@),
        ShellCommand::RegeneratePart => Some("build.regenerate_part"@),
        ShellCommand::CreateAssembly => Some("entity.create.assembly"@),
        ShellCommand::CreateRobotCell => Some("entity.create.robot_cell"@),
        ShellCommand::CreateSensorRig => Some("entity.create.sensor_rig"@),
        ShellCommand::CreateExternalEndpoint => Some("entity.create.external_endpoint"@),
        ShellCommand::PluginManage => Some("plugin.manage"@),
        ShellCommand::SimulationRunStart => Some("simulation.run.start"@),
        ShellCommand::PerceptionRunStart => Some("perception.run.start"@),
        ShellCommand::IntegrationReplayDegraded => Some("integration.replay.degraded"@),
        ShellCommand::CommissioningSessionStart => Some("commissioning.session.start"@),
        ShellCommand::CommissioningCompareAsBuilt => Some("commissioning.compare.as_built"@),
        ShellCommand::OptimizationRunStart => Some("optimization.run.start"@),
        ShellCommand::TestRunFixture => Some("test.run_fixture"@),
        ShellCommand::AnalyzeSafety => Some("analyze.safety"@),
        ShellCommand::AnalyzeValidationReport => Some("analyze.validation_report"@),
        ShellCommand::HelpOpenSpec => Some("help.openspec"@),
        ShellCommand::Simulated => None,
    }
}

proof fn lemma_shell_ids_apart()
    ensures
        "project.create"@.len() == 14,
        "project.create"@[0] == 'p',
        "project.create"@[8] == 'c',
        "project.save"@.len() == 12,
        "project.save"@[0] == 'p',
        "project.save_all"@.len() == 16,
        "project.save_all"@[0] == 'p',
        "project.import"@.len() == 14,
        "project.import"@[0] == 'p',
        "project.import"@[8] == 'i',
        "project.export"@.len() == 14,
        "project.export"@[0] == 'p',
        "project.export"@[8] == 'e',
        "entity.create.part"@.len() == 18,
        "entity.create.part"@[0] == 'e',
        "build.regenerate_part"@.len() == 21,
        "build.regenerate_part"@[0] == 'b',
        "entity.create.assembly"@.len() == 22,
        "entity.create.assembly"@[0] == 'e',
        "entity.create.robot_cell"@.len() == 24,
        "entity.create.robot_cell"@[0] == 'e',
        "entity.create.robot_cell"@[14] == 'r',
        "entity.create.sensor_rig"@.len() == 24,
        "entity.create.sensor_rig"@[0] == 'e',
        "entity.create.sensor_rig"@[14] == 's',
        "entity.create.external_endpoint"@.len() == 31,
        "entity.create.external_endpoint"@[0] == 'e',
        "plugin.manage"@.len() == 13,
        "plugin.manage"@[0] == 'p',
        "simulation.run.start"@.len() == 20,
        "simulation.run.start"@[0] == 's',
        "perception.run.start"@.len() == 20,
        "perception.run.start"@[0] == 'p',
        "integration.replay.degraded"@.len() == 27,
        "integration.replay.degraded"@[0] == 'i',
        "commissioning.session.start"@.len() == 27,
        "commissioning.session.start"@[0] == 'c',
        "commissioning.compare.as_built"@.len() == 30,
        "commissioning.compare.as_built"@[0] == 'c',
        "optimization.run.start"@.len() == 22,
        "optimization.run.start"@[0] == 'o',
        "test.run_fixture"@.len() == 16,
        "test.run_fixture"@[0] == 't',
        "analyze.safety"@.len() == 14,
        "analyze.safety"@[0] == 'a',
        "analyze.validation_report"@.len() == 25,
        "analyze.validation_report"@[0] == 'a',
        "help.openspec"@.len() == 13,
        "help.openspec"@[0] == 'h',
{
    reveal_strlit("project.create");
    reveal_strlit("project.save");
    reveal_strlit("project.save_all");
    reveal_strlit("project.import");
    reveal_strlit("project.export");
    reveal_strlit("entity.create.part");
    reveal_strlit("build.regenerate_part");
    reveal_strlit("entity.create.assembly");
    reveal_strlit("entity.create.robot_cell");
    reveal_strlit("entity.create.sensor_rig");
    reveal_strlit("entity.create.external_endpoint");
    reveal_strlit("plugin.manage");
    reveal_strlit("simulation.run.start");
    reveal_strlit("perception.run.start");
    reveal_strlit("integration.replay.degraded");
    reveal_strlit("commissioning.session.start");
    reveal_strlit("commissioning.compare.as_built");
    reveal_strlit("optimization.run.start");
    reveal_strlit("test.run_fixture");
    reveal_strlit("analyze.safety");
    reveal_strlit("analyze.validation_report");
    reveal_strlit("help.openspec");
}

proof fn lemma_shell_round_trip(c: ShellCommand)
    ensures
        shell_command_id(c) matches Some(i) ==> shell_command_of(i) == c,
        c != ShellCommand::Simulated ==> shell_command_id(c) is Some,
        exists|x: Seq<char>| shell_command_of(x) == c,
{
    lemma_shell_ids_apart();
    assert(shell_command_of(Seq::<char>::empty()) == ShellCommand::Simulated);
    match c {
        ShellCommand::ProjectCreate => assert(shell_command_of("project.create"@) == c),
        ShellCommand::ProjectSave => assert(shell_command_of("project.save"@) == c),
        ShellCommand::ProjectSaveAll => assert(shell_command_of("project.save_all"@) == c),
        ShellCommand::ProjectImport => assert(shell_command_of("project.import"@) == c),
        ShellCommand::ProjectExport => assert(shell_command_of("project.export"@) == c),
        ShellCommand::CreatePart => assert(shell_command_of("entity.create.part"@) == c),
        ShellCommand::RegeneratePart => assert(shell_command_of("build.regenerate_part"@) == c),
        ShellCommand::CreateAssembly => assert(shell_command_of("entity.create.assembly"@) == c),
        ShellCommand::CreateRobotCell => assert(shell_command_of("entity.create.robot_cell"@) == c),
        ShellCommand::CreateSensorRig => assert(shell_command_of("entity.create.sensor_rig"@) == c),
        ShellCommand::CreateExternalEndpoint => assert(shell_command_of("entity.create.external_endpoint"@) == c),
        ShellCommand::PluginManage => assert(shell_command_of("plugin.manage"@) == c),
        ShellCommand::SimulationRunStart => assert(shell_command_of("simulation.run.start"@) == c),
        ShellCommand::PerceptionRunStart => assert(shell_command_of("perception.run.start"@) == c),
        ShellCommand::IntegrationReplayDegraded => assert(shell_command_of("integration.replay.degraded"@) == c),
        ShellCommand::CommissioningSessionStart => assert(shell_command_of("commissioning.session.start"@) == c),
        ShellCommand::CommissioningCompareAsBuilt => assert(shell_command_of("commissioning.compare.as_built"@) == c),
        ShellCommand::OptimizationRunStart => assert(shell_command_of("optimization.run.start"@) == c),
        ShellCommand::TestRunFixture => assert(shell_command_of("test.run_fixture"@) == c),
        ShellCommand::AnalyzeSafety => assert(shell_command_of("analyze.safety"@) == c),
        ShellCommand::AnalyzeValidationReport => assert(shell_command_of("analyze.validation_report"@) == c),
        ShellCommand::HelpOpenSpec => assert(shell_command_of("help.openspec"@) == c),
        ShellCommand::Simulated => assert(shell_command_of(Seq::<char>::empty()) == c),
    }
}

/// Each menu id names its own command: reading a command's id back gives
/// that command, so every command of the shell can be reached from its
/// menu, and an id is simulated exactly when it is no command's id.
pub proof fn law_shell_ids_name_their_commands(c: ShellCommand, id: Seq<char>)
    ensures
        shell_command_id(c) matches Some(i) ==> shell_command_of(i) == c,
        c != ShellCommand::Simulated ==> shell_command_id(c) is Some,
        exists|x: Seq<char>| shell_command_of(x) == c,
        shell_command_of(id) == ShellCommand::Simulated <==> forall|d: ShellCommand|
            #[trigger] shell_command_id(d) != Some(id),
{
    lemma_shell_round_trip(c);
    lemma_shell_ids_apart();
    if shell_command_of(id) == ShellCommand::Simulated {
        assert forall|d: ShellCommand| #[trigger] shell_command_id(d) != Some(id) by {
            if shell_command_id(d) == Some(id) {
                lemma_shell_round_trip(d);
            }
        }
    } else {
        assert(shell_command_id(shell_command_of(id)) == Some(id));
    }
}

} // verus!
