//! The project context the local assistant answers from: the one-line
//! descriptions of entities, endpoints, streams and plugins, the project
//! summary and references given to the model, the system prompt, and the
//! grounded answer given when the model cannot answer. Collections are
//! walked in increasing key order.
use vstd::prelude::*;
use crate::ai::{
    combine_spec, context_window_spec, degraded_runtime_status, dedupe_preserving_order, dedupe_spec, language_instruction,
    language_instruction_spec, message_views, model_selection_spec, opt_str_view, opt_view, profile_context_window,
    profile_label, profile_selection_spec, requested_profile_spec, runtime_status_from_models, status_common, status_warning, trim_history,
    trimmed_history_spec, unavailable_runtime_status, views, AiConversationMessage, AiProfilePreset, AiRuntimeConfig,
    AiRuntimeStatus,
};
use crate::types::clone_texts;
use crate::explain::{build_structured_explain, explains, AiStructuredExplain};
use crate::keyed::{key_order, key_views, KeyedMap};
use crate::project::{DocumentModel, EntityRecord, ExternalEndpoint, ProjectDocument, TelemetryStream};
use crate::text::{decimal, decimal_string, str_eq, trim, trim_spec};
use crate::types::{endpoint_type_label_spec, stream_direction_label_spec, PluginManifest};
use crate::workspace::{address_label, endpoint_address_label, opt_text};

verus! {

/// At most this many items of a collection are described.
pub open spec fn max_context_references() -> nat {
    8
}

/// The texts joined with `sep` between them.
pub open spec fn joined(items: Seq<Seq<char>>, sep: Seq<char>) -> Seq<char>
    decreases items.len(),
{
    if items.len() == 0 {
        Seq::empty()
    } else if items.len() == 1 {
        items[0]
    } else {
        joined(items.drop_last(), sep) + sep + items.last()
    }
}

/// The first items joined by `; `, or `none` when there is none.
pub open spec fn summarized(items: Seq<Seq<char>>) -> Seq<char> {
    if items.len() == 0 {
        "none"@
    } else if items.len() <= max_context_references() {
        joined(items, "; "@)
    } else {
        joined(items.take(max_context_references() as int), "; "@)
    }
}

/// Joins the first eight items with `; `; `none` for no item.
pub fn summarize_named_items(items: &Vec<String>) -> (s: String)
    ensures
        s@ == summarized(key_views(items@)),
{
    let n = items.len();
    if n == 0 {
        return String::from_str("none");
    }
    let limit: usize = if n <= 8 { n } else { 8 };
    let ghost all = key_views(items@);
    let ghost shown = all.take(limit as int);
    let mut s = items[0].clone();
    assert(shown.take(1) =~= seq![shown[0]]);
    let mut i: usize = 1;
    while i < limit
        invariant
            all == key_views(items@),
            shown == all.take(limit as int),
            limit <= n,
            n == items@.len(),
            1 <= i <= limit,
            s@ == joined(shown.take(i as int), "; "@),
        decreases limit - i,
    {
        assert(shown.take(i + 1).drop_last() =~= shown.take(i as int));
        s.append("; ");
        s.append(items[i].as_str());
        i = i + 1;
    }
    assert(shown.take(limit as int) =~= shown);
    if n <= 8 {
        assert(shown =~= all);
    }
    s
}

/// `name [type] (id) @ address`.
pub open spec fn endpoint_item(e: ExternalEndpoint) -> Seq<char> {
    e.name@ + " ["@ + endpoint_type_label_spec(e.endpoint_type) + "] ("@ + e.id@ + ") @ "@ + address_label(
        opt_view(e.addressing.host),
        e.addressing.port,
        opt_view(e.addressing.path),
        opt_view(e.addressing.device_id),
    )
}

fn opt_str(o: &Option<String>) -> (r: Option<&str>)
    ensures
        opt_text(r) == opt_view(*o),
{
    match o {
        Some(s) => Some(s.as_str()),
        None => None,
    }
}

/// One line describing an endpoint: name, type, id and address.
pub fn format_endpoint(endpoint: &ExternalEndpoint) -> (s: String)
    ensures
        s@ == endpoint_item(*endpoint),
{
    let address = endpoint_address_label(
        opt_str(&endpoint.addressing.host),
        endpoint.addressing.port,
        opt_str(&endpoint.addressing.path),
        opt_str(&endpoint.addressing.device_id),
    );
    let mut s = endpoint.name.clone();
    s.append(" [");
    s.append(endpoint.endpoint_type.as_str());
    s.append("] (");
    s.append(endpoint.id.as_str());
    s.append(") @ ");
    s.append(address.as_str());
    s
}

/// `name [type] (id)`.
pub open spec fn entity_item(e: EntityRecord) -> Seq<char> {
    e.name@ + " ["@ + e.entity_type@ + "] ("@ + e.id@ + ")"@
}

/// `name [direction] on endpoint`.
pub open spec fn stream_item(s: TelemetryStream) -> Seq<char> {
    s.name@ + " ["@ + stream_direction_label_spec(s.direction) + "] on "@ + s.endpoint_id@
}

/// Whether the plugin is enabled; a plugin without a recorded state is not.
pub open spec fn plugin_enabled(states: Map<Seq<char>, bool>, plugin_id: Seq<char>) -> bool {
    states.dom().contains(plugin_id) && states[plugin_id]
}

/// `plugin_id vversion [enabled|disabled]`.
pub open spec fn plugin_item(p: PluginManifest, states: Map<Seq<char>, bool>) -> Seq<char> {
    p.plugin_id@ + " v"@ + p.version@ + " ["@ + (if plugin_enabled(states, p.plugin_id@) {
        "enabled"@
    } else {
        "disabled"@
    }) + "]"@
}

pub open spec fn entity_items(d: DocumentModel) -> Seq<Seq<char>> {
    key_order(d.nodes).map_values(|k: Seq<char>| entity_item(d.nodes[k]))
}

pub open spec fn endpoint_items(d: DocumentModel) -> Seq<Seq<char>> {
    key_order(d.endpoints).map_values(|k: Seq<char>| endpoint_item(d.endpoints[k]))
}

pub open spec fn stream_items(d: DocumentModel) -> Seq<Seq<char>> {
    key_order(d.streams).map_values(|k: Seq<char>| stream_item(d.streams[k]))
}

pub open spec fn plugin_items(d: DocumentModel) -> Seq<Seq<char>> {
    key_order(d.plugin_manifests).map_values(|k: Seq<char>| plugin_item(d.plugin_manifests[k], d.plugin_states))
}

/// The project as the model is told about it: name, id, units, the
/// collections with their sizes and first items, and the log sizes.
pub open spec fn project_summary_spec(d: DocumentModel) -> Seq<char> {
    "projectName: "@ + d.metadata.name@ + "\nprojectId: "@ + d.metadata.project_id@ + "\nfixtureUnits: "@
        + d.metadata.display_units.length@ + " / "@ + d.metadata.display_units.angle@ + " / "@
        + d.metadata.display_units.mass@ + "\nentities("@ + decimal(d.nodes.len()) + "): "@ + summarized(
        entity_items(d),
    ) + "\nendpoints("@ + decimal(d.endpoints.len()) + "): "@ + summarized(endpoint_items(d)) + "\nstreams("@
        + decimal(d.streams.len()) + "): "@ + summarized(stream_items(d)) + "\nplugins("@ + decimal(
        d.plugin_manifests.len(),
    ) + "): "@ + summarized(plugin_items(d)) + "\ncommandsRecorded: "@ + decimal(d.commands.len())
        + "\neventsRecorded: "@ + decimal(d.events.len())
}

fn entity_lines(nodes: &KeyedMap<EntityRecord>) -> (r: Vec<String>)
    ensures
        key_views(r@) == key_order(nodes@).map_values(|k: Seq<char>| entity_item(nodes@[k])),
{
    let keys = nodes.sorted_keys();
    assert forall|j: int| 0 <= j < key_order(nodes@).len() implies nodes@.dom().contains(#[trigger] key_order(nodes@)[j]) by {
        assert(key_order(nodes@).contains(key_order(nodes@)[j]));
    }
    let n = keys.len();
    let mut r: Vec<String> = Vec::new();
    let mut i: usize = 0;
    while i < n
        invariant
            n == keys@.len(),
            key_views(keys@) == key_order(nodes@),
            forall|j: int| 0 <= j < key_order(nodes@).len() ==> nodes@.dom().contains(#[trigger] key_order(nodes@)[j]),
            i <= n,
            key_views(r@) == key_order(nodes@).take(i as int).map_values(|k: Seq<char>| entity_item(nodes@[k])),
        decreases n - i,
    {
        assert(key_views(keys@)[i as int] == keys@[i as int]@);
        let e = match nodes.get(keys[i].as_str()) {
            Some(e) => e,
            None => {
                assert(false);
                return r;
            },
        };
        let mut s = e.name.clone();
        s.append(" [");
        s.append(e.entity_type.as_str());
        s.append("] (");
        s.append(e.id.as_str());
        s.append(")");
        assert(s@ == entity_item(nodes@[key_order(nodes@)[i as int]]));
        let ghost before = r@;
        r.push(s);
        assert(key_views(r@) =~= key_views(before).push(entity_item(nodes@[key_order(nodes@)[i as int]])));
        assert(key_order(nodes@).take(i + 1).map_values(|k: Seq<char>| entity_item(nodes@[k])) =~= key_order(
            nodes@,
        ).take(i as int).map_values(|k: Seq<char>| entity_item(nodes@[k])).push(
            entity_item(nodes@[key_order(nodes@)[i as int]]),
        ));
        i = i + 1;
    }
    assert(key_order(nodes@).take(n as int) =~= key_order(nodes@));
    r
}

fn endpoint_lines(endpoints: &KeyedMap<ExternalEndpoint>) -> (r: Vec<String>)
    ensures
        key_views(r@) == key_order(endpoints@).map_values(|k: Seq<char>| endpoint_item(endpoints@[k])),
{
    let keys = endpoints.sorted_keys();
    assert forall|j: int| 0 <= j < key_order(endpoints@).len() implies endpoints@.dom().contains(#[trigger] key_order(endpoints@)[j]) by {
        assert(key_order(endpoints@).contains(key_order(endpoints@)[j]));
    }
    let n = keys.len();
    let mut r: Vec<String> = Vec::new();
    let mut i: usize = 0;
    while i < n
        invariant
            n == keys@.len(),
            key_views(keys@) == key_order(endpoints@),
            forall|j: int| 0 <= j < key_order(endpoints@).len() ==> endpoints@.dom().contains(#[trigger] key_order(endpoints@)[j]),
            i <= n,
            key_views(r@) == key_order(endpoints@).take(i as int).map_values(|k: Seq<char>| endpoint_item(endpoints@[k])),
        decreases n - i,
    {
        assert(key_views(keys@)[i as int] == keys@[i as int]@);
        let e = match endpoints.get(keys[i].as_str()) {
            Some(e) => e,
            None => {
                assert(false);
                return r;
            },
        };
        let s = format_endpoint(e);
        assert(s@ == endpoint_item(endpoints@[key_order(endpoints@)[i as int]]));
        let ghost before = r@;
        r.push(s);
        assert(key_views(r@) =~= key_views(before).push(endpoint_item(endpoints@[key_order(endpoints@)[i as int]])));
        assert(key_order(endpoints@).take(i + 1).map_values(|k: Seq<char>| endpoint_item(endpoints@[k])) =~= key_order(
            endpoints@,
        ).take(i as int).map_values(|k: Seq<char>| endpoint_item(endpoints@[k])).push(
            endpoint_item(endpoints@[key_order(endpoints@)[i as int]]),
        ));
        i = i + 1;
    }
    assert(key_order(endpoints@).take(n as int) =~= key_order(endpoints@));
    r
}

fn stream_lines(streams: &KeyedMap<TelemetryStream>) -> (r: Vec<String>)
    ensures
        key_views(r@) == key_order(streams@).map_values(|k: Seq<char>| stream_item(streams@[k])),
{
    let keys = streams.sorted_keys();
    assert forall|j: int| 0 <= j < key_order(streams@).len() implies streams@.dom().contains(#[trigger] key_order(streams@)[j]) by {
        assert(key_order(streams@).contains(key_order(streams@)[j]));
    }
    let n = keys.len();
    let mut r: Vec<String> = Vec::new();
    let mut i: usize = 0;
    while i < n
        invariant
            n == keys@.len(),
            key_views(keys@) == key_order(streams@),
            forall|j: int| 0 <= j < key_order(streams@).len() ==> streams@.dom().contains(#[trigger] key_order(streams@)[j]),
            i <= n,
            key_views(r@) == key_order(streams@).take(i as int).map_values(|k: Seq<char>| stream_item(streams@[k])),
        decreases n - i,
    {
        assert(key_views(keys@)[i as int] == keys@[i as int]@);
        let e = match streams.get(keys[i].as_str()) {
            Some(e) => e,
            None => {
                assert(false);
                return r;
            },
        };
        let mut s = e.name.clone();
        s.append(" [");
        s.append(e.direction.as_str());
        s.append("] on ");
        s.append(e.endpoint_id.as_str());
        assert(s@ == stream_item(streams@[key_order(streams@)[i as int]]));
        let ghost before = r@;
        r.push(s);
        assert(key_views(r@) =~= key_views(before).push(stream_item(streams@[key_order(streams@)[i as int]])));
        assert(key_order(streams@).take(i + 1).map_values(|k: Seq<char>| stream_item(streams@[k])) =~= key_order(
            streams@,
        ).take(i as int).map_values(|k: Seq<char>| stream_item(streams@[k])).push(
            stream_item(streams@[key_order(streams@)[i as int]]),
        ));
        i = i + 1;
    }
    assert(key_order(streams@).take(n as int) =~= key_order(streams@));
    r
}

fn plugin_lines(plugins: &KeyedMap<PluginManifest>, states: &KeyedMap<bool>) -> (r: Vec<String>)
    ensures
        key_views(r@) == key_order(plugins@).map_values(|k: Seq<char>| plugin_item(plugins@[k], states@)),
{
    let keys = plugins.sorted_keys();
    assert forall|j: int| 0 <= j < key_order(plugins@).len() implies plugins@.dom().contains(#[trigger] key_order(plugins@)[j]) by {
        assert(key_order(plugins@).contains(key_order(plugins@)[j]));
    }
    let n = keys.len();
    let mut r: Vec<String> = Vec::new();
    let mut i: usize = 0;
    while i < n
        invariant
            n == keys@.len(),
            key_views(keys@) == key_order(plugins@),
            forall|j: int| 0 <= j < key_order(plugins@).len() ==> plugins@.dom().contains(#[trigger] key_order(plugins@)[j]),
            i <= n,
            key_views(r@) == key_order(plugins@).take(i as int).map_values(|k: Seq<char>| plugin_item(plugins@[k], states@)),
        decreases n - i,
    {
        assert(key_views(keys@)[i as int] == keys@[i as int]@);
        let e = match plugins.get(keys[i].as_str()) {
            Some(e) => e,
            None => {
                assert(false);
                return r;
            },
        };
        let enabled = match states.get(e.plugin_id.as_str()) {
            Some(v) => *v,
            None => false,
        };
        let mut s = e.plugin_id.clone();
        s.append(" v");
        s.append(e.version.as_str());
        s.append(" [");
        s.append(if enabled { "enabled" } else { "disabled" });
        s.append("]");
        assert(s@ == plugin_item(plugins@[key_order(plugins@)[i as int]], states@));
        let ghost before = r@;
        r.push(s);
        assert(key_views(r@) =~= key_views(before).push(plugin_item(plugins@[key_order(plugins@)[i as int]], states@)));
        assert(key_order(plugins@).take(i + 1).map_values(|k: Seq<char>| plugin_item(plugins@[k], states@)) =~= key_order(
            plugins@,
        ).take(i as int).map_values(|k: Seq<char>| plugin_item(plugins@[k], states@)).push(
            plugin_item(plugins@[key_order(plugins@)[i as int]], states@),
        ));
        i = i + 1;
    }
    assert(key_order(plugins@).take(n as int) =~= key_order(plugins@));
    r
}

fn append_count(s: &mut String, n: usize)
    ensures
        final(s)@ == old(s)@ + decimal(n as nat),
{
    let digits = decimal_string(n as u64);
    s.append(digits.as_str());
}

/// The project summary the model is given (see `project_summary_spec`).
pub fn build_project_summary(document: &ProjectDocument) -> (s: String)
    ensures
        s@ == project_summary_spec(document@),
{
    let entities = summarize_named_items(&entity_lines(&document.nodes));
    let endpoints = summarize_named_items(&endpoint_lines(&document.endpoints));
    let streams = summarize_named_items(&stream_lines(&document.streams));
    let plugins = summarize_named_items(&plugin_lines(&document.plugin_manifests, &document.plugin_states));
    let mut s = String::from_str("projectName: ");
    s.append(document.metadata.name.as_str());
    s.append("\nprojectId: ");
    s.append(document.metadata.project_id.as_str());
    s.append("\nfixtureUnits: ");
    s.append(document.metadata.display_units.length.as_str());
    s.append(" / ");
    s.append(document.metadata.display_units.angle.as_str());
    s.append(" / ");
    s.append(document.metadata.display_units.mass.as_str());
    s.append("\nentities(");
    append_count(&mut s, document.nodes.len());
    s.append("): ");
    s.append(entities.as_str());
    s.append("\nendpoints(");
    append_count(&mut s, document.endpoints.len());
    s.append("): ");
    s.append(endpoints.as_str());
    s.append("\nstreams(");
    append_count(&mut s, document.streams.len());
    s.append("): ");
    s.append(streams.as_str());
    s.append("\nplugins(");
    append_count(&mut s, document.plugin_manifests.len());
    s.append("): ");
    s.append(plugins.as_str());
    s.append("\ncommandsRecorded: ");
    append_count(&mut s, document.commands.len());
    s.append("\neventsRecorded: ");
    append_count(&mut s, document.events.len());
    s
}

/// The first `n` of `s`, or all of them when there are fewer.
pub open spec fn first_n<A>(s: Seq<A>, n: nat) -> Seq<A> {
    if s.len() <= n {
        s
    } else {
        s.take(n as int)
    }
}

/// `prefix` before each of the first `n` keys.
pub open spec fn prefixed_keys(prefix: Seq<char>, keys: Seq<Seq<char>>, n: nat) -> Seq<Seq<char>> {
    first_n(keys, n).map_values(|k: Seq<char>| prefix + k)
}

/// What the answer may cite: the project, the first three entities, two
/// endpoints, two streams and one plugin, each once, at most eight.
pub open spec fn context_references_spec(d: DocumentModel) -> Seq<Seq<char>> {
    let candidates = seq!["project:"@ + d.metadata.project_id@] + prefixed_keys("entity:"@, key_order(d.nodes), 3)
        + prefixed_keys("endpoint:"@, key_order(d.endpoints), 2) + prefixed_keys("stream:"@, key_order(d.streams), 2)
        + prefixed_keys("plugin:"@, key_order(d.plugin_manifests), 1);
    first_n(dedupe_spec(candidates), max_context_references())
}

fn push_prefixed_keys(out: &mut Vec<String>, prefix: &str, keys: &Vec<String>, n: usize)
    ensures
        views(final(out)@) == views(old(out)@) + prefixed_keys(prefix@, key_views(keys@), n as nat),
{
    let len = keys.len();
    let limit: usize = if len <= n { len } else { n };
    let ghost start = views(out@);
    let ghost shown = first_n(key_views(keys@), n as nat);
    assert(shown.len() == limit);
    let mut i: usize = 0;
    while i < limit
        invariant
            limit <= len,
            len == keys@.len(),
            shown == first_n(key_views(keys@), n as nat),
            shown.len() == limit,
            i <= limit,
            views(out@) == start + shown.take(i as int).map_values(|k: Seq<char>| prefix@ + k),
        decreases limit - i,
    {
        assert(shown[i as int] == keys@[i as int]@);
        let mut s = String::from_str(prefix);
        s.append(keys[i].as_str());
        let ghost before = views(out@);
        out.push(s);
        assert(views(out@) =~= before.push(prefix@ + shown[i as int]));
        assert(shown.take(i + 1).map_values(|k: Seq<char>| prefix@ + k) =~= shown.take(i as int).map_values(
            |k: Seq<char>| prefix@ + k,
        ).push(prefix@ + shown[i as int]));
        i = i + 1;
    }
    assert(shown.take(limit as int) =~= shown);
}

/// The references an answer may cite (see `context_references_spec`).
pub fn collect_context_references(document: &ProjectDocument) -> (r: Vec<String>)
    ensures
        views(r@) == context_references_spec(document@),
{
    let mut candidates: Vec<String> = Vec::new();
    let mut first = String::from_str("project:");
    first.append(document.metadata.project_id.as_str());
    candidates.push(first);
    let ghost lead = views(candidates@);
    assert(lead =~= seq!["project:"@ + document@.metadata.project_id@]);
    push_prefixed_keys(&mut candidates, "entity:", &document.nodes.sorted_keys(), 3);
    push_prefixed_keys(&mut candidates, "endpoint:", &document.endpoints.sorted_keys(), 2);
    push_prefixed_keys(&mut candidates, "stream:", &document.streams.sorted_keys(), 2);
    push_prefixed_keys(&mut candidates, "plugin:", &document.plugin_manifests.sorted_keys(), 1);
    let deduped = dedupe_preserving_order(candidates);
    let n = deduped.len();
    if n <= 8 {
        return deduped;
    }
    let mut r: Vec<String> = Vec::new();
    let mut i: usize = 0;
    while i < 8
        invariant
            n == deduped@.len(),
            n > 8,
            i <= 8,
            views(r@) == views(deduped@).take(i as int),
        decreases 8 - i,
    {
        let c = deduped[i].clone();
        assert(c@ == views(deduped@)[i as int]);
        let ghost before = r@;
        r.push(c);
        assert(views(r@) =~= views(before).push(c@));
        assert(views(r@) =~= views(deduped@).take(i + 1));
        i = i + 1;
    }
    r
}

/// The rules the model is given before the project context.
pub open spec fn prompt_rules() -> Seq<char> {
    "You are FutureAero Local AI, a local-only assistant for CAD, robotics, simulation, commissioning, integration and safety engineering.\nUse only the provided project context.\nDo not pretend to have internet, cloud or hidden tool access.\nIf the context does not contain an answer, say so clearly.\nDo not suggest silent mutations.\nKeep the answer short, concrete and engineering-focused.\nWhen you mention an object, include its id when useful.\nRuntime profile: "@
}

/// The system prompt: the rules, the profile, the answer language and the project summary.
pub open spec fn system_prompt_spec(locale: Seq<char>, d: DocumentModel, profile: AiProfilePreset) -> Seq<char> {
    prompt_rules() + profile_label(profile) + ".\nAnswer "@ + language_instruction_spec(locale) + ".\n\nProject context:\n"@
        + project_summary_spec(d)
}

pub fn build_system_prompt(locale: &str, document: &ProjectDocument, profile: AiProfilePreset) -> (s: String)
    ensures
        s@ == system_prompt_spec(locale@, document@, profile),
{
    let mut s = String::from_str("You are FutureAero Local AI, a local-only assistant for CAD, robotics, simulation, commissioning, integration and safety engineering.\nUse only the provided project context.\nDo not pretend to have internet, cloud or hidden tool access.\nIf the context does not contain an answer, say so clearly.\nDo not suggest silent mutations.\nKeep the answer short, concrete and engineering-focused.\nWhen you mention an object, include its id when useful.\nRuntime profile: ");
    s.append(profile.as_str());
    s.append(".\nAnswer ");
    s.append(language_instruction(locale));
    s.append(".\n\nProject context:\n");
    let summary = build_project_summary(document);
    s.append(summary.as_str());
    s
}

/// `name | n entites | n endpoints | n flux | n plugins`.
pub open spec fn project_digest(d: DocumentModel) -> Seq<char> {
    d.metadata.name@ + " | "@ + decimal(d.nodes.len()) + " entites | "@ + decimal(d.endpoints.len()) + " endpoints | "@
        + decimal(d.streams.len()) + " flux | "@ + decimal(d.plugin_manifests.len()) + " plugins"@
}

pub open spec fn model_or(model: Option<Seq<char>>, unknown: Seq<char>) -> Seq<char> {
    match model {
        Some(m) => m,
        None => unknown,
    }
}

/// Why the answer is grounded, in the answer's language.
pub open spec fn fallback_reason(locale: Seq<char>, available: bool, model: Option<Seq<char>>) -> Seq<char> {
    if locale == "en"@ {
        if available {
            "The local AI runtime is reachable, but model "@ + model_or(model, "unknown"@)
                + " did not finish in time or returned an error, so I am temporarily staying in grounded local-summary mode."@
        } else {
            "The local AI runtime did not answer, so I am staying in grounded local-summary mode."@
        }
    } else if locale == "es"@ {
        if available {
            "El runtime de IA local es accesible, pero el modelo "@ + model_or(model, "desconocido"@)
                + " no termino a tiempo o devolvio un error, asi que sigo temporalmente en modo resumen local guiado por el proyecto."@
        } else {
            "El runtime de IA local no respondio, asi que sigo en modo resumen local guiado por el proyecto."@
        }
    } else {
        if available {
            "Le runtime IA local est joignable, mais le modele "@ + model_or(model, "inconnu"@)
                + " n a pas termine a temps ou a renvoye une erreur, donc je passe temporairement en mode resume local guide par le projet."@
        } else {
            "Le runtime IA local n a pas repondu, donc je reste en mode resume local guide par le projet."@
        }
    }
}

/// The phrases around the digest, the request and the server address, in
/// the answer's language: English, Spanish, else French.
pub open spec fn answer_phrases(locale: Seq<char>) -> (Seq<char>, Seq<char>, Seq<char>, Seq<char>) {
    if locale == "en"@ {
        (
            "\nProject: "@,
            ".\nYour request was: \""@,
            "\".\nYou can continue asking about the current project, but for live model-backed answers check Ollama on "@,
            " and ensure a local model is loaded."@,
        )
    } else if locale == "es"@ {
        (
            "\nProyecto: "@,
            ".\nTu solicitud fue: \""@,
            "\".\nPuedes seguir preguntando sobre el proyecto actual, pero para respuestas con modelo en vivo revisa Ollama en "@,
            " y confirma que haya un modelo local cargado."@,
        )
    } else {
        (
            "\nProjet: "@,
            ".\nTa demande etait: \""@,
            "\".\nTu peux continuer a poser des questions sur le projet courant, mais pour une vraie reponse modele en direct il faut verifier Ollama sur "@,
            " et la presence d un modele local charge."@,
        )
    }
}

/// The grounded answer: why, the project digest, the request, and where to check the server.
pub open spec fn fallback_answer_spec(
    locale: Seq<char>,
    message: Seq<char>,
    d: DocumentModel,
    available: bool,
    model: Option<Seq<char>>,
    endpoint: Seq<char>,
) -> Seq<char> {
    let p = answer_phrases(locale);
    fallback_reason(locale, available, model) + p.0 + project_digest(d) + p.1 + message + p.2 + endpoint + p.3
}

fn reason_text(locale: &str, available: bool, model: Option<&str>) -> (s: String)
    ensures
        s@ == fallback_reason(locale@, available, opt_text(model)),
{
    if str_eq(locale, "en") {
        if available {
            let mut r = String::from_str("The local AI runtime is reachable, but model ");
            r.append(match model { Some(m) => m, None => "unknown" });
            r.append(" did not finish in time or returned an error, so I am temporarily staying in grounded local-summary mode.");
            r
        } else {
            String::from_str("The local AI runtime did not answer, so I am staying in grounded local-summary mode.")
        }
    } else if str_eq(locale, "es") {
        if available {
            let mut r = String::from_str("El runtime de IA local es accesible, pero el modelo ");
            r.append(match model { Some(m) => m, None => "desconocido" });
            r.append(" no termino a tiempo o devolvio un error, asi que sigo temporalmente en modo resumen local guiado por el proyecto.");
            r
        } else {
            String::from_str("El runtime de IA local no respondio, asi que sigo en modo resumen local guiado por el proyecto.")
        }
    } else {
        if available {
            let mut r = String::from_str("Le runtime IA local est joignable, mais le modele ");
            r.append(match model { Some(m) => m, None => "inconnu" });
            r.append(" n a pas termine a temps ou a renvoye une erreur, donc je passe temporairement en mode resume local guide par le projet.");
            r
        } else {
            String::from_str("Le runtime IA local n a pas repondu, donc je reste en mode resume local guide par le projet.")
        }
    }
}

fn phrases(locale: &str) -> (p: (&'static str, &'static str, &'static str, &'static str))
    ensures
        (p.0@, p.1@, p.2@, p.3@) == answer_phrases(locale@),
{
    if str_eq(locale, "en") {
        (
            "\nProject: ",
            ".\nYour request was: \"",
            "\".\nYou can continue asking about the current project, but for live model-backed answers check Ollama on ",
            " and ensure a local model is loaded.",
        )
    } else if str_eq(locale, "es") {
        (
            "\nProyecto: ",
            ".\nTu solicitud fue: \"",
            "\".\nPuedes seguir preguntando sobre el proyecto actual, pero para respuestas con modelo en vivo revisa Ollama en ",
            " y confirma que haya un modelo local cargado.",
        )
    } else {
        (
            "\nProjet: ",
            ".\nTa demande etait: \"",
            "\".\nTu peux continuer a poser des questions sur le projet courant, mais pour une vraie reponse modele en direct il faut verifier Ollama sur ",
            " et la presence d un modele local charge.",
        )
    }
}

fn digest_text(document: &ProjectDocument) -> (s: String)
    ensures
        s@ == project_digest(document@),
{
    let mut s = document.metadata.name.clone();
    s.append(" | ");
    append_count(&mut s, document.nodes.len());
    s.append(" entites | ");
    append_count(&mut s, document.endpoints.len());
    s.append(" endpoints | ");
    append_count(&mut s, document.streams.len());
    s.append(" flux | ");
    append_count(&mut s, document.plugin_manifests.len());
    s.append(" plugins");
    s
}

fn fallback_answer(locale: &str, message: &str, document: &ProjectDocument, available: bool, model: Option<&str>, endpoint: &str) -> (s: String)
    ensures
        s@ == fallback_answer_spec(locale@, message@, document@, available, opt_text(model), endpoint@),
{
    let p = phrases(locale);
    let digest = digest_text(document);
    let mut s = reason_text(locale, available, model);
    s.append(p.0);
    s.append(digest.as_str());
    s.append(p.1);
    s.append(message);
    s.append(p.2);
    s.append(endpoint);
    s.append(p.3);
    s
}

/// The grounded answer given when the model does not answer (see `fallback_answer_spec`).
pub fn build_fallback_answer(locale: &str, message: &str, document: &ProjectDocument, runtime: &AiRuntimeStatus) -> (s: String)
    ensures
        s@ == fallback_answer_spec(
            locale@,
            message@,
            document@,
            runtime.available,
            opt_view(runtime.active_model),
            runtime.endpoint@,
        ),
{
    let model: Option<&str> = match &runtime.active_model {
        Some(m) => Some(m.as_str()),
        None => None,
    };
    fallback_answer(locale, message, document, runtime.available, model, runtime.endpoint.as_str())
}

/// The answer with its surrounding blanks removed; an empty answer is
/// replaced by the grounded answer of an unreachable local server.
pub open spec fn normalized_answer_spec(answer: Seq<char>, locale: Seq<char>, d: DocumentModel) -> Seq<char> {
    if trim_spec(answer).len() == 0 {
        fallback_answer_spec(locale, "assistant returned an empty answer"@, d, false, None, "http://127.0.0.1:11434"@)
    } else {
        trim_spec(answer)
    }
}

pub fn normalize_answer(answer: String, locale: &str, document: &ProjectDocument) -> (s: String)
    ensures
        s@ == normalized_answer_spec(answer@, locale@, document@),
{
    let normalized = trim(answer.as_str());
    if normalized.as_str().unicode_len() == 0 {
        fallback_answer(locale, "assistant returned an empty answer", document, false, None, "http://127.0.0.1:11434")
    } else {
        normalized
    }
}

/// The messages sent to the model: the system prompt, the replayed history
/// and the user's message.
pub open spec fn chat_messages_spec(
    locale: Seq<char>,
    history: Seq<AiConversationMessage>,
    message: Seq<char>,
    d: DocumentModel,
    profile: AiProfilePreset,
) -> Seq<(Seq<char>, Seq<char>)> {
    seq![("system"@, system_prompt_spec(locale, d, profile))] + trimmed_history_spec(history) + seq![("user"@, message)]
}

pub fn build_ollama_messages(
    locale: &str,
    history: &[AiConversationMessage],
    message: &str,
    document: &ProjectDocument,
    profile: AiProfilePreset,
) -> (r: Vec<AiConversationMessage>)
    ensures
        message_views(r@) == chat_messages_spec(locale@, history@, message@, document@, profile),
{
    let mut r: Vec<AiConversationMessage> = Vec::new();
    r.push(AiConversationMessage { role: String::from_str("system"), content: build_system_prompt(locale, document, profile) });
    let replayed = trim_history(history);
    let n = replayed.len();
    let mut i: usize = 0;
    while i < n
        invariant
            n == replayed@.len(),
            i <= n,
            message_views(r@) == seq![("system"@, system_prompt_spec(locale@, document@, profile))] + message_views(
                replayed@,
            ).take(i as int),
        decreases n - i,
    {
        let m = &replayed[i];
        let ghost before = r@;
        r.push(AiConversationMessage { role: m.role.clone(), content: m.content.clone() });
        assert(message_views(r@) =~= message_views(before).push((replayed@[i as int].role@, replayed@[i as int].content@)));
        assert(message_views(replayed@).take(i + 1) =~= message_views(replayed@).take(i as int).push(
            (replayed@[i as int].role@, replayed@[i as int].content@),
        ));
        i = i + 1;
    }
    assert(message_views(replayed@).take(n as int) =~= message_views(replayed@));
    let ghost before = r@;
    r.push(AiConversationMessage { role: String::from_str("user"), content: String::from_str(message) });
    assert(message_views(r@) =~= message_views(before).push(("user"@, message@)));
    r
}

/// Why a chat was refused or could not reach the model server.
#[derive(Debug, Clone, PartialEq, Eq)]
pub enum AiError {
    EmptyMessage,
    Http(String),
}

impl AiError {
    /// The text of the error.
    pub fn message(&self) -> (m: String)
        ensures
            m@ == match self {
                AiError::EmptyMessage => "empty chat message"@,
                AiError::Http(e) => "http error: "@ + e@,
            },
    {
        match self {
            AiError::EmptyMessage => String::from_str("empty chat message"),
            AiError::Http(e) => {
                let mut m = String::from_str("http error: ");
                m.append(e.as_str());
                m
            },
        }
    }
}

/// The answer to a chat, with the runtime it came from, what it may cite,
/// its warnings and where it came from.
#[derive(Debug)]
pub struct AiChatResponse {
    pub answer: String,
    pub runtime: AiRuntimeStatus,
    pub references: Vec<String>,
    pub structured: Option<AiStructuredExplain>,
    pub suggestion_id: Option<String>,
    pub warnings: Vec<String>,
    pub source: String,
}

/// The warning as a list of at most one.
pub open spec fn warning_list(w: Option<Seq<char>>) -> Seq<Seq<char>> {
    match w {
        Some(x) => seq![x],
        None => Seq::empty(),
    }
}

fn warning_vec(w: &Option<String>) -> (v: Vec<String>)
    ensures
        views(v@) == warning_list(opt_view(*w)),
{
    let mut v: Vec<String> = Vec::new();
    if let Some(x) = w {
        v.push(x.clone());
    }
    assert(views(v@) =~= warning_list(opt_view(*w)));
    v
}

/// `r` is the grounded reply to `message` under its runtime.
pub open spec fn grounded_reply(r: AiChatResponse, locale: Seq<char>, message: Seq<char>, d: DocumentModel) -> bool {
    &&& r.answer@ == fallback_answer_spec(
        locale,
        message,
        d,
        r.runtime.available,
        opt_view(r.runtime.active_model),
        r.runtime.endpoint@,
    )
    &&& views(r.references@) == context_references_spec(d)
    &&& r.suggestion_id is None
    &&& views(r.warnings@) == warning_list(opt_view(r.runtime.warning))
    &&& r.source@ == (if r.runtime.available { "degraded-local"@ } else { "fallback-local"@ })
}

/// The grounded reply under `runtime`, with the explanation given.
pub fn fallback_response(
    locale: &str,
    message: &str,
    document: &ProjectDocument,
    structured: Option<AiStructuredExplain>,
    runtime: AiRuntimeStatus,
) -> (r: AiChatResponse)
    ensures
        grounded_reply(r, locale@, message@, document@),
        r.runtime == runtime,
        r.structured == structured,
{
    let source = if runtime.available { String::from_str("degraded-local") } else { String::from_str("fallback-local") };
    let warnings = warning_vec(&runtime.warning);
    let answer = build_fallback_answer(locale, message, document, &runtime);
    AiChatResponse {
        answer,
        runtime,
        references: collect_context_references(document),
        structured,
        suggestion_id: None,
        warnings,
        source,
    }
}

/// The message of a chat, trimmed; a blank message is refused.
pub fn chat_message(message: &str) -> (r: Result<String, AiError>)
    ensures
        trim_spec(message@).len() == 0 ==> r == Err::<String, AiError>(AiError::EmptyMessage),
        trim_spec(message@).len() > 0 ==> (r matches Ok(m) && m@ == trim_spec(message@)),
{
    let t = trim(message);
    if t.as_str().unicode_len() == 0 {
        Err(AiError::EmptyMessage)
    } else {
        Ok(t)
    }
}

/// What to ask the model: which model, the messages, the profile and its
/// context window, with the runtime and models the request was planned on.
#[derive(Debug)]
pub struct ChatRequest {
    pub model: String,
    pub messages: Vec<AiConversationMessage>,
    pub profile: AiProfilePreset,
    pub context_window: usize,
    pub runtime: AiRuntimeStatus,
    pub models: Vec<String>,
    /// The explanation the reply carries, whatever the model answers.
    pub structured: Option<AiStructuredExplain>,
}

/// The next step of a chat once the installed models are known: reply
/// without the model, or ask it.
#[derive(Debug)]
pub enum ChatStep {
    Reply(AiChatResponse),
    Ask(ChatRequest),
}

/// The runtime of a server that listed `models`.
pub open spec fn listed_status(st: AiRuntimeStatus, c: AiRuntimeConfig, models: Seq<Seq<char>>, sm: Option<Seq<char>>, sp: Option<Seq<char>>) -> bool {
    &&& status_common(st, c, models, sm, sp)
    &&& st.available == (models.len() > 0)
    &&& st.mode@ == "grounded-chat"@
    &&& opt_view(st.warning) == status_warning(c, models, sm, sp)
}

/// The runtime of a server that could not serve the chat, for `reason`.
pub open spec fn unavailable_status(
    st: AiRuntimeStatus,
    c: AiRuntimeConfig,
    models: Seq<Seq<char>>,
    sm: Option<Seq<char>>,
    sp: Option<Seq<char>>,
    reason: Seq<char>,
) -> bool {
    &&& status_common(st, c, models, sm, sp)
    &&& !st.available
    &&& st.mode@ == "fallback-local"@
    &&& opt_view(st.warning) == combine_spec(Some(reason), status_warning(c, models, sm, sp))
}

/// The runtime of a server whose chat failed for `reason`.
pub open spec fn degraded_status(
    st: AiRuntimeStatus,
    c: AiRuntimeConfig,
    models: Seq<Seq<char>>,
    sm: Option<Seq<char>>,
    sp: Option<Seq<char>>,
    reason: Seq<char>,
) -> bool {
    &&& status_common(st, c, models, sm, sp)
    &&& st.available == (models.len() > 0)
    &&& st.mode@ == (if models.len() > 0 { "degraded-chat"@ } else { "fallback-local"@ })
    &&& opt_view(st.warning) == combine_spec(Some(reason), status_warning(c, models, sm, sp))
}

/// Plans a chat on `message` (already trimmed) once the installed models
/// were fetched, or the fetch failed with a message: without a server or
/// without a usable model the reply is grounded; otherwise the chosen model
/// is asked with the profile the runtime settled on.
pub fn plan_chat(
    config: &AiRuntimeConfig,
    locale: &str,
    history: &[AiConversationMessage],
    message: &str,
    document: &ProjectDocument,
    selected_model: Option<&str>,
    selected_profile: Option<&str>,
    fetched: Result<Vec<String>, String>,
) -> (step: ChatStep)
    ensures
        ({
            let requested = requested_profile_spec(opt_str_view(selected_profile));
            let sm = opt_str_view(selected_model);
            match fetched {
                Err(e) => step matches ChatStep::Reply(r) && grounded_reply(r, locale@, message@, document@)
                    && unavailable_status(r.runtime, *config, Seq::empty(), sm, Some(profile_label(requested)), e@)
                    && (r.structured matches Some(x) && explains(x, document@, message@, requested)),
                Ok(models) => match model_selection_spec(views(models@), views(config.preferred_models@), sm).0 {
                    None => step matches ChatStep::Reply(r) && grounded_reply(r, locale@, message@, document@)
                        && unavailable_status(
                        r.runtime,
                        *config,
                        views(models@),
                        sm,
                        Some(profile_label(requested)),
                        "no preferred local model found"@,
                    ) && (r.structured matches Some(x) && explains(
                        x,
                        document@,
                        message@,
                        requested_profile_spec(
                            Some(profile_label(profile_selection_spec(views(models@), opt_str_view(selected_profile)).0)),
                        ),
                    )),
                    Some(model) => step matches ChatStep::Ask(q) && {
                        let profile = requested_profile_spec(Some(q.runtime.active_profile@));
                        &&& listed_status(q.runtime, *config, views(models@), sm, opt_str_view(selected_profile))
                        &&& q.model@ == model
                        &&& q.profile == profile
                        &&& q.context_window == context_window_spec(profile)
                        &&& message_views(q.messages@) == chat_messages_spec(locale@, history@, message@, document@, profile)
                        &&& views(q.models@) == views(models@)
                        &&& q.structured matches Some(x) && explains(x, document@, message@, profile)
                    },
                },
            }
        }),
{
    let requested = AiProfilePreset::from_requested(selected_profile);
    match fetched {
        Err(e) => {
            let none: Vec<String> = Vec::new();
            assert(views(none@) =~= Seq::<Seq<char>>::empty());
            let runtime = unavailable_runtime_status(config, e, none, selected_model, Some(requested.as_str()));
            let structured = build_structured_explain(document, message, requested);
            ChatStep::Reply(fallback_response(locale, message, document, Some(structured), runtime))
        },
        Ok(models) => {
            let kept = clone_texts(&models);
            let runtime = runtime_status_from_models(config, models, selected_model, selected_profile);
            let profile = AiProfilePreset::from_requested(Some(runtime.active_profile.as_str()));
            let structured = build_structured_explain(document, message, profile);
            match &runtime.active_model {
                None => {
                    let status = unavailable_runtime_status(
                        config,
                        String::from_str("no preferred local model found"),
                        kept,
                        selected_model,
                        Some(requested.as_str()),
                    );
                    ChatStep::Reply(fallback_response(locale, message, document, Some(structured), status))
                },
                Some(model) => {
                    let model = model.clone();
                    let messages = build_ollama_messages(locale, history, message, document, profile);
                    ChatStep::Ask(
                        ChatRequest {
                            model,
                            messages,
                            profile,
                            context_window: profile_context_window(profile),
                            runtime,
                            models: kept,
                            structured: Some(structured),
                        },
                    )
                },
            }
        },
    }
}

/// The reply once the model was asked: its normalised answer, or a grounded
/// reply on a degraded runtime when the chat failed with a message.
pub fn finish_chat(
    config: &AiRuntimeConfig,
    locale: &str,
    message: &str,
    document: &ProjectDocument,
    selected_model: Option<&str>,
    request: ChatRequest,
    outcome: Result<String, String>,
) -> (r: AiChatResponse)
    ensures
        match outcome {
            Ok(answer) => {
                &&& r.answer@ == normalized_answer_spec(answer@, locale@, document@)
                &&& r.runtime == request.runtime
                &&& views(r.references@) == context_references_spec(document@)
                &&& r.suggestion_id is None
                &&& views(r.warnings@) == warning_list(opt_view(request.runtime.warning))
                &&& r.source@ == "ollama-local"@
                &&& r.structured == request.structured
            },
            Err(e) => r.structured == request.structured && grounded_reply(r, locale@, message@, document@) && degraded_status(
                r.runtime,
                *config,
                views(request.models@),
                opt_str_view(selected_model),
                Some(profile_label(request.profile)),
                e@,
            ),
        },
{
    match outcome {
        Ok(answer) => {
            let warnings = warning_vec(&request.runtime.warning);
            AiChatResponse {
                answer: normalize_answer(answer, locale, document),
                runtime: request.runtime,
                references: collect_context_references(document),
                structured: request.structured,
                suggestion_id: None,
                warnings,
                source: String::from_str("ollama-local"),
            }
        },
        Err(e) => {
            let runtime = degraded_runtime_status(config, e, request.models, selected_model, Some(request.profile.as_str()));
            fallback_response(locale, message, document, request.structured, runtime)
        },
    }
}

proof fn lemma_dedupe_first(values: Seq<Seq<char>>)
    requires
        values.len() > 0,
    ensures
        dedupe_spec(values).len() > 0,
        dedupe_spec(values)[0] == values[0],
    decreases values.len(),
{
    if values.len() == 1 {
        assert(values.drop_last() =~= Seq::<Seq<char>>::empty());
    } else {
        lemma_dedupe_first(values.drop_last());
    }
}

/// The references an answer may cite are at most eight, each given once,
/// and start with the project itself.
pub proof fn law_context_references_distinct(d: DocumentModel)
    ensures
        context_references_spec(d).len() <= max_context_references(),
        context_references_spec(d).no_duplicates(),
        context_references_spec(d).len() > 0,
        context_references_spec(d)[0] == "project:"@ + d.metadata.project_id@,
{
    let candidates = seq!["project:"@ + d.metadata.project_id@] + prefixed_keys("entity:"@, key_order(d.nodes), 3)
        + prefixed_keys("endpoint:"@, key_order(d.endpoints), 2) + prefixed_keys("stream:"@, key_order(d.streams), 2)
        + prefixed_keys("plugin:"@, key_order(d.plugin_manifests), 1);
    crate::ai::law_dedupe_keeps_each_value_once(candidates);
    lemma_dedupe_first(candidates);
    let r = dedupe_spec(candidates);
    if r.len() > max_context_references() {
        assert forall|i: int, j: int| 0 <= i < j < r.take(8).len() implies r.take(8)[i] != r.take(8)[j] by {
            assert(r[i] != r[j]);
        }
    }
}

} // verus!
