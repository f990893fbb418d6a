//! What the workspace shows of a project besides its entities: the
//! endpoints, streams, plugins and OpenSpec documents it lists, and the
//! most recent activity of the command and event logs.
use vstd::prelude::*;
use crate::ai::opt_view;
use crate::assistant::plugin_enabled;
use crate::keyed::{key_order, key_views, lists_in_order};
use crate::project::{DocumentModel, ExternalEndpoint, ProjectDocument, TelemetryStream};
use crate::text::{lemma_seq_lt_irreflexive, lemma_seq_lt_transitive, seq_lt, str_eq, str_lt};
use crate::types::{
    clone_opt_text, endpoint_type_label_spec, stream_direction_label_spec, ConnectionMode, OpenSpecDocument,
    PluginManifest,
};
use crate::workspace::{address_label, endpoint_address_label, excerpt, open_spec_excerpt, opt_text};

verus! {

/// The snake-case label of a connection mode.
pub open spec fn connection_mode_label(m: ConnectionMode) -> Seq<char> {
    match m {
        ConnectionMode::Live => "live"@,
        ConnectionMode::Replay => "replay"@,
        ConnectionMode::Emulated => "emulated"@,
        ConnectionMode::Gateway => "gateway"@,
    }
}

pub fn connection_mode_as_str(m: ConnectionMode) -> (s: &'static str)
    ensures
        s@ == connection_mode_label(m),
{
    match m {
        ConnectionMode::Live => "live",
        ConnectionMode::Replay => "replay",
        ConnectionMode::Emulated => "emulated",
        ConnectionMode::Gateway => "gateway",
    }
}

/// A line of the activity feed.
#[derive(Debug, PartialEq, Eq)]
pub struct ActivityEntry {
    pub id: String,
    pub channel: String,
    pub kind: String,
    pub timestamp: String,
    pub target_id: Option<String>,
}

impl Clone for ActivityEntry {
    fn clone(&self) -> (r: Self)
        ensures
            r == *self,
    {
        ActivityEntry {
            id: self.id.clone(),
            channel: self.channel.clone(),
            kind: self.kind.clone(),
            timestamp: self.timestamp.clone(),
            target_id: clone_opt_text(&self.target_id),
        }
    }
}

pub struct ActivityView {
    pub id: Seq<char>,
    pub channel: Seq<char>,
    pub kind: Seq<char>,
    pub timestamp: Seq<char>,
    pub target_id: Option<Seq<char>>,
}

pub open spec fn activity_view(a: ActivityEntry) -> ActivityView {
    ActivityView { id: a.id@, channel: a.channel@, kind: a.kind@, timestamp: a.timestamp@, target_id: opt_view(a.target_id) }
}

pub open spec fn activity_views(s: Seq<ActivityEntry>) -> Seq<ActivityView> {
    s.map_values(|a: ActivityEntry| activity_view(a))
}

/// The feed of both logs and the extra entries, before ordering: commands,
/// then events, then the extra entries.
pub open spec fn activity_candidates(d: DocumentModel, extra: Seq<ActivityEntry>) -> Seq<ActivityView> {
    d.commands.map_values(
        |c: crate::project::CommandEnvelope|
            ActivityView {
                id: c.command_id@,
                channel: "command"@,
                kind: c.kind@,
                timestamp: c.timestamp@,
                target_id: opt_view(c.target_id),
            },
    ) + d.events.map_values(
        |e: crate::project::EventEnvelope|
            ActivityView {
                id: e.event_id@,
                channel: "event"@,
                kind: e.kind@,
                timestamp: e.timestamp@,
                target_id: opt_view(e.target_id),
            },
    ) + activity_views(extra)
}

/// `a` comes before `b` in the feed: a later timestamp, or the same
/// timestamp and a greater id.
pub open spec fn newer(a: ActivityView, b: ActivityView) -> bool {
    seq_lt(b.timestamp, a.timestamp) || (a.timestamp == b.timestamp && seq_lt(b.id, a.id))
}

/// Where a stable insertion puts `x`: after every entry it is not newer than.
pub open spec fn feed_insert_pos(sorted: Seq<ActivityView>, x: ActivityView, i: int) -> int
    decreases sorted.len() - i,
{
    if i < 0 || i >= sorted.len() {
        sorted.len() as int
    } else if newer(x, sorted[i]) {
        i
    } else {
        feed_insert_pos(sorted, x, i + 1)
    }
}

/// The entries newest first, ties kept in their order.
pub open spec fn sort_feed(s: Seq<ActivityView>) -> Seq<ActivityView>
    decreases s.len(),
{
    if s.len() == 0 {
        Seq::empty()
    } else {
        let sorted = sort_feed(s.drop_last());
        sorted.insert(feed_insert_pos(sorted, s.last(), 0), s.last())
    }
}

/// The recent activity: the feed newest first, at most twelve entries.
pub open spec fn recent_activity_spec(d: DocumentModel, extra: Seq<ActivityEntry>) -> Seq<ActivityView> {
    let sorted = sort_feed(activity_candidates(d, extra));
    if sorted.len() <= 12 {
        sorted
    } else {
        sorted.take(12)
    }
}

fn is_newer(a: &ActivityEntry, b: &ActivityEntry) -> (r: bool)
    ensures
        r == newer(activity_view(*a), activity_view(*b)),
{
    str_lt(b.timestamp.as_str(), a.timestamp.as_str()) || (str_eq(a.timestamp.as_str(), b.timestamp.as_str()) && str_lt(
        b.id.as_str(),
        a.id.as_str(),
    ))
}

proof fn lemma_sort_feed_len(s: Seq<ActivityView>)
    ensures
        sort_feed(s).len() == s.len(),
    decreases s.len(),
{
    if s.len() > 0 {
        lemma_sort_feed_len(s.drop_last());
        lemma_feed_insert_pos(sort_feed(s.drop_last()), s.last(), 0);
    }
}

proof fn lemma_feed_insert_pos(sorted: Seq<ActivityView>, x: ActivityView, i: int)
    requires
        0 <= i <= sorted.len(),
    ensures
        i <= feed_insert_pos(sorted, x, i) <= sorted.len(),
        forall|k: int| i <= k < feed_insert_pos(sorted, x, i) ==> !newer(x, #[trigger] sorted[k]),
        feed_insert_pos(sorted, x, i) < sorted.len() ==> newer(x, sorted[feed_insert_pos(sorted, x, i)]),
    decreases sorted.len() - i,
{
    if i < sorted.len() && !newer(x, sorted[i]) {
        lemma_feed_insert_pos(sorted, x, i + 1);
    }
}

fn activity(id: &String, channel: &str, kind: &String, timestamp: &String, target_id: &Option<String>) -> (a: ActivityEntry)
    ensures
        activity_view(a) == (ActivityView {
            id: id@,
            channel: channel@,
            kind: kind@,
            timestamp: timestamp@,
            target_id: opt_view(*target_id),
        }),
{
    ActivityEntry {
        id: id.clone(),
        channel: String::from_str(channel),
        kind: kind.clone(),
        timestamp: timestamp.clone(),
        target_id: clone_opt_text(target_id),
    }
}

/// The most recent activity: the commands, events and `extra` entries,
/// newest first (by timestamp, then id), at most twelve.
pub fn recent_activity(document: &ProjectDocument, extra: &[ActivityEntry]) -> (r: Vec<ActivityEntry>)
    ensures
        activity_views(r@) == recent_activity_spec(document@, extra@),
{
    let mut all: Vec<ActivityEntry> = Vec::new();
    let nc = document.commands.len();
    let mut i: usize = 0;
    while i < nc
        invariant
            nc == document.commands@.len(),
            i <= nc,
            activity_views(all@) == activity_candidates(document@, extra@).take(i as int),
        decreases nc - i,
    {
        let c = &document.commands[i];
        let a = activity(&c.command_id, "command", &c.kind, &c.timestamp, &c.target_id);
        let ghost before = all@;
        all.push(a);
        assert(activity_views(all@) =~= activity_views(before).push(activity_view(a)));
        assert(activity_candidates(document@, extra@).take(i + 1) =~= activity_candidates(document@, extra@).take(i as int).push(
            activity_candidates(document@, extra@)[i as int],
        ));
        i = i + 1;
    }
    let ne = document.events.len();
    let mut j: usize = 0;
    while j < ne
        invariant
            nc == document.commands@.len(),
            ne == document.events@.len(),
            j <= ne,
            activity_views(all@) == activity_candidates(document@, extra@).take(nc + j),
        decreases ne - j,
    {
        let e = &document.events[j];
        let a = activity(&e.event_id, "event", &e.kind, &e.timestamp, &e.target_id);
        let ghost before = all@;
        all.push(a);
        assert(activity_views(all@) =~= activity_views(before).push(activity_view(a)));
        assert(activity_candidates(document@, extra@).take(nc + j + 1) =~= activity_candidates(document@, extra@).take(
            nc + j,
        ).push(activity_candidates(document@, extra@)[nc + j]));
        j = j + 1;
    }
    let nx = extra.len();
    let mut k: usize = 0;
    while k < nx
        invariant
            nc == document.commands@.len(),
            ne == document.events@.len(),
            nx == extra@.len(),
            k <= nx,
            activity_views(all@) == activity_candidates(document@, extra@).take(nc + ne + k),
        decreases nx - k,
    {
        let a = extra[k].clone();
        let ghost before = all@;
        all.push(a);
        assert(activity_views(all@) =~= activity_views(before).push(activity_view(a)));
        assert(activity_candidates(document@, extra@).take(nc + ne + k + 1) =~= activity_candidates(document@, extra@).take(
            nc + ne + k,
        ).push(activity_candidates(document@, extra@)[nc + ne + k]));
        k = k + 1;
    }
    let ghost cands = activity_candidates(document@, extra@);
    assert(cands.take(nc + ne + nx) =~= cands);
    let n = all.len();
    let mut sorted: Vec<ActivityEntry> = Vec::new();
    let mut p: usize = 0;
    while p < n
        invariant
            n == all@.len(),
            activity_views(all@) == cands,
            p <= n,
            activity_views(sorted@) == sort_feed(cands.take(p as int)),
        decreases n - p,
    {
        assert(cands.take(p + 1).drop_last() =~= cands.take(p as int));
        let x = all[p].clone();
        assert(activity_view(x) == cands[p as int]);
        let m = sorted.len();
        let mut q: usize = 0;
        while q < m && !is_newer(&x, &sorted[q])
            invariant
                m == sorted@.len(),
                q <= m,
                feed_insert_pos(activity_views(sorted@), activity_view(x), 0) == feed_insert_pos(
                    activity_views(sorted@),
                    activity_view(x),
                    q as int,
                ),
            decreases m - q,
        {
            assert(activity_views(sorted@)[q as int] == activity_view(sorted@[q as int]));
            q = q + 1;
        }
        proof {
            if q < m {
                assert(activity_views(sorted@)[q as int] == activity_view(sorted@[q as int]));
            }
        }
        let ghost before = sorted@;
        sorted.insert(q, x);
        assert(activity_views(sorted@) =~= activity_views(before).insert(q as int, activity_view(x)));
        p = p + 1;
    }
    assert(cands.take(n as int) =~= cands);
    proof {
        lemma_sort_feed_len(cands);
    }
    if sorted.len() <= 12 {
        return sorted;
    }
    let mut r: Vec<ActivityEntry> = Vec::new();
    let mut t: usize = 0;
    while t < 12
        invariant
            sorted@.len() > 12,
            t <= 12,
            activity_views(r@) == activity_views(sorted@).take(t as int),
        decreases 12 - t,
    {
        let a = sorted[t].clone();
        let ghost before = r@;
        r.push(a);
        assert(activity_views(r@) =~= activity_views(before).push(activity_view(a)));
        assert(activity_views(sorted@).take(t + 1) =~= activity_views(sorted@).take(t as int).push(
            activity_views(sorted@)[t as int],
        ));
        t = t + 1;
    }
    r
}

/// The feed lists no entry after one it is newer than.
pub open spec fn feed_in_order(s: Seq<ActivityView>) -> bool {
    forall|i: int, j: int| 0 <= i < j < s.len() ==> !newer(#[trigger] s[j], #[trigger] s[i])
}

proof fn lemma_newer_transitive(a: ActivityView, b: ActivityView, c: ActivityView)
    requires
        newer(a, b),
        newer(b, c),
    ensures
        newer(a, c),
{
    if seq_lt(b.timestamp, a.timestamp) && seq_lt(c.timestamp, b.timestamp) {
        lemma_seq_lt_transitive(c.timestamp, b.timestamp, a.timestamp);
    } else if seq_lt(b.id, a.id) && seq_lt(c.id, b.id) && a.timestamp == b.timestamp && b.timestamp == c.timestamp {
        lemma_seq_lt_transitive(c.id, b.id, a.id);
    }
}

proof fn lemma_newer_irreflexive(a: ActivityView)
    ensures
        !newer(a, a),
{
    lemma_seq_lt_irreflexive(a.timestamp);
    lemma_seq_lt_irreflexive(a.id);
}

/// The activity feed is newest first, and neither loses nor adds an entry:
/// its order is a sorted permutation of the logs and the extra entries.
pub proof fn law_activity_newest_first(s: Seq<ActivityView>)
    ensures
        feed_in_order(sort_feed(s)),
        sort_feed(s).to_multiset() == s.to_multiset(),
    decreases s.len(),
{
    broadcast use vstd::seq_lib::group_to_multiset_ensures;
    if s.len() > 0 {
        let rest = sort_feed(s.drop_last());
        law_activity_newest_first(s.drop_last());
        let x = s.last();
        let p = feed_insert_pos(rest, x, 0);
        lemma_feed_insert_pos(rest, x, 0);
        let t = rest.insert(p, x);
        assert(t == sort_feed(s));
        assert forall|i: int, j: int| 0 <= i < j < t.len() implies !newer(#[trigger] t[j], #[trigger] t[i]) by {
            if j < p {
                assert(t[i] == rest[i] && t[j] == rest[j]);
            } else if j == p {
                assert(t[i] == rest[i] && t[j] == x);
            } else if i < p {
                assert(t[i] == rest[i] && t[j] == rest[j - 1]);
            } else if i == p {
                assert(t[i] == x && t[j] == rest[j - 1]);
                if newer(rest[j - 1], x) {
                    lemma_newer_transitive(rest[j - 1], x, rest[p]);
                    if j - 1 == p {
                        lemma_newer_irreflexive(rest[p]);
                    } else {
                        assert(!newer(rest[j - 1], rest[p]));
                    }
                }
            } else {
                assert(t[i] == rest[i - 1] && t[j] == rest[j - 1]);
            }
        }
        assert(t.remove(p) =~= rest);
        assert(t[p] == x);
        assert(s.drop_last().push(x) =~= s);
    }
}

/// An endpoint as the workspace lists it.
#[derive(Debug, Clone, PartialEq, Eq)]
pub struct EndpointSummary {
    pub id: String,
    pub name: String,
    pub endpoint_type: String,
    pub transport_kind: String,
    pub mode: String,
    pub address: String,
    pub status: String,
}

pub open spec fn endpoint_summary_view(s: EndpointSummary) -> Seq<Seq<char>> {
    seq![s.id@, s.name@, s.endpoint_type@, s.transport_kind@, s.mode@, s.address@, s.status@]
}

/// The listing of an endpoint: id, name, type, transport, mode, address, status.
pub open spec fn endpoint_listing(e: ExternalEndpoint) -> Seq<Seq<char>> {
    seq![
        e.id@,
        e.name@,
        endpoint_type_label_spec(e.endpoint_type),
        e.transport_profile.transport_kind@,
        connection_mode_label(e.mode),
        address_label(
            opt_view(e.addressing.host),
            e.addressing.port,
            opt_view(e.addressing.path),
            opt_view(e.addressing.device_id),
        ),
        e.status@,
    ]
}

fn opt_str(o: &Option<String>) -> (r: Option<&str>)
    ensures
        opt_text(r) == opt_view(*o),
{
    match o {
        Some(s) => Some(s.as_str()),
        None => None,
    }
}

/// The endpoints of `document` in key order.
pub fn endpoint_summaries(document: &ProjectDocument) -> (r: Vec<EndpointSummary>)
    ensures
        r@.map_values(|s: EndpointSummary| endpoint_summary_view(s)) == key_order(document@.endpoints).map_values(
            |k: Seq<char>| endpoint_listing(document@.endpoints[k]),
        ),
{
    let map = &document.endpoints;
    let keys = map.sorted_keys();
    let ghost all = key_order(map@).map_values(|k: Seq<char>| endpoint_listing(map@[k]));
    let n = keys.len();
    let mut r: Vec<EndpointSummary> = Vec::new();
    let mut i: usize = 0;
    while i < n
        invariant
            n == keys@.len(),
            key_views(keys@) == key_order(map@),
            lists_in_order(key_order(map@), map@.dom()),
            all == key_order(map@).map_values(|k: Seq<char>| endpoint_listing(map@[k])),
            i <= n,
            r@.map_values(|s: EndpointSummary| endpoint_summary_view(s)) == all.take(i as int),
        decreases n - i,
    {
        assert(key_views(keys@)[i as int] == keys@[i as int]@);
        assert(key_order(map@).contains(keys@[i as int]@));
        let e = match map.get(keys[i].as_str()) {
            Some(e) => e,
            None => {
                assert(false);
                return r;
            },
        };
        let summary = EndpointSummary {
            id: e.id.clone(),
            name: e.name.clone(),
            endpoint_type: String::from_str(e.endpoint_type.as_str()),
            transport_kind: e.transport_profile.transport_kind.clone(),
            mode: String::from_str(connection_mode_as_str(e.mode)),
            address: endpoint_address_label(
                opt_str(&e.addressing.host),
                e.addressing.port,
                opt_str(&e.addressing.path),
                opt_str(&e.addressing.device_id),
            ),
            status: e.status.clone(),
        };
        assert(endpoint_summary_view(summary) =~= all[i as int]);
        let ghost before = r@;
        r.push(summary);
        assert(r@.map_values(|s: EndpointSummary| endpoint_summary_view(s)) =~= before.map_values(
            |s: EndpointSummary| endpoint_summary_view(s),
        ).push(all[i as int]));
        assert(all.take(i + 1) =~= all.take(i as int).push(all[i as int]));
        i = i + 1;
    }
    assert(all.take(n as int) =~= all);
    r
}

/// A stream as the workspace lists it.
#[derive(Debug, Clone, PartialEq, Eq)]
pub struct StreamSummary {
    pub id: String,
    pub name: String,
    pub endpoint_id: String,
    pub stream_type: String,
    pub direction: String,
    pub status: String,
}

pub open spec fn stream_summary_view(s: StreamSummary) -> Seq<Seq<char>> {
    seq![s.id@, s.name@, s.endpoint_id@, s.stream_type@, s.direction@, s.status@]
}

/// The listing of a stream: id, name, endpoint, type, direction, status.
pub open spec fn stream_listing(t: TelemetryStream) -> Seq<Seq<char>> {
    seq![t.id@, t.name@, t.endpoint_id@, t.stream_type@, stream_direction_label_spec(t.direction), t.status@]
}

/// The streams of `document` in key order.
pub fn stream_summaries(document: &ProjectDocument) -> (r: Vec<StreamSummary>)
    ensures
        r@.map_values(|s: StreamSummary| stream_summary_view(s)) == key_order(document@.streams).map_values(
            |k: Seq<char>| stream_listing(document@.streams[k]),
        ),
{
    let map = &document.streams;
    let keys = map.sorted_keys();
    let ghost all = key_order(map@).map_values(|k: Seq<char>| stream_listing(map@[k]));
    let n = keys.len();
    let mut r: Vec<StreamSummary> = Vec::new();
    let mut i: usize = 0;
    while i < n
        invariant
            n == keys@.len(),
            key_views(keys@) == key_order(map@),
            lists_in_order(key_order(map@), map@.dom()),
            all == key_order(map@).map_values(|k: Seq<char>| stream_listing(map@[k])),
            i <= n,
            r@.map_values(|s: StreamSummary| stream_summary_view(s)) == all.take(i as int),
        decreases n - i,
    {
        assert(key_views(keys@)[i as int] == keys@[i as int]@);
        assert(key_order(map@).contains(keys@[i as int]@));
        let t = match map.get(keys[i].as_str()) {
            Some(t) => t,
            None => {
                assert(false);
                return r;
            },
        };
        let summary = StreamSummary {
            id: t.id.clone(),
            name: t.name.clone(),
            endpoint_id: t.endpoint_id.clone(),
            stream_type: t.stream_type.clone(),
            direction: String::from_str(t.direction.as_str()),
            status: t.status.clone(),
        };
        assert(stream_summary_view(summary) =~= all[i as int]);
        let ghost before = r@;
        r.push(summary);
        assert(r@.map_values(|s: StreamSummary| stream_summary_view(s)) =~= before.map_values(
            |s: StreamSummary| stream_summary_view(s),
        ).push(all[i as int]));
        assert(all.take(i + 1) =~= all.take(i as int).push(all[i as int]));
        i = i + 1;
    }
    assert(all.take(n as int) =~= all);
    r
}

/// A plugin as the workspace lists it.
#[derive(Debug, Clone, PartialEq, Eq)]
pub struct PluginSummary {
    pub plugin_id: String,
    pub version: String,
    pub enabled: bool,
    pub status: String,
}

pub open spec fn plugin_summary_view(s: PluginSummary) -> (Seq<char>, Seq<char>, bool, Seq<char>) {
    (s.plugin_id@, s.version@, s.enabled, s.status@)
}

/// The listing of a plugin; a plugin without a recorded state is disabled.
pub open spec fn plugin_listing(p: PluginManifest, states: Map<Seq<char>, bool>) -> (Seq<char>, Seq<char>, bool, Seq<char>) {
    (p.plugin_id@, p.version@, plugin_enabled(states, p.plugin_id@), p.status@)
}

/// The plugins of `document` in key order.
pub fn plugin_summaries(document: &ProjectDocument) -> (r: Vec<PluginSummary>)
    ensures
        r@.map_values(|s: PluginSummary| plugin_summary_view(s)) == key_order(document@.plugin_manifests).map_values(
            |k: Seq<char>| plugin_listing(document@.plugin_manifests[k], document@.plugin_states),
        ),
{
    let map = &document.plugin_manifests;
    let states = &document.plugin_states;
    let keys = map.sorted_keys();
    let ghost all = key_order(map@).map_values(|k: Seq<char>| plugin_listing(map@[k], states@));
    let n = keys.len();
    let mut r: Vec<PluginSummary> = Vec::new();
    let mut i: usize = 0;
    while i < n
        invariant
            n == keys@.len(),
            key_views(keys@) == key_order(map@),
            lists_in_order(key_order(map@), map@.dom()),
            all == key_order(map@).map_values(|k: Seq<char>| plugin_listing(map@[k], states@)),
            i <= n,
            r@.map_values(|s: PluginSummary| plugin_summary_view(s)) == all.take(i as int),
        decreases n - i,
    {
        assert(key_views(keys@)[i as int] == keys@[i as int]@);
        assert(key_order(map@).contains(keys@[i as int]@));
        let p = match map.get(keys[i].as_str()) {
            Some(p) => p,
            None => {
                assert(false);
                return r;
            },
        };
        let enabled = match states.get(p.plugin_id.as_str()) {
            Some(v) => *v,
            None => false,
        };
        let summary = PluginSummary {
            plugin_id: p.plugin_id.clone(),
            version: p.version.clone(),
            enabled,
            status: p.status.clone(),
        };
        assert(plugin_summary_view(summary) == all[i as int]);
        let ghost before = r@;
        r.push(summary);
        assert(r@.map_values(|s: PluginSummary| plugin_summary_view(s)) =~= before.map_values(
            |s: PluginSummary| plugin_summary_view(s),
        ).push(all[i as int]));
        assert(all.take(i + 1) =~= all.take(i as int).push(all[i as int]));
        i = i + 1;
    }
    assert(all.take(n as int) =~= all);
    r
}

/// An OpenSpec document as the workspace lists it.
#[derive(Debug, Clone, PartialEq, Eq)]
pub struct OpenSpecDocumentSummary {
    pub id: String,
    pub title: String,
    pub kind: String,
    pub status: String,
    pub linked_entity_count: usize,
    pub linked_external_count: usize,
    pub tag_count: usize,
    pub excerpt: String,
}

pub open spec fn open_spec_summary_view(s: OpenSpecDocumentSummary) -> (Seq<Seq<char>>, Seq<usize>) {
    (seq![s.id@, s.title@, s.kind@, s.status@, s.excerpt@], seq![s.linked_entity_count, s.linked_external_count, s.tag_count])
}

/// The listing of a document: its texts, the counts of its links and tags,
/// and the excerpt of its content.
pub open spec fn open_spec_listing(o: OpenSpecDocument) -> (Seq<Seq<char>>, Seq<usize>) {
    (
        seq![o.id@, o.title@, o.kind@, o.status@, excerpt(o.content@)],
        seq![o.entity_refs@.len() as usize, o.external_refs@.len() as usize, o.tags@.len() as usize],
    )
}

/// The OpenSpec documents of `document` in key order.
pub fn open_spec_summaries(document: &ProjectDocument) -> (r: Vec<OpenSpecDocumentSummary>)
    ensures
        r@.map_values(|s: OpenSpecDocumentSummary| open_spec_summary_view(s)) == key_order(
            document@.open_spec_documents,
        ).map_values(|k: Seq<char>| open_spec_listing(document@.open_spec_documents[k])),
{
    let map = &document.open_spec_documents;
    let keys = map.sorted_keys();
    let ghost all = key_order(map@).map_values(|k: Seq<char>| open_spec_listing(map@[k]));
    let n = keys.len();
    let mut r: Vec<OpenSpecDocumentSummary> = Vec::new();
    let mut i: usize = 0;
    while i < n
        invariant
            n == keys@.len(),
            key_views(keys@) == key_order(map@),
            lists_in_order(key_order(map@), map@.dom()),
            all == key_order(map@).map_values(|k: Seq<char>| open_spec_listing(map@[k])),
            i <= n,
            r@.map_values(|s: OpenSpecDocumentSummary| open_spec_summary_view(s)) == all.take(i as int),
        decreases n - i,
    {
        assert(key_views(keys@)[i as int] == keys@[i as int]@);
        assert(key_order(map@).contains(keys@[i as int]@));
        let o = match map.get(keys[i].as_str()) {
            Some(o) => o,
            None => {
                assert(false);
                return r;
            },
        };
        let summary = OpenSpecDocumentSummary {
            id: o.id.clone(),
            title: o.title.clone(),
            kind: o.kind.clone(),
            status: o.status.clone(),
            linked_entity_count: o.entity_refs.len(),
            linked_external_count: o.external_refs.len(),
            tag_count: o.tags.len(),
            excerpt: open_spec_excerpt(o.content.as_str()),
        };
        assert(open_spec_summary_view(summary) =~= all[i as int]);
        let ghost before = r@;
        r.push(summary);
        assert(r@.map_values(|s: OpenSpecDocumentSummary| open_spec_summary_view(s)) =~= before.map_values(
            |s: OpenSpecDocumentSummary| open_spec_summary_view(s),
        ).push(all[i as int]));
        assert(all.take(i + 1) =~= all.take(i as int).push(all[i as int]));
        i = i + 1;
    }
    assert(all.take(n as int) =~= all);
    r
}

/// The status line of the desktop backend.
#[derive(Debug, Clone, PartialEq, Eq)]
pub struct BackendStatus {
    pub runtime: String,
    pub fixture_id: String,
    pub project_name: String,
    pub entity_count: usize,
    pub endpoint_count: usize,
    pub stream_count: usize,
    pub plugin_count: usize,
}

/// The backend status of `document` loaded as `project_id`: the runtime,
/// the project's name and the size of each collection.
pub fn status_from_document(project_id: &str, document: &ProjectDocument) -> (s: BackendStatus)
    ensures
        s.runtime@ == "tauri-rust"@,
        s.fixture_id@ == project_id@,
        s.project_name@ == document@.metadata.name@,
        s.entity_count == document@.nodes.len(),
        s.endpoint_count == document@.endpoints.len(),
        s.stream_count == document@.streams.len(),
        s.plugin_count == document@.plugin_manifests.len(),
{
    BackendStatus {
        runtime: String::from_str("tauri-rust"),
        fixture_id: String::from_str(project_id),
        project_name: document.metadata.name.clone(),
        entity_count: document.nodes.len(),
        endpoint_count: document.endpoints.len(),
        stream_count: document.streams.len(),
        plugin_count: document.plugin_manifests.len(),
    }
}

} // verus!
