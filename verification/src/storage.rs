//! A project on disk: which file holds which record, how a document is
//! rebuilt from the records read back, and the JSON Lines framing of the
//! logs. Reading and writing files and (de)serialising records is the
//! caller's work.
use vstd::prelude::*;
use crate::assistant::joined;
use crate::keyed::{key_order, key_views, lists_in_order, KeyedMap};
use crate::project::{CommandEnvelope, EntityRecord, EventEnvelope, ExternalEndpoint, ProjectDocument, TelemetryStream};
use crate::types::{GraphEdge, PluginManifest, ProjectMetadata};
use crate::text::{chars_of, is_blank, lemma_trim_empty_iff_blank, string_of, trim_spec};
use crate::workspace::{lemma_newline_from, newline_from};

verus! {

/// The payloads joined by line breaks, with a final line break when the
/// text is not empty.
pub open spec fn jsonl_text_spec(payloads: Seq<Seq<char>>) -> Seq<char> {
    let body = joined(payloads, "\n"@);
    if body.len() == 0 {
        body
    } else {
        body + "\n"@
    }
}

/// The JSON Lines text of `payloads` (see `jsonl_text_spec`).
pub fn jsonl_text(payloads: &[String]) -> (s: String)
    ensures
        s@ == jsonl_text_spec(key_views(payloads@)),
{
    let n = payloads.len();
    let ghost all = key_views(payloads@);
    let mut s = String::new();
    if n == 0 {
        return s;
    }
    s.append(payloads[0].as_str());
    assert(all.take(1) =~= seq![all[0]]);
    let mut i: usize = 1;
    while i < n
        invariant
            n == payloads@.len(),
            all == key_views(payloads@),
            1 <= i <= n,
            s@ == joined(all.take(i as int), "\n"@),
        decreases n - i,
    {
        assert(all.take(i + 1).drop_last() =~= all.take(i as int));
        s.append("\n");
        s.append(payloads[i].as_str());
        i = i + 1;
    }
    assert(all.take(n as int) =~= all);
    if s.as_str().unicode_len() > 0 {
        s.append("\n");
    }
    s
}

/// A line without the carriage return of a `\r\n` ending.
pub open spec fn strip_cr(line: Seq<char>) -> Seq<char> {
    if line.len() > 0 && line.last() == '\r' {
        line.drop_last()
    } else {
        line
    }
}

/// The payloads of a JSON Lines text: its lines (split at `\n`, a `\r`
/// before it dropped), the blank ones skipped.
pub open spec fn jsonl_records_spec(s: Seq<char>) -> Seq<Seq<char>>
    decreases s.len(),
{
    let k = newline_from(s, 0);
    let line = strip_cr(s.take(k));
    let rest = if 0 <= k < s.len() {
        jsonl_records_spec(s.skip(k + 1))
    } else {
        Seq::empty()
    };
    if trim_spec(line).len() > 0 {
        seq![line] + rest
    } else {
        rest
    }
}

/// The payloads of `content` (see `jsonl_records_spec`).
pub fn jsonl_records(content: &str) -> (r: Vec<String>)
    ensures
        key_views(r@) == jsonl_records_spec(content@),
{
    let v = chars_of(content);
    let n = v.len();
    let mut out: Vec<String> = Vec::new();
    let mut start: usize = 0;
    assert(content@.skip(0) =~= content@);
    loop
        invariant
            v@ == content@,
            n == v@.len(),
            start <= n,
            jsonl_records_spec(content@) == key_views(out@) + jsonl_records_spec(content@.skip(start as int)),
        decreases n - start,
    {
        let ghost rest = content@.skip(start as int);
        proof {
            lemma_newline_from(rest, 0);
        }
        let mut end: usize = start;
        while end < n && v[end] != '\n'
            invariant
                v@ == content@,
                n == v@.len(),
                start <= end <= n,
                rest == content@.skip(start as int),
                rest.len() == n - start,
                newline_from(rest, 0) <= rest.len(),
                newline_from(rest, 0) < rest.len() ==> rest[newline_from(rest, 0)] == '\n',
                newline_from(rest, 0) >= end - start,
                forall|j: int| start <= j < end ==> v@[j] != '\n',
            decreases n - end,
        {
            assert(rest[end - start] == v@[end as int]);
            end = end + 1;
        }
        proof {
            assert(newline_from(rest, 0) == end - start) by {
                if newline_from(rest, 0) > end - start {
                    assert(rest[end - start] == v@[end as int]);
                }
            }
        }
        let mut cut: usize = end;
        if cut > start && v[cut - 1] == '\r' {
            cut = cut - 1;
        }
        let mut line: Vec<char> = Vec::new();
        let mut j: usize = start;
        while j < cut
            invariant
                v@ == content@,
                n == v@.len(),
                start <= j <= cut <= n,
                line@ == v@.subrange(start as int, j as int),
            decreases cut - j,
        {
            line.push(v[j]);
            j = j + 1;
            assert(line@ =~= v@.subrange(start as int, j as int));
        }
        let text = string_of(&line);
        let ghost l = strip_cr(rest.take(end - start));
        assert(rest.take(end - start) =~= v@.subrange(start as int, end as int));
        assert(text@ =~= l);
        let keep = !is_blank(text.as_str());
        let ghost before = out@;
        if keep {
            out.push(text);
            assert(key_views(out@) =~= key_views(before).push(l));
        }
        if end >= n {
            proof {
                assert(jsonl_records_spec(rest) == if trim_spec(l).len() > 0 { seq![l] } else { Seq::<Seq<char>>::empty() });
                assert(key_views(before) + jsonl_records_spec(rest) =~= key_views(out@));
            }
            return out;
        }
        assert(rest.skip(end - start + 1) =~= content@.skip(end + 1));
        proof {
            if keep {
                assert(key_views(before) + (seq![l] + jsonl_records_spec(content@.skip(end + 1))) =~= key_views(out@)
                    + jsonl_records_spec(content@.skip(end + 1)));
            }
        }
        start = end + 1;
    }
}

/// `joined` unfolded from the front.
proof fn lemma_joined_front(ps: Seq<Seq<char>>, sep: Seq<char>)
    requires
        ps.len() >= 2,
    ensures
        joined(ps, sep) == ps[0] + sep + joined(ps.drop_first(), sep),
    decreases ps.len(),
{
    if ps.len() == 2 {
        assert(ps.drop_last() =~= seq![ps[0]]);
        assert(ps.drop_first() =~= seq![ps[1]]);
        assert(joined(ps.drop_last(), sep) == ps[0]);
        assert(joined(ps.drop_first(), sep) == ps[1]);
        assert(joined(ps, sep) == joined(ps.drop_last(), sep) + sep + ps.last());
        assert(joined(ps, sep) =~= ps[0] + sep + joined(ps.drop_first(), sep));
    } else {
        lemma_joined_front(ps.drop_last(), sep);
        assert(joined(ps, sep) == joined(ps.drop_last(), sep) + sep + ps.last());
        assert(joined(ps.drop_first(), sep) == joined(ps.drop_first().drop_last(), sep) + sep + ps.drop_first().last());
        assert(ps.drop_last().drop_first() =~= ps.drop_first().drop_last());
        assert(ps.drop_last()[0] == ps[0]);
        assert(ps.drop_first().last() == ps.last());
        assert(joined(ps, sep) =~= ps[0] + sep + joined(ps.drop_first(), sep));
    }
}

/// A payload that survives a round trip: not blank, no line break, no
/// trailing carriage return.
pub open spec fn plain_payload(p: Seq<char>) -> bool {
    &&& trim_spec(p).len() > 0
    &&& forall|i: int| 0 <= i < p.len() ==> p[i] != '\n'
    &&& !(p.len() > 0 && p.last() == '\r')
}

proof fn lemma_records_of_line(p: Seq<char>, tail: Seq<char>)
    requires
        plain_payload(p),
    ensures
        jsonl_records_spec(p + "\n"@ + tail) == seq![p] + jsonl_records_spec(tail),
{
    reveal_strlit("\n");
    let s = p + "\n"@ + tail;
    lemma_newline_from(s, 0);
    let k = newline_from(s, 0);
    assert(s[p.len() as int] == '\n');
    if k < p.len() {
        assert(s[k] == p[k]);
    }
    assert(k == p.len());
    assert(s.take(k) =~= p);
    assert(s.skip(k + 1) =~= tail);
}

/// Writing payloads as JSON Lines and reading them back gives the same
/// payloads, for payloads that are not blank and hold no line break and no
/// trailing carriage return.
pub proof fn law_jsonl_round_trip(payloads: Seq<Seq<char>>)
    requires
        forall|i: int| 0 <= i < payloads.len() ==> plain_payload(#[trigger] payloads[i]),
    ensures
        jsonl_records_spec(jsonl_text_spec(payloads)) == payloads,
    decreases payloads.len(),
{
    if payloads.len() == 0 {
        let s = jsonl_text_spec(payloads);
        assert(s.len() == 0);
        lemma_newline_from(s, 0);
        assert(s.take(0) =~= Seq::<char>::empty());
        lemma_trim_empty_iff_blank(Seq::<char>::empty());
    } else {
        let p = payloads[0];
        assert(plain_payload(p));
        let rest = payloads.drop_first();
        assert forall|i: int| 0 <= i < rest.len() implies plain_payload(#[trigger] rest[i]) by {
            assert(rest[i] == payloads[i + 1]);
        }
        law_jsonl_round_trip(rest);
        assert(p.len() > 0) by {
            if p.len() == 0 {
                lemma_trim_empty_iff_blank(p);
            }
        }
        if payloads.len() == 1 {
            assert(joined(payloads, "\n"@) == p);
            assert(jsonl_text_spec(payloads) == p + "\n"@ + Seq::<char>::empty());
            lemma_records_of_line(p, Seq::<char>::empty());
            assert(jsonl_text_spec(rest) =~= Seq::<char>::empty());
            assert(seq![p] + jsonl_records_spec(jsonl_text_spec(rest)) =~= payloads);
        } else {
            lemma_joined_front(payloads, "\n"@);
            let tail_body = joined(rest, "\n"@);
            assert(tail_body.len() > 0) by {
                lemma_joined_nonempty(rest);
            }
            assert(jsonl_text_spec(payloads) =~= p + "\n"@ + jsonl_text_spec(rest));
            lemma_records_of_line(p, jsonl_text_spec(rest));
            assert(seq![p] + rest =~= payloads);
        }
    }
}

proof fn lemma_joined_nonempty(ps: Seq<Seq<char>>)
    requires
        ps.len() > 0,
        forall|i: int| 0 <= i < ps.len() ==> plain_payload(#[trigger] ps[i]),
    ensures
        joined(ps, "\n"@).len() > 0,
    decreases ps.len(),
{
    assert(plain_payload(ps.last()));
    if ps.last().len() == 0 {
        lemma_trim_empty_iff_blank(ps.last());
    }
    if ps.len() > 1 {
        assert forall|i: int| 0 <= i < ps.drop_last().len() implies plain_payload(#[trigger] ps.drop_last()[i]) by {
            assert(ps.drop_last()[i] == ps[i]);
        }
        lemma_joined_nonempty(ps.drop_last());
    }
}

/// What a project file holds.
#[derive(Debug, Clone, PartialEq, Eq)]
pub enum ProjectFileKind {
    Metadata,
    Node(String),
    Edges,
    Endpoint(String),
    Stream(String),
    PluginManifest(String),
    PluginStates,
    Commands,
    Events,
}

/// A file of a saved project: its path below the project root and what it holds.
#[derive(Debug, Clone, PartialEq, Eq)]
pub struct ProjectFile {
    pub path: String,
    pub kind: ProjectFileKind,
}

/// The spec view of a project file: its path, and the key of the record it holds.
pub open spec fn file_view(f: ProjectFile) -> (Seq<char>, ProjectFileKindView) {
    (f.path@, kind_view(f.kind))
}

pub enum ProjectFileKindView {
    Metadata,
    Node(Seq<char>),
    Edges,
    Endpoint(Seq<char>),
    Stream(Seq<char>),
    PluginManifest(Seq<char>),
    PluginStates,
    Commands,
    Events,
}

pub open spec fn kind_view(k: ProjectFileKind) -> ProjectFileKindView {
    match k {
        ProjectFileKind::Metadata => ProjectFileKindView::Metadata,
        ProjectFileKind::Node(key) => ProjectFileKindView::Node(key@),
        ProjectFileKind::Edges => ProjectFileKindView::Edges,
        ProjectFileKind::Endpoint(key) => ProjectFileKindView::Endpoint(key@),
        ProjectFileKind::Stream(key) => ProjectFileKindView::Stream(key@),
        ProjectFileKind::PluginManifest(key) => ProjectFileKindView::PluginManifest(key@),
        ProjectFileKind::PluginStates => ProjectFileKindView::PluginStates,
        ProjectFileKind::Commands => ProjectFileKindView::Commands,
        ProjectFileKind::Events => ProjectFileKindView::Events,
    }
}

/// One file per record of a collection, in key order: `dir/<name>.json`,
/// where the name is the record's own id (a manifest's plugin id).
pub open spec fn record_files(
    dir: Seq<char>,
    keys: Seq<Seq<char>>,
    names: spec_fn(Seq<char>) -> Seq<char>,
    kind: spec_fn(Seq<char>) -> ProjectFileKindView,
) -> Seq<(Seq<char>, ProjectFileKindView)> {
    keys.map_values(|k: Seq<char>| (dir + names(k) + ".json"@, kind(k)))
}

/// The files of a saved project: the metadata, one file per node, the
/// edge log, one file per endpoint, stream and plugin manifest, the plugin
/// states and the command and event logs.
pub open spec fn project_layout_spec(d: crate::project::DocumentModel) -> Seq<(Seq<char>, ProjectFileKindView)> {
    seq![("project.yaml"@, ProjectFileKindView::Metadata)] + record_files(
        "graph/nodes/"@,
        key_order(d.nodes),
        |k: Seq<char>| d.nodes[k].id@,
        |k: Seq<char>| ProjectFileKindView::Node(k),
    ) + seq![("graph/edges.jsonl"@, ProjectFileKindView::Edges)] + record_files(
        "integration/endpoints/"@,
        key_order(d.endpoints),
        |k: Seq<char>| d.endpoints[k].id@,
        |k: Seq<char>| ProjectFileKindView::Endpoint(k),
    ) + record_files(
        "integration/streams/"@,
        key_order(d.streams),
        |k: Seq<char>| d.streams[k].id@,
        |k: Seq<char>| ProjectFileKindView::Stream(k),
    ) + record_files(
        "plugins/manifests/"@,
        key_order(d.plugin_manifests),
        |k: Seq<char>| d.plugin_manifests[k].plugin_id@,
        |k: Seq<char>| ProjectFileKindView::PluginManifest(k),
    ) + seq![
        ("plugins/state/plugins.json"@, ProjectFileKindView::PluginStates),
        ("events/commands.jsonl"@, ProjectFileKindView::Commands),
        ("events/events.jsonl"@, ProjectFileKindView::Events),
    ]
}

pub open spec fn file_views(files: Seq<ProjectFile>) -> Seq<(Seq<char>, ProjectFileKindView)> {
    files.map_values(|f: ProjectFile| file_view(f))
}

fn push_file(files: &mut Vec<ProjectFile>, path: String, kind: ProjectFileKind)
    ensures
        file_views(final(files)@) == file_views(old(files)@).push((path@, kind_view(kind))),
{
    let ghost before = files@;
    files.push(ProjectFile { path, kind });
    assert(file_views(files@) =~= file_views(before).push((path@, kind_view(kind))));
}

fn file_path(dir: &str, name: &str) -> (p: String)
    ensures
        p@ == dir@ + name@ + ".json"@,
{
    let mut p = String::from_str(dir);
    p.append(name);
    p.append(".json");
    p
}

fn node_files(files: &mut Vec<ProjectFile>, nodes: &KeyedMap<EntityRecord>)
    ensures
        file_views(final(files)@) == file_views(old(files)@) + record_files(
            "graph/nodes/"@,
            key_order(nodes@),
            |k: Seq<char>| nodes@[k].id@,
            |k: Seq<char>| ProjectFileKindView::Node(k),
        ),
{
    let keys = nodes.sorted_keys();
    let ghost start = file_views(files@);
    let ghost all = record_files("graph/nodes/"@, key_order(nodes@), |k: Seq<char>| nodes@[k].id@, |k: Seq<char>| ProjectFileKindView::Node(k));
    let n = keys.len();
    let mut i: usize = 0;
    while i < n
        invariant
            n == keys@.len(),
            key_views(keys@) == key_order(nodes@),
            lists_in_order(key_order(nodes@), nodes@.dom()),
            all == record_files("graph/nodes/"@, key_order(nodes@), |k: Seq<char>| nodes@[k].id@, |k: Seq<char>| ProjectFileKindView::Node(k)),
            i <= n,
            file_views(files@) == start + all.take(i as int),
        decreases n - i,
    {
        assert(key_views(keys@)[i as int] == keys@[i as int]@);
        assert(key_order(nodes@).contains(keys@[i as int]@));
        let record = match nodes.get(keys[i].as_str()) {
            Some(r) => r,
            None => {
                assert(false);
                return;
            },
        };
        push_file(files, file_path("graph/nodes/", record.id.as_str()), ProjectFileKind::Node(keys[i].clone()));
        assert(all.take(i + 1) =~= all.take(i as int).push(all[i as int]));
        i = i + 1;
    }
    assert(all.take(n as int) =~= all);
}

fn endpoint_files(files: &mut Vec<ProjectFile>, endpoints: &KeyedMap<ExternalEndpoint>)
    ensures
        file_views(final(files)@) == file_views(old(files)@) + record_files(
            "integration/endpoints/"@,
            key_order(endpoints@),
            |k: Seq<char>| endpoints@[k].id@,
            |k: Seq<char>| ProjectFileKindView::Endpoint(k),
        ),
{
    let keys = endpoints.sorted_keys();
    let ghost start = file_views(files@);
    let ghost all = record_files("integration/endpoints/"@, key_order(endpoints@), |k: Seq<char>| endpoints@[k].id@, |k: Seq<char>| ProjectFileKindView::Endpoint(k));
    let n = keys.len();
    let mut i: usize = 0;
    while i < n
        invariant
            n == keys@.len(),
            key_views(keys@) == key_order(endpoints@),
            lists_in_order(key_order(endpoints@), endpoints@.dom()),
            all == record_files("integration/endpoints/"@, key_order(endpoints@), |k: Seq<char>| endpoints@[k].id@, |k: Seq<char>| ProjectFileKindView::Endpoint(k)),
            i <= n,
            file_views(files@) == start + all.take(i as int),
        decreases n - i,
    {
        assert(key_views(keys@)[i as int] == keys@[i as int]@);
        assert(key_order(endpoints@).contains(keys@[i as int]@));
        let record = match endpoints.get(keys[i].as_str()) {
            Some(r) => r,
            None => {
                assert(false);
                return;
            },
        };
        push_file(files, file_path("integration/endpoints/", record.id.as_str()), ProjectFileKind::Endpoint(keys[i].clone()));
        assert(all.take(i + 1) =~= all.take(i as int).push(all[i as int]));
        i = i + 1;
    }
    assert(all.take(n as int) =~= all);
}

fn stream_files(files: &mut Vec<ProjectFile>, streams: &KeyedMap<TelemetryStream>)
    ensures
        file_views(final(files)@) == file_views(old(files)@) + record_files(
            "integration/streams/"@,
            key_order(streams@),
            |k: Seq<char>| streams@[k].id@,
            |k: Seq<char>| ProjectFileKindView::Stream(k),
        ),
{
    let keys = streams.sorted_keys();
    let ghost start = file_views(files@);
    let ghost all = record_files("integration/streams/"@, key_order(streams@), |k: Seq<char>| streams@[k].id@, |k: Seq<char>| ProjectFileKindView::Stream(k));
    let n = keys.len();
    let mut i: usize = 0;
    while i < n
        invariant
            n == keys@.len(),
            key_views(keys@) == key_order(streams@),
            lists_in_order(key_order(streams@), streams@.dom()),
            all == record_files("integration/streams/"@, key_order(streams@), |k: Seq<char>| streams@[k].id@, |k: Seq<char>| ProjectFileKindView::Stream(k)),
            i <= n,
            file_views(files@) == start + all.take(i as int),
        decreases n - i,
    {
        assert(key_views(keys@)[i as int] == keys@[i as int]@);
        assert(key_order(streams@).contains(keys@[i as int]@));
        let record = match streams.get(keys[i].as_str()) {
            Some(r) => r,
            None => {
                assert(false);
                return;
            },
        };
        push_file(files, file_path("integration/streams/", record.id.as_str()), ProjectFileKind::Stream(keys[i].clone()));
        assert(all.take(i + 1) =~= all.take(i as int).push(all[i as int]));
        i = i + 1;
    }
    assert(all.take(n as int) =~= all);
}

fn manifest_files(files: &mut Vec<ProjectFile>, manifests: &KeyedMap<PluginManifest>)
    ensures
        file_views(final(files)@) == file_views(old(files)@) + record_files(
            "plugins/manifests/"@,
            key_order(manifests@),
            |k: Seq<char>| manifests@[k].plugin_id@,
            |k: Seq<char>| ProjectFileKindView::PluginManifest(k),
        ),
{
    let keys = manifests.sorted_keys();
    let ghost start = file_views(files@);
    let ghost all = record_files("plugins/manifests/"@, key_order(manifests@), |k: Seq<char>| manifests@[k].plugin_id@, |k: Seq<char>| ProjectFileKindView::PluginManifest(k));
    let n = keys.len();
    let mut i: usize = 0;
    while i < n
        invariant
            n == keys@.len(),
            key_views(keys@) == key_order(manifests@),
            lists_in_order(key_order(manifests@), manifests@.dom()),
            all == record_files("plugins/manifests/"@, key_order(manifests@), |k: Seq<char>| manifests@[k].plugin_id@, |k: Seq<char>| ProjectFileKindView::PluginManifest(k)),
            i <= n,
            file_views(files@) == start + all.take(i as int),
        decreases n - i,
    {
        assert(key_views(keys@)[i as int] == keys@[i as int]@);
        assert(key_order(manifests@).contains(keys@[i as int]@));
        let record = match manifests.get(keys[i].as_str()) {
            Some(r) => r,
            None => {
                assert(false);
                return;
            },
        };
        push_file(files, file_path("plugins/manifests/", record.plugin_id.as_str()), ProjectFileKind::PluginManifest(keys[i].clone()));
        assert(all.take(i + 1) =~= all.take(i as int).push(all[i as int]));
        i = i + 1;
    }
    assert(all.take(n as int) =~= all);
}

/// The files a saved project consists of (see `project_layout_spec`).
pub fn project_file_layout(document: &ProjectDocument) -> (files: Vec<ProjectFile>)
    ensures
        file_views(files@) == project_layout_spec(document@),
{
    let mut files: Vec<ProjectFile> = Vec::new();
    push_file(&mut files, String::from_str("project.yaml"), ProjectFileKind::Metadata);
    node_files(&mut files, &document.nodes);
    push_file(&mut files, String::from_str("graph/edges.jsonl"), ProjectFileKind::Edges);
    endpoint_files(&mut files, &document.endpoints);
    stream_files(&mut files, &document.streams);
    manifest_files(&mut files, &document.plugin_manifests);
    push_file(&mut files, String::from_str("plugins/state/plugins.json"), ProjectFileKind::PluginStates);
    push_file(&mut files, String::from_str("events/commands.jsonl"), ProjectFileKind::Commands);
    push_file(&mut files, String::from_str("events/events.jsonl"), ProjectFileKind::Events);
    assert(file_views(files@) =~= project_layout_spec(document@));
    files
}

/// The map of `records` by the key each gives, a later record replacing
/// an earlier one with the same key.
pub open spec fn keyed_by<T>(records: Seq<T>, key: spec_fn(T) -> Seq<char>) -> Map<Seq<char>, T>
    decreases records.len(),
{
    if records.len() == 0 {
        Map::empty()
    } else {
        keyed_by(records.drop_last(), key).insert(key(records.last()), records.last())
    }
}

/// The map of `pairs` by their text, a later pair replacing an earlier one.
pub open spec fn keyed_pairs(pairs: Seq<(String, bool)>) -> Map<Seq<char>, bool>
    decreases pairs.len(),
{
    if pairs.len() == 0 {
        Map::empty()
    } else {
        keyed_pairs(pairs.drop_last()).insert(pairs.last().0@, pairs.last().1)
    }
}

fn nodes_by_id(records: Vec<EntityRecord>) -> (m: KeyedMap<EntityRecord>)
    ensures
        m@ == keyed_by(records@, |r: EntityRecord| r.id@),
{
    let ghost all = records@;
    let mut rest = records;
    let mut m: KeyedMap<EntityRecord> = KeyedMap::new();
    let ghost mut i: int = 0;
    while rest.len() > 0
        invariant
            0 <= i <= all.len(),
            rest@ == all.skip(i),
            m@ == keyed_by(all.take(i), |r: EntityRecord| r.id@),
        decreases rest@.len(),
    {
        let r = rest.remove(0);
        proof {
            assert(r == all[i]);
            assert(all.take(i + 1).drop_last() =~= all.take(i));
            assert(all.take(i + 1).last() == all[i]);
            assert(rest@ =~= all.skip(i + 1));
        }
        let key = r.id.clone();
        m.insert(key, r);
        proof {
            i = i + 1;
        }
    }
    assert(all.take(i) =~= all);
    m
}

fn endpoints_by_id(records: Vec<ExternalEndpoint>) -> (m: KeyedMap<ExternalEndpoint>)
    ensures
        m@ == keyed_by(records@, |r: ExternalEndpoint| r.id@),
{
    let ghost all = records@;
    let mut rest = records;
    let mut m: KeyedMap<ExternalEndpoint> = KeyedMap::new();
    let ghost mut i: int = 0;
    while rest.len() > 0
        invariant
            0 <= i <= all.len(),
            rest@ == all.skip(i),
            m@ == keyed_by(all.take(i), |r: ExternalEndpoint| r.id@),
        decreases rest@.len(),
    {
        let r = rest.remove(0);
        proof {
            assert(r == all[i]);
            assert(all.take(i + 1).drop_last() =~= all.take(i));
            assert(all.take(i + 1).last() == all[i]);
            assert(rest@ =~= all.skip(i + 1));
        }
        let key = r.id.clone();
        m.insert(key, r);
        proof {
            i = i + 1;
        }
    }
    assert(all.take(i) =~= all);
    m
}

fn streams_by_id(records: Vec<TelemetryStream>) -> (m: KeyedMap<TelemetryStream>)
    ensures
        m@ == keyed_by(records@, |r: TelemetryStream| r.id@),
{
    let ghost all = records@;
    let mut rest = records;
    let mut m: KeyedMap<TelemetryStream> = KeyedMap::new();
    let ghost mut i: int = 0;
    while rest.len() > 0
        invariant
            0 <= i <= all.len(),
            rest@ == all.skip(i),
            m@ == keyed_by(all.take(i), |r: TelemetryStream| r.id@),
        decreases rest@.len(),
    {
        let r = rest.remove(0);
        proof {
            assert(r == all[i]);
            assert(all.take(i + 1).drop_last() =~= all.take(i));
            assert(all.take(i + 1).last() == all[i]);
            assert(rest@ =~= all.skip(i + 1));
        }
        let key = r.id.clone();
        m.insert(key, r);
        proof {
            i = i + 1;
        }
    }
    assert(all.take(i) =~= all);
    m
}

fn manifests_by_plugin_id(records: Vec<PluginManifest>) -> (m: KeyedMap<PluginManifest>)
    ensures
        m@ == keyed_by(records@, |r: PluginManifest| r.plugin_id@),
{
    let ghost all = records@;
    let mut rest = records;
    let mut m: KeyedMap<PluginManifest> = KeyedMap::new();
    let ghost mut i: int = 0;
    while rest.len() > 0
        invariant
            0 <= i <= all.len(),
            rest@ == all.skip(i),
            m@ == keyed_by(all.take(i), |r: PluginManifest| r.plugin_id@),
        decreases rest@.len(),
    {
        let r = rest.remove(0);
        proof {
            assert(r == all[i]);
            assert(all.take(i + 1).drop_last() =~= all.take(i));
            assert(all.take(i + 1).last() == all[i]);
            assert(rest@ =~= all.skip(i + 1));
        }
        let key = r.plugin_id.clone();
        m.insert(key, r);
        proof {
            i = i + 1;
        }
    }
    assert(all.take(i) =~= all);
    m
}

fn states_by_plugin_id(pairs: Vec<(String, bool)>) -> (m: KeyedMap<bool>)
    ensures
        m@ == keyed_pairs(pairs@),
{
    let n = pairs.len();
    let mut m: KeyedMap<bool> = KeyedMap::new();
    let mut i: usize = 0;
    while i < n
        invariant
            n == pairs@.len(),
            i <= n,
            m@ == keyed_pairs(pairs@.take(i as int)),
        decreases n - i,
    {
        assert(pairs@.take(i + 1).drop_last() =~= pairs@.take(i as int));
        m.insert(pairs[i].0.clone(), pairs[i].1);
        i = i + 1;
    }
    assert(pairs@.take(n as int) =~= pairs@);
    m
}

/// The document rebuilt from the records read back: each collection keyed
/// by its records' ids (a manifest by its plugin id, a plugin state by its
/// plugin id), later records replacing earlier ones with the same id; the
/// edges and the logs keep their order. A loaded document holds no
/// OpenSpec document.
pub fn assemble_project_document(
    metadata: ProjectMetadata,
    nodes: Vec<EntityRecord>,
    edges: Vec<GraphEdge>,
    endpoints: Vec<ExternalEndpoint>,
    streams: Vec<TelemetryStream>,
    manifests: Vec<PluginManifest>,
    states: Vec<(String, bool)>,
    commands: Vec<CommandEnvelope>,
    events: Vec<EventEnvelope>,
) -> (d: ProjectDocument)
    ensures
        d@.metadata == metadata,
        d@.nodes == keyed_by(nodes@, |r: EntityRecord| r.id@),
        d@.edges == edges@,
        d@.endpoints == keyed_by(endpoints@, |r: ExternalEndpoint| r.id@),
        d@.streams == keyed_by(streams@, |r: TelemetryStream| r.id@),
        d@.plugin_manifests == keyed_by(manifests@, |r: PluginManifest| r.plugin_id@),
        d@.plugin_states == keyed_pairs(states@),
        d@.open_spec_documents.is_empty(),
        d@.commands == commands@,
        d@.events == events@,
{
    ProjectDocument {
        metadata,
        nodes: nodes_by_id(nodes),
        edges,
        endpoints: endpoints_by_id(endpoints),
        streams: streams_by_id(streams),
        plugin_manifests: manifests_by_plugin_id(manifests),
        plugin_states: states_by_plugin_id(states),
        open_spec_documents: KeyedMap::new(),
        commands,
        events,
    }
}

/// Keying the records of a sequence of distinct keys gives back the map on
/// those keys.
proof fn lemma_keyed_by_restrict<T>(m: Map<Seq<char>, T>, s: Seq<Seq<char>>, key: spec_fn(T) -> Seq<char>)
    requires
        s.no_duplicates(),
        forall|i: int| 0 <= i < s.len() ==> m.dom().contains(#[trigger] s[i]),
        forall|k: Seq<char>| #[trigger] m.dom().contains(k) ==> key(m[k]) == k,
    ensures
        keyed_by(s.map_values(|k: Seq<char>| m[k]), key) == m.restrict(s.to_set()),
    decreases s.len(),
{
    let rs = s.map_values(|k: Seq<char>| m[k]);
    if s.len() == 0 {
        assert(m.restrict(s.to_set()) =~= Map::empty());
    } else {
        let s0 = s.drop_last();
        assert(s0.no_duplicates()) by {
            assert forall|i: int, j: int| 0 <= i < s0.len() && 0 <= j < s0.len() && i != j implies s0[i] != s0[j] by {
                assert(s[i] != s[j]);
            }
        }
        lemma_keyed_by_restrict(m, s0, key);
        assert(rs.drop_last() =~= s0.map_values(|k: Seq<char>| m[k]));
        let x = s.last();
        assert(rs.last() == m[x]);
        assert(m.dom().contains(x));
        assert(key(m[x]) == x);
        assert(m.restrict(s.to_set()) =~= m.restrict(s0.to_set()).insert(x, m[x])) by {
            assert forall|k: Seq<char>| s.to_set().contains(k) <==> (s0.to_set().contains(k) || k == x) by {
                if s.contains(k) && k != x {
                    let i = choose|i: int| 0 <= i < s.len() && s[i] == k;
                    assert(s0[i] == k);
                }
                if s0.contains(k) {
                    let i = choose|i: int| 0 <= i < s0.len() && s0[i] == k;
                    assert(s[i] == k);
                }
                assert(s[s.len() - 1] == x);
            }
        }
    }
}

/// Loading what was saved gives back each collection: keying the records,
/// listed in key order, by their own ids rebuilds the map, provided every
/// record is filed under its own id.
pub proof fn law_reload_rebuilds_collection<T>(m: Map<Seq<char>, T>, key: spec_fn(T) -> Seq<char>)
    requires
        m.dom().finite(),
        lists_in_order(key_order(m), m.dom()),
        forall|k: Seq<char>| #[trigger] m.dom().contains(k) ==> key(m[k]) == k,
    ensures
        keyed_by(key_order(m).map_values(|k: Seq<char>| m[k]), key) == m,
{
    let s = key_order(m);
    assert(s.no_duplicates()) by {
        assert forall|i: int, j: int| 0 <= i < s.len() && 0 <= j < s.len() && i != j implies s[i] != s[j] by {
            if i < j {
                assert(crate::text::seq_lt(s[i], s[j]));
                crate::text::lemma_seq_lt_irreflexive(s[i]);
            } else {
                assert(crate::text::seq_lt(s[j], s[i]));
                crate::text::lemma_seq_lt_irreflexive(s[j]);
            }
        }
    }
    assert forall|i: int| 0 <= i < s.len() implies m.dom().contains(#[trigger] s[i]) by {
        assert(s.contains(s[i]));
    }
    lemma_keyed_by_restrict(m, s, key);
    assert(m.restrict(s.to_set()) =~= m) by {
        assert forall|k: Seq<char>| m.dom().contains(k) implies s.to_set().contains(k) by {
            assert(s.contains(k));
        }
    }
}

/// Where a stream file can stand in the layout of `d`: only among the
/// stream files, at the place of its key in key order.
proof fn lemma_stream_file_place(d: crate::project::DocumentModel, i: int)
    requires
        0 <= i < project_layout_spec(d).len(),
        project_layout_spec(d)[i].1 is Stream,
    ensures
        ({
            let off = 2 + key_order(d.nodes).len() + key_order(d.endpoints).len();
            &&& off <= i < off + key_order(d.streams).len()
            &&& project_layout_spec(d)[i] == (
                "integration/streams/"@ + d.streams[key_order(d.streams)[i - off]].id@ + ".json"@,
                ProjectFileKindView::Stream(key_order(d.streams)[i - off]),
            )
        }),
{
    let nodes = record_files("graph/nodes/"@, key_order(d.nodes), |k: Seq<char>| d.nodes[k].id@, |k: Seq<char>| ProjectFileKindView::Node(k));
    let endpoints = record_files(
        "integration/endpoints/"@,
        key_order(d.endpoints),
        |k: Seq<char>| d.endpoints[k].id@,
        |k: Seq<char>| ProjectFileKindView::Endpoint(k),
    );
    let streams = record_files(
        "integration/streams/"@,
        key_order(d.streams),
        |k: Seq<char>| d.streams[k].id@,
        |k: Seq<char>| ProjectFileKindView::Stream(k),
    );
    let manifests = record_files(
        "plugins/manifests/"@,
        key_order(d.plugin_manifests),
        |k: Seq<char>| d.plugin_manifests[k].plugin_id@,
        |k: Seq<char>| ProjectFileKindView::PluginManifest(k),
    );
    let tail = seq![
        ("plugins/state/plugins.json"@, ProjectFileKindView::PluginStates),
        ("events/commands.jsonl"@, ProjectFileKindView::Commands),
        ("events/events.jsonl"@, ProjectFileKindView::Events),
    ];
    let a = seq![("project.yaml"@, ProjectFileKindView::Metadata)] + nodes;
    let b = a + seq![("graph/edges.jsonl"@, ProjectFileKindView::Edges)];
    let c = b + endpoints;
    let e = c + streams;
    let f = e + manifests;
    let l = f + tail;
    assert(l == project_layout_spec(d));
    if i < a.len() {
        if i > 0 {
            assert(a[i] == nodes[i - 1]);
        }
    } else if i < b.len() {
    } else if i < c.len() {
        assert(c[i] == endpoints[i - b.len()]);
    } else if i < e.len() {
        assert(e[i] == streams[i - c.len()]);
    } else if i < f.len() {
        assert(f[i] == manifests[i - e.len()]);
    } else {
        assert(l[i] == tail[i - f.len()]);
    }
}

/// Saving files every record: each stream of the document gets exactly one
/// file, `integration/streams/<id>.json` of kind `Stream(key)`, and each
/// node, endpoint and plugin manifest gets its file too, beside the
/// metadata, the edge log, the plugin states and the two event logs, and
/// nothing else. The collections' keys must be listable in order, as those
/// of every document are.
pub proof fn law_layout_files_every_record(d: crate::project::DocumentModel, k: Seq<char>)
    requires
        lists_in_order(key_order(d.nodes), d.nodes.dom()),
        lists_in_order(key_order(d.endpoints), d.endpoints.dom()),
        lists_in_order(key_order(d.streams), d.streams.dom()),
        lists_in_order(key_order(d.plugin_manifests), d.plugin_manifests.dom()),
    ensures
        project_layout_spec(d).len() == d.nodes.dom().len() + d.endpoints.dom().len() + d.streams.dom().len()
            + d.plugin_manifests.dom().len() + 5,
        project_layout_spec(d)[0] == ("project.yaml"@, ProjectFileKindView::Metadata),
        project_layout_spec(d).contains(("graph/edges.jsonl"@, ProjectFileKindView::Edges)),
        project_layout_spec(d).contains(("plugins/state/plugins.json"@, ProjectFileKindView::PluginStates)),
        project_layout_spec(d).contains(("events/commands.jsonl"@, ProjectFileKindView::Commands)),
        project_layout_spec(d).contains(("events/events.jsonl"@, ProjectFileKindView::Events)),
        d.streams.dom().contains(k) ==> exists|i: int|
            0 <= i < project_layout_spec(d).len() && #[trigger] project_layout_spec(d)[i] == (
                "integration/streams/"@ + d.streams[k].id@ + ".json"@,
                ProjectFileKindView::Stream(k),
            ),
        forall|i: int, j: int|
            0 <= i < project_layout_spec(d).len() && 0 <= j < project_layout_spec(d).len()
                && #[trigger] project_layout_spec(d)[i].1 == ProjectFileKindView::Stream(k)
                && #[trigger] project_layout_spec(d)[j].1 == ProjectFileKindView::Stream(k) ==> i == j,
        d.nodes.dom().contains(k) ==> exists|i: int|
            0 <= i < project_layout_spec(d).len() && #[trigger] project_layout_spec(d)[i] == (
                "graph/nodes/"@ + d.nodes[k].id@ + ".json"@,
                ProjectFileKindView::Node(k),
            ),
        d.endpoints.dom().contains(k) ==> exists|i: int|
            0 <= i < project_layout_spec(d).len() && #[trigger] project_layout_spec(d)[i] == (
                "integration/endpoints/"@ + d.endpoints[k].id@ + ".json"@,
                ProjectFileKindView::Endpoint(k),
            ),
        d.plugin_manifests.dom().contains(k) ==> exists|i: int|
            0 <= i < project_layout_spec(d).len() && #[trigger] project_layout_spec(d)[i] == (
                "plugins/manifests/"@ + d.plugin_manifests[k].plugin_id@ + ".json"@,
                ProjectFileKindView::PluginManifest(k),
            ),
{
    let l = project_layout_spec(d);
    let kn = key_order(d.nodes);
    let ke = key_order(d.endpoints);
    let ks = key_order(d.streams);
    let km = key_order(d.plugin_manifests);
    crate::keyed::lemma_key_order_len(d.nodes);
    crate::keyed::lemma_key_order_len(d.endpoints);
    crate::keyed::lemma_key_order_len(d.streams);
    crate::keyed::lemma_key_order_len(d.plugin_manifests);
    let off = 2 + kn.len() + ke.len();
    assert(l.len() == off + ks.len() + km.len() + 3);
    let n = l.len();
    assert(l[1 + kn.len() as int] == ("graph/edges.jsonl"@, ProjectFileKindView::Edges));
    assert(l[n - 3] == ("plugins/state/plugins.json"@, ProjectFileKindView::PluginStates));
    assert(l[n - 2] == ("events/commands.jsonl"@, ProjectFileKindView::Commands));
    assert(l[n - 1] == ("events/events.jsonl"@, ProjectFileKindView::Events));
    if d.streams.dom().contains(k) {
        let j = ks.index_of(k);
        assert(l[off + j] == ("integration/streams/"@ + d.streams[k].id@ + ".json"@, ProjectFileKindView::Stream(k)));
    }
    assert forall|i: int, j: int|
        0 <= i < l.len() && 0 <= j < l.len() && #[trigger] l[i].1 == ProjectFileKindView::Stream(k)
            && #[trigger] l[j].1 == ProjectFileKindView::Stream(k) implies i == j by {
        lemma_stream_file_place(d, i);
        lemma_stream_file_place(d, j);
        assert(ks[i - off] == k && ks[j - off] == k);
    }
    if d.nodes.dom().contains(k) {
        let j = kn.index_of(k);
        assert(l[1 + j] == ("graph/nodes/"@ + d.nodes[k].id@ + ".json"@, ProjectFileKindView::Node(k)));
    }
    if d.endpoints.dom().contains(k) {
        let j = ke.index_of(k);
        assert(l[2 + kn.len() + j] == ("integration/endpoints/"@ + d.endpoints[k].id@ + ".json"@, ProjectFileKindView::Endpoint(k)));
    }
    if d.plugin_manifests.dom().contains(k) {
        let j = km.index_of(k);
        assert(l[off + ks.len() + j] == (
            "plugins/manifests/"@ + d.plugin_manifests[k].plugin_id@ + ".json"@,
            ProjectFileKindView::PluginManifest(k),
        ));
    }
}

} // verus!
