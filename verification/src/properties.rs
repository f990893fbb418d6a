//! Editing an entity's properties from the inspector: its name, its tags,
//! and fields of its data named by dotted paths, and the session's edit
//! of an entity (parts, signals, controllers and robot targets are edited
//! by the caller, which rebuilds their geometry or control model).
use vstd::prelude::*;
use crate::json::{
    fields_view, json_view, list_items, list_view, model_get, model_set, object_entries, JsonFields, JsonList, JsonModel,
    JsonNumber, JsonValue,
};
use crate::session::{edited_name, journal_view, result_view, system_entry, CommandResult, WorkspaceSession};
use crate::project::{counters_fit, log_numbers_below, CoreCommand, DocumentModel, EntityRecord};
use crate::keyed::key_views;
use crate::floatbits::{bits_is_finite, bits_le, finite_positive};
use crate::project::{signal_json, signal_value_json, EntityData};
use crate::text::{chars_of, is_blank, string_of, trim, trim_spec};

verus! {

/// The pieces of `s` between dots, empty pieces included.
pub open spec fn split_dots(s: Seq<char>) -> Seq<Seq<char>>
    decreases s.len(),
{
    if s.len() == 0 {
        seq![Seq::empty()]
    } else {
        let r = split_dots(s.drop_last());
        if s.last() == '.' {
            r.push(Seq::empty())
        } else {
            r.update(r.len() - 1, r.last().push(s.last()))
        }
    }
}

proof fn lemma_split_dots_len(s: Seq<char>)
    ensures
        split_dots(s).len() >= 1,
    decreases s.len(),
{
    if s.len() > 0 {
        lemma_split_dots_len(s.drop_last());
    }
}

/// The pieces that are not blank, in order.
pub open spec fn keep_nonblank(pieces: Seq<Seq<char>>) -> Seq<Seq<char>>
    decreases pieces.len(),
{
    if pieces.len() == 0 {
        Seq::empty()
    } else {
        keep_nonblank(pieces.drop_last()) + if trim_spec(pieces.last()).len() > 0 {
            seq![pieces.last()]
        } else {
            Seq::empty()
        }
    }
}

/// The segments of a dotted path: its pieces between dots that are not
/// blank.
pub open spec fn path_segments(path: Seq<char>) -> Seq<Seq<char>> {
    keep_nonblank(split_dots(path))
}

/// The segments of `path` (see `path_segments`).
pub fn path_segments_of(path: &str) -> (r: Vec<String>)
    ensures
        key_views(r@) == path_segments(path@),
{
    let chars = chars_of(path);
    let n = chars.len();
    let mut parts: Vec<String> = Vec::new();
    let mut cur: Vec<char> = Vec::new();
    let mut i: usize = 0;
    assert(path@.take(0) =~= Seq::<char>::empty());
    while i < n
        invariant
            n == chars@.len(),
            chars@ == path@,
            i <= n,
            key_views(parts@).push(cur@) == split_dots(path@.take(i as int)),
        decreases n - i,
    {
        let c = chars[i];
        let ghost before = key_views(parts@).push(cur@);
        assert(path@.take(i + 1).drop_last() =~= path@.take(i as int));
        assert(path@.take(i + 1).last() == c);
        if c == '.' {
            let piece = string_of(&cur);
            parts.push(piece);
            cur = Vec::new();
            assert(key_views(parts@).push(cur@) =~= before.push(Seq::empty()));
        } else {
            let ghost old_parts = parts@;
            cur.push(c);
            assert(key_views(parts@).push(cur@) =~= before.update(before.len() - 1, before.last().push(c)));
        }
        i = i + 1;
    }
    assert(path@.take(n as int) =~= path@);
    let all_len = parts.len();
    parts.push(string_of(&cur));
    let ghost pieces = key_views(parts@);
    assert(pieces == split_dots(path@));
    let mut r: Vec<String> = Vec::new();
    let mut j: usize = 0;
    while j < parts.len()
        invariant
            pieces == key_views(parts@),
            j <= parts@.len(),
            key_views(r@) == keep_nonblank(pieces.take(j as int)),
        decreases parts@.len() - j,
    {
        assert(pieces.take(j + 1).drop_last() =~= pieces.take(j as int));
        assert(pieces.take(j + 1).last() == parts@[j as int]@);
        let ghost before = r@;
        if !is_blank(parts[j].as_str()) {
            r.push(parts[j].clone());
            assert(key_views(r@) =~= key_views(before).push(parts@[j as int]@));
        } else {
            assert(key_views(r@) =~= key_views(before) + Seq::<Seq<char>>::empty());
        }
        j = j + 1;
    }
    assert(pieces.take(parts@.len() as int) =~= pieces);
    r
}

/// The entries with the field at `segments` set to `v`: each segment but
/// the last names an object, made empty where the field is missing or not
/// an object.
pub open spec fn set_path(fs: Seq<(Seq<char>, JsonModel)>, segments: Seq<Seq<char>>, v: JsonModel) -> Seq<(Seq<char>, JsonModel)>
    decreases segments.len(),
{
    if segments.len() <= 1 {
        model_set(fs, segments[0], v)
    } else {
        let child = match model_get(fs, segments[0]) {
            Some(JsonModel::Object(c)) => c,
            _ => Seq::empty(),
        };
        model_set(fs, segments[0], JsonModel::Object(set_path(child, segments.drop_first(), v)))
    }
}

/// The field at `segments`: each segment but the last must name an object.
pub open spec fn get_path(fs: Seq<(Seq<char>, JsonModel)>, segments: Seq<Seq<char>>) -> Option<JsonModel>
    decreases segments.len(),
{
    if segments.len() <= 1 {
        model_get(fs, segments[0])
    } else {
        match model_get(fs, segments[0]) {
            Some(JsonModel::Object(c)) => get_path(c, segments.drop_first()),
            _ => None,
        }
    }
}

/// Reading a dotted path after setting it gives the value set.
pub proof fn law_set_path_then_get(fs: Seq<(Seq<char>, JsonModel)>, segments: Seq<Seq<char>>, v: JsonModel)
    requires
        segments.len() > 0,
    ensures
        get_path(set_path(fs, segments, v), segments) == Some(v),
    decreases segments.len(),
{
    if segments.len() <= 1 {
        crate::json::law_set_then_get(fs, segments[0], v, segments[0]);
    } else {
        let child = match model_get(fs, segments[0]) {
            Some(JsonModel::Object(c)) => c,
            _ => Seq::empty(),
        };
        let inner = set_path(child, segments.drop_first(), v);
        crate::json::law_set_then_get(fs, segments[0], JsonModel::Object(inner), segments[0]);
        law_set_path_then_get(child, segments.drop_first(), v);
    }
}

fn set_path_fields(f: JsonFields, segments: &Vec<String>, i: usize, v: JsonValue) -> (r: JsonFields)
    requires
        i < segments@.len(),
    ensures
        fields_view(r) == set_path(fields_view(f), key_views(segments@).skip(i as int), json_view(v)),
    decreases segments@.len() - i,
{
    let ghost segs = key_views(segments@).skip(i as int);
    assert(segs[0] == segments@[i as int]@);
    if i == segments.len() - 1 {
        f.set(segments[i].as_str(), v)
    } else {
        assert(segs.drop_first() =~= key_views(segments@).skip(i + 1));
        let child = match f.lookup(segments[i].as_str()) {
            Some(JsonValue::Object(c)) => c.clone(),
            _ => JsonFields::Nil,
        };
        assert(fields_view(child) == match model_get(fields_view(f), segs[0]) {
            Some(JsonModel::Object(c)) => c,
            _ => Seq::empty(),
        }) by {
            reveal_with_fuel(fields_view, 1);
        }
        let inner = set_path_fields(child, segments, i + 1, v);
        let r = f.set(segments[i].as_str(), JsonValue::Object(inner));
        r
    }
}

/// The text of a string value.
pub open spec fn model_text(m: Option<JsonModel>) -> Option<Seq<char>> {
    match m {
        Some(JsonModel::Text(t)) => Some(t),
        _ => None,
    }
}

/// The texts among the items, in order.
pub open spec fn model_texts(items: Seq<JsonModel>) -> Seq<Seq<char>>
    decreases items.len(),
{
    if items.len() == 0 {
        Seq::empty()
    } else {
        model_texts(items.drop_last()) + match items.last() {
            JsonModel::Text(t) => seq![t],
            _ => Seq::empty(),
        }
    }
}

/// The texts among the items, trimmed, the blank ones dropped.
pub open spec fn trimmed_texts(items: Seq<JsonModel>) -> Seq<Seq<char>>
    decreases items.len(),
{
    if items.len() == 0 {
        Seq::empty()
    } else {
        trimmed_texts(items.drop_last()) + match items.last() {
            JsonModel::Text(t) => if trim_spec(t).len() > 0 {
                seq![trim_spec(t)]
            } else {
                Seq::empty()
            },
            _ => Seq::empty(),
        }
    }
}

/// The tags as a JSON array of strings.
pub open spec fn tags_model(tags: Seq<Seq<char>>) -> JsonModel {
    JsonModel::Array(tags.map_values(|t: Seq<char>| JsonModel::Text(t)))
}

/// The JSON an entity's data stands for: setting the current value puts it
/// in the object (an object that was not one before holds only that field).
pub open spec fn data_model(d: EntityData) -> JsonModel
    decreases d,
{
    match d {
        EntityData::Json(v) => json_view(v),
        EntityData::WithCurrentValue(base, value) => JsonModel::Object(
            model_set(object_entries(data_model(*base)), "currentValue"@, json_view(signal_json(value))),
        ),
    }
}

/// The name and tags a properties edit gives an entity named `name` with
/// data `data`: the changes must form an object; a `name` that is not
/// blank renames it (trimmed); `tags`, when given, must be an array whose
/// non-blank strings (trimmed) become the tags; otherwise the strings of
/// the current tags stay.
pub open spec fn edit_header(name: Seq<char>, data: JsonModel, changes: JsonModel) -> Result<(Seq<char>, Seq<Seq<char>>), Seq<char>> {
    match changes {
        JsonModel::Object(cs) => match edited_name(model_text(model_get(cs, "name"@)), name) {
            Err(m) => Err(m),
            Ok(next_name) => match model_get(cs, "tags"@) {
                None => Ok(
                    (
                        next_name,
                        match model_get(object_entries(data), "tags"@) {
                            Some(JsonModel::Array(items)) => model_texts(items),
                            _ => Seq::empty(),
                        },
                    ),
                ),
                Some(JsonModel::Array(items)) => Ok((next_name, trimmed_texts(items))),
                Some(_) => Err("tags doit rester un tableau"@),
            },
        },
        _ => Err("les changements doivent former un objet JSON"@),
    }
}

/// The changes applied in order: `name` and `tags` are skipped, every other
/// entry sets the field at its dotted path; a path without a segment is
/// refused.
pub open spec fn apply_changes(fs: Seq<(Seq<char>, JsonModel)>, changes: Seq<(Seq<char>, JsonModel)>) -> Result<
    Seq<(Seq<char>, JsonModel)>,
    Seq<char>,
>
    decreases changes.len(),
{
    if changes.len() == 0 {
        Ok(fs)
    } else {
        let key = changes[0].0;
        let rest = changes.drop_first();
        if key == "name"@ || key == "tags"@ {
            apply_changes(fs, rest)
        } else if path_segments(key).len() == 0 {
            Err("chemin de propriete vide"@)
        } else {
            apply_changes(set_path(fs, path_segments(key), changes[0].1), rest)
        }
    }
}

/// A number a dimension may take: above zero (and finite).
pub open spec fn positive_number(n: JsonNumber) -> bool {
    match n {
        JsonNumber::PosInt(u) => u > 0,
        JsonNumber::NegInt(_) => false,
        JsonNumber::Float(bits) => finite_positive(bits),
    }
}

pub open spec fn dimension_ok(p: Seq<(Seq<char>, JsonModel)>, name: Seq<char>) -> bool {
    model_get(p, name) matches Some(JsonModel::Number(n)) ==> positive_number(n)
}

/// The first numeric dimension of `parameterSet` that is not positive.
pub open spec fn dimension_fault(fs: Seq<(Seq<char>, JsonModel)>) -> Option<Seq<char>> {
    match model_get(fs, "parameterSet"@) {
        Some(JsonModel::Object(p)) => if !dimension_ok(p, "widthMm"@) {
            Some("parameterSet.widthMm doit rester strictement positif"@)
        } else if !dimension_ok(p, "heightMm"@) {
            Some("parameterSet.heightMm doit rester strictement positif"@)
        } else if !dimension_ok(p, "depthMm"@) {
            Some("parameterSet.depthMm doit rester strictement positif"@)
        } else {
            None
        },
        _ => None,
    }
}

/// The data a properties edit gives: the current object (an empty one in
/// place of any other value) with the tags set, the changes applied and
/// its dimensions checked.
pub open spec fn edit_data(data: JsonModel, tags: Seq<Seq<char>>, changes: Seq<(Seq<char>, JsonModel)>) -> Result<
    Seq<(Seq<char>, JsonModel)>,
    Seq<char>,
> {
    match apply_changes(model_set(object_entries(data), "tags"@, tags_model(tags)), changes) {
        Err(m) => Err(m),
        Ok(fs) => match dimension_fault(fs) {
            Some(m) => Err(m),
            None => Ok(fs),
        },
    }
}

proof fn lemma_list_view(l: JsonList)
    ensures
        list_view(l) == list_items(l).map_values(|x: JsonValue| json_view(x)),
    decreases l,
{
    match l {
        JsonList::Nil => {
            assert(list_items(l).map_values(|x: JsonValue| json_view(x)) =~= Seq::<JsonModel>::empty());
        },
        JsonList::Cons(head, tail) => {
            lemma_list_view(*tail);
            assert(list_items(l).map_values(|x: JsonValue| json_view(x)) =~= seq![json_view(*head)] + list_items(
                *tail,
            ).map_values(|x: JsonValue| json_view(x)));
        },
    }
}

/// The JSON of an entity's data.
pub fn data_json(d: &EntityData) -> (r: JsonValue)
    ensures
        json_view(r) == data_model(*d),
    decreases d,
{
    match d {
        EntityData::Json(v) => v.clone(),
        EntityData::WithCurrentValue(base, value) => {
            let b: &EntityData = base;
            let f = match data_json(b) {
                JsonValue::Object(f) => f,
                _ => JsonFields::Nil,
            };
            JsonValue::Object(f.set("currentValue", signal_value_json(value)))
        },
    }
}

fn text_items(items: &Vec<JsonValue>, trimmed: bool) -> (r: Vec<String>)
    ensures
        key_views(r@) == if trimmed {
            trimmed_texts(items@.map_values(|x: JsonValue| json_view(x)))
        } else {
            model_texts(items@.map_values(|x: JsonValue| json_view(x)))
        },
{
    let ghost views = items@.map_values(|x: JsonValue| json_view(x));
    let mut r: Vec<String> = Vec::new();
    let mut i: usize = 0;
    while i < items.len()
        invariant
            views == items@.map_values(|x: JsonValue| json_view(x)),
            i <= items@.len(),
            key_views(r@) == if trimmed {
                trimmed_texts(views.take(i as int))
            } else {
                model_texts(views.take(i as int))
            },
        decreases items@.len() - i,
    {
        assert(views.take(i + 1).drop_last() =~= views.take(i as int));
        assert(views.take(i + 1).last() == json_view(items@[i as int]));
        let ghost before = key_views(r@);
        match &items[i] {
            JsonValue::Text(t) => {
                assert(views[i as int] == JsonModel::Text(t@));
                if trimmed {
                    let tt = trim(t.as_str());
                    if tt.as_str().unicode_len() > 0 {
                        r.push(tt);
                        assert(key_views(r@) =~= before.push(trim_spec(t@)));
                    } else {
                        assert(key_views(r@) =~= before + Seq::<Seq<char>>::empty());
                    }
                } else {
                    r.push(t.clone());
                    assert(key_views(r@) =~= before.push(t@));
                }
            },
            _ => {
                assert(!(views[i as int] is Text));
                assert(key_views(r@) =~= before + Seq::<Seq<char>>::empty());
            },
        }
        i = i + 1;
    }
    assert(views.take(items@.len() as int) =~= views);
    r
}

fn array_items(v: Option<&JsonValue>) -> (r: Option<Vec<JsonValue>>)
    ensures
        match v {
            Some(x) => match json_view(*x) {
                JsonModel::Array(items) => r matches Some(out) && out@.map_values(|y: JsonValue| json_view(y)) == items,
                _ => r is None,
            },
            None => r is None,
        },
{
    match v {
        Some(x) => match x {
            JsonValue::Array(l) => {
                proof {
                    lemma_list_view(*l);
                }
                x.items()
            },
            _ => None,
        },
        None => None,
    }
}

/// The name and tags of a properties edit (see `edit_header`).
pub fn properties_header(name: &str, data: &EntityData, changes: &JsonValue) -> (r: Result<(String, Vec<String>), String>)
    ensures
        match edit_header(name@, data_model(*data), json_view(*changes)) {
            Ok((n, t)) => r matches Ok((rn, rt)) && rn@ == n && key_views(rt@) == t,
            Err(m) => r matches Err(rm) && rm@ == m,
        },
{
    let cs = match changes {
        JsonValue::Object(cs) => cs,
        _ => return Err(String::from_str("les changements doivent former un objet JSON")),
    };
    let requested = match cs.lookup("name") {
        Some(JsonValue::Text(t)) => Some(t.as_str()),
        _ => None,
    };
    let next_name = match crate::session::edit_entity_name(requested, name) {
        Ok(n) => n,
        Err(m) => return Err(m),
    };
    let tags = match cs.lookup("tags") {
        None => {
            let current = data_json(data);
            let found = match &current {
                JsonValue::Object(f) => f.lookup("tags"),
                _ => None,
            };
            match array_items(found) {
                Some(items) => text_items(&items, false),
                None => Vec::new(),
            }
        },
        Some(v) => match array_items(Some(v)) {
            Some(items) => text_items(&items, true),
            None => return Err(String::from_str("tags doit rester un tableau")),
        },
    };
    Ok((next_name, tags))
}

fn number_positive(n: JsonNumber) -> (r: bool)
    ensures
        r == positive_number(n),
{
    match n {
        JsonNumber::PosInt(u) => u > 0,
        JsonNumber::NegInt(_) => false,
        JsonNumber::Float(bits) => bits_is_finite(bits) && !bits_le(bits, 0),
    }
}

fn dimension_check(p: &JsonFields, name: &str) -> (r: bool)
    ensures
        r == dimension_ok(fields_view(*p), name@),
{
    match p.lookup(name) {
        Some(JsonValue::Number(n)) => number_positive(*n),
        _ => true,
    }
}

fn dimension_message(fs: &JsonFields) -> (r: Option<String>)
    ensures
        match dimension_fault(fields_view(*fs)) {
            Some(m) => r matches Some(s) && s@ == m,
            None => r is None,
        },
{
    match fs.lookup("parameterSet") {
        Some(JsonValue::Object(p)) => if !dimension_check(p, "widthMm") {
            Some(String::from_str("parameterSet.widthMm doit rester strictement positif"))
        } else if !dimension_check(p, "heightMm") {
            Some(String::from_str("parameterSet.heightMm doit rester strictement positif"))
        } else if !dimension_check(p, "depthMm") {
            Some(String::from_str("parameterSet.depthMm doit rester strictement positif"))
        } else {
            None
        },
        _ => None,
    }
}

pub(crate) fn tags_json(tags: &Vec<String>) -> (r: JsonValue)
    ensures
        json_view(r) == tags_model(key_views(tags@)),
{
    let mut items: Vec<JsonValue> = Vec::new();
    let mut i: usize = 0;
    while i < tags.len()
        invariant
            i <= tags@.len(),
            items@.map_values(|x: JsonValue| json_view(x)) == key_views(tags@).take(i as int).map_values(
                |t: Seq<char>| JsonModel::Text(t),
            ),
        decreases tags@.len() - i,
    {
        let ghost before = items@;
        let t = tags[i].clone();
        let item = JsonValue::Text(t);
        assert(json_view(item) == JsonModel::Text(tags@[i as int]@));
        items.push(item);
        assert(key_views(tags@).take(i + 1) =~= key_views(tags@).take(i as int).push(tags@[i as int]@));
        assert(items@ =~= before.push(item));
        assert(items@.map_values(|x: JsonValue| json_view(x)) =~= before.map_values(|x: JsonValue| json_view(x)).push(
            json_view(item),
        ));
        assert(items@.map_values(|x: JsonValue| json_view(x)) =~= key_views(tags@).take(i + 1).map_values(
            |t: Seq<char>| JsonModel::Text(t),
        ));
        i = i + 1;
    }
    assert(key_views(tags@).take(tags@.len() as int) =~= key_views(tags@));
    JsonValue::array(items)
}

fn apply_changes_exec(fs: JsonFields, changes: &JsonFields) -> (r: Result<JsonFields, String>)
    ensures
        match apply_changes(fields_view(fs), fields_view(*changes)) {
            Ok(out) => r matches Ok(f) && fields_view(f) == out,
            Err(m) => r matches Err(s) && s@ == m,
        },
    decreases changes,
{
    match changes {
        JsonFields::Nil => Ok(fs),
        JsonFields::Cons(key, value, rest) => {
            let ghost here = fields_view(*changes);
            assert(here.drop_first() =~= fields_view(**rest));
            assert(here[0] == (key@, json_view(**value)));
            let r: &JsonFields = rest;
            if str_eq_any(key.as_str()) {
                apply_changes_exec(fs, r)
            } else {
                let segments = path_segments_of(key.as_str());
                if segments.len() == 0 {
                    return Err(String::from_str("chemin de propriete vide"));
                }
                let v: &JsonValue = value;
                let next = set_path_fields(fs, &segments, 0, v.clone());
                assert(key_views(segments@).skip(0) =~= key_views(segments@));
                apply_changes_exec(next, r)
            }
        },
    }
}

/// The data of a properties edit (see `edit_data`).
pub fn properties_data(data: &EntityData, tags: &Vec<String>, changes: &JsonFields) -> (r: Result<JsonFields, String>)
    ensures
        match edit_data(data_model(*data), key_views(tags@), fields_view(*changes)) {
            Ok(fs) => r matches Ok(f) && fields_view(f) == fs,
            Err(m) => r matches Err(s) && s@ == m,
        },
{
    let base = match data_json(data) {
        JsonValue::Object(f) => f,
        _ => JsonFields::Nil,
    };
    let fs = base.set("tags", tags_json(tags));
    let fs = match apply_changes_exec(fs, changes) {
        Ok(f) => f,
        Err(m) => return Err(m),
    };
    match dimension_message(&fs) {
        Some(m) => Err(m),
        None => Ok(fs),
    }
}

fn str_eq_any(key: &str) -> (r: bool)
    ensures
        r == (key@ == "name"@ || key@ == "tags"@),
{
    crate::text::str_eq(key, "name") || crate::text::str_eq(key, "tags")
}


/// `v` is a current value a signal of kind `kind` may hold.
pub open spec fn signal_value_fits(kind: Seq<char>, v: Option<JsonModel>) -> bool {
    if kind == "boolean"@ {
        v matches Some(JsonModel::Bool(_))
    } else if kind == "scalar"@ {
        v matches Some(JsonModel::Number(_))
    } else if kind == "text"@ {
        v matches Some(JsonModel::Text(_))
    } else {
        false
    }
}

/// The current value a signal of kind `kind` falls back to.
pub open spec fn default_signal_model(kind: Seq<char>) -> JsonModel {
    if kind == "scalar"@ {
        JsonModel::Number(JsonNumber::Float(0))
    } else if kind == "text"@ {
        JsonModel::Text(Seq::empty())
    } else {
        JsonModel::Bool(false)
    }
}

/// The data a properties edit gives a signal: as for any entity, then its
/// kind must stay `boolean`, `scalar` or `text`, and a current value that
/// does not fit the kind is replaced by the kind's default.
pub open spec fn signal_edit_data(data: JsonModel, tags: Seq<Seq<char>>, changes: Seq<(Seq<char>, JsonModel)>) -> Result<
    Seq<(Seq<char>, JsonModel)>,
    Seq<char>,
> {
    match edit_data(data, tags, changes) {
        Err(m) => Err(m),
        Ok(fs) => match model_get(fs, "kind"@) {
            Some(JsonModel::Text(k)) => if !(k == "boolean"@ || k == "scalar"@ || k == "text"@) {
                Err("le kind du signal doit etre boolean, scalar ou text"@)
            } else if signal_value_fits(k, model_get(fs, "currentValue"@)) {
                Ok(fs)
            } else {
                Ok(model_set(fs, "currentValue"@, default_signal_model(k)))
            },
            _ => Err("le signal doit conserver un kind valide"@),
        },
    }
}

/// The data of a signal's properties edit (see `signal_edit_data`).
pub fn signal_properties_data(data: &EntityData, tags: &Vec<String>, changes: &JsonFields) -> (r: Result<JsonFields, String>)
    ensures
        match signal_edit_data(data_model(*data), key_views(tags@), fields_view(*changes)) {
            Ok(fs) => r matches Ok(f) && fields_view(f) == fs,
            Err(m) => r matches Err(s) && s@ == m,
        },
{
    let fs = match properties_data(data, tags, changes) {
        Ok(f) => f,
        Err(m) => return Err(m),
    };
    let ghost kind: Seq<char> = match model_get(fields_view(fs), "kind"@) {
        Some(JsonModel::Text(t)) => t,
        _ => Seq::empty(),
    };
    let (boolean, scalar, text) = match fs.lookup("kind") {
        Some(JsonValue::Text(k)) => (
            crate::text::str_eq(k.as_str(), "boolean"),
            crate::text::str_eq(k.as_str(), "scalar"),
            crate::text::str_eq(k.as_str(), "text"),
        ),
        _ => return Err(String::from_str("le signal doit conserver un kind valide")),
    };
    if !(boolean || scalar || text) {
        return Err(String::from_str("le kind du signal doit etre boolean, scalar ou text"));
    }
    let fits = match fs.lookup("currentValue") {
        Some(JsonValue::Bool(_)) => boolean,
        Some(JsonValue::Number(_)) => scalar,
        Some(JsonValue::Text(_)) => text,
        _ => false,
    };
    proof {
        reveal_strlit("boolean");
        reveal_strlit("scalar");
        reveal_strlit("text");
    }
    assert("scalar"@.len() == 6 && "text"@.len() == 4 && "boolean"@.len() == 7);
    assert(fits == signal_value_fits(kind, model_get(fields_view(fs), "currentValue"@)));
    if fits {
        Ok(fs)
    } else {
        let fallback = if scalar {
            JsonValue::Number(JsonNumber::Float(0))
        } else if text {
            JsonValue::Text(String::new())
        } else {
            JsonValue::Bool(false)
        };
        assert(json_view(fallback) == default_signal_model(kind));
        Ok(fs.set("currentValue", fallback))
    }
}

/// Entity types whose edits rebuild floating-point geometry or the robot
/// cell's control model; the caller carries them out.
pub open spec fn edited_elsewhere(entity_type: Seq<char>) -> bool {
    entity_type == "Part"@ || entity_type == "Signal"@ || entity_type == "ControllerModel"@ || entity_type
        == "RobotTarget"@
}

/// What a properties edit did.
#[derive(Debug)]
pub enum PropertiesStep {
    /// The entity was replaced and the edit journaled.
    Done(CommandResult),
    /// The edit was refused with this message; nothing changed.
    Rejected(String),
    /// The entity's type is edited by the caller (see `edited_elsewhere`);
    /// nothing changed.
    Delegated,
}

/// `stored` is `e` under `id`, renamed `name`, with `fs` as its data.
pub open spec fn entity_edited(e: EntityRecord, id: Seq<char>, name: Seq<char>, fs: Seq<(Seq<char>, JsonModel)>, stored: EntityRecord) -> bool {
    &&& stored.id@ == id
    &&& stored.entity_type == e.entity_type
    &&& stored.status == e.status
    &&& stored.name@ == name
    &&& stored.data matches EntityData::Json(JsonValue::Object(f)) && fields_view(f) == fs
}

/// The outcome of editing entity `id` of `d` with `changes`: `Err` with the
/// refusal message, `Ok(None)` when the type is edited elsewhere, else the
/// new name and data.
pub open spec fn properties_edit(d: DocumentModel, id: Seq<char>, changes: JsonModel) -> Result<
    Option<(Seq<char>, Seq<(Seq<char>, JsonModel)>)>,
    Seq<char>,
> {
    if !d.nodes.dom().contains(id) {
        Err("entite introuvable: "@ + id)
    } else {
        let e = d.nodes[id];
        match edit_header(e.name@, data_model(e.data), changes) {
            Err(m) => Err(m),
            Ok((name, tags)) => if edited_elsewhere(e.entity_type@) {
                Ok(None)
            } else {
                match changes {
                    JsonModel::Object(cs) => match edit_data(data_model(e.data), tags, cs) {
                        Err(m) => Err(m),
                        Ok(fs) => Ok(Some((name, fs))),
                    },
                    _ => Err("les changements doivent former un objet JSON"@),
                }
            },
        }
    }
}

impl WorkspaceSession {
    /// Applies an inspector edit to entity `entity_id`: its name, its tags
    /// and the data fields named by the other keys of `changes`.
    pub fn update_entity_properties(&mut self, entity_id: &str, changes: &JsonValue) -> (r: PropertiesStep)
        requires
            log_numbers_below(old(self).graph@),
            counters_fit(old(self).graph@),
            old(self).system_counter < usize::MAX,
        ensures
            log_numbers_below(final(self).graph@),
            final(self).fixture_id == old(self).fixture_id,
            match properties_edit(old(self).graph@.document, entity_id@, json_view(*changes)) {
                Err(m) => r matches PropertiesStep::Rejected(rm) && rm@ == m && *final(self) == *old(self),
                Ok(None) => r is Delegated && *final(self) == *old(self),
                Ok(Some((name, fs))) => {
                    let d0 = old(self).graph@.document;
                    let d1 = final(self).graph@.document;
                    &&& r matches PropertiesStep::Done(res) && result_view(res) == (
                        "entity.properties.update"@,
                        "applied"@,
                        "proprietes mises a jour pour "@ + entity_id@,
                    )
                    &&& entity_edited(d0.nodes[entity_id@], entity_id@, name, fs, d1.nodes[entity_id@])
                    &&& d1.nodes == d0.nodes.insert(entity_id@, d1.nodes[entity_id@])
                    &&& d1.endpoints == d0.endpoints
                    &&& d1.streams == d0.streams
                    &&& d1.plugin_states == d0.plugin_states
                    &&& final(self).system_counter == old(self).system_counter + 1
                    &&& journal_view(final(self).system_activity@) == journal_view(old(self).system_activity@).push(
                        system_entry(old(self).system_counter as nat, "entity.properties.updated"@, Some(entity_id@)),
                    )
                },
            },
    {
        let entity = match self.graph.document().nodes.get(entity_id) {
            Some(e) => e.clone(),
            None => {
                let mut m = String::from_str("entite introuvable: ");
                m.append(entity_id);
                return PropertiesStep::Rejected(m);
            },
        };
        let (next_name, tags) = match properties_header(entity.name.as_str(), &entity.data, changes) {
            Ok(h) => h,
            Err(m) => return PropertiesStep::Rejected(m),
        };
        let t = entity.entity_type.as_str();
        if crate::text::str_eq(t, "Part") || crate::text::str_eq(t, "Signal") || crate::text::str_eq(t, "ControllerModel")
            || crate::text::str_eq(t, "RobotTarget") {
            return PropertiesStep::Delegated;
        }
        let cs = match changes {
            JsonValue::Object(cs) => cs,
            _ => return PropertiesStep::Rejected(String::from_str("les changements doivent former un objet JSON")),
        };
        let fs = match properties_data(&entity.data, &tags, cs) {
            Ok(f) => f,
            Err(m) => return PropertiesStep::Rejected(m),
        };
        let next = EntityRecord {
            id: String::from_str(entity_id),
            entity_type: entity.entity_type.clone(),
            name: next_name,
            revision: entity.revision.clone(),
            status: entity.status.clone(),
            data: EntityData::Json(JsonValue::Object(fs)),
        };
        let _ = self.graph.apply_command(CoreCommand::ReplaceEntity(next));
        self.push_system_activity("entity.properties.updated", Some(String::from_str(entity_id)));
        let mut message = String::from_str("proprietes mises a jour pour ");
        message.append(entity_id);
        PropertiesStep::Done(
            CommandResult {
                command_id: String::from_str("entity.properties.update"),
                status: String::from_str("applied"),
                message,
            },
        )
    }
}

} // verus!
