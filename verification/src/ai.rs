//! Rules of the local AI assistant that do not talk to the model server:
//! which local model and runtime profile to use, the status reported to the
//! UI, how warnings combine and which conversation history is replayed.
use vstd::prelude::*;
use crate::text::{
    parse_u64, parse_u64_spec,
    ascii_lower_seq, contains_folded, contains_spec, is_blank, starts_with, starts_with_spec,
    str_eq, trim, trim_spec,
};

verus! {

/// The views of a sequence of strings.
pub open spec fn views(s: Seq<String>) -> Seq<Seq<char>> {
    s.map_values(|x: String| x@)
}

/// The view of an optional string.
pub open spec fn opt_view(o: Option<String>) -> Option<Seq<char>> {
    match o {
        Some(s) => Some(s@),
        None => None,
    }
}

/// A runtime profile: how much local compute the assistant may use.
#[derive(Debug, Clone, Copy, PartialEq, Eq, Structural)]
pub enum AiProfilePreset {
    Balanced,
    Max,
    Furnace,
}

pub open spec fn profile_label(p: AiProfilePreset) -> Seq<char> {
    match p {
        AiProfilePreset::Balanced => "balanced"@,
        AiProfilePreset::Max => "max"@,
        AiProfilePreset::Furnace => "furnace"@,
    }
}

/// The profile a request names: `max` or `furnace` after trimming, else balanced.
pub open spec fn requested_profile_spec(value: Option<Seq<char>>) -> AiProfilePreset {
    match value {
        Some(v) => if trim_spec(v) == "max"@ {
            AiProfilePreset::Max
        } else if trim_spec(v) == "furnace"@ {
            AiProfilePreset::Furnace
        } else {
            AiProfilePreset::Balanced
        },
        None => AiProfilePreset::Balanced,
    }
}

pub open spec fn opt_str_view(o: Option<&str>) -> Option<Seq<char>> {
    match o {
        Some(s) => Some(s@),
        None => None,
    }
}

impl AiProfilePreset {
    pub fn as_str(self) -> (s: &'static str)
        ensures
            s@ == profile_label(self),
    {
        match self {
            AiProfilePreset::Balanced => "balanced",
            AiProfilePreset::Max => "max",
            AiProfilePreset::Furnace => "furnace",
        }
    }

    pub fn from_requested(value: Option<&str>) -> (p: Self)
        ensures
            p == requested_profile_spec(opt_str_view(value)),
    {
        match value {
            None => AiProfilePreset::Balanced,
            Some(v) => {
                let t = trim(v);
                if str_eq(t.as_str(), "max") {
                    AiProfilePreset::Max
                } else if str_eq(t.as_str(), "furnace") {
                    AiProfilePreset::Furnace
                } else {
                    AiProfilePreset::Balanced
                }
            },
        }
    }
}

/// The labels of all profiles, in increasing order of resource use.
pub fn available_profiles() -> (v: Vec<String>)
    ensures
        views(v@) == seq!["balanced"@, "max"@, "furnace"@],
{
    let mut v: Vec<String> = Vec::new();
    v.push(String::from_str(AiProfilePreset::Balanced.as_str()));
    v.push(String::from_str(AiProfilePreset::Max.as_str()));
    v.push(String::from_str(AiProfilePreset::Furnace.as_str()));
    assert(views(v@) =~= seq!["balanced"@, "max"@, "furnace"@]);
    v
}

/// The first preferred model that is installed, else the first installed model.
pub open spec fn default_model_spec(models: Seq<Seq<char>>, preferred: Seq<Seq<char>>) -> Option<Seq<char>>
    decreases preferred.len(),
{
    if preferred.len() == 0 {
        if models.len() == 0 {
            None
        } else {
            Some(models[0])
        }
    } else if models.contains(preferred[0]) {
        Some(preferred[0])
    } else {
        default_model_spec(models, preferred.drop_first())
    }
}

fn contains_string(values: &[String], x: &str) -> (b: bool)
    ensures
        b == views(values@).contains(x@),
{
    let n = values.len();
    let mut i: usize = 0;
    while i < n
        invariant
            n == values@.len(),
            i <= n,
            forall|j: int| 0 <= j < i ==> values@[j]@ != x@,
        decreases n - i,
    {
        if str_eq(values[i].as_str(), x) {
            assert(views(values@)[i as int] == x@);
            return true;
        }
        i = i + 1;
    }
    proof {
        if views(values@).contains(x@) {
            let k = choose|k: int| 0 <= k < views(values@).len() && views(values@)[k] == x@;
            assert(values@[k]@ == x@);
        }
    }
    false
}

/// The model used when none is requested.
pub fn select_default_model(models: &[String], preferred_models: &[String]) -> (r: Option<String>)
    ensures
        opt_view(r) == default_model_spec(views(models@), views(preferred_models@)),
{
    let n = preferred_models.len();
    let mut i: usize = 0;
    assert(views(preferred_models@).subrange(0, n as int) =~= views(preferred_models@));
    while i < n
        invariant
            n == preferred_models@.len(),
            i <= n,
            default_model_spec(views(models@), views(preferred_models@)) == default_model_spec(
                views(models@),
                views(preferred_models@).subrange(i as int, n as int),
            ),
        decreases n - i,
    {
        let ghost rest = views(preferred_models@).subrange(i as int, n as int);
        assert(rest.drop_first() =~= views(preferred_models@).subrange(i + 1, n as int));
        if contains_string(models, preferred_models[i].as_str()) {
            return Some(preferred_models[i].clone());
        }
        i = i + 1;
    }
    assert(views(preferred_models@).subrange(n as int, n as int).len() == 0);
    if models.len() == 0 {
        None
    } else {
        Some(models[0].clone())
    }
}

/// The warning given when a requested model is not installed.
pub open spec fn missing_model_warning(model: Seq<char>) -> Seq<char> {
    "requested local model `"@ + model + "` not available"@
}

/// The model chosen and the warning raised for a request.
#[derive(Debug, Clone, PartialEq, Eq)]
pub struct ModelSelection {
    pub active_model: Option<String>,
    pub warning: Option<String>,
}

/// The model selection for `requested` (trimmed; blank counts as absent).
pub open spec fn model_selection_spec(
    models: Seq<Seq<char>>,
    preferred: Seq<Seq<char>>,
    requested: Option<Seq<char>>,
) -> (Option<Seq<char>>, Option<Seq<char>>) {
    match requested {
        Some(r) if trim_spec(r).len() > 0 => {
            let t = trim_spec(r);
            if models.contains(t) {
                (Some(t), None)
            } else {
                (default_model_spec(models, preferred), Some(missing_model_warning(t)))
            }
        },
        _ => (default_model_spec(models, preferred), None),
    }
}

pub fn resolve_model_selection(
    models: &[String],
    preferred_models: &[String],
    requested_model: Option<&str>,
) -> (s: ModelSelection)
    ensures
        (opt_view(s.active_model), opt_view(s.warning)) == model_selection_spec(
            views(models@),
            views(preferred_models@),
            opt_str_view(requested_model),
        ),
{
    if let Some(r) = requested_model {
        let t = trim(r);
        if t.as_str().unicode_len() > 0 {
            if contains_string(models, t.as_str()) {
                return ModelSelection { active_model: Some(t), warning: None };
            }
            let mut w = String::from_str("requested local model `");
            w.append(t.as_str());
            w.append("` not available");
            return ModelSelection {
                active_model: select_default_model(models, preferred_models),
                warning: Some(w),
            };
        }
    }
    ModelSelection { active_model: select_default_model(models, preferred_models), warning: None }
}

/// The size in billions of parameters that a model name advertises.
pub open spec fn model_size_spec(model: Seq<char>) -> Option<u32> {
    let lower = ascii_lower_seq(model);
    if contains_spec(lower, "27b"@) {
        Some(27)
    } else if contains_spec(lower, "12b"@) {
        Some(12)
    } else if contains_spec(lower, "4b"@) {
        Some(4)
    } else {
        None
    }
}

pub fn model_size_b(model: &str) -> (r: Option<u32>)
    ensures
        r == model_size_spec(model@),
{
    if contains_folded(model, "27b") {
        Some(27)
    } else if contains_folded(model, "12b") {
        Some(12)
    } else if contains_folded(model, "4b") {
        Some(4)
    } else {
        None
    }
}

/// The model advertises at least `minimum_size_b` billion parameters.
pub open spec fn size_at_least(model: Seq<char>, minimum_size_b: u32) -> bool {
    match model_size_spec(model) {
        Some(size) => size >= minimum_size_b,
        None => false,
    }
}

/// Some installed model advertises at least `minimum_size_b` billion parameters.
pub open spec fn has_large_model_spec(models: Seq<Seq<char>>, minimum_size_b: u32) -> bool {
    exists|i: int| 0 <= i < models.len() && #[trigger] size_at_least(models[i], minimum_size_b)
}

pub fn has_large_local_model(models: &[String], minimum_size_b: u32) -> (b: bool)
    ensures
        b == has_large_model_spec(views(models@), minimum_size_b),
{
    let n = models.len();
    let mut i: usize = 0;
    while i < n
        invariant
            n == models@.len(),
            i <= n,
            forall|j: int| 0 <= j < i ==> !#[trigger] size_at_least(views(models@)[j], minimum_size_b),
        decreases n - i,
    {
        match model_size_b(models[i].as_str()) {
            Some(size) => {
                if size >= minimum_size_b {
                    assert(model_size_spec(views(models@)[i as int]) == Some(size));
                    assert(size_at_least(views(models@)[i as int], minimum_size_b));
                    return true;
                }
            },
            None => {},
        }
        assert(model_size_spec(views(models@)[i as int]) == model_size_spec(models@[i as int]@));
        i = i + 1;
    }
    false
}

pub open spec fn max_degraded_warning() -> Seq<char> {
    "requested AI profile `max` degraded to `balanced` because no 12b+ local model is available"@
}

pub open spec fn furnace_to_max_warning() -> Seq<char> {
    "requested AI profile `furnace` degraded to `max` because no 27b local model is available"@
}

pub open spec fn furnace_to_balanced_warning() -> Seq<char> {
    "requested AI profile `furnace` degraded to `balanced` because local resources are insufficient"@
}

/// The profile granted and the warning raised for a request.
#[derive(Debug, Clone, PartialEq, Eq)]
pub struct ProfileSelection {
    pub profile: AiProfilePreset,
    pub warning: Option<String>,
}

/// The profile selection: with no model installed the request stands;
/// otherwise a profile degrades when no model is large enough for it.
pub open spec fn profile_selection_spec(models: Seq<Seq<char>>, requested: Option<Seq<char>>) -> (AiProfilePreset, Option<Seq<char>>) {
    let p = requested_profile_spec(requested);
    if models.len() == 0 {
        (p, None)
    } else {
        match p {
            AiProfilePreset::Balanced => (p, None),
            AiProfilePreset::Max => if has_large_model_spec(models, 12) {
                (p, None)
            } else {
                (AiProfilePreset::Balanced, Some(max_degraded_warning()))
            },
            AiProfilePreset::Furnace => if has_large_model_spec(models, 27) {
                (p, None)
            } else if has_large_model_spec(models, 12) {
                (AiProfilePreset::Max, Some(furnace_to_max_warning()))
            } else {
                (AiProfilePreset::Balanced, Some(furnace_to_balanced_warning()))
            },
        }
    }
}

pub fn resolve_profile_selection(models: &[String], requested_profile: Option<&str>) -> (s: ProfileSelection)
    ensures
        (s.profile, opt_view(s.warning)) == profile_selection_spec(views(models@), opt_str_view(requested_profile)),
{
    let requested = AiProfilePreset::from_requested(requested_profile);
    if models.len() == 0 {
        return ProfileSelection { profile: requested, warning: None };
    }
    match requested {
        AiProfilePreset::Balanced => ProfileSelection { profile: requested, warning: None },
        AiProfilePreset::Max => {
            if has_large_local_model(models, 12) {
                ProfileSelection { profile: requested, warning: None }
            } else {
                ProfileSelection {
                    profile: AiProfilePreset::Balanced,
                    warning: Some(
                        String::from_str(
                            "requested AI profile `max` degraded to `balanced` because no 12b+ local model is available",
                        ),
                    ),
                }
            }
        },
        AiProfilePreset::Furnace => {
            if has_large_local_model(models, 27) {
                ProfileSelection { profile: requested, warning: None }
            } else if has_large_local_model(models, 12) {
                ProfileSelection {
                    profile: AiProfilePreset::Max,
                    warning: Some(
                        String::from_str(
                            "requested AI profile `furnace` degraded to `max` because no 27b local model is available",
                        ),
                    ),
                }
            } else {
                ProfileSelection {
                    profile: AiProfilePreset::Balanced,
                    warning: Some(
                        String::from_str(
                            "requested AI profile `furnace` degraded to `balanced` because local resources are insufficient",
                        ),
                    ),
                }
            }
        },
    }
}

/// The installed models of the gemma3 family, in order.
pub open spec fn gemma3_spec(models: Seq<Seq<char>>) -> Seq<Seq<char>>
    decreases models.len(),
{
    if models.len() == 0 {
        Seq::empty()
    } else {
        let rest = gemma3_spec(models.drop_last());
        if starts_with_spec(models.last(), "gemma3:"@) {
            rest.push(models.last())
        } else {
            rest
        }
    }
}

pub fn collect_gemma3_models(models: &[String]) -> (v: Vec<String>)
    ensures
        views(v@) == gemma3_spec(views(models@)),
{
    let n = models.len();
    let mut v: Vec<String> = Vec::new();
    let mut i: usize = 0;
    while i < n
        invariant
            n == models@.len(),
            i <= n,
            views(v@) == gemma3_spec(views(models@.take(i as int))),
        decreases n - i,
    {
        assert(views(models@.take(i + 1)).drop_last() =~= views(models@.take(i as int)));
        assert(views(models@.take(i + 1)).last() == models@[i as int]@);
        if starts_with(models[i].as_str(), "gemma3:") {
            v.push(models[i].clone());
            assert(views(v@) =~= gemma3_spec(views(models@.take(i as int))).push(models@[i as int]@));
        }
        i = i + 1;
    }
    assert(models@.take(n as int) =~= models@);
    v
}

/// Two optional warnings joined with `; `.
pub open spec fn combine_spec(primary: Option<Seq<char>>, secondary: Option<Seq<char>>) -> Option<Seq<char>> {
    match (primary, secondary) {
        (Some(p), Some(s)) => Some(p + "; "@ + s),
        (Some(p), None) => Some(p),
        (None, Some(s)) => Some(s),
        (None, None) => None,
    }
}

pub fn combine_warnings(primary: Option<String>, secondary: Option<String>) -> (r: Option<String>)
    ensures
        opt_view(r) == combine_spec(opt_view(primary), opt_view(secondary)),
{
    match (primary, secondary) {
        (Some(p), Some(s)) => {
            let mut w = p;
            w.append("; ");
            w.append(s.as_str());
            Some(w)
        },
        (Some(p), None) => Some(p),
        (None, Some(s)) => Some(s),
        (None, None) => None,
    }
}

/// `values` with later repetitions removed.
pub open spec fn dedupe_spec(values: Seq<Seq<char>>) -> Seq<Seq<char>>
    decreases values.len(),
{
    if values.len() == 0 {
        Seq::empty()
    } else {
        let rest = dedupe_spec(values.drop_last());
        if rest.contains(values.last()) {
            rest
        } else {
            rest.push(values.last())
        }
    }
}

pub fn dedupe_preserving_order(values: Vec<String>) -> (r: Vec<String>)
    ensures
        views(r@) == dedupe_spec(views(values@)),
{
    let n = values.len();
    let mut r: Vec<String> = Vec::new();
    let mut i: usize = 0;
    while i < n
        invariant
            n == values@.len(),
            i <= n,
            views(r@) == dedupe_spec(views(values@.take(i as int))),
        decreases n - i,
    {
        assert(views(values@.take(i + 1)).drop_last() =~= views(values@.take(i as int)));
        assert(views(values@.take(i + 1)).last() == values@[i as int]@);
        if !contains_string(r.as_slice(), values[i].as_str()) {
            r.push(values[i].clone());
            assert(views(r@) =~= dedupe_spec(views(values@.take(i as int))).push(values@[i as int]@));
        }
        i = i + 1;
    }
    assert(values@.take(n as int) =~= values@);
    r
}

/// The language clause of the system prompt for a locale.
pub open spec fn language_instruction_spec(locale: Seq<char>) -> Seq<char> {
    if locale == "en"@ {
        "in English"@
    } else if locale == "es"@ {
        "in Spanish"@
    } else {
        "in French"@
    }
}

pub fn language_instruction(locale: &str) -> (s: &'static str)
    ensures
        s@ == language_instruction_spec(locale@),
{
    if str_eq(locale, "en") {
        "in English"
    } else if str_eq(locale, "es") {
        "in Spanish"
    } else {
        "in French"
    }
}

/// The context window, in tokens, granted to each profile.
pub open spec fn context_window_spec(p: AiProfilePreset) -> usize {
    match p {
        AiProfilePreset::Balanced => 8_192,
        AiProfilePreset::Max => 16_384,
        AiProfilePreset::Furnace => 24_576,
    }
}

pub fn profile_context_window(profile: AiProfilePreset) -> (n: usize)
    ensures
        n == context_window_spec(profile),
{
    match profile {
        AiProfilePreset::Balanced => 8_192,
        AiProfilePreset::Max => 16_384,
        AiProfilePreset::Furnace => 24_576,
    }
}

/// Some keyword occurs in the message once it is folded to ASCII lower case.
pub open spec fn any_keyword_spec(message: Seq<char>, keywords: Seq<Seq<char>>) -> bool {
    exists|i: int| 0 <= i < keywords.len() && contains_spec(ascii_lower_seq(message), #[trigger] keywords[i])
}

pub fn contains_any_keyword(message: &str, keywords: &[&str]) -> (b: bool)
    ensures
        b == any_keyword_spec(message@, keywords@.map_values(|k: &str| k@)),
{
    let n = keywords.len();
    let ghost ks = keywords@.map_values(|k: &str| k@);
    let mut i: usize = 0;
    while i < n
        invariant
            n == keywords@.len(),
            ks == keywords@.map_values(|k: &str| k@),
            i <= n,
            forall|j: int| 0 <= j < i ==> !contains_spec(ascii_lower_seq(message@), #[trigger] ks[j]),
        decreases n - i,
    {
        if contains_folded(message, keywords[i]) {
            assert(contains_spec(ascii_lower_seq(message@), ks[i as int]));
            return true;
        }
        i = i + 1;
    }
    false
}

/// One turn of a conversation.
#[derive(Debug, PartialEq, Eq)]
pub struct AiConversationMessage {
    pub role: String,
    pub content: String,
}

/// The history replayed to the model: at most this many turns.
pub open spec fn max_history_messages() -> nat {
    8
}

/// A turn is replayed when it comes from the user or the assistant and has
/// text once trimmed.
pub open spec fn replayed(m: AiConversationMessage) -> bool {
    (m.role@ == "user"@ || m.role@ == "assistant"@) && trim_spec(m.content@).len() > 0
}

/// The `(role, trimmed content)` of every replayed turn, in order.
pub open spec fn replayed_turns(history: Seq<AiConversationMessage>) -> Seq<(Seq<char>, Seq<char>)>
    decreases history.len(),
{
    if history.len() == 0 {
        Seq::empty()
    } else {
        let rest = replayed_turns(history.drop_last());
        let m = history.last();
        if replayed(m) {
            rest.push((m.role@, trim_spec(m.content@)))
        } else {
            rest
        }
    }
}

/// The last `max_history_messages()` replayed turns.
pub open spec fn trimmed_history_spec(history: Seq<AiConversationMessage>) -> Seq<(Seq<char>, Seq<char>)> {
    let turns = replayed_turns(history);
    if turns.len() <= max_history_messages() {
        turns
    } else {
        turns.subrange(turns.len() - max_history_messages(), turns.len() as int)
    }
}

pub open spec fn message_views(ms: Seq<AiConversationMessage>) -> Seq<(Seq<char>, Seq<char>)> {
    ms.map_values(|m: AiConversationMessage| (m.role@, m.content@))
}

/// The recent user and assistant turns, trimmed, oldest first.
pub fn trim_history(history: &[AiConversationMessage]) -> (r: Vec<AiConversationMessage>)
    ensures
        message_views(r@) == trimmed_history_spec(history@),
{
    let n = history.len();
    let mut kept: Vec<AiConversationMessage> = Vec::new();
    let mut i: usize = 0;
    while i < n
        invariant
            n == history@.len(),
            i <= n,
            message_views(kept@) == replayed_turns(history@.take(i as int)),
        decreases n - i,
    {
        assert(history@.take(i + 1).drop_last() =~= history@.take(i as int));
        let m = &history[i];
        let content = trim(m.content.as_str());
        let is_turn = str_eq(m.role.as_str(), "user") || str_eq(m.role.as_str(), "assistant");
        if is_turn && content.as_str().unicode_len() > 0 {
            kept.push(AiConversationMessage { role: m.role.clone(), content });
            assert(message_views(kept@) =~= replayed_turns(history@.take(i as int)).push(
                (history@[i as int].role@, trim_spec(history@[i as int].content@)),
            ));
        }
        i = i + 1;
    }
    assert(history@.take(n as int) =~= history@);
    let total = kept.len();
    if total <= 8 {
        return kept;
    }
    let start = total - 8;
    let mut r: Vec<AiConversationMessage> = Vec::new();
    let mut k: usize = start;
    while k < total
        invariant
            total == kept@.len(),
            start == total - 8,
            start <= k <= total,
            message_views(r@) == message_views(kept@).subrange(start as int, k as int),
        decreases total - k,
    {
        let ghost before = r@;
        let m = &kept[k];
        r.push(AiConversationMessage { role: m.role.clone(), content: m.content.clone() });
        assert(r@ == before.push(r@.last()));
        assert(message_views(r@) =~= message_views(before).push((kept@[k as int].role@, kept@[k as int].content@)));
        assert(message_views(r@) =~= message_views(kept@).subrange(start as int, k + 1));
        k = k + 1;
    }
    r
}

/// What the assistant reports about the local model server.
#[derive(Debug, PartialEq, Eq)]
pub struct AiRuntimeStatus {
    pub available: bool,
    pub provider: String,
    pub endpoint: String,
    pub mode: String,
    pub local_only: bool,
    pub active_profile: String,
    pub available_profiles: Vec<String>,
    pub active_model: Option<String>,
    pub available_models: Vec<String>,
    pub gemma3_models: Vec<String>,
    pub warning: Option<String>,
}

/// Where the model server lives, how long to wait for it and which models to prefer.
#[derive(Debug, PartialEq, Eq)]
pub struct AiRuntimeConfig {
    pub endpoint: String,
    pub timeout_secs: u64,
    pub preferred_models: Vec<String>,
}

/// The fields every status shares, given the models it is computed from.
pub open spec fn status_common(
    st: AiRuntimeStatus,
    config: AiRuntimeConfig,
    models: Seq<Seq<char>>,
    requested_model: Option<Seq<char>>,
    requested_profile: Option<Seq<char>>,
) -> bool {
    let sel = model_selection_spec(models, views(config.preferred_models@), requested_model);
    let prof = profile_selection_spec(models, requested_profile);
    &&& st.provider@ == "ollama"@
    &&& st.endpoint@ == config.endpoint@
    &&& st.local_only
    &&& st.active_profile@ == profile_label(prof.0)
    &&& views(st.available_profiles@) == seq!["balanced"@, "max"@, "furnace"@]
    &&& opt_view(st.active_model) == sel.0
    &&& views(st.available_models@) == models
    &&& views(st.gemma3_models@) == gemma3_spec(models)
}

/// The warning a status carries besides `extra`: selection, then profile.
pub open spec fn status_warning(
    config: AiRuntimeConfig,
    models: Seq<Seq<char>>,
    requested_model: Option<Seq<char>>,
    requested_profile: Option<Seq<char>>,
) -> Option<Seq<char>> {
    let sel = model_selection_spec(models, views(config.preferred_models@), requested_model);
    let prof = profile_selection_spec(models, requested_profile);
    combine_spec(sel.1, prof.1)
}

fn build_status(
    config: &AiRuntimeConfig,
    models: Vec<String>,
    requested_model: Option<&str>,
    requested_profile: Option<&str>,
    available: bool,
    mode: &str,
    extra_warning: Option<String>,
) -> (st: AiRuntimeStatus)
    ensures
        status_common(st, *config, views(models@), opt_str_view(requested_model), opt_str_view(requested_profile)),
        st.available == available,
        st.mode@ == mode@,
        opt_view(st.warning) == match extra_warning {
            Some(w) => combine_spec(
                Some(w@),
                status_warning(*config, views(models@), opt_str_view(requested_model), opt_str_view(requested_profile)),
            ),
            None => status_warning(*config, views(models@), opt_str_view(requested_model), opt_str_view(requested_profile)),
        },
{
    let selection = resolve_model_selection(models.as_slice(), config.preferred_models.as_slice(), requested_model);
    let profile = resolve_profile_selection(models.as_slice(), requested_profile);
    let gemma3 = collect_gemma3_models(models.as_slice());
    let own = combine_warnings(selection.warning, profile.warning);
    let warning = match extra_warning {
        Some(w) => combine_warnings(Some(w), own),
        None => own,
    };
    AiRuntimeStatus {
        available,
        provider: String::from_str("ollama"),
        endpoint: config.endpoint.clone(),
        mode: String::from_str(mode),
        local_only: true,
        active_profile: String::from_str(profile.profile.as_str()),
        available_profiles: available_profiles(),
        active_model: selection.active_model,
        available_models: models,
        gemma3_models: gemma3,
        warning,
    }
}

/// The status when the model server answered with `models`.
pub fn runtime_status_from_models(
    config: &AiRuntimeConfig,
    models: Vec<String>,
    requested_model: Option<&str>,
    requested_profile: Option<&str>,
) -> (st: AiRuntimeStatus)
    ensures
        status_common(st, *config, views(models@), opt_str_view(requested_model), opt_str_view(requested_profile)),
        st.available == (models@.len() > 0),
        st.mode@ == "grounded-chat"@,
        opt_view(st.warning) == status_warning(*config, views(models@), opt_str_view(requested_model), opt_str_view(requested_profile)),
{
    let available = models.len() > 0;
    build_status(config, models, requested_model, requested_profile, available, "grounded-chat", None)
}

/// The status when the model server could not be reached; `warning` says why.
pub fn unavailable_runtime_status(
    config: &AiRuntimeConfig,
    warning: String,
    available_models: Vec<String>,
    requested_model: Option<&str>,
    requested_profile: Option<&str>,
) -> (st: AiRuntimeStatus)
    ensures
        status_common(st, *config, views(available_models@), opt_str_view(requested_model), opt_str_view(requested_profile)),
        !st.available,
        st.mode@ == "fallback-local"@,
        opt_view(st.warning) == combine_spec(
            Some(warning@),
            status_warning(*config, views(available_models@), opt_str_view(requested_model), opt_str_view(requested_profile)),
        ),
{
    build_status(config, available_models, requested_model, requested_profile, false, "fallback-local", Some(warning))
}

/// The status when the server listed models but a chat failed; `warning` says why.
pub fn degraded_runtime_status(
    config: &AiRuntimeConfig,
    warning: String,
    available_models: Vec<String>,
    requested_model: Option<&str>,
    requested_profile: Option<&str>,
) -> (st: AiRuntimeStatus)
    ensures
        status_common(st, *config, views(available_models@), opt_str_view(requested_model), opt_str_view(requested_profile)),
        st.available == (available_models@.len() > 0),
        st.mode@ == (if available_models@.len() > 0 { "degraded-chat"@ } else { "fallback-local"@ }),
        opt_view(st.warning) == combine_spec(
            Some(warning@),
            status_warning(*config, views(available_models@), opt_str_view(requested_model), opt_str_view(requested_profile)),
        ),
{
    let available = available_models.len() > 0;
    let mode = if available {
        "degraded-chat"
    } else {
        "fallback-local"
    };
    build_status(config, available_models, requested_model, requested_profile, available, mode, Some(warning))
}

/// The status once the list of installed models has been fetched (or the
/// fetch failed with a message), for the requested profile.
pub fn runtime_status_from_fetch(
    config: &AiRuntimeConfig,
    fetched: Result<Vec<String>, String>,
    selected_profile: Option<&str>,
) -> (st: AiRuntimeStatus)
    ensures
        match fetched {
            Ok(models) => status_common(st, *config, views(models@), None, opt_str_view(selected_profile))
                && st.available == (models@.len() > 0) && st.mode@ == "grounded-chat"@
                && opt_view(st.warning) == status_warning(*config, views(models@), None, opt_str_view(selected_profile)),
            Err(message) => status_common(st, *config, Seq::empty(), None, opt_str_view(selected_profile))
                && !st.available && st.mode@ == "fallback-local"@
                && opt_view(st.warning) == combine_spec(
                    Some(message@),
                    status_warning(*config, Seq::empty(), None, opt_str_view(selected_profile)),
                ),
        },
{
    match fetched {
        Ok(models) => runtime_status_from_models(config, models, None, selected_profile),
        Err(message) => {
            let none: Vec<String> = Vec::new();
            assert(views(none@) =~= Seq::<Seq<char>>::empty());
            unavailable_runtime_status(config, message, none, None, selected_profile)
        },
    }
}

/// The models preferred when the user names none, best first.
pub open spec fn default_preferred_models() -> Seq<Seq<char>> {
    seq!["gemma3:27b"@, "gemma3:12b"@, "gemma3:4b"@, "phi3:mini"@]
}

/// A setting that is present and not blank.
pub open spec fn nonblank(o: Option<Seq<char>>) -> bool {
    o matches Some(v) && trim_spec(v).len() > 0
}

impl AiRuntimeConfig {
    /// The configuration from the endpoint, timeout and model settings of the
    /// environment: a blank or absent endpoint falls back to the local server,
    /// an unparsable timeout to two minutes, and a named model goes first in
    /// the preference list, which keeps each model once.
    pub fn from_settings(endpoint: Option<String>, timeout_secs: Option<String>, model: Option<String>) -> (c: Self)
        ensures
            c.endpoint@ == (if nonblank(opt_view(endpoint)) {
                opt_view(endpoint).unwrap()
            } else {
                "http://127.0.0.1:11434"@
            }),
            c.timeout_secs == match opt_view(timeout_secs) {
                Some(t) => match parse_u64_spec(t) {
                    Some(v) => v,
                    None => 120u64,
                },
                None => 120u64,
            },
            views(c.preferred_models@) == dedupe_spec(
                (if nonblank(opt_view(model)) {
                    seq![opt_view(model).unwrap()]
                } else {
                    Seq::empty()
                }) + default_preferred_models(),
            ),
    {
        let endpoint = match endpoint {
            Some(e) => if is_blank(e.as_str()) {
                String::from_str("http://127.0.0.1:11434")
            } else {
                e
            },
            None => String::from_str("http://127.0.0.1:11434"),
        };
        let timeout_secs: u64 = match timeout_secs {
            Some(t) => match parse_u64(t.as_str()) {
                Some(v) => v,
                None => 120,
            },
            None => 120,
        };
        let mut preferred: Vec<String> = Vec::new();
        let ghost lead: Seq<Seq<char>> = Seq::empty();
        match model {
            Some(m) => if !is_blank(m.as_str()) {
                proof {
                    lead = seq![m@];
                }
                preferred.push(m);
            },
            None => {},
        }
        assert(views(preferred@) =~= lead);
        preferred.push(String::from_str("gemma3:27b"));
        preferred.push(String::from_str("gemma3:12b"));
        preferred.push(String::from_str("gemma3:4b"));
        preferred.push(String::from_str("phi3:mini"));
        assert(views(preferred@) =~= lead + default_preferred_models());
        AiRuntimeConfig { endpoint, timeout_secs, preferred_models: dedupe_preserving_order(preferred) }
    }
}


/// Deduplication keeps every value once: the result has no repetition and
/// holds exactly the values of the input; deduplicating again changes nothing.
pub proof fn law_dedupe_keeps_each_value_once(values: Seq<Seq<char>>)
    ensures
        dedupe_spec(values).no_duplicates(),
        forall|v: Seq<char>| #[trigger] dedupe_spec(values).contains(v) <==> values.contains(v),
        dedupe_spec(dedupe_spec(values)) == dedupe_spec(values),
    decreases values.len(),
{
    if values.len() > 0 {
        let init = values.drop_last();
        law_dedupe_keeps_each_value_once(init);
        let rest = dedupe_spec(init);
        let x = values.last();
        assert forall|v: Seq<char>| #[trigger] dedupe_spec(values).contains(v) <==> values.contains(v) by {
            if values.contains(v) && v != x {
                let i = choose|i: int| 0 <= i < values.len() && values[i] == v;
                assert(init[i] == v);
                assert(init.contains(v));
            }
            if init.contains(v) {
                let i = choose|i: int| 0 <= i < init.len() && init[i] == v;
                assert(values[i] == v);
            }
            if !rest.contains(x) {
                assert(rest.push(x)[rest.len() as int] == x);
                if rest.push(x).contains(v) && v != x {
                    let i = choose|i: int| 0 <= i < rest.push(x).len() && rest.push(x)[i] == v;
                    assert(rest[i] == v);
                }
                if rest.contains(v) {
                    let i = choose|i: int| 0 <= i < rest.len() && rest[i] == v;
                    assert(rest.push(x)[i] == v);
                }
            }
            assert(values[values.len() - 1] == x);
        }
        lemma_dedupe_fixed(dedupe_spec(values));
    }
}

proof fn lemma_dedupe_fixed(s: Seq<Seq<char>>)
    requires
        s.no_duplicates(),
    ensures
        dedupe_spec(s) == s,
    decreases s.len(),
{
    if s.len() > 0 {
        let init = s.drop_last();
        assert(init.no_duplicates()) by {
            assert forall|i: int, j: int| 0 <= i < init.len() && 0 <= j < init.len() && i != j implies init[i] != init[j] by {
                assert(s[i] == init[i] && s[j] == init[j]);
            }
        }
        lemma_dedupe_fixed(init);
        if init.contains(s.last()) {
            let i = choose|i: int| 0 <= i < init.len() && init[i] == s.last();
            assert(s[i] == s[s.len() - 1]);
        }
        assert(init.push(s.last()) =~= s);
    }
}

} // verus!
