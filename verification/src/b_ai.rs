//! B.AI's OpenAI-compatible API: discovery of the models that B.AI lists, with the facts
//! that its catalog adds to the models it knows.

use vstd::prelude::*;

use crate::catalog::{data_list, listed_with, display_name, display_name_of, limit, limit_of, opt_model, ref_model};
use crate::json::{get_array, get_bool, get_str, lemma_models_of, models_of, Json, JsonV};
use crate::model::{
    capabilities_with_transport, level_named, models_view, reasoning_supported_unknown,
    reasoning_unsupported, CapabilitiesV, DiscoveredModel, ErrorV, ModelCapabilitiesV1, ModelV,
    PluginError, ReasoningCapability, ReasoningLevel, ReasoningMode, ReasoningV, SupportCapability,
    VisionCapability,
};
use crate::order::{
    ids, law_sort_by_id_ids, law_sort_by_id_of_sorted_parts, law_sort_by_id_same_models, law_sort_by_id_sorted, sort_by_id,
    sort_models_by_id, sorted_by_id,
};
use crate::response::{check_catalog_response, outcome_matches, response_outcome};
use crate::text::{join_path, trim, trim_str};

verus! {

pub const DEFAULT_BASE_URL: &'static str = "https://api.b.ai/v1";

pub const DEFAULT_MODELS_PATH: &'static str = "/models";

/// The catalog's facts on the model `id`: its own entry, or, where that names a `canonical`
/// model, the canonical model's entry with `provider_alias` set to `id` and `canonical_id` to
/// the canonical id. `None` where either entry is missing.
pub open spec fn catalog_entry_of(catalog: JsonV, id: Seq<char>) -> Option<JsonV> {
    match catalog.get(id) {
        None => None,
        Some(entry) => match get_str(entry, "canonical"@) {
            None => Some(entry),
            Some(canonical) => match catalog.get(canonical) {
                None => None,
                Some(c) => Some(
                    c.insert("provider_alias"@, JsonV::Str(id)).insert(
                        "canonical_id"@,
                        JsonV::Str(canonical),
                    ),
                ),
            },
        },
    }
}

/// The reasoning levels named by the strings of `items`, in order; other items are skipped.
pub open spec fn levels_in(items: Seq<JsonV>) -> Seq<ReasoningLevel>
    decreases items.len(),
{
    if items.len() == 0 {
        Seq::empty()
    } else {
        let rest = levels_in(items.drop_last());
        match items.last().as_str() {
            Some(s) => match level_named(s) {
                Some(l) => rest.push(l),
                None => rest,
            },
            None => rest,
        }
    }
}

/// What a catalog entry says of a model's reasoning.
///
/// Nothing unless `reasoning.supported` is a boolean. Unsupported reasoning as such. Supported
/// reasoning whose `mode` is not `"level"`: supported, with `can_disable` where it is a
/// boolean. Level reasoning with no known level: supported, nothing more. Else the levels,
/// the `default` where it is one of them, and `can_disable` (false where not a boolean).
pub open spec fn reasoning_of(entry: JsonV) -> Option<ReasoningV> {
    match entry.get("reasoning"@) {
        None => None,
        Some(raw) => match get_bool(raw, "supported"@) {
            None => None,
            Some(false) => Some(reasoning_unsupported()),
            Some(true) => if get_str(raw, "mode"@) != Some("level"@) {
                Some(
                    ReasoningV {
                        can_disable: get_bool(raw, "can_disable"@),
                        ..reasoning_supported_unknown()
                    },
                )
            } else {
                let levels = match get_array(raw, "levels"@) {
                    Some(items) => levels_in(items),
                    None => Seq::empty(),
                };
                if levels.len() == 0 {
                    Some(reasoning_supported_unknown())
                } else {
                    let default = match get_str(raw, "default"@) {
                        Some(d) => match level_named(d) {
                            Some(l) => if levels.contains(l) {
                                Some(l)
                            } else {
                                None
                            },
                            None => None,
                        },
                        None => None,
                    };
                    Some(
                        ReasoningV {
                            supported: true,
                            mode: Some(ReasoningMode::Level),
                            levels: Some(levels),
                            default,
                            can_disable: Some(
                                match get_bool(raw, "can_disable"@) {
                                    Some(b) => b,
                                    None => false,
                                },
                            ),
                        },
                    )
                }
            },
        },
    }
}

/// A model's capabilities: the `openai` transport, and what its catalog entry (if any) says.
pub open spec fn capabilities_of(entry: Option<JsonV>) -> CapabilitiesV {
    match entry {
        None => capabilities_with_transport("openai"@),
        Some(e) => CapabilitiesV {
            schema_version: 1,
            transport: Some("openai"@),
            reasoning: reasoning_of(e),
            tools: get_bool(e, "tools"@),
            vision: get_bool(e, "vision"@),
            structured_output: get_bool(e, "structured_output"@),
        },
    }
}

/// The model a listed item stands for: only items with a non-blank string `id`.
pub open spec fn listed_model(item: JsonV, catalog: JsonV) -> Option<ModelV> {
    match get_str(item, "id"@) {
        None => None,
        Some(raw_id) => {
            let id = trim(raw_id);
            if id.len() == 0 {
                None
            } else {
                let entry = catalog_entry_of(catalog, id);
                Some(
                    ModelV {
                        id,
                        display_name: Some(display_name_of(item, entry, id)),
                        context_window: limit_of(
                            item,
                            "context_length"@,
                            "contextWindow"@,
                            entry,
                            "context_window"@,
                        ),
                        max_output_tokens: limit_of(
                            item,
                            "max_output_tokens"@,
                            "maxOutputTokens"@,
                            entry,
                            "max_output_tokens"@,
                        ),
                        capabilities: capabilities_of(entry),
                        raw_metadata: item,
                    },
                )
            }
        },
    }
}

/// The models that the listed items stand for, in the order listed.
pub open spec fn listed_models(items: Seq<JsonV>, catalog: JsonV) -> Seq<ModelV> {
    listed_with(items, |item: JsonV| listed_model(item, catalog))
}

/// The models of a model list (`{"data": [...]}`), sorted by id.
pub open spec fn model_list(value: JsonV, catalog: JsonV) -> Seq<ModelV> {
    match get_array(value, "data"@) {
        Some(items) => sort_by_id(listed_models(items, catalog)),
        None => Seq::empty(),
    }
}

pub fn model_error(code: &str, message: &str, retryable: bool) -> (r: PluginError)
    ensures
        r@ == (ErrorV { code: code@, message: message@, retryable }),
{
    PluginError::new(code, message, retryable)
}

/// The URL of the model list: `base_url` and `models_path` joined by one `/`, each trimmed
/// and replaced by its default where blank.
pub fn join_models_url(base_url: &str, models_path: &str) -> (r: String)
    ensures
        r@ == join_path(base_url@, models_path@, DEFAULT_BASE_URL@, DEFAULT_MODELS_PATH@),
{
    crate::text::join_with_defaults(base_url, models_path, DEFAULT_BASE_URL, DEFAULT_MODELS_PATH)
}

/// The catalog's facts on the model `id` (see [`catalog_entry_of`]).
pub fn catalog_entry(catalog: &Json, id: &str) -> (r: Option<Json>)
    ensures
        opt_model(r) == catalog_entry_of(catalog@, id@),
{
    let entry = match catalog.get(id) {
        Some(entry) => entry,
        None => return None,
    };
    let canonical = match entry.get_str("canonical") {
        Some(c) => c,
        None => return Some(entry.deep_clone()),
    };
    let mut canonical_entry = match catalog.get(canonical.as_str()) {
        Some(c) => c.deep_clone(),
        None => return None,
    };
    canonical_entry.insert("provider_alias".to_owned(), Json::Str(id.to_owned()));
    canonical_entry.insert("canonical_id".to_owned(), Json::Str(canonical.clone()));
    Some(canonical_entry)
}

/// The reasoning levels named by the strings of `items` (see [`levels_in`]).
fn parse_levels(items: &Vec<Json>) -> (r: Vec<ReasoningLevel>)
    ensures
        r@ == levels_in(models_of(items@)),
{
    let ghost ms = models_of(items@);
    proof {
        lemma_models_of(items@);
        assert(ms.take(0) =~= Seq::<JsonV>::empty());
    }
    let mut levels: Vec<ReasoningLevel> = Vec::new();
    let mut i: usize = 0;
    while i < items.len()
        invariant
            i <= items.len(),
            ms == models_of(items@),
            ms.len() == items@.len(),
            forall|j: int| 0 <= j < items.len() ==> #[trigger] ms[j] == items@[j]@,
            levels@ == levels_in(ms.take(i as int)),
        decreases items.len() - i,
    {
        proof {
            assert(ms.take(i + 1).drop_last() =~= ms.take(i as int));
            assert(ms.take(i + 1).last() == items@[i as int]@);
        }
        if let Some(s) = items[i].as_str() {
            if let Some(l) = ReasoningLevel::parse(s.as_str()) {
                levels.push(l);
            }
        }
        i = i + 1;
    }
    proof {
        assert(ms.take(items.len() as int) =~= ms);
    }
    levels
}

fn contains_level(levels: &Vec<ReasoningLevel>, level: ReasoningLevel) -> (r: bool)
    ensures
        r == levels@.contains(level),
{
    let mut i: usize = 0;
    while i < levels.len()
        invariant
            i <= levels.len(),
            forall|j: int| 0 <= j < i ==> levels@[j] != level,
        decreases levels.len() - i,
    {
        if levels[i] == level {
            assert(levels@[i as int] == level);
            return true;
        }
        i = i + 1;
    }
    false
}

/// What a catalog entry says of a model's reasoning (see [`reasoning_of`]).
pub fn reasoning_from_catalog(entry: &Json) -> (r: Option<ReasoningCapability>)
    ensures
        match r {
            Some(c) => reasoning_of(entry@) == Some(c@),
            None => reasoning_of(entry@) is None,
        },
{
    let raw = match entry.get("reasoning") {
        Some(raw) => raw,
        None => return None,
    };
    let supported = match raw.get_bool("supported") {
        Some(b) => b,
        None => return None,
    };
    if !supported {
        return Some(ReasoningCapability::unsupported());
    }
    let is_level_mode = match raw.get_str("mode") {
        Some(m) => crate::text::str_eq(m.as_str(), "level"),
        None => false,
    };
    let can_disable = match raw.get_bool("can_disable") {
        Some(b) => b,
        None => false,
    };
    if !is_level_mode {
        let mut reasoning = ReasoningCapability::supported_unknown();
        reasoning.can_disable = raw.get_bool("can_disable");
        return Some(reasoning);
    }
    let levels = match raw.get_array("levels") {
        Some(items) => parse_levels(items),
        None => Vec::new(),
    };
    if levels.len() == 0 {
        return Some(ReasoningCapability::supported_unknown());
    }
    let default = match raw.get_str("default") {
        Some(d) => match ReasoningLevel::parse(d.as_str()) {
            Some(l) => if contains_level(&levels, l) {
                Some(l)
            } else {
                None
            },
            None => None,
        },
        None => None,
    };
    Some(
        ReasoningCapability {
            supported: true,
            mode: Some(ReasoningMode::Level),
            levels: Some(levels),
            default,
            can_disable: Some(can_disable),
        },
    )
}

/// A model's capabilities (see [`capabilities_of`]).
pub fn normalized_capabilities(entry: Option<&Json>) -> (r: ModelCapabilitiesV1)
    ensures
        r@ == capabilities_of(ref_model(entry)),
{
    let mut capabilities = ModelCapabilitiesV1::with_transport("openai");
    if let Some(entry) = entry {
        capabilities.reasoning = reasoning_from_catalog(entry);
        capabilities.tools = match entry.get_bool("tools") {
            Some(b) => Some(SupportCapability { supported: b }),
            None => None,
        };
        capabilities.vision = match entry.get_bool("vision") {
            Some(b) => Some(VisionCapability { input: b }),
            None => None,
        };
        capabilities.structured_output = match entry.get_bool("structured_output") {
            Some(b) => Some(SupportCapability { supported: b }),
            None => None,
        };
    }
    capabilities
}

/// The model one listed item stands for (see [`listed_model`]).
fn model_of_item(item: &Json, catalog: &Json) -> (r: Option<DiscoveredModel>)
    ensures
        match r {
            Some(m) => listed_model(item@, catalog@) == Some(m@),
            None => listed_model(item@, catalog@) is None,
        },
{
    let raw_id = match item.get_str("id") {
        Some(s) => s,
        None => return None,
    };
    let id = trim_str(raw_id.as_str());
    if id.as_str().is_empty() {
        return None;
    }
    let entry = catalog_entry(catalog, id.as_str());
    let entry_ref = match &entry {
        Some(e) => Some(e),
        None => None,
    };
    let name = display_name(item, entry_ref, id.as_str());
    let context_window = limit(item, "context_length", "contextWindow", entry_ref, "context_window");
    let max_output_tokens = limit(
        item,
        "max_output_tokens",
        "maxOutputTokens",
        entry_ref,
        "max_output_tokens",
    );
    let capabilities = normalized_capabilities(entry_ref);
    Some(
        DiscoveredModel {
            id,
            display_name: Some(name),
            context_window,
            max_output_tokens,
            capabilities,
            raw_metadata: item.deep_clone(),
        },
    )
}

/// The models of a model list, sorted by id (see [`model_list`]).
pub fn parse_model_list(value: &Json, catalog: &Json) -> (r: Vec<DiscoveredModel>)
    ensures
        models_view(r@) == model_list(value@, catalog@),
{
    let data = match value.get_array("data") {
        Some(data) => data,
        None => return Vec::new(),
    };
    let ghost items = models_of(data@);
    proof {
        lemma_models_of(data@);
        assert(items.take(0) =~= Seq::<JsonV>::empty());
    }
    let mut models: Vec<DiscoveredModel> = Vec::new();
    let mut i: usize = 0;
    while i < data.len()
        invariant
            i <= data.len(),
            items == models_of(data@),
            items.len() == data@.len(),
            forall|j: int| 0 <= j < data.len() ==> #[trigger] items[j] == data@[j]@,
            models_view(models@) == listed_models(items.take(i as int), catalog@),
        decreases data.len() - i,
    {
        let found = model_of_item(&data[i], catalog);
        proof {
            assert(items.take(i + 1).drop_last() =~= items.take(i as int));
            assert(items.take(i + 1).last() == data@[i as int]@);
        }
        match found {
            Some(m) => {
                models.push(m);
                proof {
                    assert(models_view(models@) =~= listed_models(items.take(i as int), catalog@).push(
                        models@.last()@,
                    ));
                }
            },
            None => {},
        }
        i = i + 1;
    }
    proof {
        assert(items.take(data.len() as int) =~= items);
    }
    sort_models_by_id(models)
}

/// The text of the model list response, or the error it comes to.
pub fn check_response(status: u16, body_truncated: bool, body: Vec<u8>) -> (r: Result<
    String,
    PluginError,
>)
    ensures
        outcome_matches(r, response_outcome("B.AI"@, status, body_truncated, body@, true)),
{
    check_catalog_response("B.AI", status, body_truncated, body, true)
}

/// The error for a model list that is not valid JSON; `detail` says why.
pub fn invalid_catalog_json(detail: &str) -> (r: PluginError)
    ensures
        r@ == (ErrorV {
            code: "protocol_error"@,
            message: "invalid "@ + "B.AI"@ + " model catalog JSON: "@ + detail@,
            retryable: false,
        }),
{
    crate::response::invalid_catalog_json("B.AI", detail)
}

/// Every model returned stands for an item of the live list with that (trimmed) id, and is
/// described by nothing but the item and the catalog's facts on exactly its id; a model the
/// catalog does not know has no capability but its transport.
pub proof fn law_models_are_listed(value: JsonV, catalog: JsonV)
    ensures
        forall|i: int|
            0 <= i < model_list(value, catalog).len() ==> {
                let m = #[trigger] model_list(value, catalog)[i];
                &&& m.id.len() > 0
                &&& m.capabilities == capabilities_of(catalog_entry_of(catalog, m.id))
                &&& catalog_entry_of(catalog, m.id) is None ==> m.capabilities
                    == capabilities_with_transport("openai"@)
                &&& exists|j: int|
                    0 <= j < get_array(value, "data"@).unwrap().len() && #[trigger] get_array(
                        value,
                        "data"@,
                    ).unwrap()[j] == m.raw_metadata && get_str(m.raw_metadata, "id"@).is_some()
                        && trim(get_str(m.raw_metadata, "id"@).unwrap()) == m.id
            },
{
    if let Some(items) = get_array(value, "data"@) {
        let listed = listed_models(items, catalog);
        law_sort_by_id_same_models(listed);
        crate::catalog::lemma_listed_with_from(items, |item: JsonV| listed_model(item, catalog));
        assert forall|i: int| 0 <= i < model_list(value, catalog).len() implies {
            let m = #[trigger] model_list(value, catalog)[i];
            &&& m.id.len() > 0
            &&& m.capabilities == capabilities_of(catalog_entry_of(catalog, m.id))
            &&& catalog_entry_of(catalog, m.id) is None ==> m.capabilities
                == capabilities_with_transport("openai"@)
            &&& exists|j: int|
                0 <= j < items.len() && #[trigger] items[j] == m.raw_metadata && get_str(
                    m.raw_metadata,
                    "id"@,
                ).is_some() && trim(get_str(m.raw_metadata, "id"@).unwrap()) == m.id
        } by {
            let m = model_list(value, catalog)[i];
            assert(sort_by_id(listed).contains(m));
            assert(listed.contains(m));
            let j = choose|j: int| 0 <= j < items.len() && listed_model(#[trigger] items[j], catalog) == Some(m);
            assert(items[j] == m.raw_metadata);
        }
    }
}

/// The models come sorted by id.
pub proof fn law_models_sorted(value: JsonV, catalog: JsonV)
    ensures
        sorted_by_id(model_list(value, catalog)),
{
    if let Some(items) = get_array(value, "data"@) {
        law_sort_by_id_sorted(listed_models(items, catalog));
    }
}

/// The models of two lists put together are the models of each list, sorted together by
/// id; and a response without a `data` array lists no model.
pub proof fn law_concatenated_lists(d1: Seq<JsonV>, d2: Seq<JsonV>, value: JsonV, catalog: JsonV)
    ensures
        model_list(data_list(d1 + d2), catalog) == sort_by_id(
            model_list(data_list(d1), catalog) + model_list(data_list(d2), catalog),
        ),
        get_array(value, "data"@) is None ==> model_list(value, catalog) == Seq::<ModelV>::empty(),
{
    let f = |item: JsonV| listed_model(item, catalog);
    assert(get_array(data_list(d1 + d2), "data"@) == Some(d1 + d2));
    assert(get_array(data_list(d1), "data"@) == Some(d1));
    assert(get_array(data_list(d2), "data"@) == Some(d2));
    crate::catalog::lemma_listed_with_add(d1, d2, f);
    law_sort_by_id_of_sorted_parts(listed_models(d1, catalog), listed_models(d2, catalog));
}

/// Each capability is read from the catalog entry's member of the same name: `tools` from
/// `tools`, `vision` from `vision`, `structured_output` from `structured_output`, each only
/// where it is a boolean; a model without a catalog entry has no capability but its transport.
pub proof fn law_capabilities_from_catalog(value: JsonV, catalog: JsonV)
    ensures
        forall|i: int|
            0 <= i < model_list(value, catalog).len() ==> {
                let m = #[trigger] model_list(value, catalog)[i];
                &&& m.capabilities.schema_version == 1
                &&& m.capabilities.transport == Some("openai"@)
                &&& catalog_entry_of(catalog, m.id) matches Some(e) ==> {
                    &&& m.capabilities.tools == get_bool(e, "tools"@)
                    &&& m.capabilities.vision == get_bool(e, "vision"@)
                    &&& m.capabilities.structured_output == get_bool(e, "structured_output"@)
                    &&& (m.capabilities.reasoning is Some ==> e.get("reasoning"@) is Some)
                }
                &&& catalog_entry_of(catalog, m.id) is None ==> {
                    &&& m.capabilities.tools is None
                    &&& m.capabilities.vision is None
                    &&& m.capabilities.structured_output is None
                    &&& m.capabilities.reasoning is None
                }
            },
{
    law_models_are_listed(value, catalog);
    assert forall|i: int| 0 <= i < model_list(value, catalog).len() implies {
        let m = #[trigger] model_list(value, catalog)[i];
        &&& m.capabilities.schema_version == 1
        &&& m.capabilities.transport == Some("openai"@)
        &&& catalog_entry_of(catalog, m.id) matches Some(e) ==> {
            &&& m.capabilities.tools == get_bool(e, "tools"@)
            &&& m.capabilities.vision == get_bool(e, "vision"@)
            &&& m.capabilities.structured_output == get_bool(e, "structured_output"@)
            &&& (m.capabilities.reasoning is Some ==> e.get("reasoning"@) is Some)
        }
        &&& catalog_entry_of(catalog, m.id) is None ==> {
            &&& m.capabilities.tools is None
            &&& m.capabilities.vision is None
            &&& m.capabilities.structured_output is None
            &&& m.capabilities.reasoning is None
        }
    } by {
        let m = model_list(value, catalog)[i];
        assert(m.capabilities == capabilities_of(catalog_entry_of(catalog, m.id)));
    }
}

/// The level names of `items` read as levels, where every item is a string naming a level.
pub open spec fn named_levels(items: Seq<JsonV>) -> Seq<ReasoningLevel> {
    Seq::new(items.len(), |i: int| level_named(items[i].as_str().unwrap()).unwrap())
}

proof fn lemma_levels_in_named(items: Seq<JsonV>)
    requires
        forall|i: int|
            0 <= i < items.len() ==> (#[trigger] items[i].as_str() is Some && level_named(
                items[i].as_str().unwrap(),
            ) is Some),
    ensures
        levels_in(items) == named_levels(items),
    decreases items.len(),
{
    if items.len() > 0 {
        let rest = items.drop_last();
        assert forall|i: int| 0 <= i < rest.len() implies (#[trigger] rest[i].as_str() is Some
            && level_named(rest[i].as_str().unwrap()) is Some) by {
            assert(rest[i] == items[i]);
        }
        lemma_levels_in_named(rest);
        assert(items[items.len() - 1].as_str() is Some);
        assert(named_levels(items) =~= named_levels(rest).push(
            level_named(items.last().as_str().unwrap()).unwrap(),
        ));
    } else {
        assert(named_levels(items) =~= Seq::<ReasoningLevel>::empty());
    }
}

/// Level reasoning keeps every named level, in the listed order, and a default only where
/// it is one of them; any reasoning with levels is supported, in level mode, with at least
/// one level.
pub proof fn law_reasoning_levels(entry: JsonV)
    ensures
        reasoning_of(entry) matches Some(r) ==> (r.levels matches Some(ls) ==> {
            &&& ls.len() > 0
            &&& r.supported
            &&& r.mode == Some(ReasoningMode::Level)
            &&& r.default matches Some(d) ==> ls.contains(d)
        }),
        ({
            let raw = entry.get("reasoning"@).unwrap();
            let items = get_array(raw, "levels"@).unwrap();
            &&& entry.get("reasoning"@) is Some
            &&& get_bool(raw, "supported"@) == Some(true)
            &&& get_str(raw, "mode"@) == Some("level"@)
            &&& get_array(raw, "levels"@) is Some
            &&& items.len() > 0
            &&& forall|i: int|
                0 <= i < items.len() ==> (#[trigger] items[i].as_str() is Some && level_named(
                    items[i].as_str().unwrap(),
                ) is Some)
        }) ==> ({
            let raw = entry.get("reasoning"@).unwrap();
            let ls = named_levels(get_array(raw, "levels"@).unwrap());
            &&& reasoning_of(entry) matches Some(r)
            &&& r.levels == Some(ls)
            &&& r.default == match get_str(raw, "default"@) {
                Some(d) => match level_named(d) {
                    Some(l) => if ls.contains(l) {
                        Some(l)
                    } else {
                        None
                    },
                    None => None,
                },
                None => None,
            }
            &&& r.can_disable == Some(get_bool(raw, "can_disable"@) == Some(true))
        }),
{
    if let Some(raw) = entry.get("reasoning"@) {
        if let Some(items) = get_array(raw, "levels"@) {
            if items.len() > 0 && forall|i: int|
                0 <= i < items.len() ==> (#[trigger] items[i].as_str() is Some && level_named(
                    items[i].as_str().unwrap(),
                ) is Some) {
                lemma_levels_in_named(items);
                assert(named_levels(items).len() > 0);
            }
        }
    }
}

/// The live list decides availability: every listed item with a non-blank string `id`
/// yields a model under its trimmed id, and every model returned has such an item.
pub proof fn law_every_listed_id_is_returned(value: JsonV, catalog: JsonV)
    ensures
        get_array(value, "data"@) matches Some(items) ==> forall|j: int|
            0 <= j < items.len() && #[trigger] get_str(items[j], "id"@) is Some && trim(
                get_str(items[j], "id"@).unwrap(),
            ).len() > 0 ==> exists|k: int|
                0 <= k < model_list(value, catalog).len() && #[trigger] model_list(value, catalog)[k].id
                    == trim(get_str(items[j], "id"@).unwrap()) && model_list(value, catalog)[k].raw_metadata
                    == items[j],
{
    if let Some(items) = get_array(value, "data"@) {
        let f = |item: JsonV| listed_model(item, catalog);
        law_sort_by_id_same_models(listed_models(items, catalog));
        assert forall|j: int|
            0 <= j < items.len() && #[trigger] get_str(items[j], "id"@) is Some && trim(
                get_str(items[j], "id"@).unwrap(),
            ).len() > 0 implies exists|k: int|
            0 <= k < model_list(value, catalog).len() && #[trigger] model_list(value, catalog)[k].id
                == trim(get_str(items[j], "id"@).unwrap()) && model_list(value, catalog)[k].raw_metadata
                == items[j] by {
            assert(f(items[j]) is Some);
            crate::catalog::lemma_listed_with_covers(items, f, j);
            let m = f(items[j]).unwrap();
            assert(model_list(value, catalog).contains(m));
            let k = choose|k: int| 0 <= k < model_list(value, catalog).len() && model_list(
                value,
                catalog,
            )[k] == m;
            assert(model_list(value, catalog)[k].id == trim(get_str(items[j], "id"@).unwrap()));
        }
    }
}

/// The catalog never makes a model available: the ids returned, in order, are the same
/// whatever the catalog holds.
pub proof fn law_catalog_never_adds_models(value: JsonV, c1: JsonV, c2: JsonV)
    ensures
        ids(model_list(value, c1)) == ids(model_list(value, c2)),
{
    if let Some(items) = get_array(value, "data"@) {
        crate::catalog::lemma_listed_with_ids(
            items,
            |item: JsonV| listed_model(item, c1),
            |item: JsonV| listed_model(item, c2),
        );
        law_sort_by_id_ids(listed_models(items, c1), listed_models(items, c2));
    }
}

/// The catalog matches ids exactly: it has facts on an id only where it has an entry under
/// that very id.
pub proof fn law_catalog_matches_exactly(catalog: JsonV, id: Seq<char>)
    ensures
        catalog_entry_of(catalog, id) is Some ==> catalog.get(id) is Some,
{
}

/// An alias shares its canonical model's facts: its entry is the canonical entry with
/// `canonical_id` and `provider_alias` added, every other member unchanged.
pub proof fn law_alias_shares_canonical_entry(
    catalog: JsonV,
    alias: Seq<char>,
    canonical: Seq<char>,
    key: Seq<char>,
)
    requires
        catalog.get(alias) is Some,
        get_str(catalog.get(alias).unwrap(), "canonical"@) == Some(canonical),
        catalog.get(canonical) is Some,
        catalog.get(canonical).unwrap().as_object() is Some,
    ensures
        catalog_entry_of(catalog, alias) is Some,
        catalog_entry_of(catalog, alias).unwrap().get("canonical_id"@) == Some(
            JsonV::Str(canonical),
        ),
        catalog_entry_of(catalog, alias).unwrap().get("provider_alias"@) == Some(JsonV::Str(alias)),
        key != "canonical_id"@ && key != "provider_alias"@ ==> catalog_entry_of(
            catalog,
            alias,
        ).unwrap().get(key) == catalog.get(canonical).unwrap().get(key),
{
    let c = catalog.get(canonical).unwrap();
    let es = c.as_object().unwrap();
    let once = crate::json::insert_entry(es, "provider_alias"@, JsonV::Str(alias));
    crate::json::lemma_insert_entry_lookup(es, "provider_alias"@, JsonV::Str(alias), key);
    crate::json::lemma_insert_entry_lookup(
        once,
        "canonical_id"@,
        JsonV::Str(canonical),
        "provider_alias"@,
    );
    crate::json::lemma_insert_entry_lookup(once, "canonical_id"@, JsonV::Str(canonical), key);
    reveal_strlit("canonical_id");
    reveal_strlit("provider_alias");
    assert("canonical_id"@ != "provider_alias"@) by {
        assert("canonical_id"@[0] != "provider_alias"@[0]);
    }
}

} // verus!
