//! OpenCode's anonymous free tier: discovery of the free models that OpenCode lists.

use vstd::prelude::*;

use crate::catalog::{data_list, listed_with, display_name, display_name_of, limit, limit_of, opt_model, ref_model};
use crate::json::{get_array, get_bool, get_str, models_of, lemma_models_of, Json, JsonV};
use crate::model::{
    capabilities_with_transport, models_view, reasoning_supported_unknown, reasoning_unsupported,
    CapabilitiesV, DiscoveredModel, ErrorV, ModelCapabilitiesV1, ModelV, PluginError,
    ReasoningCapability, ReasoningV, SupportCapability, VisionCapability,
};
use crate::order::{
    ids, law_sort_by_id_ids, law_sort_by_id_of_sorted_parts, law_sort_by_id_same_models, law_sort_by_id_sorted, sort_by_id,
    sort_models_by_id, sorted_by_id,
};
use crate::response::{check_catalog_response, outcome_matches, response_outcome};
use crate::text::{ends_with, join_path, starts_with, trim, trim_str};

verus! {

pub const DEFAULT_BASE_URL: &'static str = "https://opencode.ai";

pub const DEFAULT_MODELS_PATH: &'static str = "/zen/v1/models";

/// The value of the `x-opencode-client` header on discovery requests.
pub const CLIENT_HEADER_VALUE: &'static str = "desktop";

/// Ids that are free though they do not end in `-free`.
pub open spec fn is_known_free(id: Seq<char>) -> bool {
    id == "big-pickle"@ || id == "union-alpha"@
}

/// Free ids that OpenCode lists but does not serve.
pub open spec fn is_dead_free(id: Seq<char>) -> bool {
    id == "deepseek-v4-flash-free"@
}

/// A model is free where its id ends in `-free` or is known free, and is not a dead one.
pub open spec fn is_free_id(id: Seq<char>) -> bool {
    (ends_with(id, "-free"@) || is_known_free(id)) && !is_dead_free(id)
}

/// The wire format a model is reached through: OpenAI Responses for Muse Spark models,
/// OpenAI Chat Completions for every other model.
pub open spec fn format_for(id: Seq<char>) -> Seq<char> {
    if starts_with(id, "muse-spark-"@) {
        "openai-responses"@
    } else {
        "openai"@
    }
}

/// What the catalog entry says of a model's reasoning: nothing unless it has a boolean
/// `reasoning.supported`; then that, and `reasoning.can_disable` where it is a boolean.
pub open spec fn reasoning_of(entry: JsonV) -> Option<ReasoningV> {
    match entry.get("reasoning"@) {
        None => None,
        Some(raw) => match get_bool(raw, "supported"@) {
            None => None,
            Some(supported) => {
                let base = if supported {
                    reasoning_supported_unknown()
                } else {
                    reasoning_unsupported()
                };
                Some(ReasoningV { can_disable: get_bool(raw, "can_disable"@), ..base })
            },
        },
    }
}

/// A model's capabilities: its transport, and what its catalog entry (if any) says.
pub open spec fn capabilities_of(id: Seq<char>, entry: Option<JsonV>) -> CapabilitiesV {
    match entry {
        None => capabilities_with_transport(format_for(id)),
        Some(e) => CapabilitiesV {
            schema_version: 1,
            transport: Some(format_for(id)),
            reasoning: reasoning_of(e),
            tools: get_bool(e, "tools"@),
            vision: get_bool(e, "vision"@),
            structured_output: get_bool(e, "structured_output"@),
        },
    }
}

/// The trimmed `id` of a listed item, where it has a string `id`.
pub open spec fn item_id(item: JsonV) -> Option<Seq<char>> {
    match get_str(item, "id"@) {
        Some(s) => Some(trim(s)),
        None => None,
    }
}

/// The model a listed item stands for: only items with a non-blank free id.
pub open spec fn listed_model(item: JsonV, catalog: JsonV) -> Option<ModelV> {
    match item_id(item) {
        None => None,
        Some(id) => if id.len() == 0 || !is_free_id(id) {
            None
        } else {
            let entry = catalog.get(id);
            Some(
                ModelV {
                    id,
                    display_name: Some(display_name_of(item, entry, id)),
                    context_window: limit_of(
                        item,
                        "context_length"@,
                        "contextWindow"@,
                        entry,
                        "context_window"@,
                    ),
                    max_output_tokens: limit_of(
                        item,
                        "max_output_tokens"@,
                        "maxOutputTokens"@,
                        entry,
                        "max_output_tokens"@,
                    ),
                    capabilities: capabilities_of(id, entry),
                    raw_metadata: item,
                },
            )
        },
    }
}

/// The models that the listed items stand for, in the order listed.
pub open spec fn listed_models(items: Seq<JsonV>, catalog: JsonV) -> Seq<ModelV> {
    listed_with(items, |item: JsonV| listed_model(item, catalog))
}

/// The free models of a model list (`{"data": [...]}`), sorted by id.
pub open spec fn model_list(value: JsonV, catalog: JsonV) -> Seq<ModelV> {
    match get_array(value, "data"@) {
        Some(items) => sort_by_id(listed_models(items, catalog)),
        None => Seq::empty(),
    }
}

pub fn discovery_error(code: &str, message: &str, retryable: bool) -> (r: PluginError)
    ensures
        r@ == (ErrorV { code: code@, message: message@, retryable }),
{
    PluginError::new(code, message, retryable)
}

/// The URL of the model list: `base_url` and `path` joined by one `/`, each trimmed and
/// replaced by its default where blank.
pub fn join_url(base_url: &str, path: &str) -> (r: String)
    ensures
        r@ == join_path(base_url@, path@, DEFAULT_BASE_URL@, DEFAULT_MODELS_PATH@),
{
    crate::text::join_with_defaults(base_url, path, DEFAULT_BASE_URL, DEFAULT_MODELS_PATH)
}

pub fn is_free_model(id: &str) -> (r: bool)
    ensures
        r == is_free_id(id@),
{
    (crate::text::has_suffix(id, "-free") || crate::text::str_eq(id, "big-pickle")
        || crate::text::str_eq(id, "union-alpha")) && !crate::text::str_eq(
        id,
        "deepseek-v4-flash-free",
    )
}

pub fn target_format(id: &str) -> (r: &'static str)
    ensures
        r@ == format_for(id@),
{
    if crate::text::has_prefix(id, "muse-spark-") {
        "openai-responses"
    } else {
        "openai"
    }
}

/// The catalog's entry for exactly `id`.
pub fn catalog_entry(catalog: &Json, id: &str) -> (r: Option<Json>)
    ensures
        opt_model(r) == catalog@.get(id@),
{
    match catalog.get(id) {
        Some(entry) => Some(entry.deep_clone()),
        None => None,
    }
}

pub fn reasoning_from_catalog(entry: &Json) -> (r: Option<ReasoningCapability>)
    ensures
        match r {
            Some(c) => reasoning_of(entry@) == Some(c@),
            None => reasoning_of(entry@) is None,
        },
{
    let raw = match entry.get("reasoning") {
        Some(raw) => raw,
        None => return None,
    };
    let supported = match raw.get_bool("supported") {
        Some(b) => b,
        None => return None,
    };
    let mut reasoning = if supported {
        ReasoningCapability::supported_unknown()
    } else {
        ReasoningCapability::unsupported()
    };
    reasoning.can_disable = raw.get_bool("can_disable");
    Some(reasoning)
}

pub fn normalized_capabilities(id: &str, entry: Option<&Json>) -> (r: ModelCapabilitiesV1)
    ensures
        r@ == capabilities_of(id@, ref_model(entry)),
{
    let mut capabilities = ModelCapabilitiesV1::with_transport(target_format(id));
    if let Some(entry) = entry {
        capabilities.reasoning = reasoning_from_catalog(entry);
        capabilities.tools = match entry.get_bool("tools") {
            Some(b) => Some(SupportCapability { supported: b }),
            None => None,
        };
        capabilities.vision = match entry.get_bool("vision") {
            Some(b) => Some(VisionCapability { input: b }),
            None => None,
        };
        capabilities.structured_output = match entry.get_bool("structured_output") {
            Some(b) => Some(SupportCapability { supported: b }),
            None => None,
        };
    }
    capabilities
}

/// The model one listed item stands for (see [`listed_model`]).
fn model_of_item(item: &Json, catalog: &Json) -> (r: Option<DiscoveredModel>)
    ensures
        match r {
            Some(m) => listed_model(item@, catalog@) == Some(m@),
            None => listed_model(item@, catalog@) is None,
        },
{
    let raw_id = match item.get_str("id") {
        Some(s) => s,
        None => return None,
    };
    let id = trim_str(raw_id.as_str());
    if id.as_str().is_empty() || !is_free_model(id.as_str()) {
        return None;
    }
    let entry = catalog_entry(catalog, id.as_str());
    let entry_ref = match &entry {
        Some(e) => Some(e),
        None => None,
    };
    let name = display_name(item, entry_ref, id.as_str());
    let context_window = limit(item, "context_length", "contextWindow", entry_ref, "context_window");
    let max_output_tokens = limit(
        item,
        "max_output_tokens",
        "maxOutputTokens",
        entry_ref,
        "max_output_tokens",
    );
    let capabilities = normalized_capabilities(id.as_str(), entry_ref);
    Some(
        DiscoveredModel {
            id,
            display_name: Some(name),
            context_window,
            max_output_tokens,
            capabilities,
            raw_metadata: item.deep_clone(),
        },
    )
}

/// The free models of a model list, sorted by id (see [`model_list`]).
pub fn parse_model_list(value: &Json, catalog: &Json) -> (r: Vec<DiscoveredModel>)
    ensures
        models_view(r@) == model_list(value@, catalog@),
{
    let data = match value.get_array("data") {
        Some(data) => data,
        None => return Vec::new(),
    };
    let ghost items = models_of(data@);
    proof {
        lemma_models_of(data@);
        assert(items.take(0) =~= Seq::<JsonV>::empty());
    }
    let mut models: Vec<DiscoveredModel> = Vec::new();
    let mut i: usize = 0;
    while i < data.len()
        invariant
            i <= data.len(),
            items == models_of(data@),
            items.len() == data@.len(),
            forall|j: int| 0 <= j < data.len() ==> #[trigger] items[j] == data@[j]@,
            models_view(models@) == listed_models(items.take(i as int), catalog@),
        decreases data.len() - i,
    {
        let found = model_of_item(&data[i], catalog);
        proof {
            assert(items.take(i + 1).drop_last() =~= items.take(i as int));
            assert(items.take(i + 1).last() == data@[i as int]@);
        }
        match found {
            Some(m) => {
                models.push(m);
                proof {
                    assert(models_view(models@) =~= listed_models(items.take(i as int), catalog@).push(
                        models@.last()@,
                    ));
                }
            },
            None => {},
        }
        i = i + 1;
    }
    proof {
        assert(items.take(data.len() as int) =~= items);
    }
    sort_models_by_id(models)
}

/// The text of the model list response, or the error it comes to.
pub fn check_response(status: u16, body_truncated: bool, body: Vec<u8>) -> (r: Result<
    String,
    PluginError,
>)
    ensures
        outcome_matches(r, response_outcome("OpenCode"@, status, body_truncated, body@, false)),
{
    check_catalog_response("OpenCode", status, body_truncated, body, false)
}

/// The error for a model list that is not valid JSON; `detail` says why.
pub fn invalid_catalog_json(detail: &str) -> (r: PluginError)
    ensures
        r@ == (ErrorV {
            code: "protocol_error"@,
            message: "invalid "@ + "OpenCode"@ + " model catalog JSON: "@ + detail@,
            retryable: false,
        }),
{
    crate::response::invalid_catalog_json("OpenCode", detail)
}

/// The error for a model list with no free model in it.
pub open spec fn no_free_models_error() -> ErrorV {
    ErrorV {
        code: "protocol_error"@,
        message: "OpenCode model catalog contained no usable free models"@,
        retryable: false,
    }
}

/// The free models of a parsed model list, or an error where there is none.
pub fn discovered_models(value: &Json, catalog: &Json) -> (r: Result<Vec<DiscoveredModel>, PluginError>)
    ensures
        match r {
            Ok(models) => models_view(models@) == model_list(value@, catalog@) && models@.len() > 0,
            Err(e) => model_list(value@, catalog@).len() == 0 && e@ == no_free_models_error(),
        },
{
    let models = parse_model_list(value, catalog);
    if models.len() == 0 {
        return Err(
            discovery_error(
                "protocol_error",
                "OpenCode model catalog contained no usable free models",
                false,
            ),
        );
    }
    Ok(models)
}

/// Only free models are returned, each for an item of the list with that id, reached through
/// the format for its id, and described by nothing but the item and the catalog's entry for
/// exactly its id; a model the catalog does not know has no capability but its transport.
pub proof fn law_models_are_free_and_listed(value: JsonV, catalog: JsonV)
    ensures
        forall|i: int|
            0 <= i < model_list(value, catalog).len() ==> {
                let m = #[trigger] model_list(value, catalog)[i];
                &&& is_free_id(m.id)
                &&& m.capabilities == capabilities_of(m.id, catalog.get(m.id))
                &&& m.capabilities.transport == Some(format_for(m.id))
                &&& catalog.get(m.id) is None ==> m.capabilities == capabilities_with_transport(
                    format_for(m.id),
                )
                &&& exists|j: int|
                    0 <= j < get_array(value, "data"@).unwrap().len() && #[trigger] get_array(
                        value,
                        "data"@,
                    ).unwrap()[j] == m.raw_metadata && item_id(m.raw_metadata) == Some(m.id)
            },
{
    if let Some(items) = get_array(value, "data"@) {
        let listed = listed_models(items, catalog);
        law_sort_by_id_same_models(listed);
        crate::catalog::lemma_listed_with_from(items, |item: JsonV| listed_model(item, catalog));
        assert forall|i: int| 0 <= i < model_list(value, catalog).len() implies {
            let m = #[trigger] model_list(value, catalog)[i];
            &&& is_free_id(m.id)
            &&& m.capabilities == capabilities_of(m.id, catalog.get(m.id))
            &&& m.capabilities.transport == Some(format_for(m.id))
            &&& catalog.get(m.id) is None ==> m.capabilities == capabilities_with_transport(
                format_for(m.id),
            )
            &&& exists|j: int|
                0 <= j < items.len() && #[trigger] items[j] == m.raw_metadata && item_id(m.raw_metadata)
                    == Some(m.id)
        } by {
            let m = model_list(value, catalog)[i];
            assert(sort_by_id(listed).contains(m));
            assert(listed.contains(m));
            let j = choose|j: int| 0 <= j < items.len() && listed_model(#[trigger] items[j], catalog) == Some(m);
            assert(items[j] == m.raw_metadata);
        }
    }
}

/// The models come sorted by id.
pub proof fn law_models_sorted(value: JsonV, catalog: JsonV)
    ensures
        sorted_by_id(model_list(value, catalog)),
{
    if let Some(items) = get_array(value, "data"@) {
        law_sort_by_id_sorted(listed_models(items, catalog));
    }
}

/// The models of two lists put together are the models of each list, sorted together by
/// id; and a response without a `data` array lists no model.
pub proof fn law_concatenated_lists(d1: Seq<JsonV>, d2: Seq<JsonV>, value: JsonV, catalog: JsonV)
    ensures
        model_list(data_list(d1 + d2), catalog) == sort_by_id(
            model_list(data_list(d1), catalog) + model_list(data_list(d2), catalog),
        ),
        get_array(value, "data"@) is None ==> model_list(value, catalog) == Seq::<ModelV>::empty(),
{
    let f = |item: JsonV| listed_model(item, catalog);
    assert(get_array(data_list(d1 + d2), "data"@) == Some(d1 + d2));
    assert(get_array(data_list(d1), "data"@) == Some(d1));
    assert(get_array(data_list(d2), "data"@) == Some(d2));
    crate::catalog::lemma_listed_with_add(d1, d2, f);
    law_sort_by_id_of_sorted_parts(listed_models(d1, catalog), listed_models(d2, catalog));
}

/// Each capability is read from the catalog entry's member of the same name: `tools` from
/// `tools`, `vision` from `vision`, `structured_output` from `structured_output`, each only
/// where it is a boolean; a model without a catalog entry has no capability but its transport.
pub proof fn law_capabilities_from_catalog(value: JsonV, catalog: JsonV)
    ensures
        forall|i: int|
            0 <= i < model_list(value, catalog).len() ==> {
                let m = #[trigger] model_list(value, catalog)[i];
                &&& m.capabilities.schema_version == 1
                &&& m.capabilities.transport == Some(format_for(m.id))
                &&& catalog.get(m.id) matches Some(e) ==> {
                    &&& m.capabilities.tools == get_bool(e, "tools"@)
                    &&& m.capabilities.vision == get_bool(e, "vision"@)
                    &&& m.capabilities.structured_output == get_bool(e, "structured_output"@)
                    &&& (m.capabilities.reasoning is Some ==> e.get("reasoning"@) is Some)
                }
                &&& catalog.get(m.id) is None ==> {
                    &&& m.capabilities.tools is None
                    &&& m.capabilities.vision is None
                    &&& m.capabilities.structured_output is None
                    &&& m.capabilities.reasoning is None
                }
            },
{
    law_models_are_free_and_listed(value, catalog);
    assert forall|i: int| 0 <= i < model_list(value, catalog).len() implies {
        let m = #[trigger] model_list(value, catalog)[i];
        &&& m.capabilities.schema_version == 1
        &&& m.capabilities.transport == Some(format_for(m.id))
        &&& catalog.get(m.id) matches Some(e) ==> {
            &&& m.capabilities.tools == get_bool(e, "tools"@)
            &&& m.capabilities.vision == get_bool(e, "vision"@)
            &&& m.capabilities.structured_output == get_bool(e, "structured_output"@)
            &&& (m.capabilities.reasoning is Some ==> e.get("reasoning"@) is Some)
        }
        &&& catalog.get(m.id) is None ==> {
            &&& m.capabilities.tools is None
            &&& m.capabilities.vision is None
            &&& m.capabilities.structured_output is None
            &&& m.capabilities.reasoning is None
        }
    } by {
        let m = model_list(value, catalog)[i];
        assert(m.capabilities == capabilities_of(m.id, catalog.get(m.id)));
    }
}

/// The free filter and the routing, in terms of the ids: every model returned has an id
/// that ends in `-free` or is `big-pickle` or `union-alpha`, is never the dead
/// `deepseek-v4-flash-free`, and is reached through OpenAI Responses exactly when it starts
/// with `muse-spark-` (else through OpenAI Chat Completions); and every listed item whose
/// trimmed id is such a free id is returned.
pub proof fn law_free_ids_in_terms_of_ids(value: JsonV, catalog: JsonV)
    ensures
        forall|i: int|
            0 <= i < model_list(value, catalog).len() ==> {
                let m = #[trigger] model_list(value, catalog)[i];
                &&& ends_with(m.id, "-free"@) || m.id == "big-pickle"@ || m.id == "union-alpha"@
                &&& m.id != "deepseek-v4-flash-free"@
                &&& m.capabilities.transport == Some(
                    if starts_with(m.id, "muse-spark-"@) {
                        "openai-responses"@
                    } else {
                        "openai"@
                    },
                )
            },
        get_array(value, "data"@) matches Some(items) ==> forall|j: int|
            0 <= j < items.len() && #[trigger] get_str(items[j], "id"@) is Some ==> {
                let id = trim(get_str(items[j], "id"@).unwrap());
                (id.len() > 0 && (ends_with(id, "-free"@) || id == "big-pickle"@ || id
                    == "union-alpha"@) && id != "deepseek-v4-flash-free"@) ==> exists|k: int|
                    0 <= k < model_list(value, catalog).len() && #[trigger] model_list(
                        value,
                        catalog,
                    )[k].id == id && model_list(value, catalog)[k].raw_metadata == items[j]
            },
{
    law_models_are_free_and_listed(value, catalog);
    if let Some(items) = get_array(value, "data"@) {
        let f = |item: JsonV| listed_model(item, catalog);
        law_sort_by_id_same_models(listed_models(items, catalog));
        assert forall|j: int|
            0 <= j < items.len() && #[trigger] get_str(items[j], "id"@) is Some implies {
            let id = trim(get_str(items[j], "id"@).unwrap());
            (id.len() > 0 && (ends_with(id, "-free"@) || id == "big-pickle"@ || id
                == "union-alpha"@) && id != "deepseek-v4-flash-free"@) ==> exists|k: int|
                0 <= k < model_list(value, catalog).len() && #[trigger] model_list(
                    value,
                    catalog,
                )[k].id == id && model_list(value, catalog)[k].raw_metadata == items[j]
        } by {
            let id = trim(get_str(items[j], "id"@).unwrap());
            if id.len() > 0 && (ends_with(id, "-free"@) || id == "big-pickle"@ || id
                == "union-alpha"@) && id != "deepseek-v4-flash-free"@ {
                assert(f(items[j]) is Some);
                crate::catalog::lemma_listed_with_covers(items, f, j);
                let m = f(items[j]).unwrap();
                assert(model_list(value, catalog).contains(m));
                let k = choose|k: int| 0 <= k < model_list(value, catalog).len() && model_list(
                    value,
                    catalog,
                )[k] == m;
                assert(model_list(value, catalog)[k].id == id);
            }
        }
    }
}

/// The catalog never makes a model available: the ids returned, in order, are the same
/// whatever the catalog holds.
pub proof fn law_catalog_never_adds_models(value: JsonV, c1: JsonV, c2: JsonV)
    ensures
        ids(model_list(value, c1)) == ids(model_list(value, c2)),
{
    if let Some(items) = get_array(value, "data"@) {
        crate::catalog::lemma_listed_with_ids(
            items,
            |item: JsonV| listed_model(item, c1),
            |item: JsonV| listed_model(item, c2),
        );
        law_sort_by_id_ids(listed_models(items, c1), listed_models(items, c2));
    }
}

} // verus!
