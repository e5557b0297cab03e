//! Google AI Studio: discovery of the Gemini models that Google's `models.list` reports,
//! page by page.

use vstd::prelude::*;
use vstd::string::StringExecFns;
use vstd::utf8::encode_utf8;

use crate::catalog::listed_with;
use crate::json::{get_array, get_bool, get_str, get_u64, lemma_models_of, models_of, Json, JsonV};
use crate::model::{
    models_view, reasoning_supported_unknown, reasoning_unsupported, CapabilitiesV,
    DiscoveredModel, ErrorV, ModelCapabilitiesV1, ModelV, PluginError, ReasoningCapability,
};
use crate::order::{
    dedup_by_id, dedup_models_by_id, law_dedup_by_id_covers, law_dedup_by_id_keeps, law_dedup_sorted_strict,
    law_sort_by_id_same_models, law_sort_by_id_sorted, sort_by_id, sort_models_by_id,
    strictly_sorted_by_id,
};
use crate::response::{check_catalog_response, outcome_matches, response_outcome};
use crate::text::{join_path, percent_encode, starts_with, strip_prefix, trim, trim_str};

verus! {

pub const DEFAULT_BASE_URL: &'static str = "https://generativelanguage.googleapis.com/v1beta";

pub const DEFAULT_MODELS_PATH: &'static str = "/models";

/// The most pages of the model list that discovery asks for.
pub const MAX_PAGES: usize = 4;

/// The URL of one page of the model list: base and path joined by one `/` (each trimmed and
/// replaced by its default where blank), a page size of 1000, and the page token
/// percent-encoded where there is a non-empty one.
pub open spec fn page_url(base: Seq<char>, path: Seq<char>, token: Option<Seq<char>>) -> Seq<char> {
    let url = join_path(base, path, DEFAULT_BASE_URL@, DEFAULT_MODELS_PATH@) + "?pageSize=1000"@;
    match token {
        Some(t) if t.len() > 0 => url + "&pageToken="@ + percent_encode(encode_utf8(t)),
        _ => url,
    }
}

/// Whether a listed model advertises `generateContent` among its generation methods.
pub open spec fn supports_generation(item: JsonV) -> bool {
    match get_array(item, "supportedGenerationMethods"@) {
        Some(methods) => exists|i: int|
            0 <= i < methods.len() && #[trigger] methods[i].as_str() == Some("generateContent"@),
        None => false,
    }
}

/// A listed model's id: its trimmed `name` without the `models/` prefix where that is not
/// blank, else its trimmed `baseModelId` where that is not blank.
pub open spec fn id_of(item: JsonV) -> Option<Seq<char>> {
    match get_str(item, "name"@) {
        Some(n) if trim(n).len() > 0 => Some(
            match strip_prefix(trim(n), "models/"@) {
                Some(rest) => rest,
                None => trim(n),
            },
        ),
        _ => match get_str(item, "baseModelId"@) {
            Some(b) if trim(b).len() > 0 => Some(trim(b)),
            _ => None,
        },
    }
}

/// A listed model's capabilities: the `gemini` transport, and reasoning only where the
/// model says by a boolean `thinking` whether it thinks.
pub open spec fn capabilities_of(item: JsonV) -> CapabilitiesV {
    CapabilitiesV {
        schema_version: 1,
        transport: Some("gemini"@),
        reasoning: match get_bool(item, "thinking"@) {
            Some(true) => Some(reasoning_supported_unknown()),
            Some(false) => Some(reasoning_unsupported()),
            None => None,
        },
        tools: None,
        vision: None,
        structured_output: None,
    }
}

/// The model a listed item stands for: only items that support generation and have an id.
pub open spec fn listed_model(item: JsonV) -> Option<ModelV> {
    if !supports_generation(item) {
        None
    } else {
        match id_of(item) {
            None => None,
            Some(id) => Some(
                ModelV {
                    id,
                    display_name: Some(
                        match get_str(item, "displayName"@) {
                            Some(d) if trim(d).len() > 0 => trim(d),
                            _ => id,
                        },
                    ),
                    context_window: get_u64(item, "inputTokenLimit"@),
                    max_output_tokens: get_u64(item, "outputTokenLimit"@),
                    capabilities: capabilities_of(item),
                    raw_metadata: item,
                },
            ),
        }
    }
}

/// The models that the listed items stand for, in the order listed.
pub open spec fn listed_models(items: Seq<JsonV>) -> Seq<ModelV> {
    listed_with(items, |item: JsonV| listed_model(item))
}

/// The models of one page of the model list (`{"models": [...]}`), in the order listed.
pub open spec fn page_models(value: JsonV) -> Seq<ModelV> {
    match get_array(value, "models"@) {
        Some(items) => listed_models(items),
        None => Seq::empty(),
    }
}

/// The token of the next page: the page's trimmed `nextPageToken` where it is not blank.
pub open spec fn next_token(value: JsonV) -> Option<Seq<char>> {
    match get_str(value, "nextPageToken"@) {
        Some(t) if trim(t).len() > 0 => Some(trim(t)),
        _ => None,
    }
}

pub fn model_error(code: &str, message: &str, retryable: bool) -> (r: PluginError)
    ensures
        r@ == (ErrorV { code: code@, message: message@, retryable }),
{
    PluginError::new(code, message, retryable)
}

/// Percent-encodes the UTF-8 bytes of `value`, keeping ASCII letters, digits and `-_.~`.
pub fn urlencode(value: &str) -> (r: String)
    ensures
        r@ == percent_encode(encode_utf8(value@)),
{
    crate::text::percent_encode_str(value)
}

/// The URL of one page of the model list (see [`page_url`]).
pub fn join_models_url(base_url: &str, models_path: &str, page_token: Option<&str>) -> (r: String)
    ensures
        r@ == page_url(
            base_url@,
            models_path@,
            match page_token {
                Some(t) => Some(t@),
                None => None,
            },
        ),
{
    let mut url = crate::text::join_with_defaults(
        base_url,
        models_path,
        DEFAULT_BASE_URL,
        DEFAULT_MODELS_PATH,
    );
    url.append("?pageSize=1000");
    if let Some(token) = page_token {
        if !token.is_empty() {
            url.append("&pageToken=");
            let encoded = urlencode(token);
            url.append(encoded.as_str());
        }
    }
    url
}

/// Whether a listed model advertises `generateContent` (see [`supports_generation`]).
pub fn supports_generate_content(item: &Json) -> (r: bool)
    ensures
        r == supports_generation(item@),
{
    let methods = match item.get_array("supportedGenerationMethods") {
        Some(methods) => methods,
        None => return false,
    };
    let ghost ms = models_of(methods@);
    proof {
        lemma_models_of(methods@);
    }
    let mut i: usize = 0;
    while i < methods.len()
        invariant
            i <= methods.len(),
            ms == models_of(methods@),
            ms.len() == methods@.len(),
            get_array(item@, "supportedGenerationMethods"@) == Some(ms),
            forall|j: int| 0 <= j < methods.len() ==> #[trigger] ms[j] == methods@[j]@,
            forall|j: int| 0 <= j < i ==> #[trigger] ms[j].as_str() != Some("generateContent"@),
        decreases methods.len() - i,
    {
        if let Some(m) = methods[i].as_str() {
            if crate::text::str_eq(m.as_str(), "generateContent") {
                assert(ms[i as int].as_str() == Some("generateContent"@));
                return true;
            }
        }
        i = i + 1;
    }
    false
}

/// A listed model's id (see [`id_of`]).
pub fn model_id(item: &Json) -> (r: Option<String>)
    ensures
        match r {
            Some(id) => id_of(item@) == Some(id@),
            None => id_of(item@) is None,
        },
{
    if let Some(n) = item.get_str("name") {
        let t = trim_str(n.as_str());
        if !t.as_str().is_empty() {
            return match crate::text::remove_prefix(t.as_str(), "models/") {
                Some(rest) => Some(rest),
                None => Some(t),
            };
        }
    }
    if let Some(b) = item.get_str("baseModelId") {
        let t = trim_str(b.as_str());
        if !t.as_str().is_empty() {
            return Some(t);
        }
    }
    None
}

/// A listed model's capabilities (see [`capabilities_of`]).
pub fn normalized_capabilities(item: &Json) -> (r: ModelCapabilitiesV1)
    ensures
        r@ == capabilities_of(item@),
{
    let mut capabilities = ModelCapabilitiesV1::with_transport("gemini");
    capabilities.reasoning = match item.get_bool("thinking") {
        Some(true) => Some(ReasoningCapability::supported_unknown()),
        Some(false) => Some(ReasoningCapability::unsupported()),
        None => None,
    };
    capabilities
}

/// The model one listed item stands for (see [`listed_model`]).
fn model_of_item(item: &Json) -> (r: Option<DiscoveredModel>)
    ensures
        match r {
            Some(m) => listed_model(item@) == Some(m@),
            None => listed_model(item@) is None,
        },
{
    if !supports_generate_content(item) {
        return None;
    }
    let id = match model_id(item) {
        Some(id) => id,
        None => return None,
    };
    let display_name = match item.get_str("displayName") {
        Some(d) => {
            let t = trim_str(d.as_str());
            if t.as_str().is_empty() {
                id.clone()
            } else {
                t
            }
        },
        None => id.clone(),
    };
    Some(
        DiscoveredModel {
            id,
            display_name: Some(display_name),
            context_window: item.get_u64("inputTokenLimit"),
            max_output_tokens: item.get_u64("outputTokenLimit"),
            capabilities: normalized_capabilities(item),
            raw_metadata: item.deep_clone(),
        },
    )
}

/// The models of one page of the model list, in the order listed (see [`page_models`]).
pub fn parse_model_page(value: &Json) -> (r: Vec<DiscoveredModel>)
    ensures
        models_view(r@) == page_models(value@),
{
    let data = match value.get_array("models") {
        Some(data) => data,
        None => return Vec::new(),
    };
    let ghost items = models_of(data@);
    proof {
        lemma_models_of(data@);
        assert(items.take(0) =~= Seq::<JsonV>::empty());
    }
    let mut models: Vec<DiscoveredModel> = Vec::new();
    let mut i: usize = 0;
    while i < data.len()
        invariant
            i <= data.len(),
            items == models_of(data@),
            items.len() == data@.len(),
            forall|j: int| 0 <= j < data.len() ==> #[trigger] items[j] == data@[j]@,
            models_view(models@) == listed_models(items.take(i as int)),
        decreases data.len() - i,
    {
        let found = model_of_item(&data[i]);
        proof {
            assert(items.take(i + 1).drop_last() =~= items.take(i as int));
            assert(items.take(i + 1).last() == data@[i as int]@);
        }
        match found {
            Some(m) => {
                models.push(m);
                proof {
                    assert(models_view(models@) =~= listed_models(items.take(i as int)).push(
                        models@.last()@,
                    ));
                }
            },
            None => {},
        }
        i = i + 1;
    }
    proof {
        assert(items.take(data.len() as int) =~= items);
    }
    models
}

/// The token of the next page (see [`next_token`]).
pub fn next_page_token(value: &Json) -> (r: Option<String>)
    ensures
        match r {
            Some(t) => next_token(value@) == Some(t@),
            None => next_token(value@) is None,
        },
{
    match value.get_str("nextPageToken") {
        Some(t) => {
            let t = trim_str(t.as_str());
            if t.as_str().is_empty() {
                None
            } else {
                Some(t)
            }
        },
        None => None,
    }
}

/// The text of one page's response, or the error it comes to.
pub fn check_response(status: u16, body_truncated: bool, body: Vec<u8>) -> (r: Result<
    String,
    PluginError,
>)
    ensures
        outcome_matches(r, response_outcome("Google"@, status, body_truncated, body@, true)),
{
    check_catalog_response("Google", status, body_truncated, body, true)
}

/// The error for a page that is not valid JSON; `detail` says why.
pub fn invalid_catalog_json(detail: &str) -> (r: PluginError)
    ensures
        r@ == (ErrorV {
            code: "protocol_error"@,
            message: "invalid "@ + "Google"@ + " model catalog JSON: "@ + detail@,
            retryable: false,
        }),
{
    crate::response::invalid_catalog_json("Google", detail)
}

/// A model as one page lists it: it advertises `generateContent`, its id comes from the item,
/// and of its capabilities only the transport and (where the item says) reasoning are known.
pub open spec fn listed_as_generative(m: ModelV) -> bool {
    &&& supports_generation(m.raw_metadata)
    &&& id_of(m.raw_metadata) == Some(m.id)
    &&& m.capabilities == capabilities_of(m.raw_metadata)
    &&& m.capabilities.tools is None
    &&& m.capabilities.vision is None
    &&& m.capabilities.structured_output is None
}

/// A page yields only models that advertise `generateContent`, each for an item of the page,
/// and claims no capability that the item does not state.
pub proof fn law_page_lists_generative_models(value: JsonV)
    ensures
        forall|i: int|
            0 <= i < page_models(value).len() ==> {
                let m = #[trigger] page_models(value)[i];
                &&& listed_as_generative(m)
                &&& exists|j: int|
                    0 <= j < get_array(value, "models"@).unwrap().len() && #[trigger] get_array(
                        value,
                        "models"@,
                    ).unwrap()[j] == m.raw_metadata
            },
{
    if let Some(items) = get_array(value, "models"@) {
        crate::catalog::lemma_listed_with_from(items, |item: JsonV| listed_model(item));
        assert forall|i: int| 0 <= i < page_models(value).len() implies {
            let m = #[trigger] page_models(value)[i];
            &&& listed_as_generative(m)
            &&& exists|j: int| 0 <= j < items.len() && #[trigger] items[j] == m.raw_metadata
        } by {
            let m = page_models(value)[i];
            assert(listed_models(items).contains(m));
            let j = choose|j: int| 0 <= j < items.len() && listed_model(#[trigger] items[j]) == Some(m);
            assert(items[j] == m.raw_metadata);
        }
    }
}

/// A page keeps exactly its generative models: an item whose `supportedGenerationMethods`
/// holds the string `generateContent` and whose trimmed `name` (or else `baseModelId`) is
/// not blank yields a model for it, and an item without `generateContent` yields none.
pub proof fn law_page_keeps_generative_items(value: JsonV)
    ensures
        get_array(value, "models"@) matches Some(items) ==> forall|j: int|
            0 <= j < items.len() ==> {
                let item = #[trigger] items[j];
                &&& (get_array(item, "supportedGenerationMethods"@) matches Some(ms) && (exists|
                    i: int,
                | 0 <= i < ms.len() && #[trigger] ms[i] == JsonV::Str("generateContent"@)) && (
                (get_str(item, "name"@) matches Some(n) && trim(n).len() > 0) || (get_str(
                    item,
                    "baseModelId"@,
                ) matches Some(b) && trim(b).len() > 0))) ==> exists|k: int|
                    0 <= k < page_models(value).len() && #[trigger] page_models(value)[k].raw_metadata
                        == item
                &&& !(get_array(item, "supportedGenerationMethods"@) matches Some(ms) && exists|
                    i: int,
                | 0 <= i < ms.len() && #[trigger] ms[i] == JsonV::Str("generateContent"@)) ==> forall|
                    k: int,
                | 0 <= k < page_models(value).len() ==> #[trigger] page_models(value)[k].raw_metadata
                    != item
            },
{
    if let Some(items) = get_array(value, "models"@) {
        let f = |item: JsonV| listed_model(item);
        law_page_lists_generative_models(value);
        assert forall|j: int| 0 <= j < items.len() implies {
            let item = #[trigger] items[j];
            &&& (get_array(item, "supportedGenerationMethods"@) matches Some(ms) && (exists|i: int|
                0 <= i < ms.len() && #[trigger] ms[i] == JsonV::Str("generateContent"@)) && ((get_str(
                item,
                "name"@,
            ) matches Some(n) && trim(n).len() > 0) || (get_str(item, "baseModelId"@) matches Some(
                b,
            ) && trim(b).len() > 0))) ==> exists|k: int|
                0 <= k < page_models(value).len() && #[trigger] page_models(value)[k].raw_metadata
                    == item
            &&& !(get_array(item, "supportedGenerationMethods"@) matches Some(ms) && exists|i: int|
                0 <= i < ms.len() && #[trigger] ms[i] == JsonV::Str("generateContent"@)) ==> forall|
                k: int,
            | 0 <= k < page_models(value).len() ==> #[trigger] page_models(value)[k].raw_metadata
                != item
        } by {
            let item = items[j];
            if let Some(ms) = get_array(item, "supportedGenerationMethods"@) {
                if exists|i: int| 0 <= i < ms.len() && #[trigger] ms[i] == JsonV::Str("generateContent"@) {
                    let i = choose|i: int| 0 <= i < ms.len() && #[trigger] ms[i] == JsonV::Str("generateContent"@);
                    assert(ms[i].as_str() == Some("generateContent"@));
                    assert(supports_generation(item));
                    if f(item) is Some {
                        crate::catalog::lemma_listed_with_covers(items, f, j);
                        let m = f(item).unwrap();
                        let k = choose|k: int| 0 <= k < page_models(value).len() && page_models(value)[k] == m;
                        assert(page_models(value)[k].raw_metadata == item);
                    }
                } else {
                    assert forall|i: int| 0 <= i < ms.len() implies #[trigger] ms[i].as_str() != Some(
                        "generateContent"@,
                    ) by {
                        if ms[i].as_str() == Some("generateContent"@) {
                            assert(ms[i] == JsonV::Str("generateContent"@));
                        }
                    }
                    assert(!supports_generation(item));
                    assert forall|k: int| 0 <= k < page_models(value).len() implies #[trigger] page_models(
                        value,
                    )[k].raw_metadata != item by {
                        assert(listed_as_generative(page_models(value)[k]));
                    }
                }
            } else {
                assert forall|k: int| 0 <= k < page_models(value).len() implies #[trigger] page_models(
                    value,
                )[k].raw_metadata != item by {
                    assert(listed_as_generative(page_models(value)[k]));
                }
            }
        }
    }
}

/// The error for a model list that goes on past [`MAX_PAGES`] pages.
pub open spec fn pagination_error() -> ErrorV {
    ErrorV {
        code: "upstream_unavailable"@,
        message: "Google model catalog exceeded the plugin pagination bound"@,
        retryable: true,
    }
}

/// Where a discovery run stands before it asks for its next page.
#[derive(Debug)]
pub struct PageDiscovery {
    page: usize,
    discovered: Vec<DiscoveredModel>,
    page_token: Option<String>,
}

/// Mathematical model of a [`PageDiscovery`]: the index of the page to ask for, the models
/// of the pages before it, and the token of that page.
pub struct DiscoveryV {
    pub page: nat,
    pub discovered: Seq<ModelV>,
    pub token: Option<Seq<char>>,
}

impl View for PageDiscovery {
    type V = DiscoveryV;

    closed spec fn view(&self) -> DiscoveryV {
        DiscoveryV {
            page: self.page as nat,
            discovered: models_view(self.discovered@),
            token: match self.page_token {
                Some(t) => Some(t@),
                None => None,
            },
        }
    }
}

/// What a page of the model list leads to.
#[derive(Debug)]
pub enum PageStep {
    /// Ask for the next page.
    Next(PageDiscovery),
    /// The list is complete: all models, sorted by id, one per id.
    Done(Vec<DiscoveredModel>),
    Failed(PluginError),
}

/// Mathematical model of a [`PageStep`].
pub enum StepV {
    Next(DiscoveryV),
    Done(Seq<ModelV>),
    Failed(ErrorV),
}

impl View for PageStep {
    type V = StepV;

    open spec fn view(&self) -> StepV {
        match self {
            PageStep::Next(d) => StepV::Next(d@),
            PageStep::Done(models) => StepV::Done(models_view(models@)),
            PageStep::Failed(e) => StepV::Failed(e@),
        }
    }
}

/// The state before the first page.
pub open spec fn first_page() -> DiscoveryV {
    DiscoveryV { page: 0, discovered: Seq::empty(), token: None }
}

/// What a page leads to from state `d`: where the page has no next token, the models of all
/// pages so far sorted by id with the first of each id kept; else, where this was the last
/// page that may be asked for, the pagination error; else the next page, with this page's
/// models added.
pub open spec fn step(d: DiscoveryV, page: JsonV) -> StepV {
    let all = d.discovered + page_models(page);
    match next_token(page) {
        None => StepV::Done(dedup_by_id(sort_by_id(all))),
        Some(t) => if d.page + 1 == MAX_PAGES {
            StepV::Failed(pagination_error())
        } else {
            StepV::Next(DiscoveryV { page: d.page + 1, discovered: all, token: Some(t) })
        },
    }
}

/// Where a run from state `d` stands after `pages`, in order (it stops at the first page
/// that ends it).
pub open spec fn run_from(d: DiscoveryV, pages: Seq<JsonV>) -> StepV
    decreases pages.len(),
{
    if pages.len() == 0 {
        StepV::Next(d)
    } else {
        match step(d, pages[0]) {
            StepV::Next(next) => run_from(next, pages.drop_first()),
            other => other,
        }
    }
}

impl PageDiscovery {
    #[verifier::type_invariant]
    spec fn inv(self) -> bool {
        self.page < MAX_PAGES
    }

    /// A run that has seen no page yet.
    pub fn new() -> (r: PageDiscovery)
        ensures
            r@ == first_page(),
    {
        let r = PageDiscovery { page: 0, discovered: Vec::new(), page_token: None };
        assert(models_view(r.discovered@) =~= Seq::<ModelV>::empty());
        r
    }

    /// The URL of the page that this state asks for.
    pub fn request_url(&self, base_url: &str, models_path: &str) -> (r: String)
        ensures
            r@ == page_url(base_url@, models_path@, self@.token),
    {
        match &self.page_token {
            Some(t) => join_models_url(base_url, models_path, Some(t.as_str())),
            None => join_models_url(base_url, models_path, None),
        }
    }

    /// What the page that this state asked for leads to (see [`step`]).
    pub fn accept_page(self, page: &Json) -> (r: PageStep)
        ensures
            r@ == step(self@, page@),
            r matches PageStep::Next(next) ==> next@.page < MAX_PAGES,
    {
        proof {
            use_type_invariant(&self);
        }
        let ghost before = models_view(self.discovered@);
        let current = self.page;
        let mut discovered = self.discovered;
        let found = parse_model_page(page);
        let ghost added = models_view(found@);
        let mut rest = found;
        let ghost mut k: int = 0;
        while rest.len() > 0
            invariant
                0 <= k <= added.len(),
                models_view(rest@) == added.skip(k),
                models_view(discovered@) == before + added.take(k),
            decreases rest.len(),
        {
            let ghost prior = rest@;
            proof {
                assert(models_view(prior).len() == prior.len());
                assert(k < added.len());
            }
            let m = rest.remove(0);
            proof {
                assert(models_view(prior)[0] == m@);
                assert(models_view(rest@) =~= added.skip(k + 1)) by {
                    assert forall|i: int| 0 <= i < rest@.len() implies models_view(rest@)[i]
                        == added.skip(k + 1)[i] by {
                        assert(rest@[i] == prior[i + 1]);
                        assert(models_view(prior)[i + 1] == added.skip(k)[i + 1]);
                    }
                }
            }
            let ghost old_d = discovered@;
            discovered.push(m);
            proof {
                assert(added.skip(k)[0] == added[k]);
                assert(models_view(discovered@) =~= models_view(old_d).push(m@));
                assert(added.take(k + 1) =~= added.take(k).push(added[k]));
                assert(models_view(discovered@) =~= before + added.take(k + 1));
                k = k + 1;
            }
        }
        proof {
            assert(added.take(k) =~= added);
        }
        match next_page_token(page) {
            None => {
                let sorted = sort_models_by_id(discovered);
                PageStep::Done(dedup_models_by_id(sorted))
            },
            Some(t) => {
                if current + 1 == MAX_PAGES {
                    PageStep::Failed(
                        model_error(
                            "upstream_unavailable",
                            "Google model catalog exceeded the plugin pagination bound",
                            true,
                        ),
                    )
                } else {
                    PageStep::Next(
                        PageDiscovery { page: current + 1, discovered, page_token: Some(t) },
                    )
                }
            },
        }
    }
}

/// Every id of `all` is the id of some model of `models`.
pub open spec fn keeps_every_id(models: Seq<ModelV>, all: Seq<ModelV>) -> bool {
    forall|j: int|
        0 <= j < all.len() ==> exists|k: int|
            0 <= k < models.len() && #[trigger] models[k].id == #[trigger] all[j].id
}

/// A page that completes the list loses no model: every id of this and the earlier pages
/// has a model in the result.
pub proof fn law_completed_list_keeps_every_id(d: DiscoveryV, page: JsonV)
    ensures
        step(d, page) matches StepV::Done(models) ==> keeps_every_id(
            models,
            d.discovered + page_models(page),
        ),
{
    let all = d.discovered + page_models(page);
    if next_token(page) is None {
        let sorted = sort_by_id(all);
        law_sort_by_id_same_models(all);
        law_dedup_by_id_covers(sorted);
        let models = dedup_by_id(sorted);
        assert(step(d, page) == StepV::Done(models));
        assert forall|j: int| 0 <= j < all.len() implies exists|k: int|
            0 <= k < models.len() && #[trigger] models[k].id == #[trigger] all[j].id by {
            assert(all.contains(all[j]));
            assert(sorted.contains(all[j]));
            let i = choose|i: int| 0 <= i < sorted.len() && sorted[i] == all[j];
            let k = choose|k: int| 0 <= k < models.len() && #[trigger] models[k].id == #[trigger] sorted[i].id;
            assert(0 <= k < models.len() && models[k].id == all[j].id);
        }
        assert(keeps_every_id(models, all));
    }
}

/// Paging follows the tokens: a page whose trimmed `nextPageToken` is not blank leads (within
/// the bound) to a state that asks for the page with exactly that token, with this page's
/// models added; a page without one completes the list.
pub proof fn law_next_page_follows_token(d: DiscoveryV, page: JsonV, base: Seq<char>, path: Seq<char>)
    ensures
        step(d, page) matches StepV::Next(n) ==> {
            &&& get_str(page, "nextPageToken"@) is Some
            &&& trim(get_str(page, "nextPageToken"@).unwrap()).len() > 0
            &&& n.token == Some(trim(get_str(page, "nextPageToken"@).unwrap()))
            &&& n.page == d.page + 1
            &&& n.discovered == d.discovered + page_models(page)
            &&& page_url(base, path, n.token) == join_path(
                base,
                path,
                DEFAULT_BASE_URL@,
                DEFAULT_MODELS_PATH@,
            ) + "?pageSize=1000"@ + "&pageToken="@ + percent_encode(
                encode_utf8(trim(get_str(page, "nextPageToken"@).unwrap())),
            )
        },
        (get_str(page, "nextPageToken"@) is None || trim(get_str(page, "nextPageToken"@).unwrap()).len()
            == 0) ==> step(d, page) is Done,
        (get_str(page, "nextPageToken"@) is Some && trim(get_str(page, "nextPageToken"@).unwrap()).len()
            > 0 && d.page + 1 < MAX_PAGES) ==> step(d, page) is Next,
{
}

/// Thinking support is taken only from a boolean `thinking`: without one, reasoning stays
/// unknown; with one, reasoning is supported exactly when it says so, and nothing more about
/// reasoning is claimed.
pub proof fn law_reasoning_only_from_thinking(item: JsonV, value: JsonV)
    ensures
        get_bool(item, "thinking"@) is None ==> capabilities_of(item).reasoning is None,
        get_bool(item, "thinking"@) matches Some(b) ==> capabilities_of(item).reasoning matches Some(r)
            && r.supported == b && r.mode is None && r.levels is None && r.default is None
            && r.can_disable is None,
        forall|i: int|
            0 <= i < page_models(value).len() ==> {
                let m = #[trigger] page_models(value)[i];
                &&& m.capabilities.transport == Some("gemini"@)
                &&& get_bool(m.raw_metadata, "thinking"@) is None ==> m.capabilities.reasoning is None
                &&& get_bool(m.raw_metadata, "thinking"@) matches Some(b) ==> m.capabilities.reasoning
                    matches Some(r) && r.supported == b
            },
{
    law_page_lists_generative_models(value);
    assert forall|i: int| 0 <= i < page_models(value).len() implies {
        let m = #[trigger] page_models(value)[i];
        &&& m.capabilities.transport == Some("gemini"@)
        &&& get_bool(m.raw_metadata, "thinking"@) is None ==> m.capabilities.reasoning is None
        &&& get_bool(m.raw_metadata, "thinking"@) matches Some(b) ==> m.capabilities.reasoning
            matches Some(r) && r.supported == b
    } by {
        let m = page_models(value)[i];
        assert(listed_as_generative(m));
    }
}

/// A model's id is its listed `name` without the `models/` prefix: where the trimmed name is
/// not blank, it is either `models/` followed by the id, or the id itself (which then does
/// not start with `models/`); else the id is the trimmed `baseModelId`.
pub proof fn law_id_from_name(item: JsonV)
    ensures
        get_str(item, "name"@) matches Some(n) ==> (trim(n).len() > 0 ==> (id_of(item) matches Some(id)
            && (trim(n) == "models/"@ + id || (trim(n) == id && !starts_with(id, "models/"@))))),
        (get_str(item, "name"@) is None || trim(get_str(item, "name"@).unwrap()).len() == 0) ==> id_of(
            item,
        ) == match get_str(item, "baseModelId"@) {
            Some(b) => if trim(b).len() > 0 {
                Some(trim(b))
            } else {
                None
            },
            None => None,
        },
{
    if let Some(n) = get_str(item, "name"@) {
        let t = trim(n);
        let prefix = "models/"@;
        if t.len() > 0 && starts_with(t, prefix) {
            assert(t =~= prefix + t.skip(prefix.len() as int));
        }
    }
}

/// Discovery asks for at most [`MAX_PAGES`] pages: a run from the first page never asks
/// for another after that many.
pub proof fn law_pagination_bound(pages: Seq<JsonV>)
    requires
        pages.len() >= MAX_PAGES,
    ensures
        !(run_from(first_page(), pages) is Next),
{
    lemma_run_ends(first_page(), pages);
}

proof fn lemma_run_ends(d: DiscoveryV, pages: Seq<JsonV>)
    requires
        d.page + pages.len() >= MAX_PAGES,
        d.page < MAX_PAGES,
    ensures
        !(run_from(d, pages) is Next),
    decreases pages.len(),
{
    if pages.len() > 0 {
        match step(d, pages[0]) {
            StepV::Next(next) => {
                lemma_run_ends(next, pages.drop_first());
            },
            _ => {},
        }
    }
}

/// A completed run lists each id once, in increasing order, and only models that some page
/// listed as generative.
pub proof fn law_completed_run_is_sorted_and_generative(pages: Seq<JsonV>)
    ensures
        run_from(first_page(), pages) matches StepV::Done(models) ==> {
            &&& strictly_sorted_by_id(models)
            &&& forall|i: int| 0 <= i < models.len() ==> listed_as_generative(#[trigger] models[i])
        },
{
    lemma_run_done(first_page(), pages);
}

proof fn lemma_run_done(d: DiscoveryV, pages: Seq<JsonV>)
    requires
        forall|i: int| 0 <= i < d.discovered.len() ==> listed_as_generative(#[trigger] d.discovered[i]),
    ensures
        run_from(d, pages) matches StepV::Done(models) ==> {
            &&& strictly_sorted_by_id(models)
            &&& forall|i: int| 0 <= i < models.len() ==> listed_as_generative(#[trigger] models[i])
        },
    decreases pages.len(),
{
    if pages.len() > 0 {
        let page = pages[0];
        let all = d.discovered + page_models(page);
        law_page_lists_generative_models(page);
        assert forall|i: int| 0 <= i < all.len() implies listed_as_generative(#[trigger] all[i]) by {
            if i >= d.discovered.len() {
                assert(all[i] == page_models(page)[i - d.discovered.len()]);
            }
        }
        match step(d, page) {
            StepV::Next(next) => {
                assert(next.discovered == all);
                lemma_run_done(next, pages.drop_first());
            },
            StepV::Done(models) => {
                let sorted = sort_by_id(all);
                law_sort_by_id_sorted(all);
                law_sort_by_id_same_models(all);
                law_dedup_sorted_strict(sorted);
                law_dedup_by_id_keeps(sorted);
                assert forall|i: int| 0 <= i < models.len() implies listed_as_generative(
                    #[trigger] models[i],
                ) by {
                    assert(sorted.contains(models[i]));
                    assert(all.contains(models[i]));
                }
            },
            _ => {},
        }
    }
}

} // verus!
