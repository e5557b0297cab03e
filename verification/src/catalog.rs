use vstd::prelude::*;

use crate::json::{get_str, get_u64, Json, JsonV};
use crate::model::ModelV;
use crate::order::ids;
use crate::text::{trim, trim_str};

verus! {

/// The model of an optional document.
pub open spec fn opt_model(o: Option<Json>) -> Option<JsonV> {
    match o {
        Some(j) => Some(j@),
        None => None,
    }
}

/// The model of an optional borrowed document.
pub open spec fn ref_model(o: Option<&Json>) -> Option<JsonV> {
    match o {
        Some(j) => Some(j@),
        None => None,
    }
}

/// A model list (`{"data": [...]}`) of the given items.
pub open spec fn data_list(items: Seq<JsonV>) -> JsonV {
    JsonV::Object(seq![("data"@, JsonV::Array(items))])
}

/// The models that the listed items stand for, in the order listed, where `f` says which
/// model (if any) an item stands for.
pub open spec fn listed_with(items: Seq<JsonV>, f: spec_fn(JsonV) -> Option<ModelV>) -> Seq<ModelV>
    decreases items.len(),
{
    if items.len() == 0 {
        Seq::empty()
    } else {
        let rest = listed_with(items.drop_last(), f);
        match f(items.last()) {
            Some(m) => rest.push(m),
            None => rest,
        }
    }
}

/// Each model that `listed_with` yields stands for one of the items.
pub proof fn lemma_listed_with_from(items: Seq<JsonV>, f: spec_fn(JsonV) -> Option<ModelV>)
    ensures
        forall|m: ModelV|
            #[trigger] listed_with(items, f).contains(m) ==> exists|j: int|
                0 <= j < items.len() && f(#[trigger] items[j]) == Some(m),
    decreases items.len(),
{
    if items.len() > 0 {
        let rest = items.drop_last();
        lemma_listed_with_from(rest, f);
        assert forall|m: ModelV| #[trigger] listed_with(items, f).contains(m) implies exists|j: int|
            0 <= j < items.len() && f(#[trigger] items[j]) == Some(m) by {
            let r = listed_with(rest, f);
            let k = choose|k: int| 0 <= k < listed_with(items, f).len() && listed_with(items, f)[k] == m;
            if k < r.len() {
                assert(r[k] == m);
                assert(r.contains(m));
                let j = choose|j: int| 0 <= j < rest.len() && f(#[trigger] rest[j]) == Some(m);
                assert(items[j] == rest[j]);
            } else {
                assert(f(items[items.len() - 1]) == Some(m));
            }
        }
    }
}

/// Every model that `f` yields for an item is among those `listed_with` yields.
pub proof fn lemma_listed_with_covers(items: Seq<JsonV>, f: spec_fn(JsonV) -> Option<ModelV>, j: int)
    requires
        0 <= j < items.len(),
        f(items[j]) is Some,
    ensures
        listed_with(items, f).contains(f(items[j]).unwrap()),
    decreases items.len(),
{
    let r = listed_with(items.drop_last(), f);
    if j < items.len() - 1 {
        assert(items.drop_last()[j] == items[j]);
        lemma_listed_with_covers(items.drop_last(), f, j);
        let k = choose|k: int| 0 <= k < r.len() && r[k] == f(items[j]).unwrap();
        if let Some(m) = f(items.last()) {
            assert(r.push(m)[k] == r[k]);
        }
    } else {
        let m = f(items.last()).unwrap();
        assert(r.push(m)[r.len() as int] == m);
    }
}

/// Where `f` and `g` yield a model for the same items, with the same ids, `listed_with`
/// yields the same ids with either.
pub proof fn lemma_listed_with_ids(
    items: Seq<JsonV>,
    f: spec_fn(JsonV) -> Option<ModelV>,
    g: spec_fn(JsonV) -> Option<ModelV>,
)
    requires
        forall|x: JsonV|
            (#[trigger] f(x) is Some) == (g(x) is Some) && (f(x) is Some ==> f(x).unwrap().id == g(
                x,
            ).unwrap().id),
    ensures
        ids(listed_with(items, f)) == ids(listed_with(items, g)),
    decreases items.len(),
{
    if items.len() > 0 {
        lemma_listed_with_ids(items.drop_last(), f, g);
        let r1 = listed_with(items.drop_last(), f);
        let r2 = listed_with(items.drop_last(), g);
        let x = items.last();
        if f(x) is Some {
            assert(ids(r1.push(f(x).unwrap())) =~= ids(r1).push(f(x).unwrap().id));
            assert(ids(r2.push(g(x).unwrap())) =~= ids(r2).push(g(x).unwrap().id));
        }
    }
}

/// `listed_with` of a concatenation is the concatenation of `listed_with` of the parts.
pub proof fn lemma_listed_with_add(a: Seq<JsonV>, b: Seq<JsonV>, f: spec_fn(JsonV) -> Option<ModelV>)
    ensures
        listed_with(a + b, f) == listed_with(a, f) + listed_with(b, f),
    decreases b.len(),
{
    if b.len() == 0 {
        assert(a + b =~= a);
        assert(listed_with(a, f) + listed_with(b, f) =~= listed_with(a, f));
    } else {
        lemma_listed_with_add(a, b.drop_last(), f);
        assert((a + b).drop_last() =~= a + b.drop_last());
        assert((a + b).last() == b.last());
        if let Some(m) = f(b.last()) {
            assert(listed_with(a, f) + listed_with(b.drop_last(), f).push(m) =~= (listed_with(a, f)
                + listed_with(b.drop_last(), f)).push(m));
        }
    }
}

/// The name a model is shown under: the listed `name` (trimmed) where it is not blank, else
/// the catalog's `display_name`, else the model's id.
pub open spec fn display_name_of(item: JsonV, entry: Option<JsonV>, id: Seq<char>) -> Seq<char> {
    match get_str(item, "name"@) {
        Some(n) if trim(n).len() > 0 => trim(n),
        _ => match entry {
            Some(e) => match get_str(e, "display_name"@) {
                Some(d) => d,
                None => id,
            },
            None => id,
        },
    }
}

/// A token limit: the listed member `key` (or, where it is absent, `alt_key`) if it holds a
/// `u64`, else the catalog's `catalog_key`.
pub open spec fn limit_of(
    item: JsonV,
    key: Seq<char>,
    alt_key: Seq<char>,
    entry: Option<JsonV>,
    catalog_key: Seq<char>,
) -> Option<u64> {
    let listed = match item.get(key) {
        Some(v) => Some(v),
        None => item.get(alt_key),
    };
    match listed {
        Some(v) if v.as_u64() is Some => v.as_u64(),
        _ => match entry {
            Some(e) => get_u64(e, catalog_key),
            None => None,
        },
    }
}

/// A listed non-blank `name` wins (trimmed); without one, the catalog's `display_name` is used
/// as it stands; without either, the id.
pub proof fn law_display_name_precedence(item: JsonV, entry: Option<JsonV>, id: Seq<char>)
    ensures
        get_str(item, "name"@) matches Some(n) ==> (trim(n).len() > 0 ==> display_name_of(item, entry, id)
            == trim(n)),
        !(get_str(item, "name"@) matches Some(n) && trim(n).len() > 0) ==> display_name_of(
            item,
            entry,
            id,
        ) == match entry {
            Some(e) => if get_str(e, "display_name"@) is Some {
                get_str(e, "display_name"@).unwrap()
            } else {
                id
            },
            None => id,
        },
{
}

/// A listed `u64` limit wins: the member `key` where present, else `alt_key`; only where the
/// member consulted is not a `u64` does the catalog's `catalog_key` count.
pub proof fn law_limit_precedence(
    item: JsonV,
    key: Seq<char>,
    alt_key: Seq<char>,
    entry: Option<JsonV>,
    catalog_key: Seq<char>,
)
    ensures
        get_u64(item, key) is Some ==> limit_of(item, key, alt_key, entry, catalog_key) == get_u64(item, key),
        item.get(key) is None && get_u64(item, alt_key) is Some ==> limit_of(
            item,
            key,
            alt_key,
            entry,
            catalog_key,
        ) == get_u64(item, alt_key),
        (item.get(key) is Some && get_u64(item, key) is None) || (item.get(key) is None && get_u64(
            item,
            alt_key,
        ) is None) ==> limit_of(item, key, alt_key, entry, catalog_key) == match entry {
            Some(e) => get_u64(e, catalog_key),
            None => None,
        },
{
}

/// The name a listed model is shown under (see [`display_name_of`]).
pub fn display_name(item: &Json, entry: Option<&Json>, id: &str) -> (r: String)
    ensures
        r@ == display_name_of(item@, ref_model(entry), id@),
{
    if let Some(n) = item.get_str("name") {
        let t = trim_str(n.as_str());
        if !t.as_str().is_empty() {
            return t;
        }
    }
    match entry {
        Some(e) => match e.get_str("display_name") {
            Some(d) => d.clone(),
            None => id.to_owned(),
        },
        None => id.to_owned(),
    }
}

/// A listed model's token limit (see [`limit_of`]).
pub fn limit(item: &Json, key: &str, alt_key: &str, entry: Option<&Json>, catalog_key: &str) -> (r:
    Option<u64>)
    ensures
        r == limit_of(item@, key@, alt_key@, ref_model(entry), catalog_key@),
{
    let listed = match item.get(key) {
        Some(v) => Some(v),
        None => item.get(alt_key),
    };
    if let Some(v) = listed {
        if let Some(n) = v.as_u64() {
            return Some(n);
        }
    }
    match entry {
        Some(e) => e.get_u64(catalog_key),
        None => None,
    }
}

} // verus!
