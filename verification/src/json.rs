use vstd::prelude::*;

verus! {

/// A JSON number as the catalog logic reads it.
#[derive(Debug)]
pub enum JsonNumber {
    /// A non-negative integer that fits in `u64`.
    Unsigned(u64),
    /// A negative integer that fits in `i64`.
    Negative(i64),
    /// Any other number, kept as its decimal text.
    Fractional(String),
}

/// A JSON document.
#[derive(Debug)]
pub enum Json {
    Null,
    Bool(bool),
    Number(JsonNumber),
    Str(String),
    Array(Vec<Json>),
    Object(Vec<(String, Json)>),
}

/// Mathematical model of a JSON number.
pub enum NumberV {
    Unsigned(u64),
    Negative(i64),
    Fractional(Seq<char>),
}

/// Mathematical model of a JSON document.
pub enum JsonV {
    Null,
    Bool(bool),
    Number(NumberV),
    Str(Seq<char>),
    Array(Seq<JsonV>),
    Object(Seq<(Seq<char>, JsonV)>),
}

impl JsonNumber {
    pub open spec fn model(self) -> NumberV {
        match self {
            JsonNumber::Unsigned(u) => NumberV::Unsigned(u),
            JsonNumber::Negative(i) => NumberV::Negative(i),
            JsonNumber::Fractional(s) => NumberV::Fractional(s@),
        }
    }
}

impl Json {
    pub open spec fn model(self) -> JsonV
        decreases self,
    {
        match self {
            Json::Null => JsonV::Null,
            Json::Bool(b) => JsonV::Bool(b),
            Json::Number(n) => JsonV::Number(n.model()),
            Json::Str(s) => JsonV::Str(s@),
            Json::Array(items) => JsonV::Array(models_of(items@)),
            Json::Object(entries) => JsonV::Object(entry_models_of(entries@)),
        }
    }
}

pub open spec fn models_of(items: Seq<Json>) -> Seq<JsonV>
    decreases items,
{
    if items.len() == 0 {
        Seq::empty()
    } else {
        seq![items[0].model()] + models_of(items.drop_first())
    }
}

pub open spec fn entry_models_of(entries: Seq<(String, Json)>) -> Seq<(Seq<char>, JsonV)>
    decreases entries,
{
    if entries.len() == 0 {
        Seq::empty()
    } else {
        seq![(entries[0].0@, entries[0].1.model())] + entry_models_of(entries.drop_first())
    }
}

/// `models_of` maps each element to its model, position by position.
pub proof fn lemma_models_of(items: Seq<Json>)
    ensures
        models_of(items).len() == items.len(),
        forall|i: int| 0 <= i < items.len() ==> #[trigger] models_of(items)[i] == items[i].model(),
    decreases items.len(),
{
    if items.len() > 0 {
        lemma_models_of(items.drop_first());
        assert forall|i: int| 0 <= i < items.len() implies #[trigger] models_of(items)[i]
            == items[i].model() by {
            if i > 0 {
                assert(items.drop_first()[i - 1] == items[i]);
            }
        }
    }
}

/// `entry_models_of` maps each entry to its key's view and its value's model.
pub proof fn lemma_entry_models_of(entries: Seq<(String, Json)>)
    ensures
        entry_models_of(entries).len() == entries.len(),
        forall|i: int|
            0 <= i < entries.len() ==> #[trigger] entry_models_of(entries)[i] == (
                entries[i].0@,
                entries[i].1.model(),
            ),
    decreases entries.len(),
{
    if entries.len() > 0 {
        lemma_entry_models_of(entries.drop_first());
        assert forall|i: int| 0 <= i < entries.len() implies #[trigger] entry_models_of(entries)[i]
            == (entries[i].0@, entries[i].1.model()) by {
            if i > 0 {
                assert(entries.drop_first()[i - 1] == entries[i]);
            }
        }
    }
}

/// The value stored under `key` in an object's entries: the first entry with that key.
pub open spec fn lookup(entries: Seq<(Seq<char>, JsonV)>, key: Seq<char>) -> Option<JsonV>
    decreases entries.len(),
{
    if entries.len() == 0 {
        None
    } else if entries[0].0 == key {
        Some(entries[0].1)
    } else {
        lookup(entries.drop_first(), key)
    }
}

/// `entries` with `key` set to `value`: the first entry with that key takes the new value,
/// or, where there is none, a new entry comes last.
pub open spec fn insert_entry(entries: Seq<(Seq<char>, JsonV)>, key: Seq<char>, value: JsonV) -> Seq<
    (Seq<char>, JsonV),
>
    decreases entries.len(),
{
    if entries.len() == 0 {
        seq![(key, value)]
    } else if entries[0].0 == key {
        seq![(key, value)] + entries.drop_first()
    } else {
        seq![entries[0]] + insert_entry(entries.drop_first(), key, value)
    }
}

/// The value stored under `key` in `insert_entry(entries, key, value)` is `value`, and every
/// other key keeps its value.
pub proof fn lemma_insert_entry_lookup(
    entries: Seq<(Seq<char>, JsonV)>,
    key: Seq<char>,
    value: JsonV,
    other: Seq<char>,
)
    ensures
        lookup(insert_entry(entries, key, value), key) == Some(value),
        other != key ==> lookup(insert_entry(entries, key, value), other) == lookup(entries, other),
    decreases entries.len(),
{
    let r = insert_entry(entries, key, value);
    if entries.len() > 0 {
        lemma_insert_entry_lookup(entries.drop_first(), key, value, other);
        if entries[0].0 == key {
            assert(r[0] == (key, value));
            assert(r.drop_first() =~= entries.drop_first());
            if other != key {
                assert(lookup(r, other) == lookup(r.drop_first(), other));
                assert(lookup(entries, other) == lookup(entries.drop_first(), other));
            }
        } else {
            assert(r[0] == entries[0]);
            assert(r.drop_first() =~= insert_entry(entries.drop_first(), key, value));
            if other != key && entries[0].0 != other {
                assert(lookup(r, other) == lookup(r.drop_first(), other));
                assert(lookup(entries, other) == lookup(entries.drop_first(), other));
            }
        }
    } else {
        assert(r[0] == (key, value));
        assert(r.drop_first() =~= Seq::<(Seq<char>, JsonV)>::empty());
        if other != key {
            assert(lookup(r, other) == lookup(r.drop_first(), other));
        }
    }
}

impl JsonV {
    /// `self` with member `key` set to `value`, where `self` is an object; else `self`.
    pub open spec fn insert(self, key: Seq<char>, value: JsonV) -> JsonV {
        match self {
            JsonV::Object(entries) => JsonV::Object(insert_entry(entries, key, value)),
            _ => self,
        }
    }

    /// The member `key` of an object; `None` for a missing key or a value that is no object.
    pub open spec fn get(self, key: Seq<char>) -> Option<JsonV> {
        match self {
            JsonV::Object(entries) => lookup(entries, key),
            _ => None,
        }
    }

    pub open spec fn as_str(self) -> Option<Seq<char>> {
        match self {
            JsonV::Str(s) => Some(s),
            _ => None,
        }
    }

    pub open spec fn as_bool(self) -> Option<bool> {
        match self {
            JsonV::Bool(b) => Some(b),
            _ => None,
        }
    }

    /// A non-negative integer that fits in `u64`; `None` for any other value.
    pub open spec fn as_u64(self) -> Option<u64> {
        match self {
            JsonV::Number(NumberV::Unsigned(u)) => Some(u),
            _ => None,
        }
    }

    pub open spec fn as_array(self) -> Option<Seq<JsonV>> {
        match self {
            JsonV::Array(items) => Some(items),
            _ => None,
        }
    }

    pub open spec fn as_object(self) -> Option<Seq<(Seq<char>, JsonV)>> {
        match self {
            JsonV::Object(entries) => Some(entries),
            _ => None,
        }
    }
}

/// The string member `key` of `v`, if there is one.
pub open spec fn get_str(v: JsonV, key: Seq<char>) -> Option<Seq<char>> {
    match v.get(key) {
        Some(x) => x.as_str(),
        None => None,
    }
}

/// The boolean member `key` of `v`, if there is one.
pub open spec fn get_bool(v: JsonV, key: Seq<char>) -> Option<bool> {
    match v.get(key) {
        Some(x) => x.as_bool(),
        None => None,
    }
}

/// The `u64` member `key` of `v`, if there is one.
pub open spec fn get_u64(v: JsonV, key: Seq<char>) -> Option<u64> {
    match v.get(key) {
        Some(x) => x.as_u64(),
        None => None,
    }
}

/// The array member `key` of `v`, if there is one.
pub open spec fn get_array(v: JsonV, key: Seq<char>) -> Option<Seq<JsonV>> {
    match v.get(key) {
        Some(x) => x.as_array(),
        None => None,
    }
}

impl View for Json {
    type V = JsonV;

    open spec fn view(&self) -> JsonV {
        self.model()
    }
}

/// Sets `key` to `value` in an object's entries (see [`insert_entry`]).
fn insert_into(entries: &mut Vec<(String, Json)>, key: String, value: Json)
    ensures
        entry_models_of(final(entries)@) == insert_entry(entry_models_of(old(entries)@), key@, value@),
{
    let ghost key_v = key@;
    let ghost val_v = value@;
    let ghost es = entry_models_of(entries@);
    let ghost orig = entries@;
    proof {
        lemma_entry_models_of(entries@);
        assert(es.skip(0) =~= es);
        assert(es.take(0) + es =~= es);
    }
    let mut i: usize = 0;
    while i < entries.len()
        invariant
            i <= entries.len(),
            es == entry_models_of(orig),
            entries@ == orig,
            orig == old(entries)@,
            es.len() == entries@.len(),
            key@ == key_v,
            value@ == val_v,
            forall|j: int|
                0 <= j < entries.len() ==> #[trigger] es[j] == (
                    entries@[j].0@,
                    entries@[j].1.model(),
                ),
            forall|j: int| 0 <= j < i ==> #[trigger] es[j].0 != key_v,
            es.take(i as int) + insert_entry(es.skip(i as int), key_v, val_v) == insert_entry(
                es,
                key_v,
                val_v,
            ),
        decreases entries.len() - i,
    {
        assert(es.skip(i as int)[0] == es[i as int]);
        assert(es.skip(i as int).drop_first() =~= es.skip(i + 1));
        if entries[i].0 == key {
            let ghost before = entries@;
            entries.set(i, (key, value));
            proof {
                lemma_entry_models_of(entries@);
                assert(entry_models_of(entries@) =~= insert_entry(es, key_v, val_v)) by {
                    assert(insert_entry(es.skip(i as int), key_v, val_v) =~= seq![(key_v, val_v)]
                        + es.skip(i + 1));
                    assert forall|j: int| 0 <= j < entries.len() implies entry_models_of(entries@)[j]
                        == insert_entry(es, key_v, val_v)[j] by {
                        if j != i {
                            assert(entries@[j] == before[j]);
                        }
                    }
                }
            }
            return;
        }
        assert(es.take(i + 1) =~= es.take(i as int).push(es[i as int]));
        assert(insert_entry(es.skip(i as int), key_v, val_v) =~= seq![es[i as int]] + insert_entry(
            es.skip(i + 1),
            key_v,
            val_v,
        ));
        assert(es.take(i + 1) + insert_entry(es.skip(i + 1), key_v, val_v) =~= es.take(i as int)
            + insert_entry(es.skip(i as int), key_v, val_v));
        i = i + 1;
    }
    proof {
        assert(es.skip(i as int) =~= Seq::<(Seq<char>, JsonV)>::empty());
        assert(es.take(i as int) =~= es);
    }
    entries.push((key, value));
    proof {
        lemma_entry_models_of(entries@);
        assert(entry_models_of(entries@) =~= es.push((key_v, val_v)));
    }
}

impl JsonNumber {
    pub fn deep_clone(&self) -> (r: JsonNumber)
        ensures
            r.model() == self.model(),
    {
        match self {
            JsonNumber::Unsigned(u) => JsonNumber::Unsigned(*u),
            JsonNumber::Negative(i) => JsonNumber::Negative(*i),
            JsonNumber::Fractional(s) => JsonNumber::Fractional(s.clone()),
        }
    }
}

impl Json {
    /// A copy of this document with the same model.
    #[verifier::loop_isolation(false)]
    pub fn deep_clone(&self) -> (r: Json)
        ensures
            r@ == self@,
        decreases self,
    {
        match self {
            Json::Null => Json::Null,
            Json::Bool(b) => Json::Bool(*b),
            Json::Number(n) => Json::Number(n.deep_clone()),
            Json::Str(s) => Json::Str(s.clone()),
            Json::Array(items) => {
                let mut out: Vec<Json> = Vec::new();
                let mut i: usize = 0;
                while i < items.len()
                    invariant
                        i <= items.len(),
                        out.len() == i,
                        forall|j: int| 0 <= j < i ==> #[trigger] out@[j].model() == items@[j].model(),
                    decreases items.len() - i,
                {
                    let c = items[i].deep_clone();
                    out.push(c);
                    i = i + 1;
                }
                proof {
                    lemma_models_of(out@);
                    lemma_models_of(items@);
                    assert(models_of(out@) =~= models_of(items@));
                }
                Json::Array(out)
            },
            Json::Object(entries) => {
                let mut out: Vec<(String, Json)> = Vec::new();
                let mut i: usize = 0;
                while i < entries.len()
                    invariant
                        i <= entries.len(),
                        out.len() == i,
                        forall|j: int|
                            0 <= j < i ==> #[trigger] out@[j].0@ == entries@[j].0@ && out@[j].1.model()
                                == entries@[j].1.model(),
                    decreases entries.len() - i,
                {
                    let k = entries[i].0.clone();
                    let v = entries[i].1.deep_clone();
                    out.push((k, v));
                    i = i + 1;
                }
                proof {
                    lemma_entry_models_of(out@);
                    lemma_entry_models_of(entries@);
                    assert(entry_models_of(out@) =~= entry_models_of(entries@));
                }
                Json::Object(out)
            },
        }
    }

    /// The member `key` of an object.
    pub fn get(&self, key: &str) -> (r: Option<&Json>)
        ensures
            match r {
                Some(v) => self@.get(key@) == Some(v@),
                None => self@.get(key@) is None,
            },
    {
        match self {
            Json::Object(entries) => {
                let k = key.to_owned();
                let mut i: usize = 0;
                proof {
                    lemma_entry_models_of(entries@);
                    assert(entry_models_of(entries@).skip(0) =~= entry_models_of(entries@));
                }
                while i < entries.len()
                    invariant
                        i <= entries.len(),
                        k@ == key@,
                        self@ == JsonV::Object(entry_models_of(entries@)),
                        entry_models_of(entries@).len() == entries@.len(),
                        forall|j: int|
                            0 <= j < entries.len() ==> #[trigger] entry_models_of(entries@)[j] == (
                                entries@[j].0@,
                                entries@[j].1.model(),
                            ),
                        lookup(entry_models_of(entries@), key@) == lookup(
                            entry_models_of(entries@).skip(i as int),
                            key@,
                        ),
                    decreases entries.len() - i,
                {
                    let ghost es = entry_models_of(entries@);
                    assert(es.skip(i as int).drop_first() =~= es.skip(i + 1));
                    assert(es.skip(i as int)[0] == es[i as int]);
                    if entries[i].0 == k {
                        assert(es.skip(i as int).len() > 0);
                        assert(lookup(es.skip(i as int), key@) == Some(entries@[i as int].1.model()));
                        return Some(&entries[i].1);
                    }
                    i = i + 1;
                }
                None
            },
            _ => None,
        }
    }

    /// Sets member `key` to `value` where this is an object (`Map::insert`); else does nothing.
    pub fn insert(&mut self, key: String, value: Json)
        ensures
            final(self)@ == old(self)@.insert(key@, value@),
    {
        let mut taken = Json::Null;
        std::mem::swap(self, &mut taken);
        match taken {
            Json::Object(mut entries) => {
                insert_into(&mut entries, key, value);
                *self = Json::Object(entries);
            },
            other => {
                *self = other;
            },
        }
    }

    pub fn as_str(&self) -> (r: Option<&String>)
        ensures
            match r {
                Some(s) => self@.as_str() == Some(s@),
                None => self@.as_str() is None,
            },
    {
        match self {
            Json::Str(s) => Some(s),
            _ => None,
        }
    }

    pub fn as_bool(&self) -> (r: Option<bool>)
        ensures
            r == self@.as_bool(),
    {
        match self {
            Json::Bool(b) => Some(*b),
            _ => None,
        }
    }

    pub fn as_u64(&self) -> (r: Option<u64>)
        ensures
            r == self@.as_u64(),
    {
        match self {
            Json::Number(JsonNumber::Unsigned(u)) => Some(*u),
            _ => None,
        }
    }

    /// The string member `key`, if there is one.
    pub fn get_str(&self, key: &str) -> (r: Option<&String>)
        ensures
            match r {
                Some(s) => get_str(self@, key@) == Some(s@),
                None => get_str(self@, key@) is None,
            },
    {
        match self.get(key) {
            Some(v) => v.as_str(),
            None => None,
        }
    }

    /// The boolean member `key`, if there is one.
    pub fn get_bool(&self, key: &str) -> (r: Option<bool>)
        ensures
            r == get_bool(self@, key@),
    {
        match self.get(key) {
            Some(v) => v.as_bool(),
            None => None,
        }
    }

    /// The `u64` member `key`, if there is one.
    pub fn get_u64(&self, key: &str) -> (r: Option<u64>)
        ensures
            r == get_u64(self@, key@),
    {
        match self.get(key) {
            Some(v) => v.as_u64(),
            None => None,
        }
    }

    /// The array member `key`, if there is one.
    pub fn get_array(&self, key: &str) -> (r: Option<&Vec<Json>>)
        ensures
            match r {
                Some(items) => get_array(self@, key@) == Some(models_of(items@)),
                None => get_array(self@, key@) is None,
            },
    {
        match self.get(key) {
            Some(v) => v.as_array(),
            None => None,
        }
    }

    pub fn as_array(&self) -> (r: Option<&Vec<Json>>)
        ensures
            match r {
                Some(items) => self@.as_array() == Some(models_of(items@)),
                None => self@.as_array() is None,
            },
    {
        match self {
            Json::Array(items) => Some(items),
            _ => None,
        }
    }
}

} // verus!
