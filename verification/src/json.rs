//! A JSON value, as the library's own data type, with a mathematical model.
//!
//! Frames, configuration records and tool results all travel as JSON. The
//! executable type `Json` holds a parsed document as plain values; its view
//! is the ghost `JsonModel`, over which every contract in the crate speaks.
//! A number is kept as a signed or unsigned integer when it is one, and
//! otherwise as the decimal text it was written with.

use vstd::prelude::*;

verus! {

/// An executable JSON value.
pub enum Json {
    Null,
    Bool(bool),
    /// A negative integer.
    Int(i64),
    /// A non-negative integer.
    UInt(u64),
    /// A number that is not an integer, as its decimal text.
    NumText(String),
    Str(String),
    Arr(Vec<Json>),
    /// Object members in document order; keys are unique.
    Obj(Vec<(String, Json)>),
}

/// The mathematical model of a JSON value.
#[verifier::ext_equal]
pub enum JsonModel {
    Null,
    Bool(bool),
    Int(i64),
    UInt(u64),
    NumText(Seq<char>),
    Str(Seq<char>),
    Arr(Seq<JsonModel>),
    Obj(Seq<(Seq<char>, JsonModel)>),
}

/// The model of each element of a sequence of JSON values.
pub open spec fn models_of(s: Seq<Json>) -> Seq<JsonModel>
    decreases s,
{
    if s.len() == 0 {
        Seq::<JsonModel>::empty()
    } else {
        seq![model_of(s[0])] + models_of(s.subrange(1, s.len() as int))
    }
}

/// The model of each member of an object: the key's characters and the
/// value's model, in document order.
pub open spec fn entry_models_of(s: Seq<(String, Json)>) -> Seq<(Seq<char>, JsonModel)>
    decreases s,
{
    if s.len() == 0 {
        Seq::<(Seq<char>, JsonModel)>::empty()
    } else {
        seq![(s[0].0@, model_of(s[0].1))] + entry_models_of(s.subrange(1, s.len() as int))
    }
}

/// `models_of` maps the sequence element by element.
pub broadcast proof fn lemma_models_of(s: Seq<Json>)
    ensures
        (#[trigger] models_of(s)).len() == s.len(),
        forall|i: int| 0 <= i < s.len() ==> models_of(s)[i] == model_of(s[i]),
    decreases s.len(),
{
    if s.len() > 0 {
        lemma_models_of(s.subrange(1, s.len() as int));
    }
}

/// `entry_models_of` maps the members element by element.
pub broadcast proof fn lemma_entry_models_of(s: Seq<(String, Json)>)
    ensures
        (#[trigger] entry_models_of(s)).len() == s.len(),
        forall|i: int|
            0 <= i < s.len() ==> entry_models_of(s)[i] == (s[i].0@, model_of(s[i].1)),
    decreases s.len(),
{
    if s.len() > 0 {
        lemma_entry_models_of(s.subrange(1, s.len() as int));
    }
}

/// The model of a JSON value.
pub open spec fn model_of(j: Json) -> JsonModel
    decreases j,
{
    match j {
        Json::Null => JsonModel::Null,
        Json::Bool(b) => JsonModel::Bool(b),
        Json::Int(n) => JsonModel::Int(n),
        Json::UInt(n) => JsonModel::UInt(n),
        Json::NumText(t) => JsonModel::NumText(t@),
        Json::Str(s) => JsonModel::Str(s@),
        Json::Arr(v) => JsonModel::Arr(models_of(v@)),
        Json::Obj(v) => JsonModel::Obj(entry_models_of(v@)),
    }
}

impl View for Json {
    type V = JsonModel;

    open spec fn view(&self) -> JsonModel {
        model_of(*self)
    }
}

/// The value under `key` among the members of an object, from member `i`
/// on: the first member with that key decides.
pub open spec fn member_from(
    entries: Seq<(Seq<char>, JsonModel)>,
    key: Seq<char>,
    i: int,
) -> Option<JsonModel>
    decreases entries.len() - i,
{
    if i < 0 || i >= entries.len() {
        None
    } else if entries[i].0 == key {
        Some(entries[i].1)
    } else {
        member_from(entries, key, i + 1)
    }
}

/// The value under `key` in a JSON value: `None` unless the value is an
/// object with such a member.
pub open spec fn member(m: JsonModel, key: Seq<char>) -> Option<JsonModel> {
    match m {
        JsonModel::Obj(entries) => member_from(entries, key, 0),
        _ => None,
    }
}

/// Relies on `&str` equality of std: true exactly when the two sides hold
/// the same characters.
#[verifier::external_body]
pub fn str_eq(a: &str, b: &str) -> (r: bool)
    ensures
        r == (a@ == b@),
{
    a == b
}

impl Json {
    /// The value under `key`, when this value is an object that has one.
    pub fn get<'a>(&'a self, key: &str) -> (r: Option<&'a Json>)
        ensures
            match r {
                Some(v) => member(self@, key@) == Some(v@),
                None => member(self@, key@) is None,
            },
    {
        match self {
            Json::Obj(entries) => {
                let ghost ms = entry_models_of(entries@);
                proof {
                    lemma_entry_models_of(entries@);
                }
                let n = entries.len();
                for i in 0..n
                    invariant
                        n == entries.len(),
                        ms == entry_models_of(entries@),
                        self@ == JsonModel::Obj(ms),
                        member(self@, key@) == member_from(ms, key@, i as int),
                {
                    proof {
                        lemma_entry_models_of(entries@);
                        assert(ms[i as int] == (entries@[i as int].0@, model_of(
                            entries@[i as int].1,
                        )));
                    }
                    if str_eq(entries[i].0.as_str(), key) {
                        return Some(&entries[i].1);
                    }
                    proof {
                        assert(member_from(ms, key@, i as int) == member_from(
                            ms,
                            key@,
                            i as int + 1,
                        ));
                    }
                }
                None
            },
            _ => None,
        }
    }

    /// True of an object, false of every other value.
    pub fn is_object(&self) -> (r: bool)
        ensures
            r == (self@ is Obj),
    {
        match self {
            Json::Obj(_) => true,
            _ => false,
        }
    }
}

/// A copy of a JSON value that holds the same data.
pub fn json_dup(j: &Json) -> (r: Json)
    ensures
        r@ == j@,
    decreases j@,
{
    match j {
        Json::Null => Json::Null,
        Json::Bool(b) => Json::Bool(*b),
        Json::Int(n) => Json::Int(*n),
        Json::UInt(n) => Json::UInt(*n),
        Json::NumText(t) => Json::NumText(t.clone()),
        Json::Str(s) => Json::Str(s.clone()),
        Json::Arr(items) => {
            let ghost ms = models_of(items@);
            proof {
                lemma_models_of(items@);
            }
            let mut out: Vec<Json> = Vec::new();
            let n = items.len();
            for i in 0..n
                invariant
                    n == items.len(),
                    ms == models_of(items@),
                    j@ == JsonModel::Arr(ms),
                    ms.len() == n,
                    forall|k: int| 0 <= k < n ==> ms[k] == #[trigger] items@[k]@,
                    out@.len() == i,
                    forall|k: int| 0 <= k < i ==> #[trigger] out@[k]@ == ms[k],
                decreases n - i,
            {
                proof {
                    assert(ms[i as int] == items@[i as int]@);
                    assert(decreases_to!(j@ => j@->Arr_0));
                    assert(decreases_to!(ms => ms[i as int]));
                }
                let d = json_dup(&items[i]);
                out.push(d);
            }
            proof {
                lemma_models_of(out@);
                assert forall|k: int| 0 <= k < n implies models_of(out@)[k] == ms[k] by {
                    assert(models_of(out@)[k] == model_of(out@[k]));
                    assert(out@[k]@ == ms[k]);
                }
                assert(models_of(out@) =~= ms);
            }
            Json::Arr(out)
        },
        Json::Obj(entries) => {
            let ghost ms = entry_models_of(entries@);
            proof {
                lemma_entry_models_of(entries@);
            }
            let mut out: Vec<(String, Json)> = Vec::new();
            let n = entries.len();
            for i in 0..n
                invariant
                    n == entries.len(),
                    ms == entry_models_of(entries@),
                    j@ == JsonModel::Obj(ms),
                    ms.len() == n,
                    forall|k: int|
                        0 <= k < n ==> ms[k] == (#[trigger] entries@[k].0@, entries@[k].1@),
                    out@.len() == i,
                    forall|k: int|
                        0 <= k < i ==> ms[k] == (#[trigger] out@[k].0@, out@[k].1@),
                decreases n - i,
            {
                proof {
                    assert(ms[i as int] == (entries@[i as int].0@, entries@[i as int].1@));
                    assert(decreases_to!(j@ => j@->Obj_0));
                    assert(decreases_to!(ms => ms[i as int]));
                    assert(decreases_to!(ms[i as int] => ms[i as int].1));
                }
                let k = entries[i].0.clone();
                let d = json_dup(&entries[i].1);
                out.push((k, d));
            }
            proof {
                lemma_entry_models_of(out@);
                assert forall|k: int| 0 <= k < n implies entry_models_of(out@)[k] == ms[k] by {
                    assert(entry_models_of(out@)[k] == (out@[k].0@, model_of(out@[k].1)));
                    assert(ms[k] == (out@[k].0@, out@[k].1@));
                }
                assert(entry_models_of(out@) =~= ms);
            }
            Json::Obj(out)
        },
    }
}

} // verus!
