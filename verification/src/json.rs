//! JSON values as the builder reads them from the request and writes them in
//! the response. Object entries keep their order; numbers keep their text.
use vstd::prelude::*;
use crate::assoc::{lookup, find};
use crate::text::{owned};

verus! {

broadcast use vstd::std_specs::vec::group_vec_axioms;

/// A JSON value. An object is its entries in order, each key once; a number
/// is its JSON text.
pub enum Json {
    Null,
    Bool(bool),
    Number(String),
    Str(String),
    Array(Vec<Json>),
    Object(Vec<(String, Json)>),
}

/// The mathematical value of a `Json`: strings as their characters.
pub enum JsonModel {
    Null,
    Bool(bool),
    Number(Seq<char>),
    Str(Seq<char>),
    Array(Seq<JsonModel>),
    Object(Seq<(Seq<char>, JsonModel)>),
}

impl Json {
    pub open spec fn model(self) -> JsonModel
        decreases self, 0nat,
    {
        match self {
            Json::Null => JsonModel::Null,
            Json::Bool(b) => JsonModel::Bool(b),
            Json::Number(t) => JsonModel::Number(t@),
            Json::Str(s) => JsonModel::Str(s@),
            Json::Array(a) => JsonModel::Array(models(a@, a@.len())),
            Json::Object(m) => JsonModel::Object(entry_models(m@, m@.len())),
        }
    }
}

/// Models of the first `n` values.
pub open spec fn models(s: Seq<Json>, n: nat) -> Seq<JsonModel>
    decreases s, n,
{
    if n == 0 || n > s.len() {
        Seq::empty()
    } else {
        models(s, (n - 1) as nat).push(s[n - 1].model())
    }
}

/// Models of the first `n` object entries.
pub open spec fn entry_models(s: Seq<(String, Json)>, n: nat) -> Seq<(Seq<char>, JsonModel)>
    decreases s, n,
{
    if n == 0 || n > s.len() {
        Seq::empty()
    } else {
        entry_models(s, (n - 1) as nat).push((s[n - 1].0@, s[n - 1].1.model()))
    }
}

impl View for Json {
    type V = JsonModel;

    open spec fn view(&self) -> JsonModel {
        self.model()
    }
}

pub proof fn lemma_models(s: Seq<Json>, n: nat)
    requires
        n <= s.len(),
    ensures
        models(s, n).len() == n,
        forall|i: int| 0 <= i < n ==> #[trigger] models(s, n)[i] == s[i].model(),
    decreases n,
{
    if n > 0 {
        lemma_models(s, (n - 1) as nat);
    }
}

pub proof fn lemma_entry_models(s: Seq<(String, Json)>, n: nat)
    requires
        n <= s.len(),
    ensures
        entry_models(s, n).len() == n,
        forall|i: int|
            0 <= i < n ==> #[trigger] entry_models(s, n)[i] == (s[i].0@, s[i].1.model()),
    decreases n,
{
    if n > 0 {
        lemma_entry_models(s, (n - 1) as nat);
    }
}

/// The models of an array's items.
pub open spec fn items_model(a: Seq<Json>) -> Seq<JsonModel> {
    models(a, a.len())
}

/// The models of an object's entries.
pub open spec fn entries_model(m: Seq<(String, Json)>) -> Seq<(Seq<char>, JsonModel)> {
    entry_models(m, m.len())
}

// ---------------------------------------------------------------------------
// Reading values
// ---------------------------------------------------------------------------

/// The member `k` of an object (the first entry with that key).
pub open spec fn member(v: Json, k: Seq<char>) -> Option<Json> {
    match v {
        Json::Object(m) => lookup(m@, k),
        _ => None,
    }
}

/// `v[k]`: the member `k`, or `null` when `v` is no object or lacks it.
pub open spec fn at(v: Json, k: Seq<char>) -> Json {
    match member(v, k) {
        Some(x) => x,
        None => Json::Null,
    }
}

pub open spec fn str_of(v: Json) -> Option<Seq<char>> {
    match v {
        Json::Str(s) => Some(s@),
        _ => None,
    }
}

/// `v.as_str().unwrap_or("")`.
pub open spec fn str_or_empty(v: Json) -> Seq<char> {
    match v {
        Json::Str(s) => s@,
        _ => Seq::empty(),
    }
}

pub open spec fn bool_of(v: Json) -> Option<bool> {
    match v {
        Json::Bool(b) => Some(b),
        _ => None,
    }
}

/// `v.as_bool().unwrap_or(false)`.
pub open spec fn truthy(v: Json) -> bool {
    match v {
        Json::Bool(b) => b,
        _ => false,
    }
}

pub open spec fn is_digit(c: char) -> bool {
    '0' <= c <= '9'
}

/// The value of a string of decimal digits.
pub open spec fn digits_value(s: Seq<char>) -> nat
    decreases s.len(),
{
    if s.len() == 0 {
        0
    } else {
        digits_value(s.drop_last()) * 10 + (s.last() as nat - 48) as nat
    }
}

/// `v.as_u64()`: a number written as plain decimal digits whose value fits
/// in `u64` (a JSON number with a sign, a fraction or an exponent has none).
pub open spec fn u64_of(v: Json) -> Option<nat> {
    match v {
        Json::Number(t) => if t@.len() > 0 && (forall|i: int|
            0 <= i < t@.len() ==> is_digit(#[trigger] t@[i])) && digits_value(t@) <= u64::MAX {
            Some(digits_value(t@))
        } else {
            None
        },
        _ => None,
    }
}

impl Json {
    pub fn get(&self, k: &str) -> (r: Option<&Json>)
        ensures
            match r {
                Some(x) => member(*self, k@) == Some(*x),
                None => member(*self, k@) is None,
            },
    {
        match self {
            Json::Object(m) => find(m, k),
            _ => None,
        }
    }

    pub fn as_str(&self) -> (r: Option<&str>)
        ensures
            match r {
                Some(x) => str_of(*self) == Some(x@),
                None => str_of(*self) is None,
            },
    {
        match self {
            Json::Str(s) => Some(s.as_str()),
            _ => None,
        }
    }

    pub fn as_bool(&self) -> (r: Option<bool>)
        ensures
            r == bool_of(*self),
    {
        match self {
            Json::Bool(b) => Some(*b),
            _ => None,
        }
    }

    pub fn is_object(&self) -> (r: bool)
        ensures
            r == (*self is Object),
    {
        match self {
            Json::Object(_) => true,
            _ => false,
        }
    }

    pub fn as_u64(&self) -> (r: Option<u64>)
        ensures
            match r {
                Some(n) => u64_of(*self) == Some(n as nat),
                None => u64_of(*self) is None,
            },
    {
        match self {
            Json::Number(t) => {
                let ghost text = t@;
                let mut value: u64 = 0;
                let mut fits = true;
                let mut digits = true;
                let mut nonempty = false;
                for c in it: t.as_str().chars()
                    invariant
                        it.seq() == text,
                        nonempty == (it.index() > 0),
                        digits == (forall|i: int|
                            0 <= i < it.index() ==> is_digit(#[trigger] text[i])),
                        digits && fits ==> value == digits_value(text.take(it.index() as int)),
                        digits && !fits ==> digits_value(text.take(it.index() as int))
                            > u64::MAX,
                {
                    let ghost i = it.index() as int;
                    assert(text.take(i + 1).drop_last() =~= text.take(i));
                    if digits && '0' <= c && c <= '9' {
                        let d = (c as u32 - 48) as u64;
                        if fits && value <= (u64::MAX - d) / 10 {
                            value = value * 10 + d;
                        } else {
                            fits = false;
                        }
                    } else {
                        digits = false;
                    }
                    nonempty = true;
                }
                assert(text.take(text.len() as int) =~= text);
                if nonempty && digits && fits {
                    Some(value)
                } else {
                    None
                }
            },
            _ => None,
        }
    }
}

/// The text of `v` when it is a string, else the empty string.
pub fn s(v: &Json) -> (r: &str)
    ensures
        r@ == str_or_empty(*v),
{
    match v {
        Json::Str(x) => x.as_str(),
        _ => {
            proof {
                reveal_strlit("");
            }
            ""
        },
    }
}

/// The value of `v` when it is a boolean, else `false`.
pub fn b(v: &Json) -> (r: bool)
    ensures
        r == truthy(*v),
{
    match v {
        Json::Bool(x) => *x,
        _ => false,
    }
}

/// A copy of `v`.
pub fn copy(v: &Json) -> (r: Json)
    ensures
        r@ == v@,
    decreases v,
{
    match v {
        Json::Null => Json::Null,
        Json::Bool(x) => Json::Bool(*x),
        Json::Number(t) => Json::Number(owned(t.as_str())),
        Json::Str(x) => Json::Str(owned(x.as_str())),
        Json::Array(a) => {
            let mut out: Vec<Json> = Vec::new();
            let n = a.len();
            let mut i: usize = 0;
            while i < n
                invariant
                    i <= n == a@.len(),
                    *v == Json::Array(*a),
                    out@.len() == i,
                    forall|j: int| 0 <= j < i ==> (#[trigger] out@[j])@ == a@[j]@,
                decreases n - i,
            {
                proof {
                    assert(decreases_to!(*v => (*v)->Array_0));
                    assert(decreases_to!(*a => a@));
                    assert(decreases_to!(a@ => a@[i as int]));
                    assert(decreases_to!(*v => a@[i as int]));
                }
                out.push(copy(&a[i]));
                i = i + 1;
            }
            proof {
                lemma_models(out@, n as nat);
                lemma_models(a@, n as nat);
                assert(models(out@, n as nat) =~= models(a@, n as nat));
            }
            Json::Array(out)
        },
        Json::Object(m) => {
            let mut out: Vec<(String, Json)> = Vec::new();
            let n = m.len();
            let mut i: usize = 0;
            while i < n
                invariant
                    i <= n == m@.len(),
                    *v == Json::Object(*m),
                    out@.len() == i,
                    forall|j: int|
                        0 <= j < i ==> (#[trigger] out@[j]).0@ == m@[j].0@ && out@[j].1@
                            == m@[j].1@,
                decreases n - i,
            {
                proof {
                    assert(decreases_to!(*v => (*v)->Object_0));
                    assert(decreases_to!(*m => m@));
                    assert(decreases_to!(m@ => m@[i as int]));
                    assert(decreases_to!(m@[i as int] => m@[i as int].1));
                    assert(decreases_to!(*v => m@[i as int].1));
                }
                out.push((owned(m[i].0.as_str()), copy(&m[i].1)));
                i = i + 1;
            }
            proof {
                lemma_entry_models(out@, n as nat);
                lemma_entry_models(m@, n as nat);
                assert(entry_models(out@, n as nat) =~= entry_models(m@, n as nat));
            }
            Json::Object(out)
        },
    }
}


pub proof fn lemma_entries_model_push(m: Seq<(String, Json)>, x: (String, Json))
    ensures
        entries_model(m.push(x)) == entries_model(m).push((x.0@, x.1@)),
{
    lemma_entry_models(m.push(x), (m.len() + 1) as nat);
    lemma_entry_models(m, m.len());
    assert(entries_model(m.push(x)) =~= entries_model(m).push((x.0@, x.1@)));
}

pub proof fn lemma_items_model_push(a: Seq<Json>, x: Json)
    ensures
        items_model(a.push(x)) == items_model(a).push(x@),
{
    lemma_models(a.push(x), (a.len() + 1) as nat);
    lemma_models(a, a.len());
    assert(items_model(a.push(x)) =~= items_model(a).push(x@));
}

/// The entries of a JSON object are their keys with the models of their values.
pub proof fn lemma_entries_view_model(m: Seq<(String, Json)>)
    ensures
        crate::assoc::entries_view(m) == entries_model(m),
{
    lemma_entry_models(m, m.len());
    assert(crate::assoc::entries_view(m) =~= entries_model(m));
}

/// Appends a member to an object's entries.
pub fn push_member(m: &mut Vec<(String, Json)>, k: &str, v: Json)
    ensures
        entries_model(final(m)@) == entries_model(old(m)@).push((k@, v@)),
{
    let key = String::from_str(k);
    proof {
        lemma_entries_model_push(m@, (key, v));
    }
    m.push((key, v));
}

/// Appends an item to an array's items.
pub fn push_item(a: &mut Vec<Json>, v: Json)
    ensures
        items_model(final(a)@) == items_model(old(a)@).push(v@),
{
    proof {
        lemma_items_model_push(a@, v);
    }
    a.push(v);
}

/// A JSON string holding a copy of `s`.
pub fn string(s: &str) -> (r: Json)
    ensures
        r@ == JsonModel::Str(s@),
{
    Json::Str(owned(s))
}

} // verus!
