//! The crate's own JSON model.
//!
//! Parsing and serialization are delegated to `serde_json` behind trusted
//! wrappers; everything that *reads* or *builds* JSON values is verified
//! code over the [`Json`] type. Contracts are stated over [`JsonView`], a
//! ghost deep view of [`Json`], so that two values with the same content are
//! interchangeable in specifications.

use vstd::prelude::*;

verus! {

broadcast use vstd::std_specs::vec::group_vec_axioms;

/// A JSON document. Numbers that fit a `u64` are kept as `UInt`, other
/// integers as `Int`, and any remaining numeric form (floats, out-of-range
/// integers) as its exact source text in `NumText`.
pub enum Json {
    Null,
    Bool(bool),
    UInt(u64),
    Int(i64),
    NumText(String),
    Str(String),
    Arr(Vec<Json>),
    Obj(Vec<(String, Json)>),
}

/// The ghost deep view of a [`Json`] value.
pub enum JsonView {
    Null,
    Bool(bool),
    UInt(u64),
    Int(i64),
    NumText(Seq<char>),
    Str(Seq<char>),
    Arr(Seq<JsonView>),
    Obj(Seq<(Seq<char>, JsonView)>),
}

impl Json {
    /// The deep view of this value.
    pub open spec fn deep(self) -> JsonView
        decreases self,
    {
        match self {
            Json::Null => JsonView::Null,
            Json::Bool(b) => JsonView::Bool(b),
            Json::UInt(u) => JsonView::UInt(u),
            Json::Int(i) => JsonView::Int(i),
            Json::NumText(s) => JsonView::NumText(s@),
            Json::Str(s) => JsonView::Str(s@),
            Json::Arr(a) => JsonView::Arr(deep_seq(a@)),
            Json::Obj(p) => JsonView::Obj(deep_pairs(p@)),
        }
    }
}

/// The deep views of the elements of `s`.
pub open spec fn deep_seq(s: Seq<Json>) -> Seq<JsonView>
    decreases s,
{
    Seq::new(
        s.len(),
        |i: int|
            if 0 <= i < s.len() {
                s[i].deep()
            } else {
                JsonView::Null
            },
    )
}

/// The deep views of the field bindings `s`.
pub open spec fn deep_pairs(s: Seq<(String, Json)>) -> Seq<(Seq<char>, JsonView)>
    decreases s,
{
    Seq::new(
        s.len(),
        |i: int|
            if 0 <= i < s.len() {
                (s[i].0@, s[i].1.deep())
            } else {
                (Seq::<char>::empty(), JsonView::Null)
            },
    )
}

/// First value bound to `key` in `pairs`, looking at positions `i` and later.
pub open spec fn jv_get_from(pairs: Seq<(Seq<char>, JsonView)>, key: Seq<char>, i: int) -> Option<
    JsonView,
>
    decreases pairs.len() - i,
{
    if i < 0 || i >= pairs.len() {
        None
    } else if pairs[i].0 == key {
        Some(pairs[i].1)
    } else {
        jv_get_from(pairs, key, i + 1)
    }
}

/// The value of field `key` of object `v` (`None` when `v` is not an object
/// or has no such field).
pub open spec fn jv_get(v: JsonView, key: Seq<char>) -> Option<JsonView> {
    match v {
        JsonView::Obj(pairs) => jv_get_from(pairs, key, 0),
        _ => None,
    }
}

/// The characters of `v` when it is a string.
pub open spec fn jv_str(v: JsonView) -> Option<Seq<char>> {
    match v {
        JsonView::Str(s) => Some(s),
        _ => None,
    }
}

/// The string field `key` of object `v`.
pub open spec fn jv_get_str(v: JsonView, key: Seq<char>) -> Option<Seq<char>> {
    match jv_get(v, key) {
        Some(x) => jv_str(x),
        None => None,
    }
}

/// A `u64` read from `v` the lenient way the protocol allows: a JSON
/// number holding an unsigned value, or a string of decimal digits.
pub open spec fn jv_u64_lenient(v: JsonView) -> Option<u64> {
    match v {
        JsonView::UInt(u) => Some(u),
        JsonView::Str(s) => crate::num::spec_parse_u64(s),
        _ => None,
    }
}

impl Json {
    /// Looks up field `key` when this value is an object.
    pub fn get<'a>(&'a self, key: &str) -> (r: Option<&'a Json>)
        ensures
            match r {
                Some(x) => jv_get(self.deep(), key@) == Some(x.deep()),
                None => jv_get(self.deep(), key@) is None,
            },
    {
        match self {
            Json::Obj(pairs) => {
                let ghost pv = self.deep()->Obj_0;
                let k: String = key.to_owned();
                let n = pairs.len();
                let mut i: usize = 0;
                while i < n
                    invariant
                        0 <= i <= n == pairs@.len(),
                        *self == Json::Obj(*pairs),
                        pv == self.deep()->Obj_0,
                        pv.len() == n,
                        forall|j: int| 0 <= j < n ==> #[trigger] pv[j] == (
                            pairs@[j].0@,
                            pairs@[j].1.deep(),
                        ),
                        k@ == key@,
                        jv_get_from(pv, key@, 0) == jv_get_from(pv, key@, i as int),
                    decreases n - i,
                {
                    let pair = &pairs[i];
                    if pair.0 == k {
                        return Some(&pair.1);
                    }
                    i = i + 1;
                }
                None
            },
            _ => None,
        }
    }

    /// The borrowed string when this value is a JSON string.
    pub fn as_str(&self) -> (r: Option<&String>)
        ensures
            match r {
                Some(s) => jv_str(self.deep()) == Some(s@),
                None => jv_str(self.deep()) is None,
            },
    {
        match self {
            Json::Str(s) => Some(s),
            _ => None,
        }
    }

    /// The string field `key` of this object.
    pub fn get_str<'a>(&'a self, key: &str) -> (r: Option<&'a String>)
        ensures
            match r {
                Some(s) => jv_get_str(self.deep(), key@) == Some(s@),
                None => jv_get_str(self.deep(), key@) is None,
            },
    {
        match self.get(key) {
            Some(x) => x.as_str(),
            None => None,
        }
    }

    /// Reads this value as a `u64` the lenient way numeric protocol
    /// fields allow (see [`jv_u64_lenient`]).
    pub fn as_u64_lenient(&self) -> (r: Option<u64>)
        ensures
            r == jv_u64_lenient(self.deep()),
    {
        match self {
            Json::UInt(u) => Some(*u),
            Json::Str(s) => {
                let chars = crate::text::chars_of(s.as_str());
                crate::num::parse_u64_chars(&chars)
            },
            _ => None,
        }
    }

    /// A deep copy of this value.
    pub fn deep_clone(&self) -> (r: Json)
        ensures
            r.deep() == self.deep(),
        decreases *self,
    {
        match self {
            Json::Null => Json::Null,
            Json::Bool(b) => Json::Bool(*b),
            Json::UInt(u) => Json::UInt(*u),
            Json::Int(i) => Json::Int(*i),
            Json::NumText(s) => Json::NumText(s.clone()),
            Json::Str(s) => Json::Str(s.clone()),
            Json::Arr(a) => {
                let n = a.len();
                let mut out: Vec<Json> = Vec::new();
                let mut i: usize = 0;
                while i < n
                    invariant
                        0 <= i <= n == a@.len(),
                        *self == Json::Arr(*a),
                        out@.len() == i,
                        forall|j: int| 0 <= j < i ==> #[trigger] out@[j].deep() == a@[j].deep(),
                    decreases n - i,
                {
                    proof {
                        assert(*a == self->Arr_0);
                        assert(decreases_to!(*self => self->Arr_0));
                        assert(decreases_to!(*a => a@));
                        assert(decreases_to!(a@ => a@[i as int]));
                    }
                    let item = &a[i];
                    out.push(item.deep_clone());
                    i = i + 1;
                }
                let ghost oview = out@;
                let r = Json::Arr(out);
                proof {
                    assert(r->Arr_0@ == oview);
                    assert forall|k: int| 0 <= k < n implies deep_seq(oview)[k] == deep_seq(a@)[k] by {
                        assert(deep_seq(oview)[k] == oview[k].deep());
                        assert(deep_seq(a@)[k] == a@[k].deep());
                    }
                    assert(deep_seq(oview) =~= deep_seq(a@));
                }
                r
            },
            Json::Obj(p) => {
                let n = p.len();
                let mut out: Vec<(String, Json)> = Vec::new();
                let mut i: usize = 0;
                while i < n
                    invariant
                        0 <= i <= n == p@.len(),
                        *self == Json::Obj(*p),
                        out@.len() == i,
                        forall|j: int| 0 <= j < i ==> #[trigger] out@[j].0@ == p@[j].0@
                            && out@[j].1.deep() == p@[j].1.deep(),
                    decreases n - i,
                {
                    proof {
                        assert(*p == self->Obj_0);
                        assert(decreases_to!(*self => self->Obj_0));
                        assert(decreases_to!(*p => p@));
                        assert(decreases_to!(p@ => p@[i as int]));
                        assert(decreases_to!(p@[i as int] => p@[i as int].1));
                    }
                    let pair = &p[i];
                    out.push((pair.0.clone(), pair.1.deep_clone()));
                    i = i + 1;
                }
                let ghost oview = out@;
                let r = Json::Obj(out);
                proof {
                    assert(r->Obj_0@ == oview);
                    assert forall|k: int| 0 <= k < n implies deep_pairs(oview)[k] == deep_pairs(
                        p@,
                    )[k] by {
                        assert(deep_pairs(oview)[k] == (oview[k].0@, oview[k].1.deep()));
                        assert(deep_pairs(p@)[k] == (p@[k].0@, p@[k].1.deep()));
                    }
                    assert(deep_pairs(oview) =~= deep_pairs(p@));
                }
                r
            },
        }
    }
}

/// `pairs` with the first binding of `key` replaced by `val`, or with
/// `(key, val)` appended when no binding exists.
pub open spec fn jv_set_from(
    pairs: Seq<(Seq<char>, JsonView)>,
    key: Seq<char>,
    val: JsonView,
    i: int,
) -> Seq<(Seq<char>, JsonView)>
    decreases pairs.len() - i,
{
    if i < 0 || i >= pairs.len() {
        pairs.push((key, val))
    } else if pairs[i].0 == key {
        pairs.update(i, (key, val))
    } else {
        jv_set_from(pairs, key, val, i + 1)
    }
}

/// Object update at the view level: replace the first binding of `key`, or
/// append one.
pub open spec fn jv_obj_set(v: JsonView, key: Seq<char>, val: JsonView) -> JsonView {
    match v {
        JsonView::Obj(pairs) => JsonView::Obj(jv_set_from(pairs, key, val, 0)),
        _ => v,
    }
}

impl Json {
    /// Returns this value with `key` bound to `val` when it is an object
    /// (replacing the first existing binding, as `serde_json`'s map insert
    /// does); any other value comes back unchanged, which is how the
    /// ingestion stamp skips non-object event lines.
    pub fn with_field(&self, key: String, val: Json) -> (r: Json)
        ensures
            r.deep() == jv_obj_set(self.deep(), key@, val.deep()),
    {
        match self {
            Json::Obj(pairs) => {
                let ghost pv = self.deep()->Obj_0;
                let n = pairs.len();
                let mut idx: usize = n;
                let mut i: usize = 0;
                while i < n
                    invariant_except_break
                        idx == n,
                        jv_set_from(pv, key@, val.deep(), 0) == jv_set_from(
                            pv,
                            key@,
                            val.deep(),
                            i as int,
                        ),
                    invariant
                        0 <= i <= n == pairs@.len(),
                        *self == Json::Obj(*pairs),
                        pv == self.deep()->Obj_0,
                        pv.len() == n,
                        forall|j: int| 0 <= j < n ==> #[trigger] pv[j] == (
                            pairs@[j].0@,
                            pairs@[j].1.deep(),
                        ),
                    ensures
                        idx <= n,
                        idx < n ==> pv[idx as int].0 == key@ && jv_set_from(pv, key@, val.deep(), 0)
                            == pv.update(idx as int, (key@, val.deep())),
                        idx == n ==> jv_set_from(pv, key@, val.deep(), 0) == pv.push(
                            (key@, val.deep()),
                        ),
                    decreases n - i,
                {
                    if pairs[i].0 == key {
                        idx = i;
                        proof {
                            assert(pv[i as int].0 == key@);
                        }
                        break;
                    }
                    i = i + 1;
                }
                let ghost target = jv_set_from(pv, key@, val.deep(), 0);
                let mut out: Vec<(String, Json)> = Vec::new();
                let mut j: usize = 0;
                let mut key_slot: Option<(String, Json)> = Some((key, val));
                let ghost kv = key@;
                let ghost vv = val.deep();
                while j < n
                    invariant
                        0 <= j <= n == pairs@.len(),
                        *self == Json::Obj(*pairs),
                        pv == self.deep()->Obj_0,
                        pv.len() == n,
                        forall|m: int| 0 <= m < n ==> #[trigger] pv[m] == (
                            pairs@[m].0@,
                            pairs@[m].1.deep(),
                        ),
                        idx <= n,
                        idx < n ==> target == pv.update(idx as int, (kv, vv)),
                        idx == n ==> target == pv.push((kv, vv)),
                        target.len() == (if idx < n { n as int } else { n + 1 }),
                        out@.len() == j,
                        forall|m: int| 0 <= m < j ==> (#[trigger] out@[m].0@, out@[m].1.deep())
                            == target[m],
                        idx < n && j <= idx ==> (key_slot matches Some(s) && s.0@ == kv
                            && s.1.deep() == vv),
                        idx < n && j > idx ==> key_slot is None,
                        idx == n ==> (key_slot matches Some(s) && s.0@ == kv && s.1.deep() == vv),
                    decreases n - j,
                {
                    if j == idx {
                        match key_slot.take() {
                            Some(kvpair) => {
                                out.push(kvpair);
                            },
                            None => {
                                proof {
                                    assert(false);
                                }
                            },
                        }
                    } else {
                        let pair = &pairs[j];
                        out.push((pair.0.clone(), pair.1.deep_clone()));
                    }
                    j = j + 1;
                }
                if idx == n {
                    match key_slot.take() {
                        Some(kvpair) => {
                            out.push(kvpair);
                        },
                        None => {
                            proof {
                                assert(false);
                            }
                        },
                    }
                }
                let ghost oview = out@;
                let r = Json::Obj(out);
                proof {
                    assert(r->Obj_0@ == oview);
                    assert(oview.len() == target.len());
                    assert forall|m: int| 0 <= m < target.len() implies deep_pairs(oview)[m]
                        == target[m] by {
                        assert(deep_pairs(oview)[m] == (oview[m].0@, oview[m].1.deep()));
                    }
                    assert(deep_pairs(oview) =~= target);
                }
                r
            },
            _ => self.deep_clone(),
        }
    }
}

/// Builds a JSON object field by field, tracking the deep view.
pub struct ObjBuilder {
    pub pairs: Vec<(String, Json)>,
}

impl ObjBuilder {
    /// The view of the object built so far.
    pub open spec fn view(self) -> Seq<(Seq<char>, JsonView)> {
        deep_pairs(self.pairs@)
    }

    /// An empty object.
    pub fn new() -> (r: ObjBuilder)
        ensures
            r.view() == Seq::<(Seq<char>, JsonView)>::empty(),
    {
        let r = ObjBuilder { pairs: Vec::new() };
        proof {
            assert(r.view() =~= Seq::<(Seq<char>, JsonView)>::empty());
        }
        r
    }

    /// Appends one field.
    pub fn field(&mut self, key: &str, val: Json)
        ensures
            final(self).view() == old(self).view().push((key@, val.deep())),
    {
        let ghost before = self.view();
        let entry = (key.to_owned(), val);
        let ghost ev = (entry.0@, entry.1.deep());
        self.pairs.push(entry);
        proof {
            assert(self.view() =~= before.push(ev));
        }
    }

    /// The finished object.
    pub fn finish(self) -> (r: Json)
        ensures
            r.deep() == JsonView::Obj(self.view()),
    {
        Json::Obj(self.pairs)
    }
}

/// Declares `serde_json::Value` so that the conversion wrappers below may
/// name it; the type stays opaque to the verifier.
#[verifier::external_type_specification]
#[verifier::external_body]
pub struct ExValue(serde_json::Value);

/// What `serde_json` parses out of a text, at the view level: `None` when
/// the text is not one valid JSON document.
pub uninterp spec fn json_of(s: Seq<char>) -> Option<JsonView>;

/// The text `serde_json` serializes a value to; a function of the value's
/// content alone.
pub uninterp spec fn json_text(v: JsonView) -> Seq<char>;

/// Relies on `serde_json::from_str::<Value>`: parses one complete JSON
/// document, deterministically in the text.
#[verifier::external_body]
pub fn parse_json(s: &str) -> (r: Option<Json>)
    ensures
        match r {
            Some(j) => json_of(s@) == Some(j.deep()),
            None => json_of(s@) is None,
        },
{
    serde_json::from_str::<serde_json::Value>(s).ok().map(json_from_value)
}

/// Relies on `serde_json`'s `Display` for `Value`: serializes a value to
/// its canonical one-line text, deterministically in the value.
#[verifier::external_body]
pub fn json_to_string(v: &Json) -> (r: String)
    ensures
        r@ == json_text(v.deep()),
{
    value_from_json(v).to_string()
}

/// Carries a parsed `serde_json::Value` into the crate's own type, variant
/// by variant; numbers that fit a `u64` or `i64` become integers, all other
/// numbers keep their exact text.
#[verifier::external_body]
fn json_from_value(v: serde_json::Value) -> Json {
    match v {
        serde_json::Value::Null => Json::Null,
        serde_json::Value::Bool(b) => Json::Bool(b),
        serde_json::Value::Number(n) => match (n.as_u64(), n.as_i64()) {
            (Some(u), _) => Json::UInt(u),
            (None, Some(i)) => Json::Int(i),
            _ => Json::NumText(n.to_string()),
        },
        serde_json::Value::String(s) => Json::Str(s),
        serde_json::Value::Array(a) => Json::Arr(a.into_iter().map(json_from_value).collect()),
        serde_json::Value::Object(o) => Json::Obj(
            o.into_iter().map(|(k, x)| (k, json_from_value(x))).collect(),
        ),
    }
}

/// Carries a value of the crate's own type back into `serde_json::Value`,
/// variant by variant, for serialization.
#[verifier::external_body]
fn value_from_json(v: &Json) -> serde_json::Value {
    match v {
        Json::Null => serde_json::Value::Null,
        Json::Bool(b) => serde_json::Value::Bool(*b),
        Json::UInt(u) => serde_json::Value::from(*u),
        Json::Int(i) => serde_json::Value::from(*i),
        Json::NumText(s) => serde_json::from_str(s).unwrap_or(serde_json::Value::Null),
        Json::Str(s) => serde_json::Value::String(s.clone()),
        Json::Arr(a) => serde_json::Value::Array(a.iter().map(value_from_json).collect()),
        Json::Obj(p) => serde_json::Value::Object(
            p.iter().map(|(k, x)| (k.clone(), value_from_json(x))).collect(),
        ),
    }
}

} // verus!
