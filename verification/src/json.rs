//! JSON values: what `serde_json` holds, as a tree, and the reads and writes
//! that the rest of the crate makes of it.

use vstd::prelude::*;

verus! {

/// A JSON value as a mathematical tree.
pub enum Json {
    Null,
    Bool(bool),
    /// A non-negative integer that fits in 64 bits.
    Unsigned(u64),
    /// A negative integer that fits in 64 bits.
    Negative(i64),
    /// Any other number, as it is written out.
    Real(Seq<char>),
    Text(Seq<char>),
    Array(Seq<Json>),
    Object(Map<Seq<char>, Json>),
}

impl Json {
    /// The member `key` of an object; nothing else has members.
    pub open spec fn member(self, key: Seq<char>) -> Option<Json> {
        match self {
            Json::Object(m) => if m.dom().contains(key) {
                Some(m[key])
            } else {
                None
            },
            _ => None,
        }
    }

    /// The characters of a text; nothing else has any.
    pub open spec fn text(self) -> Option<Seq<char>> {
        match self {
            Json::Text(s) => Some(s),
            _ => None,
        }
    }

    /// The characters of the member `key`, where it is a text.
    pub open spec fn text_member(self, key: Seq<char>) -> Option<Seq<char>> {
        match self.member(key) {
            Some(v) => v.text(),
            None => None,
        }
    }

    /// The items of an array; nothing else has any.
    pub open spec fn items(self) -> Option<Seq<Json>> {
        match self {
            Json::Array(a) => Some(a),
            _ => None,
        }
    }

    /// The items of the member `key`, where it is an array.
    pub open spec fn items_member(self, key: Seq<char>) -> Option<Seq<Json>> {
        match self.member(key) {
            Some(v) => v.items(),
            None => None,
        }
    }

    /// The truth value of the member `key`, where it is one.
    pub open spec fn bool_member(self, key: Seq<char>) -> Option<bool> {
        match self.member(key) {
            Some(Json::Bool(b)) => Some(b),
            _ => None,
        }
    }

    /// The non-negative integer of the member `key`, where it is one.
    pub open spec fn unsigned_member(self, key: Seq<char>) -> Option<u64> {
        match self.member(key) {
            Some(Json::Unsigned(n)) => Some(n),
            _ => None,
        }
    }
}

/// What a missing text stands for.
pub open spec fn or_empty(s: Option<Seq<char>>) -> Seq<char> {
    match s {
        Some(t) => t,
        None => Seq::empty(),
    }
}

#[verifier::external_type_specification]
#[verifier::external_body]
pub struct ExValue(serde_json::Value);

/// What a `serde_json::Value` holds.
pub uninterp spec fn contents(v: serde_json::Value) -> Json;

/// What an optional value holds.
pub open spec fn contents_opt(v: Option<serde_json::Value>) -> Option<Json> {
    match v {
        Some(x) => Some(contents(x)),
        None => None,
    }
}

/// What each value of a list holds.
pub open spec fn contents_all(v: Seq<serde_json::Value>) -> Seq<Json> {
    Seq::new(v.len(), |i: int| contents(v[i]))
}

/// What `serde_json::from_str` reads out of a text, where it is JSON.
pub uninterp spec fn parsed(text: Seq<char>) -> Option<Json>;

/// The compact text of a value.
pub uninterp spec fn rendered(v: Json) -> Seq<char>;

/// `serde_json::from_str` into a `serde_json::Value`: nothing where the text is
/// not JSON.
#[verifier::external_body]
pub(crate) fn parse(text: &str) -> (r: Option<serde_json::Value>)
    ensures
        contents_opt(r) == parsed(text@),
{
    serde_json::from_str(text).ok()
}

/// The `Display` impl of `serde_json::Value`: its compact text, which is a
/// function of what the value holds.
#[verifier::external_body]
pub(crate) fn to_text(v: &serde_json::Value) -> (r: String)
    ensures
        r@ == rendered(contents(*v)),
{
    v.to_string()
}

/// The `Clone` impl of `serde_json::Value`: a value that holds the same.
#[verifier::external_body]
pub(crate) fn copy_value(v: &serde_json::Value) -> (r: serde_json::Value)
    ensures
        contents(r) == contents(*v),
{
    v.clone()
}

/// `serde_json::Value::get` with a string key: the member of that name, where
/// the value is an object that has one.
#[verifier::external_body]
pub(crate) fn get<'a>(v: &'a serde_json::Value, key: &str) -> (r: Option<&'a serde_json::Value>)
    ensures
        r is Some == contents(*v).member(key@) is Some,
        r matches Some(m) ==> contents(*m) == contents(*v).member(key@)->0,
{
    v.get(key)
}

/// `serde_json::Value::as_str`: the text, where the value is one.
#[verifier::external_body]
pub(crate) fn as_str<'a>(v: &'a serde_json::Value) -> (r: Option<&'a str>)
    ensures
        r is Some == contents(*v).text() is Some,
        r matches Some(s) ==> s@ == contents(*v).text()->0,
{
    v.as_str()
}

/// `serde_json::Value::as_array`: the items, where the value is an array.
#[verifier::external_body]
pub(crate) fn as_array<'a>(v: &'a serde_json::Value) -> (r: Option<&'a Vec<serde_json::Value>>)
    ensures
        r is Some == contents(*v).items() is Some,
        r matches Some(a) ==> contents_all(a@) == contents(*v).items()->0,
{
    v.as_array()
}

/// `serde_json::Value::as_bool`: the truth value, where the value is one.
#[verifier::external_body]
pub(crate) fn as_bool(v: &serde_json::Value) -> (r: Option<bool>)
    ensures
        r == (match contents(*v) {
            Json::Bool(b) => Some(b),
            _ => None,
        }),
{
    v.as_bool()
}

/// `serde_json::Value::as_u64`: the integer, where the value is a non-negative
/// integer that fits.
#[verifier::external_body]
pub(crate) fn as_u64(v: &serde_json::Value) -> (r: Option<u64>)
    ensures
        r == (match contents(*v) {
            Json::Unsigned(n) => Some(n),
            _ => None,
        }),
{
    v.as_u64()
}

/// Code-point order on texts: the first difference decides, and a proper
/// prefix comes first.
pub open spec fn text_before(a: Seq<char>, b: Seq<char>) -> bool {
    exists|k: int|
        0 <= k <= a.len() && k < b.len() && a.take(k) == b.take(k) && (k == a.len() || a[k] < b[k])
}

/// Whether `names` are the texts of `set`, each once, in ascending code-point
/// order.
pub open spec fn lists(names: Seq<Seq<char>>, set: Set<Seq<char>>) -> bool {
    &&& names.to_set() == set
    &&& forall|i: int, j: int|
        0 <= i < j < names.len() ==> text_before(#[trigger] names[i], #[trigger] names[j])
}

/// The member names of an object, in ascending code-point order.
pub open spec fn member_names(m: Map<Seq<char>, Json>) -> Seq<Seq<char>> {
    choose|names: Seq<Seq<char>>| lists(names, m.dom())
}

proof fn lemma_one_before(a: Seq<char>, b: Seq<char>)
    requires
        text_before(a, b),
    ensures
        !text_before(b, a),
        a != b,
{
    let k = choose|k: int|
        0 <= k <= a.len() && k < b.len() && a.take(k) == b.take(k) && (k == a.len() || a[k] < b[k]);
    if text_before(b, a) {
        let j = choose|j: int|
            0 <= j <= b.len() && j < a.len() && b.take(j) == a.take(j) && (j == b.len() || b[j]
                < a[j]);
        if k < j {
            assert(a.take(j)[k] == b.take(j)[k]);
        } else if j < k {
            assert(a.take(k)[j] == b.take(k)[j]);
        }
    }
}

proof fn lemma_listed_at(a: Seq<Seq<char>>, b: Seq<Seq<char>>, set: Set<Seq<char>>, i: int)
    requires
        lists(a, set),
        lists(b, set),
        0 <= i < a.len(),
    ensures
        i < b.len(),
        a[i] == b[i],
    decreases i,
{
    assert forall|j: int| 0 <= j < i implies j < b.len() && a[j] == b[j] by {
        lemma_listed_at(a, b, set, j);
    }
    assert(a.to_set().contains(a[i]));
    assert(b.to_set().contains(a[i]));
    let p = choose|p: int| 0 <= p < b.len() && b[p] == a[i];
    if p < i {
        assert(a[p] == b[p]);
        lemma_one_before(a[p], a[i]);
    }
    if p > i {
        assert(b.to_set().contains(b[i]));
        assert(a.to_set().contains(b[i]));
        let q = choose|q: int| 0 <= q < a.len() && a[q] == b[i];
        lemma_one_before(b[i], b[p]);
        if q < i {
            assert(a[q] == b[q]);
            lemma_one_before(b[q], b[i]);
        } else if q > i {
            assert(text_before(a[i], a[q]));
        }
    }
}

/// There is one way to list the texts of a set in order.
pub proof fn law_member_names_are_listed(names: Seq<Seq<char>>, m: Map<Seq<char>, Json>)
    requires
        lists(names, m.dom()),
    ensures
        member_names(m) == names,
{
    let other = member_names(m);
    assert(lists(other, m.dom()));
    assert forall|i: int| 0 <= i < names.len() implies i < other.len() && names[i] == other[i] by {
        lemma_listed_at(names, other, m.dom(), i);
    }
    if other.len() > names.len() {
        lemma_listed_at(other, names, m.dom(), names.len() as int);
    }
    if names.len() > other.len() {
        lemma_listed_at(names, other, m.dom(), other.len() as int);
    }
    assert(names =~= other);
}

/// `serde_json::Map::keys` of a value's object: its member names, each once, in
/// ascending code-point order, since the map is a `BTreeMap` over strings.
#[verifier::external_body]
fn map_keys(v: &serde_json::Value) -> (r: Option<Vec<String>>)
    ensures
        r is Some == contents(*v) is Object,
        r matches Some(ks) ==> lists(ks.deep_view(), contents(*v)->Object_0.dom()),
{
    v.as_object().map(|m| m.keys().cloned().collect())
}

/// The member names of a value's object.
pub(crate) fn object_keys(v: &serde_json::Value) -> (r: Option<Vec<String>>)
    ensures
        r is Some == contents(*v) is Object,
        r matches Some(ks) ==> ks.deep_view() == member_names(contents(*v)->Object_0),
{
    let r = map_keys(v);
    proof {
        if let Some(ks) = &r {
            law_member_names_are_listed(ks.deep_view(), contents(*v)->Object_0);
        }
    }
    r
}

/// `serde_json::Value::default`: the null value.
#[verifier::external_body]
pub(crate) fn null_value() -> (r: serde_json::Value)
    ensures
        contents(r) == Json::Null,
{
    serde_json::Value::default()
}

/// `serde_json::Value::from` a string.
#[verifier::external_body]
pub(crate) fn text_value(s: &str) -> (r: serde_json::Value)
    ensures
        contents(r) == Json::Text(s@),
{
    serde_json::Value::from(s)
}

/// `serde_json::Value::from` a list of values.
#[verifier::external_body]
pub(crate) fn array_value(items: Vec<serde_json::Value>) -> (r: serde_json::Value)
    ensures
        contents(r) == Json::Array(contents_all(items@)),
{
    serde_json::Value::from(items)
}

/// `serde_json::Map::new` as a value: an object without members.
#[verifier::external_body]
pub(crate) fn empty_object() -> (r: serde_json::Value)
    ensures
        contents(r) == Json::Object(Map::empty()),
{
    serde_json::Value::Object(serde_json::Map::new())
}

/// Assignment through the `IndexMut` impl of `serde_json::Value` with a string
/// key: on an object it sets the member of that name.
#[verifier::external_body]
pub(crate) fn set_member(v: &mut serde_json::Value, key: &str, x: serde_json::Value)
    requires
        contents(*old(v)) is Object,
    ensures
        contents(*final(v)) == Json::Object(contents(*old(v))->Object_0.insert(key@, contents(x))),
{
    v[key] = x;
}

/// The text of the member `key`, where it is one.
pub fn member_text<'a>(v: &'a serde_json::Value, key: &str) -> (r: Option<&'a str>)
    ensures
        r is Some == contents(*v).text_member(key@) is Some,
        r matches Some(s) ==> s@ == contents(*v).text_member(key@)->0,
{
    match get(v, key) {
        Some(m) => as_str(m),
        None => None,
    }
}

/// The text of the member `key`, owned, where it is one.
pub fn member_string(v: &serde_json::Value, key: &str) -> (r: Option<String>)
    ensures
        r.deep_view() == contents(*v).text_member(key@),
{
    match member_text(v, key) {
        Some(s) => Some(s.to_owned()),
        None => None,
    }
}

/// The text of the member `key`, or the empty text.
pub fn member_or_empty(v: &serde_json::Value, key: &str) -> (r: String)
    ensures
        r@ == or_empty(contents(*v).text_member(key@)),
{
    match member_text(v, key) {
        Some(s) => s.to_owned(),
        None => String::new(),
    }
}

/// The items of the member `key`, where it is an array.
pub fn member_array<'a>(v: &'a serde_json::Value, key: &str) -> (r: Option<
    &'a Vec<serde_json::Value>,
>)
    ensures
        r is Some == contents(*v).items_member(key@) is Some,
        r matches Some(a) ==> contents_all(a@) == contents(*v).items_member(key@)->0,
{
    match get(v, key) {
        Some(m) => as_array(m),
        None => None,
    }
}

/// The truth value of the member `key`, where it is one.
pub fn member_bool(v: &serde_json::Value, key: &str) -> (r: Option<bool>)
    ensures
        r == contents(*v).bool_member(key@),
{
    match get(v, key) {
        Some(m) => as_bool(m),
        None => None,
    }
}

/// The non-negative integer of the member `key`, where it is one.
pub fn member_u64(v: &serde_json::Value, key: &str) -> (r: Option<u64>)
    ensures
        r == contents(*v).unsigned_member(key@),
{
    match get(v, key) {
        Some(m) => as_u64(m),
        None => None,
    }
}

/// A member is read as what it is, and not as anything else.
pub proof fn law_members_are_read_as_what_they_are(
    v: Json,
    key: Seq<char>,
    t: Seq<char>,
    items: Seq<Json>,
    b: bool,
)
    ensures
        v.text_member(key) == Some(t) <==> v.member(key) == Some(Json::Text(t)),
        v.items_member(key) == Some(items) <==> v.member(key) == Some(Json::Array(items)),
        v.bool_member(key) == Some(b) <==> v.member(key) == Some(Json::Bool(b)),
        v.member(key) is None ==> v.text_member(key) is None && v.items_member(key) is None
            && v.bool_member(key) is None && v.unsigned_member(key) is None,
        v matches Json::Object(m) ==> (v.member(key) is Some <==> m.contains_key(key)) && (
        m.contains_key(key) ==> v.member(key) == Some(m[key])),
        !(v is Object) ==> v.member(key) is None,
{
}

} // verus!
