//! JSON trees: what the host functions and the MCP server exchange.
//!
//! [`Json`] is the tree the rest of the crate reads and builds, and
//! [`JsonView`] is what such a tree means. Turning text into a tree and a tree
//! into text is serde_json's work; its results go by the names
//! [`json_parsed`] and [`json_text`] here.
use vstd::prelude::*;
use crate::text::{is_white, same};

verus! {

/// `serde_json::Value`, the tree that serde_json reads and writes.
#[verifier::external_type_specification]
#[verifier::external_body]
pub struct ExValue(serde_json::Value);

/// `serde_json::Number`, carried through for the numbers that are no integer.
#[verifier::external_type_specification]
#[verifier::external_body]
pub struct ExNumber(serde_json::Number);

/// The `Clone` of `serde_json::Number`: a copy is the same number.
pub assume_specification[ <serde_json::Number as Clone>::clone ](
    n: &serde_json::Number,
) -> (r: serde_json::Number)
    ensures
        r == *n,
;

/// A JSON tree. Of two entries of an object with the same key the later one
/// counts.
#[derive(Debug)]
pub enum Json {
    Null,
    Bool(bool),
    /// An integer that is not negative.
    PosInt(u64),
    /// An integer that fits 64 bits with a sign; serde_json's negative ones.
    NegInt(i64),
    /// A number that is no 64-bit integer.
    Float(serde_json::Number),
    String(String),
    Array(Vec<Json>),
    Object(Vec<(String, Json)>),
}

/// What a JSON tree means.
pub enum JsonView {
    Null,
    Bool(bool),
    Int(int),
    Float(serde_json::Number),
    String(Seq<char>),
    Array(Seq<JsonView>),
    Object(Map<Seq<char>, JsonView>),
}

/// What each tree of a list means.
pub open spec fn items_view(items: Seq<Json>) -> Seq<JsonView>
    decreases items,
{
    Seq::new(
        items.len(),
        |i: int|
            if 0 <= i < items.len() {
                items[i].tree()
            } else {
                arbitrary()
            },
    )
}

/// What a list of entries means: a later entry replaces an earlier one of the
/// same key.
pub open spec fn entries_view(entries: Seq<(String, Json)>) -> Map<Seq<char>, JsonView>
    decreases entries,
{
    if entries.len() == 0 {
        Map::empty()
    } else {
        entries_view(entries.drop_last()).insert(entries.last().0@, entries.last().1.tree())
    }
}

impl Json {
    /// What the tree means.
    pub open spec fn tree(&self) -> JsonView
        decreases self,
    {
        match self {
            Json::Null => JsonView::Null,
            Json::Bool(b) => JsonView::Bool(*b),
            Json::PosInt(n) => JsonView::Int(*n as int),
            Json::NegInt(n) => JsonView::Int(*n as int),
            Json::Float(n) => JsonView::Float(*n),
            Json::String(s) => JsonView::String(s@),
            Json::Array(items) => JsonView::Array(items_view(items@)),
            Json::Object(entries) => JsonView::Object(entries_view(entries@)),
        }
    }
}

impl View for Json {
    type V = JsonView;

    open spec fn view(&self) -> JsonView {
        self.tree()
    }
}

impl DeepView for Json {
    type V = JsonView;

    open spec fn deep_view(&self) -> JsonView {
        self.tree()
    }
}

impl JsonView {
    /// The value an object holds under `key`; nothing else holds one.
    pub open spec fn get(self, key: Seq<char>) -> Option<JsonView> {
        match self {
            JsonView::Object(map) => if map.dom().contains(key) {
                Some(map[key])
            } else {
                None
            },
            _ => None,
        }
    }

    /// The characters of a string.
    pub open spec fn as_str(self) -> Option<Seq<char>> {
        match self {
            JsonView::String(s) => Some(s),
            _ => None,
        }
    }

    /// The truth value of a boolean.
    pub open spec fn as_bool(self) -> Option<bool> {
        match self {
            JsonView::Bool(b) => Some(b),
            _ => None,
        }
    }

    /// An integer that fits 64 bits without a sign.
    pub open spec fn as_u64(self) -> Option<u64> {
        match self {
            JsonView::Int(n) => if 0 <= n <= u64::MAX {
                Some(n as u64)
            } else {
                None
            },
            _ => None,
        }
    }

    /// An integer that fits 64 bits with a sign.
    pub open spec fn as_i64(self) -> Option<i64> {
        match self {
            JsonView::Int(n) => if i64::MIN <= n <= i64::MAX {
                Some(n as i64)
            } else {
                None
            },
            _ => None,
        }
    }

    /// The items of an array.
    pub open spec fn as_array(self) -> Option<Seq<JsonView>> {
        match self {
            JsonView::Array(items) => Some(items),
            _ => None,
        }
    }

    /// The characters of the string an object holds under `key`.
    pub open spec fn str_at(self, key: Seq<char>) -> Option<Seq<char>> {
        match self.get(key) {
            Some(value) => value.as_str(),
            None => None,
        }
    }

    /// The object without entries.
    pub open spec fn empty() -> JsonView {
        JsonView::Object(Map::empty())
    }

    /// The object with `value` under `key`; nothing else takes it.
    pub open spec fn with(self, key: Seq<char>, value: JsonView) -> JsonView {
        match self {
            JsonView::Object(map) => JsonView::Object(map.insert(key, value)),
            _ => self,
        }
    }

    /// The object with the string `value` under `key`.
    pub open spec fn with_str(self, key: Seq<char>, value: Seq<char>) -> JsonView {
        self.with(key, JsonView::String(value))
    }
}

proof fn lemma_entries_get(entries: Seq<(String, Json)>, key: Seq<char>, n: int)
    requires
        0 <= n <= entries.len(),
        forall|i: int| n <= i < entries.len() ==> (#[trigger] entries[i]).0@ != key,
    ensures
        entries_view(entries).dom().contains(key) == entries_view(entries.take(n)).dom().contains(
            key,
        ),
        entries_view(entries).dom().contains(key) ==> entries_view(entries)[key] == entries_view(
            entries.take(n),
        )[key],
    decreases entries.len(),
{
    if n == entries.len() {
        assert(entries.take(n) =~= entries);
    } else {
        assert(entries.last().0@ != key);
        lemma_entries_get(entries.drop_last(), key, n);
        assert(entries.drop_last().take(n) =~= entries.take(n));
    }
}

impl Json {
    /// An object without entries.
    pub fn object() -> (r: Json)
        ensures
            r@ == JsonView::empty(),
    {
        Json::Object(Vec::new())
    }

    /// A string.
    pub fn string(s: &str) -> (r: Json)
        ensures
            r@ == JsonView::String(s@),
    {
        Json::String(s.to_owned())
    }

    /// An array.
    pub fn array(items: Vec<Json>) -> (r: Json)
        ensures
            r@ == JsonView::Array(items.deep_view()),
    {
        assert(items_view(items@) =~= items.deep_view());
        Json::Array(items)
    }

    /// Puts `value` under `key` of an object; nothing else takes it.
    pub fn set(&mut self, key: &str, value: Json)
        ensures
            final(self)@ == old(self)@.with(key@, value@),
    {
        match self {
            Json::Object(entries) => {
                let ghost before = entries@;
                entries.push((key.to_owned(), value));
                assert(entries@.drop_last() =~= before);
            },
            _ => {},
        }
    }

    /// Puts the string `value` under `key` of an object.
    pub fn set_str(&mut self, key: &str, value: &str)
        ensures
            final(self)@ == old(self)@.with_str(key@, value@),
    {
        self.set(key, Json::string(value));
    }

    /// The value an object holds under `key`.
    pub fn get(&self, key: &str) -> (r: Option<&Json>)
        ensures
            r.deep_view() == self@.get(key@),
    {
        match self {
            Json::Object(entries) => {
                let mut i: usize = entries.len();
                while i > 0
                    invariant
                        i <= entries@.len(),
                        *self == Json::Object(*entries),
                        forall|j: int|
                            i <= j < entries@.len() ==> (#[trigger] entries@[j]).0@ != key@,
                    decreases i,
                {
                    i -= 1;
                    let entry = &entries[i];
                    if same(entry.0.as_str(), key) {
                        proof {
                            lemma_entries_get(entries@, key@, i + 1);
                            assert(entries@.take(i + 1).last() == entries@[i as int]);
                        }
                        return Some(&entry.1);
                    }
                }
                proof {
                    lemma_entries_get(entries@, key@, 0);
                    assert(entries@.take(0) =~= Seq::empty());
                }
                None
            },
            _ => None,
        }
    }

    /// The characters of a string.
    pub fn as_str(&self) -> (r: Option<&str>)
        ensures
            r.deep_view() == self@.as_str(),
    {
        match self {
            Json::String(s) => Some(s.as_str()),
            _ => None,
        }
    }

    /// The truth value of a boolean.
    pub fn as_bool(&self) -> (r: Option<bool>)
        ensures
            r == self@.as_bool(),
    {
        match self {
            Json::Bool(b) => Some(*b),
            _ => None,
        }
    }

    /// An integer that fits 64 bits without a sign.
    pub fn as_u64(&self) -> (r: Option<u64>)
        ensures
            r == self@.as_u64(),
    {
        match self {
            Json::PosInt(n) => Some(*n),
            Json::NegInt(n) => if *n >= 0 {
                Some(*n as u64)
            } else {
                None
            },
            _ => None,
        }
    }

    /// An integer that fits 64 bits with a sign.
    pub fn as_i64(&self) -> (r: Option<i64>)
        ensures
            r == self@.as_i64(),
    {
        match self {
            Json::PosInt(n) => if *n <= i64::MAX as u64 {
                Some(*n as i64)
            } else {
                None
            },
            Json::NegInt(n) => Some(*n),
            _ => None,
        }
    }

    /// The items of an array.
    pub fn as_array(&self) -> (r: Option<&Vec<Json>>)
        ensures
            r.deep_view() == self@.as_array(),
    {
        match self {
            Json::Array(items) => {
                assert(items_view(items@) =~= items.deep_view());
                Some(items)
            },
            _ => None,
        }
    }

    /// The characters of the string an object holds under `key`.
    pub fn str_at(&self, key: &str) -> (r: Option<&str>)
        ensures
            r.deep_view() == self@.str_at(key@),
    {
        match self.get(key) {
            Some(value) => value.as_str(),
            None => None,
        }
    }
}

impl Clone for Json {
    fn clone(&self) -> (r: Json)
        ensures
            r@ == self@,
        decreases self,
    {
        match self {
            Json::Null => Json::Null,
            Json::Bool(b) => Json::Bool(*b),
            Json::PosInt(n) => Json::PosInt(*n),
            Json::NegInt(n) => Json::NegInt(*n),
            Json::Float(n) => Json::Float(n.clone()),
            Json::String(s) => Json::String(s.clone()),
            Json::Array(items) => {
                let mut out: Vec<Json> = Vec::new();
                let mut i: usize = 0;
                while i < items.len()
                    invariant
                        i <= items@.len(),
                        *self == Json::Array(*items),
                        out@.len() == i,
                        forall|j: int| 0 <= j < i ==> (#[trigger] out@[j])@ == items@[j]@,
                    decreases items@.len() - i,
                {
                    assert(decreases_to!(self => self->Array_0));
                    assert(decreases_to!(items => items@));
                    assert(decreases_to!(items@ => items@[i as int]));
                    out.push(items[i].clone());
                    i += 1;
                }
                assert(items_view(out@) =~= items_view(items@));
                Json::Array(out)
            },
            Json::Object(entries) => {
                let mut out: Vec<(String, Json)> = Vec::new();
                let mut i: usize = 0;
                assert(entries@.take(0) =~= Seq::empty());
                while i < entries.len()
                    invariant
                        i <= entries@.len(),
                        *self == Json::Object(*entries),
                        entries_view(out@) == entries_view(entries@.take(i as int)),
                    decreases entries@.len() - i,
                {
                    let ghost before = out@;
                    assert(decreases_to!(self => self->Object_0));
                    assert(decreases_to!(entries => entries@));
                    assert(decreases_to!(entries@ => entries@[i as int]));
                    assert(decreases_to!(entries@[i as int] => entries@[i as int].1));
                    let entry = &entries[i];
                    out.push((entry.0.clone(), entry.1.clone()));
                    assert(out@.drop_last() =~= before);
                    assert(entries@.take(i + 1).drop_last() =~= entries@.take(i as int));
                    i += 1;
                }
                assert(entries@.take(i as int) =~= entries@);
                Json::Object(out)
            },
        }
    }
}

// ── serde_json ────────────────────────────────────────────────────────
/// What `serde_json::from_str` reads in `text`: a tree, or the words of the
/// error it gives.
pub uninterp spec fn json_parsed(text: Seq<char>) -> Result<JsonView, Seq<char>>;

/// The compact text that serde_json writes for `value`.
pub uninterp spec fn json_text(value: JsonView) -> Seq<char>;

/// Whether serde_json reads `text` as `value`.
pub open spec fn parses_to(text: Seq<char>, value: JsonView) -> bool {
    json_parsed(text) == Ok::<JsonView, Seq<char>>(value)
}

/// What a result with an error message means.
pub open spec fn outcome<T: DeepView>(r: Result<T, String>) -> Result<T::V, Seq<char>> {
    match r {
        Ok(value) => Ok(value.deep_view()),
        Err(e) => Err(e@),
    }
}

/// Whether the text of `value` reads back as `value`: the tree holds no
/// number but 64-bit integers, and nests arrays and objects at most `depth`
/// deep.
pub open spec fn reads_back(value: JsonView, depth: nat) -> bool
    decreases depth,
{
    match value {
        JsonView::Float(_) => false,
        JsonView::Array(items) => {
            &&& depth > 0
            &&& forall|i: int|
                0 <= i < items.len() ==> reads_back(#[trigger] items[i], (depth - 1) as nat)
        },
        JsonView::Object(map) => {
            &&& depth > 0
            &&& forall|key: Seq<char>| #[trigger]
                map.dom().contains(key) ==> reads_back(map[key], (depth - 1) as nat)
        },
        _ => true,
    }
}

/// An object with one more entry reads back where the object and the value of
/// the entry do.
pub broadcast proof fn lemma_with_reads_back(
    object: JsonView,
    key: Seq<char>,
    value: JsonView,
    depth: nat,
)
    requires
        object is Object,
        depth > 0,
        reads_back(object, depth),
        reads_back(value, (depth - 1) as nat),
    ensures
        #[trigger] reads_back(object.with(key, value), depth),
{
    let before = object->Object_0;
    let after = before.insert(key, value);
    assert forall|k: Seq<char>| #[trigger] after.dom().contains(k) implies reads_back(
        after[k],
        (depth - 1) as nat,
    ) by {
        if k != key {
            assert(before.dom().contains(k));
        }
    }
}

/// The object without entries reads back.
pub broadcast proof fn lemma_empty_reads_back(depth: nat)
    requires
        depth > 0,
    ensures
        #[trigger] reads_back(JsonView::empty(), depth),
{
}

/// An array of strings reads back.
pub proof fn lemma_strings_read_back(items: Seq<JsonView>, depth: nat)
    requires
        depth > 0,
        forall|i: int| 0 <= i < items.len() ==> #[trigger] items[i] is String,
    ensures
        reads_back(JsonView::Array(items), depth),
{
    reveal_with_fuel(reads_back, 2);
}

/// How deep arrays and objects may nest in what serde_json reads.
pub open spec fn nesting_limit() -> nat {
    127
}

/// Whether `s` is one line of text: not empty, no white space at its ends, and
/// no character below the space.
pub open spec fn is_one_line(s: Seq<char>) -> bool {
    &&& s.len() > 0
    &&& !is_white(s[0])
    &&& !is_white(s.last())
    &&& forall|i: int| 0 <= i < s.len() ==> #[trigger] s[i] >= ' '
}

/// Turns serde_json's tree into a [`Json`], node by node. Nothing is claimed of
/// it by itself: it is the last step of [`parse_json`].
#[verifier::external_body]
fn from_value(value: serde_json::Value) -> Json {
    match value {
        serde_json::Value::Null => Json::Null,
        serde_json::Value::Bool(b) => Json::Bool(b),
        serde_json::Value::Number(n) => match (n.as_u64(), n.as_i64()) {
            (Some(n), _) => Json::PosInt(n),
            (None, Some(n)) => Json::NegInt(n),
            (None, None) => Json::Float(n),
        },
        serde_json::Value::String(s) => Json::String(s),
        serde_json::Value::Array(items) => Json::Array(items.into_iter().map(from_value).collect()),
        serde_json::Value::Object(map) => Json::Object(map.into_iter().map(|(k, v)| (k, from_value(v))).collect()),
    }
}

/// Turns a [`Json`] into serde_json's tree, node by node; a later entry
/// replaces an earlier one of the same key. Nothing is claimed of it by itself:
/// it is the first step of [`json_string`].
#[verifier::external_body]
fn to_value(value: &Json) -> serde_json::Value {
    match value {
        Json::Null => serde_json::Value::Null,
        Json::Bool(b) => serde_json::Value::Bool(*b),
        Json::PosInt(n) => serde_json::Value::from(*n),
        Json::NegInt(n) => serde_json::Value::from(*n),
        Json::Float(n) => serde_json::Value::Number(n.clone()),
        Json::String(s) => serde_json::Value::String(s.clone()),
        Json::Array(items) => serde_json::Value::Array(items.iter().map(to_value).collect()),
        Json::Object(entries) => serde_json::Value::Object(entries.iter().fold(serde_json::Map::new(), |mut map, (k, v)| { map.insert(k.clone(), to_value(v)); map })),
    }
}

/// `serde_json::from_str::<serde_json::Value>`: the tree that `text` writes
/// down, or the error's words. What that is, is a function of the text alone;
/// the grammar itself is left to serde_json.
#[verifier::external_body]
pub(crate) fn parse_json(text: &str) -> (r: Result<Json, String>)
    ensures
        outcome(r) == json_parsed(text@),
{
    serde_json::from_str::<serde_json::Value>(text).map(from_value).map_err(|e| e.to_string())
}

/// `to_string` of `serde_json::Value`: the compact text of `value`. The text
/// is a function of what the tree means and stands on one line, since
/// serde_json escapes the control characters inside strings and puts no white
/// space between its tokens. A tree of integers, strings, booleans and nulls
/// within the depth that serde_json reads reads back from its text. Nothing is
/// said of trees with other numbers, which may read back as a neighbouring
/// number.
#[verifier::external_body]
pub(crate) fn json_string(value: &Json) -> (r: String)
    ensures
        r@ == json_text(value@),
        is_one_line(r@),
        reads_back(value@, nesting_limit()) ==> parses_to(r@, value@),
{
    to_value(value).to_string()
}

// ── Laws ──────────────────────────────────────────────────────────────
/// What is put under a key of an object is what it holds there, and whatever
/// stands under another key stays.
pub proof fn objects_hold_what_is_put(
    object: JsonView,
    key: Seq<char>,
    value: JsonView,
    s: Seq<char>,
    other: Seq<char>,
)
    requires
        object is Object,
    ensures
        object.with(key, value).get(key) == Some(value),
        object.with_str(key, s).get(key) == Some(JsonView::String(s)),
        other != key ==> object.with(key, value).get(other) == object.get(other),
        other != key ==> object.with_str(key, s).get(other) == object.get(other),
        JsonView::empty().get(key) is None,
        JsonView::empty() is Object,
{
}

/// Only objects hold anything under a key, and only a string under it is a
/// string there.
pub proof fn only_objects_have_keys(map: Map<Seq<char>, JsonView>, value: JsonView, key: Seq<char>)
    ensures
        JsonView::Object(map).get(key) == (if map.dom().contains(key) {
            Some(map[key])
        } else {
            None
        }),
        !(value is Object) ==> value.get(key) is None,
        value.str_at(key) is Some <==> (value.get(key) matches Some(v) && v is String),
        value.get(key) matches Some(JsonView::String(s)) ==> value.str_at(key) == Some(s),
{
}

/// A tree is read as what it is, and as nothing else: only a boolean has a truth
/// value, only a string characters, only an array items, and only an integer in
/// range is a number.
pub proof fn trees_are_read_as_what_they_are(
    value: JsonView,
    b: bool,
    s: Seq<char>,
    items: Seq<JsonView>,
    n: int,
)
    ensures
        JsonView::Bool(b).as_bool() == Some(b),
        !(value is Bool) ==> value.as_bool() is None,
        JsonView::String(s).as_str() == Some(s),
        !(value is String) ==> value.as_str() is None,
        JsonView::Array(items).as_array() == Some(items),
        !(value is Array) ==> value.as_array() is None,
        JsonView::Int(n).as_u64() matches Some(m) ==> m == n,
        JsonView::Int(n).as_u64() is Some <==> 0 <= n < 0x1_0000_0000_0000_0000,
        JsonView::Int(n).as_i64() matches Some(m) ==> m == n,
        JsonView::Int(n).as_i64() is Some <==> -0x8000_0000_0000_0000 <= n
            < 0x8000_0000_0000_0000,
        !(value is Int) ==> value.as_u64() is None && value.as_i64() is None,
{
}

/// Of the entries of an object the last one with a key says what stands under
/// it, and nothing stands under a key without an entry.
pub proof fn last_entry_says(entries: Seq<(String, Json)>, key: Seq<char>, i: int)
    ensures
        0 <= i < entries.len() && entries[i].0@ == key && (forall|j: int|
            i < j < entries.len() ==> (#[trigger] entries[j]).0@ != key) ==> JsonView::Object(
            entries_view(entries),
        ).get(key) == Some(entries[i].1@),
        (forall|j: int| 0 <= j < entries.len() ==> (#[trigger] entries[j]).0@ != key)
            ==> JsonView::Object(entries_view(entries)).get(key) is None,
{
    if 0 <= i < entries.len() && entries[i].0@ == key && (forall|j: int|
        i < j < entries.len() ==> (#[trigger] entries[j]).0@ != key) {
        lemma_entries_get(entries, key, i + 1);
        assert(entries.take(i + 1).last() == entries[i]);
    }
    if forall|j: int| 0 <= j < entries.len() ==> (#[trigger] entries[j]).0@ != key {
        lemma_entries_get(entries, key, 0);
        assert(entries.take(0) =~= Seq::empty());
    }
}

/// A tree means what it holds: each kind its value, an array the meaning of each
/// item in its place.
pub proof fn trees_mean_what_they_hold(tree: Json)
    ensures
        match tree {
            Json::Null => tree@ is Null,
            Json::Bool(b) => tree@ == JsonView::Bool(b),
            Json::PosInt(n) => tree@ == JsonView::Int(n as int),
            Json::NegInt(n) => tree@ == JsonView::Int(n as int),
            Json::Float(n) => tree@ == JsonView::Float(n),
            Json::String(s) => tree@ == JsonView::String(s@),
            Json::Array(items) => tree@ matches JsonView::Array(views) && views.len()
                == items@.len() && forall|i: int|
                0 <= i < views.len() ==> #[trigger] views[i] == items@[i]@,
            Json::Object(_) => tree@ is Object,
        },
{
}

} // verus!
