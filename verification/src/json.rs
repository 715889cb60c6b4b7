//! JSON values as the library reads and writes them.
use crate::map::{entry_map, StrMap};
use vstd::prelude::*;

verus! {

/// The number type of `serde_json`: an integer or a floating-point number.
#[verifier::external_type_specification]
#[verifier::external_body]
pub struct ExNumber(serde_json::Number);

/// The value of a number that is an integer and fits in 64 bits without a sign.
pub uninterp spec fn number_value(n: serde_json::Number) -> Option<u64>;

/// Calls `Number::as_u64`, which gives the integer where the number is one that
/// fits in a `u64`, and nothing otherwise.
#[verifier::external_body]
fn number_as_u64(n: &serde_json::Number) -> (r: Option<u64>)
    ensures
        r == number_value(*n),
{
    n.as_u64()
}

/// The number that an integer becomes.
pub uninterp spec fn number_of(n: u64) -> serde_json::Number;

/// Calls `Number::from` on a `u64`. The number is that integer, so `Number::as_u64`
/// gives it back, and it is no floating-point number.
#[verifier::external_body]
fn number_from_u64(n: u64) -> (r: serde_json::Number)
    ensures
        r == number_of(n),
        number_value(r) == Some(n),
        !number_is_float(r),
{
    serde_json::Number::from(n)
}

/// The number is held as a floating-point number, and not as an integer.
pub uninterp spec fn number_is_float(n: serde_json::Number) -> bool;

/// Calls `Number::is_f64`, which tells floating-point numbers from integers.
#[verifier::external_body]
fn number_is_f64(n: &serde_json::Number) -> (r: bool)
    ensures
        r == number_is_float(*n),
{
    n.is_f64()
}

/// A JSON value. The members of an object stand in the order of their keys.
#[derive(Debug, PartialEq, Eq)]
pub enum JsonValue {
    Null,
    Bool(bool),
    Number(serde_json::Number),
    Text(String),
    Array(Vec<JsonValue>),
    Object(StrMap<JsonValue>),
}

/// What a JSON value is: a tree over texts.
pub enum JsonView {
    Null,
    Bool(bool),
    Number(serde_json::Number),
    Text(Seq<char>),
    Array(Seq<JsonView>),
    Object(Map<Seq<char>, JsonView>),
}

/// The tree of a value.
pub closed spec fn tree(v: JsonValue) -> JsonView
    decreases v, 0nat,
{
    match v {
        JsonValue::Null => JsonView::Null,
        JsonValue::Bool(b) => JsonView::Bool(b),
        JsonValue::Number(n) => JsonView::Number(n),
        JsonValue::Text(s) => JsonView::Text(s@),
        JsonValue::Array(items) => JsonView::Array(item_trees(items@)),
        JsonValue::Object(members) => JsonView::Object(member_trees(members.entries@)),
    }
}

/// The trees of the items of an array.
closed spec fn item_trees(items: Seq<JsonValue>) -> Seq<JsonView>
    decreases items, items.len(),
{
    Seq::new(
        items.len(),
        |i: int|
            if 0 <= i < items.len() {
                tree(items[i])
            } else {
                JsonView::Null
            },
    )
}

/// The trees of the members of an object.
closed spec fn member_trees(entries: Seq<(String, JsonValue)>) -> Map<Seq<char>, JsonView>
    decreases entries, entries.len(),
{
    if entries.len() == 0 {
        Map::empty()
    } else {
        let e = entries.last();
        member_trees(entries.drop_last()).insert(e.0@, tree(e.1))
    }
}

impl View for JsonValue {
    type V = JsonView;

    open spec fn view(&self) -> JsonView {
        tree(*self)
    }
}

impl DeepView for JsonValue {
    type V = JsonView;

    open spec fn deep_view(&self) -> JsonView {
        tree(*self)
    }
}

proof fn lemma_member_trees(entries: Seq<(String, JsonValue)>)
    ensures
        member_trees(entries) == entry_map(entries),
    decreases entries.len(),
{
    if entries.len() > 0 {
        lemma_member_trees(entries.drop_last());
    }
}

/// The tree of each form of value.
pub broadcast proof fn lemma_tree(v: JsonValue)
    ensures
        #[trigger] tree(v) == match v {
            JsonValue::Null => JsonView::Null,
            JsonValue::Bool(b) => JsonView::Bool(b),
            JsonValue::Number(n) => JsonView::Number(n),
            JsonValue::Text(s) => JsonView::Text(s@),
            JsonValue::Array(items) => JsonView::Array(items.deep_view()),
            JsonValue::Object(members) => JsonView::Object(members@),
        },
{
    match v {
        JsonValue::Array(items) => {
            assert(item_trees(items@) =~= items.deep_view());
        },
        JsonValue::Object(members) => {
            lemma_member_trees(members.entries@);
            members.lemma_view();
        },
        _ => {},
    }
}

/// All objects in the tree have finitely many members.
pub open spec fn is_finite_tree(t: JsonView) -> bool
    decreases t,
{
    match t {
        JsonView::Array(items) => forall|i: int|
            0 <= i < items.len() ==> is_finite_tree(#[trigger] items[i]),
        JsonView::Object(m) => m.dom().finite() && forall|k: Seq<char>| #[trigger]
            m.contains_key(k) ==> is_finite_tree(m[k]),
        _ => true,
    }
}

proof fn lemma_members_are_finite(entries: Seq<(String, JsonValue)>)
    ensures
        member_trees(entries).dom().finite(),
        forall|k: Seq<char>| #[trigger]
            member_trees(entries).contains_key(k) ==> is_finite_tree(member_trees(entries)[k]),
    decreases entries, entries.len(),
{
    if entries.len() > 0 {
        lemma_members_are_finite(entries.drop_last());
        every_tree_is_finite(entries.last().1);
    }
}

/// Every value is a tree whose objects have finitely many members.
pub proof fn every_tree_is_finite(v: JsonValue)
    ensures
        is_finite_tree(v@),
    decreases v, 0nat,
{
    match v {
        JsonValue::Array(items) => {
            let t = v@;
            assert forall|i: int| 0 <= i < t->Array_0.len() implies is_finite_tree(
                #[trigger] t->Array_0[i],
            ) by {
                every_tree_is_finite(items@[i]);
            }
        },
        JsonValue::Object(members) => {
            lemma_members_are_finite(members.entries@);
            let t = v@;
            assert(t->Object_0 == member_trees(members.entries@));
        },
        _ => {},
    }
}

// ---------------------------------------------------------------------------
// Reading
// ---------------------------------------------------------------------------
impl JsonView {
    /// The member of an object; nothing for a value that is no object.
    pub open spec fn member(self, key: Seq<char>) -> Option<JsonView> {
        match self {
            JsonView::Object(m) => if m.contains_key(key) {
                Some(m[key])
            } else {
                None
            },
            _ => None,
        }
    }

    /// The members of the object that stands under a key.
    pub open spec fn object_at(self, key: Seq<char>) -> Option<Map<Seq<char>, JsonView>> {
        match self.member(key) {
            Some(JsonView::Object(m)) => Some(m),
            _ => None,
        }
    }

    /// The text that stands under a key.
    pub open spec fn text_at(self, key: Seq<char>) -> Option<Seq<char>> {
        match self.member(key) {
            Some(JsonView::Text(s)) => Some(s),
            _ => None,
        }
    }

    /// The number, where it is an integer that fits in 64 bits without a sign.
    pub open spec fn number(self) -> Option<u64> {
        match self {
            JsonView::Number(n) => number_value(n),
            _ => None,
        }
    }
}

impl JsonValue {
    /// The member of an object; nothing for a value that is no object.
    pub fn get(&self, key: &str) -> (r: Option<&JsonValue>)
        ensures
            r is Some <==> self@.member(key@) is Some,
            r matches Some(v) ==> self@.member(key@) == Some(v@),
    {
        broadcast use lemma_tree;

        match self {
            JsonValue::Object(m) => m.get(key),
            _ => None,
        }
    }

    /// Is it the null value?
    pub fn is_null(&self) -> (r: bool)
        ensures
            r == (self@ is Null),
    {
        broadcast use lemma_tree;

        match self {
            JsonValue::Null => true,
            _ => false,
        }
    }

    /// The members, where it is an object.
    pub fn as_object(&self) -> (r: Option<&StrMap<JsonValue>>)
        ensures
            r is Some <==> self@ is Object,
            r matches Some(m) ==> self@ == JsonView::Object(m@),
    {
        broadcast use lemma_tree;

        match self {
            JsonValue::Object(m) => Some(m),
            _ => None,
        }
    }

    /// The items, where it is an array.
    pub fn as_array(&self) -> (r: Option<&Vec<JsonValue>>)
        ensures
            r is Some <==> self@ is Array,
            r matches Some(items) ==> self@ == JsonView::Array(items.deep_view()),
    {
        broadcast use lemma_tree;

        match self {
            JsonValue::Array(items) => Some(items),
            _ => None,
        }
    }

    /// The text, where it is one.
    pub fn as_str(&self) -> (r: Option<&str>)
        ensures
            r is Some <==> self@ is Text,
            r matches Some(s) ==> self@ == JsonView::Text(s@),
    {
        broadcast use lemma_tree;

        match self {
            JsonValue::Text(s) => Some(s.as_str()),
            _ => None,
        }
    }

    /// The number, where it is an integer that fits in 64 bits without a sign.
    pub fn as_u64(&self) -> (r: Option<u64>)
        ensures
            r == self@.number(),
    {
        broadcast use lemma_tree;

        match self {
            JsonValue::Number(n) => number_as_u64(n),
            _ => None,
        }
    }

    /// Is it a floating-point number? Only these may come back from a document with other
    /// last digits.
    pub fn is_f64(&self) -> (r: bool)
        ensures
            r == (self@ matches JsonView::Number(n) && number_is_float(n)),
    {
        broadcast use lemma_tree;

        match self {
            JsonValue::Number(n) => number_is_f64(n),
            _ => false,
        }
    }

    /// A text value.
    pub fn text(s: &str) -> (r: JsonValue)
        ensures
            r@ == JsonView::Text(s@),
    {
        broadcast use lemma_tree;

        JsonValue::Text(s.to_string())
    }

    /// A number value.
    pub fn number(n: u64) -> (r: JsonValue)
        ensures
            r@ == JsonView::Number(number_of(n)),
            r@.number() == Some(n),
            !number_is_float(number_of(n)),
    {
        broadcast use lemma_tree;

        JsonValue::Number(number_from_u64(n))
    }

    /// An object with the given members.
    pub fn object(members: StrMap<JsonValue>) -> (r: JsonValue)
        ensures
            r@ == JsonView::Object(members@),
    {
        broadcast use lemma_tree;

        JsonValue::Object(members)
    }

    /// An array with the given items.
    pub fn array(items: Vec<JsonValue>) -> (r: JsonValue)
        ensures
            r@ == JsonView::Array(items.deep_view()),
    {
        broadcast use lemma_tree;

        JsonValue::Array(items)
    }
}

// ---------------------------------------------------------------------------
// Documents
// ---------------------------------------------------------------------------
/// The value type of `serde_json`.
#[verifier::external_type_specification]
#[verifier::external_body]
pub struct ExValue(serde_json::Value);

/// The error type of `serde_json`.
#[verifier::external_type_specification]
#[verifier::external_body]
pub struct ExError(serde_json::Error);

/// The value that `serde_json` reads from a document, where the document is
/// well-formed.
pub uninterp spec fn parsed(data: Seq<u8>) -> Option<serde_json::Value>;

/// The document that `serde_json` writes for a value, with indentation.
pub uninterp spec fn printed(value: serde_json::Value) -> Seq<u8>;

/// The tree that a value of `serde_json` holds.
pub uninterp spec fn value_tree(value: serde_json::Value) -> JsonView;

/// The value of `serde_json` that holds a tree.
pub uninterp spec fn tree_value(tree: JsonView) -> serde_json::Value;

/// The tree is nested no deeper than `depth`.
pub open spec fn is_nested_within(t: JsonView, depth: nat) -> bool
    decreases t,
{
    match t {
        JsonView::Array(items) => depth > 0 && forall|i: int|
            0 <= i < items.len() ==> is_nested_within(#[trigger] items[i], (depth - 1) as nat),
        JsonView::Object(m) => depth > 0 && forall|k: Seq<char>| #[trigger]
            m.contains_key(k) ==> is_nested_within(m[k], (depth - 1) as nat),
        _ => true,
    }
}

/// The tree is nested no deeper than a reader accepts.
pub open spec fn is_readable(t: JsonView) -> bool {
    is_nested_within(t, 127)
}

/// The trees are the same, but for the values of floating-point numbers.
pub open spec fn is_alike(a: JsonView, b: JsonView) -> bool
    decreases a,
{
    match a {
        JsonView::Number(x) => match b {
            JsonView::Number(y) => if number_is_float(x) {
                number_is_float(y)
            } else {
                x == y
            },
            _ => false,
        },
        JsonView::Array(p) => match b {
            JsonView::Array(q) => p.len() == q.len() && forall|i: int|
                0 <= i < p.len() ==> is_alike(#[trigger] p[i], q[i]),
            _ => false,
        },
        JsonView::Object(p) => match b {
            JsonView::Object(q) => p.dom() == q.dom() && forall|k: Seq<char>| #[trigger]
                p.contains_key(k) ==> is_alike(p[k], q[k]),
            _ => false,
        },
        _ => a == b,
    }
}

/// The tree is nested no deeper than `depth`, and holds no floating-point numbers.
pub open spec fn is_plain(t: JsonView, depth: nat) -> bool
    decreases t,
{
    match t {
        JsonView::Number(n) => !number_is_float(n),
        JsonView::Array(items) => depth > 0 && forall|i: int|
            0 <= i < items.len() ==> is_plain(#[trigger] items[i], (depth - 1) as nat),
        JsonView::Object(m) => depth > 0 && forall|k: Seq<char>| #[trigger]
            m.contains_key(k) ==> is_plain(m[k], (depth - 1) as nat),
        _ => true,
    }
}

/// A plain tree is nested within its depth, and only itself is like it.
proof fn lemma_plain(t: JsonView, depth: nat)
    requires
        is_plain(t, depth),
    ensures
        is_nested_within(t, depth),
        forall|u: JsonView| #[trigger] is_alike(t, u) ==> u == t,
    decreases t,
{
    match t {
        JsonView::Array(items) => {
            assert forall|i: int| 0 <= i < items.len() implies is_nested_within(
                #[trigger] items[i],
                (depth - 1) as nat,
            ) by {
                lemma_plain(items[i], (depth - 1) as nat);
            }
            assert forall|u: JsonView| #[trigger] is_alike(t, u) implies u == t by {
                let others = u->Array_0;
                assert forall|i: int| 0 <= i < items.len() implies items[i] == others[i] by {
                    lemma_plain(items[i], (depth - 1) as nat);
                    assert(is_alike(items[i], others[i]));
                }
                assert(items =~= others);
            }
        },
        JsonView::Object(m) => {
            assert forall|k: Seq<char>| #[trigger] m.contains_key(k) implies is_nested_within(
                m[k],
                (depth - 1) as nat,
            ) by {
                lemma_plain(m[k], (depth - 1) as nat);
            }
            assert forall|u: JsonView| #[trigger] is_alike(t, u) implies u == t by {
                let others = u->Object_0;
                assert forall|k: Seq<char>| #[trigger] m.contains_key(k) implies m[k]
                    == others[k] by {
                    lemma_plain(m[k], (depth - 1) as nat);
                    assert(is_alike(m[k], others[k]));
                }
                assert(m =~= others);
            }
        },
        _ => {},
    }
}

/// An object is plain when its members are.
pub proof fn lemma_plain_object(v: JsonView, m: Map<Seq<char>, JsonView>, depth: nat)
    requires
        v == JsonView::Object(m),
        depth > 0,
    ensures
        is_plain(v, depth) <==> forall|k: Seq<char>| #[trigger]
            m.contains_key(k) ==> is_plain(m[k], (depth - 1) as nat),
{
    let inner = v->Object_0;
    assert(inner == m);
    if is_plain(v, depth) {
        assert forall|k: Seq<char>| #[trigger] m.contains_key(k) implies is_plain(
            m[k],
            (depth - 1) as nat,
        ) by {
            assert(inner.contains_key(k));
        }
    }
    if forall|k: Seq<char>| #[trigger]
        m.contains_key(k) ==> is_plain(m[k], (depth - 1) as nat) {
        assert forall|k: Seq<char>| #[trigger] inner.contains_key(k) implies is_plain(
            inner[k],
            (depth - 1) as nat,
        ) by {
            assert(m.contains_key(k));
        }
        assert(is_plain(v, depth));
    }
}

/// An array of texts is plain.
pub proof fn lemma_plain_texts(v: JsonView, texts: Seq<Seq<char>>, depth: nat)
    requires
        v == JsonView::Array(texts.map_values(|s: Seq<char>| JsonView::Text(s))),
        depth > 0,
    ensures
        is_plain(v, depth),
{
    let items = v->Array_0;
    assert forall|i: int| 0 <= i < items.len() implies is_plain(
        #[trigger] items[i],
        (depth - 1) as nat,
    ) by {
        assert(items[i] == JsonView::Text(texts[i]));
    }
}

/// The tree is one that a document gives back exactly. Floating-point numbers may change in
/// their last digits, and the reader refuses documents that are nested very deeply.
pub open spec fn is_read_back(t: JsonView) -> bool {
    is_plain(t, 127)
}

/// Calls `serde_json::from_slice` for a `serde_json::Value`. What is read, and
/// whether the document is well-formed, depends on its bytes alone.
#[verifier::external_body]
fn parse_value(data: &[u8]) -> (r: Result<serde_json::Value, serde_json::Error>)
    ensures
        r is Ok <==> parsed(data@) is Some,
        r matches Ok(v) ==> parsed(data@) == Some(v),
{
    serde_json::from_slice(data)
}

/// Calls `serde_json::to_vec_pretty` on a `serde_json::Value`. The bytes depend
/// on the value alone. The call succeeds: the keys of its objects are texts, and
/// neither the `Serialize` implementation of `Value` nor a `Vec` as the target
/// fails. `serde_json::from_slice` reads what was written, unless the value is nested
/// deeper than it follows. It gives back the same tree, with the same integers, and a
/// floating-point number in each place of one, whose last digits may be others.
#[verifier::external_body]
fn print_value(value: &serde_json::Value) -> (r: Result<Vec<u8>, serde_json::Error>)
    ensures
        r is Ok,
        r->Ok_0@ == printed(*value),
        is_readable(value_tree(*value)) ==> parsed(r->Ok_0@) is Some,
        parsed(r->Ok_0@) matches Some(v) ==> is_alike(value_tree(*value), value_tree(v)),
{
    serde_json::to_vec_pretty(value)
}

/// Takes a `serde_json::Value` apart. Each variant becomes the variant of the
/// same meaning, with the same contents. `serde_json::Map` hands its members out
/// in the order of their keys.
#[verifier::external_body]
fn from_serde(value: serde_json::Value) -> (r: JsonValue)
    ensures
        r@ == value_tree(value),
{
    match value {
        serde_json::Value::Null => JsonValue::Null,
        serde_json::Value::Bool(b) => JsonValue::Bool(b),
        serde_json::Value::Number(n) => JsonValue::Number(n),
        serde_json::Value::String(s) => JsonValue::Text(s),
        serde_json::Value::Array(a) => JsonValue::Array(a.into_iter().map(from_serde).collect()),
        serde_json::Value::Object(m) => JsonValue::Object(
            StrMap { entries: m.into_iter().map(|(k, v)| (k, from_serde(v))).collect() },
        ),
    }
}

/// Builds a `serde_json::Value`. Each variant becomes the variant of the same
/// meaning, with the same contents, so that taking the result apart gives the
/// same tree back.
#[verifier::external_body]
fn to_serde(value: JsonValue) -> (r: serde_json::Value)
    ensures
        r == tree_value(value@),
        value_tree(r) == value@,
{
    match value {
        JsonValue::Null => serde_json::Value::Null,
        JsonValue::Bool(b) => serde_json::Value::Bool(b),
        JsonValue::Number(n) => serde_json::Value::Number(n),
        JsonValue::Text(s) => serde_json::Value::String(s),
        JsonValue::Array(a) => serde_json::Value::Array(a.into_iter().map(to_serde).collect()),
        JsonValue::Object(m) => serde_json::Value::Object(
            m.entries.into_iter().map(|(k, v)| (k, to_serde(v))).collect(),
        ),
    }
}

/// The tree of a document. A document that is not well-formed reads as null.
pub open spec fn document_tree(data: Seq<u8>) -> JsonView {
    match parsed(data) {
        Some(v) => value_tree(v),
        None => JsonView::Null,
    }
}

/// The document that holds a tree.
pub open spec fn tree_document(tree: JsonView) -> Seq<u8> {
    printed(tree_value(tree))
}

/// Reads a document, if it is well-formed.
pub fn parse_document(data: &[u8]) -> (r: Option<JsonValue>)
    ensures
        r is Some <==> parsed(data@) is Some,
        r matches Some(v) ==> v@ == document_tree(data@),
        is_finite_tree(document_tree(data@)),
{
    match parse_value(data) {
        Ok(v) => {
            let value = from_serde(v);
            proof {
                every_tree_is_finite(value);
            }
            Some(value)
        },
        Err(_) => None,
    }
}

/// Reads a document. One that is not well-formed reads as null.
pub fn read_document(data: &[u8]) -> (r: JsonValue)
    ensures
        r@ == document_tree(data@),
        is_finite_tree(r@),
{
    broadcast use lemma_tree;

    match parse_document(data) {
        Some(v) => v,
        None => JsonValue::Null,
    }
}

/// The document holds the tree, as far as a document can. Where it is nested too deeply to
/// be read, it reads as null; a tree that a document gives back exactly is what it reads as.
pub open spec fn holds_tree(data: Seq<u8>, t: JsonView) -> bool {
    &&& is_readable(t) ==> parsed(data) is Some
    &&& parsed(data) is Some ==> is_alike(t, document_tree(data))
    &&& is_read_back(t) ==> document_tree(data) == t
}

/// Writes a document. Reading it gives the value back, but for floating-point numbers, whose
/// last digits may be others.
pub fn write_document(value: JsonValue) -> (r: Vec<u8>)
    ensures
        r@ == tree_document(value@),
        holds_tree(r@, value@),
{
    let ghost t = value@;
    match print_value(&to_serde(value)) {
        Ok(data) => {
            proof {
                if is_read_back(t) {
                    lemma_plain(t, 127);
                }
            }
            data
        },
        Err(_) => vstd::pervasive::unreached(),
    }
}

} // verus!
