//! JSON values: the messages of a session, and the summary of a run. What
//! `serde_json` reads becomes a `Json`, which the rest of the library takes
//! apart; what it writes is made from one.

use crate::text::{decimal, number, same, signed_decimal, signed_number};
use crate::views::opt_view;
use vstd::prelude::*;

verus! {

// ---- The model ---------------------------------------------------------

/// A JSON number: the integer that it is, where it fits, and its text.
pub struct NumberView {
    pub unsigned: Option<u64>,
    pub signed: Option<i64>,
    pub text: Seq<char>,
}

/// A JSON value. The fields of an object are in the order they are written
/// in.
pub enum JsonView {
    Null,
    Bool(bool),
    Number(NumberView),
    Str(Seq<char>),
    Array(Seq<JsonView>),
    Object(Seq<(Seq<char>, JsonView)>),
}

/// Where KEY is among FIELDS, or their number.
pub open spec fn field_at(fields: Seq<(Seq<char>, JsonView)>, key: Seq<char>) -> nat
    decreases fields.len(),
{
    if fields.len() == 0 || fields[0].0 == key {
        0
    } else {
        1 + field_at(fields.skip(1), key)
    }
}

/// The value of KEY in an object; null without one, as in any other value.
pub open spec fn at(v: JsonView, key: Seq<char>) -> JsonView {
    match v {
        JsonView::Object(fields) => {
            let i = field_at(fields, key);
            if i < fields.len() {
                fields[i as int].1
            } else {
                JsonView::Null
            }
        },
        _ => JsonView::Null,
    }
}

/// Whether an object has KEY.
pub open spec fn has_field(v: JsonView, key: Seq<char>) -> bool {
    v matches JsonView::Object(fields) && field_at(fields, key) < fields.len()
}

/// FIELDS with KEY set to VALUE, in its place or at the end.
pub open spec fn put(
    fields: Seq<(Seq<char>, JsonView)>,
    key: Seq<char>,
    value: JsonView,
) -> Seq<(Seq<char>, JsonView)> {
    let i = field_at(fields, key);
    if i < fields.len() {
        fields.update(i as int, (key, value))
    } else {
        fields.push((key, value))
    }
}

/// The text of a string.
pub open spec fn str_of(v: JsonView) -> Option<Seq<char>> {
    match v {
        JsonView::Str(s) => Some(s),
        _ => None,
    }
}

/// The text of a string, else DEFAULT.
pub open spec fn str_or(v: JsonView, default: Seq<char>) -> Seq<char> {
    match v {
        JsonView::Str(s) => s,
        _ => default,
    }
}

/// The items of an array; none, of any other value.
pub open spec fn items_of(v: JsonView) -> Seq<JsonView> {
    match v {
        JsonView::Array(a) => a,
        _ => Seq::empty(),
    }
}

/// The unsigned integer of a number.
pub open spec fn u64_of(v: JsonView) -> Option<u64> {
    match v {
        JsonView::Number(n) => n.unsigned,
        _ => None,
    }
}

/// The signed integer of a number.
pub open spec fn i64_of(v: JsonView) -> Option<i64> {
    match v {
        JsonView::Number(n) => n.signed,
        _ => None,
    }
}

/// An unsigned integer as a JSON value.
pub open spec fn unsigned_json(n: u64) -> JsonView {
    JsonView::Number(
        NumberView {
            unsigned: Some(n),
            signed: if n <= i64::MAX {
                Some(n as i64)
            } else {
                None
            },
            text: decimal(n as nat),
        },
    )
}

/// A signed integer as a JSON value.
pub open spec fn signed_json(n: i64) -> JsonView {
    if n >= 0 {
        unsigned_json(n as u64)
    } else {
        JsonView::Number(
            NumberView { unsigned: None, signed: Some(n), text: signed_decimal(n as int) },
        )
    }
}

/// An optional text as a JSON value.
pub open spec fn opt_json(s: Option<Seq<char>>) -> JsonView {
    match s {
        Some(t) => JsonView::Str(t),
        None => JsonView::Null,
    }
}

/// An optional unsigned integer as a JSON value.
pub open spec fn opt_unsigned_json(n: Option<u64>) -> JsonView {
    match n {
        Some(n) => unsigned_json(n),
        None => JsonView::Null,
    }
}

pub proof fn lemma_field_at(fields: Seq<(Seq<char>, JsonView)>, key: Seq<char>)
    ensures
        field_at(fields, key) <= fields.len(),
        field_at(fields, key) < fields.len() ==> fields[field_at(fields, key) as int].0 == key,
        forall|i: int| 0 <= i < field_at(fields, key) ==> (#[trigger] fields[i]).0 != key,
    decreases fields.len(),
{
    if fields.len() > 0 && fields[0].0 != key {
        lemma_field_at(fields.skip(1), key);
        assert forall|i: int| 0 <= i < field_at(fields, key) implies (#[trigger] fields[i]).0
            != key by {
            if i > 0 {
                assert(fields.skip(1)[i - 1] == fields[i]);
            }
        }
    }
}

pub proof fn lemma_field_at_is(fields: Seq<(Seq<char>, JsonView)>, key: Seq<char>, n: nat)
    requires
        n <= fields.len(),
        n < fields.len() ==> fields[n as int].0 == key,
        forall|i: int| 0 <= i < n ==> (#[trigger] fields[i]).0 != key,
    ensures
        field_at(fields, key) == n,
{
    lemma_field_at(fields, key);
    let m = field_at(fields, key);
    if m < n {
        assert(fields[m as int].0 != key);
    }
    if n < m {
        assert(fields[n as int].0 != key);
    }
}

/// A field that was put in is there, and the others are as they were.
pub proof fn law_put_then_get(
    fields: Seq<(Seq<char>, JsonView)>,
    key: Seq<char>,
    value: JsonView,
    other: Seq<char>,
)
    ensures
        at(JsonView::Object(put(fields, key, value)), key) == value,
        other != key ==> at(JsonView::Object(put(fields, key, value)), other) == at(
            JsonView::Object(fields),
            other,
        ),
{
    lemma_field_at(fields, key);
    lemma_field_at(fields, other);
    let after = put(fields, key, value);
    lemma_field_at_is(after, key, field_at(fields, key));
    if other != key {
        let i = field_at(fields, other);
        lemma_field_at_is(
            after,
            other,
            if i < fields.len() {
                i
            } else {
                after.len()
            },
        );
    }
}

/// What is in an object after a field was put in.
pub broadcast proof fn lemma_at_put(
    fields: Seq<(Seq<char>, JsonView)>,
    key: Seq<char>,
    value: JsonView,
    wanted: Seq<char>,
)
    ensures
        #[trigger] at(JsonView::Object(put(fields, key, value)), wanted) == if wanted == key {
            value
        } else {
            at(JsonView::Object(fields), wanted)
        },
{
    law_put_then_get(fields, key, value, wanted);
}

// ---- serde_json --------------------------------------------------------

/// A JSON value of `serde_json`.
#[verifier::external_type_specification]
#[verifier::external_body]
pub struct ExValue(serde_json::Value);

/// What a `serde_json::Value` holds: its tree, with an object's fields in
/// the order its map has them.
pub uninterp spec fn value_view(v: serde_json::Value) -> JsonView;

/// What `serde_json::from_str` reads from a text; nothing where it is not
/// JSON.
pub uninterp spec fn json_parse(text: Seq<char>) -> Option<JsonView>;

/// The compact text that a `serde_json::Value` prints as.
pub uninterp spec fn json_text(v: JsonView) -> Seq<char>;

/// The outermost layer of a `serde_json::Value`.
enum Layer {
    Null,
    Bool(bool),
    /// Its unsigned and signed integer, its text, and the number itself.
    Number(Option<u64>, Option<i64>, String, serde_json::Value),
    Str(String),
    Array(Vec<serde_json::Value>),
    Object(Vec<(String, serde_json::Value)>),
}

spec fn layer_view(l: Layer) -> JsonView {
    match l {
        Layer::Null => JsonView::Null,
        Layer::Bool(b) => JsonView::Bool(b),
        Layer::Number(unsigned, signed, text, _) => JsonView::Number(
            NumberView { unsigned, signed, text: text@ },
        ),
        Layer::Str(s) => JsonView::Str(s@),
        Layer::Array(a) => JsonView::Array(Seq::new(a@.len(), |i: int| value_view(a@[i]))),
        Layer::Object(f) => JsonView::Object(
            Seq::new(f@.len(), |i: int| (f@[i].0@, value_view(f@[i].1))),
        ),
    }
}

/// The keys of FIELDS are all different.
spec fn distinct_keys(fields: Seq<(Seq<char>, JsonView)>) -> bool {
    forall|i: int, j: int| 0 <= i < j < fields.len() ==> (#[trigger] fields[i]).0 != (
    #[trigger] fields[j]).0
}

/// `serde_json::from_str`: the value that TEXT is, or none where it is not
/// JSON.
#[verifier::external_body]
fn parse_value(text: &str) -> (r: Option<serde_json::Value>)
    ensures
        match r {
            Some(v) => json_parse(text@) == Some(value_view(v)),
            None => json_parse(text@) is None,
        },
{
    serde_json::from_str(text).ok()
}

/// `Value::to_string`: the compact text of V.
#[verifier::external_body]
fn value_text(v: &serde_json::Value) -> (r: String)
    ensures
        r@ == json_text(value_view(*v)),
{
    v.to_string()
}

/// Takes a `serde_json::Value` apart: the same value, one layer of it in
/// the open. A number stays at hand as it was, beside what
/// `Number::as_u64`, `Number::as_i64` and its text say of it. The keys of
/// an object differ, as in any `serde_json::Map`.
#[verifier::external_body]
fn open_value(v: serde_json::Value) -> (r: Layer)
    ensures
        layer_view(r) == value_view(v),
        r matches Layer::Number(_, _, _, raw) ==> value_view(raw) == value_view(v),
        layer_view(r) matches JsonView::Object(f) ==> distinct_keys(f),
{
    match v {
        serde_json::Value::Null => Layer::Null,
        serde_json::Value::Bool(b) => Layer::Bool(b),
        serde_json::Value::Number(n) => Layer::Number(
            n.as_u64(), n.as_i64(), n.to_string(), serde_json::Value::Number(n)),
        serde_json::Value::String(s) => Layer::Str(s),
        serde_json::Value::Array(a) => Layer::Array(a),
        serde_json::Value::Object(m) => Layer::Object(m.into_iter().collect()),
    }
}

/// Puts a `serde_json::Value` together from its outermost layer: the value
/// that the layer shows, where it names no key twice; a number is the one
/// that the layer holds.
#[verifier::external_body]
fn make_value(l: Layer) -> (r: serde_json::Value)
    ensures
        l matches Layer::Number(_, _, _, raw) ==> r == raw,
        l !is Number && (layer_view(l) matches JsonView::Object(f) ==> distinct_keys(f))
            ==> value_view(r) == layer_view(l),
{
    match l {
        Layer::Null => serde_json::Value::Null,
        Layer::Bool(b) => serde_json::Value::Bool(b),
        Layer::Number(_, _, _, raw) => raw,
        Layer::Str(s) => serde_json::Value::String(s),
        Layer::Array(a) => serde_json::Value::Array(a),
        Layer::Object(f) => serde_json::Value::Object(f.into_iter().collect()),
    }
}

/// `Value::from(u64)`: the number N.
#[verifier::external_body]
fn unsigned_value(n: u64) -> (r: serde_json::Value)
    ensures
        value_view(r) == unsigned_json(n),
{
    serde_json::Value::from(n)
}

/// `Value::from(i64)`: the number N.
#[verifier::external_body]
fn signed_value(n: i64) -> (r: serde_json::Value)
    ensures
        value_view(r) == signed_json(n),
{
    serde_json::Value::from(n)
}

/// `Value::clone` gives an equal value.
pub assume_specification[ <serde_json::Value as Clone>::clone ](v: &serde_json::Value) -> (r:
    serde_json::Value)
    ensures
        value_view(r) == value_view(*v),
;

// ---- The values --------------------------------------------------------

/// A JSON number.
#[derive(Debug)]
pub struct Number {
    unsigned: Option<u64>,
    signed: Option<i64>,
    text: String,
    raw: serde_json::Value,
}

impl View for Number {
    type V = NumberView;

    closed spec fn view(&self) -> NumberView {
        NumberView { unsigned: self.unsigned, signed: self.signed, text: self.text@ }
    }
}

impl Number {
    #[verifier::type_invariant]
    spec fn holds_its_number(self) -> bool {
        value_view(self.raw) == JsonView::Number(self@)
    }

    /// The number N.
    pub fn from_u64(n: u64) -> (r: Number)
        ensures
            JsonView::Number(r@) == unsigned_json(n),
    {
        Number {
            unsigned: Some(n),
            signed: if n <= 0x7fff_ffff_ffff_ffff {
                Some(n as i64)
            } else {
                None
            },
            text: number(n),
            raw: unsigned_value(n),
        }
    }

    /// The number N.
    pub fn from_i64(n: i64) -> (r: Number)
        ensures
            JsonView::Number(r@) == signed_json(n),
    {
        if n >= 0 {
            return Number::from_u64(n as u64);
        }
        Number {
            unsigned: None,
            signed: Some(n),
            text: signed_number(n),
            raw: signed_value(n),
        }
    }

    /// An equal number.
    pub fn copy(&self) -> (r: Number)
        ensures
            r@ == self@,
    {
        proof {
            use_type_invariant(self);
        }
        Number {
            unsigned: self.unsigned,
            signed: self.signed,
            text: self.text.clone(),
            raw: self.raw.clone(),
        }
    }

    /// The number as text.
    pub fn as_text(&self) -> (r: &str)
        ensures
            r@ == self@.text,
    {
        self.text.as_str()
    }
}

/// The fields of a JSON object, no two of the same key.
#[derive(Debug)]
pub struct Fields {
    entries: Vec<(String, Json)>,
}

/// A JSON value.
#[derive(Debug)]
pub enum Json {
    Null,
    Bool(bool),
    Number(Number),
    Str(String),
    Array(Vec<Json>),
    Object(Fields),
}

impl View for Json {
    type V = JsonView;

    open spec fn view(&self) -> JsonView
        decreases self,
    {
        match self {
            Json::Null => JsonView::Null,
            Json::Bool(b) => JsonView::Bool(*b),
            Json::Number(n) => JsonView::Number(n@),
            Json::Str(s) => JsonView::Str(s@),
            Json::Array(a) => JsonView::Array(
                Seq::new(
                    a@.len(),
                    |i: int|
                        if 0 <= i < a@.len() {
                            a@[i].view()
                        } else {
                            JsonView::Null
                        },
                ),
            ),
            Json::Object(f) => JsonView::Object(f.view()),
        }
    }
}

impl View for Fields {
    type V = Seq<(Seq<char>, JsonView)>;

    closed spec fn view(&self) -> Seq<(Seq<char>, JsonView)>
        decreases self,
    {
        Seq::new(
            self.entries@.len(),
            |i: int|
                if 0 <= i < self.entries@.len() {
                    (self.entries@[i].0@, self.entries@[i].1.view())
                } else {
                    (Seq::empty(), JsonView::Null)
                },
        )
    }
}

/// The values of a list of JSON values.
pub open spec fn json_views(v: Seq<Json>) -> Seq<JsonView> {
    Seq::new(v.len(), |i: int| v[i]@)
}

pub broadcast proof fn lemma_array_view(v: Vec<Json>)
    ensures
        #[trigger] Json::Array(v)@ == JsonView::Array(json_views(v@)),
{
    let j = Json::Array(v);
    reveal_with_fuel(<Json as View>::view, 2);
    assert(j@->Array_0 =~= json_views(v@));
}

pub broadcast proof fn json_views_push(v: Seq<Json>, j: Json)
    ensures
        #[trigger] json_views(v.push(j)) == json_views(v).push(j@),
{
    assert(json_views(v.push(j)) =~= json_views(v).push(j@));
}

pub broadcast proof fn json_views_empty(v: Seq<Json>)
    requires
        v.len() == 0,
    ensures
        #[trigger] json_views(v) == Seq::<JsonView>::empty(),
{
    assert(json_views(v) =~= Seq::<JsonView>::empty());
}

impl Fields {
    #[verifier::type_invariant]
    spec fn keys_differ(self) -> bool {
        distinct_keys(self@)
    }

    /// No fields.
    pub fn new() -> (r: Fields)
        ensures
            r@ == Seq::<(Seq<char>, JsonView)>::empty(),
    {
        let r = Fields { entries: Vec::new() };
        assert(r@ =~= Seq::<(Seq<char>, JsonView)>::empty());
        r
    }

    /// How many there are.
    pub fn len(&self) -> (r: usize)
        ensures
            r == self@.len(),
    {
        self.entries.len()
    }

    /// The key at I.
    pub fn key(&self, i: usize) -> (r: &str)
        requires
            i < self@.len(),
        ensures
            r@ == self@[i as int].0,
    {
        self.entries[i].0.as_str()
    }

    /// The value at I.
    pub fn value(&self, i: usize) -> (r: &Json)
        requires
            i < self@.len(),
        ensures
            r@ == self@[i as int].1,
    {
        &self.entries[i].1
    }

    /// Where KEY is, or how many there are.
    fn find(&self, key: &str) -> (r: usize)
        ensures
            r == field_at(self@, key@),
            r <= self.entries@.len(),
    {
        let mut i: usize = 0;
        while i < self.entries.len() && !same(self.entries[i].0.as_str(), key)
            invariant
                i <= self.entries@.len(),
                forall|k: int| 0 <= k < i ==> (#[trigger] self@[k]).0 != key@,
            decreases self.entries@.len() - i,
        {
            i += 1;
        }
        proof {
            lemma_field_at_is(self@, key@, i as nat);
        }
        i
    }

    /// The value of KEY.
    pub fn get(&self, key: &str) -> (r: Option<&Json>)
        ensures
            match r {
                Some(v) => has_field(JsonView::Object(self@), key@) && v@ == at(
                    JsonView::Object(self@),
                    key@,
                ),
                None => !has_field(JsonView::Object(self@), key@),
            },
    {
        let i = self.find(key);
        if i < self.entries.len() {
            Some(&self.entries[i].1)
        } else {
            None
        }
    }

    /// These fields with KEY set to VALUE.
    pub fn with(self, key: &str, value: Json) -> (r: Fields)
        ensures
            r@ == put(self@, key@, value@),
    {
        proof {
            use_type_invariant(&self);
            lemma_field_at(self@, key@);
        }
        let i = self.find(key);
        let ghost before = self@;
        let mut entries = self.entries;
        if i < entries.len() {
            entries.set(i, (key.to_owned(), value));
        } else {
            entries.push((key.to_owned(), value));
        }
        proof {
            let after = Fields { entries }@;
            assert(after =~= put(before, key@, value@));
            lemma_put_keeps_distinct(before, key@, value@);
        }
        Fields { entries }
    }
}

proof fn lemma_put_keeps_distinct(
    fields: Seq<(Seq<char>, JsonView)>,
    key: Seq<char>,
    value: JsonView,
)
    requires
        distinct_keys(fields),
    ensures
        distinct_keys(put(fields, key, value)),
{
    lemma_field_at(fields, key);
    let after = put(fields, key, value);
    assert forall|i: int, j: int| 0 <= i < j < after.len() implies (#[trigger] after[i]).0 != (
    #[trigger] after[j]).0 by {
        if i < fields.len() && j < fields.len() {
            assert(fields[i].0 != fields[j].0);
        }
    }
}

impl Json {
    /// The value of KEY in an object; null without one, as in any other
    /// value.
    pub fn at(&self, key: &str) -> (r: &Json)
        ensures
            r@ == at(self@, key@),
    {
        match self {
            Json::Object(f) => match f.get(key) {
                Some(v) => v,
                None => &Json::Null,
            },
            _ => &Json::Null,
        }
    }

    /// The value of KEY in an object that has it.
    pub fn get(&self, key: &str) -> (r: Option<&Json>)
        ensures
            match r {
                Some(v) => has_field(self@, key@) && v@ == at(self@, key@),
                None => !has_field(self@, key@),
            },
    {
        match self {
            Json::Object(f) => f.get(key),
            _ => None,
        }
    }

    /// The text of a string.
    pub fn as_str(&self) -> (r: Option<&str>)
        ensures
            match r {
                Some(s) => str_of(self@) == Some(s@),
                None => str_of(self@) is None,
            },
    {
        match self {
            Json::Str(s) => Some(s.as_str()),
            _ => None,
        }
    }

    /// The text of a string, else DEFAULT.
    pub fn str_or<'a>(&'a self, default: &'a str) -> (r: &'a str)
        ensures
            r@ == str_or(self@, default@),
    {
        match self {
            Json::Str(s) => s.as_str(),
            _ => default,
        }
    }

    /// The items of an array.
    pub fn as_array(&self) -> (r: Option<&Vec<Json>>)
        ensures
            match r {
                Some(a) => self@ == JsonView::Array(json_views(a@)),
                None => self@ !is Array,
            },
    {
        match self {
            Json::Array(a) => {
                proof {
                    lemma_array_view(*a);
                }
                Some(a)
            },
            _ => None,
        }
    }

    /// The unsigned integer of a number.
    pub fn as_u64(&self) -> (r: Option<u64>)
        ensures
            r == u64_of(self@),
    {
        match self {
            Json::Number(n) => n.unsigned,
            _ => None,
        }
    }

    /// The signed integer of a number.
    pub fn as_i64(&self) -> (r: Option<i64>)
        ensures
            r == i64_of(self@),
    {
        match self {
            Json::Number(n) => n.signed,
            _ => None,
        }
    }

    pub fn is_null(&self) -> (r: bool)
        ensures
            r == (self@ is Null),
    {
        match self {
            Json::Null => true,
            _ => false,
        }
    }

    pub fn is_object(&self) -> (r: bool)
        ensures
            r == (self@ is Object),
    {
        match self {
            Json::Object(_) => true,
            _ => false,
        }
    }

    /// The string S.
    pub fn text(s: &str) -> (r: Json)
        ensures
            r@ == JsonView::Str(s@),
    {
        Json::Str(s.to_owned())
    }

    /// The string of S, else null.
    pub fn opt_text(s: &Option<String>) -> (r: Json)
        ensures
            r@ == opt_json(opt_view(*s)),
    {
        match s {
            Some(t) => Json::Str(t.clone()),
            None => Json::Null,
        }
    }

    /// The number N.
    pub fn unsigned(n: u64) -> (r: Json)
        ensures
            r@ == unsigned_json(n),
    {
        Json::Number(Number::from_u64(n))
    }

    /// A signed integer.
    pub fn signed(n: i64) -> (r: Json)
        ensures
            r@ == signed_json(n),
    {
        Json::Number(Number::from_i64(n))
    }

    /// The number of N, else null.
    pub fn opt_unsigned(n: Option<u64>) -> (r: Json)
        ensures
            r@ == opt_unsigned_json(n),
    {
        match n {
            Some(n) => Json::unsigned(n),
            None => Json::Null,
        }
    }

    /// An equal value.
    pub fn copy(&self) -> (r: Json)
        ensures
            r@ == self@,
        decreases self,
    {
        match self {
            Json::Null => Json::Null,
            Json::Bool(b) => Json::Bool(*b),
            Json::Number(n) => Json::Number(n.copy()),
            Json::Str(s) => Json::Str(s.clone()),
            Json::Array(a) => {
                let c = copy_items(a);
                proof {
                    lemma_array_view(*a);
                    lemma_array_view(c);
                }
                Json::Array(c)
            },
            Json::Object(f) => Json::Object(f.copy()),
        }
    }

    /// The value that a `serde_json::Value` holds.
    pub fn from_value(v: serde_json::Value) -> (r: Json)
        ensures
            r@ == value_view(v),
        decreases value_view(v),
    {
        match open_value(v) {
            Layer::Null => Json::Null,
            Layer::Bool(b) => Json::Bool(b),
            Layer::Number(unsigned, signed, text, raw) => Json::Number(
                Number { unsigned, signed, text, raw },
            ),
            Layer::Str(s) => Json::Str(s),
            Layer::Array(a) => {
                assert(Seq::new(a@.len(), |i: int| value_view(a@[i])) =~= value_view(v)->Array_0);
                let r = Json::Array(items_from(a));
                proof {
                    lemma_array_view(r->Array_0);
                }
                assert(r@->Array_0 =~= value_view(v)->Array_0);
                r
            },
            Layer::Object(f) => {
                let ghost fields = value_view(v)->Object_0;
                let entries = entries_from(f);
                assert(Fields { entries }@ =~= fields) by {
                    assert forall|i: int| 0 <= i < entries@.len() implies Fields { entries }@[i]
                        == fields[i] by {
                        let e = entries@[i];
                    }
                }
                Json::Object(Fields { entries })
            },
        }
    }

    /// A `serde_json::Value` that holds this value.
    pub fn to_value(&self) -> (r: serde_json::Value)
        ensures
            value_view(r) == self@,
        decreases self,
    {
        match self {
            Json::Null => make_value(Layer::Null),
            Json::Bool(b) => make_value(Layer::Bool(*b)),
            Json::Number(n) => {
                proof {
                    use_type_invariant(n);
                }
                n.raw.clone()
            },
            Json::Str(s) => make_value(Layer::Str(s.clone())),
            Json::Array(a) => {
                let values = values_of(a);
                let r = make_value(Layer::Array(values));
                proof {
                    lemma_array_view(*a);
                }
                assert(value_view(r)->Array_0 =~= self@->Array_0);
                r
            },
            Json::Object(f) => f.to_value(),
        }
    }

    /// The value that TEXT is, where it is JSON.
    pub fn parse(text: &str) -> (r: Option<Json>)
        ensures
            match r {
                Some(j) => json_parse(text@) == Some(j@),
                None => json_parse(text@) is None,
            },
    {
        match parse_value(text) {
            Some(v) => Some(Json::from_value(v)),
            None => None,
        }
    }

    /// The compact text of the value.
    pub fn to_text(&self) -> (r: String)
        ensures
            r@ == json_text(self@),
    {
        value_text(&self.to_value())
    }
}

fn items_from(a: Vec<serde_json::Value>) -> (r: Vec<Json>)
    ensures
        r@.len() == a@.len(),
        forall|k: int| 0 <= k < a@.len() ==> (#[trigger] r@[k])@ == value_view(a@[k]),
    decreases Seq::new(a@.len(), |i: int| value_view(a@[i])),
{
    let ghost all = a@;
    let ghost views = Seq::new(all.len(), |i: int| value_view(all[i]));
    let mut r: Vec<Json> = Vec::new();
    for v in it: a
        invariant
            it.seq() == all,
            views == Seq::new(all.len(), |i: int| value_view(all[i])),
            r@.len() == it.index(),
            forall|k: int| 0 <= k < r@.len() ==> (#[trigger] r@[k])@ == value_view(all[k]),
    {
        assert(views[it.index() as int] == value_view(v));
        assert(decreases_to!(views => views[it.index() as int]));
        r.push(Json::from_value(v));
    }
    r
}

fn entries_from(a: Vec<(String, serde_json::Value)>) -> (r: Vec<(String, Json)>)
    ensures
        r@.len() == a@.len(),
        forall|k: int|
            0 <= k < a@.len() ==> (#[trigger] r@[k]).0@ == a@[k].0@ && r@[k].1@ == value_view(
                a@[k].1,
            ),
    decreases Seq::new(a@.len(), |i: int| (a@[i].0@, value_view(a@[i].1))),
{
    let ghost all = a@;
    let ghost views = Seq::new(all.len(), |i: int| (all[i].0@, value_view(all[i].1)));
    let mut r: Vec<(String, Json)> = Vec::new();
    for e in it: a
        invariant
            it.seq() == all,
            views == Seq::new(all.len(), |i: int| (all[i].0@, value_view(all[i].1))),
            r@.len() == it.index(),
            forall|k: int|
                0 <= k < r@.len() ==> (#[trigger] r@[k]).0@ == all[k].0@ && r@[k].1@ == value_view(
                    all[k].1,
                ),
    {
        assert(views[it.index() as int] == (e.0@, value_view(e.1)));
        assert(decreases_to!(views => views[it.index() as int]));
        assert(decreases_to!(views[it.index() as int] => views[it.index() as int].1));
        let (key, v) = e;
        r.push((key, Json::from_value(v)));
    }
    r
}

fn values_of(a: &Vec<Json>) -> (r: Vec<serde_json::Value>)
    ensures
        r@.len() == a@.len(),
        forall|k: int| 0 <= k < a@.len() ==> value_view(#[trigger] r@[k]) == a@[k]@,
    decreases a,
{
    let mut r: Vec<serde_json::Value> = Vec::new();
    for i in 0..a.len()
        invariant
            r@.len() == i,
            forall|k: int| 0 <= k < i ==> value_view(#[trigger] r@[k]) == a@[k]@,
    {
        assert(decreases_to!(a => a@));
        assert(decreases_to!(a@ => a@[i as int]));
        r.push(a[i].to_value());
    }
    r
}

fn entry_values(a: &Vec<(String, Json)>) -> (r: Vec<(String, serde_json::Value)>)
    ensures
        r@.len() == a@.len(),
        forall|k: int|
            0 <= k < a@.len() ==> (#[trigger] r@[k]).0@ == a@[k].0@ && value_view(r@[k].1)
                == a@[k].1@,
    decreases a,
{
    let mut r: Vec<(String, serde_json::Value)> = Vec::new();
    for i in 0..a.len()
        invariant
            r@.len() == i,
            forall|k: int|
                0 <= k < i ==> (#[trigger] r@[k]).0@ == a@[k].0@ && value_view(r@[k].1)
                    == a@[k].1@,
    {
        assert(decreases_to!(a => a@));
        assert(decreases_to!(a@ => a@[i as int]));
        assert(decreases_to!(a@[i as int] => a@[i as int].1));
        let v = a[i].1.to_value();
        r.push((a[i].0.clone(), v));
    }
    r
}

impl Fields {
    fn copy(&self) -> (r: Fields)
        ensures
            r@ == self@,
        decreases self,
    {
        proof {
            use_type_invariant(self);
        }
        let entries = copy_entries(&self.entries);
        assert(Fields { entries }@ =~= self@) by {
            assert forall|i: int| 0 <= i < entries@.len() implies Fields { entries }@[i]
                == self@[i] by {
                let e = entries@[i];
            }
        }
        Fields { entries }
    }

    fn to_value(&self) -> (r: serde_json::Value)
        ensures
            value_view(r) == JsonView::Object(self@),
        decreases self,
    {
        proof {
            use_type_invariant(self);
        }
        let l = Layer::Object(entry_values(&self.entries));
        assert(layer_view(l)->Object_0 =~= self@) by {
            assert forall|i: int| 0 <= i < self@.len() implies layer_view(l)->Object_0[i]
                == self@[i] by {
                let e = l->Object_0@[i];
            }
        }
        make_value(l)
    }
}

fn copy_items(a: &Vec<Json>) -> (r: Vec<Json>)
    ensures
        json_views(r@) == json_views(a@),
    decreases a,
{
    broadcast use {json_views_push, json_views_empty};

    let mut r: Vec<Json> = Vec::new();
    for i in 0..a.len()
        invariant
            json_views(r@) == json_views(a@).take(i as int),
    {
        assert(decreases_to!(a => a@));
        assert(decreases_to!(a@ => a@[i as int]));
        r.push(a[i].copy());
        assert(json_views(a@).take(i + 1) =~= json_views(a@).take(i as int).push(a@[i as int]@));
    }
    assert(json_views(a@).take(a@.len() as int) =~= json_views(a@));
    r
}

fn copy_entries(a: &Vec<(String, Json)>) -> (r: Vec<(String, Json)>)
    ensures
        r@.len() == a@.len(),
        forall|k: int|
            0 <= k < a@.len() ==> (#[trigger] r@[k]).0@ == a@[k].0@ && r@[k].1@ == a@[k].1@,
    decreases a,
{
    let mut r: Vec<(String, Json)> = Vec::new();
    for i in 0..a.len()
        invariant
            r@.len() == i,
            forall|k: int|
                0 <= k < i ==> (#[trigger] r@[k]).0@ == a@[k].0@ && r@[k].1@ == a@[k].1@,
    {
        assert(decreases_to!(a => a@));
        assert(decreases_to!(a@ => a@[i as int]));
        assert(decreases_to!(a@[i as int] => a@[i as int].1));
        let v = a[i].1.copy();
        r.push((a[i].0.clone(), v));
    }
    r
}

// ---- What values hold --------------------------------------------------

/// A value is read as what it is, and as nothing else.
pub proof fn law_values_are_what_they_are(
    v: JsonView,
    s: Seq<char>,
    a: Seq<JsonView>,
    default: Seq<char>,
)
    ensures
        str_of(v) == Some(s) <==> v == JsonView::Str(s),
        str_or(v, default) == match v {
            JsonView::Str(t) => t,
            _ => default,
        },
        items_of(JsonView::Array(a)) == a,
        !(v is Array) ==> items_of(v).len() == 0,
        !(v is Number) ==> u64_of(v) is None && i64_of(v) is None,
{
}

/// Integers read back from the values that they are written as.
pub proof fn law_integers_read_back(n: u64, m: i64)
    ensures
        u64_of(unsigned_json(n)) == Some(n),
        n <= i64::MAX ==> i64_of(unsigned_json(n)) == Some(n as i64),
        i64_of(signed_json(m)) == Some(m),
        m < 0 ==> u64_of(signed_json(m)) is None,
        m >= 0 ==> u64_of(signed_json(m)) == Some(m as u64),
        opt_unsigned_json(Some(n)) == unsigned_json(n),
        opt_unsigned_json(None) is Null,
{
}

/// A text that is there is a string, and one that isn't is null.
pub proof fn law_optional_texts(s: Seq<char>)
    ensures
        str_of(opt_json(Some(s))) == Some(s),
        opt_json(None) is Null,
{
}

/// An object has the value of the first field with the key; without one, and
/// in any value that is no object, there is null.
pub proof fn law_fields_are_found(
    fields: Seq<(Seq<char>, JsonView)>,
    key: Seq<char>,
    i: int,
    v: JsonView,
)
    ensures
        0 <= i < fields.len() && fields[i].0 == key && (forall|k: int|
            0 <= k < i ==> (#[trigger] fields[k]).0 != key) ==> at(JsonView::Object(fields), key)
            == fields[i].1 && has_field(JsonView::Object(fields), key),
        (forall|k: int| 0 <= k < fields.len() ==> (#[trigger] fields[k]).0 != key) ==> at(
            JsonView::Object(fields),
            key,
        ) is Null && !has_field(JsonView::Object(fields), key),
        !(v is Object) ==> at(v, key) is Null && !has_field(v, key),
{
    if 0 <= i < fields.len() && fields[i].0 == key && (forall|k: int|
        0 <= k < i ==> (#[trigger] fields[k]).0 != key) {
        lemma_field_at_is(fields, key, i as nat);
    }
    if forall|k: int| 0 <= k < fields.len() ==> (#[trigger] fields[k]).0 != key {
        lemma_field_at_is(fields, key, fields.len());
    }
}

/// A field that is put in keeps the others in their places; it takes its
/// own, or the last.
pub proof fn law_fields_keep_their_places(
    fields: Seq<(Seq<char>, JsonView)>,
    key: Seq<char>,
    value: JsonView,
    i: int,
)
    ensures
        ({
            let after = put(fields, key, value);
            let known = has_field(JsonView::Object(fields), key);
            &&& known ==> after.len() == fields.len()
            &&& !known ==> after.len() == fields.len() + 1 && after.last() == (key, value)
            &&& 0 <= i < fields.len() ==> after[i].0 == fields[i].0
            &&& 0 <= i < fields.len() && fields[i].0 != key ==> after[i] == fields[i]
        }),
{
    lemma_field_at(fields, key);
}

} // verus!
