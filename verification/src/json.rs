//! JSON values: what widgets are configured with and what their sources deliver.

use serde_json::Value;
use vstd::prelude::*;

use crate::text::{decimal, decimal_of, same_text};

verus! {

/// A JSON number.
#[derive(Debug, PartialEq)]
pub enum Number {
    /// A whole number that is not negative.
    PosInt(u64),
    /// A negative whole number.
    NegInt(i64),
    /// Any other number, held as the numeral that it is written with.
    Decimal(String),
}

/// A JSON value. In an object, a key that occurs again replaces its earlier value.
#[derive(Debug, PartialEq)]
pub enum Json {
    Null,
    Bool(bool),
    Number(Number),
    String(String),
    Array(Vec<Json>),
    Object(Vec<(String, Json)>),
}

/// The model of a [`Number`].
pub enum NumberView {
    PosInt(u64),
    NegInt(i64),
    Decimal(Seq<char>),
}

/// The model of a [`Json`] value: a tree whose objects are maps.
pub enum JsonView {
    Null,
    Bool(bool),
    Number(NumberView),
    String(Seq<char>),
    Array(Seq<JsonView>),
    Object(Map<Seq<char>, JsonView>),
}

impl View for Number {
    type V = NumberView;

    open spec fn view(&self) -> NumberView {
        match *self {
            Number::PosInt(n) => NumberView::PosInt(n),
            Number::NegInt(n) => NumberView::NegInt(n),
            Number::Decimal(s) => NumberView::Decimal(s@),
        }
    }
}

/// The tree that a value stands for.
pub open spec fn tree(v: Json) -> JsonView
    decreases v,
{
    match v {
        Json::Null => JsonView::Null,
        Json::Bool(b) => JsonView::Bool(b),
        Json::Number(n) => JsonView::Number(n@),
        Json::String(s) => JsonView::String(s@),
        Json::Array(items) => JsonView::Array(trees(items@)),
        Json::Object(entries) => JsonView::Object(members(entries@)),
    }
}

/// The trees of a list of values.
pub open spec fn trees(items: Seq<Json>) -> Seq<JsonView>
    decreases items,
{
    if items.len() == 0 {
        Seq::empty()
    } else {
        trees(items.drop_last()).push(tree(items.last()))
    }
}

/// The members of an object: later entries replace earlier ones under the same key.
pub open spec fn members(entries: Seq<(String, Json)>) -> Map<Seq<char>, JsonView>
    decreases entries,
{
    if entries.len() == 0 {
        Map::empty()
    } else {
        members(entries.drop_last()).insert(entries.last().0@, tree(entries.last().1))
    }
}

impl View for Json {
    type V = JsonView;

    open spec fn view(&self) -> JsonView {
        tree(*self)
    }
}

pub proof fn lemma_trees(items: Seq<Json>)
    ensures
        trees(items).len() == items.len(),
        forall|i: int| 0 <= i < items.len() ==> #[trigger] trees(items)[i] == tree(items[i]),
    decreases items.len(),
{
    if items.len() > 0 {
        lemma_trees(items.drop_last());
    }
}

pub proof fn lemma_trees_push(items: Seq<Json>, v: Json)
    ensures
        trees(items.push(v)) == trees(items).push(tree(v)),
{
    assert(items.push(v).drop_last() =~= items);
}

pub proof fn lemma_members_push(entries: Seq<(String, Json)>, e: (String, Json))
    ensures
        members(entries.push(e)) == members(entries).insert(e.0@, tree(e.1)),
{
    assert(entries.push(e).drop_last() =~= entries);
}

/// Adds a member to the entries of an object.
pub fn add_member(entries: &mut Vec<(String, Json)>, key: &str, v: Json)
    ensures
        members(final(entries)@) == members(old(entries)@).insert(key@, v@),
{
    let ghost before = entries@;
    entries.push((key.to_owned(), v));
    proof {
        lemma_members_push(before, entries@.last());
        assert(entries@ =~= before.push(entries@.last()));
    }
}

impl Clone for Number {
    fn clone(&self) -> (r: Number)
        ensures
            r == *self,
    {
        match self {
            Number::PosInt(n) => Number::PosInt(*n),
            Number::NegInt(n) => Number::NegInt(*n),
            Number::Decimal(s) => Number::Decimal(s.clone()),
        }
    }
}

impl Clone for Json {
    fn clone(&self) -> (r: Json)
        ensures
            r@ == self@,
        decreases self,
    {
        match self {
            Json::Null => Json::Null,
            Json::Bool(b) => Json::Bool(*b),
            Json::Number(n) => Json::Number(n.clone()),
            Json::String(s) => Json::String(s.clone()),
            Json::Array(items) => {
                let mut out: Vec<Json> = Vec::new();
                let mut i: usize = 0;
                assert(items@.take(0) =~= Seq::<Json>::empty());
                while i < items.len()
                    invariant
                        i <= items@.len(),
                        *self == Json::Array(*items),
                        trees(out@) == trees(items@.take(i as int)),
                    decreases items@.len() - i,
                {
                    assert(decreases_to!(*self => self->Array_0));
                    assert(decreases_to!(self->Array_0 => self->Array_0@));
                    assert(decreases_to!(items@ => items@[i as int]));
                    let item = items[i].clone();
                    proof {
                        lemma_trees_push(out@, item);
                        lemma_trees_push(items@.take(i as int), items@[i as int]);
                        assert(items@.take(i as int).push(items@[i as int]) =~= items@.take(i + 1));
                    }
                    out.push(item);
                    i = i + 1;
                }
                assert(items@.take(items@.len() as int) =~= items@);
                Json::Array(out)
            },
            Json::Object(entries) => {
                let mut out: Vec<(String, Json)> = Vec::new();
                let mut i: usize = 0;
                assert(entries@.take(0) =~= Seq::<(String, Json)>::empty());
                while i < entries.len()
                    invariant
                        i <= entries@.len(),
                        *self == Json::Object(*entries),
                        members(out@) == members(entries@.take(i as int)),
                    decreases entries@.len() - i,
                {
                    let entry = &entries[i];
                    assert(decreases_to!(*self => self->Object_0));
                    assert(decreases_to!(self->Object_0 => self->Object_0@));
                    assert(decreases_to!(entries@ => entries@[i as int]));
                    assert(decreases_to!(entries@[i as int] => entries@[i as int].1));
                    let copy = (entry.0.clone(), entry.1.clone());
                    proof {
                        lemma_members_push(out@, copy);
                        lemma_members_push(entries@.take(i as int), entries@[i as int]);
                        assert(entries@.take(i as int).push(entries@[i as int]) =~= entries@.take(
                            i + 1,
                        ));
                    }
                    out.push(copy);
                    i = i + 1;
                }
                assert(entries@.take(entries@.len() as int) =~= entries@);
                Json::Object(out)
            },
        }
    }
}

// ---- reading a value -----------------------------------------------------

impl JsonView {
    /// The member of an object under a key.
    pub open spec fn member(self, key: Seq<char>) -> Option<JsonView> {
        match self {
            JsonView::Object(m) if m.dom().contains(key) => Some(m[key]),
            _ => None,
        }
    }

    /// The text of a string value.
    pub open spec fn text(self) -> Option<Seq<char>> {
        match self {
            JsonView::String(s) => Some(s),
            _ => None,
        }
    }

    /// The text of a string member.
    pub open spec fn text_at(self, key: Seq<char>) -> Option<Seq<char>> {
        match self.member(key) {
            Some(v) => v.text(),
            None => None,
        }
    }

    /// The value of a whole number that is not negative.
    pub open spec fn whole(self) -> Option<u64> {
        match self {
            JsonView::Number(NumberView::PosInt(n)) => Some(n),
            _ => None,
        }
    }

    /// The value of a whole-number member that is not negative.
    pub open spec fn whole_at(self, key: Seq<char>) -> Option<u64> {
        match self.member(key) {
            Some(v) => v.whole(),
            None => None,
        }
    }
}

/// The view of an optional value.
pub open spec fn opt_tree(v: Option<Json>) -> Option<JsonView> {
    match v {
        Some(j) => Some(j@),
        None => None,
    }
}

proof fn lemma_members_last(entries: Seq<(String, Json)>, i: int)
    requires
        0 <= i < entries.len(),
        forall|j: int| i < j < entries.len() ==> (#[trigger] entries[j]).0@ != entries[i].0@,
    ensures
        members(entries).dom().contains(entries[i].0@),
        members(entries)[entries[i].0@] == tree(entries[i].1),
    decreases entries.len(),
{
    if i < entries.len() - 1 {
        assert(entries[entries.len() - 1].0@ != entries[i].0@);
        lemma_members_last(entries.drop_last(), i);
    }
}

proof fn lemma_members_absent(entries: Seq<(String, Json)>, key: Seq<char>)
    requires
        forall|j: int| 0 <= j < entries.len() ==> (#[trigger] entries[j]).0@ != key,
    ensures
        !members(entries).dom().contains(key),
    decreases entries.len(),
{
    if entries.len() > 0 {
        assert(entries[entries.len() - 1].0@ != key);
        lemma_members_absent(entries.drop_last(), key);
    }
}

impl Json {
    /// The member of an object under a key.
    pub fn get(&self, key: &str) -> (r: Option<&Json>)
        ensures
            match r {
                Some(v) => self@.member(key@) == Some(v@),
                None => self@.member(key@) is None,
            },
    {
        match self {
            Json::Object(entries) => {
                let mut i: usize = entries.len();
                while i > 0
                    invariant
                        i <= entries@.len(),
                        forall|j: int| i <= j < entries@.len() ==> (#[trigger] entries@[j]).0@ != key@,
                        self@ == JsonView::Object(members(entries@)),
                    decreases i,
                {
                    i = i - 1;
                    if same_text(entries[i].0.as_str(), key) {
                        proof {
                            lemma_members_last(entries@, i as int);
                        }
                        return Some(&entries[i].1);
                    }
                }
                proof {
                    lemma_members_absent(entries@, key@);
                }
                None
            },
            _ => None,
        }
    }

    /// The text of a string value.
    pub fn as_str(&self) -> (r: Option<&str>)
        ensures
            match r {
                Some(s) => self@.text() == Some(s@),
                None => self@.text() is None,
            },
    {
        match self {
            Json::String(s) => Some(s.as_str()),
            _ => None,
        }
    }

    /// The value of a whole number that is not negative.
    pub fn as_u64(&self) -> (r: Option<u64>)
        ensures
            r == self@.whole(),
    {
        match self {
            Json::Number(Number::PosInt(n)) => Some(*n),
            _ => None,
        }
    }

    /// The text of a string member.
    pub fn str_at(&self, key: &str) -> (r: Option<&str>)
        ensures
            match r {
                Some(s) => self@.text_at(key@) == Some(s@),
                None => self@.text_at(key@) is None,
            },
    {
        match self.get(key) {
            Some(v) => v.as_str(),
            None => None,
        }
    }

    /// The value of a whole-number member that is not negative.
    pub fn u64_at(&self, key: &str) -> (r: Option<u64>)
        ensures
            r == self@.whole_at(key@),
    {
        match self.get(key) {
            Some(v) => v.as_u64(),
            None => None,
        }
    }
}

/// The numeral of a number.
pub open spec fn numeral(n: NumberView) -> Seq<char> {
    match n {
        NumberView::PosInt(v) => decimal_of(v as nat),
        NumberView::NegInt(v) => if v < 0 {
            seq!['-'] + decimal_of((-v) as nat)
        } else {
            decimal_of(v as nat)
        },
        NumberView::Decimal(s) => s,
    }
}

/// The numeral of a number.
pub fn number_text(n: &Number) -> (r: String)
    ensures
        r@ == numeral(n@),
{
    match n {
        Number::PosInt(v) => decimal(*v),
        Number::NegInt(v) => {
            if *v < 0 {
                let mut out = String::new();
                out.push('-');
                let m: u64 = ((-(*v as i128)) as u64);
                crate::text::push_decimal(&mut out, m);
                assert(out@ =~= seq!['-'] + decimal_of((-*v) as nat));
                out
            } else {
                decimal(*v as u64)
            }
        },
        Number::Decimal(s) => s.clone(),
    }
}

// ---- text to value and back ----------------------------------------------

/// `serde_json::Value`, which text is parsed to and printed from.
#[verifier::external_type_specification]
#[verifier::external_body]
pub struct ExJsonValue(serde_json::Value);

/// What a `serde_json::Value` holds.
pub uninterp spec fn value_tree(v: serde_json::Value) -> JsonView;

/// What `serde_json::from_str` makes of a text: a value, or the message of its error.
pub uninterp spec fn parsed_text(text: Seq<char>) -> Result<JsonView, Seq<char>>;

/// What becomes of a numeral that is no 64-bit integer when it is read as a 64-bit float and
/// `serde_json::Number::from_f64` makes a number of it: the numeral that this number is printed
/// with, or nothing when there is no finite number.
pub uninterp spec fn stored_decimal(numeral: Seq<char>) -> Option<Seq<char>>;

/// What a `serde_json::Value` keeps of a number: whole numbers as they are, a numeral as what
/// it is read as, and null for one that cannot be read.
pub open spec fn stored_number(n: NumberView) -> JsonView {
    match n {
        NumberView::PosInt(_) => JsonView::Number(n),
        NumberView::NegInt(v) => if v < 0 {
            JsonView::Number(n)
        } else {
            JsonView::Number(NumberView::PosInt(v as u64))
        },
        NumberView::Decimal(s) => match stored_decimal(s) {
            Some(t) => JsonView::Number(NumberView::Decimal(t)),
            None => JsonView::Null,
        },
    }
}

/// What a `serde_json::Value` keeps of a tree that is written into it: the same tree, with
/// what it keeps of each number.
pub open spec fn stored_tree(v: JsonView) -> JsonView
    decreases v,
{
    match v {
        JsonView::Number(n) => stored_number(n),
        JsonView::Array(items) => JsonView::Array(
            Seq::new(
                items.len(),
                |i: int|
                    if 0 <= i < items.len() {
                        stored_tree(items[i])
                    } else {
                        JsonView::Null
                    },
            ),
        ),
        JsonView::Object(m) => JsonView::Object(
            Map::new(
                |k: Seq<char>| m.contains_key(k),
                |k: Seq<char>|
                    if m.contains_key(k) {
                        stored_tree(m[k])
                    } else {
                        JsonView::Null
                    },
            ),
        ),
        _ => v,
    }
}

/// The compact text that `serde_json::to_string` prints of a value.
pub uninterp spec fn printed_tree(v: JsonView) -> Seq<char>;

/// Calls `serde_json::from_str::<Value>`. The value, or the error's message, is the one
/// that [`parsed_text`] names for the text.
#[verifier::external_body]
fn parse_value(text: &str) -> (r: Result<serde_json::Value, String>)
    ensures
        match r {
            Ok(v) => parsed_text(text@) == Ok::<JsonView, Seq<char>>(value_tree(v)),
            Err(e) => parsed_text(text@) == Err::<JsonView, Seq<char>>(e@),
        },
{
    serde_json::from_str::<serde_json::Value>(text).map_err(|e| e.to_string())
}

/// Reads a `serde_json::Value` into a [`Json`], variant by variant. A number that is no
/// 64-bit integer keeps the numeral that `Number`'s `Display` writes.
#[verifier::external_body]
fn json_of_value(v: &Value) -> (r: Json)
    ensures
        r@ == value_tree(*v),
{
    match v {
        Value::Null => Json::Null,
        Value::Bool(b) => Json::Bool(*b),
        Value::Number(n) => Json::Number(match (n.as_u64(), n.as_i64()) {
            (Some(u), _) => Number::PosInt(u),
            (None, Some(i)) => Number::NegInt(i),
            (None, None) => Number::Decimal(n.to_string()),
        }),
        Value::String(s) => Json::String(s.clone()),
        Value::Array(a) => Json::Array(a.iter().map(json_of_value).collect()),
        Value::Object(m) => Json::Object(
            m.iter().map(|(k, x)| (k.clone(), json_of_value(x))).collect()),
    }
}

/// Writes a [`Json`] into a `Value`, variant by variant. A numeral goes through
/// `Number::from_f64`, and one that stands for no finite number becomes null.
#[verifier::external_body]
fn value_of_json(v: &Json) -> (r: Value)
    ensures
        value_tree(r) == stored_tree(v@),
        *v matches Json::Number(Number::Decimal(s)) ==> value_tree(r) == (match stored_decimal(s@) {
            Some(t) => JsonView::Number(NumberView::Decimal(t)),
            None => JsonView::Null,
        }),
{
    match v {
        Json::Null => Value::Null,
        Json::Bool(b) => Value::Bool(*b),
        Json::Number(Number::PosInt(n)) => Value::from(*n),
        Json::Number(Number::NegInt(n)) => Value::from(*n),
        Json::Number(Number::Decimal(s)) => s.parse().ok().and_then(serde_json::Number::from_f64)
            .map_or(Value::Null, Value::Number),
        Json::String(s) => Value::String(s.clone()),
        Json::Array(a) => Value::Array(a.iter().map(value_of_json).collect()),
        Json::Object(m) => Value::Object(
            m.iter().map(|(k, x)| (k.clone(), value_of_json(x))).collect()),
    }
}

/// Calls `serde_json::to_string`, with the empty text for a failure.
#[verifier::external_body]
fn value_text(v: &serde_json::Value) -> (r: String)
    ensures
        r@ == printed_tree(value_tree(*v)),
{
    serde_json::to_string(v).unwrap_or_default()
}

/// Parses a JSON text.
pub fn parse_json(text: &str) -> (r: Result<Json, String>)
    ensures
        match r {
            Ok(v) => parsed_text(text@) == Ok::<JsonView, Seq<char>>(v@),
            Err(e) => parsed_text(text@) == Err::<JsonView, Seq<char>>(e@),
        },
{
    match parse_value(text) {
        Ok(v) => Ok(json_of_value(&v)),
        Err(e) => Err(e),
    }
}

/// The compact one-line text of a value.
pub fn compact_json(v: &Json) -> (r: String)
    ensures
        r@ == printed_tree(stored_tree(v@)),
{
    let value = value_of_json(v);
    value_text(&value)
}

impl Json {
    /// The value that a `serde_json::Value` holds.
    pub fn from_value(v: &Value) -> (r: Json)
        ensures
            r@ == value_tree(*v),
    {
        json_of_value(v)
    }

    /// The `serde_json::Value` that keeps this value.
    pub fn to_value(&self) -> (r: Value)
        ensures
            value_tree(r) == stored_tree(self@),
    {
        value_of_json(self)
    }
}

/// Whether every number of a tree is a whole one, held as what it is: a negative number as a
/// negative one.
pub open spec fn whole_numbers(v: JsonView) -> bool
    decreases v,
{
    match v {
        JsonView::Number(NumberView::NegInt(n)) => n < 0,
        JsonView::Number(NumberView::Decimal(_)) => false,
        JsonView::Array(items) => forall|i: int|
            0 <= i < items.len() ==> whole_numbers(#[trigger] items[i]),
        JsonView::Object(m) => forall|k: Seq<char>|
            m.contains_key(k) ==> whole_numbers(#[trigger] m[k]),
        _ => true,
    }
}

/// A tree whose numbers are whole is kept as it is.
pub proof fn law_whole_numbers_are_kept(v: JsonView)
    requires
        whole_numbers(v),
    ensures
        stored_tree(v) == v,
    decreases v,
{
    match v {
        JsonView::Array(items) => {
            assert forall|i: int| 0 <= i < items.len() implies stored_tree(#[trigger] items[i])
                == items[i] by {
                assert(whole_numbers(items[i]));
                law_whole_numbers_are_kept(items[i]);
            }
            assert(stored_tree(v)->Array_0 =~= items);
        },
        JsonView::Object(m) => {
            assert forall|k: Seq<char>| m.contains_key(k) implies stored_tree(#[trigger] m[k])
                == m[k] by {
                assert(whole_numbers(m[k]));
                law_whole_numbers_are_kept(m[k]);
            }
            assert(stored_tree(v)->Object_0 =~= m);
        },
        _ => {},
    }
}

} // verus!
