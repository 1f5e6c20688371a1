//! JSON documents as plain values, parsed with serde_json.

use vstd::prelude::*;

verus! {

/// A JSON document held as plain values.
///
/// Object entries keep the order in which the parser handed them out.
#[derive(Debug)]
pub enum Json {
    Null,
    Bool(bool),
    Number(String),
    Str(String),
    Array(Vec<Json>),
    Object(Vec<(String, Json)>),
}

/// The value of the first entry at or after position `i` whose key is `key`.
pub open spec fn field_from(entries: Seq<(String, Json)>, key: Seq<char>, i: int) -> Option<Json>
    decreases entries.len() - i,
{
    if i < 0 || i >= entries.len() {
        None
    } else if entries[i].0@ == key {
        Some(entries[i].1)
    } else {
        field_from(entries, key, i + 1)
    }
}

/// The value stored under `key` among an object's entries.
pub open spec fn field(entries: Seq<(String, Json)>, key: Seq<char>) -> Option<Json> {
    field_from(entries, key, 0)
}

impl Json {
    /// The member `key` of an object; nothing for any other kind of value.
    pub open spec fn member(self, key: Seq<char>) -> Option<Json> {
        match self {
            Json::Object(entries) => field(entries@, key),
            _ => None,
        }
    }

    /// Looks up the member `key` of an object.
    pub fn get(&self, key: &str) -> (r: Option<&Json>)
        ensures
            r is Some <==> self.member(key@) is Some,
            r is Some ==> self.member(key@) == Some(*r.unwrap()),
    {
        match self {
            Json::Object(entries) => {
                let wanted = key.to_owned();
                let mut i: usize = 0;
                while i < entries.len()
                    invariant
                        i <= entries.len(),
                        wanted@ == key@,
                        self.member(key@) == field_from(entries@, key@, i as int),
                    decreases entries.len() - i,
                {
                    if entries[i].0 == wanted {
                        assert(entries@[i as int].0@ == key@);
                        return Some(&entries[i].1);
                    }
                    i += 1;
                }
                None
            },
            _ => None,
        }
    }
}

/// A JSON value as a mathematical tree.
pub enum JsonView {
    Null,
    Bool(bool),
    Number(Seq<char>),
    Str(Seq<char>),
    Array(Seq<JsonView>),
    Object(Seq<(Seq<char>, JsonView)>),
}

pub open spec fn json_view(j: Json) -> JsonView
    decreases j,
{
    match j {
        Json::Null => JsonView::Null,
        Json::Bool(b) => JsonView::Bool(b),
        Json::Number(n) => JsonView::Number(n@),
        Json::Str(s) => JsonView::Str(s@),
        Json::Array(items) => JsonView::Array(
            Seq::new(items.len() as nat, |i: int| if 0 <= i < items.len() { json_view(items[i]) } else { JsonView::Null }),
        ),
        Json::Object(entries) => JsonView::Object(
            Seq::new(
                entries.len() as nat,
                |i: int| if 0 <= i < entries.len() { (entries[i].0@, json_view(entries[i].1)) } else { (seq![], JsonView::Null) },
            ),
        ),
    }
}

proof fn lemma_view_of_items(items: Vec<Json>)
    ensures
        json_view(Json::Array(items)) == JsonView::Array(items@.map_values(|x: Json| json_view(x))),
{
    let j = Json::Array(items);
    let s = json_view(j)->Array_0;
    assert(s.len() == items.len());
    assert forall|i: int| 0 <= i < items.len() implies s[i] == json_view(#[trigger] items@[i]) by {
        broadcast use vstd::seq::axiom_seq_index_decreases, vstd::std_specs::vec::axiom_vec_decreases_to_view;
        assert(decreases_to!(j => j->Array_0));
        assert(decreases_to!(items => items@));
        assert(decreases_to!(items@ => items@[i]));
    }
    assert(s =~= items@.map_values(|x: Json| json_view(x)));
}

proof fn lemma_view_of_entries(entries: Vec<(String, Json)>)
    ensures
        json_view(Json::Object(entries)) == JsonView::Object(entries@.map_values(|e: (String, Json)| (e.0@, json_view(e.1)))),
{
    let j = Json::Object(entries);
    let s = json_view(j)->Object_0;
    assert(s.len() == entries.len());
    assert forall|i: int| 0 <= i < entries.len() implies s[i] == (entries@[i].0@, json_view(#[trigger] entries@[i].1)) by {
        broadcast use vstd::seq::axiom_seq_index_decreases, vstd::std_specs::vec::axiom_vec_decreases_to_view;
        assert(decreases_to!(j => j->Object_0));
        assert(decreases_to!(entries => entries@));
        assert(decreases_to!(entries@ => entries@[i]));
        assert(decreases_to!(entries@[i] => entries@[i].1));
    }
    assert(s =~= entries@.map_values(|e: (String, Json)| (e.0@, json_view(e.1))));
}

impl View for Json {
    type V = JsonView;

    open spec fn view(&self) -> JsonView {
        json_view(*self)
    }
}

/// Whether containers nest at most `n` deep in `j`.
pub open spec fn nested_within(j: JsonView, n: nat) -> bool
    decreases j,
{
    match j {
        JsonView::Array(items) => n > 0 && forall|i: int| 0 <= i < items.len() ==> nested_within(#[trigger] items[i], (n - 1) as nat),
        JsonView::Object(entries) => n > 0 && forall|i: int|
            0 <= i < entries.len() ==> nested_within(#[trigger] entries[i].1, (n - 1) as nat),
        _ => true,
    }
}

proof fn lemma_nested_items(items: Seq<JsonView>, n: nat)
    requires
        nested_within(JsonView::Array(items), n),
    ensures
        n > 0,
        forall|i: int| 0 <= i < items.len() ==> nested_within(#[trigger] items[i], (n - 1) as nat),
{
    assert forall|i: int| 0 <= i < items.len() implies nested_within(#[trigger] items[i], (n - 1) as nat) by {
        broadcast use vstd::seq::axiom_seq_index_decreases;
        let j = JsonView::Array(items);
        assert(decreases_to!(j => j->Array_0));
        assert(decreases_to!(items => items[i]));
        assert(decreases_to!(JsonView::Array(items) => items[i]));
    }
}

proof fn lemma_nested_entries(entries: Seq<(Seq<char>, JsonView)>, n: nat)
    requires
        nested_within(JsonView::Object(entries), n),
    ensures
        n > 0,
        forall|i: int| 0 <= i < entries.len() ==> nested_within(#[trigger] entries[i].1, (n - 1) as nat),
{
    assert forall|i: int| 0 <= i < entries.len() implies nested_within(#[trigger] entries[i].1, (n - 1) as nat) by {
        broadcast use vstd::seq::axiom_seq_index_decreases;
        let j = JsonView::Object(entries);
        assert(decreases_to!(j => j->Object_0));
        assert(decreases_to!(entries => entries[i]));
        assert(decreases_to!(entries[i] => entries[i].1));
        assert(decreases_to!(JsonView::Object(entries) => entries[i].1));
    }
}

/// Whether serde_json accepts `text` as one JSON value.
pub uninterp spec fn json_accepts(text: Seq<char>) -> bool;

/// The tree that serde_json parses from `text`.
pub uninterp spec fn json_tree(text: Seq<char>) -> JsonView;

/// The tree that a serde_json value holds.
pub uninterp spec fn json_of(v: serde_json::Value) -> JsonView;

#[verifier::external_type_specification]
#[verifier::external_body]
pub struct ExJsonValue(serde_json::Value);

/// One level of a parsed value, with what it holds still in serde_json's form.
enum Node {
    Null,
    Bool(bool),
    Number(String),
    Str(String),
    Array(Vec<serde_json::Value>),
    Object(Vec<(String, serde_json::Value)>),
}

/// Relies on serde_json::from_str: it parses `text` into a value, and fails
/// exactly on the texts that it does not accept as JSON. Its deserializer
/// starts with a nesting allowance of 128 and fails when an array or object
/// would use it up, so containers nest less than 128 deep.
#[verifier::external_body]
fn parse_value(text: &str) -> (r: Option<serde_json::Value>)
    ensures
        r is Some <==> json_accepts(text@),
        r is Some ==> json_of(r.unwrap()) == json_tree(text@),
        r is Some ==> nested_within(json_of(r.unwrap()), 128),
{
    serde_json::from_str::<serde_json::Value>(text).ok()
}

/// Relies on the variants of serde_json::Value: it moves out the contents of one
/// level of a value (a number as the text that serde_json prints for it, an
/// object's entries in the order its map hands them out).
#[verifier::external_body]
fn node_of(v: serde_json::Value) -> (r: Node)
    ensures
        match r {
            Node::Null => json_of(v) == JsonView::Null,
            Node::Bool(b) => json_of(v) == JsonView::Bool(b),
            Node::Number(n) => json_of(v) == JsonView::Number(n@),
            Node::Str(s) => json_of(v) == JsonView::Str(s@),
            Node::Array(items) => json_of(v) == JsonView::Array(items@.map_values(|x: serde_json::Value| json_of(x))),
            Node::Object(entries) => json_of(v) == JsonView::Object(
                entries@.map_values(|e: (String, serde_json::Value)| (e.0@, json_of(e.1))),
            ),
        },
{
    match v {
        serde_json::Value::Null => Node::Null,
        serde_json::Value::Bool(b) => Node::Bool(b),
        serde_json::Value::Number(n) => Node::Number(n.to_string()),
        serde_json::Value::String(s) => Node::Str(s),
        serde_json::Value::Array(a) => Node::Array(a),
        serde_json::Value::Object(m) => Node::Object(m.into_iter().collect()),
    }
}

/// Nesting that the conversion follows: serde_json's own limit.
pub const MAX_DEPTH: usize = 128;

fn from_value(v: serde_json::Value, depth: usize) -> (r: Option<Json>)
    ensures
        r is Some ==> r.unwrap()@ == json_of(v),
        nested_within(json_of(v), depth as nat) ==> r is Some,
    decreases depth,
{
    let ghost whole = json_of(v);
    match node_of(v) {
        Node::Null => Some(Json::Null),
        Node::Bool(b) => Some(Json::Bool(b)),
        Node::Number(n) => Some(Json::Number(n)),
        Node::Str(s) => Some(Json::Str(s)),
        Node::Array(items) => {
            if depth == 0 {
                return None;
            }
            let ghost orig = items@;
            let mut items = items;
            let mut out: Vec<Json> = Vec::new();
            proof {
                if nested_within(whole, depth as nat) {
                    let mv = orig.map_values(|x: serde_json::Value| json_of(x));
                    assert(whole == JsonView::Array(mv));
                    lemma_nested_items(mv, depth as nat);
                    assert forall|m: int| 0 <= m < orig.len() implies nested_within(json_of(#[trigger] orig[m]), (depth - 1) as nat) by {
                        assert(mv[m] == json_of(orig[m]));
                    }
                }
            }
            while items.len() > 0
                invariant
                    depth > 0,
                    whole == json_of(v),
                    whole == JsonView::Array(orig.map_values(|x: serde_json::Value| json_of(x))),
                    out.len() + items.len() == orig.len(),
                    items@ == orig.subrange(out.len() as int, orig.len() as int),
                    forall|m: int| 0 <= m < out.len() ==> (#[trigger] out@[m])@ == json_of(orig[m]),
                    nested_within(whole, depth as nat) ==> forall|m: int|
                        0 <= m < orig.len() ==> nested_within(json_of(#[trigger] orig[m]), (depth - 1) as nat),
                decreases items.len(),
            {
                let ghost k = out.len() as int;
                let item = items.remove(0);
                assert(item == orig[k]);
                assert(items@ =~= orig.subrange(k + 1, orig.len() as int));
                match from_value(item, depth - 1) {
                    Some(j) => out.push(j),
                    None => {
                        assert(nested_within(whole, depth as nat) ==> nested_within(json_of(orig[k]), (depth - 1) as nat));
                        assert(!nested_within(json_of(orig[k]), (depth - 1) as nat));
                        return None;
                    },
                }
            }
            let r = Json::Array(out);
            proof {
                lemma_view_of_items(out);
                assert(out@.map_values(|x: Json| json_view(x)) =~= orig.map_values(|x: serde_json::Value| json_of(x)));
            }
            Some(r)
        },
        Node::Object(entries) => {
            if depth == 0 {
                return None;
            }
            let ghost orig = entries@;
            let mut entries = entries;
            let mut out: Vec<(String, Json)> = Vec::new();
            proof {
                if nested_within(whole, depth as nat) {
                    let mv = orig.map_values(|e: (String, serde_json::Value)| (e.0@, json_of(e.1)));
                    assert(whole == JsonView::Object(mv));
                    lemma_nested_entries(mv, depth as nat);
                    assert forall|m: int| 0 <= m < orig.len() implies nested_within(json_of((#[trigger] orig[m]).1), (depth - 1) as nat) by {
                        assert(mv[m].1 == json_of(orig[m].1));
                    }
                }
            }
            while entries.len() > 0
                invariant
                    depth > 0,
                    whole == json_of(v),
                    whole == JsonView::Object(orig.map_values(|e: (String, serde_json::Value)| (e.0@, json_of(e.1)))),
                    out.len() + entries.len() == orig.len(),
                    entries@ == orig.subrange(out.len() as int, orig.len() as int),
                    forall|m: int| 0 <= m < out.len() ==> (#[trigger] out@[m]).0@ == orig[m].0@ && out@[m].1@ == json_of(orig[m].1),
                    nested_within(whole, depth as nat) ==> forall|m: int|
                        0 <= m < orig.len() ==> nested_within(json_of((#[trigger] orig[m]).1), (depth - 1) as nat),
                decreases entries.len(),
            {
                let ghost k = out.len() as int;
                let (key, item) = entries.remove(0);
                assert(key == orig[k].0 && item == orig[k].1);
                assert(entries@ =~= orig.subrange(k + 1, orig.len() as int));
                match from_value(item, depth - 1) {
                    Some(j) => out.push((key, j)),
                    None => {
                        assert(nested_within(whole, depth as nat) ==> nested_within(json_of(orig[k].1), (depth - 1) as nat));
                        assert(!nested_within(json_of(orig[k].1), (depth - 1) as nat));
                        return None;
                    },
                }
            }
            let r = Json::Object(out);
            proof {
                lemma_view_of_entries(out);
                assert(out@.map_values(|e: (String, Json)| (e.0@, json_view(e.1))) =~= orig.map_values(
                    |e: (String, serde_json::Value)| (e.0@, json_of(e.1)),
                ));
            }
            Some(r)
        },
    }
}

/// Parses a JSON text with serde_json: the tree serde_json reads from a text
/// that it accepts, nothing for any other text.
pub fn parse_json(text: &str) -> (r: Option<Json>)
    ensures
        r is Some <==> json_accepts(text@),
        r is Some ==> r.unwrap()@ == json_tree(text@),
{
    match parse_value(text) {
        Some(v) => from_value(v, MAX_DEPTH),
        None => None,
    }
}

/// Whether a string holds exactly the text `lit`.
pub fn text_is(s: &String, lit: &str) -> (r: bool)
    ensures
        r == (s@ == lit@),
{
    let t = lit.to_owned();
    *s == t
}

/// A copy of a string list entry by entry.
pub fn copy_pairs(v: &Vec<(String, String)>) -> (r: Vec<(String, String)>)
    ensures
        r@ == v@,
{
    let mut out: Vec<(String, String)> = Vec::new();
    let mut i: usize = 0;
    while i < v.len()
        invariant
            i <= v.len(),
            out@ == v@.subrange(0, i as int),
        decreases v.len() - i,
    {
        out.push((v[i].0.clone(), v[i].1.clone()));
        i += 1;
        assert(out@ =~= v@.subrange(0, i as int));
    }
    assert(out@ =~= v@);
    out
}

/// A copy of an optional string.
pub fn copy_text(s: &Option<String>) -> (r: Option<String>)
    ensures
        r == *s,
{
    match s {
        Some(t) => Some(t.clone()),
        None => None,
    }
}

} // verus!
