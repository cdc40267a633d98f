//! JSON documents as plain trees.
//!
//! The text is read by `serde_json`; what the rest of the library works on is [`Json`], a tree of
//! plain values, and in contracts its contents, [`Doc`].

use serde_json::Value;
use vstd::prelude::*;

use crate::number::Double;
use crate::text::same_text;

verus! {

/// What a JSON document says.
pub enum Doc {
    Null,
    Bool(bool),
    /// A whole number from zero up.
    Unsigned(u64),
    /// A whole number below zero.
    Negative(i64),
    /// Any other number, by its bits in double precision.
    Real(Double),
    Text(Seq<char>),
    List(Seq<Doc>),
    /// Keys with their values; of two equal keys the later one counts.
    Object(Seq<(Seq<char>, Doc)>),
}

/// A JSON document as a tree of plain values.
#[derive(Debug)]
pub enum Json {
    Null,
    Bool(bool),
    Unsigned(u64),
    Negative(i64),
    Real(Double),
    Text(String),
    List(Vec<Json>),
    Object(Vec<(String, Json)>),
}

impl Json {
    pub open spec fn doc(self) -> Doc
        decreases self,
    {
        match self {
            Json::Null => Doc::Null,
            Json::Bool(b) => Doc::Bool(b),
            Json::Unsigned(n) => Doc::Unsigned(n),
            Json::Negative(n) => Doc::Negative(n),
            Json::Real(d) => Doc::Real(d),
            Json::Text(s) => Doc::Text(s@),
            Json::List(items) => Doc::List(docs(items@)),
            Json::Object(entries) => Doc::Object(fields(entries@)),
        }
    }
}

pub open spec fn docs(items: Seq<Json>) -> Seq<Doc>
    decreases items,
{
    if items.len() == 0 {
        seq![]
    } else {
        docs(items.drop_last()).push(items.last().doc())
    }
}

pub open spec fn fields(entries: Seq<(String, Json)>) -> Seq<(Seq<char>, Doc)>
    decreases entries,
{
    if entries.len() == 0 {
        seq![]
    } else {
        fields(entries.drop_last()).push((entries.last().0@, entries.last().1.doc()))
    }
}

pub proof fn lemma_docs(items: Seq<Json>)
    ensures
        docs(items).len() == items.len(),
        forall|i: int| 0 <= i < items.len() ==> #[trigger] docs(items)[i] == items[i].doc(),
    decreases items.len(),
{
    if items.len() > 0 {
        lemma_docs(items.drop_last());
    }
}

pub proof fn lemma_fields(entries: Seq<(String, Json)>)
    ensures
        fields(entries).len() == entries.len(),
        forall|i: int|
            0 <= i < entries.len() ==> #[trigger] fields(entries)[i] == (
                entries[i].0@,
                entries[i].1.doc(),
            ),
    decreases entries.len(),
{
    if entries.len() > 0 {
        lemma_fields(entries.drop_last());
    }
}

/// The value of a key, where there is one.
pub open spec fn field(entries: Seq<(Seq<char>, Doc)>, key: Seq<char>) -> Option<Doc>
    decreases entries.len(),
{
    if entries.len() == 0 {
        None
    } else if entries.last().0 == key {
        Some(entries.last().1)
    } else {
        field(entries.drop_last(), key)
    }
}

/// The entries with a key set to a value: in its place, or at the end where it is new.
pub open spec fn with_field(
    entries: Seq<(Seq<char>, Doc)>,
    key: Seq<char>,
    value: Doc,
) -> Seq<(Seq<char>, Doc)>
    decreases entries.len(),
{
    if entries.len() == 0 {
        seq![(key, value)]
    } else if entries.last().0 == key {
        entries.drop_last().push((key, value))
    } else if field(entries, key) is Some {
        with_field(entries.drop_last(), key, value).push(entries.last())
    } else {
        entries.push((key, value))
    }
}

/// The entries without a key.
pub open spec fn without_field(
    entries: Seq<(Seq<char>, Doc)>,
    key: Seq<char>,
) -> Seq<(Seq<char>, Doc)>
    decreases entries.len(),
{
    if entries.len() == 0 {
        entries
    } else if entries.last().0 == key {
        without_field(entries.drop_last(), key)
    } else {
        without_field(entries.drop_last(), key).push(entries.last())
    }
}

/// A key that was set reads back; the other keys keep their values.
pub proof fn lemma_with_field(
    entries: Seq<(Seq<char>, Doc)>,
    key: Seq<char>,
    value: Doc,
    other: Seq<char>,
)
    ensures
        field(with_field(entries, key, value), other) == (if other == key {
            Some(value)
        } else {
            field(entries, other)
        }),
    decreases entries.len(),
{
    reveal_with_fuel(field, 2);
    if entries.len() == 0 {
        assert(with_field(entries, key, value).drop_last() =~= entries);
    } else if entries.last().0 == key {
        assert(entries.drop_last().push((key, value)).drop_last() =~= entries.drop_last());
    } else if field(entries, key) is Some {
        lemma_with_field(entries.drop_last(), key, value, other);
        let rest = with_field(entries.drop_last(), key, value);
        assert(rest.push(entries.last()).drop_last() =~= rest);
    } else {
        assert(entries.push((key, value)).drop_last() =~= entries);
    }
}

/// A key that was removed is gone; the other keys keep their values.
pub proof fn lemma_without_field(
    entries: Seq<(Seq<char>, Doc)>,
    key: Seq<char>,
    other: Seq<char>,
)
    ensures
        field(without_field(entries, key), other) == (if other == key {
            None::<Doc>
        } else {
            field(entries, other)
        }),
    decreases entries.len(),
{
    if entries.len() > 0 {
        lemma_without_field(entries.drop_last(), key, other);
        let rest = without_field(entries.drop_last(), key);
        assert(rest.push(entries.last()).drop_last() =~= rest);
    }
}

/// `serde_json::Value`, the outside crate's document.
#[verifier::external_type_specification]
#[verifier::external_body]
pub struct ExValue(serde_json::Value);

/// What a `serde_json::Value` holds. Its objects are ordered by their keys, none of which occurs
/// twice.
pub uninterp spec fn document(value: serde_json::Value) -> Doc;

/// The document that `serde_json` reads from a text, or nothing where the text is not JSON.
pub uninterp spec fn json_of(text: Seq<char>) -> Option<Doc>;

/// `serde_json::from_str` into a `Value`: whether the text is JSON, and what it says, depends on
/// the text alone.
#[verifier::external_body]
fn value_of(text: &str) -> (r: Option<Value>)
    ensures
        match r {
            Some(value) => json_of(text@) == Some(document(value)),
            None => json_of(text@) is None,
        },
{
    serde_json::from_str(text).ok()
}

/// One level of a `serde_json::Value`. A number comes as what `Number::as_u64`, `Number::as_i64`
/// and the bits of `Number::as_f64` give for it.
enum Node<'a> {
    Null,
    Bool(bool),
    Number(Option<u64>, Option<i64>, Option<u64>),
    Text(&'a String),
    List(&'a Vec<Value>),
    Object(Vec<(&'a String, &'a Value)>),
}

/// A number by its three readings: whole and from zero up, whole, or any.
spec fn numeral(unsigned: Option<u64>, signed: Option<i64>, bits: Option<u64>) -> Doc {
    match (unsigned, signed) {
        (Some(n), _) => Doc::Unsigned(n),
        (None, Some(n)) => Doc::Negative(n),
        (None, None) => Doc::Real(Double { bits: bits.unwrap_or(0) }),
    }
}

impl Node<'_> {
    /// The node is the top level of a document.
    spec fn tops(self, doc: Doc) -> bool {
        match self {
            Node::Null => doc == Doc::Null,
            Node::Bool(b) => doc == Doc::Bool(b),
            Node::Number(unsigned, signed, bits) => doc == numeral(unsigned, signed, bits),
            Node::Text(s) => doc == Doc::Text(s@),
            Node::List(items) => doc is List && doc->List_0.len() == items@.len() && forall|i: int|
                0 <= i < items@.len() ==> #[trigger] doc->List_0[i] == document(items@[i]),
            Node::Object(entries) => doc is Object && doc->Object_0.len() == entries@.len()
                && forall|i: int|
                0 <= i < entries@.len() ==> #[trigger] doc->Object_0[i] == (
                    entries@[i].0@,
                    document(*entries@[i].1),
                ),
        }
    }
}

/// Tells the variants of a `serde_json::Value` apart and hands out their fields; the entries of
/// an object come in the order of `serde_json::Map::iter`.
#[verifier::external_body]
fn opened<'a>(value: &'a Value) -> (r: Node<'a>)
    ensures
        r.tops(document(*value)),
{
    match value {
        Value::Null => Node::Null,
        Value::Bool(b) => Node::Bool(*b),
        Value::Number(n) => {
            Node::Number(n.as_u64(), n.as_i64(), n.as_f64().map(|x| x.to_bits()))
        },
        Value::String(s) => Node::Text(s),
        Value::Array(items) => Node::List(items),
        Value::Object(map) => Node::Object(map.iter().collect()),
    }
}

fn tree_of(value: &Value) -> (r: Json)
    ensures
        r.doc() == document(*value),
    decreases document(*value),
{
    let node = opened(value);
    match node {
        Node::Null => Json::Null,
        Node::Bool(b) => Json::Bool(b),
        Node::Number(unsigned, signed, bits) => match unsigned {
            Some(n) => Json::Unsigned(n),
            None => match signed {
                Some(n) => Json::Negative(n),
                None => Json::Real(
                    Double {
                        bits: match bits {
                            Some(bits) => bits,
                            None => 0,
                        },
                    },
                ),
            },
        },
        Node::Text(s) => Json::Text(s.clone()),
        Node::List(items) => {
            let ghost whole = document(*value)->List_0;
            let mut list: Vec<Json> = Vec::new();
            let mut i: usize = 0;
            while i < items.len()
                invariant
                    i <= items.len(),
                    document(*value) == Doc::List(whole),
                    whole.len() == items.len(),
                    forall|j: int|
                        0 <= j < items@.len() ==> #[trigger] whole[j] == document(items@[j]),
                    docs(list@) == whole.take(i as int),
                decreases items.len() - i,
            {
                proof {
                    assert(whole[i as int] == document(items@[i as int]));
                    assert(decreases_to!(document(*value) => document(*value)->List_0));
                    assert(decreases_to!(whole => whole[i as int]));
                }
                let item = tree_of(&items[i]);
                let ghost before = list@;
                list.push(item);
                proof {
                    assert(list@.drop_last() =~= before);
                    assert(whole.take(i + 1) =~= whole.take(i as int).push(whole[i as int]));
                }
                i += 1;
            }
            proof {
                assert(whole.take(whole.len() as int) =~= whole);
            }
            Json::List(list)
        },
        Node::Object(entries) => {
            let ghost whole = document(*value)->Object_0;
            let mut list: Vec<(String, Json)> = Vec::new();
            let mut i: usize = 0;
            while i < entries.len()
                invariant
                    i <= entries.len(),
                    document(*value) == Doc::Object(whole),
                    whole.len() == entries.len(),
                    forall|j: int|
                        0 <= j < entries@.len() ==> #[trigger] whole[j] == (
                            entries@[j].0@,
                            document(*entries@[j].1),
                        ),
                    fields(list@) == whole.take(i as int),
                decreases entries.len() - i,
            {
                proof {
                    assert(whole[i as int].1 == document(*entries@[i as int].1));
                    assert(decreases_to!(document(*value) => document(*value)->Object_0));
                    assert(decreases_to!(whole => whole[i as int]));
                    assert(decreases_to!(whole[i as int] => whole[i as int].1));
                }
                let item = tree_of(entries[i].1);
                let ghost before = list@;
                list.push((entries[i].0.clone(), item));
                proof {
                    assert(list@.drop_last() =~= before);
                    assert(whole.take(i + 1) =~= whole.take(i as int).push(whole[i as int]));
                }
                i += 1;
            }
            proof {
                assert(whole.take(whole.len() as int) =~= whole);
            }
            Json::Object(list)
        },
    }
}

/// Reads a JSON text; nothing where it is not JSON.
pub fn read(text: &str) -> (r: Option<Json>)
    ensures
        match r {
            Some(json) => json_of(text@) == Some(json.doc()),
            None => json_of(text@) is None,
        },
{
    match value_of(text) {
        Some(value) => Some(tree_of(&value)),
        None => None,
    }
}

proof fn lemma_last_entry(entries: Seq<(Seq<char>, Doc)>, key: Seq<char>, at: int, value: Doc)
    requires
        0 <= at < entries.len(),
        entries[at].0 == key,
        forall|j: int| at < j < entries.len() ==> (#[trigger] entries[j]).0 != key,
    ensures
        field(entries, key) == Some(entries[at].1),
        with_field(entries, key, value) == entries.update(at, (key, value)),
        without_field(entries.remove(at), key) == without_field(entries, key),
    decreases entries.len(),
{
    let rest = entries.drop_last();
    if at == entries.len() - 1 {
        assert(entries.remove(at) =~= rest);
        assert(entries.update(at, (key, value)) =~= rest.push((key, value)));
    } else {
        assert(rest[at] == entries[at]);
        assert forall|j: int| at < j < rest.len() implies (#[trigger] rest[j]).0 != key by {
            assert(rest[j] == entries[j]);
        }
        lemma_last_entry(rest, key, at, value);
        assert(entries.last().0 != key) by {
            assert(entries[entries.len() - 1].0 != key);
        }
        assert(entries.update(at, (key, value)) =~= rest.update(at, (key, value)).push(
            entries.last(),
        ));
        assert(entries.remove(at).drop_last() =~= rest.remove(at));
        assert(entries.remove(at).last() == entries.last());
    }
}

proof fn lemma_no_entry(entries: Seq<(Seq<char>, Doc)>, key: Seq<char>, value: Doc)
    requires
        forall|j: int| 0 <= j < entries.len() ==> (#[trigger] entries[j]).0 != key,
    ensures
        field(entries, key) is None,
        with_field(entries, key, value) == entries.push((key, value)),
        without_field(entries, key) == entries,
    decreases entries.len(),
{
    if entries.len() > 0 {
        let rest = entries.drop_last();
        assert forall|j: int| 0 <= j < rest.len() implies (#[trigger] rest[j]).0 != key by {
            assert(rest[j] == entries[j]);
        }
        lemma_no_entry(rest, key, value);
        assert(entries[entries.len() - 1].0 != key);
        assert(rest.push(entries.last()) =~= entries);
    } else {
        assert(entries.push((key, value)) =~= seq![(key, value)]);
    }
}

/// Where a key stands for the last time.
fn last_position(entries: &Vec<(String, Json)>, key: &str) -> (r: Option<usize>)
    ensures
        match r {
            Some(at) => at < entries.len() && entries@[at as int].0@ == key@ && forall|j: int|
                at < j < entries.len() ==> (#[trigger] entries@[j]).0@ != key@,
            None => forall|j: int| 0 <= j < entries.len() ==> (#[trigger] entries@[j]).0@ != key@,
        },
{
    let mut i: usize = entries.len();
    while i > 0
        invariant
            i <= entries.len(),
            forall|j: int| i <= j < entries.len() ==> (#[trigger] entries@[j]).0@ != key@,
        decreases i,
    {
        i -= 1;
        if same_text(entries[i].0.as_str(), key) {
            return Some(i);
        }
    }
    None
}

proof fn lemma_position(entries: Seq<(String, Json)>, key: Seq<char>, at: Option<usize>, value: Doc)
    requires
        match at {
            Some(at) => at < entries.len() && entries[at as int].0@ == key && forall|j: int|
                at < j < entries.len() ==> (#[trigger] entries[j]).0@ != key,
            None => forall|j: int| 0 <= j < entries.len() ==> (#[trigger] entries[j]).0@ != key,
        },
    ensures
        match at {
            Some(at) => {
                &&& field(fields(entries), key) == Some(entries[at as int].1.doc())
                &&& with_field(fields(entries), key, value) == fields(entries).update(
                    at as int,
                    (key, value),
                )
                &&& without_field(fields(entries).remove(at as int), key) == without_field(
                    fields(entries),
                    key,
                )
            },
            None => {
                &&& field(fields(entries), key) is None
                &&& with_field(fields(entries), key, value) == fields(entries).push((key, value))
                &&& without_field(fields(entries), key) == fields(entries)
            },
        },
{
    lemma_fields(entries);
    let d = fields(entries);
    match at {
        Some(at) => {
            assert forall|j: int| at < j < d.len() implies (#[trigger] d[j]).0 != key by {
                assert(entries[j].0@ != key);
            }
            lemma_last_entry(d, key, at as int, value);
        },
        None => {
            assert forall|j: int| 0 <= j < d.len() implies (#[trigger] d[j]).0 != key by {
                assert(entries[j].0@ != key);
            }
            lemma_no_entry(d, key, value);
        },
    }
}

/// The value of a key, where there is one.
pub fn lookup<'a>(entries: &'a Vec<(String, Json)>, key: &str) -> (r: Option<&'a Json>)
    ensures
        match r {
            Some(json) => field(fields(entries@), key@) == Some(json.doc()),
            None => field(fields(entries@), key@) is None,
        },
{
    let at = last_position(entries, key);
    proof {
        lemma_position(entries@, key@, at, Doc::Null);
    }
    match at {
        Some(at) => Some(&entries[at].1),
        None => None,
    }
}

/// Sets a key to a value.
pub fn set_field(entries: &mut Vec<(String, Json)>, key: &str, value: Json)
    ensures
        fields(final(entries)@) == with_field(fields(old(entries)@), key@, value.doc()),
{
    let at = last_position(entries, key);
    let ghost before = entries@;
    let ghost doc = value.doc();
    proof {
        lemma_position(entries@, key@, at, doc);
        lemma_fields(before);
    }
    match at {
        Some(at) => {
            entries.set(at, (key.to_owned(), value));
            proof {
                lemma_fields(entries@);
                assert(fields(entries@) =~= fields(before).update(at as int, (key@, doc)));
            }
        },
        None => {
            entries.push((key.to_owned(), value));
            proof {
                assert(entries@.drop_last() =~= before);
            }
        },
    }
}

/// Removes a key and gives its value.
pub fn take_field(entries: &mut Vec<(String, Json)>, key: &str) -> (r: Option<Json>)
    ensures
        fields(final(entries)@) == without_field(fields(old(entries)@), key@),
        match r {
            Some(json) => field(fields(old(entries)@), key@) == Some(json.doc()),
            None => field(fields(old(entries)@), key@) is None,
        },
{
    let ghost start = entries@;
    let mut found: Option<Json> = None;
    loop
        invariant
            without_field(fields(entries@), key@) == without_field(fields(start), key@),
            match found {
                Some(json) => field(fields(start), key@) == Some(json.doc()),
                None => entries@ == start,
            },
        ensures
            fields(entries@) == without_field(fields(start), key@),
            found is None ==> field(fields(start), key@) is None,
        decreases entries.len(),
    {
        let at = last_position(entries, key);
        let ghost before = entries@;
        proof {
            lemma_position(before, key@, at, Doc::Null);
            lemma_fields(before);
        }
        match at {
            Some(at) => {
                let (_, value) = entries.remove(at);
                proof {
                    lemma_fields(entries@);
                    assert(fields(entries@) =~= fields(before).remove(at as int));
                }
                if found.is_none() {
                    found = Some(value);
                }
            },
            None => {
                break ;
            },
        }
    }
    found
}

/// Sets a key to a value and gives the one it had.
pub fn replace_field(entries: &mut Vec<(String, Json)>, key: &str, value: Json) -> (r: Option<
    Json,
>)
    ensures
        fields(final(entries)@) == with_field(fields(old(entries)@), key@, value.doc()),
        match r {
            Some(json) => field(fields(old(entries)@), key@) == Some(json.doc()),
            None => field(fields(old(entries)@), key@) is None,
        },
{
    let at = last_position(entries, key);
    let ghost before = entries@;
    let ghost doc = value.doc();
    proof {
        lemma_position(before, key@, at, doc);
        lemma_fields(before);
    }
    match at {
        Some(at) => {
            let (name, found) = entries.remove(at);
            entries.insert(at, (name, value));
            proof {
                lemma_fields(entries@);
                assert(fields(entries@) =~= fields(before).update(at as int, (key@, doc)));
            }
            Some(found)
        },
        None => {
            entries.push((key.to_owned(), value));
            proof {
                assert(entries@.drop_last() =~= before);
            }
            None
        },
    }
}

/// Setting a key twice is setting it once to the later value.
pub proof fn lemma_with_field_again(
    entries: Seq<(Seq<char>, Doc)>,
    key: Seq<char>,
    first: Doc,
    second: Doc,
)
    ensures
        with_field(with_field(entries, key, first), key, second) == with_field(
            entries,
            key,
            second,
        ),
    decreases entries.len(),
{
    let once = with_field(entries, key, first);
    lemma_with_field(entries, key, first, key);
    if entries.len() == 0 {
        assert(once.drop_last() =~= seq![]);
        assert(once.drop_last().push((key, second)) =~= with_field(entries, key, second));
    } else if entries.last().0 == key {
        assert(once.drop_last() =~= entries.drop_last());
    } else if field(entries, key) is Some {
        lemma_with_field_again(entries.drop_last(), key, first, second);
        assert(once.drop_last() =~= with_field(entries.drop_last(), key, first));
    } else {
        assert(once.drop_last() =~= entries);
    }
}

/// Setting a key to the value it has changes nothing.
pub proof fn lemma_with_same_field(entries: Seq<(Seq<char>, Doc)>, key: Seq<char>)
    requires
        field(entries, key) is Some,
    ensures
        with_field(entries, key, field(entries, key)->0) == entries,
    decreases entries.len(),
{
    if entries.last().0 == key {
        assert(entries.drop_last().push((key, entries.last().1)) =~= entries);
    } else {
        lemma_with_same_field(entries.drop_last(), key);
        assert(entries.drop_last().push(entries.last()) =~= entries);
    }
}

} // verus!
