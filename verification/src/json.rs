//! JSON values as the library holds them, with their mathematical model.

use vstd::prelude::*;

use crate::text::str_eq;

verus! {

/// A JSON value. Numbers are held as their literal text; object members
/// keep the order in which they were written.
#[derive(Debug)]
pub enum JsonValue {
    Null,
    Bool(bool),
    Number(String),
    Text(String),
    Array(Vec<JsonValue>),
    Object(Vec<JsonMember>),
}

/// One `key: value` pair of a JSON object.
#[derive(Debug)]
pub struct JsonMember {
    pub key: String,
    pub value: JsonValue,
}

/// The mathematical model of a JSON value.
#[verifier::ext_equal]
pub enum JsonModel {
    Null,
    Bool(bool),
    Number(Seq<char>),
    Text(Seq<char>),
    Array(Seq<JsonModel>),
    Object(Seq<(Seq<char>, JsonModel)>),
}

impl JsonValue {
    /// The model of this value.
    pub open spec fn model(&self) -> JsonModel
        decreases self,
    {
        match self {
            JsonValue::Null => JsonModel::Null,
            JsonValue::Bool(b) => JsonModel::Bool(*b),
            JsonValue::Number(n) => JsonModel::Number(n@),
            JsonValue::Text(t) => JsonModel::Text(t@),
            JsonValue::Array(items) => JsonModel::Array(items_model(items@)),
            JsonValue::Object(members) => JsonModel::Object(members_model(members@)),
        }
    }
}

/// The models of a sequence of values.
pub open spec fn items_model(items: Seq<JsonValue>) -> Seq<JsonModel>
    decreases items,
{
    if items.len() == 0 {
        Seq::empty()
    } else {
        items_model(items.drop_last()).push(items.last().model())
    }
}

/// The models of a sequence of object members.
pub open spec fn members_model(members: Seq<JsonMember>) -> Seq<(Seq<char>, JsonModel)>
    decreases members,
{
    if members.len() == 0 {
        Seq::empty()
    } else {
        members_model(members.drop_last()).push(
            (members.last().key@, members.last().value.model()),
        )
    }
}


/// Each item's model stands at the item's place.
pub proof fn lemma_items_model(items: Seq<JsonValue>)
    ensures
        items_model(items).len() == items.len(),
        forall|i: int| 0 <= i < items.len() ==> #[trigger] items_model(items)[i] == items[i].model(),
    decreases items.len(),
{
    if items.len() > 0 {
        lemma_items_model(items.drop_last());
    }
}

/// Each member's key and model stand at the member's place.
pub proof fn lemma_members_model(members: Seq<JsonMember>)
    ensures
        members_model(members).len() == members.len(),
        forall|i: int|
            0 <= i < members.len() ==> #[trigger] members_model(members)[i] == (
                members[i].key@,
                members[i].value.model(),
            ),
    decreases members.len(),
{
    if members.len() > 0 {
        lemma_members_model(members.drop_last());
    }
}

/// The value under `key` in a list of members: the last member with that key
/// wins, as when the members are gathered into a map one by one.
pub open spec fn lookup(members: Seq<(Seq<char>, JsonModel)>, key: Seq<char>) -> Option<JsonModel>
    decreases members.len(),
{
    if members.len() == 0 {
        None
    } else if members.last().0 == key {
        Some(members.last().1)
    } else {
        lookup(members.drop_last(), key)
    }
}

/// `value.get(key)`: the member of an object under `key`; nothing for any
/// other kind of value.
pub open spec fn get_model(value: JsonModel, key: Seq<char>) -> Option<JsonModel> {
    match value {
        JsonModel::Object(members) => lookup(members, key),
        _ => None,
    }
}

/// The object model whose members are the given pairs.
pub open spec fn object_model(members: Seq<(Seq<char>, JsonModel)>) -> JsonModel {
    JsonModel::Object(members)
}

impl JsonValue {
    /// The member under `key` when this is an object.
    #[verifier::loop_isolation(false)]
    pub fn get(&self, key: &str) -> (r: Option<&JsonValue>)
        ensures
            match r {
                Some(v) => get_model(self.model(), key@) == Some(v.model()),
                None => get_model(self.model(), key@) is None,
            },
    {
        match self {
            JsonValue::Object(members) => {
                proof {
                    lemma_members_model(members@);
                }
                let ghost ms = members_model(members@);
                assert(ms.take(members.len() as int) =~= ms);
                let mut i: usize = members.len();
                while i > 0
                    invariant
                        i <= members.len(),
                        ms == members_model(members@),
                        ms.len() == members.len(),
                        forall|j: int|
                            0 <= j < members.len() ==> #[trigger] ms[j] == (
                                members@[j].key@,
                                members@[j].value.model(),
                            ),
                        lookup(ms, key@) == lookup(ms.take(i as int), key@),
                    decreases i,
                {
                    let ghost pre = ms.take(i as int);
                    assert(pre.drop_last() =~= ms.take(i - 1));
                    if str_eq(members[i - 1].key.as_str(), key) {
                        assert(pre.last() == ms[i - 1]);

                        return Some(&members[i - 1].value);
                    }
                    i = i - 1;
                }
                None
            },
            _ => None,
        }
    }

    /// A copy of this value with the same model.
    #[verifier::loop_isolation(false)]
    pub fn duplicate(&self) -> (r: JsonValue)
        ensures
            r.model() == self.model(),
        decreases self,
    {
        match self {
            JsonValue::Null => JsonValue::Null,
            JsonValue::Bool(b) => JsonValue::Bool(*b),
            JsonValue::Number(n) => JsonValue::Number(n.clone()),
            JsonValue::Text(t) => JsonValue::Text(t.clone()),
            JsonValue::Array(items) => {
                let mut out: Vec<JsonValue> = Vec::new();
                let mut i: usize = 0;
                while i < items.len()
                    invariant
                        i <= items.len(),
                        out.len() == i,
                        forall|j: int| 0 <= j < i ==> #[trigger] out@[j].model() == items@[j].model(),
                    decreases items.len() - i,
                {
                    proof {
                        assert(decreases_to!(items@ => items@[i as int]));
                    }
                    let v = items[i].duplicate();
                    out.push(v);
                    i = i + 1;
                }
                proof {
                    lemma_items_model(items@);
                    lemma_items_model(out@);
                    assert(items_model(out@) =~= items_model(items@));
                }
                JsonValue::Array(out)
            },
            JsonValue::Object(members) => {
                let mut out: Vec<JsonMember> = Vec::new();
                let mut i: usize = 0;
                while i < members.len()
                    invariant
                        i <= members.len(),
                        out.len() == i,
                        forall|j: int|
                            0 <= j < i ==> #[trigger] out@[j].key@ == members@[j].key@
                                && out@[j].value.model() == members@[j].value.model(),
                    decreases members.len() - i,
                {
                    proof {
                        assert(decreases_to!(members@ => members@[i as int]));
                    }
                    let v = members[i].value.duplicate();
                    out.push(JsonMember { key: members[i].key.clone(), value: v });
                    i = i + 1;
                }
                proof {
                    lemma_members_model(members@);
                    lemma_members_model(out@);
                    assert(members_model(out@) =~= members_model(members@));
                }
                JsonValue::Object(out)
            },
        }
    }
}

/// Appends the member `key: value` to a list of object members.
pub fn push_member(members: &mut Vec<JsonMember>, key: &str, value: JsonValue)
    ensures
        members_model(final(members)@) == members_model(old(members)@).push((key@, value.model())),
{
    members.push(JsonMember { key: String::from_str(key), value });
    assert(final(members)@.drop_last() =~= old(members)@);
}

/// Appends `value` to a list of array items.
pub fn push_item(items: &mut Vec<JsonValue>, value: JsonValue)
    ensures
        items_model(final(items)@) == items_model(old(items)@).push(value.model()),
{
    items.push(value);
    assert(final(items)@.drop_last() =~= old(items)@);
}

/// An empty list of members.
pub fn no_members() -> (r: Vec<JsonMember>)
    ensures
        members_model(r@) == Seq::<(Seq<char>, JsonModel)>::empty(),
{
    Vec::new()
}

/// An empty list of items.
pub fn no_items() -> (r: Vec<JsonValue>)
    ensures
        items_model(r@) == Seq::<JsonModel>::empty(),
{
    Vec::new()
}

/// A text value.
pub fn text_value(t: &str) -> (r: JsonValue)
    ensures
        r.model() == JsonModel::Text(t@),
{
    JsonValue::Text(String::from_str(t))
}

} // verus!
