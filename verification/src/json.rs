use vstd::prelude::*;
use vstd::seq_lib::to_multiset_contains;
use crate::text::str_eq;

verus! {

/// `serde_json::Number`, carried through without looking inside.
#[verifier::external_type_specification]
#[verifier::external_body]
pub struct ExNumber(serde_json::Number);

/// The mathematical content of a JSON value. An object is a map from keys to
/// contents, so the order in which its members were written plays no part.
pub enum Json {
    Null,
    Bool(bool),
    Number(serde_json::Number),
    String(Seq<char>),
    Array(Seq<Json>),
    Object(Map<Seq<char>, Json>),
}

/// A JSON value as it is held in memory.
#[derive(Debug, PartialEq)]
pub enum JsonValue {
    Null,
    Bool(bool),
    Number(serde_json::Number),
    String(String),
    Array(Vec<JsonValue>),
    Object(JsonObject),
}

/// A JSON object: its members in the order in which they were given. Where a
/// key occurs more than once, the last occurrence is the one that counts.
#[derive(Debug, PartialEq)]
pub struct JsonObject {
    pub members: Vec<(String, JsonValue)>,
}

/// The content of an object without members.
pub open spec fn empty_object() -> Map<Seq<char>, Json> {
    Map::empty()
}

/// The map that a list of members stands for: a later member overrides an
/// earlier one with the same key.
pub open spec fn members_map(members: Seq<(Seq<char>, Json)>) -> Map<Seq<char>, Json>
    decreases members.len(),
{
    if members.len() == 0 {
        Map::empty()
    } else {
        members_map(members.drop_last()).insert(members.last().0, members.last().1)
    }
}

/// The keys and contents of a list of members, in the order given.
pub open spec fn members_view(members: Seq<(String, JsonValue)>) -> Seq<(Seq<char>, Json)>
    decreases members,
{
    Seq::new(
        members.len(),
        |i: int|
            if 0 <= i < members.len() {
                (members[i].0@, members[i].1.view())
            } else {
                (Seq::empty(), Json::Null)
            },
    )
}

/// The contents of a list of values, in the order given.
pub open spec fn items_view(items: Seq<JsonValue>) -> Seq<Json>
    decreases items,
{
    Seq::new(
        items.len(),
        |i: int|
            if 0 <= i < items.len() {
                items[i].view()
            } else {
                Json::Null
            },
    )
}

impl JsonValue {
    /// The content of this value.
    pub open spec fn view(&self) -> Json
        decreases self,
    {
        match self {
            JsonValue::Null => Json::Null,
            JsonValue::Bool(b) => Json::Bool(*b),
            JsonValue::Number(n) => Json::Number(*n),
            JsonValue::String(s) => Json::String(s@),
            JsonValue::Array(items) => Json::Array(items_view(items@)),
            JsonValue::Object(object) => Json::Object(object.view()),
        }
    }

    /// The string that this value holds, if it is a string.
    pub fn as_str(&self) -> (text: Option<&str>)
        ensures
            match text {
                Some(s) => self@ == Json::String(s@),
                None => !(self@ is String),
            },
    {
        match self {
            JsonValue::String(s) => Some(s.as_str()),
            _ => None,
        }
    }

    /// The object that this value holds, if it is an object.
    pub fn as_object(&self) -> (object: Option<&JsonObject>)
        ensures
            match object {
                Some(o) => self@ == Json::Object(o@),
                None => !(self@ is Object),
            },
    {
        match self {
            JsonValue::Object(o) => Some(o),
            _ => None,
        }
    }
}

/// The member at `index` decides what `members_map` holds at its key when
/// no later member has that key.
pub proof fn lemma_last_occurrence_counts(members: Seq<(Seq<char>, Json)>, index: int)
    requires
        0 <= index < members.len(),
        forall|j: int| index < j < members.len() ==> members[j].0 != members[index].0,
    ensures
        members_map(members).contains_key(members[index].0),
        members_map(members)[members[index].0] == members[index].1,
    decreases members.len(),
{
    if index < members.len() - 1 {
        lemma_last_occurrence_counts(members.drop_last(), index);
    }
}

/// `members_map` holds nothing at a key that no member has.
pub proof fn lemma_no_occurrence(members: Seq<(Seq<char>, Json)>, key: Seq<char>)
    requires
        forall|j: int| 0 <= j < members.len() ==> members[j].0 != key,
    ensures
        !members_map(members).contains_key(key),
    decreases members.len(),
{
    if members.len() > 0 {
        lemma_no_occurrence(members.drop_last(), key);
    }
}

/// Where `members_map` holds something at a key, some member has that key:
/// the last such member is returned, and its content is what the map holds.
pub proof fn lemma_key_has_last_occurrence(
    members: Seq<(Seq<char>, Json)>,
    key: Seq<char>,
) -> (index: int)
    requires
        members_map(members).contains_key(key),
    ensures
        0 <= index < members.len(),
        members[index].0 == key,
        forall|j: int| index < j < members.len() ==> members[j].0 != key,
        members_map(members)[key] == members[index].1,
    decreases members.len(),
{
    if members.last().0 == key {
        members.len() - 1
    } else {
        let index = lemma_key_has_last_occurrence(members.drop_last(), key);
        assert forall|j: int| index < j < members.len() implies members[j].0 != key by {
            if j < members.len() - 1 {
                assert(members.drop_last()[j] == members[j]);
            }
        }
        index
    }
}

/// Whether no two members of a list have the same key.
pub open spec fn distinct_keys(members: Seq<(Seq<char>, Json)>) -> bool {
    forall|i: int, j: int| 0 <= i < j < members.len() ==> members[i].0 != members[j].0
}

/// The order of the members plays no part in the content of an object:
/// where no key occurs twice, a list that holds the same members in any
/// other order stands for the same map.
pub proof fn lemma_member_order_is_immaterial(
    members: Seq<(Seq<char>, Json)>,
    reordered: Seq<(Seq<char>, Json)>,
)
    requires
        distinct_keys(members),
        members.to_multiset() == reordered.to_multiset(),
    ensures
        members_map(members) == members_map(reordered),
{
    let first = members_map(members);
    let second = members_map(reordered);
    assert forall|key: Seq<char>| #[trigger] first.contains_key(key) implies second.contains_key(
        key,
    ) && second[key] == first[key] by {
        let i = lemma_key_has_last_occurrence(members, key);
        to_multiset_contains(members, members[i]);
        to_multiset_contains(reordered, members[i]);
        assert(members.contains(members[i]));
        let j = choose|j: int| 0 <= j < reordered.len() && reordered[j] == members[i];
        if !second.contains_key(key) {
            lemma_absent_key_has_no_occurrence(reordered, key);
            assert(reordered[j].0 != key);
        }
        let last = lemma_key_has_last_occurrence(reordered, key);
        to_multiset_contains(reordered, reordered[last]);
        to_multiset_contains(members, reordered[last]);
        assert(reordered.contains(reordered[last]));
        let back = choose|k: int| 0 <= k < members.len() && members[k] == reordered[last];
        assert(back == i);
    }
    assert forall|key: Seq<char>| #[trigger] second.contains_key(key) implies first.contains_key(
        key,
    ) by {
        let last = lemma_key_has_last_occurrence(reordered, key);
        to_multiset_contains(reordered, reordered[last]);
        to_multiset_contains(members, reordered[last]);
        assert(reordered.contains(reordered[last]));
        let back = choose|k: int| 0 <= k < members.len() && members[k] == reordered[last];
        if !first.contains_key(key) {
            lemma_absent_key_has_no_occurrence(members, key);
            assert(members[back].0 != key);
        }
    }
    assert(first =~= second);
}

/// Where `members_map` holds nothing at a key, no member has that key.
pub proof fn lemma_absent_key_has_no_occurrence(members: Seq<(Seq<char>, Json)>, key: Seq<char>)
    requires
        !members_map(members).contains_key(key),
    ensures
        forall|j: int| 0 <= j < members.len() ==> members[j].0 != key,
    decreases members.len(),
{
    if members.len() > 0 {
        lemma_absent_key_has_no_occurrence(members.drop_last(), key);
        assert forall|j: int| 0 <= j < members.len() implies members[j].0 != key by {
            if j < members.len() - 1 {
                assert(members.drop_last()[j] == members[j]);
            }
        }
    }
}

impl JsonObject {
    /// The content of this object, as a map from keys to contents.
    pub open spec fn view(&self) -> Map<Seq<char>, Json>
        decreases self,
    {
        members_map(members_view(self.members@))
    }

    /// The value of the member with the given key: `None` where the object
    /// has no such member.
    pub fn get(&self, key: &str) -> (found: Option<&JsonValue>)
        ensures
            match found {
                Some(value) => self@.contains_key(key@) && self@[key@] == value@,
                None => !self@.contains_key(key@),
            },
    {
        let mut i: usize = self.members.len();
        while i > 0
            invariant
                i <= self.members.len(),
                forall|j: int| i <= j < self.members.len() ==> self.members@[j].0@ != key@,
            decreases i,
        {
            i -= 1;
            if str_eq(self.members[i].0.as_str(), key) {
                proof {
                    lemma_last_occurrence_counts(members_view(self.members@), i as int);
                }
                return Some(&self.members[i].1);
            }
        }
        proof {
            lemma_no_occurrence(members_view(self.members@), key@);
        }
        None
    }
}

} // verus!
