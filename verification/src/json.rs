//! JSON documents as the gateway handles them: a tree of plain values, with
//! the lookups and updates that the normalisation and the cache policy need.

use vstd::prelude::*;

verus! {

/// A JSON document.
///
/// A number that fits a signed 64-bit integer is an `Int`; any other number
/// is a `Number` and keeps the text it was written with. An `Object` keeps
/// its members in order; where a key occurs twice, the last one counts.
#[derive(Debug, PartialEq, Eq)]
pub enum Json {
    Null,
    Bool(bool),
    Int(i64),
    Number(String),
    Text(String),
    List(Vec<Json>),
    Object(Vec<Member>),
}

/// One member of a JSON object.
#[derive(Debug, PartialEq, Eq)]
pub struct Member {
    pub key: String,
    pub value: Json,
}

/// The mathematical value of a [`Json`] document.
pub enum JsonView {
    Null,
    Bool(bool),
    Int(int),
    Number(Seq<char>),
    Text(Seq<char>),
    List(Seq<JsonView>),
    Object(Seq<(Seq<char>, JsonView)>),
}

/// The index of the last member of `members` under `key`, or -1 if there is
/// none.
pub open spec fn position(members: Seq<(Seq<char>, JsonView)>, key: Seq<char>) -> int
    decreases members.len(),
{
    if members.len() == 0 {
        -1
    } else if members.last().0 == key {
        members.len() - 1
    } else {
        position(members.drop_last(), key)
    }
}

impl JsonView {
    /// The member under `key`: the value of the last member with that key,
    /// and `Null` where there is none or `self` is no object.
    pub open spec fn get(self, key: Seq<char>) -> JsonView {
        match self {
            JsonView::Object(members) => {
                let at = position(members, key);
                if at >= 0 {
                    members[at].1
                } else {
                    JsonView::Null
                }
            },
            _ => JsonView::Null,
        }
    }

    /// The item at `index` of a list, and `Null` where there is none or
    /// `self` is no list.
    pub open spec fn at(self, index: int) -> JsonView {
        match self {
            JsonView::List(items) => if 0 <= index < items.len() {
                items[index]
            } else {
                JsonView::Null
            },
            _ => JsonView::Null,
        }
    }

    /// `self` with the member under `key` set to `value`. In an object the
    /// last member with that key is replaced, or a new member is added at
    /// the end; `Null` becomes an object of that one member; any other
    /// document is left as it is.
    pub open spec fn put(self, key: Seq<char>, value: JsonView) -> JsonView {
        match self {
            JsonView::Object(members) => {
                let at = position(members, key);
                if at >= 0 {
                    JsonView::Object(members.update(at, (key, value)))
                } else {
                    JsonView::Object(members.push((key, value)))
                }
            },
            JsonView::Null => JsonView::Object(seq![(key, value)]),
            _ => self,
        }
    }

    /// `self` with the item at `index` of a list replaced by `value`; any
    /// document without such an item is left as it is.
    pub open spec fn replace(self, index: int, value: JsonView) -> JsonView {
        match self {
            JsonView::List(items) => if 0 <= index < items.len() {
                JsonView::List(items.update(index, value))
            } else {
                self
            },
            _ => self,
        }
    }
}

impl View for Json {
    type V = JsonView;

    open spec fn view(&self) -> JsonView
        decreases self,
    {
        match self {
            Json::Null => JsonView::Null,
            Json::Bool(b) => JsonView::Bool(*b),
            Json::Int(n) => JsonView::Int(*n as int),
            Json::Number(text) => JsonView::Number(text@),
            Json::Text(text) => JsonView::Text(text@),
            Json::List(items) => JsonView::List(
                Seq::new(
                    items@.len(),
                    |i: int|
                        if 0 <= i < items@.len() {
                            items@[i].view()
                        } else {
                            JsonView::Null
                        },
                ),
            ),
            Json::Object(members) => JsonView::Object(
                Seq::new(
                    members@.len(),
                    |i: int|
                        if 0 <= i < members@.len() {
                            (members@[i].key@, members@[i].value.view())
                        } else {
                            (Seq::empty(), JsonView::Null)
                        },
                ),
            ),
        }
    }
}

impl View for Member {
    type V = (Seq<char>, JsonView);

    open spec fn view(&self) -> (Seq<char>, JsonView) {
        (self.key@, self.value@)
    }
}

/// The values of a sequence of documents.
pub open spec fn list_view(items: Seq<Json>) -> Seq<JsonView> {
    Seq::new(items.len(), |i: int| items[i]@)
}

/// The values of a sequence of members.
pub open spec fn members_view(members: Seq<Member>) -> Seq<(Seq<char>, JsonView)> {
    Seq::new(members.len(), |i: int| members[i]@)
}

/// A list's value is the values of its items.
pub proof fn lemma_list_view(items: Vec<Json>)
    ensures
        Json::List(items)@ == JsonView::List(list_view(items@)),
{
    assert(Json::List(items)@->List_0 =~= list_view(items@));
}

/// An object's value is the values of its members.
pub proof fn lemma_object_view(members: Vec<Member>)
    ensures
        Json::Object(members)@ == JsonView::Object(members_view(members@)),
{
    reveal_with_fuel(<Json as View>::view, 2);
    match Json::Object(members)@ {
        JsonView::Object(value) => {
            assert(value =~= members_view(members@));
        },
        _ => {},
    }
}

/// Taking a prefix and dropping its last member leaves the shorter prefix.
proof fn lemma_position_step(members: Seq<(Seq<char>, JsonView)>, upto: int, key: Seq<char>)
    requires
        0 < upto <= members.len(),
    ensures
        position(members.take(upto), key) == if members[upto - 1].0 == key {
            upto - 1
        } else {
            position(members.take(upto - 1), key)
        },
{
    assert(members.take(upto).drop_last() =~= members.take(upto - 1));
}

/// A position that is found lies inside the members and holds the key.
pub proof fn lemma_position_bounds(members: Seq<(Seq<char>, JsonView)>, key: Seq<char>)
    ensures
        -1 <= position(members, key) < members.len(),
        position(members, key) >= 0 ==> members[position(members, key)].0 == key,
    decreases members.len(),
{
    if members.len() > 0 && members.last().0 != key {
        lemma_position_bounds(members.drop_last(), key);
    }
}

/// The position of a key depends on the keys alone, not on the values.
pub proof fn lemma_position_keys(
    left: Seq<(Seq<char>, JsonView)>,
    right: Seq<(Seq<char>, JsonView)>,
    key: Seq<char>,
)
    requires
        left.len() == right.len(),
        forall|i: int| 0 <= i < left.len() ==> left[i].0 == right[i].0,
    ensures
        position(left, key) == position(right, key),
    decreases left.len(),
{
    if left.len() > 0 {
        lemma_position_keys(left.drop_last(), right.drop_last(), key);
    }
}

/// What is put under a key of an object, or of `Null`, is what is got
/// from under it.
pub proof fn lemma_put_then_get(document: JsonView, key: Seq<char>, value: JsonView)
    requires
        document is Object || document is Null,
    ensures
        document.put(key, value) is Object,
        document.put(key, value).get(key) == value,
{
    match document {
        JsonView::Object(members) => {
            lemma_position_bounds(members, key);
            let at = position(members, key);
            if at >= 0 {
                lemma_position_keys(members, members.update(at, (key, value)), key);
            }
        },
        _ => {},
    }
}

/// Putting under one key leaves the member under every other key as it
/// was.
pub proof fn lemma_put_keeps_others(
    document: JsonView,
    key: Seq<char>,
    value: JsonView,
    other: Seq<char>,
)
    requires
        other != key,
    ensures
        document.put(key, value).get(other) == document.get(other),
{
    match document {
        JsonView::Object(members) => {
            lemma_position_bounds(members, key);
            lemma_position_bounds(members, other);
            let at = position(members, key);
            if at >= 0 {
                lemma_position_keys(members, members.update(at, (key, value)), other);
            } else {
                assert(members.push((key, value)).drop_last() =~= members);
            }
        },
        JsonView::Null => {
            let single = seq![(key, value)];
            assert(single.drop_last() =~= Seq::<(Seq<char>, JsonView)>::empty());
            assert(position(single.drop_last(), other) == -1);
        },
        _ => {},
    }
}

/// The index of the last member of `members` under `key`.
fn find(members: &Vec<Member>, key: &str) -> (found: Option<usize>)
    ensures
        match found {
            Some(at) => at < members.len() && position(members_view(members@), key@) == at,
            None => position(members_view(members@), key@) == -1,
        },
{
    let wanted: String = String::from_str(key);
    let ghost all = members_view(members@);
    let mut upto: usize = members.len();
    proof {
        assert(all.take(upto as int) =~= all);
    }
    while upto > 0
        invariant
            upto <= members.len(),
            all == members_view(members@),
            wanted@ == key@,
            position(all, key@) == position(all.take(upto as int), key@),
        decreases upto,
    {
        proof {
            lemma_position_step(all, upto as int, key@);
        }
        if members[upto - 1].key == wanted {
            return Some(upto - 1);
        }
        upto -= 1;
    }
    None
}

impl Clone for Member {
    fn clone(&self) -> (out: Member)
        ensures
            out@ == self@,
        decreases self,
    {
        Member { key: self.key.clone(), value: self.value.clone() }
    }
}

impl Clone for Json {
    #[verifier::loop_isolation(false)]
    fn clone(&self) -> (out: Json)
        ensures
            out@ == self@,
        decreases self,
    {
        match self {
            Json::Null => Json::Null,
            Json::Bool(b) => Json::Bool(*b),
            Json::Int(n) => Json::Int(*n),
            Json::Number(text) => Json::Number(text.clone()),
            Json::Text(text) => Json::Text(text.clone()),
            Json::List(items) => {
                let mut out: Vec<Json> = Vec::new();
                let mut i: usize = 0;
                while i < items.len()
                    invariant
                        i <= items.len(),
                        out@.len() == i,
                        forall|j: int| 0 <= j < i ==> out@[j]@ == items@[j]@,
                    decreases items.len() - i,
                {
                    let item: Json = items[i].clone();
                    out.push(item);
                    i += 1;
                }
                proof {
                    lemma_list_view(out);
                    lemma_list_view(*items);
                    assert(list_view(out@) =~= list_view(items@));
                }
                Json::List(out)
            },
            Json::Object(members) => {
                let mut out: Vec<Member> = Vec::new();
                let mut i: usize = 0;
                while i < members.len()
                    invariant
                        i <= members.len(),
                        out@.len() == i,
                        forall|j: int| 0 <= j < i ==> out@[j]@ == members@[j]@,
                    decreases members.len() - i,
                {
                    let member: Member = members[i].clone();
                    out.push(member);
                    i += 1;
                }
                proof {
                    lemma_object_view(out);
                    lemma_object_view(*members);
                    assert(members_view(out@) =~= members_view(members@));
                }
                Json::Object(out)
            },
        }
    }
}

impl Member {
    /// A member with the given key and value.
    pub fn new(key: &str, value: Json) -> (out: Member)
        ensures
            out@ == (key@, value@),
    {
        Member { key: String::from_str(key), value }
    }
}

impl Json {
    /// A JSON string.
    pub fn text(text: &str) -> (out: Json)
        ensures
            out@ == JsonView::Text(text@),
    {
        Json::Text(String::from_str(text))
    }

    /// The member under `key`, if `self` is an object that has one.
    pub fn field(&self, key: &str) -> (found: Option<&Json>)
        ensures
            found is Some <==> (self@ matches JsonView::Object(members) && position(members, key@) >= 0),
            found matches Some(value) ==> value@ == self@.get(key@),
            found is None ==> self@.get(key@) == JsonView::Null,
    {
        match self {
            Json::Object(members) => {
                proof {
                    lemma_object_view(*members);
                }
                match find(members, key) {
                    Some(at) => Some(&members[at].value),
                    None => None,
                }
            },
            _ => None,
        }
    }

    /// A copy of the member under `key`, or `Null`.
    pub fn pick(&self, key: &str) -> (out: Json)
        ensures
            out@ == self@.get(key@),
    {
        match self.field(key) {
            Some(value) => value.clone(),
            None => Json::Null,
        }
    }

    /// The items, if `self` is a list.
    pub fn items(&self) -> (found: Option<&Vec<Json>>)
        ensures
            match found {
                Some(items) => self@ == JsonView::List(list_view(items@)),
                None => !(self@ is List),
            },
    {
        match self {
            Json::List(items) => {
                proof {
                    lemma_list_view(*items);
                }
                Some(items)
            },
            _ => None,
        }
    }

    /// The number, if `self` is an integer.
    pub fn as_int(&self) -> (found: Option<i64>)
        ensures
            match found {
                Some(n) => self@ == JsonView::Int(n as int),
                None => !(self@ is Int),
            },
    {
        match self {
            Json::Int(n) => Some(*n),
            _ => None,
        }
    }

    /// `self` with the member under `key` set to `value`.
    pub fn with(self, key: &str, value: Json) -> (out: Json)
        ensures
            out@ == self@.put(key@, value@),
    {
        match self {
            Json::Object(members) => {
                let mut members: Vec<Member> = members;
                let ghost before = members_view(members@);
                proof {
                    lemma_object_view(members);
                }
                match find(&members, key) {
                    Some(at) => {
                        members.set(at, Member::new(key, value));
                        proof {
                            lemma_object_view(members);
                            assert(members_view(members@) =~= before.update(at as int, (key@, value@)));
                        }
                    },
                    None => {
                        members.push(Member::new(key, value));
                        proof {
                            lemma_object_view(members);
                            assert(members_view(members@) =~= before.push((key@, value@)));
                        }
                    },
                }
                Json::Object(members)
            },
            Json::Null => {
                let mut members: Vec<Member> = Vec::new();
                members.push(Member::new(key, value));
                proof {
                    lemma_object_view(members);
                    assert(members_view(members@) =~= seq![(key@, value@)]);
                }
                Json::Object(members)
            },
            other => other,
        }
    }

    /// `self` with the item at `index` replaced by `value`, where `self` is
    /// a list that has such an item.
    pub fn with_item(self, index: usize, value: Json) -> (out: Json)
        ensures
            out@ == self@.replace(index as int, value@),
    {
        match self {
            Json::List(items) => {
                let mut items: Vec<Json> = items;
                let ghost before = list_view(items@);
                proof {
                    lemma_list_view(items);
                }
                if index < items.len() {
                    items.set(index, value);
                    proof {
                        lemma_list_view(items);
                        assert(list_view(items@) =~= before.update(index as int, value@));
                    }
                }
                Json::List(items)
            },
            other => other,
        }
    }
}

} // verus!

