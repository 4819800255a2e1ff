//! A plain model of JSON documents, the values that requests carry and that
//! replies and files hold.

use vstd::prelude::*;

verus! {

/// A JSON value. Numbers that are not integers keep their text.
#[derive(Debug, PartialEq)]
pub enum Json {
    Null,
    Bool(bool),
    /// A non-negative integer.
    UInt(u64),
    /// A negative integer.
    Int(i64),
    /// Any other number, written as its JSON text.
    Decimal(String),
    Str(String),
    Array(Vec<Json>),
    /// The members of an object, in order.
    Object(Vec<(String, Json)>),
}

/// The mathematical value of a [`Json`].
pub enum JsonView {
    Null,
    Bool(bool),
    UInt(u64),
    Int(i64),
    Decimal(Seq<char>),
    Str(Seq<char>),
    Array(Seq<JsonView>),
    Object(Seq<(Seq<char>, JsonView)>),
}

impl View for Json {
    type V = JsonView;

    open spec fn view(&self) -> JsonView {
        json_view(*self)
    }
}

/// The value of a JSON document.
pub open spec fn json_view(j: Json) -> JsonView
    decreases j,
{
    match j {
        Json::Null => JsonView::Null,
        Json::Bool(b) => JsonView::Bool(b),
        Json::UInt(n) => JsonView::UInt(n),
        Json::Int(n) => JsonView::Int(n),
        Json::Decimal(t) => JsonView::Decimal(t@),
        Json::Str(s) => JsonView::Str(s@),
        Json::Array(items) => JsonView::Array(items_view(items@)),
        Json::Object(members) => JsonView::Object(members_view(members@)),
    }
}

/// The values of the items of an array.
pub open spec fn items_view(items: Seq<Json>) -> Seq<JsonView>
    decreases items,
{
    if items.len() == 0 {
        Seq::empty()
    } else {
        items_view(items.subrange(0, items.len() - 1)).push(json_view(items[items.len() - 1]))
    }
}

/// The names and values of the members of an object.
pub open spec fn members_view(members: Seq<(String, Json)>) -> Seq<(Seq<char>, JsonView)>
    decreases members,
{
    if members.len() == 0 {
        Seq::empty()
    } else {
        members_view(members.subrange(0, members.len() - 1)).push(
            (members[members.len() - 1].0@, json_view(members[members.len() - 1].1)),
        )
    }
}

/// The value of the last member of `members` named `key`: where a name is
/// given twice, the later value stands.
pub open spec fn member(members: Seq<(Seq<char>, JsonView)>, key: Seq<char>) -> Option<JsonView>
    decreases members.len(),
{
    if members.len() == 0 {
        None
    } else if members.last().0 == key {
        Some(members.last().1)
    } else {
        member(members.drop_last(), key)
    }
}

/// The member `key` of `j` when `j` is an object that has one.
pub open spec fn json_member(j: JsonView, key: Seq<char>) -> Option<JsonView> {
    match j {
        JsonView::Object(members) => member(members, key),
        _ => None,
    }
}

/// The text of `j` when it is a string.
pub open spec fn json_text(j: JsonView) -> Option<Seq<char>> {
    match j {
        JsonView::Str(s) => Some(s),
        _ => None,
    }
}

impl Json {
    /// The items of an array view item by item.
    pub proof fn lemma_items_view(items: Seq<Json>)
        ensures
            items_view(items).len() == items.len(),
            forall|i: int| 0 <= i < items.len() ==> #[trigger] items_view(items)[i] == items[i]@,
        decreases items.len(),
    {
        if items.len() > 0 {
            Json::lemma_items_view(items.subrange(0, items.len() - 1));
        }
    }

    /// The members of an object view member by member.
    pub proof fn lemma_members_view(members: Seq<(String, Json)>)
        ensures
            members_view(members).len() == members.len(),
            forall|i: int| 0 <= i < members.len() ==> #[trigger] members_view(members)[i] == (members[i].0@, members[i].1@),
        decreases members.len(),
    {
        if members.len() > 0 {
            Json::lemma_members_view(members.subrange(0, members.len() - 1));
        }
    }

    /// The member `key` of this value, when it is an object that has one.
    pub fn get_member(&self, key: &str) -> (r: Option<&Json>)
        ensures
            match r {
                Some(v) => json_member(self@, key@) == Some(v@),
                None => json_member(self@, key@) is None,
            },
    {
        match self {
            Json::Object(members) => {
                proof {
                    Json::lemma_members_view(members@);
                }
                let ghost ms = members_view(members@);
                assert(ms.take(ms.len() as int) =~= ms);
                assert(self@ == JsonView::Object(ms));
                let k = String::from_str(key);
                let mut end: usize = members.len();
                while end > 0
                    invariant
                        end <= members.len(),
                        ms == members_view(members@),
                        ms.len() == members@.len(),
                        forall|j: int| 0 <= j < members@.len() ==> #[trigger] ms[j] == (members@[j].0@, members@[j].1@),
                        member(ms, key@) == member(ms.take(end as int), key@),
                        k@ == key@,
                        self@ == JsonView::Object(ms),
                    decreases end,
                {
                    assert(ms.take(end as int).last() == ms[end - 1]);
                    if members[end - 1].0 == k {
                        assert(member(ms.take(end as int), key@) == Some(ms[end - 1].1));
                        return Some(&members[end - 1].1);
                    }
                    assert(ms.take(end as int).drop_last() =~= ms.take(end - 1));
                    end = end - 1;
                }
                None
            },
            _ => None,
        }
    }

    /// The text of this value, when it is a string.
    pub fn as_text(&self) -> (r: Option<&String>)
        ensures
            match r {
                Some(s) => json_text(self@) == Some(s@),
                None => json_text(self@) is None,
            },
    {
        match self {
            Json::Str(s) => Some(s),
            _ => None,
        }
    }

    /// The items of this value, when it is an array.
    pub fn as_items(&self) -> (r: Option<&Vec<Json>>)
        ensures
            match r {
                Some(items) => self@ == JsonView::Array(items_view(items@)),
                None => !(self@ is Array),
            },
    {
        match self {
            Json::Array(items) => {
                Some(items)
            },
            _ => None,
        }
    }
}

/// Whether member `list_key` of `j` is an array in which some object has a
/// member `name_key` holding the text `name`.
pub open spec fn json_lists(j: JsonView, list_key: Seq<char>, name_key: Seq<char>, name: Seq<char>) -> bool {
    match json_member(j, list_key) {
        Some(JsonView::Array(items)) => exists|i: int|
            0 <= i < items.len() && json_member(#[trigger] items[i], name_key).is_some() && json_text(
                json_member(items[i], name_key).unwrap(),
            ) == Some(name),
        _ => false,
    }
}

impl Json {
    /// Whether member `list_key` of this value is an array in which some
    /// object has a member `name_key` holding the text `name`.
    pub fn lists(&self, list_key: &str, name_key: &str, name: &str) -> (r: bool)
        ensures
            r == json_lists(self@, list_key@, name_key@, name@),
    {
        let list = match self.get_member(list_key) {
            Some(l) => l,
            None => {
                return false;
            },
        };
        let items = match list.as_items() {
            Some(items) => items,
            None => {
                return false;
            },
        };
        proof {
            Json::lemma_items_view(items@);
        }
        let ghost xs = items_view(items@);
        let wanted = String::from_str(name);
        let mut i: usize = 0;
        while i < items.len()
            invariant
                i <= items@.len(),
                xs == items_view(items@),
                xs.len() == items@.len(),
                forall|k: int| 0 <= k < items@.len() ==> #[trigger] xs[k] == items@[k]@,
                json_member(self@, list_key@) == Some(JsonView::Array(xs)),
                wanted@ == name@,
                forall|k: int|
                    0 <= k < i ==> !(json_member(#[trigger] xs[k], name_key@).is_some() && json_text(
                        json_member(xs[k], name_key@).unwrap(),
                    ) == Some(name@)),
            decreases items.len() - i,
        {
            match items[i].get_member(name_key) {
                Some(v) => match v.as_text() {
                    Some(t) => {
                        if *t == wanted {
                            assert(json_member(xs[i as int], name_key@).is_some());
                            return true;
                        }
                    },
                    None => {},
                },
                None => {},
            }
            i = i + 1;
        }
        false
    }
}

/// A value lists `name` exactly when member `list_key` is an array and some
/// item of it, at any position, has a member `name_key` that is the text
/// `name`; where the item stands in the array does not matter.
pub proof fn lemma_lists_any_item(
    j: JsonView,
    list_key: Seq<char>,
    name_key: Seq<char>,
    name: Seq<char>,
)
    ensures
        json_lists(j, list_key, name_key, name) <==> (json_member(j, list_key) matches Some(
            JsonView::Array(items),
        ) && exists|i: int|
            0 <= i < items.len() && #[trigger] json_member(items[i], name_key) == Some(
                JsonView::Str(name),
            )),
{
    if let Some(JsonView::Array(items)) = json_member(j, list_key) {
        if json_lists(j, list_key, name_key, name) {
            let i = choose|i: int|
                0 <= i < items.len() && json_member(#[trigger] items[i], name_key).is_some()
                    && json_text(json_member(items[i], name_key).unwrap()) == Some(name);
            assert(json_member(items[i], name_key) == Some(JsonView::Str(name)));
        }
        if exists|i: int|
            0 <= i < items.len() && #[trigger] json_member(items[i], name_key) == Some(
                JsonView::Str(name),
            ) {
            let i = choose|i: int|
                0 <= i < items.len() && #[trigger] json_member(items[i], name_key) == Some(
                    JsonView::Str(name),
                );
            assert(json_member(items[i], name_key).is_some());
        }
    }
}

/// Where the array of `list_key` has, at any position `i`, an item whose
/// member `name_key` is the text `name`, the value lists `name`.
pub proof fn lemma_lists_item_at(
    j: JsonView,
    list_key: Seq<char>,
    name_key: Seq<char>,
    name: Seq<char>,
    items: Seq<JsonView>,
    i: int,
)
    requires
        json_member(j, list_key) == Some(JsonView::Array(items)),
        0 <= i < items.len(),
        json_member(items[i], name_key) == Some(JsonView::Str(name)),
    ensures
        json_lists(j, list_key, name_key, name),
{
    lemma_lists_any_item(j, list_key, name_key, name);
}

} // verus!
