//! JSON values: what the panes are described in and what the actions carry.

use crate::text::{self, same};
use vstd::prelude::*;

verus! {

/// A JSON value. An object holds its members in the order in which they were
/// put in; a number is kept as its numeral.
pub enum Json {
    Null,
    Bool(bool),
    Number(String),
    Text(String),
    Array(Vec<Json>),
    Object(Vec<(String, Json)>),
}

/// A JSON value as mathematics.
pub ghost enum JsonView {
    Null,
    Bool(bool),
    Number(Seq<char>),
    Text(Seq<char>),
    Array(Seq<JsonView>),
    Object(Seq<(Seq<char>, JsonView)>),
}

impl JsonView {
    /// An object without members.
    pub open spec fn object() -> JsonView {
        JsonView::Object(seq![])
    }

    /// An array without items.
    pub open spec fn array() -> JsonView {
        JsonView::Array(seq![])
    }

    /// An object with one member more.
    pub open spec fn with(self, key: Seq<char>, value: JsonView) -> JsonView {
        match self {
            JsonView::Object(members) => JsonView::Object(members.push((key, value))),
            _ => self,
        }
    }

    /// An array with one item more.
    pub open spec fn and(self, value: JsonView) -> JsonView {
        match self {
            JsonView::Array(items) => JsonView::Array(items.push(value)),
            _ => self,
        }
    }

    /// The first member under `key`; null where there is none.
    pub open spec fn at(self, key: Seq<char>) -> JsonView {
        match self {
            JsonView::Object(members) => member(members, key),
            _ => JsonView::Null,
        }
    }

    /// The text, of a text.
    pub open spec fn text(self) -> Option<Seq<char>> {
        match self {
            JsonView::Text(t) => Some(t),
            _ => None,
        }
    }

    /// The truth value, of a truth value.
    pub open spec fn flag(self) -> Option<bool> {
        match self {
            JsonView::Bool(b) => Some(b),
            _ => None,
        }
    }

    /// The items, of an array; none of anything else.
    pub open spec fn items(self) -> Seq<JsonView> {
        match self {
            JsonView::Array(items) => items,
            _ => seq![],
        }
    }

    /// The texts among the items.
    pub open spec fn item_texts(self) -> Seq<Seq<char>> {
        texts_among(self.items())
    }
}

impl JsonView {
    /// Whether an object has a member under `key`.
    pub closed spec fn holds(self, key: Seq<char>) -> bool {
        self matches JsonView::Object(members) && exists|i: int|
            0 <= i < members.len() && (#[trigger] members[i]).0 == key
    }
}

/// An object without members holds nothing.
pub broadcast proof fn object_holds(key: Seq<char>)
    ensures
        !#[trigger] JsonView::object().holds(key),
        JsonView::object().at(key) == JsonView::Null,
{
}

/// A member put behind those of an object is found under its key, unless another
/// was there before, and changes nothing under the other keys.
pub broadcast proof fn with_at(o: JsonView, put: Seq<char>, value: JsonView, key: Seq<char>)
    requires
        o is Object,
    ensures
        #![trigger o.with(put, value).at(key)]
        #![trigger o.with(put, value).holds(key)]
        o.with(put, value).at(key) == (if o.holds(key) {
            o.at(key)
        } else if put == key {
            value
        } else {
            JsonView::Null
        }),
        o.with(put, value).holds(key) == (o.holds(key) || put == key),
{
    let members = o->Object_0;
    let more = members.push((put, value));
    member_push(members, put, value, key);
    if o.holds(key) {
        let i = choose|i: int| 0 <= i < members.len() && (#[trigger] members[i]).0 == key;
        assert(more[i].0 == key);
    }
    assert(more[members.len() as int].0 == put);
    if o.with(put, value).holds(key) && put != key {
        let i = choose|i: int| 0 <= i < more.len() && (#[trigger] more[i]).0 == key;
        assert(members[i].0 == key);
    }
}

proof fn member_push(
    members: Seq<(Seq<char>, JsonView)>,
    put: Seq<char>,
    value: JsonView,
    key: Seq<char>,
)
    ensures
        member(members.push((put, value)), key) == (if exists|i: int|
            0 <= i < members.len() && (#[trigger] members[i]).0 == key {
            member(members, key)
        } else if put == key {
            value
        } else {
            JsonView::Null
        }),
    decreases members.len(),
{
    let more = members.push((put, value));
    if members.len() == 0 {
        assert(more.skip(1) =~= seq![]);
    } else {
        let rest = members.skip(1);
        assert(more.skip(1) =~= rest.push((put, value)));
        assert(more[0] == members[0]);
        member_push(rest, put, value, key);
        if members[0].0 != key {
            if exists|i: int| 0 <= i < members.len() && (#[trigger] members[i]).0 == key {
                let i = choose|i: int| 0 <= i < members.len() && (#[trigger] members[i]).0 == key;
                assert(rest[i - 1].0 == key);
            }
            if exists|i: int| 0 <= i < rest.len() && (#[trigger] rest[i]).0 == key {
                let i = choose|i: int| 0 <= i < rest.len() && (#[trigger] rest[i]).0 == key;
                assert(members[i + 1].0 == key);
            }
        }
    }
}

/// The value of the first member under `key`.
pub open spec fn member(members: Seq<(Seq<char>, JsonView)>, key: Seq<char>) -> JsonView
    decreases members.len(),
{
    if members.len() == 0 {
        JsonView::Null
    } else if members[0].0 == key {
        members[0].1
    } else {
        member(members.skip(1), key)
    }
}

/// The texts among JSON values, in their order.
pub open spec fn texts_among(items: Seq<JsonView>) -> Seq<Seq<char>>
    decreases items.len(),
{
    if items.len() == 0 {
        seq![]
    } else {
        match items.last().text() {
            Some(t) => texts_among(items.drop_last()).push(t),
            None => texts_among(items.drop_last()),
        }
    }
}

impl Json {
    /// The value as mathematics.
    pub open spec fn model(self) -> JsonView
        decreases self,
    {
        match self {
            Json::Null => JsonView::Null,
            Json::Bool(b) => JsonView::Bool(b),
            Json::Number(n) => JsonView::Number(n@),
            Json::Text(t) => JsonView::Text(t@),
            Json::Array(items) => JsonView::Array(
                Seq::new(
                    items@.len(),
                    |i: int|
                        if 0 <= i < items@.len() {
                            items@[i].model()
                        } else {
                            JsonView::Null
                        },
                ),
            ),
            Json::Object(members) => JsonView::Object(
                Seq::new(
                    members@.len(),
                    |i: int|
                        if 0 <= i < members@.len() {
                            (members@[i].0@, members@[i].1.model())
                        } else {
                            (seq![], JsonView::Null)
                        },
                ),
            ),
        }
    }
}

impl View for Json {
    type V = JsonView;

    open spec fn view(&self) -> JsonView {
        self.model()
    }
}

/// What an optional reference shows; null where there is none.
pub open spec fn seen(value: Option<&Json>) -> JsonView {
    match value {
        Some(v) => v@,
        None => JsonView::Null,
    }
}

impl Json {
    /// An object without members.
    pub fn object() -> (r: Json)
        ensures
            r@ == JsonView::object(),
    {
        let r = Json::Object(Vec::new());
        assert(r@->Object_0 =~= seq![]);
        r
    }

    /// An array without items.
    pub fn array() -> (r: Json)
        ensures
            r@ == JsonView::array(),
    {
        let r = Json::Array(Vec::new());
        assert(r@->Array_0 =~= seq![]);
        r
    }

    /// A text.
    pub fn text(t: &str) -> (r: Json)
        ensures
            r@ == JsonView::Text(t@),
    {
        Json::Text(t.to_owned())
    }

    /// Puts a member behind those of an object.
    pub fn with(self, key: &str, value: Json) -> (r: Json)
        ensures
            r@ == self@.with(key@, value@),
    {
        match self {
            Json::Object(members) => {
                let ghost before = self@->Object_0;
                let mut all = members;
                all.push((key.to_owned(), value));
                let r = Json::Object(all);
                assert(r@->Object_0 =~= before.push((key@, value@)));
                r
            },
            other => other,
        }
    }

    /// Puts an item behind those of an array.
    pub fn and(self, value: Json) -> (r: Json)
        ensures
            r@ == self@.and(value@),
    {
        match self {
            Json::Array(items) => {
                let ghost before = self@->Array_0;
                let mut all = items;
                all.push(value);
                let r = Json::Array(all);
                assert(r@->Array_0 =~= before.push(value@));
                r
            },
            other => other,
        }
    }

    /// An array of texts.
    pub fn texts(rows: &Vec<String>) -> (r: Json)
        ensures
            r@ == text_array(text::texts(rows@)),
    {
        let mut r = Json::array();
        let mut i: usize = 0;
        assert(text::texts(rows@).take(0) =~= seq![]);
        while i < rows.len()
            invariant
                i <= rows@.len(),
                r@ == text_array(text::texts(rows@).take(i as int)),
            decreases rows@.len() - i,
        {
            r = r.and(Json::text(rows[i].as_str()));
            i += 1;
            assert(text::texts(rows@).take(i as int).drop_last()
                =~= text::texts(rows@).take(i - 1));
        }
        assert(text::texts(rows@).take(i as int) =~= text::texts(rows@));
        r
    }
}

/// An array of texts.
pub open spec fn text_array(rows: Seq<Seq<char>>) -> JsonView
    decreases rows.len(),
{
    if rows.len() == 0 {
        JsonView::array()
    } else {
        text_array(rows.drop_last()).and(JsonView::Text(rows.last()))
    }
}

/// The texts among the items of an array of texts are those texts.
pub proof fn text_array_items(rows: Seq<Seq<char>>)
    ensures
        text_array(rows) is Array,
        text_array(rows).item_texts() == rows,
    decreases rows.len(),
{
    if rows.len() == 0 {
        assert(rows =~= seq![]);
    } else {
        text_array_items(rows.drop_last());
        let items = text_array(rows).items();
        assert(items.drop_last() =~= text_array(rows.drop_last()).items());
        assert(text_array(rows).item_texts() =~= rows);
    }
}

/// The member of an object under `key`; nothing where there is none.
pub fn at<'a>(value: Option<&'a Json>, key: &str) -> (r: Option<&'a Json>)
    ensures
        seen(r) == seen(value).at(key@),
{
    match value {
        Some(Json::Object(members)) => {
            let mut i: usize = 0;
            let ghost all = value->0@->Object_0;
            assert(all.skip(0) =~= all);
            while i < members.len()
                invariant
                    i <= members@.len(),
                    all.len() == members@.len(),
                    forall|j: int|
                        0 <= j < members@.len() ==> #[trigger] all[j] == (
                            members@[j].0@,
                            members@[j].1@,
                        ),
                    seen(value).at(key@) == member(all.skip(i as int), key@),
                decreases members@.len() - i,
            {
                assert(all.skip(i as int)[0] == all[i as int]);
                if same(members[i].0.as_str(), key) {
                    return Some(&members[i].1);
                }
                assert(all.skip(i as int).skip(1) =~= all.skip(i + 1));
                i += 1;
            }
            None
        },
        _ => None,
    }
}

/// The text of a member.
pub fn text_at<'a>(value: Option<&'a Json>, key: &str) -> (r: Option<&'a str>)
    ensures
        match seen(value).at(key@).text() {
            Some(t) => r matches Some(s) && s@ == t,
            None => r is None,
        },
{
    match at(value, key) {
        Some(Json::Text(t)) => Some(t.as_str()),
        _ => None,
    }
}

/// The text of a member; empty where it has none.
pub fn text_or_empty(value: Option<&Json>, key: &str) -> (r: String)
    ensures
        r@ == (match seen(value).at(key@).text() {
            Some(t) => t,
            None => seq![],
        }),
{
    match text_at(value, key) {
        Some(t) => t.to_owned(),
        None => String::new(),
    }
}

/// The truth value of a member.
pub fn flag_at(value: Option<&Json>, key: &str) -> (r: Option<bool>)
    ensures
        r == seen(value).at(key@).flag(),
{
    match at(value, key) {
        Some(Json::Bool(b)) => Some(*b),
        _ => None,
    }
}

/// The texts among the items of a member.
pub fn texts_at(value: Option<&Json>, key: &str) -> (r: Vec<String>)
    ensures
        text::texts(r@) == seen(value).at(key@).item_texts(),
{
    let mut out: Vec<String> = Vec::new();
    assert(text::texts(out@) =~= seq![]);
    match at(value, key) {
        Some(Json::Array(items)) => {
            let ghost all = seen(value).at(key@).items();
            let mut i: usize = 0;
            assert(all.take(0) =~= seq![]);
            while i < items.len()
                invariant
                    i <= items@.len(),
                    all.len() == items@.len(),
                    forall|j: int| 0 <= j < items@.len() ==> #[trigger] all[j] == items@[j]@,
                    text::texts(out@) == texts_among(all.take(i as int)),
                decreases items@.len() - i,
            {
                let ghost before = out@;
                assert(all[i as int] == items@[i as int]@);
                assert(all.take(i + 1).drop_last() =~= all.take(i as int));
                if let Json::Text(t) = &items[i] {
                    out.push(t.clone());
                    assert(text::texts(out@) =~= text::texts(before).push(t@));
                }
                i += 1;
            }
            assert(all.take(i as int) =~= all);
        },
        _ => {},
    }
    out
}

} // verus!
