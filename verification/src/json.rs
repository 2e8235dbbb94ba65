//! JSON documents, read and written by `serde_json`.

use vstd::prelude::*;

use crate::aws::maybe;
use crate::text::decimal;

verus! {

/// What a JSON value is. A number is given by its text.
pub enum Json {
    Null,
    Bool(bool),
    Number(Seq<char>),
    Text(Seq<char>),
    Array(Seq<Json>),
    Object(Map<Seq<char>, Json>),
}

impl Json {
    /// The member of this key, where the value is an object that has it.
    pub open spec fn get(self, key: Seq<char>) -> Option<Json> {
        match self {
            Json::Object(members) => if members.contains_key(key) {
                Some(members[key])
            } else {
                None
            },
            _ => None,
        }
    }

    /// The string that the value is.
    pub open spec fn as_text(self) -> Option<Seq<char>> {
        match self {
            Json::Text(s) => Some(s),
            _ => None,
        }
    }

    /// The string that the member of this key is.
    pub open spec fn text(self, key: Seq<char>) -> Option<Seq<char>> {
        match self.get(key) {
            Some(member) => member.as_text(),
            None => None,
        }
    }

    /// The string that the member of this key is in the object that the member
    /// `outer` is.
    pub open spec fn inner_text(self, outer: Seq<char>, key: Seq<char>) -> Option<Seq<char>> {
        match self.get(outer) {
            Some(member) => member.text(key),
            None => None,
        }
    }

    /// Members can be set: it is an object, or `null`, which turns into one.
    pub open spec fn takes_members(self) -> bool {
        self is Object || self is Null
    }

    /// The object with a member set.
    pub open spec fn with(self, key: Seq<char>, member: Json) -> Json {
        match self {
            Json::Object(members) => Json::Object(members.insert(key, member)),
            _ => Json::Object(Map::empty().insert(key, member)),
        }
    }

    /// The object with no members.
    pub open spec fn nothing() -> Json {
        Json::Object(Map::empty())
    }
}

// ── serde_json ────────────────────────────────────────────────────────────

#[verifier::external_type_specification]
#[verifier::external_body]
pub struct ExValue(serde_json::Value);

/// What a `serde_json::Value` holds.
pub uninterp spec fn json_contents(value: serde_json::Value) -> Json;

/// What `serde_json` reads in a document: its value, or the complaint.
pub uninterp spec fn json_read(document: Seq<u8>) -> Result<Json, Seq<char>>;

/// The text that `serde_json` writes a value as.
pub uninterp spec fn json_written(value: Json) -> Seq<char>;

/// `serde_json::from_slice` into a `Value`, the error taken as its text. What it
/// reads, and what it complains of, is a function of the bytes.
#[verifier::external_body]
pub(crate) fn parse(document: &[u8]) -> (r: Result<serde_json::Value, String>)
    ensures
        match r {
            Ok(value) => json_read(document@) == Ok::<Json, Seq<char>>(json_contents(value)),
            Err(why) => json_read(document@) == Err::<Json, Seq<char>>(why@),
        },
{
    serde_json::from_slice(document).map_err(|e: serde_json::Error| e.to_string())
}

/// `serde_json::Value::get` by key: the member of that key, and `None` where
/// there is none or the value is no object.
#[verifier::external_body]
pub(crate) fn get<'a>(value: &'a serde_json::Value, key: &str) -> (r: Option<&'a serde_json::Value>)
    ensures
        match r {
            Some(member) => json_contents(*value).get(key@) == Some(json_contents(*member)),
            None => json_contents(*value).get(key@) is None,
        },
{
    value.get(key)
}

/// `serde_json::Value::as_str`: the string, where the value is one.
#[verifier::external_body]
fn as_text(value: &serde_json::Value) -> (r: Option<String>)
    ensures
        maybe(r) == json_contents(*value).as_text(),
{
    value.as_str().map(|s: &str| s.to_string())
}

/// `serde_json::Value::as_array`: the elements, where the value is an array.
#[verifier::external_body]
pub(crate) fn as_array(value: &serde_json::Value) -> (r: Option<&Vec<serde_json::Value>>)
    ensures
        match r {
            Some(items) => json_contents(*value) == Json::Array(
                items@.map_values(|item: serde_json::Value| json_contents(item)),
            ),
            None => !(json_contents(*value) is Array),
        },
{
    value.as_array()
}

/// `serde_json::Value::as_i64`: the number, where the value is an integer that
/// fits. The text of an integer that is not negative is its decimal digits.
#[verifier::external_body]
pub(crate) fn as_number(value: &serde_json::Value) -> (r: Option<i64>)
    ensures
        r is Some && r->0 >= 0 ==> json_contents(*value) == Json::Number(decimal(r->0 as nat)),
        r is None || r->0 < 0 ==> forall|m: i64|
            m >= 0 ==> json_contents(*value) != Json::Number(#[trigger] decimal(m as nat)),
{
    value.as_i64()
}

/// `serde_json::Value::Object` of an empty `serde_json::Map`.
#[verifier::external_body]
pub(crate) fn nothing() -> (r: serde_json::Value)
    ensures
        json_contents(r) == Json::nothing(),
{
    serde_json::Value::Object(serde_json::Map::new())
}

/// `serde_json::Value::from` a string.
#[verifier::external_body]
pub(crate) fn text(s: &str) -> (r: serde_json::Value)
    ensures
        json_contents(r) == Json::Text(s@),
{
    serde_json::Value::from(s)
}

/// `serde_json::Value::from` a number, whose text is its decimal digits.
#[verifier::external_body]
pub(crate) fn number(n: u64) -> (r: serde_json::Value)
    ensures
        json_contents(r) == Json::Number(decimal(n as nat)),
{
    serde_json::Value::from(n)
}

/// `serde_json::Value::from` a boolean.
#[verifier::external_body]
pub(crate) fn boolean(b: bool) -> (r: serde_json::Value)
    ensures
        json_contents(r) == Json::Bool(b),
{
    serde_json::Value::from(b)
}

/// `serde_json::Value::from` a vector of values.
#[verifier::external_body]
pub(crate) fn array(items: Vec<serde_json::Value>) -> (r: serde_json::Value)
    ensures
        json_contents(r) == Json::Array(
            items@.map_values(|item: serde_json::Value| json_contents(item)),
        ),
{
    serde_json::Value::from(items)
}

/// Assignment through `serde_json`'s `IndexMut`: sets the member of that key, and
/// turns `null` into an object first. On any other value it panics, and so
/// `requires` leaves those out.
#[verifier::external_body]
pub(crate) fn put(value: &mut serde_json::Value, key: &str, member: serde_json::Value)
    requires
        json_contents(*old(value)).takes_members(),
    ensures
        json_contents(*final(value)) == json_contents(*old(value)).with(
            key@,
            json_contents(member),
        ),
{
    value[key] = member;
}

/// `serde_json::Value::clone`: a value that holds the same.
#[verifier::external_body]
pub(crate) fn copy(value: &serde_json::Value) -> (r: serde_json::Value)
    ensures
        json_contents(r) == json_contents(*value),
{
    value.clone()
}

/// `serde_json::Value::is_object`.
#[verifier::external_body]
fn is_object(value: &serde_json::Value) -> (r: bool)
    ensures
        r == (json_contents(*value) is Object),
{
    value.is_object()
}

/// `serde_json::Value::is_null`.
#[verifier::external_body]
fn is_null(value: &serde_json::Value) -> (r: bool)
    ensures
        r == (json_contents(*value) is Null),
{
    value.is_null()
}

/// `to_string` of a `serde_json::Value`: compact JSON text, a function of what
/// the value holds.
#[verifier::external_body]
pub(crate) fn to_text(value: &serde_json::Value) -> (r: String)
    ensures
        r@ == json_written(json_contents(*value)),
{
    value.to_string()
}

// ── reading and building ──────────────────────────────────────────────────

/// The string that the member of this key is.
pub(crate) fn text_of(value: &serde_json::Value, key: &str) -> (r: Option<String>)
    ensures
        maybe(r) == json_contents(*value).text(key@),
{
    match get(value, key) {
        Some(member) => as_text(member),
        None => None,
    }
}

/// The string that the member of this key is in the object that the member
/// `outer` is.
pub(crate) fn inner_text_of(value: &serde_json::Value, outer: &str, key: &str) -> (r: Option<
    String,
>)
    ensures
        maybe(r) == json_contents(*value).inner_text(outer@, key@),
{
    match get(value, outer) {
        Some(member) => text_of(member, key),
        None => None,
    }
}

/// Can members be set?
pub(crate) fn takes_members(value: &serde_json::Value) -> (r: bool)
    ensures
        r == json_contents(*value).takes_members(),
{
    is_object(value) || is_null(value)
}

/// The object with a member set.
pub(crate) fn with(value: serde_json::Value, key: &str, member: serde_json::Value) -> (r:
    serde_json::Value)
    requires
        json_contents(value).takes_members(),
    ensures
        json_contents(r) == json_contents(value).with(key@, json_contents(member)),
{
    let mut object = value;
    put(&mut object, key, member);
    object
}

/// The array of one element.
pub(crate) fn single(item: serde_json::Value) -> (r: serde_json::Value)
    ensures
        json_contents(r) == Json::Array(seq![json_contents(item)]),
{
    let ghost held = json_contents(item);
    let mut items: Vec<serde_json::Value> = Vec::new();
    items.push(item);
    assert(items@.map_values(|item: serde_json::Value| json_contents(item)) =~= seq![held]);
    array(items)
}

/// The array of two strings.
pub(crate) fn pair(first: &str, second: &str) -> (r: serde_json::Value)
    ensures
        json_contents(r) == Json::Array(seq![Json::Text(first@), Json::Text(second@)]),
{
    let mut items: Vec<serde_json::Value> = Vec::new();
    items.push(text(first));
    items.push(text(second));
    assert(items@.map_values(|item: serde_json::Value| json_contents(item)) =~= seq![
        Json::Text(first@),
        Json::Text(second@),
    ]);
    array(items)
}

// ── finding an id by a name ───────────────────────────────────────────────

/// A resource as a listing gives it: its name and its id, where the listing has
/// them as strings.
pub struct Listed {
    pub name: Option<String>,
    pub id: Option<String>,
}

/// What a listed resource says.
pub struct ListedView {
    pub name: Option<Seq<char>>,
    pub id: Option<Seq<char>>,
}

impl View for Listed {
    type V = ListedView;

    open spec fn view(&self) -> ListedView {
        ListedView { name: maybe(self.name), id: maybe(self.id) }
    }
}

/// What a list of resources says.
pub open spec fn listing(list: Seq<Listed>) -> Seq<ListedView> {
    list.map_values(|entry: Listed| entry@)
}

/// The resources in a JSON array, named and identified by these members.
pub open spec fn listing_of(items: Seq<Json>, name_key: Seq<char>, id_key: Seq<char>) -> Seq<
    ListedView,
> {
    items.map_values(
        |item: Json| ListedView { name: item.text(name_key), id: item.text(id_key) },
    )
}

/// The id of the first resource of this name.
pub open spec fn id_named(list: Seq<ListedView>, name: Seq<char>) -> Option<Seq<char>>
    decreases list.len(),
{
    if list.len() == 0 {
        None
    } else if list[0].name == Some(name) {
        list[0].id
    } else {
        id_named(list.skip(1), name)
    }
}

/// Finds the id of the first resource of this name. A first one without an id
/// ends the search: a later namesake is not taken in its place.
pub fn id_by_name(list: &Vec<Listed>, name: &str) -> (r: Option<String>)
    ensures
        maybe(r) == id_named(listing(list@), name@),
{
    let wanted = name.to_string();
    let mut i: usize = 0;
    assert(listing(list@).skip(0) =~= listing(list@));
    while i < list.len()
        invariant
            wanted@ == name@,
            i <= list.len(),
            id_named(listing(list@), name@) == id_named(listing(list@).skip(i as int), name@),
        decreases list.len() - i,
    {
        let ghost rest = listing(list@).skip(i as int);
        assert(rest[0] == list@[i as int]@);
        assert(rest.skip(1) =~= listing(list@).skip(i + 1));
        if let Some(found) = &list[i].name {
            if *found == wanted {
                return match &list[i].id {
                    Some(id) => Some(id.clone()),
                    None => None,
                };
            }
        }
        i += 1;
    }
    None
}

/// Reads the resources out of a JSON array.
pub(crate) fn listed(items: &Vec<serde_json::Value>, name_key: &str, id_key: &str) -> (r: Vec<
    Listed,
>)
    ensures
        listing(r@) == listing_of(
            items@.map_values(|item: serde_json::Value| json_contents(item)),
            name_key@,
            id_key@,
        ),
{
    let ghost all = listing_of(
        items@.map_values(|item: serde_json::Value| json_contents(item)),
        name_key@,
        id_key@,
    );
    let mut list: Vec<Listed> = Vec::new();
    let mut i: usize = 0;
    while i < items.len()
        invariant
            i <= items.len(),
            all == listing_of(
                items@.map_values(|item: serde_json::Value| json_contents(item)),
                name_key@,
                id_key@,
            ),
            listing(list@) == all.take(i as int),
        decreases items.len() - i,
    {
        let ghost before = list@;
        let entry = Listed { name: text_of(&items[i], name_key), id: text_of(&items[i], id_key) };
        assert(entry@ == all[i as int]);
        list.push(entry);
        assert(listing(list@) =~= listing(before).push(entry@));
        assert(all.take(i + 1) =~= all.take(i as int).push(all[i as int]));
        i += 1;
    }
    assert(all.take(items@.len() as int) =~= all);
    list
}

// ── laws ──────────────────────────────────────────────────────────────────

/// What is found by a name has that name: the id is that of a listed resource of the
/// name, of which none of the name is listed before; and none is found only if none of
/// the name is listed, or the first that is has no id.
pub proof fn law_ids_are_found_by_name(list: Seq<ListedView>, name: Seq<char>)
    ensures
        match id_named(list, name) {
            Some(id) => exists|i: int|
                0 <= i < list.len() && #[trigger] list[i].name == Some(name) && list[i].id == Some(
                    id,
                ) && forall|j: int| 0 <= j < i ==> #[trigger] list[j].name != Some(name),
            None => forall|i: int|
                0 <= i < list.len() && #[trigger] list[i].name == Some(name) && (forall|j: int|
                    0 <= j < i ==> #[trigger] list[j].name != Some(name)) ==> list[i].id is None,
        },
    decreases list.len(),
{
    if list.len() > 0 {
        if list[0].name == Some(name) {
            if list[0].id is Some {
                assert(list[0].name == Some(name));
            }
        } else {
            let rest = list.skip(1);
            law_ids_are_found_by_name(rest, name);
            match id_named(rest, name) {
                Some(id) => {
                    let i = choose|i: int|
                        0 <= i < rest.len() && #[trigger] rest[i].name == Some(name) && rest[i].id
                            == Some(id) && forall|j: int|
                            0 <= j < i ==> #[trigger] rest[j].name != Some(name);
                    assert(list[i + 1].name == Some(name));
                    assert forall|j: int| 0 <= j < i + 1 implies #[trigger] list[j].name != Some(
                        name,
                    ) by {
                        if j > 0 {
                            assert(rest[j - 1].name == list[j].name);
                        }
                    }
                },
                None => {
                    assert forall|i: int|
                        0 <= i < list.len() && #[trigger] list[i].name == Some(name) && (forall|
                            j: int,
                        | 0 <= j < i ==> #[trigger] list[j].name != Some(
                            name,
                        )) implies list[i].id is None by {
                        assert(rest[i - 1].name == list[i].name);
                        assert forall|j: int| 0 <= j < i - 1 implies #[trigger] rest[j].name
                            != Some(name) by {
                            assert(rest[j].name == list[j + 1].name);
                        }
                    }
                },
            }
        }
    }
}

} // verus!
