//! TOML documents, read by `toml`.

use vstd::prelude::*;

use crate::aws::maybe;
use crate::text::chars_of;

verus! {

/// An entry at the top of a document: its key, and its value where that is a
/// string.
pub struct Entry {
    pub key: String,
    pub text: Option<String>,
}

/// What an entry says.
pub struct EntryView {
    pub key: Seq<char>,
    pub text: Option<Seq<char>>,
}

impl View for Entry {
    type V = EntryView;

    open spec fn view(&self) -> EntryView {
        EntryView { key: self.key@, text: maybe(self.text) }
    }
}

/// What a list of entries says.
pub open spec fn entries(list: Seq<Entry>) -> Seq<EntryView> {
    list.map_values(|entry: Entry| entry@)
}

/// What `toml` reads in a document: the entries at its top, in their order, or the
/// complaint.
pub uninterp spec fn toml_read(document: Seq<char>) -> Result<Seq<EntryView>, Seq<char>>;

/// `toml::from_str` into a `toml::Table`, whose entries are handed out in the
/// order of the document, each value taken as its string where it is one, and the
/// error as its text. Both are functions of the document.
#[verifier::external_body]
pub(crate) fn read_toml(document: &str) -> (r: Result<Vec<Entry>, String>)
    ensures
        match r {
            Ok(list) => toml_read(document@) == Ok::<Seq<EntryView>, Seq<char>>(entries(list@)),
            Err(why) => toml_read(document@) == Err::<Seq<EntryView>, Seq<char>>(why@),
        },
{
    let table: toml::Table = toml::from_str(document).map_err(|e: toml::de::Error| e.to_string())?;
    Ok(
        table.into_iter().map(
            |(key, value)| Entry { key, text: value.as_str().map(|s: &str| s.to_string()) },
        ).collect(),
    )
}

/// What a list of keys with their strings says.
pub open spec fn lines(list: Seq<(String, String)>) -> Seq<EntryView> {
    list.map_values(|line: (String, String)| EntryView { key: line.0@, text: Some(line.1@) })
}

/// The next 256 characters are all this one.
pub open spec fn repeats_at(s: Seq<char>, quote: char, start: int) -> bool {
    forall|i: int| start <= i < start + 256 ==> #[trigger] s[i] == quote
}

/// A run of 256 quotation marks starts here.
pub open spec fn run_at(s: Seq<char>, start: int) -> bool {
    &&& 0 <= start
    &&& start + 256 <= s.len()
    &&& repeats_at(s, '"', start) || repeats_at(s, '\'', start)
}

/// A string that `toml` can write: no run of the same quotation mark is longer than
/// a byte can count.
pub open spec fn writable(s: Seq<char>) -> bool {
    forall|start: int| !#[trigger] run_at(s, start)
}

/// A string, if any, that `toml` can write.
pub open spec fn writable_if_any(text: Option<Seq<char>>) -> bool {
    text is Some ==> writable(text->0)
}

/// A key that is written without quotation marks.
pub open spec fn bare(key: Seq<char>) -> bool {
    &&& key.len() > 0
    &&& forall|i: int|
        0 <= i < key.len() ==> {
            let c = #[trigger] key[i];
            'a' <= c <= 'z' || 'A' <= c <= 'Z' || '0' <= c <= '9' || c == '_' || c == '-'
        }
}

/// Entries of bare keys, no two of which are the same.
pub open spec fn apart(list: Seq<EntryView>) -> bool {
    &&& forall|i: int| 0 <= i < list.len() ==> bare((#[trigger] list[i]).key)
    &&& forall|i: int, j: int|
        0 <= i < j < list.len() ==> (#[trigger] list[i]).key != (#[trigger] list[j]).key
}

/// The document that `toml` writes of entries that are strings, or the complaint.
pub uninterp spec fn toml_written(list: Seq<EntryView>) -> Result<Seq<char>, Seq<char>>;

/// `toml::to_string_pretty` of a `toml::Table` of strings, in the order of the
/// list, and its error as its text. Both are functions of the list. What is written
/// of bare keys that are all different, `toml::from_str` reads back. A run of
/// quotation marks is counted in one byte, so a longer one is left out.
#[verifier::external_body]
pub(crate) fn write_toml(list: Vec<(String, String)>) -> (r: Result<String, String>)
    requires
        forall|i: int| 0 <= i < list@.len() ==> writable((#[trigger] list@[i]).1@),
    ensures
        match r {
            Ok(text) => {
                &&& toml_written(lines(list@)) == Ok::<Seq<char>, Seq<char>>(text@)
                &&& apart(lines(list@)) ==> toml_read(text@) == Ok::<Seq<EntryView>, Seq<char>>(
                    lines(list@),
                )
            },
            Err(why) => toml_written(lines(list@)) == Err::<Seq<char>, Seq<char>>(why@),
        },
{
    let table: toml::Table = list.into_iter().map(
        |(key, text)| (key, toml::Value::String(text)),
    ).collect();
    toml::to_string_pretty(&table).map_err(|e: toml::ser::Error| e.to_string())
}

/// Can `toml` write this string?
pub fn is_writable(s: &str) -> (r: bool)
    ensures
        r == writable(s@),
{
    let chars = chars_of(s);
    let mut double: usize = 0;
    let mut single: usize = 0;
    let mut i: usize = 0;
    while i < chars.len()
        invariant
            chars@ == s@,
            i <= chars.len(),
            double <= i,
            double < 256,
            single <= i,
            single < 256,
            forall|j: int| i - double <= j < i ==> #[trigger] s@[j] == '"',
            double < i ==> s@[i - double - 1] != '"',
            forall|j: int| i - single <= j < i ==> #[trigger] s@[j] == '\'',
            single < i ==> s@[i - single - 1] != '\'',
            forall|start: int| start + 256 <= i ==> !#[trigger] run_at(s@, start),
        decreases chars.len() - i,
    {
        let c = chars[i];
        if c == '"' {
            double += 1;
        } else {
            double = 0;
        }
        if c == '\'' {
            single += 1;
        } else {
            single = 0;
        }
        if double == 256 || single == 256 {
            assert(double == 256 ==> repeats_at(s@, '"', i - 255));
            assert(single == 256 ==> repeats_at(s@, '\'', i - 255));
            assert(run_at(s@, i - 255));
            return false;
        }
        assert forall|start: int| start + 256 <= i + 1 implies !#[trigger] run_at(s@, start) by {
            if start + 256 == i + 1 && start >= 0 {
                assert(s@[i - double] != '"');
                assert(s@[i - single] != '\'');
            }
        }
        i += 1;
    }
    true
}

/// Can `toml` write this string, if there is one?
pub fn is_writable_if_any(text: &Option<String>) -> (r: bool)
    ensures
        r == writable_if_any(maybe(*text)),
{
    match text {
        Some(s) => is_writable(s.as_str()),
        None => true,
    }
}

/// Adds an entry where there is a string for it.
pub open spec fn with_entry(
    list: Seq<EntryView>,
    key: Seq<char>,
    text: Option<Seq<char>>,
) -> Seq<EntryView> {
    match text {
        Some(s) => list.push(EntryView { key, text: Some(s) }),
        None => list,
    }
}

/// Adds an entry where there is a string for it.
pub(crate) fn add_entry(list: &mut Vec<(String, String)>, key: &str, text: &Option<String>)
    requires
        forall|i: int| 0 <= i < old(list)@.len() ==> writable((#[trigger] old(list)@[i]).1@),
        writable_if_any(maybe(*text)),
    ensures
        lines(final(list)@) == with_entry(lines(old(list)@), key@, maybe(*text)),
        forall|i: int| 0 <= i < final(list)@.len() ==> writable((#[trigger] final(list)@[i]).1@),
{
    if let Some(s) = text {
        list.push((key.to_string(), s.clone()));
        assert(lines(list@) =~= with_entry(lines(old(list)@), key@, maybe(*text)));
    }
}

/// What a key holds once an entry is added.
proof fn lemma_with_entry(
    list: Seq<EntryView>,
    key: Seq<char>,
    text: Option<Seq<char>>,
    wanted: Seq<char>,
)
    ensures
        held_by(with_entry(list, key, text), wanted) == (if held_by(list, wanted) is Nothing && key
            == wanted && text is Some {
            HeldView::Text(text->0)
        } else {
            held_by(list, wanted)
        }),
    decreases list.len(),
{
    let more = with_entry(list, key, text);
    if text is Some {
        if list.len() == 0 {
            assert(more.skip(1) =~= Seq::<EntryView>::empty());
            reveal_with_fuel(held_by, 2);
        } else {
            assert(more[0] == list[0]);
            assert(more.skip(1) =~= with_entry(list.skip(1), key, text));
            lemma_with_entry(list.skip(1), key, text, wanted);
        }
    }
}

/// What any key holds once an entry is added.
pub proof fn lemma_entry_added(list: Seq<EntryView>, key: Seq<char>, text: Option<Seq<char>>)
    ensures
        forall|wanted: Seq<char>|
            #[trigger] held_by(with_entry(list, key, text), wanted) == (if held_by(
                list,
                wanted,
            ) is Nothing && key == wanted && text is Some {
                HeldView::Text(text->0)
            } else {
                held_by(list, wanted)
            }),
{
    assert forall|wanted: Seq<char>|
        #[trigger] held_by(with_entry(list, key, text), wanted) == (if held_by(
            list,
            wanted,
        ) is Nothing && key == wanted && text is Some {
            HeldView::Text(text->0)
        } else {
            held_by(list, wanted)
        }) by {
        lemma_with_entry(list, key, text, wanted);
    }
}

/// Entries stay apart when one of a new bare key is added.
pub proof fn lemma_apart(list: Seq<EntryView>, key: Seq<char>, text: Option<Seq<char>>)
    requires
        apart(list),
        bare(key),
        held_by(list, key) is Nothing,
    ensures
        apart(with_entry(list, key, text)),
{
    lemma_nothing_held(list, key);
}

proof fn lemma_nothing_held(list: Seq<EntryView>, key: Seq<char>)
    requires
        held_by(list, key) is Nothing,
    ensures
        forall|i: int| 0 <= i < list.len() ==> (#[trigger] list[i]).key != key,
    decreases list.len(),
{
    if list.len() > 0 {
        lemma_nothing_held(list.skip(1), key);
        assert forall|i: int| 0 <= i < list.len() implies (#[trigger] list[i]).key != key by {
            if i > 0 {
                assert(list[i] == list.skip(1)[i - 1]);
            }
        }
    }
}

/// What a key holds: nothing, a string, or something else.
pub enum Held {
    Nothing,
    Text(String),
    Other,
}

/// What a key holds.
pub enum HeldView {
    Nothing,
    Text(Seq<char>),
    Other,
}

impl View for Held {
    type V = HeldView;

    open spec fn view(&self) -> HeldView {
        match self {
            Held::Nothing => HeldView::Nothing,
            Held::Text(s) => HeldView::Text(s@),
            Held::Other => HeldView::Other,
        }
    }
}

/// What the entry of this key holds.
pub open spec fn held_by(list: Seq<EntryView>, key: Seq<char>) -> HeldView
    decreases list.len(),
{
    if list.len() == 0 {
        HeldView::Nothing
    } else if list[0].key == key {
        match list[0].text {
            Some(s) => HeldView::Text(s),
            None => HeldView::Other,
        }
    } else {
        held_by(list.skip(1), key)
    }
}

/// Looks an entry up.
pub fn held(list: &Vec<Entry>, key: &str) -> (r: Held)
    ensures
        r@ == held_by(entries(list@), key@),
{
    let wanted = key.to_string();
    let mut i: usize = 0;
    assert(entries(list@).skip(0) =~= entries(list@));
    while i < list.len()
        invariant
            wanted@ == key@,
            i <= list.len(),
            held_by(entries(list@), key@) == held_by(entries(list@).skip(i as int), key@),
        decreases list.len() - i,
    {
        let ghost rest = entries(list@).skip(i as int);
        assert(rest[0] == list@[i as int]@);
        assert(rest.skip(1) =~= entries(list@).skip(i + 1));
        if list[i].key == wanted {
            return match &list[i].text {
                Some(s) => Held::Text(s.clone()),
                None => Held::Other,
            };
        }
        i += 1;
    }
    Held::Nothing
}

/// A string that has to be there.
pub open spec fn required(list: Seq<EntryView>, key: Seq<char>) -> Result<Seq<char>, Seq<char>> {
    match held_by(list, key) {
        HeldView::Text(s) => Ok(s),
        HeldView::Nothing => Err("missing field `"@ + key + "`"@),
        HeldView::Other => Err("field `"@ + key + "` is not a string"@),
    }
}

/// The entry of this key holds this string, if any.
pub open spec fn holds(list: Seq<EntryView>, key: Seq<char>, text: Option<Seq<char>>) -> bool {
    held_by(list, key) == match text {
        Some(s) => HeldView::Text(s),
        None => HeldView::Nothing,
    }
}

/// A string that may be there.
pub open spec fn optional(list: Seq<EntryView>, key: Seq<char>) -> Result<
    Option<Seq<char>>,
    Seq<char>,
> {
    match held_by(list, key) {
        HeldView::Text(s) => Ok(Some(s)),
        HeldView::Nothing => Ok(None),
        HeldView::Other => Err("field `"@ + key + "` is not a string"@),
    }
}

/// Reads a string that has to be there.
pub fn require(list: &Vec<Entry>, key: &str) -> (r: Result<String, String>)
    ensures
        match r {
            Ok(s) => required(entries(list@), key@) == Ok::<Seq<char>, Seq<char>>(s@),
            Err(why) => required(entries(list@), key@) == Err::<Seq<char>, Seq<char>>(why@),
        },
{
    match held(list, key) {
        Held::Text(s) => Ok(s),
        Held::Nothing => Err("missing field `".to_string().concat(key).concat("`")),
        Held::Other => Err("field `".to_string().concat(key).concat("` is not a string")),
    }
}

/// Reads a string that may be there.
pub fn permit(list: &Vec<Entry>, key: &str) -> (r: Result<Option<String>, String>)
    ensures
        match r {
            Ok(s) => optional(entries(list@), key@) == Ok::<Option<Seq<char>>, Seq<char>>(maybe(s)),
            Err(why) => optional(entries(list@), key@) == Err::<Option<Seq<char>>, Seq<char>>(why@),
        },
{
    match held(list, key) {
        Held::Text(s) => Ok(Some(s)),
        Held::Nothing => Ok(None),
        Held::Other => Err("field `".to_string().concat(key).concat("` is not a string")),
    }
}

} // verus!
