//! Property lists: writing one, and reading a list of strings from one.

use crate::text::{opt_text, texts};
use vstd::prelude::*;

verus! {

/// A value of a property list.
pub enum Entry {
    Text(String),
    Flag(bool),
    Number(i64),
    List(Vec<String>),
    /// A dictionary of strings.
    Table(Vec<(String, String)>),
}

/// The value of an `Entry`.
#[verifier::ext_equal]
pub enum EntryView {
    Text(Seq<char>),
    Flag(bool),
    Number(i64),
    List(Seq<Seq<char>>),
    Table(Seq<(Seq<char>, Seq<char>)>),
}

impl View for Entry {
    type V = EntryView;

    open spec fn view(&self) -> EntryView {
        match *self {
            Entry::Text(text) => EntryView::Text(text@),
            Entry::Flag(flag) => EntryView::Flag(flag),
            Entry::Number(n) => EntryView::Number(n),
            Entry::List(list) => EntryView::List(texts(list@)),
            Entry::Table(table) => EntryView::Table(
                table@.map_values(|p: (String, String)| (p.0@, p.1@)),
            ),
        }
    }
}

/// A member of a property list.
pub struct Field {
    pub key: String,
    pub value: Entry,
}

/// The values of the members of a property list.
pub open spec fn fields_view(fields: Seq<Field>) -> Seq<(Seq<char>, EntryView)> {
    fields.map_values(|f: Field| (f.key@, f.value@))
}

/// Whether no other member of a property list has the key of the one at the position `i`.
pub open spec fn only_key(fields: Seq<(Seq<char>, EntryView)>, i: int) -> bool {
    forall|j: int| 0 <= j < fields.len() && j != i ==> (#[trigger] fields[j]).0 != fields[i].0
}

/// What writing bytes gave: the bytes, or the text of an error.
pub open spec fn bytes_or_error(r: Result<Vec<u8>, String>) -> Result<Seq<u8>, Seq<char>> {
    match r {
        Ok(bytes) => Ok(bytes@),
        Err(text) => Err(text@),
    }
}

/// What reading a list of strings gave: the list, with nothing in the place of an item that is no
/// string, nothing where there is no list, or the text of an error.
pub open spec fn items_or_error(r: Result<Option<Vec<Option<String>>>, String>) -> Result<
    Option<Seq<Option<Seq<char>>>>,
    Seq<char>,
> {
    match r {
        Ok(Some(items)) => Ok(Some(items@.map_values(|o: Option<String>| opt_text(o)))),
        Ok(None) => Ok(None),
        Err(text) => Err(text@),
    }
}

/// A list of strings, each of them present.
pub open spec fn all_present(list: Seq<Seq<char>>) -> Seq<Option<Seq<char>>> {
    list.map_values(|t: Seq<char>| Some(t))
}

/// The XML document that a property list is written as.
pub uninterp spec fn plist_document(fields: Seq<(Seq<char>, EntryView)>) -> Result<
    Seq<u8>,
    Seq<char>,
>;

/// The items of the list that the member `key` of a property list is.
pub uninterp spec fn plist_items(document: Seq<u8>, key: Seq<char>) -> Result<
    Option<Seq<Option<Seq<char>>>>,
    Seq<char>,
>;

/// `plist::to_writer_xml` on a dictionary of the given members. Strings are escaped, so that a
/// list of strings whose key no other member has is read back as it was written.
#[verifier::external_body]
pub(crate) fn write_plist(fields: &Vec<Field>) -> (r: Result<Vec<u8>, String>)
    ensures
        bytes_or_error(r) == plist_document(fields_view(fields@)),
        r matches Ok(document) ==> forall|i: int|
            #![trigger fields@[i]]
            0 <= i < fields@.len() && only_key(fields_view(fields@), i) ==> (fields@[i].value@
                matches EntryView::List(list) ==> plist_items(document@, fields@[i].key@) == Ok::<
                Option<Seq<Option<Seq<char>>>>,
                Seq<char>,
            >(Some(all_present(list)))),
{
    let mut dict = plist::Dictionary::new();
    for f in fields {
        dict.insert(f.key.clone(), match &f.value {
            Entry::Text(t) => t.as_str().into(),
            Entry::Flag(b) => b.into(),
            Entry::Number(n) => n.into(),
            Entry::List(l) => plist::Value::Array(l.iter().cloned().map(Into::into).collect()),
            Entry::Table(t) => plist::Value::Dictionary(t.iter().cloned().collect()),
        });
    }
    let mut bytes = Vec::new();
    let written = plist::to_writer_xml(&mut bytes, &plist::Value::from(dict));
    written.map(|()| bytes).map_err(|e| e.to_string())
}

/// `plist::Value::from_reader`, and the array that the member `key` of the dictionary is.
#[verifier::external_body]
pub(crate) fn read_plist_items(document: &Vec<u8>, key: &str) -> (r: Result<
    Option<Vec<Option<String>>>,
    String,
>)
    ensures
        items_or_error(r) == plist_items(document@, key@),
{
    let value = plist::Value::from_reader(std::io::Cursor::new(document)).map_err(|e| e.to_string())?;
    let items = value.as_dictionary().and_then(|d| d.get(key)).and_then(plist::Value::as_array);
    Ok(items.map(|l| l.iter().map(|v| v.as_string().map(str::to_string)).collect()))
}

} // verus!
