//! The library records that the Zotero API hands back: items with their
//! creators and tags, collections, the children of an item (notes and
//! annotations) and the tags of a library.

use vstd::prelude::*;

use crate::text::opt_view;

verus! {

/// One creator (author, editor, ...) of an item.
pub struct Creator {
    pub creator_type: Option<String>,
    pub first_name: Option<String>,
    pub last_name: Option<String>,
    pub name: Option<String>,
}

/// A tag attached to an item.
pub struct Tag {
    pub tag: String,
}

/// The metadata of an item, as far as this tool reads it.
pub struct ItemData {
    pub key: String,
    pub title: Option<String>,
    pub item_type: Option<String>,
    pub date: Option<String>,
    pub abstract_note: Option<String>,
    pub creators: Vec<Creator>,
    pub tags: Vec<Tag>,
    pub doi: Option<String>,
    pub url: Option<String>,
}

/// An item of the library.
pub struct ZoteroItem {
    pub key: String,
    pub data: ItemData,
}

/// The kinds of value that the API gives as a collection's parent: JSON
/// `null`, a boolean, a string (the parent's key), or anything else.
pub enum ParentRef {
    Null,
    Bool(bool),
    Str(String),
    Other,
}

/// The metadata of a collection.
pub struct CollectionData {
    pub key: String,
    pub name: String,
    pub parent_collection: Option<ParentRef>,
}

/// A collection of the library.
pub struct ZoteroCollection {
    pub key: String,
    pub data: CollectionData,
}

/// A child of an item (a note, an annotation, an attachment, ...): its key
/// and the string fields of its data that the renderers read. A field that is
/// absent or not a string is `None`.
pub struct ChildItem {
    pub key: Option<String>,
    pub item_type: Option<String>,
    pub annotation_type: Option<String>,
    pub annotation_page_label: Option<String>,
    pub annotation_text: Option<String>,
    pub annotation_comment: Option<String>,
    pub note: Option<String>,
}

/// One entry of a library's tag list: the tag's name and its numeric type,
/// each `None` where the API gives no value of that kind.
pub struct TagEntry {
    pub tag: Option<String>,
    pub tag_type: Option<u64>,
}

/// An item without its verbose fields (abstract, URL, DOI and tags).
pub struct CompactItem {
    pub key: String,
    pub title: Option<String>,
    pub item_type: Option<String>,
    pub date: Option<String>,
    pub creators: Vec<Creator>,
}

/// A collection reduced to its key and name.
pub struct CollectionSummary {
    pub key: String,
    pub name: String,
}

/// Two optional strings hold the same text.
pub open spec fn same_opt(a: Option<String>, b: Option<String>) -> bool {
    opt_view(a) == opt_view(b)
}

/// Two creators hold the same texts.
pub open spec fn same_creator(a: Creator, b: Creator) -> bool {
    &&& same_opt(a.creator_type, b.creator_type)
    &&& same_opt(a.first_name, b.first_name)
    &&& same_opt(a.last_name, b.last_name)
    &&& same_opt(a.name, b.name)
}

/// Two lists of creators hold the same creators, in the same order.
pub open spec fn same_creators(a: Seq<Creator>, b: Seq<Creator>) -> bool {
    &&& a.len() == b.len()
    &&& forall|i: int| 0 <= i < a.len() ==> same_creator(#[trigger] a[i], b[i])
}

fn copy_opt(o: &Option<String>) -> (r: Option<String>)
    ensures
        same_opt(r, *o),
{
    match o {
        Some(s) => Some(s.clone()),
        None => None,
    }
}

impl Creator {
    /// The name under which the creator is shown (see `display_name`).
    pub open spec fn display_name_spec(self) -> Seq<char> {
        match (self.last_name, self.first_name, self.name) {
            (Some(last), Some(first), _) => last@ + ", "@ + first@,
            (Some(last), None, _) => last@,
            (None, None, Some(name)) => name@,
            _ => "Unknown"@,
        }
    }

    /// "Last, First" when both parts are known, the last name alone when
    /// only it is, the single-field name when neither part is, and "Unknown"
    /// otherwise (a first name without a last name included).
    pub fn display_name(&self) -> (r: String)
        ensures
            r@ == self.display_name_spec(),
    {
        match (&self.last_name, &self.first_name, &self.name) {
            (Some(last), Some(first), _) => {
                let mut r = last.clone();
                r.append(", ");
                r.append(first.as_str());
                r
            },
            (Some(last), None, _) => last.clone(),
            (None, None, Some(name)) => name.clone(),
            _ => crate::text::owned("Unknown"),
        }
    }

    /// A creator with the same texts.
    pub fn copy(&self) -> (r: Creator)
        ensures
            same_creator(r, *self),
    {
        Creator {
            creator_type: copy_opt(&self.creator_type),
            first_name: copy_opt(&self.first_name),
            last_name: copy_opt(&self.last_name),
            name: copy_opt(&self.name),
        }
    }
}

fn copy_creators(v: &Vec<Creator>) -> (r: Vec<Creator>)
    ensures
        same_creators(r@, v@),
{
    let mut r: Vec<Creator> = Vec::new();
    let mut i: usize = 0;
    while i < v.len()
        invariant
            i <= v@.len(),
            r@.len() == i,
            forall|j: int| 0 <= j < i ==> same_creator(#[trigger] r@[j], v@[j]),
        decreases v@.len() - i,
    {
        let c = v[i].copy();
        r.push(c);
        i = i + 1;
    }
    r
}

impl CompactItem {
    /// The item's key, title, type, date and creators, without the verbose
    /// fields.
    pub fn from_item(item: &ZoteroItem) -> (r: CompactItem)
        ensures
            r.key@ == item.key@,
            same_opt(r.title, item.data.title),
            same_opt(r.item_type, item.data.item_type),
            same_opt(r.date, item.data.date),
            same_creators(r.creators@, item.data.creators@),
    {
        CompactItem {
            key: item.key.clone(),
            title: copy_opt(&item.data.title),
            item_type: copy_opt(&item.data.item_type),
            date: copy_opt(&item.data.date),
            creators: copy_creators(&item.data.creators),
        }
    }
}

impl CollectionSummary {
    /// The collection's key and name.
    pub fn from_collection(c: &ZoteroCollection) -> (r: CollectionSummary)
        ensures
            r.key@ == c.key@,
            r.name@ == c.data.name@,
    {
        CollectionSummary { key: c.key.clone(), name: c.data.name.clone() }
    }
}

/// A creator's display name: with a last name it starts with the last
/// name, and with a first name as well it then continues with ", " and the
/// first name; without a last name or a first name it is the single-field
/// name; otherwise "Unknown".
pub proof fn lemma_display_name_parts(c: Creator)
    ensures
        c.last_name matches Some(l) ==> c.display_name_spec().take(l@.len() as int) == l@,
        c.last_name matches Some(l) ==> (c.first_name is None ==> c.display_name_spec() == l@),
        c.last_name matches Some(l) ==> (c.first_name matches Some(f) ==> c.display_name_spec()
            == l@ + ", "@ + f@),
        c.last_name is None && c.first_name is None ==> (c.name matches Some(n)
            ==> c.display_name_spec() == n@),
        c.last_name is None && (c.first_name is Some || c.name is None)
            ==> c.display_name_spec() == "Unknown"@,
{
    match (c.last_name, c.first_name) {
        (Some(l), Some(f)) => {
            assert((l@ + ", "@ + f@).take(l@.len() as int) =~= l@);
        },
        (Some(l), None) => {
            assert(l@.take(l@.len() as int) =~= l@);
        },
        _ => {},
    }
}

} // verus!
