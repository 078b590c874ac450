//! The human-readable renderings: tables of items, annotations, notes,
//! collections and tags, and the detail view of one item. Each renderer
//! returns the text, so that callers decide whether to print or buffer it.

use vstd::prelude::*;

use crate::paint::{bold, bold_code, blue, blue_code, cyan, cyan_code, green, green_code, is_styled, yellow, yellow_code};
use crate::table::{all_width, modern_table, record_view, records_view, render_table, uniform};
use crate::text::{all_digits, bracket_free, decimal, decimal_string, decimal_value, ellipsis, lemma_decimal_round_trip, lemma_occurs_between, lemma_strip_html_plain, occurs_at, occurs_in, opt_str_eq, opt_view, or_dash, or_text, owned, strip_html, stripped, truncate, truncated, wrap, wrapped};
use crate::types::{ChildItem, Creator, Tag, TagEntry, ZoteroCollection, ZoteroItem, ItemData, ParentRef};

verus! {

/// The text shown for a missing value.
pub open spec fn dash() -> Seq<char> {
    "\u{2014}"@
}

/// The widest a title cell gets in the items table.
pub const TITLE_MAX_WIDTH: usize = 55;

/// The widest an authors cell gets in the items table.
pub const AUTHORS_MAX_WIDTH: usize = 30;

/// The widest an annotation's text cell gets.
pub const ANNOTATION_TEXT_MAX_WIDTH: usize = 50;

/// The widest an annotation's comment cell gets.
pub const ANNOTATION_COMMENT_MAX_WIDTH: usize = 40;

/// The widest a note cell gets.
pub const NOTE_MAX_WIDTH: usize = 80;

/* ---------------------------------------------------------------------- */
/*  Joining                                                                */
/* ---------------------------------------------------------------------- */

/// `parts` with `sep` between each two neighbours.
pub open spec fn joined(parts: Seq<Seq<char>>, sep: Seq<char>) -> Seq<char>
    decreases parts.len(),
{
    if parts.len() == 0 {
        Seq::empty()
    } else if parts.len() == 1 {
        parts[0]
    } else {
        joined(parts.drop_last(), sep) + sep + parts.last()
    }
}

proof fn lemma_joined_push(parts: Seq<Seq<char>>, x: Seq<char>, sep: Seq<char>)
    ensures
        joined(parts.push(x), sep) == if parts.len() == 0 {
            x
        } else {
            joined(parts, sep) + sep + x
        },
{
    assert(parts.push(x).drop_last() =~= parts);
}

/// Whether the creator is an author.
pub open spec fn is_author(c: Creator) -> bool {
    opt_view(c.creator_type) == Some("author"@)
}

/// The display names of the authors among `cs`, in order.
pub open spec fn author_names(cs: Seq<Creator>) -> Seq<Seq<char>>
    decreases cs.len(),
{
    if cs.len() == 0 {
        Seq::empty()
    } else {
        let rest = author_names(cs.drop_last());
        if is_author(cs.last()) {
            rest.push(cs.last().display_name_spec())
        } else {
            rest
        }
    }
}

/// The authors of an item, "; "-separated.
pub open spec fn authors_text(cs: Seq<Creator>) -> Seq<char> {
    joined(author_names(cs), "; "@)
}

fn authors_of(creators: &Vec<Creator>) -> (r: (String, bool))
    ensures
        r.0@ == authors_text(creators@),
        r.1 == (author_names(creators@).len() > 0),
{
    let mut r = String::new();
    let mut any = false;
    let mut i: usize = 0;
    while i < creators.len()
        invariant
            i <= creators@.len(),
            r@ == authors_text(creators@.take(i as int)),
            any == (author_names(creators@.take(i as int)).len() > 0),
        decreases creators@.len() - i,
    {
        let c = &creators[i];
        assert(creators@.take(i + 1).drop_last() =~= creators@.take(i as int));
        assert(creators@.take(i + 1).last() == creators@[i as int]);
        if opt_str_eq(&c.creator_type, "author") {
            proof {
                lemma_joined_push(
                    author_names(creators@.take(i as int)),
                    c.display_name_spec(),
                    "; "@,
                );
            }
            if any {
                r.append("; ");
            }
            let n = c.display_name();
            r.append(n.as_str());
            any = true;
        }
        i = i + 1;
    }
    assert(creators@.take(creators@.len() as int) =~= creators@);
    (r, any)
}

/// The texts of the tags, in order.
pub open spec fn tag_names(ts: Seq<Tag>) -> Seq<Seq<char>> {
    ts.map_values(|t: Tag| t.tag@)
}

fn tags_of(tags: &Vec<Tag>) -> (r: String)
    ensures
        r@ == joined(tag_names(tags@), ", "@),
{
    let mut r = String::new();
    let mut i: usize = 0;
    while i < tags.len()
        invariant
            i <= tags@.len(),
            r@ == joined(tag_names(tags@.take(i as int)), ", "@),
        decreases tags@.len() - i,
    {
        proof {
            lemma_joined_push(tag_names(tags@.take(i as int)), tags@[i as int].tag@, ", "@);
            assert(tag_names(tags@.take(i + 1)) =~= tag_names(tags@.take(i as int)).push(
                tags@[i as int].tag@,
            ));
        }
        if i > 0 {
            r.append(", ");
        }
        r.append(tags[i].tag.as_str());
        i = i + 1;
    }
    assert(tags@.take(tags@.len() as int) =~= tags@);
    r
}

fn dash_if_empty(s: String) -> (r: String)
    ensures
        r@ == if s@.len() == 0 {
            dash()
        } else {
            s@
        },
{
    if s.as_str().is_empty() {
        owned("\u{2014}")
    } else {
        s
    }
}

/* ---------------------------------------------------------------------- */
/*  Items table                                                            */
/* ---------------------------------------------------------------------- */

/// The header of the items table.
pub open spec fn items_header() -> Seq<Seq<char>> {
    seq!["Key"@, "Type"@, "Title"@, "Authors"@, "Date"@]
}

/// The row of the items table for one item: key, type, title, authors
/// ("; "-separated) and date, with a dash for what is missing and the title
/// and authors truncated.
pub open spec fn item_record(item: ZoteroItem) -> Seq<Seq<char>> {
    let d = item.data;
    let authors = authors_text(d.creators@);
    seq![
        d.key@,
        or_text(d.item_type, dash()),
        truncated(or_text(d.title, dash()), TITLE_MAX_WIDTH as nat),
        truncated(
            if authors.len() == 0 {
                dash()
            } else {
                authors
            },
            AUTHORS_MAX_WIDTH as nat,
        ),
        or_text(d.date, dash()),
    ]
}

/// The records of the items table: the header, then one row per item.
pub open spec fn items_records(items: Seq<ZoteroItem>) -> Seq<Seq<Seq<char>>> {
    seq![items_header()] + items.map_values(|it: ZoteroItem| item_record(it))
}

fn record5(a: String, b: String, c: String, d: String, e: String) -> (r: Vec<String>)
    ensures
        record_view(r@) == seq![a@, b@, c@, d@, e@],
{
    let mut r: Vec<String> = Vec::new();
    r.push(a);
    r.push(b);
    r.push(c);
    r.push(d);
    r.push(e);
    assert(record_view(r@) =~= seq![a@, b@, c@, d@, e@]);
    r
}

fn record3(a: String, b: String, c: String) -> (r: Vec<String>)
    ensures
        record_view(r@) == seq![a@, b@, c@],
{
    let mut r: Vec<String> = Vec::new();
    r.push(a);
    r.push(b);
    r.push(c);
    assert(record_view(r@) =~= seq![a@, b@, c@]);
    r
}

fn record2(a: String, b: String) -> (r: Vec<String>)
    ensures
        record_view(r@) == seq![a@, b@],
{
    let mut r: Vec<String> = Vec::new();
    r.push(a);
    r.push(b);
    assert(record_view(r@) =~= seq![a@, b@]);
    r
}

fn item_row(item: &ZoteroItem) -> (r: Vec<String>)
    ensures
        record_view(r@) == item_record(*item),
{
    let d = &item.data;
    let title = or_dash(&d.title, "\u{2014}");
    let title = truncate(title.as_str(), TITLE_MAX_WIDTH);
    let (authors, _) = authors_of(&d.creators);
    let authors = dash_if_empty(authors);
    let authors = truncate(authors.as_str(), AUTHORS_MAX_WIDTH);
    record5(
        d.key.clone(),
        or_dash(&d.item_type, "\u{2014}"),
        title,
        authors,
        or_dash(&d.date, "\u{2014}"),
    )
}

/// The records of the items table for `items` (see `items_records`).
pub fn items_rows(items: &[ZoteroItem]) -> (r: Vec<Vec<String>>)
    ensures
        records_view(r@) == items_records(items@),
        all_width(records_view(r@), 5),
{
    let mut rows: Vec<Vec<String>> = Vec::new();
    rows.push(
        record5(owned("Key"), owned("Type"), owned("Title"), owned("Authors"), owned("Date")),
    );
    let mut i: usize = 0;
    while i < items.len()
        invariant
            i <= items@.len(),
            rows@.len() == i + 1,
            record_view(rows@[0]@) == items_header(),
            forall|j: int| 0 <= j < i ==> record_view(#[trigger] rows@[j + 1]@) == item_record(
                items@[j],
            ),
        decreases items@.len() - i,
    {
        let row = item_row(&items[i]);
        rows.push(row);
        i = i + 1;
    }
    assert(records_view(rows@) =~= items_records(items@)) by {
        assert forall|k: int| 0 <= k < rows@.len() implies #[trigger] records_view(rows@)[k]
            == items_records(items@)[k] by {
            if k > 0 {
                assert(record_view(rows@[(k - 1) + 1]@) == item_record(items@[k - 1]));
            }
        }
    }
    proof {
        lemma_items_width(items@);
    }
    rows
}

proof fn lemma_items_width(items: Seq<ZoteroItem>)
    ensures
        all_width(items_records(items), 5),
{
    assert forall|k: int| 0 <= k < items_records(items).len() implies #[trigger] items_records(
        items,
    )[k].len() == 5 by {
        if k > 0 {
            assert(items_records(items)[k] == item_record(items[k - 1]));
        }
    }
}

/// The items as a table (key, type, title, authors, date), or "No items
/// found." (possibly styled yellow) when there is none.
pub fn items_table(items: &[ZoteroItem]) -> (r: String)
    ensures
        items@.len() == 0 ==> is_styled(yellow_code(), "No items found."@, r@),
        items@.len() > 0 ==> r@ == modern_table(items_records(items@)),
{
    if items.len() == 0 {
        return yellow("No items found.");
    }
    let rows = items_rows(items);
    render_table(&rows)
}

/* ---------------------------------------------------------------------- */
/*  Item detail                                                            */
/* ---------------------------------------------------------------------- */

/// The texts that the detail view styles: the title (bold), the key (cyan),
/// the DOI (blue), the URL (blue), the "Abstract:" label (bold) and the
/// ", "-joined tags (green).
pub open spec fn detail_plain(d: ItemData) -> Seq<Seq<char>> {
    seq![
        or_text(d.title, "(no title)"@),
        d.key@,
        or_text(d.doi, Seq::empty()),
        or_text(d.url, Seq::empty()),
        "Abstract:"@,
        joined(tag_names(d.tags@), ", "@),
    ]
}

/// The style parameters of the six styled texts of the detail view.
pub open spec fn detail_codes() -> Seq<Seq<char>> {
    seq![bold_code(), cyan_code(), blue_code(), blue_code(), bold_code(), green_code()]
}

/// Whether `p` holds renderings of the styled texts of the detail view of
/// `d`, each plain or styled; those that the view does not show are free.
pub open spec fn detail_styled(d: ItemData, p: Seq<Seq<char>>) -> bool {
    &&& p.len() == 6
    &&& is_styled(detail_codes()[0], detail_plain(d)[0], p[0])
    &&& is_styled(detail_codes()[1], detail_plain(d)[1], p[1])
    &&& d.doi is Some ==> is_styled(detail_codes()[2], detail_plain(d)[2], p[2])
    &&& d.url is Some ==> is_styled(detail_codes()[3], detail_plain(d)[3], p[3])
    &&& d.abstract_note is Some ==> is_styled(detail_codes()[4], detail_plain(d)[4], p[4])
    &&& d.tags@.len() > 0 ==> is_styled(detail_codes()[5], detail_plain(d)[5], p[5])
}

/// The first lines of the detail view: the title, key, type and date.
pub open spec fn detail_head(d: ItemData, p: Seq<Seq<char>>) -> Seq<char> {
    p[0] + "\n"@ + "  Key:      "@ + p[1] + "\n"@ + "  Type:     "@ + or_text(d.item_type, dash())
        + "\n"@ + "  Date:     "@ + or_text(d.date, dash()) + "\n"@
}

/// The authors line of the detail view, when the item has authors.
pub open spec fn detail_authors(d: ItemData) -> Seq<char> {
    let authors = author_names(d.creators@);
    if authors.len() > 0 {
        "  Authors:  "@ + joined(authors, "; "@) + "\n"@
    } else {
        Seq::empty()
    }
}

/// A labelled line of the detail view, shown when `present`.
pub open spec fn detail_line(present: bool, label: Seq<char>, value: Seq<char>) -> Seq<char> {
    if present {
        label + value + "\n"@
    } else {
        Seq::empty()
    }
}

/// The abstract section of the detail view, when the item has an abstract.
pub open spec fn detail_abstract(d: ItemData, p: Seq<Seq<char>>) -> Seq<char> {
    match d.abstract_note {
        Some(a) => "\n"@ + p[4] + "\n"@ + wrapped(a@, 80) + "\n"@,
        None => Seq::empty(),
    }
}

/// The detail view of `d`, given the renderings `p` of its six styled texts
/// (see `detail_plain`): title, key, type and date lines; then, each when
/// present, the authors, DOI and URL lines, the abstract wrapped at 80
/// bytes, and the tags.
pub open spec fn detail_text(d: ItemData, p: Seq<Seq<char>>) -> Seq<char> {
    detail_head(d, p) + detail_authors(d) + detail_line(d.doi is Some, "  DOI:      "@, p[2])
        + detail_line(d.url is Some, "  URL:      "@, p[3]) + detail_abstract(d, p)
        + detail_line(d.tags@.len() > 0, "\n  Tags:  "@, p[5])
}

fn line_if(present: bool, label: &str, value: &str) -> (r: String)
    ensures
        r@ == detail_line(present, label@, value@),
{
    let mut r = String::new();
    if present {
        r.append(label);
        r.append(value);
        r.append("\n");
    }
    r
}

fn head_of(d: &ItemData, styled: &Vec<String>) -> (r: String)
    requires
        styled@.len() == 6,
    ensures
        r@ == detail_head(*d, record_view(styled@)),
{
    let mut out = String::new();
    out.append(styled[0].as_str());
    out.append("\n");
    out.append("  Key:      ");
    out.append(styled[1].as_str());
    out.append("\n");
    out.append("  Type:     ");
    let t = or_dash(&d.item_type, "\u{2014}");
    out.append(t.as_str());
    out.append("\n");
    out.append("  Date:     ");
    let dt = or_dash(&d.date, "\u{2014}");
    out.append(dt.as_str());
    out.append("\n");
    out
}

fn abstract_of(d: &ItemData, styled: &Vec<String>) -> (r: String)
    requires
        styled@.len() == 6,
    ensures
        r@ == detail_abstract(*d, record_view(styled@)),
{
    let mut out = String::new();
    match &d.abstract_note {
        Some(a) => {
            out.append("\n");
            out.append(styled[4].as_str());
            out.append("\n");
            let w = wrap(a.as_str(), 80);
            out.append(w.as_str());
            out.append("\n");
        },
        None => {},
    }
    out
}

/// The detail view of `item`, with `styled` holding the renderings of its
/// six styled texts (see `detail_plain`).
pub fn render_item_detail(item: &ZoteroItem, styled: &Vec<String>) -> (r: String)
    requires
        styled@.len() == 6,
    ensures
        r@ == detail_text(item.data, record_view(styled@)),
{
    let d = &item.data;
    let mut out = head_of(d, styled);
    let (authors, any) = authors_of(&d.creators);
    let a = line_if(any, "  Authors:  ", authors.as_str());
    out.append(a.as_str());
    let x = line_if(d.doi.is_some(), "  DOI:      ", styled[2].as_str());
    out.append(x.as_str());
    let u = line_if(d.url.is_some(), "  URL:      ", styled[3].as_str());
    out.append(u.as_str());
    let ab = abstract_of(d, styled);
    out.append(ab.as_str());
    let t = line_if(d.tags.len() > 0, "\n  Tags:  ", styled[5].as_str());
    out.append(t.as_str());
    out
}

/// The full metadata of an item: title, key, type, date, and, where present,
/// authors, DOI, URL, abstract (wrapped at 80 bytes) and tags, some of them
/// styled (each either plain or with its terminal style).
pub fn item_detail(item: &ZoteroItem) -> (r: String)
    ensures
        exists|p: Seq<Seq<char>>| detail_styled(item.data, p) && r@ == detail_text(item.data, p),
{
    let d = &item.data;
    let title = or_dash(&d.title, "(no title)");
    let mut styled: Vec<String> = Vec::new();
    styled.push(bold(title.as_str()));
    styled.push(cyan(d.key.as_str()));
    styled.push(
        match &d.doi {
            Some(x) => blue(x.as_str()),
            None => String::new(),
        },
    );
    styled.push(
        match &d.url {
            Some(x) => blue(x.as_str()),
            None => String::new(),
        },
    );
    styled.push(
        if d.abstract_note.is_some() {
            bold("Abstract:")
        } else {
            String::new()
        },
    );
    let tags = tags_of(&d.tags);
    styled.push(
        if d.tags.len() > 0 {
            green(tags.as_str())
        } else {
            String::new()
        },
    );
    let r = render_item_detail(item, &styled);
    assert(detail_styled(item.data, record_view(styled@)));
    r
}

/* ---------------------------------------------------------------------- */
/*  Children: annotations and notes                                        */
/* ---------------------------------------------------------------------- */

/// Whether the child's item type is `kind`.
pub open spec fn is_kind(c: ChildItem, kind: Seq<char>) -> bool {
    opt_view(c.item_type) == Some(kind)
}

/// The positions, in increasing order, of the children whose item type is
/// `kind`.
pub open spec fn kind_positions(cs: Seq<ChildItem>, kind: Seq<char>) -> Seq<int>
    decreases cs.len(),
{
    if cs.len() == 0 {
        Seq::empty()
    } else {
        let rest = kind_positions(cs.drop_last(), kind);
        if is_kind(cs.last(), kind) {
            rest.push(cs.len() - 1)
        } else {
            rest
        }
    }
}

/// The positions of the children of item type `kind`, in order (see
/// `kind_positions`).
pub fn select_children(children: &[ChildItem], kind: &str) -> (r: Vec<usize>)
    ensures
        r@.len() == kind_positions(children@, kind@).len(),
        forall|i: int| 0 <= i < r@.len() ==> r@[i] as int == kind_positions(children@, kind@)[i],
{
    let mut r: Vec<usize> = Vec::new();
    let mut i: usize = 0;
    while i < children.len()
        invariant
            i <= children@.len(),
            r@.len() == kind_positions(children@.take(i as int), kind@).len(),
            forall|k: int|
                0 <= k < r@.len() ==> r@[k] as int == kind_positions(
                    children@.take(i as int),
                    kind@,
                )[k],
        decreases children@.len() - i,
    {
        assert(children@.take(i + 1).drop_last() =~= children@.take(i as int));
        assert(children@.take(i + 1).last() == children@[i as int]);
        if opt_str_eq(&children[i].item_type, kind) {
            r.push(i);
        }
        i = i + 1;
    }
    assert(children@.take(children@.len() as int) =~= children@);
    r
}

pub(crate) proof fn lemma_kind_positions_bounded(cs: Seq<ChildItem>, kind: Seq<char>)
    ensures
        forall|k: int|
            0 <= k < kind_positions(cs, kind).len() ==> 0 <= #[trigger] kind_positions(
                cs,
                kind,
            )[k] < cs.len(),
    decreases cs.len(),
{
    if cs.len() > 0 {
        lemma_kind_positions_bounded(cs.drop_last(), kind);
        let rest = kind_positions(cs.drop_last(), kind);
        assert forall|k: int| 0 <= k < kind_positions(cs, kind).len() implies 0
            <= #[trigger] kind_positions(cs, kind)[k] < cs.len() by {
            if k < rest.len() {
                assert(kind_positions(cs, kind)[k] == rest[k]);
            }
        }
    }
}

/// The children of item type `kind`, in order.
pub open spec fn of_kind(cs: Seq<ChildItem>, kind: Seq<char>) -> Seq<ChildItem> {
    kind_positions(cs, kind).map_values(|i: int| cs[i])
}

/// The header of the annotations table.
pub open spec fn annotations_header() -> Seq<Seq<char>> {
    seq!["Key"@, "Type"@, "Page"@, "Text"@, "Comment"@]
}

/// The row of the annotations table for one annotation: key, annotation
/// type, page label, text and comment, with a dash for what is missing and
/// the text and comment truncated.
pub open spec fn annotation_record(c: ChildItem) -> Seq<Seq<char>> {
    seq![
        or_text(c.key, dash()),
        or_text(c.annotation_type, dash()),
        or_text(c.annotation_page_label, dash()),
        truncated(or_text(c.annotation_text, dash()), ANNOTATION_TEXT_MAX_WIDTH as nat),
        truncated(or_text(c.annotation_comment, dash()), ANNOTATION_COMMENT_MAX_WIDTH as nat),
    ]
}

/// The header of the notes table.
pub open spec fn notes_header() -> Seq<Seq<char>> {
    seq!["Key"@, "Note (first 80 chars)"@]
}

/// The row of the notes table for one note: its key, and its text with the
/// HTML tags stripped, truncated.
pub open spec fn note_record(c: ChildItem) -> Seq<Seq<char>> {
    seq![
        or_text(c.key, dash()),
        truncated(stripped(or_text(c.note, dash())), NOTE_MAX_WIDTH as nat),
    ]
}

/// The records of the annotations table for the children `cs`: the header,
/// then one row per annotation among them.
pub open spec fn annotations_records(cs: Seq<ChildItem>) -> Seq<Seq<Seq<char>>> {
    seq![annotations_header()] + of_kind(cs, "annotation"@).map_values(
        |c: ChildItem| annotation_record(c),
    )
}

/// The records of the notes table for the children `cs`: the header, then
/// one row per note among them.
pub open spec fn notes_records(cs: Seq<ChildItem>) -> Seq<Seq<Seq<char>>> {
    seq![notes_header()] + of_kind(cs, "note"@).map_values(|c: ChildItem| note_record(c))
}

fn annotation_row(c: &ChildItem) -> (r: Vec<String>)
    ensures
        record_view(r@) == annotation_record(*c),
{
    let text = or_dash(&c.annotation_text, "\u{2014}");
    let comment = or_dash(&c.annotation_comment, "\u{2014}");
    record5(
        or_dash(&c.key, "\u{2014}"),
        or_dash(&c.annotation_type, "\u{2014}"),
        or_dash(&c.annotation_page_label, "\u{2014}"),
        truncate(text.as_str(), ANNOTATION_TEXT_MAX_WIDTH),
        truncate(comment.as_str(), ANNOTATION_COMMENT_MAX_WIDTH),
    )
}

fn note_row(c: &ChildItem) -> (r: Vec<String>)
    ensures
        record_view(r@) == note_record(*c),
{
    let raw = or_dash(&c.note, "\u{2014}");
    let clean = strip_html(raw.as_str());
    record2(or_dash(&c.key, "\u{2014}"), truncate(clean.as_str(), NOTE_MAX_WIDTH))
}

/// The records of the annotations table for `children` (see
/// `annotations_records`).
pub fn annotation_rows(children: &[ChildItem]) -> (r: Vec<Vec<String>>)
    ensures
        records_view(r@) == annotations_records(children@),
        all_width(records_view(r@), 5),
{
    let picked = select_children(children, "annotation");
    let ghost pos = kind_positions(children@, "annotation"@);
    proof {
        lemma_kind_positions_bounded(children@, "annotation"@);
    }
    let mut rows: Vec<Vec<String>> = Vec::new();
    rows.push(
        record5(owned("Key"), owned("Type"), owned("Page"), owned("Text"), owned("Comment")),
    );
    let mut i: usize = 0;
    while i < picked.len()
        invariant
            picked@.len() == pos.len(),
            forall|k: int| 0 <= k < picked@.len() ==> picked@[k] as int == pos[k],
            forall|k: int| 0 <= k < pos.len() ==> 0 <= #[trigger] pos[k] < children@.len(),
            pos == kind_positions(children@, "annotation"@),
            i <= picked@.len(),
            rows@.len() == i + 1,
            record_view(rows@[0]@) == annotations_header(),
            forall|j: int|
                0 <= j < i ==> record_view(#[trigger] rows@[j + 1]@) == annotation_record(
                    children@[pos[j]],
                ),
        decreases picked@.len() - i,
    {
        let at = picked[i];
        assert(pos[i as int] == at as int);
        let row = annotation_row(&children[at]);
        rows.push(row);
        i = i + 1;
    }
    let ghost recs = annotations_records(children@);
    assert(records_view(rows@) =~= recs) by {
        assert forall|k: int| 0 <= k < rows@.len() implies #[trigger] records_view(rows@)[k]
            == recs[k] by {
            if k > 0 {
                assert(record_view(rows@[(k - 1) + 1]@) == annotation_record(children@[pos[k - 1]]));
            }
        }
    }
    assert(all_width(recs, 5)) by {
        assert forall|k: int| 0 <= k < recs.len() implies #[trigger] recs[k].len() == 5 by {
            if k > 0 {
                assert(recs[k] == annotation_record(children@[pos[k - 1]]));
            }
        }
    }
    rows
}

/// The records of the notes table for `children` (see `notes_records`).
pub fn note_rows(children: &[ChildItem]) -> (r: Vec<Vec<String>>)
    ensures
        records_view(r@) == notes_records(children@),
        all_width(records_view(r@), 2),
{
    let picked = select_children(children, "note");
    let ghost pos = kind_positions(children@, "note"@);
    proof {
        lemma_kind_positions_bounded(children@, "note"@);
    }
    let mut rows: Vec<Vec<String>> = Vec::new();
    rows.push(record2(owned("Key"), owned("Note (first 80 chars)")));
    let mut i: usize = 0;
    while i < picked.len()
        invariant
            picked@.len() == pos.len(),
            forall|k: int| 0 <= k < picked@.len() ==> picked@[k] as int == pos[k],
            forall|k: int| 0 <= k < pos.len() ==> 0 <= #[trigger] pos[k] < children@.len(),
            pos == kind_positions(children@, "note"@),
            i <= picked@.len(),
            rows@.len() == i + 1,
            record_view(rows@[0]@) == notes_header(),
            forall|j: int|
                0 <= j < i ==> record_view(#[trigger] rows@[j + 1]@) == note_record(
                    children@[pos[j]],
                ),
        decreases picked@.len() - i,
    {
        let at = picked[i];
        assert(pos[i as int] == at as int);
        let row = note_row(&children[at]);
        rows.push(row);
        i = i + 1;
    }
    let ghost recs = notes_records(children@);
    assert(records_view(rows@) =~= recs) by {
        assert forall|k: int| 0 <= k < rows@.len() implies #[trigger] records_view(rows@)[k]
            == recs[k] by {
            if k > 0 {
                assert(record_view(rows@[(k - 1) + 1]@) == note_record(children@[pos[k - 1]]));
            }
        }
    }
    assert(all_width(recs, 2)) by {
        assert forall|k: int| 0 <= k < recs.len() implies #[trigger] recs[k].len() == 2 by {
            if k > 0 {
                assert(recs[k] == note_record(children@[pos[k - 1]]));
            }
        }
    }
    rows
}

/// The annotations among `children` as a table (key, type, page, text,
/// comment), or "No annotations found." (possibly styled yellow) when there
/// is none.
pub fn annotations_table(children: &[ChildItem]) -> (r: String)
    ensures
        kind_positions(children@, "annotation"@).len() == 0 ==> is_styled(
            yellow_code(),
            "No annotations found."@,
            r@,
        ),
        kind_positions(children@, "annotation"@).len() > 0 ==> r@ == modern_table(
            annotations_records(children@),
        ),
{
    let rows = annotation_rows(children);
    if rows.len() == 1 {
        return yellow("No annotations found.");
    }
    render_table(&rows)
}

/// The notes among `children` as a table (key, note text without HTML tags,
/// truncated), or "No notes found." (possibly styled yellow) when there is
/// none.
pub fn notes_table(children: &[ChildItem]) -> (r: String)
    ensures
        kind_positions(children@, "note"@).len() == 0 ==> is_styled(
            yellow_code(),
            "No notes found."@,
            r@,
        ),
        kind_positions(children@, "note"@).len() > 0 ==> r@ == modern_table(
            notes_records(children@),
        ),
{
    let rows = note_rows(children);
    if rows.len() == 1 {
        return yellow("No notes found.");
    }
    render_table(&rows)
}

/// The annotations command shows the same children whichever way it prints:
/// the table has one row, after the header, for each child that the JSON
/// output selects, in the same order; likewise for the notes command.
pub proof fn lemma_tables_match_selection(cs: Seq<ChildItem>)
    ensures
        annotations_records(cs).len() == kind_positions(cs, "annotation"@).len() + 1,
        forall|k: int|
            0 <= k < kind_positions(cs, "annotation"@).len() ==> annotations_records(cs)[k + 1]
                == annotation_record(cs[#[trigger] kind_positions(cs, "annotation"@)[k]]),
        notes_records(cs).len() == kind_positions(cs, "note"@).len() + 1,
        forall|k: int|
            0 <= k < kind_positions(cs, "note"@).len() ==> notes_records(cs)[k + 1]
                == note_record(cs[#[trigger] kind_positions(cs, "note"@)[k]]),
{
}

/* ---------------------------------------------------------------------- */
/*  Collections and tags                                                   */
/* ---------------------------------------------------------------------- */

/// The parent cell of a collection: the parent's key when the API gives it
/// as a string, a dash otherwise (no parent, `null`, `false`, or another
/// kind of value).
pub open spec fn parent_cell(p: Option<ParentRef>) -> Seq<char> {
    match p {
        Some(ParentRef::Str(s)) => s@,
        _ => dash(),
    }
}

/// The header of the collections table.
pub open spec fn collections_header() -> Seq<Seq<char>> {
    seq!["Key"@, "Name"@, "Parent"@]
}

/// The row of the collections table for one collection: key, name, parent.
pub open spec fn collection_record(c: ZoteroCollection) -> Seq<Seq<char>> {
    seq![c.data.key@, c.data.name@, parent_cell(c.data.parent_collection)]
}

/// The records of the collections table: the header, then one row per
/// collection.
pub open spec fn collections_records(cols: Seq<ZoteroCollection>) -> Seq<Seq<Seq<char>>> {
    seq![collections_header()] + cols.map_values(|c: ZoteroCollection| collection_record(c))
}

fn collection_row(c: &ZoteroCollection) -> (r: Vec<String>)
    ensures
        record_view(r@) == collection_record(*c),
{
    let parent = match &c.data.parent_collection {
        Some(ParentRef::Str(s)) => s.clone(),
        _ => owned("\u{2014}"),
    };
    record3(c.data.key.clone(), c.data.name.clone(), parent)
}

/// The records of the collections table for `cols` (see
/// `collections_records`).
pub fn collection_rows(cols: &[ZoteroCollection]) -> (r: Vec<Vec<String>>)
    ensures
        records_view(r@) == collections_records(cols@),
        all_width(records_view(r@), 3),
{
    let mut rows: Vec<Vec<String>> = Vec::new();
    rows.push(record3(owned("Key"), owned("Name"), owned("Parent")));
    let mut i: usize = 0;
    while i < cols.len()
        invariant
            i <= cols@.len(),
            rows@.len() == i + 1,
            record_view(rows@[0]@) == collections_header(),
            forall|j: int| 0 <= j < i ==> record_view(#[trigger] rows@[j + 1]@)
                == collection_record(cols@[j]),
        decreases cols@.len() - i,
    {
        let row = collection_row(&cols[i]);
        rows.push(row);
        i = i + 1;
    }
    let ghost recs = collections_records(cols@);
    assert(records_view(rows@) =~= recs) by {
        assert forall|k: int| 0 <= k < rows@.len() implies #[trigger] records_view(rows@)[k]
            == recs[k] by {
            if k > 0 {
                assert(record_view(rows@[(k - 1) + 1]@) == collection_record(cols@[k - 1]));
            }
        }
    }
    assert(all_width(recs, 3)) by {
        assert forall|k: int| 0 <= k < recs.len() implies #[trigger] recs[k].len() == 3 by {
            if k > 0 {
                assert(recs[k] == collection_record(cols@[k - 1]));
            }
        }
    }
    rows
}

/// The collections as a table (key, name, parent), or "No collections
/// found." (possibly styled yellow) when there is none.
pub fn collections_table(cols: &[ZoteroCollection]) -> (r: String)
    ensures
        cols@.len() == 0 ==> is_styled(yellow_code(), "No collections found."@, r@),
        cols@.len() > 0 ==> r@ == modern_table(collections_records(cols@)),
{
    if cols.len() == 0 {
        return yellow("No collections found.");
    }
    let rows = collection_rows(cols);
    render_table(&rows)
}

/// The header of the tags table.
pub open spec fn tags_header() -> Seq<Seq<char>> {
    seq!["Tag"@, "Type"@]
}

/// The row of the tags table for one tag: its name (or a dash) and its type
/// (or "0").
pub open spec fn tag_record(t: TagEntry) -> Seq<Seq<char>> {
    seq![
        or_text(t.tag, dash()),
        match t.tag_type {
            Some(n) => decimal(n as nat),
            None => "0"@,
        },
    ]
}

/// The records of the tags table: the header, then one row per tag.
pub open spec fn tags_records(tags: Seq<TagEntry>) -> Seq<Seq<Seq<char>>> {
    seq![tags_header()] + tags.map_values(|t: TagEntry| tag_record(t))
}

fn tag_row(t: &TagEntry) -> (r: Vec<String>)
    ensures
        record_view(r@) == tag_record(*t),
{
    let kind = match t.tag_type {
        Some(n) => decimal_string(n),
        None => owned("0"),
    };
    record2(or_dash(&t.tag, "\u{2014}"), kind)
}

/// The records of the tags table for `tags` (see `tags_records`).
pub fn tag_rows(tags: &[TagEntry]) -> (r: Vec<Vec<String>>)
    ensures
        records_view(r@) == tags_records(tags@),
        all_width(records_view(r@), 2),
{
    let mut rows: Vec<Vec<String>> = Vec::new();
    rows.push(record2(owned("Tag"), owned("Type")));
    let mut i: usize = 0;
    while i < tags.len()
        invariant
            i <= tags@.len(),
            rows@.len() == i + 1,
            record_view(rows@[0]@) == tags_header(),
            forall|j: int| 0 <= j < i ==> record_view(#[trigger] rows@[j + 1]@) == tag_record(
                tags@[j],
            ),
        decreases tags@.len() - i,
    {
        let row = tag_row(&tags[i]);
        rows.push(row);
        i = i + 1;
    }
    let ghost recs = tags_records(tags@);
    assert(records_view(rows@) =~= recs) by {
        assert forall|k: int| 0 <= k < rows@.len() implies #[trigger] records_view(rows@)[k]
            == recs[k] by {
            if k > 0 {
                assert(record_view(rows@[(k - 1) + 1]@) == tag_record(tags@[k - 1]));
            }
        }
    }
    assert(all_width(recs, 2)) by {
        assert forall|k: int| 0 <= k < recs.len() implies #[trigger] recs[k].len() == 2 by {
            if k > 0 {
                assert(recs[k] == tag_record(tags@[k - 1]));
            }
        }
    }
    rows
}

/// The tags as a table (tag, type), or "No tags found." (possibly styled
/// yellow) when there is none.
pub fn tags_table(tags: &[TagEntry]) -> (r: String)
    ensures
        tags@.len() == 0 ==> is_styled(yellow_code(), "No tags found."@, r@),
        tags@.len() > 0 ==> r@ == modern_table(tags_records(tags@)),
{
    if tags.len() == 0 {
        return yellow("No tags found.");
    }
    let rows = tag_rows(tags);
    render_table(&rows)
}

/* ---------------------------------------------------------------------- */
/*  Output format of list commands                                         */
/* ---------------------------------------------------------------------- */

/// How a list command prints its result.
pub enum ListFormat {
    /// A human-readable table.
    Table,
    /// JSON of the records as the API gave them.
    FullJson,
    /// JSON of the compact records (items without their verbose fields,
    /// collections reduced to key and name).
    CompactJson,
}

/// The format of a list command: a table unless JSON is asked for; the full
/// records as JSON, or the compact records where those are asked for.
pub fn list_format(json: bool, compact: bool) -> (r: ListFormat)
    ensures
        !json ==> r is Table,
        json && !compact ==> r is FullJson,
        json && compact ==> r is CompactJson,
{
    if !json {
        ListFormat::Table
    } else if compact {
        ListFormat::CompactJson
    } else {
        ListFormat::FullJson
    }
}

/* ---------------------------------------------------------------------- */
/*  Laws of the renderings                                                 */
/* ---------------------------------------------------------------------- */

/// How a cell shows a text that is truncated to `max`: a text of at most
/// `max` characters as it is, a longer one as a prefix of it followed by an
/// ellipsis, never more than `max` characters (one for width 0).
pub open spec fn shows_truncated(cell: Seq<char>, text: Seq<char>, max: nat) -> bool {
    &&& text.len() <= max ==> cell == text
    &&& text.len() > max ==> cell.len() > 0 && cell.last() == ellipsis() && cell.drop_last()
        =~= text.take(cell.len() - 1) && cell.len() == (if max == 0 {
        1
    } else {
        max
    })
}

proof fn lemma_truncated_shows(text: Seq<char>, max: nat)
    ensures
        shows_truncated(truncated(text, max), text, max),
{
    if text.len() > max {
        let c = truncated(text, max);
        assert(c.drop_last() =~= text.take(c.len() - 1));
    }
}

proof fn lemma_assoc(x: Seq<char>, y: Seq<char>, z: Seq<char>)
    ensures
        (x + y) + z == x + (y + z),
{
    assert((x + y) + z =~= x + (y + z));
}

/// The detail view has the DOI line whenever the item has a DOI.
pub proof fn lemma_detail_shows_doi(d: ItemData, p: Seq<Seq<char>>)
    requires
        p.len() == 6,
        d.doi is Some,
    ensures
        occurs_in(detail_text(d, p), "  DOI:      "@ + p[2] + "\n"@),
{
    let x = detail_head(d, p) + detail_authors(d);
    let doi = detail_line(true, "  DOI:      "@, p[2]);
    let url = detail_line(d.url is Some, "  URL:      "@, p[3]);
    let ab = detail_abstract(d, p);
    let tg = detail_line(d.tags@.len() > 0, "\n  Tags:  "@, p[5]);
    assert(detail_text(d, p) == (((x + doi) + url) + ab) + tg);
    lemma_assoc(x + doi + url, ab, tg);
    lemma_assoc(x + doi, url, ab + tg);
    lemma_occurs_between(x, doi, url + (ab + tg));
}

/// The detail view has the URL line whenever the item has a URL, whether
/// or not it also has a DOI.
pub proof fn lemma_detail_shows_url(d: ItemData, p: Seq<Seq<char>>)
    requires
        p.len() == 6,
        d.url is Some,
    ensures
        occurs_in(detail_text(d, p), "  URL:      "@ + p[3] + "\n"@),
{
    let x = detail_head(d, p) + detail_authors(d) + detail_line(
        d.doi is Some,
        "  DOI:      "@,
        p[2],
    );
    let url = detail_line(true, "  URL:      "@, p[3]);
    let ab = detail_abstract(d, p);
    let tg = detail_line(d.tags@.len() > 0, "\n  Tags:  "@, p[5]);
    assert(detail_text(d, p) == ((x + url) + ab) + tg);
    lemma_assoc(x + url, ab, tg);
    lemma_occurs_between(x, url, ab + tg);
}

/// The detail view has the authors line whenever the item has authors.
pub proof fn lemma_detail_shows_authors(d: ItemData, p: Seq<Seq<char>>)
    requires
        p.len() == 6,
        author_names(d.creators@).len() > 0,
    ensures
        occurs_in(
            detail_text(d, p),
            "  Authors:  "@ + joined(author_names(d.creators@), "; "@) + "\n"@,
        ),
{
    let h = detail_head(d, p);
    let au = detail_authors(d);
    let doi = detail_line(d.doi is Some, "  DOI:      "@, p[2]);
    let url = detail_line(d.url is Some, "  URL:      "@, p[3]);
    let ab = detail_abstract(d, p);
    let tg = detail_line(d.tags@.len() > 0, "\n  Tags:  "@, p[5]);
    assert(detail_text(d, p) == ((((h + au) + doi) + url) + ab) + tg);
    lemma_assoc(h + au + doi + url, ab, tg);
    lemma_assoc(h + au + doi, url, ab + tg);
    lemma_assoc(h + au, doi, url + (ab + tg));
    lemma_occurs_between(h, au, doi + (url + (ab + tg)));
}

/// The detail view has the abstract section, the abstract wrapped at 80
/// bytes, whenever the item has an abstract.
pub proof fn lemma_detail_shows_abstract(d: ItemData, p: Seq<Seq<char>>)
    requires
        p.len() == 6,
        d.abstract_note is Some,
    ensures
        occurs_in(
            detail_text(d, p),
            "\n"@ + p[4] + "\n"@ + wrapped(d.abstract_note->0@, 80) + "\n"@,
        ),
{
    let x = detail_head(d, p) + detail_authors(d) + detail_line(
        d.doi is Some,
        "  DOI:      "@,
        p[2],
    ) + detail_line(d.url is Some, "  URL:      "@, p[3]);
    let ab = detail_abstract(d, p);
    let tg = detail_line(d.tags@.len() > 0, "\n  Tags:  "@, p[5]);
    assert(detail_text(d, p) == (x + ab) + tg);
    lemma_occurs_between(x, ab, tg);
}

/// The detail view ends with the tags line whenever the item has tags.
pub proof fn lemma_detail_shows_tags(d: ItemData, p: Seq<Seq<char>>)
    requires
        p.len() == 6,
        d.tags@.len() > 0,
    ensures
        occurs_in(detail_text(d, p), "\n  Tags:  "@ + p[5] + "\n"@),
{
    let x = detail_head(d, p) + detail_authors(d) + detail_line(
        d.doi is Some,
        "  DOI:      "@,
        p[2],
    ) + detail_line(d.url is Some, "  URL:      "@, p[3]) + detail_abstract(d, p);
    let tg = detail_line(true, "\n  Tags:  "@, p[5]);
    assert(detail_text(d, p) == x + tg);
    assert(x + tg =~= x + tg + Seq::<char>::empty());
    lemma_occurs_between(x, tg, Seq::empty());
}

/// The detail view starts with the title line, then the key, type and date
/// lines, the type and date shown as they are (a dash where missing).
pub proof fn lemma_detail_starts_with_title_and_key(d: ItemData, p: Seq<Seq<char>>)
    requires
        p.len() == 6,
    ensures
        occurs_at(
            detail_text(d, p),
            p[0] + "\n"@ + "  Key:      "@ + p[1] + "\n"@ + "  Type:     "@ + or_text(
                d.item_type,
                dash(),
            ) + "\n"@ + "  Date:     "@ + or_text(d.date, dash()) + "\n"@,
            0,
        ),
{
    let head = p[0] + "\n"@ + "  Key:      "@ + p[1] + "\n"@ + "  Type:     "@ + or_text(
        d.item_type,
        dash(),
    ) + "\n"@ + "  Date:     "@ + or_text(d.date, dash()) + "\n"@;
    assert(detail_head(d, p) == head);
    let tail = detail_authors(d) + detail_line(d.doi is Some, "  DOI:      "@, p[2])
        + detail_line(d.url is Some, "  URL:      "@, p[3]) + detail_abstract(d, p) + detail_line(
        d.tags@.len() > 0,
        "\n  Tags:  "@,
        p[5],
    );
    assert(detail_text(d, p) =~= Seq::<char>::empty() + head + tail);
    lemma_occurs_between(Seq::empty(), head, tail);
}

/// The items table has the header and then exactly one row per item, in
/// the items' order; each row starts with its item's key.
pub proof fn lemma_items_table_rows(items: Seq<ZoteroItem>)
    ensures
        items_records(items).len() == items.len() + 1,
        items_records(items)[0] == items_header(),
        forall|k: int|
            0 <= k < items.len() ==> #[trigger] items_records(items)[k + 1] == item_record(
                items[k],
            ),
        forall|k: int| 0 <= k < items.len() ==> #[trigger] items_records(items)[k + 1][0] == items[k].data.key@,
{
    assert forall|k: int| 0 <= k < items.len() implies #[trigger] items_records(items)[k + 1]
        == item_record(items[k]) by {}
    assert forall|k: int| 0 <= k < items.len() implies #[trigger] items_records(items)[k + 1][0]
        == items[k].data.key@ by {
        assert(items_records(items)[k + 1] == item_record(items[k]));
    }
}

/// An item's row shows its key, its type and date (a dash where missing),
/// its title truncated to 55 characters and its authors truncated to 30
/// (a dash where there is none).
pub proof fn lemma_item_row_cells(it: ZoteroItem)
    ensures
        item_record(it).len() == 5,
        item_record(it)[0] == it.data.key@,
        item_record(it)[1] == or_text(it.data.item_type, dash()),
        shows_truncated(item_record(it)[2], or_text(it.data.title, dash()), 55),
        authors_text(it.data.creators@).len() > 0 ==> shows_truncated(
            item_record(it)[3],
            authors_text(it.data.creators@),
            30,
        ),
        authors_text(it.data.creators@).len() == 0 ==> item_record(it)[3] == dash(),
        item_record(it)[4] == or_text(it.data.date, dash()),
{
    reveal_strlit("\u{2014}");
    lemma_truncated_shows(or_text(it.data.title, dash()), 55);
    lemma_truncated_shows(authors_text(it.data.creators@), 30);
}

/// An annotation's row shows its key, type and page label as they are
/// (a dash where missing), its text truncated to 50 characters and its
/// comment truncated to 40; each cell comes from its own field.
pub proof fn lemma_annotation_row_cells(c: ChildItem)
    ensures
        annotation_record(c).len() == 5,
        annotation_record(c)[0] == or_text(c.key, dash()),
        annotation_record(c)[1] == or_text(c.annotation_type, dash()),
        annotation_record(c)[2] == or_text(c.annotation_page_label, dash()),
        shows_truncated(annotation_record(c)[3], or_text(c.annotation_text, dash()), 50),
        shows_truncated(annotation_record(c)[4], or_text(c.annotation_comment, dash()), 40),
{
    reveal_strlit("\u{2014}");
    lemma_truncated_shows(or_text(c.annotation_text, dash()), 50);
    lemma_truncated_shows(or_text(c.annotation_comment, dash()), 40);
}

/// A note's row shows its key and its text without HTML tags, truncated
/// to 80 characters; a note without tags shows as it is.
pub proof fn lemma_note_row_cells(c: ChildItem)
    ensures
        note_record(c).len() == 2,
        note_record(c)[0] == or_text(c.key, dash()),
        shows_truncated(note_record(c)[1], stripped(or_text(c.note, dash())), 80),
        c.note matches Some(n) ==> (bracket_free(n@) ==> shows_truncated(
            note_record(c)[1],
            n@,
            80,
        )),
{
    lemma_truncated_shows(stripped(or_text(c.note, dash())), 80);
    match c.note {
        Some(n) => {
            if bracket_free(n@) {
                lemma_strip_html_plain(n@);
            }
        },
        None => {},
    }
}

/// A tag's row shows its name (a dash where missing) and its type as a
/// decimal number that reads back as the type ("0" where missing).
pub proof fn lemma_tag_row_cells(t: TagEntry)
    ensures
        tag_record(t).len() == 2,
        tag_record(t)[0] == or_text(t.tag, dash()),
        all_digits(tag_record(t)[1]),
        decimal_value(tag_record(t)[1]) == match t.tag_type {
            Some(n) => n as nat,
            None => 0,
        },
{
    reveal_strlit("0");
    match t.tag_type {
        Some(n) => {
            lemma_decimal_round_trip(n as nat);
        },
        None => {
            assert("0"@ =~= decimal(0));
            lemma_decimal_round_trip(0);
        },
    }
}

/// A collection's row shows its key, its name, and the parent's key when
/// the API gives it as a string (a dash otherwise).
pub proof fn lemma_collection_row_cells(col: ZoteroCollection)
    ensures
        collection_record(col).len() == 3,
        collection_record(col)[0] == col.data.key@,
        collection_record(col)[1] == col.data.name@,
        col.data.parent_collection matches Some(ParentRef::Str(k)) ==> collection_record(col)[2]
            == k@,
        !(col.data.parent_collection matches Some(ParentRef::Str(_))) ==> collection_record(col)[2]
            == dash(),
{
}

/// The annotations, notes, collections and tags tables each have their
/// header and then exactly one row per shown record, in order.
pub proof fn lemma_tables_rows(cs: Seq<ChildItem>, cols: Seq<ZoteroCollection>, tags: Seq<TagEntry>)
    ensures
        annotations_records(cs)[0] == annotations_header(),
        notes_records(cs)[0] == notes_header(),
        collections_records(cols).len() == cols.len() + 1,
        collections_records(cols)[0] == collections_header(),
        forall|k: int|
            0 <= k < cols.len() ==> #[trigger] collections_records(cols)[k + 1]
                == collection_record(cols[k]),
        tags_records(tags).len() == tags.len() + 1,
        tags_records(tags)[0] == tags_header(),
        forall|k: int| 0 <= k < tags.len() ==> #[trigger] tags_records(tags)[k + 1] == tag_record(tags[k]),
{
    assert forall|k: int| 0 <= k < cols.len() implies #[trigger] collections_records(cols)[k + 1]
        == collection_record(cols[k]) by {}
    assert forall|k: int| 0 <= k < tags.len() implies #[trigger] tags_records(tags)[k + 1]
        == tag_record(tags[k]) by {}
}

/// Selecting children keeps exactly those of the asked item type: every
/// selected position holds a child of that type, every child of that type
/// is selected, and the positions increase.
pub proof fn lemma_selection_exact(cs: Seq<ChildItem>, kind: Seq<char>)
    ensures
        forall|k: int|
            0 <= k < kind_positions(cs, kind).len() ==> 0 <= #[trigger] kind_positions(cs, kind)[k]
                < cs.len() && is_kind(cs[kind_positions(cs, kind)[k]], kind),
        forall|i: int|
            0 <= i < cs.len() && is_kind(cs[i], kind) ==> kind_positions(cs, kind).contains(i),
        forall|a: int, b: int|
            0 <= a < b < kind_positions(cs, kind).len() ==> kind_positions(cs, kind)[a]
                < kind_positions(cs, kind)[b],
    decreases cs.len(),
{
    if cs.len() > 0 {
        let rest = kind_positions(cs.drop_last(), kind);
        lemma_selection_exact(cs.drop_last(), kind);
        let all = kind_positions(cs, kind);
        assert forall|k: int| 0 <= k < all.len() implies 0 <= #[trigger] all[k] < cs.len()
            && is_kind(cs[all[k]], kind) by {
            if k < rest.len() {
                assert(all[k] == rest[k]);
                assert(cs[rest[k]] == cs.drop_last()[rest[k]]);
            }
        }
        assert forall|i: int| 0 <= i < cs.len() && is_kind(cs[i], kind) implies all.contains(i) by {
            if i < cs.len() - 1 {
                assert(cs[i] == cs.drop_last()[i]);
                assert(rest.contains(i));
                let j = choose|j: int| 0 <= j < rest.len() && rest[j] == i;
                assert(all[j] == rest[j]);
            } else {
                assert(all[all.len() - 1] == i);
            }
        }
        assert forall|a: int, b: int| 0 <= a < b < all.len() implies all[a] < all[b] by {
            if b < rest.len() {
                assert(all[a] == rest[a] && all[b] == rest[b]);
            } else {
                assert(all[a] == rest[a]);
                lemma_kind_positions_bounded(cs.drop_last(), kind);
            }
        }
    }
}

/// Joining puts the separator between neighbours and nowhere else: a
/// single part joins to itself, and adding a part at the end adds the
/// separator and the part.
pub proof fn lemma_joined_laws(parts: Seq<Seq<char>>, x: Seq<char>, sep: Seq<char>)
    ensures
        joined(seq![x], sep) == x,
        parts.len() > 0 ==> joined(parts.push(x), sep) == joined(parts, sep) + sep + x,
        joined(Seq::<Seq<char>>::empty(), sep) == Seq::<char>::empty(),
{
    lemma_joined_push(parts, x, sep);
}

/// The authors shown for an item are the display names of exactly those
/// creators whose type is "author", in the creators' order.
pub proof fn lemma_author_names_are_authors(cs: Seq<Creator>)
    ensures
        author_names(cs) == cs.filter(|c: Creator| is_author(c)).map_values(
            |c: Creator| c.display_name_spec(),
        ),
    decreases cs.len(),
{
    let f = |c: Creator| is_author(c);
    let g = |c: Creator| c.display_name_spec();
    if cs.len() == 0 {
        reveal(Seq::filter);
        assert(cs.filter(f) =~= Seq::<Creator>::empty());
        assert(author_names(cs) =~= cs.filter(f).map_values(g));
    } else {
        lemma_author_names_are_authors(cs.drop_last());
        let rest = cs.drop_last().filter(f);
        cs.drop_last().lemma_filter_push(cs.last(), f);
        assert(cs.drop_last().push(cs.last()) =~= cs);
        assert(cs.filter(f) == if f(cs.last()) {
            rest.push(cs.last())
        } else {
            rest
        });
        if is_author(cs.last()) {
            assert(rest.push(cs.last()).map_values(g) =~= rest.map_values(g).push(
                cs.last().display_name_spec(),
            ));
        }
    }
}

/// The tags line of the detail view joins the tags' texts, in order.
pub proof fn lemma_tag_names_in_order(ts: Seq<Tag>)
    ensures
        tag_names(ts).len() == ts.len(),
        forall|i: int| 0 <= i < ts.len() ==> #[trigger] tag_names(ts)[i] == ts[i].tag@,
{
}

} // verus!
