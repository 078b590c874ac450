//! Reading the API's replies: the children of an item and the tag list,
//! parsed from the reply's JSON into the records that the renderers read,
//! and the JSON that the `--json` output and the "add" commands print.

use vstd::prelude::*;

use serde_json::Value;

use crate::client::Responder;
use crate::output::{kind_positions, lemma_kind_positions_bounded, select_children};
use crate::text::{opt_view, owned};
use crate::types::{ChildItem, TagEntry};

verus! {

/// For a reply that is a JSON array, the fields that the renderers read of
/// each element, in order: the element's `key`, then the `data` object's
/// `itemType`, `annotationType`, `annotationPageLabel`, `annotationText`,
/// `annotationComment` and `note`, each the text where it is a string and
/// `None` otherwise. `None` where the reply is not a JSON array.
pub uninterp spec fn json_children(body: Seq<char>) -> Option<Seq<Seq<Option<Seq<char>>>>>;

/// For a reply that is a JSON array, each element's `tag` (the text where it
/// is a string) and `type` (where it is a whole number that fits 64 bits),
/// in order. `None` where the reply is not a JSON array.
pub uninterp spec fn json_tags(body: Seq<char>) -> Option<Seq<(Option<Seq<char>>, Option<u64>)>>;

/// The reply's JSON value printed in serde_json's pretty form, or `None`
/// where the reply is not JSON.
pub uninterp spec fn pretty_json(body: Seq<char>) -> Option<Seq<char>>;

/// For a reply that is a JSON array, the array of its elements at
/// `positions`, in that order, printed in serde_json's pretty form.
pub uninterp spec fn pretty_json_selection(body: Seq<char>, positions: Seq<usize>) -> Option<
    Seq<char>,
>;

/// The fields of a child that `json_children` gives, in its order.
pub open spec fn child_fields(c: ChildItem) -> Seq<Option<Seq<char>>> {
    seq![
        opt_view(c.key),
        opt_view(c.item_type),
        opt_view(c.annotation_type),
        opt_view(c.annotation_page_label),
        opt_view(c.annotation_text),
        opt_view(c.annotation_comment),
        opt_view(c.note),
    ]
}

/// The fields of a tag entry that `json_tags` gives.
pub open spec fn tag_fields(t: TagEntry) -> (Option<Seq<char>>, Option<u64>) {
    (opt_view(t.tag), t.tag_type)
}

/// `serde_json::from_str` into a list of `Value`s, each read into a child
/// record by picking its string fields. The error is serde_json's message.
#[verifier::external_body]
fn parse_children(body: &str) -> (r: Result<Vec<ChildItem>, String>)
    ensures
        r is Err <==> json_children(body@) is None,
        r matches Ok(v) ==> json_children(body@) == Some(v@.map_values(|c: ChildItem| child_fields(c))),
{
    let vs: Vec<Value> = serde_json::from_str(body).map_err(|e| e.to_string())?;
    Ok(vs.iter().map(|v| {
        let t = |p: &str| v.pointer(p).and_then(|x| x.as_str()).map(String::from);
        ChildItem { key: t("/key"), item_type: t("/data/itemType"),
            annotation_type: t("/data/annotationType"), annotation_page_label: t("/data/annotationPageLabel"),
            annotation_text: t("/data/annotationText"), annotation_comment: t("/data/annotationComment"),
            note: t("/data/note") }
    }).collect())
}

/// `serde_json::from_str` into a list of `Value`s, each read into a tag
/// entry by picking `tag` as text and `type` as a `u64`. The error is
/// serde_json's message.
#[verifier::external_body]
fn parse_tags(body: &str) -> (r: Result<Vec<TagEntry>, String>)
    ensures
        r is Err <==> json_tags(body@) is None,
        r matches Ok(v) ==> json_tags(body@) == Some(v@.map_values(|t: TagEntry| tag_fields(t))),
{
    let vs: Vec<Value> = serde_json::from_str(body).map_err(|e| e.to_string())?;
    Ok(vs.iter().map(|v| TagEntry {
        tag: v.get("tag").and_then(|t| t.as_str()).map(String::from),
        tag_type: v.get("type").and_then(|t| t.as_u64()),
    }).collect())
}

/// `serde_json::from_str` into a `Value`, then `serde_json::to_string_pretty`.
/// A reply that parses as a list of children or of tags is JSON, and a
/// `Value` always prints, so such a reply is reformatted. The error is
/// serde_json's message.
#[verifier::external_body]
fn reformat_json(body: &str) -> (r: Result<String, String>)
    ensures
        r is Err <==> pretty_json(body@) is None,
        r matches Ok(t) ==> pretty_json(body@) == Some(t@),
        json_children(body@) is Some ==> r is Ok,
        json_tags(body@) is Some ==> r is Ok,
{
    let v: Value = serde_json::from_str(body).map_err(|e| e.to_string())?;
    serde_json::to_string_pretty(&v).map_err(|e| e.to_string())
}

/// `serde_json::from_str` into a list of `Value`s, then
/// `serde_json::to_string_pretty` of the elements at `positions`. The
/// positions lie within the list, and such a list always prints.
#[verifier::external_body]
fn selected_json(body: &str, positions: &Vec<usize>) -> (r: Option<String>)
    requires
        json_children(body@) matches Some(cs) && forall|i: int|
            0 <= i < positions@.len() ==> #[trigger] positions@[i] < cs.len(),
    ensures
        r is Some,
        r matches Some(t) ==> pretty_json_selection(body@, positions@) == Some(t@),
{
    let vs: Vec<Value> = serde_json::from_str(body).ok()?;
    let picked: Vec<&Value> = positions.iter().map(|&i| &vs[i]).collect();
    serde_json::to_string_pretty(&picked).ok()
}

/// `context`, a colon, and the parser's message.
pub open spec fn with_context(context: Seq<char>, msg: Seq<char>) -> Seq<char> {
    context + ": "@ + msg
}

fn context_error(context: &str, msg: String) -> (r: String)
    ensures
        r@ == with_context(context@, msg@),
{
    let mut r = owned(context);
    r.append(": ");
    r.append(msg.as_str());
    r
}

/// The children of an item read from the API's reply, or, where the reply
/// is not a JSON array, the error "parsing children: " and the parser's
/// message.
pub fn children_reply(body: &str) -> (r: Result<Vec<ChildItem>, String>)
    ensures
        r is Err <==> json_children(body@) is None,
        r matches Ok(v) ==> json_children(body@) == Some(v@.map_values(|c: ChildItem| child_fields(c))),
        r matches Err(e) ==> exists|msg: Seq<char>| e@ == with_context("parsing children"@, msg),
{
    match parse_children(body) {
        Ok(v) => Ok(v),
        Err(msg) => Err(context_error("parsing children", msg)),
    }
}

/// The tag list read from the API's reply, or, where the reply is not a
/// JSON array, the error "parsing tags: " and the parser's message.
pub fn tags_reply(body: &str) -> (r: Result<Vec<TagEntry>, String>)
    ensures
        r is Err <==> json_tags(body@) is None,
        r matches Ok(v) ==> json_tags(body@) == Some(v@.map_values(|t: TagEntry| tag_fields(t))),
        r matches Err(e) ==> exists|msg: Seq<char>| e@ == with_context("parsing tags"@, msg),
{
    match parse_tags(body) {
        Ok(v) => Ok(v),
        Err(msg) => Err(context_error("parsing tags", msg)),
    }
}

/// What the tags command prints with `--json`: the reply's tag list in
/// pretty form, or the error of `tags_reply`.
pub fn tags_json_text(body: &str) -> (r: Result<String, String>)
    ensures
        r is Err <==> json_tags(body@) is None,
        r matches Ok(t) ==> pretty_json(body@) == Some(t@),
        r matches Err(e) ==> exists|msg: Seq<char>| e@ == with_context("parsing tags"@, msg),
{
    match parse_tags(body) {
        Err(msg) => Err(context_error("parsing tags", msg)),
        Ok(_) => match reformat_json(body) {
            Ok(t) => Ok(t),
            Err(msg) => Err(context_error("parsing tags", msg)),
        },
    }
}

/// The positions of the children of item type `kind`, as `usize`s.
pub open spec fn kind_selection(cs: Seq<ChildItem>, kind: Seq<char>) -> Seq<usize> {
    kind_positions(cs, kind).map_values(|i: int| i as usize)
}

/// What the annotations and notes commands print with `--json`: the
/// elements of the reply whose item type is `kind`, in order, in pretty
/// form; or the error of `children_reply`.
pub fn children_json_text(body: &str, kind: &str) -> (r: Result<String, String>)
    ensures
        r is Err <==> json_children(body@) is None,
        r matches Ok(t) ==> exists|cs: Seq<ChildItem>|
            json_children(body@) == Some(cs.map_values(|c: ChildItem| child_fields(c)))
                && pretty_json_selection(body@, kind_selection(cs, kind@)) == Some(t@),
        r matches Err(e) ==> exists|msg: Seq<char>| e@ == with_context("parsing children"@, msg),
{
    match parse_children(body) {
        Err(msg) => Err(context_error("parsing children", msg)),
        Ok(children) => {
            let picked = select_children(children.as_slice(), kind);
            let ghost cs = children@;
            proof {
                lemma_kind_positions_bounded(cs, kind@);
            }
            assert(picked@ =~= kind_selection(cs, kind@));
            assert forall|i: int| 0 <= i < picked@.len() implies #[trigger] picked@[i] < cs.map_values(
                |c: ChildItem| child_fields(c),
            ).len() by {
                assert(picked@[i] as int == kind_positions(cs, kind@)[i]);
            }
            match selected_json(body, &picked) {
                Some(t) => Ok(t),
                None => Err(owned("parsing children")),
            }
        },
    }
}

/// The context of a failed parse of an "add" reply.
pub open spec fn add_context(who: Responder) -> Seq<char> {
    match who {
        Responder::Api => "parsing add doi response"@,
        Responder::Translator => "parsing add url response"@,
    }
}

/// What an "add" command prints: the reply's JSON in pretty form; or,
/// where the reply is not JSON, the error "parsing add doi response" (from
/// the API) or "parsing add url response" (from the translation server),
/// a colon, and the parser's message.
pub fn add_reply_text(who: Responder, body: &str) -> (r: Result<String, String>)
    ensures
        r is Err <==> pretty_json(body@) is None,
        r matches Ok(t) ==> pretty_json(body@) == Some(t@),
        r matches Err(e) ==> exists|msg: Seq<char>| e@ == with_context(add_context(who), msg),
{
    match reformat_json(body) {
        Ok(t) => Ok(t),
        Err(msg) => {
            let ctx = match who {
                Responder::Api => owned("parsing add doi response"),
                Responder::Translator => owned("parsing add url response"),
            };
            assert(ctx@ == add_context(who));
            let e = context_error(ctx.as_str(), msg);
            assert(e@ == with_context(add_context(who), msg@));
            Err(e)
        },
    }
}

/// A parse error's text starts with its context, then ": ", and ends with
/// the parser's message.
pub proof fn lemma_context_error_parts(context: Seq<char>, msg: Seq<char>)
    ensures
        with_context(context, msg).take(context.len() as int) == context,
        with_context(context, msg).skip(context.len() as int + 2) == msg,
        with_context(context, msg).len() == context.len() + 2 + msg.len(),
{
    reveal_strlit(": ");
    assert(with_context(context, msg).take(context.len() as int) =~= context);
    assert(with_context(context, msg).skip(context.len() as int + 2) =~= msg);
}

} // verus!
