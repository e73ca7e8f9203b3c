use vstd::prelude::*;
use select::document::Document;
use select::predicate::{Attr, Child, Name};
use crate::error::{Element, Error};
use crate::extract::{count_summary_spec, extract_definition, normalized_definition, parse_count_summary};
use crate::records::{children_view, page_entries, page_entries_spec, record_view, Anchor, AnchorView, WordRecord};

verus! {

/// A link as the page shows it: its `id` attribute, its `href` attribute
/// and its text.
pub type LinkView = (Option<Seq<char>>, Option<Seq<char>>, Seq<char>);

pub open spec fn opt_view(o: Option<String>) -> Option<Seq<char>> {
    match o {
        Some(s) => Some(s@),
        None => None,
    }
}

pub open spec fn link_view(l: (Option<String>, Option<String>, String)) -> LinkView {
    (opt_view(l.0), opt_view(l.1), l.2@)
}

pub open spec fn links_view(v: Vec<(Option<String>, Option<String>, String)>) -> Seq<LinkView> {
    v@.map_values(|l: (Option<String>, Option<String>, String)| link_view(l))
}

pub open spec fn strings_view(v: Vec<String>) -> Seq<Seq<char>> {
    v@.map_values(|s: String| s@)
}

/// For every element with the id `id`, in document order, the texts of all
/// its children.
pub uninterp spec fn child_texts_by_id_of(body: Seq<char>, id: Seq<char>) -> Seq<Seq<Seq<char>>>;

/// For every `child_tag` element that is a child of an element with the id
/// `parent_id`, in document order, every `link_tag` element within it.
pub uninterp spec fn child_links_of(body: Seq<char>, parent_id: Seq<char>, child_tag: Seq<char>, link_tag: Seq<char>) -> Seq<Seq<LinkView>>;

/// The inner markup of every element with the id `id`, in document order.
pub uninterp spec fn inner_html_by_id_of(body: Seq<char>, id: Seq<char>) -> Seq<Seq<char>>;

/// Relies on `select::document::Document::from`, `Document::find` with
/// `Attr`, `Node::children` and `Node::text`: the result depends on the
/// arguments alone.
#[verifier::external_body]
fn child_texts_by_id(body: &str, id: &str) -> (r: Vec<Vec<String>>)
    ensures
        r@.map_values(|v: Vec<String>| strings_view(v)) == child_texts_by_id_of(body@, id@),
{
    let doc = Document::from(body);
    doc.find(Attr("id", id)).map(|e| e.children().map(|c| c.text()).collect()).collect()
}

/// Relies on `select::document::Document::from`, `Document::find` with
/// `Child`, `Attr` and `Name`, `Node::find`, `Node::attr` and `Node::text`:
/// the result depends on the arguments alone.
#[verifier::external_body]
fn child_links(body: &str, parent_id: &str, child_tag: &str, link_tag: &str) -> (r: Vec<Vec<(Option<String>, Option<String>, String)>>)
    ensures
        r@.map_values(|v: Vec<(Option<String>, Option<String>, String)>| links_view(v))
            == child_links_of(body@, parent_id@, child_tag@, link_tag@),
{
    let doc = Document::from(body);
    doc.find(Child(Attr("id", parent_id), Name(child_tag)))
        .map(|d| {
            d.find(Name(link_tag))
                .map(|a| (a.attr("id").map(String::from), a.attr("href").map(String::from), a.text()))
                .collect()
        })
        .collect()
}

/// Relies on `select::document::Document::from`, `Document::find` with
/// `Attr` and `Node::inner_html`: the result depends on the arguments alone.
#[verifier::external_body]
fn inner_html_by_id(body: &str, id: &str) -> (r: Vec<String>)
    ensures
        strings_view(r) == inner_html_by_id_of(body@, id@),
{
    let doc = Document::from(body);
    doc.find(Attr("id", id)).map(|e| e.inner_html()).collect()
}

/// The text of the pagination summary: that of the first child of the first
/// element with the id `listaHasel`.
pub open spec fn summary_text_spec(texts: Seq<Seq<Seq<char>>>) -> Option<Seq<char>> {
    if texts.len() > 0 && texts[0].len() > 0 {
        Some(texts[0][0])
    } else {
        None
    }
}

/// Reads a letter's total from the body of its first listing page.
pub fn count_from_page(body: &str) -> (r: Result<u64, Error>)
    ensures
        ({
            let found = summary_text_spec(child_texts_by_id_of(body@, "listaHasel"@));
            &&& found is None ==> r == Err::<u64, Error>(Error::MissingElement(Element::CountSummary))
            &&& found is Some ==> (r is Ok <==> (count_summary_spec(found->0) is Some
                && count_summary_spec(found->0)->0 <= u64::MAX))
            &&& found is Some && r is Ok ==> r->Ok_0 == count_summary_spec(found->0)->0
            &&& found is Some && r is Err ==> r->Err_0 == Error::Malformed(Element::CountSummary)
        }),
{
    let texts = child_texts_by_id(body, "listaHasel");
    if texts.len() == 0 || texts[0].len() == 0 {
        return Err(Error::MissingElement(Element::CountSummary));
    }
    assert(texts@.map_values(|v: Vec<String>| strings_view(v))[0] == strings_view(texts@[0]));
    parse_count_summary(texts[0][0].as_str())
}

/// The entry anchor among a list child's links: the first one without an
/// `id` attribute (one with an id plays audio), from index `i` on.
pub open spec fn entry_anchor_from(links: Seq<LinkView>, i: int) -> AnchorView
    decreases links.len() - i,
{
    if i < 0 || i >= links.len() {
        None
    } else if links[i].0 is None {
        Some((links[i].1, links[i].2))
    } else {
        entry_anchor_from(links, i + 1)
    }
}

pub open spec fn listing_children_spec(kids: Seq<Seq<LinkView>>) -> Seq<AnchorView> {
    kids.map_values(|k: Seq<LinkView>| entry_anchor_from(k, 0))
}

fn clone_opt(o: &Option<String>) -> (r: Option<String>)
    ensures
        opt_view(r) == opt_view(*o),
{
    match o {
        Some(s) => Some(s.clone()),
        None => None,
    }
}

fn entry_anchor(links: &Vec<(Option<String>, Option<String>, String)>) -> (r: Option<Anchor>)
    ensures
        crate::records::anchor_view(r) == entry_anchor_from(links_view(*links), 0),
{
    let mut i: usize = 0;
    while i < links.len()
        invariant
            i <= links.len(),
            entry_anchor_from(links_view(*links), 0) == entry_anchor_from(links_view(*links), i as int),
        decreases links.len() - i,
    {
        assert(links_view(*links)[i as int] == link_view(links@[i as int]));
        if links[i].0.is_none() {
            return Some(Anchor { href: clone_opt(&links[i].1), text: links[i].2.clone() });
        }
        i = i + 1;
    }
    None
}

/// Reads the word records from the body of a listing page: each `div` child
/// of the element with the id `listaHasel` is one entry, but the trailing
/// one.
pub fn words_from_page(body: &str) -> (r: Result<Vec<WordRecord>, Error>)
    ensures
        ({
            let children = listing_children_spec(child_links_of(body@, "listaHasel"@, "div"@, "a"@));
            &&& r is Ok <==> page_entries_spec(children) is Ok
            &&& r is Ok ==> r->Ok_0@.map_values(|w: WordRecord| record_view(w)) == page_entries_spec(children)->Ok_0
            &&& r is Err ==> r->Err_0 == page_entries_spec(children)->Err_0
        }),
{
    let kids = child_links(body, "listaHasel", "div", "a");
    let ghost kv = kids@.map_values(|v: Vec<(Option<String>, Option<String>, String)>| links_view(v));
    let mut children: Vec<Option<Anchor>> = Vec::new();
    let mut i: usize = 0;
    while i < kids.len()
        invariant
            i <= kids.len(),
            kv == kids@.map_values(|v: Vec<(Option<String>, Option<String>, String)>| links_view(v)),
            children@.len() == i,
            kv.len() == kids@.len(),
            children_view(children@) == listing_children_spec(kv).take(i as int),
        decreases kids.len() - i,
    {
        let a = entry_anchor(&kids[i]);
        let ghost prev = children@;
        children.push(a);
        assert(kv[i as int] == links_view(kids@[i as int]));
        assert(children@ == prev.push(a));
        assert(children_view(children@)[i as int] == crate::records::anchor_view(a));
        assert(listing_children_spec(kv)[i as int] == entry_anchor_from(kv[i as int], 0));
        assert(forall|k: int| 0 <= k < i ==> children_view(children@)[k] == children_view(prev)[k]);
        assert(children_view(children@) =~= listing_children_spec(kv).take(i + 1));
        i = i + 1;
    }
    assert(listing_children_spec(kv).take(i as int) =~= listing_children_spec(kv));
    page_entries(&children)
}

/// Reads the normalized definition from the body of a definition page: the
/// inner markup of the first element with the id `haslo`.
pub fn definition_from_page(body: &str) -> (r: Result<String, Error>)
    ensures
        ({
            let found = inner_html_by_id_of(body@, "haslo"@);
            &&& found.len() == 0 <==> r is Err
            &&& r is Err ==> r->Err_0 == Error::MissingElement(Element::Definition)
            &&& r is Ok ==> r->Ok_0@ == normalized_definition(found[0])
        }),
{
    let found = inner_html_by_id(body, "haslo");
    if found.len() == 0 {
        extract_definition(None)
    } else {
        extract_definition(Some(found[0].as_str()))
    }
}

} // verus!
