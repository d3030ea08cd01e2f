//! HTML pages, as far as the texts and links of elements are read.

use crate::json::opt_texts;
use crate::text::opt_text;
use vstd::prelude::*;

verus! {

/// The texts of the elements of a page that a CSS selector matches, in the order in which the tree
/// of the page stores its nodes; `None` where the selector is not valid.
pub uninterp spec fn html_texts(html: Seq<char>, selector: Seq<char>) -> Option<Seq<Seq<char>>>;

/// `scraper::Html::parse_document` and `select`: for each element that matches, its texts put
/// together. The elements come in the order in which the parser put their nodes into the tree.
#[verifier::external_body]
pub(crate) fn select_texts(html: &str, selector: &str) -> (r: Option<Vec<String>>)
    ensures
        opt_texts(r) == html_texts(html@, selector@),
{
    let wanted = scraper::Selector::parse(selector).ok()?;
    let page = scraper::Html::parse_document(html);
    let found = page.select(&wanted).map(|element| element.text().collect::<String>());
    Some(found.collect())
}

/// The values of optional texts.
pub open spec fn links(list: Seq<Option<String>>) -> Seq<Option<Seq<char>>> {
    list.map_values(|t: Option<String>| opt_text(t))
}

/// The value of an optional list of optional texts.
pub open spec fn opt_links(list: Option<Vec<Option<String>>>) -> Option<Seq<Option<Seq<char>>>> {
    match list {
        Some(l) => Some(links(l@)),
        None => None,
    }
}

/// The attribute `name` of the elements of a page that a CSS selector matches, in the order in
/// which the tree of the page stores its nodes; `None` where the selector is not valid.
pub uninterp spec fn html_attributes(
    html: Seq<char>,
    selector: Seq<char>,
    name: Seq<char>,
) -> Option<Seq<Option<Seq<char>>>>;

/// `scraper::Html::parse_document` and `select`: for each element that matches, the value of an
/// attribute, if it has it. The elements come in the order in which the parser put their nodes
/// into the tree.
#[verifier::external_body]
pub(crate) fn select_attributes(html: &str, selector: &str, name: &str) -> (r: Option<
    Vec<Option<String>>,
>)
    ensures
        opt_links(r) == html_attributes(html@, selector@, name@),
{
    let wanted = scraper::Selector::parse(selector).ok()?;
    let page = scraper::Html::parse_document(html);
    let found = page.select(&wanted).map(|e| e.value().attr(name).map(|value| value.to_string()));
    Some(found.collect())
}

/// The address that a reference on a page at `base` leads to: `None` where `base` is no address,
/// `Some(None)` where the reference leads nowhere.
pub uninterp spec fn joined_url(base: Seq<char>, reference: Seq<char>) -> Option<
    Option<Seq<char>>,
>;

/// The value of an optional optional text.
pub open spec fn opt_opt_text(t: Option<Option<String>>) -> Option<Option<Seq<char>>> {
    match t {
        Some(inner) => Some(opt_text(inner)),
        None => None,
    }
}

/// `url::Url::parse` for the base and `url::Url::join` for the reference.
#[verifier::external_body]
pub(crate) fn join_url(base: &str, reference: &str) -> (r: Option<Option<String>>)
    ensures
        opt_opt_text(r) == joined_url(base@, reference@),
{
    let base = url::Url::parse(base).ok()?;
    Some(base.join(reference).ok().map(|url| url.to_string()))
}

} // verus!
