use vstd::prelude::*;

use crate::links::Link;
use crate::links::LinkView;
use crate::links::dedup_links;
use crate::links::filter_present;
use crate::links::link_views;
use crate::links::opt_views;
use crate::links::pair_links;
use crate::links::paired_views;
use crate::links::present_values;
use crate::links::str_views;
use crate::outcome::SetupError;

verus! {

#[verifier::external_type_specification]
#[verifier::external_body]
pub struct ExHtml(scraper::Html);

#[verifier::external_type_specification]
#[verifier::external_body]
pub struct ExSelector(scraper::Selector);

/// The markup a parsed document was built from.
pub uninterp spec fn doc_markup(d: scraper::Html) -> Seq<char>;

/// The selector text a parsed selector was built from.
pub uninterp spec fn selector_text(s: scraper::Selector) -> Seq<char>;

/// Whether a piece of selector text is a well-formed CSS selector group.
pub uninterp spec fn selector_ok(s: Seq<char>) -> bool;

/// For each element of the document that matches the selector, in document
/// order: the value of the named attribute, where the element carries one.
pub uninterp spec fn attr_matches(markup: Seq<char>, selector: Seq<char>, attr: Seq<char>) -> Seq<
    Option<Seq<char>>,
>;

/// For each element of the document that matches the selector, in document
/// order: the markup between its tags.
pub uninterp spec fn inner_matches(markup: Seq<char>, selector: Seq<char>) -> Seq<Seq<char>>;

/// Relies on scraper's Html::parse_document: the parsed document is a
/// function of the markup text alone.
#[verifier::external_body]
fn parse_document(markup: &str) -> (d: scraper::Html)
    ensures
        doc_markup(d) == markup@,
{
    scraper::Html::parse_document(markup)
}

/// Relies on scraper's Selector::parse: it accepts exactly the well-formed
/// CSS selector groups, judged by the selector text alone.
#[verifier::external_body]
fn parse_selector(selector: &str) -> (r: Option<scraper::Selector>)
    ensures
        r is Some <==> selector_ok(selector@),
        r is Some ==> selector_text(r->0) == selector@,
{
    match scraper::Selector::parse(selector) {
        Ok(s) => Some(s),
        Err(_) => None,
    }
}

/// Relies on scraper's Html::select and ElementRef::attr: the elements
/// matching a selector come in document order, and each hands out the named
/// attribute's value where it carries one.
#[verifier::external_body]
fn select_attr_values(doc: &scraper::Html, selector: &scraper::Selector, attr: &str) -> (r: Vec<
    Option<String>,
>)
    ensures
        opt_views(r@) == attr_matches(doc_markup(*doc), selector_text(*selector), attr@),
{
    doc.select(selector).map(|el| el.attr(attr).map(String::from)).collect()
}

/// Relies on scraper's Html::select and ElementRef::inner_html: the elements
/// matching a selector come in document order, and each serializes the
/// markup between its tags.
#[verifier::external_body]
fn select_inner_markup(doc: &scraper::Html, selector: &scraper::Selector) -> (r: Vec<String>)
    ensures
        str_views(r@) == inner_matches(doc_markup(*doc), selector_text(*selector)),
{
    doc.select(selector).map(|el| el.inner_html()).collect()
}

/// The selector that finds the resource anchors of the gallery container.
pub open spec fn url_selector_text() -> Seq<char> {
    ".nidb-album a"@
}

/// The selector that finds the resource anchors of the gallery container.
pub fn url_selector() -> (s: &'static str)
    ensures
        s@ == url_selector_text(),
{
    ".nidb-album a"
}

/// The selector that finds the display names under the gallery container's
/// paragraphs.
pub open spec fn name_selector_text() -> Seq<char> {
    ".nidb-album p > strong"@
}

/// The selector that finds the display names under the gallery container's
/// paragraphs.
pub fn name_selector() -> (s: &'static str)
    ensures
        s@ == name_selector_text(),
{
    ".nidb-album p > strong"
}

/// The anchor attribute that holds a resource's URL.
pub open spec fn href_attr_text() -> Seq<char> {
    "href"@
}

/// The anchor attribute that holds a resource's URL.
pub fn href_attr() -> (s: &'static str)
    ensures
        s@ == href_attr_text(),
{
    "href"
}

/// The links one listing page yields before deduplication: each anchor's
/// URL paired, position by position, with the matching display name.
pub open spec fn listed_links(markup: Seq<char>) -> Seq<LinkView> {
    paired_views(
        present_values(attr_matches(markup, url_selector_text(), href_attr_text())),
        inner_matches(markup, name_selector_text()),
    )
}

/// Extract the link set of a listing page: every `(url, name)` pair the
/// markup yields, each exactly once. It fails only when one of the fixed
/// selectors cannot be parsed, which is a fatal setup error.
pub fn collect_links(markup: &str) -> (r: Result<Vec<Link>, SetupError>)
    ensures
        r is Ok <==> selector_ok(url_selector_text()) && selector_ok(name_selector_text()),
        r is Err ==> r->Err_0 == SetupError::SelectorParse,
        r is Ok ==> (forall|i: int, j: int|
            0 <= i < j < link_views(r->Ok_0@).len() ==> link_views(r->Ok_0@)[i] != link_views(
                r->Ok_0@,
            )[j]),
        r is Ok ==> (forall|l: LinkView|
            link_views(r->Ok_0@).contains(l) == listed_links(markup@).contains(l)),
{
    let doc = parse_document(markup);
    let url_sel = match parse_selector(url_selector()) {
        Some(s) => s,
        None => {
            return Err(SetupError::SelectorParse);
        },
    };
    let name_sel = match parse_selector(name_selector()) {
        Some(s) => s,
        None => {
            return Err(SetupError::SelectorParse);
        },
    };
    let hrefs = select_attr_values(&doc, &url_sel, href_attr());
    let urls = filter_present(hrefs);
    let names = select_inner_markup(&doc, &name_sel);
    let paired = pair_links(urls, names);
    Ok(dedup_links(paired))
}

} // verus!
