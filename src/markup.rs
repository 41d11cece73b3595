//! Element selection in HTML documents, done by the `scraper` crate.
use vstd::prelude::*;

verus! {

/// For each element that the CSS selector `selector` matches in the HTML
/// document `html`, in the order the parser created the nodes: the text of the
/// node right after the element, if that node is a text node. `None` if the
/// selector does not parse.
pub uninterp spec fn texts_after(html: Seq<char>, selector: Seq<char>) -> Option<
    Seq<Option<Seq<char>>>,
>;

/// For each element that the CSS selector `selector` matches in the HTML
/// document `html`, in the order the parser created the nodes: its first
/// descendant text node, if any. `None` if the selector does not parse.
pub uninterp spec fn texts_within(html: Seq<char>, selector: Seq<char>) -> Option<
    Seq<Option<Seq<char>>>,
>;

/// For each element that the CSS selector `selector` matches in the HTML
/// document `html`, in the order the parser created the nodes: for each of its
/// direct child nodes, that node's text if it is a text node. `None` if the
/// selector does not parse.
pub uninterp spec fn child_texts(html: Seq<char>, selector: Seq<char>) -> Option<
    Seq<Seq<Option<Seq<char>>>>,
>;

pub open spec fn opt_text_view(t: Option<String>) -> Option<Seq<char>> {
    match t {
        Some(s) => Some(s@),
        None => None,
    }
}

pub open spec fn texts_view(v: Seq<Option<String>>) -> Seq<Option<Seq<char>>> {
    v.map_values(|t: Option<String>| opt_text_view(t))
}

pub open spec fn found_view(r: Option<Vec<Option<String>>>) -> Option<Seq<Option<Seq<char>>>> {
    match r {
        Some(v) => Some(texts_view(v@)),
        None => None,
    }
}

pub open spec fn children_view(v: Seq<Vec<Option<String>>>) -> Seq<Seq<Option<Seq<char>>>> {
    v.map_values(|c: Vec<Option<String>>| texts_view(c@))
}

pub open spec fn found_children_view(r: Option<Vec<Vec<Option<String>>>>) -> Option<Seq<Seq<Option<Seq<char>>>>> {
    match r {
        Some(v) => Some(children_view(v@)),
        None => None,
    }
}

/// Relies on `scraper::Selector::parse`, `scraper::Html::parse_document`,
/// `Html::select`, and on `children` and `Node::as_text` of the matched
/// elements: the text of each direct child that is a text node.
#[verifier::external_body]
pub(crate) fn select_child_texts(html: &str, selector: &str) -> (r: Option<Vec<Vec<Option<String>>>>)
    ensures
        found_children_view(r) == child_texts(html@, selector@),
{
    let selector = scraper::Selector::parse(selector).ok()?;
    let document = scraper::Html::parse_document(html);
    let texts = document.select(&selector).map(
        |e| e.children().map(|n| n.value().as_text().map(|t| t.to_string())).collect(),
    );
    Some(texts.collect())
}

/// Relies on `scraper::Selector::parse`, `scraper::Html::parse_document`,
/// `Html::select`, and on `next_sibling` and `Node::as_text` of the matched
/// elements: the text node right after each match.
#[verifier::external_body]
pub(crate) fn select_texts_after(html: &str, selector: &str) -> (r: Option<Vec<Option<String>>>)
    ensures
        found_view(r) == texts_after(html@, selector@),
{
    let selector = scraper::Selector::parse(selector).ok()?;
    let document = scraper::Html::parse_document(html);
    let texts = document.select(&selector).map(
        |e| e.next_sibling().and_then(|n| n.value().as_text().map(|t| t.to_string())),
    );
    Some(texts.collect())
}

/// Relies on `scraper::Selector::parse`, `scraper::Html::parse_document`,
/// `Html::select` and `ElementRef::text`: the first descendant text node of
/// each match.
#[verifier::external_body]
pub(crate) fn select_texts_within(html: &str, selector: &str) -> (r: Option<Vec<Option<String>>>)
    ensures
        found_view(r) == texts_within(html@, selector@),
{
    let selector = scraper::Selector::parse(selector).ok()?;
    let document = scraper::Html::parse_document(html);
    let texts = document.select(&selector).map(|e| e.text().next().map(|t| t.to_string()));
    Some(texts.collect())
}

/// The first text among `children`, if any.
pub open spec fn first_text(children: Seq<Option<Seq<char>>>) -> Option<Seq<char>>
    decreases children.len(),
{
    if children.len() == 0 {
        None
    } else if children[0] is Some {
        children[0]
    } else {
        first_text(children.drop_first())
    }
}

/// The first text among `children`, if any.
pub fn first_child_text(children: &Vec<Option<String>>) -> (r: Option<&String>)
    ensures
        (match r {
            Some(s) => first_text(texts_view(children@)) == Some(s@),
            None => first_text(texts_view(children@)) is None,
        }),
{
    let ghost cs = texts_view(children@);
    let mut i: usize = 0;
    assert(cs.skip(0) =~= cs);
    while i < children.len()
        invariant
            i <= children@.len(),
            cs == texts_view(children@),
            first_text(cs) == first_text(cs.skip(i as int)),
        decreases children@.len() - i,
    {
        assert(cs.skip(i as int)[0] == opt_text_view(children@[i as int]));
        match &children[i] {
            Some(s) => {
                return Some(s);
            },
            None => {
                assert(cs.skip(i as int).drop_first() =~= cs.skip(i + 1));
            },
        }
        i = i + 1;
    }
    assert(cs.skip(i as int).len() == 0);
    None
}

} // verus!
