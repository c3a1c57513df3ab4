//! The one window onto the HTML parser.  Everything the decoder reads
//! from a page is the ordered sequence of `value` attributes of its
//! `<input>` elements; this module extracts that sequence and nothing
//! else.

use vstd::prelude::*;

verus! {

/// The `value` attributes of the `<input>` elements of the HTML document
/// `body`, in document order; `None` where an element has no `value`
/// attribute.  The sequence is a function of the document text alone.
pub uninterp spec fn input_values_of(body: Seq<char>) -> Seq<Option<Seq<char>>>;

/// Relies on scraper's `Html::parse_document`, `Selector::parse`,
/// `Html::select` and `Element::attr`: `select` walks the parsed tree's
/// nodes in document order and yields the elements matching the
/// selector, and `attr` returns an element's attribute value, so the
/// result is the document's `value` attributes in page order.
#[verifier::external_body]
pub(crate) fn extract_input_values(body: &str) -> (r: Vec<Option<String>>)
    ensures
        r.deep_view() == input_values_of(body@),
{
    let document = scraper::Html::parse_document(body);
    let selector = scraper::Selector::parse("input").unwrap();
    let mut values: Vec<Option<String>> = Vec::new();
    for element in document.select(&selector) {
        values.push(element.value().attr("value").map(|v| v.to_string()));
    }
    values
}

} // verus!
