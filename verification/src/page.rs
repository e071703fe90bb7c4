use vstd::prelude::*;
use crate::feed::opt_view;

verus! {

/// The main content, as HTML, that the `readability` crate extracts from the
/// page `html` found at `url`; none where `url` is not an absolute URL or the
/// extraction fails.
pub uninterp spec fn readable_content(url: Seq<char>, html: Seq<char>) -> Option<Seq<char>>;

/// The plain text that the `html2text` crate renders from `html`, wrapped to
/// `width` columns; none where it reports an error.
pub uninterp spec fn html_text(html: Seq<char>, width: usize) -> Option<Seq<char>>;

/// `str::parse::<reqwest::Url>` then `readability::extractor::extract`,
/// keeping the extracted content. The contract claims only that the result
/// depends on the address and the page alone.
#[verifier::external_body]
fn extract_readable(url: &str, html: &str) -> (r: Option<String>)
    ensures
        opt_view(r) == readable_content(url@, html@),
{
    let parsed = url.parse::<reqwest::Url>().ok()?;
    let product = readability::extractor::extract(&mut html.as_bytes(), &parsed).ok()?;
    Some(product.content)
}

/// `html2text::from_read`. The contract claims only that the result depends
/// on the page and the width alone.
#[verifier::external_body]
fn render_html(html: &str, width: usize) -> (r: Option<String>)
    ensures
        opt_view(r) == html_text(html@, width),
{
    html2text::from_read(html.as_bytes(), width).ok()
}

/// The width an article is rendered to on a terminal `columns` wide: four
/// columns less for the frame, but no less than 40.
pub open spec fn article_width_for(columns: u16) -> int {
    if columns >= 44 {
        columns - 4
    } else {
        40
    }
}

/// The width an article is rendered to on a terminal `columns` wide.
pub fn article_width(columns: u16) -> (r: usize)
    ensures
        r == article_width_for(columns),
{
    if columns >= 44 {
        (columns - 4) as usize
    } else {
        40
    }
}

/// The HTML that is rendered of a page: what was extracted from it, or the
/// whole page where nothing was.
pub open spec fn chosen_content(extracted: Option<Seq<char>>, html: Seq<char>) -> Seq<char> {
    match extracted {
        Some(c) => c,
        None => html,
    }
}

/// The HTML that is rendered of a page, given what was extracted from it.
pub fn content_html(extracted: Option<String>, html: String) -> (r: String)
    ensures
        r@ == chosen_content(opt_view(extracted), html@),
{
    match extracted {
        Some(c) => c,
        None => html,
    }
}

/// The text shown of the page `html` found at `url`, `width` columns wide:
/// its main content where one can be extracted, else the whole page,
/// rendered as plain text; none where rendering fails.
pub open spec fn article_text_of(url: Seq<char>, html: Seq<char>, width: usize) -> Option<Seq<char>> {
    html_text(chosen_content(readable_content(url, html), html), width)
}

/// The text shown of the page `html` found at `url`, `width` columns wide.
pub fn article_text(url: &str, html: String, width: usize) -> (r: Option<String>)
    ensures
        opt_view(r) == article_text_of(url@, html@, width),
{
    let extracted = extract_readable(url, html.as_str());
    let content = content_html(extracted, html);
    render_html(content.as_str(), width)
}

} // verus!
