//! The web-scrape fallback for box art: the search URL, and the image URL
//! read out of the result page.

use vstd::prelude::*;
use crate::path::opt_view;

verus! {

/// Where and how to scrape box art.
#[derive(Debug, Clone, PartialEq, Eq)]
pub struct ScraperConfig {
    /// Search URL, with `{}` where the keyword goes.
    pub url_template: String,
    /// CSS selector of the image element in the result page.
    pub img_selector: String,
    /// Pattern applied to the image element's `src`.
    pub regex_pattern: String,
    /// Replacement for each match of the pattern.
    pub replacement_string: String,
}

/// The `src` attribute of the first element of the HTML page `html` that the
/// CSS selector `selector` matches; nothing when the selector does not parse,
/// nothing matches, or the element has no `src`.
pub uninterp spec fn first_src_attr(html: Seq<char>, selector: Seq<char>) -> Option<Seq<char>>;

/// `text` with every match of the regular expression `pattern` replaced by
/// `replacement`; nothing when the pattern does not compile.
pub uninterp spec fn regex_rewrite(pattern: Seq<char>, text: Seq<char>, replacement: Seq<char>) -> Option<
    Seq<char>,
>;

/// Relies on scraper for one lookup, made of `Selector::parse` (nothing when the
/// selector does not parse), `Html::parse_document`, the first item of
/// `Html::select`, and `Element::attr("src")` on it. The result depends on the
/// page and the selector alone.
#[verifier::external_body]
fn select_first_src(html: &str, selector: &str) -> (r: Option<String>)
    ensures
        opt_view(r) == first_src_attr(html@, selector@),
{
    let selector = match scraper::Selector::parse(selector) {
        Ok(s) => s,
        Err(_) => return None,
    };
    let document = scraper::Html::parse_document(html);
    let first = document.select(&selector).next();
    match first {
        Some(element) => element.value().attr("src").map(String::from),
        None => None,
    }
}

/// Relies on regex: `Regex::new` to compile the pattern (nothing when it does
/// not compile), then `Regex::replace_all` to replace every match, with `$name`
/// references in the replacement expanded as regex documents.
#[verifier::external_body]
fn rewrite_with_regex(pattern: &str, text: &str, replacement: &str) -> (r: Option<String>)
    ensures
        opt_view(r) == regex_rewrite(pattern@, text@, replacement@),
{
    match regex::Regex::new(pattern) {
        Ok(re) => Some(re.replace_all(text, replacement).into_owned()),
        Err(_) => None,
    }
}

/// `t` with each `{}`, read from left to right, replaced by `k`.
pub open spec fn replace_braces(t: Seq<char>, k: Seq<char>) -> Seq<char>
    decreases t.len(),
{
    if t.len() == 0 {
        Seq::empty()
    } else if t.len() >= 2 && t[0] == '{' && t[1] == '}' {
        k + replace_braces(t.subrange(2, t.len() as int), k)
    } else {
        seq![t[0]] + replace_braces(t.drop_first(), k)
    }
}

/// The search URL: the template with each `{}` replaced by the keyword.
pub fn search_url(template: &str, keyword: &str) -> (r: String)
    ensures
        r@ == replace_braces(template@, keyword@),
{
    let n = template.unicode_len();
    let mut out = String::new();
    let mut i: usize = 0;
    assert(template@.subrange(0, n as int) =~= template@);
    while i < n
        invariant
            i <= n == template@.len(),
            out@ + replace_braces(template@.subrange(i as int, n as int), keyword@) == replace_braces(
                template@,
                keyword@,
            ),
        decreases n - i,
    {
        let ghost rest = template@.subrange(i as int, n as int);
        let c = template.get_char(i);
        if c == '{' && i + 1 < n && template.get_char(i + 1) == '}' {
            assert(rest.subrange(2, rest.len() as int) =~= template@.subrange(i + 2, n as int));
            out.append(keyword);
            i = i + 2;
        } else {
            assert(rest.drop_first() =~= template@.subrange(i + 1, n as int));
            let one = template.substring_char(i, i + 1);
            assert(one@ =~= seq![rest[0]]);
            out.append(one);
            i = i + 1;
        }
    }
    assert(template@.subrange(n as int, n as int) =~= Seq::<char>::empty());
    assert(out@ + Seq::<char>::empty() =~= out@);
    out
}

/// The image URL for a scraped `src`: the configured pattern rewritten into
/// it; nothing when there is no `src`.
pub open spec fn rewritten_src(config: ScraperConfig, src: Option<Seq<char>>) -> Option<Seq<char>> {
    match src {
        Some(s) => regex_rewrite(config.regex_pattern@, s, config.replacement_string@),
        None => None,
    }
}

/// The image URL read out of a result page.
pub open spec fn page_image_url(config: ScraperConfig, page: Seq<char>) -> Option<Seq<char>> {
    rewritten_src(config, first_src_attr(page, config.img_selector@))
}

/// Rewrites the `src` of the image element into the image URL.
pub fn rewrite_src(config: &ScraperConfig, src: Option<String>) -> (r: Option<String>)
    ensures
        opt_view(r) == rewritten_src(*config, opt_view(src)),
{
    match src {
        Some(s) => rewrite_with_regex(config.regex_pattern.as_str(), s.as_str(), config.replacement_string.as_str()),
        None => None,
    }
}

/// The image URL that the result page `page` of a search points to.
pub fn image_url_from_page(config: &ScraperConfig, page: &str) -> (r: Option<String>)
    ensures
        opt_view(r) == page_image_url(*config, page@),
{
    let src = select_first_src(page, config.img_selector.as_str());
    rewrite_src(config, src)
}

} // verus!
