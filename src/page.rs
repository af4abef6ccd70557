use vstd::prelude::*;
use vstd::string::StrSliceExecFns;
use vstd::string::StringExecFns;
use crate::article::Article;
use crate::walk::FetchError;

verus! {

/// The CSS rule that picks candidate links: anchors inside paragraphs.
pub const LINK_RULE: &'static str = "p a";

/// The path prefix of links that lead to another article.
pub const ARTICLE_PREFIX: &'static str = "/wiki/";

/// The `href` of each anchor that `LINK_RULE` selects in the page `body`, in
/// the order scraper yields them, `None` for an anchor without one.
pub uninterp spec fn paragraph_hrefs(body: Seq<char>) -> Seq<Option<Seq<char>>>;

/// A character that may stand in a linked title. A `:` marks a page outside
/// the article namespace (a file, a help page); a `#` points into a page.
pub open spec fn is_title_char(c: char) -> bool {
    c != ':' && c != '#'
}

/// The article title that the link `href` leads to: the non-empty rest of an
/// `href` that starts with `ARTICLE_PREFIX`, where every character of that
/// rest is a title character. `None` where the link qualifies as no article.
pub open spec fn article_title(href: Seq<char>) -> Option<Seq<char>> {
    let n = ARTICLE_PREFIX@.len() as int;
    let rest = href.skip(n);
    if href.len() > n && href.take(n) == ARTICLE_PREFIX@ && (forall|i: int|
        0 <= i < rest.len() ==> is_title_char(#[trigger] rest[i])) {
        Some(rest)
    } else {
        None
    }
}

/// The link-selection rule: the title of the first link of `hrefs`, in order,
/// that leads to an article; `None` where no link does.
pub open spec fn first_link(hrefs: Seq<Option<Seq<char>>>) -> Option<Seq<char>>
    decreases hrefs.len(),
{
    if hrefs.len() == 0 {
        None
    } else {
        match hrefs[0] {
            Some(h) => match article_title(h) {
                Some(t) => Some(t),
                None => first_link(hrefs.drop_first()),
            },
            None => first_link(hrefs.drop_first()),
        }
    }
}

/// Relies on scraper: `Selector::parse` compiles `rule`, which is valid CSS, so
/// the unwrap does not fail; `Html::parse_document` parses the body, which
/// never fails; `Html::select` yields the matching elements; `Element::attr`
/// reads each one's `href`. The result depends on the body alone.
#[verifier::external_body]
fn paragraph_anchor_hrefs(body: &str, rule: &str) -> (r: Vec<Option<String>>)
    requires
        rule@ == LINK_RULE@,
    ensures
        r.deep_view() == paragraph_hrefs(body@),
{
    let selector = scraper::Selector::parse(rule).unwrap();
    let document = scraper::Html::parse_document(body);
    document.select(&selector).map(|e| e.value().attr("href").map(|h| h.to_string())).collect()
}

/// The title that the link `href` leads to, as `article_title` states.
pub fn href_title(href: &str) -> (r: Option<String>)
    ensures
        r.deep_view() == article_title(href@),
{
    let n = ARTICLE_PREFIX.unicode_len();
    let len = href.unicode_len();
    if len <= n {
        return None;
    }
    let mut i: usize = 0;
    while i < n
        invariant
            n == ARTICLE_PREFIX@.len(),
            len == href@.len(),
            n < len,
            i <= n,
            forall|k: int| 0 <= k < i ==> href@[k] == ARTICLE_PREFIX@[k],
        decreases n - i,
    {
        if href.get_char(i) != ARTICLE_PREFIX.get_char(i) {
            assert(href@.take(n as int)[i as int] != ARTICLE_PREFIX@[i as int]);
            return None;
        }
        i += 1;
    }
    assert(href@.take(n as int) =~= ARTICLE_PREFIX@);
    let ghost rest = href@.skip(n as int);
    let mut j: usize = n;
    while j < len
        invariant
            n == ARTICLE_PREFIX@.len(),
            len == href@.len(),
            rest == href@.skip(n as int),
            n <= j <= len,
            forall|k: int| 0 <= k < j - n ==> is_title_char(#[trigger] rest[k]),
        decreases len - j,
    {
        let c = href.get_char(j);
        if c == ':' || c == '#' {
            assert(!is_title_char(rest[j - n]));
            return None;
        }
        j += 1;
    }
    let title = href.substring_char(n, len);
    assert(title@ =~= rest);
    Some(String::from_str(title))
}

/// Picks the next article from the `href`s of a page's paragraph anchors by
/// the link-selection rule: the first link that leads to an article, or
/// `FetchError::NoLink` where none does.
pub fn pick_link(hrefs: &Vec<Option<String>>) -> (r: Result<Article, FetchError>)
    ensures
        match first_link(hrefs.deep_view()) {
            Some(t) => r matches Ok(a) && a@ == t,
            None => r == Err::<Article, FetchError>(FetchError::NoLink),
        },
{
    let ghost all = hrefs.deep_view();
    assert(all.skip(0) =~= all);
    let mut i: usize = 0;
    while i < hrefs.len()
        invariant
            i <= hrefs@.len(),
            all == hrefs.deep_view(),
            first_link(all) == first_link(all.skip(i as int)),
        decreases hrefs@.len() - i,
    {
        let ghost rest = all.skip(i as int);
        assert(rest.drop_first() =~= all.skip(i + 1));
        assert(rest[0] == hrefs[i as int].deep_view());
        if let Some(h) = &hrefs[i] {
            if let Some(t) = href_title(h.as_str()) {
                return Ok(Article::new(t));
            }
        }
        i += 1;
    }
    assert(all.skip(i as int) =~= Seq::<Option<Seq<char>>>::empty());
    Err(FetchError::NoLink)
}

/// Picks the next article from the body of a fetched page: the first
/// paragraph link that leads to an article, or `FetchError::NoLink` where the
/// page has none.
pub fn next_article(body: &str) -> (r: Result<Article, FetchError>)
    ensures
        match first_link(paragraph_hrefs(body@)) {
            Some(t) => r matches Ok(a) && a@ == t,
            None => r == Err::<Article, FetchError>(FetchError::NoLink),
        },
{
    let hrefs = paragraph_anchor_hrefs(body, LINK_RULE);
    pick_link(&hrefs)
}

} // verus!
