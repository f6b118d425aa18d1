//! Resolving an addon name through esoui.com's classic search form: the
//! search URL, and the rules that pick the addon page out of the answer.
//!
//! The caller fetches the search URL, and hands in the URL that the request
//! ended at and, where it is needed, the page's HTML.

use vstd::prelude::*;
use crate::text::{has_prefix, has_substring, occurs_at, starts_with, contains, concatenate};
use crate::percent::{percent_encode, percent_encoded};

verus! {

/// The URL of the search form.
pub open spec fn search_form() -> Seq<char> {
    "https://www.esoui.com/downloads/search.php"@
}

/// The URL that searches esoui.com for addons titled `name`.
pub open spec fn search_url_of(name: Seq<char>) -> Seq<char> {
    search_form() + "?action=search&search="@ + percent_encoded(vstd::utf8::encode_utf8(name))
        + "&titleonly=1"@
}

/// The URL of an addon's fileinfo page.
pub open spec fn is_addon_page_url(url: Seq<char>) -> bool {
    has_substring(url, "/downloads/info"@) || has_substring(url, "fileinfo.php"@)
}

/// A link's target made absolute against esoui.com.
pub open spec fn absolute_url_of(href: Seq<char>) -> Seq<char> {
    if has_prefix(href, "http://"@) || has_prefix(href, "https://"@) {
        href
    } else if has_prefix(href, "/"@) {
        "https://www.esoui.com"@ + href
    } else {
        "https://www.esoui.com/downloads/"@ + href
    }
}

/// The first link target among `hrefs` that leads to an addon page, made
/// absolute.
pub open spec fn first_addon_link_of(hrefs: Seq<Seq<char>>) -> Option<Seq<char>>
    decreases hrefs.len(),
{
    if hrefs.len() == 0 {
        None
    } else if is_addon_page_url(hrefs[0]) {
        Some(absolute_url_of(hrefs[0]))
    } else {
        first_addon_link_of(hrefs.drop_first())
    }
}

/// The views of a list of strings.
pub open spec fn views(v: Seq<String>) -> Seq<Seq<char>> {
    v.map_values(|s: String| s@)
}

/// The targets of the `a[href]` links of an HTML document, in document
/// order, as scraper reads the document.
pub uninterp spec fn html_link_hrefs(html: Seq<char>) -> Seq<Seq<char>>;

/// Parses `body` with `scraper::Html::parse_document` and collects the
/// `href` attribute of each element that `scraper::Selector::parse("a[href]")`
/// selects, in the order in which `Html::select` yields them.
/// Claimed: the result is `html_link_hrefs` of the text.
#[verifier::external_body]
fn link_hrefs(body: &str) -> (hrefs: Vec<String>)
    ensures
        views(hrefs@) == html_link_hrefs(body@),
{
    let document = scraper::Html::parse_document(body);
    let mut hrefs = Vec::new();
    if let Ok(selector) = scraper::Selector::parse("a[href]") {
        for link in document.select(&selector) {
            hrefs.push(link.value().attr("href").unwrap_or("").to_string());
        }
    }
    hrefs
}

/// The URL of the search for addons titled `name`.
pub fn search_url(name: &str) -> (url: String)
    ensures
        url@ == search_url_of(name@),
{
    let base = concatenate("https://www.esoui.com/downloads/search.php", "?action=search&search=");
    let encoded = percent_encode(name);
    let with_name = concatenate(base.as_str(), encoded.as_str());
    concatenate(with_name.as_str(), "&titleonly=1")
}

/// Whether `url` is the URL of an addon's fileinfo page.
pub fn is_addon_page(url: &str) -> (r: bool)
    ensures
        r == is_addon_page_url(url@),
{
    contains(url, "/downloads/info") || contains(url, "fileinfo.php")
}

/// A link's target made absolute against esoui.com.
pub fn absolute_url(href: &str) -> (url: String)
    ensures
        url@ == absolute_url_of(href@),
{
    if starts_with(href, "http://") || starts_with(href, "https://") {
        href.to_owned()
    } else if starts_with(href, "/") {
        concatenate("https://www.esoui.com", href)
    } else {
        concatenate("https://www.esoui.com/downloads/", href)
    }
}

/// The first of the link targets that leads to an addon page, made absolute.
pub fn first_addon_link(hrefs: &Vec<String>) -> (r: Option<String>)
    ensures
        match r {
            Some(u) => first_addon_link_of(views(hrefs@)) == Some(u@),
            None => first_addon_link_of(views(hrefs@)) is None,
        },
{
    let ghost all = views(hrefs@);
    let mut i: usize = 0;
    assert(all.skip(0) == all);
    while i < hrefs.len()
        invariant
            i <= hrefs@.len(),
            all == views(hrefs@),
            first_addon_link_of(all) == first_addon_link_of(all.skip(i as int)),
        decreases hrefs.len() - i,
    {
        let ghost rest = all.skip(i as int);
        assert(rest[0] == hrefs@[i as int]@);
        if is_addon_page(hrefs[i].as_str()) {
            return Some(absolute_url(hrefs[i].as_str()));
        }
        assert(rest.drop_first() == all.skip(i + 1));
        i = i + 1;
    }
    None
}

/// The first addon page that an HTML page of search results links to.
pub fn addon_link_in_page(body: &str) -> (r: Option<String>)
    ensures
        match r {
            Some(u) => first_addon_link_of(html_link_hrefs(body@)) == Some(u@),
            None => first_addon_link_of(html_link_hrefs(body@)) is None,
        },
{
    let hrefs = link_hrefs(body);
    first_addon_link(&hrefs)
}

/// Where a search stands after a call of `search_addon`.
#[derive(Debug, PartialEq, Eq)]
pub enum SearchStep {
    /// Finished: the addon page, if the search found one.
    Found(Option<String>),
    /// The search did not land on an addon page: read the result page's HTML
    /// and call again with it.
    ReadBody,
}

/// The outcome of a search for an addon by (title) name with the classic
/// search form, from the URL at which the request for `search_url` ended and,
/// once asked for, the HTML of that page.
///
/// If the search resolves directly to a single addon fileinfo page (as
/// esoui.com does for exact/unique title matches), that page's URL is the
/// result. Otherwise the first addon fileinfo link of the result page is.
pub fn search_addon(final_url: &str, body: Option<&str>) -> (r: SearchStep)
    ensures
        if is_addon_page_url(final_url@) {
            r matches SearchStep::Found(Some(u)) && u@ == final_url@
        } else {
            match body {
                None => r is ReadBody,
                Some(page) => r matches SearchStep::Found(found) && match found {
                    Some(u) => first_addon_link_of(html_link_hrefs(page@)) == Some(u@),
                    None => first_addon_link_of(html_link_hrefs(page@)) is None,
                },
            }
        },
{
    if is_addon_page(final_url) {
        return SearchStep::Found(Some(final_url.to_owned()));
    }
    match body {
        None => SearchStep::ReadBody,
        Some(page) => SearchStep::Found(addon_link_in_page(page)),
    }
}

/// Putting text in front keeps what occurs in the rest.
proof fn lemma_substring_after_prefix(front: Seq<char>, s: Seq<char>, p: Seq<char>)
    requires
        has_substring(s, p),
    ensures
        has_substring(front + s, p),
{
    let i = choose|i: int| occurs_at(s, p, i);
    assert((front + s).subrange(i + front.len(), i + front.len() + p.len()) =~= s.subrange(i, i + p.len()));
    assert(occurs_at(front + s, p, i + front.len()));
}

/// Text that starts with `p` still does when more follows.
proof fn lemma_prefix_of_concat(p: Seq<char>, front: Seq<char>, s: Seq<char>)
    requires
        has_prefix(front, p),
    ensures
        has_prefix(front + s, p),
{
    assert((front + s).subrange(0, p.len() as int) =~= front.subrange(0, p.len() as int));
}

/// A link target made absolute is an absolute http(s) URL, and it leads to an
/// addon page where the target did.
pub proof fn law_absolute_url(href: Seq<char>)
    ensures
        has_prefix(absolute_url_of(href), "http://"@) || has_prefix(absolute_url_of(href), "https://"@),
        is_addon_page_url(href) ==> is_addon_page_url(absolute_url_of(href)),
{
    reveal_strlit("https://");
    reveal_strlit("https://www.esoui.com");
    reveal_strlit("https://www.esoui.com/downloads/");
    let front = if has_prefix(href, "http://"@) || has_prefix(href, "https://"@) {
        Seq::<char>::empty()
    } else if has_prefix(href, "/"@) {
        "https://www.esoui.com"@
    } else {
        "https://www.esoui.com/downloads/"@
    };
    if !(has_prefix(href, "http://"@) || has_prefix(href, "https://"@)) {
        assert(front.subrange(0, 8) =~= "https://"@);
        lemma_prefix_of_concat("https://"@, front, href);
    }
    assert(absolute_url_of(href) == front + href);
    if is_addon_page_url(href) {
        if has_substring(href, "/downloads/info"@) {
            lemma_substring_after_prefix(front, href, "/downloads/info"@);
        } else {
            lemma_substring_after_prefix(front, href, "fileinfo.php"@);
        }
    }
}

/// What a search result page yields is an absolute URL of an addon page.
pub proof fn law_found_link_is_absolute_addon_page(hrefs: Seq<Seq<char>>)
    ensures
        first_addon_link_of(hrefs) matches Some(u) ==> is_addon_page_url(u) && (has_prefix(
            u,
            "http://"@,
        ) || has_prefix(u, "https://"@)),
    decreases hrefs.len(),
{
    if hrefs.len() > 0 {
        if is_addon_page_url(hrefs[0]) {
            law_absolute_url(hrefs[0]);
        } else {
            law_found_link_is_absolute_addon_page(hrefs.drop_first());
        }
    }
}

/// The search result page yields the first link target that leads to an
/// addon page, made absolute, whatever form it is written in; it yields
/// nothing only where no target leads to an addon page.
pub proof fn law_first_addon_link(hrefs: Seq<Seq<char>>, k: int)
    ensures
        (0 <= k < hrefs.len() && is_addon_page_url(hrefs[k]) && forall|j: int|
            0 <= j < k ==> !is_addon_page_url(#[trigger] hrefs[j])) ==> first_addon_link_of(hrefs)
            == Some(absolute_url_of(hrefs[k])),
        (forall|j: int| 0 <= j < hrefs.len() ==> !is_addon_page_url(#[trigger] hrefs[j]))
            ==> first_addon_link_of(hrefs) is None,
    decreases hrefs.len(),
{
    if hrefs.len() > 0 {
        let rest = hrefs.drop_first();
        assert forall|j: int| 0 <= j < rest.len() implies rest[j] == hrefs[j + 1] by {}
        law_first_addon_link(rest, k - 1);
        if 0 <= k < hrefs.len() && is_addon_page_url(hrefs[k]) && forall|j: int|
            0 <= j < k ==> !is_addon_page_url(#[trigger] hrefs[j]) {
            if k > 0 {
                assert(!is_addon_page_url(hrefs[0]));
                assert(rest[k - 1] == hrefs[k]);
                assert forall|j: int| 0 <= j < k - 1 implies !is_addon_page_url(#[trigger] rest[j]) by {
                    assert(rest[j] == hrefs[j + 1]);
                }
            }
        }
        if forall|j: int| 0 <= j < hrefs.len() ==> !is_addon_page_url(#[trigger] hrefs[j]) {
            assert(!is_addon_page_url(hrefs[0]));
            assert forall|j: int| 0 <= j < rest.len() implies !is_addon_page_url(#[trigger] rest[j]) by {
                assert(rest[j] == hrefs[j + 1]);
            }
        }
    }
}

/// A target that is already an http(s) URL is kept as it is; any other
/// target ends up at the end of an https URL on www.esoui.com.
pub proof fn law_absolute_url_keeps_target(href: Seq<char>)
    ensures
        (has_prefix(href, "http://"@) || has_prefix(href, "https://"@)) ==> absolute_url_of(href)
            == href,
        !(has_prefix(href, "http://"@) || has_prefix(href, "https://"@)) ==> (has_prefix(
            absolute_url_of(href),
            "https://www.esoui.com/"@,
        ) && absolute_url_of(href).len() > href.len() && absolute_url_of(href).subrange(
            absolute_url_of(href).len() - href.len(),
            absolute_url_of(href).len() as int,
        ) == href),
{
    reveal_strlit("https://www.esoui.com/");
    reveal_strlit("https://www.esoui.com");
    reveal_strlit("https://www.esoui.com/downloads/");
    reveal_strlit("/");
    let u = absolute_url_of(href);
    if !(has_prefix(href, "http://"@) || has_prefix(href, "https://"@)) {
        let front = if has_prefix(href, "/"@) {
            "https://www.esoui.com"@
        } else {
            "https://www.esoui.com/downloads/"@
        };
        assert(u == front + href);
        assert(u.subrange(u.len() - href.len(), u.len() as int) =~= href);
        if has_prefix(href, "/"@) {
            assert(href[0] == "/"@.subrange(0, 1)[0]);
            assert(u.subrange(0, 22) =~= "https://www.esoui.com/"@);
        } else {
            assert(u.subrange(0, 22) =~= "https://www.esoui.com/"@);
        }
    }
}

/// A URL leads to an addon page exactly when `/downloads/info` or
/// `fileinfo.php` occurs in it.
pub proof fn law_addon_page_urls(url: Seq<char>)
    ensures
        is_addon_page_url(url) <==> (exists|k: int|
            0 <= k && k + 15 <= url.len() && #[trigger] url.subrange(k, k + 15) == "/downloads/info"@)
            || (exists|k: int|
            0 <= k && k + 12 <= url.len() && #[trigger] url.subrange(k, k + 12) == "fileinfo.php"@),
{
    reveal_strlit("/downloads/info");
    reveal_strlit("fileinfo.php");
    let a = "/downloads/info"@;
    let b = "fileinfo.php"@;
    assert(a.len() == 15);
    assert(b.len() == 12);
    if has_substring(url, a) {
        let k = choose|k: int| occurs_at(url, a, k);
        assert(url.subrange(k, k + 15) == a);
    }
    if has_substring(url, b) {
        let k = choose|k: int| occurs_at(url, b, k);
        assert(url.subrange(k, k + 12) == b);
    }
    if exists|k: int| 0 <= k && k + 15 <= url.len() && #[trigger] url.subrange(k, k + 15) == a {
        let k = choose|k: int| 0 <= k && k + 15 <= url.len() && #[trigger] url.subrange(k, k + 15) == a;
        assert(occurs_at(url, a, k));
    }
    if exists|k: int| 0 <= k && k + 12 <= url.len() && #[trigger] url.subrange(k, k + 12) == b {
        let k = choose|k: int| 0 <= k && k + 12 <= url.len() && #[trigger] url.subrange(k, k + 12) == b;
        assert(occurs_at(url, b, k));
    }
}

/// Where a relative link target leads: one starting with `/` is a path on
/// www.esoui.com, any other is relative to its downloads directory.
pub proof fn law_relative_targets(href: Seq<char>)
    ensures
        !(has_prefix(href, "http://"@) || has_prefix(href, "https://"@)) && href.len() > 0 && href[0]
            == '/' ==> absolute_url_of(href) == "https://www.esoui.com"@ + href,
        !(has_prefix(href, "http://"@) || has_prefix(href, "https://"@)) && (href.len() == 0
            || href[0] != '/') ==> absolute_url_of(href) == "https://www.esoui.com/downloads/"@
            + href,
{
    reveal_strlit("/");
    crate::text::law_prefix(href, "/"@);
}

} // verus!
