use eso_addons::search::{
    absolute_url, addon_link_in_page, first_addon_link, is_addon_page, search_addon, search_url,
    SearchStep,
};

#[test]
fn search_url_encodes_the_name() {
    assert_eq!(
        search_url("Lib Lazy Crafting"),
        "https://www.esoui.com/downloads/search.php?action=search&search=Lib%20Lazy%20Crafting&titleonly=1"
    );
}

#[test]
fn addon_pages_are_recognised() {
    assert!(is_addon_page("https://www.esoui.com/downloads/info1-SomeAddon.html"));
    assert!(is_addon_page("https://www.esoui.com/downloads/fileinfo.php?id=1"));
    assert!(!is_addon_page("https://www.esoui.com/downloads/search.php?search=x"));
    assert!(!is_addon_page(""));
}

#[test]
fn links_are_made_absolute() {
    assert_eq!(absolute_url("https://a/b"), "https://a/b");
    assert_eq!(absolute_url("http://a/b"), "http://a/b");
    assert_eq!(
        absolute_url("/downloads/info1-X.html"),
        "https://www.esoui.com/downloads/info1-X.html"
    );
    assert_eq!(
        absolute_url("info1-X.html"),
        "https://www.esoui.com/downloads/info1-X.html"
    );
}

#[test]
fn first_addon_link_skips_other_links() {
    let hrefs = vec![
        "/forums/".to_owned(),
        "info5-Five.html".to_owned(),
        "/downloads/info6-Six.html".to_owned(),
        "fileinfo.php?id=7".to_owned(),
    ];
    // A relative target without "/downloads/info" is no addon page.
    assert_eq!(
        first_addon_link(&hrefs),
        Some("https://www.esoui.com/downloads/info6-Six.html".to_owned())
    );
    assert_eq!(
        first_addon_link(&hrefs[3..].to_vec()),
        Some("https://www.esoui.com/downloads/fileinfo.php?id=7".to_owned())
    );
    assert_eq!(first_addon_link(&vec!["/forums/".to_owned()]), None);
    assert_eq!(first_addon_link(&Vec::new()), None);
}

#[test]
fn result_page_links_are_read_from_html() {
    let page = r#"<html><body>
        <a name="top">no target</a>
        <a href="/forums/">Forums</a>
        <a href="/downloads/info7-Seven.html">Seven</a>
        <a href="/downloads/info8-Eight.html">Eight</a>
    </body></html>"#;
    assert_eq!(
        addon_link_in_page(page),
        Some("https://www.esoui.com/downloads/info7-Seven.html".to_owned())
    );
    assert_eq!(addon_link_in_page("<p>nothing here</p>"), None);
}

#[test]
fn search_uses_redirect_first() {
    assert_eq!(
        search_addon("https://www.esoui.com/downloads/info1-X.html", None),
        SearchStep::Found(Some("https://www.esoui.com/downloads/info1-X.html".to_owned()))
    );
    let results = "https://www.esoui.com/downloads/search.php?search=X";
    assert_eq!(search_addon(results, None), SearchStep::ReadBody);
    assert_eq!(
        search_addon(results, Some(r#"<a href="fileinfo.php?id=3">X</a>"#)),
        SearchStep::Found(Some("https://www.esoui.com/downloads/fileinfo.php?id=3".to_owned()))
    );
    assert_eq!(search_addon(results, Some("<p></p>")), SearchStep::Found(None));
}
