use sticker_crawler::error::CrawlError;
use sticker_crawler::listing::{
    extract_author_page_urls, extract_next_button_href, hrefs_of, links_of, next_href_of,
    resolve_into, LinkSet,
};

#[test]
fn test_extract_author_page_urls() {
    let document = r#"
            <ul>
                <li class="mdCMN02Li" data-test="author-item">
                    <a href="/stickershop/product/32279/en">
                </li>
            </ul>
            <a class="mdCMN14Next" href="?page=2" data-test="next-btn">Next</a>
        "#;

    let actual = extract_author_page_urls(
        "https://store.line.me/stickershop/author/32/en",
        document,
    )
    .unwrap();

    assert_eq!(actual.len(), 2);
    assert!(actual.contains("https://store.line.me/stickershop/product/32279/en"));
    assert!(actual.contains("https://store.line.me/stickershop/author/32/en?page=2"));
}

fn entries(set: &LinkSet) -> Vec<String> {
    let mut all = Vec::new();
    let mut i = 0;
    while i < set.len() {
        all.push(set.link(i).clone());
        i += 1;
    }
    all
}

#[test]
fn listing_without_links_is_empty() {
    let actual = extract_author_page_urls("https://store.line.me/stickershop/author/32/en", "<div></div>")
        .unwrap();
    assert_eq!(actual.len(), 0);
    assert!(!actual.contains("https://store.line.me/stickershop/author/32/en"));
}

#[test]
fn listing_links_come_in_page_order_with_the_next_page_last() {
    let document = r#"
        <a href="?page=3" data-test="next-btn">Next</a>
        <ul>
            <li data-test="author-item"><a href="/stickershop/product/2/en">b</a></li>
            <li data-test="author-item"><a href="/stickershop/product/1/en">a</a></li>
        </ul>
    "#;
    let actual = extract_author_page_urls(
        "https://store.line.me/stickershop/author/32/en?page=2",
        document,
    )
    .unwrap();
    assert_eq!(
        entries(&actual),
        vec![
            "https://store.line.me/stickershop/product/2/en".to_string(),
            "https://store.line.me/stickershop/product/1/en".to_string(),
            "https://store.line.me/stickershop/author/32/en?page=3".to_string(),
        ]
    );
}

#[test]
fn listing_collapses_duplicates() {
    let document = r#"
        <ul>
            <li data-test="author-item"><a href="/stickershop/product/1/en">a</a></li>
            <li data-test="author-item"><a href="/stickershop/product/2/en">b</a></li>
            <li data-test="author-item"><a href="/stickershop/product/1/en">a again</a></li>
        </ul>
    "#;
    let actual = extract_author_page_urls("https://store.line.me/stickershop/author/32/en", document)
        .unwrap();
    assert_eq!(actual.len(), 2);
    assert!(actual.contains("https://store.line.me/stickershop/product/1/en"));
    assert!(actual.contains("https://store.line.me/stickershop/product/2/en"));
}

#[test]
fn listing_takes_the_first_anchor_of_each_item_only() {
    let document = r#"
        <ul>
            <li data-test="author-item">
                <a href="/stickershop/product/1/en">first</a>
                <a href="/stickershop/product/2/en">second</a>
            </li>
            <li data-test="author-item"><a>no href</a><a href="/stickershop/product/3/en">x</a></li>
            <li data-test="author-item">no anchor</li>
            <li data-test="other"><a href="/stickershop/product/4/en">not an item</a></li>
        </ul>
    "#;
    let actual = extract_author_page_urls("https://store.line.me/stickershop/author/32/en", document)
        .unwrap();
    assert_eq!(entries(&actual), vec!["https://store.line.me/stickershop/product/1/en".to_string()]);
}

#[test]
fn listing_fails_on_a_base_that_is_no_url() {
    let document = r#"<ul><li data-test="author-item"><a href="/a">a</a></li></ul>"#;
    let actual = extract_author_page_urls("not-a-url", document);
    assert_eq!(actual.err(), Some(CrawlError::InvalidUrl));

    let document = r#"<a href="?page=2" data-test="next-btn">Next</a>"#;
    let actual = extract_author_page_urls("not-a-url", document);
    assert_eq!(actual.err(), Some(CrawlError::InvalidUrl));

    let actual = extract_author_page_urls("not-a-url", "<div></div>").unwrap();
    assert_eq!(actual.len(), 0);
}

#[test]
fn next_button_href_is_found() {
    let document = r#"<a class="mdCMN14Next" href="?page=2" data-test="next-btn">Next</a>"#;
    assert_eq!(extract_next_button_href(document), Ok(Some("?page=2".to_string())));
}

#[test]
fn next_button_may_be_missing_or_without_href() {
    assert_eq!(extract_next_button_href("<div></div>"), Ok(None));
    assert_eq!(extract_next_button_href(r#"<a href="?page=2">Next</a>"#), Ok(None));
    assert_eq!(extract_next_button_href(r#"<a data-test="next-btn">Next</a>"#), Ok(None));
    let document = r#"<a data-test="next-btn">Next</a><a href="?page=9" data-test="next-btn">Next</a>"#;
    assert_eq!(extract_next_button_href(document), Ok(None));
}

#[test]
fn next_href_of_each_kind_of_match() {
    assert_eq!(next_href_of(&None), Err(CrawlError::Selector));
    assert_eq!(next_href_of(&Some(vec![])), Ok(None));
    assert_eq!(next_href_of(&Some(vec![None, Some("b".to_string())])), Ok(None));
    assert_eq!(
        next_href_of(&Some(vec![Some("a".to_string()), Some("b".to_string())])),
        Ok(Some("a".to_string()))
    );
}

#[test]
fn hrefs_of_takes_the_first_anchor_of_each_item() {
    let items = vec![
        vec![Some("a".to_string()), Some("b".to_string())],
        vec![],
        vec![None, Some("c".to_string())],
        vec![Some("d".to_string())],
    ];
    assert_eq!(hrefs_of(&items), vec!["a".to_string(), "d".to_string()]);
    assert_eq!(hrefs_of(&vec![]), Vec::<String>::new());
}

#[test]
fn links_of_reports_a_selector_failure() {
    let actual = links_of("https://store.line.me/a", &None, Ok(None));
    assert_eq!(actual.err(), Some(CrawlError::Selector));
    let actual = links_of("https://store.line.me/a", &Some(vec![]), Err(CrawlError::Selector));
    assert_eq!(actual.err(), Some(CrawlError::Selector));
}

#[test]
fn links_of_resolves_items_before_the_next_page() {
    let items = Some(vec![vec![Some("/p/1".to_string())], vec![Some("/p/2?x=1".to_string())]]);
    let actual = links_of("https://store.line.me/a?page=1", &items, Ok(Some("page=2".to_string())))
        .unwrap();
    assert_eq!(
        entries(&actual),
        vec![
            "https://store.line.me/p/1".to_string(),
            "https://store.line.me/p/2?x=1".to_string(),
            "https://store.line.me/a?page=2".to_string(),
        ]
    );
}

#[test]
fn resolve_into_adds_to_what_is_there() {
    let mut set = LinkSet::new();
    set.insert("https://store.line.me/p/1".to_string());
    let hrefs = vec!["/p/2".to_string(), "/p/1".to_string()];
    assert_eq!(resolve_into("https://store.line.me/a", &hrefs, &mut set), Ok(()));
    assert_eq!(
        entries(&set),
        vec!["https://store.line.me/p/1".to_string(), "https://store.line.me/p/2".to_string()]
    );
    assert_eq!(resolve_into("nothing", &hrefs, &mut set), Err(CrawlError::InvalidUrl));
    assert_eq!(set.len(), 2);
}

#[test]
fn link_set_holds_each_link_once() {
    let mut set = LinkSet::new();
    assert_eq!(set.len(), 0);
    assert!(!set.contains("a"));
    set.insert("a".to_string());
    set.insert("b".to_string());
    set.insert("a".to_string());
    assert_eq!(set.len(), 2);
    assert!(set.contains("a"));
    assert!(set.contains("b"));
    assert!(!set.contains("c"));
    assert!(!set.contains(""));
    assert_eq!(set.link(0), "a");
    assert_eq!(set.link(1), "b");
}
