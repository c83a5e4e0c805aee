use llm_bucket::wiki::{content_url, html_to_markdown, space_url, PageCollector, WikiPage};

fn page(title: &str) -> WikiPage {
    WikiPage { title: title.to_string(), body_html: String::new(), ancestors: vec![] }
}

fn batch(n: usize) -> Vec<WikiPage> {
    (0..n).map(|i| page(&format!("p{}", i))).collect()
}

#[test]
fn request_addresses() {
    assert_eq!(space_url("https://x.net/wiki/", "DOCS"), "https://x.net/wiki/rest/api/space/DOCS");
    assert_eq!(
        content_url("https://x.net/wiki", "DOCS", 200),
        "https://x.net/wiki/rest/api/content?spaceKey=DOCS&limit=100&start=200&expand=title,body.storage,ancestors"
    );
    assert_eq!(
        content_url("https://x.net/wiki//", "K", 0),
        "https://x.net/wiki/rest/api/content?spaceKey=K&limit=100&start=0&expand=title,body.storage,ancestors"
    );
}

#[test]
fn page_file_name_joins_ancestors_and_cleans_titles() {
    let p = WikiPage {
        title: "My: Page?".to_string(),
        body_html: String::new(),
        ancestors: vec!["Parent/Section".to_string(), "Team".to_string()],
    };
    assert_eq!(p.file_name(), "Parent_Section__Team__My_ Page.md");
}

#[test]
fn page_file_name_collapses_and_strips_underscores_and_dots() {
    let p = WikiPage { title: "a***b".to_string(), body_html: String::new(), ancestors: vec!["._Root_".to_string()] };
    assert_eq!(p.file_name(), "Root___a_b.md");
    let q = page("..hidden..");
    assert_eq!(q.file_name(), "hidden.md");
}

#[test]
fn page_from_fields_applies_defaults() {
    let p = WikiPage::from_fields(None, None, vec![Some("A".to_string()), None, Some("B".to_string())]);
    assert_eq!(p.title, "untitled");
    assert_eq!(p.body_html, "");
    assert_eq!(p.ancestors, vec!["A".to_string(), "B".to_string()]);
    assert_eq!(p.file_name(), "A__B__untitled.md");
}

#[test]
fn markdown_conversion() {
    let html = "<h1>Title</h1><p>Hello <b>world</b></p><ul><li>a</li></ul>";
    assert_eq!(html_to_markdown(html), "\n# Title\n\n\nHello world\n\n- a\n\n");
    assert_eq!(html_to_markdown("<h3>T</h3>x<br/>y<br>z"), "\n### T\nx\ny\nz");
    assert_eq!(html_to_markdown("a <> b < c"), "a <> b < c");
    assert_eq!(html_to_markdown("<a href=\"x\">link</a> <span\nclass=\"q\">t</span>"), "link t");
    assert_eq!(html_to_markdown(""), "");
}

#[test]
fn pagination_without_cap_stops_on_a_short_batch() {
    let mut c = PageCollector::new(None);
    assert_eq!(c.next_start(), Some(0));
    c.receive_batch(batch(100));
    assert_eq!(c.next_start(), Some(100));
    c.receive_batch(batch(30));
    assert_eq!(c.next_start(), None);
    assert_eq!(c.into_pages().len(), 130);
}

#[test]
fn pagination_with_cap_keeps_only_what_is_needed() {
    let mut c = PageCollector::new(Some(150));
    c.receive_batch(batch(100));
    assert_eq!(c.next_start(), Some(100));
    c.receive_batch(batch(100));
    assert_eq!(c.next_start(), None);
    let pages = c.into_pages();
    assert_eq!(pages.len(), 150);
    assert_eq!(pages[149].title, "p49");
}

#[test]
fn pagination_with_cap_of_ten() {
    let mut c = PageCollector::new(Some(10));
    c.receive_batch(batch(100));
    assert_eq!(c.next_start(), None);
    assert_eq!(c.into_pages().len(), 10);
}

#[test]
fn pagination_with_zero_cap_keeps_nothing() {
    let mut c = PageCollector::new(Some(0));
    c.receive_batch(batch(100));
    assert_eq!(c.next_start(), None);
    assert!(c.into_pages().is_empty());
}

#[test]
fn pagination_failure_keeps_what_was_gathered() {
    let mut c = PageCollector::new(None);
    c.receive_batch(batch(100));
    c.fail();
    assert_eq!(c.next_start(), None);
    assert_eq!(c.into_pages().len(), 100);
}
