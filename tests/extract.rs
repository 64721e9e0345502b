use rust_crawler::challenge::{classify_page, detect_challenge, failure_log_line, PageVerdict};
use rust_crawler::content::{
    extract_content, extract_emails, extract_images, extract_open_graph,
    extract_outbound_links, extract_phone_numbers, extract_schema_org, extract_website_data,
};
use rust_crawler::serp::{cap_results, generic_crawl, parse_bing, parse_google, SearchResult};

fn result(i: usize) -> SearchResult {
    SearchResult { title: format!("t{}", i), link: format!("https://r{}.example/", i), snippet: String::new() }
}

fn padded(body: &str) -> String {
    format!("<html><head><title>x</title></head><body>{}<div>{}</div></body></html>", body, "z".repeat(60000))
}

#[test]
fn emails_are_deduplicated() {
    assert_eq!(extract_emails("contact a@b.com or a@b.com"), vec!["a@b.com".to_string()]);
    assert_eq!(
        extract_emails("x@y.org, Z.Q@host.co.uk x@y.org"),
        vec!["x@y.org".to_string(), "Z.Q@host.co.uk".to_string()]
    );
    assert!(extract_emails("no address here").is_empty());
}

#[test]
fn phone_numbers_are_filtered_and_deduplicated() {
    let found = extract_phone_numbers("call +1 555 123 4567 or +1 555 123 4567, room 12");
    assert_eq!(found, vec!["+1 555 123 4567".to_string()]);
}

#[test]
fn more_than_ten_candidates_are_cut_to_ten() {
    let capped = cap_results((0..12).map(result).collect());
    assert_eq!(capped.len(), 10);
    assert_eq!(capped[0].title, "t0");
    assert_eq!(capped[9].title, "t9");
    assert_eq!(cap_results((0..3).map(result).collect()).len(), 3);
}

#[test]
fn generic_crawl_reads_selected_text() {
    let html = "<html><head><title>Page</title></head><body><h1>Hello</h1></body></html>";
    let selectors = Some(vec![("title".to_string(), "h1".to_string())]);
    let d = generic_crawl("http://example.test", html, &selectors);
    assert_eq!(d.results.len(), 1);
    assert!(d.results[0].snippet.contains("Hello"));
    assert_eq!(d.results[0].snippet, "--- title ---\nHello\n");
    assert_eq!(d.results[0].link, "http://example.test");
    assert_eq!(d.total_results.as_deref(), Some("1"));
}

#[test]
fn generic_crawl_without_selectors_dumps_title() {
    let html = "<html><head><title>Page</title></head><body><h1>Hello</h1></body></html>";
    let d = generic_crawl("http://example.test", html, &None);
    assert_eq!(d.results[0].snippet, "No selectors provided. Dumping title.\nPage");
}

#[test]
fn unusual_traffic_is_a_challenge_whatever_the_results() {
    let html = padded("<p>Our systems have detected Unusual Traffic from your network</p>");
    assert!(detect_challenge(&html));
    assert_eq!(classify_page(&html, 0), PageVerdict::ChallengeDetected);
    assert_eq!(classify_page(&html, 7), PageVerdict::ChallengeDetected);
}

#[test]
fn small_and_empty_pages_are_classified() {
    assert_eq!(classify_page("<html><body>tiny</body></html>", 3), PageVerdict::PageTooSmall);
    let big = padded("<p>ordinary</p>");
    assert_eq!(classify_page(&big, 0), PageVerdict::EmptyResult);
    assert_eq!(classify_page(&big, 2), PageVerdict::Results);
    assert_eq!(PageVerdict::PageTooSmall.reason(), "page_too_small");
}

#[test]
fn failure_line_is_json() {
    let line = failure_log_line("2024-01-01T00:00:00Z", "bing", "rust", "page_too_small", 1234);
    assert_eq!(
        line,
        "{\"timestamp\":\"2024-01-01T00:00:00Z\",\"engine\":\"bing\",\"keyword\":\"rust\",\"reason\":\"page_too_small\",\"html_len\":1234}\n"
    );
}

#[test]
fn bing_page_is_read() {
    let html = r#"<html><body><ol id="b_results">
        <li class="b_algo"><h2><a href="https://one.example/">One</a></h2><p>first snippet</p></li>
        <li class="b_algo"><h2>no link here</h2><p>skipped</p></li>
        <li class="b_algo"><h2><a href="https://two.example/">Two</a></h2></li>
        </ol><span class="sb_count">About 2 results</span>
        <div class="b_rs"><ul><li><a>related one</a></li></ul></div></body></html>"#;
    let d = parse_bing(html);
    assert_eq!(d.results.len(), 2);
    assert_eq!(d.results[0].title, "One");
    assert_eq!(d.results[0].link, "https://one.example/");
    assert_eq!(d.results[0].snippet, "first snippet");
    assert_eq!(d.results[1].snippet, "");
    assert_eq!(d.total_results.as_deref(), Some("About 2 results"));
    assert_eq!(d.related_searches, vec!["related one".to_string()]);
}

#[test]
fn google_page_is_completed() {
    let html = r#"<html><body><div id="result-stats">About 9 results</div>
        <div class="related-question-pair"><span class="s75CSd">Why?</span></div>
        <a class="k8XOCe">rust book</a><a class="k8XOCe">abc</a>
        <div class="c2xzTb">Answer text</div></body></html>"#;
    let d = parse_google(html, (0..11).map(result).collect());
    assert_eq!(d.results.len(), 10);
    assert_eq!(d.people_also_ask, vec!["Why?".to_string()]);
    assert_eq!(d.related_searches, vec!["Why?".to_string(), "rust book".to_string()]);
    assert_eq!(d.total_results.as_deref(), Some("About 9 results"));
    assert_eq!(d.featured_snippet.unwrap().content, "Answer text");
}

#[test]
fn page_metadata_is_extracted() {
    let html = r#"<html><head><title>T</title>
        <meta name="description" content="desc"><meta name="author" content="Ann">
        <meta property="og:title" content="OG T"><meta property="og:type" content="article">
        <script type="application/ld+json">{"@type": "Article"}</script>
        <script type="application/ld+json">{not json</script>
        </head><body>
        <img src="/images/photo-large.png" alt="photo"><img src="https://cdn.example/pixel.gif">
        <img data-src="https://cdn.example/lazy-image.jpg" title="lazy">
        <a href="https://other.example/a">x</a><a href="https://other.example/a">dup</a>
        <a href="https://site.example/self">self</a><a href="/relative">rel</a>
        <p>Mail me at info@site.example</p></body></html>"#;
    let og = extract_open_graph(html);
    assert_eq!(og.0.as_deref(), Some("OG T"));
    assert_eq!(og.1, None);
    assert_eq!(og.3.as_deref(), Some("article"));
    assert_eq!(extract_schema_org(html).len(), 1);
    let images = extract_images(html, "https://site.example");
    assert_eq!(images.len(), 2);
    assert_eq!(images[0].src, "https://site.example/images/photo-large.png");
    assert_eq!(images[0].alt.as_deref(), Some("photo"));
    assert_eq!(images[1].src, "https://cdn.example/lazy-image.jpg");
    assert_eq!(images[1].title.as_deref(), Some("lazy"));
    assert_eq!(extract_outbound_links(html, "site.example"), vec!["https://other.example/a".to_string()]);
    let mentions = r#"<a href="https://other.example/?ref=site.example">m</a><a href="https://site.example/x">s</a>"#;
    assert_eq!(
        extract_outbound_links(mentions, "site.example"),
        vec!["https://other.example/?ref=site.example".to_string()]
    );
    assert_eq!(extract_outbound_links(mentions, "").len(), 2);
    let w = extract_website_data("https://site.example/", "https://site.example/page", "T", html, "fallback body text");
    assert_eq!(w.meta_description.as_deref(), Some("desc"));
    assert_eq!(w.meta_author.as_deref(), Some("Ann"));
    assert_eq!(w.emails, vec!["info@site.example".to_string()]);
    assert_eq!(w.outbound_links, vec!["https://other.example/a".to_string()]);
    assert_eq!(w.images.len(), 2);
    assert_eq!(w.schema_org.len(), 1);
    assert!(w.word_count > 0);
    assert_eq!(w.html_size as usize, html.len());
    let c = extract_content("https://site.example/page", html, "visible");
    assert_eq!(c.meta_author.as_deref(), Some("Ann"));
    assert!(!c.text.is_empty());
    assert!(!c.text.contains("<meta"));
    assert!(!w.main_text.contains("<meta"));
}

#[test]
fn page_size_counts_bytes() {
    let w = extract_website_data("https://a.example/", "https://a.example/", "", "\u{e9}", "");
    assert_eq!(w.html_size, 2);
    let big = format!("<p>{}</p>", "\u{e9}".repeat(26000));
    assert_eq!(classify_page(&big, 1), PageVerdict::Results);
}

#[test]
fn content_falls_back_to_visible_text() {
    let c = extract_content("not a url", "<html><body><p>x</p></body></html>", "the visible text");
    assert_eq!(c.text, "the visible text");
}

#[test]
fn record_url_is_unwrapped() {
    let link = "https://www.google.com/url?url=https%3A%2F%2Fdest.example%2Fp&sa=U";
    let w = extract_website_data(link, "https://dest.example/p", "", "<html></html>", "");
    assert_eq!(w.url, "https://dest.example/p");
}

#[test]
fn phone_length_counts_bytes() {
    // six characters, two of them em spaces: ten bytes
    let found = extract_phone_numbers("call 1\u{2003}2\u{2003}34 now");
    assert_eq!(found, vec!["1\u{2003}2\u{2003}34".to_string()]);
}

#[test]
fn image_length_counts_bytes() {
    // nine characters, eleven bytes
    let html = "<html><body><img src=\"/a\u{e9}\u{e9}.png\"></body></html>";
    let images = extract_images(html, "https://s.example");
    assert_eq!(images.len(), 1);
    assert_eq!(images[0].src, "https://s.example/a\u{e9}\u{e9}.png");
}
