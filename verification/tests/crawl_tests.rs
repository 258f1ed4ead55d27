use ferrous::crawler::{normalize_url, CrawlContext, CrawlStep, Frontier};

fn strings(v: &[&str]) -> Vec<String> {
    v.iter().map(|s| s.to_string()).collect()
}

fn fetch_url(step: CrawlStep) -> String {
    match step {
        CrawlStep::Fetch(u) => u,
        CrawlStep::Wait => panic!("expected a fetch, got wait"),
        CrawlStep::Finish => panic!("expected a fetch, got finish"),
    }
}

#[test]
fn normalize_strips_trailing_slashes() {
    assert_eq!(normalize_url("https://example.com/"), "https://example.com");
    assert_eq!(normalize_url("https://example.com/a///"), "https://example.com/a");
    assert_eq!(normalize_url("https://example.com/a"), "https://example.com/a");
    assert_eq!(normalize_url("///"), "");
    assert_eq!(normalize_url(""), "");
}

#[test]
fn normalize_is_idempotent() {
    for u in ["a/", "a//b//", "/", "x", "https://h/p/"] {
        let once = normalize_url(u);
        assert_eq!(normalize_url(&once), once);
        assert!(!once.ends_with('/'));
    }
}

#[test]
fn context_collects_normalized_visits_and_items() {
    let mut ctx = CrawlContext::new("https://example.com/page".to_string());
    assert_eq!(ctx.url(), "https://example.com/page");
    ctx.visit("https://example.com/next/");
    ctx.visit("https://example.com/other");
    ctx.push_item(serde_json::Value::String("item".to_string()));
    let (visits, items) = ctx.into_parts();
    assert_eq!(visits, strings(&["https://example.com/next", "https://example.com/other"]));
    assert_eq!(items, vec![serde_json::Value::String("item".to_string())]);
}

#[test]
fn frontier_seeds_normalized_and_deduplicated() {
    let start = strings(&["https://a.com/", "https://a.com", "https://b.com//"]);
    let mut f = Frontier::new(&start, 4);
    assert_eq!(f.queued(), 2);
    assert_eq!(fetch_url(f.next_step()), "https://a.com");
    assert_eq!(fetch_url(f.next_step()), "https://b.com");
    assert_eq!(f.in_flight(), 2);
    assert!(matches!(f.next_step(), CrawlStep::Wait));
}

#[test]
fn frontier_never_refetches_a_url() {
    let mut f = Frontier::new(&strings(&["https://a.com"]), 2);
    assert_eq!(fetch_url(f.next_step()), "https://a.com");
    f.enqueue(&strings(&["https://a.com", "https://b.com", "https://b.com", "https://c.com"]));
    assert_eq!(f.queued(), 2);
    f.release();
    assert_eq!(fetch_url(f.next_step()), "https://b.com");
    f.enqueue(&strings(&["https://a.com", "https://b.com"]));
    assert_eq!(f.queued(), 1);
    assert_eq!(fetch_url(f.next_step()), "https://c.com");
    f.release();
    f.release();
    assert!(matches!(f.next_step(), CrawlStep::Finish));
}

#[test]
fn frontier_waits_when_all_slots_are_busy() {
    let mut f = Frontier::new(&strings(&["u1", "u2"]), 1);
    assert_eq!(fetch_url(f.next_step()), "u1");
    assert!(matches!(f.next_step(), CrawlStep::Wait));
    assert_eq!(f.queued(), 1);
    f.release();
    assert_eq!(fetch_url(f.next_step()), "u2");
}

#[test]
fn frontier_waits_for_running_fetches_before_finishing() {
    let mut f = Frontier::new(&strings(&["u1"]), 3);
    assert_eq!(fetch_url(f.next_step()), "u1");
    assert!(matches!(f.next_step(), CrawlStep::Wait));
    f.release();
    assert!(matches!(f.next_step(), CrawlStep::Finish));
}

#[test]
fn frontier_with_no_start_urls_finishes_at_once() {
    let mut f = Frontier::new(&Vec::new(), 4);
    assert!(matches!(f.next_step(), CrawlStep::Finish));
}

#[test]
fn frontier_with_zero_concurrency_never_fetches() {
    let mut f = Frontier::new(&strings(&["u1"]), 0);
    assert!(matches!(f.next_step(), CrawlStep::Wait));
    assert!(matches!(f.next_step(), CrawlStep::Wait));
    assert_eq!(f.queued(), 1);
}

#[test]
fn item_lines_are_json_followed_by_newline() {
    let mut map = serde_json::Map::new();
    map.insert("title".to_string(), serde_json::Value::String("A \"B\"".to_string()));
    map.insert("price".to_string(), serde_json::Value::Null);
    let line = ferrous::output::item_line(&serde_json::Value::Object(map)).unwrap();
    assert_eq!(line, "{\"price\":null,\"title\":\"A \\\"B\\\"\"}\n");
    assert_eq!(ferrous::output::item_line(&serde_json::Value::from(3)).unwrap(), "3\n");
}

#[test]
fn fetched_urls_are_normalized() {
    let mut f = Frontier::new(&strings(&["https://a.com/x//"]), 1);
    assert_eq!(fetch_url(f.next_step()), "https://a.com/x");
}
