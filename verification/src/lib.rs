//! A small crawling framework: CSS-selector callbacks over fetched pages,
//! a deduplicating crawl frontier, and the request/response rules of the
//! page-fetching backends.

pub mod text;
pub mod crawler;
pub mod element;
pub mod fetcher;
pub mod output;
pub mod stats;
pub mod zyte;

pub use crawler::{CrawlContext, CrawlStep, Frontier, RegisteredCallback};
pub use element::Element;
pub use fetcher::FetchError;
pub use stats::Stats;
pub use zyte::ZyteMode;

use vstd::prelude::*;
use vstd::string::StringExecFns;
use crate::element::{selector_is_valid, selector_parses};

verus! {

/// The configuration of a crawl, built step by step: the Zyte API key, how
/// many pages may be fetched at once, the callbacks, where items are
/// written, the start URLs and the extraction mode.
pub struct Collector<C> {
    pub api_key: Option<String>,
    pub concurrency: usize,
    pub callbacks: Vec<RegisteredCallback<C>>,
    pub output_path: String,
    pub start_urls: Vec<String>,
    pub mode: ZyteMode,
}

impl<C> Collector<C> {
    /// Defaults: no API key, 4 concurrent fetches, no callbacks,
    /// `output.jsonl`, no start URL, HTTP mode.
    pub fn new() -> (c: Self)
        ensures
            c.api_key is None,
            c.concurrency == 4,
            c.callbacks@.len() == 0,
            c.output_path@ == "output.jsonl"@,
            c.start_urls@.len() == 0,
            c.mode == ZyteMode::Http,
    {
        Collector {
            api_key: None,
            concurrency: 4,
            callbacks: Vec::new(),
            output_path: String::from_str("output.jsonl"),
            start_urls: Vec::new(),
            mode: ZyteMode::Http,
        }
    }

    /// Sets the Zyte API authentication key.
    pub fn zyte_api_key(self, key: &str) -> (c: Self)
        ensures
            c.api_key matches Some(k) && k@ == key@,
            c.concurrency == self.concurrency,
            c.callbacks == self.callbacks,
            c.output_path == self.output_path,
            c.start_urls == self.start_urls,
            c.mode == self.mode,
    {
        let mut c = self;
        c.api_key = Some(String::from_str(key));
        c
    }

    /// Sets the maximum number of concurrent fetches.
    pub fn concurrency(self, n: usize) -> (c: Self)
        ensures
            c.concurrency == n,
            c.api_key == self.api_key,
            c.callbacks == self.callbacks,
            c.output_path == self.output_path,
            c.start_urls == self.start_urls,
            c.mode == self.mode,
    {
        let mut c = self;
        c.concurrency = n;
        c
    }

    /// Registers `callback` for every element matching the CSS selector
    /// group `selector`.
    pub fn on_html(self, selector: &str, callback: C) -> (c: Self)
        requires
            selector_parses(selector@),
        ensures
            c.callbacks@.len() == self.callbacks@.len() + 1,
            c.callbacks@.take(self.callbacks@.len() as int) == self.callbacks@,
            c.callbacks@.last().selector@ == selector@,
            c.callbacks@.last().callback == callback,
            c.api_key == self.api_key,
            c.concurrency == self.concurrency,
            c.output_path == self.output_path,
            c.start_urls == self.start_urls,
            c.mode == self.mode,
    {
        let mut c = self;
        c.callbacks.push(RegisteredCallback { selector: String::from_str(selector), callback });
        assert(c.callbacks@.take(self.callbacks@.len() as int) =~= self.callbacks@);
        c
    }

    /// Registers `callback` like `on_html` when `selector` is a valid CSS
    /// selector group; otherwise returns the collector unchanged and `false`.
    pub fn try_on_html(self, selector: &str, callback: C) -> (r: (Self, bool))
        ensures
            r.1 == selector_parses(selector@),
            r.1 ==> {
                &&& r.0.callbacks@.len() == self.callbacks@.len() + 1
                &&& r.0.callbacks@.take(self.callbacks@.len() as int) == self.callbacks@
                &&& r.0.callbacks@.last().selector@ == selector@
                &&& r.0.callbacks@.last().callback == callback
            },
            !r.1 ==> r.0.callbacks == self.callbacks,
            r.0.api_key == self.api_key,
            r.0.concurrency == self.concurrency,
            r.0.output_path == self.output_path,
            r.0.start_urls == self.start_urls,
            r.0.mode == self.mode,
    {
        if selector_is_valid(selector) {
            (self.on_html(selector, callback), true)
        } else {
            (self, false)
        }
    }

    /// Sets the path of the output file.
    pub fn output(self, path: &str) -> (c: Self)
        ensures
            c.output_path@ == path@,
            c.api_key == self.api_key,
            c.concurrency == self.concurrency,
            c.callbacks == self.callbacks,
            c.start_urls == self.start_urls,
            c.mode == self.mode,
    {
        let mut c = self;
        c.output_path = String::from_str(path);
        c
    }

    /// Adds a start URL.
    pub fn visit(self, url: &str) -> (c: Self)
        ensures
            c.start_urls@.len() == self.start_urls@.len() + 1,
            c.start_urls@.take(self.start_urls@.len() as int) == self.start_urls@,
            c.start_urls@.last()@ == url@,
            c.api_key == self.api_key,
            c.concurrency == self.concurrency,
            c.callbacks == self.callbacks,
            c.output_path == self.output_path,
            c.mode == self.mode,
    {
        let mut c = self;
        c.start_urls.push(String::from_str(url));
        assert(c.start_urls@.take(self.start_urls@.len() as int) =~= self.start_urls@);
        c
    }

    /// Sets how Zyte API renders pages.
    pub fn zyte_mode(self, mode: ZyteMode) -> (c: Self)
        ensures
            c.mode == mode,
            c.api_key == self.api_key,
            c.concurrency == self.concurrency,
            c.callbacks == self.callbacks,
            c.output_path == self.output_path,
            c.start_urls == self.start_urls,
    {
        let mut c = self;
        c.mode = mode;
        c
    }
}

impl<C> Default for Collector<C> {
    fn default() -> (c: Self)
        ensures
            c.api_key is None,
            c.concurrency == 4,
            c.callbacks@.len() == 0,
            c.output_path@ == "output.jsonl"@,
            c.start_urls@.len() == 0,
            c.mode == ZyteMode::Http,
    {
        Self::new()
    }
}

} // verus!
