# ferrous

A small crawling framework in the style of Go Colly: register CSS-selector
callbacks, queue URLs, and let the crawl loop fetch pages through Zyte API.

- `src/` is the verified library (Verus):
  - `text.rs` — character-level helpers (trim, trailing-slash stripping,
    substring search, decimal text) proved against `Seq<char>` specs;
  - `crawler.rs` — `CrawlContext`, the matching of a page against the
    registered selectors, the gathering of what callbacks collected, and
    the `Frontier`, the crawl's state machine: deduplicating FIFO queue,
    concurrency limit, termination;
  - `element.rs` — matched elements and their text and attribute lookups
    (parsing and selector matching by `scraper`);
  - `zyte.rs` — Zyte API request bodies, status handling, body decoding
    and the retry rule;
  - `fetcher.rs` — `FetchError` and `AttemptError`; `output.rs` — the
    one-JSON-object-per-line output format; `stats.rs` — crawl statistics
    and summary;
  - `lib.rs` — the `Collector` builder.
- `app/` is the async runtime around it: reqwest, tokio tasks, the output
  file, logging, and firing the user callbacks.
- `tests/` exercise the library on concrete inputs.
