//! Crawl bookkeeping: the per-callback context that collects visits and
//! items, and the frontier that decides, step by step, which page to fetch
//! next, which discovered URLs are new, and when the crawl is over.

use vstd::prelude::*;
use std::collections::VecDeque;
use crate::text::{strip_slashes, strip_trailing_slashes, texts};
use crate::element::{document_matches, select_document, selector_parses, Element};

verus! {

/// A JSON value produced by a callback; carried through unchanged.
#[verifier::external_type_specification]
#[verifier::external_body]
pub struct ExJsonValue(serde_json::Value);

/// A callback registered for the elements that match a CSS selector group.
pub struct RegisteredCallback<C> {
    pub selector: String,
    pub callback: C,
}

/// The canonical form of a URL: its text without trailing slashes.
pub open spec fn normalized(url: Seq<char>) -> Seq<char> {
    strip_trailing_slashes(url)
}

/// Canonical form of a URL used for deduplication: trailing `/` removed.
pub fn normalize_url(url: &str) -> (r: String)
    ensures
        r@ == normalized(url@),
        r@.len() <= url@.len(),
        url@.take(r@.len() as int) == r@,
        forall|i: int| r@.len() <= i < url@.len() ==> #[trigger] url@[i] == '/',
        r@.len() > 0 ==> r@.last() != '/',
{
    proof {
        law_normalize_strips_only_trailing_slashes(url@);
        law_normalize_idempotent(url@);
    }
    strip_slashes(url)
}

/// Normalizing only removes trailing slashes: the normalized URL is a
/// prefix of the URL and everything after it is `/`.
pub proof fn law_normalize_strips_only_trailing_slashes(url: Seq<char>)
    ensures
        normalized(url).len() <= url.len(),
        url.take(normalized(url).len() as int) == normalized(url),
        forall|i: int| normalized(url).len() <= i < url.len() ==> #[trigger] url[i] == '/',
    decreases url.len(),
{
    if url.len() > 0 && url.last() == '/' {
        let d = url.drop_last();
        law_normalize_strips_only_trailing_slashes(d);
        let n = normalized(url);
        assert(n == normalized(d));
        assert(url.take(n.len() as int) =~= d.take(n.len() as int));
        assert forall|i: int| n.len() <= i < url.len() implies #[trigger] url[i] == '/' by {
            if i < d.len() {
                assert(d[i] == url[i]);
            }
        }
    } else {
        assert(url.take(url.len() as int) =~= url);
    }
}

/// For a selector that parses, the elements handed to its callback are all
/// of scraper's matches, in scraper's order; for one that does not, none.
pub proof fn law_matches_are_all_document_matches(doc: &scraper::Html, selector: Seq<char>)
    ensures
        selector_parses(selector) ==> matches_of(doc, selector) == document_matches(doc, selector),
        !selector_parses(selector) ==> matches_of(doc, selector).len() == 0,
{
}

/// Every URL of `urls` is in normalized form.
pub open spec fn all_normalized(urls: Seq<Seq<char>>) -> bool {
    forall|i: int| 0 <= i < urls.len() ==> normalized(#[trigger] urls[i]) == urls[i]
}

/// Per-callback context. Collects visits and items locally; the crawl loop
/// flushes them after all callbacks of a page have run.
pub struct CrawlContext {
    current_url: String,
    pending_visits: Vec<String>,
    pending_items: Vec<serde_json::Value>,
}

impl CrawlContext {
    /// The queued visits are always in normalized form.
    #[verifier::type_invariant]
    spec fn visits_normalized(self) -> bool {
        all_normalized(texts(self.pending_visits@))
    }

    /// The URL whose page is being processed.
    pub closed spec fn page_url(&self) -> Seq<char> {
        self.current_url@
    }

    /// The URLs queued so far by `visit`, already normalized.
    pub closed spec fn visits(&self) -> Seq<Seq<char>> {
        texts(self.pending_visits@)
    }

    /// The items pushed so far by `push_item`, in order.
    pub closed spec fn items(&self) -> Seq<serde_json::Value> {
        self.pending_items@
    }

    /// A fresh context for the page at `current_url`.
    pub fn new(current_url: String) -> (ctx: Self)
        ensures
            ctx.page_url() == current_url@,
            ctx.visits() == Seq::<Seq<char>>::empty(),
            ctx.items() == Seq::<serde_json::Value>::empty(),
    {
        let ctx = CrawlContext {
            current_url,
            pending_visits: Vec::new(),
            pending_items: Vec::new(),
        };
        assert(ctx.visits() =~= Seq::<Seq<char>>::empty());
        ctx
    }

    /// The URL of the page currently being processed.
    pub fn url(&self) -> (u: &str)
        ensures
            u@ == self.page_url(),
    {
        self.current_url.as_str()
    }

    /// Queues `url`, in normalized form, for crawling.
    pub fn visit(&mut self, url: &str)
        ensures
            final(self).visits() == old(self).visits().push(normalized(url@)),
            final(self).items() == old(self).items(),
            final(self).page_url() == old(self).page_url(),
    {
        proof {
            use_type_invariant(&*self);
            law_normalize_idempotent(url@);
        }
        let n = normalize_url(url);
        let mut visits: Vec<String> = Vec::new();
        std::mem::swap(&mut visits, &mut self.pending_visits);
        let ghost before = visits@;
        visits.push(n);
        proof {
            assert(before == old(self).pending_visits@);
            assert(texts(visits@) =~= texts(before).push(n@));
            assert forall|i: int| 0 <= i < texts(visits@).len() implies normalized(#[trigger] texts(visits@)[i])
                == texts(visits@)[i] by {
                if i < texts(before).len() {
                    assert(texts(visits@)[i] == texts(before)[i]);
                }
            }
        }
        self.pending_visits = visits;
        assert(self.visits() =~= old(self).visits().push(normalized(url@)));
    }

    /// Records an item to be written to the output.
    pub fn push_item(&mut self, value: serde_json::Value)
        ensures
            final(self).items() == old(self).items().push(value),
            final(self).visits() == old(self).visits(),
            final(self).page_url() == old(self).page_url(),
    {
        proof {
            use_type_invariant(&*self);
        }
        let mut items: Vec<serde_json::Value> = Vec::new();
        std::mem::swap(&mut items, &mut self.pending_items);
        items.push(value);
        self.pending_items = items;
    }

    /// Hands out the collected visits and items.
    pub fn into_parts(self) -> (parts: (Vec<String>, Vec<serde_json::Value>))
        ensures
            texts(parts.0@) == self.visits(),
            parts.1@ == self.items(),
            all_normalized(texts(parts.0@)),
    {
        proof {
            use_type_invariant(&self);
        }
        (self.pending_visits, self.pending_items)
    }
}


/// The nodes of a list of elements.
pub open spec fn element_nodes<'a>(v: Seq<Element<'a>>) -> Seq<scraper::ElementRef<'a>> {
    v.map_values(|e: Element<'a>| e.node())
}

/// The elements of `doc` that `selector` matches, in the order scraper's
/// `Html::select` yields them (the order the parser created them); none
/// for a selector that does not parse.
pub open spec fn matches_of<'a>(doc: &'a scraper::Html, selector: Seq<char>) -> Seq<scraper::ElementRef<'a>> {
    if selector_parses(selector) {
        document_matches(doc, selector)
    } else {
        Seq::empty()
    }
}

/// For each registered callback, in registration order, the elements of
/// the page `doc` that its selector matches, in the order scraper's
/// `Html::select` yields them (the order the parser created them): the
/// elements on which the callback is to be fired.
pub fn page_matches<'a, C>(doc: &'a scraper::Html, callbacks: &Vec<RegisteredCallback<C>>) -> (m: Vec<Vec<Element<'a>>>)
    ensures
        m@.len() == callbacks@.len(),
        forall|i: int| 0 <= i < m@.len() ==> #[trigger] element_nodes(m@[i]@) == matches_of(doc, callbacks@[i].selector@),
        forall|i: int|
            0 <= i < m@.len() && selector_parses(callbacks@[i].selector@) ==> #[trigger] m@[i]@.len()
                == document_matches(doc, callbacks@[i].selector@).len() && element_nodes(m@[i]@) == document_matches(
                doc,
                callbacks@[i].selector@,
            ),
        forall|i: int| 0 <= i < m@.len() && !selector_parses(callbacks@[i].selector@) ==> #[trigger] m@[i]@.len() == 0,
{
    let mut m: Vec<Vec<Element<'a>>> = Vec::new();
    let n = callbacks.len();
    for i in 0..n
        invariant
            n == callbacks@.len(),
            m@.len() == i,
            forall|k: int| 0 <= k < i ==> #[trigger] element_nodes(m@[k]@) == matches_of(doc, callbacks@[k].selector@),
    {
        let mut els: Vec<Element<'a>> = Vec::new();
        match select_document(doc, callbacks[i].selector.as_str()) {
            Some(found) => {
                let f = found.len();
                for j in 0..f
                    invariant
                        f == found@.len(),
                        element_nodes(els@) == found@.take(j as int),
                {
                    let ghost before = els@;
                    let e = Element::from_element_ref(found[j]);
                    els.push(e);
                    assert(els@ == before.push(e));
                    assert(element_nodes(els@) =~= element_nodes(before).push(e.node()));
                    assert(element_nodes(els@) =~= found@.take(j + 1));
                }
                assert(found@.take(f as int) =~= found@);
            },
            None => {
                assert(element_nodes(els@) =~= Seq::<scraper::ElementRef<'a>>::empty());
            },
        }
        m.push(els);
    }
    proof {
        assert forall|i: int| 0 <= i < m@.len() && selector_parses(callbacks@[i].selector@) implies #[trigger] m@[i]@.len()
            == document_matches(doc, callbacks@[i].selector@).len() && element_nodes(m@[i]@) == document_matches(
            doc,
            callbacks@[i].selector@,
        ) by {
            law_matches_are_all_document_matches(doc, callbacks@[i].selector@);
            assert(element_nodes(m@[i]@) == matches_of(doc, callbacks@[i].selector@));
            assert(element_nodes(m@[i]@).len() == m@[i]@.len());
        }
        assert forall|i: int| 0 <= i < m@.len() && !selector_parses(callbacks@[i].selector@) implies #[trigger] m@[i]@.len()
            == 0 by {
            law_matches_are_all_document_matches(doc, callbacks@[i].selector@);
            assert(element_nodes(m@[i]@) == matches_of(doc, callbacks@[i].selector@));
            assert(element_nodes(m@[i]@).len() == m@[i]@.len());
        }
    }
    m
}

/// The visits of each context, concatenated in order.
pub open spec fn all_visits(cs: Seq<CrawlContext>) -> Seq<Seq<char>>
    decreases cs.len(),
{
    if cs.len() == 0 {
        Seq::empty()
    } else {
        cs[0].visits() + all_visits(cs.drop_first())
    }
}

/// The items of each context, concatenated in order.
pub open spec fn all_items(cs: Seq<CrawlContext>) -> Seq<serde_json::Value>
    decreases cs.len(),
{
    if cs.len() == 0 {
        Seq::empty()
    } else {
        cs[0].items() + all_items(cs.drop_first())
    }
}

/// Gathers what the callbacks of one page collected: all visits and all
/// items, context after context, each in the order it was recorded.
pub fn gather(contexts: Vec<CrawlContext>) -> (parts: (Vec<String>, Vec<serde_json::Value>))
    ensures
        texts(parts.0@) == all_visits(contexts@),
        parts.1@ == all_items(contexts@),
        all_normalized(texts(parts.0@)),
{
    let ghost all = contexts@;
    let mut rest = contexts;
    let mut visits: Vec<String> = Vec::new();
    let mut items: Vec<serde_json::Value> = Vec::new();
    assert(texts(visits@) + all_visits(rest@) =~= all_visits(all));
    assert(items@ + all_items(rest@) =~= all_items(all));
    while rest.len() > 0
        invariant
            texts(visits@) + all_visits(rest@) == all_visits(all),
            items@ + all_items(rest@) == all_items(all),
            all_normalized(texts(visits@)),
        decreases rest@.len(),
    {
        let ghost before_rest = rest@;
        let ghost before_visits = visits@;
        let ghost before_items = items@;
        let ctx = rest.remove(0);
        assert(rest@ =~= before_rest.drop_first());
        let (mut v, mut it) = ctx.into_parts();
        let ghost vv = v@;
        visits.append(&mut v);
        items.append(&mut it);
        proof {
            assert(texts(visits@) =~= texts(before_visits) + texts(vv));
            assert(all_visits(before_rest) == ctx.visits() + all_visits(rest@));
            assert(texts(visits@) + all_visits(rest@) =~= texts(before_visits) + all_visits(before_rest));
            assert(all_items(before_rest) == ctx.items() + all_items(rest@));
            assert(items@ + all_items(rest@) =~= before_items + all_items(before_rest));
            assert forall|i: int| 0 <= i < texts(visits@).len() implies normalized(#[trigger] texts(visits@)[i])
                == texts(visits@)[i] by {
                if i < before_visits.len() {
                    assert(texts(visits@)[i] == texts(before_visits)[i]);
                } else {
                    assert(texts(visits@)[i] == texts(vv)[i - before_visits.len()]);
                }
            }
        }
    }
    assert(all_visits(rest@) =~= Seq::<Seq<char>>::empty());
    assert(all_items(rest@) =~= Seq::<serde_json::Value>::empty());
    assert(texts(visits@) + Seq::<Seq<char>>::empty() =~= texts(visits@));
    assert(items@ + Seq::<serde_json::Value>::empty() =~= items@);
    (visits, items)
}

/// Admits the URLs of `visits`, in order, into a crawl whose ever-seen URLs
/// are `seen` and whose queue is `queue`: a URL not yet seen is appended to
/// both; a URL already seen is dropped. Returns the new `(seen, queue)`.
pub open spec fn admit_all(seen: Seq<Seq<char>>, queue: Seq<Seq<char>>, visits: Seq<Seq<char>>) -> (
    Seq<Seq<char>>,
    Seq<Seq<char>>,
)
    decreases visits.len(),
{
    if visits.len() == 0 {
        (seen, queue)
    } else {
        let (s, q) = admit_all(seen, queue, visits.drop_last());
        let v = visits.last();
        if s.contains(v) {
            (s, q)
        } else {
            (s.push(v), q.push(v))
        }
    }
}

/// What the crawl loop does next.
pub enum CrawlStep {
    /// Fetch this URL and process its page; call `Frontier::release` when done.
    Fetch(String),
    /// Nothing can be started now; wait for a running fetch to finish.
    Wait,
    /// The queue is empty and no fetch is running: the crawl is complete.
    Finish,
}

/// The crawl frontier: the FIFO queue of URLs still to fetch, every URL ever
/// admitted (for deduplication), and the number of fetches in flight.
pub struct Frontier {
    queue: VecDeque<String>,
    seen: Vec<String>,
    in_flight: usize,
    concurrency: usize,
    fetched: Ghost<Seq<Seq<char>>>,
    offered: Ghost<Seq<Seq<char>>>,
}

impl Frontier {
    /// URLs waiting to be fetched, oldest first.
    pub closed spec fn pending(&self) -> Seq<Seq<char>> {
        texts(self.queue@)
    }

    /// Every URL admitted so far, in order of admission.
    pub closed spec fn seen_urls(&self) -> Seq<Seq<char>> {
        texts(self.seen@)
    }

    /// URLs handed out for fetching so far, in order.
    pub closed spec fn fetched(&self) -> Seq<Seq<char>> {
        self.fetched@
    }

    /// Every URL offered for admission so far: the normalized start URLs,
    /// then each URL passed to `enqueue`, in order.
    pub closed spec fn offers(&self) -> Seq<Seq<char>> {
        self.offered@
    }

    /// Number of fetches started and not yet released.
    pub closed spec fn running(&self) -> nat {
        self.in_flight as nat
    }

    /// Maximum number of fetches in flight at once.
    pub closed spec fn limit(&self) -> nat {
        self.concurrency as nat
    }

    /// Well-formedness: every admitted URL was either fetched or is still
    /// queued (in admission order), none twice, and the number of fetches in
    /// flight is within the limit.
    pub closed spec fn wf(&self) -> bool {
        &&& self.seen_urls() == self.fetched() + self.pending()
        &&& self.seen_urls().no_duplicates()
        &&& self.in_flight <= self.concurrency
        &&& forall|i: int| 0 <= i < self.seen_urls().len() ==> self.offers().contains(#[trigger] self.seen_urls()[i])
        &&& all_normalized(self.offers())
    }

    /// Whether `url` has been admitted already.
    fn has_seen(&self, url: &String) -> (b: bool)
        ensures
            b == self.seen_urls().contains(url@),
    {
        let mut i: usize = 0;
        while i < self.seen.len()
            invariant
                i <= self.seen@.len(),
                forall|k: int| 0 <= k < i ==> #[trigger] self.seen@[k]@ != url@,
            decreases self.seen@.len() - i,
        {
            if self.seen[i] == *url {
                assert(self.seen_urls()[i as int] == url@);
                return true;
            }
            i = i + 1;
        }
        proof {
            if self.seen_urls().contains(url@) {
                let k = choose|k: int| 0 <= k < self.seen_urls().len() && self.seen_urls()[k] == url@;
                assert(self.seen@[k]@ == url@);
            }
        }
        false
    }

    /// Admits `url` unless it was seen before.
    fn take_in(&mut self, url: &String)
        requires
            old(self).wf(),
            old(self).offers().contains(url@),
        ensures
            final(self).wf(),
            (final(self).seen_urls(), final(self).pending()) == (if old(self).seen_urls().contains(url@) {
                (old(self).seen_urls(), old(self).pending())
            } else {
                (old(self).seen_urls().push(url@), old(self).pending().push(url@))
            }),
            final(self).fetched() == old(self).fetched(),
            final(self).offers() == old(self).offers(),
            final(self).running() == old(self).running(),
            final(self).limit() == old(self).limit(),
    {
        if !self.has_seen(url) {
            self.seen.push(url.clone());
            self.queue.push_back(url.clone());
            proof {
                assert(self.seen_urls() =~= old(self).seen_urls().push(url@));
                assert(self.pending() =~= old(self).pending().push(url@));
                assert(self.seen_urls() =~= self.fetched() + self.pending());
                lemma_push_fresh_no_duplicates(old(self).seen_urls(), url@);
            }
        }
    }

    /// Admits each URL of `urls`, in order, that was not seen before; URLs
    /// seen before, or repeated within `urls`, are dropped.
    pub fn enqueue(&mut self, urls: &Vec<String>)
        requires
            old(self).wf(),
            all_normalized(texts(urls@)),
        ensures
            final(self).wf(),
            (final(self).seen_urls(), final(self).pending()) == admit_all(
                old(self).seen_urls(),
                old(self).pending(),
                texts(urls@),
            ),
            final(self).fetched() == old(self).fetched(),
            final(self).offers() == old(self).offers() + texts(urls@),
            final(self).running() == old(self).running(),
            final(self).limit() == old(self).limit(),
    {
        proof {
            self.offered@ = old(self).offers() + texts(urls@);
            assert forall|i: int| 0 <= i < self.offers().len() implies normalized(#[trigger] self.offers()[i])
                == self.offers()[i] by {
                if i < old(self).offers().len() {
                    assert(self.offers()[i] == old(self).offers()[i]);
                } else {
                    assert(self.offers()[i] == texts(urls@)[i - old(self).offers().len()]);
                }
            }
            assert forall|i: int| 0 <= i < self.seen_urls().len() implies self.offers().contains(
                #[trigger] self.seen_urls()[i],
            ) by {
                let k = choose|k: int| 0 <= k < old(self).offers().len() && old(self).offers()[k] == self.seen_urls()[i];
                assert(self.offers()[k] == old(self).offers()[k]);
            }
        }
        let n = urls.len();
        for i in 0..n
            invariant
                n == urls@.len(),
                self.wf(),
                self.offers() == old(self).offers() + texts(urls@),
                (self.seen_urls(), self.pending()) == admit_all(
                    old(self).seen_urls(),
                    old(self).pending(),
                    texts(urls@).take(i as int),
                ),
                self.fetched() == old(self).fetched(),
                self.running() == old(self).running(),
                self.limit() == old(self).limit(),
        {
            assert(self.offers()[old(self).offers().len() + i] == texts(urls@)[i as int]);
            self.take_in(&urls[i]);
            assert(texts(urls@).take(i + 1).drop_last() =~= texts(urls@).take(i as int));
        }
        assert(texts(urls@).take(n as int) =~= texts(urls@));
    }

    /// A frontier seeded with the normalized `start_urls` (duplicates
    /// dropped), allowing at most `concurrency` fetches at once.
    pub fn new(start_urls: &Vec<String>, concurrency: usize) -> (f: Self)
        ensures
            f.wf(),
            (f.seen_urls(), f.pending()) == admit_all(
                Seq::empty(),
                Seq::empty(),
                texts(start_urls@).map_values(|u: Seq<char>| normalized(u)),
            ),
            f.fetched() == Seq::<Seq<char>>::empty(),
            f.offers() == texts(start_urls@).map_values(|u: Seq<char>| normalized(u)),
            all_normalized(f.offers()),
            f.running() == 0,
            f.limit() == concurrency,
    {
        let mut normalized_urls: Vec<String> = Vec::new();
        for i in 0..start_urls.len()
            invariant
                texts(normalized_urls@) == texts(start_urls@).take(i as int).map_values(
                    |u: Seq<char>| normalized(u),
                ),
        {
            let ghost before = normalized_urls@;
            let u = normalize_url(start_urls[i].as_str());
            normalized_urls.push(u);
            assert(normalized_urls@ == before.push(u));
            assert(texts(normalized_urls@) =~= texts(before).push(u@));
            assert(texts(normalized_urls@) =~= texts(start_urls@).take(i + 1).map_values(
                |u: Seq<char>| normalized(u),
            ));
        }
        assert(texts(start_urls@).take(start_urls@.len() as int) =~= texts(start_urls@));
        let mut f = Frontier {
            queue: VecDeque::new(),
            seen: Vec::new(),
            in_flight: 0,
            concurrency,
            fetched: Ghost(Seq::empty()),
            offered: Ghost(Seq::empty()),
        };
        assert(Seq::<Seq<char>>::empty() + texts(normalized_urls@) =~= texts(normalized_urls@));
        assert forall|i: int| 0 <= i < texts(normalized_urls@).len() implies normalized(
            #[trigger] texts(normalized_urls@)[i],
        ) == texts(normalized_urls@)[i] by {
            law_normalize_idempotent(texts(start_urls@)[i]);
        }
        assert(f.seen_urls() =~= Seq::<Seq<char>>::empty());
        assert(f.pending() =~= Seq::<Seq<char>>::empty());
        assert(f.seen_urls() =~= f.fetched() + f.pending());
        f.enqueue(&normalized_urls);
        f
    }

    /// Decides the next step of the crawl loop. With a URL queued and a free
    /// slot, the oldest queued URL is taken for fetching; with the queue empty
    /// and nothing in flight, the crawl is finished; otherwise the loop waits.
    pub fn next_step(&mut self) -> (step: CrawlStep)
        requires
            old(self).wf(),
        ensures
            final(self).wf(),
            final(self).limit() == old(self).limit(),
            final(self).seen_urls() == old(self).seen_urls(),
            final(self).offers() == old(self).offers(),
            match step {
                CrawlStep::Fetch(url) => {
                    &&& old(self).pending().len() > 0
                    &&& old(self).running() < old(self).limit()
                    &&& url@ == old(self).pending()[0]
                    &&& normalized(url@) == url@
                    &&& final(self).pending() == old(self).pending().drop_first()
                    &&& final(self).fetched() == old(self).fetched().push(url@)
                    &&& final(self).running() == old(self).running() + 1
                },
                CrawlStep::Wait => {
                    &&& (old(self).running() > 0 || old(self).limit() == 0)
                    &&& (old(self).pending().len() > 0 ==> old(self).running() >= old(self).limit())
                    &&& (old(self).pending().len() == 0 ==> old(self).running() > 0)
                    &&& final(self).pending() == old(self).pending()
                    &&& final(self).fetched() == old(self).fetched()
                    &&& final(self).running() == old(self).running()
                },
                CrawlStep::Finish => {
                    &&& old(self).pending().len() == 0
                    &&& old(self).running() == 0
                    &&& final(self).pending() == old(self).pending()
                    &&& final(self).fetched() == old(self).fetched()
                    &&& final(self).running() == old(self).running()
                },
            },
    {
        if self.queue.len() > 0 {
            if self.in_flight < self.concurrency {
                match self.queue.pop_front() {
                    Some(url) => {
                        self.in_flight = self.in_flight + 1;
                        proof {
                            let k = old(self).fetched().len() as int;
                            assert(old(self).seen_urls()[k] == old(self).pending()[0]);
                            assert(old(self).offers().contains(old(self).seen_urls()[k]));
                            let j = choose|j: int| 0 <= j < old(self).offers().len() && old(self).offers()[j]
                                == old(self).seen_urls()[k];
                            assert(normalized(old(self).offers()[j]) == old(self).offers()[j]);
                            self.fetched@ = old(self).fetched().push(url@);
                            assert(self.pending() =~= old(self).pending().drop_first());
                            assert(self.seen_urls() =~= self.fetched() + self.pending());
                        }
                        CrawlStep::Fetch(url)
                    },
                    None => CrawlStep::Wait,
                }
            } else {
                CrawlStep::Wait
            }
        } else if self.in_flight == 0 {
            CrawlStep::Finish
        } else {
            CrawlStep::Wait
        }
    }

    /// Marks one fetch as finished.
    pub fn release(&mut self)
        requires
            old(self).wf(),
            old(self).running() > 0,
        ensures
            final(self).wf(),
            final(self).running() == old(self).running() - 1,
            final(self).pending() == old(self).pending(),
            final(self).seen_urls() == old(self).seen_urls(),
            final(self).offers() == old(self).offers(),
            final(self).fetched() == old(self).fetched(),
            final(self).limit() == old(self).limit(),
    {
        self.in_flight = self.in_flight - 1;
    }

    /// Number of fetches in flight.
    pub fn in_flight(&self) -> (n: usize)
        ensures
            n == self.running(),
    {
        self.in_flight
    }

    /// Number of URLs waiting to be fetched.
    pub fn queued(&self) -> (n: usize)
        ensures
            n == self.pending().len(),
    {
        self.queue.len()
    }
}

/// No URL is handed out for fetching twice in a run, and no URL waiting in
/// the queue has been fetched already.
pub proof fn law_no_url_fetched_twice(f: &Frontier)
    requires
        f.wf(),
    ensures
        f.fetched().no_duplicates(),
        f.pending().no_duplicates(),
        forall|i: int| 0 <= i < f.pending().len() ==> !f.fetched().contains(#[trigger] f.pending()[i]),
{
    let s = f.seen_urls();
    let a = f.fetched();
    let q = f.pending();
    assert(s == a + q);
    assert forall|i: int, j: int| 0 <= i < a.len() && 0 <= j < a.len() && i != j implies a[i] != a[j] by {
        assert(s[i] == a[i] && s[j] == a[j]);
    }
    assert forall|i: int, j: int| 0 <= i < q.len() && 0 <= j < q.len() && i != j implies q[i] != q[j] by {
        assert(s[a.len() + i] == q[i] && s[a.len() + j] == q[j]);
    }
    assert forall|i: int| 0 <= i < q.len() implies !a.contains(#[trigger] q[i]) by {
        if a.contains(q[i]) {
            let k = choose|k: int| 0 <= k < a.len() && a[k] == q[i];
            assert(s[k] == s[a.len() + i]);
        }
    }
}

/// Fetches in flight never exceed the concurrency limit.
pub proof fn law_running_within_limit(f: &Frontier)
    requires
        f.wf(),
    ensures
        f.running() <= f.limit(),
{
}

/// URLs are fetched first in, first out: the URLs handed out so far are
/// exactly the earliest admitted ones, in the order of admission, and the
/// queue holds the rest in that order.
pub proof fn law_fetch_order_is_admission_order(f: &Frontier)
    requires
        f.wf(),
    ensures
        f.fetched() == f.seen_urls().take(f.fetched().len() as int),
        f.pending() == f.seen_urls().skip(f.fetched().len() as int),
{
    assert(f.fetched() =~= (f.fetched() + f.pending()).take(f.fetched().len() as int));
    assert(f.pending() =~= (f.fetched() + f.pending()).skip(f.fetched().len() as int));
}

/// Every URL fetched was offered: a normalized start URL or a URL passed to
/// `enqueue`; and no more fetches happen than there are distinct offered
/// URLs, so a crawl offered finitely many URLs fetches finitely often.
pub proof fn law_fetched_were_offered(f: &Frontier)
    requires
        f.wf(),
    ensures
        forall|i: int| 0 <= i < f.fetched().len() ==> f.offers().contains(#[trigger] f.fetched()[i]),
        f.fetched().len() <= f.offers().to_set().len(),
{
    law_no_url_fetched_twice(f);
    let a = f.fetched();
    assert forall|i: int| 0 <= i < a.len() implies f.offers().contains(#[trigger] a[i]) by {
        assert(f.seen_urls()[i] == a[i]);
    }
    a.unique_seq_to_set();
    assert(a.to_set().subset_of(f.offers().to_set())) by {
        assert forall|x: Seq<char>| a.to_set().contains(x) implies f.offers().to_set().contains(x) by {
            let i = choose|i: int| 0 <= i < a.len() && a[i] == x;
            assert(f.offers().contains(a[i]));
        }
    }
    vstd::set_lib::lemma_len_subset(a.to_set(), f.offers().to_set());
}

/// Every URL fetched is in normalized form: the start URLs are normalized
/// on entry, and `enqueue` takes only normalized URLs, such as the visits
/// gathered from callback contexts.
pub proof fn law_fetched_urls_normalized(f: &Frontier)
    requires
        f.wf(),
    ensures
        all_normalized(f.fetched()),
{
    law_fetched_were_offered(f);
    assert forall|i: int| 0 <= i < f.fetched().len() implies normalized(#[trigger] f.fetched()[i])
        == f.fetched()[i] by {
        let k = choose|k: int| 0 <= k < f.offers().len() && f.offers()[k] == f.fetched()[i];
        assert(normalized(f.offers()[k]) == f.offers()[k]);
    }
}

/// Admitting discovered URLs keeps the seen list free of duplicates, marks
/// every discovered URL as seen, and appends the same new URLs, in discovery
/// order, to both the seen list and the queue; each of them was unseen
/// before. A URL seen before is never queued again.
pub proof fn law_admit_all_dedups(seen: Seq<Seq<char>>, queue: Seq<Seq<char>>, visits: Seq<Seq<char>>)
    requires
        seen.no_duplicates(),
    ensures
        ({
            let (s, q) = admit_all(seen, queue, visits);
            &&& s.no_duplicates()
            &&& forall|i: int| 0 <= i < visits.len() ==> s.contains(#[trigger] visits[i])
            &&& exists|fresh: Seq<Seq<char>>| {
                &&& s == seen + fresh
                &&& q == queue + fresh
                &&& forall|k: int| 0 <= k < fresh.len() ==> !seen.contains(#[trigger] fresh[k]) && visits.contains(fresh[k])
            }
        }),
    decreases visits.len(),
{
    if visits.len() == 0 {
        assert(seen == seen + Seq::<Seq<char>>::empty());
        assert(queue == queue + Seq::<Seq<char>>::empty());
    } else {
        let prev = visits.drop_last();
        law_admit_all_dedups(seen, queue, prev);
        let (s0, q0) = admit_all(seen, queue, prev);
        let fresh0 = choose|fresh: Seq<Seq<char>>| {
            &&& s0 == seen + fresh
            &&& q0 == queue + fresh
            &&& forall|k: int| 0 <= k < fresh.len() ==> !seen.contains(#[trigger] fresh[k]) && prev.contains(fresh[k])
        };
        let v = visits.last();
        assert forall|k: int| 0 <= k < fresh0.len() implies visits.contains(#[trigger] fresh0[k]) by {
            let j = choose|j: int| 0 <= j < prev.len() && prev[j] == fresh0[k];
            assert(visits[j] == prev[j]);
        }
        let (s, q) = admit_all(seen, queue, visits);
        if s0.contains(v) {
            assert forall|i: int| 0 <= i < visits.len() implies s.contains(#[trigger] visits[i]) by {
                if i < prev.len() {
                    assert(prev[i] == visits[i]);
                }
            }
            assert(s == seen + fresh0);
        } else {
            lemma_push_fresh_no_duplicates(s0, v);
            let fresh = fresh0.push(v);
            assert(s =~= seen + fresh);
            assert(q =~= queue + fresh);
            assert(!seen.contains(v)) by {
                if seen.contains(v) {
                    let j = choose|j: int| 0 <= j < seen.len() && seen[j] == v;
                    assert(s0[j] == v);
                }
            }
            assert forall|i: int| 0 <= i < visits.len() implies s.contains(#[trigger] visits[i]) by {
                if i < prev.len() {
                    assert(prev[i] == visits[i]);
                    assert(s0.contains(prev[i]));
                    let j = choose|j: int| 0 <= j < s0.len() && s0[j] == prev[i];
                    assert(s[j] == s0[j]);
                } else {
                    assert(s[s0.len() as int] == v);
                }
            }
            assert forall|k: int| 0 <= k < fresh.len() implies !seen.contains(#[trigger] fresh[k]) && visits.contains(fresh[k]) by {
                if k < fresh0.len() {
                    assert(fresh[k] == fresh0[k]);
                } else {
                    assert(visits[visits.len() - 1] == v);
                }
            }
        }
    }
}

/// Normalizing a URL twice gives the same text as normalizing it once, and a
/// normalized URL never ends in `/`.
pub proof fn law_normalize_idempotent(url: Seq<char>)
    ensures
        normalized(normalized(url)) == normalized(url),
        normalized(url).len() > 0 ==> normalized(url).last() != '/',
    decreases url.len(),
{
    if url.len() > 0 && url.last() == '/' {
        law_normalize_idempotent(url.drop_last());
    }
}

/// A URL with one more trailing slash names the same page.
pub proof fn law_trailing_slash_same_page(url: Seq<char>)
    ensures
        normalized(url.push('/')) == normalized(url),
{
    assert(url.push('/').drop_last() == url);
}

/// Appending a value not in a duplicate-free sequence keeps it duplicate-free.
proof fn lemma_push_fresh_no_duplicates(s: Seq<Seq<char>>, v: Seq<char>)
    requires
        s.no_duplicates(),
        !s.contains(v),
    ensures
        s.push(v).no_duplicates(),
{
    assert forall|i: int, j: int| 0 <= i < s.push(v).len() && 0 <= j < s.push(v).len() && i != j
        implies s.push(v)[i] != s.push(v)[j] by {
        if i == s.len() as int {
            assert(s.contains(s[j]));
        } else if j == s.len() as int {
            assert(s.contains(s[i]));
        }
    }
}

} // verus!
