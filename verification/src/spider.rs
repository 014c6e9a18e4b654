use crate::crawl::{CrawlState, Event, Outcome};
use crate::link::PageUrl;
use crate::page::{Page, MAX_PAGE_BYTES};
use crate::utils::SpiderError;
use crate::visited::UrlSet;
use std::collections::VecDeque;
use vstd::prelude::*;

verus! {

/// A unit of page inspection: a predicate on URLs, and an observation that
/// may change the hook's own state. The crawl hands each fetched page to
/// every hook whose predicate accepts the page's URL, and to no other.
pub trait Hook: Sized {
    /// What `can_match` answers for a URL: a function of the hook and the URL.
    spec fn accepts(&self, url: Seq<char>) -> bool;

    /// Whether observing the page may leave the hook in the state `after`.
    spec fn observes(&self, url: Seq<char>, page: Seq<u8>, after: &Self) -> bool;

    /// Whether the hook wants to see the page at `url`.
    fn can_match(&self, url: &PageUrl) -> (accepted: bool)
        ensures
            accepted == self.accepts(url@),
    ;

    /// Observes a fetched page.
    fn hook(&mut self, url: &PageUrl, doc: &Page)
        ensures
            old(self).observes(url@, doc@, final(self)),
    ;
}

/// What handing a page to a row of hooks does to them: each hook that
/// accepts the URL has observed the page, and every other hook is as it was.
pub open spec fn dispatched<H: Hook>(
    before: Seq<H>,
    url: Seq<char>,
    page: Seq<u8>,
    after: Seq<H>,
) -> bool {
    &&& after.len() == before.len()
    &&& forall|i: int|
        0 <= i < before.len() ==> if (#[trigger] before[i]).accepts(url) {
            before[i].observes(url, page, &after[i])
        } else {
            after[i] == before[i]
        }
}

/// A hook that does not accept a URL is not touched when a page at that URL
/// is handed to the hooks.
pub proof fn lemma_rejected_page_is_not_observed<H: Hook>(
    before: Seq<H>,
    url: Seq<char>,
    page: Seq<u8>,
    after: Seq<H>,
    i: int,
)
    requires
        dispatched(before, url, page, after),
        0 <= i < before.len(),
        !before[i].accepts(url),
    ensures
        after[i] == before[i],
{
}

/// Hands a page to the hooks, in their order.
fn dispatch<H: Hook>(hooks: &mut Vec<H>, url: &PageUrl, doc: &Page)
    ensures
        dispatched(old(hooks)@, url@, doc@, final(hooks)@),
{
    let mut i: usize = 0;
    while i < hooks.len()
        invariant
            hooks.len() == old(hooks).len(),
            i <= hooks.len(),
            forall|j: int|
                0 <= j < i ==> if (#[trigger] old(hooks)@[j]).accepts(url@) {
                    old(hooks)@[j].observes(url@, doc@, &hooks@[j])
                } else {
                    hooks@[j] == old(hooks)@[j]
                },
            forall|j: int| i <= j < hooks.len() ==> hooks@[j] == old(hooks)@[j],
        decreases hooks.len() - i,
    {
        if hooks[i].can_match(url) {
            hooks[i].hook(url, doc);
        }
        i += 1;
    }
}

/// The links of a page: its hrefs resolved against `base`, without those out
/// of scope or malformed, each link once, in the order of the anchors.
fn collect_links(base: &PageUrl, hrefs: &Vec<String>) -> (links: UrlSet)
    ensures
        links.order() == crate::crawl::page_links(base@, crate::text::strings(hrefs@)),
{
    let ghost all = crate::text::strings(hrefs@);
    let ghost resolving = |href: Seq<char>| crate::link::resolved(base@, href);
    let mut links = UrlSet::new();
    let mut i: usize = 0;
    assert(all.take(0) =~= Seq::empty());
    while i < hrefs.len()
        invariant
            i <= hrefs.len(),
            all == crate::text::strings(hrefs@),
            resolving == |href: Seq<char>| crate::link::resolved(base@, href),
            links.order() == crate::unique::distinct(all.take(i as int).filter_map(resolving)),
        decreases hrefs.len() - i,
    {
        let ghost seen = all.take(i as int).filter_map(resolving);
        assert(all.take(i + 1).drop_last() =~= all.take(i as int));
        assert(all.take(i + 1).last() == all[i as int]);
        match crate::link::resolve(base, hrefs[i].as_str()) {
            Some(url) => {
                assert(all.take(i + 1).filter_map(resolving) =~= seen.push(url@));
                assert(seen.push(url@).drop_last() =~= seen);
                links.insert(url);
            },
            None => {},
        }
        i += 1;
    }
    assert(all.take(hrefs.len() as int) =~= all);
    links
}

/// What the crawl is told: that a run begins, or how the fetch that it asked
/// for went.
#[derive(Debug)]
pub enum CrawlEvent {
    /// A run begins, at the seed.
    Start,
    /// The page at `page` was fetched, and `body` is what came back.
    Fetched { page: PageUrl, body: Vec<u8> },
    /// The page that the crawl asked for could not be fetched.
    Failed { error: reqwest::Error },
}

impl View for CrawlEvent {
    type V = Event;

    open spec fn view(&self) -> Event {
        match self {
            CrawlEvent::Start => Event::Start,
            CrawlEvent::Fetched { page, body } => Event::Fetched { page: page@, body: body@ },
            CrawlEvent::Failed { .. } => Event::Failed,
        }
    }
}

/// What the crawl answers: the page to fetch next, or how the run ended.
#[derive(Debug)]
pub enum CrawlStep {
    /// Fetch this page, and tell the crawl how it went.
    Fetch(PageUrl),
    /// The run is over: the number of pages visited, or the error that ended it.
    Done(Result<u32, SpiderError>),
}

impl View for CrawlStep {
    type V = Outcome;

    open spec fn view(&self) -> Outcome {
        match self {
            CrawlStep::Fetch(url) => Outcome::Fetch(url@),
            CrawlStep::Done(Ok(pages)) => Outcome::Finished(*pages as nat),
            CrawlStep::Done(Err(_)) => Outcome::Aborted,
        }
    }
}

/// A crawl of the pages of one site, breadth first from a seed, which hands
/// each page to its hooks. It fetches nothing itself: `scrape_links` says
/// which page to fetch next and takes what came back.
pub struct Spider<H: Hook> {
    base_url: PageUrl,
    links_visited: UrlSet,
    page_hooks: Vec<H>,
    num_pages: Option<u32>,
    queue: VecDeque<PageUrl>,
    pages_visited: u32,
}

impl<H: Hook> View for Spider<H> {
    type V = CrawlState;

    closed spec fn view(&self) -> CrawlState {
        CrawlState {
            base: self.base_url@,
            limit: self.num_pages,
            visited: self.links_visited@,
            frontier: crate::link::texts(self.queue@),
            pages: self.pages_visited as nat,
        }
    }
}

impl<H: Hook> Spider<H> {
    /// The hooks of the crawl, in the order of their registration.
    pub closed spec fn hooks(&self) -> Seq<H> {
        self.page_hooks@
    }

    /// A crawl of the site at `base_url` that visits at most `num_pages`
    /// pages, or all that it finds where no number is given. Fails exactly
    /// where `base_url` is no absolute URL.
    pub fn new(base_url: &str, num_pages: Option<u32>) -> (made: Result<Self, SpiderError>)
        ensures
            match made {
                Ok(spider) => {
                    &&& crate::link::url_serialization(base_url@) == Some(spider@.base)
                    &&& spider@.limit == num_pages
                    &&& spider@.visited == Set::<Seq<char>>::empty()
                    &&& spider@.frontier == Seq::<Seq<char>>::empty()
                    &&& spider@.pages == 0
                    &&& spider.hooks() == Seq::<H>::empty()
                },
                Err(error) => {
                    &&& crate::link::url_serialization(base_url@) is None
                    &&& error is Parse
                },
            },
    {
        match PageUrl::parse(base_url) {
            Ok(base_url) => {
                let spider = Self {
                    base_url,
                    links_visited: UrlSet::new(),
                    page_hooks: Vec::new(),
                    num_pages,
                    queue: VecDeque::new(),
                    pages_visited: 0,
                };
                assert(crate::link::texts(spider.queue@) =~= Seq::empty());
                Ok(spider)
            },
            Err(error) => Err(SpiderError::from(error)),
        }
    }

    /// Registers a hook, behind those registered before.
    pub fn add_hook(&mut self, hook: H)
        ensures
            final(self).hooks() == old(self).hooks().push(hook),
            final(self)@ == old(self)@,
    {
        self.page_hooks.push(hook);
    }

    /// The hooks of the crawl, in the order of their registration.
    pub fn page_hooks(&self) -> (hooks: &Vec<H>)
        ensures
            hooks@ == self.hooks(),
    {
        &self.page_hooks
    }

    /// The pages visited so far.
    pub fn links_visited(&self) -> (visited: &UrlSet)
        ensures
            visited@ == self@.visited,
    {
        &self.links_visited
    }

    /// How many pages the run has visited.
    pub fn pages_visited(&self) -> (pages: u32)
        ensures
            pages == self@.pages,
    {
        self.pages_visited
    }

    /// Takes URLs off the front of the frontier up to the first that is not
    /// visited, and hands that one out.
    fn next_unvisited(&mut self) -> (next: Option<PageUrl>)
        ensures
            final(self).hooks() == old(self).hooks(),
            ({
                let rest = crate::crawl::skip_visited(old(self)@.frontier, old(self)@.visited);
                match next {
                    Some(url) => {
                        &&& rest.len() > 0
                        &&& url@ == rest[0]
                        &&& final(self)@ == CrawlState { frontier: rest.drop_first(), ..old(self)@ }
                    },
                    None => {
                        &&& rest.len() == 0
                        &&& final(self)@ == CrawlState { frontier: rest, ..old(self)@ }
                    },
                }
            }),
    {
        let ghost visited = self@.visited;
        loop
            invariant
                self.hooks() == old(self).hooks(),
                self@ == (CrawlState { frontier: self@.frontier, ..old(self)@ }),
                visited == old(self)@.visited,
                crate::crawl::skip_visited(self@.frontier, visited) == crate::crawl::skip_visited(
                    old(self)@.frontier,
                    visited,
                ),
            decreases self.queue@.len(),
        {
            let ghost frontier = self@.frontier;
            match self.queue.pop_front() {
                None => {
                    return None;
                },
                Some(url) => {
                    assert(self@.frontier =~= frontier.drop_first());
                    assert(url@ == frontier[0]);
                    if !self.links_visited.contains(&url) {
                        return Some(url);
                    }
                },
            }
        }
    }

    /// Asks for the next unvisited page of the frontier, or ends the run
    /// where there is none.
    fn advance(&mut self) -> (step: CrawlStep)
        ensures
            final(self).hooks() == old(self).hooks(),
            (final(self)@, step@) == crate::crawl::proceed(old(self)@),
    {
        match self.next_unvisited() {
            Some(url) => CrawlStep::Fetch(url),
            None => CrawlStep::Done(Ok(self.pages_visited)),
        }
    }

    /// Puts those of `links` that are not visited at the back of the
    /// frontier, in their order.
    fn enqueue_unvisited(&mut self, links: &UrlSet)
        ensures
            final(self).hooks() == old(self).hooks(),
            final(self)@ == (CrawlState {
                frontier: old(self)@.frontier + crate::crawl::unvisited(
                    links.order(),
                    old(self)@.visited,
                ),
                ..old(self)@
            }),
    {
        let urls = links.urls();
        let ghost all = crate::link::texts(urls@);
        let ghost visited = self@.visited;
        let ghost fresh = |url: Seq<char>| !visited.contains(url);
        let mut i: usize = 0;
        proof {
            assert(all.take(0) =~= Seq::empty());
            reveal(Seq::filter);
            assert(self@.frontier =~= old(self)@.frontier + all.take(0).filter(fresh));
        }
        while i < urls.len()
            invariant
                i <= urls.len(),
                all == crate::link::texts(urls@),
                visited == old(self)@.visited,
                fresh == |url: Seq<char>| !visited.contains(url),
                self.hooks() == old(self).hooks(),
                self@ == (CrawlState {
                    frontier: old(self)@.frontier + all.take(i as int).filter(fresh),
                    ..old(self)@
                }),
            decreases urls.len() - i,
        {
            proof {
                assert(all.take(i + 1) =~= all.take(i as int).push(all[i as int]));
                all.take(i as int).lemma_filter_push(all[i as int], fresh);
            }
            if !self.links_visited.contains(&urls[i]) {
                let ghost before = self@.frontier;
                self.queue.push_back(urls[i].clone());
                assert(self@.frontier =~= before.push(all[i as int]));
                assert(self@.frontier =~= old(self)@.frontier + all.take(i + 1).filter(fresh));
            }
            i += 1;
        }
        assert(all.take(urls.len() as int) =~= all);
    }

    /// Visits a fetched page: reads `body` as a document, marks `page`
    /// visited, hands the document to the hooks that accept `page`, and
    /// returns the links of the page. Where `body` cannot be read, nothing
    /// changes and the reader's error is returned.
    pub fn visit_page(&mut self, page: &PageUrl, body: Vec<u8>) -> (links: Result<
        UrlSet,
        SpiderError,
    >)
        requires
            body@.len() <= MAX_PAGE_BYTES,
        ensures
            match links {
                Ok(found) => {
                    &&& vstd::utf8::valid_utf8(body@)
                    &&& found.order() == crate::crawl::page_links(
                        old(self)@.base,
                        crate::page::anchor_hrefs(body@),
                    )
                    &&& final(self)@ == (CrawlState {
                        visited: old(self)@.visited.insert(page@),
                        ..old(self)@
                    })
                    &&& dispatched(old(self).hooks(), page@, body@, final(self).hooks())
                },
                Err(error) => {
                    &&& !vstd::utf8::valid_utf8(body@)
                    &&& error is Io
                    &&& final(self)@ == old(self)@
                    &&& final(self).hooks() == old(self).hooks()
                },
            },
    {
        match Page::parse(body) {
            Ok(document) => {
                self.links_visited.insert(page.clone());
                dispatch(&mut self.page_hooks, page, &document);
                let hrefs = document.hrefs();
                Ok(collect_links(&self.base_url, &hrefs))
            },
            Err(error) => Err(SpiderError::from(error)),
        }
    }

    /// One step of the crawl. On `Start` a run begins at the seed, with
    /// nothing visited. On
    /// `Fetched` the page is visited and counted, its unvisited links join
    /// the frontier, and the run ends if the budget is spent. On `Failed`,
    /// and on a page that cannot be read, the run ends with the error. Where
    /// the run goes on, the answer is the next unvisited page of the
    /// frontier, or the count of pages where the frontier has none left.
    pub fn scrape_links(&mut self, event: CrawlEvent) -> (step: CrawlStep)
        requires
            event matches CrawlEvent::Fetched { body, .. } ==> body@.len() <= MAX_PAGE_BYTES
                && old(self)@.pages < u32::MAX,
        ensures
            (final(self)@, step@) == crate::crawl::transition(old(self)@, event@),
            match event {
                CrawlEvent::Start => final(self).hooks() == old(self).hooks(),
                CrawlEvent::Fetched { page, body } => if vstd::utf8::valid_utf8(body@) {
                    dispatched(old(self).hooks(), page@, body@, final(self).hooks())
                } else {
                    &&& final(self).hooks() == old(self).hooks()
                    &&& step matches CrawlStep::Done(Err(SpiderError::Io(_)))
                },
                CrawlEvent::Failed { error } => {
                    &&& final(self).hooks() == old(self).hooks()
                    &&& step == CrawlStep::Done(Err(SpiderError::Reqwest(error)))
                },
            },
    {
        match event {
            CrawlEvent::Start => {
                self.links_visited = UrlSet::new();
                self.queue.clear();
                self.queue.push_back(self.base_url.clone());
                self.pages_visited = 0;
                assert(self@.frontier =~= seq![old(self)@.base]);
                self.advance()
            },
            CrawlEvent::Failed { error } => CrawlStep::Done(Err(SpiderError::from(error))),
            CrawlEvent::Fetched { page, body } => {
                match self.visit_page(&page, body) {
                    Err(error) => CrawlStep::Done(Err(error)),
                    Ok(links) => {
                        self.enqueue_unvisited(&links);
                        self.pages_visited = self.pages_visited + 1;
                        let spent = match self.num_pages {
                            Some(max_pages) => self.pages_visited >= max_pages,
                            None => false,
                        };
                        if spent {
                            CrawlStep::Done(Ok(self.pages_visited))
                        } else {
                            self.advance()
                        }
                    },
                }
            },
        }
    }
}

} // verus!
