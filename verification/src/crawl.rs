use vstd::prelude::*;

verus! {

/// The state of a crawl, as mathematics: URLs are their serializations.
pub struct CrawlState {
    /// The seed of the crawl, against which hrefs are resolved.
    pub base: Seq<char>,
    /// The page budget, if there is one.
    pub limit: Option<u32>,
    /// The pages fetched so far.
    pub visited: Set<Seq<char>>,
    /// The pages found and not yet fetched, the next one first.
    pub frontier: Seq<Seq<char>>,
    /// How many pages this run has visited.
    pub pages: nat,
}

/// What the engine is told.
pub enum Event {
    /// A run begins.
    Start,
    /// The page at `page` came back with these bytes.
    Fetched { page: Seq<char>, body: Seq<u8> },
    /// The transport could not deliver the page that was asked for.
    Failed,
}

/// What the engine answers.
pub enum Outcome {
    /// This page is to be fetched next.
    Fetch(Seq<char>),
    /// The run is over, with this many pages visited.
    Finished(nat),
    /// The run is over, on an error.
    Aborted,
}

/// The frontier without the already visited URLs at its head.
pub open spec fn skip_visited(frontier: Seq<Seq<char>>, visited: Set<Seq<char>>) -> Seq<Seq<char>>
    decreases frontier.len(),
{
    if frontier.len() > 0 && visited.contains(frontier[0]) {
        skip_visited(frontier.drop_first(), visited)
    } else {
        frontier
    }
}

/// The links of a page: each href that is in scope and well formed, resolved
/// against the seed; in the order of the anchors, each link once.
pub open spec fn page_links(base: Seq<char>, hrefs: Seq<Seq<char>>) -> Seq<Seq<char>> {
    crate::unique::distinct(
        hrefs.filter_map(|href: Seq<char>| crate::link::resolved(base, href)),
    )
}

/// The links that are not visited yet, in their order.
pub open spec fn unvisited(links: Seq<Seq<char>>, visited: Set<Seq<char>>) -> Seq<Seq<char>> {
    links.filter(|url: Seq<char>| !visited.contains(url))
}

/// The state after one page was visited: the page is marked, its unvisited
/// links join the frontier at the back, and the page is counted.
pub open spec fn after_page(s: CrawlState, page: Seq<char>, hrefs: Seq<Seq<char>>) -> CrawlState {
    let visited = s.visited.insert(page);
    CrawlState {
        visited,
        frontier: s.frontier + unvisited(page_links(s.base, hrefs), visited),
        pages: s.pages + 1,
        ..s
    }
}

/// The budget is spent.
pub open spec fn budget_reached(s: CrawlState) -> bool {
    s.limit matches Some(limit) && s.pages >= limit
}

/// Takes the next unvisited page off the frontier; where there is none, the
/// run is finished.
pub open spec fn proceed(s: CrawlState) -> (CrawlState, Outcome) {
    let rest = skip_visited(s.frontier, s.visited);
    if rest.len() > 0 {
        (CrawlState { frontier: rest.drop_first(), ..s }, Outcome::Fetch(rest[0]))
    } else {
        (CrawlState { frontier: rest, ..s }, Outcome::Finished(s.pages))
    }
}

/// The state in which a run begins: nothing is visited, nothing is counted,
/// and the frontier holds the seed alone.
pub open spec fn begun(s: CrawlState) -> CrawlState {
    CrawlState { visited: Set::empty(), frontier: seq![s.base], pages: 0, ..s }
}

/// One step of the crawl: the state and the answer that follow an event.
pub open spec fn transition(s: CrawlState, event: Event) -> (CrawlState, Outcome) {
    match event {
        Event::Start => proceed(begun(s)),
        Event::Failed => (s, Outcome::Aborted),
        Event::Fetched { page, body } => {
            if !vstd::utf8::valid_utf8(body) {
                (s, Outcome::Aborted)
            } else {
                let next = after_page(s, page, crate::page::anchor_hrefs(body));
                if budget_reached(next) {
                    (next, Outcome::Finished(next.pages))
                } else {
                    proceed(next)
                }
            }
        },
    }
}

/// The event that answers a request for `page`: the bytes that came back, or
/// a failure of the transport.
pub open spec fn answered(page: Seq<char>, answer: Option<Seq<u8>>) -> Event {
    match answer {
        Some(body) => Event::Fetched { page, body },
        None => Event::Failed,
    }
}

/// The pages asked for, in order, from the moment the engine asks for `page`
/// in state `s`: each request is answered by the next of `answers`, and the
/// run goes on for as long as the engine asks and answers are left.
pub open spec fn requests(s: CrawlState, page: Seq<char>, answers: Seq<Option<Seq<u8>>>) -> Seq<
    Seq<char>,
>
    decreases answers.len(),
{
    if answers.len() == 0 {
        seq![page]
    } else {
        let (next, outcome) = transition(s, answered(page, answers[0]));
        match outcome {
            Outcome::Fetch(url) => seq![page] + requests(next, url, answers.drop_first()),
            _ => seq![page],
        }
    }
}

/// The pages asked for, in order, in a run that starts in state `s`.
pub open spec fn run_requests(s: CrawlState, answers: Seq<Option<Seq<u8>>>) -> Seq<Seq<char>> {
    let (next, outcome) = transition(s, Event::Start);
    match outcome {
        Outcome::Fetch(url) => requests(next, url, answers),
        _ => Seq::empty(),
    }
}

/// The answer on which a run ends, from the moment the engine asks for `page`
/// in state `s`; where the answers run out first, the request left open.
pub open spec fn last_outcome(s: CrawlState, page: Seq<char>, answers: Seq<Option<Seq<u8>>>) -> Outcome
    decreases answers.len(),
{
    if answers.len() == 0 {
        Outcome::Fetch(page)
    } else {
        let (next, outcome) = transition(s, answered(page, answers[0]));
        match outcome {
            Outcome::Fetch(url) => last_outcome(next, url, answers.drop_first()),
            _ => outcome,
        }
    }
}

/// The answer on which a run that starts in state `s` ends.
pub open spec fn run_outcome(s: CrawlState, answers: Seq<Option<Seq<u8>>>) -> Outcome {
    let (next, outcome) = transition(s, Event::Start);
    match outcome {
        Outcome::Fetch(url) => last_outcome(next, url, answers),
        _ => outcome,
    }
}

/// The most pages that a run with this budget visits: a run always visits
/// its first page, so a budget of nothing still lets one page through.
pub open spec fn most_pages(limit: u32) -> nat {
    if limit == 0 {
        1
    } else {
        limit as nat
    }
}

/// What is left of a frontier after the visited URLs at its head are skipped
/// begins, if it is not empty, with a URL that is not visited.
pub proof fn lemma_skip_visited(frontier: Seq<Seq<char>>, visited: Set<Seq<char>>)
    ensures
        skip_visited(frontier, visited).len() > 0 ==> !visited.contains(
            skip_visited(frontier, visited)[0],
        ),
    decreases frontier.len(),
{
    if frontier.len() > 0 && visited.contains(frontier[0]) {
        lemma_skip_visited(frontier.drop_first(), visited);
    }
}

/// The engine never asks for a page that it has visited. Within a run no
/// step makes it forget a visited page, and a page that was read is visited.
pub proof fn lemma_step_keeps_visited(s: CrawlState, event: Event)
    ensures
        !(event is Start) ==> s.visited.subset_of(transition(s, event).0.visited),
        event matches Event::Fetched { page, body } ==> vstd::utf8::valid_utf8(body)
            ==> transition(s, event).0.visited.contains(page),
        transition(s, event).1 matches Outcome::Fetch(url) ==> !transition(
            s,
            event,
        ).0.visited.contains(url),
{
    match event {
        Event::Start => {
            lemma_skip_visited(seq![s.base], Set::empty());
        },
        Event::Failed => {},
        Event::Fetched { page, body } => {
            if vstd::utf8::valid_utf8(body) {
                let next = after_page(s, page, crate::page::anchor_hrefs(body));
                lemma_skip_visited(next.frontier, next.visited);
            }
        },
    }
}

/// A run begins with nothing visited, whatever was visited before, and asks
/// for the seed first.
pub proof fn lemma_run_begins_afresh(s: CrawlState)
    ensures
        transition(s, Event::Start).0.visited == Set::<Seq<char>>::empty(),
        transition(s, Event::Start).0.frontier == Seq::<Seq<char>>::empty(),
        transition(s, Event::Start).0.pages == 0,
        transition(s, Event::Start).1 == Outcome::Fetch(s.base),
{
    assert(skip_visited(seq![s.base], Set::empty()) =~= seq![s.base]);
    assert(seq![s.base].drop_first() =~= Seq::<Seq<char>>::empty());
}

/// From a request for an unvisited page on, no page is asked for twice, and
/// none that was visited before.
pub proof fn lemma_requests_distinct(s: CrawlState, page: Seq<char>, answers: Seq<Option<Seq<u8>>>)
    requires
        !s.visited.contains(page),
    ensures
        requests(s, page, answers).no_duplicates(),
        forall|i: int|
            0 <= i < requests(s, page, answers).len() ==> !s.visited.contains(
                #[trigger] requests(s, page, answers)[i],
            ),
    decreases answers.len(),
{
    if answers.len() > 0 {
        let event = answered(page, answers[0]);
        let (next, outcome) = transition(s, event);
        lemma_step_keeps_visited(s, event);
        match outcome {
            Outcome::Fetch(url) => {
                let rest = requests(next, url, answers.drop_first());
                lemma_requests_distinct(next, url, answers.drop_first());
                assert(next.visited.contains(page));
                let all = requests(s, page, answers);
                assert(all =~= seq![page] + rest);
                assert forall|i: int| 0 <= i < all.len() implies !s.visited.contains(
                    #[trigger] all[i],
                ) by {
                    if i > 0 {
                        assert(all[i] == rest[i - 1]);
                    }
                }
                assert forall|i: int, j: int| 0 <= i < j < all.len() implies all[i] != all[j] by {
                    assert(all[j] == rest[j - 1]);
                    if i > 0 {
                        assert(all[i] == rest[i - 1]);
                    }
                }
            },
            _ => {},
        }
    }
}

/// No page is fetched twice: whatever the pages of a site hold, and however
/// often they link to one another, the pages that a run asks for are all
/// different.
pub proof fn lemma_fetched_at_most_once(s: CrawlState, answers: Seq<Option<Seq<u8>>>)
    ensures
        run_requests(s, answers).no_duplicates(),
{
    let (next, outcome) = transition(s, Event::Start);
    lemma_step_keeps_visited(s, Event::Start);
    match outcome {
        Outcome::Fetch(url) => {
            lemma_requests_distinct(next, url, answers);
        },
        _ => {},
    }
}

/// From a request on, a run under a budget asks for no more pages than the
/// budget has left, and where it finishes, it has counted every page that it
/// asked for.
pub proof fn lemma_requests_within_budget(
    s: CrawlState,
    page: Seq<char>,
    answers: Seq<Option<Seq<u8>>>,
)
    ensures
        last_outcome(s, page, answers) matches Outcome::Finished(count) ==> count == s.pages
            + requests(s, page, answers).len(),
        s.limit matches Some(limit) ==> s.pages < most_pages(limit) ==> s.pages + requests(
            s,
            page,
            answers,
        ).len() <= most_pages(limit),
    decreases answers.len(),
{
    if answers.len() > 0 {
        let (next, outcome) = transition(s, answered(page, answers[0]));
        match outcome {
            Outcome::Fetch(url) => {
                lemma_requests_within_budget(next, url, answers.drop_first());
            },
            _ => {},
        }
    }
}

/// The budget holds: a run with a page budget asks for no more pages than
/// the budget allows, and a run that finishes returns the number of pages
/// that it asked for, each of which it has visited.
pub proof fn lemma_budget_holds(s: CrawlState, answers: Seq<Option<Seq<u8>>>)
    ensures
        s.limit matches Some(limit) ==> run_requests(s, answers).len() <= most_pages(limit),
        run_outcome(s, answers) matches Outcome::Finished(count) ==> count == run_requests(
            s,
            answers,
        ).len(),
{
    let (next, outcome) = transition(s, Event::Start);
    match outcome {
        Outcome::Fetch(url) => {
            lemma_requests_within_budget(next, url, answers);
        },
        _ => {},
    }
}

} // verus!
