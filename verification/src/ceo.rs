use crate::link::PageUrl;
use crate::page::Page;
use crate::spider::Hook;
use std::collections::BTreeMap;
use vstd::prelude::*;

verus! {

/// The text of the keywords panel of the document that `source` is read as:
/// the texts of its `div` elements with id `panel1` and class `tabs-panel`.
pub open spec fn panel_text(source: Seq<u8>) -> Seq<char> {
    crate::page::element_text(source, "div"@, "panel1"@, "tabs-panel"@)
}

/// The JSON text that `serde_json::to_string` writes for a map from each
/// path to its list of keywords.
pub uninterp spec fn json_object(entries: Seq<(Seq<char>, Seq<Seq<char>>)>) -> Seq<char>;

/// The path under which the pages of the catalogue lie.
pub open spec fn catalogue_prefix() -> Seq<char> {
    "/catalogue/"@
}

/// A keyword is found in a text when it is not empty and occurs in the text.
/// The empty keyword, which a cell without text leaves in the set, is found
/// nowhere.
pub open spec fn found_in(keyword: Seq<char>, text: Seq<char>) -> bool {
    keyword.len() > 0 && crate::text::occurs_in(keyword, text)
}

/// The keywords that are found in a text, in the order of the keywords.
pub open spec fn matching(keywords: Seq<Seq<char>>, text: Seq<char>) -> Seq<Seq<char>> {
    keywords.filter(|keyword: Seq<char>| found_in(keyword, text))
}

/// No path has two entries.
pub open spec fn paths_distinct(pages: Seq<(Seq<char>, Seq<Seq<char>>)>) -> bool {
    forall|i: int, j: int| 0 <= i < j < pages.len() ==> pages[i].0 != pages[j].0
}

/// The keywords that a panel with the text `panel` gives: those found in
/// its lower-case form. A panel that holds nothing, as on a page without
/// one, gives none.
pub open spec fn panel_keywords(keywords: Seq<Seq<char>>, panel: Seq<char>) -> Seq<Seq<char>> {
    if panel.len() == 0 {
        Seq::empty()
    } else {
        matching(keywords, crate::text::lowercase(panel))
    }
}

/// `at` is the place of the entry for `path`.
pub open spec fn entry_at(
    pages: Seq<(Seq<char>, Seq<Seq<char>>)>,
    path: Seq<char>,
    at: int,
) -> bool {
    &&& 0 <= at < pages.len()
    &&& pages[at].0 == path
    &&& forall|earlier: int| 0 <= earlier < at ==> (#[trigger] pages[earlier]).0 != path
}

/// The record after `found` was added under `path`: nothing changes where
/// `found` is empty; else the keywords go to the end of the entry for `path`,
/// and a path that has no entry yet gets one at the end of the record.
pub open spec fn recorded(
    pages: Seq<(Seq<char>, Seq<Seq<char>>)>,
    path: Seq<char>,
    found: Seq<Seq<char>>,
) -> Seq<(Seq<char>, Seq<Seq<char>>)> {
    if found.len() == 0 {
        pages
    } else if exists|at: int| entry_at(pages, path, at) {
        let at = choose|at: int| entry_at(pages, path, at);
        pages.update(at, (path, pages[at].1 + found))
    } else {
        pages.push((path, found))
    }
}

/// A page without the expected content is no match: where the panel holds
/// nothing, the record stays as it is, whatever the keywords are.
pub proof fn lemma_empty_panel_records_nothing(
    pages: Seq<(Seq<char>, Seq<Seq<char>>)>,
    path: Seq<char>,
    keywords: Seq<Seq<char>>,
)
    ensures
        recorded(pages, path, panel_keywords(keywords, Seq::empty())) == pages,
{
}

/// The empty keyword is never recorded.
pub proof fn lemma_empty_keyword_is_not_found(keywords: Seq<Seq<char>>, text: Seq<char>)
    ensures
        !matching(keywords, text).contains(Seq::empty()),
{
    let found = |keyword: Seq<char>| found_in(keyword, text);
    if matching(keywords, text).contains(Seq::empty()) {
        let at = choose|at: int|
            0 <= at < matching(keywords, text).len() && matching(keywords, text)[at]
                == Seq::<char>::empty();
        keywords.lemma_filter_pred(found, at);
        assert(found(matching(keywords, text)[at]));
    }
}

/// The text of a cell of the keywords sheet: empty where the cell holds no
/// text.
pub open spec fn cell_text(cell: Option<String>) -> Seq<char> {
    match cell {
        Some(text) => text@,
        None => Seq::empty(),
    }
}

/// The keywords that a column of cells gives: the lower-case form of each
/// cell's text, each keyword once, in the order of first occurrence.
pub open spec fn cell_keywords(cells: Seq<Option<String>>) -> Seq<Seq<char>> {
    crate::unique::distinct(
        cells.map_values(|cell: Option<String>| crate::text::lowercase(cell_text(cell))),
    )
}

/// The entries of a record as texts.
pub open spec fn entries(page_map: Seq<(String, Vec<String>)>) -> Seq<(Seq<char>, Seq<Seq<char>>)> {
    page_map.map_values(|entry: (String, Vec<String>)| (entry.0@, crate::text::strings(entry.1@)))
}

/// `serde_json::to_string` on the record as a map from path to keywords. No
/// path comes twice, so the map holds each entry; it is ordered by path, so
/// the text depends on the entries alone.
#[verifier::external_body]
fn to_json(page_map: &Vec<(String, Vec<String>)>) -> (json: String)
    requires
        paths_distinct(entries(page_map@)),
    ensures
        json@ == json_object(entries(page_map@)),
{
    let map: BTreeMap<&String, &Vec<String>> = page_map.iter().map(|entry| (&entry.0, &entry.1)).collect();
    serde_json::to_string(&map).unwrap_or_default()
}

/// Collects, for each page of the catalogue, the keywords that occur in its
/// keywords panel.
pub struct CatalogueKeywordsScrapingHook {
    keywords: Vec<String>,
    page_map: Vec<(String, Vec<String>)>,
}

/// The keywords of `keywords` that are found in `text`, in their order.
fn matching_keywords(keywords: &Vec<String>, text: &str) -> (found: Vec<String>)
    ensures
        crate::text::strings(found@) == matching(crate::text::strings(keywords@), text@),
{
    let ghost all = crate::text::strings(keywords@);
    let ghost occurs = |keyword: Seq<char>| found_in(keyword, text@);
    let mut found: Vec<String> = Vec::new();
    let mut i: usize = 0;
    proof {
        assert(all.take(0) =~= Seq::empty());
        reveal(Seq::filter);
    }
    while i < keywords.len()
        invariant
            i <= keywords.len(),
            all == crate::text::strings(keywords@),
            occurs == |keyword: Seq<char>| found_in(keyword, text@),
            crate::text::strings(found@) == all.take(i as int).filter(occurs),
        decreases keywords.len() - i,
    {
        let ghost before = crate::text::strings(found@);
        proof {
            assert(all.take(i + 1) =~= all.take(i as int).push(all[i as int]));
            all.take(i as int).lemma_filter_push(all[i as int], occurs);
        }
        if !keywords[i].as_str().is_empty() && crate::text::contains(text, keywords[i].as_str()) {
            found.push(keywords[i].clone());
            assert(crate::text::strings(found@) =~= before.push(all[i as int]));
        }
        i += 1;
    }
    assert(all.take(keywords.len() as int) =~= all);
    found
}

/// The place of the entry for `path`, if it has one.
fn find_entry(page_map: &Vec<(String, Vec<String>)>, path: &str) -> (place: Option<usize>)
    ensures
        match place {
            Some(at) => entry_at(entries(page_map@), path@, at as int),
            None => forall|at: int| !entry_at(entries(page_map@), path@, at),
        },
{
    let ghost pages = entries(page_map@);
    let mut i: usize = 0;
    while i < page_map.len()
        invariant
            i <= page_map.len(),
            pages == entries(page_map@),
            forall|j: int| 0 <= j < i ==> (#[trigger] pages[j]).0 != path@,
        decreases page_map.len() - i,
    {
        if crate::text::same_text(page_map[i].0.as_str(), path) {
            return Some(i);
        }
        i += 1;
    }
    None
}

/// Adds `found` to the record under `path`.
fn record(page_map: &mut Vec<(String, Vec<String>)>, path: String, found: Vec<String>)
    requires
        forall|i: int, j: int|
            0 <= i < j < old(page_map).len() ==> old(page_map)@[i].0@ != old(page_map)@[j].0@,
    ensures
        entries(final(page_map)@) == recorded(
            entries(old(page_map)@),
            path@,
            crate::text::strings(found@),
        ),
        forall|i: int, j: int|
            0 <= i < j < final(page_map).len() ==> final(page_map)@[i].0@ != final(page_map)@[j].0@,
{
    let ghost pages = entries(page_map@);
    let ghost added = crate::text::strings(found@);
    if found.len() == 0 {
        return ;
    }
    match find_entry(page_map, path.as_str()) {
        Some(at) => {
            let mut found = found;
            page_map[at].1.append(&mut found);
            proof {
                let chosen = choose|at: int| entry_at(pages, path@, at);
                assert(entry_at(pages, path@, at as int));
                assert(chosen == at);
                assert(crate::text::strings(page_map@[at as int].1@) =~= pages[at as int].1 + added);
                assert(entries(page_map@) =~= pages.update(at as int, (path@, pages[at as int].1 + added)));
            }
        },
        None => {
            page_map.push((path, found));
            proof {
                assert(entries(page_map@) =~= pages.push((path@, added)));
                assert forall|i: int, j: int| 0 <= i < j < page_map.len() implies page_map@[i].0@
                    != page_map@[j].0@ by {
                    if j == page_map.len() - 1 {
                        assert(!entry_at(pages, path@, i));
                        assert(pages[i].0 == page_map@[i].0@);
                        if pages[i].0 == path@ {
                            let first = choose|first: int|
                                0 <= first <= i && pages[first].0 == path@ && forall|e: int|
                                    0 <= e < first ==> (#[trigger] pages[e]).0 != path@;
                            assert(entry_at(pages, path@, first));
                        }
                    }
                }
            }
        },
    }
}

impl CatalogueKeywordsScrapingHook {
    /// Nothing occurs twice among the keywords, and no path has two entries.
    #[verifier::type_invariant]
    spec fn well_formed(&self) -> bool {
        &&& crate::text::strings(self.keywords@).no_duplicates()
        &&& forall|i: int, j: int|
            0 <= i < j < self.page_map.len() ==> self.page_map@[i].0@ != self.page_map@[j].0@
    }

    /// The keywords that the hook looks for.
    pub closed spec fn keywords(&self) -> Seq<Seq<char>> {
        crate::text::strings(self.keywords@)
    }

    /// The record so far: each path with the keywords found under it, in the
    /// order in which the paths were first recorded.
    pub closed spec fn pages(&self) -> Seq<(Seq<char>, Seq<Seq<char>>)> {
        entries(self.page_map@)
    }

    /// A hook that looks for the given keywords, each once, and has recorded
    /// nothing yet.
    pub fn new(keywords: Vec<String>) -> (hook: Self)
        ensures
            hook.keywords() == crate::unique::distinct(crate::text::strings(keywords@)),
            hook.pages() == Seq::<(Seq<char>, Seq<Seq<char>>)>::empty(),
    {
        let kept = crate::unique::distinct_texts(&keywords);
        proof {
            crate::unique::lemma_distinct_no_duplicates(crate::text::strings(keywords@));
        }
        let hook = Self { keywords: kept, page_map: Vec::new() };
        assert(entries(hook.page_map@) =~= Seq::empty());
        hook
    }

    /// The record as one JSON object, from each path to the list of its
    /// keywords.
    pub fn result(&self) -> (json: String)
        ensures
            json@ == json_object(self.pages()),
    {
        proof {
            use_type_invariant(self);
        }
        to_json(&self.page_map)
    }
}

impl Hook for CatalogueKeywordsScrapingHook {
    open spec fn accepts(&self, url: Seq<char>) -> bool {
        catalogue_prefix().is_prefix_of(crate::link::url_path(url))
    }

    open spec fn observes(&self, url: Seq<char>, page: Seq<u8>, after: &Self) -> bool {
        &&& after.keywords() == self.keywords()
        &&& after.pages() == recorded(
            self.pages(),
            crate::link::url_path(url),
            panel_keywords(self.keywords(), panel_text(page)),
        )
    }

    fn can_match(&self, url: &PageUrl) -> (accepted: bool) {
        let path = url.path();
        crate::text::starts_with(path.as_str(), "/catalogue/")
    }

    fn hook(&mut self, url: &PageUrl, doc: &Page) {
        proof {
            use_type_invariant(&*self);
        }
        let text = doc.text_of("div", "panel1", "tabs-panel");
        let found = if text.as_str().is_empty() {
            let none: Vec<String> = Vec::new();
            assert(crate::text::strings(none@) =~= Seq::empty());
            none
        } else {
            let lower = crate::text::to_lowercase(text.as_str());
            matching_keywords(&self.keywords, lower.as_str())
        };
        let mut page_map: Vec<(String, Vec<String>)> = Vec::new();
        std::mem::swap(&mut page_map, &mut self.page_map);
        record(&mut page_map, url.path(), found);
        self.page_map = page_map;
    }
}

/// The keywords that the first column of a sheet gives, one cell to a row;
/// `None` stands for a cell that holds no text.
pub fn keywords_from_cells(cells: &Vec<Option<String>>) -> (keywords: Vec<String>)
    ensures
        crate::text::strings(keywords@) == cell_keywords(cells@),
{
    let ghost lowered = cells@.map_values(
        |cell: Option<String>| crate::text::lowercase(cell_text(cell)),
    );
    let mut all: Vec<String> = Vec::new();
    let mut i: usize = 0;
    while i < cells.len()
        invariant
            i <= cells.len(),
            lowered == cells@.map_values(
                |cell: Option<String>| crate::text::lowercase(cell_text(cell)),
            ),
            crate::text::strings(all@) == lowered.take(i as int),
        decreases cells.len() - i,
    {
        proof {
            reveal_strlit("");
            assert(""@ =~= Seq::<char>::empty());
        }
        let ghost before = crate::text::strings(all@);
        let lower = match &cells[i] {
            Some(text) => crate::text::to_lowercase(text.as_str()),
            None => crate::text::to_lowercase(""),
        };
        assert(lower@ == lowered[i as int]);
        all.push(lower);
        assert(crate::text::strings(all@) =~= before.push(lowered[i as int]));
        assert(lowered.take(i + 1) =~= lowered.take(i as int).push(lowered[i as int]));
        i += 1;
    }
    assert(lowered.take(cells.len() as int) =~= lowered);
    crate::unique::distinct_texts(&all)
}

} // verus!
