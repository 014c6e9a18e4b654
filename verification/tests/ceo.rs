use webtools::ceo::{keywords_from_cells, CatalogueKeywordsScrapingHook};
use webtools::link::PageUrl;
use webtools::page::Page;
use webtools::spider::Hook;

fn page(html: &str) -> Page {
    Page::parse(html.as_bytes().to_vec()).unwrap()
}

fn url(text: &str) -> PageUrl {
    PageUrl::parse(text).unwrap()
}

fn words(items: &[&str]) -> Vec<String> {
    items.iter().map(|item| item.to_string()).collect()
}

const PANEL: &str = "<html><body><div id=\"panel1\" class=\"tabs-panel\">Fiction novel</div></body></html>";

#[test]
fn keyword_is_matched_without_regard_to_case() {
    let mut hook = CatalogueKeywordsScrapingHook::new(words(&["fiction"]));
    hook.hook(&url("https://books.example/catalogue/some-book"), &page(PANEL));
    assert_eq!(hook.result(), "{\"/catalogue/some-book\":[\"fiction\"]}");
}

#[test]
fn nothing_is_recorded_for_a_page_without_a_match() {
    let mut hook = CatalogueKeywordsScrapingHook::new(words(&["poetry"]));
    hook.hook(&url("https://books.example/catalogue/some-book"), &page(PANEL));
    assert_eq!(hook.result(), "{}");
}

#[test]
fn a_page_without_the_panel_is_no_match() {
    let mut hook = CatalogueKeywordsScrapingHook::new(words(&["fiction"]));
    let other = "<div id=\"panel2\" class=\"tabs-panel\">Fiction</div><div id=\"panel1\">Fiction</div><p id=\"panel1\" class=\"tabs-panel\">Fiction</p>";
    hook.hook(&url("https://books.example/catalogue/x"), &page(other));
    assert_eq!(hook.result(), "{}");
}

#[test]
fn the_panel_may_have_more_classes() {
    let mut hook = CatalogueKeywordsScrapingHook::new(words(&["novel"]));
    let html = "<div class=\"wide tabs-panel\" id=\"panel1\">A <b>NOVEL</b> thing</div>";
    hook.hook(&url("https://books.example/catalogue/x"), &page(html));
    assert_eq!(hook.result(), "{\"/catalogue/x\":[\"novel\"]}");
}

#[test]
fn keywords_are_recorded_in_their_order() {
    let mut hook = CatalogueKeywordsScrapingHook::new(words(&["novel", "poetry", "fiction", "novel"]));
    hook.hook(&url("https://books.example/catalogue/some-book"), &page(PANEL));
    assert_eq!(hook.result(), "{\"/catalogue/some-book\":[\"novel\",\"fiction\"]}");
}

#[test]
fn keywords_in_upper_case_never_match() {
    let mut hook = CatalogueKeywordsScrapingHook::new(words(&["Fiction"]));
    hook.hook(&url("https://books.example/catalogue/some-book"), &page(PANEL));
    assert_eq!(hook.result(), "{}");
}

#[test]
fn the_empty_keyword_matches_no_page() {
    let mut hook = CatalogueKeywordsScrapingHook::new(words(&[""]));
    hook.hook(&url("https://books.example/catalogue/a"), &page("<p>no panel</p>"));
    assert_eq!(hook.result(), "{}");
    hook.hook(&url("https://books.example/catalogue/b"), &page(PANEL));
    assert_eq!(hook.result(), "{}");
}

#[test]
fn the_empty_keyword_is_harmless_beside_others() {
    let mut hook = CatalogueKeywordsScrapingHook::new(words(&["", "fiction", ""]));
    hook.hook(&url("https://books.example/catalogue/a"), &page("<p>no panel</p>"));
    hook.hook(&url("https://books.example/catalogue/b"), &page(PANEL));
    assert_eq!(hook.result(), "{\"/catalogue/b\":[\"fiction\"]}");
}

#[test]
fn pages_with_one_path_share_an_entry() {
    let mut hook = CatalogueKeywordsScrapingHook::new(words(&["fiction", "novel"]));
    hook.hook(&url("https://books.example/catalogue/b?page=1"), &page(PANEL));
    hook.hook(&url("https://books.example/catalogue/a"), &page(PANEL));
    hook.hook(&url("https://books.example/catalogue/b?page=2"), &page("<div id=\"panel1\" class=\"tabs-panel\">novel</div>"));
    assert_eq!(
        hook.result(),
        "{\"/catalogue/a\":[\"fiction\",\"novel\"],\"/catalogue/b\":[\"fiction\",\"novel\",\"novel\"]}"
    );
}

#[test]
fn only_catalogue_pages_are_accepted() {
    let hook = CatalogueKeywordsScrapingHook::new(words(&["fiction"]));
    assert!(hook.can_match(&url("https://books.example/catalogue/some-book")));
    assert!(hook.can_match(&url("https://books.example/catalogue/")));
    assert!(!hook.can_match(&url("https://books.example/catalogue")));
    assert!(!hook.can_match(&url("https://books.example/")));
    assert!(!hook.can_match(&url("https://books.example/shop/catalogue/x")));
}

#[test]
fn a_new_hook_has_an_empty_record() {
    let hook = CatalogueKeywordsScrapingHook::new(words(&["fiction"]));
    assert_eq!(hook.result(), "{}");
}

#[test]
fn cells_become_lower_case_keywords() {
    let cells = vec![
        Some("Fiction".to_owned()),
        None,
        Some("POETRY".to_owned()),
        Some("fiction".to_owned()),
        Some(String::new()),
    ];
    assert_eq!(keywords_from_cells(&cells), words(&["fiction", "", "poetry"]));
}

#[test]
fn no_cells_give_no_keywords() {
    assert_eq!(keywords_from_cells(&Vec::new()), Vec::<String>::new());
}
