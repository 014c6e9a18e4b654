use webtools::link::{resolve, PageUrl};
use webtools::unique::{distinct_texts, holds_text};
use webtools::utils::{Id, SpiderError};
use webtools::visited::UrlSet;

fn base() -> PageUrl {
    PageUrl::parse("https://books.example/catalogue/index.html?page=2").unwrap()
}

fn resolved(href: &str) -> Option<String> {
    resolve(&base(), href).map(|url| url.as_str().to_owned())
}

#[test]
fn a_url_is_held_in_its_normal_form() {
    let url = PageUrl::parse("HTTPS://Books.Example:443/a/../b?q=1#top").unwrap();
    assert_eq!(url.as_str(), "https://books.example/b?q=1#top");
    assert_eq!(url.path(), "/b");
}

#[test]
fn the_path_ends_before_the_query() {
    assert_eq!(base().path(), "/catalogue/index.html");
    assert_eq!(PageUrl::parse("https://books.example").unwrap().path(), "/");
}

#[test]
fn a_text_without_a_scheme_is_no_url() {
    assert_eq!(PageUrl::parse("books.example/x").unwrap_err(), url::ParseError::RelativeUrlWithoutBase);
    assert!(PageUrl::parse("").is_err());
}

#[test]
fn urls_are_equal_when_their_normal_forms_are() {
    let one = PageUrl::parse("https://books.example/a").unwrap();
    let other = PageUrl::parse("HTTPS://BOOKS.EXAMPLE/x/../a").unwrap();
    assert!(one == other);
    assert!(one.clone() == one);
    assert!(one != base());
}

#[test]
fn a_rooted_href_is_in_scope() {
    assert_eq!(resolved("/catalogue/x"), Some("https://books.example/catalogue/x".to_owned()));
    assert_eq!(resolved("/"), Some("https://books.example/".to_owned()));
    assert_eq!(resolved("/a/b/../c?x=1#y"), Some("https://books.example/a/c?x=1#y".to_owned()));
}

#[test]
fn hrefs_to_other_places_are_out_of_scope() {
    assert_eq!(resolved("https://other-domain.example/x"), None);
    assert_eq!(resolved("#fragment"), None);
    assert_eq!(resolved("//other-domain.example/x"), None);
    assert_eq!(resolved("catalogue/x"), None);
    assert_eq!(resolved("../x"), None);
    assert_eq!(resolved("?page=3"), None);
    assert_eq!(resolved("mailto:someone@books.example"), None);
    assert_eq!(resolved(""), None);
}

#[test]
fn hrefs_that_name_another_host_are_out_of_scope() {
    assert_eq!(resolved("/\\other-domain.example/x"), None);
    assert_eq!(resolved("/\t/other-domain.example/x"), None);
    assert_eq!(resolved("/\n\\other-domain.example/x"), None);
    assert_eq!(resolved("/\r\t/other-domain.example:8080/x"), None);
    assert_eq!(resolved("/\\books.example/x"), None);
}

#[test]
fn a_resolved_link_keeps_scheme_host_and_port() {
    let base = PageUrl::parse("http://books.example:8080/shop/").unwrap();
    let link = resolve(&base, "/catalogue/x?y=1").unwrap();
    assert_eq!(link.as_str(), "http://books.example:8080/catalogue/x?y=1");
    assert_eq!(resolve(&base, "/\t/books.example/x"), None);
    assert_eq!(resolve(&base, "/\t/books.example:8080/x").unwrap().as_str(), "http://books.example:8080/x");
}

#[test]
fn a_base_without_a_host_has_no_site() {
    let base = PageUrl::parse("file:///tmp/site/index.html").unwrap();
    assert_eq!(resolve(&base, "/tmp/site/a.html"), None);
    let other = PageUrl::parse("data:text/plain,x").unwrap();
    assert_eq!(resolve(&other, "/a"), None);
}

#[test]
fn id_matches_the_same_value_only() {
    let id = Id("panel1");
    assert!(id.matches(Some("panel1")));
    assert!(!id.matches(Some("panel10")));
    assert!(!id.matches(Some("")));
    assert!(!id.matches(None));
    assert_eq!(id, Id("panel1"));
}

#[test]
fn errors_are_tagged_with_their_origin() {
    let parse = SpiderError::from(url::ParseError::EmptyHost);
    assert!(matches!(parse, SpiderError::Parse(url::ParseError::EmptyHost)));
    let io = SpiderError::from(std::io::Error::new(std::io::ErrorKind::InvalidData, "bad"));
    assert!(matches!(io, SpiderError::Io(ref error) if error.kind() == std::io::ErrorKind::InvalidData));
    let transport = reqwest::Client::new().get("no scheme").build().unwrap_err();
    assert!(matches!(SpiderError::from(transport), SpiderError::Reqwest(ref error) if error.is_builder()));
}

#[test]
fn distinct_keeps_first_occurrences() {
    let items: Vec<String> = ["b", "a", "b", "c", "a"].iter().map(|item| item.to_string()).collect();
    assert_eq!(distinct_texts(&items), vec!["b".to_owned(), "a".to_owned(), "c".to_owned()]);
    assert!(holds_text(&items, "c"));
    assert!(!holds_text(&items, "d"));
    assert!(!holds_text(&Vec::new(), ""));
}

#[test]
fn a_set_holds_each_url_once() {
    let mut set = UrlSet::new();
    assert_eq!(set.len(), 0);
    assert!(!set.contains(&base()));
    set.insert(base());
    set.insert(PageUrl::parse("https://books.example/b").unwrap());
    set.insert(base());
    assert_eq!(set.len(), 2);
    assert!(set.contains(&base()));
    assert!(!set.contains(&PageUrl::parse("https://books.example/c").unwrap()));
    let order: Vec<&str> = set.urls().iter().map(|url| url.as_str()).collect();
    assert_eq!(order, vec!["https://books.example/catalogue/index.html?page=2", "https://books.example/b"]);
}
