use webtools::page::{Page, MAX_PAGE_BYTES};

#[test]
fn anchors_give_their_hrefs_in_document_order() {
    let html = "<html><head><link href=\"/style.css\"></head><body><a href=\"/a\">a</a><div><a href=\"b\">b</a><a name=\"top\">c</a></div><A HREF=\"/a\">again</A><a href=\"\">empty</a></body></html>";
    let page = Page::parse(html.as_bytes().to_vec()).unwrap();
    assert_eq!(page.hrefs(), vec!["/a".to_owned(), "b".to_owned(), "/a".to_owned(), String::new()]);
    assert_eq!(page.source(), html.as_bytes());
    assert!(page.document().nodes.len() > 5);
}

#[test]
fn a_page_without_anchors_has_no_hrefs() {
    let page = Page::parse(b"just text".to_vec()).unwrap();
    assert!(page.hrefs().is_empty());
    assert!(Page::parse(Vec::new()).unwrap().hrefs().is_empty());
}

#[test]
fn bytes_that_are_no_text_are_refused() {
    let error = Page::parse(vec![0x61, 0xc3, 0x28]).err().unwrap();
    assert_eq!(error.kind(), std::io::ErrorKind::InvalidData);
    assert!(Page::parse("caf\u{e9} \u{1f600}".as_bytes().to_vec()).is_ok());
}

#[test]
fn the_page_limit_is_just_under_two_gib() {
    assert_eq!(MAX_PAGE_BYTES, 2147418112);
}

#[test]
fn elements_are_found_by_tag_id_and_class() {
    let html = "<div id=\"one\" class=\"box wide\">first <b>bold</b></div><p id=\"one\" class=\"box\">para</p><div id=\"two\" class=\"box\">second</div><div id=\"one\" class=\"boxes\">third</div><div class=\"box\" id=\"one\">fourth</div>";
    let page = Page::parse(html.as_bytes().to_vec()).unwrap();
    assert_eq!(page.text_of("div", "one", "box"), "first boldfourth");
    assert_eq!(page.text_of("p", "one", "box"), "para");
    assert_eq!(page.text_of("div", "one", "narrow"), "");
    assert_eq!(page.text_of("span", "one", "box"), "");
}
