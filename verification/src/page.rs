use crate::utils::Id;
use select::document::Document;
use select::node::Node;
use select::predicate::{And, Class, Name};
use vstd::prelude::*;

verus! {

/// `select::document::Document`, carried through as an opaque value.
#[verifier::external_type_specification]
#[verifier::external_body]
pub struct ExDocument(select::document::Document);

/// The largest page, in bytes, that the document reader takes: its buffer
/// grows in steps of up to 64 KiB and cannot pass 2 GiB.
pub const MAX_PAGE_BYTES: usize = 0x7fff_0000;

/// The values of the `href` attributes of the `a` elements of the document
/// that `source` is read as, in document order.
pub uninterp spec fn anchor_hrefs(source: Seq<u8>) -> Seq<Seq<char>>;

/// The texts of the elements of the document that `source` is read as which
/// have the tag `tag`, the id `id` and, among their classes, `class`; one
/// text after the other, in document order.
pub uninterp spec fn element_text(
    source: Seq<u8>,
    tag: Seq<char>,
    id: Seq<char>,
    class: Seq<char>,
) -> Seq<char>;

/// A fetched page: the bytes that came back, and the document they were read
/// as. A page is made by `Page::parse` alone, so its document is always the
/// one that its bytes give; the view of a page is its bytes, and all that is
/// asked of the document is a function of them.
pub struct Page {
    source: Vec<u8>,
    tree: Document,
}

impl View for Page {
    type V = Seq<u8>;

    closed spec fn view(&self) -> Seq<u8> {
        self.source@
    }
}

/// `Document::from_read` on a byte slice. Reading a slice cannot fail, so the
/// one error left is the reader's own: bytes that are not valid UTF-8.
#[verifier::external_body]
fn read_document(source: &[u8]) -> (read: Result<Document, std::io::Error>)
    requires
        source@.len() <= MAX_PAGE_BYTES,
    ensures
        read is Ok <==> vstd::utf8::valid_utf8(source@),
{
    Document::from_read(source)
}

/// `Document::find` with the predicate `Name("a")`, and of each node found
/// `Node::attr("href")`; the nodes without that attribute are passed over.
#[verifier::external_body]
fn find_anchor_hrefs(page: &Page) -> (hrefs: Vec<String>)
    ensures
        crate::text::strings(hrefs@) == anchor_hrefs(page@),
{
    page.tree.find(Name("a")).filter_map(|node| node.attr("href")).map(str::to_owned).collect()
}

/// `Document::find` with the predicate for an element named `tag` whose id
/// is `id` and which has the class `class`, and of each node found
/// `Node::text`, one after the other in document order.
#[verifier::external_body]
fn find_element_text(page: &Page, tag: &str, id: &str, class: &str) -> (text: String)
    ensures
        text@ == element_text(page@, tag@, id@, class@),
{
    let with_id = |node: &Node| Id(id).matches(node.attr("id"));
    let wanted = And(And(Name(tag), with_id), Class(class));
    page.tree.find(wanted).map(|node| node.text()).collect()
}

impl Page {
    /// The document that the page holds: the one that `Page::parse` read
    /// from the bytes of the page.
    pub closed spec fn tree(&self) -> Document {
        self.tree
    }

    /// Reads the bytes of a fetched page as a document. Fails exactly on
    /// bytes that are not valid UTF-8.
    pub fn parse(source: Vec<u8>) -> (parsed: Result<Page, std::io::Error>)
        requires
            source@.len() <= MAX_PAGE_BYTES,
        ensures
            parsed is Ok <==> vstd::utf8::valid_utf8(source@),
            parsed matches Ok(page) ==> page@ == source@,
    {
        match read_document(source.as_slice()) {
            Ok(tree) => Ok(Page { source, tree }),
            Err(error) => Err(error),
        }
    }

    /// The bytes of the page.
    pub fn source(&self) -> (bytes: &[u8])
        ensures
            bytes@ == self@,
    {
        self.source.as_slice()
    }

    /// The document that the bytes were read as.
    pub fn document(&self) -> (document: &Document)
        ensures
            *document == self.tree(),
    {
        &self.tree
    }

    /// The text of the elements with the tag `tag`, the id `id` and the
    /// class `class`, in document order.
    pub fn text_of(&self, tag: &str, id: &str, class: &str) -> (text: String)
        ensures
            text@ == element_text(self@, tag@, id@, class@),
    {
        find_element_text(self, tag, id, class)
    }

    /// The hrefs of the page's anchors, in document order.
    pub fn hrefs(&self) -> (hrefs: Vec<String>)
        ensures
            crate::text::strings(hrefs@) == anchor_hrefs(self@),
    {
        find_anchor_hrefs(self)
    }
}

} // verus!
