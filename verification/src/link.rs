use vstd::prelude::*;
use vstd::std_specs::cmp::PartialEqSpecImpl;

verus! {

/// What `url::Url::parse` makes of a text: the serialization of the URL it
/// parses to, or `None` where it is no absolute URL.
pub uninterp spec fn url_serialization(input: Seq<char>) -> Option<Seq<char>>;

/// What `url::Url::join` makes of a reference against a base, both given as
/// texts: the serialization of the resulting URL, or `None` where the base or
/// the reference cannot be parsed.
pub uninterp spec fn url_joined(base: Seq<char>, reference: Seq<char>) -> Option<Seq<char>>;

/// What `url::Url::path` gives for the URL that a text parses to (the empty
/// text where it parses to none).
pub uninterp spec fn url_path(url: Seq<char>) -> Seq<char>;

/// The origin of the URL that a text parses to, where `url::Url::origin`
/// gives it one made of scheme, host and port: that origin as
/// `url::Origin::ascii_serialization` writes it. `None` where the origin is
/// opaque (a scheme other than `http`, `https`, `ftp`, `ws` or `wss`), and
/// where the text parses to no URL.
pub uninterp spec fn url_origin(url: Seq<char>) -> Option<Seq<char>>;

/// An absolute URL, held as the serialization that the URL parser gave it.
/// Two of them are the same URL exactly when their serializations are equal.
#[derive(Debug)]
pub struct PageUrl {
    text: String,
}

impl View for PageUrl {
    type V = Seq<char>;

    closed spec fn view(&self) -> Seq<char> {
        self.text@
    }
}

impl Clone for PageUrl {
    fn clone(&self) -> (copy: Self)
        ensures
            copy@ == self@,
    {
        PageUrl { text: self.text.clone() }
    }
}

impl PartialEq for PageUrl {
    fn eq(&self, other: &Self) -> (same: bool) {
        self.text == other.text
    }
}

impl PartialEqSpecImpl for PageUrl {
    open spec fn obeys_eq_spec() -> bool {
        true
    }

    open spec fn eq_spec(&self, other: &Self) -> bool {
        self@ == other@
    }
}

impl Eq for PageUrl {}

/// The serializations of a run of URLs, in order.
pub open spec fn texts(urls: Seq<PageUrl>) -> Seq<Seq<char>> {
    urls.map_values(|url: PageUrl| url@)
}

/// An href is in scope when it is root-relative: it begins with one `/`,
/// and not with the `//` or `/\` by which the URL parser is told another
/// host.
pub open spec fn in_scope(href: Seq<char>) -> bool {
    &&& href.len() >= 1
    &&& href[0] == '/'
    &&& !(href.len() >= 2 && (href[1] == '/' || href[1] == '\\'))
}

/// `url` lies on the site of `base`: both have the same origin, made of
/// scheme, host and port.
pub open spec fn same_site(base: Seq<char>, url: Seq<char>) -> bool {
    url_origin(base) is Some && url_origin(url) == url_origin(base)
}

/// The URL that an href found on a page of the site at `base` leads to: the
/// href joined to `base`, if the href is in scope, the join is well formed
/// and its result lies on the site of `base`.
pub open spec fn resolved(base: Seq<char>, href: Seq<char>) -> Option<Seq<char>> {
    if in_scope(href) {
        match url_joined(base, href) {
            Some(url) => if same_site(base, url) {
                Some(url)
            } else {
                None
            },
            None => None,
        }
    } else {
        None
    }
}

/// Every URL that an href resolves to lies on the site of the base.
pub proof fn lemma_resolved_stays_on_site(base: Seq<char>, href: Seq<char>)
    ensures
        resolved(base, href) matches Some(url) ==> url_origin(url) == url_origin(base)
            && url_origin(base) is Some && in_scope(href),
{
}

/// A text begins with a prefix of two characters exactly when its first two
/// characters are those.
proof fn lemma_prefix_of_two(prefix: Seq<char>, text: Seq<char>)
    requires
        prefix.len() == 2,
    ensures
        prefix.is_prefix_of(text) <==> text.len() >= 2 && text[0] == prefix[0] && text[1]
            == prefix[1],
{
    if text.len() >= 2 {
        assert(text.subrange(0, 2)[0] == text[0]);
        assert(text.subrange(0, 2)[1] == text[1]);
        if text[0] == prefix[0] && text[1] == prefix[1] {
            assert(text.subrange(0, 2) =~= prefix);
        }
    }
}

/// `url::Url::parse` on `input`, the URL handed back as its serialization
/// (`String::from`). It succeeds exactly where the parser accepts `input`.
#[verifier::external_body]
fn parse_url(input: &str) -> (parsed: Result<String, url::ParseError>)
    ensures
        match parsed {
            Ok(text) => url_serialization(input@) == Some(text@),
            Err(_) => url_serialization(input@) is None,
        },
{
    url::Url::parse(input).map(String::from)
}

/// `url::Url::join` of `reference` against the URL that `base` parses to, the
/// result handed back as its serialization; `None` where either does not
/// parse.
#[verifier::external_body]
fn join_url(base: &str, reference: &str) -> (joined: Option<String>)
    ensures
        match joined {
            Some(text) => url_joined(base@, reference@) == Some(text@),
            None => url_joined(base@, reference@) is None,
        },
{
    url::Url::parse(base).ok()?.join(reference).ok().map(String::from)
}

/// `url::Url::path` of the URL that `url` parses to, as an owned text; empty
/// where `url` does not parse.
#[verifier::external_body]
fn path_of(url: &str) -> (path: String)
    ensures
        path@ == url_path(url@),
{
    url::Url::parse(url).map(|parsed| parsed.path().to_owned()).unwrap_or_default()
}

/// `url::Url::origin` of the URL that `url` parses to, written by
/// `url::Origin::ascii_serialization` where it is made of scheme, host and
/// port; `None` where it is opaque, and where `url` does not parse.
#[verifier::external_body]
fn origin_of(url: &str) -> (origin: Option<String>)
    ensures
        match origin {
            Some(text) => url_origin(url@) == Some(text@),
            None => url_origin(url@) is None,
        },
{
    let origin = url::Url::parse(url).ok()?.origin();
    match origin {
        url::Origin::Tuple(..) => Some(origin.ascii_serialization()),
        url::Origin::Opaque(_) => None,
    }
}

impl PageUrl {
    /// Parses an absolute URL. Fails, with the parser's error, exactly on the
    /// texts that the parser rejects.
    pub fn parse(input: &str) -> (parsed: Result<PageUrl, url::ParseError>)
        ensures
            match parsed {
                Ok(url) => url_serialization(input@) == Some(url@),
                Err(_) => url_serialization(input@) is None,
            },
    {
        match parse_url(input) {
            Ok(text) => Ok(PageUrl { text }),
            Err(error) => Err(error),
        }
    }

    /// The serialization of the URL.
    pub fn as_str(&self) -> (text: &str)
        ensures
            text@ == self@,
    {
        self.text.as_str()
    }

    /// The path of the URL, from its first `/` up to the query or fragment.
    pub fn path(&self) -> (path: String)
        ensures
            path@ == url_path(self@),
    {
        path_of(self.text.as_str())
    }
}

/// Whether `url` lies on the site of `base`.
fn on_site(base: &str, url: &str) -> (same: bool)
    ensures
        same == same_site(base@, url@),
{
    match origin_of(base) {
        Some(home) => match origin_of(url) {
            Some(origin) => crate::text::same_text(home.as_str(), origin.as_str()),
            None => false,
        },
        None => false,
    }
}

/// Resolves an href found on a page against the origin of the crawl. Only
/// root-relative hrefs are in scope; any other href, one that the URL parser
/// rejects, and one that leads off the site, gives `None`.
pub fn resolve(base: &PageUrl, href: &str) -> (link: Option<PageUrl>)
    ensures
        match link {
            Some(url) => resolved(base@, href@) == Some(url@),
            None => resolved(base@, href@) is None,
        },
{
    let rooted = crate::text::starts_with(href, "/");
    let other_host = crate::text::starts_with(href, "//") || crate::text::starts_with(
        href,
        "/\\",
    );
    proof {
        reveal_strlit("/");
        reveal_strlit("//");
        reveal_strlit("/\\");
        let one = "/"@;
        assert(one.len() == 1 && one[0] == '/');
        if href@.len() >= 1 {
            assert(href@.subrange(0, 1)[0] == href@[0]);
            if href@[0] == '/' {
                assert(href@.subrange(0, 1) =~= one);
            }
        }
        lemma_prefix_of_two("//"@, href@);
        lemma_prefix_of_two("/\\"@, href@);
        assert((rooted && !other_host) == in_scope(href@));
    }
    if rooted && !other_host {
        match join_url(base.as_str(), href) {
            Some(text) => {
                if on_site(base.as_str(), text.as_str()) {
                    Some(PageUrl { text })
                } else {
                    None
                }
            },
            None => None,
        }
    } else {
        None
    }
}

} // verus!
