use crate::link::PageUrl;
use vstd::prelude::*;

verus! {

/// A set of URLs, kept in the order in which they came in.
pub struct UrlSet {
    items: Vec<PageUrl>,
}

impl View for UrlSet {
    type V = Set<Seq<char>>;

    closed spec fn view(&self) -> Set<Seq<char>> {
        crate::link::texts(self.items@).to_set()
    }
}

impl UrlSet {
    /// No URL is held twice.
    #[verifier::type_invariant]
    spec fn well_formed(&self) -> bool {
        crate::link::texts(self.items@).no_duplicates()
    }

    /// The URLs of the set in the order in which they came in.
    pub closed spec fn order(&self) -> Seq<Seq<char>> {
        crate::link::texts(self.items@)
    }

    /// The empty set.
    pub fn new() -> (set: Self)
        ensures
            set.order() == Seq::<Seq<char>>::empty(),
            set@ == Set::<Seq<char>>::empty(),
    {
        let set = UrlSet { items: Vec::new() };
        assert(crate::link::texts(set.items@) =~= Seq::empty());
        assert(set@ =~= Set::empty());
        set
    }

    /// How many URLs the set holds.
    pub fn len(&self) -> (n: usize)
        ensures
            n == self.order().len(),
            n == self@.len(),
    {
        proof {
            use_type_invariant(self);
            crate::link::texts(self.items@).unique_seq_to_set();
        }
        self.items.len()
    }

    /// The URLs of the set in the order in which they came in.
    pub fn urls(&self) -> (urls: &Vec<PageUrl>)
        ensures
            crate::link::texts(urls@) == self.order(),
            self.order().no_duplicates(),
            self.order().to_set() == self@,
    {
        proof {
            use_type_invariant(self);
        }
        &self.items
    }

    /// Whether `url` is in the set.
    pub fn contains(&self, url: &PageUrl) -> (found: bool)
        ensures
            found == self@.contains(url@),
            found == self.order().contains(url@),
    {
        let ghost held = crate::link::texts(self.items@);
        let mut i: usize = 0;
        while i < self.items.len()
            invariant
                i <= self.items.len(),
                held == crate::link::texts(self.items@),
                forall|j: int| 0 <= j < i ==> held[j] != url@,
            decreases self.items.len() - i,
        {
            if crate::text::same_text(self.items[i].as_str(), url.as_str()) {
                assert(held[i as int] == url@);
                return true;
            }
            i += 1;
        }
        false
    }

    /// Puts `url` into the set; a URL that is in it already stays where it
    /// is, once.
    pub fn insert(&mut self, url: PageUrl)
        ensures
            final(self)@ == old(self)@.insert(url@),
            final(self).order() == if old(self).order().contains(url@) {
                old(self).order()
            } else {
                old(self).order().push(url@)
            },
    {
        proof {
            use_type_invariant(&*self);
        }
        if !self.contains(&url) {
            let ghost held = crate::link::texts(self.items@);
            let mut items: Vec<PageUrl> = Vec::new();
            assert(crate::link::texts(items@) =~= Seq::empty());
            std::mem::swap(&mut items, &mut self.items);
            items.push(url);
            proof {
                assert(crate::link::texts(items@) =~= held.push(url@));
                held.lemma_push_to_set_commute(url@);
                assert forall|i: int, j: int|
                    0 <= i < j < held.push(url@).len() implies held.push(url@)[i] != held.push(
                    url@,
                )[j] by {
                    if j == held.len() {
                        assert(held.contains(held[i]));
                    }
                }
            }
            self.items = items;
        } else {
            assert(self@ =~= self@.insert(url@));
        }
    }
}

} // verus!
