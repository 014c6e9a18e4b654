use vstd::prelude::*;

verus! {

/// The items of a sequence in the order of their first occurrence, each once.
pub open spec fn distinct<A>(items: Seq<A>) -> Seq<A>
    decreases items.len(),
{
    if items.len() == 0 {
        Seq::empty()
    } else {
        let before = distinct(items.drop_last());
        if before.contains(items.last()) {
            before
        } else {
            before.push(items.last())
        }
    }
}

/// A sequence with one more item at its end holds what it held, and that item.
pub proof fn lemma_push_contains<A>(items: Seq<A>, last: A, item: A)
    ensures
        items.push(last).contains(item) <==> items.contains(item) || item == last,
{
    let longer = items.push(last);
    if items.contains(item) {
        let at = choose|at: int| 0 <= at < items.len() && items[at] == item;
        assert(longer[at] == item);
    }
    if item == last {
        assert(longer[items.len() as int] == item);
    }
    if longer.contains(item) {
        let at = choose|at: int| 0 <= at < longer.len() && longer[at] == item;
        if at < items.len() {
            assert(items[at] == item);
        }
    }
}

/// `distinct` keeps exactly the items that occur.
pub proof fn lemma_distinct_contains<A>(items: Seq<A>, item: A)
    ensures
        distinct(items).contains(item) <==> items.contains(item),
    decreases items.len(),
{
    if items.len() > 0 {
        let init = items.drop_last();
        let last = items.last();
        assert(items =~= init.push(last));
        lemma_distinct_contains(init, item);
        lemma_distinct_contains(init, last);
        lemma_push_contains(init, last, item);
        lemma_push_contains(distinct(init), last, item);
    }
}

/// `distinct` holds nothing twice.
pub proof fn lemma_distinct_no_duplicates<A>(items: Seq<A>)
    ensures
        distinct(items).no_duplicates(),
    decreases items.len(),
{
    if items.len() > 0 {
        lemma_distinct_no_duplicates(items.drop_last());
    }
}

/// Whether one of `items` has the text `wanted`.
pub fn holds_text(items: &Vec<String>, wanted: &str) -> (found: bool)
    ensures
        found == crate::text::strings(items@).contains(wanted@),
{
    let ghost texts = crate::text::strings(items@);
    let mut i: usize = 0;
    while i < items.len()
        invariant
            i <= items.len(),
            texts == crate::text::strings(items@),
            forall|j: int| 0 <= j < i ==> texts[j] != wanted@,
        decreases items.len() - i,
    {
        if crate::text::same_text(items[i].as_str(), wanted) {
            assert(texts[i as int] == wanted@);
            return true;
        }
        i += 1;
    }
    false
}

/// The texts of `items` in the order of their first occurrence, each once.
pub fn distinct_texts(items: &Vec<String>) -> (kept: Vec<String>)
    ensures
        crate::text::strings(kept@) == distinct(crate::text::strings(items@)),
        crate::text::strings(kept@).no_duplicates(),
        forall|text: Seq<char>|
            crate::text::strings(kept@).contains(text) <==> crate::text::strings(items@).contains(
                text,
            ),
{
    let ghost texts = crate::text::strings(items@);
    let mut kept: Vec<String> = Vec::new();
    let mut i: usize = 0;
    assert(texts.take(0) =~= Seq::empty());
    while i < items.len()
        invariant
            i <= items.len(),
            texts == crate::text::strings(items@),
            crate::text::strings(kept@) == distinct(texts.take(i as int)),
        decreases items.len() - i,
    {
        let ghost before = crate::text::strings(kept@);
        assert(texts.take(i + 1).drop_last() =~= texts.take(i as int));
        assert(texts.take(i + 1).last() == items@[i as int]@);
        if !holds_text(&kept, items[i].as_str()) {
            kept.push(items[i].clone());
            assert(crate::text::strings(kept@) =~= before.push(items@[i as int]@));
        }
        i += 1;
    }
    proof {
        assert(texts.take(items.len() as int) =~= texts);
        lemma_distinct_no_duplicates(texts);
        assert forall|text: Seq<char>| distinct(texts).contains(text) <==> texts.contains(
            text,
        ) by {
            lemma_distinct_contains(texts, text);
        }
    }
    kept
}

} // verus!
