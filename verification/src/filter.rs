//! The two filters of a run. Each keeps the items that meet its condition,
//! in their order, and drops the others.

use vstd::prelude::*;
use crate::item::{str_is_valid_relic_of_type, tag_of, Item, ItemView, RelicType};
use crate::text::{lowercase_of, same_text, starts_with, to_lowercase};

verus! {

/// Whether the item is classified as a relic.
pub open spec fn is_relic(item: ItemView) -> bool {
    item.category == Some("Relic"@)
}

/// What the relic filter keeps: the relics, and with a tier given only those
/// whose identifier, in lower case, begins with the tier's tag.
pub open spec fn relic_matches(item: ItemView, relic_type: Option<RelicType>) -> bool {
    &&& is_relic(item)
    &&& match relic_type {
        Some(t) => tag_of(t).is_prefix_of(lowercase_of(item.unique_name)),
        None => true,
    }
}

/// Whether a term that is already in lower case begins one of the two
/// lower-case texts.
pub open spec fn begins_either(term: Seq<char>, name: Seq<char>, unique_name: Seq<char>) -> bool {
    term.is_prefix_of(name) || term.is_prefix_of(unique_name)
}

/// What the search filter keeps: the items whose display name or identifier
/// begins with the term, letter case set aside.
pub open spec fn search_matches(item: ItemView, term: Seq<char>) -> bool {
    begins_either(lowercase_of(term), lowercase_of(item.name), lowercase_of(item.unique_name))
}

/// The relic filter's condition, as a predicate on items.
pub open spec fn relic_condition(relic_type: Option<RelicType>) -> spec_fn(Item) -> bool {
    |item: Item| relic_matches(item@, relic_type)
}

/// The search filter's condition, as a predicate on items.
pub open spec fn search_condition(term: Seq<char>) -> spec_fn(Item) -> bool {
    |item: Item| search_matches(item@, term)
}

/// The items that the search filter lets through: all of them without a
/// term.
pub open spec fn search_filtered(items: Seq<Item>, term: Option<Seq<char>>) -> Seq<Item> {
    match term {
        Some(t) => items.filter(search_condition(t)),
        None => items,
    }
}

/// Filtering by one more item: it is appended if it meets the condition.
pub proof fn lemma_filter_next(items: Seq<Item>, i: int, keep: spec_fn(Item) -> bool)
    requires
        0 <= i < items.len(),
    ensures
        items.take(i + 1).filter(keep) == if keep(items[i]) {
            items.take(i).filter(keep).push(items[i])
        } else {
            items.take(i).filter(keep)
        },
{
    reveal(Seq::filter);
    assert(items.take(i + 1).drop_last() =~= items.take(i));
}

/// Every item that a filter keeps is one of the items it was given, and
/// meets the filter's condition.
pub proof fn lemma_filter_keeps(items: Seq<Item>, keep: spec_fn(Item) -> bool)
    ensures
        forall|i: int|
            0 <= i < items.filter(keep).len() ==> items.contains(#[trigger] items.filter(keep)[i])
                && keep(items.filter(keep)[i]),
    decreases items.len(),
{
    reveal(Seq::filter);
    if items.len() > 0 {
        let init = items.drop_last();
        lemma_filter_keeps(init, keep);
        assert forall|i: int| 0 <= i < items.filter(keep).len() implies items.contains(
            #[trigger] items.filter(keep)[i],
        ) && keep(items.filter(keep)[i]) by {
            if i < init.filter(keep).len() {
                let x = init.filter(keep)[i];
                assert(init.contains(x));
                let j = choose|j: int| 0 <= j < init.len() && init[j] == x;
                assert(items[j] == x);
            } else {
                assert(items[items.len() - 1] == items.last());
            }
        }
    }
}

/// Filtering what a filter has kept, by the same condition, changes nothing.
pub proof fn lemma_filter_twice(items: Seq<Item>, keep: spec_fn(Item) -> bool)
    ensures
        items.filter(keep).filter(keep) == items.filter(keep),
    decreases items.len(),
{
    reveal(Seq::filter);
    if items.len() > 0 {
        let init = items.drop_last();
        lemma_filter_twice(init, keep);
        if keep(items.last()) {
            let once = init.filter(keep).push(items.last());
            assert(once.drop_last() =~= init.filter(keep));
            assert(once.last() == items.last());
        }
    }
}

/// Searching twice for the same term keeps what searching once keeps.
pub proof fn lemma_search_idempotent(items: Seq<Item>, term: Option<Seq<char>>)
    ensures
        search_filtered(search_filtered(items, term), term) == search_filtered(items, term),
{
    if let Some(t) = term {
        lemma_filter_twice(items, search_condition(t));
    }
}

/// Whether the item is classified as a relic.
pub fn item_is_relic(item: &Item) -> (r: bool)
    ensures
        r == is_relic(item@),
{
    match &item.category {
        Some(category) => same_text(category.as_str(), "Relic"),
        None => false,
    }
}

/// Whether the relic filter keeps the item.
pub fn item_matches_relic_type(item: &Item, relic_type: &Option<RelicType>) -> (r: bool)
    ensures
        r == relic_matches(item@, *relic_type),
{
    let is_relic = item_is_relic(item);
    let matches_relic_type = match relic_type {
        Some(relic_type) => str_is_valid_relic_of_type(item.unique_name.as_str(), relic_type),
        None => true,
    };
    is_relic && matches_relic_type
}

/// Whether the lower-case term begins one of the two lower-case texts.
pub fn lowered_begins_either(term: &str, name: &str, unique_name: &str) -> (r: bool)
    ensures
        r == begins_either(term@, name@, unique_name@),
{
    starts_with(name, term) || starts_with(unique_name, term)
}

/// Whether the item's display name or identifier begins with the term, which
/// is already in lower case.
pub fn item_matches_lowered_term(item: &Item, term_lowercase: &str) -> (r: bool)
    ensures
        r == begins_either(
            term_lowercase@,
            lowercase_of(item.name@),
            lowercase_of(item.unique_name@),
        ),
{
    let name = to_lowercase(item.name.as_str());
    let unique_name = to_lowercase(item.unique_name.as_str());
    lowered_begins_either(term_lowercase, name.as_str(), unique_name.as_str())
}

/// Keeps the relics among `items`, and with a tier given only that tier's.
///
/// Without a tier every relic stays: a tier that could not be read narrows
/// nothing.
pub fn filter_items_by_relic_type(items: Vec<Item>, relic_type: Option<RelicType>) -> (kept: Vec<
    Item,
>)
    ensures
        kept@ == items@.filter(relic_condition(relic_type)),
        forall|i: int|
            0 <= i < kept@.len() ==> items@.contains(#[trigger] kept@[i]) && is_relic(kept@[i]@),
        forall|i: int|
            relic_type is Some && 0 <= i < kept@.len() ==> tag_of(relic_type->0).is_prefix_of(
                lowercase_of((#[trigger] kept@[i]).unique_name@),
            ),
{
    let ghost keep = relic_condition(relic_type);
    let ghost all = items@;
    let mut kept: Vec<Item> = Vec::new();
    proof {
        reveal(Seq::filter);
        assert(all.take(0).filter(keep) =~= Seq::<Item>::empty());
    }
    for item in it: items
        invariant
            it.seq() == all,
            keep == relic_condition(relic_type),
            kept@ == all.take(it.index@).filter(keep),
    {
        proof {
            lemma_filter_next(all, it.index@, keep);
        }
        if item_matches_relic_type(&item, &relic_type) {
            kept.push(item);
        }
    }
    proof {
        assert(all.take(all.len() as int) =~= all);
        lemma_filter_keeps(all, keep);
    }
    kept
}

/// Keeps the items whose display name or identifier begins with the term,
/// letter case set aside. Without a term every item stays.
pub fn filter_items_by_search_term(items: Vec<Item>, search_term: Option<String>) -> (kept: Vec<
    Item,
>)
    ensures
        kept@ == search_filtered(items@, crate::item::opt_text(search_term)),
        search_term is None ==> kept@ == items@,
        forall|i: int| 0 <= i < kept@.len() ==> items@.contains(#[trigger] kept@[i]),
        forall|i: int|
            search_term is Some && 0 <= i < kept@.len() ==> search_matches(
                (#[trigger] kept@[i])@,
                search_term->0@,
            ),
{
    match search_term {
        Some(term) => {
            let term_lowercase = to_lowercase(term.as_str());
            let ghost keep = search_condition(term@);
            let ghost all = items@;
            let mut kept: Vec<Item> = Vec::new();
            proof {
                reveal(Seq::filter);
                assert(all.take(0).filter(keep) =~= Seq::<Item>::empty());
            }
            for item in it: items
                invariant
                    it.seq() == all,
                    keep == search_condition(term@),
                    term_lowercase@ == lowercase_of(term@),
                    kept@ == all.take(it.index@).filter(keep),
            {
                proof {
                    lemma_filter_next(all, it.index@, keep);
                }
                if item_matches_lowered_term(&item, term_lowercase.as_str()) {
                    kept.push(item);
                }
            }
            proof {
                assert(all.take(all.len() as int) =~= all);
                lemma_filter_keeps(all, keep);
            }
            kept
        },
        None => {
            assert forall|i: int| 0 <= i < items@.len() implies items@.contains(
                #[trigger] items@[i],
            ) by {}
            items
        },
    }
}

} // verus!
