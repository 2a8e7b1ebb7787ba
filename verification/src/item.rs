//! The item record and the small enumerations that steer a run.

use vstd::prelude::*;
use crate::text::{
    is_word, join, join_words, lemma_words_append_word, lemma_words_are_words,
    lemma_words_of_join, lowercase_of, same_text, slice_texts, split_whitespace, starts_with,
    to_lowercase, words_of,
};

verus! {

/// The item that a reward hands out.
#[derive(Debug, Clone, PartialEq, Eq)]
pub struct RewardItem {
    pub name: String,
    pub unique_name: String,
}

/// One entry of an item's reward table.
#[derive(Debug, Clone, PartialEq, Eq)]
pub struct Reward {
    pub rarity: String,
    /// The drop probability, a number between 0 and 1, held as the bit
    /// pattern of its IEEE 754 double.
    pub chance_bits: u64,
    pub item: RewardItem,
}

/// A part that an item is built from.
#[derive(Debug, Clone, PartialEq, Eq)]
pub struct Component {
    pub name: String,
    pub unique_name: String,
    pub description: Option<String>,
    pub type_: Option<String>,
    pub tradable: bool,
    pub category: Option<String>,
    pub product_category: Option<String>,
}

/// One record of the batch. `name` and `unique_name` are never empty in the
/// source data; no function here depends on that.
#[derive(Debug, Clone, PartialEq, Eq)]
pub struct Item {
    pub name: String,
    pub unique_name: String,
    pub description: Option<String>,
    pub type_: String,
    pub tradable: bool,
    pub category: Option<String>,
    pub product_category: Option<String>,
    pub components: Option<Vec<Component>>,
    pub introduced_date: Option<String>,
    pub estimated_vault_date: Option<String>,
    pub rewards: Option<Vec<Reward>>,
}

/// A reward as the contracts see it.
pub struct RewardView {
    pub rarity: Seq<char>,
    pub chance_bits: u64,
    pub item_name: Seq<char>,
    pub item_unique_name: Seq<char>,
}

/// A component as the contracts see it.
pub struct ComponentView {
    pub name: Seq<char>,
    pub unique_name: Seq<char>,
    pub description: Option<Seq<char>>,
    pub type_: Option<Seq<char>>,
    pub tradable: bool,
    pub category: Option<Seq<char>>,
    pub product_category: Option<Seq<char>>,
}

/// An item as the contracts see it: every string by its characters, every
/// list by its sequence.
pub struct ItemView {
    pub name: Seq<char>,
    pub unique_name: Seq<char>,
    pub description: Option<Seq<char>>,
    pub type_: Seq<char>,
    pub tradable: bool,
    pub category: Option<Seq<char>>,
    pub product_category: Option<Seq<char>>,
    pub components: Option<Seq<ComponentView>>,
    pub introduced_date: Option<Seq<char>>,
    pub estimated_vault_date: Option<Seq<char>>,
    pub rewards: Option<Seq<RewardView>>,
}

/// The characters of an optional string.
pub open spec fn opt_text(o: Option<String>) -> Option<Seq<char>> {
    match o {
        Some(s) => Some(s@),
        None => None,
    }
}

impl View for Reward {
    type V = RewardView;

    open spec fn view(&self) -> RewardView {
        RewardView {
            rarity: self.rarity@,
            chance_bits: self.chance_bits,
            item_name: self.item.name@,
            item_unique_name: self.item.unique_name@,
        }
    }
}

impl View for Component {
    type V = ComponentView;

    open spec fn view(&self) -> ComponentView {
        ComponentView {
            name: self.name@,
            unique_name: self.unique_name@,
            description: opt_text(self.description),
            type_: opt_text(self.type_),
            tradable: self.tradable,
            category: opt_text(self.category),
            product_category: opt_text(self.product_category),
        }
    }
}

/// The views of an optional list of components.
pub open spec fn component_views(o: Option<Vec<Component>>) -> Option<Seq<ComponentView>> {
    match o {
        Some(v) => Some(Seq::new(v@.len(), |i: int| v@[i]@)),
        None => None,
    }
}

/// The views of an optional list of rewards.
pub open spec fn reward_views(o: Option<Vec<Reward>>) -> Option<Seq<RewardView>> {
    match o {
        Some(v) => Some(Seq::new(v@.len(), |i: int| v@[i]@)),
        None => None,
    }
}

impl View for Item {
    type V = ItemView;

    open spec fn view(&self) -> ItemView {
        ItemView {
            name: self.name@,
            unique_name: self.unique_name@,
            description: opt_text(self.description),
            type_: self.type_@,
            tradable: self.tradable,
            category: opt_text(self.category),
            product_category: opt_text(self.product_category),
            components: component_views(self.components),
            introduced_date: opt_text(self.introduced_date),
            estimated_vault_date: opt_text(self.estimated_vault_date),
            rewards: reward_views(self.rewards),
        }
    }
}

/// The views of a list of items.
pub open spec fn item_views(items: Seq<Item>) -> Seq<ItemView> {
    Seq::new(items.len(), |i: int| items[i]@)
}

/// The four relic tiers.
#[derive(Debug, Clone, Copy, PartialEq, Eq, Structural)]
pub enum RelicType {
    Lith,
    Meso,
    Neo,
    Axi,
}

/// How the surviving items are written out.
#[derive(Debug, Clone, Copy, PartialEq, Eq, Structural)]
pub enum OutputFormat {
    /// One bordered block per item.
    Default,
    /// One short line per item.
    Search,
}

impl Default for OutputFormat {
    fn default() -> (r: OutputFormat)
        ensures
            r == OutputFormat::Default,
    {
        OutputFormat::Default
    }
}

/// The lower-case tag that the identifiers of a tier's relics begin with.
pub open spec fn tag_of(relic_type: RelicType) -> Seq<char> {
    match relic_type {
        RelicType::Lith => "lith"@,
        RelicType::Meso => "meso"@,
        RelicType::Neo => "neo"@,
        RelicType::Axi => "axi"@,
    }
}

/// The tier that a lower-case text names, if it names one.
pub open spec fn relic_type_named(lowered: Seq<char>) -> Option<RelicType> {
    if lowered == "lith"@ {
        Some(RelicType::Lith)
    } else if lowered == "meso"@ {
        Some(RelicType::Meso)
    } else if lowered == "neo"@ {
        Some(RelicType::Neo)
    } else if lowered == "axi"@ {
        Some(RelicType::Axi)
    } else {
        None
    }
}

/// At most the first two of the words.
pub open spec fn first_two(words: Seq<Seq<char>>) -> Seq<Seq<char>> {
    if words.len() <= 2 {
        words
    } else {
        words.take(2)
    }
}

/// The short name of a relic: the first two words of its display name,
/// joined by one space.
pub open spec fn relic_short_name(name: Seq<char>) -> Seq<char> {
    join_words(first_two(words_of(name)))
}

impl RelicType {
    /// The tier's tag.
    pub fn tag(&self) -> (r: &'static str)
        ensures
            r@ == tag_of(*self),
    {
        match self {
            RelicType::Lith => "lith",
            RelicType::Meso => "meso",
            RelicType::Neo => "neo",
            RelicType::Axi => "axi",
        }
    }

    /// Reads a tier from a text that is already in lower case.
    pub fn from_lowercase(lowered: &str) -> (r: Option<RelicType>)
        ensures
            r == relic_type_named(lowered@),
    {
        if same_text(lowered, "lith") {
            Some(RelicType::Lith)
        } else if same_text(lowered, "meso") {
            Some(RelicType::Meso)
        } else if same_text(lowered, "neo") {
            Some(RelicType::Neo)
        } else if same_text(lowered, "axi") {
            Some(RelicType::Axi)
        } else {
            None
        }
    }

    /// Reads a tier from its name, whatever the case of its letters. Any
    /// other text names no tier.
    pub fn from_str(s: &str) -> (r: Option<RelicType>)
        ensures
            r == relic_type_named(lowercase_of(s@)),
    {
        let lowered = to_lowercase(s);
        RelicType::from_lowercase(lowered.as_str())
    }
}

/// Whether a text that is already in lower case begins with the tier's tag.
pub fn lowered_is_relic_of_type(lowered: &str, relic_type: &RelicType) -> (r: bool)
    ensures
        r == tag_of(*relic_type).is_prefix_of(lowered@),
{
    starts_with(lowered, relic_type.tag())
}

/// Whether `s`, put in lower case, begins with the tier's tag.
pub fn str_is_valid_relic_of_type(s: &str, relic_type: &RelicType) -> (r: bool)
    ensures
        r == tag_of(*relic_type).is_prefix_of(lowercase_of(s@)),
{
    let s_lowercase = to_lowercase(s);
    lowered_is_relic_of_type(s_lowercase.as_str(), relic_type)
}

/// Joins at most the first two of the words with one space.
pub fn join_first_two(words: &Vec<&str>) -> (r: String)
    ensures
        r@ == join_words(first_two(slice_texts(words@))),
{
    let mut segments: Vec<&str> = Vec::new();
    if words.len() >= 1 {
        segments.push(words[0]);
    }
    if words.len() >= 2 {
        segments.push(words[1]);
    }
    assert(slice_texts(segments@) =~= first_two(slice_texts(words@)));
    join(&segments)
}

impl Item {
    /// The item's short relic name.
    pub fn get_relic_short_name(&self) -> (r: String)
        ensures
            r@ == relic_short_name(self.name@),
    {
        let words = split_whitespace(self.name.as_str());
        join_first_two(&words)
    }
}

/// The short name is made of the first two words of the name, and of
/// nothing else: split again, it gives exactly those words.
pub proof fn lemma_short_name_words(name: Seq<char>)
    ensures
        words_of(relic_short_name(name)) == first_two(words_of(name)),
{
    lemma_words_are_words(name);
    lemma_words_of_join(first_two(words_of(name)));
}

/// A name that is a single word is its own short name.
pub proof fn lemma_short_name_of_word(name: Seq<char>)
    requires
        is_word(name),
    ensures
        relic_short_name(name) == name,
{
    lemma_words_append_word(Seq::empty(), name);
    assert(Seq::<char>::empty() + name =~= name);
    assert(Seq::<Seq<char>>::empty().push(name) =~= seq![name]);
}

} // verus!
