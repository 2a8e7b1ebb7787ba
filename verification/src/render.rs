//! The two renderings of a batch: bordered detail blocks, and the compact
//! listing. Both are produced as lines of text, top to bottom.
//!
//! A field that an item does not have gets no line in its detail block.

use vstd::prelude::*;
use crate::item::{
    item_views, opt_text, relic_short_name, reward_views, Item, ItemView, OutputFormat, Reward,
    RewardView,
};
use crate::text::{contains_text, repeat, repeated, texts};
use crate::wrap::{wrap_text, wrapped};

verus! {

/// The width that stands in when the terminal does not tell its own.
pub const FALLBACK_COLUMNS: usize = 80;

/// The columns taken up by the two corners of a border.
pub const BORDER_CORNERS: usize = 2;

/// The indent of the description's second and later lines.
pub const DESCRIPTION_INDENT: usize = 2;

/// A border line: a corner, `width` dashes, a corner.
pub open spec fn border(left: Seq<char>, right: Seq<char>, width: nat) -> Seq<char> {
    left + repeated("─"@, width) + right
}

/// How a flag is written.
pub open spec fn bool_text(b: bool) -> Seq<char> {
    if b {
        "true"@
    } else {
        "false"@
    }
}

/// The line of a field that may be absent: none if it is.
pub open spec fn optional_line(label: Seq<char>, value: Option<Seq<char>>) -> Seq<Seq<char>> {
    match value {
        Some(v) => seq![label + v],
        None => Seq::empty(),
    }
}

/// Every line behind the same lead.
pub open spec fn led(lead: Seq<char>, lines: Seq<Seq<char>>) -> Seq<Seq<char>> {
    Seq::new(lines.len(), |i: int| lead + lines[i])
}

/// The lines of the description, wrapped behind its label so that it stays
/// within the border.
pub open spec fn description_lines(description: Option<Seq<char>>, border_width: nat) -> Seq<
    Seq<char>,
> {
    match description {
        Some(d) => led("│ "@, wrapped(d, "Description:"@, border_width, DESCRIPTION_INDENT as nat)),
        None => Seq::empty(),
    }
}

/// One line for each reward, naming the item it hands out.
pub open spec fn reward_lines(rewards: Option<Seq<RewardView>>) -> Seq<Seq<char>> {
    match rewards {
        Some(rs) => Seq::new(rs.len(), |i: int| "│   - "@ + rs[i].item_name),
        None => Seq::empty(),
    }
}

/// The detail block of one item.
pub open spec fn detail_block(item: ItemView, border_width: nat) -> Seq<Seq<char>> {
    seq![border("┌"@, "┐"@, border_width)] + seq!["│ Name: "@ + item.name] + seq![
        "│ UniqueName: "@ + item.unique_name,
    ] + description_lines(item.description, border_width) + seq!["│ Type: "@ + item.type_] + seq![
        "│ Tradable: "@ + bool_text(item.tradable),
    ] + optional_line("│ Category: "@, item.category) + optional_line(
        "│ Product Category: "@,
        item.product_category,
    ) + optional_line("│ Introduced Date: "@, item.introduced_date) + optional_line(
        "│ Estimated Vault Date: "@,
        item.estimated_vault_date,
    ) + reward_lines(item.rewards) + seq![border("└"@, "┘"@, border_width)]
}

/// The detail blocks of all items, one below the other.
pub open spec fn detail_lines(items: Seq<ItemView>, border_width: nat) -> Seq<Seq<char>>
    decreases items.len(),
{
    if items.len() == 0 {
        Seq::empty()
    } else {
        detail_lines(items.drop_last(), border_width) + detail_block(items.last(), border_width)
    }
}

/// The names in the order of their first occurrence, each once.
pub open spec fn first_occurrences(names: Seq<Seq<char>>) -> Seq<Seq<char>>
    decreases names.len(),
{
    if names.len() == 0 {
        Seq::empty()
    } else if names.drop_last().contains(names.last()) {
        first_occurrences(names.drop_last())
    } else {
        first_occurrences(names.drop_last()).push(names.last())
    }
}

/// The display name of every item.
pub open spec fn display_names(items: Seq<ItemView>) -> Seq<Seq<char>> {
    Seq::new(items.len(), |i: int| items[i].name)
}

/// The short relic name of every item.
pub open spec fn short_names(items: Seq<ItemView>) -> Seq<Seq<char>> {
    Seq::new(items.len(), |i: int| relic_short_name(items[i].name))
}

/// The compact listing: with the relic filter on, each distinct short relic
/// name once, in the order of first occurrence; without it, every display
/// name.
pub open spec fn search_lines(items: Seq<ItemView>, has_relic_arg: bool) -> Seq<Seq<char>> {
    if has_relic_arg {
        first_occurrences(short_names(items))
    } else {
        display_names(items)
    }
}

/// Everything that a run writes for `items`.
pub open spec fn rendered(
    items: Seq<ItemView>,
    output_format: OutputFormat,
    has_relic_arg: bool,
    term_width: nat,
) -> Seq<Seq<char>> {
    match output_format {
        OutputFormat::Default => detail_lines(items, (term_width - BORDER_CORNERS) as nat),
        OutputFormat::Search => search_lines(items, has_relic_arg),
    }
}

/// A name is among the first occurrences exactly if it is among the names.
pub proof fn lemma_first_occurrences_same_names(names: Seq<Seq<char>>, name: Seq<char>)
    ensures
        first_occurrences(names).contains(name) <==> names.contains(name),
    decreases names.len(),
{
    if names.len() > 0 {
        let init = names.drop_last();
        lemma_first_occurrences_same_names(init, name);
        if names.contains(name) {
            let i = choose|i: int| 0 <= i < names.len() && names[i] == name;
            if i < names.len() - 1 {
                assert(init[i] == name);
            }
        }
        if init.contains(name) {
            let i = choose|i: int| 0 <= i < init.len() && init[i] == name;
            assert(names[i] == name);
        }
        if !init.contains(names.last()) {
            let kept = first_occurrences(init);
            assert(kept.push(names.last()).last() == names.last());
            assert(forall|i: int| 0 <= i < kept.len() ==> kept.push(names.last())[i] == kept[i]);
            if kept.contains(name) {
                let i = choose|i: int| 0 <= i < kept.len() && kept[i] == name;
                assert(kept.push(names.last())[i] == name);
            }
        }
    }
}

/// No name occurs twice among the first occurrences.
pub proof fn lemma_first_occurrences_distinct(names: Seq<Seq<char>>)
    ensures
        first_occurrences(names).no_duplicates(),
    decreases names.len(),
{
    if names.len() > 0 {
        let init = names.drop_last();
        lemma_first_occurrences_distinct(init);
        lemma_first_occurrences_same_names(init, names.last());
    }
}

/// The width to render with: the detected one, or the fallback.
pub fn columns_or_fallback(detected: Option<usize>) -> (r: usize)
    ensures
        r == match detected {
            Some(w) => w,
            None => FALLBACK_COLUMNS,
        },
{
    match detected {
        Some(w) => w,
        None => FALLBACK_COLUMNS,
    }
}

fn push_line(block: &mut Vec<String>, label: &str, value: &str)
    ensures
        texts(final(block)@) == texts(old(block)@) + seq![label@ + value@],
{
    let mut line = String::from_str(label);
    line.append(value);
    block.push(line);
    assert(texts(block@) =~= texts(old(block)@) + seq![label@ + value@]);
}

fn push_optional(block: &mut Vec<String>, label: &str, value: &Option<String>)
    ensures
        texts(final(block)@) == texts(old(block)@) + optional_line(label@, opt_text(*value)),
{
    match value {
        Some(v) => {
            push_line(block, label, v.as_str());
        },
        None => {
            assert(texts(block@) =~= texts(block@) + Seq::<Seq<char>>::empty());
        },
    }
}

fn push_border(block: &mut Vec<String>, left: &str, right: &str, width: usize)
    ensures
        texts(final(block)@) == texts(old(block)@) + seq![border(left@, right@, width as nat)],
{
    let mut line = String::from_str(left);
    let dashes = repeat("─", width);
    line.append(dashes.as_str());
    line.append(right);
    block.push(line);
    assert(texts(block@) =~= texts(old(block)@) + seq![border(left@, right@, width as nat)]);
}

fn push_description(block: &mut Vec<String>, description: &Option<String>, border_width: usize)
    ensures
        texts(final(block)@) == texts(old(block)@) + description_lines(
            opt_text(*description),
            border_width as nat,
        ),
{
    match description {
        Some(d) => {
            let desc_lines = wrap_text(d.as_str(), "Description:", border_width, DESCRIPTION_INDENT);
            let ghost target = led("│ "@, texts(desc_lines@));
            let mut i: usize = 0;
            assert(texts(block@) =~= texts(old(block)@) + target.take(0));
            while i < desc_lines.len()
                invariant
                    i <= desc_lines.len(),
                    target == led("│ "@, texts(desc_lines@)),
                    texts(block@) == texts(old(block)@) + target.take(i as int),
                decreases desc_lines.len() - i,
            {
                let ghost before = texts(block@);
                push_line(block, "│ ", desc_lines[i].as_str());
                assert(target.take(i + 1) =~= target.take(i as int) + seq![
                    "│ "@ + desc_lines@[i as int]@,
                ]);
                assert(texts(block@) =~= texts(old(block)@) + target.take(i + 1));
                i += 1;
            }
            assert(target.take(desc_lines.len() as int) =~= target);
        },
        None => {
            assert(texts(block@) =~= texts(block@) + Seq::<Seq<char>>::empty());
        },
    }
}

fn push_rewards(block: &mut Vec<String>, rewards: &Option<Vec<Reward>>)
    ensures
        texts(final(block)@) == texts(old(block)@) + reward_lines(reward_views(*rewards)),
{
    match rewards {
        Some(rs) => {
            let ghost target = reward_lines(reward_views(*rewards));
            let mut i: usize = 0;
            assert(texts(block@) =~= texts(old(block)@) + target.take(0));
            while i < rs.len()
                invariant
                    i <= rs.len(),
                    *rewards == Some(*rs),
                    target == reward_lines(reward_views(*rewards)),
                    texts(block@) == texts(old(block)@) + target.take(i as int),
                decreases rs.len() - i,
            {
                push_line(block, "│   - ", rs[i].item.name.as_str());
                assert(target.take(i + 1) =~= target.take(i as int) + seq![
                    "│   - "@ + rs@[i as int].item.name@,
                ]);
                assert(texts(block@) =~= texts(old(block)@) + target.take(i + 1));
                i += 1;
            }
            assert(target.take(rs.len() as int) =~= target);
        },
        None => {
            assert(texts(block@) =~= texts(block@) + Seq::<Seq<char>>::empty());
        },
    }
}

/// The detail block of one item, within a border `border_width` dashes wide.
pub fn detail_block_lines(item: &Item, border_width: usize) -> (block: Vec<String>)
    ensures
        texts(block@) == detail_block(item@, border_width as nat),
{
    let mut block: Vec<String> = Vec::new();
    push_border(&mut block, "┌", "┐", border_width);
    assert(texts(block@) =~= seq![border("┌"@, "┐"@, border_width as nat)]);
    push_line(&mut block, "│ Name: ", item.name.as_str());
    push_line(&mut block, "│ UniqueName: ", item.unique_name.as_str());
    push_description(&mut block, &item.description, border_width);
    push_line(&mut block, "│ Type: ", item.type_.as_str());
    push_line(&mut block, "│ Tradable: ", if item.tradable {
        "true"
    } else {
        "false"
    });
    push_optional(&mut block, "│ Category: ", &item.category);
    push_optional(&mut block, "│ Product Category: ", &item.product_category);
    push_optional(&mut block, "│ Introduced Date: ", &item.introduced_date);
    push_optional(&mut block, "│ Estimated Vault Date: ", &item.estimated_vault_date);
    push_rewards(&mut block, &item.rewards);
    push_border(&mut block, "└", "┘", border_width);
    block
}

/// The compact listing of `items`.
pub fn search_listing(items: &Vec<Item>, has_relic_arg: bool) -> (lines: Vec<String>)
    ensures
        texts(lines@) == search_lines(item_views(items@), has_relic_arg),
{
    let mut unique_items: Vec<String> = Vec::new();
    let ghost views = item_views(items@);
    let mut i: usize = 0;
    if has_relic_arg {
        assert(texts(unique_items@) =~= first_occurrences(short_names(views).take(0)));
        while i < items.len()
            invariant
                i <= items.len(),
                views == item_views(items@),
                texts(unique_items@) == first_occurrences(short_names(views).take(i as int)),
            decreases items.len() - i,
        {
            let short_name = items[i].get_relic_short_name();
            let ghost upto = short_names(views).take(i as int);
            let ghost next = short_names(views).take(i + 1);
            assert(next.drop_last() =~= upto);
            assert(next.last() == short_name@);
            proof {
                lemma_first_occurrences_same_names(upto, short_name@);
            }
            if !contains_text(&unique_items, short_name.as_str()) {
                let ghost before = unique_items@;
                unique_items.push(short_name);
                assert(texts(unique_items@) =~= texts(before).push(short_name@));
            }
            i += 1;
        }
        assert(short_names(views).take(items.len() as int) =~= short_names(views));
    } else {
        assert(texts(unique_items@) =~= display_names(views).take(0));
        while i < items.len()
            invariant
                i <= items.len(),
                views == item_views(items@),
                texts(unique_items@) == display_names(views).take(i as int),
            decreases items.len() - i,
        {
            let ghost before = unique_items@;
            unique_items.push(items[i].name.clone());
            assert(texts(unique_items@) =~= texts(before).push(items@[i as int].name@));
            assert(display_names(views).take(i + 1) =~= display_names(views).take(i as int).push(
                items@[i as int].name@,
            ));
            i += 1;
        }
        assert(display_names(views).take(items.len() as int) =~= display_names(views));
    }
    unique_items
}

/// The detail blocks of `items`, one below the other.
pub fn detail_listing(items: &Vec<Item>, border_width: usize) -> (lines: Vec<String>)
    ensures
        texts(lines@) == detail_lines(item_views(items@), border_width as nat),
{
    let mut lines: Vec<String> = Vec::new();
    let ghost views = item_views(items@);
    let mut i: usize = 0;
    assert(views.take(0) =~= Seq::<ItemView>::empty());
    assert(texts(lines@) =~= Seq::<Seq<char>>::empty());
    while i < items.len()
        invariant
            i <= items.len(),
            views == item_views(items@),
            texts(lines@) == detail_lines(views.take(i as int), border_width as nat),
        decreases items.len() - i,
    {
        let mut block = detail_block_lines(&items[i], border_width);
        let ghost before = lines@;
        let ghost added = block@;
        lines.append(&mut block);
        assert(texts(lines@) =~= texts(before) + texts(added));
        assert(views.take(i + 1).drop_last() =~= views.take(i as int));
        assert(views.take(i + 1).last() == items@[i as int]@);
        i += 1;
    }
    assert(views.take(items.len() as int) =~= views);
    lines
}

/// The lines that a run writes for `items`, top to bottom.
///
/// In the default format every item gets a bordered block whose border is
/// two columns narrower than the terminal; in the search format the compact
/// listing is written.
pub fn log_items(
    items: Vec<Item>,
    output_format: OutputFormat,
    has_relic_arg: bool,
    term_width: usize,
) -> (lines: Vec<String>)
    requires
        output_format == OutputFormat::Default && items@.len() > 0 ==> term_width
            >= BORDER_CORNERS,
    ensures
        texts(lines@) == rendered(item_views(items@), output_format, has_relic_arg, term_width as nat),
{
    match output_format {
        OutputFormat::Default => {
            if items.len() == 0 {
                let lines: Vec<String> = Vec::new();
                assert(texts(lines@) =~= Seq::<Seq<char>>::empty());
                lines
            } else {
                let border_width = term_width - BORDER_CORNERS;
                detail_listing(&items, border_width)
            }
        },
        OutputFormat::Search => search_listing(&items, has_relic_arg),
    }
}

} // verus!
