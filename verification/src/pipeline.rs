//! A whole run: reading the flags, narrowing the batch, and rendering it.

use vstd::prelude::*;
use crate::filter::{
    filter_items_by_relic_type, filter_items_by_search_term, relic_condition, search_filtered,
};
use crate::item::{item_views, opt_text, relic_type_named, Item, OutputFormat, RelicType};
use crate::render::{log_items, rendered, BORDER_CORNERS};
use crate::text::{contains_text, lowercase_of, same_text, texts};

verus! {

/// What the command line asks for.
#[derive(Debug, Clone, PartialEq, Eq)]
pub struct Options {
    /// Whether the relic filter was asked for.
    pub has_relic_arg: bool,
    /// The tier to narrow the relics to, if one was given and could be read.
    pub relic_type: Option<RelicType>,
    /// The term to search for.
    pub search_term: Option<String>,
    /// How to write the items out.
    pub output_format: OutputFormat,
    /// Whether anything is written at all.
    pub log_items: bool,
}

/// The options as the contracts see them.
pub struct OptionsView {
    pub has_relic_arg: bool,
    pub relic_type: Option<RelicType>,
    pub search_term: Option<Seq<char>>,
    pub output_format: OutputFormat,
    pub log_items: bool,
}

impl View for Options {
    type V = OptionsView;

    open spec fn view(&self) -> OptionsView {
        OptionsView {
            has_relic_arg: self.has_relic_arg,
            relic_type: self.relic_type,
            search_term: opt_text(self.search_term),
            output_format: self.output_format,
            log_items: self.log_items,
        }
    }
}

/// Whether `i` is the place of the first argument that equals `flag`.
pub open spec fn is_first_position(args: Seq<Seq<char>>, flag: Seq<char>, i: int) -> bool {
    &&& 0 <= i < args.len()
    &&& args[i] == flag
    &&& forall|j: int| 0 <= j < i ==> args[j] != flag
}

/// The argument that follows the first occurrence of `flag`, if the flag
/// occurs and is not the last argument.
pub open spec fn value_after(args: Seq<Seq<char>>, flag: Seq<char>) -> Option<Seq<char>>
    decreases args.len(),
{
    if args.len() == 0 {
        None
    } else if args[0] == flag {
        if args.len() >= 2 {
            Some(args[1])
        } else {
            None
        }
    } else {
        value_after(args.drop_first(), flag)
    }
}

/// What the arguments ask for. Flags may come in any order; `--relic` and
/// `--search` take the argument behind them as their value. A value behind
/// `--relic` that names no tier leaves the relic filter on without a tier.
pub open spec fn parsed(args: Seq<Seq<char>>) -> OptionsView {
    OptionsView {
        has_relic_arg: args.contains("--relic"@),
        relic_type: match value_after(args, "--relic"@) {
            Some(v) => relic_type_named(lowercase_of(v)),
            None => None,
        },
        search_term: value_after(args, "--search"@),
        output_format: if args.contains("--fmt:search"@) {
            OutputFormat::Search
        } else {
            OutputFormat::Default
        },
        log_items: args.contains("--log-items"@),
    }
}

/// The items that pass both filters: the relic filter if it was asked for,
/// then the search filter if a term was given.
pub open spec fn selected(
    items: Seq<Item>,
    has_relic_arg: bool,
    relic_type: Option<RelicType>,
    search_term: Option<Seq<char>>,
) -> Seq<Item> {
    search_filtered(
        if has_relic_arg {
            items.filter(relic_condition(relic_type))
        } else {
            items
        },
        search_term,
    )
}

/// Whether the detail blocks of a batch cannot be drawn: there is an item to
/// draw, and the terminal is narrower than the two corners of a border.
pub open spec fn too_narrow(options: OptionsView, count: nat, term_width: nat) -> bool {
    &&& options.log_items
    &&& options.output_format == OutputFormat::Default
    &&& count > 0
    &&& term_width < BORDER_CORNERS
}

/// What a run writes, given what it was asked for and what it selected.
pub open spec fn output_of(options: OptionsView, chosen: Seq<Item>, term_width: nat) -> Option<
    Seq<Seq<char>>,
> {
    if !options.log_items {
        Some(Seq::empty())
    } else if too_narrow(options, chosen.len(), term_width) {
        None
    } else {
        Some(rendered(item_views(chosen), options.output_format, options.has_relic_arg, term_width))
    }
}

/// The value behind a flag is the argument behind its first position.
pub proof fn lemma_value_after(args: Seq<Seq<char>>, flag: Seq<char>, i: int)
    requires
        is_first_position(args, flag, i),
    ensures
        value_after(args, flag) == if i + 1 < args.len() {
            Some(args[i + 1])
        } else {
            None
        },
    decreases i,
{
    if i > 0 {
        let rest = args.drop_first();
        assert(rest[i - 1] == args[i]);
        assert forall|j: int| 0 <= j < i - 1 implies rest[j] != flag by {
            assert(rest[j] == args[j + 1]);
        }
        lemma_value_after(rest, flag, i - 1);
        if i + 1 < args.len() {
            assert(rest[i] == args[i + 1]);
        }
    }
}

/// A flag that does not occur has no value.
pub proof fn lemma_value_after_absent(args: Seq<Seq<char>>, flag: Seq<char>)
    requires
        !args.contains(flag),
    ensures
        value_after(args, flag) is None,
    decreases args.len(),
{
    if args.len() > 0 {
        assert(args[0] != flag);
        let rest = args.drop_first();
        assert forall|j: int| 0 <= j < rest.len() implies rest[j] != flag by {
            assert(rest[j] == args[j + 1]);
        }
        lemma_value_after_absent(rest, flag);
    }
}

/// Without `--log-items` among the arguments a run writes no line at all,
/// whatever the other flags, the items and the width of the terminal.
pub proof fn lemma_silent_without_log_items(
    args: Seq<Seq<char>>,
    items: Seq<Item>,
    term_width: nat,
)
    requires
        !args.contains("--log-items"@),
    ensures
        output_of(
            parsed(args),
            selected(
                items,
                parsed(args).has_relic_arg,
                parsed(args).relic_type,
                parsed(args).search_term,
            ),
            term_width,
        ) == Some(Seq::<Seq<char>>::empty()),
{
}

/// With neither the relic flag nor a search term a run selects every item,
/// in the order in which it came.
pub proof fn lemma_selects_all_without_filters(items: Seq<Item>, relic_type: Option<RelicType>)
    ensures
        selected(items, false, relic_type, None) == items,
{
}

/// The place of the first argument that equals `flag`.
pub fn position_of(args: &Vec<String>, flag: &str) -> (r: Option<usize>)
    ensures
        match r {
            Some(i) => is_first_position(texts(args@), flag@, i as int),
            None => !texts(args@).contains(flag@),
        },
{
    let mut i: usize = 0;
    while i < args.len()
        invariant
            i <= args.len(),
            forall|j: int| 0 <= j < i ==> texts(args@)[j] != flag@,
        decreases args.len() - i,
    {
        if same_text(args[i].as_str(), flag) {
            return Some(i);
        }
        i += 1;
    }
    None
}

/// The argument behind the first occurrence of `flag`.
pub fn argument_after<'a>(args: &'a Vec<String>, flag: &str) -> (r: Option<&'a String>)
    ensures
        match r {
            Some(s) => Some(s@),
            None => None,
        } == value_after(texts(args@), flag@),
{
    match position_of(args, flag) {
        Some(index) => {
            proof {
                lemma_value_after(texts(args@), flag@, index as int);
                assert(texts(args@).len() == args@.len());
            }
            let count = args.len();
            if index + 1 < count {
                Some(&args[index + 1])
            } else {
                None
            }
        },
        None => {
            proof {
                lemma_value_after_absent(texts(args@), flag@);
            }
            None
        },
    }
}

/// Reads the options from the arguments.
pub fn parse_args(args: &Vec<String>) -> (options: Options)
    ensures
        options@ == parsed(texts(args@)),
{
    let has_relic_arg = contains_text(args, "--relic");
    let relic_type = match argument_after(args, "--relic") {
        Some(s) => RelicType::from_str(s.as_str()),
        None => None,
    };
    let search_term = match argument_after(args, "--search") {
        Some(s) => Some(s.clone()),
        None => None,
    };
    let output_format = if contains_text(args, "--fmt:search") {
        OutputFormat::Search
    } else {
        OutputFormat::Default
    };
    let log_items = contains_text(args, "--log-items");
    Options { has_relic_arg, relic_type, search_term, output_format, log_items }
}

/// Narrows the batch: by the relic filter if it was asked for, then by the
/// search filter if a term was given. With neither, the batch is returned
/// as it came.
pub fn select_items(
    items: Vec<Item>,
    has_relic_arg: bool,
    relic_type: Option<RelicType>,
    search_term: Option<String>,
) -> (kept: Vec<Item>)
    ensures
        kept@ == selected(items@, has_relic_arg, relic_type, opt_text(search_term)),
        !has_relic_arg && search_term is None ==> kept@ == items@,
{
    let filtered_items = if has_relic_arg {
        filter_items_by_relic_type(items, relic_type)
    } else {
        items
    };
    filter_items_by_search_term(filtered_items, search_term)
}

/// One run: reads the options, narrows the batch, and returns the lines to
/// write, top to bottom.
///
/// Without `--log-items` nothing is written. The result is `None` exactly
/// if detail blocks are to be drawn for at least one item and the terminal
/// is narrower than a border's two corners.
pub fn run(args: &Vec<String>, items: Vec<Item>, term_width: usize) -> (output: Option<
    Vec<String>,
>)
    ensures
        match output {
            Some(lines) => Some(texts(lines@)),
            None => None,
        } == output_of(
            parsed(texts(args@)),
            selected(
                items@,
                parsed(texts(args@)).has_relic_arg,
                parsed(texts(args@)).relic_type,
                parsed(texts(args@)).search_term,
            ),
            term_width as nat,
        ),
        !texts(args@).contains("--log-items"@) ==> output is Some && output->0@.len() == 0,
{
    let options = parse_args(args);
    let filtered_items = select_items(
        items,
        options.has_relic_arg,
        options.relic_type,
        options.search_term,
    );
    if !options.log_items {
        let lines: Vec<String> = Vec::new();
        assert(texts(lines@) =~= Seq::<Seq<char>>::empty());
        Some(lines)
    } else if options.output_format == OutputFormat::Default && filtered_items.len() > 0
        && term_width < BORDER_CORNERS {
        None
    } else {
        Some(log_items(filtered_items, options.output_format, options.has_relic_arg, term_width))
    }
}

} // verus!
