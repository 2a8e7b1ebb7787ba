use wf_api_quick::item::{Item, OutputFormat, RelicType};
use wf_api_quick::pipeline::{argument_after, parse_args, position_of, run, select_items, Options};

fn args(list: &[&str]) -> Vec<String> {
    list.iter().map(|s| String::from(*s)).collect()
}

fn record(name: &str, unique_name: &str, category: Option<&str>) -> Item {
    Item {
        name: String::from(name),
        unique_name: String::from(unique_name),
        description: None,
        type_: String::from("Misc"),
        tradable: false,
        category: category.map(String::from),
        product_category: None,
        components: None,
        introduced_date: None,
        estimated_vault_date: None,
        rewards: None,
    }
}

fn batch() -> Vec<Item> {
    vec![
        record("Meso A1 Relic (Intact)", "MesoA1Intact", Some("Relic")),
        record("Braton", "LongGuns/Braton", Some("Primary")),
        record("Axi K3 Relic", "AxiK3Intact", Some("Relic")),
        record("Meso A1 Relic (Radiant)", "MesoA1Radiant", Some("Relic")),
        record("Mesa Prime", "Warframes/MesaPrime", None),
    ]
}

#[test]
fn position_of_finds_the_first_occurrence() {
    let a = args(&["prog", "--search", "x", "--search", "y"]);
    assert_eq!(position_of(&a, "--search"), Some(1));
    assert_eq!(position_of(&a, "prog"), Some(0));
    assert_eq!(position_of(&a, "y"), Some(4));
    assert_eq!(position_of(&a, "--relic"), None);
    assert_eq!(position_of(&Vec::new(), "--relic"), None);
}

#[test]
fn argument_after_takes_the_next_argument() {
    let a = args(&["prog", "--search", "x", "--search", "y", "--relic"]);
    assert_eq!(argument_after(&a, "--search"), Some(&String::from("x")));
    assert_eq!(argument_after(&a, "x"), Some(&String::from("--search")));
    assert_eq!(argument_after(&a, "--relic"), None);
    assert_eq!(argument_after(&a, "--fmt:search"), None);
}

#[test]
fn no_flags_ask_for_nothing() {
    assert_eq!(
        parse_args(&args(&["prog"])),
        Options {
            has_relic_arg: false,
            relic_type: None,
            search_term: None,
            output_format: OutputFormat::Default,
            log_items: false,
        }
    );
    assert_eq!(parse_args(&Vec::new()), parse_args(&args(&["prog"])));
}

#[test]
fn every_flag_at_once() {
    let expected = Options {
        has_relic_arg: true,
        relic_type: Some(RelicType::Axi),
        search_term: Some(String::from("Axi K")),
        output_format: OutputFormat::Search,
        log_items: true,
    };
    assert_eq!(
        parse_args(&args(&["prog", "--log-items", "--relic", "AXI", "--search", "Axi K",
            "--fmt:search"])),
        expected
    );
    assert_eq!(
        parse_args(&args(&["prog", "--fmt:search", "--search", "Axi K", "--relic", "axi",
            "--log-items"])),
        expected
    );
}

#[test]
fn relic_flag_without_a_tier() {
    let options = parse_args(&args(&["prog", "--log-items", "--relic"]));
    assert!(options.has_relic_arg);
    assert_eq!(options.relic_type, None);
}

#[test]
fn relic_flag_with_an_unknown_tier() {
    let options = parse_args(&args(&["prog", "--relic", "requiem", "--log-items"]));
    assert!(options.has_relic_arg);
    assert_eq!(options.relic_type, None);
    assert!(options.log_items);
}

#[test]
fn relic_flag_followed_by_another_flag() {
    let options = parse_args(&args(&["prog", "--relic", "--search", "meso"]));
    assert!(options.has_relic_arg);
    assert_eq!(options.relic_type, None);
    assert_eq!(options.search_term, Some(String::from("meso")));
}

#[test]
fn search_flag_without_a_term() {
    let options = parse_args(&args(&["prog", "--search"]));
    assert_eq!(options.search_term, None);
}

#[test]
fn no_filter_is_the_identity() {
    let input = batch();
    assert_eq!(select_items(input.clone(), false, None, None), input);
    assert_eq!(select_items(input.clone(), false, Some(RelicType::Meso), None), input);
    assert_eq!(select_items(Vec::new(), false, None, None), Vec::new());
}

#[test]
fn both_filters_are_joined() {
    let kept = select_items(batch(), true, None, Some(String::from("meso")));
    let names: Vec<&str> = kept.iter().map(|item| item.name.as_str()).collect();
    assert_eq!(names, vec!["Meso A1 Relic (Intact)", "Meso A1 Relic (Radiant)"]);
    let kept = select_items(batch(), true, Some(RelicType::Axi), Some(String::from("meso")));
    assert!(kept.is_empty());
    let kept = select_items(batch(), false, None, Some(String::from("mes")));
    let names: Vec<&str> = kept.iter().map(|item| item.name.as_str()).collect();
    assert_eq!(names, vec!["Meso A1 Relic (Intact)", "Meso A1 Relic (Radiant)", "Mesa Prime"]);
}

#[test]
fn without_log_items_nothing_is_written() {
    for list in [
        vec!["prog"],
        vec!["prog", "--relic", "meso"],
        vec!["prog", "--search", "m", "--fmt:search"],
        vec!["prog", "--relic", "--search", "--fmt:search"],
        vec!["prog", "--log-item"],
    ] {
        for width in [0, 1, 80] {
            assert_eq!(run(&args(&list), batch(), width), Some(Vec::new()));
        }
    }
}

#[test]
fn relic_search_listing_from_the_command_line() {
    let lines = run(&args(&["prog", "--log-items", "--fmt:search", "--relic"]), batch(), 80);
    assert_eq!(lines, Some(vec![String::from("Meso A1"), String::from("Axi K3")]));
    let lines =
        run(&args(&["prog", "--log-items", "--fmt:search", "--relic", "Meso"]), batch(), 80);
    assert_eq!(lines, Some(vec![String::from("Meso A1")]));
}

#[test]
fn plain_search_listing_from_the_command_line() {
    let lines = run(&args(&["prog", "--fmt:search", "--search", "me", "--log-items"]), batch(), 0);
    assert_eq!(
        lines,
        Some(vec![
            String::from("Meso A1 Relic (Intact)"),
            String::from("Meso A1 Relic (Radiant)"),
            String::from("Mesa Prime"),
        ])
    );
}

#[test]
fn detail_view_from_the_command_line() {
    let lines = run(&args(&["prog", "--log-items", "--search", "braton"]), batch(), 12);
    assert_eq!(
        lines,
        Some(vec![
            String::from("┌──────────┐"),
            String::from("│ Name: Braton"),
            String::from("│ UniqueName: LongGuns/Braton"),
            String::from("│ Type: Misc"),
            String::from("│ Tradable: false"),
            String::from("│ Category: Primary"),
            String::from("└──────────┘"),
        ])
    );
}

#[test]
fn a_terminal_too_narrow_for_a_border() {
    let a = args(&["prog", "--log-items"]);
    assert_eq!(run(&a, batch(), 1), None);
    assert_eq!(run(&a, batch(), 0), None);
    assert_eq!(run(&a, Vec::new(), 1), Some(Vec::new()));
    let nothing_left = args(&["prog", "--log-items", "--search", "zzz"]);
    assert_eq!(run(&nothing_left, batch(), 1), Some(Vec::new()));
    let compact = args(&["prog", "--log-items", "--fmt:search"]);
    assert_eq!(run(&compact, batch(), 1).map(|lines| lines.len()), Some(5));
}
