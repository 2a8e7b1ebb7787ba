use wf_api_quick::item::{
    join_first_two, lowered_is_relic_of_type, str_is_valid_relic_of_type, Item, OutputFormat,
    RelicType,
};

fn named(name: &str) -> Item {
    Item {
        name: String::from(name),
        unique_name: String::from("id"),
        description: None,
        type_: String::from("Relic"),
        tradable: true,
        category: None,
        product_category: None,
        components: None,
        introduced_date: None,
        estimated_vault_date: None,
        rewards: None,
    }
}

#[test]
fn relic_type_from_str_reads_the_four_tiers() {
    assert_eq!(RelicType::from_str("lith"), Some(RelicType::Lith));
    assert_eq!(RelicType::from_str("meso"), Some(RelicType::Meso));
    assert_eq!(RelicType::from_str("neo"), Some(RelicType::Neo));
    assert_eq!(RelicType::from_str("axi"), Some(RelicType::Axi));
}

#[test]
fn relic_type_from_str_sets_case_aside() {
    assert_eq!(RelicType::from_str("LITH"), Some(RelicType::Lith));
    assert_eq!(RelicType::from_str("Meso"), Some(RelicType::Meso));
    assert_eq!(RelicType::from_str("nEo"), Some(RelicType::Neo));
    assert_eq!(RelicType::from_str("AXI"), Some(RelicType::Axi));
}

#[test]
fn relic_type_from_str_refuses_anything_else() {
    assert_eq!(RelicType::from_str(""), None);
    assert_eq!(RelicType::from_str("requiem"), None);
    assert_eq!(RelicType::from_str("lith "), None);
    assert_eq!(RelicType::from_str(" lith"), None);
    assert_eq!(RelicType::from_str("li"), None);
    assert_eq!(RelicType::from_str("--search"), None);
}

#[test]
fn relic_type_from_lowercase_is_exact() {
    assert_eq!(RelicType::from_lowercase("meso"), Some(RelicType::Meso));
    assert_eq!(RelicType::from_lowercase("Meso"), None);
    assert_eq!(RelicType::from_lowercase("MESO"), None);
    assert_eq!(RelicType::from_lowercase("axi"), Some(RelicType::Axi));
    assert_eq!(RelicType::from_lowercase("neo"), Some(RelicType::Neo));
    assert_eq!(RelicType::from_lowercase("lith"), Some(RelicType::Lith));
}

#[test]
fn relic_type_tags() {
    assert_eq!(RelicType::Lith.tag(), "lith");
    assert_eq!(RelicType::Meso.tag(), "meso");
    assert_eq!(RelicType::Neo.tag(), "neo");
    assert_eq!(RelicType::Axi.tag(), "axi");
}

#[test]
fn valid_relic_of_type_looks_at_the_beginning() {
    assert!(str_is_valid_relic_of_type("MesoA1Intact", &RelicType::Meso));
    assert!(str_is_valid_relic_of_type("meso", &RelicType::Meso));
    assert!(str_is_valid_relic_of_type("AXI K3", &RelicType::Axi));
    assert!(str_is_valid_relic_of_type("Lithium", &RelicType::Lith));
    assert!(str_is_valid_relic_of_type("NeoN5", &RelicType::Neo));
    assert!(!str_is_valid_relic_of_type("MesoA1Intact", &RelicType::Axi));
    assert!(!str_is_valid_relic_of_type("A Meso", &RelicType::Meso));
    assert!(!str_is_valid_relic_of_type("mes", &RelicType::Meso));
    assert!(!str_is_valid_relic_of_type("", &RelicType::Neo));
}

#[test]
fn lowered_relic_of_type_does_not_change_case() {
    assert!(lowered_is_relic_of_type("mesoa1", &RelicType::Meso));
    assert!(!lowered_is_relic_of_type("MesoA1", &RelicType::Meso));
}

#[test]
fn output_format_default_is_the_detail_view() {
    assert_eq!(OutputFormat::default(), OutputFormat::Default);
    assert_ne!(OutputFormat::default(), OutputFormat::Search);
}

#[test]
fn short_name_of_a_relic() {
    assert_eq!(named("Meso A1 Relic").get_relic_short_name(), "Meso A1");
}

#[test]
fn short_name_of_two_words_is_the_name() {
    assert_eq!(named("Axi K3").get_relic_short_name(), "Axi K3");
}

#[test]
fn short_name_of_one_word_is_that_word() {
    assert_eq!(named("Forma").get_relic_short_name(), "Forma");
}

#[test]
fn short_name_of_no_word_is_empty() {
    assert_eq!(named("").get_relic_short_name(), "");
    assert_eq!(named("   ").get_relic_short_name(), "");
}

#[test]
fn short_name_squeezes_white_space() {
    assert_eq!(named("  Neo \t N5   Relic (Radiant)").get_relic_short_name(), "Neo N5");
}

#[test]
fn short_name_is_the_same_each_time() {
    let item = named("Lith B4 Relic (Flawless)");
    assert_eq!(item.get_relic_short_name(), item.get_relic_short_name());
    assert_eq!(item.get_relic_short_name(), "Lith B4");
}

#[test]
fn join_first_two_takes_at_most_two() {
    assert_eq!(join_first_two(&vec![]), "");
    assert_eq!(join_first_two(&vec!["one"]), "one");
    assert_eq!(join_first_two(&vec!["one", "two"]), "one two");
    assert_eq!(join_first_two(&vec!["one", "two", "three", "four"]), "one two");
}

#[test]
fn short_name_of_a_short_name_is_itself() {
    for name in ["Meso A1 Relic (Intact)", "  Axi   K3 ", "Forma", "", "a b c d e"] {
        let short = named(name).get_relic_short_name();
        assert_eq!(named(&short).get_relic_short_name(), short);
        let expected: Vec<&str> = name.split_whitespace().take(2).collect();
        let got: Vec<&str> = short.split_whitespace().collect();
        assert_eq!(got, expected);
    }
}
