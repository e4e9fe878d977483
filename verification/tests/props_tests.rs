use md_tree::props::character::{
    alignment_to_string, parse_alignment, Character, Class, InvalidAlignment, InvalidMorality,
    InvalidOrder, Morality, Order, Species,
};
use md_tree::strutil::{article_url, first_token, join_strings, str_eq};

#[test]
fn morality_parses_its_three_names() {
    assert_eq!(Morality::from_str("Good"), Ok(Morality::Good));
    assert_eq!(Morality::from_str("Neutral"), Ok(Morality::Neutral));
    assert_eq!(Morality::from_str("Evil"), Ok(Morality::Evil));
    assert_eq!(Morality::from_str("good"), Err(InvalidMorality));
    assert_eq!(Morality::from_str(""), Err(InvalidMorality));
}

#[test]
fn order_parses_its_three_names() {
    assert_eq!(Order::from_str("Lawful"), Ok(Order::Lawful));
    assert_eq!(Order::from_str("Neutral"), Ok(Order::Neutral));
    assert_eq!(Order::from_str("Chaotic"), Ok(Order::Chaotic));
    assert_eq!(Order::from_str("chaos"), Err(InvalidOrder));
}

#[test]
fn alignment_round_trips_through_its_text_form() {
    let a = (Order::Chaotic, Morality::Evil);
    let s = alignment_to_string(&a);
    assert_eq!(s, "Chaotic Evil");
    assert_eq!(parse_alignment(&s), Ok(a));
}

#[test]
fn alignment_parse_errors_name_what_is_wrong() {
    assert_eq!(parse_alignment(""), Err(InvalidAlignment::MissingOrder));
    assert_eq!(parse_alignment("   "), Err(InvalidAlignment::MissingOrder));
    assert_eq!(parse_alignment("Lawful"), Err(InvalidAlignment::MissingMorality));
    assert_eq!(parse_alignment("Lawful   "), Err(InvalidAlignment::MissingMorality));
    assert_eq!(parse_alignment("Foo Evil"), Err(InvalidAlignment::InvalidOrder));
    assert_eq!(parse_alignment("Lawful Foo"), Err(InvalidAlignment::InvalidMorality));
}

#[test]
fn alignment_parse_splits_on_any_whitespace_run() {
    let expected = Ok((Order::Lawful, Morality::Good));
    assert_eq!(parse_alignment("Lawful  Good"), expected);
    assert_eq!(parse_alignment("Lawful\tGood"), expected);
    assert_eq!(parse_alignment(" Lawful Good"), expected);
    assert_eq!(parse_alignment("\u{A0}Lawful\n Good "), expected);
    assert_eq!(parse_alignment("Lawful Good extra"), expected);
}

#[test]
fn new_character_has_the_documented_defaults() {
    let c = Character::new();
    assert_eq!(c.name, "<unnamed>");
    assert_eq!(c.species, Species::Human);
    assert_eq!(c.alignment, (Order::Neutral, Morality::Neutral));
    assert_eq!(c.origin, "<not chosen>");
    assert_eq!(c.strength, 10);
    assert_eq!(c.charisma, 10);
    assert_eq!(c.total_level(), 0);
}

#[test]
fn total_level_sums_class_levels() {
    let mut c = Character::new();
    let classes = vec![(Class::Fighter, 3), (Class::Wizard, 2)];
    assert!(Character::classes_ok(&classes));
    c.set_classes(classes);
    assert_eq!(c.total_level(), 5);
}

#[test]
fn duplicate_classes_are_rejected() {
    let classes = vec![(Class::Rogue, 1), (Class::Rogue, 2)];
    assert!(!Character::classes_ok(&classes));
    let fine = vec![(Class::Rogue, 1), (Class::Bard, 2)];
    assert!(Character::classes_ok(&fine));
}

#[test]
fn overflowing_levels_are_rejected() {
    let classes = vec![(Class::Rogue, u32::MAX), (Class::Bard, 1)];
    assert!(!Character::classes_ok(&classes));
}

#[test]
fn join_strings_joins_with_the_separator() {
    assert_eq!(join_strings(&vec![], "/"), None);
    assert_eq!(join_strings(&vec!["a".to_string()], "/"), Some("a".to_string()));
    assert_eq!(
        join_strings(&vec!["a".to_string(), "b".to_string(), "c".to_string()], ", "),
        Some("a, b, c".to_string())
    );
}

#[test]
fn first_token_stops_at_the_first_space() {
    assert_eq!(first_token("rust ignore"), "rust");
    assert_eq!(first_token("rust"), "rust");
    assert_eq!(first_token(" leading"), "");
    assert_eq!(first_token(""), "");
}

#[test]
fn str_eq_compares_by_characters() {
    assert!(str_eq("abc", "abc"));
    assert!(!str_eq("abc", "abd"));
    assert!(!str_eq("abc", "abcd"));
}

#[test]
fn article_urls_add_the_extension_only_when_missing() {
    let base =
        "https://raw.githubusercontent.com/zakarumych/my-dnd-world/refs/heads/main/resources/articles/";
    assert_eq!(article_url(&vec![]), format!("{base}index.md"));
    assert_eq!(
        article_url(&vec!["lore".to_string(), "gods".to_string()]),
        format!("{base}lore/gods.md")
    );
    assert_eq!(article_url(&vec!["intro.md".to_string()]), format!("{base}intro.md"));
}
