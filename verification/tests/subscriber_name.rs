use newsletter::domain::subscriber_name::contains_forbidden_character;
use newsletter::SubscriberName;

#[test]
fn a_256_grapheme_long_name_is_valid() {
    let name = "ё".repeat(256);
    assert!(SubscriberName::parse(name).is_ok());
}

#[test]
fn a_name_longer_than_256_graphemes_is_rejected() {
    let name = "a".repeat(257);
    assert!(SubscriberName::parse(name).is_err());
}

#[test]
fn white_space_only_names_are_rejected() {
    let name = " ".to_string();
    assert!(SubscriberName::parse(name).is_err());
}

#[test]
fn a_valid_name_is_parsed_successfully() {
    let name = "Ursula Le Guin".to_string();
    assert!(SubscriberName::parse(name).is_ok());
}

#[test]
fn an_empty_name_is_rejected() {
    assert!(SubscriberName::parse(String::new()).is_err());
}

#[test]
fn names_of_unicode_white_space_are_rejected() {
    assert!(SubscriberName::parse("\t\n \u{a0}\u{2003}\u{3000}".to_string()).is_err());
}

#[test]
fn names_with_a_forbidden_character_are_rejected() {
    for forbidden in ['/', '(', ')', '"', '<', '>', '\\', '{', '}'] {
        let name = format!("Ursula{}Le Guin", forbidden);
        assert!(SubscriberName::parse(name).is_err());
    }
}

#[test]
fn other_punctuation_is_accepted() {
    assert!(SubscriberName::parse("O'Neil, J.-P. [jr.]".to_string()).is_ok());
}

#[test]
fn the_rejection_quotes_the_input() {
    let rejected = SubscriberName::parse("a/b".to_string());
    assert_eq!(rejected, Err("a/b is not a valid subscriber name.".to_string()));
    let blank = SubscriberName::parse("  ".to_string());
    assert_eq!(blank, Err("   is not a valid subscriber name.".to_string()));
}

#[test]
fn length_is_counted_in_grapheme_clusters_not_in_characters() {
    // 256 clusters of two characters each: a letter and a combining accent.
    let name = "e\u{301}".repeat(256);
    assert_eq!(name.chars().count(), 512);
    assert!(SubscriberName::parse(name).is_ok());
    let too_long = "e\u{301}".repeat(257);
    assert!(SubscriberName::parse(too_long).is_err());
}

#[test]
fn two_characters_that_do_not_combine_are_two_clusters() {
    let name = "\u{d1}\u{2018}".repeat(128);
    assert!(SubscriberName::parse(name).is_ok());
    let name = "\u{d1}\u{2018}".repeat(129);
    assert!(SubscriberName::parse(name).is_err());
}

#[test]
fn a_parsed_name_keeps_its_text() {
    let name = SubscriberName::parse("  Ursula Le Guin ".to_string()).unwrap();
    assert_eq!(name.as_ref(), "  Ursula Le Guin ");
}

#[test]
fn a_name_is_accepted_by_its_text_and_its_count() {
    assert!(SubscriberName::accepts("Ursula", 6));
    assert!(SubscriberName::accepts("Ursula", 256));
    assert!(!SubscriberName::accepts("Ursula", 257));
    assert!(!SubscriberName::accepts("", 0));
    assert!(!SubscriberName::accepts(" \t\u{3000}", 3));
    assert!(SubscriberName::accepts(" x ", 3));
    assert!(!SubscriberName::accepts("Urs{ula", 7));
}

fn has_white_space_property(c: char) -> bool {
    matches!(
        c as u32,
        0x09..=0x0d
            | 0x20
            | 0x85
            | 0xa0
            | 0x1680
            | 0x2000..=0x200a
            | 0x2028
            | 0x2029
            | 0x202f
            | 0x205f
            | 0x3000
    )
}

#[test]
fn a_single_character_is_blank_exactly_if_it_is_white_space() {
    let forbidden = ['/', '(', ')', '"', '<', '>', '\\', '{', '}'];
    for code in 0..=0x10ffff_u32 {
        if let Some(c) = char::from_u32(code) {
            let accepted = SubscriberName::accepts(&c.to_string(), 1);
            let expected = !has_white_space_property(c) && !forbidden.contains(&c);
            assert_eq!(accepted, expected, "character U+{:04X}", code);
        }
    }
}

#[test]
fn white_space_around_a_name_does_not_make_it_blank() {
    for c in ['\t', '\n', ' ', '\u{85}', '\u{a0}', '\u{1680}', '\u{2009}', '\u{2028}', '\u{3000}'] {
        let padded = format!("{}{}x{}", c, c, c);
        assert!(SubscriberName::parse(padded).is_ok());
        let blank = format!("{}{}{}", c, c, c);
        assert!(SubscriberName::parse(blank).is_err());
    }
}

#[test]
fn forbidden_characters_are_found_anywhere() {
    assert!(contains_forbidden_character("<abc"));
    assert!(contains_forbidden_character("abc>"));
    assert!(contains_forbidden_character("a\\c"));
    assert!(!contains_forbidden_character("abc"));
    assert!(!contains_forbidden_character(""));
}
