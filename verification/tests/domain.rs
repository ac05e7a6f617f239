use zero2prod::domain::SubscriberName;

#[test]
fn a_256_grapheme_long_name_is_valid() {
    let name = "a".repeat(256);
    assert!(SubscriberName::parse(name).is_ok());
}

#[test]
fn a_name_longer_than_256_graphemes_is_rejected() {
    let name = "a".repeat(257);
    assert!(SubscriberName::parse(name).is_err());
}

#[test]
fn whitespace_only_names_are_rejected() {
    let name = " ".to_string();
    assert!(SubscriberName::parse(name).is_err());
}

#[test]
fn empty_string_is_rejected() {
    let name = "".to_string();
    assert!(SubscriberName::parse(name).is_err());
}

#[test]
fn names_containing_an_invalid_vharacter_are_rejected() {
    for name in ['/', '(', ')', '"', '<', '>', '\\', '{', '}'] {
        let name = name.to_string();
        assert!(SubscriberName::parse(name).is_err());
    }
}

#[test]
fn a_valid_name_is_parsed_successfully() {
    let name = "Ursula Le Guin".to_string();
    assert!(SubscriberName::parse(name).is_ok());
}

#[test]
fn graphemes_are_counted_not_chars() {
    // 200 graphemes of two chars each: 400 chars, well within 256 graphemes.
    let name = "a\u{0308}".repeat(200);
    assert_eq!(name.chars().count(), 400);
    assert!(SubscriberName::parse(name).is_ok());
    // and 257 such graphemes are over the limit
    let long = "a\u{0308}".repeat(257);
    assert!(SubscriberName::parse(long).is_err());
}

#[test]
fn the_rejection_names_the_offender() {
    let err = SubscriberName::parse("{".to_string()).unwrap_err();
    assert_eq!(err, "{ is not a valid subscriber name.");
}

#[test]
fn a_parsed_name_keeps_its_text() {
    let name = SubscriberName::parse("Ursula Le Guin".to_string()).unwrap();
    assert_eq!(name.as_str(), "Ursula Le Guin");
}
