use tell_lib::err::{LibErr, TellErr};
use tell_lib::id::Id;

#[test]
fn accepts_names_between_three_and_ten_chars() {
    for name in ["Ann", "Bob", "Some dude", "abcdefghij"] {
        let id = Id::new(name.to_owned()).unwrap();
        assert_eq!(id.name(), name);
    }
}

#[test]
fn rejects_names_outside_the_range() {
    for name in ["", "a", "ab", "abcdefghijk", "way too long to accept"] {
        let err = Id::new(name.to_owned()).unwrap_err();
        assert_eq!(err, TellErr::Lib(LibErr::InvalidName(name.to_owned())));
    }
}

#[test]
fn length_counts_characters_not_bytes() {
    // Three characters, nine UTF-8 bytes: accepted.
    let id = Id::new("äöü".to_owned());
    assert!(id.is_ok());
}

#[test]
fn identities_equal_only_with_the_same_token() {
    let a = Id::new("Ann".to_owned()).unwrap();
    let b = a.clone();
    assert_eq!(a, b);
    // Two creations carry distinct clock tokens (nanosecond timestamps).
    let c = Id::new("Ann".to_owned()).unwrap();
    if c.sign() != a.sign() {
        assert_ne!(a, c);
    }
}
