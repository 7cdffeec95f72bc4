use opencensus_trace::tracestate::{
    contains_duplicate_key, is_key, is_value, Error, Key, KeyValidationError, Tracestate, Value,
    ValueValidationError, KEY_MAX_SIZE, MAX_KEY_VALUE_PAIRS, VALUE_MAX_SIZE,
};

fn key(s: &str) -> Key {
    Key::try_new(s).unwrap()
}

fn value(s: &str) -> Value {
    Value::try_new(s).unwrap()
}

fn listed(ts: &Tracestate) -> Vec<(String, String)> {
    ts.entries()
        .iter()
        .map(|(k, v)| (k.as_str().to_string(), v.as_str().to_string()))
        .collect()
}

fn pairs(list: &[(&str, &str)]) -> Vec<(String, String)> {
    list.iter().map(|(k, v)| (k.to_string(), v.to_string())).collect()
}

#[test]
fn create_with_no_parent() {
    let key1 = Key::try_new("hello").unwrap();
    let value1 = Value::try_new("world").unwrap();

    let entry = (key1.clone(), value1.clone());

    let tracestate = Tracestate::try_new(None, &[entry]).unwrap();

    assert_eq!(tracestate.get(&key1), Some(&value1));
}

#[test]
fn create_from_parent_with_single_key() {
    let key1 = Key::try_new("hello").unwrap();
    let value1 = Value::try_new("world").unwrap();
    let key2 = Key::try_new("foo").unwrap();
    let value2 = Value::try_new("bar").unwrap();

    let entry1 = (key1.clone(), value1.clone());
    let entry2 = (key2.clone(), value2.clone());

    let parent = Tracestate::try_new(None, &[entry1]).unwrap();
    let tracestate = Tracestate::try_new(Some(&parent), &[entry2]).unwrap();

    assert_eq!(tracestate.get(&key2), Some(&value2));
    assert_eq!(tracestate.entries().iter().map(|(k, v)| (k, v)).next(), Some((&key2, &value2)));
    assert_eq!(tracestate.entries().iter().map(|(k, v)| (k, v)).last(), Some((&key1, &value1)));
}

#[test]
fn create_from_parent_with_double_keys() {
    let key1 = Key::try_new("hello").unwrap();
    let value1 = Value::try_new("world").unwrap();
    let key2 = Key::try_new("foo").unwrap();
    let value2 = Value::try_new("bar").unwrap();
    let key3 = Key::try_new("bar").unwrap();
    let value3 = Value::try_new("baz").unwrap();

    let entry1 = (key1.clone(), value1.clone());
    let entry2 = (key2.clone(), value2.clone());
    let entry3 = (key3.clone(), value3.clone());

    let parent = Tracestate::try_new(None, &[entry2, entry1]).unwrap();
    let tracestate = Tracestate::try_new(Some(&parent), &[entry3]).unwrap();

    assert_eq!(tracestate.get(&key3), Some(&value3));
    assert_eq!(tracestate.entries().iter().map(|(k, v)| (k, v)).next(), Some((&key3, &value3)));
    assert_eq!(tracestate.entries().iter().map(|(k, v)| (k, v)).last(), Some((&key1, &value1)));
}

#[test]
fn create_from_parent_with_existing_key() {
    let key1 = Key::try_new("hello").unwrap();
    let value1 = Value::try_new("world").unwrap();
    let key2 = Key::try_new("foo").unwrap();
    let value2 = Value::try_new("bar").unwrap();
    let key3 = Key::try_new("hello").unwrap();
    let value3 = Value::try_new("baz").unwrap();

    let entry1 = (key1.clone(), value1.clone());
    let entry2 = (key2.clone(), value2.clone());
    let entry3 = (key3.clone(), value3.clone());

    let parent = Tracestate::try_new(None, &[entry2, entry1]).unwrap();
    let tracestate = Tracestate::try_new(Some(&parent), &[entry3]).unwrap();

    assert_eq!(tracestate.get(&key3), Some(&value3));
    // the key that was given again moves to the front, with its new value
    assert_eq!(tracestate.entries().iter().map(|(k, v)| (k, v)).next(), Some((&key3, &value3)));
    assert_eq!(tracestate.entries().iter().map(|(k, v)| (k, v)).last(), Some((&key2, &value2)));
    assert_eq!(tracestate.entries().len(), 2);
}

#[test]
fn key_with_valid_char() {
    let all_valid = "abcdefghijklmnopqrstuvwxyz0123456789_-*/";

    let res = Key::try_new(all_valid);

    assert!(res.is_ok())
}

#[test]
fn key_with_invalid_char() {
    let bad_keys = vec!["1ab", "1ab2", "Abc", " abc", "a=b"];

    for key in bad_keys {
        assert_eq!(Key::try_new(key), Err(KeyValidationError::DoesNotMatchRegex))
    }
}

#[test]
fn empty_key() {
    assert_eq!(Key::try_new(""), Err(KeyValidationError::DoesNotMatchRegex))
}

#[test]
fn value_with_invalid_char() {
    let bad_values = vec!["A=B", "A,B", "AB "];

    for value in bad_values {
        assert_eq!(Value::try_new(value), Err(ValueValidationError::DoesNotMatchRegex))
    }
}

#[test]
fn empty_value() {
    assert_eq!(Value::try_new(""), Err(ValueValidationError::DoesNotMatchRegex))
}

#[test]
fn invalid_key_length() {
    let too_long: String = std::iter::repeat('a').take(KEY_MAX_SIZE + 1).collect();
    assert_eq!(Key::try_new(&too_long), Err(KeyValidationError::ExceedsMaxSize))
}

#[test]
fn invalid_value_length() {
    let too_long: String = std::iter::repeat('a').take(VALUE_MAX_SIZE + 1).collect();
    assert_eq!(Value::try_new(&too_long), Err(ValueValidationError::ExceedsMaxSize))
}

#[test]
fn create_from_array_with_over_limit_kv_pairs() {
    let keys = (0..=MAX_KEY_VALUE_PAIRS)
        .into_iter()
        .map(|i| Key::try_new(&format!("a{}b", i)))
        .collect::<Result<Vec<_>, _>>()
        .unwrap();

    let value = Value::try_new("world").unwrap();
    let entries: Vec<_> = keys.iter().cloned().map(|k| (k, value.clone())).collect();

    let tracestate = Tracestate::try_new(None, &*entries);
    assert_eq!(tracestate, Err(Error::MaxKeyValuePairsExceeded));
}

#[test]
fn create_from_empty_array() {
    let tracestate = Tracestate::try_new(None, &[]).unwrap();

    assert_eq!(tracestate.entries().len(), 0);
}

#[test]
fn create_from_parent_with_over_limit_kv_pairs() {
    let keys = (0..MAX_KEY_VALUE_PAIRS)
        .into_iter()
        .map(|i| Key::try_new(&format!("a{}b", i)))
        .collect::<Result<Vec<_>, _>>()
        .unwrap();

    let value = Value::try_new("world").unwrap();
    let entries: Vec<_> = keys.iter().cloned().map(|k| (k, value.clone())).collect();

    let parent = Tracestate::try_new(None, &*entries).unwrap();

    let key = Key::try_new(&format!("a{}b", MAX_KEY_VALUE_PAIRS)).unwrap();

    let tracestate = Tracestate::try_new(Some(&parent), &[(key, value.clone())]);

    assert_eq!(tracestate, Err(Error::MaxKeyValuePairsExceeded));
}

#[test]
fn create_from_array_with_duplicate_keys() {
    let key1 = Key::try_new("hello").unwrap();
    let value1 = Value::try_new("world").unwrap();
    let key2 = Key::try_new("foo").unwrap();
    let value2 = Value::try_new("bar").unwrap();
    let key3 = Key::try_new("hello").unwrap();
    let value3 = Value::try_new("baz").unwrap();

    let entry1 = (key1.clone(), value1.clone());
    let entry2 = (key2.clone(), value2.clone());
    let entry3 = (key3.clone(), value3.clone());

    let tracestate = Tracestate::try_new(None, &[entry1, entry2, entry3]);

    assert_eq!(tracestate, Err(Error::DuplicateKey { duplicate: key1.clone() }));
}

#[test]
fn thirty_two_entries_fit_and_the_next_key_does_not() {
    let entries: Vec<_> =
        (0..MAX_KEY_VALUE_PAIRS).map(|i| (key(&format!("k{}", i)), value("v"))).collect();
    let full = Tracestate::try_new(None, &entries).unwrap();
    assert_eq!(full.entries().len(), 32);
    let before = listed(&full);

    let more = Tracestate::try_new(Some(&full), &[(key("one-more"), value("v"))]);
    assert_eq!(more, Err(Error::MaxKeyValuePairsExceeded));
    // the list that was there is as it was
    assert_eq!(listed(&full), before);

    // a key that the list holds can still be given again
    let again = Tracestate::try_new(Some(&full), &[(key("k31"), value("w"))]).unwrap();
    assert_eq!(again.entries().len(), 32);
    assert_eq!(listed(&again)[0], ("k31".to_string(), "w".to_string()));
    assert_eq!(listed(&again)[1..], before[..31]);
}

#[test]
fn new_entries_come_first_in_their_order() {
    let parent =
        Tracestate::try_new(None, &[(key("a"), value("1")), (key("b"), value("2"))]).unwrap();
    assert_eq!(listed(&parent), pairs(&[("a", "1"), ("b", "2")]));
    let child = Tracestate::try_new(
        Some(&parent),
        &[(key("c"), value("3")), (key("a"), value("4")), (key("d"), value("5"))],
    )
    .unwrap();
    assert_eq!(listed(&child), pairs(&[("c", "3"), ("a", "4"), ("d", "5"), ("b", "2")]));
    assert_eq!(listed(&parent), pairs(&[("a", "1"), ("b", "2")]));
}

#[test]
fn a_parent_alone_is_copied() {
    let parent =
        Tracestate::try_new(None, &[(key("a"), value("1")), (key("b"), value("2"))]).unwrap();
    let child = Tracestate::try_new(Some(&parent), &[]).unwrap();
    assert_eq!(child, parent);
    assert_eq!(parent.clone(), parent);
    assert_eq!(Tracestate::default().entries().len(), 0);
}

#[test]
fn the_first_repeated_key_is_named() {
    let entries = [
        (key("a"), value("1")),
        (key("b"), value("2")),
        (key("c"), value("3")),
        (key("c"), value("4")),
        (key("a"), value("5")),
    ];
    assert_eq!(contains_duplicate_key(&entries), Some(key("c")));
    assert_eq!(contains_duplicate_key(&entries[..3]), None);
    assert_eq!(
        Tracestate::try_new(None, &entries),
        Err(Error::DuplicateKey { duplicate: key("c") })
    );
    // a repeated key is refused before the number of entries is looked at
    let mut many: Vec<_> = (0..40).map(|i| (key(&format!("k{}", i)), value("v"))).collect();
    many.push((key("k7"), value("w")));
    assert_eq!(
        Tracestate::try_new(None, &many),
        Err(Error::DuplicateKey { duplicate: key("k7") })
    );
}

#[test]
fn get_finds_only_what_is_there() {
    let ts = Tracestate::try_new(None, &[(key("a"), value("1")), (key("b"), value("2"))]).unwrap();
    assert_eq!(ts.get(&key("b")), Some(&value("2")));
    assert_eq!(ts.get(&key("c")), None);
}

#[test]
fn key_lengths() {
    let longest = "a".repeat(256);
    assert_eq!(Key::try_new(&longest).unwrap().as_str(), longest);
    assert_eq!(Key::try_new(&"a".repeat(257)), Err(KeyValidationError::ExceedsMaxSize));
    // an ill-formed key that is too long is refused for its length
    assert_eq!(Key::try_new(&"A".repeat(257)), Err(KeyValidationError::ExceedsMaxSize));
    assert_eq!(Key::try_new("a").unwrap().as_str(), "a");
}

#[test]
fn vendor_keys() {
    assert!(Key::try_new("tenant@vendor").is_ok());
    assert!(Key::try_new("a@b").is_ok());
    let tenant = "t".repeat(241);
    let vendor = "v".repeat(14);
    assert!(Key::try_new(&format!("{}@{}", tenant, vendor)).is_ok());
    assert_eq!(
        Key::try_new(&format!("{}@{}", tenant, "v".repeat(15))),
        Err(KeyValidationError::ExceedsMaxSize)
    );
    assert_eq!(
        Key::try_new(&format!("{}@{}", "t".repeat(242), "v".repeat(13))),
        Err(KeyValidationError::DoesNotMatchRegex)
    );
    assert_eq!(
        Key::try_new(&format!("t@{}", "v".repeat(15))),
        Err(KeyValidationError::DoesNotMatchRegex)
    );
    for bad in ["@vendor", "tenant@", "a@b@c", "a@1b", "1a@b", "a@B", "@", "a@@b"] {
        assert_eq!(Key::try_new(bad), Err(KeyValidationError::DoesNotMatchRegex), "{}", bad);
    }
}

#[test]
fn keys_with_other_characters() {
    let bad_keys =
        ["a b", "a.b", "a\n", "\na", "aé", "é", "a\u{0}", "a,b", "aB", "_a", "-a", "*", "/a"];
    for bad in bad_keys {
        assert_eq!(Key::try_new(bad), Err(KeyValidationError::DoesNotMatchRegex), "{:?}", bad);
    }
    for good in ["a_", "a-", "a*", "a/", "a0", "z9_-*/"] {
        assert!(Key::try_new(good).is_ok(), "{}", good);
    }
}

#[test]
fn value_rules() {
    let longest = "x".repeat(256);
    assert_eq!(Value::try_new(&longest).unwrap().as_str(), longest);
    assert_eq!(Value::try_new(&"x".repeat(257)), Err(ValueValidationError::ExceedsMaxSize));
    assert_eq!(Value::try_new(&"=".repeat(257)), Err(ValueValidationError::ExceedsMaxSize));
    for good in ["a", " a", "a b", "~", "!", "A-Z a-z 0-9 <>?/;:'\"[]{}|\\`~!@#$%^&*()_+-"] {
        assert!(Value::try_new(good).is_ok(), "{:?}", good);
    }
    for bad in [" ", "a ", "a\tb", "a\n", "\u{7f}", "é", "a\u{0}b", "=", ","] {
        assert_eq!(Value::try_new(bad), Err(ValueValidationError::DoesNotMatchRegex), "{:?}", bad);
    }
}

#[test]
fn bytes_are_checked_as_the_texts_are() {
    assert!(is_key(b"abc"));
    assert!(is_key(b"abc@def"));
    assert!(!is_key(b""));
    assert!(!is_key(b"Abc"));
    assert!(!is_key(&[0x61, 0xc3, 0xa9]));
    assert!(is_value(b"a b"));
    assert!(!is_value(b"a b "));
    assert!(!is_value(b""));
    assert!(!is_value(&[0x61, 0x80]));
}
