use sieve_filters::common::{ConfigError, FilterOptions, StringOrVec};

fn strings(v: &[&str]) -> Vec<String> {
    v.iter().map(|s| s.to_string()).collect()
}

#[test]
#[should_panic(expected = "cannot be empty")]
fn panic_on_empty_string() {
    if let Err(e) = StringOrVec::String("".to_string()).check_empty("test") {
        panic!("{}", e.message());
    }
}

#[test]
#[should_panic(expected = "cannot be empty")]
fn panic_on_empty_array() {
    if let Err(e) = StringOrVec::Vec(vec![]).check_empty("test") {
        panic!("{}", e.message());
    }
}

#[test]
#[should_panic(expected = "cannot contain empty")]
fn panic_on_array_empty_string() {
    if let Err(e) = StringOrVec::Vec(vec!["".to_string()]).check_empty("test") {
        panic!("{}", e.message());
    }
}

#[test]
fn string_to_array() {
    assert_eq!(
        vec![""],
        Vec::<String>::from(StringOrVec::String("".to_string()))
    );
}

#[test]
fn unwrap_or_default() {
    assert_eq!(
        FilterOptions {
            generic: true,
            fullpath: true,
            mark_as_read: false
        },
        FilterOptions {
            generic: None,
            fullpath: Some(true),
            mark_as_read: Some(false)
        }
        .unwrap_or_default(FilterOptions {
            generic: true,
            fullpath: false,
            mark_as_read: true
        })
    );
}

#[test]
fn unset_options_take_the_defaults() {
    let unset = FilterOptions { generic: None, fullpath: None, mark_as_read: None };
    let default = FilterOptions { generic: false, fullpath: true, mark_as_read: true };
    assert_eq!(default, unset.unwrap_or_default(default));
}

#[test]
fn resolving_level_by_level_matches_flattened_overrides() {
    let base = FilterOptions { generic: true, fullpath: false, mark_as_read: false };
    let outer = FilterOptions { generic: Some(false), fullpath: None, mark_as_read: Some(true) };
    let inner = FilterOptions { generic: None, fullpath: Some(true), mark_as_read: Some(false) };
    let stepwise = inner.unwrap_or_default(outer.unwrap_or_default(base));
    let flattened = FilterOptions { generic: Some(false), fullpath: Some(true), mark_as_read: Some(false) };
    assert_eq!(stepwise, flattened.unwrap_or_default(base));
    assert_eq!(stepwise, FilterOptions { generic: false, fullpath: true, mark_as_read: false });
}

#[test]
fn single_string_normalizes_to_list_of_one() {
    let v = StringOrVec::String("x".to_string()).normalize("localparts").unwrap();
    assert_eq!(v, vec!["x".to_string()]);
}

#[test]
fn list_normalizes_to_itself() {
    let v = StringOrVec::Vec(strings(&["a", "b", "a"])).normalize("localparts").unwrap();
    assert_eq!(v, strings(&["a", "b", "a"]));
}

#[test]
fn normalizing_an_empty_string_fails() {
    let e = StringOrVec::Vec(strings(&["a", ""])).normalize("localparts").unwrap_err();
    assert_eq!(e, ConfigError::EmptyArrayEntry { name: "localparts".to_string() });
    let e = StringOrVec::String(String::new()).normalize("localparts").unwrap_err();
    assert_eq!(e, ConfigError::EmptyString { name: "localparts".to_string() });
    let e = StringOrVec::Vec(vec![]).normalize("localparts").unwrap_err();
    assert_eq!(e, ConfigError::EmptyArray { name: "localparts".to_string() });
}

#[test]
fn non_empty_values_pass_the_check() {
    assert_eq!(StringOrVec::String("x".to_string()).check_empty("test"), Ok(()));
    let v = StringOrVec::String("x".to_string()).panic_on_empty("test");
    assert!(matches!(v, StringOrVec::String(s) if s == "x"));
}

#[test]
fn error_messages_name_the_value() {
    let e = ConfigError::EmptyArray { name: "label keywords".to_string() };
    assert_eq!(e.message(), "ERROR: Array of label keywords cannot be empty.");
    let e = ConfigError::FullpathOnTopFolder { path: "Bills".to_string() };
    assert_eq!(e.message(), "ERROR: Bills is the whole path, set fullpath option is useless.");
}
