use sieve_filters::common::{code_block, is_unknown, ConfigError, FilterOptions, FullFilter, StringOrVec};
use sieve_filters::generators::filter_generator::FilterGenerator;

fn strings(v: &[&str]) -> Vec<String> {
    v.iter().map(|s| s.to_string()).collect()
}

fn resolved(mark_as_read: bool) -> FilterOptions<bool> {
    FilterOptions { generic: true, fullpath: false, mark_as_read }
}

fn filter(
    localparts: StringOrVec,
    labels: Option<Vec<(&str, &[&str])>>,
    mark_as_read: bool,
) -> FullFilter<StringOrVec, FilterOptions<bool>> {
    FullFilter {
        localparts,
        labels: labels.map(|ls| {
            ls.into_iter()
                .map(|(l, k)| (l.to_string(), StringOrVec::Vec(strings(k))))
                .collect()
        }),
        options: resolved(mark_as_read),
    }
}

#[test]
fn silent_rule_with_two_labels_wraps_them() {
    let mut g = FilterGenerator::new("Custom", String::new(), false);
    let labels: Vec<(&str, &[&str])> = vec![("a", &["k1"]), ("b", &["k2", "k3"])];
    g.generate("A", filter(StringOrVec::String("x".to_string()), Some(labels), true));
    assert_eq!(
        g.to_string(),
        r#"
# Custom filters
if envelope :localpart :matches "to" ["x"] {
    if header :contains ["from","subject"] ["k1","k2","k3"] {
        if header :contains ["from","subject"] ["k1"] {
            fileinto "a";
        }
        if header :contains ["from","subject"] ["k2","k3"] {
            fileinto "b";
        }
    } else {
        addflag "\\Seen";
        fileinto "unread";
    }
    fileinto "A";
}"#
    );
}

#[test]
fn silent_rule_without_labels_only_marks_read() {
    let mut g = FilterGenerator::new("Custom", String::new(), false);
    g.generate("A", filter(StringOrVec::String("x".to_string()), None, true));
    assert_eq!(
        g.to_string(),
        r#"
# Custom filters
if envelope :localpart :matches "to" ["x"] {
    addflag "\\Seen";
    fileinto "unread";
    fileinto "A";
}"#
    );
}

#[test]
fn loud_rule_with_one_label_has_no_else() {
    let mut g = FilterGenerator::new("Custom", String::new(), false);
    let labels: Vec<(&str, &[&str])> = vec![("a", &["k1"])];
    g.generate("A", filter(StringOrVec::String("x".to_string()), Some(labels), false));
    assert_eq!(
        g.to_string(),
        r#"
# Custom filters
if envelope :localpart :matches "to" ["x"] {
    if header :contains ["from","subject"] ["k1"] {
        fileinto "a";
    }
    fileinto "A";
}"#
    );
}

#[test]
fn silent_rule_under_unknown_is_not_filed_as_unread() {
    let mut g = FilterGenerator::new("Custom", String::new(), false);
    g.generate("Unknown/Spam", filter(StringOrVec::String("x".to_string()), None, true));
    assert_eq!(
        g.to_string(),
        r#"
# Custom filters
if envelope :localpart :matches "to" ["x"] {
    addflag "\\Seen";
    fileinto "Unknown";
    fileinto "Unknown/Spam";
}"#
    );
}

#[test]
fn sub_folder_branch_comes_before_its_folder() {
    let mut g = FilterGenerator::new("Generic", String::from("@d/"), true);
    g.generate("A", filter(StringOrVec::String("a".to_string()), None, false));
    g.generate("A/B", filter(StringOrVec::String("b".to_string()), None, false));
    g.generate("A B", filter(StringOrVec::String("c".to_string()), None, false));
    let text = g.to_string();
    let ab = text.find("[\"b\"]").unwrap();
    let a = text.find("[\"a\"]").unwrap();
    assert!(ab < a);
    assert!(text.starts_with("\n# Generic filters\nelsif envelope :localpart :matches \"to\" [\"b\"]"));
    assert!(text.contains("fileinto \"@d/A\";\n    fileinto \"@d/A/B\";"));
}

#[test]
fn registering_a_path_again_is_refused() {
    let mut g = FilterGenerator::new("Custom", String::new(), false);
    g.generate("A", filter(StringOrVec::String("a".to_string()), None, false));
    let e = g
        .check("A", &filter(StringOrVec::Vec(strings(&["b", "c"])), None, false))
        .unwrap_err();
    assert_eq!(e, ConfigError::DuplicatePath { path: "A".to_string() });
    assert_eq!(
        g.to_string(),
        "\n# Custom filters\nif envelope :localpart :matches \"to\" [\"a\"] {\n    fileinto \"A\";\n}"
    );
}

#[test]
fn empty_single_localpart_registers_nothing() {
    let mut g = FilterGenerator::new("Custom", String::new(), false);
    g.generate("A", filter(StringOrVec::String(String::new()), None, false));
    assert_eq!(g.to_string(), "");
}

#[test]
fn empty_label_keywords_are_rejected() {
    let mut g = FilterGenerator::new("Custom", String::new(), false);
    let labels: Vec<(&str, &[&str])> = vec![("a", &[])];
    let e = g
        .check("A", &filter(StringOrVec::String("x".to_string()), Some(labels), false))
        .unwrap_err();
    assert_eq!(e, ConfigError::EmptyArray { name: "label keywords".to_string() });
    assert_eq!(g.to_string(), "");
}

#[test]
fn empty_label_name_is_rejected() {
    let mut g = FilterGenerator::new("Custom", String::new(), false);
    let labels: Vec<(&str, &[&str])> = vec![("", &["k"])];
    let e = g
        .check("A", &filter(StringOrVec::String("x".to_string()), Some(labels), false))
        .unwrap_err();
    assert_eq!(e, ConfigError::EmptyString { name: "label".to_string() });
}

#[test]
fn catch_all_branch_follows_the_rules() {
    let g = FilterGenerator::new("Generic", String::new(), true);
    assert_eq!(
        g.to_string_with_unknown(),
        " else {\n    addflag \"\\\\Seen\";\n    fileinto \"Unknown\";\n}"
    );
}

#[test]
fn code_block_indents_non_empty_lines() {
    assert_eq!(code_block("\na\n\nb"), "\n    a\n\n    b");
}

#[test]
fn unknown_paths_begin_with_unknown() {
    assert!(is_unknown("Unknown"));
    assert!(is_unknown("Unknown/Spam"));
    assert!(!is_unknown("Bills/Unknown"));
    assert!(!is_unknown(""));
    assert!(!is_unknown("Unknowns"));
    assert!(!is_unknown("Unknown senders/Spam"));
}

#[test]
fn silent_rule_under_a_folder_named_like_unknown_is_filed_as_unread() {
    let mut g = FilterGenerator::new("Custom", String::new(), false);
    g.generate("Unknowns", filter(StringOrVec::String("x".to_string()), None, true));
    assert!(g.to_string().contains("addflag \"\\\\Seen\";\n    fileinto \"unread\";"));
}

#[test]
fn empty_rules_without_an_open_chain_write_bare_catch_all() {
    let g = FilterGenerator::new("Generic", String::new(), true);
    assert_eq!(
        g.to_string_with_unknown_after(false),
        "\naddflag \"\\\\Seen\";\nfileinto \"Unknown\";"
    );
}

#[test]
fn rules_not_after_a_chain_open_with_if() {
    let mut g = FilterGenerator::new("Generic", String::new(), true);
    g.generate("A", filter(StringOrVec::String("a".to_string()), None, false));
    assert!(g
        .to_string_with_unknown_after(false)
        .starts_with("\n# Generic filters\nif envelope"));
    assert!(g
        .to_string_with_unknown_after(true)
        .starts_with("\n# Generic filters\nelsif envelope"));
}

#[test]
fn blank_label_names_and_keywords_are_rejected() {
    let g = FilterGenerator::new("Custom", String::new(), false);
    let labels: Vec<(&str, &[&str])> = vec![(" \t", &["k"])];
    let e = g
        .check("A", &filter(StringOrVec::String("x".to_string()), Some(labels), false))
        .unwrap_err();
    assert_eq!(e, ConfigError::BlankString { name: "label".to_string() });
    let labels: Vec<(&str, &[&str])> = vec![("a", &["k", "  "])];
    let e = g
        .check("A", &filter(StringOrVec::String("x".to_string()), Some(labels), false))
        .unwrap_err();
    assert_eq!(e, ConfigError::BlankString { name: "label keywords".to_string() });
    assert_eq!(e.message(), "ERROR: label keywords cannot be blank.");
}

#[test]
fn check_accepts_what_generate_registers() {
    let mut g = FilterGenerator::new("Custom", String::new(), false);
    let labels: Vec<(&str, &[&str])> = vec![("a b", &["k 1"])];
    let f = filter(StringOrVec::String("x".to_string()), Some(labels), false);
    assert_eq!(g.check("A", &f), Ok(()));
    g.generate("A", f);
    assert_eq!(g.count(), 1);
}
