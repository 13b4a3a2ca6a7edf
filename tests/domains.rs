use sieve_filters::common::{
    ConfigError, FilterOptions, FullFilter, SieveDomainConfig, StringOrVec,
};
use sieve_filters::generators::{check_config, filename_of, sieve_script, DomainGenerator};

fn one(s: &str) -> StringOrVec {
    StringOrVec::String(s.to_string())
}

fn many(v: &[&str]) -> StringOrVec {
    StringOrVec::Vec(v.iter().map(|s| s.to_string()).collect())
}

fn folders(kids: Vec<(&str, SieveDomainConfig)>) -> SieveDomainConfig {
    SieveDomainConfig::SubDomainConfig(kids.into_iter().map(|(k, c)| (k.to_string(), c)).collect())
}

fn options(generic: Option<bool>, fullpath: Option<bool>, mark_as_read: Option<bool>) -> Option<FilterOptions> {
    Some(FilterOptions { generic, fullpath, mark_as_read })
}

fn full(
    localparts: StringOrVec,
    labels: Option<Vec<(&str, StringOrVec)>>,
    options: Option<FilterOptions>,
) -> SieveDomainConfig {
    SieveDomainConfig::FullFilter(FullFilter {
        localparts,
        labels: labels.map(|ls| ls.into_iter().map(|(l, k)| (l.to_string(), k)).collect()),
        options,
    })
}

fn generated(domain: &str, first_folder: bool, config: SieveDomainConfig) -> Result<String, ConfigError> {
    check_config(&config)?;
    let mut g = DomainGenerator::new(domain, first_folder);
    g.generate(config);
    Ok(g.to_string())
}

#[test]
fn path_to_prefix_generic_localpart() {
    assert_eq!(
        sieve_filters::generators::path_to_prefix_generic_localpart("Home bills/Electricity"),
        "home-bills.electricity",
    );
}

#[test]
fn last_folder_of_path() {
    assert_eq!(filename_of("Home bills/Electricity").unwrap(), "Electricity",);
}

#[test]
fn last_folder_edge_cases() {
    assert_eq!(filename_of("Bills").unwrap(), "Bills");
    assert_eq!(filename_of("a/b/c").unwrap(), "c");
    assert_eq!(filename_of("a/b/").unwrap(), "b/");
    assert_eq!(filename_of("a/"), None);
}

#[test]
fn generic_localpart_folds_runs_of_blanks() {
    assert_eq!(sieve_filters::generators::path_to_prefix_generic_localpart("My  Old\tMail/X Y"), "my-old-mail.x-y");
}

#[test]
fn domain_generator() {
    let config = folders(vec![
        (
            "Newsletter",
            folders(vec![
                ("Software", SieveDomainConfig::SimpleFilter(many(&["google", "facebook"]))),
                ("Business", full(one("wallstreet"), None, options(None, Some(true), None))),
            ]),
        ),
        (
            "Utilities",
            folders(vec![
                ("self", full(many(&["electricity"]), None, options(Some(false), None, None))),
                (
                    "Grocery",
                    full(one("market"), Some(vec![("label", one("keyword"))]), options(None, None, Some(true))),
                ),
                (
                    "Bill",
                    full(
                        one(""),
                        Some(vec![("label2", many(&["keyword2"])), ("label3", many(&["keyword3"]))]),
                        options(None, None, Some(true)),
                    ),
                ),
            ]),
        ),
    ]);
    assert_eq!(
        generated("domain", false, config).unwrap(),
        r#"
# Custom filters
if envelope :localpart :matches "to" ["market"] {
    if header :contains ["from","subject"] ["keyword"] {
        fileinto "label";
    } else {
        addflag "\\Seen";
        fileinto "unread";
    }
    fileinto "Utilities";
    fileinto "Utilities/Grocery";
} elsif envelope :localpart :matches "to" ["electricity"] {
    fileinto "Utilities";
} elsif envelope :localpart :matches "to" ["google","facebook"] {
    fileinto "Newsletter";
    fileinto "Newsletter/Software";
} elsif envelope :localpart :matches "to" ["wallstreet"] {
    fileinto "Newsletter";
    fileinto "Newsletter/Business";
}
# Generic filters
elsif envelope :localpart :matches "to" ["grocery","grocery.*"] {
    if header :contains ["from","subject"] ["keyword"] {
        fileinto "label";
    } else {
        addflag "\\Seen";
        fileinto "unread";
    }
    fileinto "Utilities";
    fileinto "Utilities/Grocery";
} elsif envelope :localpart :matches "to" ["bill","bill.*"] {
    if header :contains ["from","subject"] ["keyword2","keyword3"] {
        if header :contains ["from","subject"] ["keyword2"] {
            fileinto "label2";
        }
        if header :contains ["from","subject"] ["keyword3"] {
            fileinto "label3";
        }
    } else {
        addflag "\\Seen";
        fileinto "unread";
    }
    fileinto "Utilities";
    fileinto "Utilities/Bill";
} elsif envelope :localpart :matches "to" ["software","software.*"] {
    fileinto "Newsletter";
    fileinto "Newsletter/Software";
} elsif envelope :localpart :matches "to" ["newsletter.business","newsletter.business.*"] {
    fileinto "Newsletter";
    fileinto "Newsletter/Business";
} elsif envelope :localpart :matches "to" ["newsletter","newsletter.*"] {
    fileinto "Newsletter";
} else {
    addflag "\\Seen";
    fileinto "Unknown";
}"#
    );
}

#[test]
fn domain_generator_domain_as_first_folder() {
    let config = folders(vec![(
        "Newsletter",
        folders(vec![("Business", SieveDomainConfig::SimpleFilter(one("wallstreet")))]),
    )]);
    assert_eq!(
        generated("domain", true, config).unwrap(),
        r#"
# Custom filters
if envelope :localpart :matches "to" ["wallstreet"] {
    fileinto "@domain/Newsletter";
    fileinto "@domain/Newsletter/Business";
}
# Generic filters
elsif envelope :localpart :matches "to" ["business","business.*"] {
    fileinto "@domain/Newsletter";
    fileinto "@domain/Newsletter/Business";
} elsif envelope :localpart :matches "to" ["newsletter","newsletter.*"] {
    fileinto "@domain/Newsletter";
} else {
    addflag "\\Seen";
    fileinto "Unknown";
}"#
    );
}

#[test]
#[should_panic(expected = "are you high")]
fn domain_generator_panic_empty_config() {
    let config = folders(vec![("folder", folders(vec![]))]);
    if let Err(e) = generated("domain", false, config) {
        panic!("{}", e.message());
    }
}

#[test]
#[should_panic(expected = "'self' field is not supported at domain level")]
fn domain_generator_panic_self_domain() {
    let config = folders(vec![("self", SieveDomainConfig::SimpleFilter(one("self")))]);
    if let Err(e) = generated("domain", false, config) {
        panic!("{}", e.message());
    }
}

#[test]
#[should_panic(expected = "are you high")]
fn domain_generator_panic_self_with_no_sub() {
    let config = folders(vec![("folder", folders(vec![("self", SieveDomainConfig::SimpleFilter(one("")))]))]);
    if let Err(e) = generated("domain", false, config) {
        panic!("{}", e.message());
    }
}

#[test]
#[should_panic(expected = "empty string cannot be used")]
fn domain_generator_panic_folder_cannot_be_empty_string() {
    let config = folders(vec![("folder1", folders(vec![("", SieveDomainConfig::SimpleFilter(one("")))]))]);
    if let Err(e) = generated("domain", false, config) {
        panic!("{}", e.message());
    }
}

#[test]
fn fatal_configurations_give_their_errors() {
    let e = generated("d", false, folders(vec![("A", folders(vec![]))])).unwrap_err();
    assert_eq!(e, ConfigError::EmptySubConfig { path: "A".to_string() });
    let e = generated(
        "d",
        false,
        folders(vec![("A", folders(vec![("self", SieveDomainConfig::SimpleFilter(one("x")))]))]),
    )
    .unwrap_err();
    assert_eq!(e, ConfigError::SelfWithoutSubFolder { path: "A".to_string() });
    let e = generated("d", false, folders(vec![("A", SieveDomainConfig::SimpleFilter(many(&["a", ""])))])).unwrap_err();
    assert_eq!(e, ConfigError::EmptyArrayEntry { name: "localparts".to_string() });
    let e = generated("d", false, SieveDomainConfig::SimpleFilter(one("x"))).unwrap_err();
    assert_eq!(e, ConfigError::FilterAtDomainLevel);
}

#[test]
fn fullpath_needs_a_generic_rule_and_a_parent() {
    let e = generated(
        "d",
        false,
        folders(vec![("A", full(one("a"), None, options(Some(false), Some(true), None)))]),
    )
    .unwrap_err();
    assert_eq!(e, ConfigError::FullpathWithoutGeneric { path: "A".to_string() });
    let e = generated("d", false, folders(vec![("A", full(one("a"), None, options(None, Some(false), None)))]))
        .unwrap_err();
    assert_eq!(e, ConfigError::FullpathOnTopFolder { path: "A".to_string() });
}

#[test]
fn self_child_suppresses_the_folder_generic_rule() {
    let config = folders(vec![(
        "A",
        folders(vec![
            ("self", full(one("x"), None, options(Some(false), None, None))),
            ("B", SieveDomainConfig::SimpleFilter(one("b"))),
        ]),
    )]);
    let text = generated("d", false, config).unwrap();
    assert!(text.contains("[\"b\",\"b.*\"]"));
    assert!(!text.contains("[\"a\",\"a.*\"]"));
}

#[test]
fn unknown_folder_is_silent_and_has_no_generic_rule() {
    let config = folders(vec![("Unknown", SieveDomainConfig::SimpleFilter(one("spam")))]);
    assert_eq!(
        generated("d", false, config).unwrap(),
        r#"
# Custom filters
if envelope :localpart :matches "to" ["spam"] {
    addflag "\\Seen";
    fileinto "Unknown";
} else {
    addflag "\\Seen";
    fileinto "Unknown";
}"#
    );
}

#[test]
fn end_to_end_single_domain() {
    let config = folders(vec![(
        "Bills",
        folders(vec![("Electricity", SieveDomainConfig::SimpleFilter(one("alice")))]),
    )]);
    let script = sieve_script("", vec![("example.com".to_string(), config, false)]).unwrap();
    assert_eq!(
        script,
        r#"
# @example.com
if envelope :domain :is "to" "example.com" {
    # Custom filters
    if envelope :localpart :matches "to" ["alice"] {
        fileinto "Bills";
        fileinto "Bills/Electricity";
    }
    # Generic filters
    elsif envelope :localpart :matches "to" ["electricity","electricity.*"] {
        fileinto "Bills";
        fileinto "Bills/Electricity";
    } elsif envelope :localpart :matches "to" ["bills","bills.*"] {
        fileinto "Bills";
    } else {
        addflag "\\Seen";
        fileinto "Unknown";
    }
}"#
    );
}

#[test]
fn domains_are_chained_after_the_prefix() {
    let a = folders(vec![("A", SieveDomainConfig::SimpleFilter(one("a")))]);
    let b = folders(vec![("B", SieveDomainConfig::SimpleFilter(one("b")))]);
    let script = sieve_script(
        "require [\"fileinto\"];",
        vec![("a.org".to_string(), a, false), ("b.org".to_string(), b, true)],
    )
    .unwrap();
    assert!(script.starts_with("require [\"fileinto\"];\n# @a.org\nif envelope :domain :is \"to\" \"a.org\" {"));
    assert!(script.contains("\n}\n# @b.org elsif envelope :domain :is \"to\" \"b.org\" {"));
    assert!(script.contains("fileinto \"@b.org/B\";"));
    assert!(script.ends_with("\n}"));
}

#[test]
fn first_failing_domain_fails_the_script() {
    let a = folders(vec![("A", SieveDomainConfig::SimpleFilter(one("a")))]);
    let b = folders(vec![("", SieveDomainConfig::SimpleFilter(one("b")))]);
    let e = sieve_script("", vec![("a.org".to_string(), a, false), ("b.org".to_string(), b, false)]).unwrap_err();
    assert_eq!(e, ConfigError::EmptyFolderName { path: String::new() });
}

#[test]
fn generic_chain_opens_with_if_without_custom_rules() {
    let config = folders(vec![("A", SieveDomainConfig::SimpleFilter(one("")))]);
    assert_eq!(
        generated("d", false, config).unwrap(),
        r#"
# Generic filters
if envelope :localpart :matches "to" ["a","a.*"] {
    fileinto "A";
} else {
    addflag "\\Seen";
    fileinto "Unknown";
}"#
    );
}

#[test]
fn no_rules_at_all_leave_the_bare_catch_all() {
    let config = folders(vec![("Unknown", SieveDomainConfig::SimpleFilter(one("")))]);
    assert_eq!(
        generated("d", false, config).unwrap(),
        "\naddflag \"\\\\Seen\";\nfileinto \"Unknown\";"
    );
}

#[test]
fn folder_named_like_unknown_keeps_its_generic_rule() {
    let config = folders(vec![("Unknowns", SieveDomainConfig::SimpleFilter(one("u")))]);
    let text = generated("d", false, config).unwrap();
    assert!(text.contains("[\"unknowns\",\"unknowns.*\"]"));
}

#[test]
fn two_folders_reaching_one_path_are_an_error() {
    let config = folders(vec![(
        "A",
        folders(vec![
            ("self", folders(vec![("B", SieveDomainConfig::SimpleFilter(one("y")))])),
            ("B", SieveDomainConfig::SimpleFilter(one("z"))),
        ]),
    )]);
    let e = generated("d", false, config).unwrap_err();
    assert_eq!(e, ConfigError::DuplicatePath { path: "A/B".to_string() });
}

#[test]
fn repeated_folder_names_are_an_error() {
    let config = folders(vec![
        ("A", SieveDomainConfig::SimpleFilter(one("a"))),
        ("A", SieveDomainConfig::SimpleFilter(one(""))),
    ]);
    assert_eq!(check_config(&config), Err(ConfigError::RepeatedFolderName { path: String::new() }));
}

#[test]
fn unknown_pins_generic_off_and_mark_as_read_on() {
    let config = folders(vec![(
        "Unknown",
        full(one("spam"), None, options(Some(true), None, Some(false))),
    )]);
    assert_eq!(
        generated("d", false, config).unwrap(),
        r#"
# Custom filters
if envelope :localpart :matches "to" ["spam"] {
    addflag "\\Seen";
    fileinto "Unknown";
} else {
    addflag "\\Seen";
    fileinto "Unknown";
}"#
    );
}

#[test]
fn fullpath_under_unknown_has_no_generic_rule_to_shape() {
    let config = folders(vec![(
        "Unknown",
        folders(vec![("Spam", full(one("s"), None, options(Some(true), Some(true), None)))]),
    )]);
    assert_eq!(
        check_config(&config),
        Err(ConfigError::FullpathWithoutGeneric { path: "Unknown/Spam".to_string() })
    );
}

#[test]
fn check_config_accepts_a_valid_tree() {
    let config = folders(vec![("A", SieveDomainConfig::SimpleFilter(one("a")))]);
    assert_eq!(check_config(&config), Ok(()));
}
