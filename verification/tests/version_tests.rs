use patch_updater::error::UpdaterError;
use patch_updater::version::Version;

fn v(text: &str) -> Version {
    Version::parse(text).expect("a valid version")
}

#[test]
fn parse_reads_numbers_and_labels() {
    let version = v("1.20.3-alpha.1+build.5");
    assert_eq!(version.major(), 1);
    assert_eq!(version.minor(), 20);
    assert_eq!(version.patch(), 3);
    assert_eq!(version.pre(), "alpha.1");
    assert_eq!(version.build(), "build.5");
}

#[test]
fn parse_plain_release_has_empty_labels() {
    let version = v("0.9.0");
    assert_eq!((version.major(), version.minor(), version.patch()), (0, 9, 0));
    assert_eq!(version.pre(), "");
    assert_eq!(version.build(), "");
}

#[test]
fn parse_rejects_what_is_no_version() {
    for text in ["", "1.0", "1.0.01", "1.0.unknown", "1.0.0-", "1.0.0+", "1.0.0-alpha_123", " 1.0.0", "v1.0.0"] {
        match Version::parse(text) {
            Err(UpdaterError::VersionParseError(message)) => assert!(!message.is_empty()),
            other => panic!("{:?} gave {:?}", text, other),
        }
    }
}

#[test]
fn parse_rejects_overflow_of_a_number() {
    assert!(matches!(
        Version::parse("23456789999999999999.0.0"),
        Err(UpdaterError::VersionParseError(_))
    ));
    assert_eq!(v("18446744073709551615.0.0").major(), u64::MAX);
}

#[test]
fn parse_error_carries_the_parser_message() {
    match Version::parse("1.q.r") {
        Err(UpdaterError::VersionParseError(message)) => {
            assert_eq!(message, "unexpected character 'q' while parsing minor version number")
        }
        other => panic!("{:?}", other),
    }
}

#[test]
fn new_builds_a_release() {
    let version = Version::new(2, 5, 11);
    assert_eq!(version.to_string(), "2.5.11");
    assert_eq!(version.compare(&v("2.5.11")), 0);
}

#[test]
fn numbers_compare_as_numbers() {
    assert_eq!(v("1.5.0").compare(&v("1.19.0")), -1);
    assert_eq!(v("1.19.0").compare(&v("1.5.0")), 1);
    assert_eq!(v("2.0.0").compare(&v("1.99.99")), 1);
    assert_eq!(v("1.0.1").compare(&v("1.0.0")), 1);
    assert_eq!(v("1.0.0").compare(&v("1.0.0")), 0);
}

#[test]
fn prerelease_is_less_than_release() {
    assert_eq!(v("1.0.0-alpha.1").compare(&v("1.0.0")), -1);
    assert_eq!(v("1.0.0").compare(&v("1.0.0-rc.1")), 1);
    assert!(v("1.0.0").is_newer_than(&v("1.0.0-rc.1+zzz")));
}

#[test]
fn prerelease_chain_is_ascending() {
    let chain = [
        "1.0.0-alpha",
        "1.0.0-alpha.1",
        "1.0.0-alpha.beta",
        "1.0.0-beta",
        "1.0.0-beta.2",
        "1.0.0-beta.11",
        "1.0.0-rc.1",
        "1.0.0",
    ];
    for i in 0..chain.len() {
        for j in 0..chain.len() {
            let expected: i8 = if i < j { -1 } else if i == j { 0 } else { 1 };
            assert_eq!(v(chain[i]).compare(&v(chain[j])), expected, "{} vs {}", chain[i], chain[j]);
        }
    }
}

#[test]
fn build_metadata_takes_part_in_the_order() {
    assert_eq!(v("1.20.0").compare(&v("1.20.0+bc17664")), -1);
    assert_eq!(v("1.20.0+bc17664").compare(&v("1.20.0+c144a98")), -1);
    assert_eq!(v("1.0.0+demo.90").compare(&v("1.0.0+demo.090")), -1);
}

#[test]
fn swapping_the_arguments_negates_the_result() {
    let texts = ["0.9.0", "1.0.0-alpha", "1.0.0", "1.0.0+b", "1.0.1", "10.0.0"];
    for a in texts {
        for b in texts {
            assert_eq!(v(a).compare(&v(b)), -v(b).compare(&v(a)));
        }
    }
}

#[test]
fn the_order_is_transitive_on_samples() {
    let texts = ["0.9.0", "1.0.0-alpha", "1.0.0-alpha.1", "1.0.0", "1.0.0+b", "1.0.1", "10.0.0"];
    for a in texts {
        for b in texts {
            for c in texts {
                if v(a).compare(&v(b)) <= 0 && v(b).compare(&v(c)) <= 0 {
                    assert!(v(a).compare(&v(c)) <= 0);
                }
            }
        }
    }
}

#[test]
fn is_newer_than_is_strict() {
    assert!(v("1.0.1").is_newer_than(&v("1.0.0")));
    assert!(!v("1.0.0").is_newer_than(&v("1.0.0")));
    assert!(!v("0.9.0").is_newer_than(&v("1.0.0")));
}

#[test]
fn to_string_writes_the_canonical_text() {
    assert_eq!(v("1.0.1").to_string(), "1.0.1");
    assert_eq!(v("12.0.7").to_string(), "12.0.7");
    assert_eq!(v("1.2.3-alpha.1").to_string(), "1.2.3-alpha.1");
    assert_eq!(v("1.2.3+build.5").to_string(), "1.2.3+build.5");
    assert_eq!(v("1.2.3-rc.1+build.5").to_string(), "1.2.3-rc.1+build.5");
    assert_eq!(v("18446744073709551615.0.0").to_string(), "18446744073709551615.0.0");
}

#[test]
fn clone_keeps_the_value() {
    let version = v("3.1.4-pre+x");
    let copy = version.clone();
    assert_eq!(copy.to_string(), "3.1.4-pre+x");
    assert_eq!(copy.compare(&version), 0);
}

fn identifiers_are_well_formed(label: &str, numeric_may_lead_with_zero: bool) -> bool {
    label.is_empty()
        || label.split('.').all(|identifier| {
            !identifier.is_empty()
                && identifier.chars().all(|c| c.is_ascii_alphanumeric() || c == '-')
                && (numeric_may_lead_with_zero
                    || identifier.len() == 1
                    || !identifier.starts_with('0')
                    || !identifier.chars().all(|c| c.is_ascii_digit()))
        })
}

#[test]
fn labels_obey_the_label_syntax() {
    let labels = [
        "alpha", "alpha.1", "0", "00", "01", "0a", "00a", "a.01", "a.0", "a..b", ".a", "a.", "-", "--", "a-b",
        "1.2.3", "x.7.z.92", "a_b", "a b", "\u{e9}", "A.B-c", "0.0.0", "10.010", "rc.1.",
    ];
    for label in labels {
        let pre = Version::parse(&format!("1.0.0-{}", label));
        assert_eq!(pre.is_ok(), identifiers_are_well_formed(label, false), "pre-release {:?}", label);
        if let Ok(version) = pre {
            assert_eq!(version.pre(), label);
            assert_eq!(version.build(), "");
        }
        let build = Version::parse(&format!("1.0.0+{}", label));
        assert_eq!(build.is_ok(), identifiers_are_well_formed(label, true), "build {:?}", label);
        if let Ok(version) = build {
            assert_eq!(version.build(), label);
            assert_eq!(version.pre(), "");
            assert_eq!(version.to_string(), format!("1.0.0+{}", label));
            assert_eq!(version.compare(&version.clone()), 0);
        }
    }
}

#[test]
fn text_of_a_version_reads_back_as_the_same_version() {
    for text in ["0.0.0", "1.2.3", "1.0.0-alpha.1", "1.0.0+b.7", "9.8.7-rc.0+sha.00ff", "4294967296.0.18446744073709551615"] {
        let version = v(text);
        let again = v(&version.to_string());
        assert_eq!(version.compare(&again), 0);
        assert_eq!(again.to_string(), text);
    }
}
