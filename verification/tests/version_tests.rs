use bitrate_analyzer::version::{classify, equivalent, VersionAnnotation};

#[test]
fn no_annotation_classifies_to_no_version() {
    assert!(matches!(classify(&None), VersionAnnotation::NoVersion));
}

#[test]
fn unrecognized_text_classifies_to_no_version() {
    assert!(matches!(
        classify(&Some("foo".to_string())),
        VersionAnnotation::NoVersion
    ));
}

#[test]
fn markers_are_collected_in_vocabulary_order() {
    match classify(&Some("Radio Edit".to_string())) {
        VersionAnnotation::Markers(m) => {
            assert_eq!(m, vec!["edit".to_string(), "radio".to_string(), "radio edit".to_string()]);
        }
        VersionAnnotation::NoVersion => panic!("expected markers"),
    }
}

#[test]
fn matching_is_case_insensitive() {
    match classify(&Some("REMIX".to_string())) {
        VersionAnnotation::Markers(m) => {
            assert!(m.contains(&"remix".to_string()));
            assert!(m.contains(&"mix".to_string()));
        }
        VersionAnnotation::NoVersion => panic!("expected markers"),
    }
}

#[test]
fn four_digits_classify_as_year() {
    match classify(&Some("2017".to_string())) {
        VersionAnnotation::Markers(m) => assert_eq!(m, vec!["year".to_string()]),
        VersionAnnotation::NoVersion => panic!("expected a year marker"),
    }
    assert!(matches!(
        classify(&Some("201".to_string())),
        VersionAnnotation::NoVersion
    ));
}

#[test]
fn none_is_equivalent_to_none() {
    assert!(equivalent(&None, &None));
}

#[test]
fn none_is_not_equivalent_to_markers() {
    assert!(!equivalent(&None, &Some("remix".to_string())));
    assert!(!equivalent(&Some("remix".to_string()), &None));
}

#[test]
fn shared_marker_makes_annotations_equivalent() {
    assert!(equivalent(
        &Some("club remix".to_string()),
        &Some("extended mix".to_string())
    ));
}

#[test]
fn disjoint_markers_with_different_text_are_not_equivalent() {
    assert!(!equivalent(
        &Some("radio edit".to_string()),
        &Some("club mix".to_string())
    ));
}

#[test]
fn identical_text_is_equivalent_without_shared_markers() {
    assert!(equivalent(
        &Some("2017".to_string()),
        &Some("2017".to_string())
    ));
}

#[test]
fn bare_years_are_equivalent() {
    assert!(equivalent(
        &Some("2017".to_string()),
        &Some("2019".to_string())
    ));
}

#[test]
fn unrecognized_annotations_count_as_no_version_info() {
    assert!(equivalent(&Some("foo".to_string()), &None));
    assert!(equivalent(&Some("foo".to_string()), &Some("bar".to_string())));
}

#[test]
fn equivalence_is_symmetric_on_samples() {
    let cases = [
        (None, Some("remix".to_string())),
        (Some("radio edit".to_string()), Some("club mix".to_string())),
        (Some("club remix".to_string()), Some("extended mix".to_string())),
        (Some("2017".to_string()), Some("2019".to_string())),
    ];
    for (a, b) in cases {
        assert_eq!(equivalent(&a, &b), equivalent(&b, &a));
    }
}
