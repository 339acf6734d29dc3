use leannet::config::ConfigError;
use leannet::config::NodeNameDefinition;
use leannet::config::NodeNameSource;
use leannet::diagnostic::Diagnostic;
use leannet::diagnostic::Label;

fn label(span: std::ops::Range<usize>, message: &str) -> Label {
    Label { span, message: message.to_string() }
}

fn prefix(text: &str, source: NodeNameSource, count_span: std::ops::Range<usize>) -> NodeNameDefinition {
    NodeNameDefinition::Prefix { prefix: text.to_string(), prefix_span: source, count_span }
}

#[test]
fn invalid_count_is_shown_at_the_count() {
    let report = ConfigError::InvalidCount(5..6).report("net.toml");
    assert_eq!(
        report,
        Diagnostic {
            file: "net.toml".to_string(),
            span: 5..6,
            message: "Invalid node configuration".to_string(),
            labels: vec![label(5..6, "cannot equal to zero")],
            notes: Vec::new(),
        }
    );
}

#[test]
fn clash_of_two_written_names_shows_both_places() {
    let error = ConfigError::DuplicateName {
        name: "a".to_string(),
        curr_def: NodeNameDefinition::Singular(NodeNameSource::Name(45..48)),
        prev_def: NodeNameDefinition::Singular(NodeNameSource::Name(5..8)),
    };
    assert_eq!(
        error.report("net.toml"),
        Diagnostic {
            file: "net.toml".to_string(),
            span: 45..48,
            message: "the name `a` is defined multiple times".to_string(),
            labels: vec![
                label(5..8, "previous definition here"),
                label(45..48, "second definition appears here"),
            ],
            notes: Vec::new(),
        }
    );
}

#[test]
fn clash_of_two_kind_derived_names_says_so_on_both_sides() {
    let error = ConfigError::DuplicateName {
        name: "ream".to_string(),
        curr_def: NodeNameDefinition::Singular(NodeNameSource::Kind(40..44)),
        prev_def: NodeNameDefinition::Singular(NodeNameSource::Kind(10..14)),
    };
    let report = error.report("x");
    assert_eq!(report.span, 40..44);
    assert_eq!(
        report.labels,
        vec![
            label(10..14, "previous definition derived from client kind here"),
            label(40..44, "second definition appears here, derived from client"),
        ]
    );
    assert!(report.notes.is_empty());
}

#[test]
fn previous_generated_name_gets_prefix_count_and_note() {
    let error = ConfigError::DuplicateName {
        name: "x_2".to_string(),
        curr_def: NodeNameDefinition::Singular(NodeNameSource::Name(70..73)),
        prev_def: prefix("x", NodeNameSource::Name(3..4), 9..10),
    };
    let report = error.report("net.toml");
    assert_eq!(report.message, "the name `x_2` is defined multiple times");
    assert_eq!(report.span, 70..73);
    assert_eq!(
        report.labels,
        vec![
            label(3..4, "prefix `x` defined here"),
            label(9..10, "count defined here"),
            label(70..73, "second definition appears here"),
        ]
    );
    assert_eq!(
        report.notes,
        vec!["the first generated name `x_2` comes from prefix `x_` and index 2"]
    );
}

#[test]
fn current_generated_name_gets_prefix_count_and_note() {
    let error = ConfigError::DuplicateName {
        name: "zeam_1".to_string(),
        curr_def: prefix("zeam", NodeNameSource::Kind(40..44), 50..51),
        prev_def: NodeNameDefinition::Singular(NodeNameSource::Name(0..6)),
    };
    let report = error.report("net.toml");
    assert_eq!(report.span, 40..44);
    assert_eq!(
        report.labels,
        vec![
            label(0..6, "previous definition here"),
            label(40..44, "prefix `zeam` derived from client kind here"),
            label(50..51, "count defined here"),
        ]
    );
    assert_eq!(
        report.notes,
        vec!["the redefinition name `zeam_1` comes from prefix `zeam_` and index 1"]
    );
}

#[test]
fn two_generated_names_give_four_labels_and_two_notes() {
    let error = ConfigError::DuplicateName {
        name: "a_0_1".to_string(),
        curr_def: prefix("a_0", NodeNameSource::Name(60..63), 70..71),
        prev_def: prefix("a", NodeNameSource::Kind(10..14), 20..21),
    };
    let report = error.report("net.toml");
    assert_eq!(
        report.labels,
        vec![
            label(10..14, "prefix `a` derived from client kind here"),
            label(20..21, "count defined here"),
            label(60..63, "prefix `a_0` defined here"),
            label(70..71, "count defined here"),
        ]
    );
    assert_eq!(
        report.notes,
        vec![
            "the first generated name `a_0_1` comes from prefix `a_` and index 0_1",
            "the redefinition name `a_0_1` comes from prefix `a_0_` and index 1",
        ]
    );
}

#[test]
fn name_that_does_not_start_with_its_prefix_has_an_unknown_index() {
    let error = ConfigError::DuplicateName {
        name: "foo".to_string(),
        curr_def: prefix("bar", NodeNameSource::Name(1..2), 3..4),
        prev_def: prefix("fo", NodeNameSource::Name(5..6), 7..8),
    };
    let report = error.report("net.toml");
    assert_eq!(
        report.notes,
        vec![
            "the first generated name `foo` comes from prefix `fo_` and index <unknown>",
            "the redefinition name `foo` comes from prefix `bar_` and index <unknown>",
        ]
    );
}
