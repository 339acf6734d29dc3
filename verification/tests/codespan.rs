use leannet::codespan::config_error_output;
use leannet::codespan::report_config_error;
use leannet::codespan::report_toml_error;
use leannet::codespan::ErrorOutput;
use leannet::config::ConfigError;
use leannet::config::NodeNameDefinition;
use leannet::config::NodeNameSource;
use leannet::diagnostic::Diagnostic;
use leannet::diagnostic::Label;

#[test]
fn parse_error_without_span_is_one_line() {
    assert_eq!(
        report_toml_error("Invalid network configuration", "net.toml", None, "missing field `name`"),
        ErrorOutput::Line("Invalid network configuration - missing field `name`".to_string())
    );
}

#[test]
fn parse_error_with_span_is_drawn_at_the_span() {
    assert_eq!(
        report_toml_error("Invalid network configuration", "net.toml", Some(3..7), "expected `=`"),
        ErrorOutput::Report {
            diagnostic: Diagnostic {
                file: "net.toml".to_string(),
                span: 3..7,
                message: "Invalid network configuration - failed to parse toml".to_string(),
                labels: vec![Label { span: 3..7, message: "expected `=`".to_string() }],
                notes: Vec::new(),
            },
            fallback: "Invalid network configuration expected `=`".to_string(),
        }
    );
}

#[test]
fn resolution_error_is_drawn_and_spelled_out_in_the_fallback() {
    let error = ConfigError::InvalidCount(5..6);
    assert_eq!(
        report_config_error("net.toml", &error),
        ErrorOutput::Report {
            diagnostic: error.report("net.toml"),
            fallback: "Invalid configuration - InvalidCount(5..6)".to_string(),
        }
    );
}

#[test]
fn name_clash_is_spelled_out_with_both_definitions() {
    let error = ConfigError::DuplicateName {
        name: "x_1".to_string(),
        curr_def: NodeNameDefinition::Prefix {
            prefix: "x".to_string(),
            prefix_span: NodeNameSource::Kind(30..31),
            count_span: 50..51,
        },
        prev_def: NodeNameDefinition::Singular(NodeNameSource::Name(0..3)),
    };
    match report_config_error("net.toml", &error) {
        ErrorOutput::Report { diagnostic, fallback } => {
            assert_eq!(diagnostic, error.report("net.toml"));
            assert_eq!(
                fallback,
                "Invalid configuration - DuplicateName { name: \"x_1\", curr_def: Prefix { \
                 prefix: \"x\", prefix_span: Kind(30..31), count_span: 50..51 }, prev_def: \
                 Singular(Name(0..3)) }"
            );
        }
        ErrorOutput::Line(line) => panic!("a line: {line}"),
    }
}

#[test]
fn fallback_of_a_resolution_error_carries_the_details_given() {
    let error = ConfigError::InvalidCount(5..6);
    assert_eq!(
        config_error_output("net.toml", &error, "zero nodes asked for"),
        ErrorOutput::Report {
            diagnostic: error.report("net.toml"),
            fallback: "Invalid configuration - zero nodes asked for".to_string(),
        }
    );
}
