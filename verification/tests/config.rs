use leannet::client::ClientKind;
use leannet::config::copy_span;
use leannet::config::default_count;
use leannet::config::default_validator_count;
use leannet::config::ClientSource;
use leannet::config::ConfigError;
use leannet::config::NodeNameDefinition;
use leannet::config::NodeNameSource;
use leannet::config::Spanned;

#[test]
fn name_source_gives_its_span() {
    assert_eq!(NodeNameSource::Name(3..9).span(), 3..9);
    assert_eq!(NodeNameSource::Kind(11..15).span(), 11..15);
    assert_eq!(copy_span(&(4..8)), 4..8);
}

#[test]
fn error_span_is_that_of_the_count_or_of_the_current_definition() {
    assert_eq!(ConfigError::InvalidCount(5..6).span(), 5..6);
    let singular = ConfigError::DuplicateName {
        name: "a".to_string(),
        curr_def: NodeNameDefinition::Singular(NodeNameSource::Kind(45..48)),
        prev_def: NodeNameDefinition::Singular(NodeNameSource::Name(5..8)),
    };
    assert_eq!(singular.span(), 45..48);
    let generated = ConfigError::DuplicateName {
        name: "a_1".to_string(),
        curr_def: NodeNameDefinition::Prefix {
            prefix: "a".to_string(),
            prefix_span: NodeNameSource::Name(20..21),
            count_span: 30..31,
        },
        prev_def: NodeNameDefinition::Singular(NodeNameSource::Name(5..8)),
    };
    assert_eq!(generated.span(), 20..21);
}

#[test]
fn errors_read_in_one_line() {
    assert_eq!(ConfigError::InvalidCount(5..6).to_string(), "count cannot equal to zero");
    let clash = ConfigError::DuplicateName {
        name: "zeam_0".to_string(),
        curr_def: NodeNameDefinition::Singular(NodeNameSource::Name(45..48)),
        prev_def: NodeNameDefinition::Singular(NodeNameSource::Name(5..8)),
    };
    assert_eq!(clash.to_string(), "the name `zeam_0` is defined multiple times");
}

#[test]
fn definitions_are_copied_whole() {
    let source = NodeNameSource::Kind(1..2);
    assert_eq!(source.clone(), source);
    let def = NodeNameDefinition::Prefix {
        prefix: "p".to_string(),
        prefix_span: NodeNameSource::Name(3..4),
        count_span: 5..6,
    };
    assert_eq!(def.clone(), def);
    let single = NodeNameDefinition::Singular(NodeNameSource::Name(7..8));
    assert_eq!(single.clone(), single);
}

#[test]
fn defaults_are_one_node_with_one_validator() {
    assert_eq!(default_count(), Spanned { span: 0..0, value: 1 });
    assert_eq!(default_validator_count(), 1);
}

#[test]
fn spanned_keeps_value_and_span() {
    let spanned = Spanned::new(3..8, "hello".to_string());
    assert_eq!(spanned.span(), 3..8);
    assert_eq!(spanned.get_ref(), "hello");
    assert_eq!(spanned, Spanned { span: 3..8, value: "hello".to_string() });
}

#[test]
fn every_client_source_has_its_kind() {
    assert_eq!(ClientSource::Default(ClientKind::Qlean).kind(), ClientKind::Qlean);
    assert_eq!(
        ClientSource::Binary { kind: ClientKind::Lantern, bin: "/usr/bin/lantern".to_string() }
            .kind(),
        ClientKind::Lantern
    );
    assert_eq!(
        ClientSource::Image { kind: ClientKind::Lighthouse, image: "lh:1".to_string() }.kind(),
        ClientKind::Lighthouse
    );
}
