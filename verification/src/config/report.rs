//! The diagnostic that is shown for a [`ConfigError`].

use vstd::prelude::*;
use vstd::string::*;
use crate::config::copy_span;
use crate::config::ConfigError;
use crate::config::ConfigErrorView;
use crate::config::NodeNameDefinition;
use crate::config::NodeNameDefinitionView;
use crate::config::NodeNameSource;
use crate::diagnostic::Diagnostic;
use crate::diagnostic::DiagnosticView;
use crate::diagnostic::Label;
use crate::diagnostic::LabelView;
use crate::text::strip_prefix;
use crate::text::strip_prefix_of;

verus! {

/// Which side of a name clash a definition stands on.
#[derive(Clone, Copy, Debug, PartialEq, Eq)]
pub enum Side {
    /// The definition that held the name.
    Previous,
    /// The definition that ran into it.
    Current,
}

/// What is said at a singular definition.
pub open spec fn singular_message(side: Side, source: NodeNameSource) -> Seq<char> {
    match (side, source) {
        (Side::Previous, NodeNameSource::Name(_)) => "previous definition here"@,
        (Side::Previous, NodeNameSource::Kind(_)) =>
            "previous definition derived from client kind here"@,
        (Side::Current, NodeNameSource::Name(_)) => "second definition appears here"@,
        (Side::Current, NodeNameSource::Kind(_)) =>
            "second definition appears here, derived from client"@,
    }
}

/// What is said at the prefix of a generated name.
pub open spec fn prefix_message(prefix: Seq<char>, source: NodeNameSource) -> Seq<char> {
    match source {
        NodeNameSource::Name(_) => "prefix `"@ + prefix + "` defined here"@,
        NodeNameSource::Kind(_) => "prefix `"@ + prefix + "` derived from client kind here"@,
    }
}

/// The index that a generated name ends in: what follows `{prefix}_` in it,
/// or `<unknown>` where the name does not start so.
pub open spec fn index_text(name: Seq<char>, prefix: Seq<char>) -> Seq<char> {
    match strip_prefix(name, prefix + "_"@) {
        Some(rest) => rest,
        None => "<unknown>"@,
    }
}

/// The note that explains a generated name.
pub open spec fn prefix_note(side: Side, name: Seq<char>, prefix: Seq<char>) -> Seq<char> {
    let opening = match side {
        Side::Previous => "the first generated name `"@,
        Side::Current => "the redefinition name `"@,
    };
    opening + name + "` comes from prefix `"@ + prefix + "_` and index "@ + index_text(
        name,
        prefix,
    )
}

/// The labels that one definition contributes: one at the name of a singular
/// definition; for a generated name one at the prefix and one at the count.
pub open spec fn definition_labels(side: Side, def: NodeNameDefinitionView) -> Seq<LabelView> {
    match def {
        NodeNameDefinitionView::Singular(source) => seq![
            LabelView { span: source.spec_span(), message: singular_message(side, source) },
        ],
        NodeNameDefinitionView::Prefix { prefix, prefix_span, count_span } => seq![
            LabelView { span: prefix_span.spec_span(), message: prefix_message(prefix, prefix_span) },
            LabelView { span: count_span, message: "count defined here"@ },
        ],
    }
}

/// The notes that one definition contributes: none for a singular one, the
/// explanation of the name for a generated one.
pub open spec fn definition_notes(
    side: Side,
    name: Seq<char>,
    def: NodeNameDefinitionView,
) -> Seq<Seq<char>> {
    match def {
        NodeNameDefinitionView::Singular(_) => Seq::empty(),
        NodeNameDefinitionView::Prefix { prefix, .. } => seq![prefix_note(side, name, prefix)],
    }
}

/// The diagnostic for an error in `file`. A zero count gets one label at the
/// count. A name clash is headed by the one-line message and shows the
/// previous definition first, then the current one.
pub open spec fn report_of(error: ConfigErrorView, file: Seq<char>) -> DiagnosticView {
    match error {
        ConfigErrorView::InvalidCount(span) => DiagnosticView {
            file,
            span,
            message: "Invalid node configuration"@,
            labels: seq![LabelView { span, message: "cannot equal to zero"@ }],
            notes: Seq::empty(),
        },
        ConfigErrorView::DuplicateName { name, curr_def, prev_def } => DiagnosticView {
            file,
            span: error.span(),
            message: error.message(),
            labels: definition_labels(Side::Previous, prev_def) + definition_labels(
                Side::Current,
                curr_def,
            ),
            notes: definition_notes(Side::Previous, name, prev_def) + definition_notes(
                Side::Current,
                name,
                curr_def,
            ),
        },
    }
}

/// The text of [`singular_message`].
fn singular_text(side: Side, source: &NodeNameSource) -> (r: String)
    ensures
        r@ == singular_message(side, *source),
{
    match (side, source) {
        (Side::Previous, NodeNameSource::Name(_)) => "previous definition here".to_owned(),
        (Side::Previous, NodeNameSource::Kind(_)) =>
            "previous definition derived from client kind here".to_owned(),
        (Side::Current, NodeNameSource::Name(_)) => "second definition appears here".to_owned(),
        (Side::Current, NodeNameSource::Kind(_)) =>
            "second definition appears here, derived from client".to_owned(),
    }
}

/// The text of [`prefix_message`].
fn prefix_text(prefix: &str, source: &NodeNameSource) -> (r: String)
    ensures
        r@ == prefix_message(prefix@, *source),
{
    let mut text = "prefix `".to_owned();
    text.append(prefix);
    match source {
        NodeNameSource::Name(_) => text.append("` defined here"),
        NodeNameSource::Kind(_) => text.append("` derived from client kind here"),
    }
    text
}

/// The text of [`prefix_note`].
fn prefix_note_text(side: Side, name: &str, prefix: &str) -> (r: String)
    ensures
        r@ == prefix_note(side, name@, prefix@),
{
    let mut marked = prefix.to_owned();
    marked.append("_");
    let mut text = match side {
        Side::Previous => "the first generated name `".to_owned(),
        Side::Current => "the redefinition name `".to_owned(),
    };
    text.append(name);
    text.append("` comes from prefix `");
    text.append(prefix);
    text.append("_` and index ");
    match strip_prefix_of(name, marked.as_str()) {
        Some(rest) => text.append(rest.as_str()),
        None => text.append("<unknown>"),
    }
    text
}

/// Attaches to `labels` and `notes` what one definition contributes.
fn describe_definition(
    side: Side,
    name: &str,
    def: &NodeNameDefinition,
    labels: &mut Vec<Label>,
    notes: &mut Vec<String>,
)
    ensures
        labels_view(final(labels)@) == labels_view(old(labels)@) + definition_labels(side, def@),
        texts_view(final(notes)@) == texts_view(old(notes)@) + definition_notes(side, name@, def@),
{
    match def {
        NodeNameDefinition::Singular(source) => {
            labels.push(Label { span: source.span(), message: singular_text(side, source) });
        },
        NodeNameDefinition::Prefix { prefix, prefix_span, count_span } => {
            labels.push(
                Label { span: prefix_span.span(), message: prefix_text(prefix.as_str(), prefix_span) },
            );
            labels.push(
                Label { span: copy_span(count_span), message: "count defined here".to_owned() },
            );
            notes.push(prefix_note_text(side, name, prefix.as_str()));
        },
    }
    assert(labels_view(labels@) =~= labels_view(old(labels)@) + definition_labels(side, def@));
    assert(texts_view(notes@) =~= texts_view(old(notes)@) + definition_notes(side, name@, def@));
}

/// The views of a list of labels.
pub open spec fn labels_view(labels: Seq<Label>) -> Seq<LabelView> {
    Seq::new(labels.len(), |i: int| labels[i]@)
}

/// The views of a list of texts.
pub open spec fn texts_view(texts: Seq<String>) -> Seq<Seq<char>> {
    Seq::new(texts.len(), |i: int| texts[i]@)
}

impl ConfigError {
    /// The diagnostic that shows this error against the text of `file`.
    pub fn report(&self, file: &str) -> (r: Diagnostic)
        ensures
            r@ == report_of(self@, file@),
    {
        let mut labels: Vec<Label> = Vec::new();
        let mut notes: Vec<String> = Vec::new();
        let message = match self {
            ConfigError::InvalidCount(span) => {
                labels.push(
                    Label { span: copy_span(span), message: "cannot equal to zero".to_owned() },
                );
                "Invalid node configuration".to_owned()
            },
            ConfigError::DuplicateName { name, curr_def, prev_def } => {
                describe_definition(Side::Previous, name.as_str(), prev_def, &mut labels, &mut notes);
                describe_definition(Side::Current, name.as_str(), curr_def, &mut labels, &mut notes);
                self.to_string()
            },
        };
        let r = Diagnostic { file: file.to_owned(), span: self.span(), message, labels, notes };
        assert(r@.labels =~= report_of(self@, file@).labels);
        assert(r@.notes =~= report_of(self@, file@).notes);
        r
    }
}

} // verus!
