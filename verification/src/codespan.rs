//! What is shown for a description that cannot be used: text that the parser
//! refused, and parsed text that does not resolve.

use vstd::prelude::*;
use vstd::string::*;
use crate::config::copy_span;
use crate::config::report::report_of;
use crate::config::ConfigError;
use crate::config::ConfigErrorView;
use crate::config::Span;
use crate::diagnostic::Diagnostic;
use crate::diagnostic::DiagnosticView;
use crate::diagnostic::Label;
use crate::diagnostic::LabelView;

verus! {

/// What to show for an error.
#[derive(Debug, PartialEq, Eq)]
pub enum ErrorOutput {
    /// One line; there is no place in the text to point at.
    Line(String),
    /// A diagnostic to draw, and the line to print should drawing fail.
    Report { diagnostic: Diagnostic, fallback: String },
}

/// What an [`ErrorOutput`] holds, as mathematical values.
pub enum ErrorOutputView {
    Line(Seq<char>),
    Report { diagnostic: DiagnosticView, fallback: Seq<char> },
}

impl View for ErrorOutput {
    type V = ErrorOutputView;

    open spec fn view(&self) -> ErrorOutputView {
        match self {
            ErrorOutput::Line(line) => ErrorOutputView::Line(line@),
            ErrorOutput::Report { diagnostic, fallback } => ErrorOutputView::Report {
                diagnostic: diagnostic@,
                fallback: fallback@,
            },
        }
    }
}

/// What is shown for a parse error. Without a span it is the line
/// `{prefix} - {message}`. With one it is a diagnostic headed
/// `{prefix} - failed to parse toml` with the parser's message at the span,
/// and the line `{prefix} {message}` should drawing fail.
pub open spec fn toml_error_output(
    prefix: Seq<char>,
    file: Seq<char>,
    span: Option<Span>,
    message: Seq<char>,
) -> ErrorOutputView {
    match span {
        None => ErrorOutputView::Line(prefix + " - "@ + message),
        Some(span) => ErrorOutputView::Report {
            diagnostic: DiagnosticView {
                file,
                span,
                message: prefix + " - failed to parse toml"@,
                labels: seq![LabelView { span, message }],
                notes: Seq::empty(),
            },
            fallback: prefix + " "@ + message,
        },
    }
}

/// What to show for an error of the parser, given its message and the span
/// it reports, if any. `prefix` says what was being read.
pub fn report_toml_error(prefix: &str, file: &str, span: Option<Span>, message: &str) -> (r:
    ErrorOutput)
    ensures
        r@ == toml_error_output(prefix@, file@, span, message@),
{
    match span {
        None => {
            let mut line = prefix.to_owned();
            line.append(" - ");
            line.append(message);
            ErrorOutput::Line(line)
        },
        Some(span) => {
            let mut headline = prefix.to_owned();
            headline.append(" - failed to parse toml");
            let mut fallback = prefix.to_owned();
            fallback.append(" ");
            fallback.append(message);
            let mut labels: Vec<Label> = Vec::new();
            labels.push(Label { span: copy_span(&span), message: message.to_owned() });
            let diagnostic = Diagnostic {
                file: file.to_owned(),
                span,
                message: headline,
                labels,
                notes: Vec::new(),
            };
            assert(diagnostic@.labels =~= seq![LabelView { span, message: message@ }]);
            assert(diagnostic@.notes =~= Seq::<Seq<char>>::empty());
            ErrorOutput::Report { diagnostic, fallback }
        },
    }
}

/// The text that `{:?}` gives for an error: its variant and what it holds,
/// in one line.
pub uninterp spec fn debug_text(error: ConfigErrorView) -> Seq<char>;

/// Formats an error with `format!` and `{:?}`, that is with the `Debug`
/// implementation derived for it. Nothing is claimed of the text but that it
/// is the same for errors that hold the same.
#[verifier::external_body]
fn debug_string(error: &ConfigError) -> (r: String)
    ensures
        r@ == debug_text(error@),
{
    format!("{error:?}")
}

/// What is shown for an error of resolution, given the text that spells the
/// error out: the diagnostic of the error, and the line
/// `Invalid configuration - {details}` should drawing fail.
pub fn config_error_output(file: &str, error: &ConfigError, details: &str) -> (r: ErrorOutput)
    ensures
        r@ == (ErrorOutputView::Report {
            diagnostic: report_of(error@, file@),
            fallback: "Invalid configuration - "@ + details@,
        }),
{
    let mut fallback = "Invalid configuration - ".to_owned();
    fallback.append(details);
    ErrorOutput::Report { diagnostic: error.report(file), fallback }
}

/// What to show for an error of resolution: its diagnostic, and a line that
/// spells the error out should drawing fail.
pub fn report_config_error(file: &str, error: &ConfigError) -> (r: ErrorOutput)
    ensures
        r@ == (ErrorOutputView::Report {
            diagnostic: report_of(error@, file@),
            fallback: "Invalid configuration - "@ + debug_text(error@),
        }),
{
    let details = debug_string(error);
    config_error_output(file, error, details.as_str())
}

} // verus!
