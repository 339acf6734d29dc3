//! A diagnostic as plain data: a headline, labelled places in the source text
//! and notes below them. How it is drawn is left to whoever prints it.

use vstd::prelude::*;
use crate::config::Span;

verus! {

/// A place in the source text with what is to be said about it.
#[derive(Debug, PartialEq, Eq)]
pub struct Label {
    pub span: Span,
    pub message: String,
}

/// What a [`Label`] holds, as mathematical values.
pub struct LabelView {
    pub span: Span,
    pub message: Seq<char>,
}

impl View for Label {
    type V = LabelView;

    open spec fn view(&self) -> LabelView {
        LabelView { span: self.span, message: self.message@ }
    }
}

/// A report about one file: where it is anchored, its headline, its labels in
/// the order they were attached, and its notes in the order they were added.
#[derive(Debug, PartialEq, Eq)]
pub struct Diagnostic {
    pub file: String,
    pub span: Span,
    pub message: String,
    pub labels: Vec<Label>,
    pub notes: Vec<String>,
}

/// What a [`Diagnostic`] holds, as mathematical values.
pub struct DiagnosticView {
    pub file: Seq<char>,
    pub span: Span,
    pub message: Seq<char>,
    pub labels: Seq<LabelView>,
    pub notes: Seq<Seq<char>>,
}

impl View for Diagnostic {
    type V = DiagnosticView;

    open spec fn view(&self) -> DiagnosticView {
        DiagnosticView {
            file: self.file@,
            span: self.span,
            message: self.message@,
            labels: Seq::new(self.labels@.len(), |i: int| self.labels@[i]@),
            notes: Seq::new(self.notes@.len(), |i: int| self.notes@[i]@),
        }
    }
}

} // verus!
