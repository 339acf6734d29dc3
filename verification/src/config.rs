//! The network description as it comes out of the parser, the provenance of
//! node names, and the errors that resolution reports.

use vstd::prelude::*;
use vstd::string::*;
use crate::client::ClientKind;
use std::ops::Range;

pub use crate::config::resolve::ResolvedNetworkConfig;
pub use crate::config::resolve::ResolvedNode;

pub mod laws;
pub mod lemmas;
pub mod model;
pub mod report;
pub mod resolve;

verus! {

/// A byte range of the source text.
pub type Span = Range<usize>;

/// A copy of a span.
pub fn copy_span(span: &Span) -> (r: Span)
    ensures
        r == *span,
{
    Range { start: span.start, end: span.end }
}

/// Where a node's name comes from: written out, or taken from the client kind
/// because no name was given.
#[derive(Debug, PartialEq, Eq)]
pub enum NodeNameSource {
    Name(Span),
    Kind(Span),
}

impl Clone for NodeNameSource {
    fn clone(&self) -> (r: Self)
        ensures
            r == *self,
    {
        match self {
            NodeNameSource::Name(span) => NodeNameSource::Name(copy_span(span)),
            NodeNameSource::Kind(span) => NodeNameSource::Kind(copy_span(span)),
        }
    }
}

impl NodeNameSource {
    /// The place in the source text that the name was taken from.
    pub open spec fn spec_span(&self) -> Span {
        match self {
            NodeNameSource::Name(span) => *span,
            NodeNameSource::Kind(span) => *span,
        }
    }

    /// The place in the source text that the name was taken from.
    #[verifier::when_used_as_spec(spec_span)]
    pub fn span(&self) -> (r: Span)
        ensures
            r == self.spec_span(),
    {
        match self {
            NodeNameSource::Name(span) => copy_span(span),
            NodeNameSource::Kind(span) => copy_span(span),
        }
    }
}

/// Why a resolved node bears its name: it is the single instance of its
/// entry, or one of several generated as `{prefix}_{index}`.
#[derive(Debug, PartialEq, Eq)]
pub enum NodeNameDefinition {
    Singular(NodeNameSource),
    Prefix { prefix: String, prefix_span: NodeNameSource, count_span: Span },
}

/// A [`NodeNameDefinition`] with its text as a sequence of characters.
pub enum NodeNameDefinitionView {
    Singular(NodeNameSource),
    Prefix { prefix: Seq<char>, prefix_span: NodeNameSource, count_span: Span },
}

impl View for NodeNameDefinition {
    type V = NodeNameDefinitionView;

    open spec fn view(&self) -> NodeNameDefinitionView {
        match self {
            NodeNameDefinition::Singular(source) => NodeNameDefinitionView::Singular(*source),
            NodeNameDefinition::Prefix { prefix, prefix_span, count_span } => {
                NodeNameDefinitionView::Prefix {
                    prefix: prefix@,
                    prefix_span: *prefix_span,
                    count_span: *count_span,
                }
            },
        }
    }
}

impl Clone for NodeNameDefinition {
    fn clone(&self) -> (r: Self)
        ensures
            r == *self,
    {
        match self {
            NodeNameDefinition::Singular(source) => NodeNameDefinition::Singular(source.clone()),
            NodeNameDefinition::Prefix { prefix, prefix_span, count_span } => {
                NodeNameDefinition::Prefix {
                    prefix: prefix.clone(),
                    prefix_span: prefix_span.clone(),
                    count_span: copy_span(count_span),
                }
            },
        }
    }
}

impl NodeNameDefinitionView {
    /// The source of the name, or of the prefix it was generated from.
    pub open spec fn source(self) -> NodeNameSource {
        match self {
            NodeNameDefinitionView::Singular(source) => source,
            NodeNameDefinitionView::Prefix { prefix_span, .. } => prefix_span,
        }
    }
}

/// Why a network description cannot be resolved.
#[derive(Debug, PartialEq, Eq)]
pub enum ConfigError {
    /// An entry asks for zero nodes; the span is that of its `count`.
    InvalidCount(Span),
    /// Two nodes would bear the same name. `curr_def` is the definition that
    /// ran into the name, `prev_def` the one that held it.
    DuplicateName { name: String, curr_def: NodeNameDefinition, prev_def: NodeNameDefinition },
}

/// A [`ConfigError`] with its text as sequences of characters.
pub enum ConfigErrorView {
    InvalidCount(Span),
    DuplicateName {
        name: Seq<char>,
        curr_def: NodeNameDefinitionView,
        prev_def: NodeNameDefinitionView,
    },
}

impl View for ConfigError {
    type V = ConfigErrorView;

    open spec fn view(&self) -> ConfigErrorView {
        match self {
            ConfigError::InvalidCount(span) => ConfigErrorView::InvalidCount(*span),
            ConfigError::DuplicateName { name, curr_def, prev_def } => {
                ConfigErrorView::DuplicateName {
                    name: name@,
                    curr_def: curr_def@,
                    prev_def: prev_def@,
                }
            },
        }
    }
}

impl ConfigErrorView {
    /// The place that the error is about: the zero count, or the name (or
    /// prefix) of the definition that ran into a taken name.
    pub open spec fn span(self) -> Span {
        match self {
            ConfigErrorView::InvalidCount(span) => span,
            ConfigErrorView::DuplicateName { curr_def, .. } => curr_def.source().spec_span(),
        }
    }

    /// The error in one line.
    pub open spec fn message(self) -> Seq<char> {
        match self {
            ConfigErrorView::InvalidCount(_) => "count cannot equal to zero"@,
            ConfigErrorView::DuplicateName { name, .. } => "the name `"@ + name
                + "` is defined multiple times"@,
        }
    }
}

impl ConfigError {
    /// The place that the error is about.
    pub fn span(&self) -> (r: Span)
        ensures
            r == self@.span(),
    {
        match self {
            ConfigError::InvalidCount(span) => copy_span(span),
            ConfigError::DuplicateName { curr_def, .. } => match curr_def {
                NodeNameDefinition::Singular(source) => source.span(),
                NodeNameDefinition::Prefix { prefix_span, .. } => prefix_span.span(),
            },
        }
    }

    /// The error in one line.
    pub fn to_string(&self) -> (r: String)
        ensures
            r@ == self@.message(),
    {
        match self {
            ConfigError::InvalidCount(_) => "count cannot equal to zero".to_owned(),
            ConfigError::DuplicateName { name, .. } => {
                let mut text = "the name `".to_owned();
                text.append(name.as_str());
                text.append("` is defined multiple times");
                text
            },
        }
    }
}

} // verus!

verus! {

/// A value together with the place in the source text that it was read from.
#[derive(Debug, PartialEq, Eq)]
pub struct Spanned<T> {
    pub span: Span,
    pub value: T,
}

impl<T> Spanned<T> {
    /// `value`, read from `span`.
    pub fn new(span: Span, value: T) -> (r: Self)
        ensures
            r.span == span,
            r.value == value,
    {
        Spanned { span, value }
    }

    /// The place that the value was read from.
    pub fn span(&self) -> (r: Span)
        ensures
            r == self.span,
    {
        copy_span(&self.span)
    }

    /// The value.
    pub fn get_ref(&self) -> (r: &T)
        ensures
            *r == self.value,
    {
        &self.value
    }
}

/// How the client of a node is obtained: the default build of a kind, a
/// binary at a path, or a container image.
#[derive(Debug, PartialEq, Eq)]
pub enum ClientSource {
    Default(ClientKind),
    Binary { kind: ClientKind, bin: String },
    Image { kind: ClientKind, image: String },
}

impl ClientSource {
    /// The kind of client, whatever way it is obtained.
    pub open spec fn spec_kind(&self) -> ClientKind {
        match self {
            ClientSource::Default(kind) => *kind,
            ClientSource::Binary { kind, .. } => *kind,
            ClientSource::Image { kind, .. } => *kind,
        }
    }

    /// The kind of client, whatever way it is obtained.
    #[verifier::when_used_as_spec(spec_kind)]
    pub fn kind(&self) -> (r: ClientKind)
        ensures
            r == self.spec_kind(),
    {
        match self {
            ClientSource::Default(kind) => *kind,
            ClientSource::Binary { kind, .. } => *kind,
            ClientSource::Image { kind, .. } => *kind,
        }
    }
}

/// One entry of the description: `count` nodes of the same make, each with
/// `validator_count` validators. With a count of one the node bears the
/// entry's name; with more, the name is the prefix of the generated names.
/// Without a name the text of the client kind stands in for it.
#[derive(Debug, PartialEq, Eq)]
pub struct NodeSpec {
    pub name: Option<Spanned<String>>,
    pub client: Spanned<ClientSource>,
    pub count: Spanned<u64>,
    pub validator_count: u64,
    pub extra_args: Vec<String>,
}

/// The count of an entry that gives none: one node, read from nowhere.
pub fn default_count() -> (r: Spanned<u64>)
    ensures
        r.value == 1,
        r.span == (Range { start: 0usize, end: 0usize }),
{
    Spanned::new(Range { start: 0, end: 0 }, 1)
}

/// The validator count of an entry that gives none.
pub fn default_validator_count() -> (r: u64)
    ensures
        r == 1,
{
    1
}

/// A network as described: its name and its entries, in the order that they
/// were written.
#[derive(Debug, PartialEq, Eq)]
pub struct NetworkConfig {
    pub name: String,
    pub node: Vec<NodeSpec>,
}

} // verus!

