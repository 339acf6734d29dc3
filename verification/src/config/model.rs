//! What resolution means, as mathematics on sequences of resolved nodes.
//!
//! A topology is the sequence of nodes resolved so far, in the order of their
//! resolution. Everything else is read off it: the next index of a prefix is
//! the number of nodes already generated from that prefix, and the number of
//! validator slots handed out is where the last node's slice ends.

use vstd::prelude::*;
use crate::config::ConfigErrorView;
use crate::config::NodeNameDefinitionView;
use crate::config::NodeNameSource;
use crate::config::NodeSpec;
use crate::text::decimal;

verus! {

/// A slice of the validator pool: the indices from `start` up to, not
/// including, `end`.
pub struct IndexRange {
    pub start: int,
    pub end: int,
}

impl IndexRange {
    /// Whether `index` lies in the slice.
    pub open spec fn contains(self, index: int) -> bool {
        self.start <= index < self.end
    }
}

/// A resolved node: its final name, why it bears that name, and its slice of
/// the validator pool.
pub struct ResolvedNodeView {
    pub name: Seq<char>,
    pub def: NodeNameDefinitionView,
    pub validators: IndexRange,
}

impl NodeSpec {
    /// What the names of the entry's nodes are made from: the name that was
    /// written, else the text of the client kind.
    pub open spec fn basis(&self) -> Seq<char> {
        match self.name {
            Some(name) => name.value@,
            None => self.client.value.kind().name(),
        }
    }

    /// Where the basis was taken from.
    pub open spec fn basis_source(&self) -> NodeNameSource {
        match self.name {
            Some(name) => NodeNameSource::Name(name.span),
            None => NodeNameSource::Kind(self.client.span),
        }
    }

    /// The definition that every node of the entry carries.
    pub open spec fn definition(&self) -> NodeNameDefinitionView {
        if self.count.value == 1 {
            NodeNameDefinitionView::Singular(self.basis_source())
        } else {
            NodeNameDefinitionView::Prefix {
                prefix: self.basis(),
                prefix_span: self.basis_source(),
                count_span: self.count.span,
            }
        }
    }

    /// The name of the entry's node number `j`, where `offset` nodes were
    /// generated from the same prefix before this entry.
    pub open spec fn instance_name(&self, offset: nat, j: nat) -> Seq<char> {
        if self.count.value == 1 {
            self.basis()
        } else {
            self.basis() + seq!['_'] + decimal(offset + j)
        }
    }

    /// The entry's node number `j`, where the entry's slices start at `start`.
    pub open spec fn instance(&self, offset: nat, start: int, j: nat) -> ResolvedNodeView {
        ResolvedNodeView {
            name: self.instance_name(offset, j),
            def: self.definition(),
            validators: IndexRange {
                start: start + j * self.validator_count,
                end: start + (j + 1) * self.validator_count,
            },
        }
    }
}

/// Whether a definition is that of a name generated from `prefix`.
pub open spec fn generated_from(def: NodeNameDefinitionView, prefix: Seq<char>) -> bool {
    def matches NodeNameDefinitionView::Prefix { prefix: p, .. } && p == prefix
}

/// The number of nodes that were generated from `prefix`: the next unused
/// index of that prefix.
pub open spec fn generated(nodes: Seq<ResolvedNodeView>, prefix: Seq<char>) -> nat
    decreases nodes.len(),
{
    if nodes.len() == 0 {
        0
    } else {
        generated(nodes.drop_last(), prefix) + if generated_from(nodes.last().def, prefix) {
            1nat
        } else {
            0nat
        }
    }
}

/// The number of validator slots handed out: where the last slice ends.
pub open spec fn reserved(nodes: Seq<ResolvedNodeView>) -> int {
    if nodes.len() == 0 {
        0
    } else {
        nodes.last().validators.end
    }
}

/// Whether a node bears `name`.
pub open spec fn holds_name(nodes: Seq<ResolvedNodeView>, name: Seq<char>) -> bool {
    exists|i: int| 0 <= i < nodes.len() && (#[trigger] nodes[i]).name == name
}

/// The position of a node that bears `name`.
pub open spec fn holder(nodes: Seq<ResolvedNodeView>, name: Seq<char>) -> int {
    choose|i: int| 0 <= i < nodes.len() && (#[trigger] nodes[i]).name == name
}

/// The nodes by their names. Where names are distinct, every node is found
/// under its own.
pub open spec fn by_name(nodes: Seq<ResolvedNodeView>) -> Map<Seq<char>, ResolvedNodeView> {
    Map::new(|name: Seq<char>| holds_name(nodes, name), |name: Seq<char>| nodes[holder(nodes, name)])
}

/// No two nodes bear the same name.
pub open spec fn names_distinct(nodes: Seq<ResolvedNodeView>) -> bool {
    forall|i: int, j: int|
        0 <= i < j < nodes.len() ==> (#[trigger] nodes[i]).name != (#[trigger] nodes[j]).name
}

/// The slices follow one another from zero without gap or overlap.
pub open spec fn ranges_tile(nodes: Seq<ResolvedNodeView>) -> bool {
    &&& forall|i: int|
        0 <= i < nodes.len() ==> (#[trigger] nodes[i]).validators.start <= nodes[i].validators.end
    &&& nodes.len() > 0 ==> nodes[0].validators.start == 0
    &&& forall|i: int, j: int|
        0 <= i && j == i + 1 && j < nodes.len() ==> (#[trigger] nodes[i]).validators.end == (
        #[trigger] nodes[j]).validators.start
}

/// What holds of every topology that resolution builds.
pub open spec fn well_formed(nodes: Seq<ResolvedNodeView>) -> bool {
    names_distinct(nodes) && ranges_tile(nodes)
}

/// `nodes` followed by the first `j` nodes of `spec`.
pub open spec fn extended(nodes: Seq<ResolvedNodeView>, spec: NodeSpec, j: nat) -> Seq<
    ResolvedNodeView,
> {
    nodes + Seq::new(
        j,
        |i: int| spec.instance(generated(nodes, spec.basis()), reserved(nodes), i as nat),
    )
}

/// Whether the name of node number `j` of `spec` is taken once the nodes
/// before it are in place.
pub open spec fn clashes(nodes: Seq<ResolvedNodeView>, spec: NodeSpec, j: nat) -> bool {
    holds_name(extended(nodes, spec, j), spec.instance_name(generated(nodes, spec.basis()), j))
}

/// Whether `j` is the first node of `spec` whose name is taken.
pub open spec fn is_first_clash(nodes: Seq<ResolvedNodeView>, spec: NodeSpec, j: nat) -> bool {
    &&& j < spec.count.value
    &&& clashes(nodes, spec, j)
    &&& forall|i: nat| i < j ==> !clashes(nodes, spec, i)
}

/// Whether some node of `spec` runs into a taken name.
pub open spec fn has_clash(nodes: Seq<ResolvedNodeView>, spec: NodeSpec) -> bool {
    exists|j: nat| is_first_clash(nodes, spec, j)
}

/// The first node of `spec` whose name is taken.
pub open spec fn first_clash(nodes: Seq<ResolvedNodeView>, spec: NodeSpec) -> nat {
    choose|j: nat| is_first_clash(nodes, spec, j)
}

/// The error for node number `j` of `spec` running into a taken name: the
/// name, the entry's definition, and the definition of the node that holds
/// the name.
pub open spec fn clash_error(nodes: Seq<ResolvedNodeView>, spec: NodeSpec, j: nat) -> ConfigErrorView {
    let name = spec.instance_name(generated(nodes, spec.basis()), j);
    let present = extended(nodes, spec, j);
    ConfigErrorView::DuplicateName {
        name,
        curr_def: spec.definition(),
        prev_def: present[holder(present, name)].def,
    }
}

/// How resolution ends: with the nodes resolved, or with the first error.
pub type Resolution = Result<Seq<ResolvedNodeView>, ConfigErrorView>;

/// Resolving one entry on top of `nodes`. A count of zero is an error before
/// anything else is looked at. Otherwise the entry's nodes are added one by
/// one, and the first whose name is taken is the error; the nodes before it
/// count as present. With no such node all of them are added.
pub open spec fn resolve_one(nodes: Seq<ResolvedNodeView>, spec: NodeSpec) -> Resolution {
    if spec.count.value == 0 {
        Err(ConfigErrorView::InvalidCount(spec.count.span))
    } else if has_clash(nodes, spec) {
        Err(clash_error(nodes, spec, first_clash(nodes, spec)))
    } else {
        Ok(extended(nodes, spec, spec.count.value as nat))
    }
}

/// Resolving the entries in the order given, starting from nothing. The first
/// error ends it.
pub open spec fn resolve_all(specs: Seq<NodeSpec>) -> Resolution
    decreases specs.len(),
{
    if specs.len() == 0 {
        Ok(Seq::empty())
    } else {
        match resolve_all(specs.drop_last()) {
            Ok(nodes) => resolve_one(nodes, specs.last()),
            Err(error) => Err(error),
        }
    }
}

} // verus!
