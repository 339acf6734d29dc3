//! Facts about the resolution model that the resolver's proof rests on.

use vstd::prelude::*;
use crate::config::model::clashes;
use crate::config::model::extended;
use crate::config::model::first_clash;
use crate::config::model::generated;
use crate::config::model::generated_from;
use crate::config::model::has_clash;
use crate::config::model::holder;
use crate::config::model::holds_name;
use crate::config::model::is_first_clash;
use crate::config::model::names_distinct;
use crate::config::model::ranges_tile;
use crate::config::model::reserved;
use crate::config::model::resolve_all;
use crate::config::model::well_formed;
use crate::config::model::ResolvedNodeView;
use crate::config::NodeSpec;

verus! {

/// Adding no node changes nothing, and adding one more node of an entry is a
/// push of that node.
pub proof fn lemma_extended_step(nodes: Seq<ResolvedNodeView>, spec: NodeSpec, j: nat)
    ensures
        extended(nodes, spec, 0) == nodes,
        extended(nodes, spec, j + 1) == extended(nodes, spec, j).push(
            spec.instance(generated(nodes, spec.basis()), reserved(nodes), j),
        ),
        extended(nodes, spec, j).len() == nodes.len() + j,
{
    assert(extended(nodes, spec, 0) =~= nodes);
    assert(extended(nodes, spec, j + 1) =~= extended(nodes, spec, j).push(
        spec.instance(generated(nodes, spec.basis()), reserved(nodes), j),
    ));
}

/// A pushed node counts for the prefix it was generated from and for no other.
pub proof fn lemma_generated_push(
    nodes: Seq<ResolvedNodeView>,
    node: ResolvedNodeView,
    prefix: Seq<char>,
)
    ensures
        generated(nodes.push(node), prefix) == generated(nodes, prefix) + if generated_from(
            node.def,
            prefix,
        ) {
            1nat
        } else {
            0nat
        },
{
    assert(nodes.push(node).drop_last() =~= nodes);
}

/// No more nodes were generated from a prefix than there are nodes.
pub proof fn lemma_generated_bounded(nodes: Seq<ResolvedNodeView>, prefix: Seq<char>)
    ensures
        generated(nodes, prefix) <= nodes.len(),
    decreases nodes.len(),
{
    if nodes.len() > 0 {
        lemma_generated_bounded(nodes.drop_last(), prefix);
    }
}

/// The first `j` nodes of an entry with a count other than one raise the
/// next index of the entry's prefix by `j`, and that of no other prefix.
pub proof fn lemma_generated_extended(
    nodes: Seq<ResolvedNodeView>,
    spec: NodeSpec,
    j: nat,
    prefix: Seq<char>,
)
    ensures
        generated(extended(nodes, spec, j), prefix) == generated(nodes, prefix) + if spec.count.value
            != 1 && prefix == spec.basis() {
            j
        } else {
            0nat
        },
    decreases j,
{
    lemma_extended_step(nodes, spec, j);
    if j > 0 {
        let before = (j - 1) as nat;
        lemma_extended_step(nodes, spec, before);
        lemma_generated_extended(nodes, spec, before, prefix);
        lemma_generated_push(
            extended(nodes, spec, before),
            spec.instance(generated(nodes, spec.basis()), reserved(nodes), before),
            prefix,
        );
    }
}

/// The first `j` nodes of an entry take `j` times its validator count.
pub proof fn lemma_reserved_extended(nodes: Seq<ResolvedNodeView>, spec: NodeSpec, j: nat)
    ensures
        reserved(extended(nodes, spec, j)) == reserved(nodes) + j * spec.validator_count,
{
    lemma_extended_step(nodes, spec, j);
    if j > 0 {
        let before = (j - 1) as nat;
        lemma_extended_step(nodes, spec, before);
        assert(extended(nodes, spec, j).last() == spec.instance(
            generated(nodes, spec.basis()),
            reserved(nodes),
            before,
        ));
        assert((before + 1) * spec.validator_count == j * spec.validator_count);
    } else {
        assert(0 * spec.validator_count == 0);
    }
}

/// A node with a fresh name whose slice starts where the last one ended keeps
/// a topology well formed.
pub proof fn lemma_well_formed_push(nodes: Seq<ResolvedNodeView>, node: ResolvedNodeView)
    requires
        well_formed(nodes),
        !holds_name(nodes, node.name),
        node.validators.start == reserved(nodes),
        node.validators.start <= node.validators.end,
    ensures
        well_formed(nodes.push(node)),
        reserved(nodes.push(node)) == node.validators.end,
{
    let after = nodes.push(node);
    assert forall|i: int, j: int| 0 <= i < j < after.len() implies (#[trigger] after[i]).name != (
    #[trigger] after[j]).name by {
        if j == nodes.len() {
            assert(nodes[i].name != node.name);
        } else {
            assert(nodes[i].name != nodes[j].name);
        }
    }
    assert(ranges_tile(after)) by {
        assert forall|i: int, j: int| 0 <= i && j == i + 1 && j < after.len() implies (
        #[trigger] after[i]).validators.end == (#[trigger] after[j]).validators.start by {
            if j < nodes.len() {
                assert(nodes[i].validators.end == nodes[j].validators.start);
            }
        }
    }
}

/// In a topology of distinct names the holder of a name is the one node that
/// bears it.
pub proof fn lemma_holder_unique(nodes: Seq<ResolvedNodeView>, name: Seq<char>, i: int)
    requires
        names_distinct(nodes),
        0 <= i < nodes.len(),
        nodes[i].name == name,
    ensures
        holds_name(nodes, name),
        holder(nodes, name) == i,
{
    let h = holder(nodes, name);
    if h < i {
        assert(nodes[h].name != nodes[i].name);
    } else if i < h {
        assert(nodes[i].name != nodes[h].name);
    }
}

/// There is at most one first clash.
pub proof fn lemma_first_clash_unique(nodes: Seq<ResolvedNodeView>, spec: NodeSpec, j: nat)
    requires
        is_first_clash(nodes, spec, j),
    ensures
        has_clash(nodes, spec),
        first_clash(nodes, spec) == j,
{
    let first = first_clash(nodes, spec);
    assert(is_first_clash(nodes, spec, first));
    if first < j {
        assert(!clashes(nodes, spec, first));
    } else if j < first {
        assert(!clashes(nodes, spec, j));
    }
}

/// Where no node of an entry runs into a taken name there is no first clash.
pub proof fn lemma_no_clash(nodes: Seq<ResolvedNodeView>, spec: NodeSpec)
    requires
        forall|i: nat| i < spec.count.value ==> !clashes(nodes, spec, i),
    ensures
        !has_clash(nodes, spec),
{
    if has_clash(nodes, spec) {
        let first = first_clash(nodes, spec);
        assert(is_first_clash(nodes, spec, first));
        assert(!clashes(nodes, spec, first));
    }
}

/// Once the first `k` entries fail, the entries as a whole fail in the same
/// way.
pub proof fn lemma_error_stays(specs: Seq<NodeSpec>, k: int)
    requires
        0 <= k <= specs.len(),
        resolve_all(specs.take(k)) is Err,
    ensures
        resolve_all(specs) == resolve_all(specs.take(k)),
    decreases specs.len() - k,
{
    if k < specs.len() {
        let next = specs.take(k + 1);
        assert(next.drop_last() =~= specs.take(k));
        lemma_error_stays(specs, k + 1);
    } else {
        assert(specs.take(k) =~= specs);
    }
}

} // verus!
