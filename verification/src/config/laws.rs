//! What follows from the resolution model: when a description resolves, what
//! its nodes are, and what is reported where it does not.

use vstd::prelude::*;
use crate::config::lemmas::lemma_error_stays;
use crate::config::lemmas::lemma_extended_step;
use crate::config::lemmas::lemma_first_clash_unique;
use crate::config::lemmas::lemma_generated_extended;
use crate::config::lemmas::lemma_holder_unique;
use crate::config::lemmas::lemma_no_clash;
use crate::config::lemmas::lemma_reserved_extended;
use crate::config::lemmas::lemma_well_formed_push;
use crate::config::model::clashes;
use crate::config::model::extended;
use crate::config::model::generated;
use crate::config::model::has_clash;
use crate::config::model::holds_name;
use crate::config::model::is_first_clash;
use crate::config::model::names_distinct;
use crate::config::model::ranges_tile;
use crate::config::model::reserved;
use crate::config::model::resolve_all;
use crate::config::model::resolve_one;
use crate::config::model::well_formed;
use crate::config::model::Resolution;
use crate::config::model::ResolvedNodeView;
use crate::config::resolve::resolves_to;
use crate::config::resolve::ResolvedNetworkConfig;
use crate::config::ConfigError;
use crate::config::ConfigErrorView;
use crate::config::NodeNameDefinitionView;
use crate::config::NodeNameSource;
use crate::config::NodeSpec;
use crate::text::decimal;
use crate::text::lemma_decimal_injective;
use crate::validator::ResolvedValidator;
use crate::validator::ACTIVATION_EPOCH;
use crate::validator::NUM_ACTIVE_EPOCHS;

verus! {

/// The nodes that the entries ask for, whether or not their names clash:
/// every entry adds all of its nodes to those of the entries before it.
pub open spec fn expected_nodes(specs: Seq<NodeSpec>) -> Seq<ResolvedNodeView>
    decreases specs.len(),
{
    if specs.len() == 0 {
        Seq::empty()
    } else {
        extended(
            expected_nodes(specs.drop_last()),
            specs.last(),
            specs.last().count.value as nat,
        )
    }
}

/// The sum of the counts.
pub open spec fn total_nodes(specs: Seq<NodeSpec>) -> nat
    decreases specs.len(),
{
    if specs.len() == 0 {
        0
    } else {
        total_nodes(specs.drop_last()) + specs.last().count.value as nat
    }
}

/// The sum over the entries of count times validator count.
pub open spec fn total_validators(specs: Seq<NodeSpec>) -> nat
    decreases specs.len(),
{
    if specs.len() == 0 {
        0
    } else {
        total_validators(specs.drop_last()) + (specs.last().count.value
            * specs.last().validator_count) as nat
    }
}

/// The sum of the counts of the entries that generate names from `prefix`:
/// those with that basis and a count other than one.
pub open spec fn total_generated(specs: Seq<NodeSpec>, prefix: Seq<char>) -> nat
    decreases specs.len(),
{
    if specs.len() == 0 {
        0
    } else {
        total_generated(specs.drop_last(), prefix) + if specs.last().count.value != 1
            && specs.last().basis() == prefix {
            specs.last().count.value as nat
        } else {
            0nat
        }
    }
}

/// Every entry asks for at least one node.
pub open spec fn counts_positive(specs: Seq<NodeSpec>) -> bool {
    forall|k: int| 0 <= k < specs.len() ==> (#[trigger] specs[k]).count.value >= 1
}

/// The expected nodes are as many as the counts add up to, they take as many
/// validator slots as the entries ask for, and the next index of a prefix is
/// the sum of the counts of the entries that generate from it.
pub proof fn lemma_expected_totals(specs: Seq<NodeSpec>, prefix: Seq<char>)
    ensures
        expected_nodes(specs).len() == total_nodes(specs),
        reserved(expected_nodes(specs)) == total_validators(specs),
        generated(expected_nodes(specs), prefix) == total_generated(specs, prefix),
    decreases specs.len(),
{
    if specs.len() > 0 {
        let before = expected_nodes(specs.drop_last());
        let count = specs.last().count.value as nat;
        lemma_expected_totals(specs.drop_last(), prefix);
        lemma_extended_step(before, specs.last(), count);
        lemma_reserved_extended(before, specs.last(), count);
        lemma_generated_extended(before, specs.last(), count, prefix);
        assert(count * specs.last().validator_count >= 0) by (nonlinear_arith)
            requires
                count >= 0,
                specs.last().validator_count >= 0,
        ;
    }
}

/// The counts of the first `k` entries add up to no more than all counts,
/// and entry `k` adds its own.
pub proof fn lemma_total_nodes_take(specs: Seq<NodeSpec>, k: int)
    requires
        0 <= k < specs.len(),
    ensures
        total_nodes(specs.take(k + 1)) == total_nodes(specs.take(k)) + specs[k].count.value,
        total_nodes(specs.take(k + 1)) <= total_nodes(specs),
    decreases specs.len() - k,
{
    assert(specs.take(k + 1).drop_last() =~= specs.take(k));
    if k + 1 < specs.len() {
        lemma_total_nodes_take(specs, k + 1);
    } else {
        assert(specs.take(k + 1) =~= specs);
    }
}

/// Where every node stands and what it is: node `j` of entry `k` comes after
/// all nodes of the entries before it and the `j` nodes of its own entry
/// before it. Where its name is generated, its index continues the count of
/// the nodes that earlier entries generated from the same prefix. Its slice
/// begins where the slices of all nodes before it end.
pub proof fn lemma_expected_node(specs: Seq<NodeSpec>, k: int, j: nat)
    requires
        0 <= k < specs.len(),
        j < specs[k].count.value,
    ensures
        total_nodes(specs.take(k)) + j < expected_nodes(specs).len(),
        expected_nodes(specs)[(total_nodes(specs.take(k)) + j) as int] == specs[k].instance(
            total_generated(specs.take(k), specs[k].basis()),
            total_validators(specs.take(k)) as int,
            j,
        ),
    decreases specs.len(),
{
    let before = expected_nodes(specs.drop_last());
    let count = specs.last().count.value as nat;
    lemma_expected_totals(specs.drop_last(), specs[k].basis());
    lemma_expected_totals(specs, specs[k].basis());
    lemma_extended_step(before, specs.last(), count);
    lemma_total_nodes_take(specs, k);
    if k == specs.len() - 1 {
        assert(specs.take(k) =~= specs.drop_last());
    } else {
        assert(specs.drop_last().take(k) =~= specs.take(k));
        assert(specs.drop_last().take(k + 1) =~= specs.take(k + 1));
        lemma_total_nodes_take(specs.drop_last(), k);
        lemma_expected_node(specs.drop_last(), k, j);
    }
}

/// A clash among the nodes of an entry has a first one.
pub proof fn lemma_clash_has_first(nodes: Seq<ResolvedNodeView>, spec: NodeSpec, j: nat)
    requires
        j < spec.count.value,
        clashes(nodes, spec, j),
    ensures
        has_clash(nodes, spec),
    decreases j,
{
    if forall|i: nat| i < j ==> !clashes(nodes, spec, i) {
        assert(is_first_clash(nodes, spec, j));
    } else {
        let i = choose|i: nat| i < j && clashes(nodes, spec, i);
        lemma_clash_has_first(nodes, spec, i);
    }
}

/// Nodes of an entry whose names are free keep a topology well formed.
pub proof fn lemma_extended_well_formed(nodes: Seq<ResolvedNodeView>, spec: NodeSpec, j: nat)
    requires
        well_formed(nodes),
        forall|i: nat| i < j ==> !clashes(nodes, spec, i),
    ensures
        well_formed(extended(nodes, spec, j)),
    decreases j,
{
    lemma_extended_step(nodes, spec, j);
    if j > 0 {
        let before = (j - 1) as nat;
        let node = spec.instance(generated(nodes, spec.basis()), reserved(nodes), before);
        lemma_extended_well_formed(nodes, spec, before);
        lemma_extended_step(nodes, spec, before);
        lemma_reserved_extended(nodes, spec, before);
        assert(!clashes(nodes, spec, before));
        assert((before + 1) * spec.validator_count == before * spec.validator_count
            + spec.validator_count) by (nonlinear_arith);
        lemma_well_formed_push(extended(nodes, spec, before), node);
    }
}

/// Where the names stay distinct once the first `count` nodes of an entry
/// are added, they were distinct before, and none of those nodes clashes.
proof fn lemma_distinct_means_no_clash(nodes: Seq<ResolvedNodeView>, spec: NodeSpec, count: nat)
    requires
        names_distinct(extended(nodes, spec, count)),
    ensures
        names_distinct(nodes),
        forall|i: nat| i < count ==> !clashes(nodes, spec, i),
{
    let all = extended(nodes, spec, count);
    lemma_extended_step(nodes, spec, count);
    assert forall|a: int, b: int| 0 <= a < b < nodes.len() implies (#[trigger] nodes[a]).name != (
    #[trigger] nodes[b]).name by {
        assert(all[a].name != all[b].name);
    }
    assert forall|i: nat| i < count implies !clashes(nodes, spec, i) by {
        let part = extended(nodes, spec, i);
        let name = spec.instance_name(generated(nodes, spec.basis()), i);
        lemma_extended_step(nodes, spec, i);
        if holds_name(part, name) {
            let at = choose|at: int| 0 <= at < part.len() && (#[trigger] part[at]).name == name;
            assert(all[at] == part[at]);
            assert(all[(nodes.len() + i) as int].name == name);
            assert(all[at].name != all[(nodes.len() + i) as int].name);
        }
    }
}

/// A description whose entries all ask for at least one node, and whose
/// nodes would all bear different names, resolves to exactly those nodes.
pub proof fn lemma_distinct_names_resolve(specs: Seq<NodeSpec>)
    requires
        counts_positive(specs),
        names_distinct(expected_nodes(specs)),
    ensures
        resolve_all(specs) == Resolution::Ok(expected_nodes(specs)),
    decreases specs.len(),
{
    if specs.len() > 0 {
        let before = expected_nodes(specs.drop_last());
        let last = specs.last();
        lemma_distinct_means_no_clash(before, last, last.count.value as nat);
        assert(counts_positive(specs.drop_last())) by {
            assert forall|k: int| 0 <= k < specs.drop_last().len() implies (
            #[trigger] specs.drop_last()[k]).count.value >= 1 by {
                assert(specs[k].count.value >= 1);
            }
        }
        lemma_distinct_names_resolve(specs.drop_last());
        lemma_no_clash(before, last);
    }
}

/// A description that resolves has entries that all ask for at least one
/// node, and it resolves to the nodes it asks for, which are well formed:
/// their names differ and their slices follow one another from zero.
pub proof fn lemma_resolved_is_expected(specs: Seq<NodeSpec>)
    requires
        resolve_all(specs) is Ok,
    ensures
        counts_positive(specs),
        resolve_all(specs) == Resolution::Ok(expected_nodes(specs)),
        well_formed(expected_nodes(specs)),
    decreases specs.len(),
{
    if specs.len() > 0 {
        let before = expected_nodes(specs.drop_last());
        let last = specs.last();
        lemma_resolved_is_expected(specs.drop_last());
        assert forall|k: int| 0 <= k < specs.len() implies (#[trigger] specs[k]).count.value
            >= 1 by {
            if k < specs.len() - 1 {
                assert(specs.drop_last()[k].count.value >= 1);
            }
        }
        assert forall|i: nat| i < last.count.value implies !clashes(before, last, i) by {
            if clashes(before, last, i) {
                lemma_clash_has_first(before, last, i);
            }
        }
        lemma_extended_well_formed(before, last, last.count.value as nat);
    }
}

/// Resolution succeeds exactly on the descriptions whose entries all ask for
/// at least one node and whose nodes all bear different names.
pub proof fn lemma_resolves_iff(specs: Seq<NodeSpec>)
    ensures
        resolve_all(specs) is Ok <==> counts_positive(specs) && names_distinct(
            expected_nodes(specs),
        ),
{
    if resolve_all(specs) is Ok {
        lemma_resolved_is_expected(specs);
    }
    if counts_positive(specs) && names_distinct(expected_nodes(specs)) {
        lemma_distinct_names_resolve(specs);
    }
}

/// Where every entry asks for at least one node and all names differ,
/// resolving succeeds, with as many nodes as the counts add up to and as many
/// keys as the entries ask validators for.
pub proof fn lemma_resolve_succeeds<F: Fn(usize, usize) -> ResolvedValidator>(
    specs: Seq<NodeSpec>,
    keygen: F,
    outcome: Result<ResolvedNetworkConfig, ConfigError>,
)
    requires
        resolves_to(specs, keygen, outcome),
        counts_positive(specs),
        names_distinct(expected_nodes(specs)),
    ensures
        outcome is Ok,
        outcome->Ok_0.topology() == expected_nodes(specs),
        outcome->Ok_0.topology().len() == total_nodes(specs),
        outcome->Ok_0.keys().len() == total_validators(specs),
{
    lemma_distinct_names_resolve(specs);
    lemma_expected_totals(specs, Seq::empty());
}

/// An entry with a count of zero is reported with the span of that count,
/// whatever follows it, provided that the entries before it resolve.
pub proof fn lemma_zero_count_is_reported(specs: Seq<NodeSpec>, k: int)
    requires
        0 <= k < specs.len(),
        specs[k].count.value == 0,
        resolve_all(specs.take(k)) is Ok,
    ensures
        resolve_all(specs) == Resolution::Err(
            ConfigErrorView::InvalidCount(specs[k].count.span),
        ),
{
    assert(specs.take(k + 1).drop_last() =~= specs.take(k));
    lemma_error_stays(specs, k + 1);
}

/// With a count of zero in the first entry that does not resolve, resolving
/// fails with `InvalidCount` at the span of that count.
pub proof fn lemma_resolve_reports_zero_count<F: Fn(usize, usize) -> ResolvedValidator>(
    specs: Seq<NodeSpec>,
    keygen: F,
    outcome: Result<ResolvedNetworkConfig, ConfigError>,
    k: int,
)
    requires
        resolves_to(specs, keygen, outcome),
        0 <= k < specs.len(),
        specs[k].count.value == 0,
        resolve_all(specs.take(k)) is Ok,
    ensures
        outcome is Err,
        outcome->Err_0@ == ConfigErrorView::InvalidCount(specs[k].count.span),
{
    lemma_zero_count_is_reported(specs, k);
}

/// Two entries of one node each that are given the same name: the second is
/// reported as a duplicate, and the previous definition is the singular one
/// at the span of the first entry's name.
pub proof fn lemma_same_name_twice(first: NodeSpec, second: NodeSpec)
    requires
        first.name is Some,
        second.name is Some,
        first.name->0.value@ == second.name->0.value@,
        first.count.value == 1,
        second.count.value == 1,
    ensures
        resolve_all(seq![first, second]) == Resolution::Err(
            ConfigErrorView::DuplicateName {
                name: first.name->0.value@,
                curr_def: NodeNameDefinitionView::Singular(
                    NodeNameSource::Name(second.name->0.span),
                ),
                prev_def: NodeNameDefinitionView::Singular(
                    NodeNameSource::Name(first.name->0.span),
                ),
            },
        ),
{
    let specs = seq![first, second];
    let none = Seq::<ResolvedNodeView>::empty();
    assert(specs.drop_last() =~= seq![first]);
    assert(seq![first].drop_last() =~= Seq::<NodeSpec>::empty());
    assert(specs.last() == second);
    assert(seq![first].last() == first);
    assert(resolve_all(Seq::<NodeSpec>::empty()) == Resolution::Ok(
        none,
    ));
    lemma_extended_step(none, first, 0);
    lemma_extended_step(none, first, 1);
    let one = extended(none, first, 1);
    assert(!clashes(none, first, 0));
    lemma_no_clash(none, first);
    assert(resolve_one(none, first) == Resolution::Ok(one));
    assert(resolve_all(seq![first]) == Resolution::Ok(one));
    lemma_extended_step(one, second, 0);
    assert(one[0].name == first.name->0.value@);
    assert(names_distinct(one));
    lemma_holder_unique(one, second.basis(), 0);
    assert(is_first_clash(one, second, 0));
    lemma_first_clash_unique(one, second, 0);
}

/// Whether some node's slice holds the key at `key`.
pub open spec fn has_node(nodes: Seq<ResolvedNodeView>, key: int) -> bool {
    exists|i: int| 0 <= i < nodes.len() && #[trigger] nodes[i].validators.contains(key)
}

/// The slices of the nodes of a well-formed network part its key pool: no
/// key belongs to two nodes, every slice lies within the pool, and every key
/// of the pool belongs to a node.
pub proof fn lemma_slices_part_the_pool(nodes: Seq<ResolvedNodeView>)
    requires
        well_formed(nodes),
    ensures
        forall|i: int, j: int, key: int|
            0 <= i < j < nodes.len() ==> !(#[trigger] nodes[i].validators.contains(key)
                && #[trigger] nodes[j].validators.contains(key)),
        forall|i: int, key: int|
            0 <= i < nodes.len() && #[trigger] nodes[i].validators.contains(key) ==> 0 <= key
                < reserved(nodes),
        forall|key: int| 0 <= key < reserved(nodes) ==> #[trigger] has_node(nodes, key),
{
    assert forall|i: int, j: int, key: int| 0 <= i < j < nodes.len() implies !(
    #[trigger] nodes[i].validators.contains(key) && #[trigger] nodes[j].validators.contains(
        key,
    )) by {
        lemma_slices_ordered(nodes, i, j);
    }
    assert forall|i: int, key: int|
        0 <= i < nodes.len() && #[trigger] nodes[i].validators.contains(key) implies 0 <= key
        < reserved(nodes) by {
        if i < nodes.len() - 1 {
            lemma_slices_ordered(nodes, i, nodes.len() - 1);
            assert(nodes[nodes.len() - 1].validators.start <= nodes[nodes.len()
                - 1].validators.end);
        }
        if i > 0 {
            lemma_slices_ordered(nodes, 0, i);
        }
    }
    assert forall|key: int| 0 <= key < reserved(nodes) implies #[trigger] has_node(
        nodes,
        key,
    ) by {
        lemma_key_has_node(nodes, nodes.len() - 1, key);
    }
}

/// Of two nodes the earlier one's slice ends before the later one's begins.
proof fn lemma_slices_ordered(nodes: Seq<ResolvedNodeView>, i: int, j: int)
    requires
        ranges_tile(nodes),
        0 <= i < j < nodes.len(),
    ensures
        0 <= nodes[i].validators.start,
        nodes[i].validators.end <= nodes[j].validators.start,
    decreases j,
{
    if i + 1 < j {
        lemma_slices_ordered(nodes, i, j - 1);
        assert(nodes[j - 1].validators.end == nodes[j].validators.start);
        assert(nodes[j - 1].validators.start <= nodes[j - 1].validators.end);
    } else {
        assert(nodes[i].validators.end == nodes[j].validators.start);
    }
    if i > 0 {
        lemma_slices_ordered(nodes, 0, i);
        assert(nodes[0].validators.start <= nodes[0].validators.end);
    }
}

/// A key before the end of node `last`'s slice belongs to that node or to
/// one before it.
proof fn lemma_key_has_node(nodes: Seq<ResolvedNodeView>, last: int, key: int)
    requires
        ranges_tile(nodes),
        0 <= last < nodes.len(),
        0 <= key < nodes[last].validators.end,
    ensures
        has_node(nodes, key),
    decreases last,
{
    if nodes[last].validators.start <= key {
        assert(nodes[last].validators.contains(key));
    } else {
        if last == 0 {
            assert(nodes[0].validators.start == 0);
        } else {
            assert(nodes[last - 1].validators.end == nodes[last].validators.start);
            lemma_key_has_node(nodes, last - 1, key);
        }
    }
}

/// Whether `keygen` returns the same bytes whenever it is asked for a key
/// with the fixed activation epoch and number of active epochs.
pub open spec fn deterministic<F: Fn(usize, usize) -> ResolvedValidator>(keygen: F) -> bool {
    forall|a: ResolvedValidator, b: ResolvedValidator|
        #[trigger] call_ensures(keygen, (ACTIVATION_EPOCH, NUM_ACTIVE_EPOCHS), a)
            && #[trigger] call_ensures(keygen, (ACTIVATION_EPOCH, NUM_ACTIVE_EPOCHS), b) ==> a@
            == b@
}

/// Resolving the same description twice with a deterministic `keygen` gives
/// the same outcome: the same error, or the same nodes and the same bytes in
/// the key pool.
pub proof fn lemma_resolve_is_deterministic<F: Fn(usize, usize) -> ResolvedValidator>(
    specs: Seq<NodeSpec>,
    keygen: F,
    first: Result<ResolvedNetworkConfig, ConfigError>,
    second: Result<ResolvedNetworkConfig, ConfigError>,
)
    requires
        resolves_to(specs, keygen, first),
        resolves_to(specs, keygen, second),
        deterministic(keygen),
    ensures
        match (first, second) {
            (Ok(a), Ok(b)) => a@ == b@,
            (Err(a), Err(b)) => a@ == b@,
            _ => false,
        },
{
    match (first, second) {
        (Ok(a), Ok(b)) => {
            assert forall|i: int| 0 <= i < a.keys().len() implies a.keys()[i]@ == b.keys()[i]@ by {
                assert(call_ensures(keygen, (ACTIVATION_EPOCH, NUM_ACTIVE_EPOCHS), a.keys()[i]));
                assert(call_ensures(keygen, (ACTIVATION_EPOCH, NUM_ACTIVE_EPOCHS), b.keys()[i]));
            }
            assert(a@.validators =~= b@.validators);
        },
        _ => {},
    }
}

/// In a resolved network the slices of the nodes part the key pool: they are
/// pairwise disjoint and together they are all of its indices.
pub proof fn lemma_network_slices_part_the_pool(network: ResolvedNetworkConfig)
    requires
        network.wf(),
    ensures
        forall|i: int, j: int, key: int|
            0 <= i < j < network.topology().len() ==> !(
            #[trigger] network.topology()[i].validators.contains(key)
                && #[trigger] network.topology()[j].validators.contains(key)),
        forall|key: int|
            has_node(network.topology(), key) <==> 0 <= key < network.keys().len(),
{
    lemma_slices_part_the_pool(network.topology());
    assert forall|key: int| has_node(network.topology(), key) implies 0 <= key
        < network.keys().len() by {
        let i = choose|i: int|
            0 <= i < network.topology().len() && #[trigger] network.topology()[i].validators.contains(
                key,
            );
        assert(network.topology()[i].validators.contains(key));
    }
}

/// Two entries that generate names from the same prefix share one run of
/// indices: the nodes of the first are numbered from zero, those of the
/// second go on where the first stopped, and the two resolve.
pub proof fn lemma_later_entry_continues_indices(first: NodeSpec, second: NodeSpec)
    requires
        first.basis() == second.basis(),
        first.count.value >= 2,
        second.count.value >= 2,
    ensures
        resolve_all(seq![first, second]) == Resolution::Ok(
            expected_nodes(seq![first, second]),
        ),
        expected_nodes(seq![first, second]).len() == first.count.value + second.count.value,
        ({
            let nodes = expected_nodes(seq![first, second]);
            forall|g: int|
                0 <= g < first.count.value + second.count.value ==> (#[trigger] nodes[g]).name
                    == first.basis() + seq!['_'] + decimal(g as nat)
        }),
{
    let specs = seq![first, second];
    let stem = first.basis();
    let nodes = expected_nodes(specs);
    assert(specs.take(0) =~= Seq::<NodeSpec>::empty());
    assert(specs.take(1) =~= seq![first]);
    assert(specs.take(1).drop_last() =~= Seq::<NodeSpec>::empty());
    assert(specs.take(1).last() == first);
    assert(total_nodes(specs.take(0)) == 0);
    assert(total_generated(specs.take(0), stem) == 0);
    assert(total_nodes(specs.take(1)) == first.count.value);
    assert(total_generated(specs.take(1), stem) == first.count.value);
    assert(specs.drop_last() =~= seq![first]);
    assert(total_nodes(specs) == first.count.value + second.count.value);
    lemma_expected_totals(specs, stem);
    assert forall|g: int| 0 <= g < first.count.value + second.count.value implies (
    #[trigger] nodes[g]).name == stem + seq!['_'] + decimal(g as nat) by {
        if g < first.count.value {
            lemma_expected_node(specs, 0, g as nat);
        } else {
            lemma_expected_node(specs, 1, (g - first.count.value) as nat);
        }
    }
    assert forall|a: int, b: int| 0 <= a < b < nodes.len() implies (#[trigger] nodes[a]).name != (
    #[trigger] nodes[b]).name by {
        let head = stem + seq!['_'];
        if nodes[a].name == nodes[b].name {
            assert((head + decimal(a as nat)).skip(head.len() as int) =~= decimal(a as nat));
            assert((head + decimal(b as nat)).skip(head.len() as int) =~= decimal(b as nat));
            lemma_decimal_injective(a as nat, b as nat);
        }
    }
    assert(counts_positive(specs));
    lemma_distinct_names_resolve(specs);
}

} // verus!
