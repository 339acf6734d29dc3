//! The resolver: from the entries of a description to named nodes, each with
//! its slice of one pool of validator keys.

use vstd::prelude::*;
use vstd::string::*;
use crate::config::copy_span;
use crate::config::lemmas::lemma_error_stays;
use crate::config::lemmas::lemma_extended_step;
use crate::config::lemmas::lemma_first_clash_unique;
use crate::config::lemmas::lemma_generated_bounded;
use crate::config::lemmas::lemma_generated_extended;
use crate::config::lemmas::lemma_generated_push;
use crate::config::lemmas::lemma_holder_unique;
use crate::config::lemmas::lemma_no_clash;
use crate::config::lemmas::lemma_reserved_extended;
use crate::config::lemmas::lemma_well_formed_push;
use crate::config::model::by_name;
use crate::config::model::clashes;
use crate::config::model::extended;
use crate::config::model::first_clash;
use crate::config::model::generated;
use crate::config::model::generated_from;
use crate::config::model::holds_name;
use crate::config::model::reserved;
use crate::config::model::resolve_all;
use crate::config::model::resolve_one;
use crate::config::model::well_formed;
use crate::config::model::IndexRange;
use crate::config::model::Resolution;
use crate::config::model::ResolvedNodeView;
use crate::config::ConfigError;
use crate::config::NetworkConfig;
use crate::config::NodeNameDefinition;
use crate::config::NodeNameSource;
use crate::config::NodeSpec;
use crate::config::Span;
use crate::text::push_decimal;
use crate::validator::ResolvedValidator;
use crate::validator::ResolvedValidatorView;
use crate::validator::ACTIVATION_EPOCH;
use crate::validator::NUM_ACTIVE_EPOCHS;
use std::ops::Range;

verus! {

/// A node of the resolved network.
#[derive(Debug, PartialEq, Eq)]
pub struct ResolvedNode {
    /// The final name, unique in the network.
    pub name: String,
    /// Why the node bears that name.
    pub def: NodeNameDefinition,
    /// The node's validators, as indices into the network's pool.
    pub validators: Span,
}

impl View for ResolvedNode {
    type V = ResolvedNodeView;

    open spec fn view(&self) -> ResolvedNodeView {
        ResolvedNodeView {
            name: self.name@,
            def: self.def@,
            validators: IndexRange {
                start: self.validators.start as int,
                end: self.validators.end as int,
            },
        }
    }
}

/// The views of a list of nodes.
pub open spec fn nodes_view(nodes: Seq<ResolvedNode>) -> Seq<ResolvedNodeView> {
    Seq::new(nodes.len(), |i: int| nodes[i]@)
}

/// The next unused index of a prefix.
#[derive(Debug, PartialEq, Eq)]
struct PrefixCounter {
    prefix: String,
    next: u64,
}

/// Whether a prefix has a counter.
spec fn counted(counters: Seq<PrefixCounter>, prefix: Seq<char>) -> bool {
    exists|i: int| 0 <= i < counters.len() && (#[trigger] counters[i]).prefix@ == prefix
}

/// Each prefix has at most one counter, each counter holds the number of
/// nodes generated from its prefix, and a prefix without a counter has none.
spec fn counters_match(counters: Seq<PrefixCounter>, nodes: Seq<ResolvedNodeView>) -> bool {
    &&& forall|i: int, j: int|
        0 <= i < j < counters.len() ==> (#[trigger] counters[i]).prefix@ != (
        #[trigger] counters[j]).prefix@
    &&& forall|i: int|
        0 <= i < counters.len() ==> (#[trigger] counters[i]).next == generated(
            nodes,
            counters[i].prefix@,
        )
    &&& forall|prefix: Seq<char>| #[trigger]
        generated(nodes, prefix) > 0 ==> counted(counters, prefix)
}

/// A resolved network: the pool of validator keys, the nodes in the order of
/// their resolution, and the next index of every prefix seen so far.
#[derive(Debug, PartialEq, Eq)]
pub struct ResolvedNetworkConfig {
    validators: Vec<ResolvedValidator>,
    nodes: Vec<ResolvedNode>,
    counters: Vec<PrefixCounter>,
}

/// What a [`ResolvedNetworkConfig`] holds, as mathematical values: the bytes
/// of the keys of its pool, and its nodes in the order of their resolution.
pub struct ResolvedNetworkView {
    pub validators: Seq<ResolvedValidatorView>,
    pub nodes: Seq<ResolvedNodeView>,
}

impl View for ResolvedNetworkConfig {
    type V = ResolvedNetworkView;

    open spec fn view(&self) -> ResolvedNetworkView {
        ResolvedNetworkView {
            validators: Seq::new(self.keys().len(), |i: int| self.keys()[i]@),
            nodes: self.topology(),
        }
    }
}

/// Whether `after` is `before` followed by keys that `keygen` can return for
/// the fixed activation epoch and number of active epochs.
pub open spec fn keys_extended<F: Fn(usize, usize) -> ResolvedValidator>(
    before: Seq<ResolvedValidator>,
    after: Seq<ResolvedValidator>,
    keygen: F,
) -> bool {
    &&& before.len() <= after.len()
    &&& forall|i: int| 0 <= i < before.len() ==> #[trigger] after[i] == before[i]
    &&& forall|i: int|
        before.len() <= i < after.len() ==> call_ensures(
            keygen,
            (ACTIVATION_EPOCH, NUM_ACTIVE_EPOCHS),
            #[trigger] after[i],
        )
}

/// How many nodes of `spec` are in place when resolving it on top of `nodes`
/// fails: none for a count of zero, else those before the first clash.
pub open spec fn failed_at(nodes: Seq<ResolvedNodeView>, spec: NodeSpec) -> nat {
    if spec.count.value == 0 {
        0
    } else {
        first_clash(nodes, spec)
    }
}

impl ResolvedNetworkConfig {
    /// The nodes in the order of their resolution.
    pub closed spec fn topology(&self) -> Seq<ResolvedNodeView> {
        nodes_view(self.nodes@)
    }

    /// The pool of validator keys.
    pub closed spec fn keys(&self) -> Seq<ResolvedValidator> {
        self.validators@
    }

    /// The counters hold what the nodes say.
    pub closed spec fn counters_agree(&self) -> bool {
        counters_match(self.counters@, self.topology())
    }

    /// Names are unique, the slices of the nodes tile the pool from its first
    /// key to its last, and the counters agree with the nodes.
    pub open spec fn wf(&self) -> bool {
        &&& well_formed(self.topology())
        &&& self.keys().len() == reserved(self.topology())
        &&& self.counters_agree()
    }

    /// A network without nodes or keys.
    pub fn new() -> (r: Self)
        ensures
            r.wf(),
            r.topology() == Seq::<ResolvedNodeView>::empty(),
            r.keys() == Seq::<ResolvedValidator>::empty(),
    {
        let r = ResolvedNetworkConfig {
            validators: Vec::new(),
            nodes: Vec::new(),
            counters: Vec::new(),
        };
        assert(r.topology() =~= Seq::<ResolvedNodeView>::empty());
        r
    }

    /// The pool of validator keys; a node's slice indexes into it.
    pub fn validators(&self) -> (r: &Vec<ResolvedValidator>)
        ensures
            r@ == self.keys(),
    {
        &self.validators
    }

    /// The nodes in the order of their resolution.
    pub fn nodes(&self) -> (r: &Vec<ResolvedNode>)
        ensures
            nodes_view(r@) == self.topology(),
    {
        &self.nodes
    }

    /// The position of the node that bears `name`.
    pub fn position(&self, name: &str) -> (r: Option<usize>)
        ensures
            match r {
                Some(i) => i < self.topology().len() && self.topology()[i as int].name == name@,
                None => !holds_name(self.topology(), name@),
            },
    {
        let wanted = name.to_owned();
        let mut i: usize = 0;
        while i < self.nodes.len()
            invariant
                i <= self.nodes.len(),
                wanted@ == name@,
                forall|k: int| 0 <= k < i ==> (#[trigger] self.topology()[k]).name != name@,
            decreases self.nodes.len() - i,
        {
            if self.nodes[i].name == wanted {
                return Some(i);
            }
            i = i + 1;
        }
        None
    }

    /// The node that bears `name`.
    pub fn node(&self, name: &str) -> (r: Option<&ResolvedNode>)
        ensures
            match r {
                Some(node) => {
                    &&& node@.name == name@
                    &&& self.topology().contains(node@)
                    &&& self.wf() ==> by_name(self.topology())[name@] == node@
                },
                None => !by_name(self.topology()).contains_key(name@),
            },
    {
        match self.position(name) {
            Some(i) => {
                assert(self.topology()[i as int] == self.nodes@[i as int]@);
                proof {
                    if self.wf() {
                        lemma_holder_unique(self.topology(), name@, i as int);
                    }
                }
                Some(&self.nodes[i])
            },
            None => None,
        }
    }

    /// The position of the counter of `prefix`.
    fn counter_position(&self, prefix: &String) -> (r: Option<usize>)
        ensures
            match r {
                Some(i) => i < self.counters@.len() && self.counters@[i as int].prefix@ == prefix@,
                None => !counted(self.counters@, prefix@),
            },
    {
        let mut i: usize = 0;
        while i < self.counters.len()
            invariant
                i <= self.counters.len(),
                forall|k: int| 0 <= k < i ==> (#[trigger] self.counters@[k]).prefix@ != prefix@,
            decreases self.counters.len() - i,
        {
            if self.counters[i].prefix == *prefix {
                return Some(i);
            }
            i = i + 1;
        }
        None
    }

    /// The next unused index of `prefix`.
    fn next_index(&self, prefix: &String) -> (r: u64)
        requires
            self.counters_agree(),
        ensures
            r == generated(self.topology(), prefix@),
    {
        match self.counter_position(prefix) {
            Some(i) => self.counters[i].next,
            None => 0,
        }
    }

    /// Adds a node with a fresh name whose slice ends the pool, and counts it
    /// for its prefix where it was generated from one.
    fn push_node(&mut self, node: ResolvedNode)
        requires
            well_formed(old(self).topology()),
            old(self).counters_agree(),
            !holds_name(old(self).topology(), node@.name),
            node@.validators.start == reserved(old(self).topology()),
            node@.validators.end == old(self).keys().len(),
            node@.validators.start <= node@.validators.end,
        ensures
            final(self).wf(),
            final(self).topology() == old(self).topology().push(node@),
            final(self).keys() == old(self).keys(),
    {
        let ghost before = self.topology();
        let ghost added = node@;
        let ghost old_counters = self.counters@;
        proof {
            lemma_well_formed_push(before, added);
        }
        let stem: Option<String> = match &node.def {
            NodeNameDefinition::Singular(_) => None,
            NodeNameDefinition::Prefix { prefix, .. } => Some(prefix.clone()),
        };
        self.nodes.push(node);
        let total = self.nodes.len();
        assert(self.topology() =~= before.push(added));
        let ghost after = self.topology();
        assert forall|p: Seq<char>|
            generated(after, p) == generated(before, p) + if generated_from(added.def, p) {
                1nat
            } else {
                0nat
            } by {
            lemma_generated_push(before, added, p);
        }
        match stem {
            None => {
                assert(counters_match(self.counters@, after));
            },
            Some(prefix) => {
                assert(generated_from(added.def, prefix@));
                let ghost stem_text = prefix@;
                match self.counter_position(&prefix) {
                    Some(i) => {
                        proof {
                            lemma_generated_bounded(after, stem_text);
                        }
                        let next = self.counters[i].next + 1;
                        self.counters.set(i, PrefixCounter { prefix, next });
                        assert forall|a: int, b: int|
                            0 <= a < b < self.counters@.len() implies (
                        #[trigger] self.counters@[a]).prefix@ != (
                        #[trigger] self.counters@[b]).prefix@ by {
                            assert(old_counters[a].prefix@ != old_counters[b].prefix@);
                        }
                        assert forall|a: int| 0 <= a < self.counters@.len() implies (
                        #[trigger] self.counters@[a]).next == generated(
                            after,
                            self.counters@[a].prefix@,
                        ) by {
                            if a != i {
                                if a < i {
                                    assert(old_counters[a].prefix@ != old_counters[i as int].prefix@);
                                } else {
                                    assert(old_counters[i as int].prefix@ != old_counters[a].prefix@);
                                }
                                assert(old_counters[a].next == generated(
                                    before,
                                    old_counters[a].prefix@,
                                ));
                            } else {
                                assert(old_counters[a].next == generated(
                                    before,
                                    old_counters[a].prefix@,
                                ));
                            }
                        }
                        assert forall|p: Seq<char>| #[trigger]
                            generated(after, p) > 0 implies counted(self.counters@, p) by {
                            if p == stem_text {
                                assert(self.counters@[i as int].prefix@ == p);
                            } else {
                                assert(counted(old_counters, p));
                                let k = choose|k: int|
                                    0 <= k < old_counters.len() && (
                                    #[trigger] old_counters[k]).prefix@ == p;
                                assert(self.counters@[k].prefix@ == p);
                            }
                        }
                    },
                    None => {
                        assert(generated(before, stem_text) == 0);
                        self.counters.push(PrefixCounter { prefix, next: 1 });
                        assert forall|a: int, b: int|
                            0 <= a < b < self.counters@.len() implies (
                        #[trigger] self.counters@[a]).prefix@ != (
                        #[trigger] self.counters@[b]).prefix@ by {
                            if b < old_counters.len() {
                                assert(old_counters[a].prefix@ != old_counters[b].prefix@);
                            } else {
                                assert(old_counters[a].prefix@ != stem_text);
                            }
                        }
                        assert forall|a: int| 0 <= a < self.counters@.len() implies (
                        #[trigger] self.counters@[a]).next == generated(
                            after,
                            self.counters@[a].prefix@,
                        ) by {
                            if a < old_counters.len() {
                                assert(old_counters[a].prefix@ != stem_text);
                                assert(old_counters[a].next == generated(
                                    before,
                                    old_counters[a].prefix@,
                                ));
                            }
                        }
                        assert forall|p: Seq<char>| #[trigger]
                            generated(after, p) > 0 implies counted(self.counters@, p) by {
                            if p == stem_text {
                                assert(self.counters@[old_counters.len() as int].prefix@ == p);
                            } else {
                                assert(counted(old_counters, p));
                                let k = choose|k: int|
                                    0 <= k < old_counters.len() && (
                                    #[trigger] old_counters[k]).prefix@ == p;
                                assert(self.counters@[k].prefix@ == p);
                            }
                        }
                    },
                }
            },
        }
    }
}

/// What holds of the outcome of resolving `specs` with `keygen`: it is what
/// the model says. On success the network is well formed, its nodes are those
/// of the model, and every key of its pool is one that `keygen` can return
/// for the fixed activation epoch and number of active epochs.
pub open spec fn resolves_to<F: Fn(usize, usize) -> ResolvedValidator>(
    specs: Seq<NodeSpec>,
    keygen: F,
    outcome: Result<ResolvedNetworkConfig, ConfigError>,
) -> bool {
    match outcome {
        Ok(network) => {
            &&& resolve_all(specs) == Resolution::Ok(network.topology())
            &&& network.wf()
            &&& keys_extended(Seq::empty(), network.keys(), keygen)
        },
        Err(error) => resolve_all(specs) == Resolution::Err(error@),
    }
}

impl ResolvedNetworkConfig {
    /// Appends `count` keys from `keygen` to the pool.
    fn reserve_validators<F: Fn(usize, usize) -> ResolvedValidator>(
        &mut self,
        count: u64,
        keygen: &F,
    )
        requires
            call_requires(*keygen, (ACTIVATION_EPOCH, NUM_ACTIVE_EPOCHS)),
        ensures
            final(self).topology() == old(self).topology(),
            final(self).counters_agree() == old(self).counters_agree(),
            final(self).keys().len() == old(self).keys().len() + count,
            keys_extended(old(self).keys(), final(self).keys(), *keygen),
    {
        let mut made: u64 = 0;
        while made < count
            invariant
                made <= count,
                call_requires(*keygen, (ACTIVATION_EPOCH, NUM_ACTIVE_EPOCHS)),
                self.topology() == old(self).topology(),
                self.counters_agree() == old(self).counters_agree(),
                self.keys().len() == old(self).keys().len() + made,
                keys_extended(old(self).keys(), self.keys(), *keygen),
            decreases count - made,
        {
            let key = keygen(ACTIVATION_EPOCH, NUM_ACTIVE_EPOCHS);
            self.validators.push(key);
            made = made + 1;
        }
    }

    /// Resolves one entry on top of what is resolved so far. Each of its
    /// nodes gets its name first; a taken name ends the resolution with the
    /// nodes before it in place. Then the node gets the next
    /// `validator_count` keys of the pool, each made by one call of `keygen`.
    pub fn resolve<F: Fn(usize, usize) -> ResolvedValidator>(
        &mut self,
        spec: &NodeSpec,
        keygen: &F,
    ) -> (r: Result<(), ConfigError>)
        requires
            old(self).wf(),
            call_requires(*keygen, (ACTIVATION_EPOCH, NUM_ACTIVE_EPOCHS)),
        ensures
            final(self).wf(),
            keys_extended(old(self).keys(), final(self).keys(), *keygen),
            match r {
                Ok(()) => resolve_one(old(self).topology(), *spec) == Resolution::Ok(
                    final(self).topology(),
                ),
                Err(error) => {
                    &&& resolve_one(old(self).topology(), *spec) == Resolution::Err(error@)
                    &&& final(self).topology() == extended(
                        old(self).topology(),
                        *spec,
                        failed_at(old(self).topology(), *spec),
                    )
                },
            },
    {
        let ghost before = self.topology();
        let ghost offset = generated(before, spec.basis());
        let count = spec.count.value;
        proof {
            lemma_extended_step(before, *spec, 0);
        }
        if count == 0 {
            return Err(ConfigError::InvalidCount(copy_span(&spec.count.span)));
        }
        let (node_id, node_id_span) = match &spec.name {
            Some(name) => (name.value.clone(), NodeNameSource::Name(copy_span(&name.span))),
            None => (
                spec.client.value.kind().to_string(),
                NodeNameSource::Kind(copy_span(&spec.client.span)),
            ),
        };
        let mut j: u64 = 0;
        while j < count
            invariant
                j <= count,
                count == spec.count.value,
                count > 0,
                before == old(self).topology(),
                offset == generated(before, spec.basis()),
                node_id@ == spec.basis(),
                node_id_span == spec.basis_source(),
                call_requires(*keygen, (ACTIVATION_EPOCH, NUM_ACTIVE_EPOCHS)),
                self.wf(),
                self.topology() == extended(before, *spec, j as nat),
                keys_extended(old(self).keys(), self.keys(), *keygen),
                forall|i: nat| i < j ==> !clashes(before, *spec, i),
            decreases count - j,
        {
            let ghost present = self.topology();
            proof {
                lemma_generated_extended(before, *spec, j as nat, spec.basis());
                lemma_reserved_extended(before, *spec, j as nat);
                lemma_extended_step(before, *spec, j as nat);
            }
            let (name, def) = if count == 1 {
                (node_id.clone(), NodeNameDefinition::Singular(node_id_span.clone()))
            } else {
                let index = self.next_index(&node_id);
                let mut name = node_id.clone();
                name.append("_");
                push_decimal(&mut name, index);
                proof {
                    reveal_strlit("_");
                    assert("_"@ =~= seq!['_']);
                }
                (
                    name,
                    NodeNameDefinition::Prefix {
                        prefix: node_id.clone(),
                        prefix_span: node_id_span.clone(),
                        count_span: copy_span(&spec.count.span),
                    },
                )
            };
            assert(name@ == spec.instance_name(offset, j as nat));
            assert(def@ == spec.definition());
            match self.position(name.as_str()) {
                Some(held) => {
                    proof {
                        lemma_holder_unique(present, name@, held as int);
                        lemma_first_clash_unique(before, *spec, j as nat);
                        assert(present[held as int].def == self.nodes@[held as int].def@);
                    }
                    let prev_def = self.nodes[held].def.clone();
                    return Err(ConfigError::DuplicateName { name, curr_def: def, prev_def });
                },
                None => {},
            }
            let start = self.validators.len();
            self.reserve_validators(spec.validator_count, keygen);
            let end = self.validators.len();
            proof {
                assert((j + 1) * spec.validator_count == j * spec.validator_count
                    + spec.validator_count) by (nonlinear_arith);
            }
            let node = ResolvedNode { name, def, validators: Range { start, end } };
            assert(node@ == spec.instance(offset, reserved(before), j as nat));
            self.push_node(node);
            j = j + 1;
        }
        proof {
            lemma_no_clash(before, *spec);
        }
        Ok(())
    }
}

impl NetworkConfig {
    /// Resolves the description: every entry in the order written, each node
    /// with a unique name and its own slice of the key pool, the keys made by
    /// `keygen` in the order of the pool. The first error ends it, and
    /// nothing of the network is handed out then.
    pub fn resolve<F: Fn(usize, usize) -> ResolvedValidator>(self, keygen: F) -> (r: Result<
        ResolvedNetworkConfig,
        ConfigError,
    >)
        requires
            call_requires(keygen, (ACTIVATION_EPOCH, NUM_ACTIVE_EPOCHS)),
        ensures
            resolves_to(self.node@, keygen, r),
    {
        let mut resolved = ResolvedNetworkConfig::new();
        let mut i: usize = 0;
        while i < self.node.len()
            invariant
                i <= self.node.len(),
                call_requires(keygen, (ACTIVATION_EPOCH, NUM_ACTIVE_EPOCHS)),
                resolved.wf(),
                keys_extended(Seq::empty(), resolved.keys(), keygen),
                resolve_all(self.node@.take(i as int)) == Resolution::Ok(resolved.topology()),
            decreases self.node.len() - i,
        {
            let ghost done = self.node@.take(i as int);
            let ghost next = self.node@.take(i + 1);
            proof {
                assert(next.drop_last() =~= done);
                assert(next.last() == self.node@[i as int]);
            }
            match resolved.resolve(&self.node[i], &keygen) {
                Ok(()) => {},
                Err(error) => {
                    proof {
                        lemma_error_stays(self.node@, i + 1);
                    }
                    return Err(error);
                },
            }
            i = i + 1;
        }
        assert(self.node@.take(i as int) =~= self.node@);
        Ok(resolved)
    }
}

} // verus!
