//! Configuration of a placement-center node and the cluster it belongs to.
use std::collections::BTreeMap;
use vstd::std_specs::cmp::OrdSpec;
use vstd::std_specs::iter::IteratorSpec;
use vstd::prelude::*;

verus! {

/// Where the logging configuration lives and where the logs go.
#[derive(Clone, Debug, Default)]
pub struct Log {
    pub log_config: String,
    pub log_path: String,
}

/// A consensus participant and the address it is reached at.
#[derive(Clone, Debug, PartialEq, Eq, Default)]
pub struct Node {
    pub node_id: u64,
    pub rpc_addr: String,
}

impl Node {
    /// A copy of the node.
    pub fn duplicate(&self) -> (r: Node)
        ensures
            r == *self,
    {
        Node { node_id: self.node_id, rpc_addr: self.rpc_addr.clone() }
    }
}

/// A copy of a list of nodes.
pub fn duplicate_nodes(nodes: &Vec<Node>) -> (r: Vec<Node>)
    ensures
        r@ == nodes@,
{
    let mut r: Vec<Node> = Vec::new();
    let mut i: usize = 0;
    while i < nodes.len()
        invariant
            i <= nodes@.len(),
            r@ == nodes@.subrange(0, i as int),
        decreases nodes@.len() - i,
    {
        r.push(nodes[i].duplicate());
        i = i + 1;
        assert(r@ =~= nodes@.subrange(0, i as int));
    }
    assert(r@ =~= nodes@);
    r
}

/// The node that bootstraps the cluster: the one with the lowest id.
pub fn calc_init_node(nodes: &BTreeMap<u64, Node>) -> (r: u64)
    requires
        nodes@.dom().len() > 0,
    ensures
        nodes@.contains_key(r),
        forall|k: u64| nodes@.contains_key(k) ==> r <= k,
{
    broadcast use vstd::std_specs::btree::group_btree_axioms;
    broadcast use vstd::laws_cmp::group_laws_cmp;

    assert(vstd::std_specs::btree::key_obeys_cmp_spec::<u64>());
    let ks = nodes.keys();
    let ghost keys = ks.remaining().unref();
    assert(keys.to_set() == nodes@.dom());
    let mut best: u64 = 0;
    let mut found = false;
    for k in iter: ks
        invariant
            iter.seq().unref() == keys,
            keys.to_set() == nodes@.dom(),
            found <==> iter.index() > 0,
            found ==> nodes@.contains_key(best),
            forall|j: int| 0 <= j < iter.index() ==> best <= *iter.seq()[j],
    {
        assert(keys[iter.index() as int] == *k);
        assert(keys.to_set().contains(*k));
        if !found || *k < best {
            best = *k;
        }
        found = true;
    }
    assert forall|k: u64| nodes@.contains_key(k) implies best <= k by {
        assert(keys.to_set().contains(k));
        let j = choose|j: int| 0 <= j < keys.len() && keys[j] == k;
    }
    if !found {
        assert(keys.len() == 0);
        assert(keys.to_set() =~= Set::empty());
    }
    best
}

/// What a node does when it starts: the bootstrap node (the one with the
/// lowest id) initializes the cluster with itself unless it was initialized
/// before, and then adds every other node as a learner, once each, in
/// ascending id order; the other nodes do nothing.
pub struct BootstrapPlan {
    /// The node to initialize the cluster with, on the bootstrap node.
    pub initialize: Option<Node>,
    /// The nodes to add as learners, with their ids.
    pub learners: Vec<(u64, Node)>,
}

/// Plans the start of node `local_id` in the cluster `nodes`;
/// `initialized` tells whether the consensus state was initialized before.
pub fn bootstrap_plan(local_id: u64, nodes: &BTreeMap<u64, Node>, initialized: bool) -> (r:
    BootstrapPlan)
    requires
        nodes@.dom().len() > 0,
    ensures
        ({
            let is_init = nodes@.contains_key(local_id) && forall|k: u64|
                nodes@.contains_key(k) ==> local_id <= k;
            &&& is_init && !initialized ==> r.initialize == Some(nodes@[local_id])
            &&& initialized ==> r.initialize is None
            &&& !is_init ==> r.initialize is None && r.learners@.len() == 0
            &&& forall|i: int|
                0 <= i < r.learners@.len() ==> nodes@.contains_key(#[trigger] r.learners@[i].0)
                    && r.learners@[i].0 != local_id && r.learners@[i].1 == nodes@[r.learners@[i].0]
            &&& is_init ==> forall|k: u64|
                nodes@.contains_key(k) && k != local_id ==> exists|i: int|
                    0 <= i < r.learners@.len() && #[trigger] r.learners@[i].0 == k
            &&& forall|a: int, b: int|
                0 <= a < b < r.learners@.len() ==> #[trigger] r.learners@[a].0
                    < #[trigger] r.learners@[b].0
        }),
{
    broadcast use vstd::std_specs::btree::group_btree_axioms;
    broadcast use vstd::laws_cmp::group_laws_cmp;

    let init = calc_init_node(nodes);
    let mut learners: Vec<(u64, Node)> = Vec::new();
    if init != local_id {
        return BootstrapPlan { initialize: None, learners };
    }
    assert(vstd::laws_cmp::obeys_cmp::<u64>());
    let initialize = if initialized {
        None
    } else {
        match nodes.get(&local_id) {
            Some(n) => Some(n.duplicate()),
            None => None,
        }
    };
    assert(!initialized ==> initialize == Some(nodes@[local_id]));
    assert(vstd::std_specs::btree::key_obeys_cmp_spec::<u64>());
    let ks = nodes.keys();
    let ghost refs = ks.remaining();
    let ghost keys = refs.unref();
    assert(keys.to_set() == nodes@.dom());
    assert(vstd::laws_cmp::obeys_cmp::<&u64>());
    assert(vstd::std_specs::btree::increasing_seq(refs));
    assert forall|i: int, j: int| 0 <= i < j < keys.len() implies #[trigger] keys[i]
        < #[trigger] keys[j] by {
        assert(<&u64 as OrdSpec>::cmp_spec(&refs[i], &refs[j]) is Less);
    }
    let ghost mut last_j: int = -1;
    for k in iter: ks
        invariant
            !initialized ==> initialize == Some(nodes@[local_id]),
            initialized ==> initialize is None,
            init == local_id,
            forall|i: int, j: int| 0 <= i < j < keys.len() ==> #[trigger] keys[i] < #[trigger] keys[j],
            learners@.len() > 0 ==> 0 <= last_j < iter.index() && learners@.last().0 == keys[last_j],
            forall|a: int, b: int|
                0 <= a < b < learners@.len() ==> #[trigger] learners@[a].0 < #[trigger] learners@[b].0,
            iter.seq().unref() == keys,
            keys.to_set() == nodes@.dom(),
            vstd::laws_cmp::obeys_cmp::<u64>(),
            forall|i: int|
                0 <= i < learners@.len() ==> nodes@.contains_key(#[trigger] learners@[i].0)
                    && learners@[i].0 != local_id && learners@[i].1 == nodes@[learners@[i].0],
            forall|j: int|
                0 <= j < iter.index() && keys[j] != local_id ==> exists|i: int|
                    0 <= i < learners@.len() && #[trigger] learners@[i].0 == keys[j],
    {
        assert(keys[iter.index() as int] == *k);
        assert(keys.to_set().contains(*k));
        if *k != local_id {
            match nodes.get(k) {
                Some(n) => {
                    let ghost before = learners@;
                    proof {
                        if before.len() > 0 {
                            assert(keys[last_j] < keys[iter.index() as int]);
                        }
                    }
                    learners.push((*k, n.duplicate()));
                    assert(learners@[learners@.len() - 1].0 == *k);
                    assert forall|i: int| 0 <= i < before.len() implies learners@[i] == before[i] by {}
                    assert forall|a: int, b: int|
                        0 <= a < b < learners@.len() implies #[trigger] learners@[a].0
                        < #[trigger] learners@[b].0 by {
                        if b == learners@.len() - 1 && a < b {
                            assert(learners@[a].0 <= before.last().0);
                        }
                    }
                    proof {
                        last_j = iter.index() as int;
                    }
                },
                None => {},
            }
        }
    }
    assert forall|k: u64| nodes@.contains_key(k) && k != local_id implies exists|i: int|
        0 <= i < learners@.len() && #[trigger] learners@[i].0 == k by {
        assert(keys.to_set().contains(k));
        let j = choose|j: int| 0 <= j < keys.len() && keys[j] == k;
        assert(keys[j] != local_id);
    }
    let ghost l = learners@;
    let r = BootstrapPlan { initialize, learners };
    assert(r.learners@ == l);
    r
}

/// Settings of one node, read once at startup and handed to each component.
#[derive(Clone, Debug, Default)]
pub struct PlacementCenterConfig {
    pub node_id: u32,
    pub grpc_port: usize,
    pub http_port: usize,
    pub data_path: String,
    /// The voting members of the cluster, each with its address.
    pub nodes: Vec<Node>,
    pub log: Log,
}

/// Node id of a configuration that names none.
pub fn default_node_id() -> (r: u32)
    ensures
        r == 1,
{
    1
}

/// gRPC port of a configuration that names none.
pub fn default_grpc_port() -> (r: usize)
    ensures
        r == 9982,
{
    9982
}

/// The configuration of the process: empty until it is first set, and never
/// replaced afterwards.
pub struct ConfigSlot {
    pub conf: Option<PlacementCenterConfig>,
}

impl ConfigSlot {
    pub fn new() -> (r: ConfigSlot)
        ensures
            r.conf is None,
    {
        ConfigSlot { conf: None }
    }

    /// Sets the configuration unless one is set already; either way returns
    /// the one that holds.
    pub fn init_placement_center_conf(&mut self, conf: PlacementCenterConfig) -> (r:
        &PlacementCenterConfig)
        ensures
            old(self).conf is None ==> final(self).conf == Some(conf),
            old(self).conf is Some ==> final(self).conf == old(self).conf,
            final(self).conf == Some(*r),
    {
        if self.conf.is_none() {
            self.conf = Some(conf);
        }
        placement_center_conf(self)
    }
}

/// The configuration that was set.
pub fn placement_center_conf(slot: &ConfigSlot) -> (r: &PlacementCenterConfig)
    requires
        slot.conf is Some,
    ensures
        slot.conf == Some(*r),
{
    match &slot.conf {
        Some(c) => c,
        None => unreached(),
    }
}

} // verus!
