//! A scene as a chain of nodes: each node runs one operation and names its
//! successor, unless the operation itself names another.

use vstd::prelude::*;
use crate::apps::{app_step, execute_ported_app, never_branches, result_model, AppExecutionContext,
    AppExecutionError, AppFault, AppOutcome, AppOutput, ContextModel, OutputModel};
use crate::json::JsonObject;
use crate::models::SceneDescriptor;

verus! {

/// The scenes that are known to the runtime, in the order of their manifest.
#[derive(Debug)]
pub struct SceneCatalog {
    scenes: Vec<SceneDescriptor>,
}

impl Default for SceneCatalog {
    /// A catalog without scenes.
    fn default() -> (out: Self)
        ensures
            out.entries() == Seq::<SceneDescriptor>::empty(),
    {
        Self { scenes: Vec::new() }
    }
}

impl SceneCatalog {
    /// The descriptors that the catalog holds.
    pub closed spec fn entries(&self) -> Seq<SceneDescriptor> {
        self.scenes@
    }

    /// A catalog of these scenes.
    pub fn with_scenes(scenes: Vec<SceneDescriptor>) -> (out: Self)
        ensures
            out.entries() == scenes@,
    {
        Self { scenes }
    }

    /// The scenes of the catalog.
    pub fn scenes(&self) -> (out: &[SceneDescriptor])
        ensures
            out@ == self.entries(),
    {
        self.scenes.as_slice()
    }
}

/// A single executable node within a scene graph.
#[derive(Debug, Clone, PartialEq)]
pub struct SceneNode {
    pub id: u64,
    pub keyword: String,
    pub fields: JsonObject,
    pub next_node: Option<u64>,
}

/// Deterministic app execution graph for a scene.
#[derive(Debug, Clone, PartialEq)]
pub struct SceneGraph {
    pub id: String,
    pub entry_node: u64,
    pub nodes: Vec<SceneNode>,
}

/// What a run of a scene leaves behind.
#[derive(Debug, Clone, PartialEq)]
pub struct SceneRunReport {
    pub scene_id: String,
    /// The ids of the nodes that ran, in the order in which they ran.
    pub visited_nodes: Vec<u64>,
    /// The output of each of those nodes.
    pub outputs: Vec<AppOutput>,
    /// The context as the last node left it.
    pub context: AppExecutionContext,
}

#[derive(Debug, Clone, PartialEq)]
pub enum SceneRunError {
    EmptyNodes,
    MissingEntryNode(u64),
    DuplicateNodeId(u64),
    MissingNode(u64),
    LoopDetected { node_id: u64 },
    App { node_id: u64, source: AppExecutionError },
}

/// No two nodes have the same id.
pub open spec fn unique_ids(nodes: Seq<SceneNode>) -> bool {
    forall|i: int, j: int| 0 <= i < j < nodes.len() ==> nodes[i].id != nodes[j].id
}

/// Some node has this id.
pub open spec fn has_node(nodes: Seq<SceneNode>, id: u64) -> bool {
    exists|i: int| 0 <= i < nodes.len() && (#[trigger] nodes[i]).id == id
}

/// The place of a node that has this id.
pub open spec fn place_of(nodes: Seq<SceneNode>, id: u64) -> int {
    choose|i: int| 0 <= i < nodes.len() && (#[trigger] nodes[i]).id == id
}

/// The node at place `j` has the id of an earlier node.
pub open spec fn repeats_at(nodes: Seq<SceneNode>, j: int) -> bool {
    exists|i: int| 0 <= i < j && (#[trigger] nodes[i]).id == nodes[j].id
}

/// Place `j` is the first at which an id stands for the second time.
pub open spec fn first_repeat(nodes: Seq<SceneNode>, j: int) -> bool {
    &&& 0 <= j < nodes.len()
    &&& repeats_at(nodes, j)
    &&& forall|k: int| 0 <= k < j ==> !repeats_at(nodes, k)
}

/// The node that runs after `node` has returned `output`: the one that a
/// branch names, if it names one other than 0, else the node's successor.
pub open spec fn next_id(node: SceneNode, output: OutputModel) -> Option<u64> {
    match output {
        OutputModel::BranchNode(id) => if id != 0 {
            Some(id as u64)
        } else {
            node.next_node
        },
        _ => node.next_node,
    }
}

/// The context in which step `k` of a run begins.
pub open spec fn context_before(start: ContextModel, outcomes: Seq<AppOutcome>, k: int) -> ContextModel {
    if k == 0 {
        start
    } else {
        outcomes[k - 1].context
    }
}

/// Step `k` of a run: the node with the `k`-th id exists, its operation
/// came to the `k`-th outcome in the context that the step before left,
/// and where a further step follows, the operation succeeded and the next
/// id is the one that it led to.
pub open spec fn step_holds(
    nodes: Seq<SceneNode>,
    start: ContextModel,
    ids: Seq<u64>,
    outcomes: Seq<AppOutcome>,
    k: int,
) -> bool {
    let node = nodes[place_of(nodes, ids[k])];
    &&& has_node(nodes, ids[k])
    &&& app_step(node.keyword@, node.fields@, context_before(start, outcomes, k), outcomes[k])
    &&& k + 1 < ids.len() ==> (outcomes[k].result is Ok && next_id(node, outcomes[k].result->Ok_0)
        == Some(ids[k + 1]))
}

/// A run of the graph from its entry node: the ids of the nodes that ran,
/// none of them twice, and what each came to.
pub open spec fn walk(graph: &SceneGraph, start: ContextModel, ids: Seq<u64>, outcomes: Seq<AppOutcome>) -> bool {
    &&& unique_ids(graph.nodes@)
    &&& ids.len() == outcomes.len()
    &&& ids.len() > 0
    &&& ids[0] == graph.entry_node
    &&& ids.no_duplicates()
    &&& forall|k: int| 0 <= k < ids.len() ==> step_holds(graph.nodes@, start, ids, outcomes, k)
}

/// Where the run goes after its last step, if that step succeeded.
pub open spec fn leads_to(graph: &SceneGraph, ids: Seq<u64>, outcomes: Seq<AppOutcome>) -> Option<u64> {
    next_id(graph.nodes@[place_of(graph.nodes@, ids.last())], outcomes.last().result->Ok_0)
}

/// The report of a run that came to its end.
pub open spec fn reports(
    graph: &SceneGraph,
    start: ContextModel,
    report: &SceneRunReport,
    outcomes: Seq<AppOutcome>,
) -> bool {
    &&& walk(graph, start, report.visited_nodes@, outcomes)
    &&& outcomes.last().result is Ok
    &&& leads_to(graph, report.visited_nodes@, outcomes) is None
    &&& report.outputs@.len() == outcomes.len()
    &&& forall|k: int|
        0 <= k < outcomes.len() ==> outcomes[k].result == Ok::<OutputModel, AppFault>(
            (#[trigger] report.outputs@[k])@,
        )
    &&& report.context@ == outcomes.last().context
    &&& report.scene_id@ == graph.id@
}

/// What a run of `graph` from the context `start` may come to.
///
/// A graph without nodes, with an id that stands twice, or without its
/// entry node is turned down before any operation runs. Else the nodes run
/// one after the other from the entry node, until a node has no successor
/// (the report), an operation fails (its error, under the id of its node),
/// the next node does not exist, or the next node has run already (a loop).
pub open spec fn run_post(
    graph: &SceneGraph,
    start: ContextModel,
    out: Result<SceneRunReport, SceneRunError>,
) -> bool {
    let nodes = graph.nodes@;
    match out {
        Ok(report) => exists|outcomes: Seq<AppOutcome>| reports(graph, start, &report, outcomes),
        Err(SceneRunError::EmptyNodes) => nodes.len() == 0,
        Err(SceneRunError::DuplicateNodeId(id)) => exists|j: int|
            first_repeat(nodes, j) && (#[trigger] nodes[j]).id == id,
        Err(SceneRunError::MissingEntryNode(id)) => nodes.len() > 0 && unique_ids(nodes) && id
            == graph.entry_node && !has_node(nodes, id),
        Err(SceneRunError::MissingNode(id)) => exists|ids: Seq<u64>, outcomes: Seq<AppOutcome>|
            #![trigger walk(graph, start, ids, outcomes)]
            walk(graph, start, ids, outcomes) && outcomes.last().result is Ok && leads_to(
                graph,
                ids,
                outcomes,
            ) == Some(id) && !has_node(nodes, id),
        Err(SceneRunError::LoopDetected { node_id }) => exists|
            ids: Seq<u64>,
            outcomes: Seq<AppOutcome>,
        |
            #![trigger walk(graph, start, ids, outcomes)]
            walk(graph, start, ids, outcomes) && outcomes.last().result is Ok && leads_to(
                graph,
                ids,
                outcomes,
            ) == Some(node_id) && ids.contains(node_id),
        Err(SceneRunError::App { node_id, source }) => exists|
            ids: Seq<u64>,
            outcomes: Seq<AppOutcome>,
        |
            #![trigger walk(graph, start, ids, outcomes)]
            walk(graph, start, ids, outcomes) && ids.last() == node_id && outcomes.last().result
                == Err::<OutputModel, AppFault>(source@),
    }
}

/// How many of the flags are not set.
pub open spec fn unset(flags: Seq<bool>) -> nat
    decreases flags.len(),
{
    if flags.len() == 0 {
        0
    } else {
        unset(flags.drop_last()) + if flags.last() {
            0nat
        } else {
            1nat
        }
    }
}

proof fn lemma_set_flag(flags: Seq<bool>, i: int)
    requires
        0 <= i < flags.len(),
        !flags[i],
    ensures
        unset(flags.update(i, true)) + 1 == unset(flags),
    decreases flags.len(),
{
    let after = flags.update(i, true);
    if i == flags.len() - 1 {
        assert(after.drop_last() == flags.drop_last());
    } else {
        lemma_set_flag(flags.drop_last(), i);
        assert(after.drop_last() == flags.drop_last().update(i, true));
    }
}

/// The first place at which a node has the id, if any has.
fn find_node(nodes: &Vec<SceneNode>, upto: usize, id: u64) -> (out: Option<usize>)
    requires
        upto <= nodes.len(),
    ensures
        match out {
            Some(i) => i < upto && nodes@[i as int].id == id,
            None => forall|j: int| 0 <= j < upto ==> (#[trigger] nodes@[j]).id != id,
        },
{
    let mut i: usize = 0;
    while i < upto
        invariant
            i <= upto <= nodes.len(),
            forall|j: int| 0 <= j < i ==> (#[trigger] nodes@[j]).id != id,
        decreases upto - i,
    {
        if nodes[i].id == id {
            return Some(i);
        }
        i += 1;
    }
    None
}

/// The first id that stands for the second time, if any does.
fn find_duplicate(nodes: &Vec<SceneNode>) -> (out: Option<u64>)
    ensures
        match out {
            Some(id) => exists|j: int| first_repeat(nodes@, j) && (#[trigger] nodes@[j]).id == id,
            None => unique_ids(nodes@),
        },
{
    let mut j: usize = 0;
    while j < nodes.len()
        invariant
            j <= nodes.len(),
            forall|k: int| 0 <= k < j ==> !repeats_at(nodes@, k),
        decreases nodes.len() - j,
    {
        match find_node(nodes, j, nodes[j].id) {
            Some(i) => {
                return Some(nodes[j].id);
            },
            None => {},
        }
        j += 1;
    }
    assert forall|a: int, b: int| 0 <= a < b < nodes@.len() implies nodes@[a].id != nodes@[b].id by {
        if nodes@[a].id == nodes@[b].id {
            assert(repeats_at(nodes@, b));
        }
    }
    None
}

fn next_of(node: &SceneNode, output: &AppOutput) -> (out: Option<u64>)
    ensures
        out == next_id(*node, output@),
{
    match output {
        AppOutput::BranchNode(node_id) => if *node_id != 0 {
            Some(*node_id)
        } else {
            node.next_node
        },
        _ => node.next_node,
    }
}

/// A run that has made its steps and goes on with one more.
proof fn lemma_walk_grows(
    graph: &SceneGraph,
    start: ContextModel,
    ids: Seq<u64>,
    outcomes: Seq<AppOutcome>,
    id: u64,
    outcome: AppOutcome,
)
    requires
        unique_ids(graph.nodes@),
        ids.len() == outcomes.len(),
        ids.len() == 0 ==> id == graph.entry_node,
        ids.len() > 0 ==> walk(graph, start, ids, outcomes) && outcomes.last().result is Ok
            && leads_to(graph, ids, outcomes) == Some(id),
        !ids.contains(id),
        has_node(graph.nodes@, id),
        app_step(
            graph.nodes@[place_of(graph.nodes@, id)].keyword@,
            graph.nodes@[place_of(graph.nodes@, id)].fields@,
            context_before(start, outcomes.push(outcome), ids.len() as int),
            outcome,
        ),
    ensures
        walk(graph, start, ids.push(id), outcomes.push(outcome)),
{
    let ids2 = ids.push(id);
    let outcomes2 = outcomes.push(outcome);
    let nodes = graph.nodes@;
    assert forall|k: int| 0 <= k < ids2.len() implies step_holds(nodes, start, ids2, outcomes2, k) by {
        if k < ids.len() {
            assert(step_holds(nodes, start, ids, outcomes, k));
        }
    }
}

impl SceneGraph {
    /// Runs the scene once.
    #[verifier::loop_isolation(false)]
    pub fn run(&self, context: AppExecutionContext) -> (out: Result<SceneRunReport, SceneRunError>)
        ensures
            run_post(self, context@, out),
            out matches Ok(report) ==> report.visited_nodes@.no_duplicates(),
    {
        let ghost start = context@;
        let nodes = &self.nodes;
        if nodes.len() == 0 {
            return Err(SceneRunError::EmptyNodes);
        }
        match find_duplicate(nodes) {
            Some(id) => {
                return Err(SceneRunError::DuplicateNodeId(id));
            },
            None => {},
        }
        if find_node(nodes, nodes.len(), self.entry_node).is_none() {
            return Err(SceneRunError::MissingEntryNode(self.entry_node));
        }
        let mut flags: Vec<bool> = Vec::new();
        let mut n: usize = 0;
        while n < nodes.len()
            invariant
                n <= nodes.len(),
                flags@.len() == n,
                forall|i: int| 0 <= i < n ==> !flags@[i],
            decreases nodes.len() - n,
        {
            flags.push(false);
            n += 1;
        }
        let mut current: u64 = self.entry_node;
        let mut visited: Vec<u64> = Vec::new();
        let mut outputs: Vec<AppOutput> = Vec::new();
        let mut context = context;
        let ghost mut outcomes: Seq<AppOutcome> = Seq::empty();
        loop
            invariant
                nodes == &self.nodes,
                unique_ids(nodes@),
                flags@.len() == nodes@.len(),
                forall|i: int|
                    0 <= i < nodes@.len() ==> (#[trigger] flags@[i] <==> visited@.contains(
                        nodes@[i].id,
                    )),
                visited@.len() == outcomes.len(),
                outputs@.len() == outcomes.len(),
                forall|k: int|
                    0 <= k < outcomes.len() ==> outcomes[k].result == Ok::<OutputModel, AppFault>(
                        (#[trigger] outputs@[k])@,
                    ),
                visited@.len() == 0 ==> current == self.entry_node && context@ == start
                    && has_node(nodes@, current),
                visited@.len() > 0 ==> walk(self, start, visited@, outcomes) && leads_to(
                    self,
                    visited@,
                    outcomes,
                ) == Some(current) && context@ == outcomes.last().context,
            decreases unset(flags@),
        {
            proof {
                if outcomes.len() > 0 {
                    let k = outcomes.len() - 1;
                    assert(outcomes[k].result == Ok::<OutputModel, AppFault>(outputs@[k]@));
                }
            }
            let place = match find_node(nodes, nodes.len(), current) {
                Some(place) => place,
                None => {
                    proof {
                        if has_node(nodes@, current) {
                            let p = place_of(nodes@, current);
                        }
                    }
                    return Err(SceneRunError::MissingNode(current));
                },
            };
            if flags[place] {
                return Err(SceneRunError::LoopDetected { node_id: current });
            }
            let node = &nodes[place];
            let ghost before = context@;
            let ghost visited_before = visited@;
            let result = execute_ported_app(node.keyword.as_str(), &node.fields, &mut context);
            let ghost outcome = AppOutcome { result: result_model(result), context: context@ };
            proof {
                lemma_walk_grows(self, start, visited@, outcomes, current, outcome);
                lemma_set_flag(flags@, place as int);
            }
            flags.set(place, true);
            visited.push(current);
            proof {
                assert forall|i: int| 0 <= i < nodes@.len() implies (#[trigger] flags@[i]
                    <==> visited@.contains(nodes@[i].id)) by {
                    if i == place {
                    } else {
                        if visited_before.contains(nodes@[i].id) {
                            let k = choose|k: int|
                                0 <= k < visited_before.len() && visited_before[k]
                                    == nodes@[i].id;
                            assert(visited@[k] == nodes@[i].id);
                        }
                        if visited@.contains(nodes@[i].id) {
                            let k = choose|k: int|
                                0 <= k < visited@.len() && visited@[k] == nodes@[i].id;
                        }
                    }
                }
            }
            match result {
                Err(source) => {
                    proof {
                        outcomes = outcomes.push(outcome);
                    }
                    return Err(SceneRunError::App { node_id: current, source });
                },
                Ok(output) => {
                    let next = next_of(node, &output);
                    proof {
                        outcomes = outcomes.push(outcome);
                    }
                    outputs.push(output);
                    match next {
                        Some(id) => {
                            current = id;
                        },
                        None => {
                            let report = SceneRunReport {
                                scene_id: self.id.clone(),
                                visited_nodes: visited,
                                outputs,
                                context,
                            };
                            assert(reports(self, start, &report, outcomes));
                            return Ok(report);
                        },
                    }
                },
            }
        }
    }
}

/// The id that the chain of successors reaches from the entry node in `n`
/// steps, every node taken to have a successor.
pub open spec fn chain_id(graph: &SceneGraph, n: nat) -> u64
    decreases n,
{
    if n == 0 {
        graph.entry_node
    } else {
        let before = chain_id(graph, (n - 1) as nat);
        graph.nodes@[place_of(graph.nodes@, before)].next_node->0
    }
}

/// The chain of successors reaches a node for the second time after `n`
/// steps, and not before.
pub open spec fn first_return(graph: &SceneGraph, n: nat) -> bool {
    &&& exists|k: nat| k < n && chain_id(graph, k) == chain_id(graph, n)
    &&& forall|a: nat, b: nat| a < b < n ==> chain_id(graph, a) != chain_id(graph, b)
}

/// Whatever the context and whatever is read from outside, the operation
/// of the node, where it succeeds, leads on to the successor that the
/// node names: it answers with no branch, or with the branch to 0.
pub open spec fn stays_on_chain(node: SceneNode) -> bool {
    forall|context: ContextModel, env: crate::apps::Env|
        (#[trigger] crate::apps::app_outcome(
            node.keyword@,
            node.fields@,
            context,
            env,
        )).result matches Ok(output) ==> next_id(node, output) == node.next_node
}

/// A node whose operation never answers with a branch stays on the chain.
pub proof fn law_unbranching_stays_on_chain(node: SceneNode)
    requires
        never_branches(node.keyword@),
    ensures
        stays_on_chain(node),
{
}

/// The node that the chain of successors reaches in `k` steps is a node
/// of the graph, names a successor, and stays on the chain.
pub open spec fn chain_goes_on(graph: &SceneGraph, k: nat) -> bool {
    let node = graph.nodes@[place_of(graph.nodes@, chain_id(graph, k))];
    &&& has_node(graph.nodes@, chain_id(graph, k))
    &&& node.next_node is Some
    &&& stays_on_chain(node)
}

/// As long as the chain of successors goes on, a run follows it.
proof fn lemma_walk_follows_chain(
    graph: &SceneGraph,
    start: ContextModel,
    ids: Seq<u64>,
    outcomes: Seq<AppOutcome>,
    k: nat,
)
    requires
        walk(graph, start, ids, outcomes),
        forall|j: nat| j < k ==> chain_goes_on(graph, j),
        k < ids.len(),
    ensures
        ids[k as int] == chain_id(graph, k),
    decreases k,
{
    if k > 0 {
        let j = (k - 1) as nat;
        lemma_walk_follows_chain(graph, start, ids, outcomes, j);
        assert(chain_goes_on(graph, j));
        assert(step_holds(graph.nodes@, start, ids, outcomes, j as int));
        lemma_static_step(graph, start, ids, outcomes, j as int);
    }
}

/// A successful step at a node that stays on the chain leads to the node's successor.
proof fn lemma_static_step(
    graph: &SceneGraph,
    start: ContextModel,
    ids: Seq<u64>,
    outcomes: Seq<AppOutcome>,
    j: int,
)
    requires
        walk(graph, start, ids, outcomes),
        stays_on_chain(graph.nodes@[place_of(graph.nodes@, ids[j])]),
        0 <= j < ids.len(),
        outcomes[j].result is Ok,
    ensures
        next_id(graph.nodes@[place_of(graph.nodes@, ids[j])], outcomes[j].result->Ok_0)
            == graph.nodes@[place_of(graph.nodes@, ids[j])].next_node,
{
    let nodes = graph.nodes@;
    assert(step_holds(nodes, start, ids, outcomes, j));
    let p = place_of(nodes, ids[j]);
    let node = nodes[p];
    let env = choose|env: crate::apps::Env|
        outcomes[j] == crate::apps::app_outcome(
            node.keyword@,
            node.fields@,
            context_before(start, outcomes, j),
            env,
        );
}

/// A run cannot go further than to the node before the first return of the chain.
proof fn lemma_walk_ends_before_return(
    graph: &SceneGraph,
    start: ContextModel,
    ids: Seq<u64>,
    outcomes: Seq<AppOutcome>,
    n: nat,
)
    requires
        walk(graph, start, ids, outcomes),
        first_return(graph, n),
        forall|j: nat| j < n ==> chain_goes_on(graph, j),
    ensures
        ids.len() <= n,
{
    if ids.len() > n {
        let k = choose|k: nat| k < n && chain_id(graph, k) == chain_id(graph, n);
        lemma_walk_follows_chain(graph, start, ids, outcomes, n);
        lemma_walk_follows_chain(graph, start, ids, outcomes, k);
        assert(ids[k as int] == ids[n as int]);
    }
}

/// A chain of successors that comes back to a node is found out as a loop.
///
/// Take a graph without a double id. Follow the successors from the entry
/// node for `n` steps, where step `n` is the first to reach a node for
/// the second time, and where each node before names a successor, is a
/// node of the graph, and holds an operation that leads on to that
/// successor. Nothing is asked of the nodes that the chain does not reach.
/// Whatever a run of the graph comes to, unless an operation fails, it is
/// the loop error, and the error names the node that step `n` reaches.
pub proof fn law_endless_chain_is_a_loop(
    graph: &SceneGraph,
    start: ContextModel,
    out: Result<SceneRunReport, SceneRunError>,
    n: nat,
)
    requires
        run_post(graph, start, out),
        unique_ids(graph.nodes@),
        first_return(graph, n),
        forall|j: nat| j < n ==> chain_goes_on(graph, j),
        !(out matches Err(SceneRunError::App { .. })),
    ensures
        out matches Err(SceneRunError::LoopDetected { node_id }) && node_id == chain_id(graph, n),
{
    let nodes = graph.nodes@;
    let back = choose|k: nat| k < n && chain_id(graph, k) == chain_id(graph, n);
    assert(chain_goes_on(graph, 0));
    assert(chain_goes_on(graph, back));
    match out {
        Ok(report) => {
            let outcomes = choose|outcomes: Seq<AppOutcome>| reports(graph, start, &report, outcomes);
            let ids = report.visited_nodes@;
            let j = (ids.len() - 1) as nat;
            lemma_walk_ends_before_return(graph, start, ids, outcomes, n);
            lemma_walk_follows_chain(graph, start, ids, outcomes, j);
            assert(chain_goes_on(graph, j));
            lemma_static_step(graph, start, ids, outcomes, j as int);
        },
        Err(SceneRunError::EmptyNodes) => {},
        Err(SceneRunError::DuplicateNodeId(id)) => {
            let j = choose|j: int| first_repeat(nodes, j) && (#[trigger] nodes[j]).id == id;
        },
        Err(SceneRunError::MissingEntryNode(id)) => {},
        Err(SceneRunError::MissingNode(id)) => {
            let (ids, outcomes) = choose|ids: Seq<u64>, outcomes: Seq<AppOutcome>|
                #![trigger walk(graph, start, ids, outcomes)]
                walk(graph, start, ids, outcomes) && outcomes.last().result is Ok && leads_to(
                    graph,
                    ids,
                    outcomes,
                ) == Some(id) && !has_node(nodes, id);
            let j = (ids.len() - 1) as nat;
            lemma_walk_ends_before_return(graph, start, ids, outcomes, n);
            lemma_walk_follows_chain(graph, start, ids, outcomes, j);
            assert(chain_goes_on(graph, j));
            lemma_static_step(graph, start, ids, outcomes, j as int);
            assert(id == chain_id(graph, j + 1));
            if j + 1 < n {
                assert(chain_goes_on(graph, j + 1));
            }
        },
        Err(SceneRunError::LoopDetected { node_id }) => {
            let (ids, outcomes) = choose|ids: Seq<u64>, outcomes: Seq<AppOutcome>|
                #![trigger walk(graph, start, ids, outcomes)]
                walk(graph, start, ids, outcomes) && outcomes.last().result is Ok && leads_to(
                    graph,
                    ids,
                    outcomes,
                ) == Some(node_id) && ids.contains(node_id);
            let j = (ids.len() - 1) as nat;
            lemma_walk_ends_before_return(graph, start, ids, outcomes, n);
            lemma_walk_follows_chain(graph, start, ids, outcomes, j);
            assert(chain_goes_on(graph, j));
            lemma_static_step(graph, start, ids, outcomes, j as int);
            assert(node_id == chain_id(graph, j + 1));
            let m = choose|m: int| 0 <= m < ids.len() && ids[m] == node_id;
            lemma_walk_follows_chain(graph, start, ids, outcomes, m as nat);
            if j + 1 < n {
                assert(chain_id(graph, m as nat) != chain_id(graph, j + 1));
            }
        },
        Err(SceneRunError::App { node_id, source }) => {},
    }
}

} // verus!
