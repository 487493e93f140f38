//! Builds nodes by kind name, wires them by id, and pulls values through them.
use vstd::prelude::*;
use crate::flow::{error_data, Flow, FlowData};
use crate::nodes::{
    fresh_node, is_catalog_name, json_object_output, no_input, outputs_view, step_output,
    step_printed, JsonKeysBuilder, JsonObjectBuilder, JsonParseBuilder, JsonStringifyBuilder,
    LinesBuilder, Node, Output, Printed, StandardInBuilder, StandardOutBuilder,
    StringContainsBuilder, SumBuilder, ToIntBuilder,
};
use crate::table::{keys_unique, lemma_table_contains, lemma_table_index, lemma_table_update, table_map};

verus! {

pub open spec fn node_key() -> spec_fn(Node) -> i64 {
    |n: Node| n.node_id()
}

/// The nodes of a list, by id.
pub open spec fn node_table(nodes: Seq<Node>) -> Map<i64, Node> {
    table_map(nodes, node_key())
}

pub open spec fn nodes_wf(nodes: Seq<Node>) -> bool {
    keys_unique(nodes, node_key())
}

/// A fresh node of the kind that `type_` names, or `None` when the catalog
/// has no such kind.
pub fn build(id: i64, type_: String) -> (r: Option<Node>)
    ensures
        r is Some <==> is_catalog_name(type_@),
        r matches Some(n) ==> fresh_node(n, id, type_@),
{
    let name = type_.as_str();
    if let Some(n) = (StandardInBuilder {}).build(id, name) {
        return Some(n);
    }
    if let Some(n) = (StandardOutBuilder {}).build(id, name) {
        return Some(n);
    }
    if let Some(n) = (JsonKeysBuilder {}).build(id, name) {
        return Some(n);
    }
    if let Some(n) = (JsonParseBuilder {}).build(id, name) {
        return Some(n);
    }
    if let Some(n) = (JsonObjectBuilder {}).build(id, name) {
        return Some(n);
    }
    if let Some(n) = (JsonStringifyBuilder {}).build(id, name) {
        return Some(n);
    }
    if let Some(n) = (StringContainsBuilder {}).build(id, name) {
        return Some(n);
    }
    if let Some(n) = (LinesBuilder {}).build(id, name) {
        return Some(n);
    }
    if let Some(n) = (SumBuilder {}).build(id, name) {
        return Some(n);
    }
    if let Some(n) = (ToIntBuilder {}).build(id, name) {
        return Some(n);
    }
    None
}

/// The place of node `id` in the list.
pub fn find_node(nodes: &Vec<Node>, id: i64) -> (r: Option<usize>)
    requires
        nodes_wf(nodes@),
    ensures
        r is Some <==> node_table(nodes@).contains_key(id),
        r matches Some(i) ==> i < nodes@.len() && nodes@[i as int].node_id() == id
            && node_table(nodes@)[id] == nodes@[i as int],
{
    let mut i: usize = 0;
    while i < nodes.len()
        invariant
            0 <= i <= nodes.len(),
            nodes_wf(nodes@),
            forall|j: int| 0 <= j < i ==> (#[trigger] nodes@[j]).node_id() != id,
        decreases nodes.len() - i,
    {
        if nodes[i].id() == id {
            proof {
                lemma_table_index(nodes@, node_key(), i as int);
            }
            return Some(i);
        }
        i += 1;
    }
    proof {
        lemma_table_contains(nodes@, node_key(), id);
    }
    None
}

/// The nodes after `connect(from, _, to, slot)`: when both ids are there,
/// `from` is wired into `to`'s slot; otherwise nothing changes.
pub open spec fn connect_spec(nodes: Map<i64, Node>, from: i64, to: i64, slot: Option<i64>) -> Map<
    i64,
    Node,
> {
    if nodes.contains_key(from) && nodes.contains_key(to) {
        nodes.insert(to, nodes[to].with_input(Some(from), slot))
    } else {
        nodes
    }
}

/// The nodes after `disconnect(to, slot)`: `to`'s slot is cleared when `to`
/// is there.
pub open spec fn disconnect_spec(nodes: Map<i64, Node>, to: i64, slot: Option<i64>) -> Map<
    i64,
    Node,
> {
    if nodes.contains_key(to) {
        nodes.insert(to, nodes[to].with_input(None, slot))
    } else {
        nodes
    }
}

/// Sets the input of the node at place `i`.
fn set_input_at(nodes: &mut Vec<Node>, i: usize, node: Option<i64>, slot: Option<i64>)
    requires
        nodes_wf(old(nodes)@),
        i < old(nodes)@.len(),
    ensures
        nodes_wf(final(nodes)@),
        node_table(final(nodes)@) == node_table(old(nodes)@).insert(
            old(nodes)@[i as int].node_id(),
            old(nodes)@[i as int].with_input(node, slot),
        ),
{
    let ghost before = nodes@;
    let mut n = nodes.remove(i);
    n.set_input(node, slot);
    nodes.insert(i, n);
    proof {
        assert(nodes@ =~= before.update(i as int, n));
        lemma_table_update(before, node_key(), i as int, n);
    }
}

/// Wires node `from` into slot `to_input` of node `to`; does nothing when
/// either id is missing, and then returns `false` so that the caller can
/// report it. The output slot of `from` is not used.
pub fn connect(
    from: i64,
    _from_input: Option<i64>,
    to: i64,
    to_input: Option<i64>,
    node_map: &mut Vec<Node>,
) -> (r: bool)
    requires
        nodes_wf(old(node_map)@),
    ensures
        r == (node_table(old(node_map)@).contains_key(from) && node_table(
            old(node_map)@,
        ).contains_key(to)),
        nodes_wf(final(node_map)@),
        node_table(final(node_map)@) == connect_spec(node_table(old(node_map)@), from, to, to_input),
{
    match (find_node(node_map, from), find_node(node_map, to)) {
        (Some(_), Some(t)) => {
            set_input_at(node_map, t, Some(from), to_input);
            true
        },
        _ => false,
    }
}

/// Clears slot `to_input` of node `to`; does nothing when the id is
/// missing, and then returns `false`.
pub fn disconnect(to: i64, to_input: Option<i64>, node_map: &mut Vec<Node>) -> (r: bool)
    requires
        nodes_wf(old(node_map)@),
    ensures
        r == node_table(old(node_map)@).contains_key(to),
        nodes_wf(final(node_map)@),
        node_table(final(node_map)@) == disconnect_spec(node_table(old(node_map)@), to, to_input),
{
    match find_node(node_map, to) {
        Some(t) => {
            set_input_at(node_map, t, None, to_input);
            true
        },
        None => false,
    }
}

/// The outcome of pulling a node.
pub enum Pulled {
    /// The value, and what the `StandardOut` nodes on the way wrote, in order.
    Done(Flow, Seq<Output>),
    /// The `StandardIn` node with this id must first be given its text.
    Blocked(i64),
}

pub open spec fn cycle_error() -> Flow {
    Flow::Error("Cycle detected"@)
}

/// Pulling node `id`, following at most `fuel` nodes deep. A missing node
/// gives "No input"; running out of fuel gives "Cycle detected" (with `fuel`
/// the number of nodes, a chain that long must visit some node twice).
pub open spec fn eval(nodes: Map<i64, Node>, id: i64, fuel: nat) -> Pulled
    decreases fuel,
{
    if !nodes.contains_key(id) {
        Pulled::Done(no_input(), Seq::empty())
    } else if fuel == 0 {
        Pulled::Done(cycle_error(), Seq::empty())
    } else {
        let n = nodes[id];
        match n {
            Node::StandardIn(s) => match s.cache {
                Some(read) => Pulled::Done(crate::nodes::read_output(read), Seq::empty()),
                None => Pulled::Blocked(id),
            },
            Node::JsonObject(j) => match (j.keys_input, j.values_input) {
                (Some(k), Some(v)) => match eval(nodes, k, (fuel - 1) as nat) {
                    Pulled::Blocked(b) => Pulled::Blocked(b),
                    Pulled::Done(kd, ko) => match eval(nodes, v, (fuel - 1) as nat) {
                        Pulled::Blocked(b) => Pulled::Blocked(b),
                        Pulled::Done(vd, vo) => Pulled::Done(json_object_output(kd, vd), ko + vo),
                    },
                },
                _ => Pulled::Done(Flow::Error("Insufficient inputs"@), Seq::empty()),
            },
            _ => match n.single_input() {
                None => Pulled::Done(no_input(), Seq::empty()),
                Some(u) => match eval(nodes, u, (fuel - 1) as nat) {
                    Pulled::Blocked(b) => Pulled::Blocked(b),
                    Pulled::Done(d, o) => Pulled::Done(step_output(n, d), o + step_printed(n, d)),
                },
            },
        }
    }
}

/// Whether an exec outcome of a pull, with the output list before and
/// after, agrees with `p`.
pub open spec fn pulled_as(
    p: Pulled,
    r: Result<FlowData, i64>,
    before: Seq<Printed>,
    after: Seq<Printed>,
) -> bool {
    match p {
        Pulled::Done(d, o) => r matches Ok(x) && x@ == d && outputs_view(after) =~= outputs_view(
            before,
        ) + o,
        Pulled::Blocked(b) => r == Err::<FlowData, i64>(b),
    }
}

fn pull_node(nodes: &Vec<Node>, id: i64, fuel: usize, out: &mut Vec<Printed>) -> (r: Result<
    FlowData,
    i64,
>)
    requires
        nodes_wf(nodes@),
    ensures
        pulled_as(eval(node_table(nodes@), id, fuel as nat), r, old(out)@, final(out)@),
    decreases fuel,
{
    let i = match find_node(nodes, id) {
        Some(i) => i,
        None => {
            return Ok(error_data("No input"));
        },
    };
    if fuel == 0 {
        return Ok(error_data("Cycle detected"));
    }
    let node = &nodes[i];
    assert(node_table(nodes@)[id] == *node);
    match node {
        Node::StandardIn(s) => match s.pull() {
            Some(d) => Ok(d),
            None => Err(id),
        },
        Node::JsonObject(j) => match (j.keys_input, j.values_input) {
            (Some(k), Some(v)) => {
                let keys = match pull_node(nodes, k, fuel - 1, out) {
                    Ok(d) => d,
                    Err(b) => {
                        return Err(b);
                    },
                };
                let values = match pull_node(nodes, v, fuel - 1, out) {
                    Ok(d) => d,
                    Err(b) => {
                        return Err(b);
                    },
                };
                Ok(j.pull(keys, values))
            },
            _ => Ok(error_data("Insufficient inputs")),
        },
        _ => {
            let input = match node {
                Node::StandardOut(n) => n.input,
                Node::Lines(n) => n.input,
                Node::JsonParse(n) => n.input,
                Node::JsonStringify(n) => n.input,
                Node::JsonKeys(n) => n.input,
                Node::ToInt(n) => n.input,
                Node::Sum(n) => n.input,
                Node::StringContains(n) => n.input,
                _ => None,
            };
            match input {
                None => Ok(error_data("No input")),
                Some(u) => {
                    let content = match pull_node(nodes, u, fuel - 1, out) {
                        Ok(d) => d,
                        Err(b) => {
                            return Err(b);
                        },
                    };
                    Ok(node.pull_step(content, out))
                },
            }
        },
    }
}

/// Pulls node `id`: `Ok` with its value, after appending to `out` what the
/// `StandardOut` nodes on the way wrote; or `Err` with the id of a
/// `StandardIn` node that must first be given its text.
pub fn pull(node_map: &Vec<Node>, id: i64, out: &mut Vec<Printed>) -> (r: Result<FlowData, i64>)
    requires
        nodes_wf(node_map@),
    ensures
        pulled_as(eval(node_table(node_map@), id, node_map@.len()), r, old(out)@, final(out)@),
{
    pull_node(node_map, id, node_map.len(), out)
}

} // verus!

verus! {

/// Wiring `from` into an empty slot of `to` and then clearing that slot
/// leaves every node as it was.
pub proof fn lemma_connect_then_disconnect(
    nodes: Map<i64, Node>,
    from: i64,
    to: i64,
    slot: Option<i64>,
)
    requires
        nodes.contains_key(to) ==> nodes[to].input_at(slot) is None,
    ensures
        disconnect_spec(connect_spec(nodes, from, to, slot), to, slot) == nodes,
{
    if nodes.contains_key(from) && nodes.contains_key(to) {
        let n = nodes[to];
        assert(n.with_input(Some(from), slot).with_input(None, slot) == n);
        assert(disconnect_spec(connect_spec(nodes, from, to, slot), to, slot) =~= nodes);
    } else if nodes.contains_key(to) {
        let n = nodes[to];
        assert(n.with_input(None, slot) == n);
        assert(disconnect_spec(nodes, to, slot) =~= nodes);
    }
}

} // verus!
