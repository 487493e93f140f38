//! The graph store: nodes, the connections between them, and the records
//! that link each node to its place in the editor.
use vstd::prelude::*;
use crate::flow::FlowData;
use crate::nodes::{Node, Printed, StandardIn};
use crate::registry::{
    connect, connect_spec, disconnect, disconnect_spec, eval, find_node, node_key, node_table,
    nodes_wf, pull, pulled_as,
};
use crate::table::{
    keys_unique, lemma_table_contains, lemma_table_index, lemma_table_push, lemma_table_remove,
    lemma_table_update, table_map,
};

verus! {

/// A wire from node `from` to node `to`, with the editor's id for it.
#[derive(Debug, Clone, Copy, PartialEq, Eq)]
pub struct Connection {
    pub id: usize,
    pub from: i64,
    pub to: i64,
}

/// The editor's record for a node: its widget id, the node it shows and
/// its label. Where the editor draws it is kept by the editor.
#[derive(Debug)]
pub struct GuiNodeData {
    pub id: usize,
    pub node_id: i64,
    pub label: String,
}

impl GuiNodeData {
    pub fn duplicate(&self) -> (r: GuiNodeData)
        ensures
            r == *self,
    {
        GuiNodeData { id: self.id, node_id: self.node_id, label: self.label.clone() }
    }
}

/// Where the editor is about to insert a new node, relative to the
/// selected one.
#[derive(Debug, Clone, Copy, PartialEq, Eq)]
pub enum CreateState {
    Hidden,
    Before,
    After,
    Substitute,
    Free,
}

/// The editor's command line: closed, or open with the text typed so far.
#[derive(Debug, PartialEq)]
pub enum CommandLine {
    Hidden,
    Text(String),
}

#[derive(Debug, Clone, Copy, PartialEq, Eq)]
pub enum InteractionMode {
    Normal,
    Visual,
}

/// The state of an editing session.
pub struct Params {
    /// The last node id handed out.
    pub node_id: i64,
    pub display_menu: CreateState,
    pub name_input: String,
    pub gui_nodes: Vec<GuiNodeData>,
    /// The widget id of the node created last.
    pub last_node: Option<usize>,
    pub node_map: Vec<Node>,
    pub connections: Vec<Connection>,
    pub selected_nodes: Vec<usize>,
    pub command_line: CommandLine,
    pub interaction_mode: InteractionMode,
}

pub open spec fn connection_key() -> spec_fn(Connection) -> (i64, i64) {
    |c: Connection| (c.from, c.to)
}

pub open spec fn gui_key() -> spec_fn(GuiNodeData) -> usize {
    |g: GuiNodeData| g.id
}

/// The graph that a session holds, as maps.
pub struct Graph {
    pub nodes: Map<i64, Node>,
    pub connections: Map<(i64, i64), Connection>,
    pub gui_nodes: Map<usize, GuiNodeData>,
    pub last_node: Option<usize>,
}

impl View for Params {
    type V = Graph;

    open spec fn view(&self) -> Graph {
        Graph {
            nodes: node_table(self.node_map@),
            connections: table_map(self.connections@, connection_key()),
            gui_nodes: table_map(self.gui_nodes@, gui_key()),
            last_node: self.last_node,
        }
    }
}

/// Every connection joins two nodes of the graph.
pub open spec fn connections_resolve(g: Graph) -> bool {
    forall|k: (i64, i64)| #[trigger]
        g.connections.contains_key(k) ==> g.nodes.contains_key(k.0) && g.nodes.contains_key(k.1)
}

impl Params {
    /// No two nodes, connections or editor records share a key.
    pub open spec fn wf(&self) -> bool {
        &&& nodes_wf(self.node_map@)
        &&& keys_unique(self.connections@, connection_key())
        &&& keys_unique(self.gui_nodes@, gui_key())
    }

    /// The parts of the session that only the editor reads are the same.
    pub open spec fn same_editor_state(&self, other: &Params) -> bool {
        &&& self.node_id == other.node_id
        &&& self.display_menu == other.display_menu
        &&& self.name_input == other.name_input
        &&& self.selected_nodes == other.selected_nodes
        &&& self.command_line == other.command_line
        &&& self.interaction_mode == other.interaction_mode
    }

    /// An empty session.
    pub fn new() -> (r: Params)
        ensures
            r.wf(),
            r@.nodes.is_empty(),
            r@.connections.is_empty(),
            r@.gui_nodes.is_empty(),
            r@.last_node is None,
            r.node_id == 0,
    {
        Params {
            node_id: 0,
            display_menu: CreateState::Hidden,
            name_input: String::new(),
            gui_nodes: Vec::new(),
            last_node: None,
            node_map: Vec::new(),
            connections: Vec::new(),
            selected_nodes: Vec::new(),
            command_line: CommandLine::Hidden,
            interaction_mode: InteractionMode::Normal,
        }
    }

    /// Puts `node` under its id, in place of any node with that id.
    pub fn insert_node(&mut self, node: Node)
        requires
            old(self).wf(),
        ensures
            final(self).wf(),
            final(self)@ == (Graph { nodes: old(self)@.nodes.insert(node.node_id(), node), ..old(self)@ }),
            final(self).same_editor_state(old(self)),
    {
        let ghost before = self.node_map@;
        match find_node(&self.node_map, node.id()) {
            Some(i) => {
                self.node_map.set(i, node);
                proof {
                    lemma_table_update(before, node_key(), i as int, node);
                }
            },
            None => {
                self.node_map.push(node);
                proof {
                    lemma_table_push(before, node_key(), node);
                }
            },
        }
    }

    /// Takes out the node with id `id`, if there is one.
    pub fn remove_node(&mut self, id: i64)
        requires
            old(self).wf(),
        ensures
            final(self).wf(),
            final(self)@ == (Graph { nodes: old(self)@.nodes.remove(id), ..old(self)@ }),
            final(self).same_editor_state(old(self)),
    {
        let ghost before = self.node_map@;
        match find_node(&self.node_map, id) {
            Some(i) => {
                self.node_map.remove(i);
                proof {
                    lemma_table_remove(before, node_key(), i as int);
                }
            },
            None => {
                proof {
                    assert(node_table(before) =~= node_table(before).remove(id));
                }
            },
        }
    }

    /// The place of the editor record with widget id `id`.
    pub fn find_gui(&self, id: usize) -> (r: Option<usize>)
        requires
            self.wf(),
        ensures
            r is Some <==> self@.gui_nodes.contains_key(id),
            r matches Some(i) ==> i < self.gui_nodes@.len() && self.gui_nodes@[i as int].id == id
                && self@.gui_nodes[id] == self.gui_nodes@[i as int],
    {
        let mut i: usize = 0;
        while i < self.gui_nodes.len()
            invariant
                0 <= i <= self.gui_nodes.len(),
                self.wf(),
                forall|j: int| 0 <= j < i ==> (#[trigger] self.gui_nodes@[j]).id != id,
            decreases self.gui_nodes.len() - i,
        {
            if self.gui_nodes[i].id == id {
                proof {
                    lemma_table_index(self.gui_nodes@, gui_key(), i as int);
                }
                return Some(i);
            }
            i += 1;
        }
        proof {
            lemma_table_contains(self.gui_nodes@, gui_key(), id);
        }
        None
    }

    /// Puts an editor record under its widget id, in place of any other.
    pub fn insert_gui_node(&mut self, g_node: GuiNodeData)
        requires
            old(self).wf(),
        ensures
            final(self).wf(),
            final(self)@ == (Graph {
                gui_nodes: old(self)@.gui_nodes.insert(g_node.id, g_node),
                ..old(self)@
            }),
            final(self).same_editor_state(old(self)),
    {
        let ghost before = self.gui_nodes@;
        match self.find_gui(g_node.id) {
            Some(i) => {
                self.gui_nodes.set(i, g_node);
                proof {
                    lemma_table_update(before, gui_key(), i as int, g_node);
                }
            },
            None => {
                self.gui_nodes.push(g_node);
                proof {
                    lemma_table_push(before, gui_key(), g_node);
                }
            },
        }
    }

    /// Takes out the editor record with widget id `id`, if there is one.
    pub fn remove_gui_node(&mut self, id: usize)
        requires
            old(self).wf(),
        ensures
            final(self).wf(),
            final(self)@ == (Graph { gui_nodes: old(self)@.gui_nodes.remove(id), ..old(self)@ }),
            final(self).same_editor_state(old(self)),
    {
        let ghost before = self.gui_nodes@;
        match self.find_gui(id) {
            Some(i) => {
                self.gui_nodes.remove(i);
                proof {
                    lemma_table_remove(before, gui_key(), i as int);
                }
            },
            None => {
                proof {
                    assert(table_map(before, gui_key()) =~= table_map(before, gui_key()).remove(id));
                }
            },
        }
    }

    fn find_connection(&self, from: i64, to: i64) -> (r: Option<usize>)
        requires
            self.wf(),
        ensures
            r is Some <==> self@.connections.contains_key((from, to)),
            r matches Some(i) ==> i < self.connections@.len() && self.connections@[i as int].from
                == from && self.connections@[i as int].to == to && self@.connections[(from, to)]
                == self.connections@[i as int],
    {
        let mut i: usize = 0;
        while i < self.connections.len()
            invariant
                0 <= i <= self.connections.len(),
                self.wf(),
                forall|j: int|
                    0 <= j < i ==> (connection_key())(#[trigger] self.connections@[j]) != (from, to),
            decreases self.connections.len() - i,
        {
            if self.connections[i].from == from && self.connections[i].to == to {
                proof {
                    lemma_table_index(self.connections@, connection_key(), i as int);
                }
                return Some(i);
            }
            i += 1;
        }
        proof {
            lemma_table_contains(self.connections@, connection_key(), (from, to));
        }
        None
    }

    /// Records a connection under `(from, to)`, in place of any other.
    pub fn insert_connection(&mut self, connection: Connection)
        requires
            old(self).wf(),
        ensures
            final(self).wf(),
            final(self)@ == (Graph {
                connections: old(self)@.connections.insert(
                    (connection.from, connection.to),
                    connection,
                ),
                ..old(self)@
            }),
            final(self).same_editor_state(old(self)),
    {
        let ghost before = self.connections@;
        match self.find_connection(connection.from, connection.to) {
            Some(i) => {
                self.connections.set(i, connection);
                proof {
                    lemma_table_update(before, connection_key(), i as int, connection);
                }
            },
            None => {
                self.connections.push(connection);
                proof {
                    lemma_table_push(before, connection_key(), connection);
                }
            },
        }
    }

    /// Takes out the record of the connection from `from` to `to`, and
    /// returns it.
    pub fn remove_connection(&mut self, from: i64, to: i64) -> (r: Option<Connection>)
        requires
            old(self).wf(),
        ensures
            final(self).wf(),
            final(self)@ == (Graph {
                connections: old(self)@.connections.remove((from, to)),
                ..old(self)@
            }),
            r == (if old(self)@.connections.contains_key((from, to)) {
                Some(old(self)@.connections[(from, to)])
            } else {
                None
            }),
            final(self).same_editor_state(old(self)),
    {
        let ghost before = self.connections@;
        match self.find_connection(from, to) {
            Some(i) => {
                let c = self.connections.remove(i);
                proof {
                    lemma_table_remove(before, connection_key(), i as int);
                }
                Some(c)
            },
            None => {
                proof {
                    assert(table_map(before, connection_key()) =~= table_map(
                        before,
                        connection_key(),
                    ).remove((from, to)));
                }
                None
            },
        }
    }

    /// Wires node `from` into slot `slot` of node `to`, when both are there;
    /// returns whether they were.
    pub fn connect_nodes(&mut self, from: i64, to: i64, slot: Option<i64>) -> (r: bool)
        requires
            old(self).wf(),
        ensures
            r == (old(self)@.nodes.contains_key(from) && old(self)@.nodes.contains_key(to)),
            final(self).wf(),
            final(self)@ == (Graph {
                nodes: connect_spec(old(self)@.nodes, from, to, slot),
                ..old(self)@
            }),
            final(self).same_editor_state(old(self)),
    {
        connect(from, None, to, slot, &mut self.node_map)
    }

    /// Clears slot `slot` of node `to`, when it is there; returns whether it
    /// was.
    pub fn disconnect_nodes(&mut self, to: i64, slot: Option<i64>) -> (r: bool)
        requires
            old(self).wf(),
        ensures
            r == old(self)@.nodes.contains_key(to),
            final(self).wf(),
            final(self)@ == (Graph { nodes: disconnect_spec(old(self)@.nodes, to, slot), ..old(self)@ }),
            final(self).same_editor_state(old(self)),
    {
        disconnect(to, slot, &mut self.node_map)
    }
}

} // verus!

verus! {

/// The producer of the first connection, in list order, that leads into `id`.
pub open spec fn first_input(s: Seq<Connection>, id: i64) -> Option<i64>
    decreases s.len(),
{
    if s.len() == 0 {
        None
    } else if s[0].to == id {
        Some(s[0].from)
    } else {
        first_input(s.drop_first(), id)
    }
}

/// The consumer of the first connection, in list order, that leads out of `id`.
pub open spec fn first_output(s: Seq<Connection>, id: i64) -> Option<i64>
    decreases s.len(),
{
    if s.len() == 0 {
        None
    } else if s[0].from == id {
        Some(s[0].to)
    } else {
        first_output(s.drop_first(), id)
    }
}

/// Whether some connection leads out of `id`.
pub open spec fn has_output(s: Seq<Connection>, id: i64) -> bool {
    exists|i: int| 0 <= i < s.len() && (#[trigger] s[i]).from == id
}

/// The ids of the nodes that no connection leads out of, in list order.
pub open spec fn terminal_ids(nodes: Seq<Node>, s: Seq<Connection>) -> Seq<i64>
    decreases nodes.len(),
{
    if nodes.len() == 0 {
        Seq::empty()
    } else {
        let rest = terminal_ids(nodes.drop_last(), s);
        if has_output(s, nodes.last().node_id()) {
            rest
        } else {
            rest.push(nodes.last().node_id())
        }
    }
}

/// The nodes after `StandardIn` node `id` is given what was read, when it
/// is there and has read nothing yet.
pub open spec fn provide_spec(nodes: Map<i64, Node>, id: i64, read: Result<String, String>) -> Map<
    i64,
    Node,
> {
    if nodes.contains_key(id) && (nodes[id] matches Node::StandardIn(s) && s.cache is None) {
        nodes.insert(id, Node::StandardIn(StandardIn { id, cache: Some(read) }))
    } else {
        nodes
    }
}

impl Params {
    /// Pulls node `id`; see `registry::pull`.
    pub fn pull(&self, id: i64, out: &mut Vec<Printed>) -> (r: Result<FlowData, i64>)
        requires
            self.wf(),
        ensures
            pulled_as(eval(self@.nodes, id, self.node_map@.len()), r, old(out)@, final(out)@),
    {
        pull(&self.node_map, id, out)
    }

    /// Gives `StandardIn` node `id` what was read from outside: `Ok` with
    /// the text, or `Err` with the reason it failed. A node that has read
    /// already keeps what it has.
    pub fn provide_input(&mut self, id: i64, read: Result<String, String>)
        requires
            old(self).wf(),
        ensures
            final(self).wf(),
            final(self)@ == (Graph { nodes: provide_spec(old(self)@.nodes, id, read), ..old(self)@ }),
            final(self).same_editor_state(old(self)),
    {
        let ghost before = self.node_map@;
        match find_node(&self.node_map, id) {
            Some(i) => {
                let waiting = match &self.node_map[i] {
                    Node::StandardIn(s) => s.cache.is_none(),
                    _ => false,
                };
                if waiting {
                    let n = Node::StandardIn(StandardIn { id, cache: Some(read) });
                    self.node_map.set(i, n);
                    proof {
                        lemma_table_update(before, node_key(), i as int, n);
                    }
                }
            },
            None => {},
        }
    }

    /// The node that the first connection into `id` comes from.
    pub fn find_input_node(&self, id: i64) -> (r: Option<i64>)
        ensures
            r == first_input(self.connections@, id),
    {
        let mut i: usize = 0;
        proof {
            assert(self.connections@.subrange(0, self.connections@.len() as int) =~= self.connections@);
        }
        while i < self.connections.len()
            invariant
                0 <= i <= self.connections.len(),
                first_input(self.connections@, id) == first_input(self.connections@.subrange(i as int, self.connections@.len() as int), id),
            decreases self.connections.len() - i,
        {
            proof {
                assert(self.connections@.subrange(i as int, self.connections@.len() as int).drop_first() =~= self.connections@.subrange(
                    i + 1,
                    self.connections@.len() as int,
                ));
            }
            if self.connections[i].to == id {
                return Some(self.connections[i].from);
            }
            i += 1;
        }
        proof {
            assert(self.connections@.subrange(i as int, self.connections@.len() as int).len() == 0);
        }
        None
    }

    /// The node that the first connection out of `id` goes to.
    pub fn find_output_node(&self, id: i64) -> (r: Option<i64>)
        ensures
            r == first_output(self.connections@, id),
    {
        let mut i: usize = 0;
        proof {
            assert(self.connections@.subrange(0, self.connections@.len() as int) =~= self.connections@);
        }
        while i < self.connections.len()
            invariant
                0 <= i <= self.connections.len(),
                first_output(self.connections@, id) == first_output(self.connections@.subrange(i as int, self.connections@.len() as int), id),
            decreases self.connections.len() - i,
        {
            proof {
                assert(self.connections@.subrange(i as int, self.connections@.len() as int).drop_first() =~= self.connections@.subrange(
                    i + 1,
                    self.connections@.len() as int,
                ));
            }
            if self.connections[i].from == id {
                return Some(self.connections[i].to);
            }
            i += 1;
        }
        proof {
            assert(self.connections@.subrange(i as int, self.connections@.len() as int).len() == 0);
        }
        None
    }

    /// Whether a connection leads out of `id`.
    pub fn has_output_node(&self, id: i64) -> (r: bool)
        ensures
            r == has_output(self.connections@, id),
    {
        let mut i: usize = 0;
        while i < self.connections.len()
            invariant
                0 <= i <= self.connections.len(),
                forall|j: int| 0 <= j < i ==> (#[trigger] self.connections@[j]).from != id,
            decreases self.connections.len() - i,
        {
            if self.connections[i].from == id {
                proof {
                    assert(self.connections@[i as int].from == id);
                }
                return true;
            }
            i += 1;
        }
        false
    }

    /// The nodes that no connection leads out of, in the order of the node
    /// list: the ones whose output is observed when the graph is run.
    pub fn terminal_nodes(&self) -> (r: Vec<i64>)
        ensures
            r@ == terminal_ids(self.node_map@, self.connections@),
    {
        let mut out: Vec<i64> = Vec::new();
        let mut i: usize = 0;
        while i < self.node_map.len()
            invariant
                0 <= i <= self.node_map@.len(),
                out@ == terminal_ids(self.node_map@.subrange(0, i as int), self.connections@),
            decreases self.node_map@.len() - i,
        {
            proof {
                assert(self.node_map@.subrange(0, i + 1).drop_last() =~= self.node_map@.subrange(
                    0,
                    i as int,
                ));
            }
            let id = self.node_map[i].id();
            if !self.has_output_node(id) {
                out.push(id);
            }
            i += 1;
        }
        proof {
            assert(self.node_map@.subrange(0, self.node_map@.len() as int) =~= self.node_map@);
        }
        out
    }
}

} // verus!
