//! Reversible edits of the graph, groups of them, and the undo history.
use vstd::prelude::*;
use crate::nodes::Node;
use crate::params::{connections_resolve, Connection, Graph, GuiNodeData, Params};
use crate::registry::{connect_spec, disconnect_spec, find_node};

verus! {

/// The slot that commands wire into and clear.
pub const SLOT: i64 = 1;

/// Adds a node and its editor record; undoing takes both out again and
/// gives back the earlier "last node".
pub struct CreateNodeCommand {
    pub node: Node,
    pub g_node: GuiNodeData,
    pub previous_last_node: Option<usize>,
}

/// Takes out a node and its editor record; undoing puts both back. Wires
/// that led to or from the node are left as they are.
pub struct DeleteNodeCommand {
    pub node: Node,
    pub g_node: GuiNodeData,
}

/// Wires `from` into `to` and records the connection, when both nodes are
/// there; undoing, when both are there, clears the input and the record.
pub struct CreateConnectionCommand {
    pub id: usize,
    pub from: i64,
    pub to: i64,
}

/// Removes the record of the connection from `from` to `to` and clears the
/// input of `to`; undoing wires it again and restores the record, when there
/// was one.
pub struct DisconnectCommand {
    pub from: i64,
    pub to: i64,
    pub connection: Option<Connection>,
}

/// One edit of the graph.
pub enum Command {
    CreateNode(CreateNodeCommand),
    DeleteNode(DeleteNodeCommand),
    CreateConnection(CreateConnectionCommand),
    Disconnect(DisconnectCommand),
}

/// The graph once `c` is applied (on execute or redo).
pub open spec fn redo_spec(c: Command, g: Graph) -> Graph {
    match c {
        Command::CreateNode(k) => Graph {
            nodes: g.nodes.insert(k.node.node_id(), k.node),
            gui_nodes: g.gui_nodes.insert(k.g_node.id, k.g_node),
            last_node: Some(k.g_node.id),
            ..g
        },
        Command::DeleteNode(k) => Graph {
            nodes: g.nodes.remove(k.node.node_id()),
            gui_nodes: g.gui_nodes.remove(k.g_node.id),
            ..g
        },
        Command::CreateConnection(k) => if g.nodes.contains_key(k.from) && g.nodes.contains_key(
            k.to,
        ) {
            Graph {
                nodes: connect_spec(g.nodes, k.from, k.to, Some(SLOT)),
                connections: g.connections.insert(
                    (k.from, k.to),
                    Connection { id: k.id, from: k.from, to: k.to },
                ),
                ..g
            }
        } else {
            g
        },
        Command::Disconnect(k) => Graph {
            nodes: disconnect_spec(g.nodes, k.to, Some(SLOT)),
            connections: g.connections.remove((k.from, k.to)),
            ..g
        },
    }
}

/// The graph once `c` is undone.
pub open spec fn undo_spec(c: Command, g: Graph) -> Graph {
    match c {
        Command::CreateNode(k) => Graph {
            nodes: g.nodes.remove(k.node.node_id()),
            gui_nodes: g.gui_nodes.remove(k.g_node.id),
            last_node: k.previous_last_node,
            ..g
        },
        Command::DeleteNode(k) => Graph {
            nodes: g.nodes.insert(k.node.node_id(), k.node),
            gui_nodes: g.gui_nodes.insert(k.g_node.id, k.g_node),
            ..g
        },
        Command::CreateConnection(k) => if g.nodes.contains_key(k.from) && g.nodes.contains_key(
            k.to,
        ) {
            Graph {
                nodes: disconnect_spec(g.nodes, k.to, Some(SLOT)),
                connections: g.connections.remove((k.from, k.to)),
                ..g
            }
        } else {
            g
        },
        Command::Disconnect(k) => Graph {
            nodes: connect_spec(g.nodes, k.from, k.to, Some(SLOT)),
            connections: match k.connection {
                Some(c) => g.connections.insert(
                    (k.from, k.to),
                    Connection { id: c.id, from: k.from, to: k.to },
                ),
                None => g.connections,
            },
            ..g
        },
    }
}

/// The command as it stands after its first execution on `g`, holding what
/// undoing will need.
pub open spec fn executed(c: Command, g: Graph) -> Command {
    match c {
        Command::CreateNode(k) => Command::CreateNode(
            CreateNodeCommand { previous_last_node: g.last_node, ..k },
        ),
        Command::Disconnect(k) => Command::Disconnect(
            DisconnectCommand {
                connection: if g.connections.contains_key((k.from, k.to)) {
                    Some(g.connections[(k.from, k.to)])
                } else {
                    None
                },
                ..k
            },
        ),
        _ => c,
    }
}

/// Applying `c` to `g` leaves no connection with a missing end, when none
/// had one before: true of every command but deleting a node that a
/// connection still names.
pub open spec fn keeps_resolved(c: Command, g: Graph) -> bool {
    match c {
        Command::DeleteNode(k) => forall|key: (i64, i64)| #[trigger]
            g.connections.contains_key(key) ==> key.0 != k.node.node_id() && key.1
                != k.node.node_id(),
        _ => true,
    }
}

pub proof fn lemma_redo_resolves(c: Command, g: Graph)
    requires
        connections_resolve(g),
        keeps_resolved(c, g),
    ensures
        connections_resolve(redo_spec(c, g)),
{
    let h = redo_spec(c, g);
    match c {
        Command::CreateConnection(k) => {
            assert forall|key: (i64, i64)| #[trigger] h.connections.contains_key(key) implies h.nodes.contains_key(
                key.0,
            ) && h.nodes.contains_key(key.1) by {
                if key != (k.from, k.to) {
                    assert(g.connections.contains_key(key));
                }
            }
        },
        Command::Disconnect(k) => {
            assert forall|key: (i64, i64)| #[trigger] h.connections.contains_key(key) implies h.nodes.contains_key(
                key.0,
            ) && h.nodes.contains_key(key.1) by {
                assert(g.connections.contains_key(key));
            }
        },
        Command::DeleteNode(k) => {
            assert forall|key: (i64, i64)| #[trigger] h.connections.contains_key(key) implies h.nodes.contains_key(
                key.0,
            ) && h.nodes.contains_key(key.1) by {
                assert(g.connections.contains_key(key));
            }
        },
        Command::CreateNode(k) => {
            assert forall|key: (i64, i64)| #[trigger] h.connections.contains_key(key) implies h.nodes.contains_key(
                key.0,
            ) && h.nodes.contains_key(key.1) by {
                assert(g.connections.contains_key(key));
            }
        },
    }
}

impl CreateNodeCommand {
    pub fn new(node: Node, g_node: GuiNodeData) -> (r: Self)
        ensures
            r.node == node,
            r.g_node == g_node,
            r.previous_last_node is None,
    {
        CreateNodeCommand { node, g_node, previous_last_node: None }
    }

    /// The command, ready to be grouped.
    pub fn new_ref(node: Node, g_node: GuiNodeData) -> (r: Command)
        ensures
            r == Command::CreateNode(CreateNodeCommand { node, g_node, previous_last_node: None }),
    {
        Command::CreateNode(CreateNodeCommand::new(node, g_node))
    }
}

impl DeleteNodeCommand {
    pub fn new(node: Node, g_node: GuiNodeData) -> (r: Self)
        ensures
            r.node == node,
            r.g_node == g_node,
    {
        DeleteNodeCommand { node, g_node }
    }

    /// The command, ready to be grouped.
    pub fn new_ref(node: Node, g_node: GuiNodeData) -> (r: Command)
        ensures
            r == Command::DeleteNode(DeleteNodeCommand { node, g_node }),
    {
        Command::DeleteNode(DeleteNodeCommand::new(node, g_node))
    }
}

impl CreateConnectionCommand {
    pub fn new(id: usize, from: i64, to: i64) -> (r: Self)
        ensures
            r.id == id,
            r.from == from,
            r.to == to,
    {
        CreateConnectionCommand { id, from, to }
    }

    /// The command, ready to be grouped.
    pub fn new_ref(id: usize, from: i64, to: i64) -> (r: Command)
        ensures
            r == Command::CreateConnection(CreateConnectionCommand { id, from, to }),
    {
        Command::CreateConnection(CreateConnectionCommand::new(id, from, to))
    }
}

impl DisconnectCommand {
    pub fn new(from: i64, to: i64) -> (r: Self)
        ensures
            r.from == from,
            r.to == to,
            r.connection is None,
    {
        DisconnectCommand { from, to, connection: None }
    }

    /// The command, ready to be grouped.
    pub fn new_ref(from: i64, to: i64) -> (r: Command)
        ensures
            r == Command::Disconnect(DisconnectCommand { from, to, connection: None }),
    {
        Command::Disconnect(DisconnectCommand::new(from, to))
    }
}

impl Command {
    /// A copy of the command.
    pub fn duplicate(&self) -> (r: Command)
        ensures
            r == *self,
    {
        match self {
            Command::CreateNode(k) => Command::CreateNode(
                CreateNodeCommand {
                    node: k.node.duplicate(),
                    g_node: k.g_node.duplicate(),
                    previous_last_node: k.previous_last_node,
                },
            ),
            Command::DeleteNode(k) => Command::DeleteNode(
                DeleteNodeCommand { node: k.node.duplicate(), g_node: k.g_node.duplicate() },
            ),
            Command::CreateConnection(k) => Command::CreateConnection(
                CreateConnectionCommand { id: k.id, from: k.from, to: k.to },
            ),
            Command::Disconnect(k) => Command::Disconnect(
                DisconnectCommand { from: k.from, to: k.to, connection: k.connection },
            ),
        }
    }

    /// Applies the command again.
    pub fn redo(&self, params: &mut Params)
        requires
            old(params).wf(),
        ensures
            final(params).wf(),
            final(params)@ == redo_spec(*self, old(params)@),
            final(params).same_editor_state(old(params)),
            connections_resolve(old(params)@) && keeps_resolved(*self, old(params)@)
                ==> connections_resolve(final(params)@),
    {
        proof {
            if connections_resolve(old(params)@) && keeps_resolved(*self, old(params)@) {
                lemma_redo_resolves(*self, old(params)@);
            }
        }
        match self {
            Command::CreateNode(k) => {
                params.insert_node(k.node.duplicate());
                params.insert_gui_node(k.g_node.duplicate());
                params.last_node = Some(k.g_node.id);
            },
            Command::DeleteNode(k) => {
                params.remove_node(k.node.id());
                params.remove_gui_node(k.g_node.id);
            },
            Command::CreateConnection(k) => {
                if find_node(&params.node_map, k.from).is_some() && find_node(
                    &params.node_map,
                    k.to,
                ).is_some() {
                    params.connect_nodes(k.from, k.to, Some(SLOT));
                    params.insert_connection(Connection { id: k.id, from: k.from, to: k.to });
                }
            },
            Command::Disconnect(k) => {
                params.remove_connection(k.from, k.to);
                params.disconnect_nodes(k.to, Some(SLOT));
            },
        }
    }

    /// Reverses the command.
    pub fn undo(&self, params: &mut Params)
        requires
            old(params).wf(),
        ensures
            final(params).wf(),
            final(params)@ == undo_spec(*self, old(params)@),
            final(params).same_editor_state(old(params)),
    {
        match self {
            Command::CreateNode(k) => {
                params.remove_node(k.node.id());
                params.remove_gui_node(k.g_node.id);
                params.last_node = k.previous_last_node;
            },
            Command::DeleteNode(k) => {
                params.insert_node(k.node.duplicate());
                params.insert_gui_node(k.g_node.duplicate());
            },
            Command::CreateConnection(k) => {
                if find_node(&params.node_map, k.from).is_some() && find_node(
                    &params.node_map,
                    k.to,
                ).is_some() {
                    params.disconnect_nodes(k.to, Some(SLOT));
                    params.remove_connection(k.from, k.to);
                }
            },
            Command::Disconnect(k) => {
                params.connect_nodes(k.from, k.to, Some(SLOT));
                match k.connection {
                    Some(c) => params.insert_connection(
                        Connection { id: c.id, from: k.from, to: k.to },
                    ),
                    None => {},
                }
            },
        }
    }

    /// Applies the command for the first time, keeping what undoing needs.
    pub fn execute(&mut self, params: &mut Params)
        requires
            old(params).wf(),
        ensures
            final(params).wf(),
            *final(self) == executed(*old(self), old(params)@),
            final(params)@ == redo_spec(*final(self), old(params)@),
            final(params).same_editor_state(old(params)),
            connections_resolve(old(params)@) && keeps_resolved(*old(self), old(params)@)
                ==> connections_resolve(final(params)@),
    {
        proof {
            if connections_resolve(old(params)@) && keeps_resolved(*old(self), old(params)@) {
                lemma_redo_resolves(executed(*old(self), old(params)@), old(params)@);
            }
        }
        match self {
            Command::CreateNode(k) => {
                k.previous_last_node = params.last_node;
            },
            Command::Disconnect(k) => {
                let found = params.remove_connection(k.from, k.to);
                k.connection = found;
                params.disconnect_nodes(k.to, Some(SLOT));
                return ;
            },
            _ => {},
        }
        self.redo(params);
    }
}

} // verus!

verus! {

/// The graph once each command is applied in order.
pub open spec fn redo_all(cs: Seq<Command>, g: Graph) -> Graph
    decreases cs.len(),
{
    if cs.len() == 0 {
        g
    } else {
        redo_spec(cs.last(), redo_all(cs.drop_last(), g))
    }
}

/// The graph once each command is undone, the last one first.
pub open spec fn undo_all(cs: Seq<Command>, g: Graph) -> Graph
    decreases cs.len(),
{
    if cs.len() == 0 {
        g
    } else {
        undo_all(cs.drop_last(), undo_spec(cs.last(), g))
    }
}

/// The commands as they stand after executing them in order from `g`, and
/// the graph they leave.
pub open spec fn execute_all(cs: Seq<Command>, g: Graph) -> (Seq<Command>, Graph)
    decreases cs.len(),
{
    if cs.len() == 0 {
        (cs, g)
    } else {
        let (done, g1) = execute_all(cs.drop_last(), g);
        let c = executed(cs.last(), g1);
        (done.push(c), redo_spec(c, g1))
    }
}

/// Commands applied together and undone together: applied in order, undone
/// in reverse order.
pub struct CommandGroup {
    pub commands: Vec<Command>,
}

impl CommandGroup {
    pub fn new(commands: Vec<Command>) -> (r: Self)
        ensures
            r.commands == commands,
    {
        CommandGroup { commands }
    }

    /// The group, held on the heap.
    pub fn new_ref(commands: Vec<Command>) -> (r: Box<Self>)
        ensures
            r.commands == commands,
    {
        Box::new(CommandGroup::new(commands))
    }

    /// Executes each command in order.
    pub fn execute(&mut self, params: &mut Params)
        requires
            old(params).wf(),
        ensures
            final(params).wf(),
            final(self).commands@ == execute_all(old(self).commands@, old(params)@).0,
            final(params)@ == execute_all(old(self).commands@, old(params)@).1,
            final(params).same_editor_state(old(params)),
    {
        let ghost start = params@;
        let ghost cs = self.commands@;
        let ghost p0 = *params;
        let n = self.commands.len();
        let mut i: usize = 0;
        while i < n
            invariant
                0 <= i <= n,
                n == cs.len(),
                self.commands@.len() == n,
                params.wf(),
                params.same_editor_state(&p0),
                self.commands@.subrange(0, i as int) == execute_all(
                    cs.subrange(0, i as int),
                    start,
                ).0,
                self.commands@.subrange(i as int, n as int) == cs.subrange(i as int, n as int),
                params@ == execute_all(cs.subrange(0, i as int), start).1,
            decreases n - i,
        {
            proof {
                assert(cs.subrange(0, i + 1).drop_last() =~= cs.subrange(0, i as int));
                assert(self.commands@[i as int] == cs.subrange(i as int, n as int)[0]);
            }
            let ghost before = self.commands@;
            let mut c = self.commands[i].duplicate();
            c.execute(params);
            self.commands.set(i, c);
            proof {
                assert(self.commands@.subrange(0, i + 1) =~= before.subrange(0, i as int).push(c));
                assert(self.commands@.subrange(i + 1, n as int) =~= before.subrange(
                    i + 1,
                    n as int,
                ));
                assert(before.subrange(i + 1, n as int) =~= before.subrange(
                    i as int,
                    n as int,
                ).drop_first());
                assert(cs.subrange(i + 1, n as int) =~= cs.subrange(i as int, n as int).drop_first());
            }
            i += 1;
        }
        proof {
            assert(cs.subrange(0, n as int) =~= cs);
            assert(self.commands@.subrange(0, n as int) =~= self.commands@);
        }
    }

    /// Applies each command again, in order.
    pub fn redo(&self, params: &mut Params)
        requires
            old(params).wf(),
        ensures
            final(params).wf(),
            final(params)@ == redo_all(self.commands@, old(params)@),
            final(params).same_editor_state(old(params)),
    {
        let ghost start = params@;
        let ghost p0 = *params;
        let mut i: usize = 0;
        while i < self.commands.len()
            invariant
                0 <= i <= self.commands@.len(),
                params.wf(),
                params.same_editor_state(&p0),
                params@ == redo_all(self.commands@.subrange(0, i as int), start),
            decreases self.commands@.len() - i,
        {
            proof {
                assert(self.commands@.subrange(0, i + 1).drop_last() =~= self.commands@.subrange(
                    0,
                    i as int,
                ));
            }
            self.commands[i].redo(params);
            i += 1;
        }
        proof {
            assert(self.commands@.subrange(0, self.commands@.len() as int) =~= self.commands@);
        }
    }

    /// Undoes each command, the last one first.
    pub fn undo(&self, params: &mut Params)
        requires
            old(params).wf(),
        ensures
            final(params).wf(),
            final(params)@ == undo_all(self.commands@, old(params)@),
            final(params).same_editor_state(old(params)),
    {
        let ghost start = params@;
        let ghost p0 = *params;
        let mut i: usize = self.commands.len();
        proof {
            assert(self.commands@.subrange(0, i as int) =~= self.commands@);
        }
        while i > 0
            invariant
                0 <= i <= self.commands@.len(),
                params.wf(),
                params.same_editor_state(&p0),
                undo_all(self.commands@, start) == undo_all(
                    self.commands@.subrange(0, i as int),
                    params@,
                ),
            decreases i,
        {
            proof {
                assert(self.commands@.subrange(0, i as int).drop_last() =~= self.commands@.subrange(
                    0,
                    i - 1,
                ));
            }
            self.commands[i - 1].undo(params);
            i -= 1;
        }
    }
}

/// The history of groups done and undone. `undo` holds what can be undone,
/// the latest last; `redo` what was undone and can be applied again.
pub struct UndoStack {
    pub undo: Vec<CommandGroup>,
    pub redo: Vec<CommandGroup>,
}

impl UndoStack {
    pub fn new() -> (r: Self)
        ensures
            r.undo@.len() == 0,
            r.redo@.len() == 0,
    {
        UndoStack { undo: Vec::new(), redo: Vec::new() }
    }

    /// Records a group that was just executed; what could be redone is
    /// forgotten.
    pub fn push(&mut self, command: CommandGroup)
        ensures
            (final(self).undo@, final(self).redo@) == stack_push(
                old(self).undo@,
                old(self).redo@,
                command,
            ),
    {
        self.undo.push(command);
        self.redo.clear();
    }

    /// Undoes the latest group and keeps it for redoing; nothing happens
    /// when there is none.
    pub fn undo(&mut self, params: &mut Params)
        requires
            old(params).wf(),
        ensures
            final(params).wf(),
            final(params).same_editor_state(old(params)),
            (final(self).undo@, final(self).redo@, final(params)@) == stack_undo(
                old(self).undo@,
                old(self).redo@,
                old(params)@,
            ),
    {
        match self.undo.pop() {
            Some(command) => {
                command.undo(params);
                self.redo.push(command);
            },
            None => {},
        }
    }

    /// Applies again the group undone last and makes it undoable again;
    /// nothing happens when there is none.
    pub fn redo(&mut self, params: &mut Params)
        requires
            old(params).wf(),
        ensures
            final(params).wf(),
            final(params).same_editor_state(old(params)),
            (final(self).undo@, final(self).redo@, final(params)@) == stack_redo(
                old(self).undo@,
                old(self).redo@,
                old(params)@,
            ),
    {
        match self.redo.pop() {
            Some(command) => {
                command.redo(params);
                self.undo.push(command);
            },
            None => {},
        }
    }
}

} // verus!

verus! {

/// Whether undoing `c` right after executing it on `g` gives `g` back: a
/// node is created under free keys, a node is deleted as it stands, and a
/// wire's round trip leaves the nodes as they were.
pub open spec fn restores(c: Command, g: Graph) -> bool {
    match c {
        Command::CreateNode(k) => !g.nodes.contains_key(k.node.node_id())
            && !g.gui_nodes.contains_key(k.g_node.id),
        Command::DeleteNode(k) => {
            &&& g.nodes.contains_key(k.node.node_id())
            &&& g.nodes[k.node.node_id()] == k.node
            &&& g.gui_nodes.contains_key(k.g_node.id)
            &&& g.gui_nodes[k.g_node.id] == k.g_node
        },
        Command::CreateConnection(k) => g.nodes.contains_key(k.from) && g.nodes.contains_key(k.to)
            ==> {
            &&& !g.connections.contains_key((k.from, k.to))
            &&& disconnect_spec(connect_spec(g.nodes, k.from, k.to, Some(SLOT)), k.to, Some(SLOT))
                == g.nodes
        },
        Command::Disconnect(k) => {
            &&& connect_spec(disconnect_spec(g.nodes, k.to, Some(SLOT)), k.from, k.to, Some(SLOT))
                == g.nodes
            &&& g.connections.contains_key((k.from, k.to)) ==> g.connections[(k.from, k.to)].from
                == k.from && g.connections[(k.from, k.to)].to == k.to
        },
    }
}

/// Each command of the list restores the graph it was executed on.
pub open spec fn restores_all(cs: Seq<Command>, g: Graph) -> bool
    decreases cs.len(),
{
    if cs.len() == 0 {
        true
    } else {
        restores_all(cs.drop_last(), g) && restores(cs.last(), execute_all(cs.drop_last(), g).1)
    }
}

/// Undoing a command right after executing it gives back the graph it was
/// executed on, whenever `restores` holds.
pub proof fn lemma_undo_after_execute(c: Command, g: Graph)
    requires
        restores(c, g),
    ensures
        undo_spec(executed(c, g), redo_spec(executed(c, g), g)) == g,
{
    let e = executed(c, g);
    let h = undo_spec(e, redo_spec(e, g));
    match c {
        Command::CreateNode(k) => {
            assert(h.nodes =~= g.nodes);
            assert(h.gui_nodes =~= g.gui_nodes);
        },
        Command::DeleteNode(k) => {
            assert(h.nodes =~= g.nodes);
            assert(h.gui_nodes =~= g.gui_nodes);
        },
        Command::CreateConnection(k) => {
            assert(h.connections =~= g.connections);
        },
        Command::Disconnect(k) => {
            assert(h.connections =~= g.connections);
        },
    }
}

/// Redoing the executed commands from the graph they started on gives the
/// graph that executing them left.
pub proof fn lemma_redo_replays(cs: Seq<Command>, g: Graph)
    ensures
        redo_all(execute_all(cs, g).0, g) == execute_all(cs, g).1,
    decreases cs.len(),
{
    if cs.len() > 0 {
        lemma_redo_replays(cs.drop_last(), g);
        let (done, g1) = execute_all(cs.drop_last(), g);
        let full = execute_all(cs, g).0;
        assert(full.drop_last() =~= done);
    }
}

/// Undoing a group right after executing it gives back the graph it was
/// executed on, when each of its commands restores its own.
pub proof fn lemma_group_undo_restores(cs: Seq<Command>, g: Graph)
    requires
        restores_all(cs, g),
    ensures
        undo_all(execute_all(cs, g).0, execute_all(cs, g).1) == g,
    decreases cs.len(),
{
    if cs.len() > 0 {
        lemma_group_undo_restores(cs.drop_last(), g);
        let (done, g1) = execute_all(cs.drop_last(), g);
        let full = execute_all(cs, g).0;
        assert(full.drop_last() =~= done);
        lemma_undo_after_execute(cs.last(), g1);
    }
}

/// Undoing a group and redoing it leaves the graph as executing it left it.
pub proof fn lemma_undo_then_redo(cs: Seq<Command>, g: Graph)
    requires
        restores_all(cs, g),
    ensures
        redo_all(execute_all(cs, g).0, undo_all(execute_all(cs, g).0, execute_all(cs, g).1))
            == execute_all(cs, g).1,
{
    lemma_group_undo_restores(cs, g);
    lemma_redo_replays(cs, g);
}

/// Creating a node under free keys and undoing it leaves the nodes, the
/// editor records and the "last node" as they were.
pub proof fn lemma_create_node_undo(k: CreateNodeCommand, g: Graph)
    requires
        !g.nodes.contains_key(k.node.node_id()),
        !g.gui_nodes.contains_key(k.g_node.id),
    ensures
        ({
            let e = executed(Command::CreateNode(k), g);
            let h = undo_spec(e, redo_spec(e, g));
            &&& h.nodes == g.nodes
            &&& h.gui_nodes == g.gui_nodes
            &&& h.last_node == g.last_node
        }),
{
    lemma_undo_after_execute(Command::CreateNode(k), g);
}

/// The history as a pair of lists, with the graph.
pub open spec fn stack_undo(undo: Seq<CommandGroup>, redo: Seq<CommandGroup>, g: Graph) -> (
    Seq<CommandGroup>,
    Seq<CommandGroup>,
    Graph,
) {
    if undo.len() == 0 {
        (undo, redo, g)
    } else {
        (undo.drop_last(), redo.push(undo.last()), undo_all(undo.last().commands@, g))
    }
}

pub open spec fn stack_redo(undo: Seq<CommandGroup>, redo: Seq<CommandGroup>, g: Graph) -> (
    Seq<CommandGroup>,
    Seq<CommandGroup>,
    Graph,
) {
    if redo.len() == 0 {
        (undo, redo, g)
    } else {
        (undo.push(redo.last()), redo.drop_last(), redo_all(redo.last().commands@, g))
    }
}

pub open spec fn stack_push(undo: Seq<CommandGroup>, redo: Seq<CommandGroup>, c: CommandGroup) -> (
    Seq<CommandGroup>,
    Seq<CommandGroup>,
) {
    (undo.push(c), Seq::empty())
}

/// After a group is executed and pushed, undo followed by redo leaves the
/// history and the graph as they were after the push.
pub proof fn lemma_stack_undo_redo(
    undo: Seq<CommandGroup>,
    redo: Seq<CommandGroup>,
    b: CommandGroup,
    cs: Seq<Command>,
    g: Graph,
)
    requires
        b.commands@ == execute_all(cs, g).0,
        restores_all(cs, g),
    ensures
        ({
            let (u, r) = stack_push(undo, redo, b);
            let g1 = execute_all(cs, g).1;
            let (u2, r2, g2) = stack_undo(u, r, g1);
            stack_redo(u2, r2, g2) == (u, r, g1)
        }),
{
    lemma_undo_then_redo(cs, g);
    let (u, r) = stack_push(undo, redo, b);
    assert(u.drop_last().push(b) =~= u);
    assert(r.push(b).drop_last() =~= r);
}

/// Pushing a group forgets what could be redone, so a redo right after a
/// push changes nothing.
pub proof fn lemma_push_clears_redo(
    undo: Seq<CommandGroup>,
    redo: Seq<CommandGroup>,
    c: CommandGroup,
    g: Graph,
)
    ensures
        ({
            let (u, r) = stack_push(undo, redo, c);
            stack_redo(u, r, g) == (u, r, g)
        }),
{
}

} // verus!

verus! {

/// Creating a node and wiring an existing node into it, as one group:
/// undoing the group clears the wire before it takes the node out, so no
/// graph on the way holds a connection to a missing node, and it ends with
/// the graph it started from.
pub proof fn lemma_create_then_connect_undo(n: CreateNodeCommand, c: CreateConnectionCommand, g: Graph)
    requires
        connections_resolve(g),
        !g.nodes.contains_key(n.node.node_id()),
        !g.gui_nodes.contains_key(n.g_node.id),
        g.nodes.contains_key(c.from),
        c.to == n.node.node_id(),
    ensures
        ({
            let cs = seq![Command::CreateNode(n), Command::CreateConnection(c)];
            let (done, g2) = execute_all(cs, g);
            let h1 = undo_spec(done[1], g2);
            let h0 = undo_spec(done[0], h1);
            &&& undo_all(done, g2) == h0
            &&& connections_resolve(g2)
            &&& connections_resolve(h1)
            &&& connections_resolve(h0)
            &&& h0 == g
        }),
{
    let cs = seq![Command::CreateNode(n), Command::CreateConnection(c)];
    let e0 = executed(Command::CreateNode(n), g);
    let g1 = redo_spec(e0, g);
    let e1 = executed(Command::CreateConnection(c), g1);
    let g2 = redo_spec(e1, g1);
    assert(cs.drop_last() =~= seq![Command::CreateNode(n)]);
    assert(seq![Command::CreateNode(n)].drop_last() =~= Seq::<Command>::empty());
    assert(execute_all(Seq::<Command>::empty(), g) == (Seq::<Command>::empty(), g));
    assert(Seq::<Command>::empty().push(e0) =~= seq![e0]);
    assert(execute_all(seq![Command::CreateNode(n)], g) == (seq![e0], g1));
    assert(seq![e0].push(e1) =~= seq![e0, e1]);
    assert(execute_all(cs, g) == (seq![e0, e1], g2));
    let done = seq![e0, e1];
    let h1 = undo_spec(e1, g2);
    let h0 = undo_spec(e0, h1);
    assert(done.drop_last() =~= seq![e0]);
    assert(seq![e0].drop_last() =~= Seq::<Command>::empty());
    assert(done.last() == e1);
    assert(seq![e0].last() == e0);
    assert(undo_all(seq![e0], h1) == undo_all(Seq::<Command>::empty(), h0));
    assert(undo_all(done, g2) == h0);
    let key = (c.from, c.to);
    if g.connections.contains_key(key) {
        // the new node's id is free, so no connection can lead into it
        assert(g.nodes.contains_key(key.1));
    }
    assert(!g.connections.contains_key(key));
    assert(h0.nodes =~= g.nodes);
    assert(h0.gui_nodes =~= g.gui_nodes);
    assert(h0.connections =~= g.connections);
    assert forall|k: (i64, i64)| #[trigger] h0.connections.contains_key(k) implies h0.nodes.contains_key(k.0)
        && h0.nodes.contains_key(k.1) by {
        assert(g.connections.contains_key(k));
    }
}

} // verus!

verus! {

proof fn lemma_rewire(n: Node, a: Option<i64>, b: Option<i64>, slot: Option<i64>)
    ensures
        n.with_input(a, slot).with_input(b, slot) == n.with_input(b, slot),
{
}

/// Undoing a command and applying it again leaves the graph as applying it
/// left it, whatever graph it was applied to.
pub proof fn lemma_redo_after_undo(c: Command, g: Graph)
    ensures
        redo_spec(c, undo_spec(c, redo_spec(c, g))) == redo_spec(c, g),
{
    let h = redo_spec(c, g);
    let r = redo_spec(c, undo_spec(c, h));
    match c {
        Command::CreateNode(k) => {
            assert(r.nodes =~= h.nodes);
            assert(r.gui_nodes =~= h.gui_nodes);
        },
        Command::DeleteNode(k) => {
            assert(r.nodes =~= h.nodes);
            assert(r.gui_nodes =~= h.gui_nodes);
        },
        Command::CreateConnection(k) => {
            if g.nodes.contains_key(k.from) && g.nodes.contains_key(k.to) {
                let n = g.nodes[k.to];
                lemma_rewire(n, Some(k.from), None, Some(SLOT));
                lemma_rewire(n.with_input(Some(k.from), Some(SLOT)), None, Some(k.from), Some(SLOT));
                lemma_rewire(n, None, Some(k.from), Some(SLOT));
                assert(r.nodes =~= h.nodes);
                assert(r.connections =~= h.connections);
            }
        },
        Command::Disconnect(k) => {
            if g.nodes.contains_key(k.to) {
                let n = g.nodes[k.to];
                lemma_rewire(n, None, Some(k.from), Some(SLOT));
                lemma_rewire(n.with_input(None, Some(SLOT)), Some(k.from), None, Some(SLOT));
                lemma_rewire(n, Some(k.from), None, Some(SLOT));
            }
            assert(r.nodes =~= h.nodes);
            assert(r.connections =~= h.connections);
        },
    }
}

/// After a command is applied and pushed as a group of its own, undo
/// followed by redo leaves the history and the graph as they were after the
/// push, whatever graph the command was applied to.
pub proof fn lemma_stack_undo_redo_command(
    undo: Seq<CommandGroup>,
    redo: Seq<CommandGroup>,
    b: CommandGroup,
    c: Command,
    g: Graph,
)
    requires
        b.commands@ == seq![c],
    ensures
        ({
            let (u, r) = stack_push(undo, redo, b);
            let g1 = redo_spec(c, g);
            let (u2, r2, g2) = stack_undo(u, r, g1);
            stack_redo(u2, r2, g2) == (u, r, g1)
        }),
{
    let (u, r) = stack_push(undo, redo, b);
    let g1 = redo_spec(c, g);
    assert(seq![c].drop_last() =~= Seq::<Command>::empty());
    assert(seq![c].last() == c);
    assert(undo_all(Seq::<Command>::empty(), undo_spec(c, g1)) == undo_spec(c, g1));
    assert(redo_all(Seq::<Command>::empty(), undo_spec(c, g1)) == undo_spec(c, g1));
    assert(undo_all(seq![c], g1) == undo_spec(c, g1));
    assert(redo_all(seq![c], undo_spec(c, g1)) == redo_spec(c, undo_spec(c, g1)));
    lemma_redo_after_undo(c, g);
    assert(u.drop_last().push(b) =~= u);
    assert(r.push(b).drop_last() =~= r);
}

} // verus!
