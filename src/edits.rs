//! Inserting a new node relative to the selected one: after it, before it,
//! or in its place, as one undoable group.
use vstd::prelude::*;
use crate::commands::{
    execute_all, Command, CommandGroup, CreateConnectionCommand, CreateNodeCommand,
    DeleteNodeCommand, DisconnectCommand, UndoStack,
};
use crate::nodes::{fresh_node, is_catalog_name};
use crate::params::{first_input, first_output, CreateState, GuiNodeData, Params};
use crate::registry::{build, find_node};

verus! {

/// Hands out widget ids for new editor records and connections.
pub struct IdGenerator {
    pub next: usize,
}

impl IdGenerator {
    pub fn next_id(&mut self) -> (r: usize)
        requires
            old(self).next < usize::MAX,
        ensures
            r == old(self).next,
            final(self).next == old(self).next + 1,
    {
        let r = self.next;
        self.next = self.next + 1;
        r
    }
}

/// The commands that insert the node that `create` creates (with id
/// `new_id`) relative to the selected node, and the next free widget id,
/// ids being handed out from `next`. Without exactly one selected node the
/// node is only created. Before: the selected node's producer, if any, is
/// rewired into the new node, which feeds the selected one. After: the
/// selected node feeds the new one. Substitute: only when the selected node
/// has both a producer and a consumer, the new node takes its place and it
/// is deleted.
pub open spec fn insert_plan(p: Params, create: Command, new_id: i64, next: usize) -> (
    Seq<Command>,
    int,
) {
    if p.selected_nodes@.len() == 1 && p@.gui_nodes.contains_key(p.selected_nodes@[0]) {
        let b = p@.gui_nodes[p.selected_nodes@[0]];
        let input = first_input(p.connections@, b.node_id);
        let output = first_output(p.connections@, b.node_id);
        let conn = CreateConnectionCommand { id: next, from: new_id, to: b.node_id };
        match p.display_menu {
            CreateState::Before => match input {
                Some(i) => (
                    seq![
                        create,
                        Command::CreateConnection(
                            CreateConnectionCommand { id: (next + 1) as usize, from: i, to: new_id },
                        ),
                        Command::Disconnect(
                            DisconnectCommand { from: i, to: b.node_id, connection: None },
                        ),
                        Command::CreateConnection(conn),
                    ],
                    next + 2,
                ),
                None => (seq![create, Command::CreateConnection(conn)], next + 1),
            },
            CreateState::After => (
                seq![
                    create,
                    Command::CreateConnection(
                        CreateConnectionCommand { id: next, from: b.node_id, to: new_id },
                    ),
                ],
                next + 1,
            ),
            CreateState::Substitute => if p@.nodes.contains_key(b.node_id) && input is Some
                && output is Some {
                (
                    seq![
                        create,
                        Command::Disconnect(
                            DisconnectCommand { from: input->0, to: b.node_id, connection: None },
                        ),
                        Command::Disconnect(
                            DisconnectCommand { from: b.node_id, to: output->0, connection: None },
                        ),
                        Command::CreateConnection(
                            CreateConnectionCommand {
                                id: (next + 1) as usize,
                                from: input->0,
                                to: new_id,
                            },
                        ),
                        Command::CreateConnection(
                            CreateConnectionCommand {
                                id: (next + 2) as usize,
                                from: new_id,
                                to: output->0,
                            },
                        ),
                        Command::DeleteNode(
                            DeleteNodeCommand { node: p@.nodes[b.node_id], g_node: b },
                        ),
                    ],
                    next + 3,
                )
            } else {
                (seq![create], next + 1)
            },
            _ => (seq![create], next + 1),
        }
    } else {
        (seq![create], next as int)
    }
}

/// Builds the commands of `insert_plan`.
pub fn insert_commands(params: &Params, create: Command, new_id: i64, ids: &mut IdGenerator) -> (r:
    Vec<Command>)
    requires
        params.wf(),
        old(ids).next + 3 < usize::MAX,
    ensures
        r@ == insert_plan(*params, create, new_id, old(ids).next).0,
        final(ids).next == insert_plan(*params, create, new_id, old(ids).next).1,
{
    let mut commands: Vec<Command> = Vec::new();
    commands.push(create);
    if params.selected_nodes.len() == 1 {
        if let Some(gi) = params.find_gui(params.selected_nodes[0]) {
            let b = &params.gui_nodes[gi];
            let connection_id = ids.next_id();
            match params.display_menu {
                CreateState::Before => {
                    if let Some(connected) = params.find_input_node(b.node_id) {
                        commands.push(CreateConnectionCommand::new_ref(ids.next_id(), connected, new_id));
                        commands.push(DisconnectCommand::new_ref(connected, b.node_id));
                    }
                    commands.push(CreateConnectionCommand::new_ref(connection_id, new_id, b.node_id));
                },
                CreateState::After => {
                    commands.push(CreateConnectionCommand::new_ref(connection_id, b.node_id, new_id));
                },
                CreateState::Substitute => {
                    let input_node = params.find_input_node(b.node_id);
                    let output_node = params.find_output_node(b.node_id);
                    match (find_node(&params.node_map, b.node_id), input_node, output_node) {
                        (Some(ni), Some(inode), Some(onode)) => {
                            commands.push(DisconnectCommand::new_ref(inode, b.node_id));
                            commands.push(DisconnectCommand::new_ref(b.node_id, onode));
                            commands.push(CreateConnectionCommand::new_ref(ids.next_id(), inode, new_id));
                            commands.push(CreateConnectionCommand::new_ref(ids.next_id(), new_id, onode));
                            commands.push(
                                DeleteNodeCommand::new_ref(params.node_map[ni].duplicate(), b.duplicate()),
                            );
                        },
                        _ => {},
                    }
                },
                _ => {},
            }
        }
    }
    proof {
        let expected = insert_plan(*params, create, new_id, old(ids).next).0;
        assert(commands@ =~= expected);
    }
    commands
}

/// Creates a node of the kind that `name_input` names, with the next node
/// id, inserts it relative to the selected node as `display_menu` asks,
/// records the edit for undoing, and selects the new node. The node id is
/// used up even when the name is not in the catalog, in which case nothing
/// else changes.
pub fn create_node(params: &mut Params, undo_stack: &mut UndoStack, ids: &mut IdGenerator)
    requires
        old(params).wf(),
        old(params).node_id < i64::MAX,
        old(ids).next + 4 < usize::MAX,
    ensures
        final(params).wf(),
        final(params).node_id == old(params).node_id + 1,
        final(params).display_menu == old(params).display_menu,
        final(params).name_input == old(params).name_input,
        final(params).command_line == old(params).command_line,
        final(params).interaction_mode == old(params).interaction_mode,
        !is_catalog_name(old(params).name_input@) ==> final(params).selected_nodes == old(
            params,
        ).selected_nodes,
        !is_catalog_name(old(params).name_input@) ==> final(params)@ == old(params)@
            && final(undo_stack).undo@ == old(undo_stack).undo@ && final(undo_stack).redo@ == old(
            undo_stack,
        ).redo@,
        is_catalog_name(old(params).name_input@) ==> exists|n|
            #![trigger fresh_node(n, (old(params).node_id + 1) as i64, old(params).name_input@)]
            {
                let new_id = (old(params).node_id + 1) as i64;
                let g = GuiNodeData {
                    id: old(ids).next,
                    node_id: new_id,
                    label: old(params).name_input,
                };
                let p = Params { node_id: new_id, ..*old(params) };
                let create = Command::CreateNode(
                    CreateNodeCommand { node: n, g_node: g, previous_last_node: None },
                );
                let cs = insert_plan(p, create, new_id, (old(ids).next + 1) as usize).0;
                &&& fresh_node(n, new_id, old(params).name_input@)
                &&& final(params)@ == execute_all(cs, old(params)@).1
                &&& final(undo_stack).undo@.len() == old(undo_stack).undo@.len() + 1
                &&& final(undo_stack).undo@.drop_last() == old(undo_stack).undo@
                &&& final(undo_stack).undo@.last().commands@ == execute_all(cs, old(params)@).0
                &&& final(undo_stack).redo@.len() == 0
                &&& final(params).selected_nodes@ == seq![old(ids).next]
            },
{
    let new_node_id = params.node_id + 1;
    params.node_id = new_node_id;
    let ghost p = *params;
    match build(new_node_id, params.name_input.clone()) {
        Some(node) => {
            let ghost n = node;
            let gid = ids.next_id();
            let g_node = GuiNodeData {
                id: gid,
                node_id: new_node_id,
                label: params.name_input.clone(),
            };
            let create = CreateNodeCommand::new_ref(node, g_node);
            let commands = insert_commands(params, create, new_node_id, ids);
            let ghost cs = commands@;
            let mut group = CommandGroup::new(commands);
            group.execute(params);
            let ghost executed_group = group;
            undo_stack.push(group);
            let mut selected: Vec<usize> = Vec::new();
            selected.push(gid);
            params.selected_nodes = selected;
            proof {
                assert(fresh_node(n, new_node_id, p.name_input@));
                assert(final(undo_stack).undo@.last() == executed_group);
            }
        },
        None => {},
    }
}

} // verus!
