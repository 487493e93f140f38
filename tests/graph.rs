use mango::commandline::run;
use mango::commands::{
    Command, CommandGroup, CreateConnectionCommand, CreateNodeCommand, DeleteNodeCommand,
    DisconnectCommand, UndoStack,
};
use mango::document::{export, load, LoadError};
use mango::edits::{create_node, IdGenerator};
use mango::flow::{FlowData, NodeUIData};
use mango::nodes::{Lines, Node, Printed};
use mango::params::{Connection, CreateState, GuiNodeData, Params};
use mango::registry::build;

fn add(p: &mut Params, id: i64, kind: &str) {
    p.insert_node(build(id, kind.to_string()).unwrap());
}

fn wire(p: &mut Params, from: i64, to: i64) {
    p.connect_nodes(from, to, Some(1));
    p.insert_connection(Connection { id: 0, from, to });
}

fn pull_all(p: &mut Params, id: i64, stdin: &str) -> (FlowData, Vec<Printed>) {
    loop {
        let mut out = vec![];
        match p.pull(id, &mut out) {
            Ok(d) => return (d, out),
            Err(n) => p.provide_input(n, Ok(stdin.to_string())),
        }
    }
}

fn node(p: &Params, id: i64) -> Option<&Node> {
    p.node_map.iter().find(|n| n.id() == id)
}

fn ids_of(p: &Params) -> Vec<i64> {
    let mut v: Vec<i64> = p.node_map.iter().map(|n| n.id()).collect();
    v.sort();
    v
}

fn edges_of(p: &Params) -> Vec<(i64, i64)> {
    let mut v: Vec<(i64, i64)> = p.connections.iter().map(|c| (c.from, c.to)).collect();
    v.sort();
    v
}

fn gui(id: usize, node_id: i64) -> GuiNodeData {
    GuiNodeData { id, node_id, label: format!("n{}", node_id) }
}

#[test]
fn sum_of_parsed_lines() {
    let mut p = Params::new();
    add(&mut p, 1, "standard-in");
    add(&mut p, 2, "lines");
    add(&mut p, 3, "to-int");
    add(&mut p, 4, "sum");
    wire(&mut p, 1, 2);
    wire(&mut p, 2, 3);
    wire(&mut p, 3, 4);
    let mut out = vec![];
    assert_eq!(p.pull(4, &mut out), Err(1));
    let (d, printed) = pull_all(&mut p, 4, "1\n2\nfoo\n3");
    assert_eq!(d, FlowData::Int(6));
    assert!(printed.is_empty());
}

#[test]
fn standard_in_reads_once() {
    let mut p = Params::new();
    add(&mut p, 1, "standard-in");
    p.provide_input(1, Ok("first".to_string()));
    p.provide_input(1, Ok("second".to_string()));
    let mut out = vec![];
    assert_eq!(p.pull(1, &mut out), Ok(FlowData::String("first".to_string())));
    let mut q = Params::new();
    add(&mut q, 1, "standard-in");
    q.provide_input(1, Err("Failed to read from stdin".to_string()));
    assert_eq!(q.pull(1, &mut out), Ok(FlowData::Error("Failed to read from stdin".to_string())));
}

#[test]
fn standard_out_prints_upstream_lines() {
    let mut p = Params::new();
    add(&mut p, 1, "standard-in");
    add(&mut p, 2, "lines");
    add(&mut p, 3, "standard-out");
    wire(&mut p, 1, 2);
    wire(&mut p, 2, 3);
    let (d, printed) = pull_all(&mut p, 3, "x\ny");
    assert_eq!(d, FlowData::Nothing);
    assert_eq!(printed, vec![Printed::Line("x".to_string()), Printed::Line("y".to_string())]);
}

#[test]
fn pull_errors_missing_and_dangling_inputs() {
    let mut p = Params::new();
    add(&mut p, 1, "lines");
    add(&mut p, 2, "json-object");
    let mut out = vec![];
    assert_eq!(p.pull(1, &mut out), Ok(FlowData::Error("No input".to_string())));
    assert_eq!(p.pull(2, &mut out), Ok(FlowData::Error("Insufficient inputs".to_string())));
    assert_eq!(p.pull(9, &mut out), Ok(FlowData::Error("No input".to_string())));
    add(&mut p, 3, "sum");
    wire(&mut p, 3, 1);
    p.remove_node(3);
    assert_eq!(p.pull(1, &mut out), Ok(FlowData::Error("No input".to_string())));
}

#[test]
fn pull_detects_cycles() {
    let mut p = Params::new();
    add(&mut p, 1, "lines");
    add(&mut p, 2, "lines");
    wire(&mut p, 1, 2);
    wire(&mut p, 2, 1);
    let mut out = vec![];
    assert_eq!(p.pull(1, &mut out), Ok(FlowData::Error("Cycle detected".to_string())));
}

#[test]
fn json_object_in_a_graph() {
    let mut p = Params::new();
    add(&mut p, 1, "standard-in");
    add(&mut p, 2, "lines");
    add(&mut p, 3, "json-object");
    add(&mut p, 4, "json-stringify");
    wire(&mut p, 1, 2);
    p.connect_nodes(2, 3, Some(1));
    p.connect_nodes(2, 3, Some(2));
    wire(&mut p, 3, 4);
    let (d, _) = pull_all(&mut p, 4, "a\nb");
    assert_eq!(d, FlowData::String("{\"a\":\"a\",\"b\":\"b\"}".to_string()));
}

#[test]
fn connect_then_disconnect_restores_input() {
    let mut p = Params::new();
    add(&mut p, 1, "lines");
    add(&mut p, 2, "sum");
    p.connect_nodes(1, 2, Some(1));
    assert!(matches!(node(&p, 2), Some(Node::Sum(s)) if s.input == Some(1)));
    p.disconnect_nodes(2, Some(1));
    assert!(matches!(node(&p, 2), Some(Node::Sum(s)) if s.input.is_none()));
    p.connect_nodes(7, 2, Some(1));
    assert!(matches!(node(&p, 2), Some(Node::Sum(s)) if s.input.is_none()));
}

#[test]
fn find_producer_and_consumer() {
    let mut p = Params::new();
    add(&mut p, 1, "lines");
    add(&mut p, 2, "to-int");
    add(&mut p, 3, "sum");
    wire(&mut p, 1, 2);
    wire(&mut p, 2, 3);
    assert_eq!(p.find_input_node(2), Some(1));
    assert_eq!(p.find_output_node(2), Some(3));
    assert_eq!(p.find_input_node(1), None);
    assert_eq!(p.find_output_node(3), None);
    assert_eq!(p.terminal_nodes(), vec![3]);
}

#[test]
fn create_node_then_undo_restores_maps() {
    let mut p = Params::new();
    add(&mut p, 1, "lines");
    p.insert_gui_node(gui(100, 1));
    p.last_node = Some(100);
    let mut c = Command::CreateNode(CreateNodeCommand::new(build(2, "sum".to_string()).unwrap(), gui(200, 2)));
    c.execute(&mut p);
    assert_eq!(ids_of(&p), vec![1, 2]);
    assert_eq!(p.last_node, Some(200));
    c.undo(&mut p);
    assert_eq!(ids_of(&p), vec![1]);
    assert_eq!(p.gui_nodes.iter().map(|g| g.id).collect::<Vec<_>>(), vec![100]);
    assert_eq!(p.last_node, Some(100));
}

#[test]
fn group_undo_removes_connection_before_node() {
    let mut p = Params::new();
    add(&mut p, 1, "lines");
    let mut group = CommandGroup::new(vec![
        CreateNodeCommand::new_ref(build(2, "sum".to_string()).unwrap(), gui(200, 2)),
        CreateConnectionCommand::new_ref(300, 1, 2),
    ]);
    group.execute(&mut p);
    assert_eq!(edges_of(&p), vec![(1, 2)]);
    assert!(matches!(node(&p, 2), Some(Node::Sum(s)) if s.input == Some(1)));
    group.commands[1].undo(&mut p);
    assert!(edges_of(&p).is_empty());
    assert_eq!(ids_of(&p), vec![1, 2]);
    group.commands[0].undo(&mut p);
    assert_eq!(ids_of(&p), vec![1]);
    group.redo(&mut p);
    group.undo(&mut p);
    assert!(edges_of(&p).is_empty());
    assert_eq!(ids_of(&p), vec![1]);
}

#[test]
fn undo_redo_returns_to_the_same_graph() {
    let mut p = Params::new();
    let mut stack = UndoStack::new();
    let mut a = CommandGroup::new(vec![CreateNodeCommand::new_ref(build(1, "lines".to_string()).unwrap(), gui(10, 1))]);
    a.execute(&mut p);
    stack.push(a);
    let mut b = CommandGroup::new(vec![
        CreateNodeCommand::new_ref(build(2, "sum".to_string()).unwrap(), gui(20, 2)),
        CreateConnectionCommand::new_ref(30, 1, 2),
    ]);
    b.execute(&mut p);
    stack.push(b);
    let (ids, edges, last) = (ids_of(&p), edges_of(&p), p.last_node);
    stack.undo(&mut p);
    assert_eq!(ids_of(&p), vec![1]);
    assert_eq!(p.last_node, Some(10));
    stack.redo(&mut p);
    assert_eq!((ids_of(&p), edges_of(&p), p.last_node), (ids, edges, last));
    assert!(matches!(node(&p, 2), Some(Node::Sum(s)) if s.input == Some(1)));
}

#[test]
fn push_after_undo_clears_redo() {
    let mut p = Params::new();
    let mut stack = UndoStack::new();
    let mut a = CommandGroup::new(vec![CreateNodeCommand::new_ref(build(1, "lines".to_string()).unwrap(), gui(10, 1))]);
    a.execute(&mut p);
    stack.push(a);
    stack.undo(&mut p);
    let mut c = CommandGroup::new(vec![CreateNodeCommand::new_ref(build(3, "sum".to_string()).unwrap(), gui(30, 3))]);
    c.execute(&mut p);
    stack.push(c);
    let before = ids_of(&p);
    stack.redo(&mut p);
    assert_eq!(ids_of(&p), before);
    assert_eq!(before, vec![3]);
    assert_eq!(stack.undo.len(), 1);
    assert!(stack.redo.is_empty());
}

#[test]
fn undo_and_redo_on_empty_history_do_nothing() {
    let mut p = Params::new();
    add(&mut p, 1, "lines");
    let mut stack = UndoStack::new();
    stack.undo(&mut p);
    stack.redo(&mut p);
    assert_eq!(ids_of(&p), vec![1]);
}

#[test]
fn delete_and_disconnect_undo() {
    let mut p = Params::new();
    add(&mut p, 1, "lines");
    add(&mut p, 2, "sum");
    wire(&mut p, 1, 2);
    p.insert_gui_node(gui(20, 2));
    let mut d = Command::Disconnect(DisconnectCommand::new(1, 2));
    d.execute(&mut p);
    assert!(edges_of(&p).is_empty());
    assert!(matches!(node(&p, 2), Some(Node::Sum(s)) if s.input.is_none()));
    d.undo(&mut p);
    assert_eq!(edges_of(&p), vec![(1, 2)]);
    assert!(matches!(node(&p, 2), Some(Node::Sum(s)) if s.input == Some(1)));
    d.redo(&mut p);
    assert!(edges_of(&p).is_empty());
    let n2 = build(2, "sum".to_string()).unwrap();
    let mut del = Command::DeleteNode(DeleteNodeCommand::new(n2, gui(20, 2)));
    del.execute(&mut p);
    assert_eq!(ids_of(&p), vec![1]);
    assert!(p.gui_nodes.is_empty());
    del.undo(&mut p);
    assert_eq!(ids_of(&p), vec![1, 2]);
    assert_eq!(p.gui_nodes.len(), 1);
}

fn session_with_chain() -> (Params, UndoStack, IdGenerator) {
    let mut p = Params::new();
    add(&mut p, 1, "standard-in");
    add(&mut p, 2, "lines");
    add(&mut p, 3, "standard-out");
    p.insert_gui_node(gui(11, 1));
    p.insert_gui_node(gui(12, 2));
    p.insert_gui_node(gui(13, 3));
    wire(&mut p, 1, 2);
    wire(&mut p, 2, 3);
    p.node_id = 3;
    p.selected_nodes = vec![12];
    (p, UndoStack::new(), IdGenerator { next: 100 })
}

#[test]
fn insert_after_selected() {
    let (mut p, mut stack, mut ids) = session_with_chain();
    p.display_menu = CreateState::After;
    p.name_input = "sum".to_string();
    create_node(&mut p, &mut stack, &mut ids);
    assert_eq!(p.node_id, 4);
    assert_eq!(edges_of(&p), vec![(1, 2), (2, 3), (2, 4)]);
    assert_eq!(p.selected_nodes, vec![100]);
    assert_eq!(stack.undo.len(), 1);
    stack.undo(&mut p);
    assert_eq!(edges_of(&p), vec![(1, 2), (2, 3)]);
    assert_eq!(ids_of(&p), vec![1, 2, 3]);
}

#[test]
fn insert_before_selected() {
    let (mut p, mut stack, mut ids) = session_with_chain();
    p.display_menu = CreateState::Before;
    p.name_input = "to-int".to_string();
    create_node(&mut p, &mut stack, &mut ids);
    assert_eq!(edges_of(&p), vec![(1, 4), (2, 3), (4, 2)]);
    assert!(matches!(node(&p, 2), Some(Node::Lines(Lines { input: Some(4), .. }))));
    assert_eq!(ids.next, 103);
    stack.undo(&mut p);
    assert_eq!(edges_of(&p), vec![(1, 2), (2, 3)]);
    assert!(matches!(node(&p, 2), Some(Node::Lines(Lines { input: Some(1), .. }))));
}

#[test]
fn substitute_selected() {
    let (mut p, mut stack, mut ids) = session_with_chain();
    p.display_menu = CreateState::Substitute;
    p.name_input = "string-contains".to_string();
    create_node(&mut p, &mut stack, &mut ids);
    assert_eq!(ids_of(&p), vec![1, 3, 4]);
    assert_eq!(edges_of(&p), vec![(1, 4), (4, 3)]);
    stack.undo(&mut p);
    assert_eq!(ids_of(&p), vec![1, 2, 3]);
    assert_eq!(edges_of(&p), vec![(1, 2), (2, 3)]);
}

#[test]
fn create_node_with_unknown_name_changes_nothing() {
    let (mut p, mut stack, mut ids) = session_with_chain();
    p.display_menu = CreateState::After;
    p.name_input = "nope".to_string();
    create_node(&mut p, &mut stack, &mut ids);
    assert_eq!(p.node_id, 4);
    assert_eq!(ids_of(&p), vec![1, 2, 3]);
    assert!(stack.undo.is_empty());
}

#[test]
fn save_and_load_round_trip() {
    let (mut p, _, _) = session_with_chain();
    let mut filter = build(7, "string-contains".to_string()).unwrap();
    filter.set_value(&"value".to_string(), NodeUIData::StringData("bc".to_string()));
    p.insert_node(filter);
    wire(&mut p, 2, 7);
    let doc = export(&p);
    let mut ids = IdGenerator { next: 0 };
    let q = load(&doc, &mut ids).expect("loads");
    assert_eq!(ids_of(&q), ids_of(&p));
    assert_eq!(edges_of(&q), edges_of(&p));
    for n in p.node_map.iter() {
        let m = node(&q, n.id()).unwrap();
        assert_eq!(m.get_spec(), n.get_spec());
    }
    assert!(matches!(node(&q, 2), Some(Node::Lines(Lines { input: Some(1), .. }))));
}

#[test]
fn load_rejects_connection_to_missing_node() {
    let mut p = Params::new();
    add(&mut p, 1, "lines");
    let mut doc = export(&p);
    doc.connections.push((1, 5));
    let mut ids = IdGenerator { next: 0 };
    assert_eq!(load(&doc, &mut ids).err(), Some(LoadError::MissingNode { from: 1, to: 5 }));
}

#[test]
fn command_line_save() {
    let p = Params::new();
    let save = run(&"  w   out.yaml extra".to_string(), &p).expect("a save command");
    assert_eq!(save.file_name, "out.yaml");
    assert!(run(&"w".to_string(), &p).is_none());
    assert!(run(&"q out.yaml".to_string(), &p).is_none());
    assert!(run(&"wout.yaml".to_string(), &p).is_none());
}

#[test]
fn connection_from_missing_node_is_not_recorded() {
    let mut p = Params::new();
    add(&mut p, 1, "standard-in");
    add(&mut p, 2, "lines");
    wire(&mut p, 1, 2);
    let mut c = Command::CreateConnection(CreateConnectionCommand::new(5, 9, 2));
    c.execute(&mut p);
    assert_eq!(edges_of(&p), vec![(1, 2)]);
    assert!(matches!(node(&p, 2), Some(Node::Lines(Lines { input: Some(1), .. }))));
    c.undo(&mut p);
    assert_eq!(edges_of(&p), vec![(1, 2)]);
    assert!(matches!(node(&p, 2), Some(Node::Lines(Lines { input: Some(1), .. }))));
    c.redo(&mut p);
    assert_eq!(edges_of(&p), vec![(1, 2)]);
}

#[test]
fn connect_reports_missing_nodes() {
    let mut p = Params::new();
    add(&mut p, 1, "lines");
    add(&mut p, 2, "sum");
    assert!(p.connect_nodes(1, 2, Some(1)));
    assert!(!p.connect_nodes(3, 2, Some(1)));
    assert!(p.disconnect_nodes(2, Some(1)));
    assert!(!p.disconnect_nodes(3, Some(1)));
}

#[test]
fn load_hands_out_ids_after_the_largest() {
    let mut p = Params::new();
    add(&mut p, 4, "lines");
    add(&mut p, 9, "sum");
    add(&mut p, 2, "sum");
    let doc = export(&p);
    let mut ids = IdGenerator { next: 0 };
    let q = load(&doc, &mut ids).unwrap();
    assert_eq!(q.node_id, 9);
    let empty = load(&export(&Params::new()), &mut ids).unwrap();
    assert_eq!(empty.node_id, 0);
}
