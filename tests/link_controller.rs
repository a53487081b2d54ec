use indexmap::IndexMap;
use rust_scripter::graph::{Link, TemplateApp};
use rust_scripter::registry::ParamType;
use rust_scripter::widget::LinkVertex;

fn empty_graph() -> TemplateApp {
    TemplateApp {
        functions: IndexMap::new(),
        links: Vec::new(),
        pending: None,
        last_rect_id: 0,
        next_function_id: 0,
    }
}

fn v(function_id: u64, param_id: u64) -> LinkVertex {
    LinkVertex { function_id, param_id }
}

/// Two default nodes: ids 0 and 1, each with inputs 0, 1, 2 and outputs 3, 4.
fn two_nodes() -> TemplateApp {
    let mut g = empty_graph();
    assert_eq!(g.add_function(), Some(0));
    assert_eq!(g.add_function(), Some(1));
    g
}

#[test]
fn click_output_then_input_makes_one_link() {
    // Node A keeps only its output "Output1", node B only its input "Input1".
    let mut g = two_nodes();
    for p in [0, 1, 2, 4] {
        assert!(g.delete_param(v(0, p)));
    }
    for p in [1, 2, 3, 4] {
        assert!(g.delete_param(v(1, p)));
    }
    g.sweep();
    let a = g.functions.get(&0).unwrap();
    assert_eq!(a.runnable.outputs.len(), 1);
    assert_eq!(a.runnable.outputs.get(&3).unwrap().param_name, "Output1");
    let b = g.functions.get(&1).unwrap();
    assert_eq!(b.runnable.inputs.len(), 1);
    assert_eq!(b.runnable.inputs.get(&0).unwrap().param_name, "Input1");
    assert_eq!(g.links.len(), 0);

    g.click_param(v(0, 3));
    g.click_param(v(1, 0));
    assert_eq!(g.links, vec![Link { start: v(0, 3), end: v(1, 0), should_be_deleted: false }]);
    assert_eq!(g.pending, None);
}

#[test]
fn click_input_then_output_links_from_the_output() {
    let mut g = two_nodes();
    g.click_param(v(1, 0));
    assert_eq!(g.pending, Some(v(1, 0)));
    g.click_param(v(0, 3));
    assert_eq!(g.links, vec![Link { start: v(0, 3), end: v(1, 0), should_be_deleted: false }]);
    assert_eq!(g.pending, None);
}

#[test]
fn click_two_ports_of_one_node_makes_no_link() {
    let mut g = two_nodes();
    g.click_param(v(0, 3));
    g.click_param(v(0, 0));
    assert!(g.links.is_empty());
    assert_eq!(g.pending, None);
}

#[test]
fn click_two_outputs_makes_no_link() {
    let mut g = two_nodes();
    g.click_param(v(0, 3));
    g.click_param(v(1, 4));
    assert!(g.links.is_empty());
    assert_eq!(g.pending, None);
}

#[test]
fn click_two_inputs_makes_no_link() {
    let mut g = two_nodes();
    g.click_param(v(0, 1));
    g.click_param(v(1, 2));
    assert!(g.links.is_empty());
    assert_eq!(g.pending, None);
}

#[test]
fn escape_drops_pending_and_keeps_links() {
    let mut g = TemplateApp::default();
    assert_eq!(g.links.len(), 1);
    g.click_param(v(0, 4));
    assert_eq!(g.pending, Some(v(0, 4)));
    g.cancel_link_if_esc();
    assert_eq!(g.pending, None);
    assert_eq!(g.links.len(), 1);
    // The next click starts a new selection rather than finishing the old one.
    g.click_param(v(1, 1));
    assert_eq!(g.pending, Some(v(1, 1)));
    assert_eq!(g.links.len(), 1);
}

#[test]
fn click_same_port_twice_keeps_it_pending() {
    let mut g = two_nodes();
    g.click_param(v(0, 3));
    g.click_param(v(0, 3));
    assert_eq!(g.pending, Some(v(0, 3)));
    assert!(g.links.is_empty());
}

#[test]
fn click_on_missing_port_is_ignored() {
    let mut g = two_nodes();
    g.click_param(v(0, 99));
    assert_eq!(g.pending, None);
    g.click_param(v(7, 0));
    assert_eq!(g.pending, None);
    g.click_param(v(0, 3));
    g.click_param(v(5, 0));
    assert_eq!(g.pending, Some(v(0, 3)));
    assert!(g.links.is_empty());
}

#[test]
fn click_on_port_being_renamed_is_ignored() {
    let mut g = two_nodes();
    assert!(g.begin_rename(v(1, 0)));
    g.click_param(v(0, 3));
    g.click_param(v(1, 0));
    assert_eq!(g.pending, Some(v(0, 3)));
    assert!(g.links.is_empty());
}

#[test]
fn renaming_the_pending_port_drops_the_selection() {
    let mut g = two_nodes();
    g.click_param(v(0, 3));
    assert!(g.begin_rename(v(0, 4)));
    assert_eq!(g.pending, Some(v(0, 3)));
    assert!(g.begin_rename(v(0, 3)));
    assert_eq!(g.pending, None);
    assert!(g.links.is_empty());
}

#[test]
fn duplicate_links_are_kept() {
    let mut g = two_nodes();
    g.click_param(v(0, 3));
    g.click_param(v(1, 0));
    g.click_param(v(1, 0));
    g.click_param(v(0, 3));
    assert_eq!(g.links.len(), 2);
    assert_eq!(g.links[0], g.links[1]);
}

#[test]
fn vertex_direction_classifies_by_registry() {
    let g = two_nodes();
    assert_eq!(g.vertex_direction(v(0, 0)), Some(ParamType::Input));
    assert_eq!(g.vertex_direction(v(0, 4)), Some(ParamType::Output));
    assert_eq!(g.vertex_direction(v(0, 5)), None);
    assert_eq!(g.vertex_direction(v(2, 0)), None);
}
