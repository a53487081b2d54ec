use indexmap::IndexMap;
use rust_scripter::graph::{Link, TemplateApp};
use rust_scripter::widget::LinkVertex;

fn v(function_id: u64, param_id: u64) -> LinkVertex {
    LinkVertex { function_id, param_id }
}

fn linked_nodes() -> TemplateApp {
    let mut g = TemplateApp {
        functions: IndexMap::new(),
        links: Vec::new(),
        pending: None,
        last_rect_id: 0,
        next_function_id: 0,
    };
    g.add_function();
    g.add_function();
    g.add_function();
    // 0.Output1 -> 1.Input1, 1.Output2 -> 2.Input3, 0.Output2 -> 2.Input1
    g.click_param(v(0, 3));
    g.click_param(v(1, 0));
    g.click_param(v(1, 4));
    g.click_param(v(2, 2));
    g.click_param(v(0, 4));
    g.click_param(v(2, 0));
    assert_eq!(g.links.len(), 3);
    g
}

fn resolves(g: &TemplateApp, l: &Link) -> bool {
    let start = g.functions.get(&l.start.function_id);
    let end = g.functions.get(&l.end.function_id);
    match (start, end) {
        (Some(s), Some(e)) => {
            s.runnable.outputs.contains_key(&l.start.param_id) && e.runnable.inputs.contains_key(&l.end.param_id)
        },
        _ => false,
    }
}

#[test]
fn sweep_removes_deleted_ports_and_links_through_them() {
    let mut g = linked_nodes();
    assert!(g.delete_param(v(1, 0)));
    // Deletion is staged: the port and its link stay until the sweep.
    assert!(g.functions.get(&1).unwrap().runnable.inputs.contains_key(&0));
    assert_eq!(g.links.len(), 3);
    g.sweep();
    assert!(!g.functions.get(&1).unwrap().runnable.inputs.contains_key(&0));
    assert_eq!(
        g.links,
        vec![
            Link { start: v(1, 4), end: v(2, 2), should_be_deleted: false },
            Link { start: v(0, 4), end: v(2, 0), should_be_deleted: false },
        ]
    );
    for l in g.links.iter() {
        assert!(resolves(&g, l));
    }
}

#[test]
fn sweep_after_mixed_edits_leaves_only_resolving_links() {
    let mut g = linked_nodes();
    g.add_param(2, rust_scripter::registry::ParamType::Input);
    assert!(g.delete_param(v(0, 4)));
    assert!(g.close_function(1));
    g.add_function();
    g.sweep();
    assert_eq!(g.links.len(), 0);
    assert_eq!(g.functions.len(), 3);
    for l in g.links.iter() {
        assert!(resolves(&g, l));
    }
}

#[test]
fn closing_a_node_removes_its_links_at_the_sweep() {
    let mut g = linked_nodes();
    assert!(g.close_function(1));
    g.sweep();
    assert!(g.functions.get(&1).is_none());
    assert_eq!(g.functions.keys().copied().collect::<Vec<u64>>(), vec![0, 2]);
    assert_eq!(g.links, vec![Link { start: v(0, 4), end: v(2, 0), should_be_deleted: false }]);
    for l in g.links.iter() {
        assert_ne!(l.start.function_id, 1);
        assert_ne!(l.end.function_id, 1);
    }
}

#[test]
fn close_missing_node_changes_nothing() {
    let mut g = linked_nodes();
    assert!(!g.close_function(9));
    g.sweep();
    assert_eq!(g.functions.len(), 3);
    assert_eq!(g.links.len(), 3);
}

#[test]
fn deleted_link_goes_at_the_sweep() {
    let mut g = linked_nodes();
    assert!(g.delete_link(1));
    assert!(g.links[1].should_be_deleted);
    assert!(!g.delete_link(3));
    g.sweep();
    assert_eq!(
        g.links,
        vec![
            Link { start: v(0, 3), end: v(1, 0), should_be_deleted: false },
            Link { start: v(0, 4), end: v(2, 0), should_be_deleted: false },
        ]
    );
}

#[test]
fn sweep_drops_pending_selection_of_a_deleted_port() {
    let mut g = linked_nodes();
    g.click_param(v(2, 1));
    assert!(g.delete_param(v(2, 1)));
    g.sweep();
    assert_eq!(g.pending, None);

    g.click_param(v(2, 0));
    g.sweep();
    assert_eq!(g.pending, Some(v(2, 0)));
}

#[test]
fn sweep_keeps_the_order_of_remaining_ports() {
    let mut g = linked_nodes();
    let id = g.add_param(0, rust_scripter::registry::ParamType::Input).unwrap();
    assert_eq!(id, 5);
    assert!(g.delete_param(v(0, 1)));
    g.sweep();
    let ins: Vec<u64> = g.functions.get(&0).unwrap().runnable.inputs.keys().copied().collect();
    assert_eq!(ins, vec![0, 2, 5]);
}

#[test]
fn port_ids_are_not_reused_after_deletion() {
    let mut g = linked_nodes();
    assert!(g.delete_param(v(0, 4)));
    g.sweep();
    let id = g.add_param(0, rust_scripter::registry::ParamType::Output).unwrap();
    assert_eq!(id, 5);
    let outs: Vec<u64> = g.functions.get(&0).unwrap().runnable.outputs.keys().copied().collect();
    assert_eq!(outs, vec![3, 5]);
}

#[test]
fn node_ids_are_not_reused_after_closing() {
    let mut g = linked_nodes();
    assert!(g.close_function(2));
    g.sweep();
    assert_eq!(g.add_function(), Some(3));
    assert_eq!(g.functions.keys().copied().collect::<Vec<u64>>(), vec![0, 1, 3]);
}

#[test]
fn sweep_closes_rename_session_of_a_deleted_port() {
    let mut g = linked_nodes();
    assert!(g.begin_rename(v(1, 2)));
    assert!(g.delete_param(v(1, 2)));
    g.sweep();
    assert!(g.functions.get(&1).unwrap().rename_options.is_none());
}
