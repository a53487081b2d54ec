use indexmap::IndexMap;
use rust_scripter::graph::TemplateApp;
use rust_scripter::widget::LinkVertex;

fn v(function_id: u64, param_id: u64) -> LinkVertex {
    LinkVertex { function_id, param_id }
}

#[test]
fn new_without_state_starts_from_the_initial_graph() {
    let g = TemplateApp::new(None);
    assert_eq!(g.functions.len(), 2);
    assert_eq!(g.links.len(), 1);
    assert_eq!(g.last_rect_id, 3);
}

#[test]
fn new_keeps_a_restored_graph_and_drops_transient_state() {
    let mut s = TemplateApp::default();
    s.add_function();
    s.click_param(v(2, 4));
    assert!(s.begin_rename(v(1, 0)));
    assert!(s.functions.get_mut(&0).unwrap().begin_edit(0));
    let g = TemplateApp::new(Some(s));
    assert_eq!(g.functions.keys().copied().collect::<Vec<u64>>(), vec![0, 1, 2]);
    assert_eq!(g.links.len(), 1);
    assert_eq!(g.pending, None);
    assert!(g.functions.values().all(|w| w.rename_options.is_none() && w.edit_options.is_none()));
    // The last node is "Function #3": new nodes are numbered from 4.
    assert_eq!(g.last_rect_id, 4);
    assert_eq!(g.next_function_id, 3);
}

#[test]
fn new_keeps_the_counter_when_the_last_name_has_no_digit() {
    let mut s = TemplateApp::default();
    s.functions.get_mut(&1).unwrap().runnable.name = "Adder".to_string();
    s.last_rect_id = 8;
    let g = TemplateApp::new(Some(s));
    assert_eq!(g.last_rect_id, 8);
    assert_eq!(g.functions.len(), 2);
}

#[test]
fn new_falls_back_when_the_restored_graph_is_empty() {
    let s = TemplateApp { functions: IndexMap::new(), links: Vec::new(), pending: None, last_rect_id: 9, next_function_id: 4 };
    let g = TemplateApp::new(Some(s));
    assert_eq!(g.functions.len(), 2);
    assert_eq!(g.last_rect_id, 3);
}

#[test]
fn new_falls_back_when_the_restored_graph_is_inconsistent() {
    let mut s = TemplateApp::default();
    s.next_function_id = 1;
    assert!(!s.is_wf());
    let g = TemplateApp::new(Some(s));
    assert!(g.is_wf());
    assert_eq!(g.next_function_id, 2);
    assert_eq!(g.last_rect_id, 3);
}

#[test]
fn is_wf_checks_ids() {
    let g = TemplateApp::default();
    assert!(g.is_wf());
    let mut h = TemplateApp::default();
    h.functions.get_mut(&0).unwrap().id = 5;
    assert!(!h.is_wf());
    let mut k = TemplateApp::default();
    k.functions.get_mut(&1).unwrap().runnable.next_param_id = 4;
    assert!(!k.is_wf());
    let mut m = TemplateApp::default();
    let p = rust_scripter::registry::FunctionParam::default();
    m.functions.get_mut(&1).unwrap().runnable.outputs.insert(0, p);
    assert!(!m.is_wf());
}

#[test]
fn is_wf_rejects_a_self_link() {
    let mut g = TemplateApp::default();
    g.links.push(rust_scripter::graph::Link { start: v(0, 3), end: v(0, 0), should_be_deleted: false });
    assert!(!g.is_wf());
    let h = TemplateApp::new(Some(g));
    assert!(h.is_wf());
    assert_eq!(h.links.len(), 1);
    assert_eq!(h.links[0].end, v(1, 0));
}
